//! Session synchronisation for a multiplayer falling-block game: wire framing,
//! a fan-out relay, the peer snapshot table, and the trade and board-rotation
//! handshakes, each with its contract.

pub mod playerstate;
pub mod trade;
pub mod barrier;
pub mod mechanics;
pub mod frame;
pub mod relay;
pub mod session;
