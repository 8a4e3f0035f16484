//! The two-party handshake by which two participants swap their upcoming pieces.
use vstd::prelude::*;

use crate::playerstate::{PlayerState, PlayerStateView, Shape, TradeState};

verus! {

/// The handshake state after the local user asks to trade with `target`:
/// from `NoTrade` a proposal starts; asking for the same peer again cancels
/// it, asking for another peer redirects it; a confirmed trade is left alone.
pub open spec fn toggled(t: TradeState, target: usize) -> TradeState {
    match t {
        TradeState::NoTrade => TradeState::Pending(target),
        TradeState::Pending(id) => if id == target {
            TradeState::NoTrade
        } else {
            TradeState::Pending(target)
        },
        TradeState::Confirm(_) => t,
    }
}

/// The peer `d` places away from `id` in a ring of `n` participants.
pub open spec fn ring_target(id: usize, d: isize, n: isize) -> int {
    (id + d + n) % (n as int)
}

impl PlayerState {
    /// Handles the user's request to trade with the peer `d` places away in a
    /// ring of `n` participants; ignored while paused.
    pub fn toggle_swap(&mut self, d: isize, n: isize)
        requires
            n > 0,
        ensures
            old(self).paused ==> final(self)@ == old(self)@,
            !old(self).paused ==> final(self)@ == (PlayerStateView {
                next_tetromino: (
                    old(self).next_tetromino.0,
                    old(self).next_tetromino.1,
                    toggled(old(self).next_tetromino.2, ring_target(old(self).id, d, n) as usize),
                ),
                ..old(self)@
            }),
            0 <= ring_target(old(self).id, d, n) < n,
    {
        let m: i128 = n as i128;
        let s: i128 = self.id as i128 + d as i128 + m;
        let target: usize = match s.checked_rem_euclid(m) {
            Some(v) => v as usize,
            None => 0,
        };
        if !self.paused {
            let t = match self.next_tetromino.2 {
                TradeState::NoTrade => TradeState::Pending(target),
                TradeState::Pending(id) => if id == target {
                    TradeState::NoTrade
                } else {
                    TradeState::Pending(target)
                },
                TradeState::Confirm(id) => TradeState::Confirm(id),
            };
            self.next_tetromino = (self.next_tetromino.0, self.next_tetromino.1, t);
        }
    }
}

/// Why a handshake tick could not run.
#[derive(Copy, Clone, Debug, PartialEq, Eq, Structural)]
pub enum TradeError {
    /// The handshake names a peer whose snapshot has never been seen.
    UnknownPeer(usize),
}

/// The peer that a handshake state names, if any.
pub open spec fn trade_partner(t: TradeState) -> Option<usize> {
    match t {
        TradeState::NoTrade => None,
        TradeState::Pending(id) => Some(id),
        TradeState::Confirm(id) => Some(id),
    }
}

/// `mine` with its handshake state replaced by `t`.
pub open spec fn with_trade(mine: (Shape, usize, TradeState), t: TradeState) -> (
    Shape,
    usize,
    TradeState,
) {
    (mine.0, mine.1, t)
}

/// The exchange itself: the saved shape becomes the upcoming piece, at its
/// first rotation and with the handshake over; with no saved shape nothing is
/// exchanged. The saved shape is discarded either way.
pub open spec fn traded(mine: (Shape, usize, TradeState), saved: Option<Shape>) -> (
    (Shape, usize, TradeState),
    Option<Shape>,
) {
    match saved {
        Some(s) => ((s, 0, TradeState::NoTrade), None),
        None => (mine, None),
    }
}

/// One tick of the handshake for participant `me`, whose upcoming piece is
/// `mine`, against `theirs`, the upcoming piece of the peer it names as last
/// seen, with `saved` the shape remembered from that peer. Returns the new
/// upcoming piece and the new saved shape.
pub open spec fn trade_step(
    me: usize,
    mine: (Shape, usize, TradeState),
    theirs: (Shape, usize, TradeState),
    saved: Option<Shape>,
) -> ((Shape, usize, TradeState), Option<Shape>) {
    match mine.2 {
        TradeState::NoTrade => (mine, saved),
        TradeState::Pending(target) => match theirs.2 {
            TradeState::NoTrade => (mine, Some(theirs.0)),
            TradeState::Pending(id) => if id == me {
                (with_trade(mine, TradeState::Confirm(target)), Some(theirs.0))
            } else {
                (mine, Some(theirs.0))
            },
            TradeState::Confirm(id) => if id == me {
                (with_trade(mine, TradeState::Confirm(target)), Some(theirs.0))
            } else {
                (with_trade(mine, TradeState::NoTrade), None)
            },
        },
        TradeState::Confirm(_) => match theirs.2 {
            TradeState::NoTrade => traded(mine, saved),
            TradeState::Pending(id) => if id == me {
                (mine, saved)
            } else {
                (with_trade(mine, TradeState::NoTrade), None)
            },
            TradeState::Confirm(id) => if id == me {
                traded(mine, saved)
            } else {
                (with_trade(mine, TradeState::NoTrade), None)
            },
        },
    }
}

/// Performs the exchange of a confirmed trade (see `traded`).
pub fn make_trade(my_state: &mut PlayerState, saved_shape: &mut Option<Shape>)
    ensures
        (final(my_state).next_tetromino, *final(saved_shape)) == traded(
            old(my_state).next_tetromino,
            *old(saved_shape),
        ),
        final(my_state)@ == (PlayerStateView {
            next_tetromino: final(my_state).next_tetromino,
            ..old(my_state)@
        }),
{
    if let Some(shape) = *saved_shape {
        my_state.next_tetromino = (shape, 0, TradeState::NoTrade);
    }
    *saved_shape = None;
}

/// Runs one tick of the trade handshake for `my_state` against `states`, the
/// latest snapshot of every participant indexed by identity. Fails, changing
/// nothing, where the handshake names a peer with no entry in `states`.
pub fn check_target_swap(
    my_state: &mut PlayerState,
    states: &Vec<PlayerState>,
    saved_shape: &mut Option<Shape>,
) -> (r: Result<(), TradeError>)
    ensures
        match trade_partner(old(my_state).next_tetromino.2) {
            None => r is Ok && final(my_state)@ == old(my_state)@ && *final(saved_shape)
                == *old(saved_shape),
            Some(target) => if target < states.len() {
                &&& r is Ok
                &&& (final(my_state).next_tetromino, *final(saved_shape)) == trade_step(
                    old(my_state).id,
                    old(my_state).next_tetromino,
                    states@[target as int].next_tetromino,
                    *old(saved_shape),
                )
                &&& final(my_state)@ == (PlayerStateView {
                    next_tetromino: final(my_state).next_tetromino,
                    ..old(my_state)@
                })
            } else {
                &&& r == Err::<(), TradeError>(TradeError::UnknownPeer(target))
                &&& final(my_state)@ == old(my_state)@
                &&& *final(saved_shape) == *old(saved_shape)
            },
        },
{
    let me = my_state.id;
    match my_state.next_tetromino.2 {
        TradeState::NoTrade => Ok(()),
        TradeState::Pending(target) => {
            if target >= states.len() {
                return Err(TradeError::UnknownPeer(target));
            }
            let theirs = states[target].next_tetromino;
            *saved_shape = Some(theirs.0);
            match theirs.2 {
                TradeState::NoTrade => {},
                TradeState::Pending(id) => {
                    if id == me {
                        my_state.next_tetromino.2 = TradeState::Confirm(target);
                    }
                },
                TradeState::Confirm(id) => {
                    if id == me {
                        my_state.next_tetromino.2 = TradeState::Confirm(target);
                    } else {
                        *saved_shape = None;
                        my_state.next_tetromino.2 = TradeState::NoTrade;
                    }
                },
            }
            Ok(())
        },
        TradeState::Confirm(target) => {
            if target >= states.len() {
                return Err(TradeError::UnknownPeer(target));
            }
            match states[target].next_tetromino.2 {
                TradeState::NoTrade => make_trade(my_state, saved_shape),
                TradeState::Pending(id) => {
                    if id != me {
                        *saved_shape = None;
                        my_state.next_tetromino.2 = TradeState::NoTrade;
                    }
                },
                TradeState::Confirm(id) => {
                    if id == me {
                        make_trade(my_state, saved_shape);
                    } else {
                        *saved_shape = None;
                        my_state.next_tetromino.2 = TradeState::NoTrade;
                    }
                },
            }
            Ok(())
        },
    }
}

/// Asking twice in a row, from no trade, to trade with the same peer first
/// proposes the trade and then cancels it.
pub proof fn lemma_repeated_request_cancels(target: usize)
    ensures
        toggled(TradeState::NoTrade, target) == TradeState::Pending(target),
        toggled(toggled(TradeState::NoTrade, target), target) == TradeState::NoTrade,
{
}

/// Two participants `a` and `b` that propose a trade to each other both
/// confirm it on their next tick; once each sees the other confirm, their next
/// tick swaps the two upcoming shapes, resets both rotations to the first one,
/// ends both handshakes and discards both saved shapes.
pub proof fn lemma_mutual_proposals_complete(
    a: usize,
    b: usize,
    mine_a: (Shape, usize, TradeState),
    mine_b: (Shape, usize, TradeState),
    saved_a: Option<Shape>,
    saved_b: Option<Shape>,
)
    requires
        mine_a.2 == TradeState::Pending(b),
        mine_b.2 == TradeState::Pending(a),
    ensures
        ({
            let (a1, saved_a1) = trade_step(a, mine_a, mine_b, saved_a);
            let (b1, saved_b1) = trade_step(b, mine_b, mine_a, saved_b);
            &&& a1.2 == TradeState::Confirm(b)
            &&& b1.2 == TradeState::Confirm(a)
            &&& trade_step(a, a1, b1, saved_a1) == ((mine_b.0, 0usize, TradeState::NoTrade),
                None::<Shape>)
            &&& trade_step(b, b1, a1, saved_b1) == ((mine_a.0, 0usize, TradeState::NoTrade),
                None::<Shape>)
        }),
{
}

/// A handshake tick never leaves a participant confirmed without a saved
/// shape, provided it did not start that way: the exchange always has a shape
/// to put in.
pub proof fn lemma_confirm_keeps_saved_shape(
    me: usize,
    mine: (Shape, usize, TradeState),
    theirs: (Shape, usize, TradeState),
    saved: Option<Shape>,
)
    requires
        mine.2 is Confirm ==> saved is Some,
    ensures
        ({
            let (next, kept) = trade_step(me, mine, theirs, saved);
            next.2 is Confirm ==> kept is Some
        }),
{
}

} // verus!
