//! The client side of a session: the table of the latest snapshot of every
//! participant, and the order in which frames arrive on the connection to
//! the relay (the identity first, snapshots after).
use vstd::prelude::*;

use crate::frame::{be64_value, decode_identity, FrameError};
use crate::playerstate::{initial_state, PlayerState, PlayerStateView};

verus! {

/// The latest snapshot of every participant seen so far, one slot per
/// identity; slots only ever get added.
pub struct PeerTable {
    slots: Vec<PlayerState>,
}

impl View for PeerTable {
    type V = Seq<PlayerStateView>;

    closed spec fn view(&self) -> Seq<PlayerStateView> {
        self.slots@.map_values(|s: PlayerState| s@)
    }
}

/// Slot `k` of the table holds a snapshot of participant `k`, with a board of
/// full size.
pub open spec fn table_wf(t: Seq<PlayerStateView>) -> bool {
    forall|k: int| 0 <= k < t.len() ==> (#[trigger] t[k]).id == k && t[k].board_wf()
}

impl PeerTable {
    /// A table with a starting snapshot for every participant up to `me`.
    pub fn new(me: usize) -> (r: PeerTable)
        requires
            me < usize::MAX,
        ensures
            r@.len() == me + 1,
            forall|k: int| 0 <= k <= me ==> #[trigger] r@[k] == initial_state(k as usize),
            table_wf(r@),
    {
        let mut slots: Vec<PlayerState> = Vec::new();
        let mut k: usize = 0;
        while k <= me
            invariant
                k <= me + 1,
                me < usize::MAX,
                slots@.len() == k,
                forall|q: int| 0 <= q < k ==> #[trigger] slots@[q]@ == initial_state(q as usize),
            decreases me + 1 - k,
        {
            slots.push(PlayerState::new(k));
            k = k + 1;
        }
        PeerTable { slots }
    }

    /// The number of slots.
    pub fn len(&self) -> (r: usize)
        ensures
            r == self@.len(),
    {
        self.slots.len()
    }

    /// Stores `ps` as the latest snapshot of participant `ps.id`, adding a
    /// starting snapshot for every participant not seen yet below it. Refuses
    /// the largest identity, which would leave no room for its slot.
    pub fn publish(&mut self, ps: PlayerState) -> (r: bool)
        requires
            table_wf(old(self)@),
            ps@.board_wf(),
        ensures
            table_wf(final(self)@),
            r == (ps.id < usize::MAX),
            !r ==> final(self)@ == old(self)@,
            r ==> {
                &&& final(self)@.len() == if ps.id < old(self)@.len() {
                    old(self)@.len() as int
                } else {
                    ps.id + 1
                }
                &&& final(self)@[ps.id as int] == ps@
                &&& forall|k: int|
                    0 <= k < final(self)@.len() && k != ps.id ==> #[trigger] final(self)@[k] == if k
                        < old(self)@.len() {
                        old(self)@[k]
                    } else {
                        initial_state(k as usize)
                    }
            },
    {
        let id = ps.id;
        if id == usize::MAX {
            return false;
        }
        let ghost before = self@;
        while self.slots.len() <= id
            invariant
                id < usize::MAX,
                before == old(self)@,
                self.slots@.len() >= before.len(),
                self.slots@.len() <= if id < before.len() { before.len() as int } else { id + 1 },
                forall|k: int|
                    0 <= k < self.slots@.len() ==> #[trigger] self.slots@[k]@ == if k < before.len() {
                        before[k]
                    } else {
                        initial_state(k as usize)
                    },
            decreases id + 1 - self.slots@.len(),
        {
            let k = self.slots.len();
            self.slots.push(PlayerState::new(k));
        }
        self.slots.set(id, ps);
        true
    }

    /// Every participant's latest snapshot, in order of identity, with the
    /// slot of `me` holding `me` itself.
    pub fn visible_states(&self, me: &PlayerState) -> (r: Vec<PlayerState>)
        ensures
            r@.len() == self@.len(),
            forall|k: int|
                0 <= k < r@.len() ==> (#[trigger] r@[k])@ == if k == me.id {
                    me@
                } else {
                    self@[k]
                },
    {
        let mut out: Vec<PlayerState> = Vec::new();
        let mut i: usize = 0;
        while i < self.slots.len()
            invariant
                i <= self.slots@.len(),
                out@.len() == i,
                forall|k: int|
                    0 <= k < i ==> (#[trigger] out@[k])@ == if k == me.id {
                        me@
                    } else {
                        self@[k]
                    },
            decreases self.slots@.len() - i,
        {
            if i == me.id {
                out.push(me.clone());
            } else {
                out.push(self.slots[i].clone());
            }
            i = i + 1;
        }
        out
    }
}

/// Where a connection to the relay stands: its first frame carries this
/// participant's identity, every later one a peer's snapshot.
#[derive(Copy, Clone, Debug, PartialEq, Eq, Structural)]
pub enum SessionLink {
    AwaitingIdentity,
    Established(usize),
}

/// What a frame received from the relay carries.
#[derive(Debug)]
pub enum Inbound {
    /// This participant's identity.
    Identity(usize),
    /// A peer's serialised snapshot.
    Snapshot(Vec<u8>),
}

impl SessionLink {
    pub fn new() -> (r: SessionLink)
        ensures
            r == SessionLink::AwaitingIdentity,
    {
        SessionLink::AwaitingIdentity
    }

    /// Takes the payload of the next frame received from the relay. The
    /// first one must be an identity; a malformed one is refused and the
    /// link keeps waiting for it.
    pub fn on_frame(&mut self, payload: Vec<u8>) -> (r: Result<Inbound, FrameError>)
        ensures
            match *old(self) {
                SessionLink::AwaitingIdentity => if payload@.len() == 8 && be64_value(payload@)
                    <= usize::MAX {
                    let id = be64_value(payload@) as usize;
                    &&& r matches Ok(Inbound::Identity(v)) && v == id
                    &&& *final(self) == SessionLink::Established(id)
                } else {
                    &&& r matches Err(e) && e == FrameError::BadIdentity
                    &&& *final(self) == *old(self)
                },
                SessionLink::Established(_) => {
                    &&& r matches Ok(Inbound::Snapshot(p)) && p@ == payload@
                    &&& *final(self) == *old(self)
                },
            },
    {
        match *self {
            SessionLink::AwaitingIdentity => match decode_identity(payload.as_slice()) {
                Ok(id) => {
                    *self = SessionLink::Established(id);
                    Ok(Inbound::Identity(id))
                },
                Err(e) => Err(e),
            },
            SessionLink::Established(_) => Ok(Inbound::Snapshot(payload)),
        }
    }
}

} // verus!
