//! The relay's coordinating state: which connections are registered, which
//! identity the next one gets, and to whom a message is forwarded. The relay
//! never reads what it forwards.
use vstd::prelude::*;

use crate::frame::{encode_frame, encode_identity, frame_of, identity_payload, spec_encode_frame};

verus! {

/// The registry of a relay.
pub struct Relay {
    next_id: usize,
    conns: Vec<usize>,
}

/// The mathematical value of a `Relay`.
pub struct RelayView {
    /// The identity that the next connection gets.
    pub next_id: nat,
    /// The identities of the registered connections, in order of arrival.
    pub registered: Seq<usize>,
}

impl View for Relay {
    type V = RelayView;

    closed spec fn view(&self) -> RelayView {
        RelayView { next_id: self.next_id as nat, registered: self.conns@ }
    }
}

impl RelayView {
    /// Registered identities increase strictly and are all below `next_id`.
    pub open spec fn wf(self) -> bool {
        &&& forall|i: int, j: int|
            0 <= i < j < self.registered.len() ==> self.registered[i] < self.registered[j]
        &&& forall|i: int| 0 <= i < self.registered.len() ==> self.registered[i] < self.next_id
    }

    /// The registry after one more connection arrives.
    pub open spec fn accepted(self) -> RelayView {
        RelayView { next_id: self.next_id + 1, registered: self.registered.push(self.next_id as usize) }
    }
}

/// The registry of a relay that has just started.
pub open spec fn fresh_relay() -> RelayView {
    RelayView { next_id: 0, registered: Seq::empty() }
}

/// The registry after `n` connections arrive, one after the other.
pub open spec fn after_accepts(v: RelayView, n: nat) -> RelayView
    decreases n,
{
    if n == 0 {
        v
    } else {
        after_accepts(v, (n - 1) as nat).accepted()
    }
}

/// The identities that `n` connections arriving one after the other get, in
/// order of arrival.
pub open spec fn assigned_ids(v: RelayView, n: nat) -> Seq<nat>
    decreases n,
{
    if n == 0 {
        Seq::empty()
    } else {
        assigned_ids(v, (n - 1) as nat).push(after_accepts(v, (n - 1) as nat).next_id)
    }
}

/// `s` without the occurrences of `from`, order kept.
pub open spec fn without(s: Seq<usize>, from: usize) -> Seq<usize>
    decreases s.len(),
{
    if s.len() == 0 {
        s
    } else if s.last() != from {
        without(s.drop_last(), from).push(s.last())
    } else {
        without(s.drop_last(), from)
    }
}

impl Relay {
    pub fn new() -> (r: Relay)
        ensures
            r@ == fresh_relay(),
            r@.wf(),
    {
        Relay { next_id: 0, conns: Vec::new() }
    }

    /// Registers a new connection: returns its identity and the frame that
    /// tells it that identity. Returns `None`, and changes nothing, once
    /// every identity has been given out.
    pub fn accept(&mut self) -> (r: Option<(usize, Vec<u8>)>)
        requires
            old(self)@.wf(),
        ensures
            final(self)@.wf(),
            old(self)@.next_id < usize::MAX ==> {
                &&& r matches Some((id, frame)) && id == old(self)@.next_id && frame@ == frame_of(
                    identity_payload(id),
                )
                &&& final(self)@ == old(self)@.accepted()
            },
            old(self)@.next_id == usize::MAX ==> r is None && final(self)@ == old(self)@,
    {
        if self.next_id == usize::MAX {
            return None;
        }
        let id = self.next_id;
        let payload = encode_identity(id);
        let frame = match encode_frame(payload.as_slice()) {
            Ok(f) => f,
            Err(_) => {
                assert(spec_encode_frame(identity_payload(id)) is Ok);
                return None;
            },
        };
        self.conns.push(id);
        self.next_id = id + 1;
        assert(self.conns@ == old(self).conns@.push(id));
        assert(self@.registered == old(self)@.registered.push(id));
        assert(forall|i: int| 0 <= i < old(self)@.registered.len() ==> self@.registered[i] == old(self)@.registered[i]);
        Some((id, frame))
    }

    /// The registered connections that a message from connection `from` goes
    /// to: every one but `from`, each once, in order of arrival.
    pub fn recipients(&self, from: usize) -> (r: Vec<usize>)
        requires
            self@.wf(),
        ensures
            r@ == without(self@.registered, from),
            forall|j: usize| r@.contains(j) <==> (self@.registered.contains(j) && j != from),
            r@.no_duplicates(),
    {
        let mut out: Vec<usize> = Vec::new();
        let mut i: usize = 0;
        while i < self.conns.len()
            invariant
                i <= self.conns@.len(),
                self@.wf(),
                out@ == without(self.conns@.subrange(0, i as int), from),
            decreases self.conns@.len() - i,
        {
            assert(self.conns@.subrange(0, i as int + 1).drop_last() == self.conns@.subrange(0, i as int));
            if self.conns[i] != from {
                out.push(self.conns[i]);
            }
            i = i + 1;
        }
        assert(self.conns@.subrange(0, self.conns@.len() as int) == self.conns@);
        proof {
            assert(self@.registered == self.conns@);
            lemma_without_of_increasing(self.conns@, from);
        }
        out
    }
}

/// Dropping one value from a strictly increasing sequence keeps exactly the
/// other elements, with no repeats.
proof fn lemma_without_of_increasing(s: Seq<usize>, from: usize)
    requires
        forall|i: int, j: int| 0 <= i < j < s.len() ==> s[i] < s[j],
    ensures
        forall|j: usize| #[trigger] without(s, from).contains(j) <==> (s.contains(j) && j != from),
        without(s, from).no_duplicates(),
        forall|k: int| 0 <= k < without(s, from).len() ==> s.contains(#[trigger] without(s, from)[k]),
    decreases s.len(),
{
    if s.len() > 0 {
        let init = s.drop_last();
        let w = without(s, from);
        let wi = without(init, from);
        lemma_without_of_increasing(init, from);
        assert forall|j: usize| #[trigger] w.contains(j) <==> (s.contains(j) && j != from) by {
            if s.contains(j) && j != from {
                let k = choose|k: int| 0 <= k < s.len() && s[k] == j;
                if k < s.len() - 1 {
                    assert(init[k] == j);
                    assert(wi.contains(j));
                    let m = choose|m: int| 0 <= m < wi.len() && wi[m] == j;
                    assert(w[m] == j);
                } else {
                    assert(w[w.len() - 1] == j);
                }
            }
            if w.contains(j) {
                let m = choose|m: int| 0 <= m < w.len() && w[m] == j;
                if m < wi.len() {
                    assert(wi[m] == j);
                    assert(wi.contains(j));
                    let k = choose|k: int| 0 <= k < init.len() && init[k] == j;
                    assert(s[k] == j);
                } else {
                    assert(s[s.len() - 1] == j);
                }
            }
        }
        assert forall|k: int| 0 <= k < w.len() implies s.contains(#[trigger] w[k]) by {
            assert(w.contains(w[k]));
        }
        assert forall|a: int, b: int| 0 <= a < w.len() && 0 <= b < w.len() && a != b implies w[a]
            != w[b] by {
            if s.last() != from {
                let last = w.len() - 1;
                if a == last || b == last {
                    let other = if a == last {
                        b
                    } else {
                        a
                    };
                    let v = wi[other];
                    assert(init.contains(v));
                    let k = choose|k: int| 0 <= k < init.len() && init[k] == v;
                    assert(s[k] == v);
                    assert(v < s.last());
                } else {
                    assert(wi[a] != wi[b]);
                }
            } else {
                assert(wi[a] != wi[b]);
            }
        }
    }
}

/// Connections that arrive one after the other get consecutive identities,
/// starting at `next_id`; none of them is an identity already registered.
pub proof fn lemma_sequential_identities(v: RelayView, n: nat)
    requires
        v.wf(),
    ensures
        after_accepts(v, n).next_id == v.next_id + n,
        assigned_ids(v, n).len() == n,
        forall|i: int| 0 <= i < n ==> #[trigger] assigned_ids(v, n)[i] == v.next_id + i,
        forall|i: int, k: int|
            0 <= i < n && 0 <= k < v.registered.len() ==> #[trigger] v.registered[k]
                != #[trigger] assigned_ids(v, n)[i],
    decreases n,
{
    if n > 0 {
        lemma_sequential_identities(v, (n - 1) as nat);
        let prev = assigned_ids(v, (n - 1) as nat);
        assert forall|i: int| 0 <= i < n implies #[trigger] assigned_ids(v, n)[i] == v.next_id + i by {
            if i < n - 1 {
                assert(assigned_ids(v, n)[i] == prev[i]);
            }
        }
    }
}

/// A relay that has just started gives the first `n` connections the
/// identities `0` to `n - 1`, in order of arrival.
pub proof fn lemma_fresh_relay_identities(n: nat)
    ensures
        assigned_ids(fresh_relay(), n) == Seq::new(n, |i: int| i as nat),
{
    lemma_sequential_identities(fresh_relay(), n);
    assert(assigned_ids(fresh_relay(), n) == Seq::new(n, |i: int| i as nat));
}

} // verus!
