//! Confirmation of user tools: a tool whose level needs the user's consent
//! waits until the front end answers; each waiting call has an id.
//!
//! The table below keeps, per call id, whatever the caller uses to wake the
//! waiting call (a one-shot sender in the application).

use vstd::prelude::*;
use std::collections::HashMap;
use crate::tool::{Permission, permission_name};
use crate::text::owned;
use vstd::std_specs::iter::IteratorSpec;

verus! {

broadcast use vstd::std_specs::hash::group_hash_axioms;

/// What the front end is asked to confirm.
#[derive(Debug, Clone)]
pub struct ConfirmRequest {
    pub call_id: u64,
    pub tool_name: String,
    pub command: String,
    pub permission: String,
}

impl ConfirmRequest {
    /// The request for call `call_id` of `tool_name` running `command`;
    /// the level is sent by its stored name.
    pub fn new(call_id: u64, tool_name: String, command: String, permission: Permission) -> (r: ConfirmRequest)
        ensures
            r.call_id == call_id,
            r.tool_name@ == tool_name@,
            r.command@ == command@,
            r.permission@ == permission_name(permission),
    {
        ConfirmRequest { call_id, tool_name, command, permission: owned(permission.as_str()) }
    }
}

/// The id that follows `id` (ids wrap around like an atomic counter).
pub open spec fn next_call_id(id: u64) -> u64 {
    if id == u64::MAX { 0 } else { (id + 1) as u64 }
}

/// The waiting calls, by id, and the id the next call gets.
pub struct PendingConfirmations<S> {
    next_id: u64,
    inner: HashMap<u64, S>,
}

impl<S> PendingConfirmations<S> {
    /// The id the next registered call gets.
    pub closed spec fn next(&self) -> u64 {
        self.next_id
    }

    /// The waiting calls.
    pub closed spec fn waiting(&self) -> Map<u64, S> {
        self.inner@
    }

    /// No call waits; the first id is 1.
    pub fn new() -> (r: Self)
        ensures
            r.next() == 1,
            r.waiting() == Map::<u64, S>::empty(),
    {
        PendingConfirmations { next_id: 1, inner: HashMap::new() }
    }

    /// Registers a waiting call and returns its id.
    pub fn register(&mut self, waiter: S) -> (call_id: u64)
        ensures
            call_id == old(self).next(),
            final(self).next() == next_call_id(old(self).next()),
            final(self).waiting() == old(self).waiting().insert(call_id, waiter),
    {
        let call_id = self.next_id;
        self.next_id = if self.next_id == u64::MAX { 0 } else { self.next_id + 1 };
        self.inner.insert(call_id, waiter);
        call_id
    }

    /// Takes the waiting call `call_id` out of the table, if it waits
    /// (an answer from the front end, or a timeout).
    pub fn respond(&mut self, call_id: u64) -> (r: Option<S>)
        ensures
            final(self).next() == old(self).next(),
            final(self).waiting() == old(self).waiting().remove(call_id),
            match r {
                Some(w) => old(self).waiting().contains_key(call_id) && w == old(self).waiting()[call_id],
                None => !old(self).waiting().contains_key(call_id),
            },
    {
        self.inner.remove(&call_id)
    }

    /// Takes every waiting call out of the table (on abort or shutdown).
    pub fn cancel_all(&mut self) -> (r: Vec<S>)
        ensures
            final(self).next() == old(self).next(),
            final(self).waiting() == Map::<u64, S>::empty(),
            exists|ks: Seq<u64>| {
                &&& ks.no_duplicates()
                &&& ks.to_set() == old(self).waiting().dom()
                &&& ks.len() == r@.len()
                &&& forall|i: int| 0 <= i < ks.len() ==> r@[i] == old(self).waiting()[#[trigger] ks[i]]
            },
    {
        let ghost old_map = self.inner@;
        let mut keys: Vec<u64> = Vec::new();
        for k in it: self.inner.keys()
            invariant
                keys@ == it.seq().unref().take(it.index() as int),
                it.seq().unref().no_duplicates(),
                it.seq().unref().to_set() == old_map.dom(),
            ensures
                keys@ == it.seq().unref(),
                it.seq().unref().no_duplicates(),
                it.seq().unref().to_set() == old_map.dom(),
        {
            keys.push(*k);
            assert(keys@ =~= it.seq().unref().take(it.index() + 1));
        }
        let ghost ks = keys@;
        let mut out: Vec<S> = Vec::new();
        let n = keys.len();
        for i in 0..n
            invariant
                n == keys@.len(),
                ks == keys@,
                self.next_id == old(self).next_id,
                ks.no_duplicates(),
                ks.to_set() == old_map.dom(),
                out@.len() == i,
                forall|j: int| 0 <= j < i ==> out@[j] == old_map[#[trigger] ks[j]],
                self.inner@ == old_map.remove_keys(ks.take(i as int).to_set()),
        {
            let k = keys[i];
            assert(old_map.dom().contains(k)) by {
                assert(ks.to_set().contains(ks[i as int]));
            }
            assert(!ks.take(i as int).to_set().contains(k)) by {
                if ks.take(i as int).to_set().contains(k) {
                    let j = choose|j: int| 0 <= j < i && ks.take(i as int)[j] == k;
                    assert(ks[j] == ks[i as int]);
                }
            }
            let w = self.inner.remove(&k).unwrap();
            out.push(w);
            assert(ks.take(i + 1) =~= ks.take(i as int).push(k));
            proof { ks.take(i as int).lemma_push_to_set_commute(k); }
            assert(self.inner@ =~= old_map.remove_keys(ks.take(i + 1).to_set()));
        }
        assert(ks.take(n as int) =~= ks);
        assert(self.inner@ =~= Map::<u64, S>::empty());
        out
    }
}


/// A registered call is answered once: answering its id hands back the
/// waiter registered under it, and afterwards that id waits no more.
pub proof fn law_register_then_respond<S>(waiting: Map<u64, S>, id: u64, waiter: S)
    ensures
        waiting.insert(id, waiter).contains_key(id),
        waiting.insert(id, waiter)[id] == waiter,
        !waiting.insert(id, waiter).remove(id).contains_key(id),
{
}

} // verus!
