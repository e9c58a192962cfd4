//! The application's shutdown flags: background tasks stop once `shutdown`
//! is set, and the exit cleanup runs only for the first caller.

use vstd::prelude::*;

verus! {

/// The two shutdown flags of the application state.
pub struct ShutdownFlags {
    pub shutdown: bool,
    pub cleanup_started: bool,
}

/// The flags as a pair: (shutdown, cleanup started).
impl View for ShutdownFlags {
    type V = (bool, bool);

    open spec fn view(&self) -> (bool, bool) {
        (self.shutdown, self.cleanup_started)
    }
}

/// Whether `begin_shutdown` on flags `f` hands the cleanup to its caller.
pub open spec fn begins_cleanup(f: (bool, bool)) -> bool {
    !f.1
}

/// The flags after `begin_shutdown`.
pub open spec fn after_begin(f: (bool, bool)) -> (bool, bool) {
    (f.0, true)
}

/// The flags after `mark_shutdown`.
pub open spec fn after_mark(f: (bool, bool)) -> (bool, bool) {
    (true, f.1)
}

impl ShutdownFlags {
    /// Neither flag is set.
    pub fn new() -> (r: ShutdownFlags)
        ensures
            r@ == (false, false),
    {
        ShutdownFlags { shutdown: false, cleanup_started: false }
    }

    /// Marks the exit cleanup as started; `true` tells the caller that it is
    /// the one to run it (no one had started it before).
    pub fn begin_shutdown(&mut self) -> (first: bool)
        ensures
            first == begins_cleanup(old(self)@),
            final(self)@ == after_begin(old(self)@),
    {
        let first = !self.cleanup_started;
        self.cleanup_started = true;
        first
    }

    /// Sets the shutdown flag that background tasks watch; gives whether it
    /// was set already.
    pub fn mark_shutdown(&mut self) -> (was_set: bool)
        ensures
            was_set == old(self)@.0,
            final(self)@ == after_mark(old(self)@),
    {
        let was_set = self.shutdown;
        self.shutdown = true;
        was_set
    }
}

/// The exit cleanup runs once: after any call of `begin_shutdown`, later
/// calls never hand it out again, whatever else happens to the flags.
pub proof fn law_cleanup_runs_once(f: (bool, bool))
    ensures
        !begins_cleanup(after_begin(f)),
        !begins_cleanup(after_begin(after_begin(f))),
        !begins_cleanup(after_mark(after_begin(f))),
        begins_cleanup(after_mark(f)) == begins_cleanup(f),
{
}

/// The flags after the calls `calls` in turn, from flags `f`: `true` stands
/// for a call of `begin_shutdown`, `false` for one of `mark_shutdown`. Calls
/// from several tasks take effect one after another, so any interleaving is
/// such a sequence.
pub open spec fn after_calls(f: (bool, bool), calls: Seq<bool>) -> (bool, bool)
    decreases calls.len(),
{
    if calls.len() == 0 {
        f
    } else {
        let g = after_calls(f, calls.drop_last());
        if calls.last() { after_begin(g) } else { after_mark(g) }
    }
}

/// The cleanup has started after `calls` exactly when it had before them or
/// one of them is a `begin_shutdown`.
proof fn lemma_started_after(f: (bool, bool), calls: Seq<bool>)
    ensures
        after_calls(f, calls).1 == (f.1 || exists|k: int| 0 <= k < calls.len() && calls[k]),
    decreases calls.len(),
{
    if calls.len() > 0 {
        let front = calls.drop_last();
        lemma_started_after(f, front);
        if exists|k: int| 0 <= k < front.len() && front[k] {
            let k = choose|k: int| 0 <= k < front.len() && front[k];
            assert(calls[k]);
        }
        if exists|k: int| 0 <= k < calls.len() && calls[k] {
            let k = choose|k: int| 0 <= k < calls.len() && calls[k];
            if k < front.len() {
                assert(front[k]);
            }
        }
    }
}

/// However many calls of `begin_shutdown` and `mark_shutdown` come, in any
/// order: the first `begin_shutdown` hands out the cleanup exactly when it had
/// not started, every later one hands it out never, and once any has come the
/// cleanup counts as started.
pub proof fn law_cleanup_handed_out_once(f: (bool, bool), calls: Seq<bool>)
    ensures
        forall|i: int| 0 <= i < calls.len() && calls[i] && (forall|k: int| 0 <= k < i ==> !calls[k])
            ==> begins_cleanup(#[trigger] after_calls(f, calls.take(i))) == !f.1,
        forall|i: int, j: int| 0 <= i < j < calls.len() && #[trigger] calls[i] && calls[j]
            ==> !begins_cleanup(#[trigger] after_calls(f, calls.take(j))),
        (exists|k: int| 0 <= k < calls.len() && calls[k]) ==> after_calls(f, calls).1,
{
    lemma_started_after(f, calls);
    assert forall|i: int| 0 <= i < calls.len() && calls[i] && (forall|k: int| 0 <= k < i ==> !calls[k])
        implies begins_cleanup(#[trigger] after_calls(f, calls.take(i))) == !f.1 by {
        lemma_started_after(f, calls.take(i));
        if exists|k: int| 0 <= k < calls.take(i).len() && calls.take(i)[k] {
            let k = choose|k: int| 0 <= k < calls.take(i).len() && calls.take(i)[k];
            assert(calls[k]);
        }
    }
    assert forall|i: int, j: int| 0 <= i < j < calls.len() && #[trigger] calls[i] && calls[j]
        implies !begins_cleanup(#[trigger] after_calls(f, calls.take(j))) by {
        lemma_started_after(f, calls.take(j));
        assert(calls.take(j)[i]);
    }
}

} // verus!
