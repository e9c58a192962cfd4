//! How many agent loops are running: workspace switching is refused while
//! any is.
//!
//! Each running loop holds a `RunningGuard`; handing the guard back to
//! `finish` ends that loop's count.

use vstd::prelude::*;

verus! {

/// The number of running agent loops.
pub struct AgentRuns {
    count: usize,
}

/// Held by one running agent loop.
pub struct RunningGuard {
    _private: (),
}

/// The count after one more loop starts (it wraps like an atomic counter).
pub open spec fn count_after_start(c: usize) -> usize {
    if c == usize::MAX { 0 } else { (c + 1) as usize }
}

/// The count after one loop ends (it wraps like an atomic counter).
pub open spec fn count_after_finish(c: usize) -> usize {
    if c == 0 { usize::MAX } else { (c - 1) as usize }
}

impl AgentRuns {
    /// The current count.
    pub closed spec fn count(&self) -> usize {
        self.count
    }

    /// No loop runs.
    pub fn new() -> (r: AgentRuns)
        ensures
            r.count() == 0,
    {
        AgentRuns { count: 0 }
    }

    /// Ends the loop that held `guard`.
    pub fn finish(&mut self, guard: RunningGuard)
        ensures
            final(self).count() == count_after_finish(old(self).count()),
    {
        let _ = guard;
        self.count = if self.count == 0 { usize::MAX } else { self.count - 1 };
    }
}

impl RunningGuard {
    fn new(runs: &mut AgentRuns) -> (g: RunningGuard)
        ensures
            final(runs).count() == count_after_start(old(runs).count()),
    {
        runs.count = if runs.count == usize::MAX { 0 } else { runs.count + 1 };
        RunningGuard { _private: () }
    }
}

/// Called where an agent loop starts; the guard lasts until the loop ends.
pub fn start(runs: &mut AgentRuns) -> (g: RunningGuard)
    ensures
        final(runs).count() == count_after_start(old(runs).count()),
{
    RunningGuard::new(runs)
}

/// Whether any agent loop runs.
pub fn is_any_running(runs: &AgentRuns) -> (r: bool)
    ensures
        r == (runs.count() > 0),
{
    runs.count > 0
}

/// Starting a loop makes one run (short of wrapping around), and ending it
/// gives back the count before.
pub proof fn law_start_then_finish(c: usize)
    requires
        c < usize::MAX,
    ensures
        count_after_start(c) > 0,
        count_after_finish(count_after_start(c)) == c,
{
}

} // verus!
