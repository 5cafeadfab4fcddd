use vstd::prelude::*;
use crate::git_handle::RepoError;

verus! {

/// What the foreground does next while it waits for the first commit.
#[derive(Debug, Clone, Copy, PartialEq, Eq, Structural)]
pub enum WaitStep {
    /// At least one commit is loaded: present it.
    Ready,
    /// Nothing yet, still within the grace period: wait and look again.
    Wait,
    /// Nothing after the grace period: the load failed or the repository
    /// is empty.
    Stalled,
}

/// The decision, from the history's length and the time waited so far.
pub open spec fn wait_step_spec(len: nat, waited_ms: nat, grace_ms: nat) -> WaitStep {
    if len > 0 {
        WaitStep::Ready
    } else if waited_ms >= grace_ms {
        WaitStep::Stalled
    } else {
        WaitStep::Wait
    }
}

/// Decides the next step of the startup wait from the length of the history
/// just read, the milliseconds waited so far and the grace period.
pub fn wait_step(len: usize, waited_ms: u64, grace_ms: u64) -> (r: WaitStep)
    ensures
        r == wait_step_spec(len as nat, waited_ms as nat, grace_ms as nat),
{
    if len > 0 {
        WaitStep::Ready
    } else if waited_ms >= grace_ms {
        WaitStep::Stalled
    } else {
        WaitStep::Wait
    }
}

/// The outcome of a finished wait: `LoadStalled` where it stalled.
pub fn wait_outcome(step: WaitStep) -> (r: Result<(), RepoError>)
    ensures
        r == (if step == WaitStep::Stalled { Err(RepoError::LoadStalled) } else { Ok::<(), RepoError>(()) }),
{
    match step {
        WaitStep::Stalled => Err(RepoError::LoadStalled),
        _ => Ok(()),
    }
}

/// The wait ends: past the grace period every step is `Ready` or `Stalled`.
pub proof fn lemma_wait_bounded(len: nat, waited_ms: nat, grace_ms: nat)
    requires
        waited_ms >= grace_ms,
    ensures
        wait_step_spec(len, waited_ms, grace_ms) != WaitStep::Wait,
{
}

} // verus!
