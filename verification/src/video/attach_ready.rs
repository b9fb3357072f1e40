//! Completing and attaching an artifact go together: a job that was completed
//! must also attach, and a stale attempt does neither.

use crate::error::{StoreError, StoreFault};
use vstd::prelude::*;

verus! {

/// What becomes of a rendered artifact next.
#[derive(Debug, PartialEq, Eq)]
pub enum AttachStep {
    /// Attach it, under the market's lock.
    Attach,
    /// Whether it was attached; a newer attempt owns the job where it was not.
    Done(bool),
    Fail(StoreError),
}

/// Decides on a rendered artifact, once the job was completed or a newer attempt
/// was found to own it, and once it was attached.
pub fn complete_and_attach(completed: bool, attached: Option<bool>) -> (r: AttachStep)
    ensures
        !completed ==> r == AttachStep::Done(false),
        completed && attached is None ==> r == AttachStep::Attach,
        completed && attached == Some(true) ==> r == AttachStep::Done(true),
        completed && attached == Some(false) ==> (r matches AttachStep::Fail(e) && e@
            == StoreFault::Invariant("completed job did not attach"@)),
{
    if !completed {
        return AttachStep::Done(false);
    }
    match attached {
        None => AttachStep::Attach,
        Some(true) => AttachStep::Done(true),
        Some(false) => AttachStep::Fail(StoreError::Invariant("completed job did not attach")),
    }
}

} // verus!
