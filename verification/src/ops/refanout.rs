//! Running a notification fanout again: the same durable commands as for
//! replayed jobs, of their own kind.

use crate::model::AdminContext;
use crate::ops::replay_job;
use crate::ops::replay_job::{authorize, JobFacts, JobStep, OpsJobCmd, KIND_REFANOUT};
use vstd::prelude::*;

verus! {

/// Authorizes a durable command to fan out again for one subject.
pub fn authorize_refanout(actor: &AdminContext, cmd: &OpsJobCmd, facts: &JobFacts) -> (r: JobStep)
    ensures
        r@ == replay_job::authorize_step(actor@, "refanout"@, *cmd, *facts),
{
    authorize(actor, KIND_REFANOUT, cmd, facts)
}

} // verus!
