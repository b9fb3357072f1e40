//! Replaying a job is authorized by a durable command: the administrator's one
//! transaction stores the command and its audit row, and leased runners deliver
//! it by emitting the subject's event, exactly once for each command.

use crate::clock;
use crate::clock::Timestamp;
use crate::error;
use crate::error::AppError;
use crate::identity;
use crate::json;
use crate::json::{Json, JsonView};
use crate::model::{ActionView, ActorView, AdminAction, AdminContext, Event, EventView};
use crate::ops::audit;
use crate::ops::audit::{OpsError, OpsFault};
use crate::text;
use vstd::prelude::*;

verus! {

pub const KIND_REPLAY_JOB: &'static str = "replay_job";

pub const KIND_REFANOUT: &'static str = "refanout";

/// A request to run a delivery again.
#[derive(Debug, Clone, PartialEq, Eq)]
pub struct OpsJobCmd {
    /// What is delivered again, such as `market:<uuid>`.
    pub subject: String,
    pub reason: String,
    pub idempotency_key: String,
}

/// How far a command has come.
#[derive(Debug, Clone, Copy, PartialEq, Eq, Structural)]
pub enum OpsJobStatus {
    Pending,
    Executing,
    Done,
    Failed,
}

/// A durable command.
#[derive(Debug, PartialEq, Eq)]
pub struct OpsJobCommand {
    pub id: u128,
    /// `replay_job` or `refanout`.
    pub kind: String,
    pub subject: String,
    pub idempotency_key: String,
    pub requested_by: String,
    pub status: OpsJobStatus,
    pub attempts: i32,
    pub lease_expires_at: Option<Timestamp>,
    pub error: Option<String>,
}

/// A durable command, as plain values.
pub struct CommandView {
    pub id: u128,
    pub kind: Seq<char>,
    pub subject: Seq<char>,
    pub idempotency_key: Seq<char>,
    pub requested_by: Seq<char>,
    pub status: OpsJobStatus,
    pub attempts: i32,
    pub lease_expires_at: Option<Timestamp>,
    pub error: Option<Seq<char>>,
}

impl View for OpsJobCommand {
    type V = CommandView;

    open spec fn view(&self) -> CommandView {
        CommandView {
            id: self.id,
            kind: self.kind@,
            subject: self.subject@,
            idempotency_key: self.idempotency_key@,
            requested_by: self.requested_by@,
            status: self.status,
            attempts: self.attempts,
            lease_expires_at: self.lease_expires_at,
            error: text::option_view(self.error),
        }
    }
}

impl Clone for OpsJobCommand {
    fn clone(&self) -> (r: Self)
        ensures
            r@ == self@,
    {
        OpsJobCommand {
            id: self.id,
            kind: self.kind.clone(),
            subject: self.subject.clone(),
            idempotency_key: self.idempotency_key.clone(),
            requested_by: self.requested_by.clone(),
            status: self.status,
            attempts: self.attempts,
            lease_expires_at: self.lease_expires_at,
            error: text::clone_option(&self.error),
        }
    }
}

/// What an authorization has read so far.
#[derive(Debug, PartialEq, Eq)]
pub struct JobFacts {
    pub key_serialized: bool,
    pub existing: Option<Option<OpsJobCommand>>,
    /// A fresh identity.
    pub fresh_id: Option<u128>,
}

impl JobFacts {
    /// Nothing read yet.
    pub fn new() -> (r: Self)
        ensures
            !r.key_serialized && r.existing is None && r.fresh_id is None,
    {
        JobFacts { key_serialized: false, existing: None, fresh_id: None }
    }
}

/// What an authorization reads or does next.
#[derive(Debug, Clone, Copy, PartialEq, Eq, Structural)]
pub enum JobNeed {
    SerializeKey,
    CommandByKey,
    FreshId,
}

/// What becomes of an authorization next.
#[derive(Debug, PartialEq, Eq)]
pub enum JobStep {
    Need(JobNeed),
    Refuse(OpsError),
    /// The stored command is the answer.
    Replay,
    /// Store this command with its audit row.
    Authorize(OpsJobCommand, AdminAction),
}

/// What becomes of an authorization next, as plain values.
pub enum JobVerdict {
    Need(JobNeed),
    Refuse(OpsFault),
    Replay,
    Authorize(CommandView, ActionView),
}

impl View for JobStep {
    type V = JobVerdict;

    open spec fn view(&self) -> JobVerdict {
        match self {
            JobStep::Need(n) => JobVerdict::Need(*n),
            JobStep::Refuse(e) => JobVerdict::Refuse(e@),
            JobStep::Replay => JobVerdict::Replay,
            JobStep::Authorize(command, row) => JobVerdict::Authorize(command@, row@),
        }
    }
}

/// A command as it is first stored.
pub open spec fn authorized(
    id: u128,
    kind: Seq<char>,
    requested_by: Seq<char>,
    cmd: OpsJobCmd,
) -> CommandView {
    CommandView {
        id,
        kind,
        subject: cmd.subject@,
        idempotency_key: cmd.idempotency_key@,
        requested_by,
        status: OpsJobStatus::Pending,
        attempts: 0,
        lease_expires_at: None,
        error: None,
    }
}

/// What becomes of an authorization after what was read so far.
pub open spec fn authorize_step(
    actor: ActorView,
    kind: Seq<char>,
    cmd: OpsJobCmd,
    facts: JobFacts,
) -> JobVerdict {
    match actor {
        ActorView::Machine => JobVerdict::Refuse(audit::conflict("machine actor"@)),
        ActorView::Admin { token_digest, role } => if !facts.key_serialized {
            JobVerdict::Need(JobNeed::SerializeKey)
        } else {
            match (facts.existing, facts.fresh_id) {
                (None, _) => JobVerdict::Need(JobNeed::CommandByKey),
                (Some(Some(_)), _) => JobVerdict::Replay,
                (Some(None), None) => JobVerdict::Need(JobNeed::FreshId),
                (Some(None), Some(id)) => JobVerdict::Authorize(
                    authorized(id, kind, token_digest, cmd),
                    audit::audit_row(
                        actor,
                        kind,
                        cmd.subject@,
                        None,
                        Some(
                            JsonView::Object(
                                seq![("command_id"@, JsonView::Text(identity::uuid_text(id)))],
                            ),
                        ),
                        Some(cmd.reason@),
                    ),
                ),
            }
        },
    }
}

/// The key that serializes authorizations.
pub fn authorize_lock(cmd: &OpsJobCmd) -> (r: String)
    ensures
        r@ == "ops-job:"@ + cmd.idempotency_key@,
{
    text::join2("ops-job:", cmd.idempotency_key.as_str())
}

/// The key that serializes the runners' claims.
pub const RUNNER_LOCK: &'static str = "ops-job-runner";

/// The key that serializes the delivery of a command.
pub fn deliver_lock(command: &OpsJobCommand) -> (r: String)
    ensures
        r@ == "ops-job-deliver:"@ + identity::uuid_text(command.id),
{
    text::join2("ops-job-deliver:", identity::format_uuid(command.id).as_str())
}

/// The key that serializes the settlement of a failed delivery.
pub fn settle_lock(command: &OpsJobCommand) -> (r: String)
    ensures
        r@ == "ops-job-settle:"@ + identity::uuid_text(command.id),
{
    text::join2("ops-job-settle:", identity::format_uuid(command.id).as_str())
}

/// Authorizes one durable command: what to read next, or the command to store.
pub fn authorize(actor: &AdminContext, kind: &'static str, cmd: &OpsJobCmd, facts: &JobFacts) -> (r:
    JobStep)
    ensures
        r@ == authorize_step(actor@, kind@, *cmd, *facts),
{
    let requested_by = match audit::principal_digest(actor) {
        Ok(digest) => digest.to_owned(),
        Err(e) => return JobStep::Refuse(OpsError::App(e)),
    };
    if !facts.key_serialized {
        return JobStep::Need(JobNeed::SerializeKey);
    }
    match &facts.existing {
        None => return JobStep::Need(JobNeed::CommandByKey),
        Some(Some(_)) => return JobStep::Replay,
        Some(None) => {},
    }
    let id: u128 = match facts.fresh_id {
        None => return JobStep::Need(JobNeed::FreshId),
        Some(id) => id,
    };
    let command = OpsJobCommand {
        id,
        kind: kind.to_owned(),
        subject: cmd.subject.clone(),
        idempotency_key: cmd.idempotency_key.clone(),
        requested_by,
        status: OpsJobStatus::Pending,
        attempts: 0,
        lease_expires_at: None,
        error: None,
    };
    let members: Vec<(String, Json)> = vec![
        json::member("command_id", Json::Text(identity::format_uuid(id))),
    ];
    assert(json::members_view(members@) =~= seq![
        ("command_id"@, JsonView::Text(identity::uuid_text(id))),
    ]);
    let row = audit::required_audit_for(
        actor,
        kind,
        cmd.subject.clone(),
        None,
        Some(Json::object(members)),
        Some(cmd.reason.clone()),
    );
    JobStep::Authorize(command, row)
}

/// Until when a runner's lease lasts.
pub fn lease_until(now: Timestamp, lease_secs: u64) -> (r: Timestamp)
    requires
        now.wf(),
        now.has_room(lease_secs as int),
    ensures
        r == now.later(lease_secs as int),
        r.0 == now.0 + 1_000_000_000 * lease_secs,
        r.wf(),
{
    now.plus_secs(lease_secs as i64)
}

/// A command whose delivery failed: the lease is given up and the error kept.
pub open spec fn failed_view(command: CommandView, error: Seq<char>) -> CommandView {
    CommandView {
        status: OpsJobStatus::Failed,
        error: Some(error),
        lease_expires_at: None,
        ..command
    }
}

/// A command whose delivery failed.
pub fn failed_command(command: &OpsJobCommand, error: &AppError) -> (r: OpsJobCommand)
    ensures
        r@ == failed_view(command@, error::fault_text(error@)),
{
    let mut settled = command.clone();
    settled.status = OpsJobStatus::Failed;
    settled.error = Some(error.message());
    settled.lease_expires_at = None;
    settled
}

/// What settles a delivery: nothing where it went through, the failed command
/// where it did not.
pub fn settle_delivery(command: &OpsJobCommand, outcome: Result<(), AppError>) -> (r: Option<
    OpsJobCommand,
>)
    ensures
        match outcome {
            Ok(_) => r is None,
            Err(e) => r matches Some(settled) && settled@ == failed_view(
                command@,
                error::fault_text(e@),
            ),
        },
{
    match outcome {
        Ok(_) => None,
        Err(e) => Some(failed_command(command, &e)),
    }
}

/// A delivered command.
pub open spec fn done_view(command: CommandView) -> CommandView {
    CommandView {
        status: OpsJobStatus::Done,
        error: None,
        lease_expires_at: None,
        ..command
    }
}

/// The event that delivers a command. Where the subject names no identity, the
/// command's own one stands for it.
pub open spec fn delivery_event(
    command: CommandView,
    named: Option<u128>,
    now: Timestamp,
) -> EventView {
    EventView {
        event_type: if command.kind == "refanout"@ {
            "RefanoutRequested"@
        } else {
            "JobReplayRequested"@
        },
        aggregate_type: "ops_job"@,
        aggregate_id: match named {
            Some(x) => x,
            None => command.id,
        },
        payload: JsonView::Object(
            seq![
                ("command_id"@, JsonView::Text(identity::uuid_text(command.id))),
                ("kind"@, JsonView::Text(command.kind)),
                ("subject"@, JsonView::Text(command.subject)),
                ("requested_at"@, JsonView::Text(clock::printed_time(now.0 as int))),
            ],
        ),
    }
}

/// The event that delivers a command whose subject names this identity, and the
/// delivered command.
pub fn delivery_for(command: &OpsJobCommand, named: Option<u128>, now: Timestamp) -> (r: (
    Event,
    OpsJobCommand,
))
    requires
        now.wf(),
    ensures
        r.0@ == delivery_event(command@, named, now),
        r.1@ == done_view(command@),
{
    let members: Vec<(String, Json)> = vec![
        json::member("command_id", Json::Text(identity::format_uuid(command.id))),
        json::member("kind", Json::Text(command.kind.clone())),
        json::member("subject", Json::Text(command.subject.clone())),
        json::member("requested_at", Json::Text(clock::print_time(now))),
    ];
    assert(json::members_view(members@) =~= delivery_event(
        command@,
        named,
        now,
    ).payload->Object_0);
    let event = Event {
        event_type: if text::same_text(command.kind.as_str(), KIND_REFANOUT) {
            "RefanoutRequested"
        } else {
            "JobReplayRequested"
        },
        aggregate_type: "ops_job",
        aggregate_id: match named {
            Some(x) => x,
            None => command.id,
        },
        payload: Json::object(members),
    };
    let mut settled = command.clone();
    settled.status = OpsJobStatus::Done;
    settled.error = None;
    settled.lease_expires_at = None;
    (event, settled)
}

/// The event that delivers a command, and the delivered command. What follows
/// the last colon of the subject names the identity.
pub fn deliver(command: &OpsJobCommand, now: Timestamp) -> (r: (Event, OpsJobCommand))
    requires
        now.wf(),
    ensures
        r.0@ == delivery_event(
            command@,
            identity::parsed_uuid(text::after_last(command@.subject, ':')),
            now,
        ),
        r.1@ == done_view(command@),
{
    let name = text::suffix_after(command.subject.as_str(), ':');
    let named = identity::parse_uuid(name.as_str());
    delivery_for(command, named, now)
}

/// A delivered or failed command holds no lease, and keeps what it was for.
pub proof fn law_settled_commands_hold_no_lease(command: CommandView, error: Seq<char>)
    ensures
        done_view(command).lease_expires_at is None,
        failed_view(command, error).lease_expires_at is None,
        done_view(command).subject == command.subject,
        failed_view(command, error).subject == command.subject,
        done_view(command).id == command.id,
        failed_view(command, error).id == command.id,
{
}

/// One command for one key: authorizing again with the same key stores nothing.
pub proof fn law_authorization_is_idempotent(
    actor: ActorView,
    kind: Seq<char>,
    cmd: OpsJobCmd,
    facts: JobFacts,
)
    requires
        actor is Admin,
        facts.key_serialized,
        facts.existing matches Some(Some(_)),
    ensures
        authorize_step(actor, kind, cmd, facts) is Replay,
{
}

/// What a fresh authorization stores: a pending command that nobody tried yet,
/// for what was asked, by who asked for it, and an audit row that says why.
pub proof fn law_what_an_authorization_stores(
    actor: ActorView,
    kind: Seq<char>,
    cmd: OpsJobCmd,
    facts: JobFacts,
)
    ensures
        authorize_step(actor, kind, cmd, facts) matches JobVerdict::Authorize(command, row) ==> (
        actor matches ActorView::Admin { token_digest, role } && command.requested_by
            == token_digest && row.actor_token_digest == token_digest && row.actor_role == role)
            && facts.key_serialized && (facts.existing matches Some(None)) && facts.fresh_id
            == Some(command.id) && command.kind == kind && command.subject == cmd.subject@ && command.idempotency_key
            == cmd.idempotency_key@ && command.status == OpsJobStatus::Pending && command.attempts
            == 0 && command.lease_expires_at is None && command.error is None && row.action == kind
            && row.subject == cmd.subject@ && row.reason == Some(cmd.reason@),
        actor is Admin && facts.key_serialized && facts.fresh_id is Some && (
        facts.existing matches Some(None)) ==> authorize_step(actor, kind, cmd, facts) is Authorize,
{
}

/// A delivered command is done without an error, a failed one keeps its error;
/// neither changes what it was for or how often it was tried.
pub proof fn law_how_commands_settle(command: CommandView, error: Seq<char>)
    ensures
        done_view(command).status == OpsJobStatus::Done && done_view(command).error is None,
        failed_view(command, error).status == OpsJobStatus::Failed && failed_view(
            command,
            error,
        ).error == Some(error),
        done_view(command).kind == command.kind && done_view(command).attempts == command.attempts
            && done_view(command).requested_by == command.requested_by,
        failed_view(command, error).kind == command.kind && failed_view(command, error).attempts
            == command.attempts && failed_view(command, error).requested_by == command.requested_by,
{
}

/// A delivery goes to what its subject names, or to the command itself; a fanout
/// and a replay are announced by their own names.
pub proof fn law_where_a_delivery_goes(command: CommandView, named: u128, now: Timestamp)
    ensures
        delivery_event(command, Some(named), now).aggregate_id == named,
        delivery_event(command, None, now).aggregate_id == command.id,
        command.kind == "refanout"@ ==> delivery_event(command, None, now).event_type
            == "RefanoutRequested"@,
        command.kind == "replay_job"@ ==> delivery_event(command, None, now).event_type
            == "JobReplayRequested"@,
        delivery_event(command, None, now).payload matches JsonView::Object(said) && said[0] == (
            "command_id"@,
            JsonView::Text(identity::uuid_text(command.id)),
        ) && said[1] == ("kind"@, JsonView::Text(command.kind)) && said[2] == (
            "subject"@,
            JsonView::Text(command.subject),
        ),
{
    reveal_strlit("refanout");
    reveal_strlit("replay_job");
    assert("refanout"@.len() == 8 && "replay_job"@.len() == 10);
}

} // verus!
