//! The life of an incident: a durable queue, keys of detector, subject and
//! episode, no second page while an incident is open, acknowledgement,
//! resolution, and a new page after recovery.

use crate::clock::Timestamp;
use crate::error::{StoreError, StoreFault};
use crate::json;
use crate::text;
use vstd::prelude::*;

verus! {

/// The detectors that page.
pub const DETECTOR_INVARIANT: &'static str = "invariant_breach";

pub const DETECTOR_RECON: &'static str = "reconciliation_residual";

pub const DETECTOR_AML: &'static str = "aml_flag";

pub const DETECTOR_STUCK_SEND: &'static str = "stuck_send_unknown";

pub const DETECTOR_STUCK_SCREEN: &'static str = "stuck_screening";

pub const DETECTOR_RESERVE: &'static str = "reserve_coverage";

/// The episode of an invariant identity: one live episode for each, so that an
/// ongoing breach is one incident and a recurrence after recovery pages again.
pub const INVARIANT_EPISODE: &'static str = "active";

/// How far an incident has come.
#[derive(Debug, Clone, Copy, PartialEq, Eq, Structural)]
pub enum IncidentStatus {
    Open,
    Acked,
    Resolved,
}

/// What an incident is about.
#[derive(Debug, PartialEq, Eq)]
pub struct IncidentKey {
    pub detector: String,
    pub subject: String,
    pub episode: String,
}

/// What an incident is about, as plain values.
pub struct KeyView {
    pub detector: Seq<char>,
    pub subject: Seq<char>,
    pub episode: Seq<char>,
}

impl KeyView {
    /// The text of a key.
    pub open spec fn code(self) -> Seq<char> {
        self.detector + ":"@ + self.subject + ":"@ + self.episode
    }
}

impl View for IncidentKey {
    type V = KeyView;

    open spec fn view(&self) -> KeyView {
        KeyView {
            detector: self.detector@,
            subject: self.subject@,
            episode: self.episode@,
        }
    }
}

impl Clone for IncidentKey {
    fn clone(&self) -> (r: Self)
        ensures
            r@ == self@,
    {
        IncidentKey {
            detector: self.detector.clone(),
            subject: self.subject.clone(),
            episode: self.episode.clone(),
        }
    }
}

impl IncidentKey {
    #[must_use]
    pub fn new(detector: &str, subject: &str, episode: &str) -> (r: Self)
        ensures
            r@ == (KeyView { detector: detector@, subject: subject@, episode: episode@ }),
    {
        IncidentKey {
            detector: detector.to_owned(),
            subject: subject.to_owned(),
            episode: episode.to_owned(),
        }
    }

    /// The text under which an incident is stored and paged.
    #[must_use]
    pub fn encoded(&self) -> (r: String)
        ensures
            r@ == self@.code(),
    {
        let head = text::join3(self.detector.as_str(), ":", self.subject.as_str());
        text::join3(head.as_str(), ":", self.episode.as_str())
    }
}

/// One incident.
#[derive(Debug, PartialEq, Eq)]
pub struct Incident {
    pub id: u128,
    pub key: IncidentKey,
    pub severity: String,
    pub body: String,
    pub status: IncidentStatus,
    pub delivery_attempts: u32,
    pub last_paged_at: Option<Timestamp>,
    pub acked_at: Option<Timestamp>,
    pub resolved_at: Option<Timestamp>,
}

/// One incident, as plain values.
pub struct IncidentView {
    pub id: u128,
    pub key: KeyView,
    pub severity: Seq<char>,
    pub body: Seq<char>,
    pub status: IncidentStatus,
    pub delivery_attempts: u32,
    pub last_paged_at: Option<Timestamp>,
    pub acked_at: Option<Timestamp>,
    pub resolved_at: Option<Timestamp>,
}

impl View for Incident {
    type V = IncidentView;

    open spec fn view(&self) -> IncidentView {
        IncidentView {
            id: self.id,
            key: self.key@,
            severity: self.severity@,
            body: self.body@,
            status: self.status,
            delivery_attempts: self.delivery_attempts,
            last_paged_at: self.last_paged_at,
            acked_at: self.acked_at,
            resolved_at: self.resolved_at,
        }
    }
}

impl Clone for Incident {
    fn clone(&self) -> (r: Self)
        ensures
            r@ == self@,
    {
        Incident {
            id: self.id,
            key: self.key.clone(),
            severity: self.severity.clone(),
            body: self.body.clone(),
            status: self.status,
            delivery_attempts: self.delivery_attempts,
            last_paged_at: self.last_paged_at,
            acked_at: self.acked_at,
            resolved_at: self.resolved_at,
        }
    }
}

/// What an optional incident says.
pub open spec fn option_view(v: Option<Incident>) -> Option<IncidentView> {
    match v {
        Some(incident) => Some(incident@),
        None => None,
    }
}

/// Incidents by the text of their key, in ascending order of it.
pub type Incidents = Seq<(Seq<char>, IncidentView)>;

/// The incident under a key.
pub open spec fn entry(list: Incidents, key: Seq<char>) -> Option<IncidentView>
    decreases list.len(),
{
    if list.len() == 0 {
        None
    } else if list.last().0 == key {
        Some(list.last().1)
    } else {
        entry(list.drop_last(), key)
    }
}

/// An incident that is not resolved.
pub open spec fn live(incident: IncidentView) -> bool {
    incident.status == IncidentStatus::Open || incident.status == IncidentStatus::Acked
}

/// The unresolved incident under a key.
pub open spec fn open_at(list: Incidents, key: Seq<char>) -> Option<IncidentView> {
    match entry(list, key) {
        Some(incident) => if live(incident) {
            Some(incident)
        } else {
            None
        },
        None => None,
    }
}

/// An incident whose page never went through. Acknowledging is not delivering:
/// only resolution takes an undelivered incident off the queue.
pub open spec fn undelivered(incident: IncidentView) -> bool {
    live(incident) && incident.last_paged_at is None
}

/// The incidents whose page never went through, in order.
pub open spec fn pending(list: Incidents) -> Seq<IncidentView>
    decreases list.len(),
{
    if list.len() == 0 {
        Seq::empty()
    } else if undelivered(list.last().1) {
        pending(list.drop_last()).push(list.last().1)
    } else {
        pending(list.drop_last())
    }
}

/// The incidents after one was stored.
pub open spec fn stored(list: Incidents, incident: IncidentView) -> Incidents {
    json::put(list, incident.key.code(), incident)
}

proof fn lemma_entry_after_put(
    list: Incidents,
    key: Seq<char>,
    incident: IncidentView,
    other: Seq<char>,
)
    requires
        json::keys_ascend(list),
    ensures
        entry(json::put(list, key, incident), other) == if other == key {
            Some(incident)
        } else {
            entry(list, other)
        },
    decreases list.len(),
{
    let out = json::put(list, key, incident);
    if list.len() == 0 {
        assert(out.drop_last() =~= Seq::empty());
        assert(entry(out.drop_last(), other) is None);
    } else {
        let head = list.drop_last();
        assert(json::keys_ascend(head)) by {
            assert forall|i: int, j: int| 0 <= i < j < head.len() implies text::text_lt(
                (#[trigger] head[i]).0,
                (#[trigger] head[j]).0,
            ) by {
                assert(text::text_lt(list[i].0, list[j].0));
            }
        }
        text::lemma_text_order_total(list.last().0, key);
        if list.last().0 == key {
            assert(out.drop_last() =~= head);
        } else if text::text_lt(list.last().0, key) {
            assert(out.drop_last() =~= list);
        } else {
            lemma_entry_after_put(head, key, incident, other);
            assert(out.drop_last() =~= json::put(head, key, incident));
            if list.last().0 == other && other == key {
                assert(false);
            }
        }
    }
}

/// Storing an incident sets its key and leaves every other one alone.
pub proof fn lemma_stored(list: Incidents, incident: IncidentView, other: Seq<char>)
    requires
        json::keys_ascend(list),
    ensures
        json::keys_ascend(stored(list, incident)),
        entry(stored(list, incident), other) == if other == incident.key.code() {
            Some(incident)
        } else {
            entry(list, other)
        },
{
    json::lemma_put_last(list, incident.key.code(), incident);
    lemma_entry_after_put(list, incident.key.code(), incident, other);
}

/// Incidents kept in memory.
#[derive(Debug, PartialEq, Eq)]
pub struct MemoryAlertStore {
    incidents: Vec<(String, Incident)>,
}

impl View for MemoryAlertStore {
    type V = Incidents;

    closed spec fn view(&self) -> Incidents {
        json::map_values(json::keyed(self.incidents@), |incident: Incident| incident@)
    }
}

impl Default for MemoryAlertStore {
    fn default() -> (r: Self)
        ensures
            r.wf(),
            r@ == Seq::<(Seq<char>, IncidentView)>::empty(),
    {
        MemoryAlertStore::new()
    }
}

impl MemoryAlertStore {
    /// No key occurs twice, and the keys ascend.
    pub open spec fn wf(&self) -> bool {
        json::keys_ascend(self@)
    }

    #[must_use]
    pub fn new() -> (r: Self)
        ensures
            r.wf(),
            r@ == Seq::<(Seq<char>, IncidentView)>::empty(),
    {
        let r = MemoryAlertStore { incidents: Vec::new() };
        assert(r@ =~= Seq::<(Seq<char>, IncidentView)>::empty());
        r
    }

    fn find(&self, key: &str) -> (r: Option<&Incident>)
        ensures
            match r {
                Some(incident) => entry(self@, key@) == Some(incident@),
                None => entry(self@, key@) is None,
            },
    {
        let ghost all = self@;
        let mut n: usize = self.incidents.len();
        assert(all.take(n as int) =~= all);
        while n > 0
            invariant
                n <= self.incidents@.len(),
                all == self@,
                all.len() == self.incidents@.len(),
                entry(all, key@) == entry(all.take(n as int), key@),
            decreases n,
        {
            n -= 1;
            assert(all.take(n + 1).drop_last() =~= all.take(n as int));
            assert(all.take(n + 1).last() == (
                self.incidents@[n as int].0@,
                self.incidents@[n as int].1@,
            ));
            if text::same_text(self.incidents[n].0.as_str(), key) {
                return Some(&self.incidents[n].1);
            }
        }
        None
    }

    /// The unresolved incident of a key.
    pub fn find_open(&self, key: &IncidentKey) -> (r: Option<Incident>)
        ensures
            option_view(r) == open_at(self@, key@.code()),
    {
        match self.find(key.encoded().as_str()) {
            Some(incident) => match incident.status {
                IncidentStatus::Open | IncidentStatus::Acked => Some(incident.clone()),
                IncidentStatus::Resolved => None,
            },
            None => None,
        }
    }

    /// Stores an incident under its key.
    pub fn insert(&mut self, incident: Incident)
        requires
            old(self).wf(),
        ensures
            final(self).wf(),
            final(self)@ == stored(old(self)@, incident@),
    {
        let key = incident.key.encoded();
        let ghost said = incident@;
        let ghost before = json::keyed(self.incidents@);
        proof {
            json::lemma_put_maps(before, key@, incident, |incident: Incident| incident@);
            json::lemma_put_last(self@, key@, said);
        }
        json::put_member(&mut self.incidents, key, incident);
    }

    /// Stores an incident unless one of its key is unresolved, which then wins:
    /// nothing is stored and that one comes back. Reading and storing are one
    /// step, so that two raises of one key cannot both find nothing.
    pub fn insert_if_absent(&mut self, incident: Incident) -> (r: Option<Incident>)
        requires
            old(self).wf(),
        ensures
            final(self).wf(),
            option_view(r) == open_at(old(self)@, incident@.key.code()),
            final(self)@ == (match open_at(old(self)@, incident@.key.code()) {
                Some(_) => old(self)@,
                None => stored(old(self)@, incident@),
            }),
    {
        if let Some(existing) = self.find_open(&incident.key) {
            return Some(existing);
        }
        self.insert(incident);
        None
    }

    /// Stores what became of an incident.
    pub fn save(&mut self, incident: &Incident)
        requires
            old(self).wf(),
        ensures
            final(self).wf(),
            final(self)@ == stored(old(self)@, incident@),
    {
        self.insert(incident.clone());
    }

    /// The incidents whose page never went through.
    pub fn pending_delivery(&self) -> (r: Vec<Incident>)
        ensures
            incidents_view(r@) == pending(self@),
    {
        let ghost all = self@;
        let mut out: Vec<Incident> = Vec::new();
        let mut i: usize = 0;
        assert(incidents_view(out@) =~= pending(all.take(0)));
        while i < self.incidents.len()
            invariant
                i <= self.incidents@.len(),
                all == self@,
                all.len() == self.incidents@.len(),
                incidents_view(out@) == pending(all.take(i as int)),
            decreases self.incidents.len() - i,
        {
            let incident = &self.incidents[i].1;
            proof {
                assert(all.take(i + 1).drop_last() =~= all.take(i as int));
                assert(all.take(i + 1).last().1 == incident@);
            }
            let unresolved = match incident.status {
                IncidentStatus::Open | IncidentStatus::Acked => true,
                IncidentStatus::Resolved => false,
            };
            if unresolved && incident.last_paged_at.is_none() {
                let ghost kept = incidents_view(out@);
                out.push(incident.clone());
                assert(incidents_view(out@) =~= kept.push(incident@));
            }
            i += 1;
        }
        assert(all.take(i as int) =~= all);
        out
    }
}

/// What some incidents say.
pub open spec fn incidents_view(list: Seq<Incident>) -> Seq<IncidentView> {
    Seq::new(list.len(), |i: int| list[i]@)
}

/// An incident that was just raised: no page has gone through yet, so that a
/// failure between here and the page leaves it on the queue.
pub open spec fn raised(
    id: u128,
    key: KeyView,
    severity: Seq<char>,
    body: Seq<char>,
) -> IncidentView {
    IncidentView {
        id,
        key,
        severity,
        body,
        status: IncidentStatus::Open,
        delivery_attempts: 0,
        last_paged_at: None,
        acked_at: None,
        resolved_at: None,
    }
}

/// An incident after a page went through.
pub open spec fn paged(incident: IncidentView, now: Timestamp) -> IncidentView {
    IncidentView {
        delivery_attempts: if incident.delivery_attempts == u32::MAX {
            u32::MAX
        } else {
            (incident.delivery_attempts + 1) as u32
        },
        last_paged_at: Some(now),
        ..incident
    }
}

/// An acknowledged incident. It stays unresolved.
pub open spec fn acked(incident: IncidentView, now: Timestamp) -> IncidentView {
    IncidentView { status: IncidentStatus::Acked, acked_at: Some(now), ..incident }
}

/// A resolved incident.
pub open spec fn resolved(incident: IncidentView, now: Timestamp) -> IncidentView {
    IncidentView { status: IncidentStatus::Resolved, resolved_at: Some(now), ..incident }
}

/// What one identity of an invariant sweep came to.
#[derive(Debug, Clone, PartialEq, Eq)]
pub struct IdentityResult {
    pub identity: &'static str,
    pub pass: bool,
    pub detail: Option<String>,
}

/// What an invariant sweep came to.
#[derive(Debug, Clone, PartialEq, Eq)]
pub struct InvariantReport {
    pub as_of: Timestamp,
    pub pass: bool,
    pub identities: Vec<IdentityResult>,
}

/// What an identity's result asks for.
#[derive(Debug, Clone, PartialEq, Eq)]
pub enum IncidentAction {
    /// Resolve the incident where one is open.
    ResolveIfOpen(IncidentKey),
    /// Raise an incident of the highest severity.
    Raise { key: IncidentKey, severity: &'static str, body: String },
}

/// What an identity's result asks for, as plain values.
pub enum ActionView {
    ResolveIfOpen(KeyView),
    Raise { key: KeyView, severity: Seq<char>, body: Seq<char> },
}

impl View for IncidentAction {
    type V = ActionView;

    open spec fn view(&self) -> ActionView {
        match self {
            IncidentAction::ResolveIfOpen(key) => ActionView::ResolveIfOpen(key@),
            IncidentAction::Raise { key, severity, body } => ActionView::Raise {
                key: key@,
                severity: severity@,
                body: body@,
            },
        }
    }
}

/// What one identity's result asks for: a passing one resolves, a failing one
/// raises with its detail.
pub open spec fn action_for(result: IdentityResult) -> ActionView {
    let key = KeyView {
        detector: "invariant_breach"@,
        subject: result.identity@,
        episode: "active"@,
    };
    if result.pass {
        ActionView::ResolveIfOpen(key)
    } else {
        ActionView::Raise {
            key,
            severity: "crit"@,
            body: match result.detail {
                Some(detail) => detail@,
                None => result.identity@ + " failed"@,
            },
        }
    }
}

/// What some actions say.
pub open spec fn actions_view(list: Seq<IncidentAction>) -> Seq<ActionView> {
    Seq::new(list.len(), |i: int| list[i]@)
}

/// The first failure of a batch, if any.
pub open spec fn first_failure(outcomes: Seq<Result<(), StoreError>>) -> Option<StoreFault>
    decreases outcomes.len(),
{
    if outcomes.len() == 0 {
        None
    } else {
        match outcomes[0] {
            Err(e) => Some(e@),
            Ok(_) => first_failure(outcomes.skip(1)),
        }
    }
}

/// The decisions on incidents.
#[derive(Debug, Clone, Copy, PartialEq, Eq)]
pub struct IncidentManager;

impl IncidentManager {
    /// The incident to store unless one of its key is unresolved. It is paged
    /// only where it was stored.
    pub fn raise(&self, id: u128, key: IncidentKey, severity: &str, body: &str) -> (r: Incident)
        ensures
            r@ == raised(id, key@, severity@, body@),
    {
        Incident {
            id,
            key,
            severity: severity.to_owned(),
            body: body.to_owned(),
            status: IncidentStatus::Open,
            delivery_attempts: 0,
            last_paged_at: None,
            acked_at: None,
            resolved_at: None,
        }
    }

    /// The incident after a page went through.
    pub fn delivered(&self, incident: &Incident, now: Timestamp) -> (r: Incident)
        ensures
            r@ == paged(incident@, now),
    {
        let mut out = incident.clone();
        if out.delivery_attempts < u32::MAX {
            out.delivery_attempts = out.delivery_attempts + 1;
        }
        out.last_paged_at = Some(now);
        out
    }

    /// Acknowledges the unresolved incident of a key.
    ///
    /// # Errors
    ///
    /// Not found where there is none.
    pub fn ack(&self, found: Option<Incident>, now: Timestamp) -> (r: Result<Incident, StoreError>)
        ensures
            match option_view(found) {
                Some(incident) => r matches Ok(out) && out@ == acked(incident, now),
                None => r matches Err(e) && e@ == StoreFault::NotFound("alert incident"@),
            },
    {
        match found {
            Some(incident) => {
                let mut out = incident;
                out.status = IncidentStatus::Acked;
                out.acked_at = Some(now);
                Ok(out)
            },
            None => Err(StoreError::NotFound("alert incident")),
        }
    }

    /// Resolves the unresolved incident of a key.
    ///
    /// # Errors
    ///
    /// Not found where there is none.
    pub fn resolve(&self, found: Option<Incident>, now: Timestamp) -> (r: Result<
        Incident,
        StoreError,
    >)
        ensures
            match option_view(found) {
                Some(incident) => r matches Ok(out) && out@ == resolved(incident, now),
                None => r matches Err(e) && e@ == StoreFault::NotFound("alert incident"@),
            },
    {
        match found {
            Some(incident) => {
                let mut out = incident;
                out.status = IncidentStatus::Resolved;
                out.resolved_at = Some(now);
                Ok(out)
            },
            None => Err(StoreError::NotFound("alert incident")),
        }
    }

    /// Resolves the incident of a key where one is unresolved. Nothing open is
    /// no error.
    pub fn resolve_if_open(&self, found: Option<Incident>, now: Timestamp) -> (r: Option<Incident>)
        ensures
            option_view(r) == (match option_view(found) {
                Some(incident) => Some(resolved(incident, now)),
                None => None,
            }),
    {
        match found {
            Some(incident) => {
                let mut out = incident;
                out.status = IncidentStatus::Resolved;
                out.resolved_at = Some(now);
                Some(out)
            },
            None => None,
        }
    }

    /// What an invariant sweep asks for, one action for each identity, in order.
    pub fn sync_invariant_report(&self, report: &InvariantReport) -> (r: Vec<IncidentAction>)
        ensures
            actions_view(r@) == Seq::new(
                report.identities@.len(),
                |i: int| action_for(report.identities@[i]),
            ),
    {
        let ghost want = Seq::new(
            report.identities@.len(),
            |i: int| action_for(report.identities@[i]),
        );
        let mut out: Vec<IncidentAction> = Vec::new();
        let mut i: usize = 0;
        assert(actions_view(out@) =~= want.take(0));
        while i < report.identities.len()
            invariant
                i <= report.identities@.len(),
                want == Seq::new(
                    report.identities@.len(),
                    |i: int| action_for(report.identities@[i]),
                ),
                actions_view(out@) == want.take(i as int),
            decreases report.identities.len() - i,
        {
            let result = &report.identities[i];
            let key = IncidentKey::new(DETECTOR_INVARIANT, result.identity, INVARIANT_EPISODE);
            let action = if result.pass {
                IncidentAction::ResolveIfOpen(key)
            } else {
                let body = match &result.detail {
                    Some(detail) => detail.clone(),
                    None => text::join2(result.identity, " failed"),
                };
                IncidentAction::Raise { key, severity: "crit", body }
            };
            let ghost kept = actions_view(out@);
            let ghost said = action@;
            out.push(action);
            proof {
                assert(actions_view(out@) =~= kept.push(said));
                assert(said == want[i as int]);
                assert(actions_view(out@) =~= want.take(i + 1));
            }
            i += 1;
        }
        assert(want.take(i as int) =~= want);
        out
    }

    /// What a batch came to: the first failure once all of it was tried, or how
    /// many went through. One broken incident must not hide the rest, and a
    /// broken pager must not read as a healthy sweep.
    ///
    /// # Errors
    ///
    /// The first failure.
    pub fn deliver_pending(&self, outcomes: &[Result<(), StoreError>]) -> (r: Result<
        u32,
        StoreError,
    >)
        ensures
            match first_failure(outcomes@) {
                Some(f) => r matches Err(e) && e@ == f,
                None => r matches Ok(sent) && sent == (if outcomes@.len() > u32::MAX {
                    u32::MAX as int
                } else {
                    outcomes@.len() as int
                }),
            },
    {
        let mut sent: u32 = 0;
        let mut i: usize = 0;
        assert(outcomes@.skip(0) =~= outcomes@);
        while i < outcomes.len()
            invariant
                i <= outcomes@.len(),
                first_failure(outcomes@) == first_failure(outcomes@.skip(i as int)),
                sent == (if i > u32::MAX {
                    u32::MAX as int
                } else {
                    i as int
                }),
            decreases outcomes.len() - i,
        {
            assert(outcomes@.skip(i as int)[0] == outcomes@[i as int]);
            match &outcomes[i] {
                Err(e) => return Err(e.clone()),
                Ok(_) => {},
            }
            assert(outcomes@.skip(i as int).skip(1) =~= outcomes@.skip(i + 1));
            if sent < u32::MAX {
                sent = sent + 1;
            }
            i += 1;
        }
        Ok(sent)
    }
}

/// What a batch of unrelated work came to: the first failure, once all of it was
/// tried.
///
/// # Errors
///
/// The first failure.
pub fn batch_result(outcomes: &[Result<(), StoreError>]) -> (r: Result<(), StoreError>)
    ensures
        match first_failure(outcomes@) {
            Some(f) => r matches Err(e) && e@ == f,
            None => r is Ok,
        },
{
    match IncidentManager.deliver_pending(outcomes) {
        Ok(_) => Ok(()),
        Err(e) => Err(e),
    }
}

/// Pages that were recorded instead of sent.
#[derive(Debug, PartialEq, Eq)]
pub struct RecordingAlerter {
    pub pages: Vec<(String, String, String)>,
}

impl Default for RecordingAlerter {
    fn default() -> (r: Self)
        ensures
            r.pages@.len() == 0,
    {
        RecordingAlerter::new()
    }
}

impl RecordingAlerter {
    #[must_use]
    pub fn new() -> (r: Self)
        ensures
            r.pages@.len() == 0,
    {
        RecordingAlerter { pages: Vec::new() }
    }

    #[must_use]
    pub fn len(&self) -> (r: usize)
        ensures
            r == self.pages@.len(),
    {
        self.pages.len()
    }

    #[must_use]
    pub fn is_empty(&self) -> (r: bool)
        ensures
            r == (self.pages@.len() == 0),
    {
        self.len() == 0
    }

    /// Records a page.
    pub fn page(&mut self, severity: &str, key: &str, body: &str)
        ensures
            final(self).pages@.len() == old(self).pages@.len() + 1,
            final(self).pages@.drop_last() == old(self).pages@,
            final(self).pages@.last().0@ == severity@,
            final(self).pages@.last().1@ == key@,
            final(self).pages@.last().2@ == body@,
    {
        let ghost before = self.pages@;
        self.pages.push((severity.to_owned(), key.to_owned(), body.to_owned()));
        assert(self.pages@.drop_last() =~= before);
    }
}

/// One page for an ongoing incident: once raised, a second raise of the same key
/// finds the first incident and stores nothing, also after an acknowledgement.
pub proof fn law_open_incident_is_raised_once(
    list: Incidents,
    first: IncidentView,
    again: KeyView,
    now: Timestamp,
)
    requires
        json::keys_ascend(list),
        first.status == IncidentStatus::Open,
        again.code() == first.key.code(),
    ensures
        open_at(stored(list, first), again.code()) == Some(first),
        open_at(stored(stored(list, first), acked(first, now)), again.code()) == Some(
            acked(first, now),
        ),
{
    let key = first.key.code();
    lemma_entry_after_put(list, key, first, key);
    json::lemma_put_last(list, key, first);
    lemma_entry_after_put(stored(list, first), key, acked(first, now), key);
}

/// A recurrence after recovery pages again: once resolved, nothing of the key is
/// open, so the next raise stores a new incident.
pub proof fn law_recurrence_after_recovery_is_raised_again(
    list: Incidents,
    incident: IncidentView,
    now: Timestamp,
)
    requires
        json::keys_ascend(list),
    ensures
        open_at(stored(list, resolved(incident, now)), incident.key.code()) is None,
{
    lemma_entry_after_put(
        list,
        incident.key.code(),
        resolved(incident, now),
        incident.key.code(),
    );
}

/// Storing one incident leaves every other key alone.
pub proof fn law_incidents_do_not_disturb_each_other(
    list: Incidents,
    incident: IncidentView,
    other: Seq<char>,
)
    requires
        json::keys_ascend(list),
        other != incident.key.code(),
    ensures
        entry(stored(list, incident), other) == entry(list, other),
{
    lemma_entry_after_put(list, incident.key.code(), incident, other);
}

/// At least once: an unresolved incident whose page never went through is on the
/// queue, and only such incidents are.
pub proof fn law_queue_holds_exactly_the_undelivered(list: Incidents, incident: IncidentView)
    ensures
        pending(list).contains(incident) <==> undelivered(incident) && exists|i: int|
            0 <= i < list.len() && (#[trigger] list[i]).1 == incident,
    decreases list.len(),
{
    if list.len() > 0 {
        let head = list.drop_last();
        law_queue_holds_exactly_the_undelivered(head, incident);
        let here = undelivered(incident) && exists|i: int|
            0 <= i < list.len() && (#[trigger] list[i]).1 == incident;
        if pending(list).contains(incident) {
            let k = choose|k: int| 0 <= k < pending(list).len() && pending(list)[k] == incident;
            if k < pending(head).len() {
                assert(pending(head)[k] == incident);
                let i = choose|i: int| 0 <= i < head.len() && (#[trigger] head[i]).1 == incident;
                assert(list[i].1 == incident);
            } else {
                assert(list[list.len() - 1].1 == incident);
            }
        }
        if here {
            let i = choose|i: int| 0 <= i < list.len() && (#[trigger] list[i]).1 == incident;
            if i < head.len() {
                assert(head[i].1 == incident);
                let k = choose|k: int| 0 <= k < pending(head).len() && pending(head)[k] == incident;
                assert(pending(list)[k] == incident);
            } else {
                assert(pending(list)[pending(list).len() - 1] == incident);
            }
        }
    }
}

/// A raised incident is open and was never paged.
pub proof fn law_raised_incidents_are_open(
    id: u128,
    key: KeyView,
    severity: Seq<char>,
    body: Seq<char>,
)
    ensures
        ({
            let incident = raised(id, key, severity, body);
            &&& incident.id == id && incident.key == key && incident.severity == severity
                && incident.body == body
            &&& incident.status == IncidentStatus::Open
            &&& incident.delivery_attempts == 0 && incident.last_paged_at is None
                && incident.acked_at is None && incident.resolved_at is None
        }),
{
}

/// What becomes of an incident: a page counts one attempt and keeps its time,
/// acknowledging and resolving keep theirs, and nothing else changes.
pub proof fn law_what_becomes_of_an_incident(incident: IncidentView, now: Timestamp)
    ensures
        paged(incident, now).last_paged_at == Some(now),
        incident.delivery_attempts < u32::MAX ==> paged(incident, now).delivery_attempts
            == incident.delivery_attempts + 1,
        paged(incident, now).status == incident.status && paged(incident, now).key == incident.key
            && paged(incident, now).body == incident.body,
        acked(incident, now).status == IncidentStatus::Acked && acked(incident, now).acked_at
            == Some(now),
        acked(incident, now).last_paged_at == incident.last_paged_at && acked(
            incident,
            now,
        ).delivery_attempts == incident.delivery_attempts && acked(incident, now).key
            == incident.key,
        resolved(incident, now).status == IncidentStatus::Resolved && resolved(
            incident,
            now,
        ).resolved_at == Some(now),
        resolved(incident, now).key == incident.key && resolved(incident, now).delivery_attempts
            == incident.delivery_attempts && resolved(incident, now).acked_at == incident.acked_at,
{
}

/// An incident is unresolved while it is open or acknowledged, and waits for its
/// page while it is unresolved and none went through.
pub proof fn law_which_incidents_wait(incident: IncidentView)
    ensures
        undelivered(incident) <==> (incident.status == IncidentStatus::Open || incident.status
            == IncidentStatus::Acked) && incident.last_paged_at is None,
        live(incident) <==> incident.status != IncidentStatus::Resolved,
{
}

/// What an identity asks for: one that passes resolves its incident, and one that
/// fails raises it at the highest severity, with its detail where it has one.
pub proof fn law_what_an_identity_asks_for(result: IdentityResult)
    ensures
        result.pass ==> (action_for(result) matches ActionView::ResolveIfOpen(key) && key.detector
            == "invariant_breach"@ && key.subject == result.identity@ && key.episode == "active"@),
        !result.pass ==> (action_for(result) matches ActionView::Raise { key, severity, body }
            && key.detector == "invariant_breach"@ && key.subject == result.identity@ && key.episode
            == "active"@ && severity == "crit"@ && body == (match result.detail {
            Some(detail) => detail@,
            None => result.identity@ + " failed"@,
        })),
{
}

/// A batch fails with its first failure, and with none where every part of it went
/// through.
pub proof fn law_batches_fail_with_their_first_failure(
    good: Seq<Result<(), StoreError>>,
    e: StoreError,
    rest: Seq<Result<(), StoreError>>,
)
    requires
        forall|i: int| 0 <= i < good.len() ==> #[trigger] good[i] is Ok,
    ensures
        first_failure(good) is None,
        first_failure(good + seq![Err::<(), StoreError>(e)] + rest) == Some(e@),
    decreases good.len(),
{
    let all = good + seq![Err::<(), StoreError>(e)] + rest;
    if good.len() > 0 {
        let less = good.skip(1);
        assert forall|i: int| 0 <= i < less.len() implies #[trigger] less[i] is Ok by {
            assert(less[i] == good[i + 1]);
        }
        assert(all.skip(1) =~= less + seq![Err::<(), StoreError>(e)] + rest);
        assert(all[0] == good[0]);
        law_batches_fail_with_their_first_failure(less, e, rest);
    } else {
        assert(all[0] == Err::<(), StoreError>(e));
    }
}

} // verus!
