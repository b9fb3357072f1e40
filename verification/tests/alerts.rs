//! Incidents: raising, paging, acknowledging, resolving and redelivering, with a
//! pager that can be made to fail.

use opinions::clock::Timestamp;
use opinions::error::StoreError;
use opinions::ops::alerts::{
    batch_result, Incident, IncidentAction, IncidentKey, IncidentManager, IncidentStatus, IdentityResult,
    InvariantReport, MemoryAlertStore, RecordingAlerter, DETECTOR_AML, DETECTOR_INVARIANT,
    DETECTOR_RECON, DETECTOR_RESERVE, DETECTOR_STUCK_SCREEN, DETECTOR_STUCK_SEND,
};
use opinions::ops::delivery::{DeliverStep, Delivery, RaiseFacts, RaiseStep};

fn now() -> Timestamp {
    Timestamp::from_secs(1_700_000_000)
}

/// The manager with its store and pager; pages to `fail_keys` fail, and so do
/// saves of incidents whose body is `fail-save`.
struct Desk {
    store: MemoryAlertStore,
    alerter: RecordingAlerter,
    fail_keys: Vec<String>,
    next_id: u128,
}

impl Desk {
    fn new() -> Desk {
        Desk {
            store: MemoryAlertStore::new(),
            alerter: RecordingAlerter::new(),
            fail_keys: Vec::new(),
            next_id: 100,
        }
    }

    fn failing_on(key: &IncidentKey) -> Desk {
        let mut desk = Desk::new();
        desk.fail_keys.push(key.encoded());
        desk
    }

    fn paged(&self) -> Vec<String> {
        self.alerter.pages.iter().map(|p| p.1.clone()).collect()
    }

    fn page(&mut self, incident: &Incident) -> Result<(), StoreError> {
        let key = incident.key.encoded();
        if self.fail_keys.contains(&key) {
            return Err(StoreError::Unavailable("pager down"));
        }
        self.alerter.page(&incident.severity, &key, &incident.body);
        Ok(())
    }

    fn save(&mut self, incident: &Incident) -> Result<(), StoreError> {
        if incident.body == "fail-save" {
            return Err(StoreError::Unavailable("alert save failed"));
        }
        self.store.save(incident);
        Ok(())
    }

    fn raise(
        &mut self,
        key: &IncidentKey,
        severity: &str,
        body: &str,
        now: Timestamp,
    ) -> Result<Incident, StoreError> {
        self.next_id += 1;
        let pending = IncidentManager.raise(self.next_id, key.clone(), severity, body);
        let mut facts = RaiseFacts::new();
        loop {
            match IncidentManager.raise_step(&pending, &facts, now) {
                RaiseStep::Store => {
                    facts.stored = Some(Ok(self.store.insert_if_absent(pending.clone())));
                }
                RaiseStep::Page => facts.paged = Some(self.page(&pending)),
                RaiseStep::Save(delivered) => facts.saved = Some(self.save(&delivered)),
                RaiseStep::Done(result) => return result,
            }
        }
    }

    fn ack(&mut self, key: &IncidentKey) -> Result<Incident, StoreError> {
        let incident = IncidentManager.ack(self.store.find_open(key), now())?;
        self.save(&incident)?;
        Ok(incident)
    }

    fn resolve(&mut self, key: &IncidentKey) -> Result<Incident, StoreError> {
        let incident = IncidentManager.resolve(self.store.find_open(key), now())?;
        self.save(&incident)?;
        Ok(incident)
    }

    fn sync(&mut self, report: &InvariantReport) -> Result<(), StoreError> {
        let mut outcomes: Vec<Result<(), StoreError>> = Vec::new();
        for action in IncidentManager.sync_invariant_report(report) {
            outcomes.push(match action {
                IncidentAction::ResolveIfOpen(key) => {
                    let found = self.store.find_open(&key);
                    match IncidentManager.resolve_if_open(found, now()) {
                        Some(incident) => self.save(&incident),
                        None => Ok(()),
                    }
                }
                IncidentAction::Raise { key, severity, body } => {
                    self.raise(&key, severity, &body, now()).map(|_| ())
                }
            });
        }
        batch_result(&outcomes)
    }

    fn deliver_pending(&mut self, now: Timestamp) -> Result<u32, StoreError> {
        let queue = self.store.pending_delivery();
        let mut delivery = Delivery::new();
        loop {
            match IncidentManager.deliver_step(&queue, &delivery.done, &delivery.paged, now) {
                DeliverStep::Page(i) => {
                    let outcome = self.page(&queue[i]);
                    delivery.record(outcome);
                }
                DeliverStep::Save(delivered) => {
                    let outcome = self.save(&delivered);
                    delivery.record(outcome);
                }
                DeliverStep::Done(result) => return result,
            }
        }
    }
}

fn incident(id: u128, key: &IncidentKey, body: &str, status: IncidentStatus) -> Incident {
    Incident {
        id,
        key: key.clone(),
        severity: "crit".to_string(),
        body: body.to_string(),
        status,
        delivery_attempts: 0,
        last_paged_at: None,
        acked_at: None,
        resolved_at: None,
    }
}

fn report(identities: &[(&'static str, bool)]) -> InvariantReport {
    InvariantReport {
        as_of: now(),
        pass: identities.iter().all(|(_, pass)| *pass),
        identities: identities
            .iter()
            .map(|(identity, pass)| IdentityResult {
                identity,
                pass: *pass,
                detail: if *pass { None } else { Some(format!("{identity} drifted")) },
            })
            .collect(),
    }
}

#[test]
fn a_failed_first_page_leaves_the_incident_pending_for_redelivery() {
    let key = IncidentKey::new(DETECTOR_RECON, "cut", "residual:1");
    let mut desk = Desk::failing_on(&key);
    assert!(
        desk.raise(&key, "crit", "1us", now()).is_err(),
        "a pager failure must surface, not be swallowed"
    );
    let pending = desk.store.pending_delivery();
    assert_eq!(
        pending.len(),
        1,
        "an incident whose first page failed must stay in the at-least-once queue"
    );
    assert_eq!(pending[0].delivery_attempts, 0);
    assert_eq!(pending[0].last_paged_at, None);
}

#[test]
fn a_post_page_save_failure_surfaces_and_keeps_the_incident_pending() {
    let key = IncidentKey::new(DETECTOR_RECON, "save", "residual:1");
    let mut desk = Desk::new();
    desk.store.insert(incident(13, &key, "fail-save", IncidentStatus::Open));
    assert_eq!(desk.store.pending_delivery().len(), 1);
    assert_eq!(
        desk.deliver_pending(now()),
        Err(StoreError::Unavailable("alert save failed"))
    );
    assert_eq!(desk.alerter.len(), 1, "the page landed before the save failed");
    let pending = desk.store.pending_delivery();
    assert_eq!(pending.len(), 1);
    assert_eq!(pending[0].delivery_attempts, 0);
    assert_eq!(pending[0].last_paged_at, None);
}

#[test]
fn a_successful_first_page_records_one_attempt_at_the_supplied_time() {
    let mut desk = Desk::new();
    let key = IncidentKey::new(DETECTOR_INVARIANT, "suite", "ep-1");
    let raised = desk.raise(&key, "crit", "drift", now()).unwrap();
    assert_eq!(raised.delivery_attempts, 1);
    assert_eq!(raised.last_paged_at, Some(now()));
    assert_eq!(desk.alerter.len(), 1);
    assert!(desk.store.pending_delivery().is_empty(), "a paged incident is not pending");
    let stored = desk.store.find_open(&key).unwrap();
    assert_eq!(stored.delivery_attempts, 1);
    assert_eq!(stored.last_paged_at, Some(now()));
}

#[test]
fn redelivery_stamps_the_supplied_time_and_never_the_unix_epoch() {
    let key = IncidentKey::new(DETECTOR_RECON, "cut", "residual:1");
    let mut desk = Desk::new();
    desk.store.insert(incident(9, &key, "1us", IncidentStatus::Open));
    let later = now().plus_secs(300);
    assert_eq!(desk.deliver_pending(later).unwrap(), 1);
    let stored = desk.store.find_open(&key).unwrap();
    assert_eq!(
        stored.last_paged_at,
        Some(later),
        "the pump must stamp the real time it paged, not 1970"
    );
    assert_ne!(stored.last_paged_at, Some(Timestamp(0)));
    assert_eq!(stored.delivery_attempts, 1);
    assert_eq!(desk.deliver_pending(later).unwrap(), 0);
}

#[test]
fn a_poison_incident_does_not_starve_the_incidents_behind_it() {
    let poison = IncidentKey::new(DETECTOR_AML, "user-a", "ep-1");
    let healthy = IncidentKey::new(DETECTOR_AML, "user-b", "ep-1");
    let mut desk = Desk::failing_on(&poison);
    desk.store.insert(incident(1, &poison, "flag", IncidentStatus::Open));
    desk.store.insert(incident(2, &healthy, "flag", IncidentStatus::Open));
    assert_eq!(
        desk.deliver_pending(now()),
        Err(StoreError::Unavailable("pager down")),
        "a pager failure must surface after the batch, never be swallowed"
    );
    assert_eq!(
        desk.paged(),
        vec![healthy.encoded()],
        "the healthy incident is delivered even though the first one failed"
    );
    let pending = desk.store.pending_delivery();
    assert_eq!(pending.len(), 1, "only the poison incident stays pending");
    assert_eq!(pending[0].key, poison);
    let stored = desk.store.find_open(&healthy).unwrap();
    assert_eq!(stored.delivery_attempts, 1, "the healthy page was recorded");
    assert_eq!(stored.last_paged_at, Some(now()));
}

#[test]
fn an_acked_but_never_paged_incident_stays_pending() {
    let key = IncidentKey::new(DETECTOR_INVARIANT, "suite", "ep-1");
    let mut desk = Desk::new();
    let mut acked = incident(3, &key, "drift", IncidentStatus::Acked);
    acked.acked_at = Some(now());
    desk.store.insert(acked);
    let pending = desk.store.pending_delivery();
    assert_eq!(
        pending.len(),
        1,
        "an operator ack is not a page; the incident is still undelivered"
    );
    assert_eq!(pending[0].key, key);
}

#[test]
fn a_resolved_incident_is_never_redelivered() {
    let key = IncidentKey::new(DETECTOR_RESERVE, "reserve", "ep-1");
    let mut desk = Desk::new();
    let mut resolved = incident(4, &key, "coverage", IncidentStatus::Resolved);
    resolved.resolved_at = Some(now());
    desk.store.insert(resolved);
    assert!(desk.store.pending_delivery().is_empty());
}

#[test]
fn a_concurrent_raise_opens_exactly_one_incident_and_pages_once() {
    let mut desk = Desk::new();
    let key = IncidentKey::new(DETECTOR_RECON, "cut", "residual:1");
    let first = desk.raise(&key, "crit", "1us", now()).unwrap();
    let second = desk.raise(&key, "crit", "1us", now()).unwrap();
    assert_eq!(
        first.id, second.id,
        "the loser of the open-or-get race must adopt the winner's incident"
    );
    assert_eq!(desk.alerter.len(), 1, "a duplicate raise must never page an operator twice");
}

#[test]
fn insert_if_absent_reports_the_existing_open_incident_and_reopens_after_resolve() {
    let mut store = MemoryAlertStore::new();
    let key = IncidentKey::new(DETECTOR_STUCK_SEND, "wd-1", "ep-1");
    let first = incident(11, &key, "stuck", IncidentStatus::Open);
    assert_eq!(store.insert_if_absent(first.clone()), None);
    let mut second = first.clone();
    second.id = 12;
    assert_eq!(
        store.insert_if_absent(second.clone()).map(|i| i.id),
        Some(first.id),
        "an open incident with the same key is returned, not duplicated"
    );
    let mut resolved = first;
    resolved.status = IncidentStatus::Resolved;
    resolved.resolved_at = Some(now());
    store.save(&resolved);
    assert_eq!(
        store.insert_if_absent(second),
        None,
        "a recurrence after recovery opens a new episode"
    );
}

#[test]
fn an_ongoing_invariant_breach_pages_once_and_then_dedups() {
    let mut desk = Desk::new();
    let breach = report(&[("per_txn_sum_zero", false), ("job_idempotency", true)]);
    desk.sync(&breach).unwrap();
    desk.sync(&breach).unwrap();
    assert_eq!(desk.alerter.len(), 1, "an ongoing breach pages once, not once per sweep");
    let key = IncidentKey::new(DETECTOR_INVARIANT, "per_txn_sum_zero", "active");
    let open = desk.store.find_open(&key).unwrap();
    assert_eq!(open.severity, "crit");
    assert!(
        open.body.contains("per_txn_sum_zero"),
        "the identity's detail is the incident body"
    );
    assert!(
        desk.store
            .find_open(&IncidentKey::new(DETECTOR_INVARIANT, "job_idempotency", "active"))
            .is_none(),
        "a passing identity opens nothing"
    );
}

#[test]
fn a_recovered_identity_resolves_and_a_recurrence_pages_a_new_incident() {
    let mut desk = Desk::new();
    let key = IncidentKey::new(DETECTOR_INVARIANT, "per_txn_sum_zero", "active");
    desk.sync(&report(&[("per_txn_sum_zero", false)])).unwrap();
    let first = desk.store.find_open(&key).unwrap();
    assert_eq!(desk.alerter.len(), 1);
    desk.sync(&report(&[("per_txn_sum_zero", true)])).unwrap();
    assert!(desk.store.find_open(&key).is_none(), "recovery resolves the open incident");
    assert_eq!(desk.alerter.len(), 1, "recovery does not page");
    desk.sync(&report(&[("per_txn_sum_zero", false)])).unwrap();
    let second = desk.store.find_open(&key).unwrap();
    assert_ne!(
        second.id, first.id,
        "a recurrence after recovery is a new incident, not the corpse"
    );
    assert_eq!(desk.alerter.len(), 2, "a recurrence pages again");
}

#[test]
fn a_continued_pass_with_nothing_open_is_a_no_op() {
    let mut desk = Desk::new();
    let clean = report(&[("per_txn_sum_zero", true), ("job_idempotency", true)]);
    desk.sync(&clean).unwrap();
    desk.sync(&clean).unwrap();
    assert_eq!(desk.alerter.len(), 0);
    assert!(desk.store.pending_delivery().is_empty());
    assert!(desk
        .store
        .find_open(&IncidentKey::new(DETECTOR_INVARIANT, "per_txn_sum_zero", "active"))
        .is_none());
}

#[test]
fn a_failing_identity_whose_page_fails_stays_pending_and_the_error_surfaces() {
    let key = IncidentKey::new(DETECTOR_INVARIANT, "per_txn_sum_zero", "active");
    let mut desk = Desk::failing_on(&key);
    let breach = report(&[("per_txn_sum_zero", false), ("job_idempotency", false)]);
    assert!(
        desk.sync(&breach).is_err(),
        "the pager failure must surface once the whole report is attempted"
    );
    assert_eq!(
        desk.paged(),
        vec![IncidentKey::new(DETECTOR_INVARIANT, "job_idempotency", "active").encoded()],
        "the second identity is still raised despite the first one failing"
    );
    let pending = desk.store.pending_delivery();
    assert_eq!(pending.len(), 1);
    assert_eq!(pending[0].key, key);
}

#[test]
fn a_failing_identity_without_a_detail_names_itself_in_the_body() {
    let bare = InvariantReport {
        as_of: now(),
        pass: false,
        identities: vec![IdentityResult { identity: "non_negative", pass: false, detail: None }],
    };
    assert_eq!(
        IncidentManager.sync_invariant_report(&bare),
        vec![IncidentAction::Raise {
            key: IncidentKey::new(DETECTOR_INVARIANT, "non_negative", "active"),
            severity: "crit",
            body: "non_negative failed".to_string(),
        }]
    );
}

#[test]
fn open_incident_is_deduped_until_resolved_then_repages() {
    let mut desk = Desk::new();
    let key = IncidentKey::new(DETECTOR_INVARIANT, "suite", "ep-1");
    let first = desk.raise(&key, "crit", "drift", now()).unwrap();
    let again = desk.raise(&key, "crit", "drift", now()).unwrap();
    assert_eq!(first.id, again.id);
    assert_eq!(desk.alerter.len(), 1);
    desk.ack(&key).unwrap();
    assert!(desk.ack(&key).is_ok());
    desk.resolve(&key).unwrap();
    assert!(desk.ack(&key).is_err());
    let recur = desk.raise(&key, "crit", "drift-again", now()).unwrap();
    assert_ne!(recur.id, first.id);
    assert_eq!(desk.alerter.len(), 2);
    assert_eq!(key.encoded(), "invariant_breach:suite:ep-1");
}

#[test]
fn pending_delivery_is_at_least_once_and_missing_ack_is_typed() {
    let mut desk = Desk::new();
    let key = IncidentKey::new(DETECTOR_RECON, "cut", "ep");
    desk.store.insert(incident(1, &key, "1us", IncidentStatus::Open));
    assert_eq!(desk.deliver_pending(now()).unwrap(), 1);
    assert_eq!(desk.alerter.len(), 1);
    assert_eq!(desk.deliver_pending(now()).unwrap(), 0);
    let missing = IncidentKey::new(DETECTOR_AML, "user", "none");
    assert_eq!(desk.resolve(&missing), Err(StoreError::NotFound("alert incident")));
    assert_eq!(desk.ack(&missing), Err(StoreError::NotFound("alert incident")));
    assert!(desk.alerter.is_empty() || desk.alerter.len() == 1);
    for detector in [DETECTOR_STUCK_SEND, DETECTOR_STUCK_SCREEN, DETECTOR_RESERVE] {
        assert!(!detector.is_empty());
    }
}

#[test]
fn pending_incidents_come_in_the_order_of_their_keys() {
    let mut store = MemoryAlertStore::new();
    for subject in ["c", "a", "b"] {
        let key = IncidentKey::new(DETECTOR_AML, subject, "ep");
        store.insert(incident(1, &key, "flag", IncidentStatus::Open));
    }
    let subjects: Vec<String> =
        store.pending_delivery().into_iter().map(|i| i.key.subject).collect();
    assert_eq!(subjects, vec!["a".to_string(), "b".to_string(), "c".to_string()]);
}

#[test]
fn the_attempt_count_saturates() {
    let key = IncidentKey::new(DETECTOR_AML, "user", "ep");
    let mut worn = incident(1, &key, "flag", IncidentStatus::Open);
    worn.delivery_attempts = u32::MAX;
    let delivered = IncidentManager.delivered(&worn, now());
    assert_eq!(delivered.delivery_attempts, u32::MAX);
    assert_eq!(delivered.last_paged_at, Some(now()));
}

#[test]
fn a_sweep_goes_on_after_a_failed_page_and_a_failed_save() {
    let keys = [
        IncidentKey::new(DETECTOR_AML, "a", "1"),
        IncidentKey::new(DETECTOR_AML, "b", "1"),
        IncidentKey::new(DETECTOR_AML, "c", "1"),
    ];
    let queue: Vec<Incident> =
        keys.iter().map(|key| incident(7, key, "body", IncidentStatus::Open)).collect();
    let mut delivery = Delivery::new();
    let mut step = |outcome: Option<Result<(), StoreError>>| {
        if let Some(outcome) = outcome {
            delivery.record(outcome);
        }
        IncidentManager.deliver_step(&queue, &delivery.done, &delivery.paged, now())
    };
    let pager = || Err(StoreError::Unavailable("pager down"));
    assert_eq!(step(None), DeliverStep::Page(0));
    assert_eq!(step(Some(pager())), DeliverStep::Page(1));
    match step(Some(Ok(()))) {
        DeliverStep::Save(saved) => {
            assert_eq!(saved.key, keys[1]);
            assert_eq!(saved.delivery_attempts, 1);
            assert_eq!(saved.last_paged_at, Some(now()));
        }
        other => panic!("{other:?}"),
    }
    assert_eq!(step(Some(Err(StoreError::Unavailable("save")))), DeliverStep::Page(2));
    assert!(matches!(step(Some(Ok(()))), DeliverStep::Save(_)));
    assert_eq!(step(Some(Ok(()))), DeliverStep::Done(pager().map(|()| 0)));
}

#[test]
fn a_last_page_that_fails_ends_the_sweep() {
    let key = IncidentKey::new(DETECTOR_AML, "a", "1");
    let queue = vec![incident(7, &key, "body", IncidentStatus::Acked)];
    let mut delivery = Delivery::new();
    delivery.record(Err(StoreError::Unavailable("pager down")));
    assert_eq!(
        IncidentManager.deliver_step(&queue, &delivery.done, &delivery.paged, now()),
        DeliverStep::Done(Err(StoreError::Unavailable("pager down")))
    );
    assert_eq!(
        IncidentManager.deliver_step(&[], &[], &None, now()),
        DeliverStep::Done(Ok(0))
    );
}

#[test]
fn a_batch_comes_to_its_first_failure() {
    assert_eq!(batch_result(&[]), Ok(()));
    assert_eq!(batch_result(&[Ok(()), Ok(())]), Ok(()));
    assert_eq!(
        batch_result(&[
            Ok(()),
            Err(StoreError::Unavailable("first")),
            Err(StoreError::Unavailable("second")),
        ]),
        Err(StoreError::Unavailable("first"))
    );
}
