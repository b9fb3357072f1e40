//! Paging incidents, one step at a time. An incident is stored before it is
//! paged and counts as delivered only after its page; redelivery tries every
//! pending incident once, and one that fails does not stop the rest.

use crate::clock::Timestamp;
use crate::error::{StoreError, StoreFault};
use crate::ops::alerts;
use crate::ops::alerts::{Incident, IncidentManager, IncidentView, Incidents};
use vstd::prelude::*;

verus! {

/// What the store and the pager answered to a raised incident so far.
#[derive(Debug, PartialEq, Eq)]
pub struct RaiseFacts {
    /// Storing it unless one of its key is unresolved: that one, if there is one.
    pub stored: Option<Result<Option<Incident>, StoreError>>,
    pub paged: Option<Result<(), StoreError>>,
    pub saved: Option<Result<(), StoreError>>,
}

impl RaiseFacts {
    /// Nothing done yet.
    pub fn new() -> (r: Self)
        ensures
            r.stored is None && r.paged is None && r.saved is None,
    {
        RaiseFacts { stored: None, paged: None, saved: None }
    }
}

/// What becomes of a raised incident next.
#[derive(Debug, PartialEq, Eq)]
pub enum RaiseStep {
    /// Store the pending incident unless one of its key is unresolved.
    Store,
    /// Page the stored incident.
    Page,
    /// Save the incident as delivered.
    Save(Incident),
    Done(Result<Incident, StoreError>),
}

/// What becomes of a raised incident next, as plain values.
pub enum RaiseVerdict {
    Store,
    Page,
    Save(IncidentView),
    Done(Result<IncidentView, StoreFault>),
}

impl View for RaiseStep {
    type V = RaiseVerdict;

    open spec fn view(&self) -> RaiseVerdict {
        match self {
            RaiseStep::Store => RaiseVerdict::Store,
            RaiseStep::Page => RaiseVerdict::Page,
            RaiseStep::Save(incident) => RaiseVerdict::Save(incident@),
            RaiseStep::Done(Ok(incident)) => RaiseVerdict::Done(Ok(incident@)),
            RaiseStep::Done(Err(e)) => RaiseVerdict::Done(Err(e@)),
        }
    }
}

/// What becomes of a raised incident after what was answered so far.
pub open spec fn raise_verdict(
    pending: IncidentView,
    facts: RaiseFacts,
    now: Timestamp,
) -> RaiseVerdict {
    match facts.stored {
        None => RaiseVerdict::Store,
        Some(Err(e)) => RaiseVerdict::Done(Err(e@)),
        Some(Ok(Some(existing))) => RaiseVerdict::Done(Ok(existing@)),
        Some(Ok(None)) => match (facts.paged, facts.saved) {
            (None, _) => RaiseVerdict::Page,
            (Some(Err(e)), _) => RaiseVerdict::Done(Err(e@)),
            (Some(Ok(_)), None) => RaiseVerdict::Save(alerts::paged(pending, now)),
            (Some(Ok(_)), Some(Err(e))) => RaiseVerdict::Done(Err(e@)),
            (Some(Ok(_)), Some(Ok(_))) => RaiseVerdict::Done(Ok(alerts::paged(pending, now))),
        },
    }
}

/// What redelivery has to do next.
#[derive(Debug, PartialEq, Eq)]
pub enum DeliverStep {
    /// Page this incident of the queue.
    Page(usize),
    /// Save the incident as delivered.
    Save(Incident),
    /// How many were delivered, or the first failure.
    Done(Result<u32, StoreError>),
}

/// What redelivery has to do next, as plain values.
pub enum DeliverVerdict {
    Page(int),
    Save(IncidentView),
    Done(Result<int, StoreFault>),
}

impl View for DeliverStep {
    type V = DeliverVerdict;

    open spec fn view(&self) -> DeliverVerdict {
        match self {
            DeliverStep::Page(i) => DeliverVerdict::Page(*i as int),
            DeliverStep::Save(incident) => DeliverVerdict::Save(incident@),
            DeliverStep::Done(Ok(sent)) => DeliverVerdict::Done(Ok(*sent as int)),
            DeliverStep::Done(Err(e)) => DeliverVerdict::Done(Err(e@)),
        }
    }
}

/// What happened to one incident, or to the first ones of a queue.
pub type Outcomes = Seq<Result<(), StoreError>>;

/// The outcomes that are known: a page that failed is its incident's outcome.
pub open spec fn settled(done: Outcomes, paged: Option<Result<(), StoreError>>) -> Outcomes {
    match paged {
        Some(Err(e)) => done.push(Err(e)),
        _ => done,
    }
}

/// What a whole queue came to: the first failure, or how many were delivered.
pub open spec fn tally(outcomes: Outcomes) -> Result<int, StoreFault> {
    match alerts::first_failure(outcomes) {
        Some(f) => Err(f),
        None => Ok(
            if outcomes.len() > u32::MAX {
                u32::MAX as int
            } else {
                outcomes.len() as int
            },
        ),
    }
}

/// What redelivery has to do next: `done` are the outcomes of the first
/// incidents, `paged` is what the page of the one after them came to. A page
/// that went through is saved; else the next incident is paged, whatever came
/// before; and only when every incident has an outcome it is over.
pub open spec fn deliver_verdict(
    queue: Seq<IncidentView>,
    done: Outcomes,
    paged: Option<Result<(), StoreError>>,
    now: Timestamp,
) -> DeliverVerdict {
    if paged matches Some(Ok(_)) && done.len() < queue.len() {
        DeliverVerdict::Save(alerts::paged(queue[done.len() as int], now))
    } else if settled(done, paged).len() < queue.len() {
        DeliverVerdict::Page(settled(done, paged).len() as int)
    } else {
        DeliverVerdict::Done(tally(settled(done, paged)))
    }
}

/// What is known after the outcome of a page or of a save: the outcome of a save
/// is its incident's outcome.
pub open spec fn recorded(
    done: Outcomes,
    paged: Option<Result<(), StoreError>>,
    outcome: Result<(), StoreError>,
) -> (Outcomes, Option<Result<(), StoreError>>) {
    match paged {
        Some(Ok(_)) => (done.push(outcome), None),
        _ => (settled(done, paged), Some(outcome)),
    }
}

proof fn lemma_failure_after(done: Outcomes, outcome: Result<(), StoreError>)
    ensures
        alerts::first_failure(done.push(outcome)) == (match alerts::first_failure(done) {
            Some(f) => Some(f),
            None => match outcome {
                Err(e) => Some(e@),
                Ok(_) => None,
            },
        }),
    decreases done.len(),
{
    let more = done.push(outcome);
    if done.len() == 0 {
        assert(more[0] == outcome);
        assert(more.skip(1) =~= done);
    } else {
        assert(more[0] == done[0]);
        assert(more.skip(1) =~= done.skip(1).push(outcome));
        lemma_failure_after(done.skip(1), outcome);
    }
}

impl IncidentManager {
    /// What to do next with a raised incident that is pending: it is stored
    /// before it is paged, and saved as delivered only after its page.
    pub fn raise_step(&self, pending: &Incident, facts: &RaiseFacts, now: Timestamp) -> (r:
        RaiseStep)
        ensures
            r@ == raise_verdict(pending@, *facts, now),
    {
        match &facts.stored {
            None => return RaiseStep::Store,
            Some(Err(e)) => return RaiseStep::Done(Err(e.clone())),
            Some(Ok(Some(existing))) => return RaiseStep::Done(Ok(existing.clone())),
            Some(Ok(None)) => {},
        }
        match &facts.paged {
            None => return RaiseStep::Page,
            Some(Err(e)) => return RaiseStep::Done(Err(e.clone())),
            Some(Ok(_)) => {},
        }
        match &facts.saved {
            None => RaiseStep::Save(self.delivered(pending, now)),
            Some(Err(e)) => RaiseStep::Done(Err(e.clone())),
            Some(Ok(_)) => RaiseStep::Done(Ok(self.delivered(pending, now))),
        }
    }

    /// What to do next in redelivering a queue, given the outcomes of its first
    /// incidents and what the page of the one after them came to.
    pub fn deliver_step(
        &self,
        queue: &[Incident],
        done: &[Result<(), StoreError>],
        paged: &Option<Result<(), StoreError>>,
        now: Timestamp,
    ) -> (r: DeliverStep)
        ensures
            r@ == deliver_verdict(alerts::incidents_view(queue@), done@, *paged, now),
    {
        let mut next: usize = done.len();
        let mut failure: Option<StoreError> = None;
        match paged {
            None => {},
            Some(Ok(_)) => {
                if next < queue.len() {
                    return DeliverStep::Save(self.delivered(&queue[next], now));
                }
            },
            Some(Err(e)) => {
                if next >= queue.len() || next + 1 == queue.len() {
                    failure = Some(e.clone());
                    next = queue.len();
                } else {
                    next = next + 1;
                }
            },
        }
        if next < queue.len() {
            return DeliverStep::Page(next);
        }
        proof {
            if (*paged) is Some && (*paged)->0 is Err {
                lemma_failure_after(done@, (*paged)->0);
            }
        }
        match self.deliver_pending(done) {
            Err(e) => DeliverStep::Done(Err(e)),
            Ok(sent) => match failure {
                Some(e) => DeliverStep::Done(Err(e)),
                None => DeliverStep::Done(Ok(sent)),
            },
        }
    }
}

/// How far the redelivery of a queue has come.
#[derive(Debug, PartialEq, Eq)]
pub struct Delivery {
    /// The outcomes of the first incidents.
    pub done: Vec<Result<(), StoreError>>,
    /// What the page of the one after them came to.
    pub paged: Option<Result<(), StoreError>>,
}

impl Delivery {
    /// Nothing tried yet.
    pub fn new() -> (r: Self)
        ensures
            r.done@.len() == 0 && r.paged is None,
    {
        Delivery { done: Vec::new(), paged: None }
    }

    /// Takes down what the page or the save of the last step came to.
    pub fn record(&mut self, outcome: Result<(), StoreError>)
        ensures
            (final(self).done@, final(self).paged) == recorded(
                old(self).done@,
                old(self).paged,
                outcome,
            ),
    {
        let was = self.paged.take();
        match was {
            Some(Ok(_)) => {
                self.done.push(outcome);
            },
            Some(Err(e)) => {
                self.done.push(Err(e));
                self.paged = Some(outcome);
            },
            None => {
                self.paged = Some(outcome);
            },
        }
    }
}

/// The steps of a redelivery from some point on, where the page of incident `i`
/// comes to `pages[i]` and its save, if there is one, to `saves[i]`.
pub open spec fn sweep(
    queue: Seq<IncidentView>,
    pages: Outcomes,
    saves: Outcomes,
    now: Timestamp,
    done: Outcomes,
    paged: Option<Result<(), StoreError>>,
) -> Seq<DeliverVerdict>
    decreases
            2 * (queue.len() - done.len()) + if paged is Some {
                0int
            } else {
                1
            },
{
    let step = deliver_verdict(queue, done, paged, now);
    match step {
        DeliverVerdict::Page(i) => {
            let next = recorded(done, paged, pages[i]);
            seq![step] + sweep(queue, pages, saves, now, next.0, next.1)
        },
        DeliverVerdict::Save(_) => {
            let next = recorded(done, paged, saves[done.len() as int]);
            seq![step] + sweep(queue, pages, saves, now, next.0, next.1)
        },
        DeliverVerdict::Done(_) => seq![step],
    }
}

/// The outcome of each incident: its page's where that failed, else its save's.
pub open spec fn outcomes_of(pages: Outcomes, saves: Outcomes) -> Outcomes {
    Seq::new(
        pages.len(),
        |i: int|
            if pages[i] is Ok {
                saves[i]
            } else {
                pages[i]
            },
    )
}

/// Every incident from `i` on is paged once, in order; each is saved as
/// delivered right after a page that went through, and not otherwise; then comes
/// the tally of all outcomes.
pub open spec fn full_sweep(
    queue: Seq<IncidentView>,
    pages: Outcomes,
    saves: Outcomes,
    now: Timestamp,
    i: int,
) -> Seq<DeliverVerdict>
    decreases queue.len() - i,
{
    if i >= queue.len() {
        seq![DeliverVerdict::Done(tally(outcomes_of(pages, saves)))]
    } else {
        let saved = if pages[i] is Ok {
            seq![DeliverVerdict::Save(alerts::paged(queue[i], now))]
        } else {
            Seq::empty()
        };
        seq![DeliverVerdict::Page(i)] + saved + full_sweep(queue, pages, saves, now, i + 1)
    }
}

/// At least once, and no incident starves another: a redelivery pages every
/// incident of the queue once, failures notwithstanding, saves as delivered
/// exactly those whose page went through, and ends with the first failure or the
/// number delivered.
pub proof fn law_sweep_tries_every_incident(
    queue: Seq<IncidentView>,
    pages: Outcomes,
    saves: Outcomes,
    now: Timestamp,
)
    requires
        pages.len() == queue.len(),
        saves.len() == queue.len(),
    ensures
        sweep(queue, pages, saves, now, Seq::empty(), None) == full_sweep(
            queue,
            pages,
            saves,
            now,
            0,
        ),
{
    assert(outcomes_of(pages, saves).take(0) =~= Seq::empty());
    lemma_sweep_from(queue, pages, saves, now, Seq::empty(), None, 0);
}

proof fn lemma_sweep_from(
    queue: Seq<IncidentView>,
    pages: Outcomes,
    saves: Outcomes,
    now: Timestamp,
    done: Outcomes,
    paged: Option<Result<(), StoreError>>,
    i: int,
)
    requires
        pages.len() == queue.len(),
        saves.len() == queue.len(),
        0 <= i <= queue.len(),
        !(paged matches Some(Ok(_))),
        settled(done, paged) == outcomes_of(pages, saves).take(i),
    ensures
        sweep(queue, pages, saves, now, done, paged) == full_sweep(queue, pages, saves, now, i),
    decreases queue.len() - i,
{
    let all = outcomes_of(pages, saves);
    if i == queue.len() {
        assert(all.take(i) =~= all);
    } else {
        let known = settled(done, paged);
        let outcome = pages[i];
        assert(all.take(i + 1) =~= known.push(all[i]));
        let after = sweep(queue, pages, saves, now, known, Some(outcome));
        assert(sweep(queue, pages, saves, now, done, paged) == seq![DeliverVerdict::Page(i)]
            + after);
        let rest = full_sweep(queue, pages, saves, now, i + 1);
        if outcome is Ok {
            lemma_sweep_from(queue, pages, saves, now, known.push(saves[i]), None, i + 1);
            let save = DeliverVerdict::Save(alerts::paged(queue[i], now));
            assert(after == seq![save] + rest);
            assert(seq![DeliverVerdict::Page(i)] + after =~= seq![DeliverVerdict::Page(i)] + seq![
                save,
            ] + rest);
        } else {
            assert(settled(known, Some(outcome)) =~= all.take(i + 1));
            lemma_sweep_from(queue, pages, saves, now, known, Some(outcome), i + 1);
            assert(seq![DeliverVerdict::Page(i)] + after =~= seq![DeliverVerdict::Page(i)]
                + Seq::<DeliverVerdict>::empty() + rest);
        }
    }
}

/// The incidents after the first `n` of a queue were tried: those are stored as
/// delivered whose page and save went through.
pub open spec fn swept(
    list: Incidents,
    queue: Seq<IncidentView>,
    pages: Outcomes,
    saves: Outcomes,
    now: Timestamp,
    n: int,
) -> Incidents
    decreases n,
{
    if n <= 0 {
        list
    } else {
        let before = swept(list, queue, pages, saves, now, n - 1);
        if pages[n - 1] is Ok && saves[n - 1] is Ok {
            alerts::stored(before, alerts::paged(queue[n - 1], now))
        } else {
            before
        }
    }
}

/// Redelivery takes off the queue exactly the incidents whose page and save went
/// through: those have one more attempt and the time of their page, and every
/// other incident is left as it was.
pub proof fn law_sweep_retires_exactly_the_delivered(
    list: Incidents,
    queue: Seq<IncidentView>,
    pages: Outcomes,
    saves: Outcomes,
    now: Timestamp,
    n: int,
    key: Seq<char>,
)
    requires
        crate::json::keys_ascend(list),
        pages.len() == queue.len(),
        saves.len() == queue.len(),
        0 <= n <= queue.len(),
        forall|i: int, j: int|
            0 <= i < j < queue.len() ==> (#[trigger] queue[i]).key.code() != (
            #[trigger] queue[j]).key.code(),
    ensures
        crate::json::keys_ascend(swept(list, queue, pages, saves, now, n)),
        forall|i: int|
            0 <= i < n && (#[trigger] queue[i]).key.code() == key && pages[i] is Ok && saves[i]
                is Ok ==> alerts::entry(swept(list, queue, pages, saves, now, n), key) == Some(
                alerts::paged(queue[i], now),
            ) && !alerts::undelivered(alerts::paged(queue[i], now)),
        (forall|i: int|
            0 <= i < n && (#[trigger] queue[i]).key.code() == key ==> !(pages[i] is Ok && saves[i]
                is Ok)) ==> alerts::entry(swept(list, queue, pages, saves, now, n), key)
            == alerts::entry(list, key),
    decreases n,
{
    if n > 0 {
        law_sweep_retires_exactly_the_delivered(list, queue, pages, saves, now, n - 1, key);
        let before = swept(list, queue, pages, saves, now, n - 1);
        let last = queue[n - 1];
        if pages[n - 1] is Ok && saves[n - 1] is Ok {
            alerts::lemma_stored(before, alerts::paged(last, now), key);
        }
    }
}

/// The durable queue: a raised incident is paged only once it is stored, where it
/// is pending, and is saved as delivered only after its page. Where its page or
/// that save fails it stays pending, and the failure is what comes back.
pub proof fn law_raised_incidents_are_stored_before_they_are_paged(
    pending: IncidentView,
    facts: RaiseFacts,
    now: Timestamp,
)
    ensures
        raise_verdict(pending, facts, now) is Page ==> facts.stored matches Some(Ok(None)),
        raise_verdict(pending, facts, now) matches RaiseVerdict::Save(incident) ==> (
        facts.stored matches Some(Ok(None))) && (facts.paged matches Some(Ok(_))) && incident
            == alerts::paged(pending, now),
        facts.stored matches Some(Ok(None)) ==> (facts.paged matches Some(Err(e)) ==> raise_verdict(
            pending,
            facts,
            now,
        ) == RaiseVerdict::Done(Err(e@))),
        facts.stored matches Some(Ok(None)) ==> (facts.paged matches Some(Ok(_)) ==> (
        facts.saved matches Some(Err(e)) ==> raise_verdict(pending, facts, now)
            == RaiseVerdict::Done(Err(e@)))),
        facts.stored matches Some(Ok(Some(existing))) ==> raise_verdict(pending, facts, now)
            == RaiseVerdict::Done(Ok(existing@)),
{
}

/// A raised incident that was stored and not yet saved as delivered is on the
/// queue, and saving it takes it off.
pub proof fn law_stored_incidents_wait_for_their_page(
    list: Incidents,
    id: u128,
    key: alerts::KeyView,
    severity: Seq<char>,
    body: Seq<char>,
    now: Timestamp,
)
    requires
        crate::json::keys_ascend(list),
    ensures
        ({
            let pending = alerts::raised(id, key, severity, body);
            let stored = alerts::stored(list, pending);
            let saved = alerts::stored(stored, alerts::paged(pending, now));
            &&& alerts::entry(stored, key.code()) == Some(pending) && alerts::undelivered(pending)
            &&& alerts::entry(saved, key.code()) == Some(alerts::paged(pending, now))
            &&& !alerts::undelivered(alerts::paged(pending, now))
            &&& alerts::paged(pending, now).delivery_attempts == 1
        }),
{
    let pending = alerts::raised(id, key, severity, body);
    alerts::lemma_stored(list, pending, key.code());
    alerts::lemma_stored(alerts::stored(list, pending), alerts::paged(pending, now), key.code());
}

/// A queue that went through counts every incident of it, and one that did not
/// comes back with its first failure.
pub proof fn law_what_a_queue_comes_to(
    good: Outcomes,
    e: StoreError,
    rest: Outcomes,
)
    requires
        forall|i: int| 0 <= i < good.len() ==> #[trigger] good[i] is Ok,
        good.len() <= u32::MAX,
    ensures
        tally(good) == Ok::<int, StoreFault>(good.len() as int),
        tally(good + seq![Err::<(), StoreError>(e)] + rest) == Err::<int, StoreFault>(e@),
{
    alerts::law_batches_fail_with_their_first_failure(good, e, rest);
}

/// Redelivery goes on after a failure: it pages the next incident that has no
/// outcome yet, saves each one whose page went through, and is over only when
/// every incident has an outcome.
pub proof fn law_what_redelivery_does_next(
    queue: Seq<IncidentView>,
    done: Outcomes,
    e: StoreError,
    now: Timestamp,
)
    requires
        done.len() < queue.len(),
    ensures
        deliver_verdict(queue, done, None, now) == DeliverVerdict::Page(done.len() as int),
        deliver_verdict(queue, done, Some(Ok(())), now) == DeliverVerdict::Save(
            alerts::paged(queue[done.len() as int], now),
        ),
        done.len() + 1 < queue.len() ==> deliver_verdict(queue, done, Some(Err(e)), now)
            == DeliverVerdict::Page(done.len() as int + 1),
        done.len() + 1 == queue.len() ==> deliver_verdict(queue, done, Some(Err(e)), now) is Done,
{
}

} // verus!
