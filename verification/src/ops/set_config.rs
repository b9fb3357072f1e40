//! Writing configuration: the direct path for keys that are not sensitive, and
//! the core that applies a patch, which confirmed proposals share. The order is
//! one transaction's: exclusive pause fences, the generation row, validation of
//! the whole snapshot, pause timing, change rows, the public pause frames and
//! the wake-up.

use crate::clock::Timestamp;
use crate::error;
use crate::error::{AppError, Fault, StoreError, StoreFault};
use crate::identity;
use crate::json;
use crate::json::{Json, JsonView, Members};
use crate::model;
use crate::model::{
    ActionView, ActorView, AdminAction, AdminContext, AdminRole, ChangeView, ConfigChange,
    ConfigEntry, Event, EventView, MarketId,
};
use crate::ops::catalog;
use crate::ops::config;
use crate::ops::fences;
use crate::ops::snapshot;
use crate::ops::snapshot::Values;
use crate::text;
use vstd::prelude::*;

verus! {

/// The names of some members, in order.
pub open spec fn member_names(members: Members) -> Seq<Seq<char>> {
    Seq::new(members.len(), |i: int| members[i].0)
}

/// Why a patch has no keys, if it has none.
pub open spec fn shape_fault(patch: JsonView) -> Option<Fault> {
    match json::canon(patch) {
        JsonView::Object(members) => if members.len() == 0 {
            Some(Fault::ConfigInvalid { key: "patch"@, reason: "patch must not be empty"@ })
        } else {
            None
        },
        _ => Some(Fault::ConfigInvalid { key: "patch"@, reason: "patch must be a JSON object"@ }),
    }
}

/// The keys of a patch, sorted.
pub open spec fn keys_of(patch: JsonView) -> Seq<Seq<char>> {
    text::sorted_texts(member_names(config::patch_members(patch)))
}

/// The keys of a patch, sorted.
///
/// # Errors
///
/// [`AppError::ConfigInvalid`] where the patch is no object or is empty.
pub fn patch_keys(patch: &Json) -> (r: Result<Vec<String>, AppError>)
    ensures
        match shape_fault(patch@) {
            Some(f) => error::failed(r, f),
            None => r matches Ok(keys) && text::texts(keys@) == keys_of(patch@) && keys@.len() > 0,
        },
{
    let sorted = json::canonical(patch);
    let members = match sorted.as_object() {
        Some(members) => members,
        None => return Err(
            AppError::ConfigInvalid {
                key: "patch".to_owned(),
                reason: "patch must be a JSON object",
            },
        ),
    };
    if members.len() == 0 {
        return Err(
            AppError::ConfigInvalid { key: "patch".to_owned(), reason: "patch must not be empty" },
        );
    }
    let ghost names = member_names(json::members_view(members@));
    let mut keys: Vec<String> = Vec::new();
    let mut i: usize = 0;
    assert(names.take(0) =~= text::texts(keys@));
    while i < members.len()
        invariant
            i <= members@.len(),
            names == member_names(json::members_view(members@)),
            text::sorted_set_of(text::texts(keys@), names.take(i as int)),
        decreases members.len() - i,
    {
        let ghost was = text::texts(keys@);
        text::insert_sorted(&mut keys, members[i].0.clone());
        proof {
            let key = names[i as int];
            text::lemma_text_in_push(names.take(i as int), key);
            assert(names.take(i + 1) =~= names.take(i as int).push(key));
            assert forall|x: Seq<char>| #[trigger] text::text_in(
                text::texts(keys@),
                x,
            ) <==> text::text_in(names.take(i + 1), x) by {
                assert(text::text_in(was, x) <==> text::text_in(names.take(i as int), x));
            }
        }
        i += 1;
    }
    proof {
        assert(names.take(i as int) =~= names);
        text::lemma_sorted_texts(text::texts(keys@), names);
        assert(text::text_in(names, names[0]));
        assert(text::text_in(text::texts(keys@), names[0]));
    }
    Ok(keys)
}

/// A request to write configuration directly.
#[derive(Debug, Clone, PartialEq, Eq)]
pub struct SetConfigCmd {
    pub actor: AdminContext,
    /// An object: key to new value.
    pub patch: Json,
    pub reason: String,
    /// Direct writes are idempotent by themselves: the values are absolute, so a
    /// replayed patch changes nothing.
    pub idempotency_key: String,
    /// The generation that the writer has seen; refused where it has moved.
    pub expected_base_generation: Option<i64>,
}

/// What a direct write gives back.
#[derive(Debug, Clone, PartialEq, Eq)]
pub struct SetConfigOutcome {
    pub generation: i64,
    pub changed_keys: Vec<String>,
}

/// When a market hides its tally and closes.
#[derive(Debug, Clone, Copy, PartialEq, Eq, Structural)]
pub struct MarketTimes {
    pub tally_hidden_at: Timestamp,
    pub closes_at: Timestamp,
}

/// What applying a patch has read so far.
#[derive(Debug, PartialEq, Eq)]
pub struct ApplyFacts {
    pub fences_held: bool,
    /// The locked generation.
    pub generation: Option<i64>,
    pub entries: Option<Vec<ConfigEntry>>,
    /// The markets that were looked up, and their times where they exist.
    pub markets: Vec<(MarketId, Option<MarketTimes>)>,
}

impl ApplyFacts {
    /// Nothing read yet.
    pub fn new() -> (r: Self)
        ensures
            r.wf(),
            !r.fences_held && r.generation is None && r.entries is None && r.markets@.len() == 0,
    {
        ApplyFacts { fences_held: false, generation: None, entries: None, markets: Vec::new() }
    }

    /// One more generation can be counted.
    pub open spec fn wf(&self) -> bool {
        self.generation matches Some(base) ==> base < i64::MAX
    }
}

/// What applying a patch reads or does next.
#[derive(Debug, PartialEq, Eq)]
pub enum ApplyNeed {
    ExclusiveFences(Vec<String>),
    LockGeneration,
    ConfigEntries,
    MarketTimes(MarketId),
}

/// What applying a patch reads or does next, as plain values.
pub enum NeedView {
    ExclusiveFences(Seq<Seq<char>>),
    LockGeneration,
    ConfigEntries,
    MarketTimes(MarketId),
}

impl View for ApplyNeed {
    type V = NeedView;

    open spec fn view(&self) -> NeedView {
        match self {
            ApplyNeed::ExclusiveFences(names) => NeedView::ExclusiveFences(text::texts(names@)),
            ApplyNeed::LockGeneration => NeedView::LockGeneration,
            ApplyNeed::ConfigEntries => NeedView::ConfigEntries,
            ApplyNeed::MarketTimes(market) => NeedView::MarketTimes(*market),
        }
    }
}

/// A patch ready to be written: the change rows of the new generation and the
/// events that go with them. Nothing is written for a patch without changes.
#[derive(Debug, Clone, PartialEq, Eq)]
pub struct AppliedPatch {
    pub generation: i64,
    pub changes: Vec<ConfigChange>,
    pub events: Vec<Event>,
    pub changed_keys: Vec<String>,
    /// The old values of the changed keys, for the audit row.
    pub before: Json,
    /// The new values of the changed keys, for the audit row.
    pub after: Json,
}

/// A patch ready to be written, as plain values.
pub struct AppliedView {
    pub generation: int,
    pub changes: Seq<ChangeView>,
    pub events: Seq<EventView>,
    pub changed_keys: Seq<Seq<char>>,
    pub before: JsonView,
    pub after: JsonView,
}

impl View for AppliedPatch {
    type V = AppliedView;

    open spec fn view(&self) -> AppliedView {
        AppliedView {
            generation: self.generation as int,
            changes: model::changes_view(self.changes@),
            events: model::events_view(self.events@),
            changed_keys: text::texts(self.changed_keys@),
            before: self.before@,
            after: self.after@,
        }
    }
}

/// What becomes of a patch next.
#[derive(Debug, PartialEq, Eq)]
pub enum ApplyStep {
    Need(ApplyNeed),
    Refuse(AppError),
    Apply(AppliedPatch),
}

/// What becomes of a patch next, as plain values.
pub enum ApplyVerdict {
    Need(NeedView),
    Refuse(Fault),
    Apply(AppliedView),
}

impl View for ApplyStep {
    type V = ApplyVerdict;

    open spec fn view(&self) -> ApplyVerdict {
        match self {
            ApplyStep::Need(n) => ApplyVerdict::Need(n@),
            ApplyStep::Refuse(e) => ApplyVerdict::Refuse(e@),
            ApplyStep::Apply(patch) => ApplyVerdict::Apply(patch@),
        }
    }
}

/// The fences of some keys, in canonical order.
pub open spec fn fences_of(keys: Seq<Seq<char>>) -> Seq<Seq<char>> {
    choose|names: Seq<Seq<char>>| fences::canonical_fences(names, keys)
}

proof fn lemma_fences_unique(names: Seq<Seq<char>>, keys: Seq<Seq<char>>)
    requires
        fences::canonical_fences(names, keys),
    ensures
        fences_of(keys) == names,
{
    let other = fences_of(keys);
    assert(fences::canonical_fences(other, keys));
    if text::text_in(keys, "trading_paused"@) {
        text::lemma_sorted_texts(other.skip(1), fences::scoped_fences(keys));
        text::lemma_sorted_texts(names.skip(1), fences::scoped_fences(keys));
        assert(other =~= seq![other[0]] + other.skip(1));
        assert(names =~= seq![names[0]] + names.skip(1));
    } else {
        text::lemma_sorted_texts(other, fences::scoped_fences(keys));
        text::lemma_sorted_texts(names, fences::scoped_fences(keys));
    }
}

/// Which pause a key writes.
pub enum PauseTarget {
    Trading(Seq<char>),
    Voting(Seq<char>),
}

/// The market-scoped pause that a key writes, with the text of its market.
pub open spec fn pause_target(key: Seq<char>) -> Option<PauseTarget> {
    match text::after_prefix(key, "market_paused:"@) {
        Some(id) => Some(PauseTarget::Trading(id)),
        None => match text::after_prefix(key, "voting_paused:"@) {
            Some(id) => Some(PauseTarget::Voting(id)),
            None => None,
        },
    }
}

/// What was read of a market's times: not yet, no such market, or its times.
pub open spec fn times_read(
    markets: Seq<(MarketId, Option<MarketTimes>)>,
    market: MarketId,
) -> Option<Option<MarketTimes>>
    decreases markets.len(),
{
    if markets.len() == 0 {
        None
    } else if markets[0].0 == market {
        Some(markets[0].1)
    } else {
        times_read(markets.skip(1), market)
    }
}

fn find_times(markets: &[(MarketId, Option<MarketTimes>)], market: MarketId) -> (r: Option<
    Option<MarketTimes>,
>)
    ensures
        r == times_read(markets@, market),
{
    let mut i: usize = 0;
    assert(markets@.skip(0) =~= markets@);
    while i < markets.len()
        invariant
            i <= markets@.len(),
            times_read(markets@, market) == times_read(markets@.skip(i as int), market),
        decreases markets.len() - i,
    {
        if markets[i].0 == market {
            return Some(markets[i].1);
        }
        assert(markets@.skip(i as int).skip(1) =~= markets@.skip(i + 1));
        i += 1;
    }
    None
}

/// What stops a pause write.
pub enum TimingStop {
    Need(MarketId),
    Fault(Fault),
}

/// A resume inside the hidden window: after the tally is hidden, up to the
/// close.
pub open spec fn resumes_in_hidden_window(
    value: JsonView,
    now: Timestamp,
    times: MarketTimes,
) -> bool {
    !fences::paused(Some(value)) && now.0 > times.tally_hidden_at.0 && now.0 <= times.closes_at.0
}

/// A voting pause written once the hidden window has begun.
pub open spec fn pauses_votes_too_late(value: JsonView, now: Timestamp, times: MarketTimes) -> bool {
    fences::paused(Some(value)) && now.0 >= times.tally_hidden_at.0
}

/// What the timing rules say of one pause write, given what its market's text
/// stands for.
pub open spec fn target_stop(
    target: PauseTarget,
    market: Option<u128>,
    value: JsonView,
    now: Timestamp,
    markets: Seq<(MarketId, Option<MarketTimes>)>,
) -> Option<TimingStop> {
    let id = match target {
        PauseTarget::Trading(id) => id,
        PauseTarget::Voting(id) => id,
    };
    match market {
        None => Some(TimingStop::Fault(market_text_fault(id))),
        Some(x) => match times_read(markets, MarketId(x)) {
            None => Some(TimingStop::Need(MarketId(x))),
            Some(None) => Some(TimingStop::Fault(Fault::Store(StoreFault::NotFound("market"@)))),
            Some(Some(times)) => if target is Trading && resumes_in_hidden_window(
                value,
                now,
                times,
            ) {
                Some(
                    TimingStop::Fault(
                        Fault::ProposalConflict(
                            "trading resume is forbidden inside the hidden window"@,
                        ),
                    ),
                )
            } else if target is Voting && pauses_votes_too_late(value, now, times) {
                Some(
                    TimingStop::Fault(
                        Fault::ProposalConflict(
                            "a voting pause cannot be written once the hidden window began"@,
                        ),
                    ),
                )
            } else {
                None
            },
        },
    }
}

/// The market that a text stands for.
pub open spec fn target_market(target: PauseTarget) -> Option<u128> {
    match target {
        PauseTarget::Trading(id) => identity::parsed_uuid(id),
        PauseTarget::Voting(id) => identity::parsed_uuid(id),
    }
}

/// What the timing rules say of some members: the first one that stops decides.
pub open spec fn timing_stop(
    members: Members,
    now: Timestamp,
    markets: Seq<(MarketId, Option<MarketTimes>)>,
) -> Option<TimingStop>
    decreases members.len(),
{
    if members.len() == 0 {
        None
    } else {
        match timing_stop(members.drop_last(), now, markets) {
            Some(stop) => Some(stop),
            None => match pause_target(members.last().0) {
                None => None,
                Some(target) => target_stop(
                    target,
                    target_market(target),
                    members.last().1,
                    now,
                    markets,
                ),
            },
        }
    }
}

/// What a pause key without a market is answered with.
pub open spec fn market_text_fault(id: Seq<char>) -> Fault {
    Fault::ConfigInvalid { key: id, reason: "pause key requires a market UUID suffix"@ }
}

/// The market that the suffix of a pause key names.
///
/// # Errors
///
/// [`AppError::ConfigInvalid`] where it names none.
pub fn market_of(suffix: &str) -> (r: Result<MarketId, AppError>)
    ensures
        match identity::parsed_uuid(suffix@) {
            Some(x) => r == Ok::<MarketId, AppError>(MarketId(x)),
            None => error::failed(r, market_text_fault(suffix@)),
        },
        forall|x: u128|
            suffix@ == #[trigger] identity::uuid_text(x) ==> r == Ok::<MarketId, AppError>(
                MarketId(x),
            ),
{
    match identity::parse_uuid(suffix) {
        Some(x) => Ok(MarketId(x)),
        None => Err(
            AppError::ConfigInvalid {
                key: suffix.to_owned(),
                reason: "pause key requires a market UUID suffix",
            },
        ),
    }
}

/// Checks one pause write against its market's times.
fn check_target(
    trading: bool,
    id: &str,
    value: &Json,
    now: Timestamp,
    markets: &[(MarketId, Option<MarketTimes>)],
) -> (r: Option<ApplyStep>)
    ensures
        ({
            let target = if trading {
                PauseTarget::Trading(id@)
            } else {
                PauseTarget::Voting(id@)
            };
            match target_stop(target, identity::parsed_uuid(id@), value@, now, markets@) {
                None => r is None,
                Some(TimingStop::Need(m)) => r matches Some(step) && step@ == ApplyVerdict::Need(
                    NeedView::MarketTimes(m),
                ),
                Some(TimingStop::Fault(f)) => r matches Some(step) && step@
                    == ApplyVerdict::Refuse(f),
            }
        }),
{
    let market = match market_of(id) {
        Ok(market) => market,
        Err(e) => return Some(ApplyStep::Refuse(e)),
    };
    let times = match find_times(markets, market) {
        None => return Some(ApplyStep::Need(ApplyNeed::MarketTimes(market))),
        Some(None) => return Some(
            ApplyStep::Refuse(AppError::Store(StoreError::NotFound("market"))),
        ),
        Some(Some(times)) => times,
    };
    let pausing = fences::pause_in_force(Some(value));
    if trading && !pausing && times.tally_hidden_at.before(now) && !times.closes_at.before(now) {
        return Some(
            ApplyStep::Refuse(
                AppError::ProposalConflict("trading resume is forbidden inside the hidden window"),
            ),
        );
    }
    if !trading && pausing && !now.before(times.tally_hidden_at) {
        return Some(
            ApplyStep::Refuse(
                AppError::ProposalConflict(
                    "a voting pause cannot be written once the hidden window began",
                ),
            ),
        );
    }
    None
}

/// Checks the pause writes of a patch: trading may not be resumed inside the
/// hidden window, and a voting pause may not be written once it has begun.
fn enforce_pause_timing(
    members: &[(String, Json)],
    now: Timestamp,
    markets: &[(MarketId, Option<MarketTimes>)],
) -> (r: Option<ApplyStep>)
    ensures
        match timing_stop(json::members_view(members@), now, markets@) {
            None => r is None,
            Some(TimingStop::Need(m)) => r matches Some(step) && step@ == ApplyVerdict::Need(
                NeedView::MarketTimes(m),
            ),
            Some(TimingStop::Fault(f)) => r matches Some(step) && step@ == ApplyVerdict::Refuse(f),
        },
{
    let ghost all = json::members_view(members@);
    let mut i: usize = 0;
    while i < members.len()
        invariant
            i <= members@.len(),
            all == json::members_view(members@),
            timing_stop(all.take(i as int), now, markets@) is None,
        decreases members.len() - i,
    {
        proof {
            assert(all.take(i + 1).drop_last() =~= all.take(i as int));
            assert(all.take(i + 1).last() == all[i as int]);
        }
        let key = members[i].0.as_str();
        let value = &members[i].1;
        let mut stop: Option<ApplyStep> = None;
        if let Some(id) = text::strip(key, "market_paused:") {
            stop = check_target(true, id.as_str(), value, now, markets);
        } else if let Some(id) = text::strip(key, "voting_paused:") {
            stop = check_target(false, id.as_str(), value, now, markets);
        }
        if let Some(step) = stop {
            proof {
                lemma_timing_stays(all, now, markets@, i + 1);
            }
            return Some(step);
        }
        i += 1;
    }
    assert(all.take(i as int) =~= all);
    None
}

proof fn lemma_timing_stays(
    members: Members,
    now: Timestamp,
    markets: Seq<(MarketId, Option<MarketTimes>)>,
    n: int,
)
    requires
        0 <= n <= members.len(),
        timing_stop(members.take(n), now, markets) is Some,
    ensures
        timing_stop(members, now, markets) == timing_stop(members.take(n), now, markets),
    decreases members.len() - n,
{
    if n < members.len() {
        assert(members.take(n + 1).drop_last() =~= members.take(n));
        lemma_timing_stays(members, now, markets, n + 1);
    } else {
        assert(members.take(n) =~= members);
    }
}

/// The frame of a changed trading or voting pause on one market.
pub open spec fn market_frame(event_type: Seq<char>, market: u128, id: Seq<char>) -> EventView {
    EventView {
        event_type,
        aggregate_type: "market"@,
        aggregate_id: market,
        payload: JsonView::Object(seq![("market_id"@, JsonView::Text(id))]),
    }
}

/// The public frame of one change, given what its market's text stands for.
pub open spec fn frame_with(change: ChangeView, market: Option<u128>) -> Option<EventView> {
    let paused = fences::paused(Some(change.new));
    let trading = if paused {
        "TradingPaused"@
    } else {
        "TradingResumed"@
    };
    let voting = if paused {
        "MarketVotingPaused"@
    } else {
        "MarketVotingResumed"@
    };
    if change.key == "trading_paused"@ {
        Some(
            EventView {
                event_type: trading,
                aggregate_type: "config"@,
                aggregate_id: 0,
                payload: JsonView::Object(seq![("scope"@, JsonView::Text("global"@))]),
            },
        )
    } else {
        match (pause_target(change.key), market) {
            (Some(PauseTarget::Trading(id)), Some(x)) => Some(market_frame(trading, x, id)),
            (Some(PauseTarget::Voting(id)), Some(x)) => Some(market_frame(voting, x, id)),
            _ => None,
        }
    }
}

/// The public frame of one change.
pub open spec fn frame_of(change: ChangeView) -> Option<EventView> {
    frame_with(
        change,
        match pause_target(change.key) {
            Some(target) => target_market(target),
            None => None,
        },
    )
}

/// The public frames of some changes, in order.
pub open spec fn frames_of(changes: Seq<ChangeView>) -> Seq<EventView>
    decreases changes.len(),
{
    if changes.len() == 0 {
        Seq::empty()
    } else {
        match frame_of(changes.last()) {
            Some(frame) => frames_of(changes.drop_last()).push(frame),
            None => frames_of(changes.drop_last()),
        }
    }
}

/// The public frame of one change, given what its market's text stands for.
pub fn frame_for(change: &ConfigChange, market: Option<u128>) -> (r: Option<Event>)
    ensures
        match frame_with(change@, market) {
            Some(frame) => r matches Some(event) && event@ == frame,
            None => r is None,
        },
{
    proof {
        reveal_strlit("trading_paused");
        reveal_strlit("market_paused:");
        reveal_strlit("voting_paused:");
    }
    let paused = fences::pause_in_force(Some(&change.new));
    if text::same_text(change.key.as_str(), "trading_paused") {
        let members: Vec<(String, Json)> = vec![json::member("scope", Json::text("global"))];
        assert(json::members_view(members@) =~= seq![("scope"@, JsonView::Text("global"@))]);
        return Some(
            Event {
                event_type: if paused {
                    "TradingPaused"
                } else {
                    "TradingResumed"
                },
                aggregate_type: "config",
                aggregate_id: 0,
                payload: Json::object(members),
            },
        );
    }
    let market: u128 = match market {
        Some(x) => x,
        None => return None,
    };
    if let Some(id) = text::strip(change.key.as_str(), "market_paused:") {
        let ghost name = id@;
        let members: Vec<(String, Json)> = vec![json::member("market_id", Json::Text(id))];
        assert(json::members_view(members@) =~= seq![("market_id"@, JsonView::Text(name))]);
        Some(
            Event {
                event_type: if paused {
                    "TradingPaused"
                } else {
                    "TradingResumed"
                },
                aggregate_type: "market",
                aggregate_id: market,
                payload: Json::object(members),
            },
        )
    } else if let Some(id) = text::strip(change.key.as_str(), "voting_paused:") {
        let ghost name = id@;
        let members: Vec<(String, Json)> = vec![json::member("market_id", Json::Text(id))];
        assert(json::members_view(members@) =~= seq![("market_id"@, JsonView::Text(name))]);
        Some(
            Event {
                event_type: if paused {
                    "MarketVotingPaused"
                } else {
                    "MarketVotingResumed"
                },
                aggregate_type: "market",
                aggregate_id: market,
                payload: Json::object(members),
            },
        )
    } else {
        None
    }
}

/// The public pause frames of some changes, for the same transaction.
pub fn pause_frames(changes: &[ConfigChange]) -> (r: Vec<Event>)
    ensures
        model::events_view(r@) == frames_of(model::changes_view(changes@)),
{
    let ghost all = model::changes_view(changes@);
    let mut events: Vec<Event> = Vec::new();
    let mut i: usize = 0;
    assert(model::events_view(events@) =~= frames_of(all.take(0)));
    while i < changes.len()
        invariant
            i <= changes@.len(),
            all == model::changes_view(changes@),
            model::events_view(events@) == frames_of(all.take(i as int)),
        decreases changes.len() - i,
    {
        let change = &changes[i];
        proof {
            assert(all.take(i + 1).drop_last() =~= all.take(i as int));
            assert(all.take(i + 1).last() == change@);
        }
        let mut market: Option<u128> = None;
        if let Some(id) = text::strip(change.key.as_str(), "market_paused:") {
            market = identity::parse_uuid(id.as_str());
        } else if let Some(id) = text::strip(change.key.as_str(), "voting_paused:") {
            market = identity::parse_uuid(id.as_str());
        }
        if let Some(event) = frame_for(change, market) {
            let ghost was = model::events_view(events@);
            let ghost said = event@;
            events.push(event);
            assert(model::events_view(events@) =~= was.push(said));
        }
        i += 1;
    }
    assert(all.take(i as int) =~= all);
    events
}

/// The keys of some changes.
pub open spec fn changed_names(changes: Seq<ChangeView>) -> Seq<Seq<char>> {
    Seq::new(changes.len(), |i: int| changes[i].key)
}

/// The old values of some changes, null where there was none.
pub open spec fn old_values(changes: Seq<ChangeView>) -> Members {
    Seq::new(
        changes.len(),
        |i: int|
            (
                changes[i].key,
                match changes[i].old {
                    Some(v) => v,
                    None => JsonView::Null,
                },
            ),
    )
}

/// The new values of some changes.
pub open spec fn new_values(changes: Seq<ChangeView>) -> Members {
    Seq::new(changes.len(), |i: int| (changes[i].key, changes[i].new))
}

/// The keys of some changes, as a list of texts.
pub open spec fn text_items(names: Seq<Seq<char>>) -> Seq<JsonView> {
    Seq::new(names.len(), |i: int| JsonView::Text(names[i]))
}

/// The wake-up of a new generation.
pub open spec fn wake_event(generation: int, names: Seq<Seq<char>>) -> EventView {
    EventView {
        event_type: "ConfigChanged"@,
        aggregate_type: "config"@,
        aggregate_id: 0,
        payload: JsonView::Object(
            seq![
                ("generation"@, JsonView::Int(generation)),
                ("keys"@, JsonView::Array(text_items(names))),
            ],
        ),
    }
}

/// What a patch with these changes writes on top of a generation. Without
/// changes it writes nothing and keeps the generation.
pub open spec fn written(base: int, changes: Seq<ChangeView>) -> AppliedView {
    let names = changed_names(changes);
    AppliedView {
        generation: if changes.len() == 0 {
            base
        } else {
            base + 1
        },
        changes,
        events: if changes.len() == 0 {
            Seq::empty()
        } else {
            frames_of(changes).push(wake_event(base + 1, names))
        },
        changed_keys: names,
        before: JsonView::Object(old_values(changes)),
        after: JsonView::Object(new_values(changes)),
    }
}

/// What becomes of a patch after what was read so far.
pub open spec fn apply_step(
    patch: JsonView,
    now: Timestamp,
    expected: Option<i64>,
    facts: ApplyFacts,
) -> ApplyVerdict {
    match shape_fault(patch) {
        Some(f) => ApplyVerdict::Refuse(f),
        None => {
            let names = fences_of(keys_of(patch));
            if names.len() > 0 && !facts.fences_held {
                ApplyVerdict::Need(NeedView::ExclusiveFences(names))
            } else {
                match facts.generation {
                    None => ApplyVerdict::Need(NeedView::LockGeneration),
                    Some(base) => if expected is Some && expected.unwrap() != base {
                        ApplyVerdict::Refuse(
                            Fault::StaleConfig {
                                preview_generation: expected.unwrap() as int,
                                current_generation: base as int,
                            },
                        )
                    } else {
                        match facts.entries {
                            None => ApplyVerdict::Need(NeedView::ConfigEntries),
                            Some(entries) => validated_step(
                                json::to_map(snapshot::entries_view(entries@)),
                                patch,
                                now,
                                base as int,
                                facts,
                            ),
                        }
                    },
                }
            }
        },
    }
}

/// The step once the committed values are known.
pub open spec fn validated_step(
    current: Values,
    patch: JsonView,
    now: Timestamp,
    base: int,
    facts: ApplyFacts,
) -> ApplyVerdict {
    match config::patch_fault(current, patch) {
        Some(f) => ApplyVerdict::Refuse(f),
        None => match timing_stop(config::patch_members(patch), now, facts.markets@) {
            Some(TimingStop::Need(market)) => ApplyVerdict::Need(NeedView::MarketTimes(market)),
            Some(TimingStop::Fault(f)) => ApplyVerdict::Refuse(f),
            None => ApplyVerdict::Apply(
                written(base, config::patch_changes(current, config::patch_members(patch))),
            ),
        },
    }
}

/// Builds what a patch writes.
fn write_changes(base: i64, changes: Vec<ConfigChange>) -> (r: AppliedPatch)
    requires
        base < i64::MAX,
    ensures
        r@ == written(base as int, model::changes_view(changes@)),
{
    let ghost all = model::changes_view(changes@);
    let mut changed_keys: Vec<String> = Vec::new();
    let mut listed: Vec<Json> = Vec::new();
    let mut before: Vec<(String, Json)> = Vec::new();
    let mut after: Vec<(String, Json)> = Vec::new();
    let mut i: usize = 0;
    while i < changes.len()
        invariant
            i <= changes@.len(),
            all == model::changes_view(changes@),
            text::texts(changed_keys@) == changed_names(all.take(i as int)),
            json::items_view(listed@) == text_items(changed_names(all.take(i as int))),
            json::members_view(before@) == old_values(all.take(i as int)),
            json::members_view(after@) == new_values(all.take(i as int)),
        decreases changes.len() - i,
    {
        let change = &changes[i];
        let ghost k0 = text::texts(changed_keys@);
        let ghost l0 = json::items_view(listed@);
        let ghost b0 = json::members_view(before@);
        let ghost a0 = json::members_view(after@);
        changed_keys.push(change.key.clone());
        listed.push(Json::Text(change.key.clone()));
        let old_value = match &change.old {
            Some(v) => v.clone(),
            None => Json::Null,
        };
        let ghost was = old_value@;
        before.push((change.key.clone(), old_value));
        after.push((change.key.clone(), change.new.clone()));
        proof {
            let upto = all.take(i + 1);
            assert(upto =~= all.take(i as int).push(change@));
            assert(text::texts(changed_keys@) =~= k0.push(change.key@));
            assert(changed_names(upto) =~= changed_names(all.take(i as int)).push(change.key@));
            assert(json::items_view(listed@) =~= l0.push(JsonView::Text(change.key@)));
            assert(text_items(changed_names(upto)) =~= l0.push(JsonView::Text(change.key@)));
            assert(json::members_view(before@) =~= b0.push((change.key@, was)));
            assert(old_values(upto) =~= b0.push((change.key@, was)));
            assert(json::members_view(after@) =~= a0.push((change.key@, change.new@)));
            assert(new_values(upto) =~= a0.push((change.key@, change.new@)));
        }
        i += 1;
    }
    assert(all.take(i as int) =~= all);
    if changes.len() == 0 {
        let events: Vec<Event> = Vec::new();
        assert(model::events_view(events@) =~= Seq::<EventView>::empty());
        return AppliedPatch {
            generation: base,
            changes,
            events,
            changed_keys,
            before: Json::object(before),
            after: Json::object(after),
        };
    }
    let next: i64 = base + 1;
    let mut events = pause_frames(changes.as_slice());
    let members: Vec<(String, Json)> = vec![
        json::member("generation", Json::Int(next)),
        json::member("keys", Json::array(listed)),
    ];
    assert(json::members_view(members@) =~= wake_event(
        next as int,
        changed_names(all),
    ).payload->Object_0);
    let wake = Event {
        event_type: "ConfigChanged",
        aggregate_type: "config",
        aggregate_id: 0,
        payload: Json::object(members),
    };
    let ghost frames = model::events_view(events@);
    let ghost said = wake@;
    events.push(wake);
    assert(model::events_view(events@) =~= frames.push(said));
    AppliedPatch {
        generation: next,
        changes,
        events,
        changed_keys,
        before: Json::object(before),
        after: Json::object(after),
    }
}

/// The core that applies a patch, one step at a time. The caller owns its audit
/// row and the commit.
pub fn apply_patch(patch: &Json, now: Timestamp, expected: Option<i64>, facts: &ApplyFacts) -> (r:
    ApplyStep)
    requires
        facts.wf(),
    ensures
        r@ == apply_step(patch@, now, expected, *facts),
{
    let keys = match patch_keys(patch) {
        Ok(keys) => keys,
        Err(e) => return ApplyStep::Refuse(e),
    };
    let names = fences::exclusive_fences_for_patch(keys.as_slice());
    proof {
        lemma_fences_unique(text::texts(names@), text::texts(keys@));
    }
    if names.len() > 0 && !facts.fences_held {
        return ApplyStep::Need(ApplyNeed::ExclusiveFences(names));
    }
    let base: i64 = match facts.generation {
        None => return ApplyStep::Need(ApplyNeed::LockGeneration),
        Some(base) => base,
    };
    if let Some(seen) = expected {
        if seen != base {
            return ApplyStep::Refuse(
                AppError::StaleConfig { preview_generation: seen, current_generation: base },
            );
        }
    }
    let entries = match &facts.entries {
        None => return ApplyStep::Need(ApplyNeed::ConfigEntries),
        Some(entries) => entries,
    };
    let current = snapshot::snapshot_of(entries.as_slice());
    let changes = match config::validate_patch(&current, patch) {
        Ok(changes) => changes,
        Err(e) => return ApplyStep::Refuse(e),
    };
    let sorted = json::canonical(patch);
    if let Some(members) = sorted.as_object() {
        if let Some(step) = enforce_pause_timing(members.as_slice(), now, facts.markets.as_slice()) {
            return step;
        }
    }
    ApplyStep::Apply(write_changes(base, changes))
}

/// Why a role may not write some keys directly, if it may not: an unknown key is
/// a bad request before any role matters.
pub open spec fn write_fault(role: AdminRole, keys: Seq<Seq<char>>) -> Option<Fault>
    decreases keys.len(),
{
    if keys.len() == 0 {
        None
    } else {
        match write_fault(role, keys.drop_last()) {
            Some(f) => Some(f),
            None => match catalog::rule_of(keys.last()) {
                None => Some(
                    Fault::ConfigInvalid { key: keys.last(), reason: "unknown config key"@ },
                ),
                Some(rule) => if catalog::sensitive(keys.last()) {
                    Some(
                        Fault::AdminForbidden(
                            "sensitive keys require the two-phase proposal flow"@,
                        ),
                    )
                } else if !catalog::may_write(role, rule.write) {
                    Some(Fault::AdminForbidden("role does not write this config key"@))
                } else {
                    None
                },
            },
        }
    }
}

proof fn lemma_write_fault_stays(role: AdminRole, keys: Seq<Seq<char>>, n: int)
    requires
        0 <= n <= keys.len(),
        write_fault(role, keys.take(n)) is Some,
    ensures
        write_fault(role, keys) == write_fault(role, keys.take(n)),
    decreases keys.len() - n,
{
    if n < keys.len() {
        assert(keys.take(n + 1).drop_last() =~= keys.take(n));
        lemma_write_fault_stays(role, keys, n + 1);
    } else {
        assert(keys.take(n) =~= keys);
    }
}

fn check_writer(role: AdminRole, keys: &[String]) -> (r: Result<(), AppError>)
    ensures
        error::checked(r, write_fault(role, text::texts(keys@))),
{
    let ghost all = text::texts(keys@);
    let mut i: usize = 0;
    while i < keys.len()
        invariant
            i <= keys@.len(),
            all == text::texts(keys@),
            write_fault(role, all.take(i as int)) is None,
        decreases keys.len() - i,
    {
        let key = keys[i].as_str();
        proof {
            assert(all.take(i + 1).drop_last() =~= all.take(i as int));
            assert(all.take(i + 1).last() == key@);
            if write_fault(role, all.take(i + 1)) is Some {
                lemma_write_fault_stays(role, all, i + 1);
            }
        }
        if catalog::rule_for(key).is_none() {
            return Err(
                AppError::ConfigInvalid { key: keys[i].clone(), reason: "unknown config key" },
            );
        }
        if catalog::is_sensitive(key) {
            return Err(
                AppError::AdminForbidden("sensitive keys require the two-phase proposal flow"),
            );
        }
        if !catalog::role_may_write(role, key) {
            return Err(AppError::AdminForbidden("role does not write this config key"));
        }
        i += 1;
    }
    assert(all.take(i as int) =~= all);
    Ok(())
}

/// What becomes of a direct write next.
#[derive(Debug, PartialEq, Eq)]
pub enum SetConfigStep {
    /// The time is needed.
    Now,
    Need(ApplyNeed),
    Refuse(AppError),
    /// Write the patch and the audit row.
    Apply(AppliedPatch, AdminAction),
}

/// What becomes of a direct write next, as plain values.
pub enum SetConfigVerdict {
    Now,
    Need(NeedView),
    Refuse(Fault),
    Apply(AppliedView, ActionView),
}

impl View for SetConfigStep {
    type V = SetConfigVerdict;

    open spec fn view(&self) -> SetConfigVerdict {
        match self {
            SetConfigStep::Now => SetConfigVerdict::Now,
            SetConfigStep::Need(n) => SetConfigVerdict::Need(n@),
            SetConfigStep::Refuse(e) => SetConfigVerdict::Refuse(e@),
            SetConfigStep::Apply(patch, row) => SetConfigVerdict::Apply(patch@, row@),
        }
    }
}

/// What becomes of a direct write after what was read so far.
pub open spec fn set_config_step(
    cmd: SetConfigCmd,
    now: Option<Timestamp>,
    facts: ApplyFacts,
) -> SetConfigVerdict {
    match cmd.actor@ {
        ActorView::Machine => SetConfigVerdict::Refuse(
            Fault::AdminForbidden("config writes require an admin actor"@),
        ),
        ActorView::Admin { token_digest, role } => match shape_fault(cmd.patch@) {
            Some(f) => SetConfigVerdict::Refuse(f),
            None => match write_fault(role, keys_of(cmd.patch@)) {
                Some(f) => SetConfigVerdict::Refuse(f),
                None => match now {
                    None => SetConfigVerdict::Now,
                    Some(t) => match apply_step(
                        cmd.patch@,
                        t,
                        cmd.expected_base_generation,
                        facts,
                    ) {
                        ApplyVerdict::Need(n) => SetConfigVerdict::Need(n),
                        ApplyVerdict::Refuse(f) => SetConfigVerdict::Refuse(f),
                        ApplyVerdict::Apply(applied) => SetConfigVerdict::Apply(
                            applied,
                            ActionView {
                                actor_role: role,
                                actor_token_digest: token_digest,
                                action: "set_config"@,
                                subject: "config:"@ + text::joined(applied.changed_keys, ","@),
                                before: Some(applied.before),
                                after: Some(applied.after),
                                reason: Some(cmd.reason@),
                            },
                        ),
                    },
                },
            },
        },
    }
}

/// Direct writes of configuration.
#[derive(Debug, Clone, Copy, PartialEq, Eq)]
pub struct SetConfig;

impl SetConfig {
    /// What to read next, or what the direct write writes.
    pub fn execute(&self, cmd: &SetConfigCmd, now: Option<Timestamp>, facts: &ApplyFacts) -> (r:
        SetConfigStep)
        requires
            facts.wf(),
        ensures
            r@ == set_config_step(*cmd, now, *facts),
    {
        let (digest, role) = match &cmd.actor {
            AdminContext::Machine => return SetConfigStep::Refuse(
                AppError::AdminForbidden("config writes require an admin actor"),
            ),
            AdminContext::Admin { token_digest, role } => (token_digest, *role),
        };
        let keys = match patch_keys(&cmd.patch) {
            Ok(keys) => keys,
            Err(e) => return SetConfigStep::Refuse(e),
        };
        match check_writer(role, keys.as_slice()) {
            Ok(()) => {},
            Err(e) => return SetConfigStep::Refuse(e),
        }
        let at = match now {
            None => return SetConfigStep::Now,
            Some(at) => at,
        };
        match apply_patch(&cmd.patch, at, cmd.expected_base_generation, facts) {
            ApplyStep::Need(n) => SetConfigStep::Need(n),
            ApplyStep::Refuse(e) => SetConfigStep::Refuse(e),
            ApplyStep::Apply(applied) => {
                let row = AdminAction {
                    actor_role: role,
                    actor_token_digest: digest.clone(),
                    action: "set_config".to_owned(),
                    subject: text::join2(
                        "config:",
                        text::join_list(applied.changed_keys.as_slice(), ",").as_str(),
                    ),
                    before: Some(applied.before.clone()),
                    after: Some(applied.after.clone()),
                    reason: Some(cmd.reason.clone()),
                };
                SetConfigStep::Apply(applied, row)
            },
        }
    }
}

impl AppliedPatch {
    /// What a direct write gives back.
    pub fn outcome(&self) -> (r: SetConfigOutcome)
        ensures
            r.generation == self.generation,
            text::texts(r.changed_keys@) == text::texts(self.changed_keys@),
    {
        let mut changed_keys: Vec<String> = Vec::new();
        let mut i: usize = 0;
        while i < self.changed_keys.len()
            invariant
                i <= self.changed_keys@.len(),
                text::texts(changed_keys@) == text::texts(self.changed_keys@).take(i as int),
            decreases self.changed_keys.len() - i,
        {
            let ghost was = text::texts(changed_keys@);
            changed_keys.push(self.changed_keys[i].clone());
            assert(text::texts(changed_keys@) =~= was.push(self.changed_keys@[i as int]@));
            assert(text::texts(changed_keys@) =~= text::texts(self.changed_keys@).take(i + 1));
            i += 1;
        }
        assert(text::texts(self.changed_keys@).take(i as int) =~= text::texts(self.changed_keys@));
        SetConfigOutcome { generation: self.generation, changed_keys }
    }
}

/// A write that changes nothing keeps the generation and wakes nobody; any
/// other one counts exactly one generation and wakes with the last event.
pub proof fn law_generation_counts_changes(base: int, changes: Seq<ChangeView>)
    ensures
        changes.len() == 0 ==> written(base, changes).generation == base && written(
            base,
            changes,
        ).events.len() == 0,
        changes.len() > 0 ==> written(base, changes).generation == base + 1 && written(
            base,
            changes,
        ).events.last().event_type == "ConfigChanged"@,
{
}

/// Sensitive keys are never written directly, by whoever.
pub proof fn law_sensitive_keys_are_never_written_directly(
    cmd: SetConfigCmd,
    now: Option<Timestamp>,
    facts: ApplyFacts,
    i: int,
)
    requires
        0 <= i < keys_of(cmd.patch@).len(),
        catalog::sensitive(keys_of(cmd.patch@)[i]),
    ensures
        set_config_step(cmd, now, facts) is Refuse,
{
    if let ActorView::Admin { token_digest, role } = cmd.actor@ {
        let keys = keys_of(cmd.patch@);
        let upto = keys.take(i + 1);
        assert(upto.last() == keys[i]);
        assert(write_fault(role, upto) is Some);
        lemma_write_fault_stays(role, keys, i + 1);
    }
}

/// The pause keys of a market are the ones that the timing rules and the public
/// frames take for that market's: its trading pause, and its voting pause.
pub proof fn law_pause_keys_name_their_market(market: MarketId)
    ensures
        pause_target(fences::market_paused_name(market)) == Some(
            PauseTarget::Trading(identity::uuid_text(market.0)),
        ),
        pause_target(fences::voting_paused_name(market)) == Some(
            PauseTarget::Voting(identity::uuid_text(market.0)),
        ),
{
    reveal_strlit("market_paused:");
    reveal_strlit("voting_paused:");
    let id = identity::uuid_text(market.0);
    let trading = fences::market_paused_name(market);
    let voting = fences::voting_paused_name(market);
    assert(trading.take(14) =~= "market_paused:"@);
    assert(trading.skip(14) =~= id);
    assert(voting.take(14) =~= "voting_paused:"@);
    assert(voting.skip(14) =~= id);
    assert(voting.take(14)[0] == 'v' && "market_paused:"@[0] == 'm');
}

/// The hidden window is no escape hatch: no write that gets through resumes
/// trading on a market inside it, or pauses voting once it has begun.
pub proof fn law_hidden_window_is_respected(
    patch: JsonView,
    now: Timestamp,
    expected: Option<i64>,
    facts: ApplyFacts,
    i: int,
    market: MarketId,
    times: MarketTimes,
)
    requires
        apply_step(patch, now, expected, facts) is Apply,
        0 <= i < config::patch_members(patch).len(),
        pause_target(config::patch_members(patch)[i].0) matches Some(target) && target_market(
            target,
        ) == Some(market.0),
        times_read(facts.markets@, market) == Some(Some(times)),
    ensures
        pause_target(config::patch_members(patch)[i].0)->0 is Trading ==> !resumes_in_hidden_window(
            config::patch_members(patch)[i].1,
            now,
            times,
        ),
        pause_target(config::patch_members(patch)[i].0)->0 is Voting ==> !pauses_votes_too_late(
            config::patch_members(patch)[i].1,
            now,
            times,
        ),
{
    let members = config::patch_members(patch);
    let upto = members.take(i + 1);
    assert(upto.last() == members[i]);
    if timing_stop(upto, now, facts.markets@) is Some {
        lemma_timing_stays(members, now, facts.markets@, i + 1);
    }
}

/// When a market's pauses may be written: trading may not be resumed after the
/// tally is hidden and up to the close, and voting may not be paused from the
/// moment the tally is hidden on. Everything else may.
pub proof fn law_when_pauses_may_be_written(
    id: Seq<char>,
    market: MarketId,
    value: JsonView,
    now: Timestamp,
    times: MarketTimes,
    markets: Seq<(MarketId, Option<MarketTimes>)>,
)
    requires
        times_read(markets, market) == Some(Some(times)),
    ensures
        target_stop(PauseTarget::Trading(id), Some(market.0), value, now, markets) is Some <==> value
            != JsonView::Bool(true) && times.tally_hidden_at.0 < now.0 && now.0
            <= times.closes_at.0,
        target_stop(PauseTarget::Voting(id), Some(market.0), value, now, markets) is Some <==> value
            == JsonView::Bool(true) && times.tally_hidden_at.0 <= now.0,
        target_stop(PauseTarget::Trading(id), None, value, now, markets) is Some,
        target_stop(PauseTarget::Voting(id), None, value, now, markets) is Some,
{
}

/// The times of a market are those that were read for it first.
pub proof fn law_times_are_read_by_market(
    before: Seq<(MarketId, Option<MarketTimes>)>,
    market: MarketId,
    times: Option<MarketTimes>,
    after: Seq<(MarketId, Option<MarketTimes>)>,
)
    requires
        forall|i: int| 0 <= i < before.len() ==> (#[trigger] before[i]).0 != market,
    ensures
        times_read(before + seq![(market, times)] + after, market) == Some(times),
        times_read(before, market) is None,
    decreases before.len(),
{
    let all = before + seq![(market, times)] + after;
    if before.len() > 0 {
        let less = before.skip(1);
        assert forall|i: int| 0 <= i < less.len() implies (#[trigger] less[i]).0 != market by {
            assert(less[i] == before[i + 1]);
        }
        assert(all.skip(1) =~= less + seq![(market, times)] + after);
        assert(all[0] == before[0]);
        law_times_are_read_by_market(less, market, times, after);
    } else {
        assert(all[0] == (market, times));
    }
}

/// What a pause announces: a value of `true` that trading or voting is paused,
/// and every other one that it is resumed; the global pause for nobody in
/// particular, a market's for the market. Other keys announce nothing.
pub proof fn law_what_a_pause_announces(change: ChangeView, market: u128, id: Seq<char>)
    ensures
        change.key == "trading_paused"@ ==> (frame_with(change, Some(market)) matches Some(frame)
            && frame.aggregate_type == "config"@ && frame.aggregate_id == 0 && frame.event_type
            == if change.new == JsonView::Bool(true) {
            "TradingPaused"@
        } else {
            "TradingResumed"@
        }),
        change.key == "market_paused:"@ + id ==> (frame_with(change, Some(market)) matches Some(
            frame,
        ) && frame.aggregate_type == "market"@ && frame.aggregate_id == market && frame.event_type
            == if change.new == JsonView::Bool(true) {
            "TradingPaused"@
        } else {
            "TradingResumed"@
        }),
        change.key == "voting_paused:"@ + id ==> (frame_with(change, Some(market)) matches Some(
            frame,
        ) && frame.aggregate_type == "market"@ && frame.aggregate_id == market && frame.event_type
            == if change.new == JsonView::Bool(true) {
            "MarketVotingPaused"@
        } else {
            "MarketVotingResumed"@
        }),
        change.key != "trading_paused"@ && !text::starts_with(change.key, "market_paused:"@)
            && !text::starts_with(change.key, "voting_paused:"@) ==> frame_with(
            change,
            Some(market),
        ) is None,
{
    reveal_strlit("trading_paused");
    reveal_strlit("market_paused:");
    reveal_strlit("voting_paused:");
    text::law_prefixes_come_off("market_paused:"@, id, change.key);
    text::law_prefixes_come_off("voting_paused:"@, id, change.key);
    if change.key == "market_paused:"@ + id {
        assert(change.key[0] == 'm');
    }
    if change.key == "voting_paused:"@ + id {
        assert(change.key[0] == 'v');
        if text::starts_with(change.key, "market_paused:"@) {
            assert(change.key.take(14)[0] == "market_paused:"@[0]);
        }
    }
}

/// What a patch leaves behind: each changed key with what it had, null where it
/// had nothing, and with what it has now; then the frames of its pauses in order,
/// and last the wake-up that names the new generation and every changed key.
pub proof fn law_what_a_patch_leaves_behind(base: int, changes: Seq<ChangeView>, i: int)
    requires
        0 <= i < changes.len(),
    ensures
        ({
            let done = written(base, changes);
            &&& done.generation == base + 1
            &&& done.changes == changes
            &&& done.changed_keys.len() == changes.len() && done.changed_keys[i] == changes[i].key
            &&& done.before matches JsonView::Object(before) && before.len() == changes.len()
                && before[i].0 == changes[i].key && before[i].1 == (match changes[i].old {
                Some(v) => v,
                None => JsonView::Null,
            })
            &&& done.after matches JsonView::Object(after) && after.len() == changes.len()
                && after[i].0 == changes[i].key && after[i].1 == changes[i].new
            &&& done.events == frames_of(changes).push(done.events.last())
            &&& done.events.last().event_type == "ConfigChanged"@
            &&& done.events.last().payload matches JsonView::Object(wake) && wake[0] == (
                "generation"@,
                JsonView::Int(base + 1),
            ) && wake[1].0 == "keys"@ && (wake[1].1 matches JsonView::Array(keys) && keys.len()
                == changes.len() && keys[i] == JsonView::Text(changes[i].key))
        }),
{
    let done = written(base, changes);
    assert(done.events =~= frames_of(changes).push(done.events.last()));
}

/// Frames come in the order of the changes that they announce.
pub proof fn law_frames_follow_their_changes(changes: Seq<ChangeView>, change: ChangeView)
    ensures
        frames_of(changes.push(change)) == (match frame_of(change) {
            Some(frame) => frames_of(changes).push(frame),
            None => frames_of(changes),
        }),
        frames_of(Seq::empty()) == Seq::<EventView>::empty(),
{
    assert(changes.push(change).drop_last() =~= changes);
}

/// A role writes directly exactly the keys whose direct writer it is.
pub proof fn law_which_keys_a_role_writes_directly(role: AdminRole, keys: Seq<Seq<char>>)
    ensures
        write_fault(role, keys) is None <==> forall|i: int|
            0 <= i < keys.len() ==> (catalog::rule_of(#[trigger] keys[i]) matches Some(rule)
                && rule.write == catalog::WriteRule::Direct(role)),
    decreases keys.len(),
{
    if keys.len() > 0 {
        let head = keys.drop_last();
        law_which_keys_a_role_writes_directly(role, head);
        let last = keys[keys.len() - 1];
        assert(last == keys.last());
        if write_fault(role, head) is None {
            assert forall|i: int| 0 <= i < keys.len() - 1 implies (catalog::rule_of(
                #[trigger] keys[i],
            ) matches Some(rule) && rule.write == catalog::WriteRule::Direct(role)) by {
                assert(head[i] == keys[i]);
            }
        } else {
            let i = choose|i: int|
                0 <= i < head.len() && !(catalog::rule_of(#[trigger] head[i]) matches Some(rule)
                    && rule.write == catalog::WriteRule::Direct(role));
            assert(keys[i] == head[i]);
        }
    }
}

/// A write against another generation than the one it was made for is stale, and
/// is told both.
pub proof fn law_writes_against_another_generation_are_stale(
    patch: JsonView,
    now: Timestamp,
    expected: i64,
    base: i64,
    facts: ApplyFacts,
)
    requires
        facts.generation == Some(base),
        facts.fences_held,
        shape_fault(patch) is None,
    ensures
        expected != base ==> apply_step(patch, now, Some(expected), facts) == ApplyVerdict::Refuse(
            Fault::StaleConfig {
                preview_generation: expected as int,
                current_generation: base as int,
            },
        ),
        facts.entries is Some ==> apply_step(patch, now, Some(base), facts) == apply_step(
            patch,
            now,
            None,
            facts,
        ),
        apply_step(patch, now, None, facts) matches ApplyVerdict::Apply(done) ==> (done.generation
            == base || done.generation == base + 1),
{
}

/// A direct write is an administrator's own: its audit row says who, what and
/// why, and what was there before and after.
pub proof fn law_direct_writes_are_audited(
    cmd: SetConfigCmd,
    now: Option<Timestamp>,
    facts: ApplyFacts,
)
    ensures
        set_config_step(cmd, now, facts) matches SetConfigVerdict::Apply(done, row) ==> (
        cmd.actor@ matches ActorView::Admin { token_digest, role } && row.actor_role == role
            && row.actor_token_digest == token_digest && row.action == "set_config"@ && row.reason
            == Some(cmd.reason@) && row.before == Some(done.before) && row.after == Some(
            done.after,
        ) && write_fault(role, keys_of(cmd.patch@)) is None),
        cmd.actor@ is Machine ==> set_config_step(cmd, now, facts) is Refuse,
{
}

/// A patch is an object that sets something.
pub proof fn law_patches_are_objects(members: Members, other: JsonView)
    ensures
        shape_fault(JsonView::Object(members)) is None <==> members.len() > 0,
        other !is Object ==> shape_fault(other) is Some,
{
    json::lemma_canon_object(members);
}

/// Of the pauses of a patch the first that may not be written decides; a key that
/// is no pause says nothing.
pub proof fn law_the_first_stopped_pause_decides(
    members: Members,
    key: Seq<char>,
    value: JsonView,
    now: Timestamp,
    markets: Seq<(MarketId, Option<MarketTimes>)>,
)
    ensures
        timing_stop(members, now, markets) matches Some(stop) ==> timing_stop(
            members.push((key, value)),
            now,
            markets,
        ) == Some(stop),
        timing_stop(members, now, markets) is None && pause_target(key) is None ==> timing_stop(
            members.push((key, value)),
            now,
            markets,
        ) is None,
        timing_stop(members, now, markets) is None ==> (pause_target(key) matches Some(target)
            ==> timing_stop(members.push((key, value)), now, markets) == target_stop(
            target,
            target_market(target),
            value,
            now,
            markets,
        )),
        timing_stop(Seq::empty(), now, markets) is None,
{
    assert(members.push((key, value)).drop_last() =~= members);
}

} // verus!
