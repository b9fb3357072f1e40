//! What an applied unwind writes: the one transaction to post, and everything
//! that rides with it.

use crate::clock::Timestamp;
use crate::identity;
use crate::json::JsonView;
use crate::ledger::{Entry, TxnKind};
use crate::market::MarketState;
use crate::model::{
    ActionView, ActorView, AdminAction, AdminContext, Event, EventView, LedgerTxnId, MarketId,
    MarketUnwind, PositionRow, RealizationFact, Receivable, ReceivableMovement,
    ReceivableMovementKind, UnwindStage, UnwindView, UserId,
};
use crate::money::{MicroShares, MicroUsd};
use crate::ops::audit;
use crate::ops::reversal;
use crate::ops::reversal::{LedgerTxnFacts, ReversalPlan};
use crate::ops::unwind_market;
use crate::ops::unwind_market::{UnwindCmd, UnwindMarket};
use vstd::prelude::*;

verus! {

/// A ledger transaction to post.
#[derive(Debug, Clone, PartialEq, Eq)]
pub struct Posting {
    pub kind: TxnKind,
    pub key: String,
    pub entries: Vec<Entry>,
}

impl ReversalPlan {
    /// The transaction that posts this plan, under the market's one key. A plan
    /// without entries posts none.
    pub fn posting(&self, market: MarketId) -> (r: Option<Posting>)
        ensures
            if self.entries@.len() == 0 {
                r is None
            } else {
                r matches Some(posting) && posting.kind == TxnKind::Reversal && posting.key@
                    == unwind_market::ledger_key_text(market) && posting.entries@ == self.entries@
            },
    {
        if self.entries.len() == 0 {
            return None;
        }
        let mut entries: Vec<Entry> = Vec::new();
        let mut i: usize = 0;
        while i < self.entries.len()
            invariant
                i <= self.entries@.len(),
                entries@ == self.entries@.take(i as int),
            decreases self.entries.len() - i,
        {
            entries.push(self.entries[i]);
            assert(entries@ =~= self.entries@.take(i + 1));
            i += 1;
        }
        assert(self.entries@.take(i as int) =~= self.entries@);
        Some(
            Posting {
                kind: TxnKind::Reversal,
                key: unwind_market::unwind_ledger_key(market),
                entries,
            },
        )
    }
}

/// One write that rides with an applied unwind.
#[derive(Debug, PartialEq, Eq)]
pub enum UnwindWrite {
    /// An original transaction was reversed by this one.
    RecordReversal { reversed: LedgerTxnId, reversal: LedgerTxnId },
    OpenReceivable(Receivable, ReceivableMovement),
    Realization(RealizationFact),
    SavePosition(PositionRow),
    SetLpResult(MicroUsd),
    /// No integrity sweep is due any more.
    CancelHold,
    ClearCuratorFlag,
    SetMarketState(MarketState),
    ReverseFeeAllocations,
    SaveUnwind(MarketUnwind),
    Announce(Event),
    Audit(AdminAction),
}

/// One movement of a receivable, as plain values.
pub struct MovementView {
    pub id: u128,
    pub receivable: u128,
    pub kind: ReceivableMovementKind,
    pub amount_micro: i64,
    pub actor: Seq<char>,
    pub cash_txn: Option<LedgerTxnId>,
    pub idempotency_key: Seq<char>,
}

/// One write that rides with an applied unwind, as plain values.
pub enum WriteView {
    RecordReversal { reversed: LedgerTxnId, reversal: LedgerTxnId },
    OpenReceivable(Receivable, MovementView),
    Realization(RealizationFact),
    SavePosition(PositionRow),
    SetLpResult(MicroUsd),
    CancelHold,
    ClearCuratorFlag,
    SetMarketState(MarketState),
    ReverseFeeAllocations,
    SaveUnwind(UnwindView),
    Announce(EventView),
    Audit(ActionView),
}

/// A movement as plain values.
pub open spec fn movement_view(m: ReceivableMovement) -> MovementView {
    MovementView {
        id: m.id,
        receivable: m.receivable,
        kind: m.kind,
        amount_micro: m.amount_micro,
        actor: m.actor@,
        cash_txn: m.cash_txn,
        idempotency_key: m.idempotency_key@,
    }
}

impl View for UnwindWrite {
    type V = WriteView;

    open spec fn view(&self) -> WriteView {
        match self {
            UnwindWrite::RecordReversal { reversed, reversal } => WriteView::RecordReversal {
                reversed: *reversed,
                reversal: *reversal,
            },
            UnwindWrite::OpenReceivable(receivable, movement) => WriteView::OpenReceivable(
                *receivable,
                movement_view(*movement),
            ),
            UnwindWrite::Realization(fact) => WriteView::Realization(*fact),
            UnwindWrite::SavePosition(position) => WriteView::SavePosition(*position),
            UnwindWrite::SetLpResult(result) => WriteView::SetLpResult(*result),
            UnwindWrite::CancelHold => WriteView::CancelHold,
            UnwindWrite::ClearCuratorFlag => WriteView::ClearCuratorFlag,
            UnwindWrite::SetMarketState(state) => WriteView::SetMarketState(*state),
            UnwindWrite::ReverseFeeAllocations => WriteView::ReverseFeeAllocations,
            UnwindWrite::SaveUnwind(unwind) => WriteView::SaveUnwind(unwind@),
            UnwindWrite::Announce(event) => WriteView::Announce(event@),
            UnwindWrite::Audit(row) => WriteView::Audit(row@),
        }
    }
}

/// What some writes say.
pub open spec fn writes_view(list: Seq<UnwindWrite>) -> Seq<WriteView> {
    Seq::new(list.len(), |i: int| list[i]@)
}

/// Every original transaction is recorded as reversed, by the posted reversal or,
/// where none was posted, by the nil one.
pub open spec fn reversal_records(
    originals: Seq<LedgerTxnFacts>,
    reversal: Option<LedgerTxnId>,
) -> Seq<WriteView> {
    Seq::new(
        originals.len(),
        |i: int|
            WriteView::RecordReversal {
                reversed: originals[i].txn,
                reversal: match reversal {
                    Some(txn) => txn,
                    None => LedgerTxnId(0),
                },
            },
    )
}

/// The receivable of one shortfall, and the movement that opens it.
pub open spec fn opened_receivable(
    market: MarketId,
    ids: (u128, u128),
    shortfall: (UserId, i64),
    reversal: LedgerTxnId,
    actor: Seq<char>,
) -> WriteView {
    WriteView::OpenReceivable(
        Receivable {
            id: ids.0,
            market,
            user: shortfall.0,
            origin_reversal_txn: reversal,
            opened_micro: shortfall.1,
        },
        MovementView {
            id: ids.1,
            receivable: ids.0,
            kind: ReceivableMovementKind::Opened,
            amount_micro: shortfall.1,
            actor,
            cash_txn: None,
            idempotency_key: unwind_market::ledger_key_text(market) + ":recv:"@
                + identity::uuid_text(shortfall.0.0),
        },
    )
}

/// Every shortfall opens a receivable, where a reversal was posted.
pub open spec fn opened_receivables(
    market: MarketId,
    ids: Seq<(u128, u128)>,
    shortfalls: Seq<(UserId, i64)>,
    reversal: Option<LedgerTxnId>,
    actor: Seq<char>,
) -> Seq<WriteView> {
    match reversal {
        Some(txn) => Seq::new(
            shortfalls.len(),
            |i: int| opened_receivable(market, ids[i], shortfalls[i], txn, actor),
        ),
        None => Seq::empty(),
    }
}

/// A position with nothing left in it.
pub open spec fn emptied(position: PositionRow) -> PositionRow {
    PositionRow {
        shares: MicroShares(0),
        cost: MicroUsd(0),
        realized_pnl: MicroUsd(0),
        ..position
    }
}

/// Every position is emptied, what it had realized being compensated first.
pub open spec fn position_writes(
    positions: Seq<PositionRow>,
    market: MarketId,
    reversal: Option<LedgerTxnId>,
    now: Timestamp,
) -> Seq<WriteView>
    decreases positions.len(),
{
    if positions.len() == 0 {
        Seq::empty()
    } else {
        let head = position_writes(positions.drop_last(), market, reversal, now);
        let compensated = match unwind_market::compensation(
            positions.last(),
            market,
            reversal,
            now,
        ) {
            Some(fact) => head.push(WriteView::Realization(fact)),
            None => head,
        };
        compensated.push(WriteView::SavePosition(emptied(positions.last())))
    }
}

/// The settled remains of the market: no result for the liquidity provider, no
/// hold, no flag, void, and every live fee allocation reversed.
pub open spec fn market_writes(state: MarketState) -> Seq<WriteView> {
    let cleared = seq![
        WriteView::SetLpResult(MicroUsd(0)),
        WriteView::CancelHold,
        WriteView::ClearCuratorFlag,
    ];
    let tombstoned = if state == MarketState::Resolving {
        cleared.push(WriteView::SetMarketState(MarketState::Voided))
    } else {
        cleared
    };
    tombstoned.push(WriteView::ReverseFeeAllocations)
}

/// The applied authority, its event and its audit row.
pub open spec fn closing_writes(
    actor: ActorView,
    cmd: UnwindCmd,
    unwind: UnwindView,
    state: MarketState,
    reversal: Option<LedgerTxnId>,
    opened: int,
) -> Seq<WriteView> {
    seq![
        WriteView::SaveUnwind(
            UnwindView {
                stage: UnwindStage::Applied,
                confirmer_token_id: Some(actor->token_digest),
                reversal_txn: reversal,
                ..unwind
            },
        ),
        WriteView::Announce(
            EventView {
                event_type: "MarketUnwound"@,
                aggregate_type: "market"@,
                aggregate_id: cmd.market.0,
                payload: JsonView::Object(
                    seq![("market_id"@, JsonView::Text(identity::uuid_text(cmd.market.0)))]
                        + unwind_market::applied_document(reversal, opened),
                ),
            },
        ),
        WriteView::Audit(
            audit::audit_row(
                actor,
                "unwind_confirm"@,
                unwind_market::market_subject(cmd.market),
                Some(unwind_market::state_document(state)),
                Some(JsonView::Object(unwind_market::applied_document(reversal, opened))),
                Some(cmd.reason@),
            ),
        ),
    ]
}

/// What was read and posted of an unwind that is being applied.
#[derive(Debug, PartialEq, Eq)]
pub struct AppliedFacts {
    pub unwind: MarketUnwind,
    pub state: MarketState,
    pub now: Timestamp,
    pub originals: Vec<LedgerTxnFacts>,
    pub plan: ReversalPlan,
    /// The posted reversal, where there was one to post.
    pub reversal: Option<LedgerTxnId>,
    pub positions: Vec<PositionRow>,
    /// Fresh identities of a receivable and its movement, for each shortfall.
    pub ids: Vec<(u128, u128)>,
}

impl AppliedFacts {
    /// The market may be unwound, what was realized can be compensated, and there
    /// are identities for every shortfall.
    pub open spec fn wf(&self) -> bool {
        &&& self.state == MarketState::Voided || self.state == MarketState::Resolving
        &&& self.plan.shortfalls@.len() == self.ids@.len() <= i64::MAX
        &&& forall|i: int|
            0 <= i < self.positions@.len() ==> (#[trigger] self.positions@[i]).realized_pnl.0
                > i64::MIN
    }
}

/// Everything that rides with an applied unwind, in order.
pub open spec fn unwind_writes(actor: ActorView, cmd: UnwindCmd, facts: AppliedFacts) -> Seq<
    WriteView,
> {
    reversal_records(facts.originals@, facts.reversal) + opened_receivables(
        cmd.market,
        facts.ids@,
        facts.plan.shortfalls@,
        facts.reversal,
        actor->token_digest,
    ) + position_writes(facts.positions@, cmd.market, facts.reversal, facts.now) + market_writes(
        facts.state,
    ) + closing_writes(
        actor,
        cmd,
        facts.unwind@,
        facts.state,
        facts.reversal,
        facts.plan.shortfalls@.len() as int,
    )
}

/// Adds one write.
fn put(list: &mut Vec<UnwindWrite>, write: UnwindWrite)
    ensures
        writes_view(final(list)@) == writes_view(old(list)@).push(write@),
{
    let ghost before = writes_view(list@);
    let ghost said = write@;
    list.push(write);
    assert(writes_view(list@) =~= before.push(said));
}

fn put_records(
    list: &mut Vec<UnwindWrite>,
    originals: &[LedgerTxnFacts],
    reversal: Option<LedgerTxnId>,
)
    ensures
        writes_view(final(list)@) == writes_view(old(list)@) + reversal_records(
            originals@,
            reversal,
        ),
{
    let ghost before = writes_view(list@);
    let ghost all = reversal_records(originals@, reversal);
    let by = match reversal {
        Some(txn) => txn,
        None => LedgerTxnId(0),
    };
    let mut i: usize = 0;
    assert(before + all.take(0) =~= before);
    while i < originals.len()
        invariant
            i <= originals@.len(),
            all == reversal_records(originals@, reversal),
            by == (match reversal {
                Some(txn) => txn,
                None => LedgerTxnId(0),
            }),
            writes_view(list@) == before + all.take(i as int),
        decreases originals.len() - i,
    {
        put(list, UnwindWrite::RecordReversal { reversed: originals[i].txn, reversal: by });
        assert(before + all.take(i + 1) =~= (before + all.take(i as int)).push(all[i as int]));
        i += 1;
    }
    assert(all.take(i as int) =~= all);
}

fn put_receivables(
    list: &mut Vec<UnwindWrite>,
    market: MarketId,
    ids: &[(u128, u128)],
    shortfalls: &[(UserId, i64)],
    reversal: Option<LedgerTxnId>,
    actor: &str,
)
    requires
        ids@.len() == shortfalls@.len(),
    ensures
        writes_view(final(list)@) == writes_view(old(list)@) + opened_receivables(
            market,
            ids@,
            shortfalls@,
            reversal,
            actor@,
        ),
{
    let ghost before = writes_view(list@);
    let ghost all = opened_receivables(market, ids@, shortfalls@, reversal, actor@);
    assert(before + all.take(0) =~= before);
    let txn = match reversal {
        Some(txn) => txn,
        None => {
            assert(before + all =~= before);
            return;
        },
    };
    let mut i: usize = 0;
    while i < shortfalls.len()
        invariant
            i <= shortfalls@.len(),
            ids@.len() == shortfalls@.len(),
            reversal == Some(txn),
            all == opened_receivables(market, ids@, shortfalls@, reversal, actor@),
            writes_view(list@) == before + all.take(i as int),
        decreases shortfalls.len() - i,
    {
        let (receivable, movement) = unwind_market::open_receivable(
            ids[i].0,
            ids[i].1,
            market,
            shortfalls[i].0,
            shortfalls[i].1,
            txn,
            actor,
        );
        put(list, UnwindWrite::OpenReceivable(receivable, movement));
        assert(before + all.take(i + 1) =~= (before + all.take(i as int)).push(all[i as int]));
        i += 1;
    }
    assert(all.take(i as int) =~= all);
}

fn put_positions(
    list: &mut Vec<UnwindWrite>,
    positions: &[PositionRow],
    market: MarketId,
    reversal: Option<LedgerTxnId>,
    now: Timestamp,
)
    requires
        forall|i: int|
            0 <= i < positions@.len() ==> (#[trigger] positions@[i]).realized_pnl.0 > i64::MIN,
    ensures
        writes_view(final(list)@) == writes_view(old(list)@) + position_writes(
            positions@,
            market,
            reversal,
            now,
        ),
{
    let ghost before = writes_view(list@);
    let mut i: usize = 0;
    assert(before + position_writes(positions@.take(0), market, reversal, now) =~= before);
    while i < positions.len()
        invariant
            i <= positions@.len(),
            forall|i: int|
                0 <= i < positions@.len() ==> (#[trigger] positions@[i]).realized_pnl.0 > i64::MIN,
            writes_view(list@) == before + position_writes(
                positions@.take(i as int),
                market,
                reversal,
                now,
            ),
        decreases positions.len() - i,
    {
        let position = &positions[i];
        let ghost head = position_writes(positions@.take(i as int), market, reversal, now);
        assert(positions@.take(i + 1).drop_last() =~= positions@.take(i as int));
        assert(positions@.take(i + 1).last() == *position);
        if let Some(fact) = unwind_market::unwind_realization(position, market, reversal, now) {
            put(list, UnwindWrite::Realization(fact));
            assert((before + head).push(WriteView::Realization(fact)) =~= before + head.push(
                WriteView::Realization(fact),
            ));
        }
        let ghost upto = writes_view(list@);
        put(list, UnwindWrite::SavePosition(unwind_market::zeroed(position)));
        proof {
            let whole = position_writes(positions@.take(i + 1), market, reversal, now);
            assert(upto.push(WriteView::SavePosition(emptied(*position))) =~= before + whole);
        }
        i += 1;
    }
    assert(positions@.take(i as int) =~= positions@);
}

impl UnwindMarket {
    /// Everything that rides with an applied unwind, once its reversal was posted
    /// where there was one to post.
    pub fn writes(&self, cmd: &UnwindCmd, facts: &AppliedFacts) -> (r: Vec<UnwindWrite>)
        requires
            self.actor@ is Admin,
            facts.wf(),
        ensures
            writes_view(r@) == unwind_writes(self.actor@, *cmd, *facts),
    {
        let actor = match &self.actor {
            AdminContext::Admin { token_digest, role: _ } => token_digest.as_str(),
            AdminContext::Machine => "",
        };
        let opened: usize = facts.plan.shortfalls.len();
        let mut list: Vec<UnwindWrite> = Vec::new();
        assert(writes_view(list@) =~= Seq::<WriteView>::empty());
        put_records(&mut list, facts.originals.as_slice(), facts.reversal);
        put_receivables(
            &mut list,
            cmd.market,
            facts.ids.as_slice(),
            facts.plan.shortfalls.as_slice(),
            facts.reversal,
            actor,
        );
        put_positions(
            &mut list,
            facts.positions.as_slice(),
            cmd.market,
            facts.reversal,
            facts.now,
        );
        let ghost moved = writes_view(list@);
        put(&mut list, UnwindWrite::SetLpResult(MicroUsd(0)));
        put(&mut list, UnwindWrite::CancelHold);
        put(&mut list, UnwindWrite::ClearCuratorFlag);
        if let Ok(Some(voided)) = unwind_market::tombstone(facts.state) {
            put(&mut list, UnwindWrite::SetMarketState(voided));
        }
        put(&mut list, UnwindWrite::ReverseFeeAllocations);
        assert(writes_view(list@) =~= moved + market_writes(facts.state));
        let ghost settled = writes_view(list@);
        let (unwind, event, row) = self.applied(
            cmd,
            &facts.unwind,
            facts.state,
            facts.reversal,
            opened,
        );
        put(&mut list, UnwindWrite::SaveUnwind(unwind));
        put(&mut list, UnwindWrite::Announce(event));
        put(&mut list, UnwindWrite::Audit(row));
        proof {
            let closing = closing_writes(
                self.actor@,
                *cmd,
                facts.unwind@,
                facts.state,
                facts.reversal,
                opened as int,
            );
            assert(writes_view(list@) =~= settled + closing);
            assert(writes_view(list@) =~= unwind_writes(self.actor@, *cmd, *facts));
        }
        list
    }
}

/// The sum of the receivables that some writes open.
pub open spec fn opened_sum(writes: Seq<WriteView>) -> int
    decreases writes.len(),
{
    if writes.len() == 0 {
        0
    } else {
        opened_sum(writes.drop_last()) + match writes.last() {
            WriteView::OpenReceivable(receivable, _) => receivable.opened_micro as int,
            _ => 0,
        }
    }
}

/// A posted reversal opens receivables for exactly what the users fell short of.
pub proof fn law_receivables_cover_the_shortfall(
    market: MarketId,
    ids: Seq<(u128, u128)>,
    shortfalls: Seq<(UserId, i64)>,
    reversal: LedgerTxnId,
    actor: Seq<char>,
)
    ensures
        opened_sum(opened_receivables(market, ids, shortfalls, Some(reversal), actor))
            == reversal::shortfall_sum(shortfalls),
    decreases shortfalls.len(),
{
    let all = opened_receivables(market, ids, shortfalls, Some(reversal), actor);
    if shortfalls.len() > 0 {
        let head = shortfalls.drop_last();
        assert(all.drop_last() =~= opened_receivables(market, ids, head, Some(reversal), actor));
        law_receivables_cover_the_shortfall(market, ids, head, reversal, actor);
    }
}

/// No position keeps anything: each one of the market is saved empty.
pub proof fn law_every_position_is_emptied(
    positions: Seq<PositionRow>,
    market: MarketId,
    reversal: Option<LedgerTxnId>,
    now: Timestamp,
    i: int,
)
    requires
        0 <= i < positions.len(),
    ensures
        position_writes(positions, market, reversal, now).contains(
            WriteView::SavePosition(emptied(positions[i])),
        ),
    decreases positions.len(),
{
    let whole = position_writes(positions, market, reversal, now);
    let want = WriteView::SavePosition(emptied(positions[i]));
    if i == positions.len() - 1 {
        assert(whole[whole.len() - 1] == want);
    } else {
        let head = position_writes(positions.drop_last(), market, reversal, now);
        law_every_position_is_emptied(positions.drop_last(), market, reversal, now, i);
        let k = choose|k: int| 0 <= k < head.len() && head[k] == want;
        assert(whole[k] == want);
    }
}

/// What rides with an applied unwind, in order: every original transaction is
/// recorded as reversed, every shortfall opens a receivable over its amount, every
/// position is emptied, and the market is left void with nothing outstanding.
pub proof fn law_what_rides_with_an_unwind(
    actor: ActorView,
    cmd: UnwindCmd,
    facts: AppliedFacts,
    txn: LedgerTxnId,
    i: int,
    k: int,
)
    requires
        facts.wf(),
        facts.reversal == Some(txn),
        0 <= i < facts.originals@.len(),
        0 <= k < facts.plan.shortfalls@.len(),
    ensures
        ({
            let all = unwind_writes(actor, cmd, facts);
            let n = facts.originals@.len() as int;
            let short = facts.plan.shortfalls@[k];
            &&& all[i] == (WriteView::RecordReversal {
                reversed: facts.originals@[i].txn,
                reversal: txn,
            })
            &&& all[n + k] matches WriteView::OpenReceivable(receivable, movement)
                && receivable.user == short.0 && receivable.opened_micro == short.1
                && receivable.market == cmd.market && receivable.origin_reversal_txn == txn
                && movement.amount_micro == short.1 && movement.receivable == receivable.id
                && movement.kind == ReceivableMovementKind::Opened
            &&& all[all.len() - 3] matches WriteView::SaveUnwind(done) && done.stage
                == UnwindStage::Applied && done.confirmer_token_id == Some(actor->token_digest)
                && done.reversal_txn == Some(txn) && done.market == facts.unwind.market
            &&& all[all.len() - 2] is Announce
            &&& all[all.len() - 1] matches WriteView::Audit(row) && row.action
                == "unwind_confirm"@ && row.reason == Some(cmd.reason@)
        }),
{
    let records = reversal_records(facts.originals@, facts.reversal);
    let opened = opened_receivables(
        cmd.market,
        facts.ids@,
        facts.plan.shortfalls@,
        facts.reversal,
        actor->token_digest,
    );
    let n = records.len() as int;
    assert(unwind_writes(actor, cmd, facts)[i] == records[i]);
    assert(unwind_writes(actor, cmd, facts)[n + k] == opened[k]);
}

/// What is left of an unwound market: no result for its liquidity, no hold, no
/// flag, no live fee allocation; a resolving one is voided, and a void one stays.
pub proof fn law_what_is_left_of_an_unwound_market()
    ensures
        market_writes(MarketState::Voided) == seq![
            WriteView::SetLpResult(MicroUsd(0)),
            WriteView::CancelHold,
            WriteView::ClearCuratorFlag,
            WriteView::ReverseFeeAllocations,
        ],
        market_writes(MarketState::Resolving) == seq![
            WriteView::SetLpResult(MicroUsd(0)),
            WriteView::CancelHold,
            WriteView::ClearCuratorFlag,
            WriteView::SetMarketState(MarketState::Voided),
            WriteView::ReverseFeeAllocations,
        ],
{
    assert(market_writes(MarketState::Voided) =~= seq![
        WriteView::SetLpResult(MicroUsd(0)),
        WriteView::CancelHold,
        WriteView::ClearCuratorFlag,
        WriteView::ReverseFeeAllocations,
    ]);
    assert(market_writes(MarketState::Resolving) =~= seq![
        WriteView::SetLpResult(MicroUsd(0)),
        WriteView::CancelHold,
        WriteView::ClearCuratorFlag,
        WriteView::SetMarketState(MarketState::Voided),
        WriteView::ReverseFeeAllocations,
    ]);
}

/// A position is saved with nothing in it, still its user's and its outcome's,
/// and right before that what it had realized is compensated.
pub proof fn law_positions_are_compensated_and_emptied(
    positions: Seq<PositionRow>,
    position: PositionRow,
    market: MarketId,
    reversal: Option<LedgerTxnId>,
    now: Timestamp,
)
    ensures
        ({
            let before = position_writes(positions, market, reversal, now);
            let after = position_writes(positions.push(position), market, reversal, now);
            &&& after.last() matches WriteView::SavePosition(saved) && saved.shares.0 == 0
                && saved.cost.0 == 0 && saved.realized_pnl.0 == 0 && saved.user == position.user
                && saved.outcome == position.outcome
            &&& match unwind_market::compensation(position, market, reversal, now) {
                Some(fact) => after == before.push(WriteView::Realization(fact)).push(after.last()),
                None => after == before.push(after.last()),
            }
        }),
{
    assert(positions.push(position).drop_last() =~= positions);
    let before = position_writes(positions, market, reversal, now);
    let after = position_writes(positions.push(position), market, reversal, now);
    match unwind_market::compensation(position, market, reversal, now) {
        Some(fact) => {
            assert(after =~= before.push(WriteView::Realization(fact)).push(after.last()));
        },
        None => {
            assert(after =~= before.push(after.last()));
        },
    }
}

} // verus!
