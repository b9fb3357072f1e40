//! The reversal of a market's ledger history: every original transaction is
//! negated into one. Users short of cash pay what they have, and the house
//! carries the rest.

use crate::error::{AppError, Fault};
use crate::ledger;
use crate::ledger::{AccountId, Entry, TxnKind};
use crate::model::{LedgerTxnId, OwnerRef, UserId};
use crate::money;
use crate::money::MicroUsd;
use crate::ops::audit;
use crate::ops::audit::{OpsError, OpsFault};
use vstd::prelude::*;

verus! {

/// One entry of a committed transaction, with the owner of its account.
#[derive(Debug, Clone, Copy, PartialEq, Eq, Structural)]
pub struct LedgerEntryFacts {
    pub account: AccountId,
    pub owner: OwnerRef,
    pub amount_micro: i64,
}

/// One committed transaction of a market. A transaction belongs to a market
/// where any entry touches the market's escrow or pool account.
#[derive(Debug, Clone, PartialEq, Eq)]
pub struct LedgerTxnFacts {
    pub txn: LedgerTxnId,
    pub kind: TxnKind,
    pub entries: Vec<LedgerEntryFacts>,
}

/// What entries moved on one account.
pub open spec fn moved(entries: Seq<LedgerEntryFacts>, account: AccountId) -> int
    decreases entries.len(),
{
    if entries.len() == 0 {
        0
    } else {
        moved(entries.drop_last(), account) + if entries.last().account == account {
            entries.last().amount_micro as int
        } else {
            0
        }
    }
}

/// What entries moved altogether.
pub open spec fn moved_in_all(entries: Seq<LedgerEntryFacts>) -> int
    decreases entries.len(),
{
    if entries.len() == 0 {
        0
    } else {
        moved_in_all(entries.drop_last()) + entries.last().amount_micro
    }
}

/// Some entry is on this account.
pub open spec fn touches(entries: Seq<LedgerEntryFacts>, account: AccountId) -> bool {
    exists|i: int| 0 <= i < entries.len() && (#[trigger] entries[i]).account == account
}

/// The owner that the first entry on an account names.
pub open spec fn first_owner(entries: Seq<LedgerEntryFacts>, account: AccountId) -> OwnerRef
    decreases entries.len(),
{
    if entries.len() == 0 || touches(entries.drop_last(), account) {
        if entries.len() == 0 {
            OwnerRef::House
        } else {
            first_owner(entries.drop_last(), account)
        }
    } else {
        entries.last().owner
    }
}

/// All entries of some transactions, in order.
pub open spec fn all_entries(originals: Seq<LedgerTxnFacts>) -> Seq<LedgerEntryFacts>
    decreases originals.len(),
{
    if originals.len() == 0 {
        Seq::empty()
    } else {
        all_entries(originals.drop_last()) + originals.last().entries@
    }
}

/// Somewhere after the first `from` entries, what the entries up to there moved
/// on an account cannot be negated within its type.
pub open spec fn overflows_after(entries: Seq<LedgerEntryFacts>, from: int) -> bool {
    exists|k: int|
        from < k <= entries.len() && !money::fits(-moved(#[trigger] entries.take(k), entries[k - 1].account))
}

/// Why a history cannot be negated, if it cannot: the first transaction that is
/// itself a reversal or at which an account overflows decides.
pub open spec fn netting_fault(originals: Seq<LedgerTxnFacts>) -> Option<OpsFault>
    decreases originals.len(),
{
    if originals.len() == 0 {
        None
    } else {
        match netting_fault(originals.drop_last()) {
            Some(fault) => Some(fault),
            None => if originals.last().kind == TxnKind::Reversal {
                Some(audit::conflict("market already carries a reversal"@))
            } else if overflows_after(
                all_entries(originals),
                all_entries(originals.drop_last()).len() as int,
            ) {
                Some(OpsFault::App(Fault::Overflow))
            } else {
                None
            },
        }
    }
}

/// A history that holds a reversal is never negated again.
pub proof fn law_history_is_reversed_once(originals: Seq<LedgerTxnFacts>, at: int)
    requires
        0 <= at < originals.len(),
        originals[at].kind == TxnKind::Reversal,
    ensures
        netting_fault(originals) is Some,
    decreases originals.len(),
{
    if at < originals.len() - 1 {
        law_history_is_reversed_once(originals.drop_last(), at);
    }
}

/// What is to be moved back on one account.
#[derive(Debug, Clone, Copy, PartialEq, Eq, Structural)]
pub struct NetRow {
    pub account: AccountId,
    pub owner: OwnerRef,
    pub amount: i64,
}

/// The rows are ordered by account, and no account occurs twice.
pub open spec fn rows_ascend(rows: Seq<NetRow>) -> bool {
    forall|i: int, j: int|
        0 <= i < j < rows.len() ==> (#[trigger] rows[i]).account.0 < (#[trigger] rows[j]).account.0
}

/// Some row is about this account.
pub open spec fn has_row(rows: Seq<NetRow>, account: AccountId) -> bool {
    exists|i: int| 0 <= i < rows.len() && (#[trigger] rows[i]).account == account
}

/// The rows negate the entries: one row for each account that they touch, in
/// account order, with the opposite of what they moved there.
pub open spec fn negates(rows: Seq<NetRow>, entries: Seq<LedgerEntryFacts>) -> bool {
    &&& rows_ascend(rows)
    &&& forall|i: int|
        0 <= i < rows.len() ==> touches(entries, (#[trigger] rows[i]).account) && rows[i].amount
            == -moved(entries, rows[i].account) && rows[i].owner == first_owner(
            entries,
            rows[i].account,
        )
    &&& forall|k: int|
        0 <= k < entries.len() ==> has_row(rows, (#[trigger] entries[k]).account)
}

/// The rows that negate some entries.
pub open spec fn rows_of(entries: Seq<LedgerEntryFacts>) -> Seq<NetRow> {
    choose|rows: Seq<NetRow>| negates(rows, entries)
}

/// There is one way only to negate entries.
pub proof fn lemma_negation_is_unique(rows: Seq<NetRow>, entries: Seq<LedgerEntryFacts>)
    requires
        negates(rows, entries),
    ensures
        rows_of(entries) == rows,
{
    let other = rows_of(entries);
    assert(negates(other, entries));
    lemma_rows_agree(rows, other, entries, rows.len() as int);
    lemma_rows_agree(other, rows, entries, other.len() as int);
    assert(rows =~= other);
}

proof fn lemma_rows_agree(
    a: Seq<NetRow>,
    b: Seq<NetRow>,
    entries: Seq<LedgerEntryFacts>,
    n: int,
)
    requires
        negates(a, entries),
        negates(b, entries),
        0 <= n <= a.len(),
    ensures
        n <= b.len(),
        forall|i: int| 0 <= i < n ==> #[trigger] a[i] == b[i],
    decreases n,
{
    if n > 0 {
        let m = n - 1;
        lemma_rows_agree(a, b, entries, m);
        let row = a[m];
        assert(touches(entries, row.account));
        let k = choose|k: int| 0 <= k < entries.len() && (#[trigger] entries[k]).account
            == row.account;
        assert(has_row(b, entries[k].account));
        let j = choose|j: int| 0 <= j < b.len() && (#[trigger] b[j]).account == row.account;
        if j < m {
            assert(a[j] == b[j]);
            assert(a[j].account.0 < a[m].account.0);
        }
        assert(touches(entries, b[m].account));
        let l = choose|l: int| 0 <= l < entries.len() && (#[trigger] entries[l]).account
            == b[m].account;
        assert(has_row(a, entries[l].account));
        let i = choose|i: int| 0 <= i < a.len() && (#[trigger] a[i]).account == b[m].account;
        if i < m {
            assert(a[i] == b[i]);
            assert(b[i].account.0 < b[m].account.0);
        }
        if j > m {
            assert(b[m].account.0 < b[j].account.0);
            if i > m {
                assert(a[m].account.0 < a[i].account.0);
            }
        }
        assert(j == m);
        assert(a[m] == b[m]);
    }
}

proof fn lemma_push(entries: Seq<LedgerEntryFacts>, e: LedgerEntryFacts, account: AccountId)
    ensures
        moved(entries.push(e), account) == moved(entries, account) + if e.account == account {
            e.amount_micro as int
        } else {
            0
        },
        touches(entries.push(e), account) == (touches(entries, account) || e.account == account),
        touches(entries, account) ==> first_owner(entries.push(e), account) == first_owner(
            entries,
            account,
        ),
        !touches(entries, account) ==> first_owner(entries.push(e), account) == e.owner,
{
    let more = entries.push(e);
    assert(more.drop_last() =~= entries);
    if touches(entries, account) {
        let i = choose|i: int| 0 <= i < entries.len() && (#[trigger] entries[i]).account == account;
        assert(more[i].account == account);
    }
    if e.account == account {
        assert(more[entries.len() as int].account == account);
    }
    if touches(more, account) && e.account != account {
        let i = choose|i: int| 0 <= i < more.len() && (#[trigger] more[i]).account == account;
        assert(entries[i].account == account);
    }
}

proof fn lemma_untouched(entries: Seq<LedgerEntryFacts>, account: AccountId)
    requires
        !touches(entries, account),
    ensures
        moved(entries, account) == 0,
    decreases entries.len(),
{
    if entries.len() > 0 {
        let less = entries.drop_last();
        if touches(less, account) {
            let i = choose|i: int| 0 <= i < less.len() && (#[trigger] less[i]).account == account;
            assert(entries[i].account == account);
        }
        assert(entries[entries.len() - 1] == entries.last());
        lemma_untouched(less, account);
    }
}

proof fn lemma_update(
    rows: Seq<NetRow>,
    entries: Seq<LedgerEntryFacts>,
    e: LedgerEntryFacts,
    at: int,
    amount: i64,
)
    requires
        negates(rows, entries),
        0 <= at < rows.len(),
        rows[at].account == e.account,
        amount == rows[at].amount - e.amount_micro,
    ensures
        negates(
            rows.update(at, NetRow { account: e.account, owner: rows[at].owner, amount }),
            entries.push(e),
        ),
{
    let after = rows.update(at, NetRow { account: e.account, owner: rows[at].owner, amount });
    let more = entries.push(e);
    assert forall|i: int| 0 <= i < after.len() implies touches(more, (#[trigger] after[i]).account)
        && after[i].amount == -moved(more, after[i].account) && after[i].owner == first_owner(
        more,
        after[i].account,
    ) by {
        assert(after[i].account == rows[i].account);
        assert(touches(entries, rows[i].account));
        lemma_push(entries, e, after[i].account);
        if i != at && rows[i].account == e.account {
            assert(rows[i].account.0 == rows[at].account.0);
        }
    }
    assert forall|k: int| 0 <= k < more.len() implies has_row(after, (#[trigger] more[k]).account) by {
        if k < entries.len() {
            assert(more[k] == entries[k]);
            assert(has_row(rows, entries[k].account));
            let i = choose|i: int|
                0 <= i < rows.len() && (#[trigger] rows[i]).account == entries[k].account;
            assert(after[i].account == entries[k].account);
        } else {
            assert(after[at].account == e.account);
        }
    }
    assert forall|i: int, j: int| 0 <= i < j < after.len() implies (#[trigger] after[i]).account.0
        < (#[trigger] after[j]).account.0 by {
        assert(rows[i].account.0 < rows[j].account.0);
    }
}

proof fn lemma_insert(
    rows: Seq<NetRow>,
    entries: Seq<LedgerEntryFacts>,
    e: LedgerEntryFacts,
    at: int,
    amount: i64,
)
    requires
        negates(rows, entries),
        0 <= at <= rows.len(),
        forall|i: int| 0 <= i < at ==> (#[trigger] rows[i]).account.0 < e.account.0,
        at < rows.len() ==> e.account.0 < rows[at].account.0,
        amount == -e.amount_micro,
    ensures
        negates(
            rows.insert(at, NetRow { account: e.account, owner: e.owner, amount }),
            entries.push(e),
        ),
{
    let row = NetRow { account: e.account, owner: e.owner, amount };
    let after = rows.insert(at, row);
    let more = entries.push(e);
    assert forall|i: int| 0 <= i < rows.len() implies (#[trigger] rows[i]).account != e.account by {
        if i > at {
            assert(rows[at].account.0 < rows[i].account.0);
        }
    }
    if touches(entries, e.account) {
        let k = choose|k: int|
            0 <= k < entries.len() && (#[trigger] entries[k]).account == e.account;
        assert(has_row(rows, entries[k].account));
    }
    lemma_untouched(entries, e.account);
    assert forall|i: int| 0 <= i < after.len() implies touches(more, (#[trigger] after[i]).account)
        && after[i].amount == -moved(more, after[i].account) && after[i].owner == first_owner(
        more,
        after[i].account,
    ) by {
        lemma_push(entries, e, after[i].account);
        if i < at {
            assert(after[i] == rows[i]);
        } else if i > at {
            assert(after[i] == rows[i - 1]);
        }
    }
    assert forall|k: int| 0 <= k < more.len() implies has_row(after, (#[trigger] more[k]).account) by {
        if k < entries.len() {
            assert(more[k] == entries[k]);
            assert(has_row(rows, entries[k].account));
            let i = choose|i: int|
                0 <= i < rows.len() && (#[trigger] rows[i]).account == entries[k].account;
            if i < at {
                assert(after[i] == rows[i]);
            } else {
                assert(after[i + 1] == rows[i]);
            }
        } else {
            assert(after[at] == row);
        }
    }
    assert forall|i: int, j: int| 0 <= i < j < after.len() implies (#[trigger] after[i]).account.0
        < (#[trigger] after[j]).account.0 by {
        let p = if i < at {
            i
        } else {
            i - 1
        };
        let q = if j < at {
            j
        } else {
            j - 1
        };
        if i != at {
            assert(after[i] == rows[p]);
        }
        if j != at {
            assert(after[j] == rows[q]);
        }
        if i != at && j != at {
            assert(rows[p].account.0 < rows[q].account.0);
        }
        if i == at && q > at {
            assert(rows[at].account.0 < rows[q].account.0);
        }
    }
}

/// Takes one more entry into the rows; `false` where its account overflows.
fn take_entry(rows: &mut Vec<NetRow>, e: LedgerEntryFacts, seen: Ghost<Seq<LedgerEntryFacts>>) -> (r:
    bool)
    requires
        negates(old(rows)@, seen@),
    ensures
        r == money::fits(-moved(seen@.push(e), e.account)),
        r ==> negates(final(rows)@, seen@.push(e)),
{
    let mut at: usize = 0;
    while at < rows.len() && rows[at].account.0 < e.account.0
        invariant
            at <= rows@.len(),
            rows@ == old(rows)@,
            forall|i: int| 0 <= i < at ==> (#[trigger] rows@[i]).account.0 < e.account.0,
        decreases rows.len() - at,
    {
        at += 1;
    }
    let ghost before = rows@;
    proof {
        lemma_push(seen@, e, e.account);
    }
    if at < rows.len() && rows[at].account == e.account {
        let owner = rows[at].owner;
        match rows[at].amount.checked_sub(e.amount_micro) {
            None => false,
            Some(amount) => {
                proof {
                    lemma_update(before, seen@, e, at as int, amount);
                }
                rows.set(at, NetRow { account: e.account, owner, amount });
                true
            },
        }
    } else {
        proof {
            assert forall|i: int| 0 <= i < before.len() implies (#[trigger] before[i]).account
                != e.account by {
                if i > at {
                    assert(before[at as int].account.0 < before[i].account.0);
                }
            }
            if touches(seen@, e.account) {
                let k = choose|k: int|
                    0 <= k < seen@.len() && (#[trigger] seen@[k]).account == e.account;
                assert(has_row(before, seen@[k].account));
            }
            lemma_untouched(seen@, e.account);
        }
        let zero: i64 = 0;
        match zero.checked_sub(e.amount_micro) {
            None => false,
            Some(amount) => {
                proof {
                    lemma_insert(before, seen@, e, at as int, amount);
                }
                rows.insert(at, NetRow { account: e.account, owner: e.owner, amount });
                true
            },
        }
    }
}

/// Negates a history, account by account.
///
/// # Errors
///
/// A conflict where the history already holds a reversal, and
/// [`AppError::Overflow`] where an account's sum leaves its type.
pub fn negate(originals: &[LedgerTxnFacts]) -> (r: Result<Vec<NetRow>, OpsError>)
    ensures
        match netting_fault(originals@) {
            Some(fault) => r matches Err(e) && e@ == fault,
            None => r matches Ok(rows) && negates(rows@, all_entries(originals@)),
        },
{
    let mut rows: Vec<NetRow> = Vec::new();
    let mut i: usize = 0;
    while i < originals.len()
        invariant
            i <= originals@.len(),
            netting_fault(originals@.take(i as int)) is None,
            negates(rows@, all_entries(originals@.take(i as int))),
        decreases originals.len() - i,
    {
        let original = &originals[i];
        let ghost seen = all_entries(originals@.take(i as int));
        let ghost upto = originals@.take(i + 1);
        proof {
            assert(upto.drop_last() =~= originals@.take(i as int));
            assert(all_entries(upto) == seen + original.entries@);
        }
        if original.kind == TxnKind::Reversal {
            proof {
                lemma_fault_stays(originals@, i + 1);
            }
            return Err(audit::conflict_error("market already carries a reversal"));
        }
        let mut k: usize = 0;
        assert(seen + original.entries@.take(0) =~= seen);
        while k < original.entries.len()
            invariant
                i < originals@.len(),
                k <= original.entries@.len(),
                *original == originals@[i as int],
                original.kind != TxnKind::Reversal,
                seen == all_entries(originals@.take(i as int)),
                upto == originals@.take(i + 1),
                upto.drop_last() == originals@.take(i as int),
                all_entries(upto) == seen + original.entries@,
                netting_fault(originals@.take(i as int)) is None,
                negates(rows@, seen + original.entries@.take(k as int)),
                forall|m: int|
                    seen.len() < m <= seen.len() + k ==> money::fits(
                        -moved(
                            #[trigger] all_entries(upto).take(m),
                            all_entries(upto)[m - 1].account,
                        ),
                    ),
            decreases original.entries.len() - k,
        {
            let e = original.entries[k];
            let ghost so_far = seen + original.entries@.take(k as int);
            let ok = take_entry(&mut rows, e, Ghost(so_far));
            proof {
                let m = seen.len() + k + 1;
                assert(so_far.push(e) =~= seen + original.entries@.take(k + 1));
                assert(all_entries(upto).take(m) =~= so_far.push(e));
                assert(all_entries(upto)[m - 1] == e);
            }
            if !ok {
                proof {
                    let m = seen.len() + k + 1;
                    assert(!money::fits(
                        -moved(all_entries(upto).take(m), all_entries(upto)[m - 1].account),
                    ));
                    assert(overflows_after(all_entries(upto), seen.len() as int));
                    lemma_fault_stays(originals@, i + 1);
                }
                return Err(OpsError::App(AppError::Overflow));
            }
            k += 1;
        }
        proof {
            assert(original.entries@.take(k as int) =~= original.entries@);
            assert(netting_fault(upto) is None);
        }
        i += 1;
    }
    assert(originals@.take(i as int) =~= originals@);
    Ok(rows)
}

/// Once a history cannot be negated, no longer one can, for the same reason.
proof fn lemma_fault_stays(originals: Seq<LedgerTxnFacts>, n: int)
    requires
        0 <= n <= originals.len(),
        netting_fault(originals.take(n)) is Some,
    ensures
        netting_fault(originals) == netting_fault(originals.take(n)),
    decreases originals.len() - n,
{
    if n < originals.len() {
        assert(originals.take(n + 1).drop_last() =~= originals.take(n));
        lemma_fault_stays(originals, n + 1);
    } else {
        assert(originals.take(n) =~= originals);
    }
}

/// The cash that was read for an account, if it was.
pub open spec fn cash_read(cash: Seq<(AccountId, i64)>, account: AccountId) -> Option<i64>
    decreases cash.len(),
{
    if cash.len() == 0 {
        None
    } else if cash[0].0 == account {
        Some(cash[0].1)
    } else {
        cash_read(cash.skip(1), account)
    }
}

/// The cash on an account, nothing where none was read.
pub open spec fn cash_on(cash: Seq<(AccountId, i64)>, account: AccountId) -> int {
    match cash_read(cash, account) {
        Some(c) => c as int,
        None => 0,
    }
}

/// A user who has to pay back.
pub open spec fn owes(row: NetRow, house: AccountId) -> bool {
    row.account != house && row.amount < 0 && row.owner is User
}

/// What a user who has to pay back pays: all of it, or the cash there is.
pub open spec fn pays(row: NetRow, cash: int) -> int {
    if cash <= 0 {
        0
    } else if -row.amount <= cash {
        -row.amount
    } else {
        cash
    }
}

/// What a user who has to pay back stays short of.
pub open spec fn short_of(row: NetRow, house: AccountId, cash: int) -> int {
    if owes(row, house) {
        -row.amount - pays(row, cash)
    } else {
        0
    }
}

/// What a row moves on its account. The house is settled apart.
pub open spec fn leg_of(row: NetRow, house: AccountId, cash: int) -> int {
    if row.account == house {
        0
    } else if owes(row, house) {
        -pays(row, cash)
    } else {
        row.amount as int
    }
}

/// The entries on the accounts other than the house.
pub open spec fn account_legs(
    rows: Seq<NetRow>,
    house: AccountId,
    cash: Seq<(AccountId, i64)>,
) -> Seq<Entry>
    decreases rows.len(),
{
    if rows.len() == 0 {
        Seq::empty()
    } else {
        let row = rows.last();
        let legs = account_legs(rows.drop_last(), house, cash);
        let leg = leg_of(row, house, cash_on(cash, row.account));
        if leg == 0 {
            legs
        } else {
            legs.push(Entry { account: row.account, amount: MicroUsd(leg as i64) })
        }
    }
}

/// Who stays short of how much.
pub open spec fn shortfalls_of(
    rows: Seq<NetRow>,
    house: AccountId,
    cash: Seq<(AccountId, i64)>,
) -> Seq<(UserId, i64)>
    decreases rows.len(),
{
    if rows.len() == 0 {
        Seq::empty()
    } else {
        let row = rows.last();
        let list = shortfalls_of(rows.drop_last(), house, cash);
        let short = short_of(row, house, cash_on(cash, row.account));
        if short == 0 {
            list
        } else {
            list.push((row.owner->User_0, short as i64))
        }
    }
}

/// What is to be moved back on the house account.
pub open spec fn house_net(rows: Seq<NetRow>, house: AccountId) -> i64
    decreases rows.len(),
{
    if rows.len() == 0 {
        0
    } else if rows.last().account == house {
        rows.last().amount
    } else {
        house_net(rows.drop_last(), house)
    }
}

/// The sum of shortfalls.
pub open spec fn shortfall_sum(shortfalls: Seq<(UserId, i64)>) -> int
    decreases shortfalls.len(),
{
    if shortfalls.len() == 0 {
        0
    } else {
        shortfall_sum(shortfalls.drop_last()) + shortfalls.last().1
    }
}

/// The running sum of shortfalls leaves its type somewhere.
pub open spec fn shortfall_overflows(shortfalls: Seq<(UserId, i64)>) -> bool {
    exists|k: int|
        0 <= k <= shortfalls.len() && !money::fits(shortfall_sum(#[trigger] shortfalls.take(k)))
}

/// The entries of the reversal: the accounts in order, then the house's own
/// return, then, apart from it, what the house carries for the users.
pub open spec fn reversal_legs(
    rows: Seq<NetRow>,
    house: AccountId,
    cash: Seq<(AccountId, i64)>,
) -> Seq<Entry> {
    let legs = account_legs(rows, house, cash);
    let returned = house_net(rows, house);
    let with_return = if returned != 0 {
        legs.push(Entry { account: house, amount: MicroUsd(returned) })
    } else {
        legs
    };
    let short = shortfall_sum(shortfalls_of(rows, house, cash));
    if short > 0 {
        with_return.push(Entry { account: house, amount: MicroUsd((-short) as i64) })
    } else {
        with_return
    }
}

/// What stops the walk over the rows.
pub enum Stop {
    Balance(AccountId),
    Overflow,
}

/// The first user who has to pay back whose cash is not known yet, or whose
/// debt has no opposite.
pub open spec fn first_stop(
    rows: Seq<NetRow>,
    house: AccountId,
    cash: Seq<(AccountId, i64)>,
) -> Option<Stop>
    decreases rows.len(),
{
    if rows.len() == 0 {
        None
    } else {
        match first_stop(rows.drop_last(), house, cash) {
            Some(stop) => Some(stop),
            None => if !owes(rows.last(), house) {
                None
            } else if cash_read(cash, rows.last().account) is None {
                Some(Stop::Balance(rows.last().account))
            } else if rows.last().amount == i64::MIN {
                Some(Stop::Overflow)
            } else {
                None
            },
        }
    }
}

/// The reversal to post and the shortfalls to book.
#[derive(Debug, Clone, PartialEq, Eq)]
pub struct ReversalPlan {
    pub entries: Vec<Entry>,
    pub shortfalls: Vec<(UserId, i64)>,
}

/// What becomes of a reversal next.
#[derive(Debug, PartialEq, Eq)]
pub enum ReversalStep {
    /// The cash on this account is needed.
    Balance(AccountId),
    Overflow,
    Plan(ReversalPlan),
}

/// What becomes of a reversal next, as plain values.
pub enum ReversalVerdict {
    Balance(AccountId),
    Overflow,
    Plan { entries: Seq<Entry>, shortfalls: Seq<(UserId, i64)> },
}

impl View for ReversalStep {
    type V = ReversalVerdict;

    open spec fn view(&self) -> ReversalVerdict {
        match self {
            ReversalStep::Balance(account) => ReversalVerdict::Balance(*account),
            ReversalStep::Overflow => ReversalVerdict::Overflow,
            ReversalStep::Plan(plan) => ReversalVerdict::Plan {
                entries: plan.entries@,
                shortfalls: plan.shortfalls@,
            },
        }
    }
}

/// What becomes of a reversal with the cash that is known.
pub open spec fn reversal_step(
    rows: Seq<NetRow>,
    house: AccountId,
    cash: Seq<(AccountId, i64)>,
) -> ReversalVerdict {
    match first_stop(rows, house, cash) {
        Some(Stop::Balance(account)) => ReversalVerdict::Balance(account),
        Some(Stop::Overflow) => ReversalVerdict::Overflow,
        None => if shortfall_overflows(shortfalls_of(rows, house, cash)) {
            ReversalVerdict::Overflow
        } else {
            ReversalVerdict::Plan {
                entries: reversal_legs(rows, house, cash),
                shortfalls: shortfalls_of(rows, house, cash),
            }
        },
    }
}

fn find_cash(cash: &[(AccountId, i64)], account: AccountId) -> (r: Option<i64>)
    ensures
        r == cash_read(cash@, account),
{
    let mut i: usize = 0;
    assert(cash@.skip(0) =~= cash@);
    while i < cash.len()
        invariant
            i <= cash@.len(),
            cash_read(cash@, account) == cash_read(cash@.skip(i as int), account),
        decreases cash.len() - i,
    {
        if cash[i].0 == account {
            return Some(cash[i].1);
        }
        assert(cash@.skip(i as int).skip(1) =~= cash@.skip(i + 1));
        i += 1;
    }
    None
}

/// Adds shortfalls up.
///
/// # Errors
///
/// [`AppError::Overflow`] where the running sum leaves its type.
pub fn shortfall_total(shortfalls: &[(UserId, i64)]) -> (r: Result<i64, AppError>)
    ensures
        if shortfall_overflows(shortfalls@) {
            crate::error::failed(r, Fault::Overflow)
        } else {
            r matches Ok(total) && total == shortfall_sum(shortfalls@)
        },
{
    let mut total: i64 = 0;
    let mut i: usize = 0;
    assert(shortfall_sum(shortfalls@.take(0)) == 0);
    while i < shortfalls.len()
        invariant
            i <= shortfalls@.len(),
            total == shortfall_sum(shortfalls@.take(i as int)),
            forall|k: int|
                0 <= k <= i ==> money::fits(shortfall_sum(#[trigger] shortfalls@.take(k))),
        decreases shortfalls.len() - i,
    {
        assert(shortfalls@.take(i + 1).drop_last() =~= shortfalls@.take(i as int));
        match total.checked_add(shortfalls[i].1) {
            None => {
                assert(!money::fits(shortfall_sum(shortfalls@.take(i + 1))));
                return Err(AppError::Overflow);
            },
            Some(more) => total = more,
        }
        i += 1;
    }
    assert(shortfalls@.take(i as int) =~= shortfalls@);
    Ok(total)
}

/// Plans the reversal of negated rows with the cash that is known.
pub fn plan_reversal(rows: &[NetRow], house: AccountId, cash: &[(AccountId, i64)]) -> (r:
    ReversalStep)
    ensures
        r@ == reversal_step(rows@, house, cash@),
{
    let mut entries: Vec<Entry> = Vec::new();
    let mut shortfalls: Vec<(UserId, i64)> = Vec::new();
    let mut returned: i64 = 0;
    let mut i: usize = 0;
    while i < rows.len()
        invariant
            i <= rows@.len(),
            first_stop(rows@.take(i as int), house, cash@) is None,
            entries@ == account_legs(rows@.take(i as int), house, cash@),
            shortfalls@ == shortfalls_of(rows@.take(i as int), house, cash@),
            returned == house_net(rows@.take(i as int), house),
        decreases rows.len() - i,
    {
        let row = rows[i];
        let ghost upto = rows@.take(i + 1);
        assert(upto.drop_last() =~= rows@.take(i as int));
        i += 1;
        if row.account == house {
            returned = row.amount;
        } else if row.amount != 0 {
            match row.owner {
                OwnerRef::User(user) if row.amount < 0 => {
                    let held: i64 = match find_cash(cash, row.account) {
                        Some(held) => held,
                        None => {
                            proof {
                                lemma_stop_stays(rows@, house, cash@, i as int);
                            }
                            return ReversalStep::Balance(row.account);
                        },
                    };
                    if row.amount == i64::MIN {
                        proof {
                            lemma_stop_stays(rows@, house, cash@, i as int);
                        }
                        return ReversalStep::Overflow;
                    }
                    let debit: i64 = -row.amount;
                    let pay: i64 = if held <= 0 {
                        0
                    } else if debit <= held {
                        debit
                    } else {
                        held
                    };
                    let shortfall: i64 = debit - pay;
                    if pay > 0 {
                        entries.push(Entry { account: row.account, amount: MicroUsd(-pay) });
                    }
                    if shortfall > 0 {
                        shortfalls.push((user, shortfall));
                    }
                },
                _ => {
                    entries.push(Entry { account: row.account, amount: MicroUsd(row.amount) });
                },
            }
        }
    }
    assert(rows@.take(i as int) =~= rows@);
    if returned != 0 {
        entries.push(Entry { account: house, amount: MicroUsd(returned) });
    }
    match shortfall_total(shortfalls.as_slice()) {
        Err(_) => ReversalStep::Overflow,
        Ok(total) => {
            if total > 0 {
                entries.push(Entry { account: house, amount: MicroUsd(-total) });
            }
            ReversalStep::Plan(ReversalPlan { entries, shortfalls })
        },
    }
}

/// What stops the walk over some rows stops it over more of them.
proof fn lemma_stop_stays(rows: Seq<NetRow>, house: AccountId, cash: Seq<(AccountId, i64)>, n: int)
    requires
        0 <= n <= rows.len(),
        first_stop(rows.take(n), house, cash) is Some,
    ensures
        first_stop(rows, house, cash) == first_stop(rows.take(n), house, cash),
    decreases rows.len() - n,
{
    if n < rows.len() {
        assert(rows.take(n + 1).drop_last() =~= rows.take(n));
        lemma_stop_stays(rows, house, cash, n + 1);
    } else {
        assert(rows.take(n) =~= rows);
    }
}

/// What the negative entries of the house carry.
pub open spec fn house_shortfall(entries: Seq<LedgerEntryFacts>) -> int
    decreases entries.len(),
{
    if entries.len() == 0 {
        0
    } else {
        let e = entries.last();
        house_shortfall(entries.drop_last()) + if e.owner == OwnerRef::House && e.amount_micro < 0 {
            if e.amount_micro == i64::MIN {
                i64::MAX as int
            } else {
                -e.amount_micro
            }
        } else {
            0
        }
    }
}

proof fn lemma_house_shortfall_grows(entries: Seq<LedgerEntryFacts>, n: int)
    requires
        0 <= n <= entries.len(),
    ensures
        0 <= house_shortfall(entries.take(n)) <= house_shortfall(entries),
    decreases entries.len() - n, n,
{
    if n < entries.len() {
        assert(entries.take(n + 1).drop_last() =~= entries.take(n));
        lemma_house_shortfall_grows(entries, n + 1);
    } else {
        assert(entries.take(n) =~= entries);
    }
    lemma_house_shortfall_positive(entries.take(n));
}

proof fn lemma_house_shortfall_positive(entries: Seq<LedgerEntryFacts>)
    ensures
        0 <= house_shortfall(entries),
    decreases entries.len(),
{
    if entries.len() > 0 {
        lemma_house_shortfall_positive(entries.drop_last());
    }
}

/// What a reversal's negative house entries record as shortfall; returns of the
/// seed are positive.
#[must_use]
pub fn house_shortfall_micro(entries: &[LedgerEntryFacts]) -> (r: i64)
    requires
        house_shortfall(entries@) <= i64::MAX,
    ensures
        r == house_shortfall(entries@),
{
    let mut total: i64 = 0;
    let mut i: usize = 0;
    while i < entries.len()
        invariant
            i <= entries@.len(),
            0 <= total,
            total == house_shortfall(entries@.take(i as int)),
            house_shortfall(entries@) <= i64::MAX,
        decreases entries.len() - i,
    {
        let e = entries[i];
        proof {
            assert(entries@.take(i + 1).drop_last() =~= entries@.take(i as int));
            lemma_house_shortfall_grows(entries@, i + 1);
        }
        if e.owner == OwnerRef::House && e.amount_micro < 0 {
            let opposite: i64 = if e.amount_micro == i64::MIN {
                i64::MAX
            } else {
                -e.amount_micro
            };
            total = total + opposite;
        }
        i += 1;
    }
    assert(entries@.take(i as int) =~= entries@);
    total
}

/// The sum of the rows' amounts.
spec fn rows_sum(rows: Seq<NetRow>) -> int
    decreases rows.len(),
{
    if rows.len() == 0 {
        0
    } else {
        rows_sum(rows.drop_last()) + rows.last().amount
    }
}

/// The sum of what entries moved on the accounts of the rows.
spec fn moved_on_rows(rows: Seq<NetRow>, entries: Seq<LedgerEntryFacts>) -> int
    decreases rows.len(),
{
    if rows.len() == 0 {
        0
    } else {
        moved_on_rows(rows.drop_last(), entries) + moved(entries, rows.last().account)
    }
}

/// The sum of the rows' amounts on one account.
spec fn row_amount(rows: Seq<NetRow>, account: AccountId) -> int
    decreases rows.len(),
{
    if rows.len() == 0 {
        0
    } else {
        row_amount(rows.drop_last(), account) + if rows.last().account == account {
            rows.last().amount as int
        } else {
            0
        }
    }
}

/// The shortfall on one account.
pub open spec fn short_on(
    rows: Seq<NetRow>,
    house: AccountId,
    cash: Seq<(AccountId, i64)>,
    account: AccountId,
) -> int
    decreases rows.len(),
{
    if rows.len() == 0 {
        0
    } else {
        short_on(rows.drop_last(), house, cash, account) + if rows.last().account == account {
            short_of(rows.last(), house, cash_on(cash, account))
        } else {
            0
        }
    }
}

proof fn lemma_ascend_prefix(rows: Seq<NetRow>)
    requires
        rows_ascend(rows),
        rows.len() > 0,
    ensures
        rows_ascend(rows.drop_last()),
        forall|i: int|
            0 <= i < rows.len() - 1 ==> (#[trigger] rows[i]).account != rows.last().account,
{
    let less = rows.drop_last();
    assert forall|i: int, j: int| 0 <= i < j < less.len() implies (#[trigger] less[i]).account.0
        < (#[trigger] less[j]).account.0 by {
        assert(rows[i].account.0 < rows[j].account.0);
    }
    assert forall|i: int| 0 <= i < rows.len() - 1 implies (#[trigger] rows[i]).account
        != rows.last().account by {
        assert(rows[i].account.0 < rows[rows.len() - 1].account.0);
    }
}

/// An account without a row gets nothing.
proof fn lemma_no_row(
    rows: Seq<NetRow>,
    house: AccountId,
    cash: Seq<(AccountId, i64)>,
    account: AccountId,
)
    requires
        forall|i: int| 0 <= i < rows.len() ==> (#[trigger] rows[i]).account != account,
    ensures
        row_amount(rows, account) == 0,
        short_on(rows, house, cash, account) == 0,
        account == house ==> house_net(rows, account) == 0,
    decreases rows.len(),
{
    if rows.len() > 0 {
        assert(rows.last() == rows[rows.len() - 1]);
        assert forall|i: int| 0 <= i < rows.drop_last().len() implies (
        #[trigger] rows.drop_last()[i]).account != account by {
            assert(rows.drop_last()[i] == rows[i]);
        }
        lemma_no_row(rows.drop_last(), house, cash, account);
    }
}

/// An account with a row gets what the row says.
proof fn lemma_one_row(
    rows: Seq<NetRow>,
    house: AccountId,
    cash: Seq<(AccountId, i64)>,
    at: int,
)
    requires
        rows_ascend(rows),
        0 <= at < rows.len(),
    ensures
        row_amount(rows, rows[at].account) == rows[at].amount,
        short_on(rows, house, cash, rows[at].account) == short_of(
            rows[at],
            house,
            cash_on(cash, rows[at].account),
        ),
        rows[at].account == house ==> house_net(rows, house) == rows[at].amount,
    decreases rows.len(),
{
    lemma_ascend_prefix(rows);
    let less = rows.drop_last();
    if at == rows.len() - 1 {
        assert forall|i: int| 0 <= i < less.len() implies (#[trigger] less[i]).account
            != rows[at].account by {
            assert(less[i] == rows[i]);
        }
        lemma_no_row(less, house, cash, rows[at].account);
    } else {
        assert(less[at] == rows[at]);
        lemma_one_row(less, house, cash, at);
    }
}

/// What the entries on the other accounts move: the opposite of the history,
/// and what was left short.
proof fn lemma_account_legs(
    rows: Seq<NetRow>,
    house: AccountId,
    cash: Seq<(AccountId, i64)>,
    account: AccountId,
)
    requires
        first_stop(rows, house, cash) is None,
    ensures
        ledger::account_delta(account_legs(rows, house, cash), account) == if account == house {
            0
        } else {
            row_amount(rows, account) + short_on(rows, house, cash, account)
        },
    decreases rows.len(),
{
    if rows.len() > 0 {
        let less = rows.drop_last();
        lemma_account_legs(less, house, cash, account);
        let row = rows.last();
        let legs = account_legs(less, house, cash);
        let leg = leg_of(row, house, cash_on(cash, row.account));
        assert(money::fits(leg));
        if leg != 0 {
            let e = Entry { account: row.account, amount: MicroUsd(leg as i64) };
            assert(legs.push(e).drop_last() =~= legs);
        }
    }
}

/// The entries on the other accounts sum to what is moved back there, and what
/// was left short.
proof fn lemma_account_legs_sum(rows: Seq<NetRow>, house: AccountId, cash: Seq<(AccountId, i64)>)
    requires
        rows_ascend(rows),
        first_stop(rows, house, cash) is None,
    ensures
        ledger::entries_sum(account_legs(rows, house, cash)) == rows_sum(rows) - house_net(
            rows,
            house,
        ) + shortfall_sum(shortfalls_of(rows, house, cash)),
        0 <= shortfall_sum(shortfalls_of(rows, house, cash)),
        forall|i: int|
            0 <= i < account_legs(rows, house, cash).len() ==> (#[trigger] account_legs(
                rows,
                house,
                cash,
            )[i]).amount.0 != 0,
    decreases rows.len(),
{
    if rows.len() > 0 {
        let less = rows.drop_last();
        lemma_ascend_prefix(rows);
        lemma_account_legs_sum(less, house, cash);
        let row = rows.last();
        let held = cash_on(cash, row.account);
        let legs = account_legs(less, house, cash);
        let leg = leg_of(row, house, held);
        assert(money::fits(leg));
        if leg != 0 {
            let e = Entry { account: row.account, amount: MicroUsd(leg as i64) };
            assert(legs.push(e).drop_last() =~= legs);
        }
        let list = shortfalls_of(less, house, cash);
        let short = short_of(row, house, held);
        assert(0 <= short <= i64::MAX);
        if short != 0 {
            assert(list.push((row.owner->User_0, short as i64)).drop_last() =~= list);
        }
        if row.account == house {
            assert forall|i: int| 0 <= i < less.len() implies (#[trigger] less[i]).account
                != house by {
                assert(less[i] == rows[i]);
            }
            lemma_no_row(less, house, cash, house);
        }
    }
}

/// Every account that entries touch is counted once by the rows.
proof fn lemma_rows_count_all(rows: Seq<NetRow>, entries: Seq<LedgerEntryFacts>)
    requires
        rows_ascend(rows),
        forall|k: int| 0 <= k < entries.len() ==> has_row(rows, (#[trigger] entries[k]).account),
    ensures
        moved_on_rows(rows, entries) == moved_in_all(entries),
    decreases entries.len(),
{
    if entries.len() > 0 {
        let less = entries.drop_last();
        let e = entries.last();
        assert forall|k: int| 0 <= k < less.len() implies has_row(
            rows,
            (#[trigger] less[k]).account,
        ) by {
            assert(less[k] == entries[k]);
        }
        lemma_rows_count_all(rows, less);
        assert(entries[entries.len() - 1] == e);
        assert(has_row(rows, e.account));
        let at = choose|i: int| 0 <= i < rows.len() && (#[trigger] rows[i]).account == e.account;
        lemma_last_counts_once(rows, entries, at);
    } else {
        lemma_nothing_moved(rows, entries);
    }
}

proof fn lemma_nothing_moved(rows: Seq<NetRow>, entries: Seq<LedgerEntryFacts>)
    requires
        entries.len() == 0,
    ensures
        moved_on_rows(rows, entries) == 0,
    decreases rows.len(),
{
    if rows.len() > 0 {
        lemma_nothing_moved(rows.drop_last(), entries);
    }
}

proof fn lemma_last_not_counted(rows: Seq<NetRow>, entries: Seq<LedgerEntryFacts>)
    requires
        entries.len() > 0,
        forall|i: int|
            0 <= i < rows.len() ==> (#[trigger] rows[i]).account != entries.last().account,
    ensures
        moved_on_rows(rows, entries) == moved_on_rows(rows, entries.drop_last()),
    decreases rows.len(),
{
    if rows.len() > 0 {
        let less = rows.drop_last();
        assert forall|i: int| 0 <= i < less.len() implies (#[trigger] less[i]).account
            != entries.last().account by {
            assert(less[i] == rows[i]);
        }
        assert(rows[rows.len() - 1] == rows.last());
        lemma_last_not_counted(less, entries);
    }
}

proof fn lemma_last_counts_once(rows: Seq<NetRow>, entries: Seq<LedgerEntryFacts>, at: int)
    requires
        rows_ascend(rows),
        entries.len() > 0,
        0 <= at < rows.len(),
        rows[at].account == entries.last().account,
    ensures
        moved_on_rows(rows, entries) == moved_on_rows(rows, entries.drop_last())
            + entries.last().amount_micro,
    decreases rows.len(),
{
    let less = rows.drop_last();
    lemma_ascend_prefix(rows);
    if at == rows.len() - 1 {
        assert forall|i: int| 0 <= i < less.len() implies (#[trigger] less[i]).account
            != entries.last().account by {
            assert(less[i] == rows[i]);
        }
        lemma_last_not_counted(less, entries);
    } else {
        assert(rows[at].account != rows.last().account);
        assert(less[at] == rows[at]);
        lemma_last_counts_once(less, entries, at);
    }
}

proof fn lemma_rows_sum(rows: Seq<NetRow>, entries: Seq<LedgerEntryFacts>)
    requires
        forall|i: int|
            0 <= i < rows.len() ==> (#[trigger] rows[i]).amount == -moved(entries, rows[i].account),
    ensures
        rows_sum(rows) == -moved_on_rows(rows, entries),
    decreases rows.len(),
{
    if rows.len() > 0 {
        let less = rows.drop_last();
        assert forall|i: int| 0 <= i < less.len() implies (#[trigger] less[i]).amount == -moved(
            entries,
            less[i].account,
        ) by {
            assert(less[i] == rows[i]);
        }
        assert(rows[rows.len() - 1] == rows.last());
        lemma_rows_sum(less, entries);
    }
}

/// The reversal of a balanced history is balanced, and none of its entries is
/// zero, whatever the users can pay.
pub proof fn law_reversal_balances(
    originals: Seq<LedgerTxnFacts>,
    rows: Seq<NetRow>,
    house: AccountId,
    cash: Seq<(AccountId, i64)>,
)
    requires
        negates(rows, all_entries(originals)),
        moved_in_all(all_entries(originals)) == 0,
        reversal_step(rows, house, cash) is Plan,
    ensures
        ledger::entries_sum(reversal_legs(rows, house, cash)) == 0,
        !ledger::has_zero_entry(reversal_legs(rows, house, cash)),
{
    let entries = all_entries(originals);
    lemma_rows_count_all(rows, entries);
    lemma_rows_sum(rows, entries);
    lemma_account_legs_sum(rows, house, cash);
    let legs = account_legs(rows, house, cash);
    let returned = house_net(rows, house);
    let short = shortfall_sum(shortfalls_of(rows, house, cash));
    let list = shortfalls_of(rows, house, cash);
    assert(list.take(list.len() as int) =~= list);
    assert(money::fits(short));
    let with_return = if returned != 0 {
        legs.push(Entry { account: house, amount: MicroUsd(returned) })
    } else {
        legs
    };
    if returned != 0 {
        assert(with_return.drop_last() =~= legs);
    }
    assert(ledger::entries_sum(with_return) == ledger::entries_sum(legs) + returned);
    if short > 0 {
        let e = Entry { account: house, amount: MicroUsd((-short) as i64) };
        assert(with_return.push(e).drop_last() =~= with_return);
        assert(ledger::entries_sum(with_return.push(e)) == ledger::entries_sum(with_return) - short);
    }
}

/// The unwind restores: on every account other than the house's, the reversal
/// moves the exact opposite of what the history moved, except for what a user
/// could not pay; the house carries exactly the sum of that.
pub proof fn law_reversal_restores_every_account(
    originals: Seq<LedgerTxnFacts>,
    rows: Seq<NetRow>,
    house: AccountId,
    cash: Seq<(AccountId, i64)>,
    account: AccountId,
)
    requires
        negates(rows, all_entries(originals)),
        reversal_step(rows, house, cash) is Plan,
    ensures
        account != house ==> ledger::account_delta(reversal_legs(rows, house, cash), account)
            == -moved(all_entries(originals), account) + short_on(rows, house, cash, account),
        ledger::account_delta(reversal_legs(rows, house, cash), house) == -moved(
            all_entries(originals),
            house,
        ) - shortfall_sum(shortfalls_of(rows, house, cash)),
{
    let entries = all_entries(originals);
    lemma_delta_by_rows(rows, house, cash, account);
    lemma_delta_by_rows(rows, house, cash, house);
    lemma_row_amount_is_opposite(rows, entries, house, cash, account);
    lemma_row_amount_is_opposite(rows, entries, house, cash, house);
}

/// What the rows say of an account is the opposite of what the history moved.
proof fn lemma_row_amount_is_opposite(
    rows: Seq<NetRow>,
    entries: Seq<LedgerEntryFacts>,
    house: AccountId,
    cash: Seq<(AccountId, i64)>,
    account: AccountId,
)
    requires
        negates(rows, entries),
    ensures
        row_amount(rows, account) == -moved(entries, account),
        account == house ==> house_net(rows, house) == -moved(entries, house),
{
    if has_row(rows, account) {
        let at = choose|i: int| 0 <= i < rows.len() && (#[trigger] rows[i]).account == account;
        lemma_one_row(rows, house, cash, at);
    } else {
        if touches(entries, account) {
            let k = choose|k: int|
                0 <= k < entries.len() && (#[trigger] entries[k]).account == account;
            assert(has_row(rows, entries[k].account));
        }
        lemma_untouched(entries, account);
        assert forall|i: int| 0 <= i < rows.len() implies (#[trigger] rows[i]).account
            != account by {}
        lemma_no_row(rows, house, cash, account);
    }
}

proof fn lemma_delta_by_rows(
    rows: Seq<NetRow>,
    house: AccountId,
    cash: Seq<(AccountId, i64)>,
    account: AccountId,
)
    requires
        rows_ascend(rows),
        reversal_step(rows, house, cash) is Plan,
    ensures
        ledger::account_delta(reversal_legs(rows, house, cash), account) == if account == house {
            house_net(rows, house) - shortfall_sum(shortfalls_of(rows, house, cash))
        } else {
            row_amount(rows, account) + short_on(rows, house, cash, account)
        },
{
    lemma_account_legs(rows, house, cash, account);
    lemma_account_legs_sum(rows, house, cash);
    let legs = account_legs(rows, house, cash);
    let returned = house_net(rows, house);
    let list = shortfalls_of(rows, house, cash);
    let short = shortfall_sum(list);
    assert(list.take(list.len() as int) =~= list);
    assert(money::fits(short));
    let with_return = if returned != 0 {
        legs.push(Entry { account: house, amount: MicroUsd(returned) })
    } else {
        legs
    };
    if returned != 0 {
        assert(with_return.drop_last() =~= legs);
    }
    assert(ledger::account_delta(with_return, account) == ledger::account_delta(legs, account)
        + if account == house {
        returned as int
    } else {
        0
    });
    if short > 0 {
        let e = Entry { account: house, amount: MicroUsd((-short) as i64) };
        assert(with_return.push(e).drop_last() =~= with_return);
        assert(ledger::account_delta(with_return.push(e), account) == ledger::account_delta(
            with_return,
            account,
        ) + if account == house {
            -short
        } else {
            0
        });
    }
}

/// No user is overdrawn: whoever had some cash still has none less than nothing
/// after the reversal.
pub proof fn law_reversal_overdraws_no_user(
    originals: Seq<LedgerTxnFacts>,
    rows: Seq<NetRow>,
    house: AccountId,
    cash: Seq<(AccountId, i64)>,
    at: int,
)
    requires
        negates(rows, all_entries(originals)),
        reversal_step(rows, house, cash) is Plan,
        0 <= at < rows.len(),
        rows[at].owner is User,
        rows[at].account != house,
        cash_on(cash, rows[at].account) >= 0,
    ensures
        cash_on(cash, rows[at].account) + ledger::account_delta(
            reversal_legs(rows, house, cash),
            rows[at].account,
        ) >= 0,
{
    lemma_delta_by_rows(rows, house, cash, rows[at].account);
    lemma_one_row(rows, house, cash, at);
}

/// The reversal records its shortfall: where the house itself gets something
/// back or nothing, the negative house entries of the reversal sum to exactly
/// what the users stayed short of.
pub proof fn law_reversal_records_the_shortfall(
    rows: Seq<NetRow>,
    house: AccountId,
    cash: Seq<(AccountId, i64)>,
    facts: Seq<LedgerEntryFacts>,
)
    requires
        rows_ascend(rows),
        reversal_step(rows, house, cash) is Plan,
        house_net(rows, house) >= 0,
        facts.len() == reversal_legs(rows, house, cash).len(),
        forall|i: int|
            0 <= i < facts.len() ==> (#[trigger] facts[i]).account == reversal_legs(
                rows,
                house,
                cash,
            )[i].account && facts[i].amount_micro == reversal_legs(rows, house, cash)[i].amount.0
                && (facts[i].owner == OwnerRef::House <==> facts[i].account == house),
    ensures
        house_shortfall(facts) == shortfall_sum(shortfalls_of(rows, house, cash)),
{
    lemma_account_legs_sum(rows, house, cash);
    let list = shortfalls_of(rows, house, cash);
    assert(list.take(list.len() as int) =~= list);
    let short = shortfall_sum(list);
    assert(money::fits(short));
    let all = reversal_legs(rows, house, cash);
    let n = account_legs(rows, house, cash).len() as int;
    let legs = account_legs(rows, house, cash);
    assert forall|i: int| 0 <= i < n implies (#[trigger] facts[i]).owner != OwnerRef::House by {
        assert(all[i] == legs[i]);
        lemma_legs_avoid_house(rows, house, cash, i);
    }
    lemma_others_record_nothing(facts, n);
    let m = if house_net(rows, house) != 0 {
        n + 1
    } else {
        n
    };
    if m > n {
        assert(facts.take(m).drop_last() =~= facts.take(n));
        assert(facts.take(m).last() == facts[n]);
        assert(all[n].amount.0 == house_net(rows, house));
    }
    assert(house_shortfall(facts.take(m)) == 0);
    if short > 0 {
        assert(facts.drop_last() =~= facts.take(m));
        assert(facts.last() == facts[m]);
        assert(all[m] == (Entry { account: house, amount: MicroUsd((-short) as i64) }));
    } else {
        assert(facts.take(m) =~= facts);
    }
}

proof fn lemma_legs_avoid_house(
    rows: Seq<NetRow>,
    house: AccountId,
    cash: Seq<(AccountId, i64)>,
    i: int,
)
    requires
        0 <= i < account_legs(rows, house, cash).len(),
    ensures
        account_legs(rows, house, cash)[i].account != house,
    decreases rows.len(),
{
    if rows.len() > 0 {
        let less = rows.drop_last();
        if i < account_legs(less, house, cash).len() {
            lemma_legs_avoid_house(less, house, cash, i);
        }
    }
}

proof fn lemma_others_record_nothing(facts: Seq<LedgerEntryFacts>, n: int)
    requires
        0 <= n <= facts.len(),
        forall|i: int| 0 <= i < n ==> (#[trigger] facts[i]).owner != OwnerRef::House,
    ensures
        house_shortfall(facts.take(n)) == 0,
    decreases n,
{
    if n > 0 {
        assert(facts.take(n).drop_last() =~= facts.take(n - 1));
        assert(facts.take(n).last() == facts[n - 1]);
        lemma_others_record_nothing(facts, n - 1);
    }
}

/// What entries moved is their plain sum, on one account and altogether.
pub proof fn law_moves_are_sums(entries: Seq<LedgerEntryFacts>, account: AccountId)
    ensures
        moved(entries, account) == entries.fold_left(
            0int,
            |sum: int, e: LedgerEntryFacts|
                sum + if e.account == account {
                    e.amount_micro as int
                } else {
                    0
                },
        ),
        moved_in_all(entries) == entries.fold_left(
            0int,
            |sum: int, e: LedgerEntryFacts| sum + e.amount_micro,
        ),
    decreases entries.len(),
{
    reveal_with_fuel(Seq::fold_left, 2);
    if entries.len() > 0 {
        law_moves_are_sums(entries.drop_last(), account);
    }
}

/// An account belongs to whom its first entry names.
pub proof fn law_the_first_entry_names_the_owner(
    entries: Seq<LedgerEntryFacts>,
    e: LedgerEntryFacts,
)
    ensures
        (exists|i: int| 0 <= i < entries.len() && (#[trigger] entries[i]).account == e.account)
            ==> first_owner(entries.push(e), e.account) == first_owner(entries, e.account),
        !(exists|i: int| 0 <= i < entries.len() && (#[trigger] entries[i]).account == e.account)
            ==> first_owner(entries.push(e), e.account) == e.owner,
{
    lemma_push(entries, e, e.account);
}

/// Whoever has to give something back gives all of it where the cash is there,
/// the cash where it is not, and nothing where there is none; what is missing is
/// the shortfall. Everybody else gets exactly what is theirs.
pub proof fn law_what_an_account_gives_back(row: NetRow, house: AccountId, cash: int)
    ensures
        row.account == house ==> leg_of(row, house, cash) == 0 && short_of(row, house, cash) == 0,
        row.account != house && row.amount >= 0 ==> leg_of(row, house, cash) == row.amount
            && short_of(row, house, cash) == 0,
        row.account != house && row.owner !is User ==> leg_of(row, house, cash) == row.amount
            && short_of(row, house, cash) == 0,
        row.account != house && row.owner is User && row.amount < 0 && cash >= -row.amount
            ==> leg_of(row, house, cash) == row.amount && short_of(row, house, cash) == 0,
        row.account != house && row.owner is User && 0 <= cash <= -row.amount ==> leg_of(
            row,
            house,
            cash,
        ) == -cash && short_of(row, house, cash) == -row.amount - cash,
        row.account != house && row.owner is User && row.amount < 0 && cash <= 0 ==> leg_of(
            row,
            house,
            cash,
        ) == 0 && short_of(row, house, cash) == -row.amount,
{
}

/// The reversal goes over the accounts in order: each that moves anything gets one
/// entry, and each user who stays short of anything is listed with it.
pub proof fn law_reversals_go_account_by_account(
    rows: Seq<NetRow>,
    row: NetRow,
    house: AccountId,
    cash: Seq<(AccountId, i64)>,
)
    ensures
        ({
            let leg = leg_of(row, house, cash_on(cash, row.account));
            let short = short_of(row, house, cash_on(cash, row.account));
            &&& leg == 0 ==> account_legs(rows.push(row), house, cash) == account_legs(
                rows,
                house,
                cash,
            )
            &&& leg != 0 ==> account_legs(rows.push(row), house, cash) == account_legs(
                rows,
                house,
                cash,
            ).push(Entry { account: row.account, amount: MicroUsd(leg as i64) })
            &&& short == 0 ==> shortfalls_of(rows.push(row), house, cash) == shortfalls_of(
                rows,
                house,
                cash,
            )
            &&& short != 0 ==> shortfalls_of(rows.push(row), house, cash) == shortfalls_of(
                rows,
                house,
                cash,
            ).push((row.owner->User_0, short as i64))
            &&& row.account == house ==> house_net(rows.push(row), house) == row.amount
            &&& row.account != house ==> house_net(rows.push(row), house) == house_net(rows, house)
        }),
        account_legs(Seq::empty(), house, cash) == Seq::<Entry>::empty(),
        house_net(Seq::empty(), house) == 0,
{
    assert(rows.push(row).drop_last() =~= rows);
}

/// The cash of an account is what was read for it first.
pub proof fn law_cash_is_what_was_read(
    before: Seq<(AccountId, i64)>,
    account: AccountId,
    amount: i64,
    after: Seq<(AccountId, i64)>,
)
    requires
        forall|i: int| 0 <= i < before.len() ==> (#[trigger] before[i]).0 != account,
    ensures
        cash_on(before + seq![(account, amount)] + after, account) == amount,
        cash_on(before, account) == 0,
    decreases before.len(),
{
    let all = before + seq![(account, amount)] + after;
    if before.len() > 0 {
        let less = before.skip(1);
        assert forall|i: int| 0 <= i < less.len() implies (#[trigger] less[i]).0 != account by {
            assert(less[i] == before[i + 1]);
        }
        assert(all.skip(1) =~= less + seq![(account, amount)] + after);
        assert(all[0] == before[0]);
        law_cash_is_what_was_read(less, account, amount, after);
    } else {
        assert(all[0] == (account, amount));
    }
}

/// The house gets its own back, and carries what the users stayed short of, as
/// entries of their own behind the accounts'.
pub proof fn law_the_house_carries_the_shortfall(
    rows: Seq<NetRow>,
    house: AccountId,
    cash: Seq<(AccountId, i64)>,
)
    requires
        reversal_step(rows, house, cash) is Plan,
    ensures
        ({
            let legs = account_legs(rows, house, cash);
            let all = reversal_legs(rows, house, cash);
            let returned = house_net(rows, house);
            let short = shortfalls_of(rows, house, cash).fold_left(
                0int,
                |sum: int, s: (UserId, i64)| sum + s.1,
            );
            &&& returned != 0 ==> all[legs.len() as int].account == house && all[legs.len() as int]
                .amount.0 == returned
            &&& short > 0 ==> all.last().account == house && all.last().amount.0 == -short
            &&& all.len() == legs.len() + (if returned != 0 {
                1int
            } else {
                0
            }) + (if short > 0 {
                1int
            } else {
                0
            })
            &&& all.take(legs.len() as int) == legs
        }),
{
    let list = shortfalls_of(rows, house, cash);
    lemma_shortfalls_fold(list);
    assert(list.take(list.len() as int) =~= list);
    assert(money::fits(shortfall_sum(list)));
    let legs = account_legs(rows, house, cash);
    assert(reversal_legs(rows, house, cash).take(legs.len() as int) =~= legs);
}

proof fn lemma_shortfalls_fold(shortfalls: Seq<(UserId, i64)>)
    ensures
        shortfall_sum(shortfalls) == shortfalls.fold_left(
            0int,
            |sum: int, s: (UserId, i64)| sum + s.1,
        ),
    decreases shortfalls.len(),
{
    reveal_with_fuel(Seq::fold_left, 2);
    if shortfalls.len() > 0 {
        lemma_shortfalls_fold(shortfalls.drop_last());
    }
}

/// The total of shortfalls is their plain sum.
pub proof fn law_shortfalls_are_summed(shortfalls: Seq<(UserId, i64)>)
    ensures
        shortfall_sum(shortfalls) == shortfalls.fold_left(
            0int,
            |sum: int, s: (UserId, i64)| sum + s.1,
        ),
{
    lemma_shortfalls_fold(shortfalls);
}

/// What the house carries is what its own negative entries sum to: entries of
/// others, and what the house gets, count for nothing.
pub proof fn law_the_house_carries_its_negative_entries(
    entries: Seq<LedgerEntryFacts>,
    e: LedgerEntryFacts,
)
    requires
        e.amount_micro > i64::MIN,
    ensures
        house_shortfall(entries.push(e)) == house_shortfall(entries) + (if e.owner == OwnerRef::House
            && e.amount_micro < 0 {
            -e.amount_micro
        } else {
            0
        }),
        house_shortfall(Seq::empty()) == 0,
{
    assert(entries.push(e).drop_last() =~= entries);
}

/// A history is negated wherever it holds no reversal and every running sum has an
/// opposite.
pub proof fn law_which_histories_are_negated(originals: Seq<LedgerTxnFacts>)
    requires
        forall|i: int|
            0 <= i < originals.len() ==> (#[trigger] originals[i]).kind != TxnKind::Reversal,
        forall|k: int|
            0 < k <= all_entries(originals).len() ==> i64::MIN < moved(
                #[trigger] all_entries(originals).take(k),
                all_entries(originals)[k - 1].account,
            ) <= i64::MAX,
    ensures
        netting_fault(originals) is None,
    decreases originals.len(),
{
    if originals.len() > 0 {
        let head = originals.drop_last();
        let all = all_entries(originals);
        let some = all_entries(head);
        assert forall|i: int| 0 <= i < head.len() implies (#[trigger] head[i]).kind
            != TxnKind::Reversal by {
            assert(head[i] == originals[i]);
        }
        assert forall|k: int| 0 < k <= some.len() implies i64::MIN < moved(
            #[trigger] some.take(k),
            some[k - 1].account,
        ) <= i64::MAX by {
            assert(some.take(k) =~= all.take(k));
            assert(some[k - 1] == all[k - 1]);
        }
        law_which_histories_are_negated(head);
        assert(originals.last() == originals[originals.len() - 1]);
        if overflows_after(all, some.len() as int) {
            let k = choose|k: int|
                some.len() < k <= all.len() && !money::fits(
                    -moved(#[trigger] all.take(k), all[k - 1].account),
                );
            assert(i64::MIN < moved(all.take(k), all[k - 1].account) <= i64::MAX);
        }
    }
}

} // verus!
