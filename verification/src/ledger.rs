//! Double-entry ledger: balanced transactions and the balances they move.

use crate::money::MicroUsd;
use vstd::prelude::*;

verus! {

/// Identity of one ledger account, as the 128 bits of its UUID.
#[derive(Debug, Clone, Copy, PartialEq, Eq, PartialOrd, Ord, Hash, Structural)]
pub struct AccountId(pub u128);

/// Who owns an account. `External` is the contra class representing the
/// outside world: exactly one External account exists per currency, and it is
/// the only class allowed to go negative (its negative balance equals net
/// system inflow of that currency).
#[derive(Debug, Clone, Copy, PartialEq, Eq, Hash, Structural)]
pub enum OwnerType {
    User,
    Pool,
    Fees,
    House,
    Escrow,
    External,
    /// Queued withdrawal cash. Singleton per currency.
    Withheld,
    /// Observed but not yet admitted deposits. Singleton per currency.
    DepositSuspense,
    /// Pre-funded bonus-conversion reserve. Singleton per currency.
    BonusReserve,
}

/// Cash and non-withdrawable bonus credits never mix inside one transaction.
#[derive(Debug, Clone, Copy, PartialEq, Eq, Hash, Structural)]
pub enum Currency {
    Usdc,
    UsdcCredit,
}

/// One signed, nonzero movement on an account.
#[derive(Debug, Clone, Copy, PartialEq, Eq, Structural)]
pub struct Entry {
    pub account: AccountId,
    pub amount: MicroUsd,
}

/// Business meaning of a transaction.
#[derive(Debug, Clone, Copy, PartialEq, Eq, Structural)]
pub enum TxnKind {
    Deposit,
    Trade,
    Payout,
    Withdrawal,
    Seed,
    Reversal,
    CreditGrant,
    CreditConvert,
}

/// Why a transaction or an account was refused.
#[derive(Debug, Clone, Copy, PartialEq, Eq, Structural)]
pub enum LedgerError {
    /// The entries do not sum to zero.
    Unbalanced { sum_micro: i128 },
    /// The entries of one currency do not sum to zero.
    UnbalancedCurrency { currency: Currency, sum_micro: i128 },
    /// A transaction needs at least two entries.
    TooFewEntries,
    /// Zero-amount entries are not allowed.
    ZeroEntry,
    /// An internal account would go below zero.
    InsufficientFunds { account: AccountId },
    /// An entry references an account that was never opened.
    UnknownAccount,
    /// An External account already exists for the currency.
    DuplicateExternal { currency: Currency },
    /// An account of this singleton class already exists for the currency.
    DuplicateSingleton { owner: OwnerType, currency: Currency },
    /// A balance does not fit its type.
    Overflow,
}

/// The sum of all entry amounts.
pub open spec fn entries_sum(entries: Seq<Entry>) -> int
    decreases entries.len(),
{
    if entries.len() == 0 {
        0
    } else {
        entries_sum(entries.drop_last()) + entries.last().amount.0
    }
}

/// What the entries move on one account, duplicate entries summed.
pub open spec fn account_delta(entries: Seq<Entry>, account: AccountId) -> int
    decreases entries.len(),
{
    if entries.len() == 0 {
        0
    } else {
        account_delta(entries.drop_last(), account) + if entries.last().account == account {
            entries.last().amount.0 as int
        } else {
            0
        }
    }
}

/// Some entry has amount zero.
pub open spec fn has_zero_entry(entries: Seq<Entry>) -> bool {
    exists|i: int| 0 <= i < entries.len() && (#[trigger] entries[i]).amount.0 == 0
}

/// What constructing a transaction from `entries` is refused for, if anything.
pub open spec fn transaction_error(entries: Seq<Entry>) -> Option<LedgerError> {
    if entries.len() < 2 {
        Some(LedgerError::TooFewEntries)
    } else if has_zero_entry(entries) {
        Some(LedgerError::ZeroEntry)
    } else if entries_sum(entries) != 0 {
        Some(LedgerError::Unbalanced { sum_micro: entries_sum(entries) as i128 })
    } else {
        None
    }
}

/// A structurally valid double-entry transaction: at least two entries, all
/// nonzero, overall sum exactly zero. The stronger per-currency validation
/// lives in [`Balances::apply`], which knows each account's currency.
#[derive(Debug, Clone, PartialEq, Eq)]
pub struct Transaction {
    kind: TxnKind,
    entries: Vec<Entry>,
}

impl Transaction {
    /// The business meaning.
    pub closed spec fn meaning(&self) -> TxnKind {
        self.kind
    }

    /// The entries, in order.
    pub closed spec fn legs(&self) -> Seq<Entry> {
        self.entries@
    }

    /// The entries are those of a valid transaction.
    pub open spec fn wf(&self) -> bool {
        transaction_error(self.legs()) is None
    }

    /// # Errors
    ///
    /// [`LedgerError::TooFewEntries`] for fewer than two entries,
    /// [`LedgerError::ZeroEntry`] if any entry amount is zero, and
    /// [`LedgerError::Unbalanced`] if all entries do not sum to exactly zero.
    pub fn new(kind: TxnKind, entries: Vec<Entry>) -> (r: Result<Self, LedgerError>)
        ensures
            match transaction_error(entries@) {
                Some(e) => r == Err::<Transaction, LedgerError>(e),
                None => r matches Ok(txn) && txn.meaning() == kind && txn.legs() == entries@
                    && txn.wf(),
            },
    {
        if entries.len() < 2 {
            return Err(LedgerError::TooFewEntries);
        }
        let mut i: usize = 0;
        while i < entries.len()
            invariant
                i <= entries.len(),
                entries.len() >= 2,
                forall|j: int| 0 <= j < i ==> (#[trigger] entries[j]).amount.0 != 0,
            decreases entries.len() - i,
        {
            if entries[i].amount.0 == 0 {
                assert(has_zero_entry(entries@));
                return Err(LedgerError::ZeroEntry);
            }
            i += 1;
        }
        let mut sum: i128 = 0;
        let mut k: usize = 0;
        while k < entries.len()
            invariant
                k <= entries.len(),
                sum == entries_sum(entries@.take(k as int)),
                -9_223_372_036_854_775_808 * k <= sum <= 9_223_372_036_854_775_807 * k,
            decreases entries.len() - k,
        {
            assert(entries@.take(k + 1).drop_last() =~= entries@.take(k as int));
            sum += entries[k].amount.0 as i128;
            k += 1;
        }
        assert(entries@.take(k as int) =~= entries@);
        if sum != 0 {
            return Err(LedgerError::Unbalanced { sum_micro: sum });
        }
        Ok(Self { kind, entries })
    }

    #[must_use]
    pub fn kind(&self) -> (r: TxnKind)
        ensures
            r == self.meaning(),
    {
        self.kind
    }

    #[must_use]
    pub fn entries(&self) -> (r: &[Entry])
        ensures
            r@ == self.legs(),
    {
        self.entries.as_slice()
    }
}

/// One open account.
#[derive(Debug, Clone, Copy, PartialEq, Eq, Structural)]
pub struct Account {
    pub id: AccountId,
    pub owner: OwnerType,
    pub currency: Currency,
    pub balance: i64,
}

/// The account of this identity, if it is open.
pub open spec fn lookup(accounts: Seq<Account>, id: AccountId) -> Option<Account>
    decreases accounts.len(),
{
    if accounts.len() == 0 {
        None
    } else if accounts.last().id == id {
        Some(accounts.last())
    } else {
        lookup(accounts.drop_last(), id)
    }
}

/// The summed balances of the accounts that satisfy `p`.
pub open spec fn sum_where(accounts: Seq<Account>, p: spec_fn(Account) -> bool) -> int
    decreases accounts.len(),
{
    if accounts.len() == 0 {
        0
    } else {
        sum_where(accounts.drop_last(), p) + if p(accounts.last()) {
            accounts.last().balance as int
        } else {
            0
        }
    }
}

/// The summed balances of every account of `currency`, External included.
pub open spec fn currency_total(accounts: Seq<Account>, currency: Currency) -> int {
    sum_where(accounts, |a: Account| a.currency == currency)
}

/// The summed balances of the internal accounts of `currency`.
pub open spec fn internal_sum(accounts: Seq<Account>, currency: Currency) -> int {
    sum_where(accounts, |a: Account| a.currency == currency && a.owner != OwnerType::External)
}

/// Some account of this class and currency is open.
pub open spec fn has_owner(accounts: Seq<Account>, owner: OwnerType, currency: Currency) -> bool {
    exists|i: int|
        0 <= i < accounts.len() && (#[trigger] accounts[i]).owner == owner && accounts[i].currency
            == currency
}

/// The classes that hold money in flight, one account per currency each.
pub open spec fn money_singleton(owner: OwnerType) -> bool {
    owner == OwnerType::Withheld || owner == OwnerType::DepositSuspense || owner
        == OwnerType::BonusReserve
}

/// Every entry references an open account.
pub open spec fn all_known(accounts: Seq<Account>, entries: Seq<Entry>) -> bool {
    forall|i: int|
        0 <= i < entries.len() ==> lookup(accounts, (#[trigger] entries[i]).account) is Some
}

/// The sum of the entries on accounts of `currency`.
pub open spec fn currency_delta(
    accounts: Seq<Account>,
    entries: Seq<Entry>,
    currency: Currency,
) -> int
    decreases entries.len(),
{
    if entries.len() == 0 {
        0
    } else {
        currency_delta(accounts, entries.drop_last(), currency) + match lookup(
            accounts,
            entries.last().account,
        ) {
            Some(a) => if a.currency == currency {
                entries.last().amount.0 as int
            } else {
                0
            },
            None => 0,
        }
    }
}

/// The balance of `account` after `entries`.
pub open spec fn post_balance(account: Account, entries: Seq<Entry>) -> int {
    account.balance + account_delta(entries, account.id)
}

/// Why `entries` cannot be posted to `account`, if they cannot.
pub open spec fn post_error(account: Account, entries: Seq<Entry>) -> Option<LedgerError> {
    if !(i64::MIN <= post_balance(account, entries) <= i64::MAX) {
        Some(LedgerError::Overflow)
    } else if post_balance(account, entries) < 0 && account.owner != OwnerType::External {
        Some(LedgerError::InsufficientFunds { account: account.id })
    } else {
        None
    }
}

/// The refusal of the first of the first `n` entries whose account cannot take
/// the whole transaction, if there is one.
pub open spec fn first_post_error(
    accounts: Seq<Account>,
    entries: Seq<Entry>,
    n: nat,
) -> Option<LedgerError>
    decreases n,
{
    if n == 0 {
        None
    } else {
        match first_post_error(accounts, entries, (n - 1) as nat) {
            Some(e) => Some(e),
            None => match lookup(accounts, entries[n - 1].account) {
                Some(a) => post_error(a, entries),
                None => None,
            },
        }
    }
}

/// Why a transaction with these entries is refused, if it is: an unknown
/// account before an unbalanced currency (cash named first) before the first
/// account that cannot take its part.
pub open spec fn apply_error(accounts: Seq<Account>, entries: Seq<Entry>) -> Option<LedgerError> {
    if !all_known(accounts, entries) {
        Some(LedgerError::UnknownAccount)
    } else if currency_delta(accounts, entries, Currency::Usdc) != 0 {
        Some(
            LedgerError::UnbalancedCurrency {
                currency: Currency::Usdc,
                sum_micro: currency_delta(accounts, entries, Currency::Usdc) as i128,
            },
        )
    } else if currency_delta(accounts, entries, Currency::UsdcCredit) != 0 {
        Some(
            LedgerError::UnbalancedCurrency {
                currency: Currency::UsdcCredit,
                sum_micro: currency_delta(accounts, entries, Currency::UsdcCredit) as i128,
            },
        )
    } else {
        first_post_error(accounts, entries, entries.len())
    }
}

/// The accounts with every entry posted.
pub open spec fn posted(accounts: Seq<Account>, entries: Seq<Entry>) -> Seq<Account> {
    Seq::new(
        accounts.len(),
        |i: int| Account { balance: post_balance(accounts[i], entries) as i64, ..accounts[i] },
    )
}

/// No two open accounts share an identity.
pub open spec fn distinct_ids(accounts: Seq<Account>) -> bool {
    forall|i: int, j: int|
        0 <= i < j < accounts.len() ==> (#[trigger] accounts[i]).id != (#[trigger] accounts[j]).id
}

/// At most one External account and one account of each singleton class is
/// open per currency.
pub open spec fn one_of_each(accounts: Seq<Account>) -> bool {
    forall|i: int, j: int|
        0 <= i < j < accounts.len() && (#[trigger] accounts[i]).owner == (
        #[trigger] accounts[j]).owner && accounts[i].currency == accounts[j].currency ==> (
        accounts[i].owner != OwnerType::External && !money_singleton(accounts[i].owner))
}

/// No internal account is negative.
pub open spec fn internal_non_negative(accounts: Seq<Account>) -> bool {
    forall|i: int|
        0 <= i < accounts.len() && (#[trigger] accounts[i]).owner != OwnerType::External
            ==> accounts[i].balance >= 0
}

/// What holds of every set of balances that opening and applying can reach.
pub open spec fn ledger_invariant(accounts: Seq<Account>) -> bool {
    &&& distinct_ids(accounts)
    &&& one_of_each(accounts)
    &&& internal_non_negative(accounts)
    &&& currency_total(accounts, Currency::Usdc) == 0
    &&& currency_total(accounts, Currency::UsdcCredit) == 0
}

proof fn lemma_lookup_index(accounts: Seq<Account>, i: int)
    requires
        distinct_ids(accounts),
        0 <= i < accounts.len(),
    ensures
        lookup(accounts, accounts[i].id) == Some(accounts[i]),
    decreases accounts.len(),
{
    if i < accounts.len() - 1 {
        assert(accounts.drop_last()[i] == accounts[i]);
        assert(accounts.last() == accounts[accounts.len() - 1]);
        lemma_lookup_index(accounts.drop_last(), i);
    }
}

proof fn lemma_lookup_some(accounts: Seq<Account>, id: AccountId) -> (i: int)
    requires
        lookup(accounts, id) is Some,
    ensures
        0 <= i < accounts.len(),
        accounts[i].id == id,
        lookup(accounts, id) == Some(accounts[i]),
    decreases accounts.len(),
{
    if accounts.last().id == id {
        accounts.len() - 1
    } else {
        let i = lemma_lookup_some(accounts.drop_last(), id);
        assert(accounts.drop_last()[i] == accounts[i]);
        i
    }
}

proof fn lemma_lookup_none(accounts: Seq<Account>, id: AccountId)
    requires
        forall|i: int| 0 <= i < accounts.len() ==> (#[trigger] accounts[i]).id != id,
    ensures
        lookup(accounts, id) is None,
    decreases accounts.len(),
{
    if accounts.len() > 0 {
        assert(accounts.last() == accounts[accounts.len() - 1]);
        assert forall|i: int| 0 <= i < accounts.drop_last().len() implies (
        #[trigger] accounts.drop_last()[i]).id != id by {
            assert(accounts.drop_last()[i] == accounts[i]);
        }
        lemma_lookup_none(accounts.drop_last(), id);
    }
}

/// Entries that never touch an account leave its delta at zero.
proof fn lemma_untouched(entries: Seq<Entry>, account: AccountId)
    requires
        forall|i: int| 0 <= i < entries.len() ==> (#[trigger] entries[i]).account != account,
    ensures
        account_delta(entries, account) == 0,
    decreases entries.len(),
{
    if entries.len() > 0 {
        assert(entries.last() == entries[entries.len() - 1]);
        assert forall|i: int| 0 <= i < entries.drop_last().len() implies (
        #[trigger] entries.drop_last()[i]).account != account by {
            assert(entries.drop_last()[i] == entries[i]);
        }
        lemma_untouched(entries.drop_last(), account);
    }
}

/// The summed deltas over the accounts of `currency`.
spec fn delta_sum(accounts: Seq<Account>, entries: Seq<Entry>, currency: Currency) -> int
    decreases accounts.len(),
{
    if accounts.len() == 0 {
        0
    } else {
        delta_sum(accounts.drop_last(), entries, currency) + if accounts.last().currency
            == currency {
            account_delta(entries, accounts.last().id)
        } else {
            0
        }
    }
}

/// One more entry moves the summed deltas of its account's currency alone.
proof fn lemma_delta_sum_step(accounts: Seq<Account>, entries: Seq<Entry>, currency: Currency)
    requires
        distinct_ids(accounts),
        entries.len() > 0,
    ensures
        delta_sum(accounts, entries, currency) == delta_sum(
            accounts,
            entries.drop_last(),
            currency,
        ) + match lookup(accounts, entries.last().account) {
            Some(a) => if a.currency == currency {
                entries.last().amount.0 as int
            } else {
                0
            },
            None => 0,
        },
    decreases accounts.len(),
{
    if accounts.len() > 0 {
        let head = accounts.drop_last();
        assert(accounts.last() == accounts[accounts.len() - 1]);
        assert forall|i: int| 0 <= i < head.len() implies head[i] == accounts[i] by {}
        lemma_delta_sum_step(head, entries, currency);
        if accounts.last().id == entries.last().account {
            assert forall|i: int| 0 <= i < head.len() implies (#[trigger] head[i]).id
                != entries.last().account by {
                assert(head[i] == accounts[i]);
            }
            lemma_lookup_none(head, entries.last().account);
        }
    }
}

/// Summing deltas account by account is summing entries by currency.
proof fn lemma_delta_sum(accounts: Seq<Account>, entries: Seq<Entry>, currency: Currency)
    requires
        distinct_ids(accounts),
    ensures
        delta_sum(accounts, entries, currency) == currency_delta(accounts, entries, currency),
    decreases entries.len(),
{
    if entries.len() == 0 {
        lemma_delta_sum_empty(accounts, entries, currency);
    } else {
        lemma_delta_sum_step(accounts, entries, currency);
        lemma_delta_sum(accounts, entries.drop_last(), currency);
    }
}

proof fn lemma_delta_sum_empty(accounts: Seq<Account>, entries: Seq<Entry>, currency: Currency)
    requires
        entries.len() == 0,
    ensures
        delta_sum(accounts, entries, currency) == 0,
    decreases accounts.len(),
{
    if accounts.len() > 0 {
        lemma_delta_sum_empty(accounts.drop_last(), entries, currency);
    }
}

/// Posting adds the summed deltas to the total.
proof fn lemma_posted_total(accounts: Seq<Account>, entries: Seq<Entry>, currency: Currency)
    requires
        forall|i: int|
            0 <= i < accounts.len() ==> i64::MIN <= post_balance(#[trigger] accounts[i], entries)
                <= i64::MAX,
    ensures
        currency_total(posted(accounts, entries), currency) == currency_total(accounts, currency)
            + delta_sum(accounts, entries, currency),
    decreases accounts.len(),
{
    if accounts.len() > 0 {
        let head = accounts.drop_last();
        assert(posted(accounts, entries).drop_last() =~= posted(head, entries));
        assert forall|i: int| 0 <= i < head.len() implies i64::MIN <= post_balance(
            #[trigger] head[i],
            entries,
        ) <= i64::MAX by {
            assert(head[i] == accounts[i]);
        }
        assert(accounts.last() == accounts[accounts.len() - 1]);
        lemma_posted_total(head, entries, currency);
    }
}

/// A clean scan means that every touched account can take its part.
proof fn lemma_scan_clean(accounts: Seq<Account>, entries: Seq<Entry>, n: nat, k: int)
    requires
        first_post_error(accounts, entries, n) is None,
        0 <= k < n <= entries.len(),
        lookup(accounts, entries[k].account) is Some,
    ensures
        post_error(lookup(accounts, entries[k].account).unwrap(), entries) is None,
    decreases n,
{
    if k < n - 1 {
        lemma_scan_clean(accounts, entries, (n - 1) as nat, k);
    }
}

/// A clean scan means that every account at all can take its part.
proof fn lemma_all_post(accounts: Seq<Account>, entries: Seq<Entry>)
    requires
        ledger_invariant(accounts),
        apply_error(accounts, entries) is None,
    ensures
        forall|i: int|
            0 <= i < accounts.len() ==> post_error(#[trigger] accounts[i], entries) is None,
{
    assert forall|i: int| 0 <= i < accounts.len() implies post_error(
        #[trigger] accounts[i],
        entries,
    ) is None by {
        let id = accounts[i].id;
        lemma_lookup_index(accounts, i);
        if exists|k: int| 0 <= k < entries.len() && (#[trigger] entries[k]).account == id {
            let k = choose|k: int| 0 <= k < entries.len() && (#[trigger] entries[k]).account == id;
            lemma_scan_clean(accounts, entries, entries.len(), k);
        } else {
            lemma_untouched(entries, id);
        }
    }
}

/// An accepted transaction keeps the ledger's invariant: identities and
/// classes stay, no internal account goes negative, and in each currency
/// everything still sums to zero.
proof fn lemma_posted_keeps_invariant(accounts: Seq<Account>, entries: Seq<Entry>)
    requires
        ledger_invariant(accounts),
        apply_error(accounts, entries) is None,
    ensures
        ledger_invariant(posted(accounts, entries)),
{
    let after = posted(accounts, entries);
    lemma_all_post(accounts, entries);
    lemma_posted_total(accounts, entries, Currency::Usdc);
    lemma_posted_total(accounts, entries, Currency::UsdcCredit);
    lemma_delta_sum(accounts, entries, Currency::Usdc);
    lemma_delta_sum(accounts, entries, Currency::UsdcCredit);
    assert forall|i: int, j: int| 0 <= i < j < after.len() implies (#[trigger] after[i]).id != (
    #[trigger] after[j]).id by {
        assert(accounts[i].id != accounts[j].id);
    }
    assert forall|i: int, j: int|
        0 <= i < j < after.len() && (#[trigger] after[i]).owner == (#[trigger] after[j]).owner
            && after[i].currency == after[j].currency implies after[i].owner != OwnerType::External
        && !money_singleton(after[i].owner) by {
        assert(accounts[i].owner == accounts[j].owner);
    }
    assert forall|i: int|
        0 <= i < after.len() && (#[trigger] after[i]).owner != OwnerType::External implies after[
        i].balance >= 0 by {
        assert(post_error(accounts[i], entries) is None);
    }
}

/// The total over one currency splits into internal and External parts.
proof fn lemma_total_splits(accounts: Seq<Account>, currency: Currency)
    ensures
        currency_total(accounts, currency) == internal_sum(accounts, currency) + sum_where(
            accounts,
            |a: Account| a.currency == currency && a.owner == OwnerType::External,
        ),
    decreases accounts.len(),
{
    if accounts.len() > 0 {
        lemma_total_splits(accounts.drop_last(), currency);
    }
}

/// With no account that satisfies `p`, the sum is zero.
proof fn lemma_sum_of_none(accounts: Seq<Account>, p: spec_fn(Account) -> bool)
    requires
        forall|i: int| 0 <= i < accounts.len() ==> !p(#[trigger] accounts[i]),
    ensures
        sum_where(accounts, p) == 0,
    decreases accounts.len(),
{
    if accounts.len() > 0 {
        assert(accounts.last() == accounts[accounts.len() - 1]);
        assert forall|i: int| 0 <= i < accounts.drop_last().len() implies !p(
            #[trigger] accounts.drop_last()[i],
        ) by {
            assert(accounts.drop_last()[i] == accounts[i]);
        }
        lemma_sum_of_none(accounts.drop_last(), p);
    }
}

/// With one account that satisfies `p`, the sum is its balance.
proof fn lemma_sum_of_one(accounts: Seq<Account>, p: spec_fn(Account) -> bool, k: int)
    requires
        0 <= k < accounts.len(),
        p(accounts[k]),
        forall|i: int| 0 <= i < accounts.len() && i != k ==> !p(#[trigger] accounts[i]),
    ensures
        sum_where(accounts, p) == accounts[k].balance,
    decreases accounts.len(),
{
    let head = accounts.drop_last();
    assert(accounts.last() == accounts[accounts.len() - 1]);
    assert forall|i: int| 0 <= i < head.len() && i != k implies !p(#[trigger] head[i]) by {
        assert(head[i] == accounts[i]);
    }
    if k == accounts.len() - 1 {
        lemma_sum_of_none(head, p);
    } else {
        assert(head[k] == accounts[k]);
        lemma_sum_of_one(head, p, k);
    }
}

/// Conservation: in every reachable ledger the internal accounts of a currency
/// hold exactly what its External account is down, and nothing at all where no
/// External account is open.
pub proof fn law_internal_mirrors_external(accounts: Seq<Account>, currency: Currency)
    requires
        ledger_invariant(accounts),
    ensures
        forall|k: int|
            0 <= k < accounts.len() && (#[trigger] accounts[k]).owner == OwnerType::External
                && accounts[k].currency == currency ==> internal_sum(accounts, currency)
                == -accounts[k].balance,
        !has_owner(accounts, OwnerType::External, currency) ==> internal_sum(accounts, currency)
            == 0,
{
    let p = |a: Account| a.currency == currency && a.owner == OwnerType::External;
    lemma_total_splits(accounts, currency);
    assert(currency_total(accounts, currency) == 0);
    assert forall|k: int|
        0 <= k < accounts.len() && (#[trigger] accounts[k]).owner == OwnerType::External
            && accounts[k].currency == currency implies internal_sum(accounts, currency)
        == -accounts[k].balance by {
        assert forall|i: int| 0 <= i < accounts.len() && i != k implies !p(
            #[trigger] accounts[i],
        ) by {
            if i < k {
                assert(accounts[i].owner == accounts[k].owner ==> accounts[i].currency
                    != accounts[k].currency);
            } else {
                assert(accounts[k].owner == accounts[i].owner ==> accounts[k].currency
                    != accounts[i].currency);
            }
        }
        lemma_sum_of_one(accounts, p, k);
    }
    if !has_owner(accounts, OwnerType::External, currency) {
        lemma_sum_of_none(accounts, p);
    }
}

/// Reversing a transaction restores every balance: entries of opposite amounts
/// on the same accounts undo what the first posting did.
pub proof fn law_opposite_entries_undo(accounts: Seq<Account>, entries: Seq<Entry>, back: Seq<Entry>)
    requires
        ledger_invariant(accounts),
        apply_error(accounts, entries) is None,
        back.len() == entries.len(),
        forall|i: int|
            0 <= i < entries.len() ==> (#[trigger] back[i]).account == entries[i].account
                && back[i].amount.0 == -entries[i].amount.0,
    ensures
        posted(posted(accounts, entries), back) == accounts,
{
    lemma_all_post(accounts, entries);
    let mid = posted(accounts, entries);
    assert forall|i: int| 0 <= i < accounts.len() implies #[trigger] posted(mid, back)[i]
        == accounts[i] by {
        assert(post_error(accounts[i], entries) is None);
        lemma_opposite_delta(entries, back, accounts[i].id);
    }
    assert(posted(mid, back) =~= accounts);
}

proof fn lemma_opposite_delta(entries: Seq<Entry>, back: Seq<Entry>, id: AccountId)
    requires
        back.len() == entries.len(),
        forall|i: int|
            0 <= i < entries.len() ==> (#[trigger] back[i]).account == entries[i].account
                && back[i].amount.0 == -entries[i].amount.0,
    ensures
        account_delta(back, id) == -account_delta(entries, id),
    decreases entries.len(),
{
    if entries.len() > 0 {
        let e = entries.drop_last();
        let b = back.drop_last();
        assert forall|i: int| 0 <= i < e.len() implies (#[trigger] b[i]).account == e[i].account
            && b[i].amount.0 == -e[i].amount.0 by {
            assert(b[i] == back[i]);
        }
        assert(back.last() == back[back.len() - 1]);
        lemma_opposite_delta(e, b, id);
    }
}

fn is_money_singleton(owner: OwnerType) -> (r: bool)
    ensures
        r == money_singleton(owner),
{
    match owner {
        OwnerType::Withheld | OwnerType::DepositSuspense | OwnerType::BonusReserve => true,
        _ => false,
    }
}

/// In-memory balances. Accounts are kept in the order in which they were
/// opened.
#[derive(Debug, Clone)]
pub struct Balances {
    accounts: Vec<Account>,
}

impl Default for Balances {
    fn default() -> (r: Self)
        ensures
            r.accounts() == Seq::<Account>::empty(),
            r.wf(),
    {
        let r = Balances { accounts: Vec::new() };
        assert(r.accounts@ =~= Seq::<Account>::empty());
        r
    }
}

impl Balances {
    /// The open accounts.
    pub closed spec fn accounts(&self) -> Seq<Account> {
        self.accounts@
    }

    /// The ledger's invariant.
    pub open spec fn wf(&self) -> bool {
        ledger_invariant(self.accounts())
    }

    /// The balance of an open account.
    pub open spec fn balance_of(&self, account: AccountId) -> Option<MicroUsd> {
        match lookup(self.accounts(), account) {
            Some(a) => Some(MicroUsd(a.balance)),
            None => None,
        }
    }

    /// Position of an open account.
    fn position(&self, account: AccountId) -> (r: Option<usize>)
        requires
            self.wf(),
        ensures
            match r {
                Some(i) => i < self.accounts().len() && lookup(self.accounts(), account) == Some(
                    self.accounts()[i as int],
                ),
                None => lookup(self.accounts(), account) is None,
            },
    {
        let mut i: usize = 0;
        while i < self.accounts.len()
            invariant
                i <= self.accounts.len(),
                self.wf(),
                forall|j: int| 0 <= j < i ==> (#[trigger] self.accounts@[j]).id != account,
            decreases self.accounts.len() - i,
        {
            if self.accounts[i].id.0 == account.0 {
                proof {
                    lemma_lookup_index(self.accounts@, i as int);
                }
                return Some(i);
            }
            i += 1;
        }
        proof {
            lemma_lookup_none(self.accounts@, account);
        }
        None
    }

    /// Whether an account of this class and currency is open.
    fn any_owner(&self, owner: OwnerType, currency: Currency) -> (r: bool)
        ensures
            r == has_owner(self.accounts(), owner, currency),
    {
        let mut i: usize = 0;
        while i < self.accounts.len()
            invariant
                i <= self.accounts.len(),
                forall|j: int|
                    0 <= j < i ==> !((#[trigger] self.accounts@[j]).owner == owner
                        && self.accounts@[j].currency == currency),
            decreases self.accounts.len() - i,
        {
            if self.accounts[i].owner == owner && self.accounts[i].currency == currency {
                return true;
            }
            i += 1;
        }
        false
    }

    /// Opens an account with a zero balance; a no-op if `account` is already
    /// open. There is no genesis backdoor: every funding path is an ordinary
    /// balanced transaction against the External account of its currency.
    ///
    /// # Errors
    ///
    /// [`LedgerError::DuplicateExternal`] when opening a second External
    /// account for the same currency, or [`LedgerError::DuplicateSingleton`]
    /// for a second `Withheld` / `DepositSuspense` / `BonusReserve` of the same
    /// currency.
    pub fn open(&mut self, account: AccountId, owner: OwnerType, currency: Currency) -> (r: Result<
        (),
        LedgerError,
    >)
        requires
            old(self).wf(),
        ensures
            final(self).wf(),
            lookup(old(self).accounts(), account) is Some ==> r is Ok && final(self).accounts()
                == old(self).accounts(),
            lookup(old(self).accounts(), account) is None ==> {
                if owner == OwnerType::External && has_owner(
                    old(self).accounts(),
                    owner,
                    currency,
                ) {
                    r == Err::<(), LedgerError>(LedgerError::DuplicateExternal { currency })
                } else if money_singleton(owner) && has_owner(
                    old(self).accounts(),
                    owner,
                    currency,
                ) {
                    r == Err::<(), LedgerError>(LedgerError::DuplicateSingleton { owner, currency })
                } else {
                    r is Ok && final(self).accounts() == old(self).accounts().push(
                        (Account { id: account, owner, currency, balance: 0 }),
                    )
                }
            },
            r is Err ==> final(self).accounts() == old(self).accounts(),
    {
        if self.position(account).is_some() {
            return Ok(());
        }
        if owner == OwnerType::External && self.any_owner(owner, currency) {
            return Err(LedgerError::DuplicateExternal { currency });
        }
        if is_money_singleton(owner) && self.any_owner(owner, currency) {
            return Err(LedgerError::DuplicateSingleton { owner, currency });
        }
        let fresh = Account { id: account, owner, currency, balance: 0 };
        self.accounts.push(fresh);
        proof {
            let before = old(self).accounts@;
            let after = self.accounts@;
            assert(after.drop_last() =~= before);
            assert forall|j: int| 0 <= j < before.len() implies (#[trigger] before[j]).id
                != account by {
                if before[j].id == account {
                    lemma_lookup_index(before, j);
                }
            }
            assert(currency_total(after, Currency::Usdc) == currency_total(before, Currency::Usdc));
            assert(currency_total(after, Currency::UsdcCredit) == currency_total(
                before,
                Currency::UsdcCredit,
            ));
        }
        Ok(())
    }

    /// Applies a transaction atomically: on any error nothing is written.
    ///
    /// Duplicate accounts in one transaction are legal and are summed before
    /// validation; the entries must sum to exactly zero within every currency
    /// touched; every post-balance must fit and stay non-negative on every
    /// account but an External one.
    ///
    /// # Errors
    ///
    /// [`LedgerError::UnknownAccount`] if an entry references an unopened
    /// account, [`LedgerError::UnbalancedCurrency`] if any touched currency
    /// does not sum to zero, [`LedgerError::InsufficientFunds`] if any internal
    /// account would go below zero, and [`LedgerError::Overflow`] if a
    /// post-balance cannot fit an `i64`.
    pub fn apply(&mut self, txn: &Transaction) -> (r: Result<(), LedgerError>)
        requires
            old(self).wf(),
        ensures
            final(self).wf(),
            match apply_error(old(self).accounts(), txn.legs()) {
                Some(e) => r == Err::<(), LedgerError>(e) && final(self).accounts() == old(
                    self,
                ).accounts(),
                None => r is Ok && final(self).accounts() == posted(
                    old(self).accounts(),
                    txn.legs(),
                ),
            },
    {
        let entries = txn.entries();
        let ghost legs = txn.legs();
        let ghost before = self.accounts@;
        let mut usdc: i128 = 0;
        let mut credit: i128 = 0;
        let mut i: usize = 0;
        while i < entries.len()
            invariant
                i <= entries.len(),
                entries@ == legs,
                legs == txn.legs(),
                self.accounts@ == before,
                before == old(self).accounts(),
                self.wf(),
                forall|j: int|
                    0 <= j < i ==> lookup(before, (#[trigger] legs[j]).account) is Some,
                usdc == currency_delta(before, legs.take(i as int), Currency::Usdc),
                credit == currency_delta(before, legs.take(i as int), Currency::UsdcCredit),
                -9_223_372_036_854_775_808 * i <= usdc <= 9_223_372_036_854_775_807 * i,
                -9_223_372_036_854_775_808 * i <= credit <= 9_223_372_036_854_775_807 * i,
            decreases entries.len() - i,
        {
            assert(legs.take(i + 1).drop_last() =~= legs.take(i as int));
            match self.position(entries[i].account) {
                None => {
                    assert(!all_known(before, legs));
                    return Err(LedgerError::UnknownAccount);
                },
                Some(at) => match self.accounts[at].currency {
                    Currency::Usdc => {
                        usdc += entries[i].amount.0 as i128;
                    },
                    Currency::UsdcCredit => {
                        credit += entries[i].amount.0 as i128;
                    },
                },
            }
            i += 1;
        }
        assert(legs.take(i as int) =~= legs);
        if usdc != 0 {
            return Err(
                LedgerError::UnbalancedCurrency { currency: Currency::Usdc, sum_micro: usdc },
            );
        }
        if credit != 0 {
            return Err(
                LedgerError::UnbalancedCurrency {
                    currency: Currency::UsdcCredit,
                    sum_micro: credit,
                },
            );
        }
        let mut k: usize = 0;
        while k < entries.len()
            invariant
                k <= entries.len(),
                entries@ == legs,
                legs == txn.legs(),
                self.accounts@ == before,
                before == old(self).accounts(),
                self.wf(),
                all_known(before, legs),
                currency_delta(before, legs, Currency::Usdc) == 0,
                currency_delta(before, legs, Currency::UsdcCredit) == 0,
                first_post_error(before, legs, k as nat) is None,
            decreases entries.len() - k,
        {
            let delta: i128 = delta_of(entries, entries[k].account);
            match self.position(entries[k].account) {
                None => {},
                Some(at) => {
                    let account = self.accounts[at];
                    let post: i128 = account.balance as i128 + delta;
                    let error = if post < i64::MIN as i128 || post > i64::MAX as i128 {
                        Some(LedgerError::Overflow)
                    } else if post < 0 && account.owner != OwnerType::External {
                        Some(LedgerError::InsufficientFunds { account: account.id })
                    } else {
                        None
                    };
                    proof {
                        lemma_lookup_some(before, legs[k as int].account);
                        assert(account.id == legs[k as int].account);
                        assert(error == post_error(account, legs));
                    }
                    if let Some(e) = error {
                        proof {
                            lemma_first_error_persists(before, legs, (k + 1) as nat, legs.len());
                        }
                        return Err(e);
                    }
                },
            }
            k += 1;
        }
        proof {
            lemma_all_post(before, legs);
            lemma_posted_keeps_invariant(before, legs);
        }
        let mut done: Vec<Account> = Vec::new();
        let mut m: usize = 0;
        while m < self.accounts.len()
            invariant
                m <= self.accounts.len(),
                entries@ == legs,
                self.accounts@ == before,
                done@ =~= posted(before, legs).take(m as int),
                forall|j: int|
                    0 <= j < before.len() ==> post_error(#[trigger] before[j], legs) is None,
            decreases self.accounts.len() - m,
        {
            let account = self.accounts[m];
            assert(post_error(before[m as int], legs) is None);
            let delta: i128 = delta_of(entries, account.id);
            let post: i128 = account.balance as i128 + delta;
            done.push(
                Account {
                    id: account.id,
                    owner: account.owner,
                    currency: account.currency,
                    balance: post as i64,
                },
            );
            m += 1;
        }
        self.accounts = done;
        assert(self.accounts@ =~= posted(before, legs));
        Ok(())
    }

    /// Current balance of an account, or `None` if it was never opened.
    #[must_use]
    pub fn balance(&self, account: AccountId) -> (r: Option<MicroUsd>)
        requires
            self.wf(),
        ensures
            r == self.balance_of(account),
    {
        match self.position(account) {
            Some(i) => Some(MicroUsd(self.accounts[i].balance)),
            None => None,
        }
    }

    /// Sum over internal (non-External) accounts of `currency`, capped at the
    /// greatest amount. It is the mirror of the currency's External balance.
    #[must_use]
    pub fn internal_total(&self, currency: Currency) -> (r: MicroUsd)
        requires
            self.wf(),
        ensures
            r.0 == (if internal_sum(self.accounts(), currency) > i64::MAX {
                i64::MAX as int
            } else {
                internal_sum(self.accounts(), currency)
            }),
            forall|k: int|
                0 <= k < self.accounts().len() && (#[trigger] self.accounts()[k]).owner
                    == OwnerType::External && self.accounts()[k].currency == currency
                    && self.accounts()[k].balance > i64::MIN ==> r.0
                    == -self.accounts()[k].balance,
    {
        let mut sum: i128 = 0;
        let mut i: usize = 0;
        while i < self.accounts.len()
            invariant
                i <= self.accounts.len(),
                sum == internal_sum(self.accounts@.take(i as int), currency),
                -9_223_372_036_854_775_808 * i <= sum <= 9_223_372_036_854_775_807 * i,
            decreases self.accounts.len() - i,
        {
            assert(self.accounts@.take(i + 1).drop_last() =~= self.accounts@.take(i as int));
            let account = self.accounts[i];
            if account.currency == currency && account.owner != OwnerType::External {
                sum += account.balance as i128;
            }
            i += 1;
        }
        assert(self.accounts@.take(i as int) =~= self.accounts@);
        proof {
            law_internal_mirrors_external(self.accounts@, currency);
            lemma_internal_sum_non_negative(self.accounts@, currency);
        }
        if sum > i64::MAX as i128 {
            MicroUsd(i64::MAX)
        } else {
            MicroUsd(sum as i64)
        }
    }
}

proof fn lemma_internal_sum_non_negative(accounts: Seq<Account>, currency: Currency)
    requires
        internal_non_negative(accounts),
    ensures
        internal_sum(accounts, currency) >= 0,
    decreases accounts.len(),
{
    if accounts.len() > 0 {
        let head = accounts.drop_last();
        assert(accounts.last() == accounts[accounts.len() - 1]);
        assert forall|i: int|
            0 <= i < head.len() && (#[trigger] head[i]).owner
                != OwnerType::External implies head[i].balance >= 0 by {
            assert(head[i] == accounts[i]);
        }
        lemma_internal_sum_non_negative(head, currency);
    }
}

proof fn lemma_first_error_persists(
    accounts: Seq<Account>,
    entries: Seq<Entry>,
    n: nat,
    m: nat,
)
    requires
        first_post_error(accounts, entries, n) is Some,
        n <= m,
    ensures
        first_post_error(accounts, entries, m) == first_post_error(accounts, entries, n),
    decreases m,
{
    if n < m {
        lemma_first_error_persists(accounts, entries, n, (m - 1) as nat);
    }
}

/// What the entries move on one account.
fn delta_of(entries: &[Entry], account: AccountId) -> (r: i128)
    ensures
        r == account_delta(entries@, account),
        -9_223_372_036_854_775_808 * entries@.len() <= r <= 9_223_372_036_854_775_807
            * entries@.len(),
{
    let mut sum: i128 = 0;
    let mut i: usize = 0;
    while i < entries.len()
        invariant
            i <= entries.len(),
            sum == account_delta(entries@.take(i as int), account),
            -9_223_372_036_854_775_808 * i <= sum <= 9_223_372_036_854_775_807 * i,
        decreases entries.len() - i,
    {
        assert(entries@.take(i + 1).drop_last() =~= entries@.take(i as int));
        if entries[i].account == account {
            sum += entries[i].amount.0 as i128;
        }
        i += 1;
    }
    assert(entries@.take(i as int) =~= entries@);
    sum
}

proof fn lemma_entries_sum_folds(entries: Seq<Entry>)
    ensures
        entries_sum(entries) == entries.fold_left(0int, |sum: int, e: Entry| sum + e.amount.0),
    decreases entries.len(),
{
    reveal_with_fuel(Seq::fold_left, 2);
    if entries.len() > 0 {
        lemma_entries_sum_folds(entries.drop_last());
    }
}

proof fn lemma_account_delta_folds(entries: Seq<Entry>, account: AccountId)
    ensures
        account_delta(entries, account) == entries.fold_left(
            0int,
            |sum: int, e: Entry|
                sum + if e.account == account {
                    e.amount.0 as int
                } else {
                    0
                },
        ),
    decreases entries.len(),
{
    reveal_with_fuel(Seq::fold_left, 2);
    if entries.len() > 0 {
        lemma_account_delta_folds(entries.drop_last(), account);
    }
}

proof fn lemma_internal_sum_folds(accounts: Seq<Account>, currency: Currency)
    ensures
        internal_sum(accounts, currency) == accounts.fold_left(
            0int,
            |sum: int, a: Account|
                sum + if a.currency == currency && a.owner != OwnerType::External {
                    a.balance as int
                } else {
                    0
                },
        ),
    decreases accounts.len(),
{
    reveal_with_fuel(Seq::fold_left, 2);
    if accounts.len() > 0 {
        lemma_internal_sum_folds(accounts.drop_last(), currency);
    }
}

/// A transaction is two or more entries, none of them nothing, that sum to
/// nothing; and every such list of entries is one.
pub proof fn law_transactions_sum_to_nothing(entries: Seq<Entry>)
    ensures
        transaction_error(entries) is None <==> entries.len() >= 2 && (forall|i: int|
            0 <= i < entries.len() ==> (#[trigger] entries[i]).amount.0 != 0) && entries.fold_left(
            0int,
            |sum: int, e: Entry| sum + e.amount.0,
        ) == 0,
        transaction_error(entries) == Some(LedgerError::TooFewEntries) <==> entries.len() < 2,
        transaction_error(entries) == Some(LedgerError::ZeroEntry) <==> entries.len() >= 2
            && exists|i: int| 0 <= i < entries.len() && (#[trigger] entries[i]).amount.0 == 0,
{
    lemma_entries_sum_folds(entries);
}

/// Posting changes each account by exactly the entries on it, and nothing else
/// about it: every account that no entry names keeps its balance.
pub proof fn law_posting_moves_what_the_entries_say(
    accounts: Seq<Account>,
    entries: Seq<Entry>,
    i: int,
)
    requires
        ledger_invariant(accounts),
        apply_error(accounts, entries) is None,
        0 <= i < accounts.len(),
    ensures
        posted(accounts, entries).len() == accounts.len(),
        ({
            let after = posted(accounts, entries)[i];
            &&& after.balance == accounts[i].balance + entries.fold_left(
                0int,
                |sum: int, e: Entry|
                    sum + if e.account == accounts[i].id {
                        e.amount.0 as int
                    } else {
                        0
                    },
            )
            &&& after.balance >= 0 || accounts[i].owner == OwnerType::External
            &&& after.id == accounts[i].id && after.owner == accounts[i].owner && after.currency
                == accounts[i].currency
        }),
        (forall|k: int|
            0 <= k < entries.len() ==> (#[trigger] entries[k]).account != accounts[i].id)
            ==> posted(accounts, entries)[i] == accounts[i],
{
    lemma_all_post(accounts, entries);
    lemma_account_delta_folds(entries, accounts[i].id);
    assert(post_error(accounts[i], entries) is None);
    if forall|k: int| 0 <= k < entries.len() ==> (#[trigger] entries[k]).account != accounts[i].id {
        lemma_untouched(entries, accounts[i].id);
    }
}

/// A transfer between two internal accounts of one currency is taken exactly
/// where the payer can pay it and the receiver can hold it: the one loses and
/// the other gets the amount.
pub proof fn law_transfers_move_the_amount(
    accounts: Seq<Account>,
    from: int,
    to: int,
    amount: MicroUsd,
    entries: Seq<Entry>,
)
    requires
        ledger_invariant(accounts),
        0 <= from < accounts.len(),
        0 <= to < accounts.len(),
        from != to,
        accounts[from].currency == accounts[to].currency,
        accounts[from].owner != OwnerType::External,
        accounts[to].owner != OwnerType::External,
        amount.0 > 0,
        entries == seq![
            Entry { account: accounts[from].id, amount: MicroUsd((-amount.0) as i64) },
            Entry { account: accounts[to].id, amount },
        ],
    ensures
        apply_error(accounts, entries) is None <==> accounts[from].balance >= amount.0
            && accounts[to].balance + amount.0 <= i64::MAX,
        accounts[from].balance < amount.0 ==> apply_error(accounts, entries) == Some(
            LedgerError::InsufficientFunds { account: accounts[from].id },
        ),
        apply_error(accounts, entries) is None ==> posted(accounts, entries)[from].balance
            == accounts[from].balance - amount.0 && posted(accounts, entries)[to].balance
            == accounts[to].balance + amount.0,
{
    let a = accounts[from].id;
    let b = accounts[to].id;
    assert(a != b) by {
        if from < to {
            assert(accounts[from].id != accounts[to].id);
        } else {
            assert(accounts[to].id != accounts[from].id);
        }
    }
    lemma_lookup_index(accounts, from);
    lemma_lookup_index(accounts, to);
    let one = entries.drop_last();
    let none = one.drop_last();
    assert(none =~= Seq::<Entry>::empty());
    reveal_with_fuel(account_delta, 3);
    reveal_with_fuel(currency_delta, 3);
    reveal_with_fuel(first_post_error, 3);
    assert(account_delta(entries, a) == -amount.0);
    assert(account_delta(entries, b) == amount.0);
    assert(all_known(accounts, entries));
    assert(currency_delta(accounts, entries, Currency::Usdc) == 0);
    assert(currency_delta(accounts, entries, Currency::UsdcCredit) == 0);
    assert(entries[0].account == a && entries[1].account == b);
    assert(accounts[from].balance >= 0 && accounts[to].balance >= 0);
}

/// A transaction on an account that is not open is refused, whatever else it
/// holds.
pub proof fn law_unknown_accounts_are_refused(
    accounts: Seq<Account>,
    entries: Seq<Entry>,
    k: int,
)
    requires
        0 <= k < entries.len(),
        forall|i: int| 0 <= i < accounts.len() ==> (#[trigger] accounts[i]).id != entries[k].account,
    ensures
        apply_error(accounts, entries) == Some(LedgerError::UnknownAccount),
{
    lemma_lookup_none(accounts, entries[k].account);
}

/// No transaction moves money from one currency to the other: the entries on the
/// accounts of each currency sum to nothing on their own.
pub proof fn law_currencies_never_mix(
    accounts: Seq<Account>,
    entries: Seq<Entry>,
    currency: Currency,
)
    requires
        ledger_invariant(accounts),
        apply_error(accounts, entries) is None,
    ensures
        currency_total(posted(accounts, entries), currency) == currency_total(accounts, currency),
        entries.fold_left(
            0int,
            |sum: int, e: Entry|
                sum + if exists|i: int|
                    0 <= i < accounts.len() && (#[trigger] accounts[i]).id == e.account
                        && accounts[i].currency == currency {
                    e.amount.0 as int
                } else {
                    0
                },
        ) == 0,
{
    lemma_posted_keeps_invariant(accounts, entries);
    lemma_currency_delta_folds(accounts, entries, currency);
}

proof fn lemma_currency_delta_folds(
    accounts: Seq<Account>,
    entries: Seq<Entry>,
    currency: Currency,
)
    requires
        distinct_ids(accounts),
    ensures
        currency_delta(accounts, entries, currency) == entries.fold_left(
            0int,
            |sum: int, e: Entry|
                sum + if exists|i: int|
                    0 <= i < accounts.len() && (#[trigger] accounts[i]).id == e.account
                        && accounts[i].currency == currency {
                    e.amount.0 as int
                } else {
                    0
                },
        ),
    decreases entries.len(),
{
    reveal_with_fuel(Seq::fold_left, 2);
    if entries.len() > 0 {
        lemma_currency_delta_folds(accounts, entries.drop_last(), currency);
        let id = entries.last().account;
        if exists|i: int|
            0 <= i < accounts.len() && (#[trigger] accounts[i]).id == id && accounts[i].currency
                == currency {
            let i = choose|i: int|
                0 <= i < accounts.len() && (#[trigger] accounts[i]).id == id
                    && accounts[i].currency == currency;
            lemma_lookup_index(accounts, i);
        } else if lookup(accounts, id) is Some {
            let i = lemma_lookup_some(accounts, id);
            assert(accounts[i].currency != currency);
        }
    }
}

/// What the internal accounts of a currency hold together is the plain sum of
/// their balances, the External account left out.
pub proof fn law_internal_total_is_the_sum(accounts: Seq<Account>, currency: Currency)
    ensures
        internal_sum(accounts, currency) == accounts.fold_left(
            0int,
            |sum: int, a: Account|
                sum + if a.currency == currency && a.owner != OwnerType::External {
                    a.balance as int
                } else {
                    0
                },
        ),
{
    lemma_internal_sum_folds(accounts, currency);
}

/// An open account is found under its identity, with its own balance.
pub proof fn law_open_accounts_are_found(accounts: Seq<Account>, i: int)
    requires
        ledger_invariant(accounts),
        0 <= i < accounts.len(),
    ensures
        lookup(accounts, accounts[i].id) == Some(accounts[i]),
{
    lemma_lookup_index(accounts, i);
}

/// Which classes have one account per currency: the outside world, and the three
/// that hold money in flight.
pub proof fn law_which_classes_are_singletons(owner: OwnerType)
    ensures
        money_singleton(owner) <==> owner == OwnerType::Withheld || owner
            == OwnerType::DepositSuspense || owner == OwnerType::BonusReserve,
        !money_singleton(OwnerType::External),
        !money_singleton(OwnerType::User),
        !money_singleton(OwnerType::House),
{
}

} // verus!
