//! The refusals of the application and of its store.

use crate::amm::AmmError;
use crate::identity;
use crate::ledger::{Currency, LedgerError, OwnerType};
use crate::text;
use vstd::prelude::*;

verus! {

/// Why the store could not do what it was asked.
#[derive(Debug, PartialEq, Eq)]
pub enum StoreError {
    NotFound(&'static str),
    Backend(String),
    Unavailable(&'static str),
    Invariant(&'static str),
    Ledger(LedgerError),
}

/// Why the application refused a request.
#[derive(Debug, PartialEq, Eq)]
pub enum AppError {
    Store(StoreError),
    Amm(AmmError),
    Overflow,
    /// A configuration value was refused.
    ConfigInvalid { key: String, reason: &'static str },
    /// The actor may not do this.
    AdminForbidden(&'static str),
    /// A proposal cannot take this step.
    ProposalConflict(&'static str),
    /// The preview that a request relies on no longer holds.
    StaleConfig { preview_generation: i64, current_generation: i64 },
    /// The idempotency key was used for another request.
    IdempotencyConflict,
    /// The request must say which configuration it was previewed under.
    ExpectedConfigVersionRequired,
    MarketNotOpen,
    TradingFrozen,
    VoteRequired,
    InsufficientShares,
    InsufficientFunds,
    PositionCapExceeded { cap_micro: i64, tier: u8 },
    TradingPaused,
    VotingPaused,
    IllegalTransition,
    LpPaused,
    SeedFeeBelowMinimum { base_bps: u16, min_bps: u16 },
    JobNotReady,
    ArtifactNotFound,
}

/// [`StoreError`], with texts as characters.
pub enum StoreFault {
    NotFound(Seq<char>),
    Backend(Seq<char>),
    Unavailable(Seq<char>),
    Invariant(Seq<char>),
    Ledger(LedgerError),
}

/// [`AppError`], with texts as characters.
pub enum Fault {
    Store(StoreFault),
    Amm(AmmError),
    Overflow,
    ConfigInvalid { key: Seq<char>, reason: Seq<char> },
    AdminForbidden(Seq<char>),
    ProposalConflict(Seq<char>),
    StaleConfig { preview_generation: int, current_generation: int },
    IdempotencyConflict,
    ExpectedConfigVersionRequired,
    MarketNotOpen,
    TradingFrozen,
    VoteRequired,
    InsufficientShares,
    InsufficientFunds,
    PositionCapExceeded { cap_micro: int, tier: int },
    TradingPaused,
    VotingPaused,
    IllegalTransition,
    LpPaused,
    SeedFeeBelowMinimum { base_bps: int, min_bps: int },
    JobNotReady,
    ArtifactNotFound,
}

impl View for StoreError {
    type V = StoreFault;

    open spec fn view(&self) -> StoreFault {
        match self {
            StoreError::NotFound(what) => StoreFault::NotFound(what@),
            StoreError::Backend(what) => StoreFault::Backend(what@),
            StoreError::Unavailable(what) => StoreFault::Unavailable(what@),
            StoreError::Invariant(what) => StoreFault::Invariant(what@),
            StoreError::Ledger(e) => StoreFault::Ledger(*e),
        }
    }
}

impl View for AppError {
    type V = Fault;

    open spec fn view(&self) -> Fault {
        match self {
            AppError::Store(e) => Fault::Store(e@),
            AppError::Amm(e) => Fault::Amm(*e),
            AppError::Overflow => Fault::Overflow,
            AppError::ConfigInvalid { key, reason } => Fault::ConfigInvalid {
                key: key@,
                reason: reason@,
            },
            AppError::AdminForbidden(why) => Fault::AdminForbidden(why@),
            AppError::ProposalConflict(why) => Fault::ProposalConflict(why@),
            AppError::StaleConfig { preview_generation, current_generation } => Fault::StaleConfig {
                preview_generation: *preview_generation as int,
                current_generation: *current_generation as int,
            },
            AppError::IdempotencyConflict => Fault::IdempotencyConflict,
            AppError::ExpectedConfigVersionRequired => Fault::ExpectedConfigVersionRequired,
            AppError::MarketNotOpen => Fault::MarketNotOpen,
            AppError::TradingFrozen => Fault::TradingFrozen,
            AppError::VoteRequired => Fault::VoteRequired,
            AppError::InsufficientShares => Fault::InsufficientShares,
            AppError::InsufficientFunds => Fault::InsufficientFunds,
            AppError::PositionCapExceeded { cap_micro, tier } => Fault::PositionCapExceeded {
                cap_micro: *cap_micro as int,
                tier: *tier as int,
            },
            AppError::TradingPaused => Fault::TradingPaused,
            AppError::VotingPaused => Fault::VotingPaused,
            AppError::IllegalTransition => Fault::IllegalTransition,
            AppError::LpPaused => Fault::LpPaused,
            AppError::SeedFeeBelowMinimum { base_bps, min_bps } => Fault::SeedFeeBelowMinimum {
                base_bps: *base_bps as int,
                min_bps: *min_bps as int,
            },
            AppError::JobNotReady => Fault::JobNotReady,
            AppError::ArtifactNotFound => Fault::ArtifactNotFound,
        }
    }
}

/// `r` failed with exactly this fault.
pub open spec fn failed<T>(r: Result<T, AppError>, fault: Fault) -> bool {
    r matches Err(e) && e@ == fault
}

/// `r` succeeded where there was no fault, and failed with exactly the fault
/// where there was one.
pub open spec fn checked(r: Result<(), AppError>, fault: Option<Fault>) -> bool {
    match fault {
        Some(f) => failed(r, f),
        None => r is Ok,
    }
}

impl From<AmmError> for AppError {
    fn from(e: AmmError) -> (r: Self) {
        AppError::Amm(e)
    }
}

impl vstd::std_specs::convert::FromSpecImpl<AmmError> for AppError {
    open spec fn obeys_from_spec() -> bool {
        true
    }

    open spec fn from_spec(e: AmmError) -> Self {
        AppError::Amm(e)
    }
}

impl From<StoreError> for AppError {
    fn from(e: StoreError) -> (r: Self) {
        AppError::Store(e)
    }
}

impl vstd::std_specs::convert::FromSpecImpl<StoreError> for AppError {
    open spec fn obeys_from_spec() -> bool {
        true
    }

    open spec fn from_spec(e: StoreError) -> Self {
        AppError::Store(e)
    }
}

impl Clone for StoreError {
    fn clone(&self) -> (r: Self)
        ensures
            r@ == self@,
    {
        match self {
            StoreError::NotFound(what) => StoreError::NotFound(what),
            StoreError::Backend(what) => StoreError::Backend(what.clone()),
            StoreError::Unavailable(what) => StoreError::Unavailable(what),
            StoreError::Invariant(what) => StoreError::Invariant(what),
            StoreError::Ledger(e) => StoreError::Ledger(*e),
        }
    }
}

/// The text of a market maker's refusal.
pub open spec fn amm_text(e: AmmError) -> Seq<char> {
    match e {
        AmmError::EmptyPool => "pool reserves must be positive"@,
        AmmError::AmountTooSmall => "amount is too small to move the pool"@,
        AmmError::DrainsPool => "sell would drain a pool reserve to zero"@,
        AmmError::InputTooLarge => "input or resulting reserve exceeds the closed cap"@,
        AmmError::Overflow => "arithmetic overflow"@,
    }
}

fn amm_message(e: AmmError) -> (r: String)
    ensures
        r@ == amm_text(e),
{
    match e {
        AmmError::EmptyPool => "pool reserves must be positive".to_owned(),
        AmmError::AmountTooSmall => "amount is too small to move the pool".to_owned(),
        AmmError::DrainsPool => "sell would drain a pool reserve to zero".to_owned(),
        AmmError::InputTooLarge => "input or resulting reserve exceeds the closed cap".to_owned(),
        AmmError::Overflow => "arithmetic overflow".to_owned(),
    }
}

/// The name of a currency.
pub open spec fn currency_text(currency: Currency) -> Seq<char> {
    match currency {
        Currency::Usdc => "Usdc"@,
        Currency::UsdcCredit => "UsdcCredit"@,
    }
}

fn currency_name(currency: Currency) -> (r: &'static str)
    ensures
        r@ == currency_text(currency),
{
    match currency {
        Currency::Usdc => "Usdc",
        Currency::UsdcCredit => "UsdcCredit",
    }
}

/// The name of an owner class.
pub open spec fn owner_text(owner: OwnerType) -> Seq<char> {
    match owner {
        OwnerType::User => "User"@,
        OwnerType::Pool => "Pool"@,
        OwnerType::Fees => "Fees"@,
        OwnerType::House => "House"@,
        OwnerType::Escrow => "Escrow"@,
        OwnerType::External => "External"@,
        OwnerType::Withheld => "Withheld"@,
        OwnerType::DepositSuspense => "DepositSuspense"@,
        OwnerType::BonusReserve => "BonusReserve"@,
    }
}

fn owner_name(owner: OwnerType) -> (r: &'static str)
    ensures
        r@ == owner_text(owner),
{
    match owner {
        OwnerType::User => "User",
        OwnerType::Pool => "Pool",
        OwnerType::Fees => "Fees",
        OwnerType::House => "House",
        OwnerType::Escrow => "Escrow",
        OwnerType::External => "External",
        OwnerType::Withheld => "Withheld",
        OwnerType::DepositSuspense => "DepositSuspense",
        OwnerType::BonusReserve => "BonusReserve",
    }
}

/// The text of a ledger's refusal.
pub open spec fn ledger_text(e: LedgerError) -> Seq<char> {
    match e {
        LedgerError::Unbalanced { sum_micro } => "entries sum to "@ + text::decimal(
            sum_micro as int,
        ) + " micro, not zero"@,
        LedgerError::UnbalancedCurrency { currency, sum_micro } => "entries for "@ + currency_text(
            currency,
        ) + " sum to "@ + text::decimal(sum_micro as int) + " micro, not zero"@,
        LedgerError::TooFewEntries => "a transaction needs at least two entries"@,
        LedgerError::ZeroEntry => "zero-amount entries are not allowed"@,
        LedgerError::InsufficientFunds { account } => "insufficient funds on account AccountId("@
            + identity::uuid_text(account.0) + ")"@,
        LedgerError::UnknownAccount => "entry references an account that was never opened"@,
        LedgerError::DuplicateExternal { currency } => "an External account already exists for "@
            + currency_text(currency),
        LedgerError::DuplicateSingleton { owner, currency } => "a "@ + owner_text(owner)
            + " account already exists for "@ + currency_text(currency),
        LedgerError::Overflow => "arithmetic overflow"@,
    }
}

fn ledger_message(e: LedgerError) -> (r: String)
    ensures
        r@ == ledger_text(e),
{
    match e {
        LedgerError::Unbalanced { sum_micro } => text::join3(
            "entries sum to ",
            text::decimal_text_i128(sum_micro).as_str(),
            " micro, not zero",
        ),
        LedgerError::UnbalancedCurrency { currency, sum_micro } => {
            let head = text::join3("entries for ", currency_name(currency), " sum to ");
            text::join3(
                head.as_str(),
                text::decimal_text_i128(sum_micro).as_str(),
                " micro, not zero",
            )
        },
        LedgerError::TooFewEntries => "a transaction needs at least two entries".to_owned(),
        LedgerError::ZeroEntry => "zero-amount entries are not allowed".to_owned(),
        LedgerError::InsufficientFunds { account } => text::join3(
            "insufficient funds on account AccountId(",
            identity::format_uuid(account.0).as_str(),
            ")",
        ),
        LedgerError::UnknownAccount => "entry references an account that was never opened".to_owned(),
        LedgerError::DuplicateExternal { currency } => text::join2(
            "an External account already exists for ",
            currency_name(currency),
        ),
        LedgerError::DuplicateSingleton { owner, currency } => {
            let head = text::join3("a ", owner_name(owner), " account already exists for ");
            text::join2(head.as_str(), currency_name(currency))
        },
        LedgerError::Overflow => "arithmetic overflow".to_owned(),
    }
}

/// The text of a store's failure.
pub open spec fn store_text(fault: StoreFault) -> Seq<char> {
    match fault {
        StoreFault::NotFound(what) => what + " not found"@,
        StoreFault::Backend(what) => "store backend failed: "@ + what,
        StoreFault::Unavailable(what) => "store is unavailable: "@ + what,
        StoreFault::Invariant(what) => "store invariant violated: "@ + what,
        StoreFault::Ledger(e) => ledger_text(e),
    }
}

/// The text of a refusal.
pub open spec fn fault_text(fault: Fault) -> Seq<char> {
    match fault {
        Fault::Store(e) => store_text(e),
        Fault::Amm(e) => amm_text(e),
        Fault::ConfigInvalid { key, reason } => "config key "@ + key + " is invalid: "@ + reason,
        Fault::AdminForbidden(why) => "forbidden: "@ + why,
        Fault::ProposalConflict(why) => "conflict: "@ + why,
        Fault::StaleConfig { preview_generation, current_generation } => "config moved from "@
            + text::decimal(preview_generation) + " to "@ + text::decimal(current_generation),
        Fault::PositionCapExceeded { cap_micro, tier } => "position cap of "@ + text::decimal(
            cap_micro,
        ) + " micro-USD exceeded at tier "@ + text::decimal(tier),
        Fault::SeedFeeBelowMinimum { base_bps, min_bps } => "seed fee of "@ + text::decimal(
            base_bps,
        ) + " bps is below the minimum of "@ + text::decimal(min_bps),
        Fault::IdempotencyConflict => "idempotency key was reused for a different request"@,
        Fault::ExpectedConfigVersionRequired => "expected_config_version is required"@,
        Fault::MarketNotOpen => "market is not open"@,
        Fault::TradingFrozen => "trading is frozen"@,
        Fault::VoteRequired => "a vote is required before trading"@,
        Fault::InsufficientShares => "insufficient shares"@,
        Fault::InsufficientFunds => "insufficient funds"@,
        Fault::TradingPaused => "trading is paused"@,
        Fault::VotingPaused => "voting is paused"@,
        Fault::IllegalTransition => "illegal market transition"@,
        Fault::LpPaused => "liquidity provision is paused"@,
        Fault::JobNotReady => "job is not ready"@,
        Fault::ArtifactNotFound => "artifact not found"@,
        Fault::Overflow => "arithmetic overflow"@,
    }
}

impl StoreError {
    /// The text of this failure.
    pub fn message(&self) -> (r: String)
        ensures
            r@ == store_text(self@),
    {
        match self {
            StoreError::NotFound(what) => text::join2(what, " not found"),
            StoreError::Backend(what) => text::join2("store backend failed: ", what.as_str()),
            StoreError::Unavailable(what) => text::join2("store is unavailable: ", what),
            StoreError::Invariant(what) => text::join2("store invariant violated: ", what),
            StoreError::Ledger(e) => ledger_message(*e),
        }
    }
}

impl AppError {
    /// The text of this refusal.
    pub fn message(&self) -> (r: String)
        ensures
            r@ == fault_text(self@),
    {
        match self {
            AppError::Store(e) => e.message(),
            AppError::Amm(e) => amm_message(*e),
            AppError::ConfigInvalid { key, reason } => {
                let head = text::join3("config key ", key.as_str(), " is invalid: ");
                text::join2(head.as_str(), reason)
            },
            AppError::AdminForbidden(why) => text::join2("forbidden: ", why),
            AppError::ProposalConflict(why) => text::join2("conflict: ", why),
            AppError::StaleConfig { preview_generation, current_generation } => {
                let head = text::join3(
                    "config moved from ",
                    text::decimal_text(*preview_generation).as_str(),
                    " to ",
                );
                text::join2(head.as_str(), text::decimal_text(*current_generation).as_str())
            },
            AppError::PositionCapExceeded { cap_micro, tier } => {
                let head = text::join3(
                    "position cap of ",
                    text::decimal_text(*cap_micro).as_str(),
                    " micro-USD exceeded at tier ",
                );
                text::join2(head.as_str(), text::decimal_text(*tier as i64).as_str())
            },
            AppError::SeedFeeBelowMinimum { base_bps, min_bps } => {
                let head = text::join3(
                    "seed fee of ",
                    text::decimal_text(*base_bps as i64).as_str(),
                    " bps is below the minimum of ",
                );
                text::join2(head.as_str(), text::decimal_text(*min_bps as i64).as_str())
            },
            AppError::IdempotencyConflict => "idempotency key was reused for a different request".to_owned(),
            AppError::ExpectedConfigVersionRequired => "expected_config_version is required".to_owned(),
            AppError::MarketNotOpen => "market is not open".to_owned(),
            AppError::TradingFrozen => "trading is frozen".to_owned(),
            AppError::VoteRequired => "a vote is required before trading".to_owned(),
            AppError::InsufficientShares => "insufficient shares".to_owned(),
            AppError::InsufficientFunds => "insufficient funds".to_owned(),
            AppError::TradingPaused => "trading is paused".to_owned(),
            AppError::VotingPaused => "voting is paused".to_owned(),
            AppError::IllegalTransition => "illegal market transition".to_owned(),
            AppError::LpPaused => "liquidity provision is paused".to_owned(),
            AppError::JobNotReady => "job is not ready".to_owned(),
            AppError::ArtifactNotFound => "artifact not found".to_owned(),
            AppError::Overflow => "arithmetic overflow".to_owned(),
        }
    }
}

} // verus!
