use opinions::ledger::{AccountId, Balances, Currency, Entry, LedgerError, OwnerType, Transaction, TxnKind};
use opinions::money::MicroUsd;
use uuid::Uuid;

fn acct() -> AccountId {
    AccountId(Uuid::new_v4().as_u128())
}

#[test]
fn unbalanced_transaction_rejected() {
    let e = vec![
        Entry {
            account: acct(),
            amount: MicroUsd(-5),
        },
        Entry {
            account: acct(),
            amount: MicroUsd(4),
        },
    ];
    assert!(matches!(
        Transaction::new(TxnKind::Trade, e),
        Err(LedgerError::Unbalanced { sum_micro: -1 })
    ));
}

#[test]
fn transaction_exposes_its_kind_and_entries() {
    let (from, to) = (acct(), acct());
    let entries = vec![
        Entry {
            account: from,
            amount: MicroUsd(-5),
        },
        Entry {
            account: to,
            amount: MicroUsd(5),
        },
    ];
    let txn = Transaction::new(TxnKind::Payout, entries.clone()).unwrap();

    assert_eq!(txn.kind(), TxnKind::Payout);
    assert_eq!(txn.entries(), entries);
}

#[test]
fn apply_is_atomic_on_insufficient_funds() {
    let (a, b) = (acct(), acct());
    let mut bal = Balances::default();
    bal.open(a, OwnerType::User, Currency::Usdc).unwrap();
    bal.open(b, OwnerType::Fees, Currency::Usdc).unwrap();
    let txn = Transaction::new(
        TxnKind::Trade,
        vec![
            Entry {
                account: a,
                amount: MicroUsd(-10),
            },
            Entry {
                account: b,
                amount: MicroUsd(10),
            },
        ],
    )
    .unwrap();
    assert!(matches!(
        bal.apply(&txn),
        Err(LedgerError::InsufficientFunds { .. })
    ));
    assert_eq!(bal.balance(a).unwrap(), MicroUsd(0)); // nothing applied
    assert_eq!(bal.balance(b).unwrap(), MicroUsd(0));
}

#[test]
fn duplicate_account_entries_are_aggregated_before_validation() {
    // A:-7, A:-6, B:+13 against A=10 must fail as a whole,
    // not partially settle from stale per-entry balances.
    let (ext, a, b) = (acct(), acct(), acct());
    let mut bal = Balances::default();
    bal.open(ext, OwnerType::External, Currency::Usdc).unwrap();
    bal.open(a, OwnerType::User, Currency::Usdc).unwrap();
    bal.open(b, OwnerType::User, Currency::Usdc).unwrap();
    bal.apply(
        &Transaction::new(
            TxnKind::Deposit,
            vec![
                Entry {
                    account: ext,
                    amount: MicroUsd(-10),
                },
                Entry {
                    account: a,
                    amount: MicroUsd(10),
                },
            ],
        )
        .unwrap(),
    )
    .unwrap();
    let txn = Transaction::new(
        TxnKind::Trade,
        vec![
            Entry {
                account: a,
                amount: MicroUsd(-7),
            },
            Entry {
                account: a,
                amount: MicroUsd(-6),
            },
            Entry {
                account: b,
                amount: MicroUsd(13),
            },
        ],
    )
    .unwrap();
    assert!(matches!(
        bal.apply(&txn),
        Err(LedgerError::InsufficientFunds { .. })
    ));
    assert_eq!(bal.balance(a).unwrap(), MicroUsd(10)); // untouched
    assert_eq!(bal.balance(b).unwrap(), MicroUsd(0));
}

#[test]
fn cross_currency_two_leg_transaction_rejected() {
    // Overall sum is zero but converts credit into cash — must be UnbalancedCurrency.
    let (uc, ucash) = (acct(), acct());
    let mut bal = Balances::default();
    bal.open(uc, OwnerType::User, Currency::UsdcCredit).unwrap();
    bal.open(ucash, OwnerType::User, Currency::Usdc).unwrap();
    let txn = Transaction::new(
        TxnKind::CreditConvert,
        vec![
            Entry {
                account: uc,
                amount: MicroUsd(-500),
            },
            Entry {
                account: ucash,
                amount: MicroUsd(500),
            },
        ],
    )
    .unwrap();
    assert!(matches!(
        bal.apply(&txn),
        Err(LedgerError::UnbalancedCurrency { .. })
    ));
}

#[test]
fn deposit_from_external_is_representable() {
    let (ext, user) = (acct(), acct());
    let mut bal = Balances::default();
    bal.open(ext, OwnerType::External, Currency::Usdc).unwrap();
    bal.open(user, OwnerType::User, Currency::Usdc).unwrap();
    let txn = Transaction::new(
        TxnKind::Deposit,
        vec![
            Entry {
                account: ext,
                amount: MicroUsd(-1_000_000),
            },
            Entry {
                account: user,
                amount: MicroUsd(1_000_000),
            },
        ],
    )
    .unwrap();
    bal.apply(&txn).unwrap(); // external may go negative — this must NOT be InsufficientFunds
    assert_eq!(bal.balance(user).unwrap(), MicroUsd(1_000_000));
    assert_eq!(bal.balance(ext).unwrap(), MicroUsd(-1_000_000));
    assert_eq!(bal.internal_total(Currency::Usdc), MicroUsd(1_000_000));
}

#[test]
fn four_leg_credit_conversion_is_legal() {
    // user_credit → external_credit (burn) + external_cash → user_cash (issue),
    // each currency internally balanced.
    let (ext_credit, ext_cash, user_credit, user_cash) = (acct(), acct(), acct(), acct());
    let mut bal = Balances::default();
    bal.open(ext_credit, OwnerType::External, Currency::UsdcCredit)
        .unwrap();
    bal.open(ext_cash, OwnerType::External, Currency::Usdc)
        .unwrap();
    bal.open(user_credit, OwnerType::User, Currency::UsdcCredit)
        .unwrap();
    bal.open(user_cash, OwnerType::User, Currency::Usdc)
        .unwrap();
    bal.apply(
        &Transaction::new(
            TxnKind::CreditGrant,
            vec![
                Entry {
                    account: ext_credit,
                    amount: MicroUsd(-500),
                },
                Entry {
                    account: user_credit,
                    amount: MicroUsd(500),
                },
            ],
        )
        .unwrap(),
    )
    .unwrap();
    bal.apply(
        &Transaction::new(
            TxnKind::CreditConvert,
            vec![
                Entry {
                    account: user_credit,
                    amount: MicroUsd(-500),
                },
                Entry {
                    account: ext_credit,
                    amount: MicroUsd(500),
                },
                Entry {
                    account: ext_cash,
                    amount: MicroUsd(-500),
                },
                Entry {
                    account: user_cash,
                    amount: MicroUsd(500),
                },
            ],
        )
        .unwrap(),
    )
    .unwrap();
    assert_eq!(bal.balance(user_credit).unwrap(), MicroUsd(0));
    assert_eq!(bal.balance(user_cash).unwrap(), MicroUsd(500));
    assert_eq!(bal.balance(ext_credit).unwrap(), MicroUsd(0));
    assert_eq!(bal.balance(ext_cash).unwrap(), MicroUsd(-500));
    assert_eq!(bal.internal_total(Currency::UsdcCredit), MicroUsd(0));
    assert_eq!(bal.internal_total(Currency::Usdc), MicroUsd(500));
}

#[test]
fn second_external_for_same_currency_rejected() {
    let mut bal = Balances::default();
    bal.open(acct(), OwnerType::External, Currency::Usdc)
        .unwrap();
    assert!(matches!(
        bal.open(acct(), OwnerType::External, Currency::Usdc),
        Err(LedgerError::DuplicateExternal {
            currency: Currency::Usdc
        })
    ));
    // a different currency is fine, and re-opening an existing id is a no-op
    let ext_credit = acct();
    bal.open(ext_credit, OwnerType::External, Currency::UsdcCredit)
        .unwrap();
    bal.open(ext_credit, OwnerType::External, Currency::UsdcCredit)
        .unwrap();
}

#[test]
fn money_singletons_are_one_per_currency_and_never_negative() {
    for owner in [
        OwnerType::Withheld,
        OwnerType::DepositSuspense,
        OwnerType::BonusReserve,
    ] {
        let mut bal = Balances::default();
        let first = acct();
        let ext = acct();
        bal.open(ext, OwnerType::External, Currency::Usdc).unwrap();
        bal.open(first, owner, Currency::Usdc).unwrap();
        assert!(matches!(
            bal.open(acct(), owner, Currency::Usdc),
            Err(LedgerError::DuplicateSingleton {
                owner: got,
                currency: Currency::Usdc
            }) if got == owner
        ));
        bal.open(first, owner, Currency::Usdc).unwrap();
        let overdraw = Transaction::new(
            TxnKind::Withdrawal,
            vec![
                Entry {
                    account: first,
                    amount: MicroUsd(-1),
                },
                Entry {
                    account: ext,
                    amount: MicroUsd(1),
                },
            ],
        )
        .unwrap();
        assert!(matches!(
            bal.apply(&overdraw),
            Err(LedgerError::InsufficientFunds { .. })
        ));
        let fund = Transaction::new(
            TxnKind::Deposit,
            vec![
                Entry {
                    account: ext,
                    amount: MicroUsd(-10),
                },
                Entry {
                    account: first,
                    amount: MicroUsd(10),
                },
            ],
        )
        .unwrap();
        bal.apply(&fund).unwrap();
        assert_eq!(bal.balance(first), Some(MicroUsd(10)));
    }
}

#[test]
fn structural_error_arms() {
    // TooFewEntries
    assert!(matches!(
        Transaction::new(
            TxnKind::Trade,
            vec![Entry {
                account: acct(),
                amount: MicroUsd(5)
            }]
        ),
        Err(LedgerError::TooFewEntries)
    ));
    // ZeroEntry
    assert!(matches!(
        Transaction::new(
            TxnKind::Trade,
            vec![
                Entry {
                    account: acct(),
                    amount: MicroUsd(0)
                },
                Entry {
                    account: acct(),
                    amount: MicroUsd(0)
                }
            ]
        ),
        Err(LedgerError::ZeroEntry)
    ));
}

#[test]
fn unknown_account_rejected() {
    let (known, unknown) = (acct(), acct());
    let mut bal = Balances::default();
    bal.open(known, OwnerType::User, Currency::Usdc).unwrap();
    let txn = Transaction::new(
        TxnKind::Trade,
        vec![
            Entry {
                account: known,
                amount: MicroUsd(-5),
            },
            Entry {
                account: unknown,
                amount: MicroUsd(5),
            },
        ],
    )
    .unwrap();
    assert!(matches!(bal.apply(&txn), Err(LedgerError::UnknownAccount)));
    assert_eq!(bal.balance(known).unwrap(), MicroUsd(0));
    assert_eq!(bal.balance(unknown), None);
}

#[test]
fn overflow_on_account_at_i64_max() {
    let (ext, user) = (acct(), acct());
    let mut bal = Balances::default();
    bal.open(ext, OwnerType::External, Currency::Usdc).unwrap();
    bal.open(user, OwnerType::User, Currency::Usdc).unwrap();
    bal.apply(
        &Transaction::new(
            TxnKind::Deposit,
            vec![
                Entry {
                    account: ext,
                    amount: MicroUsd(-i64::MAX),
                },
                Entry {
                    account: user,
                    amount: MicroUsd(i64::MAX),
                },
            ],
        )
        .unwrap(),
    )
    .unwrap();
    let txn = Transaction::new(
        TxnKind::Deposit,
        vec![
            Entry {
                account: ext,
                amount: MicroUsd(-1),
            },
            Entry {
                account: user,
                amount: MicroUsd(1),
            },
        ],
    )
    .unwrap();
    assert!(matches!(bal.apply(&txn), Err(LedgerError::Overflow)));
    // atomic: nothing moved
    assert_eq!(bal.balance(user).unwrap(), MicroUsd(i64::MAX));
    assert_eq!(bal.balance(ext).unwrap(), MicroUsd(-i64::MAX));
}
