//! Share cards: rendered on demand after resolution, and kept under an address
//! that their content determines.

use crate::digest;
use crate::error::{AppError, Fault};
use crate::identity;
use crate::market::MarketState;
use crate::model::{MarketId, MarketRow, RealizationFact, RealizationSource, UserId};
use crate::text;
use vstd::prelude::*;

verus! {

/// What one user realized on one market.
#[derive(Debug, Clone, PartialEq, Eq)]
pub struct CardSummary {
    pub side_yes: bool,
    pub payout_micro: i64,
    pub return_bps: i64,
    /// The digest over the ordered facts; part of the address.
    pub realization_digest: String,
}

/// The name of a source.
pub open spec fn source_text(source: RealizationSource) -> Seq<char> {
    match source {
        RealizationSource::Sell => "sell"@,
        RealizationSource::Settlement => "settlement"@,
        RealizationSource::Void => "void"@,
    }
}

fn source_name(source: RealizationSource) -> (r: &'static str)
    ensures
        r@ == source_text(source),
{
    match source {
        RealizationSource::Sell => "sell",
        RealizationSource::Settlement => "settlement",
        RealizationSource::Void => "void",
    }
}

/// A number held at the bounds of an amount.
pub open spec fn clamped(value: int) -> int {
    if value < i64::MIN {
        i64::MIN as int
    } else if value > i64::MAX {
        i64::MAX as int
    } else {
        value
    }
}

fn clamp(value: i128) -> (r: i64)
    ensures
        r == clamped(value as int),
{
    if value < i64::MIN as i128 {
        i64::MIN
    } else if value > i64::MAX as i128 {
        i64::MAX
    } else {
        value as i64
    }
}

/// The sum of the payouts.
pub open spec fn payout_sum(facts: Seq<RealizationFact>) -> int
    decreases facts.len(),
{
    if facts.len() == 0 {
        0
    } else {
        payout_sum(facts.drop_last()) + facts.last().payout.0
    }
}

/// The sum of what was realized.
pub open spec fn delta_sum(facts: Seq<RealizationFact>) -> int
    decreases facts.len(),
{
    if facts.len() == 0 {
        0
    } else {
        delta_sum(facts.drop_last()) + facts.last().realized_delta.0
    }
}

/// The return in basis points, rounded toward zero; none where nothing was paid.
pub open spec fn return_of(payout: int, delta: int) -> int {
    let cost = payout - delta;
    if cost <= 0 {
        0
    } else if delta >= 0 {
        clamped(delta * 10_000 / cost)
    } else {
        clamped(-((-delta) * 10_000 / cost))
    }
}

/// One fact, as the digest reads it.
pub open spec fn fact_text(fact: RealizationFact) -> Seq<char> {
    source_text(fact.source) + ":"@ + identity::uuid_text(fact.outcome.0) + ":"@ + text::decimal(
        fact.realized_delta.0 as int,
    ) + ":"@ + text::decimal(fact.payout.0 as int) + ":"@ + identity::uuid_text(fact.ledger_txn.0)
        + ";"@
}

/// Some facts, as the digest reads them.
pub open spec fn facts_text(facts: Seq<RealizationFact>) -> Seq<char>
    decreases facts.len(),
{
    if facts.len() == 0 {
        Seq::empty()
    } else {
        facts_text(facts.drop_last()) + fact_text(facts.last())
    }
}

/// The digest of some facts.
pub open spec fn realization_digest(facts: Seq<RealizationFact>) -> Seq<char> {
    digest::sha256_text(vstd::utf8::encode_utf8(facts_text(facts)))
}

fn push_fact(out: &mut String, fact: &RealizationFact)
    ensures
        final(out)@ == old(out)@ + fact_text(*fact),
{
    let ghost before = out@;
    let a = text::join3(source_name(fact.source), ":", identity::format_uuid(fact.outcome.0).as_str());
    let b = text::join3(a.as_str(), ":", text::decimal_text(fact.realized_delta.0).as_str());
    let c = text::join3(b.as_str(), ":", text::decimal_text(fact.payout.0).as_str());
    let d = text::join3(c.as_str(), ":", identity::format_uuid(fact.ledger_txn.0).as_str());
    let line = text::join2(d.as_str(), ";");
    assert(line@ =~= fact_text(*fact));
    *out = text::join2(out.as_str(), line.as_str());
}

/// Sums the facts of one user on one market up. The facts are ordered by time
/// and transaction, which makes the digest and the side deterministic.
#[must_use]
pub fn summarize(facts: &[RealizationFact], market: &MarketRow) -> (r: CardSummary)
    requires
        0 < facts@.len() < 1_000_000_000_000_000,
    ensures
        r.side_yes == (facts@.last().outcome == market.yes_outcome),
        r.payout_micro == clamped(payout_sum(facts@)),
        r.return_bps == return_of(payout_sum(facts@), delta_sum(facts@)),
        r.realization_digest@ == realization_digest(facts@),
        r.realization_digest@.len() == 64,
{
    let mut payout: i128 = 0;
    let mut delta: i128 = 0;
    let mut lines: String = String::new();
    let mut i: usize = 0;
    assert(lines@ =~= facts_text(facts@.take(0)));
    while i < facts.len()
        invariant
            i <= facts@.len(),
            facts@.len() < 1_000_000_000_000_000,
            payout == payout_sum(facts@.take(i as int)),
            delta == delta_sum(facts@.take(i as int)),
            lines@ == facts_text(facts@.take(i as int)),
            -(i * 0x8000_0000_0000_0000) <= payout <= i * 0x8000_0000_0000_0000,
            -(i * 0x8000_0000_0000_0000) <= delta <= i * 0x8000_0000_0000_0000,
        decreases facts.len() - i,
    {
        let fact = &facts[i];
        proof {
            assert(facts@.take(i + 1).drop_last() =~= facts@.take(i as int));
            assert(facts@.take(i + 1).last() == *fact);
        }
        payout = payout + fact.payout.0 as i128;
        delta = delta + fact.realized_delta.0 as i128;
        push_fact(&mut lines, fact);
        i += 1;
    }
    assert(facts@.take(i as int) =~= facts@);
    let cost: i128 = payout - delta;
    let return_bps: i64 = if cost > 0 {
        let scaled: i128 = delta * 10_000;
        clamp(scaled / cost)
    } else {
        0
    };
    let last = &facts[facts.len() - 1];
    CardSummary {
        side_yes: last.outcome == market.yes_outcome,
        payout_micro: clamp(payout),
        return_bps,
        realization_digest: digest::sha256_hex(lines.as_str().as_bytes()),
    }
}

/// The text that an address is the digest of.
pub open spec fn address_text(
    user: UserId,
    market: MarketId,
    realization_digest: Seq<char>,
    spec_version: u8,
) -> Seq<char> {
    identity::uuid_text(user.0) + ":"@ + identity::uuid_text(market.0) + ":"@ + realization_digest
        + ":"@ + text::decimal(spec_version as int)
}

/// The address of a card: it depends on the user, the market, the facts and the
/// version of the layout.
#[must_use]
pub fn card_address(
    user: UserId,
    market: MarketId,
    realization_digest: &str,
    spec_version: u8,
) -> (r: String)
    ensures
        r@ == digest::sha256_text(
            vstd::utf8::encode_utf8(
                address_text(user, market, realization_digest@, spec_version),
            ),
        ),
        r@.len() == 64,
{
    let a = text::join3(
        identity::format_uuid(user.0).as_str(),
        ":",
        identity::format_uuid(market.0).as_str(),
    );
    let b = text::join3(a.as_str(), ":", realization_digest);
    let c = text::join3(b.as_str(), ":", text::decimal_text(spec_version as i64).as_str());
    assert(c@ =~= address_text(user, market, realization_digest@, spec_version));
    digest::sha256_hex(c.as_str().as_bytes())
}

/// A market whose result is known.
pub open spec fn is_post_resolution(state: MarketState) -> bool {
    state == MarketState::Resolved || state == MarketState::Paid || state == MarketState::Voided
}

fn post_resolution(state: MarketState) -> (r: bool)
    ensures
        r == is_post_resolution(state),
{
    match state {
        MarketState::Resolved | MarketState::Paid | MarketState::Voided => true,
        _ => false,
    }
}

/// Why there is no card, if there is none: before resolution nothing is shown,
/// and whoever realized nothing has nothing to share.
pub open spec fn card_fault(state: MarketState, realized: nat) -> Option<Fault> {
    if !is_post_resolution(state) {
        Some(Fault::JobNotReady)
    } else if realized == 0 {
        Some(Fault::ArtifactNotFound)
    } else {
        None
    }
}

/// Whether a card can be asked for yet; nothing else is read of the market
/// before this.
///
/// # Errors
///
/// [`AppError::JobNotReady`] before resolution.
pub fn card_ready(market: &MarketRow) -> (r: Result<(), AppError>)
    ensures
        crate::error::checked(
            r,
            if is_post_resolution(market.state) {
                None
            } else {
                Some(Fault::JobNotReady)
            },
        ),
{
    if post_resolution(market.state) {
        Ok(())
    } else {
        Err(AppError::JobNotReady)
    }
}

/// The summary of a card.
///
/// # Errors
///
/// [`AppError::JobNotReady`] before resolution, [`AppError::ArtifactNotFound`]
/// where the user realized nothing on the market.
pub fn share_card_svg(market: &MarketRow, facts: &[RealizationFact]) -> (r: Result<
    CardSummary,
    AppError,
>)
    requires
        facts@.len() < 1_000_000_000_000_000,
    ensures
        match card_fault(market.state, facts@.len()) {
            Some(f) => crate::error::failed(r, f),
            None => r matches Ok(summary) && summary.side_yes == (facts@.last().outcome
                == market.yes_outcome) && summary.payout_micro == clamped(payout_sum(facts@))
                && summary.return_bps == return_of(payout_sum(facts@), delta_sum(facts@))
                && summary.realization_digest@ == realization_digest(facts@),
        },
{
    match card_ready(market) {
        Ok(()) => {},
        Err(e) => return Err(e),
    }
    if facts.len() == 0 {
        return Err(AppError::ArtifactNotFound);
    }
    Ok(summarize(facts, market))
}

/// An address takes everything in: requests that differ in user, market, digest
/// or layout are addressed by the digests of different texts.
pub proof fn law_address_pins_the_card(
    u: UserId,
    m: MarketId,
    d: Seq<char>,
    v: u8,
    u2: UserId,
    m2: MarketId,
    d2: Seq<char>,
    v2: u8,
)
    requires
        address_text(u, m, d, v) == address_text(u2, m2, d2, v2),
    ensures
        u == u2,
        m == m2,
        d == d2,
        v == v2,
{
    let c = ":"@;
    let x = identity::uuid_text(u.0);
    let y = identity::uuid_text(m.0);
    let n = text::decimal(v as int);
    let x2 = identity::uuid_text(u2.0);
    let y2 = identity::uuid_text(m2.0);
    let n2 = text::decimal(v2 as int);
    let tail = d + c + n;
    let tail2 = d2 + c + n2;
    assert(address_text(u, m, d, v) =~= x + (c + (y + (c + tail))));
    assert(address_text(u2, m2, d2, v2) =~= x2 + (c + (y2 + (c + tail2))));
    text::lemma_split_front(x, c + (y + (c + tail)), x2, c + (y2 + (c + tail2)));
    text::lemma_split_front(c, y + (c + tail), c, y2 + (c + tail2));
    text::lemma_split_front(y, c + tail, y2, c + tail2);
    text::lemma_split_front(c, tail, c, tail2);
    identity::law_uuid_text_is_injective(u.0, u2.0);
    identity::law_uuid_text_is_injective(m.0, m2.0);
    lemma_last_field(d, n, d2, n2, v as int, v2 as int);
    text::lemma_decimal_injective(v as int, v2 as int);
}

/// A number after the last colon can be read back.
proof fn lemma_last_field(
    d: Seq<char>,
    n: Seq<char>,
    d2: Seq<char>,
    n2: Seq<char>,
    v: int,
    v2: int,
)
    requires
        d + ":"@ + n == d2 + ":"@ + n2,
        n == text::decimal(v),
        n2 == text::decimal(v2),
    ensures
        d == d2,
        n == n2,
{
    reveal_strlit(":");
    text::lemma_decimal_no_colon(v);
    text::lemma_decimal_no_colon(v2);
    let a = d + ":"@ + n;
    let b = d2 + ":"@ + n2;
    assert(a[d.len() as int] == ':');
    assert(b[d2.len() as int] == ':');
    assert(a.len() == d.len() + 1 + n.len());
    assert(b.len() == d2.len() + 1 + n2.len());
    if n.len() < n2.len() {
        let i = a.len() - n.len() - 1;
        assert(b[i] == n2[i - d2.len() - 1]);
    }
    if n2.len() < n.len() {
        let i = a.len() - n2.len() - 1;
        assert(a[i] == n[i - d.len() - 1]);
    }
    assert(d =~= a.take(d.len() as int));
    assert(d2 =~= b.take(d.len() as int));
    assert(n =~= a.skip(d.len() as int + 1));
    assert(n2 =~= b.skip(d.len() as int + 1));
}

/// A character does not occur in a text.
spec fn lacks(s: Seq<char>, c: char) -> bool {
    forall|i: int| 0 <= i < s.len() ==> #[trigger] s[i] != c
}

proof fn lemma_uuid_lacks(x: u128)
    ensures
        lacks(identity::uuid_text(x), ';'),
        identity::uuid_text(x).len() == 36,
{
    assert forall|i: int| 0 <= i < 36 implies #[trigger] identity::uuid_text(x)[i] != ';' by {
        if !identity::is_hyphen(i) {
            let n = identity::nibble(x as int, i - identity::hyphens_before(i));
            digest::lemma_hex_digit(n);
        }
    }
}

proof fn lemma_decimal_lacks(n: int)
    ensures
        lacks(text::decimal(n), ';'),
{
    if n < 0 {
        text::lemma_digits_len((-n) as nat);
        let d = text::digits((-n) as nat);
        assert forall|i: int| 0 <= i < text::decimal(n).len() implies #[trigger] text::decimal(
            n,
        )[i] != ';' by {
            if i > 0 {
                assert(text::decimal(n)[i] == d[i - 1]);
            }
        }
    } else {
        text::lemma_digits_len(n as nat);
    }
}

/// One fact, as the digest reads it, without its end.
spec fn fact_body(fact: RealizationFact) -> Seq<char> {
    source_text(fact.source) + (":"@ + (identity::uuid_text(fact.outcome.0) + (":"@ + (
    text::decimal(fact.realized_delta.0 as int) + (":"@ + (text::decimal(fact.payout.0 as int) + (
    ":"@ + identity::uuid_text(fact.ledger_txn.0))))))))
}

proof fn lemma_join_lacks(a: Seq<char>, b: Seq<char>, c: char)
    requires
        lacks(a, c),
        lacks(b, c),
    ensures
        lacks(a + b, c),
{
    assert forall|i: int| 0 <= i < (a + b).len() implies #[trigger] (a + b)[i] != c by {
        if i < a.len() {
            assert((a + b)[i] == a[i]);
        } else {
            assert((a + b)[i] == b[i - a.len()]);
        }
    }
}

proof fn lemma_body_lacks(fact: RealizationFact)
    ensures
        lacks(fact_body(fact), ';'),
        fact_text(fact) == fact_body(fact) + ";"@,
{
    reveal_strlit(":");
    reveal_strlit("sell");
    reveal_strlit("settlement");
    reveal_strlit("void");
    let s = source_text(fact.source);
    let o = identity::uuid_text(fact.outcome.0);
    let d = text::decimal(fact.realized_delta.0 as int);
    let p = text::decimal(fact.payout.0 as int);
    let t = identity::uuid_text(fact.ledger_txn.0);
    let c = ":"@;
    lemma_uuid_lacks(fact.outcome.0);
    lemma_uuid_lacks(fact.ledger_txn.0);
    lemma_decimal_lacks(fact.realized_delta.0 as int);
    lemma_decimal_lacks(fact.payout.0 as int);
    assert(lacks(s, ';'));
    assert(lacks(c, ';'));
    lemma_join_lacks(c, t, ';');
    lemma_join_lacks(p, c + t, ';');
    lemma_join_lacks(c, p + (c + t), ';');
    lemma_join_lacks(d, c + (p + (c + t)), ';');
    lemma_join_lacks(c, d + (c + (p + (c + t))), ';');
    lemma_join_lacks(o, c + (d + (c + (p + (c + t)))), ';');
    lemma_join_lacks(c, o + (c + (d + (c + (p + (c + t))))), ';');
    lemma_join_lacks(s, c + (o + (c + (d + (c + (p + (c + t)))))), ';');
    assert(fact_text(fact) =~= fact_body(fact) + ";"@);
}

/// What the digest reads of a fact.
pub open spec fn same_on_the_card(a: RealizationFact, b: RealizationFact) -> bool {
    &&& a.source == b.source
    &&& a.outcome == b.outcome
    &&& a.realized_delta == b.realized_delta
    &&& a.payout == b.payout
    &&& a.ledger_txn == b.ledger_txn
}

proof fn lemma_source_injective(a: RealizationSource, b: RealizationSource)
    ensures
        text::no_colon(source_text(a)),
        source_text(a) == source_text(b) ==> a == b,
{
    reveal_strlit("sell");
    reveal_strlit("settlement");
    reveal_strlit("void");
    assert("sell"@.len() == 4 && "settlement"@.len() == 10 && "void"@.len() == 4);
    assert("sell"@[0] == 's' && "void"@[0] == 'v');
}

proof fn lemma_body_injective(a: RealizationFact, b: RealizationFact)
    requires
        fact_body(a) == fact_body(b),
    ensures
        same_on_the_card(a, b),
{
    let c = seq![':'];
    assert(":"@ =~= c) by {
        reveal_strlit(":");
    }
    let o = identity::uuid_text(a.outcome.0);
    let o2 = identity::uuid_text(b.outcome.0);
    let d = text::decimal(a.realized_delta.0 as int);
    let d2 = text::decimal(b.realized_delta.0 as int);
    let p = text::decimal(a.payout.0 as int);
    let p2 = text::decimal(b.payout.0 as int);
    let t = identity::uuid_text(a.ledger_txn.0);
    let t2 = identity::uuid_text(b.ledger_txn.0);
    let r1 = p + (c + t);
    let s1 = p2 + (c + t2);
    let r2 = d + (c + r1);
    let s2 = d2 + (c + s1);
    let r3 = o + (c + r2);
    let s3 = o2 + (c + s2);
    lemma_source_injective(a.source, b.source);
    lemma_source_injective(b.source, a.source);
    text::lemma_split_colon(source_text(a.source), r3, source_text(b.source), s3);
    text::lemma_split_front(o, c + r2, o2, c + s2);
    text::lemma_split_front(c, r2, c, s2);
    text::lemma_decimal_no_colon(a.realized_delta.0 as int);
    text::lemma_decimal_no_colon(b.realized_delta.0 as int);
    text::lemma_split_colon(d, r1, d2, s1);
    text::lemma_decimal_no_colon(a.payout.0 as int);
    text::lemma_decimal_no_colon(b.payout.0 as int);
    text::lemma_split_colon(p, t, p2, t2);
    identity::law_uuid_text_is_injective(a.outcome.0, b.outcome.0);
    identity::law_uuid_text_is_injective(a.ledger_txn.0, b.ledger_txn.0);
    text::lemma_decimal_injective(a.realized_delta.0 as int, b.realized_delta.0 as int);
    text::lemma_decimal_injective(a.payout.0 as int, b.payout.0 as int);
}

proof fn lemma_facts_end(facts: Seq<RealizationFact>)
    ensures
        facts.len() == 0 ==> facts_text(facts).len() == 0,
        facts.len() > 0 ==> facts_text(facts).len() > 0 && facts_text(facts).last() == ';',
{
    if facts.len() > 0 {
        reveal_strlit(";");
        lemma_body_lacks(facts.last());
        let whole = facts_text(facts.drop_last()) + (fact_body(facts.last()) + ";"@);
        assert(facts_text(facts) == whole);
        assert(whole[whole.len() - 1] == ";"@[0]);
    }
}

/// Two texts whose last lines hold no separator agree in those lines.
proof fn lemma_split_last(p: Seq<char>, x: Seq<char>, q: Seq<char>, y: Seq<char>)
    requires
        p + x == q + y,
        lacks(x, ';'),
        lacks(y, ';'),
        p.len() == 0 || p.last() == ';',
        q.len() == 0 || q.last() == ';',
    ensures
        p == q,
        x == y,
{
    let whole = p + x;
    assert(whole.len() == p.len() + x.len());
    assert(whole.len() == q.len() + y.len());
    if p.len() > q.len() {
        let i = p.len() - 1;
        assert(whole[i] == p[i]);
        assert((q + y)[i] == y[i - q.len()]);
    }
    if q.len() > p.len() {
        let i = q.len() - 1;
        assert((q + y)[i] == q[i]);
        assert(whole[i] == x[i - p.len()]);
    }
    text::lemma_split_front(p, x, q, y);
}

/// The digest reads everything: facts that differ in number, or in source,
/// outcome, gain, payout or transaction anywhere, are digested from different
/// texts.
pub proof fn law_digest_reads_every_fact(a: Seq<RealizationFact>, b: Seq<RealizationFact>)
    requires
        facts_text(a) == facts_text(b),
    ensures
        a.len() == b.len(),
        forall|i: int| 0 <= i < a.len() ==> same_on_the_card(#[trigger] a[i], b[i]),
    decreases a.len(),
{
    lemma_facts_end(a);
    lemma_facts_end(b);
    if a.len() > 0 {
        let p = a.drop_last();
        let q = b.drop_last();
        lemma_body_lacks(a.last());
        lemma_body_lacks(b.last());
        let x = fact_body(a.last());
        let y = fact_body(b.last());
        let end = ";"@;
        assert(facts_text(a) =~= (facts_text(p) + x) + end);
        assert(facts_text(b) =~= (facts_text(q) + y) + end);
        assert((facts_text(p) + x).len() == facts_text(a).len() - end.len());
        assert((facts_text(q) + y).len() == facts_text(b).len() - end.len());
        text::lemma_split_front(facts_text(p) + x, end, facts_text(q) + y, end);
        lemma_facts_end(p);
        lemma_facts_end(q);
        lemma_split_last(facts_text(p), x, facts_text(q), y);
        lemma_body_injective(a.last(), b.last());
        law_digest_reads_every_fact(p, q);
        assert forall|i: int| 0 <= i < a.len() implies same_on_the_card(#[trigger] a[i], b[i]) by {
            if i < p.len() {
                assert(a[i] == p[i] && b[i] == q[i]);
            }
        }
    }
}

/// What a card sums up is the plain sum of what was paid out and of what was
/// realized.
pub proof fn law_cards_sum_every_fact_up(facts: Seq<RealizationFact>)
    ensures
        payout_sum(facts) == facts.fold_left(
            0int,
            |sum: int, f: RealizationFact| sum + f.payout.0,
        ),
        delta_sum(facts) == facts.fold_left(
            0int,
            |sum: int, f: RealizationFact| sum + f.realized_delta.0,
        ),
    decreases facts.len(),
{
    reveal_with_fuel(Seq::fold_left, 2);
    if facts.len() > 0 {
        law_cards_sum_every_fact_up(facts.drop_last());
    }
}

/// The return is what was realized, in ten-thousandths of what was spent on it,
/// rounded toward zero; what cost nothing has no return. What was spent is the
/// payout less what was realized.
pub proof fn law_returns_are_measured_against_the_cost(payout: int, delta: int)
    requires
        -900_000_000_000_000 <= delta <= 900_000_000_000_000,
    ensures
        payout <= delta ==> return_of(payout, delta) == 0,
        payout > delta && delta >= 0 ==> return_of(payout, delta) * (payout - delta) <= 10_000
            * delta < (return_of(payout, delta) + 1) * (payout - delta),
        payout > delta && delta < 0 ==> (return_of(payout, delta) - 1) * (payout - delta) < 10_000
            * delta <= return_of(payout, delta) * (payout - delta),
{
    let cost = payout - delta;
    if cost > 0 {
        let n = if delta >= 0 {
            delta * 10_000
        } else {
            (-delta) * 10_000
        };
        crate::money::lemma_floor(n, cost);
        let q = n / cost;
        assert(0 <= q <= n) by (nonlinear_arith)
            requires
                0 <= n,
                0 < cost,
                q == n / cost,
        ;
        assert((-q - 1) * cost == -((q + 1) * cost) && (-q) * cost == -(q * cost))
            by (nonlinear_arith);
    }
}

/// An amount beyond its bounds is shown as the nearest that fits, and every other
/// one as it is.
pub proof fn law_amounts_are_held_at_their_bounds(value: int)
    ensures
        -9_223_372_036_854_775_808 <= value <= 9_223_372_036_854_775_807 ==> clamped(value) == value,
        value > 9_223_372_036_854_775_807 ==> clamped(value) == 9_223_372_036_854_775_807,
        value < -9_223_372_036_854_775_808 ==> clamped(value) == -9_223_372_036_854_775_808,
{
}

/// There is a card once the market is resolved, paid or void, for whoever realized
/// anything on it.
pub proof fn law_when_there_is_a_card(state: MarketState, realized: nat)
    ensures
        card_fault(state, realized) is None <==> (state == MarketState::Resolved || state
            == MarketState::Paid || state == MarketState::Voided) && realized > 0,
        card_fault(state, realized) == Some(Fault::JobNotReady) <==> state != MarketState::Resolved
            && state != MarketState::Paid && state != MarketState::Voided,
{
}

} // verus!
