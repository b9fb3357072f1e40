//! Hashes of patches and canonical fingerprints of requests.

use crate::amm::Side;
use crate::digest;
use crate::error;
use crate::error::{AppError, Fault};
use crate::identity;
use crate::json;
use crate::json::{Json, JsonView};
use crate::model::{MarketId, TradeAction, UserId};
use crate::text;
use vstd::prelude::*;

verus! {

/// The hash of a patch: SHA-256 of its canonical text.
pub open spec fn patch_digest(patch: JsonView) -> Seq<char> {
    digest::sha256_text(vstd::utf8::encode_utf8(json::canonical_text(patch)))
}

/// SHA-256 hex of the canonical JSON encoding.
#[must_use]
pub fn patch_hash(patch: &Json) -> (r: String)
    ensures
        r@ == patch_digest(patch@),
        r@.len() == 64,
{
    let canonical = json::canonical_json(patch);
    digest::sha256_hex(canonical.as_str().as_bytes())
}

/// Patches that say the same have the same hash, however they are written.
pub proof fn law_same_patch_same_hash(a: JsonView, b: JsonView)
    requires
        json::same_content(a, b),
    ensures
        patch_digest(a) == patch_digest(b),
{
}

/// The name of a side in fingerprints.
pub open spec fn side_name(side: Side) -> Seq<char> {
    match side {
        Side::Yes => "yes"@,
        Side::No => "no"@,
    }
}

/// The name of an action in fingerprints.
pub open spec fn action_name(action: TradeAction) -> Seq<char> {
    match action {
        TradeAction::Buy => "buy"@,
        TradeAction::Sell => "sell"@,
    }
}

/// The text of an optional configuration version.
pub open spec fn version_text(version: Option<i64>) -> Seq<char> {
    match version {
        Some(v) => text::decimal(v as int),
        None => "-"@,
    }
}

/// The canonical fingerprint of a trade request.
pub open spec fn trade_print(
    market: MarketId,
    user: UserId,
    side: Side,
    action: TradeAction,
    amount_micro: i64,
    version: Option<i64>,
) -> Seq<char> {
    "trade:"@ + identity::uuid_text(market.0) + ":"@ + identity::uuid_text(user.0) + ":"@
        + side_name(side) + ":"@ + action_name(action) + ":"@ + text::decimal(amount_micro as int)
        + ":"@ + version_text(version)
}

/// The canonical fingerprint of a vote request.
pub open spec fn vote_print(
    market: MarketId,
    user: UserId,
    side: Side,
    crowd_guess_pct: u8,
) -> Seq<char> {
    "vote:"@ + identity::uuid_text(market.0) + ":"@ + identity::uuid_text(user.0) + ":"@
        + side_name(side) + ":"@ + text::decimal(crowd_guess_pct as int)
}

pub(crate) fn name_of_side(side: Side) -> (r: &'static str)
    ensures
        r@ == side_name(side),
{
    match side {
        Side::Yes => "yes",
        Side::No => "no",
    }
}

pub(crate) fn name_of_action(action: TradeAction) -> (r: &'static str)
    ensures
        r@ == action_name(action),
{
    match action {
        TradeAction::Buy => "buy",
        TradeAction::Sell => "sell",
    }
}

/// Canonical trade request fingerprint: market, user, side, action, amount and
/// expected configuration version.
#[must_use]
pub fn trade_fingerprint(
    market: MarketId,
    user: UserId,
    side: Side,
    action: TradeAction,
    amount_micro: i64,
    expected_config_version: Option<i64>,
) -> (r: String)
    ensures
        r@ == trade_print(market, user, side, action, amount_micro, expected_config_version),
{
    let version = match expected_config_version {
        Some(v) => text::decimal_text(v),
        None => "-".to_owned(),
    };
    let mut out = "trade:".to_owned();
    out.append(identity::format_uuid(market.0).as_str());
    out.append(":");
    out.append(identity::format_uuid(user.0).as_str());
    out.append(":");
    out.append(name_of_side(side));
    out.append(":");
    out.append(name_of_action(action));
    out.append(":");
    out.append(text::decimal_text(amount_micro).as_str());
    out.append(":");
    out.append(version.as_str());
    out
}

/// Canonical vote request fingerprint: market, user, side and guess.
#[must_use]
pub fn vote_fingerprint(market: MarketId, user: UserId, side: Side, crowd_guess_pct: u8) -> (r:
    String)
    ensures
        r@ == vote_print(market, user, side, crowd_guess_pct),
{
    let mut out = "vote:".to_owned();
    out.append(identity::format_uuid(market.0).as_str());
    out.append(":");
    out.append(identity::format_uuid(user.0).as_str());
    out.append(":");
    out.append(name_of_side(side));
    out.append(":");
    out.append(text::decimal_text(crowd_guess_pct as i64).as_str());
    out
}

/// What a stored fingerprint says, if there is one.
pub open spec fn stored_print(stored: Option<&str>) -> Option<Seq<char>> {
    match stored {
        Some(s) => Some(s@),
        None => None,
    }
}

/// Why a replay is refused, if it is: a persisted fingerprint differs.
pub open spec fn replay_fault(stored: Option<Seq<char>>, expected: Seq<char>) -> Option<Fault> {
    match stored {
        Some(s) => if s != expected {
            Some(Fault::IdempotencyConflict)
        } else {
            None
        },
        None => None,
    }
}

/// Validates a persisted request fingerprint while preserving compatibility
/// with idempotency rows that have none.
///
/// # Errors
///
/// [`AppError::IdempotencyConflict`] when a persisted fingerprint differs.
pub fn validate_replay_fingerprint(stored: Option<&str>, expected: &str) -> (r: Result<
    (),
    AppError,
>)
    ensures
        error::checked(r, replay_fault(stored_print(stored), expected@)),
{
    if let Some(s) = stored {
        if !text::same_text(s, expected) {
            return Err(AppError::IdempotencyConflict);
        }
    }
    Ok(())
}

/// Twelve pieces, grouped from the left, are the same grouped from the right.
proof fn lemma_regroup(
    p: Seq<char>,
    x: Seq<char>,
    c: Seq<char>,
    y: Seq<char>,
    s: Seq<char>,
    a: Seq<char>,
    d: Seq<char>,
    v: Seq<char>,
)
    ensures
        p + x + c + y + c + s + c + a + c + d + c + v == p + (x + (c + (y + (c + (s + (c + (a + (c
            + (d + (c + v)))))))))),
{
    let p1 = p + x;
    let p2 = p1 + c;
    let p3 = p2 + y;
    let p4 = p3 + c;
    let p5 = p4 + s;
    let p6 = p5 + c;
    let p7 = p6 + a;
    let p8 = p7 + c;
    let p9 = p8 + d;
    let r1 = c + v;
    let r2 = d + r1;
    let r3 = c + r2;
    let r4 = a + r3;
    let r5 = c + r4;
    let r6 = s + r5;
    let r7 = c + r6;
    let r8 = y + r7;
    let r9 = c + r8;
    text::lemma_assoc(p9, c, v);
    text::lemma_assoc(p8, d, r1);
    text::lemma_assoc(p7, c, r2);
    text::lemma_assoc(p6, a, r3);
    text::lemma_assoc(p5, c, r4);
    text::lemma_assoc(p4, s, r5);
    text::lemma_assoc(p3, c, r6);
    text::lemma_assoc(p2, y, r7);
    text::lemma_assoc(p1, c, r8);
    text::lemma_assoc(p, x, r9);
}

/// The names of sides and actions tell them apart and hold no colon.
proof fn lemma_names(s: Side, s2: Side, a: TradeAction, a2: TradeAction)
    ensures
        text::no_colon(side_name(s)),
        text::no_colon(action_name(a)),
        side_name(s) == side_name(s2) ==> s == s2,
        action_name(a) == action_name(a2) ==> a == a2,
{
    reveal_strlit("yes");
    reveal_strlit("no");
    reveal_strlit("buy");
    reveal_strlit("sell");
    assert("yes"@.len() == 3 && "no"@.len() == 2);
    assert("buy"@.len() == 3 && "sell"@.len() == 4);
}

/// The text of a version tells which version it is.
proof fn lemma_version_injective(v: Option<i64>, v2: Option<i64>)
    requires
        version_text(v) == version_text(v2),
    ensures
        v == v2,
{
    reveal_strlit("-");
    if let Some(p) = v {
        text::lemma_decimal_no_colon(p as int);
    }
    if let Some(q) = v2 {
        text::lemma_decimal_no_colon(q as int);
    }
    if v is Some && v2 is Some {
        text::lemma_decimal_injective(v.unwrap() as int, v2.unwrap() as int);
    }
}

/// A trade fingerprint pins the whole request: requests that differ in market,
/// user, side, action, amount or expected version have different fingerprints.
pub proof fn law_trade_fingerprint_pins_the_request(
    m: MarketId,
    u: UserId,
    s: Side,
    a: TradeAction,
    n: i64,
    v: Option<i64>,
    m2: MarketId,
    u2: UserId,
    s2: Side,
    a2: TradeAction,
    n2: i64,
    v2: Option<i64>,
)
    requires
        trade_print(m, u, s, a, n, v) == trade_print(m2, u2, s2, a2, n2, v2),
    ensures
        m == m2,
        u == u2,
        s == s2,
        a == a2,
        n == n2,
        v == v2,
{
    let c = seq![':'];
    assert(":"@ =~= c) by {
        reveal_strlit(":");
    }
    let p = "trade:"@;
    let x = identity::uuid_text(m.0);
    let x2 = identity::uuid_text(m2.0);
    let y = identity::uuid_text(u.0);
    let y2 = identity::uuid_text(u2.0);
    let d = text::decimal(n as int);
    let d2 = text::decimal(n2 as int);
    let t = version_text(v);
    let t2 = version_text(v2);
    lemma_regroup(p, x, c, y, side_name(s), action_name(a), d, t);
    lemma_regroup(p, x2, c, y2, side_name(s2), action_name(a2), d2, t2);
    let tail = d + (c + t);
    let tail2 = d2 + (c + t2);
    let end = action_name(a) + (c + tail);
    let end2 = action_name(a2) + (c + tail2);
    let mid = side_name(s) + (c + end);
    let mid2 = side_name(s2) + (c + end2);
    let rest = y + (c + mid);
    let rest2 = y2 + (c + mid2);
    text::lemma_split_front(p, x + (c + rest), p, x2 + (c + rest2));
    text::lemma_split_front(x, c + rest, x2, c + rest2);
    text::lemma_split_front(c, rest, c, rest2);
    text::lemma_split_front(y, c + mid, y2, c + mid2);
    text::lemma_split_front(c, mid, c, mid2);
    identity::law_uuid_text_is_injective(m.0, m2.0);
    identity::law_uuid_text_is_injective(u.0, u2.0);
    lemma_names(s, s2, a, a2);
    lemma_names(s2, s, a2, a);
    text::lemma_split_colon(side_name(s), end, side_name(s2), end2);
    text::lemma_split_colon(action_name(a), tail, action_name(a2), tail2);
    text::lemma_decimal_no_colon(n as int);
    text::lemma_decimal_no_colon(n2 as int);
    text::lemma_split_colon(d, t, d2, t2);
    text::lemma_decimal_injective(n as int, n2 as int);
    lemma_version_injective(v, v2);
}

/// A fingerprint that was stored must be the request's own; where none was stored
/// nothing is compared.
pub proof fn law_replays_match_their_fingerprint(stored: Seq<char>, expected: Seq<char>)
    ensures
        replay_fault(None, expected) is None,
        replay_fault(Some(expected), expected) is None,
        stored != expected ==> replay_fault(Some(stored), expected) == Some(
            Fault::IdempotencyConflict,
        ),
{
}

/// A vote's fingerprint pins its request: the market, the user, the side and the
/// guess.
pub proof fn law_vote_fingerprint_pins_the_request(
    m: MarketId,
    u: UserId,
    s: Side,
    g: u8,
    m2: MarketId,
    u2: UserId,
    s2: Side,
    g2: u8,
)
    requires
        vote_print(m, u, s, g) == vote_print(m2, u2, s2, g2),
    ensures
        m == m2,
        u == u2,
        s == s2,
        g == g2,
{
    let c = seq![':'];
    assert(":"@ =~= c) by {
        reveal_strlit(":");
    }
    let p = "vote:"@;
    let x = identity::uuid_text(m.0);
    let x2 = identity::uuid_text(m2.0);
    let y = identity::uuid_text(u.0);
    let y2 = identity::uuid_text(u2.0);
    let d = text::decimal(g as int);
    let d2 = text::decimal(g2 as int);
    let mid = side_name(s) + (c + d);
    let mid2 = side_name(s2) + (c + d2);
    let rest = y + (c + mid);
    let rest2 = y2 + (c + mid2);
    assert(vote_print(m, u, s, g) =~= p + (x + (c + rest)));
    assert(vote_print(m2, u2, s2, g2) =~= p + (x2 + (c + rest2)));
    text::lemma_split_front(p, x + (c + rest), p, x2 + (c + rest2));
    text::lemma_split_front(x, c + rest, x2, c + rest2);
    text::lemma_split_front(c, rest, c, rest2);
    text::lemma_split_front(y, c + mid, y2, c + mid2);
    text::lemma_split_front(c, mid, c, mid2);
    identity::law_uuid_text_is_injective(m.0, m2.0);
    identity::law_uuid_text_is_injective(u.0, u2.0);
    lemma_names(s, s2, TradeAction::Buy, TradeAction::Buy);
    lemma_names(s2, s, TradeAction::Buy, TradeAction::Buy);
    text::lemma_split_colon(side_name(s), d, side_name(s2), d2);
    text::lemma_decimal_injective(g as int, g2 as int);
}

} // verus!
