//! Fences: the advisory locks by which pause writers exclude trades and votes,
//! and the one order in which they are taken.

use crate::identity;
use crate::json;
use crate::json::{Json, JsonView};
use crate::model::MarketId;
use crate::text;
use vstd::prelude::*;

verus! {

/// Advisory-lock class for the three fence namespaces (classes 1 to 3 are the
/// idempotency, user and LP-kill locks).
pub const FENCE_CLASS: i32 = 4;

/// The fence of trading on one market.
pub open spec fn trading_market_name(market: MarketId) -> Seq<char> {
    "trading-market:"@ + identity::uuid_text(market.0)
}

/// The fence of voting on one market.
pub open spec fn voting_market_name(market: MarketId) -> Seq<char> {
    "voting-market:"@ + identity::uuid_text(market.0)
}

#[must_use]
pub fn trading_global_fence() -> (r: String)
    ensures
        r@ == "trading-global"@,
{
    "trading-global".to_owned()
}

#[must_use]
pub fn trading_market_fence(market: MarketId) -> (r: String)
    ensures
        r@ == trading_market_name(market),
{
    text::join2("trading-market:", identity::format_uuid(market.0).as_str())
}

#[must_use]
pub fn voting_market_fence(market: MarketId) -> (r: String)
    ensures
        r@ == voting_market_name(market),
{
    text::join2("voting-market:", identity::format_uuid(market.0).as_str())
}

/// The key that pauses trading everywhere.
pub const TRADING_PAUSED_KEY: &'static str = "trading_paused";

/// The key that pauses trading on one market.
pub open spec fn market_paused_name(market: MarketId) -> Seq<char> {
    "market_paused:"@ + identity::uuid_text(market.0)
}

/// The key that pauses voting on one market.
pub open spec fn voting_paused_name(market: MarketId) -> Seq<char> {
    "voting_paused:"@ + identity::uuid_text(market.0)
}

/// The key that pauses trading on one market.
#[must_use]
pub fn market_paused_key(market: MarketId) -> (r: String)
    ensures
        r@ == "market_paused:"@ + identity::uuid_text(market.0),
{
    text::join2("market_paused:", identity::format_uuid(market.0).as_str())
}

/// The key that pauses voting on one market.
#[must_use]
pub fn voting_paused_key(market: MarketId) -> (r: String)
    ensures
        r@ == "voting_paused:"@ + identity::uuid_text(market.0),
{
    text::join2("voting_paused:", identity::format_uuid(market.0).as_str())
}

/// The market-scoped fence that writing a key needs, if it needs one.
pub open spec fn scoped_fence(key: Seq<char>) -> Option<Seq<char>> {
    if key == "trading_paused"@ {
        None
    } else {
        match text::after_prefix(key, "market_paused:"@) {
            Some(id) => Some("trading-market:"@ + id),
            None => match text::after_prefix(key, "voting_paused:"@) {
                Some(id) => Some("voting-market:"@ + id),
                None => None,
            },
        }
    }
}

/// The market-scoped fences that writing some keys needs, in order and with
/// repetitions.
pub open spec fn scoped_fences(keys: Seq<Seq<char>>) -> Seq<Seq<char>>
    decreases keys.len(),
{
    if keys.len() == 0 {
        Seq::empty()
    } else {
        match scoped_fence(keys.last()) {
            Some(f) => scoped_fences(keys.drop_last()).push(f),
            None => scoped_fences(keys.drop_last()),
        }
    }
}

/// The fences are those that writing the keys needs, in canonical order: the
/// global one first, then the market-scoped ones by name, each once.
pub open spec fn canonical_fences(fences: Seq<Seq<char>>, keys: Seq<Seq<char>>) -> bool {
    if text::text_in(keys, "trading_paused"@) {
        &&& fences.len() > 0
        &&& fences[0] == "trading-global"@
        &&& text::sorted_set_of(fences.skip(1), scoped_fences(keys))
    } else {
        text::sorted_set_of(fences, scoped_fences(keys))
    }
}

proof fn lemma_same_prefix_order(p: Seq<char>, a: Seq<char>, b: Seq<char>)
    ensures
        text::text_lt(p + a, p + b) == text::text_lt(a, b),
    decreases p.len(),
{
    if p.len() == 0 {
        assert(p + a =~= a && p + b =~= b);
    } else {
        assert((p + a).drop_first() =~= p.drop_first() + a);
        assert((p + b).drop_first() =~= p.drop_first() + b);
        lemma_same_prefix_order(p.drop_first(), a, b);
    }
}

/// The global fence comes before every market-scoped one by name, too.
proof fn lemma_global_fence_first(key: Seq<char>)
    ensures
        scoped_fence(key) matches Some(f) ==> text::text_lt("trading-global"@, f),
{
    reveal_strlit("trading-global");
    reveal_strlit("trading-market:");
    reveal_strlit("voting-market:");
    if let Some(f) = scoped_fence(key) {
        if text::after_prefix(key, "market_paused:"@) is Some {
            let id = text::after_prefix(key, "market_paused:"@).unwrap();
            let p = seq!['t', 'r', 'a', 'd', 'i', 'n', 'g', '-'];
            let a = seq!['g', 'l', 'o', 'b', 'a', 'l'];
            let b = seq!['m', 'a', 'r', 'k', 'e', 't', ':'] + id;
            assert("trading-global"@ =~= p + a);
            assert(f =~= p + b);
            lemma_same_prefix_order(p, a, b);
            assert(a[0] == 'g' && b[0] == 'm');
        } else {
            assert("trading-global"@[0] == 't');
            assert(f[0] == 'v');
        }
    }
}

proof fn lemma_scoped_member(keys: Seq<Seq<char>>, f: Seq<char>) -> (key: Seq<char>)
    requires
        text::text_in(scoped_fences(keys), f),
    ensures
        text::text_in(keys, key),
        scoped_fence(key) == Some(f),
    decreases keys.len(),
{
    let head = keys.drop_last();
    let last = keys.last();
    let inner = scoped_fences(head);
    if scoped_fence(last) == Some(f) {
        assert(keys[keys.len() - 1] == last);
        last
    } else {
        let k = choose|k: int|
            0 <= k < scoped_fences(keys).len() && #[trigger] scoped_fences(keys)[k] == f;
        assert(inner[k] == f);
        let key = lemma_scoped_member(head, f);
        let j = choose|j: int| 0 <= j < head.len() && #[trigger] head[j] == key;
        assert(keys[j] == key);
        key
    }
}

/// There is one order of fences: canonical fences strictly ascend by name,
/// whatever the keys, so two writers that share fences take them in the same
/// order and cannot wait for each other.
pub proof fn law_fences_have_one_order(fences: Seq<Seq<char>>, keys: Seq<Seq<char>>)
    requires
        canonical_fences(fences, keys),
    ensures
        text::ascending(fences),
{
    if text::text_in(keys, "trading_paused"@) {
        let rest = fences.skip(1);
        assert forall|i: int, j: int| 0 <= i < j < fences.len() implies text::text_lt(
            #[trigger] fences[i],
            #[trigger] fences[j],
        ) by {
            assert(fences[j] == rest[j - 1]);
            if i > 0 {
                assert(fences[i] == rest[i - 1]);
            } else {
                assert(text::text_in(rest, rest[j - 1]));
                assert(text::text_in(scoped_fences(keys), rest[j - 1]));
                let key = lemma_scoped_member(keys, rest[j - 1]);
                lemma_global_fence_first(key);
            }
        }
    }
}

/// Different markets have different fences, and a market's trading fence is
/// never a voting fence.
pub proof fn law_fences_tell_markets_apart(a: MarketId, b: MarketId)
    ensures
        trading_market_name(a) == trading_market_name(b) ==> a == b,
        voting_market_name(a) == voting_market_name(b) ==> a == b,
        trading_market_name(a) != voting_market_name(b),
{
    reveal_strlit("trading-market:");
    reveal_strlit("voting-market:");
    let x = identity::uuid_text(a.0);
    let y = identity::uuid_text(b.0);
    if trading_market_name(a) == trading_market_name(b) {
        assert(x =~= trading_market_name(a).skip(15));
        assert(y =~= trading_market_name(b).skip(15));
        identity::law_uuid_text_is_injective(a.0, b.0);
    }
    if voting_market_name(a) == voting_market_name(b) {
        assert(x =~= voting_market_name(a).skip(14));
        assert(y =~= voting_market_name(b).skip(14));
        identity::law_uuid_text_is_injective(a.0, b.0);
    }
    assert(trading_market_name(a)[0] == 't');
    assert(voting_market_name(b)[0] == 'v');
}

/// A market-scoped pause is that market's alone: two markets never share a key,
/// trading and voting never do, and none of them is the key that pauses all
/// trading.
pub proof fn law_pause_keys_tell_markets_apart(a: MarketId, b: MarketId)
    ensures
        market_paused_name(a) == market_paused_name(b) ==> a == b,
        voting_paused_name(a) == voting_paused_name(b) ==> a == b,
        market_paused_name(a) != voting_paused_name(b),
        market_paused_name(a) != "trading_paused"@,
        voting_paused_name(a) != "trading_paused"@,
{
    reveal_strlit("trading_paused");
    reveal_strlit("market_paused:");
    reveal_strlit("voting_paused:");
    let x = identity::uuid_text(a.0);
    let y = identity::uuid_text(b.0);
    if market_paused_name(a) == market_paused_name(b) {
        assert(x =~= market_paused_name(a).skip(14));
        assert(y =~= market_paused_name(b).skip(14));
        identity::law_uuid_text_is_injective(a.0, b.0);
    }
    if voting_paused_name(a) == voting_paused_name(b) {
        assert(x =~= voting_paused_name(a).skip(14));
        assert(y =~= voting_paused_name(b).skip(14));
        identity::law_uuid_text_is_injective(a.0, b.0);
    }
    assert(market_paused_name(a)[0] == 'm');
    assert(voting_paused_name(b)[0] == 'v');
    assert(voting_paused_name(a)[0] == 'v');
    assert("trading_paused"@[0] == 't');
}

/// Whoever writes a market's pause excludes whoever reads it: writing the key
/// takes the fence that trades, or votes, on that market share.
pub proof fn law_pause_writers_fence_their_market(market: MarketId)
    ensures
        scoped_fence(market_paused_name(market)) == Some(trading_market_name(market)),
        scoped_fence(voting_paused_name(market)) == Some(voting_market_name(market)),
{
    law_pause_keys_tell_markets_apart(market, market);
    reveal_strlit("market_paused:");
    reveal_strlit("voting_paused:");
    let id = identity::uuid_text(market.0);
    let trading = market_paused_name(market);
    let voting = voting_paused_name(market);
    assert(trading.take(14) =~= "market_paused:"@);
    assert(trading.skip(14) =~= id);
    assert(voting.take(14) =~= "voting_paused:"@);
    assert(voting.skip(14) =~= id);
    assert(voting.take(14)[0] == 'v' && "market_paused:"@[0] == 'm');
}

/// The exclusive fences a config patch must hold, in canonical order:
/// `trading-global` first, then market-scoped fences sorted by name. Pause
/// writers take only (proposal row, these fences, generation row, config rows)
/// and never any downstream trade or vote lock.
#[must_use]
pub fn exclusive_fences_for_patch(keys: &[String]) -> (r: Vec<String>)
    ensures
        canonical_fences(text::texts(r@), text::texts(keys@)),
        text::ascending(text::texts(r@)),
{
    let ghost all = text::texts(keys@);
    let mut scoped: Vec<String> = Vec::new();
    let mut global = false;
    let mut i: usize = 0;
    assert(text::texts(scoped@) =~= Seq::<Seq<char>>::empty());
    while i < keys.len()
        invariant
            i <= keys@.len(),
            all == text::texts(keys@),
            global == text::text_in(all.take(i as int), "trading_paused"@),
            text::sorted_set_of(text::texts(scoped@), scoped_fences(all.take(i as int))),
        decreases keys.len() - i,
    {
        let key = &keys[i];
        let ghost before = scoped_fences(all.take(i as int));
        let ghost was = text::texts(scoped@);
        proof {
            let now = all.take(i + 1);
            assert(now.drop_last() =~= all.take(i as int));
            assert(now.last() == key@);
            assert forall|x: Seq<char>| #[trigger] text::text_in(now, x) <==> (text::text_in(
                all.take(i as int),
                x,
            ) || x == key@) by {
                if text::text_in(now, x) {
                    let k = choose|k: int| 0 <= k < now.len() && #[trigger] now[k] == x;
                    if k < i {
                        assert(all.take(i as int)[k] == x);
                    }
                }
                if text::text_in(all.take(i as int), x) {
                    let k = choose|k: int|
                        0 <= k < i && #[trigger] all.take(i as int)[k] == x;
                    assert(now[k] == x);
                }
                if x == key@ {
                    assert(now[i as int] == x);
                }
            }
        }
        let mut fence: Option<String> = None;
        if text::same_text(key.as_str(), "trading_paused") {
            global = true;
        } else if let Some(id) = text::strip(key.as_str(), "market_paused:") {
            fence = Some(text::join2("trading-market:", id.as_str()));
        } else if let Some(id) = text::strip(key.as_str(), "voting_paused:") {
            fence = Some(text::join2("voting-market:", id.as_str()));
        }
        if let Some(f) = fence {
            let ghost name = f@;
            text::insert_sorted(&mut scoped, f);
            proof {
                let after = scoped_fences(all.take(i + 1));
                assert(after == before.push(name));
                assert forall|x: Seq<char>| #[trigger] text::text_in(
                    text::texts(scoped@),
                    x,
                ) <==> text::text_in(after, x) by {
                    if text::text_in(after, x) {
                        let k = choose|k: int| 0 <= k < after.len() && #[trigger] after[k] == x;
                        if k < before.len() {
                            assert(before[k] == x);
                            assert(text::text_in(before, x));
                            assert(text::text_in(was, x));
                        }
                    }
                    if text::text_in(text::texts(scoped@), x) {
                        if text::text_in(was, x) {
                            assert(text::text_in(before, x));
                            let k = choose|k: int|
                                0 <= k < before.len() && #[trigger] before[k] == x;
                            assert(after[k] == x);
                        } else {
                            assert(after[before.len() as int] == x);
                        }
                    }
                }
            }
        }
        i += 1;
    }
    assert(all.take(i as int) =~= all);
    let ghost sorted = text::texts(scoped@);
    let mut out: Vec<String> = Vec::new();
    if global {
        out.push(trading_global_fence());
    }
    let ghost front = text::texts(out@);
    let mut k: usize = 0;
    while k < scoped.len()
        invariant
            k <= scoped@.len(),
            sorted == text::texts(scoped@),
            text::texts(out@) == front + sorted.take(k as int),
        decreases scoped.len() - k,
    {
        let ghost was = text::texts(out@);
        out.push(scoped[k].clone());
        assert(text::texts(out@) =~= was.push(sorted[k as int]));
        assert(text::texts(out@) =~= front + sorted.take(k + 1));
        k += 1;
    }
    proof {
        let fences = text::texts(out@);
        assert(sorted.take(k as int) =~= sorted);
        if global {
            assert(front =~= seq!["trading-global"@]);
            assert(fences.skip(1) =~= sorted);
        } else {
            assert(fences =~= sorted);
        }
        law_fences_have_one_order(fences, all);
    }
    out
}

/// A pause flag is in force.
pub open spec fn paused(value: Option<JsonView>) -> bool {
    match value {
        Some(v) => json::bool_of(v) == Some(true),
        None => false,
    }
}

/// Reads a pause flag out of a config value: absent or non-`true` is unpaused.
#[must_use]
pub fn pause_in_force(value: Option<&Json>) -> (r: bool)
    ensures
        r == paused(
            match value {
                Some(v) => Some(v@),
                None => None,
            },
        ),
{
    match value {
        Some(v) => match v.as_bool() {
            Some(b) => b,
            None => false,
        },
        None => false,
    }
}

/// Which fence a key's writer takes: a market's pauses the fence of what they
/// pause on that market, and no other key one of a market.
pub proof fn law_which_fence_a_key_takes(key: Seq<char>, id: Seq<char>)
    ensures
        scoped_fence("market_paused:"@ + id) == Some("trading-market:"@ + id),
        scoped_fence("voting_paused:"@ + id) == Some("voting-market:"@ + id),
        scoped_fence("trading_paused"@) is None,
        !text::starts_with(key, "market_paused:"@) && !text::starts_with(key, "voting_paused:"@)
            ==> scoped_fence(key) is None,
{
    reveal_strlit("trading_paused");
    reveal_strlit("market_paused:");
    reveal_strlit("voting_paused:");
    text::law_prefixes_come_off("market_paused:"@, id, key);
    text::law_prefixes_come_off("voting_paused:"@, id, key);
    let trading = "market_paused:"@ + id;
    let voting = "voting_paused:"@ + id;
    assert(trading[0] == 'm' && voting[0] == 'v' && "trading_paused"@[0] == 't');
    if text::starts_with(voting, "market_paused:"@) {
        assert(voting.take(14)[0] == "market_paused:"@[0]);
    }
}

/// Every key adds its own fence.
pub proof fn law_fences_are_taken_key_by_key(keys: Seq<Seq<char>>, key: Seq<char>)
    ensures
        scoped_fences(keys.push(key)) == (match scoped_fence(key) {
            Some(f) => scoped_fences(keys).push(f),
            None => scoped_fences(keys),
        }),
        scoped_fences(Seq::empty()) == Seq::<Seq<char>>::empty(),
{
    assert(keys.push(key).drop_last() =~= keys);
}

/// What a writer takes: the global fence first where it writes the global pause,
/// and of the markets' fences exactly those that its keys need.
pub proof fn law_which_fences_a_writer_takes(
    fences: Seq<Seq<char>>,
    keys: Seq<Seq<char>>,
    name: Seq<char>,
)
    requires
        canonical_fences(fences, keys),
    ensures
        (exists|i: int| 0 <= i < keys.len() && #[trigger] keys[i] == "trading_paused"@)
            ==> fences.len() > 0 && fences[0] == "trading-global"@ && (text::text_in(
            fences.skip(1),
            name,
        ) <==> text::text_in(scoped_fences(keys), name)),
        !(exists|i: int| 0 <= i < keys.len() && #[trigger] keys[i] == "trading_paused"@) ==> (
        text::text_in(fences, name) <==> text::text_in(scoped_fences(keys), name)),
{
    assert(text::text_in(scoped_fences(keys), name) <==> text::text_in(scoped_fences(keys), name));
}

/// A pause is in force exactly where its flag reads `true`.
pub proof fn law_only_true_pauses(value: JsonView)
    ensures
        paused(Some(value)) <==> value == JsonView::Bool(true),
        !paused(None),
{
}

} // verus!
