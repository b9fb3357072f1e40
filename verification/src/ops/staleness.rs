//! When configuration drift makes a trade's preview stale.

use crate::json;
use crate::json::{Json, JsonView};
use crate::model;
use crate::model::{ChangeView, ConfigChange, MarketId, RepConfig, TradeAction};
use crate::ops::checks;
use crate::ops::fee_override;
use crate::ops::fee_override::FeeBpsOverride;
use crate::text;
use vstd::prelude::*;

verus! {

/// What the fence point knows about this request when deciding relevance.
#[derive(Debug, Clone, Copy)]
pub struct StalenessContext {
    pub user_tier: u8,
    /// Base fee stamped on this market's pool (immutable for its life).
    pub pool_fee_bps: u16,
    /// Override active at the authoritative request fence. When the override
    /// key itself did not change, other fee inputs are still evaluated against
    /// this base rather than the immutable pool stamp.
    pub active_fee_override: FeeBpsOverride,
    /// Committed values the process is running with (fallbacks when a key
    /// never changed).
    pub rep: RepConfig,
    pub action: TradeAction,
    /// Seconds since this user's last buy of the outcome, when selling.
    pub secs_since_last_buy: Option<i64>,
    /// Market whose fee override is relevant.
    pub market: Option<MarketId>,
}

/// The value of `key` when the preview was made, if it changed since: what the
/// first change replaced.
pub open spec fn at_preview(changes: Seq<ChangeView>, key: Seq<char>) -> Option<JsonView>
    decreases changes.len(),
{
    if changes.len() == 0 {
        None
    } else if changes[0].key == key {
        match changes[0].old {
            Some(v) => Some(v),
            None => Some(JsonView::Null),
        }
    } else {
        at_preview(changes.drop_first(), key)
    }
}

/// The value of `key` now, if it changed since the preview: what the last
/// change set.
pub open spec fn at_present(changes: Seq<ChangeView>, key: Seq<char>) -> Option<JsonView>
    decreases changes.len(),
{
    if changes.len() == 0 {
        None
    } else if changes.last().key == key {
        Some(changes.last().new)
    } else {
        at_present(changes.drop_last(), key)
    }
}

/// The integer that an optional document is, or the fallback.
pub open spec fn scalar(v: Option<JsonView>, fallback: int) -> int {
    match v {
        Some(doc) => match json::int_of(doc) {
            Some(n) => n,
            None => fallback,
        },
        None => fallback,
    }
}

/// The entry of a tier in an optional list of five integers, or the fallback.
pub open spec fn tier_entry(v: Option<JsonView>, tier: int, fallback: int) -> int {
    match v {
        Some(doc) => match checks::int_list(doc, 5) {
            Ok(list) => list[tier],
            Err(_) => fallback,
        },
        None => fallback,
    }
}

/// The tier's place in the published tables; every tier above the top one has
/// the top one's.
pub open spec fn tier_index(tier: u8) -> int {
    if tier > 4 {
        4
    } else {
        tier as int
    }
}

/// The pending action would flip under this window.
pub open spec fn would_flip(
    action: TradeAction,
    secs_since_last_buy: Option<i64>,
    window: int,
) -> bool {
    action == TradeAction::Sell && window != 0 && (match secs_since_last_buy {
        Some(secs) => secs < window,
        None => false,
    })
}

/// The effective fee: the base for a flip, else the discounted base down to the
/// floor.
pub open spec fn priced_fee(base: int, min_fee: int, discount: int, flip: bool) -> int {
    if flip {
        base
    } else if base - discount < min_fee {
        min_fee
    } else {
        base - discount
    }
}

/// What the user's position cap and effective fee were at the preview and are
/// now. A fee that cannot be read is `None`.
pub struct Drift {
    pub cap_before: int,
    pub cap_after: int,
    pub fee_before: Option<int>,
    pub fee_after: Option<int>,
}

/// The effective fee from its inputs, where the override can be read.
pub open spec fn fee_under(
    ctx: StalenessContext,
    fee_override: Option<FeeBpsOverride>,
    min_fee: int,
    discount: int,
    window: int,
) -> Option<int> {
    match fee_override {
        Some(o) => Some(
            priced_fee(
                o.base(ctx.pool_fee_bps) as int,
                min_fee,
                discount,
                would_flip(ctx.action, ctx.secs_since_last_buy, window),
            ),
        ),
        None => None,
    }
}

/// The override's value at the preview or now. Where the market's key did not
/// change, it is the active one.
pub open spec fn override_when(
    ctx: StalenessContext,
    changes: Seq<ChangeView>,
    present: bool,
) -> Option<FeeBpsOverride> {
    match ctx.market {
        Some(market) => {
            let key = fee_override::override_key_text(market);
            if at_present(changes, key) is Some {
                fee_override::stored_override(
                    if present {
                        at_present(changes, key)
                    } else {
                        at_preview(changes, key)
                    },
                )
            } else {
                Some(ctx.active_fee_override)
            }
        },
        None => Some(ctx.active_fee_override),
    }
}

/// How the changes move what this user was shown.
pub open spec fn drift(ctx: StalenessContext, changes: Seq<ChangeView>) -> Drift {
    let tier = tier_index(ctx.user_tier);
    let cap_before = tier_entry(
        at_preview(changes, "position_cap_micro_by_tier"@),
        tier,
        ctx.rep.position_cap_micro_by_tier[tier] as int,
    );
    let cap_after = tier_entry(
        at_present(changes, "position_cap_micro_by_tier"@),
        tier,
        cap_before,
    );
    let floor_before = scalar(at_preview(changes, "min_fee_bps"@), ctx.rep.min_fee_bps as int);
    let floor_after = scalar(at_present(changes, "min_fee_bps"@), floor_before);
    let discount_before = tier_entry(
        at_preview(changes, "fee_discount_bp_by_tier"@),
        tier,
        ctx.rep.fee_discount_bp_by_tier[tier] as int,
    );
    let discount_after = tier_entry(
        at_present(changes, "fee_discount_bp_by_tier"@),
        tier,
        discount_before,
    );
    let window_before = scalar(
        at_preview(changes, "discount_flip_window_secs"@),
        window_secs(ctx.rep.discount_flip_window_secs),
    );
    let window_after = scalar(
        at_present(changes, "discount_flip_window_secs"@),
        window_before,
    );
    Drift {
        cap_before,
        cap_after,
        fee_before: fee_under(
            ctx,
            override_when(ctx, changes, false),
            floor_before,
            discount_before,
            window_before,
        ),
        fee_after: fee_under(
            ctx,
            override_when(ctx, changes, true),
            floor_after,
            discount_after,
            window_after,
        ),
    }
}

/// A window in seconds, capped at the greatest signed number.
pub open spec fn window_secs(window: u64) -> int {
    if window > i64::MAX {
        i64::MAX as int
    } else {
        window as int
    }
}

/// The changes make this user's preview stale: the position cap or the
/// effective fee that was shown is no longer the one in force, or an override
/// cannot be read.
pub open spec fn stale(ctx: StalenessContext, changes: Seq<ChangeView>) -> bool {
    let d = drift(ctx, changes);
    changes.len() > 0 && (d.cap_before != d.cap_after || d.fee_before is None || d.fee_after is None
        || d.fee_before != d.fee_after)
}

/// A key that a preview depends on.
pub open spec fn previewed_key(ctx: StalenessContext, key: Seq<char>) -> bool {
    ||| key == "position_cap_micro_by_tier"@
    ||| key == "min_fee_bps"@
    ||| key == "fee_discount_bp_by_tier"@
    ||| key == "discount_flip_window_secs"@
    ||| (ctx.market matches Some(market) && key == fee_override::override_key_text(market))
}

proof fn lemma_unchanged(changes: Seq<ChangeView>, key: Seq<char>)
    requires
        forall|i: int| 0 <= i < changes.len() ==> (#[trigger] changes[i]).key != key,
    ensures
        at_preview(changes, key) is None,
        at_present(changes, key) is None,
    decreases changes.len(),
{
    if changes.len() > 0 {
        let front = changes.drop_last();
        let back = changes.drop_first();
        assert(changes.last() == changes[changes.len() - 1]);
        assert forall|i: int| 0 <= i < front.len() implies (#[trigger] front[i]).key != key by {
            assert(front[i] == changes[i]);
        }
        assert forall|i: int| 0 <= i < back.len() implies (#[trigger] back[i]).key != key by {
            assert(back[i] == changes[i + 1]);
        }
        lemma_unchanged(front, key);
        lemma_unchanged(back, key);
    }
}

/// Changes of other keys never make a preview stale; a change of the global fee
/// is for new markets only and leaves an existing book alone.
pub proof fn law_unrelated_changes_are_never_stale(ctx: StalenessContext, changes: Seq<ChangeView>)
    requires
        forall|i: int| 0 <= i < changes.len() ==> !previewed_key(ctx, (#[trigger] changes[i]).key),
    ensures
        !stale(ctx, changes),
{
    lemma_unchanged(changes, "position_cap_micro_by_tier"@);
    lemma_unchanged(changes, "min_fee_bps"@);
    lemma_unchanged(changes, "fee_discount_bp_by_tier"@);
    lemma_unchanged(changes, "discount_flip_window_secs"@);
    if let Some(market) = ctx.market {
        lemma_unchanged(changes, fee_override::override_key_text(market));
    }
}

/// A change of the flip window alone never makes a buy's preview stale.
pub proof fn law_flip_window_never_stales_a_buy(ctx: StalenessContext, changes: Seq<ChangeView>)
    requires
        ctx.action == TradeAction::Buy,
        forall|i: int|
            0 <= i < changes.len() ==> (#[trigger] changes[i]).key == "discount_flip_window_secs"@,
    ensures
        !stale(ctx, changes),
{
    reveal_strlit("position_cap_micro_by_tier");
    reveal_strlit("min_fee_bps");
    reveal_strlit("fee_discount_bp_by_tier");
    reveal_strlit("discount_flip_window_secs");
    assert("discount_flip_window_secs"@.len() == 25);
    assert("position_cap_micro_by_tier"@.len() == 26);
    assert("min_fee_bps"@.len() == 11);
    assert("fee_discount_bp_by_tier"@.len() == 23);
    lemma_unchanged(changes, "position_cap_micro_by_tier"@);
    lemma_unchanged(changes, "min_fee_bps"@);
    lemma_unchanged(changes, "fee_discount_bp_by_tier"@);
    if let Some(market) = ctx.market {
        reveal_strlit("fee_bps_override:");
        assert(fee_override::override_key_text(market).len() == 53);
        lemma_unchanged(changes, fee_override::override_key_text(market));
    }
}

/// What an optional document says.
pub open spec fn said(v: Option<&Json>) -> Option<JsonView> {
    match v {
        Some(doc) => Some(doc@),
        None => None,
    }
}

/// The value of `key` when the preview was made, if it changed since.
fn value_at_preview(changes: &[ConfigChange], key: &str) -> (r: Option<Json>)
    ensures
        match r {
            Some(v) => at_preview(model::changes_view(changes@), key@) == Some(v@),
            None => at_preview(model::changes_view(changes@), key@) is None,
        },
{
    let ghost all = model::changes_view(changes@);
    let mut i: usize = 0;
    assert(all.skip(0) =~= all);
    while i < changes.len()
        invariant
            i <= changes@.len(),
            all == model::changes_view(changes@),
            at_preview(all, key@) == at_preview(all.skip(i as int), key@),
        decreases changes.len() - i,
    {
        assert(all.skip(i as int)[0] == all[i as int]);
        assert(all.skip(i as int).drop_first() =~= all.skip(i + 1));
        if text::same_text(changes[i].key.as_str(), key) {
            return match &changes[i].old {
                Some(v) => Some(v.clone()),
                None => Some(Json::Null),
            };
        }
        i += 1;
    }
    None
}

/// The value of `key` now, if it changed since the preview.
fn value_now<'a>(changes: &'a [ConfigChange], key: &str) -> (r: Option<&'a Json>)
    ensures
        said(r) == at_present(model::changes_view(changes@), key@),
{
    let ghost all = model::changes_view(changes@);
    let mut n: usize = changes.len();
    assert(all.take(n as int) =~= all);
    while n > 0
        invariant
            n <= changes@.len(),
            all == model::changes_view(changes@),
            at_present(all, key@) == at_present(all.take(n as int), key@),
        decreases n,
    {
        assert(all.take(n as int).last() == all[n - 1]);
        assert(all.take(n as int).drop_last() =~= all.take(n - 1));
        if text::same_text(changes[n - 1].key.as_str(), key) {
            return Some(&changes[n - 1].new);
        }
        n -= 1;
    }
    None
}

fn scalar_or(v: Option<&Json>, fallback: i64) -> (r: i64)
    ensures
        r == scalar(said(v), fallback as int),
{
    match v {
        Some(doc) => match doc.as_i64() {
            Some(n) => n,
            None => fallback,
        },
        None => fallback,
    }
}

fn tier_entry_or(v: Option<&Json>, tier: usize, fallback: i64) -> (r: i64)
    requires
        tier <= 4,
    ensures
        r == tier_entry(said(v), tier as int, fallback as int),
{
    match v {
        Some(doc) => match checks::as_i64_array::<5>(doc) {
            Ok(list) => list[tier],
            Err(_) => fallback,
        },
        None => fallback,
    }
}

fn as_reference(v: &Option<Json>) -> (r: Option<&Json>)
    ensures
        said(r) == (match *v {
            Some(doc) => Some(doc@),
            None => None,
        }),
{
    match v {
        Some(doc) => Some(doc),
        None => None,
    }
}

fn flips(ctx: &StalenessContext, window: i64) -> (r: bool)
    ensures
        r == would_flip(ctx.action, ctx.secs_since_last_buy, window as int),
{
    match ctx.action {
        TradeAction::Sell => {
            if window == 0 {
                return false;
            }
            match ctx.secs_since_last_buy {
                Some(secs) => secs < window,
                None => false,
            }
        },
        TradeAction::Buy => false,
    }
}

fn fee_from(base: u16, min_fee: i64, discount: i64, flip: bool) -> (r: i128)
    ensures
        r == priced_fee(base as int, min_fee as int, discount as int, flip),
{
    if flip {
        return base as i128;
    }
    let discounted: i128 = base as i128 - discount as i128;
    if discounted < min_fee as i128 {
        min_fee as i128
    } else {
        discounted
    }
}

/// A preview is stale iff a field that it showed for this market and user
/// changed since the previewed generation: this user's effective position cap,
/// the flip window when the pending action would flip, or any effective-fee
/// input for this user. A global fee change is for new markets only and never
/// stales an existing book. A malformed persisted override is conservatively
/// relevant; the request path fails closed on the same value.
#[must_use]
pub fn preview_relevant_drift(changes: &[ConfigChange], ctx: &StalenessContext) -> (r: bool)
    ensures
        r == stale(*ctx, model::changes_view(changes@)),
{
    if changes.len() == 0 {
        return false;
    }
    let tier: usize = if ctx.user_tier > 4 {
        4
    } else {
        ctx.user_tier as usize
    };
    let cap_was = value_at_preview(changes, "position_cap_micro_by_tier");
    let cap_before: i64 = tier_entry_or(
        as_reference(&cap_was),
        tier,
        ctx.rep.position_cap_micro_by_tier[tier],
    );
    let cap_after: i64 = tier_entry_or(
        value_now(changes, "position_cap_micro_by_tier"),
        tier,
        cap_before,
    );
    if cap_before != cap_after {
        return true;
    }
    let floor_was = value_at_preview(changes, "min_fee_bps");
    let floor_before: i64 = scalar_or(as_reference(&floor_was), ctx.rep.min_fee_bps as i64);
    let floor_after: i64 = scalar_or(value_now(changes, "min_fee_bps"), floor_before);
    let discount_was = value_at_preview(changes, "fee_discount_bp_by_tier");
    let discount_before: i64 = tier_entry_or(
        as_reference(&discount_was),
        tier,
        ctx.rep.fee_discount_bp_by_tier[tier] as i64,
    );
    let discount_after: i64 = tier_entry_or(
        value_now(changes, "fee_discount_bp_by_tier"),
        tier,
        discount_before,
    );
    let window: i64 = if ctx.rep.discount_flip_window_secs > i64::MAX as u64 {
        i64::MAX
    } else {
        ctx.rep.discount_flip_window_secs as i64
    };
    let window_was = value_at_preview(changes, "discount_flip_window_secs");
    let window_before: i64 = scalar_or(as_reference(&window_was), window);
    let window_after: i64 = scalar_or(
        value_now(changes, "discount_flip_window_secs"),
        window_before,
    );
    let mut override_before = ctx.active_fee_override;
    let mut override_after = ctx.active_fee_override;
    if let Some(market) = ctx.market {
        let key = fee_override::override_key(market);
        let present = value_now(changes, key.as_str());
        if present.is_some() {
            let was = value_at_preview(changes, key.as_str());
            match (FeeBpsOverride::parse(as_reference(&was)), FeeBpsOverride::parse(present)) {
                (Ok(before), Ok(after)) => {
                    override_before = before;
                    override_after = after;
                },
                _ => return true,
            }
        }
    }
    let fee_before: i128 = fee_from(
        override_before.base_bps(ctx.pool_fee_bps),
        floor_before,
        discount_before,
        flips(ctx, window_before),
    );
    let fee_after: i128 = fee_from(
        override_after.base_bps(ctx.pool_fee_bps),
        floor_after,
        discount_after,
        flips(ctx, window_after),
    );
    fee_before != fee_after
}

/// What a key held at the preview is what its first change replaced, and what it
/// holds now is what its last change set.
pub proof fn law_first_change_replaced_and_last_change_set(
    before: Seq<ChangeView>,
    change: ChangeView,
    after: Seq<ChangeView>,
)
    ensures
        (forall|i: int| 0 <= i < before.len() ==> (#[trigger] before[i]).key != change.key)
            ==> at_preview(before + seq![change] + after, change.key) == Some(
            match change.old {
                Some(v) => v,
                None => JsonView::Null,
            },
        ),
        (forall|i: int| 0 <= i < after.len() ==> (#[trigger] after[i]).key != change.key)
            ==> at_present(before + seq![change] + after, change.key) == Some(change.new),
    decreases before.len() + after.len(),
{
    let all = before + seq![change] + after;
    if forall|i: int| 0 <= i < before.len() ==> (#[trigger] before[i]).key != change.key {
        if before.len() == 0 {
            assert(all[0] == change);
        } else {
            let less = before.drop_first();
            assert(all.drop_first() =~= less + seq![change] + after);
            assert(all[0] == before[0]);
            assert forall|i: int| 0 <= i < less.len() implies (#[trigger] less[i]).key
                != change.key by {
                assert(less[i] == before[i + 1]);
            }
            law_first_change_replaced_and_last_change_set(less, change, after);
        }
    }
    if forall|i: int| 0 <= i < after.len() ==> (#[trigger] after[i]).key != change.key {
        if after.len() == 0 {
            assert(all.last() == change);
        } else {
            let less = after.drop_last();
            assert(all.drop_last() =~= before + seq![change] + less);
            assert(all.last() == after[after.len() - 1]);
            assert forall|i: int| 0 <= i < less.len() implies (#[trigger] less[i]).key
                != change.key by {
                assert(less[i] == after[i]);
            }
            law_first_change_replaced_and_last_change_set(before, change, less);
        }
    }
}

proof fn lemma_one_change(ctx: StalenessContext, change: ChangeView)
    ensures
        at_preview(seq![change], change.key) == Some(
            match change.old {
                Some(v) => v,
                None => JsonView::Null,
            },
        ),
        at_present(seq![change], change.key) == Some(change.new),
        change.key != "position_cap_micro_by_tier"@ ==> at_preview(
            seq![change],
            "position_cap_micro_by_tier"@,
        ) is None && at_present(seq![change], "position_cap_micro_by_tier"@) is None,
        change.key != "min_fee_bps"@ ==> at_preview(seq![change], "min_fee_bps"@) is None
            && at_present(seq![change], "min_fee_bps"@) is None,
        change.key != "fee_discount_bp_by_tier"@ ==> at_preview(
            seq![change],
            "fee_discount_bp_by_tier"@,
        ) is None && at_present(seq![change], "fee_discount_bp_by_tier"@) is None,
        change.key != "discount_flip_window_secs"@ ==> at_preview(
            seq![change],
            "discount_flip_window_secs"@,
        ) is None && at_present(seq![change], "discount_flip_window_secs"@) is None,
        ctx.market matches Some(market) ==> change.key.len() != 53 ==> at_preview(
            seq![change],
            fee_override::override_key_text(market),
        ) is None && at_present(seq![change], fee_override::override_key_text(market)) is None,
        "position_cap_micro_by_tier"@.len() == 26,
        "min_fee_bps"@.len() == 11,
        "fee_discount_bp_by_tier"@.len() == 23,
        "discount_flip_window_secs"@.len() == 25,
{
    let none = Seq::<ChangeView>::empty();
    law_first_change_replaced_and_last_change_set(none, change, none);
    assert(none + seq![change] + none =~= seq![change]);
    let one = seq![change];
    reveal_strlit("position_cap_micro_by_tier");
    reveal_strlit("min_fee_bps");
    reveal_strlit("fee_discount_bp_by_tier");
    reveal_strlit("discount_flip_window_secs");
    if change.key != "position_cap_micro_by_tier"@ {
        lemma_unchanged(one, "position_cap_micro_by_tier"@);
    }
    if change.key != "min_fee_bps"@ {
        lemma_unchanged(one, "min_fee_bps"@);
    }
    if change.key != "fee_discount_bp_by_tier"@ {
        lemma_unchanged(one, "fee_discount_bp_by_tier"@);
    }
    if change.key != "discount_flip_window_secs"@ {
        lemma_unchanged(one, "discount_flip_window_secs"@);
    }
    if let Some(market) = ctx.market {
        reveal_strlit("fee_bps_override:");
        if change.key.len() != 53 {
            assert(fee_override::override_key_text(market).len() == 53);
            lemma_unchanged(one, fee_override::override_key_text(market));
        }
    }
}

/// A change of the position caps makes a preview stale exactly where it moves the
/// cap of the user's own tier.
pub proof fn law_cap_changes_stale_their_own_tier(
    ctx: StalenessContext,
    change: ChangeView,
    was: Seq<int>,
    now: Seq<int>,
)
    requires
        ctx.user_tier <= 4,
        change.key == "position_cap_micro_by_tier"@,
        change.old matches Some(v) && checks::int_list(v, 5) == Ok::<Seq<int>, Seq<char>>(was),
        checks::int_list(change.new, 5) == Ok::<Seq<int>, Seq<char>>(now),
    ensures
        stale(ctx, seq![change]) <==> was[ctx.user_tier as int] != now[ctx.user_tier as int],
{
    lemma_one_change(ctx, change);
}

/// A change of the fee floor makes a preview stale exactly where it moves what
/// this user pays: where the discounted base lies below one of the two floors,
/// and never for a flip.
pub proof fn law_floor_changes_stale_who_pays_the_floor(
    ctx: StalenessContext,
    change: ChangeView,
    was: int,
    now: int,
    base: int,
    discounted: int,
    flip: bool,
)
    requires
        ctx.user_tier <= 4,
        change.key == "min_fee_bps"@,
        change.old == Some(JsonView::Int(was)),
        change.new == JsonView::Int(now),
        match ctx.active_fee_override {
            FeeBpsOverride::Inherit => base == ctx.pool_fee_bps,
            FeeBpsOverride::Override(bps) => base == bps,
        },
        discounted == base - ctx.rep.fee_discount_bp_by_tier@[ctx.user_tier as int],
        ctx.rep.discount_flip_window_secs <= i64::MAX,
        flip <==> ctx.action == TradeAction::Sell && (ctx.secs_since_last_buy matches Some(secs)
            && secs < ctx.rep.discount_flip_window_secs) && ctx.rep.discount_flip_window_secs > 0,
    ensures
        flip ==> !stale(ctx, seq![change]),
        !flip ==> (stale(ctx, seq![change]) <==> was != now && (was > discounted || now
            > discounted)),
{
    lemma_one_change(ctx, change);
}

/// A change of the discounts makes a preview stale exactly where it moves what
/// this user pays: where the discount of their tier differs and one of the two
/// leaves them above the floor, and never for a flip.
pub proof fn law_discount_changes_stale_who_pays_above_the_floor(
    ctx: StalenessContext,
    change: ChangeView,
    was: Seq<int>,
    now: Seq<int>,
    base: int,
    flip: bool,
)
    requires
        ctx.user_tier <= 4,
        change.key == "fee_discount_bp_by_tier"@,
        change.old matches Some(v) && checks::int_list(v, 5) == Ok::<Seq<int>, Seq<char>>(was),
        checks::int_list(change.new, 5) == Ok::<Seq<int>, Seq<char>>(now),
        match ctx.active_fee_override {
            FeeBpsOverride::Inherit => base == ctx.pool_fee_bps,
            FeeBpsOverride::Override(bps) => base == bps,
        },
        ctx.rep.discount_flip_window_secs <= i64::MAX,
        flip <==> ctx.action == TradeAction::Sell && (ctx.secs_since_last_buy matches Some(secs)
            && secs < ctx.rep.discount_flip_window_secs) && ctx.rep.discount_flip_window_secs > 0,
    ensures
        flip ==> !stale(ctx, seq![change]),
        !flip ==> (stale(ctx, seq![change]) <==> was[ctx.user_tier as int]
            != now[ctx.user_tier as int] && (base - was[ctx.user_tier as int] > ctx.rep.min_fee_bps
            || base - now[ctx.user_tier as int] > ctx.rep.min_fee_bps)),
{
    lemma_one_change(ctx, change);
}

/// A change of the flip window makes a sell's preview stale exactly where the
/// sell flips under one of the two windows and not under the other, and flipping
/// costs more.
pub proof fn law_window_changes_stale_who_stops_or_starts_to_flip(
    ctx: StalenessContext,
    change: ChangeView,
    secs: i64,
    was: int,
    now: int,
    base: int,
)
    requires
        ctx.user_tier <= 4,
        ctx.action == TradeAction::Sell,
        ctx.secs_since_last_buy == Some(secs),
        secs >= 0,
        change.key == "discount_flip_window_secs"@,
        change.old == Some(JsonView::Int(was)),
        change.new == JsonView::Int(now),
        match ctx.active_fee_override {
            FeeBpsOverride::Inherit => base == ctx.pool_fee_bps,
            FeeBpsOverride::Override(bps) => base == bps,
        },
        base >= ctx.rep.min_fee_bps,
    ensures
        stale(ctx, seq![change]) <==> (secs < was) != (secs < now) && base > ctx.rep.min_fee_bps
            && ctx.rep.fee_discount_bp_by_tier@[ctx.user_tier as int] > 0,
{
    lemma_one_change(ctx, change);
}

/// A change of the market's own override makes a preview stale exactly where it
/// moves what this user pays, and always where one of its values cannot be read.
pub proof fn law_override_changes_stale_who_pays_differently(
    ctx: StalenessContext,
    change: ChangeView,
    market: MarketId,
    was: u16,
    now: u16,
    discount: int,
    floor: int,
)
    requires
        ctx.user_tier <= 4,
        ctx.action == TradeAction::Buy,
        ctx.market == Some(market),
        change.key == fee_override::override_key_text(market),
        discount == ctx.rep.fee_discount_bp_by_tier@[ctx.user_tier as int],
        floor == ctx.rep.min_fee_bps,
    ensures
        change.old matches Some(v) ==> fee_override::stored_override(Some(v)) == Some(
            FeeBpsOverride::Override(was),
        ) && fee_override::stored_override(Some(change.new)) == Some(
            FeeBpsOverride::Override(now),
        ) ==> (stale(ctx, seq![change]) <==> was != now && (was - discount > floor || now - discount
            > floor)),
        fee_override::stored_override(Some(change.new)) is None ==> stale(ctx, seq![change]),
{
    lemma_one_change(ctx, change);
    reveal_strlit("fee_bps_override:");
    assert(change.key.len() == 53);
}

/// A tier of the table is its own place, and every tier above the top one has the
/// top one's.
pub proof fn law_tiers_above_the_top_count_as_the_top(tier: u8)
    ensures
        tier <= 4 ==> tier_index(tier) == tier,
        tier >= 4 ==> tier_index(tier) == 4,
{
}

} // verus!
