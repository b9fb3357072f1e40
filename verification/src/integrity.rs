//! Deterministic integer anomaly checks for the pre-payout sweep.

use vstd::prelude::*;

verus! {

/// What is known of a market's votes.
#[derive(Clone, Copy, Debug, Eq, PartialEq, Structural)]
pub struct VoteStats {
    pub total: u32,
    pub last_window: u32,
    pub prior_windows_total: u32,
    pub prior_horizon_windows: u32,
    pub young_accounts: u32,
    pub subnet_observed: u32,
    pub top_subnet_count: u32,
    pub device_observed: u32,
    pub top_device_count: u32,
}

impl Default for VoteStats {
    fn default() -> (r: Self)
        ensures
            r == (VoteStats {
                total: 0,
                last_window: 0,
                prior_windows_total: 0,
                prior_horizon_windows: 0,
                young_accounts: 0,
                subnet_observed: 0,
                top_subnet_count: 0,
                device_observed: 0,
                top_device_count: 0,
            }),
    {
        VoteStats {
            total: 0,
            last_window: 0,
            prior_windows_total: 0,
            prior_horizon_windows: 0,
            young_accounts: 0,
            subnet_observed: 0,
            top_subnet_count: 0,
            device_observed: 0,
            top_device_count: 0,
        }
    }
}

/// The configured limits of the checks.
#[derive(Clone, Copy, Debug, Eq, PartialEq, Structural)]
pub struct SweepThresholds {
    pub burst_multiplier_ppm: u32,
    pub young_account_share_max_ppm: u32,
    pub subnet_share_max_ppm: u32,
    pub device_share_max_ppm: u32,
    pub min_votes_for_ratios: u32,
    pub min_metadata_coverage_ppm: u32,
}

/// How much a check's signal is worth.
#[derive(Clone, Copy, Debug, Eq, PartialEq, Structural)]
pub enum Strength {
    Weak,
    Medium,
}

/// The outcome of one check.
#[derive(Clone, Copy, Debug, Eq, PartialEq)]
pub struct CheckResult {
    pub name: &'static str,
    pub value_ppm: u64,
    pub threshold_ppm: u64,
    pub coverage_ppm: u32,
    pub strength: Strength,
    pub flagged: bool,
    pub note: &'static str,
}

/// Whether a market may pay out.
#[derive(Clone, Copy, Debug, Eq, PartialEq, Structural)]
pub enum Verdict {
    Pass,
    Flag,
}

/// What one check says, with its texts as sequences of characters.
pub struct CheckView {
    pub name: Seq<char>,
    pub value_ppm: int,
    pub threshold_ppm: int,
    pub coverage_ppm: int,
    pub strength: Strength,
    pub flagged: bool,
    pub note: Seq<char>,
}

impl View for CheckResult {
    type V = CheckView;

    open spec fn view(&self) -> CheckView {
        CheckView {
            name: self.name@,
            value_ppm: self.value_ppm as int,
            threshold_ppm: self.threshold_ppm as int,
            coverage_ppm: self.coverage_ppm as int,
            strength: self.strength,
            flagged: self.flagged,
            note: self.note@,
        }
    }
}

/// `numerator / denominator` in millionths, rounded down; nothing for a zero
/// denominator.
pub open spec fn ratio(numerator: int, denominator: int) -> int {
    if denominator == 0 {
        0
    } else {
        numerator * 1_000_000 / denominator
    }
}

/// `x`, but no more than `cap`.
pub open spec fn capped(x: int, cap: int) -> int {
    if x > cap {
        cap
    } else {
        x
    }
}

/// A check that did not run for want of votes.
pub open spec fn too_few_votes(name: Seq<char>, threshold: int, strength: Strength) -> CheckView {
    CheckView {
        name,
        value_ppm: 0,
        threshold_ppm: threshold,
        coverage_ppm: 1_000_000,
        strength,
        flagged: false,
        note: "skipped: fewer than the configured minimum votes"@,
    }
}

/// The burst check: the final window against the average of the prior ones,
/// or, with no prior votes at all, against the minimum number of votes.
pub open spec fn burst_view(s: VoteStats, t: SweepThresholds) -> CheckView {
    let value = capped(
        s.last_window * s.prior_horizon_windows * 1_000_000 / (s.prior_windows_total as int),
        u64::MAX as int,
    );
    if s.total < t.min_votes_for_ratios {
        too_few_votes("vote_burst"@, t.burst_multiplier_ppm as int, Strength::Medium)
    } else if s.prior_windows_total == 0 {
        CheckView {
            name: "vote_burst"@,
            value_ppm: s.last_window * 1_000_000,
            threshold_ppm: t.min_votes_for_ratios * 1_000_000,
            coverage_ppm: 1_000_000,
            strength: Strength::Medium,
            flagged: s.last_window > t.min_votes_for_ratios,
            note: "zero prior baseline; compares final-window count to minimum votes"@,
        }
    } else {
        CheckView {
            name: "vote_burst"@,
            value_ppm: value,
            threshold_ppm: t.burst_multiplier_ppm as int,
            coverage_ppm: 1_000_000,
            strength: Strength::Medium,
            flagged: value > t.burst_multiplier_ppm,
            note: "final close-anchored window versus prior-window average"@,
        }
    }
}

/// A share check: the top group's share of what was observed, where enough was
/// observed.
pub open spec fn share_view(
    name: Seq<char>,
    count: int,
    observed: int,
    threshold: int,
    min_coverage: int,
    strength: Strength,
    note: Seq<char>,
    total: int,
    min_votes: int,
) -> CheckView {
    let coverage = capped(ratio(observed, total), u32::MAX as int);
    if total < min_votes {
        too_few_votes(name, threshold, strength)
    } else if coverage < min_coverage {
        CheckView {
            name,
            value_ppm: 0,
            threshold_ppm: threshold,
            coverage_ppm: coverage,
            strength,
            flagged: false,
            note: "skipped: metadata coverage below configured minimum"@,
        }
    } else {
        CheckView {
            name,
            value_ppm: ratio(count, observed),
            threshold_ppm: threshold,
            coverage_ppm: coverage,
            strength,
            flagged: ratio(count, observed) > threshold,
            note,
        }
    }
}

/// The four checks in their published order.
pub open spec fn sweep_view(s: VoteStats, t: SweepThresholds) -> Seq<CheckView> {
    seq![
        burst_view(s, t),
        share_view(
            "young_account_share"@,
            s.young_accounts as int,
            s.total as int,
            t.young_account_share_max_ppm as int,
            0,
            Strength::Medium,
            "account age at cast time"@,
            s.total as int,
            t.min_votes_for_ratios as int,
        ),
        share_view(
            "subnet_concentration"@,
            s.top_subnet_count as int,
            s.subnet_observed as int,
            t.subnet_share_max_ppm as int,
            t.min_metadata_coverage_ppm as int,
            Strength::Weak,
            "weak IP-prefix proxy: IPv4 /24, IPv6 /64"@,
            s.total as int,
            t.min_votes_for_ratios as int,
        ),
        share_view(
            "device_concentration"@,
            s.top_device_count as int,
            s.device_observed as int,
            t.device_share_max_ppm as int,
            t.min_metadata_coverage_ppm as int,
            Strength::Weak,
            "weak client-asserted device identifier"@,
            s.total as int,
            t.min_votes_for_ratios as int,
        ),
    ]
}

/// How many checks are flagged.
pub open spec fn flag_count(results: Seq<CheckResult>) -> int
    decreases results.len(),
{
    if results.len() == 0 {
        0
    } else {
        flag_count(results.drop_last()) + if results.last().flagged {
            1int
        } else {
            0
        }
    }
}

/// A market with fewer votes than the configured minimum is never flagged, by
/// any check.
pub proof fn law_few_votes_never_flag(s: VoteStats, t: SweepThresholds)
    requires
        s.total < t.min_votes_for_ratios,
    ensures
        forall|i: int|
            0 <= i < 4 ==> !(#[trigger] sweep_view(s, t)[i]).flagged && sweep_view(
                s,
                t,
            )[i].value_ppm == 0,
{
}

/// Sparse metadata never flags: a weak check with coverage below the minimum
/// reports nothing.
pub proof fn law_sparse_metadata_never_flags(s: VoteStats, t: SweepThresholds)
    requires
        capped(ratio(s.subnet_observed as int, s.total as int), u32::MAX as int)
            < t.min_metadata_coverage_ppm,
        capped(ratio(s.device_observed as int, s.total as int), u32::MAX as int)
            < t.min_metadata_coverage_ppm,
    ensures
        !sweep_view(s, t)[2].flagged,
        !sweep_view(s, t)[3].flagged,
{
}

proof fn lemma_ratio_bounds(numerator: int, denominator: int)
    requires
        0 <= numerator,
        0 < denominator,
    ensures
        0 <= numerator / denominator <= numerator,
{
    assert(0 <= numerator / denominator <= numerator) by (nonlinear_arith)
        requires
            0 <= numerator,
            0 < denominator,
    ;
}

pub fn ratio_ppm(numerator: u32, denominator: u32) -> (r: u64)
    ensures
        r == ratio(numerator as int, denominator as int),
{
    if denominator == 0 {
        return 0;
    }
    proof {
        lemma_ratio_bounds(numerator * 1_000_000, denominator as int);
    }
    numerator as u64 * 1_000_000 / denominator as u64
}

fn coverage_ppm(observed: u32, total: u32) -> (r: u32)
    ensures
        r == capped(ratio(observed as int, total as int), u32::MAX as int),
{
    let value: u64 = ratio_ppm(observed, total);
    if value > u32::MAX as u64 {
        u32::MAX
    } else {
        value as u32
    }
}

fn low_votes(name: &'static str, threshold: u32, strength: Strength) -> (r: CheckResult)
    ensures
        r@ == too_few_votes(name@, threshold as int, strength),
{
    CheckResult {
        name,
        value_ppm: 0,
        threshold_ppm: threshold as u64,
        coverage_ppm: 1_000_000,
        strength,
        flagged: false,
        note: "skipped: fewer than the configured minimum votes",
    }
}

fn vote_burst(s: &VoteStats, t: &SweepThresholds) -> (r: CheckResult)
    ensures
        r@ == burst_view(*s, *t),
{
    if s.total < t.min_votes_for_ratios {
        return low_votes("vote_burst", t.burst_multiplier_ppm, Strength::Medium);
    }
    if s.prior_windows_total == 0 {
        return CheckResult {
            name: "vote_burst",
            value_ppm: s.last_window as u64 * 1_000_000,
            threshold_ppm: t.min_votes_for_ratios as u64 * 1_000_000,
            coverage_ppm: 1_000_000,
            strength: Strength::Medium,
            flagged: s.last_window > t.min_votes_for_ratios,
            note: "zero prior baseline; compares final-window count to minimum votes",
        };
    }
    proof {
        assert(0 <= s.last_window * s.prior_horizon_windows <= 0xffff_ffff * 0xffff_ffff)
            by (nonlinear_arith)
            requires
                0 <= s.last_window <= 0xffff_ffff,
                0 <= s.prior_horizon_windows <= 0xffff_ffff,
        ;
    }
    let wide: u128 = s.last_window as u128 * s.prior_horizon_windows as u128 * 1_000_000
        / s.prior_windows_total as u128;
    let value_ppm: u64 = if wide > u64::MAX as u128 {
        u64::MAX
    } else {
        wide as u64
    };
    CheckResult {
        name: "vote_burst",
        value_ppm,
        threshold_ppm: t.burst_multiplier_ppm as u64,
        coverage_ppm: 1_000_000,
        strength: Strength::Medium,
        flagged: value_ppm > t.burst_multiplier_ppm as u64,
        note: "final close-anchored window versus prior-window average",
    }
}

#[derive(Clone, Copy)]
struct ShareCheck {
    name: &'static str,
    count: u32,
    denominator: u32,
    threshold: u32,
    min_coverage: u32,
    strength: Strength,
    note: &'static str,
}

fn share_check(input: ShareCheck, total: u32, min_votes: u32) -> (r: CheckResult)
    ensures
        r@ == share_view(
            input.name@,
            input.count as int,
            input.denominator as int,
            input.threshold as int,
            input.min_coverage as int,
            input.strength,
            input.note@,
            total as int,
            min_votes as int,
        ),
{
    if total < min_votes {
        return low_votes(input.name, input.threshold, input.strength);
    }
    let coverage: u32 = coverage_ppm(input.denominator, total);
    if coverage < input.min_coverage {
        return CheckResult {
            name: input.name,
            value_ppm: 0,
            threshold_ppm: input.threshold as u64,
            coverage_ppm: coverage,
            strength: input.strength,
            flagged: false,
            note: "skipped: metadata coverage below configured minimum",
        };
    }
    let value: u64 = ratio_ppm(input.count, input.denominator);
    CheckResult {
        name: input.name,
        value_ppm: value,
        threshold_ppm: input.threshold as u64,
        coverage_ppm: coverage,
        strength: input.strength,
        flagged: value > input.threshold as u64,
        note: input.note,
    }
}

/// Runs every check over one market's votes.
#[must_use]
pub fn sweep_checks(s: &VoteStats, t: &SweepThresholds) -> (r: Vec<CheckResult>)
    ensures
        r@.len() == 4,
        forall|i: int| 0 <= i < 4 ==> (#[trigger] r@[i])@ == sweep_view(*s, *t)[i],
        r@[0].flagged <==> s.total >= t.min_votes_for_ratios && if s.prior_windows_total == 0 {
            s.last_window > t.min_votes_for_ratios
        } else {
            s.last_window * s.prior_horizon_windows * 1_000_000 >= (t.burst_multiplier_ppm + 1)
                * s.prior_windows_total
        },
        r@[1].flagged <==> s.total >= t.min_votes_for_ratios && s.total > 0 && s.young_accounts
            * 1_000_000 >= (t.young_account_share_max_ppm + 1) * s.total,
        r@[2].flagged <==> s.total >= t.min_votes_for_ratios && s.subnet_observed > 0 && (s.total
            > 0 || t.min_metadata_coverage_ppm == 0) && s.subnet_observed * 1_000_000
            >= t.min_metadata_coverage_ppm * s.total && s.top_subnet_count * 1_000_000 >= (
        t.subnet_share_max_ppm + 1) * s.subnet_observed,
        r@[3].flagged <==> s.total >= t.min_votes_for_ratios && s.device_observed > 0 && (s.total
            > 0 || t.min_metadata_coverage_ppm == 0) && s.device_observed * 1_000_000
            >= t.min_metadata_coverage_ppm * s.total && s.top_device_count * 1_000_000 >= (
        t.device_share_max_ppm + 1) * s.device_observed,
{
    proof {
        law_what_the_checks_flag(*s, *t);
    }
    vec![
        vote_burst(s, t),
        share_check(
            ShareCheck {
                name: "young_account_share",
                count: s.young_accounts,
                denominator: s.total,
                threshold: t.young_account_share_max_ppm,
                min_coverage: 0,
                strength: Strength::Medium,
                note: "account age at cast time",
            },
            s.total,
            t.min_votes_for_ratios,
        ),
        share_check(
            ShareCheck {
                name: "subnet_concentration",
                count: s.top_subnet_count,
                denominator: s.subnet_observed,
                threshold: t.subnet_share_max_ppm,
                min_coverage: t.min_metadata_coverage_ppm,
                strength: Strength::Weak,
                note: "weak IP-prefix proxy: IPv4 /24, IPv6 /64",
            },
            s.total,
            t.min_votes_for_ratios,
        ),
        share_check(
            ShareCheck {
                name: "device_concentration",
                count: s.top_device_count,
                denominator: s.device_observed,
                threshold: t.device_share_max_ppm,
                min_coverage: t.min_metadata_coverage_ppm,
                strength: Strength::Weak,
                note: "weak client-asserted device identifier",
            },
            s.total,
            t.min_votes_for_ratios,
        ),
    ]
}

/// One flagged check is noted and passes; two or more flag the market.
#[must_use]
pub fn verdict(results: &[CheckResult]) -> (r: Verdict)
    ensures
        r == (if flag_count(results@) >= 2 {
            Verdict::Flag
        } else {
            Verdict::Pass
        }),
        r == Verdict::Flag <==> exists|i: int, j: int|
            0 <= i < j < results@.len() && (#[trigger] results@[i]).flagged && (
            #[trigger] results@[j]).flagged,
{
    proof {
        law_two_flags_flag_the_market(results@);
    }
    let mut flagged: usize = 0;
    let mut i: usize = 0;
    while i < results.len()
        invariant
            i <= results.len(),
            flagged == flag_count(results@.take(i as int)),
            flagged <= i,
        decreases results.len() - i,
    {
        assert(results@.take(i + 1).drop_last() =~= results@.take(i as int));
        if results[i].flagged {
            flagged += 1;
        }
        i += 1;
    }
    assert(results@.take(i as int) =~= results@);
    if flagged >= 2 {
        Verdict::Flag
    } else {
        Verdict::Pass
    }
}

proof fn lemma_floor_exceeds(n: int, d: int, limit: int)
    requires
        d > 0,
    ensures
        n / d > limit <==> n >= (limit + 1) * d,
        n / d >= limit <==> n >= limit * d,
        n / d < limit <==> n < limit * d,
        (n / d) * d <= n < (n / d + 1) * d,
{
    crate::money::lemma_floor(n, d);
    let q = n / d;
    assert(q > limit ==> (limit + 1) * d <= q * d) by (nonlinear_arith)
        requires
            d > 0,
    ;
    assert(q <= limit ==> (q + 1) * d <= (limit + 1) * d) by (nonlinear_arith)
        requires
            d > 0,
    ;
    assert(q >= limit ==> limit * d <= q * d) by (nonlinear_arith)
        requires
            d > 0,
    ;
    assert(q < limit ==> (q + 1) * d <= limit * d) by (nonlinear_arith)
        requires
            d > 0,
    ;
}

/// What each check flags, in the market's own numbers: with enough votes, a
/// final window above the allowed multiple of the prior average, too many young
/// accounts among all votes, and a group that is too large among the votes whose
/// subnet or device is known, where enough of them are.
pub proof fn law_what_the_checks_flag(s: VoteStats, t: SweepThresholds)
    ensures
        sweep_view(s, t).len() == 4,
        sweep_view(s, t)[0].flagged <==> s.total >= t.min_votes_for_ratios
            && if s.prior_windows_total == 0 {
            s.last_window > t.min_votes_for_ratios
        } else {
            s.last_window * s.prior_horizon_windows * 1_000_000 >= (t.burst_multiplier_ppm + 1)
                * s.prior_windows_total
        },
        sweep_view(s, t)[1].flagged <==> s.total >= t.min_votes_for_ratios && s.total > 0
            && s.young_accounts * 1_000_000 >= (t.young_account_share_max_ppm + 1) * s.total,
        sweep_view(s, t)[2].flagged <==> s.total >= t.min_votes_for_ratios && s.subnet_observed > 0
            && (s.total > 0 || t.min_metadata_coverage_ppm == 0) && s.subnet_observed * 1_000_000
            >= t.min_metadata_coverage_ppm * s.total && s.top_subnet_count * 1_000_000 >= (
        t.subnet_share_max_ppm + 1) * s.subnet_observed,
        sweep_view(s, t)[3].flagged <==> s.total >= t.min_votes_for_ratios && s.device_observed > 0
            && (s.total > 0 || t.min_metadata_coverage_ppm == 0) && s.device_observed * 1_000_000
            >= t.min_metadata_coverage_ppm * s.total && s.top_device_count * 1_000_000 >= (
        t.device_share_max_ppm + 1) * s.device_observed,
{
    if s.prior_windows_total > 0 {
        lemma_floor_exceeds(
            s.last_window * s.prior_horizon_windows * 1_000_000,
            s.prior_windows_total as int,
            t.burst_multiplier_ppm as int,
        );
    }
    if s.total > 0 {
        lemma_floor_exceeds(
            s.young_accounts * 1_000_000,
            s.total as int,
            t.young_account_share_max_ppm as int,
        );
        lemma_floor_exceeds(
            s.total * 1_000_000,
            s.total as int,
            0,
        );
        lemma_floor_exceeds(
            s.subnet_observed * 1_000_000,
            s.total as int,
            t.min_metadata_coverage_ppm as int,
        );
        lemma_floor_exceeds(
            s.device_observed * 1_000_000,
            s.total as int,
            t.min_metadata_coverage_ppm as int,
        );
    } else {
        assert(t.min_metadata_coverage_ppm * s.total == 0) by (nonlinear_arith)
            requires
                s.total == 0,
        ;
    }
    if s.subnet_observed > 0 {
        lemma_floor_exceeds(
            s.top_subnet_count * 1_000_000,
            s.subnet_observed as int,
            t.subnet_share_max_ppm as int,
        );
    }
    if s.device_observed > 0 {
        lemma_floor_exceeds(
            s.top_device_count * 1_000_000,
            s.device_observed as int,
            t.device_share_max_ppm as int,
        );
    }
}

/// The shares that the checks report: each in millionths, rounded down, of the
/// votes that the check looks at, and beside it how many of all votes those are.
pub proof fn law_what_the_checks_report(s: VoteStats, t: SweepThresholds)
    requires
        s.total >= t.min_votes_for_ratios,
        s.total > 0,
    ensures
        ({
            let young = sweep_view(s, t)[1];
            &&& young.value_ppm * s.total <= s.young_accounts * 1_000_000 < (young.value_ppm + 1)
                * s.total
            &&& young.coverage_ppm == 1_000_000
            &&& young.threshold_ppm == t.young_account_share_max_ppm
        }),
        s.prior_windows_total > 0 && s.last_window <= 1_000_000_000 && s.prior_horizon_windows
            <= 1_000 ==> ({
            let burst = sweep_view(s, t)[0];
            &&& burst.value_ppm * s.prior_windows_total <= s.last_window * s.prior_horizon_windows
                * 1_000_000 < (burst.value_ppm + 1) * s.prior_windows_total
            &&& burst.threshold_ppm == t.burst_multiplier_ppm
        }),
        s.subnet_observed <= s.total ==> ({
            let subnet = sweep_view(s, t)[2];
            &&& subnet.coverage_ppm * s.total <= s.subnet_observed * 1_000_000 < (
            subnet.coverage_ppm + 1) * s.total
            &&& subnet.threshold_ppm == t.subnet_share_max_ppm
            &&& s.subnet_observed > 0 && s.subnet_observed * 1_000_000
                >= t.min_metadata_coverage_ppm * s.total ==> subnet.value_ppm * s.subnet_observed
                <= s.top_subnet_count * 1_000_000 < (subnet.value_ppm + 1) * s.subnet_observed
        }),
        s.device_observed <= s.total ==> ({
            let device = sweep_view(s, t)[3];
            &&& device.coverage_ppm * s.total <= s.device_observed * 1_000_000 < (
            device.coverage_ppm + 1) * s.total
            &&& device.threshold_ppm == t.device_share_max_ppm
            &&& s.device_observed > 0 && s.device_observed * 1_000_000
                >= t.min_metadata_coverage_ppm * s.total ==> device.value_ppm * s.device_observed
                <= s.top_device_count * 1_000_000 < (device.value_ppm + 1) * s.device_observed
        }),
{
    let n = s.total as int;
    lemma_floor_exceeds(s.young_accounts * 1_000_000, n, 0);
    lemma_floor_exceeds(n * 1_000_000, n, 1_000_000);
    lemma_floor_exceeds(n * 1_000_000, n, 1_000_001);
    assert(n * 1_000_000 == 1_000_000 * n && 1_000_001 * n == 1_000_000 * n + n);
    assert(n * 1_000_000 / n == 1_000_000);
    if s.prior_windows_total > 0 && s.last_window <= 1_000_000_000 && s.prior_horizon_windows
        <= 1_000 {
        let top = s.last_window * s.prior_horizon_windows * 1_000_000;
        assert(0 <= s.last_window * s.prior_horizon_windows <= 1_000_000_000_000)
            by (nonlinear_arith)
            requires
                0 <= s.last_window <= 1_000_000_000,
                0 <= s.prior_horizon_windows <= 1_000,
        ;
        lemma_ratio_bounds(top, s.prior_windows_total as int);
        lemma_floor_exceeds(top, s.prior_windows_total as int, 0);
    }
    lemma_floor_exceeds(s.subnet_observed * 1_000_000, n, t.min_metadata_coverage_ppm as int);
    lemma_floor_exceeds(s.device_observed * 1_000_000, n, t.min_metadata_coverage_ppm as int);
    lemma_floor_exceeds(s.subnet_observed * 1_000_000, n, 1_000_001);
    lemma_floor_exceeds(s.device_observed * 1_000_000, n, 1_000_001);
    if s.subnet_observed > 0 {
        lemma_floor_exceeds(s.top_subnet_count * 1_000_000, s.subnet_observed as int, 0);
    }
    if s.device_observed > 0 {
        lemma_floor_exceeds(s.top_device_count * 1_000_000, s.device_observed as int, 0);
    }
}

/// Votes without metadata dilute nothing: while enough of the votes are known by
/// subnet or device, further unknown ones change no weak check.
pub proof fn law_unknown_votes_change_no_weak_check(
    s: VoteStats,
    more: VoteStats,
    t: SweepThresholds,
)
    requires
        t.min_votes_for_ratios <= s.total,
        t.min_votes_for_ratios <= more.total,
        0 < s.total,
        0 < more.total,
    ensures
        s.subnet_observed == more.subnet_observed && s.top_subnet_count == more.top_subnet_count
            && s.subnet_observed * 1_000_000 >= t.min_metadata_coverage_ppm * s.total
            && s.subnet_observed * 1_000_000 >= t.min_metadata_coverage_ppm * more.total ==> (
        sweep_view(s, t)[2].flagged <==> sweep_view(more, t)[2].flagged),
        s.device_observed == more.device_observed && s.top_device_count == more.top_device_count
            && s.device_observed * 1_000_000 >= t.min_metadata_coverage_ppm * s.total
            && s.device_observed * 1_000_000 >= t.min_metadata_coverage_ppm * more.total ==> (
        sweep_view(s, t)[3].flagged <==> sweep_view(more, t)[3].flagged),
{
    law_what_the_checks_flag(s, t);
    law_what_the_checks_flag(more, t);
}

/// A market is flagged exactly where two different checks are.
pub proof fn law_two_flags_flag_the_market(results: Seq<CheckResult>)
    ensures
        flag_count(results) >= 0,
        flag_count(results) >= 1 <==> exists|i: int|
            0 <= i < results.len() && (#[trigger] results[i]).flagged,
        flag_count(results) >= 2 <==> exists|i: int, j: int|
            0 <= i < j < results.len() && (#[trigger] results[i]).flagged && (
            #[trigger] results[j]).flagged,
    decreases results.len(),
{
    if results.len() > 0 {
        let rest = results.drop_last();
        let n = rest.len() as int;
        law_two_flags_flag_the_market(rest);
        if exists|i: int| 0 <= i < n && (#[trigger] rest[i]).flagged {
            let i = choose|i: int| 0 <= i < n && (#[trigger] rest[i]).flagged;
            assert(results[i].flagged);
            if results[n].flagged {
                assert(0 <= i < n < results.len() && results[i].flagged && results[n].flagged);
            }
        }
        if exists|i: int, j: int|
            0 <= i < j < n && (#[trigger] rest[i]).flagged && (#[trigger] rest[j]).flagged {
            let (i, j) = choose|i: int, j: int|
                0 <= i < j < n && (#[trigger] rest[i]).flagged && (#[trigger] rest[j]).flagged;
            assert(results[i].flagged && results[j].flagged);
        }
        if exists|i: int, j: int|
            0 <= i < j < results.len() && (#[trigger] results[i]).flagged && (
            #[trigger] results[j]).flagged {
            let (i, j) = choose|i: int, j: int|
                0 <= i < j < results.len() && (#[trigger] results[i]).flagged && (
                #[trigger] results[j]).flagged;
            assert(rest[i].flagged);
            if j < n {
                assert(rest[j].flagged);
            }
        }
        if exists|i: int| 0 <= i < results.len() && (#[trigger] results[i]).flagged {
            let i = choose|i: int| 0 <= i < results.len() && (#[trigger] results[i]).flagged;
            if i < n {
                assert(rest[i].flagged);
            }
        }
    }
}

} // verus!
