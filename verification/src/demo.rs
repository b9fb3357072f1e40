//! The demonstration world: what is set up, from settings given as texts. Every
//! step has a key of its own, so that setting up again replays.

use crate::amm::Side;
use crate::clock::Timestamp;
use crate::identity;
use crate::market::MarketState;
use crate::model::{MarketId, UserId};
use crate::money::{BasisPoints, MicroUsd};
use crate::seed_market::SeedMarketCmd;
use crate::text;
use vstd::prelude::*;

verus! {

/// The settings, as they are given.
#[derive(Debug, Clone, PartialEq, Eq)]
pub struct DemoSettings {
    pub demo_phone: Option<String>,
    pub genesis_house_micro: Option<String>,
    pub min_votes_to_resolve: Option<String>,
    pub seed_skip_vote: Option<String>,
    pub demo_slug: Option<String>,
    pub demo_chain_sig: Option<String>,
    pub flash_closes_secs: Option<String>,
    pub flash_tally_hidden_secs: Option<String>,
}

/// A setting, or its default where it is missing or no number.
pub open spec fn number_or(setting: Option<Seq<char>>, default: int) -> int {
    match setting {
        Some(s) => match text::parsed_i64(s) {
            Some(n) => n,
            None => default,
        },
        None => default,
    }
}

/// A setting where it is a positive number.
pub open spec fn positive(setting: Option<Seq<char>>) -> Option<int> {
    match setting {
        Some(s) => match text::parsed_i64(s) {
            Some(n) => if n > 0 {
                Some(n)
            } else {
                None
            },
            None => None,
        },
        None => None,
    }
}

/// A setting that says yes: `1`, or `true` in any case.
pub open spec fn truthy(setting: Option<Seq<char>>) -> bool {
    match setting {
        Some(s) => s == "1"@ || s.map_values(|c: char| text::ascii_lower(c)) == "true"@,
        None => false,
    }
}

/// A setting, or its default where it is missing.
pub open spec fn text_or(setting: Option<Seq<char>>, default: Seq<char>) -> Seq<char> {
    match setting {
        Some(s) => s,
        None => default,
    }
}

fn setting_i64(setting: &Option<String>, default: i64) -> (r: i64)
    ensures
        r == number_or(text::option_view(*setting), default as int),
{
    match setting {
        Some(s) => match text::parse_i64(s.as_str()) {
            Some(n) => n,
            None => default,
        },
        None => default,
    }
}

fn setting_positive(setting: &Option<String>) -> (r: Option<i64>)
    ensures
        match positive(text::option_view(*setting)) {
            Some(n) => r matches Some(m) && m == n,
            None => r is None,
        },
{
    match setting {
        Some(s) => match text::parse_i64(s.as_str()) {
            Some(n) => if n > 0 {
                Some(n)
            } else {
                None
            },
            None => None,
        },
        None => None,
    }
}

fn setting_truthy(setting: &Option<String>) -> (r: bool)
    ensures
        r == truthy(text::option_view(*setting)),
{
    match setting {
        None => false,
        Some(s) => {
            if text::same_text(s.as_str(), "1") {
                return true;
            }
            let chars = text::chars_of(s.as_str());
            let mut lower: Vec<char> = Vec::new();
            let mut i: usize = 0;
            while i < chars.len()
                invariant
                    i <= chars@.len(),
                    lower@ == chars@.take(i as int).map_values(|c: char| text::ascii_lower(c)),
                decreases chars.len() - i,
            {
                lower.push(text::lower_ascii(chars[i]));
                assert(lower@ =~= chars@.take(i + 1).map_values(|c: char| text::ascii_lower(c)));
                i += 1;
            }
            assert(chars@.take(i as int) =~= chars@);
            text::same_text(text::string_of(lower.as_slice()).as_str(), "true")
        },
    }
}

fn setting_text(setting: &Option<String>, default: &str) -> (r: String)
    ensures
        r@ == text_or(text::option_view(*setting), default@),
{
    match setting {
        Some(s) => s.clone(),
        None => default.to_owned(),
    }
}

/// The seconds until the market closes and until its tally is hidden: as given,
/// or two hours with the tally hidden ten minutes before the end. A hidden
/// window alone says nothing.
pub open spec fn window_secs(closes: Option<int>, hidden: Option<int>) -> (int, int) {
    match (closes, hidden) {
        (Some(c), Some(h)) => (
            c,
            if h < c {
                h
            } else {
                c
            },
        ),
        (Some(c), None) => (
            c,
            if c < 30 {
                0
            } else {
                c - 30
            },
        ),
        _ => (7_200, 6_600),
    }
}

/// An optional number.
pub open spec fn as_int(n: Option<i64>) -> Option<int> {
    match n {
        Some(x) => Some(x as int),
        None => None,
    }
}

/// When a market that opens now closes and hides its tally.
pub fn market_windows(now: Timestamp, flash_closes: Option<i64>, flash_hidden: Option<i64>) -> (r: (
    Timestamp,
    Timestamp,
))
    requires
        now.wf(),
        flash_closes matches Some(c) ==> c > 0,
        flash_hidden matches Some(h) ==> h > 0,
        now.has_room(window_secs(as_int(flash_closes), as_int(flash_hidden)).0),
    ensures
        r.0 == now.later(window_secs(as_int(flash_closes), as_int(flash_hidden)).0),
        r.1 == now.later(window_secs(as_int(flash_closes), as_int(flash_hidden)).1),
        now.0 <= r.1.0 <= r.0.0,
        flash_closes is None ==> r.0.0 == now.0 + 7_200_000_000_000 && r.1.0 == now.0
            + 6_600_000_000_000,
        flash_closes matches Some(c) ==> r.0.0 == now.0 + 1_000_000_000 * c,
        flash_closes matches Some(c) ==> flash_hidden is None ==> (c >= 30 ==> r.1.0 == now.0
            + 1_000_000_000 * (c - 30)) && (c < 30 ==> r.1.0 == now.0),
        flash_closes matches Some(c) ==> (flash_hidden matches Some(h) ==> (h <= c ==> r.1.0
            == now.0 + 1_000_000_000 * h) && (h > c ==> r.1.0 == r.0.0)),
{
    let (closes, hidden): (i64, i64) = match (flash_closes, flash_hidden) {
        (Some(c), Some(h)) => (
            c,
            if h < c {
                h
            } else {
                c
            },
        ),
        (Some(c), None) => (
            c,
            if c < 30 {
                0
            } else {
                c - 30
            },
        ),
        _ => (7_200, 6_600),
    };
    (now.plus_secs(closes), now.plus_secs(hidden))
}

/// What is set up, in order.
#[derive(Debug, Clone, PartialEq, Eq)]
pub struct DemoPlan {
    pub phone: String,
    /// The key under which the user is created where the channel has none.
    pub create_user_key: String,
    pub genesis: MicroUsd,
    pub seed: SeedMarketCmd,
    /// The key under which the market goes live where it is still scheduled.
    pub go_live_key: String,
    pub deposit: MicroUsd,
    pub chain_sig: String,
    pub deposit_key: String,
    pub skip_vote: bool,
}

/// The name from which the market's identity comes.
pub open spec fn market_name(slug: Seq<char>) -> Seq<char> {
    "opinions:market:"@ + slug
}

impl DemoSettings {
    /// The seconds of the market's windows.
    pub open spec fn windows(&self) -> (int, int) {
        window_secs(
            positive(text::option_view(self.flash_closes_secs)),
            positive(text::option_view(self.flash_tally_hidden_secs)),
        )
    }

    /// The slug of the market.
    pub open spec fn slug(&self) -> Seq<char> {
        text_or(text::option_view(self.demo_slug), "demo-coffee"@)
    }

    /// The signature of the deposit.
    pub open spec fn signature(&self) -> Seq<char> {
        text_or(text::option_view(self.demo_chain_sig), "demo-chain-sig-0001"@)
    }

    /// The address of the user.
    pub open spec fn phone(&self) -> Seq<char> {
        text_or(text::option_view(self.demo_phone), "+15550100"@)
    }

    /// How many votes the market needs.
    pub open spec fn min_votes(&self) -> int {
        let n = number_or(text::option_view(self.min_votes_to_resolve), 1);
        if i32::MIN <= n <= i32::MAX {
            n
        } else {
            1
        }
    }
}

/// Plans the demonstration world. The market's identity comes from its slug, so
/// that the same slug is the same market on every run.
pub fn seed_demo(settings: &DemoSettings, now: Timestamp) -> (r: DemoPlan)
    requires
        now.wf(),
        now.has_room(settings.windows().0),
    ensures
        r.phone@ == settings.phone(),
        r.create_user_key@ == "create-user:demo:"@ + settings.phone(),
        r.genesis.0 == number_or(
            text::option_view(settings.genesis_house_micro),
            10_000_000_000,
        ),
        r.seed.market_id == MarketId(identity::url_identity(market_name(settings.slug()))),
        r.seed.slug@ == settings.slug(),
        r.seed.min_votes_to_resolve == settings.min_votes(),
        r.seed.closes_at == now.later(settings.windows().0),
        r.seed.tally_hidden_at == now.later(settings.windows().1),
        r.seed.fee == BasisPoints(100),
        r.seed.seed == MicroUsd(1_000_000_000),
        r.seed.idempotency_key@ == "seed:"@ + settings.slug(),
        !r.seed.force,
        r.go_live_key@ == "golive:"@ + settings.slug(),
        r.deposit == MicroUsd(50_000_000),
        r.chain_sig@ == settings.signature(),
        r.deposit_key@ == "deposit:"@ + settings.signature(),
        r.skip_vote == truthy(text::option_view(settings.seed_skip_vote)),
{
    let phone = setting_text(&settings.demo_phone, "+15550100");
    let slug = setting_text(&settings.demo_slug, "demo-coffee");
    let chain_sig = setting_text(&settings.demo_chain_sig, "demo-chain-sig-0001");
    let genesis: i64 = setting_i64(&settings.genesis_house_micro, 10_000_000_000);
    let wanted: i64 = setting_i64(&settings.min_votes_to_resolve, 1);
    let min_votes: i32 = if wanted >= i32::MIN as i64 && wanted <= i32::MAX as i64 {
        wanted as i32
    } else {
        1
    };
    let closes: Option<i64> = setting_positive(&settings.flash_closes_secs);
    let hidden: Option<i64> = setting_positive(&settings.flash_tally_hidden_secs);
    let (closes_at, tally_hidden_at) = market_windows(now, closes, hidden);
    let seed = SeedMarketCmd {
        market_id: MarketId(
            identity::url_uuid(text::join2("opinions:market:", slug.as_str()).as_str()),
        ),
        slug: slug.clone(),
        min_votes_to_resolve: min_votes,
        closes_at,
        tally_hidden_at,
        fee: BasisPoints(100),
        seed: MicroUsd(1_000_000_000),
        idempotency_key: text::join2("seed:", slug.as_str()),
        force: false,
    };
    DemoPlan {
        create_user_key: text::join2("create-user:demo:", phone.as_str()),
        phone,
        genesis: MicroUsd(genesis),
        seed,
        go_live_key: text::join2("golive:", slug.as_str()),
        deposit: MicroUsd(50_000_000),
        deposit_key: text::join2("deposit:", chain_sig.as_str()),
        chain_sig,
        skip_vote: setting_truthy(&settings.seed_skip_vote),
    }
}

/// The vote that opens trading for the user: the side, the guess at the crowd in
/// percent, and the key.
pub fn gate_vote(slug: &str, user: UserId) -> (r: (Side, u8, String))
    ensures
        r.0 == Side::Yes,
        r.1 == 60,
        r.2@ == "vote:"@ + slug@ + ":"@ + identity::uuid_text(user.0),
{
    let head = text::join3("vote:", slug, ":");
    (Side::Yes, 60, text::join2(head.as_str(), identity::format_uuid(user.0).as_str()))
}

/// Whether the market still has to go live.
pub fn goes_live(state: MarketState) -> (r: bool)
    ensures
        r == (state == MarketState::Scheduled),
{
    state == MarketState::Scheduled
}

/// The tally is hidden no later than the market closes, and neither comes before
/// the market opens, whatever the settings say.
pub proof fn law_demo_windows_are_ordered(settings: DemoSettings)
    ensures
        0 <= settings.windows().1 <= settings.windows().0,
{
}

/// A setting that is given replaces its default; one that is missing, or where a
/// number is asked for and none is given, leaves it.
pub proof fn law_settings_replace_their_defaults(settings: DemoSettings)
    ensures
        settings.demo_slug matches Some(s) ==> settings.slug() == s@,
        settings.demo_slug is None ==> settings.slug() == "demo-coffee"@,
        settings.demo_phone matches Some(s) ==> settings.phone() == s@,
        settings.demo_phone is None ==> settings.phone() == "+15550100"@,
        settings.demo_chain_sig matches Some(s) ==> settings.signature() == s@,
        settings.demo_chain_sig is None ==> settings.signature() == "demo-chain-sig-0001"@,
        settings.min_votes_to_resolve matches Some(s) ==> (text::parsed_i64(s@) matches Some(n)
            ==> -2_147_483_648 <= n <= 2_147_483_647 ==> settings.min_votes() == n),
        settings.min_votes_to_resolve is None ==> settings.min_votes() == 1,
        settings.genesis_house_micro matches Some(s) ==> (text::parsed_i64(s@) matches Some(n)
            ==> number_or(text::option_view(settings.genesis_house_micro), 10_000_000_000) == n),
        settings.flash_closes_secs is None ==> settings.windows() == (7_200int, 6_600int),
        settings.flash_closes_secs matches Some(s) ==> (text::parsed_i64(s@) matches Some(c)
            ==> c > 30 && settings.flash_tally_hidden_secs is None ==> settings.windows() == (
            c,
            c - 30,
        )),
{
}

/// A switch is on where it reads `1`, or `true` in whatever case, and nowhere
/// else.
pub proof fn law_which_switches_are_on(setting: Seq<char>)
    ensures
        !truthy(None),
        truthy(Some(setting)) <==> setting == seq!['1'] || (setting.len() == 4 && (setting[0] == 't'
            || setting[0] == 'T') && (setting[1] == 'r' || setting[1] == 'R') && (setting[2] == 'u'
            || setting[2] == 'U') && (setting[3] == 'e' || setting[3] == 'E')),
{
    reveal_strlit("1");
    reveal_strlit("true");
    assert("1"@ =~= seq!['1']);
    let low = setting.map_values(|c: char| text::ascii_lower(c));
    let word = "true"@;
    assert(word.len() == 4 && word[0] == 't' && word[1] == 'r' && word[2] == 'u' && word[3] == 'e');
    assert(low.len() == setting.len());
    assert forall|i: int| 0 <= i < setting.len() implies #[trigger] low[i] == text::ascii_lower(
        setting[i],
    ) by {}
    if low == word {
        assert(low[0] == 't' && low[1] == 'r' && low[2] == 'u' && low[3] == 'e');
        assert(text::ascii_lower(setting[0]) == 't' && text::ascii_lower(setting[1]) == 'r'
            && text::ascii_lower(setting[2]) == 'u' && text::ascii_lower(setting[3]) == 'e');
    }
    if setting.len() == 4 && (setting[0] == 't' || setting[0] == 'T') && (setting[1] == 'r'
        || setting[1] == 'R') && (setting[2] == 'u' || setting[2] == 'U') && (setting[3] == 'e'
        || setting[3] == 'E') {
        assert(text::ascii_lower(setting[0]) == 't' && text::ascii_lower(setting[1]) == 'r'
            && text::ascii_lower(setting[2]) == 'u' && text::ascii_lower(setting[3]) == 'e');
        assert(low =~= word);
    }
}

/// A window is set by a positive number alone.
pub proof fn law_only_positive_windows_count(setting: Seq<char>, n: int)
    requires
        text::parsed_i64(setting) == Some(n),
    ensures
        n > 0 ==> positive(Some(setting)) == Some(n),
        n <= 0 ==> positive(Some(setting)) is None,
        positive(None) is None,
        number_or(Some(setting), 7) == n,
        number_or(None, n) == n,
{
}

} // verus!
