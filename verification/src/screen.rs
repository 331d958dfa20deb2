//! The early-life candidate screener's query.
//!
//! Source-agnostic: one SQL query over `new_tokens` and `trades` computes each
//! recent token's first-120s microstructure and applies a tier of heuristics.
//! The as-of clock is the newest trade in the data, not the wall clock, so
//! only tokens whose 120s window has closed within the data are scored, and
//! duplicate signatures are counted once.

use vstd::prelude::*;
use crate::text::{ascii_lower, decimal, has_infix, push_decimal, str_eq, to_ascii_lowercase, trim, trim_spec};

verus! {

/// A screening tier: which heuristic a recent token must pass.
#[derive(Clone, Copy, Debug, PartialEq, Eq, Structural)]
pub enum Tier {
    /// High conviction: at least 20 distinct buyers and 2 SOL net inflow in
    /// the first two minutes, no buyer with half the buy volume.
    Balanced,
    Gate60,
    Conviction60,
    Gate120,
    Inflow120,
    /// Big inflow with buying that continues past the first minute.
    Sustained,
    /// No tier filter: the features of every recent token with a closed window.
    All,
}

/// The lower-cased, trimmed form of a tier name.
pub open spec fn tier_word(s: Seq<char>) -> Seq<char> {
    trim_spec(s).map_values(|c: char| ascii_lower(c))
}

/// The tier a name selects; unknown names select `Balanced`.
pub open spec fn tier_named(s: Seq<char>) -> Tier {
    let w = tier_word(s);
    if w == "gate60"@ || w == "gate_60"@ {
        Tier::Gate60
    } else if w == "conviction60"@ || w == "conviction_60"@ {
        Tier::Conviction60
    } else if w == "gate120"@ || w == "gate_120"@ {
        Tier::Gate120
    } else if w == "inflow120"@ || w == "inflow"@ {
        Tier::Inflow120
    } else if w == "sustained"@ || w == "sustain"@ {
        Tier::Sustained
    } else if w == "all"@ || w == "features"@ || w == "raw"@ {
        Tier::All
    } else {
        Tier::Balanced
    }
}

/// The human label of a tier.
pub open spec fn tier_label(t: Tier) -> Seq<char> {
    match t {
        Tier::Balanced => "high-conviction"@,
        Tier::Gate60 => "gate-60s"@,
        Tier::Conviction60 => "conviction-60s"@,
        Tier::Gate120 => "gate-120s"@,
        Tier::Inflow120 => "inflow-120s"@,
        Tier::Sustained => "sustained"@,
        Tier::All => "all"@,
    }
}

/// The SQL predicate a tier puts on the feature columns.
pub open spec fn tier_predicate(t: Tier) -> Seq<char> {
    match t {
        Tier::Balanced => "buyers_2m >= 20 AND net_2m >= 2 AND top_buy_share < 0.5"@,
        Tier::Gate60 => "buyers_60s >= 8"@,
        Tier::Conviction60 => "buyers_60s >= 12 AND net_60s > 0"@,
        Tier::Gate120 => "buyers_2m >= 10"@,
        Tier::Inflow120 => "buyers_2m >= 10 AND net_2m > 0"@,
        Tier::Sustained => "net_2m >= 10 AND buyers_min2 >= 30"@,
        Tier::All => "1=1"@,
    }
}

impl Tier {
    /// The tier named by `s` (case and surrounding white space ignored);
    /// anything unrecognised is `Balanced`.
    pub fn parse(s: &str) -> (t: Tier)
        ensures
            t == tier_named(s@),
    {
        let trimmed = trim(s);
        let w = to_ascii_lowercase(trimmed.as_str());
        let w = w.as_str();
        if str_eq(w, "gate60") || str_eq(w, "gate_60") {
            Tier::Gate60
        } else if str_eq(w, "conviction60") || str_eq(w, "conviction_60") {
            Tier::Conviction60
        } else if str_eq(w, "gate120") || str_eq(w, "gate_120") {
            Tier::Gate120
        } else if str_eq(w, "inflow120") || str_eq(w, "inflow") {
            Tier::Inflow120
        } else if str_eq(w, "sustained") || str_eq(w, "sustain") {
            Tier::Sustained
        } else if str_eq(w, "all") || str_eq(w, "features") || str_eq(w, "raw") {
            Tier::All
        } else {
            Tier::Balanced
        }
    }

    /// The tier's human label.
    pub fn label(self) -> (r: &'static str)
        ensures
            r@ == tier_label(self),
    {
        match self {
            Tier::Balanced => "high-conviction",
            Tier::Gate60 => "gate-60s",
            Tier::Conviction60 => "conviction-60s",
            Tier::Gate120 => "gate-120s",
            Tier::Inflow120 => "inflow-120s",
            Tier::Sustained => "sustained",
            Tier::All => "all",
        }
    }

    /// The SQL predicate over the feature columns.
    pub fn predicate(self) -> (r: &'static str)
        ensures
            r@ == tier_predicate(self),
    {
        match self {
            Tier::Balanced => "buyers_2m >= 20 AND net_2m >= 2 AND top_buy_share < 0.5",
            Tier::Gate60 => "buyers_60s >= 8",
            Tier::Conviction60 => "buyers_60s >= 12 AND net_60s > 0",
            Tier::Gate120 => "buyers_2m >= 10",
            Tier::Inflow120 => "buyers_2m >= 10 AND net_2m > 0",
            Tier::Sustained => "net_2m >= 10 AND buyers_min2 >= 30",
            Tier::All => "1=1",
        }
    }
}

/// What a screen asks for.
#[derive(Clone, Copy, Debug)]
pub struct ScreenParams {
    /// Look back this many minutes of launches (1..=1440).
    pub minutes: u32,
    pub tier: Tier,
    /// At most this many rows (1..=1000).
    pub limit: u32,
    /// Whether the kill filters are applied (every tier but `All`).
    pub apply_kill: bool,
}

/// `v` clamped into `lo..=hi`.
pub open spec fn clamped(v: int, lo: int, hi: int) -> int {
    if v < lo { lo } else if v > hi { hi } else { v }
}

fn clamp_u32(v: u32, lo: u32, hi: u32) -> (r: u32)
    requires
        lo <= hi,
    ensures
        r == clamped(v as int, lo as int, hi as int),
{
    if v < lo { lo } else if v > hi { hi } else { v }
}

/// The parameters `ScreenParams::from_args` builds from optional arguments.
pub open spec fn screen_params_of(minutes: Option<u32>, tier: Option<Seq<char>>, limit: Option<u32>) -> ScreenParams {
    let t = match tier { Some(s) => tier_named(s), None => Tier::Balanced };
    ScreenParams {
        minutes: clamped(minutes.unwrap_or(20) as int, 1, 1440) as u32,
        tier: t,
        limit: clamped(limit.unwrap_or(30) as int, 1, 1000) as u32,
        apply_kill: t != Tier::All,
    }
}

/// The view of an optional string argument.
pub open spec fn opt_view(o: Option<&str>) -> Option<Seq<char>> {
    match o { Some(s) => Some(s@), None => None }
}

impl ScreenParams {
    /// Defaults (20 minutes, `Balanced`, 30 rows) for missing arguments,
    /// minutes clamped into 1..=1440 and the limit into 1..=1000; the kill
    /// filters apply to every tier but `All`.
    pub fn from_args(minutes: Option<u32>, tier: Option<&str>, limit: Option<u32>) -> (p: ScreenParams)
        ensures
            p == screen_params_of(minutes, opt_view(tier), limit),
            1 <= p.minutes <= 1440,
            1 <= p.limit <= 1000,
    {
        let t = match tier { Some(s) => Tier::parse(s), None => Tier::Balanced };
        let m = match minutes { Some(m) => m, None => 20 };
        let l = match limit { Some(l) => l, None => 30 };
        let apply_kill = match t { Tier::All => false, _ => true };
        ScreenParams {
            minutes: clamp_u32(m, 1, 1440),
            tier: t,
            limit: clamp_u32(l, 1, 1000),
            apply_kill,
        }
    }
}

/// The query text up to the look-back minutes.
pub const SCREEN_SQL_HEAD: &'static str = "
WITH horizon AS (SELECT max(ts_ms) AS t FROM trades),
cand AS (
  SELECT n.mint, n.symbol, n.created_ms
  FROM new_tokens n CROSS JOIN horizon
  WHERE n.created_ms >= horizon.t - ";

/// From the look-back minutes up to the tier predicate.
pub const SCREEN_SQL_FEATURES: &'static str = "*60000
    AND n.created_ms + 120000 <= horizon.t
),
et AS (
  SELECT mint, trader, side, sol_amount, age_ms FROM (
    SELECT t.mint, t.trader, t.side, t.sol_amount, t.signature,
           (t.ts_ms - c.created_ms) AS age_ms,
           row_number() OVER (PARTITION BY t.signature ORDER BY t.ts_ms) AS rn
    FROM trades t JOIN cand c ON c.mint = t.mint
    WHERE t.ts_ms >= c.created_ms AND t.ts_ms <= c.created_ms + 120000
  ) WHERE rn = 1 OR signature IS NULL
),
serials AS (SELECT trader FROM trades GROUP BY trader HAVING count(DISTINCT mint) >= 20),
buyagg AS (
  SELECT mint, trader, SUM(CASE WHEN side='buy' THEN sol_amount ELSE 0 END) AS buy_sol
  FROM et GROUP BY mint, trader
),
topbuy AS (SELECT mint, MAX(buy_sol) AS max_buy, SUM(buy_sol) AS tot_buy FROM buyagg GROUP BY mint),
sf AS (
  SELECT e.mint,
    COUNT(DISTINCT CASE WHEN s.trader IS NOT NULL THEN e.trader END) * 1.0
      / NULLIF(COUNT(DISTINCT e.trader), 0) AS serial_frac
  FROM et e LEFT JOIN serials s ON s.trader = e.trader
  GROUP BY e.mint
),
feat AS (
  SELECT c.mint, c.symbol, c.created_ms,
    COUNT(DISTINCT CASE WHEN e.age_ms <= 60000 THEN e.trader END) AS buyers_60s,
    COUNT(DISTINCT e.trader) AS buyers_2m,
    COUNT(DISTINCT CASE WHEN e.age_ms > 60000 AND e.age_ms <= 120000 THEN e.trader END) AS buyers_min2,
    COALESCE(SUM(CASE WHEN e.age_ms <= 60000 THEN (CASE WHEN e.side='buy' THEN e.sol_amount ELSE -e.sol_amount END) ELSE 0 END), 0) AS net_60s,
    COALESCE(SUM(CASE WHEN e.side='buy' THEN e.sol_amount ELSE -e.sol_amount END), 0) AS net_2m
  FROM cand c LEFT JOIN et e ON e.mint = c.mint
  GROUP BY c.mint, c.symbol, c.created_ms
)
SELECT f.symbol, f.mint,
  CAST((a.t - f.created_ms) / 1000 AS BIGINT) AS age_s,
  f.buyers_60s, f.buyers_2m, f.buyers_min2,
  ROUND(f.net_60s, 3) AS net_60s, ROUND(f.net_2m, 3) AS net_2m,
  ROUND(COALESCE(tb.max_buy / NULLIF(tb.tot_buy, 0), 0), 3) AS top_buy_share,
  ROUND(COALESCE(sf.serial_frac, 0), 3) AS serial_frac,
  (f.net_2m >= 10 AND f.buyers_min2 >= 30) AS sustained
FROM feat f
CROSS JOIN horizon a
LEFT JOIN topbuy tb ON tb.mint = f.mint
LEFT JOIN sf ON sf.mint = f.mint
WHERE (";

/// The kill filters: a net outflow with few buyers, or serial wallets among
/// few buyers.
pub const SCREEN_SQL_KILL: &'static str = "AND NOT ((f.net_2m < 0 AND f.buyers_2m < 5) OR (COALESCE(sf.serial_frac,0) > 0.5 AND f.buyers_2m < 10))";

/// From the kill filters up to the row limit.
pub const SCREEN_SQL_ORDER: &'static str = "
ORDER BY f.net_2m DESC, f.buyers_2m DESC
LIMIT ";

/// The screening query for `p`.
pub open spec fn screen_sql(p: ScreenParams) -> Seq<char> {
    SCREEN_SQL_HEAD@ + decimal(p.minutes as nat) + SCREEN_SQL_FEATURES@ + tier_predicate(p.tier)
        + ") "@ + (if p.apply_kill { SCREEN_SQL_KILL@ } else { Seq::empty() })
        + SCREEN_SQL_ORDER@ + decimal(p.limit as nat) + seq!['\n']
}

/// The filter each tier puts between `WHERE (` and `)`: the balanced
/// (default) tier excludes every token one of whose buyers holds half or more
/// of the buy volume (`top_buy_share < 0.5`) and asks for at least 20 buyers
/// and 2 SOL net inflow; `All` filters nothing; the kill filters follow
/// whenever they apply.
pub proof fn law_tier_filters(p: ScreenParams)
    ensures
        screen_sql(p) == SCREEN_SQL_HEAD@ + decimal(p.minutes as nat) + SCREEN_SQL_FEATURES@
            + (match p.tier {
                Tier::Balanced => "buyers_2m >= 20 AND net_2m >= 2 AND top_buy_share < 0.5"@,
                Tier::Gate60 => "buyers_60s >= 8"@,
                Tier::Conviction60 => "buyers_60s >= 12 AND net_60s > 0"@,
                Tier::Gate120 => "buyers_2m >= 10"@,
                Tier::Inflow120 => "buyers_2m >= 10 AND net_2m > 0"@,
                Tier::Sustained => "net_2m >= 10 AND buyers_min2 >= 30"@,
                Tier::All => "1=1"@,
            })
            + ") "@ + (if p.apply_kill { SCREEN_SQL_KILL@ } else { Seq::empty() })
            + SCREEN_SQL_ORDER@ + decimal(p.limit as nat) + seq!['\n'],
        p.tier == Tier::Balanced ==> has_infix(screen_sql(p), "top_buy_share < 0.5"@),
{
    if p.tier == Tier::Balanced {
        let pre = SCREEN_SQL_HEAD@ + decimal(p.minutes as nat) + SCREEN_SQL_FEATURES@
            + "buyers_2m >= 20 AND net_2m >= 2 AND "@;
        let w = "top_buy_share < 0.5"@;
        let post = ") "@ + (if p.apply_kill { SCREEN_SQL_KILL@ } else { Seq::empty() })
            + SCREEN_SQL_ORDER@ + decimal(p.limit as nat) + seq!['\n'];
        reveal_strlit("buyers_2m >= 20 AND net_2m >= 2 AND top_buy_share < 0.5");
        reveal_strlit("buyers_2m >= 20 AND net_2m >= 2 AND ");
        reveal_strlit("top_buy_share < 0.5");
        assert("buyers_2m >= 20 AND net_2m >= 2 AND top_buy_share < 0.5"@
            =~= "buyers_2m >= 20 AND net_2m >= 2 AND "@ + w);
        assert(screen_sql(p) =~= pre + w + post);
        assert((pre + w + post).skip(pre.len() as int).take(w.len() as int) =~= w);
    }
}

/// The single feature-and-scoring query: recent launches whose first 120s
/// have closed within the data, their features, the tier predicate, the kill
/// filters when `apply_kill`, ranked by net inflow then buyers.
pub fn build_sql(p: &ScreenParams) -> (sql: String)
    ensures
        sql@ == screen_sql(*p),
{
    let mut r = String::from_str(SCREEN_SQL_HEAD);
    push_decimal(&mut r, p.minutes as u64);
    r.append(SCREEN_SQL_FEATURES);
    r.append(p.tier.predicate());
    r.append(") ");
    if p.apply_kill {
        r.append(SCREEN_SQL_KILL);
    }
    r.append(SCREEN_SQL_ORDER);
    push_decimal(&mut r, p.limit as u64);
    r.append("\n");
    proof {
        reveal_strlit("\n");
    }
    assert(r@ =~= screen_sql(*p));
    r
}

} // verus!
