//! The 40-minute survivor screener's query: for coins about 30 to 45 minutes
//! old, whether early buyers include currently successful "smart" wallets and
//! whether the coin still draws fresh buyers. The smart-wallet set is computed
//! afresh from the rolling window on every call.

use vstd::prelude::*;
use crate::screen::clamped;
use crate::text::{decimal, push_decimal};

verus! {

/// What a survivor screen asks for.
#[derive(Clone, Copy, Debug)]
pub struct SurvivorParams {
    /// The cohort: tokens created between `age_max` and `age_min` minutes
    /// before the newest trade.
    pub age_min: u32,
    pub age_max: u32,
    /// Smart wallets: at least this many cheap-launch buys (at most 35 SOL
    /// market cap, first 60s) ...
    pub smart_min_buys: u32,
    /// ... of which at least this percentage reached a 84 SOL peak ...
    pub smart_min_succ: u32,
    /// ... and no more than this many distinct tokens traded (spray bots out).
    pub smart_max_tokens: u32,
    /// "Still active": at least this many distinct buyers in the last 10 min.
    pub active_min: u32,
    /// At most this many rows.
    pub limit: u32,
}

/// The parameters `SurvivorParams::from_args` builds.
pub open spec fn survivor_params_of(age_min: Option<u32>, age_max: Option<u32>, limit: Option<u32>) -> SurvivorParams {
    let lo = clamped(age_min.unwrap_or(30) as int, 1, 1439);
    SurvivorParams {
        age_min: lo as u32,
        age_max: clamped(age_max.unwrap_or(45) as int, lo + 1, 1440) as u32,
        smart_min_buys: 10,
        smart_min_succ: 40,
        smart_max_tokens: 200,
        active_min: 10,
        limit: clamped(limit.unwrap_or(30) as int, 1, 200) as u32,
    }
}

fn clamp_between(v: u32, lo: u32, hi: u32) -> (r: u32)
    requires
        lo <= hi,
    ensures
        r == clamped(v as int, lo as int, hi as int),
{
    if v < lo { lo } else if v > hi { hi } else { v }
}

impl SurvivorParams {
    /// Defaults 30 and 45 minutes and 30 rows; the lower bound clamped into
    /// 1..=1439, the upper into one past the lower ..=1440, the limit into
    /// 1..=200; the smart-wallet and activity thresholds fixed.
    pub fn from_args(age_min: Option<u32>, age_max: Option<u32>, limit: Option<u32>) -> (p: SurvivorParams)
        ensures
            p == survivor_params_of(age_min, age_max, limit),
            1 <= p.age_min < p.age_max <= 1440,
    {
        let lo = clamp_between(match age_min { Some(v) => v, None => 30 }, 1, 1439);
        let hi = clamp_between(match age_max { Some(v) => v, None => 45 }, lo + 1, 1440);
        SurvivorParams {
            age_min: lo,
            age_max: hi,
            smart_min_buys: 10,
            smart_min_succ: 40,
            smart_max_tokens: 200,
            active_min: 10,
            limit: clamp_between(match limit { Some(v) => v, None => 30 }, 1, 200),
        }
    }
}

/// The query text up to the smart wallets' minimum cheap-launch buys.
pub const SURVIVOR_SQL_HEAD: &'static str = "
WITH horizon AS (SELECT max(ts_ms) AS t FROM trades),
tok_all AS (
  SELECT n.mint, n.created_ms, n.creator, max(tr.market_cap_sol) AS peak
  FROM new_tokens n JOIN trades tr ON tr.mint = n.mint
  GROUP BY n.mint, n.created_ms, n.creator
),
-- total distinct coins each wallet traded — the spray-bot tell.
vol AS (SELECT trader, count(DISTINCT mint) AS total_tokens FROM trades GROUP BY trader),
clb AS (
  SELECT DISTINCT t.trader, t.mint, ta.peak
  FROM trades t JOIN tok_all ta ON ta.mint = t.mint
  WHERE t.side = 'buy' AND t.ts_ms <= ta.created_ms + 60000 AND t.market_cap_sol <= 35
    AND t.trader <> ta.creator   -- exclude the dev's own bundle-buy
),
-- \"smart\" = SELECTIVE winners: high cheap-launch hit rate AND not a spray bot.
smart AS (
  SELECT c.trader FROM clb c JOIN vol v ON v.trader = c.trader
  GROUP BY c.trader, v.total_tokens
  HAVING count(*) >= ";

/// From the minimum buys up to the minimum success percentage.
pub const SURVIVOR_SQL_SUCCESS: &'static str = "
     AND 100.0 * count(*) FILTER (WHERE c.peak >= 84) / count(*) >= ";

/// From the success percentage up to the selectivity cap.
pub const SURVIVOR_SQL_SELECTIVE: &'static str = "
     AND v.total_tokens <= ";

/// From the selectivity cap up to the cohort's upper age bound.
pub const SURVIVOR_SQL_COHORT: &'static str = "
),
cohort AS (
  SELECT n.mint, n.symbol, n.created_ms FROM new_tokens n CROSS JOIN horizon
  WHERE n.created_ms BETWEEN horizon.t - ";

/// Between the cohort's upper and lower age bounds.
pub const SURVIVOR_SQL_COHORT_END: &'static str = "*60000 AND horizon.t - ";

/// From the lower age bound up to the activity threshold.
pub const SURVIVOR_SQL_SCORE: &'static str = "*60000
),
sw AS (
  SELECT c.mint, count(DISTINCT t.trader) AS smart_buyers
  FROM cohort c JOIN trades t ON t.mint = c.mint JOIN smart s ON s.trader = t.trader
  WHERE t.side = 'buy' AND t.ts_ms <= c.created_ms + 60000
  GROUP BY c.mint
),
act AS (
  SELECT c.mint,
    count(DISTINCT t.trader) FILTER (WHERE t.ts_ms >= (SELECT t FROM horizon) - 600000) AS buyers_10m,
    count(*) FILTER (WHERE t.ts_ms >= (SELECT t FROM horizon) - 600000) AS trades_10m,
    arg_max(t.market_cap_sol, t.ts_ms) AS cur_mcap,
    max(t.market_cap_sol) AS peak_mcap,
    max(t.ts_ms) AS last_ts
  FROM cohort c JOIN trades t ON t.mint = c.mint
  GROUP BY c.mint
)
SELECT c.symbol, c.mint,
  CAST(((SELECT t FROM horizon) - c.created_ms) / 60000 AS INT) AS age_min,
  COALESCE(sw.smart_buyers, 0) AS smart_early_buyers,
  COALESCE(act.buyers_10m, 0) AS buyers_10m,
  COALESCE(act.trades_10m, 0) AS trades_10m,
  ROUND(act.cur_mcap, 1) AS cur_mcap,
  ROUND(act.peak_mcap, 1) AS peak_mcap,
  CAST(((SELECT t FROM horizon) - act.last_ts) / 1000 AS INT) AS last_trade_age_s
FROM cohort c
LEFT JOIN sw ON sw.mint = c.mint
LEFT JOIN act ON act.mint = c.mint
WHERE COALESCE(sw.smart_buyers, 0) >= 1 OR COALESCE(act.buyers_10m, 0) >= ";

/// From the activity threshold up to the row limit.
pub const SURVIVOR_SQL_ORDER: &'static str = "
ORDER BY COALESCE(sw.smart_buyers, 0) DESC, COALESCE(act.buyers_10m, 0) DESC
LIMIT ";

/// After the row limit.
pub const SURVIVOR_SQL_TAIL: &'static str = "
";

/// The survivor-screening query for `p`.
pub open spec fn survivor_sql(p: SurvivorParams) -> Seq<char> {
    SURVIVOR_SQL_HEAD@ + decimal(p.smart_min_buys as nat) + SURVIVOR_SQL_SUCCESS@ + decimal(p.smart_min_succ as nat) + SURVIVOR_SQL_SELECTIVE@ + decimal(p.smart_max_tokens as nat) + SURVIVOR_SQL_COHORT@ + decimal(p.age_max as nat) + SURVIVOR_SQL_COHORT_END@ + decimal(p.age_min as nat) + SURVIVOR_SQL_SCORE@ + decimal(p.active_min as nat) + SURVIVOR_SQL_ORDER@ + decimal(p.limit as nat) + SURVIVOR_SQL_TAIL@
}

/// The full screener query: the smart-wallet set computed fresh, then the
/// cohort scored by smart early buyers and recent activity.
pub fn build_sql(p: &SurvivorParams) -> (sql: String)
    ensures
        sql@ == survivor_sql(*p),
{
    let mut r = String::from_str(SURVIVOR_SQL_HEAD);
    push_decimal(&mut r, p.smart_min_buys as u64);
    r.append(SURVIVOR_SQL_SUCCESS);
    push_decimal(&mut r, p.smart_min_succ as u64);
    r.append(SURVIVOR_SQL_SELECTIVE);
    push_decimal(&mut r, p.smart_max_tokens as u64);
    r.append(SURVIVOR_SQL_COHORT);
    push_decimal(&mut r, p.age_max as u64);
    r.append(SURVIVOR_SQL_COHORT_END);
    push_decimal(&mut r, p.age_min as u64);
    r.append(SURVIVOR_SQL_SCORE);
    push_decimal(&mut r, p.active_min as u64);
    r.append(SURVIVOR_SQL_ORDER);
    push_decimal(&mut r, p.limit as u64);
    r.append(SURVIVOR_SQL_TAIL);
    assert(r@ =~= survivor_sql(*p));
    r
}

} // verus!
