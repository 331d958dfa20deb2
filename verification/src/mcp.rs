//! The MCP tools' queries over the read-only snapshot: each tool's arguments
//! become one SQL statement and its bound parameters. Running them, and the
//! JSON-RPC server around them, belongs to the caller.

use vstd::prelude::*;
use crate::screen::{opt_view, screen_params_of, ScreenParams};
use crate::survivors::{survivor_params_of, SurvivorParams};
use crate::text::{decimal, push_decimal, str_eq, strip_trailing_semicolons, trim, trim_end_semicolons, trim_spec};

verus! {

/// Arguments of `query_recent_tokens`.
pub struct RecentArgs {
    /// Look back this many minutes (default 30).
    pub minutes: Option<u32>,
    /// Max rows (default 50).
    pub limit: Option<u32>,
}

/// Arguments of the per-mint tools.
pub struct MintArgs {
    pub mint: String,
    pub limit: Option<u32>,
}

/// Arguments of `top_tokens`.
pub struct TopArgs {
    pub minutes: Option<u32>,
    /// One of: peak_mcap | trade_count | cap_growth (default peak_mcap).
    pub by: Option<String>,
    pub limit: Option<u32>,
}

/// Arguments of `wallet_activity`.
pub struct WalletArgs {
    pub trader: String,
    pub limit: Option<u32>,
}

/// Arguments of `run_readonly_sql`.
pub struct SqlArgs {
    /// A read-only SELECT.
    pub sql: String,
    pub limit: Option<u32>,
}

/// Arguments of `screen_candidates`.
pub struct ScreenArgs {
    /// Look back this many minutes (default 20).
    pub minutes: Option<u32>,
    /// Tier name (default balanced).
    pub tier: Option<String>,
    /// Max rows (default 30).
    pub limit: Option<u32>,
}

/// Arguments of `screen_survivors`.
pub struct SurvivorArgs {
    /// Cohort lower age bound in minutes (default 30).
    pub age_min: Option<u32>,
    /// Cohort upper age bound in minutes (default 45).
    pub age_max: Option<u32>,
    /// Max rows (default 30).
    pub limit: Option<u32>,
}

/// A value bound to a `?` placeholder.
pub enum SqlParam {
    Int(i64),
    Text(String),
}

/// A bound value as a plain value.
pub enum SqlParamView {
    Int(i64),
    Text(Seq<char>),
}

impl View for SqlParam {
    type V = SqlParamView;

    open spec fn view(&self) -> SqlParamView {
        match self {
            SqlParam::Int(n) => SqlParamView::Int(*n),
            SqlParam::Text(t) => SqlParamView::Text(t@),
        }
    }
}

/// One statement and the values bound to its placeholders, in order.
pub struct QueryPlan {
    pub sql: String,
    pub params: Vec<SqlParam>,
}

impl View for QueryPlan {
    type V = (Seq<char>, Seq<SqlParamView>);

    open spec fn view(&self) -> (Seq<char>, Seq<SqlParamView>) {
        (self.sql@, self.params@.map_values(|p: SqlParam| p@))
    }
}

/// The epoch-ms instant `minutes` minutes before `now_ms`.
pub open spec fn minutes_before(now_ms: i64, minutes: u32) -> int {
    now_ms - minutes * 60_000
}

fn cutoff(now_ms: i64, minutes: u32) -> (c: i64)
    requires
        minutes_before(now_ms, minutes) >= i64::MIN,
    ensures
        c == minutes_before(now_ms, minutes),
{
    now_ms - (minutes as i64) * 60_000
}

fn plan(sql: String, params: Vec<SqlParam>) -> (p: QueryPlan)
    ensures
        p@ == (sql@, params@.map_values(|x: SqlParam| x@)),
{
    QueryPlan { sql, params }
}

/// New tokens created since a cutoff, newest first.
pub const RECENT_SQL: &'static str = "SELECT mint, symbol, name, creator, created_ms, market_cap_sol, initial_buy_sol
                 FROM new_tokens WHERE created_ms >= ? ORDER BY created_ms DESC LIMIT ?";

/// One token's row with its aggregate trade statistics.
pub const DETAIL_SQL: &'static str = "SELECT t.*,
                   (SELECT count(*) FROM trades x WHERE x.mint=t.mint) AS trade_count,
                   (SELECT count(*) FROM trades x WHERE x.mint=t.mint AND side='buy') AS buys,
                   (SELECT count(*) FROM trades x WHERE x.mint=t.mint AND side='sell') AS sells,
                   (SELECT count(DISTINCT trader) FROM trades x WHERE x.mint=t.mint) AS unique_traders,
                   (SELECT min(ts_ms) FROM trades x WHERE x.mint=t.mint) AS first_trade_ms,
                   (SELECT max(ts_ms) FROM trades x WHERE x.mint=t.mint) AS last_trade_ms,
                   (SELECT max(market_cap_sol) FROM trades x WHERE x.mint=t.mint) AS peak_mcap,
                   (SELECT min(market_cap_sol) FROM trades x WHERE x.mint=t.mint) AS min_mcap
                 FROM new_tokens t WHERE t.mint = ?";

/// A mint's trades in time order.
pub const TRADES_SQL: &'static str = "SELECT ts_ms, side, trader, sol_amount, token_amount, market_cap_sol, new_token_balance
                 FROM trades WHERE mint = ? ORDER BY ts_ms ASC LIMIT ?";

/// Top tokens since a cutoff, up to the ranking column.
pub const TOP_SQL_HEAD: &'static str = "SELECT n.mint, n.symbol, n.created_ms,
               max(tr.market_cap_sol) AS peak_mcap,
               count(tr.mint) AS trade_count,
               max(tr.market_cap_sol)/nullif(min(tr.market_cap_sol),0) AS cap_growth
             FROM new_tokens n JOIN trades tr ON tr.mint = n.mint
             WHERE n.created_ms >= ?
             GROUP BY n.mint, n.symbol, n.created_ms
             ORDER BY ";

/// Top tokens, after the ranking column.
pub const TOP_SQL_TAIL: &'static str = " DESC NULLS LAST LIMIT ?";

/// One wallet's trades across mints, newest first.
pub const WALLET_SQL: &'static str = "SELECT mint, ts_ms, side, sol_amount, market_cap_sol
                 FROM trades WHERE trader = ? ORDER BY ts_ms DESC LIMIT ?";

/// Window health: counts, time span, distinct traders.
pub const STATS_SQL: &'static str = "SELECT
                   (SELECT count(*) FROM new_tokens) AS tokens,
                   (SELECT count(*) FROM trades) AS trades,
                   (SELECT min(ts_ms) FROM trades) AS first_trade_ms,
                   (SELECT max(ts_ms) FROM trades) AS last_trade_ms,
                   (SELECT count(DISTINCT trader) FROM trades) AS distinct_traders";

/// The `query_recent_tokens` statement: tokens created in the last
/// `minutes` (default 30), at most `limit` (default 50).
pub open spec fn recent_plan_spec(a: RecentArgs, now_ms: i64) -> (Seq<char>, Seq<SqlParamView>) {
    (RECENT_SQL@, seq![
        SqlParamView::Int(minutes_before(now_ms, a.minutes.unwrap_or(30)) as i64),
        SqlParamView::Int(a.limit.unwrap_or(50) as i64),
    ])
}

/// The `query_recent_tokens` statement.
pub fn recent_tokens_plan(a: &RecentArgs, now_ms: i64) -> (p: QueryPlan)
    requires
        minutes_before(now_ms, a.minutes.unwrap_or(30)) >= i64::MIN,
    ensures
        p@ == recent_plan_spec(*a, now_ms),
{
    let minutes = match a.minutes { Some(m) => m, None => 30 };
    let limit = match a.limit { Some(l) => l, None => 50 };
    let params = vec![SqlParam::Int(cutoff(now_ms, minutes)), SqlParam::Int(limit as i64)];
    let p = plan(String::from_str(RECENT_SQL), params);
    assert(p@.1 =~= recent_plan_spec(*a, now_ms).1);
    p
}

/// The `token_detail` statement: the token's row and trade statistics.
pub fn token_detail_plan(a: &MintArgs) -> (p: QueryPlan)
    ensures
        p@ == (DETAIL_SQL@, seq![SqlParamView::Text(a.mint@)]),
{
    let params = vec![SqlParam::Text(a.mint.clone())];
    let p = plan(String::from_str(DETAIL_SQL), params);
    assert(p@.1 =~= seq![SqlParamView::Text(a.mint@)]);
    p
}

/// The `token_trades` statement: at most `limit` (default 200) trades.
pub fn token_trades_plan(a: &MintArgs) -> (p: QueryPlan)
    ensures
        p@ == (TRADES_SQL@, seq![SqlParamView::Text(a.mint@), SqlParamView::Int(a.limit.unwrap_or(200) as i64)]),
{
    let limit = match a.limit { Some(l) => l, None => 200 };
    let params = vec![SqlParam::Text(a.mint.clone()), SqlParam::Int(limit as i64)];
    let p = plan(String::from_str(TRADES_SQL), params);
    assert(p@.1 =~= seq![SqlParamView::Text(a.mint@), SqlParamView::Int(a.limit.unwrap_or(200) as i64)]);
    p
}

/// The column `top_tokens` ranks by: `trade_count` or `cap_growth` when
/// asked for exactly, `peak_mcap` otherwise.
pub open spec fn rank_column(by: Option<Seq<char>>) -> Seq<char> {
    if by == Some("trade_count"@) {
        "trade_count"@
    } else if by == Some("cap_growth"@) {
        "cap_growth"@
    } else {
        "peak_mcap"@
    }
}

/// The view of an optional string.
pub open spec fn opt_string(o: Option<String>) -> Option<Seq<char>> {
    match o { Some(s) => Some(s@), None => None }
}

/// The `top_tokens` statement: tokens created in the last `minutes`
/// (default 180) ranked by the chosen column, at most `limit` (default 25).
pub open spec fn top_plan_spec(a: TopArgs, now_ms: i64) -> (Seq<char>, Seq<SqlParamView>) {
    (TOP_SQL_HEAD@ + rank_column(opt_string(a.by)) + TOP_SQL_TAIL@, seq![
        SqlParamView::Int(minutes_before(now_ms, a.minutes.unwrap_or(180)) as i64),
        SqlParamView::Int(a.limit.unwrap_or(25) as i64),
    ])
}

/// The `top_tokens` statement.
pub fn top_tokens_plan(a: &TopArgs, now_ms: i64) -> (p: QueryPlan)
    requires
        minutes_before(now_ms, a.minutes.unwrap_or(180)) >= i64::MIN,
    ensures
        p@ == top_plan_spec(*a, now_ms),
{
    let minutes = match a.minutes { Some(m) => m, None => 180 };
    let limit = match a.limit { Some(l) => l, None => 25 };
    let order = match &a.by {
        Some(b) => if str_eq(b.as_str(), "trade_count") {
            "trade_count"
        } else if str_eq(b.as_str(), "cap_growth") {
            "cap_growth"
        } else {
            "peak_mcap"
        },
        None => "peak_mcap",
    };
    let mut sql = String::from_str(TOP_SQL_HEAD);
    sql.append(order);
    sql.append(TOP_SQL_TAIL);
    let params = vec![SqlParam::Int(cutoff(now_ms, minutes)), SqlParam::Int(limit as i64)];
    let p = plan(sql, params);
    assert(p@.1 =~= top_plan_spec(*a, now_ms).1);
    p
}

/// The `wallet_activity` statement: at most `limit` (default 200) trades.
pub fn wallet_activity_plan(a: &WalletArgs) -> (p: QueryPlan)
    ensures
        p@ == (WALLET_SQL@, seq![SqlParamView::Text(a.trader@), SqlParamView::Int(a.limit.unwrap_or(200) as i64)]),
{
    let limit = match a.limit { Some(l) => l, None => 200 };
    let params = vec![SqlParam::Text(a.trader.clone()), SqlParam::Int(limit as i64)];
    let p = plan(String::from_str(WALLET_SQL), params);
    assert(p@.1 =~= seq![SqlParamView::Text(a.trader@), SqlParamView::Int(a.limit.unwrap_or(200) as i64)]);
    p
}

/// The `window_stats` statement.
pub fn window_stats_plan() -> (p: QueryPlan)
    ensures
        p@ == (STATS_SQL@, Seq::<SqlParamView>::empty()),
{
    let p = plan(String::from_str(STATS_SQL), Vec::new());
    assert(p@.1 =~= Seq::<SqlParamView>::empty());
    p
}

/// The row cap `run_readonly_sql` enforces: the asked limit (default 200),
/// at most 5000.
pub open spec fn readonly_limit(limit: Option<u32>) -> u32 {
    let l = limit.unwrap_or(200);
    if l < 5000 { l } else { 5000 }
}

/// The `run_readonly_sql` statement: the caller's query, trimmed and
/// without trailing semicolons, wrapped so that a row cap applies.
pub open spec fn readonly_sql_spec(a: SqlArgs) -> Seq<char> {
    "SELECT * FROM ("@ + strip_trailing_semicolons(trim_spec(a.sql@)) + ") AS q LIMIT "@
        + decimal(readonly_limit(a.limit) as nat)
}

/// The `run_readonly_sql` statement.
pub fn readonly_sql_plan(a: &SqlArgs) -> (p: QueryPlan)
    ensures
        p@ == (readonly_sql_spec(*a), Seq::<SqlParamView>::empty()),
{
    let asked = match a.limit { Some(l) => l, None => 200 };
    let limit = if asked < 5000 { asked } else { 5000 };
    let trimmed = trim(a.sql.as_str());
    let inner = trim_end_semicolons(trimmed.as_str());
    let mut sql = String::from_str("SELECT * FROM (");
    sql.append(inner.as_str());
    sql.append(") AS q LIMIT ");
    push_decimal(&mut sql, limit as u64);
    let p = plan(sql, Vec::new());
    assert(p@.1 =~= Seq::<SqlParamView>::empty());
    assert(p@.0 =~= readonly_sql_spec(*a));
    p
}

/// `run_readonly_sql` never returns more than 5000 rows, and returns the
/// asked number when that is within the cap.
pub proof fn law_readonly_rows_capped(limit: Option<u32>)
    ensures
        readonly_limit(limit) <= 5000,
        (limit matches Some(l) && l <= 5000) ==> readonly_limit(limit) == limit.unwrap(),
        limit is None ==> readonly_limit(limit) == 200,
{
}

impl ScreenArgs {
    /// The screen these arguments ask for.
    pub fn params(&self) -> (p: ScreenParams)
        ensures
            p == screen_params_of(self.minutes, opt_string(self.tier), self.limit),
    {
        let tier = match &self.tier { Some(t) => Some(t.as_str()), None => None };
        assert(opt_view(tier) == opt_string(self.tier));
        ScreenParams::from_args(self.minutes, tier, self.limit)
    }
}

impl SurvivorArgs {
    /// The survivor screen these arguments ask for.
    pub fn params(&self) -> (p: SurvivorParams)
        ensures
            p == survivor_params_of(self.age_min, self.age_max, self.limit),
    {
        SurvivorParams::from_args(self.age_min, self.age_max, self.limit)
    }
}

} // verus!
