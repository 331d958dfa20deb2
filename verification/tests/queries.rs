use meme_expert::config::{
    env_str_or, env_u64_or, env_usize_or, env_value, helius_key_missing, pumpportal_ws_url, PUMPPORTAL_WS_URL,
};
use meme_expert::db::snapshot_sql;
use meme_expert::mcp::{
    readonly_sql_plan, recent_tokens_plan, token_detail_plan, token_trades_plan, top_tokens_plan,
    wallet_activity_plan, window_stats_plan, MintArgs, RecentArgs, ScreenArgs, SqlArgs, SqlParam, SurvivorArgs,
    TopArgs, WalletArgs,
};
use meme_expert::screen::{build_sql, ScreenParams, Tier};
use meme_expert::survivors::{self, SurvivorParams};
use meme_expert::text::{contains_text, is_float_text, parse_u64, trim};

fn ints(ps: &[SqlParam]) -> Vec<i64> {
    ps.iter()
        .map(|p| match p {
            SqlParam::Int(n) => *n,
            SqlParam::Text(_) => panic!("expected an integer"),
        })
        .collect()
}

#[test]
fn tier_names() {
    assert_eq!(Tier::parse("gate60"), Tier::Gate60);
    assert_eq!(Tier::parse("  GATE_60 "), Tier::Gate60);
    assert_eq!(Tier::parse("Conviction_60"), Tier::Conviction60);
    assert_eq!(Tier::parse("gate120"), Tier::Gate120);
    assert_eq!(Tier::parse("inflow"), Tier::Inflow120);
    assert_eq!(Tier::parse("sustain"), Tier::Sustained);
    assert_eq!(Tier::parse("RAW"), Tier::All);
    assert_eq!(Tier::parse("features"), Tier::All);
    assert_eq!(Tier::parse("whatever"), Tier::Balanced);
    assert_eq!(Tier::parse(""), Tier::Balanced);
    assert_eq!(Tier::Balanced.label(), "high-conviction");
    assert_eq!(Tier::Sustained.label(), "sustained");
    assert_eq!(Tier::Gate60.label(), "gate-60s");
    assert_eq!(Tier::All.predicate(), "1=1");
    assert_eq!(Tier::Conviction60.predicate(), "buyers_60s >= 12 AND net_60s > 0");
}

#[test]
fn screen_params_defaults_and_clamps() {
    let p = ScreenParams::from_args(None, None, None);
    assert_eq!((p.minutes, p.tier, p.limit, p.apply_kill), (20, Tier::Balanced, 30, true));
    let p = ScreenParams::from_args(Some(0), Some("all"), Some(5000));
    assert_eq!((p.minutes, p.tier, p.limit, p.apply_kill), (1, Tier::All, 1000, false));
    let p = ScreenParams::from_args(Some(99999), Some("gate60"), Some(0));
    assert_eq!((p.minutes, p.limit, p.apply_kill), (1440, 1, true));
    let a = ScreenArgs { minutes: Some(7), tier: Some("sustained".to_string()), limit: None };
    let p = a.params();
    assert_eq!((p.minutes, p.tier, p.limit), (7, Tier::Sustained, 30));
}

#[test]
fn screen_sql_pieces() {
    let sql = build_sql(&ScreenParams::from_args(Some(15), Some("gate60"), Some(9)));
    assert!(sql.contains("WHERE n.created_ms >= horizon.t - 15*60000"));
    assert!(sql.contains("WHERE (buyers_60s >= 8) AND NOT ((f.net_2m < 0"));
    assert!(sql.ends_with("ORDER BY f.net_2m DESC, f.buyers_2m DESC\nLIMIT 9\n"));
    let all = build_sql(&ScreenParams::from_args(None, Some("all"), None));
    assert!(all.contains("WHERE (1=1) \nORDER BY"));
    assert!(!all.contains("AND NOT"));
}

#[test]
fn survivor_params_and_sql() {
    let p = SurvivorParams::from_args(None, None, None);
    assert_eq!((p.age_min, p.age_max, p.limit), (30, 45, 30));
    assert_eq!((p.smart_min_buys, p.smart_min_succ, p.smart_max_tokens, p.active_min), (10, 40, 200, 10));
    let p = SurvivorParams::from_args(Some(2000), Some(5), Some(900));
    assert_eq!((p.age_min, p.age_max, p.limit), (1439, 1440, 200));
    let p = SurvivorParams::from_args(Some(0), Some(0), Some(0));
    assert_eq!((p.age_min, p.age_max, p.limit), (1, 2, 1));
    let a = SurvivorArgs { age_min: Some(10), age_max: Some(20), limit: Some(5) };
    let p = a.params();
    let sql = survivors::build_sql(&p);
    assert!(sql.contains("BETWEEN horizon.t - 20*60000 AND horizon.t - 10*60000"));
    assert!(sql.contains("HAVING count(*) >= 10"));
    assert!(sql.contains(">= 40\n     AND v.total_tokens <= 200"));
    assert!(sql.ends_with("LIMIT 5\n"));
}

#[test]
fn mcp_plans() {
    let p = recent_tokens_plan(&RecentArgs { minutes: None, limit: None }, 10_000_000);
    assert!(p.sql.starts_with("SELECT mint, symbol, name"));
    assert_eq!(ints(&p.params), vec![10_000_000 - 30 * 60_000, 50]);
    let p = recent_tokens_plan(&RecentArgs { minutes: Some(1), limit: Some(3) }, 0);
    assert_eq!(ints(&p.params), vec![-60_000, 3]);
    let p = token_detail_plan(&MintArgs { mint: "M".to_string(), limit: None });
    assert!(matches!(&p.params[..], [SqlParam::Text(m)] if m == "M"));
    let p = token_trades_plan(&MintArgs { mint: "M".to_string(), limit: None });
    assert!(matches!(&p.params[..], [SqlParam::Text(_), SqlParam::Int(200)]));
    let p = wallet_activity_plan(&WalletArgs { trader: "W".to_string(), limit: Some(7) });
    assert!(matches!(&p.params[..], [SqlParam::Text(w), SqlParam::Int(7)] if w == "W"));
    assert!(window_stats_plan().params.is_empty());
    let p = top_tokens_plan(&TopArgs { minutes: None, by: Some("cap_growth".to_string()), limit: None }, 20_000_000);
    assert!(p.sql.contains("ORDER BY cap_growth DESC NULLS LAST LIMIT ?"));
    assert_eq!(ints(&p.params), vec![20_000_000 - 180 * 60_000, 25]);
    let p = top_tokens_plan(&TopArgs { minutes: None, by: Some("Trade_Count".to_string()), limit: None }, 0);
    assert!(p.sql.contains("ORDER BY peak_mcap DESC"));
    let p = top_tokens_plan(&TopArgs { minutes: None, by: Some("trade_count".to_string()), limit: None }, 0);
    assert!(p.sql.contains("ORDER BY trade_count DESC"));
}

#[test]
fn readonly_sql_is_wrapped_and_capped() {
    let p = readonly_sql_plan(&SqlArgs { sql: "  SELECT 1;; \n".to_string(), limit: None });
    assert_eq!(p.sql, "SELECT * FROM (SELECT 1) AS q LIMIT 200");
    let p = readonly_sql_plan(&SqlArgs { sql: "SELECT 2".to_string(), limit: Some(99999) });
    assert_eq!(p.sql, "SELECT * FROM (SELECT 2) AS q LIMIT 5000");
    assert!(p.params.is_empty());
}

#[test]
fn snapshot_statement_escapes_quotes() {
    let sql = snapshot_sql("/Volumes/John's Drive/snap.tmp");
    assert!(sql.starts_with("ATTACH '/Volumes/John''s Drive/snap.tmp' AS snap;"));
    assert!(sql.ends_with("DETACH snap;"));
}

#[test]
fn environment_values() {
    assert_eq!(env_value(Some("  ".to_string())), None);
    assert_eq!(env_value(Some(" x ".to_string())).as_deref(), Some(" x "));
    assert_eq!(env_value(None), None);
    assert_eq!(env_str_or(None, "d"), "d");
    assert_eq!(env_u64_or(Some("1000".to_string()), 5), 1000);
    assert_eq!(env_u64_or(Some("+7".to_string()), 5), 7);
    assert_eq!(env_u64_or(Some(" 7".to_string()), 5), 5);
    assert_eq!(env_u64_or(Some("18446744073709551616".to_string()), 5), 5);
    assert_eq!(env_usize_or(Some("500".to_string()), 1), 500);
    assert_eq!(env_usize_or(Some("-1".to_string()), 1), 1);
}

#[test]
fn pumpportal_url_with_key() {
    let base = PUMPPORTAL_WS_URL.to_string();
    assert_eq!(pumpportal_ws_url(&None, base.clone()), "wss://pumpportal.fun/api/data");
    assert_eq!(
        pumpportal_ws_url(&Some("K".to_string()), base.clone()),
        "wss://pumpportal.fun/api/data?api-key=K"
    );
    assert_eq!(pumpportal_ws_url(&Some("K".to_string()), "wss://h/x?a=1".to_string()), "wss://h/x?a=1&api-key=K");
    assert_eq!(pumpportal_ws_url(&Some(String::new()), base), "wss://pumpportal.fun/api/data");
    assert!(helius_key_missing(&None, "wss://h"));
    assert!(!helius_key_missing(&None, "wss://h?api-key=1"));
    assert!(!helius_key_missing(&Some("k".to_string()), "wss://h"));
}

#[test]
fn text_helpers() {
    for ok in ["1", "1.5", ".5", "5.", "-2e10", "+3E-2", "inf", "-Infinity", "NaN", "1e+7"] {
        assert!(is_float_text(ok), "{ok}");
        assert!(ok.parse::<f64>().is_ok(), "{ok}");
    }
    for bad in ["", ".", "e5", "1e", "1.2.3", " 1", "1 ", "abc", "--1", "1e5e5", "infin"] {
        assert!(!is_float_text(bad), "{bad}");
        assert!(bad.parse::<f64>().is_err(), "{bad}");
    }
    assert!(contains_text("Minimum balance not met", "balance"));
    assert!(contains_text("abc", ""));
    assert!(!contains_text("ab", "abc"));
    assert_eq!(parse_u64("0042"), Some(42));
    assert_eq!(parse_u64(""), None);
    assert_eq!(trim("\t x y \n"), "x y");
}
