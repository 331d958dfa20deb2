use meme_expert::json::{Json, JsonNumber, Member};
use meme_expert::model::{parse_frame, Frame, NumField};

fn to_json(v: &serde_json::Value) -> Json {
    match v {
        serde_json::Value::Null => Json::Null,
        serde_json::Value::Bool(b) => Json::Bool(*b),
        serde_json::Value::Number(n) => {
            if let Some(u) = n.as_u64() {
                Json::Number(JsonNumber::PosInt(u))
            } else if let Some(i) = n.as_i64() {
                Json::Number(JsonNumber::NegInt(i))
            } else {
                Json::Number(JsonNumber::Float(n.to_string()))
            }
        }
        serde_json::Value::String(s) => Json::Str(s.clone()),
        serde_json::Value::Array(a) => Json::Array(a.iter().map(to_json).collect()),
        serde_json::Value::Object(o) => Json::Object(
            o.iter().map(|(k, v)| Member { key: k.clone(), value: to_json(v) }).collect(),
        ),
    }
}

fn frame(text: &str, now_ms: i64) -> Frame {
    let doc = serde_json::from_str::<serde_json::Value>(text).ok().map(|v| to_json(&v));
    parse_frame(&doc, text, now_ms)
}

fn as_f64(n: &Option<NumField>) -> Option<f64> {
    match n {
        Some(NumField::Number(JsonNumber::PosInt(u))) => Some(*u as f64),
        Some(NumField::Number(JsonNumber::NegInt(i))) => Some(*i as f64),
        Some(NumField::Number(JsonNumber::Float(t))) => t.parse().ok(),
        Some(NumField::Text(t)) => t.parse().ok(),
        None => None,
    }
}

#[test]
fn parses_new_token() {
    let f = frame(
        r#"{"txType":"create","mint":"ABC","name":"Doge","symbol":"DOGE","traderPublicKey":"W1","marketCapSol":30.5,"solAmount":1.2}"#,
        1000,
    );
    match f {
        Frame::NewToken(t) => {
            assert_eq!(t.mint, "ABC");
            assert_eq!(t.symbol.as_deref(), Some("DOGE"));
            assert_eq!(t.creator.as_deref(), Some("W1"));
            assert_eq!(as_f64(&t.market_cap_sol), Some(30.5));
            assert_eq!(t.created_ms, 1000);
        }
        _ => panic!("expected NewToken"),
    }
}

#[test]
fn parses_trade() {
    let f = frame(
        r#"{"txType":"buy","mint":"ABC","traderPublicKey":"W2","solAmount":0.5,"marketCapSol":40.0}"#,
        2000,
    );
    match f {
        Frame::Trade(t) => {
            assert_eq!(t.side, "buy");
            assert_eq!(t.trader, "W2");
            assert_eq!(as_f64(&t.market_cap_sol), Some(40.0));
        }
        _ => panic!("expected Trade"),
    }
}

#[test]
fn parses_control_error() {
    let f = frame(r#"{"message":"Minimum balance not met for PumpSwap websocket data."}"#, 3000);
    match f {
        Frame::Control { is_error, .. } => assert!(is_error),
        _ => panic!("expected Control"),
    }
}

#[test]
fn control_without_error_words_is_not_an_error() {
    match frame(r#"{"message":"Successfully subscribed to keys."}"#, 1) {
        Frame::Control { message, is_error } => {
            assert_eq!(message, "Successfully subscribed to keys.");
            assert!(!is_error);
        }
        _ => panic!("expected Control"),
    }
}

#[test]
fn error_member_marks_control_as_error() {
    match frame(r#"{"errors":"bad request"}"#, 1) {
        Frame::Control { message, is_error } => {
            assert_eq!(message, "bad request");
            assert!(is_error);
        }
        _ => panic!("expected Control"),
    }
}

#[test]
fn mint_with_name_is_a_launch_whatever_the_type() {
    match frame(r#"{"mint":"M1","name":"N"}"#, 5) {
        Frame::NewToken(t) => {
            assert_eq!(t.mint, "M1");
            assert_eq!(t.name.as_deref(), Some("N"));
            assert_eq!(t.symbol, None);
            assert_eq!(t.market_cap_sol.is_none(), true);
        }
        _ => panic!("expected NewToken"),
    }
}

#[test]
fn trade_side_is_lower_cased_and_mint_falls_back() {
    match frame(r#"{"txType":"SELL","tokenMint":"T9","wallet":"W","tokenAmount":"12.5","newTokenBalance":"x"}"#, 7) {
        Frame::Trade(t) => {
            assert_eq!(t.side, "sell");
            assert_eq!(t.mint, "T9");
            assert_eq!(t.trader, "W");
            assert_eq!(as_f64(&t.token_amount), Some(12.5));
            assert!(t.new_token_balance.is_none());
            assert_eq!(t.ts_ms, 7);
        }
        _ => panic!("expected Trade"),
    }
}

#[test]
fn trade_without_trader_has_empty_trader() {
    match frame(r#"{"txType":"buy","mint":"Q"}"#, 1) {
        Frame::Trade(t) => assert_eq!(t.trader, ""),
        _ => panic!("expected Trade"),
    }
}

#[test]
fn numeric_mint_is_printed_and_empty_string_skipped() {
    match frame(r#"{"txType":"create","mint":"","ca":1234}"#, 1) {
        Frame::NewToken(t) => assert_eq!(t.mint, "1234"),
        _ => panic!("expected NewToken"),
    }
}

#[test]
fn unknown_shapes() {
    assert!(matches!(frame("not json", 1), Frame::Unknown));
    assert!(matches!(frame("[1,2]", 1), Frame::Unknown));
    assert!(matches!(frame(r#"{"foo":1}"#, 1), Frame::Unknown));
    assert!(matches!(frame(r#"{"txType":"buy"}"#, 1), Frame::Unknown));
}

#[test]
fn raw_json_keeps_the_frame_text() {
    let text = r#"{"txType":"create","mint":"R"}"#;
    match frame(text, 1) {
        Frame::NewToken(t) => assert_eq!(t.raw_json, text),
        _ => panic!("expected NewToken"),
    }
}

#[test]
fn any_control_field_makes_a_control_frame() {
    match frame(r#"{"errors":["bad"]}"#, 1) {
        Frame::Control { message, is_error } => {
            assert_eq!(message, r#"["bad"]"#);
            assert!(is_error);
        }
        _ => panic!("expected Control"),
    }
    match frame(r#"{"message":""}"#, 1) {
        Frame::Control { message, is_error } => {
            assert_eq!(message, "");
            assert!(!is_error);
        }
        _ => panic!("expected Control"),
    }
    match frame(r#"{"status":{"a":1,"b":[true,null,-2,"q\"x"]}}"#, 1) {
        Frame::Control { message, is_error } => {
            assert_eq!(message, r#"{"a":1,"b":[true,null,-2,"q\"x"]}"#);
            assert!(!is_error);
        }
        _ => panic!("expected Control"),
    }
    match frame(r#"{"status":7,"message":null}"#, 1) {
        Frame::Control { message, .. } => assert_eq!(message, "null"),
        _ => panic!("expected Control"),
    }
}

#[test]
fn empty_number_text_is_no_mint() {
    let doc = Some(Json::Object(vec![
        Member { key: "txType".to_string(), value: Json::Str("create".to_string()) },
        Member { key: "mint".to_string(), value: Json::Number(JsonNumber::Float(String::new())) },
    ]));
    assert!(matches!(parse_frame(&doc, "{}", 1), Frame::Unknown));
}
