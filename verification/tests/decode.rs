use meme_expert::helius::{read_notification, subscribe_request, Notification};
use meme_expert::json::{Json, JsonNumber, Member};
use meme_expert::pumpfun_decode::{
    decode_event, decode_result, PumpEvent, PumpFrame, LAUNCH_VSOL_LAMPORTS, LAUNCH_VTOK_BASE,
    PUMP_PROGRAM_ID,
};

const EVENT_CPI_DISC: [u8; 8] = [0xe4, 0x45, 0xa5, 0x2e, 0x51, 0xcb, 0x9a, 0x1d];
const CREATE_EVENT_DISC: [u8; 8] = [27, 114, 169, 77, 222, 235, 99, 118];
const TRADE_EVENT_DISC: [u8; 8] = [189, 219, 127, 211, 78, 230, 97, 238];

fn s(x: &str) -> Json {
    Json::Str(x.to_string())
}

fn obj(members: Vec<(&str, Json)>) -> Json {
    Json::Object(members.into_iter().map(|(k, v)| Member { key: k.to_string(), value: v }).collect())
}

fn event_bytes(disc: [u8; 8], body: &[u8]) -> Vec<u8> {
    let mut bytes = Vec::new();
    bytes.extend_from_slice(&EVENT_CPI_DISC);
    bytes.extend_from_slice(&disc);
    bytes.extend_from_slice(body);
    bytes
}

fn b58_event(disc: [u8; 8], body: &[u8]) -> String {
    bs58::encode(event_bytes(disc, body)).into_string()
}

fn trade_wire(mint: u8, sol: u64, tok: u64, is_buy: bool, user: u8, ts: i64, vsol: u64, vtok: u64) -> Vec<u8> {
    borsh::to_vec(&([mint; 32], sol, tok, is_buy, [user; 32], ts, vsol, vtok, 12345u64)).unwrap()
}

fn create_wire(name: &str, symbol: &str, uri: &str, mint: u8, creator: u8) -> Vec<u8> {
    borsh::to_vec(&(
        name.to_string(),
        symbol.to_string(),
        uri.to_string(),
        [mint; 32],
        [3u8; 32],
        [creator; 32],
    ))
    .unwrap()
}

fn notification_result(sig: &str, slot: u64, datas: Vec<String>) -> Json {
    let ixs = datas
        .into_iter()
        .map(|d| obj(vec![("programId", s(PUMP_PROGRAM_ID)), ("data", s(&d)), ("accounts", Json::Array(vec![]))]))
        .collect();
    obj(vec![
        ("signature", s(sig)),
        ("slot", Json::Number(JsonNumber::PosInt(slot))),
        (
            "transaction",
            obj(vec![(
                "meta",
                obj(vec![(
                    "innerInstructions",
                    Json::Array(vec![obj(vec![
                        ("index", Json::Number(JsonNumber::PosInt(0))),
                        ("instructions", Json::Array(ixs)),
                    ])]),
                )]),
            )]),
        ),
    ])
}

fn mcap(vsol: u64, vtok: u64) -> f64 {
    1_000_000_000_000_000.0 * vsol as f64 / (vtok as f64 * 1_000_000_000.0)
}

#[test]
fn decodes_trade_event_with_trailing_field() {
    let data = b58_event(
        TRADE_EVENT_DISC,
        &trade_wire(7, 1_000_000_000, 2_000_000, true, 9, 1700, LAUNCH_VSOL_LAMPORTS, LAUNCH_VTOK_BASE),
    );
    let result = notification_result("sig123", 42, vec![data]);
    let frames = decode_result(&result, 999);
    assert_eq!(frames.len(), 1);
    match &frames[0] {
        PumpFrame::Trade { is_buy, mint, trader, sol_lamports, token_base, ts_ms, vsol_lamports, vtok_base, .. } => {
            assert!(*is_buy);
            assert_eq!(*mint, bs58::encode([7u8; 32]).into_string());
            assert_eq!(*trader, bs58::encode([9u8; 32]).into_string());
            assert_eq!(*sol_lamports as f64 / 1e9, 1.0);
            assert_eq!(*token_base as f64 / 1e6, 2.0);
            assert_eq!(*ts_ms, 1_700_000);
            assert!((mcap(*vsol_lamports, *vtok_base) - 27.96).abs() < 0.1);
        }
        _ => panic!("expected Trade"),
    }
}

#[test]
fn ignores_non_pump_and_garbage() {
    let result = obj(vec![(
        "transaction",
        obj(vec![(
            "meta",
            obj(vec![(
                "innerInstructions",
                Json::Array(vec![obj(vec![(
                    "instructions",
                    Json::Array(vec![obj(vec![
                        ("programId", s("SomeOtherProgram1111111111111111111111111")),
                        ("data", s("abc")),
                    ])]),
                )])]),
            )]),
        )]),
    )]);
    assert!(decode_result(&result, 1).is_empty());
}

#[test]
fn create_takes_reserves_and_time_from_the_dev_buy() {
    let create = b58_event(CREATE_EVENT_DISC, &create_wire("Doge", "DOGE", "ipfs://x", 5, 6));
    let buy = b58_event(TRADE_EVENT_DISC, &trade_wire(5, 500_000_000, 10_000_000, true, 6, 1_000, 31_000_000_000, 1_000_000_000_000_000));
    let frames = decode_result(&notification_result("S1", 7, vec![create, buy]), 55);
    assert_eq!(frames.len(), 2);
    match &frames[0] {
        PumpFrame::NewToken { mint, name, symbol, creator, created_ms, vsol_lamports, vtok_base, initial_buy_lamports, uri, signature, raw_json } => {
            assert_eq!(*mint, bs58::encode([5u8; 32]).into_string());
            assert_eq!(name, "Doge");
            assert_eq!(symbol, "DOGE");
            assert_eq!(*creator, bs58::encode([6u8; 32]).into_string());
            assert_eq!(*created_ms, 1_000_000);
            assert_eq!(*vsol_lamports, 31_000_000_000);
            assert_eq!(*vtok_base, 1_000_000_000_000_000);
            assert_eq!(*initial_buy_lamports, 500_000_000);
            assert_eq!(uri, "ipfs://x");
            assert_eq!(signature, "S1");
            assert_eq!(raw_json, r#"{"sig":"S1","slot":7,"src":"helius"}"#);
        }
        _ => panic!("expected NewToken"),
    }
    assert!(matches!(frames[1], PumpFrame::Trade { .. }));
}

#[test]
fn create_without_buy_uses_launch_reserves_and_clock() {
    let create = b58_event(CREATE_EVENT_DISC, &create_wire("A", "B", "C", 1, 2));
    let frames = decode_result(&notification_result("S2", 1, vec![create]), 4242);
    match &frames[0] {
        PumpFrame::NewToken { created_ms, vsol_lamports, vtok_base, initial_buy_lamports, .. } => {
            assert_eq!(*created_ms, 4242);
            assert_eq!(*vsol_lamports, LAUNCH_VSOL_LAMPORTS);
            assert_eq!(*vtok_base, LAUNCH_VTOK_BASE);
            assert_eq!(*initial_buy_lamports, 0);
            assert!((mcap(*vsol_lamports, *vtok_base) - 27.96).abs() < 0.1);
        }
        _ => panic!("expected NewToken"),
    }
}

#[test]
fn decode_event_reads_trade_prefix_exactly() {
    let bytes = event_bytes(TRADE_EVENT_DISC, &trade_wire(1, 10, 20, false, 2, -5, 30, 40));
    match decode_event(&bytes) {
        Some(PumpEvent::Trade { is_buy, sol_lamports, token_base, vsol, vtok, ts, .. }) => {
            assert!(!is_buy);
            assert_eq!((sol_lamports, token_base, vsol, vtok, ts), (10, 20, 30, 40, -5));
        }
        _ => panic!("expected a trade event"),
    }
}

#[test]
fn decode_event_rejects_short_and_unknown() {
    assert!(decode_event(&[1, 2, 3]).is_none());
    assert!(decode_event(&event_bytes([0; 8], &[0; 200])).is_none());
    let mut short = event_bytes(TRADE_EVENT_DISC, &trade_wire(1, 1, 1, true, 1, 1, 1, 1));
    short.truncate(16 + 32 + 8);
    assert!(decode_event(&short).is_none());
}

#[test]
fn helius_subscribe_request_text() {
    assert_eq!(
        subscribe_request("PROG"),
        r#"{"id":1,"jsonrpc":"2.0","method":"transactionSubscribe","params":[{"accountInclude":["PROG"],"failed":false,"vote":false},{"commitment":"confirmed","encoding":"jsonParsed","maxSupportedTransactionVersion":0,"transactionDetails":"full"}]}"#
    );
}

#[test]
fn helius_notifications() {
    let err = obj(vec![("error", s("boom"))]);
    assert!(matches!(read_notification(&err, 1), Notification::Error));
    let ack = obj(vec![("jsonrpc", s("2.0")), ("result", Json::Number(JsonNumber::PosInt(5))), ("id", Json::Number(JsonNumber::PosInt(1)))]);
    assert!(matches!(read_notification(&ack, 1), Notification::Ignored));
    let data = b58_event(TRADE_EVENT_DISC, &trade_wire(7, 1, 2, true, 9, 3, 4, 5));
    let note = obj(vec![
        ("method", s("transactionNotification")),
        ("params", obj(vec![("result", notification_result("Z", 9, vec![data]))])),
    ]);
    match read_notification(&note, 1) {
        Notification::Frames(fs) => assert_eq!(fs.len(), 1),
        _ => panic!("expected frames"),
    }
    let no_result = obj(vec![("method", s("transactionNotification"))]);
    assert!(matches!(read_notification(&no_result, 1), Notification::Ignored));
}
