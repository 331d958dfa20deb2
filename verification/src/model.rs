//! PumpPortal websocket frame classification.
//!
//! Frames are JSON objects. A `create` (or anything carrying a mint and a
//! name or symbol) is a new token, a `buy`/`sell` is a trade, and anything
//! else with a `message`, `error`, `errors` or `status` field, whatever its
//! value, is a control frame ("Successfully subscribed", "Minimum balance not
//! met..."). Its text is the first such field's string, its number as it
//! prints, or else the value as JSON text; it is an error when an `error` or
//! `errors` field is present or the text speaks of an error or of a minimum
//! balance.
//!
//! Numeric fields are kept as the frame carries them: a JSON number, or a
//! string that reads as a float. Turning them into floating-point values is
//! left to the caller.

use vstd::prelude::*;
use crate::json::{Json, JsonNumber};
use crate::text::{
    json_quoted, push_char, push_json_string,
    ascii_lower, contains_text, decimal, float_syntax, has_infix, is_float_text, push_decimal,
    push_signed_decimal, signed_decimal, str_eq, to_ascii_lowercase,
};

verus! {

/// A numeric field: a JSON number, or a string that reads as a float.
pub enum NumField {
    Number(JsonNumber),
    Text(String),
}

/// A numeric field as plain values.
pub enum NumFieldView {
    PosInt(u64),
    NegInt(i64),
    Float(Seq<char>),
    Text(Seq<char>),
}

/// The plain view of a JSON number.
pub open spec fn number_view(n: JsonNumber) -> NumFieldView {
    match n {
        JsonNumber::PosInt(u) => NumFieldView::PosInt(u),
        JsonNumber::NegInt(i) => NumFieldView::NegInt(i),
        JsonNumber::Float(t) => NumFieldView::Float(t@),
    }
}

impl View for NumField {
    type V = NumFieldView;

    open spec fn view(&self) -> NumFieldView {
        match self {
            NumField::Number(n) => number_view(*n),
            NumField::Text(t) => NumFieldView::Text(t@),
        }
    }
}

/// A token launch read from a frame.
pub struct NewToken {
    pub mint: String,
    pub name: Option<String>,
    pub symbol: Option<String>,
    pub creator: Option<String>,
    pub created_ms: i64,
    pub pool: Option<String>,
    pub market_cap_sol: Option<NumField>,
    pub v_sol_in_curve: Option<NumField>,
    pub v_tokens_in_curve: Option<NumField>,
    pub initial_buy_sol: Option<NumField>,
    pub uri: Option<String>,
    pub signature: Option<String>,
    pub raw_json: String,
}

/// A trade read from a frame.
pub struct Trade {
    pub mint: String,
    pub side: String,
    pub trader: String,
    pub signature: Option<String>,
    pub sol_amount: Option<NumField>,
    pub token_amount: Option<NumField>,
    pub market_cap_sol: Option<NumField>,
    pub v_sol_in_curve: Option<NumField>,
    pub v_tokens_in_curve: Option<NumField>,
    pub pool: Option<String>,
    pub new_token_balance: Option<NumField>,
    pub ts_ms: i64,
    pub raw_json: String,
}

/// What a frame is.
pub enum Frame {
    NewToken(NewToken),
    Trade(Trade),
    /// A control, status or error message.
    Control { message: String, is_error: bool },
    /// JSON that is none of the above.
    Unknown,
}

/// A token launch as plain values.
pub struct NewTokenView {
    pub mint: Seq<char>,
    pub name: Option<Seq<char>>,
    pub symbol: Option<Seq<char>>,
    pub creator: Option<Seq<char>>,
    pub created_ms: i64,
    pub pool: Option<Seq<char>>,
    pub market_cap_sol: Option<NumFieldView>,
    pub v_sol_in_curve: Option<NumFieldView>,
    pub v_tokens_in_curve: Option<NumFieldView>,
    pub initial_buy_sol: Option<NumFieldView>,
    pub uri: Option<Seq<char>>,
    pub signature: Option<Seq<char>>,
    pub raw_json: Seq<char>,
}

/// A trade as plain values.
pub struct TradeView {
    pub mint: Seq<char>,
    pub side: Seq<char>,
    pub trader: Seq<char>,
    pub signature: Option<Seq<char>>,
    pub sol_amount: Option<NumFieldView>,
    pub token_amount: Option<NumFieldView>,
    pub market_cap_sol: Option<NumFieldView>,
    pub v_sol_in_curve: Option<NumFieldView>,
    pub v_tokens_in_curve: Option<NumFieldView>,
    pub pool: Option<Seq<char>>,
    pub new_token_balance: Option<NumFieldView>,
    pub ts_ms: i64,
    pub raw_json: Seq<char>,
}

/// A frame as plain values.
pub enum FrameView {
    NewToken(NewTokenView),
    Trade(TradeView),
    Control { message: Seq<char>, is_error: bool },
    Unknown,
}

/// The view of an optional string.
pub open spec fn ostr(o: Option<String>) -> Option<Seq<char>> {
    match o {
        Some(s) => Some(s@),
        None => None,
    }
}

/// The view of an optional numeric field.
pub open spec fn onum(o: Option<NumField>) -> Option<NumFieldView> {
    match o {
        Some(n) => Some(n@),
        None => None,
    }
}

impl View for Frame {
    type V = FrameView;

    open spec fn view(&self) -> FrameView {
        match self {
            Frame::NewToken(t) => FrameView::NewToken(NewTokenView {
                mint: t.mint@,
                name: ostr(t.name),
                symbol: ostr(t.symbol),
                creator: ostr(t.creator),
                created_ms: t.created_ms,
                pool: ostr(t.pool),
                market_cap_sol: onum(t.market_cap_sol),
                v_sol_in_curve: onum(t.v_sol_in_curve),
                v_tokens_in_curve: onum(t.v_tokens_in_curve),
                initial_buy_sol: onum(t.initial_buy_sol),
                uri: ostr(t.uri),
                signature: ostr(t.signature),
                raw_json: t.raw_json@,
            }),
            Frame::Trade(t) => FrameView::Trade(TradeView {
                mint: t.mint@,
                side: t.side@,
                trader: t.trader@,
                signature: ostr(t.signature),
                sol_amount: onum(t.sol_amount),
                token_amount: onum(t.token_amount),
                market_cap_sol: onum(t.market_cap_sol),
                v_sol_in_curve: onum(t.v_sol_in_curve),
                v_tokens_in_curve: onum(t.v_tokens_in_curve),
                pool: ostr(t.pool),
                new_token_balance: onum(t.new_token_balance),
                ts_ms: t.ts_ms,
                raw_json: t.raw_json@,
            }),
            Frame::Control { message, is_error } => FrameView::Control { message: message@, is_error: *is_error },
            Frame::Unknown => FrameView::Unknown,
        }
    }
}

/// The text a JSON number prints as.
pub open spec fn number_text(n: JsonNumber) -> Seq<char> {
    match n {
        JsonNumber::PosInt(u) => decimal(u as nat),
        JsonNumber::NegInt(i) => signed_decimal(i as int),
        JsonNumber::Float(t) => t@,
    }
}

/// A field read as text: a non-empty string, or a number as it prints
/// (when that is not empty).
pub open spec fn str_field(v: Option<Json>) -> Option<Seq<char>> {
    match v {
        Some(Json::Str(s)) => if s@.len() > 0 { Some(s@) } else { None },
        Some(Json::Number(n)) => if number_text(n).len() > 0 { Some(number_text(n)) } else { None },
        _ => None,
    }
}

/// A value as compact JSON text, object members in their order.
pub open spec fn json_text(v: Json) -> Seq<char>
    decreases v,
{
    match v {
        Json::Null => "null"@,
        Json::Bool(b) => if b { "true"@ } else { "false"@ },
        Json::Number(n) => number_text(n),
        Json::Str(s) => json_quoted(s@),
        Json::Array(a) => seq!['['] + items_text(a@) + seq![']'],
        Json::Object(ms) => seq!['{'] + members_text(ms@) + seq!['}'],
    }
}

/// Array elements as JSON text, comma separated.
pub open spec fn items_text(items: Seq<Json>) -> Seq<char>
    decreases items,
{
    if items.len() == 0 {
        Seq::empty()
    } else if items.len() == 1 {
        json_text(items[0])
    } else {
        items_text(items.drop_last()) + seq![','] + json_text(items.last())
    }
}

/// Object members as JSON text, comma separated.
pub open spec fn members_text(ms: Seq<crate::json::Member>) -> Seq<char>
    decreases ms,
{
    if ms.len() == 0 {
        Seq::empty()
    } else if ms.len() == 1 {
        json_quoted(ms[0].key@) + seq![':'] + json_text(ms[0].value)
    } else {
        members_text(ms.drop_last()) + seq![','] + json_quoted(ms.last().key@) + seq![':']
            + json_text(ms.last().value)
    }
}

/// The text of a control field: its string, its number as it prints, or
/// else its JSON text.
pub open spec fn control_text(v: Json) -> Seq<char> {
    match v {
        Json::Str(s) => s@,
        _ => json_text(v),
    }
}

/// The value of the first of `keys` present in `obj`.
pub open spec fn first_present_spec(obj: Json, keys: Seq<Seq<char>>) -> Option<Json>
    decreases keys.len(),
{
    if keys.len() == 0 {
        None
    } else {
        match obj.get_spec(keys[0]) {
            Some(v) => Some(v),
            None => first_present_spec(obj, keys.drop_first()),
        }
    }
}

/// A field read as a number: a JSON number, or a string that reads as a float.
pub open spec fn num_field(v: Option<Json>) -> Option<NumFieldView> {
    match v {
        Some(Json::Number(n)) => Some(number_view(n)),
        Some(Json::Str(s)) => if float_syntax(s@) { Some(NumFieldView::Text(s@)) } else { None },
        _ => None,
    }
}

/// The first of `keys` whose field reads as text, read.
pub open spec fn first_str_spec(obj: Json, keys: Seq<Seq<char>>) -> Option<Seq<char>>
    decreases keys.len(),
{
    if keys.len() == 0 {
        None
    } else {
        match str_field(obj.get_spec(keys[0])) {
            Some(s) => Some(s),
            None => first_str_spec(obj, keys.drop_first()),
        }
    }
}

/// The first of `keys` whose field reads as a number, read.
pub open spec fn first_num_spec(obj: Json, keys: Seq<Seq<char>>) -> Option<NumFieldView>
    decreases keys.len(),
{
    if keys.len() == 0 {
        None
    } else {
        match num_field(obj.get_spec(keys[0])) {
            Some(n) => Some(n),
            None => first_num_spec(obj, keys.drop_first()),
        }
    }
}

/// The views of string slices.
pub open spec fn words(ws: Seq<&str>) -> Seq<Seq<char>> {
    ws.map_values(|w: &str| w@)
}

fn number_string(n: &JsonNumber) -> (s: String)
    ensures
        s@ == number_text(*n),
{
    match n {
        JsonNumber::PosInt(u) => {
            let mut s = String::new();
            push_decimal(&mut s, *u);
            s
        },
        JsonNumber::NegInt(i) => {
            let mut s = String::new();
            push_signed_decimal(&mut s, *i);
            s
        },
        JsonNumber::Float(t) => t.clone(),
    }
}

fn number_copy(n: &JsonNumber) -> (r: JsonNumber)
    ensures
        number_view(r) == number_view(*n),
{
    match n {
        JsonNumber::PosInt(u) => JsonNumber::PosInt(*u),
        JsonNumber::NegInt(i) => JsonNumber::NegInt(*i),
        JsonNumber::Float(t) => JsonNumber::Float(t.clone()),
    }
}

/// The first of `keys` whose field is a non-empty string or a number, as
/// text.
pub fn first_str(obj: &Json, keys: &[&str]) -> (r: Option<String>)
    ensures
        ostr(r) == first_str_spec(*obj, words(keys@)),
{
    let ghost ks = words(keys@);
    let mut i: usize = 0;
    assert(ks.skip(0) =~= ks);
    while i < keys.len()
        invariant
            i <= keys@.len(),
            ks == words(keys@),
            first_str_spec(*obj, ks) == first_str_spec(*obj, ks.skip(i as int)),
        decreases keys@.len() - i,
    {
        assert(ks.skip(i as int).drop_first() =~= ks.skip(i + 1));
        assert(ks.skip(i as int)[0] == keys@[i as int]@);
        match obj.get(keys[i]) {
            Some(Json::Str(s)) => {
                if !s.as_str().is_empty() {
                    return Some(s.clone());
                }
            },
            Some(Json::Number(n)) => {
                let t = number_string(n);
                if !t.as_str().is_empty() {
                    return Some(t);
                }
            },
            _ => {},
        }
        i += 1;
    }
    None
}

proof fn lemma_first_str_nonempty(obj: Json, keys: Seq<Seq<char>>)
    ensures
        first_str_spec(obj, keys) matches Some(s) ==> s.len() > 0,
    decreases keys.len(),
{
    if keys.len() > 0 {
        lemma_first_str_nonempty(obj, keys.drop_first());
    }
}

/// Appends `v` as compact JSON text.
pub fn push_json_text(out: &mut String, v: &Json)
    ensures
        final(out)@ == old(out)@ + json_text(*v),
    decreases v,
{
    match v {
        Json::Null => {
            out.append("null");
        },
        Json::Bool(b) => {
            if *b {
                out.append("true");
            } else {
                out.append("false");
            }
        },
        Json::Number(n) => {
            let t = number_string(n);
            out.append(t.as_str());
        },
        Json::Str(t) => {
            push_json_string(out, t.as_str());
        },
        Json::Array(a) => {
            let ghost start = out@;
            push_char(out, '[');
            let mut i: usize = 0;
            assert(a@.take(0) =~= Seq::<Json>::empty());
            while i < a.len()
                invariant
                    i <= a@.len(),
                    *v == Json::Array(*a),
                    out@ == start + seq!['['] + items_text(a@.take(i as int)),
                decreases a@.len() - i,
            {
                if i > 0 {
                    push_char(out, ',');
                }
                proof {
                    assert((*v)->Array_0 == *a);
                    assert(decreases_to!(*v => (*v)->Array_0));
                    assert(decreases_to!(*a => a@));
                    assert(decreases_to!(a@ => a@[i as int]));
                }
                push_json_text(out, &a[i]);
                i += 1;
                assert(a@.take(i as int).drop_last() =~= a@.take(i - 1));
                assert(a@.take(i as int).last() == a@[i - 1]);
                if i == 1 {
                    assert(a@.take(1)[0] == a@[0]);
                }
                assert(out@ =~= start + seq!['['] + items_text(a@.take(i as int)));
            }
            assert(a@.take(i as int) =~= a@);
            push_char(out, ']');
            assert(out@ =~= start + json_text(*v));
        },
        Json::Object(ms) => {
            let ghost start = out@;
            push_char(out, '{');
            let mut i: usize = 0;
            assert(ms@.take(0) =~= Seq::<crate::json::Member>::empty());
            while i < ms.len()
                invariant
                    i <= ms@.len(),
                    *v == Json::Object(*ms),
                    out@ == start + seq!['{'] + members_text(ms@.take(i as int)),
                decreases ms@.len() - i,
            {
                if i > 0 {
                    push_char(out, ',');
                }
                push_json_string(out, ms[i].key.as_str());
                push_char(out, ':');
                proof {
                    assert((*v)->Object_0 == *ms);
                    assert(decreases_to!(*v => (*v)->Object_0));
                    assert(decreases_to!(*ms => ms@));
                    assert(decreases_to!(ms@ => ms@[i as int]));
                    assert(decreases_to!(ms@[i as int] => ms@[i as int].value));
                }
                push_json_text(out, &ms[i].value);
                i += 1;
                assert(ms@.take(i as int).drop_last() =~= ms@.take(i - 1));
                assert(ms@.take(i as int).last() == ms@[i - 1]);
                if i == 1 {
                    assert(ms@.take(1)[0] == ms@[0]);
                }
                assert(out@ =~= start + seq!['{'] + members_text(ms@.take(i as int)));
            }
            assert(ms@.take(i as int) =~= ms@);
            push_char(out, '}');
            assert(out@ =~= start + json_text(*v));
        },
    }
}

/// The value of the first of `keys` present in `obj`.
pub fn first_present<'a>(obj: &'a Json, keys: &[&str]) -> (r: Option<&'a Json>)
    ensures
        crate::json::deref_opt(r) == first_present_spec(*obj, words(keys@)),
{
    let ghost ks = words(keys@);
    let mut i: usize = 0;
    assert(ks.skip(0) =~= ks);
    while i < keys.len()
        invariant
            i <= keys@.len(),
            ks == words(keys@),
            first_present_spec(*obj, ks) == first_present_spec(*obj, ks.skip(i as int)),
        decreases keys@.len() - i,
    {
        assert(ks.skip(i as int).drop_first() =~= ks.skip(i + 1));
        assert(ks.skip(i as int)[0] == keys@[i as int]@);
        match obj.get(keys[i]) {
            Some(v) => {
                return Some(v);
            },
            None => {},
        }
        i += 1;
    }
    None
}

/// The text of a control field.
pub fn control_string(v: &Json) -> (s: String)
    ensures
        s@ == control_text(*v),
{
    match v {
        Json::Str(t) => t.clone(),
        _ => {
            let mut s = String::new();
            push_json_text(&mut s, v);
            s
        },
    }
}

/// The first of `keys` whose field is a number or a string that reads as a
/// float.
pub fn first_num(obj: &Json, keys: &[&str]) -> (r: Option<NumField>)
    ensures
        onum(r) == first_num_spec(*obj, words(keys@)),
{
    let ghost ks = words(keys@);
    let mut i: usize = 0;
    assert(ks.skip(0) =~= ks);
    while i < keys.len()
        invariant
            i <= keys@.len(),
            ks == words(keys@),
            first_num_spec(*obj, ks) == first_num_spec(*obj, ks.skip(i as int)),
        decreases keys@.len() - i,
    {
        assert(ks.skip(i as int).drop_first() =~= ks.skip(i + 1));
        assert(ks.skip(i as int)[0] == keys@[i as int]@);
        match obj.get(keys[i]) {
            Some(Json::Number(n)) => {
                return Some(NumField::Number(number_copy(n)));
            },
            Some(Json::Str(s)) => {
                if is_float_text(s.as_str()) {
                    return Some(NumField::Text(s.clone()));
                }
            },
            _ => {},
        }
        i += 1;
    }
    None
}

/// Lower-cased ASCII.
pub open spec fn lowered(s: Seq<char>) -> Seq<char> {
    s.map_values(|c: char| ascii_lower(c))
}

/// Whether an object has member `k`.
pub open spec fn has_key(obj: Json, k: Seq<char>) -> bool {
    obj.get_spec(k) is Some
}

/// The lower-cased `txType`, empty when absent or not a string.
pub open spec fn tx_type(obj: Json) -> Seq<char> {
    match obj.get_spec("txType"@) {
        Some(Json::Str(s)) => lowered(s@),
        _ => Seq::empty(),
    }
}

/// Where a mint may be found.
pub open spec fn mint_keys() -> Seq<Seq<char>> {
    seq!["mint"@, "tokenMint"@, "ca"@, "address"@]
}

/// Where a signature may be found.
pub open spec fn sig_keys() -> Seq<Seq<char>> {
    seq!["signature"@, "txSignature"@]
}

/// Where a market cap may be found.
pub open spec fn mcap_keys() -> Seq<Seq<char>> {
    seq!["marketCapSol"@, "market_cap_sol"@]
}

/// Where the virtual SOL reserves may be found.
pub open spec fn vsol_keys() -> Seq<Seq<char>> {
    seq!["vSolInBondingCurve"@, "virtualSolReserves"@]
}

/// Where the virtual token reserves may be found.
pub open spec fn vtok_keys() -> Seq<Seq<char>> {
    seq!["vTokensInBondingCurve"@, "virtualTokenReserves"@]
}

/// Where a SOL amount may be found.
pub open spec fn sol_keys() -> Seq<Seq<char>> {
    seq!["solAmount"@, "sol_amount"@]
}

/// Where a control message may be found.
pub open spec fn message_keys() -> Seq<Seq<char>> {
    seq!["message"@, "error"@, "errors"@, "status"@]
}

/// The launch a creation frame describes.
pub open spec fn new_token_of(obj: Json, mint: Seq<char>, text: Seq<char>, now_ms: i64) -> NewTokenView {
    NewTokenView {
        mint,
        name: first_str_spec(obj, seq!["name"@, "tokenName"@]),
        symbol: first_str_spec(obj, seq!["symbol"@, "ticker"@]),
        creator: first_str_spec(obj, seq!["traderPublicKey"@, "creator"@]),
        created_ms: now_ms,
        pool: first_str_spec(obj, seq!["pool"@]),
        market_cap_sol: first_num_spec(obj, mcap_keys()),
        v_sol_in_curve: first_num_spec(obj, vsol_keys()),
        v_tokens_in_curve: first_num_spec(obj, vtok_keys()),
        initial_buy_sol: first_num_spec(obj, sol_keys()),
        uri: first_str_spec(obj, seq!["uri"@, "metadataUri"@]),
        signature: first_str_spec(obj, sig_keys()),
        raw_json: text,
    }
}

/// The trade a `buy`/`sell` frame describes.
pub open spec fn trade_of(obj: Json, mint: Seq<char>, side: Seq<char>, text: Seq<char>, now_ms: i64) -> TradeView {
    TradeView {
        mint,
        side,
        trader: match first_str_spec(obj, seq!["traderPublicKey"@, "wallet"@]) {
            Some(t) => t,
            None => Seq::empty(),
        },
        signature: first_str_spec(obj, sig_keys()),
        sol_amount: first_num_spec(obj, sol_keys()),
        token_amount: first_num_spec(obj, seq!["tokenAmount"@, "token_amount"@]),
        market_cap_sol: first_num_spec(obj, mcap_keys()),
        v_sol_in_curve: first_num_spec(obj, vsol_keys()),
        v_tokens_in_curve: first_num_spec(obj, vtok_keys()),
        pool: first_str_spec(obj, seq!["pool"@]),
        new_token_balance: first_num_spec(obj, seq!["newTokenBalance"@]),
        ts_ms: now_ms,
        raw_json: text,
    }
}

/// The classification of a JSON object frame.
pub open spec fn object_frame(obj: Json, text: Seq<char>, now_ms: i64) -> FrameView {
    let tx = tx_type(obj);
    let mint = first_str_spec(obj, mint_keys());
    let creates = tx == "create"@ || (has_key(obj, "mint"@) && (has_key(obj, "name"@) || has_key(obj, "symbol"@)));
    if creates && mint is Some {
        FrameView::NewToken(new_token_of(obj, mint.unwrap(), text, now_ms))
    } else if (tx == "buy"@ || tx == "sell"@) && mint is Some {
        FrameView::Trade(trade_of(obj, mint.unwrap(), tx, text, now_ms))
    } else {
        match first_present_spec(obj, message_keys()) {
            Some(v) => {
                let m = control_text(v);
                FrameView::Control {
                    message: m,
                    is_error: has_key(obj, "error"@) || has_key(obj, "errors"@)
                        || has_infix(lowered(m), "minimum balance"@) || has_infix(lowered(m), "error"@),
                }
            },
            None => FrameView::Unknown,
        }
    }
}

/// The classification of a frame's text `text`, parsed as `doc` (`None` when
/// it is not JSON); frames other than objects are unknown.
pub open spec fn frame_spec(doc: Option<Json>, text: Seq<char>, now_ms: i64) -> FrameView {
    match doc {
        Some(j) => if j is Object { object_frame(j, text, now_ms) } else { FrameView::Unknown },
        None => FrameView::Unknown,
    }
}

proof fn lemma_first_num_two(obj: Json, a: Seq<char>, b: Seq<char>)
    ensures
        first_num_spec(obj, seq![a, b]) == (match num_field(obj.get_spec(a)) {
            Some(x) => Some(x),
            None => num_field(obj.get_spec(b)),
        }),
{
    let ab = seq![a, b];
    let bb = seq![b];
    assert(ab[0] == a);
    assert(bb[0] == b);
    assert(ab.drop_first() =~= bb);
    assert(bb.drop_first() =~= Seq::<Seq<char>>::empty());
    assert(first_num_spec(obj, Seq::<Seq<char>>::empty()) is None);
    assert(first_num_spec(obj, bb) == (match num_field(obj.get_spec(b)) {
        Some(x) => Some(x),
        None => first_num_spec(obj, bb.drop_first()),
    }));
}

proof fn lemma_first_str_two(obj: Json, a: Seq<char>, b: Seq<char>)
    ensures
        first_str_spec(obj, seq![a, b]) == (match str_field(obj.get_spec(a)) {
            Some(x) => Some(x),
            None => str_field(obj.get_spec(b)),
        }),
{
    let ab = seq![a, b];
    let bb = seq![b];
    assert(ab[0] == a);
    assert(bb[0] == b);
    assert(ab.drop_first() =~= bb);
    assert(bb.drop_first() =~= Seq::<Seq<char>>::empty());
    assert(first_str_spec(obj, Seq::<Seq<char>>::empty()) is None);
    assert(first_str_spec(obj, bb) == (match str_field(obj.get_spec(b)) {
        Some(x) => Some(x),
        None => first_str_spec(obj, bb.drop_first()),
    }));
}

/// Where a trade's fields come from. Its side is the lower-cased `txType`,
/// `buy` or `sell`. Its SOL amount is a `solAmount` number when there is one,
/// and absent when neither `solAmount` nor `sol_amount` is present; the
/// token amount likewise from `tokenAmount`/`token_amount`, the market cap
/// from `marketCapSol`/`market_cap_sol`. A non-empty `traderPublicKey`
/// string is the trader and a non-empty `mint` string the mint. A launch
/// reads its market cap and initial buy the same way, and its name and symbol
/// from non-empty `name` and `symbol` strings.
pub proof fn law_frame_fields(obj: Json, text: Seq<char>, now_ms: i64)
    ensures
        object_frame(obj, text, now_ms) matches FrameView::Trade(t) ==> {
            &&& (obj.get_spec("txType"@) matches Some(Json::Str(s)) && t.side == lowered(s@))
            &&& (t.side == "buy"@ || t.side == "sell"@)
            &&& (obj.get_spec("solAmount"@) matches Some(Json::Number(n)) ==> t.sol_amount == Some(number_view(n)))
            &&& (obj.get_spec("solAmount"@) is None && obj.get_spec("sol_amount"@) is None ==> t.sol_amount is None)
            &&& (obj.get_spec("tokenAmount"@) matches Some(Json::Number(n)) ==> t.token_amount == Some(number_view(n)))
            &&& (obj.get_spec("tokenAmount"@) is None && obj.get_spec("token_amount"@) is None ==> t.token_amount is None)
            &&& (obj.get_spec("marketCapSol"@) matches Some(Json::Number(n)) ==> t.market_cap_sol == Some(number_view(n)))
            &&& (obj.get_spec("marketCapSol"@) is None && obj.get_spec("market_cap_sol"@) is None ==> t.market_cap_sol is None)
            &&& (obj.get_spec("traderPublicKey"@) matches Some(Json::Str(s)) ==> (s@.len() > 0 ==> t.trader == s@))
            &&& (obj.get_spec("mint"@) matches Some(Json::Str(s)) ==> (s@.len() > 0 ==> t.mint == s@))
            &&& t.ts_ms == now_ms
            &&& t.raw_json == text
        },
        object_frame(obj, text, now_ms) matches FrameView::NewToken(t) ==> {
            &&& (obj.get_spec("marketCapSol"@) matches Some(Json::Number(n)) ==> t.market_cap_sol == Some(number_view(n)))
            &&& (obj.get_spec("marketCapSol"@) is None && obj.get_spec("market_cap_sol"@) is None ==> t.market_cap_sol is None)
            &&& (obj.get_spec("solAmount"@) matches Some(Json::Number(n)) ==> t.initial_buy_sol == Some(number_view(n)))
            &&& (obj.get_spec("solAmount"@) is None && obj.get_spec("sol_amount"@) is None ==> t.initial_buy_sol is None)
            &&& (obj.get_spec("name"@) matches Some(Json::Str(s)) ==> (s@.len() > 0 ==> t.name == Some(s@)))
            &&& (obj.get_spec("symbol"@) matches Some(Json::Str(s)) ==> (s@.len() > 0 ==> t.symbol == Some(s@)))
            &&& (obj.get_spec("mint"@) matches Some(Json::Str(s)) ==> (s@.len() > 0 ==> t.mint == s@))
            &&& t.created_ms == now_ms
            &&& t.raw_json == text
        },
{
    lemma_first_num_two(obj, "solAmount"@, "sol_amount"@);
    lemma_first_num_two(obj, "tokenAmount"@, "token_amount"@);
    lemma_first_num_two(obj, "marketCapSol"@, "market_cap_sol"@);
    lemma_first_str_two(obj, "traderPublicKey"@, "wallet"@);
    lemma_first_str_two(obj, "name"@, "tokenName"@);
    lemma_first_str_two(obj, "symbol"@, "ticker"@);
    reveal_strlit("buy");
    reveal_strlit("sell");
    assert(mint_keys()[0] == "mint"@);
    assert(first_str_spec(obj, mint_keys()) == (match str_field(obj.get_spec("mint"@)) {
        Some(x) => Some(x),
        None => first_str_spec(obj, mint_keys().drop_first()),
    }));
    if object_frame(obj, text, now_ms) is Trade {
        let t = object_frame(obj, text, now_ms)->Trade_0;
        let tx = tx_type(obj);
        assert(t.side == tx);
        assert(tx == "buy"@ || tx == "sell"@);
        assert(obj.get_spec("txType"@) matches Some(Json::Str(s)) && t.side == lowered(s@));
        assert(obj.get_spec("solAmount"@) matches Some(Json::Number(n)) ==> t.sol_amount == Some(number_view(n)));
        assert(obj.get_spec("solAmount"@) is None && obj.get_spec("sol_amount"@) is None ==> t.sol_amount is None);
        assert(obj.get_spec("traderPublicKey"@) matches Some(Json::Str(s)) ==> (s@.len() > 0 ==> t.trader == s@));
        assert(obj.get_spec("mint"@) matches Some(Json::Str(s)) ==> (s@.len() > 0 ==> t.mint == s@));
    }
}

fn present(obj: &Json, key: &str) -> (r: bool)
    ensures
        r == has_key(*obj, key@),
{
    obj.get(key).is_some()
}

fn new_token_frame(obj: &Json, mint: String, text: &str, now_ms: i64) -> (f: Frame)
    ensures
        f@ == FrameView::NewToken(new_token_of(*obj, mint@, text@, now_ms)),
{
    let k_name: [&str; 2] = ["name", "tokenName"];
    let k_symbol: [&str; 2] = ["symbol", "ticker"];
    let k_creator: [&str; 2] = ["traderPublicKey", "creator"];
    let k_pool: [&str; 1] = ["pool"];
    let k_mcap: [&str; 2] = ["marketCapSol", "market_cap_sol"];
    let k_vsol: [&str; 2] = ["vSolInBondingCurve", "virtualSolReserves"];
    let k_vtok: [&str; 2] = ["vTokensInBondingCurve", "virtualTokenReserves"];
    let k_sol: [&str; 2] = ["solAmount", "sol_amount"];
    let k_uri: [&str; 2] = ["uri", "metadataUri"];
    let k_sig: [&str; 2] = ["signature", "txSignature"];
    assert(words(k_name@) =~= seq!["name"@, "tokenName"@]);
    assert(words(k_symbol@) =~= seq!["symbol"@, "ticker"@]);
    assert(words(k_creator@) =~= seq!["traderPublicKey"@, "creator"@]);
    assert(words(k_pool@) =~= seq!["pool"@]);
    assert(words(k_mcap@) =~= mcap_keys());
    assert(words(k_vsol@) =~= vsol_keys());
    assert(words(k_vtok@) =~= vtok_keys());
    assert(words(k_sol@) =~= sol_keys());
    assert(words(k_uri@) =~= seq!["uri"@, "metadataUri"@]);
    assert(words(k_sig@) =~= sig_keys());
    Frame::NewToken(NewToken {
        mint,
        name: first_str(obj, &k_name),
        symbol: first_str(obj, &k_symbol),
        creator: first_str(obj, &k_creator),
        created_ms: now_ms,
        pool: first_str(obj, &k_pool),
        market_cap_sol: first_num(obj, &k_mcap),
        v_sol_in_curve: first_num(obj, &k_vsol),
        v_tokens_in_curve: first_num(obj, &k_vtok),
        initial_buy_sol: first_num(obj, &k_sol),
        uri: first_str(obj, &k_uri),
        signature: first_str(obj, &k_sig),
        raw_json: String::from_str(text),
    })
}

fn trade_frame(obj: &Json, mint: String, side: String, text: &str, now_ms: i64) -> (f: Frame)
    ensures
        f@ == FrameView::Trade(trade_of(*obj, mint@, side@, text@, now_ms)),
{
    let k_trader: [&str; 2] = ["traderPublicKey", "wallet"];
    let k_sig: [&str; 2] = ["signature", "txSignature"];
    let k_sol: [&str; 2] = ["solAmount", "sol_amount"];
    let k_tok: [&str; 2] = ["tokenAmount", "token_amount"];
    let k_mcap: [&str; 2] = ["marketCapSol", "market_cap_sol"];
    let k_vsol: [&str; 2] = ["vSolInBondingCurve", "virtualSolReserves"];
    let k_vtok: [&str; 2] = ["vTokensInBondingCurve", "virtualTokenReserves"];
    let k_pool: [&str; 1] = ["pool"];
    let k_bal: [&str; 1] = ["newTokenBalance"];
    assert(words(k_trader@) =~= seq!["traderPublicKey"@, "wallet"@]);
    assert(words(k_sig@) =~= sig_keys());
    assert(words(k_sol@) =~= sol_keys());
    assert(words(k_tok@) =~= seq!["tokenAmount"@, "token_amount"@]);
    assert(words(k_mcap@) =~= mcap_keys());
    assert(words(k_vsol@) =~= vsol_keys());
    assert(words(k_vtok@) =~= vtok_keys());
    assert(words(k_pool@) =~= seq!["pool"@]);
    assert(words(k_bal@) =~= seq!["newTokenBalance"@]);
    let trader = match first_str(obj, &k_trader) {
        Some(t) => t,
        None => String::new(),
    };
    Frame::Trade(Trade {
        mint,
        side,
        trader,
        signature: first_str(obj, &k_sig),
        sol_amount: first_num(obj, &k_sol),
        token_amount: first_num(obj, &k_tok),
        market_cap_sol: first_num(obj, &k_mcap),
        v_sol_in_curve: first_num(obj, &k_vsol),
        v_tokens_in_curve: first_num(obj, &k_vtok),
        pool: first_str(obj, &k_pool),
        new_token_balance: first_num(obj, &k_bal),
        ts_ms: now_ms,
        raw_json: String::from_str(text),
    })
}

/// Classifies a PumpPortal frame: `doc` is its text `text` parsed as JSON
/// (`None` when it is not JSON), `now_ms` the receive time that stamps
/// launches and trades.
pub fn parse_frame(doc: &Option<Json>, text: &str, now_ms: i64) -> (f: Frame)
    ensures
        f@ == frame_spec(*doc, text@, now_ms),
        f@ matches FrameView::NewToken(t) ==> t.mint.len() > 0 && t.created_ms == now_ms && t.raw_json == text@,
        f@ matches FrameView::Trade(t) ==> t.mint.len() > 0 && t.ts_ms == now_ms && t.raw_json == text@
            && (t.side == "buy"@ || t.side == "sell"@),
{
    proof {
        if doc.is_some() {
            lemma_first_str_nonempty(doc.unwrap(), mint_keys());
        }
    }
    let obj = match doc {
        Some(j) => match j {
            Json::Object(_) => j,
            _ => return Frame::Unknown,
        },
        None => return Frame::Unknown,
    };
    let tx = match obj.get("txType") {
        Some(Json::Str(s)) => to_ascii_lowercase(s.as_str()),
        _ => String::new(),
    };
    assert(tx@ == tx_type(*obj));
    let k_mint: [&str; 4] = ["mint", "tokenMint", "ca", "address"];
    assert(words(k_mint@) =~= mint_keys());
    let creates = str_eq(tx.as_str(), "create")
        || (present(obj, "mint") && (present(obj, "name") || present(obj, "symbol")));
    if creates {
        if let Some(mint) = first_str(obj, &k_mint) {
            return new_token_frame(obj, mint, text, now_ms);
        }
    }
    if str_eq(tx.as_str(), "buy") || str_eq(tx.as_str(), "sell") {
        if let Some(mint) = first_str(obj, &k_mint) {
            return trade_frame(obj, mint, tx, text, now_ms);
        }
    }
    let k_msg: [&str; 4] = ["message", "error", "errors", "status"];
    assert(words(k_msg@) =~= message_keys());
    match first_present(obj, &k_msg) {
        Some(field) => {
            let message = control_string(field);
            let lower = to_ascii_lowercase(message.as_str());
            let is_error = present(obj, "error") || present(obj, "errors")
                || contains_text(lower.as_str(), "minimum balance") || contains_text(lower.as_str(), "error");
            Frame::Control { message, is_error }
        },
        None => Frame::Unknown,
    }
}

} // verus!
