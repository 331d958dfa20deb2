//! Decoding of pump.fun program events out of a Helius `transactionSubscribe`
//! (jsonParsed) notification.
//!
//! pump.fun emits its create and trade events through self-CPI inner
//! instructions whose data is `[event-CPI sentinel (8)] ++ [event discriminator
//! (8)] ++ borsh(event)`. Only the stable prefix of each event is read, so
//! fields that newer program versions append after it are ignored.

use vstd::prelude::*;
use vstd::bytes::{
    lemma_auto_spec_u32_to_from_le_bytes, lemma_auto_spec_u64_to_from_le_bytes, spec_u32_from_le_bytes,
    spec_u32_to_le_bytes, spec_u64_from_le_bytes, spec_u64_to_le_bytes, u32_from_le_bytes,
    u64_from_le_bytes,
};
use vstd::utf8::{decode_utf8, encode_utf8, encode_utf8_decode_utf8, encode_utf8_valid_utf8, valid_utf8};
use crate::json::{deref_opt, Json};
use crate::text::{json_quoted, push_json_string, push_signed_decimal, signed_decimal, str_eq};

verus! {

/// Base58 text of `bytes` (Bitcoin alphabet), as the `bs58` crate encodes it.
pub uninterp spec fn bs58_text(bytes: Seq<u8>) -> Seq<char>;

/// Bytes that a base58 `text` stands for, `None` where the `bs58` crate
/// rejects the text.
pub uninterp spec fn bs58_bytes(text: Seq<char>) -> Option<Seq<u8>>;

/// `bs58::encode(bytes).into_string()`: the base58 text of the bytes. Its value
/// is only named here, by `bs58_text`; nothing more is claimed of it.
#[verifier::external_body]
fn b58(bytes: &[u8]) -> (s: String)
    ensures
        s@ == bs58_text(bytes@),
{
    bs58::encode(bytes).into_string()
}

/// `bs58::decode(text).into_vec()`: the bytes a base58 text stands for, or
/// `None` when the crate reports an error. The result is only named, by
/// `bs58_bytes`.
#[verifier::external_body]
fn b58_decode(text: &str) -> (r: Option<Vec<u8>>)
    ensures
        match r {
            Some(b) => bs58_bytes(text@) == Some(b@),
            None => bs58_bytes(text@) is None,
        },
{
    bs58::decode(text).into_vec().ok()
}

/// `String::from_utf8`: succeeds exactly on valid UTF-8, and then holds the
/// characters those bytes encode.
#[verifier::external_body]
fn utf8_string(bytes: &[u8]) -> (r: Option<String>)
    ensures
        match r {
            Some(s) => valid_utf8(bytes@) && s@ == decode_utf8(bytes@),
            None => !valid_utf8(bytes@),
        },
{
    String::from_utf8(bytes.to_vec()).ok()
}

/// The anchor event-CPI sentinel that opens every `emit_cpi!` payload.
pub open spec fn event_cpi_disc() -> Seq<u8> {
    seq![0xe4u8, 0x45u8, 0xa5u8, 0x2eu8, 0x51u8, 0xcbu8, 0x9au8, 0x1du8]
}

/// Discriminator of pump.fun's create event.
pub open spec fn create_event_disc() -> Seq<u8> {
    seq![27u8, 114u8, 169u8, 77u8, 222u8, 235u8, 99u8, 118u8]
}

/// Discriminator of pump.fun's trade event.
pub open spec fn trade_event_disc() -> Seq<u8> {
    seq![189u8, 219u8, 127u8, 211u8, 78u8, 230u8, 97u8, 238u8]
}

/// A borsh `u32` (little endian) at the front of `s`, and what follows it.
pub open spec fn read_u32(s: Seq<u8>) -> Option<(u32, Seq<u8>)> {
    if s.len() >= 4 { Some((spec_u32_from_le_bytes(s.take(4)), s.skip(4))) } else { None }
}

/// A borsh `u64` (little endian) at the front of `s`, and what follows it.
pub open spec fn read_u64(s: Seq<u8>) -> Option<(u64, Seq<u8>)> {
    if s.len() >= 8 { Some((spec_u64_from_le_bytes(s.take(8)), s.skip(8))) } else { None }
}

/// A borsh `i64`: the same eight bytes read as two's complement.
pub open spec fn read_i64(s: Seq<u8>) -> Option<(i64, Seq<u8>)> {
    match read_u64(s) {
        Some((v, rest)) => Some((v as i64, rest)),
        None => None,
    }
}

/// A borsh `bool`: one byte, 0 or 1; any other byte is an error.
pub open spec fn read_bool(s: Seq<u8>) -> Option<(bool, Seq<u8>)> {
    if s.len() >= 1 && s[0] <= 1 { Some((s[0] == 1, s.skip(1))) } else { None }
}

/// A 32-byte public key.
pub open spec fn read_key(s: Seq<u8>) -> Option<(Seq<u8>, Seq<u8>)> {
    if s.len() >= 32 { Some((s.take(32), s.skip(32))) } else { None }
}

/// A borsh `String`: a `u32` byte length, then that many bytes of valid UTF-8.
pub open spec fn read_string(s: Seq<u8>) -> Option<(Seq<char>, Seq<u8>)> {
    match read_u32(s) {
        Some((n, rest)) => if rest.len() >= n && valid_utf8(rest.take(n as int)) {
            Some((decode_utf8(rest.take(n as int)), rest.skip(n as int)))
        } else {
            None
        },
        None => None,
    }
}

/// A decoded pump.fun event, with keys as base58 text.
pub enum EventView {
    Create { mint: Seq<char>, name: Seq<char>, symbol: Seq<char>, uri: Seq<char>, creator: Seq<char> },
    Trade {
        mint: Seq<char>,
        is_buy: bool,
        trader: Seq<char>,
        sol_lamports: u64,
        token_base: u64,
        vsol: u64,
        vtok: u64,
        ts: i64,
    },
}

/// The create-event prefix: name, symbol, uri, mint, bonding curve, user.
pub open spec fn create_fields(p: Seq<u8>) -> Option<EventView> {
    match read_string(p) {
        Some((name, r1)) => match read_string(r1) {
            Some((symbol, r2)) => match read_string(r2) {
                Some((uri, r3)) => match read_key(r3) {
                    Some((mint, r4)) => match read_key(r4) {
                        Some((_curve, r5)) => match read_key(r5) {
                            Some((user, _)) => Some(EventView::Create {
                                mint: bs58_text(mint),
                                name,
                                symbol,
                                uri,
                                creator: bs58_text(user),
                            }),
                            None => None,
                        },
                        None => None,
                    },
                    None => None,
                },
                None => None,
            },
            None => None,
        },
        None => None,
    }
}

/// The trade-event prefix: mint, sol amount, token amount, side, user,
/// timestamp, virtual SOL and virtual token reserves.
pub open spec fn trade_fields(p: Seq<u8>) -> Option<EventView> {
    match read_key(p) {
        Some((mint, r1)) => match read_u64(r1) {
            Some((sol, r2)) => match read_u64(r2) {
                Some((tok, r3)) => match read_bool(r3) {
                    Some((is_buy, r4)) => match read_key(r4) {
                        Some((user, r5)) => match read_i64(r5) {
                            Some((ts, r6)) => match read_u64(r6) {
                                Some((vsol, r7)) => match read_u64(r7) {
                                    Some((vtok, _)) => Some(EventView::Trade {
                                        mint: bs58_text(mint),
                                        is_buy,
                                        trader: bs58_text(user),
                                        sol_lamports: sol,
                                        token_base: tok,
                                        vsol,
                                        vtok,
                                        ts,
                                    }),
                                    None => None,
                                },
                                None => None,
                            },
                            None => None,
                        },
                        None => None,
                    },
                    None => None,
                },
                None => None,
            },
            None => None,
        },
        None => None,
    }
}

/// The event one inner-instruction data blob (already base58-decoded) holds.
pub open spec fn decode_event_spec(b: Seq<u8>) -> Option<EventView> {
    if b.len() < 16 || b.take(8) != event_cpi_disc() {
        None
    } else if b.subrange(8, 16) == create_event_disc() {
        create_fields(b.skip(16))
    } else if b.subrange(8, 16) == trade_event_disc() {
        trade_fields(b.skip(16))
    } else {
        None
    }
}

/// A decoded pump.fun event.
pub enum PumpEvent {
    Create { mint: String, name: String, symbol: String, uri: String, creator: String },
    Trade {
        mint: String,
        is_buy: bool,
        trader: String,
        sol_lamports: u64,
        token_base: u64,
        vsol: u64,
        vtok: u64,
        ts: i64,
    },
}

impl View for PumpEvent {
    type V = EventView;

    open spec fn view(&self) -> EventView {
        match self {
            PumpEvent::Create { mint, name, symbol, uri, creator } => EventView::Create {
                mint: mint@,
                name: name@,
                symbol: symbol@,
                uri: uri@,
                creator: creator@,
            },
            PumpEvent::Trade { mint, is_buy, trader, sol_lamports, token_base, vsol, vtok, ts } =>
                EventView::Trade {
                mint: mint@,
                is_buy: *is_buy,
                trader: trader@,
                sol_lamports: *sol_lamports,
                token_base: *token_base,
                vsol: *vsol,
                vtok: *vtok,
                ts: *ts,
            },
        }
    }
}

proof fn lemma_skip_skip(b: Seq<u8>, pos: int, n: int)
    requires
        0 <= pos,
        0 <= n,
        pos + n <= b.len(),
    ensures
        b.skip(pos).skip(n) == b.skip(pos + n),
        b.skip(pos).take(n) == b.subrange(pos, pos + n),
{
    assert(b.skip(pos).skip(n) =~= b.skip(pos + n));
    assert(b.skip(pos).take(n) =~= b.subrange(pos, pos + n));
}

fn take_u32(b: &[u8], pos: usize) -> (r: Option<(u32, usize)>)
    requires
        pos <= b@.len(),
    ensures
        match read_u32(b@.skip(pos as int)) {
            Some((v, rest)) => r matches Some((x, p)) && x == v && p == pos + 4 && pos + 4 <= b@.len()
                && rest == b@.skip(pos + 4),
            None => r is None,
        },
{
    if b.len() - pos < 4 {
        return None;
    }
    proof {
        lemma_skip_skip(b@, pos as int, 4);
    }
    Some((u32_from_le_bytes(&b[pos..pos + 4]), pos + 4))
}

fn take_u64(b: &[u8], pos: usize) -> (r: Option<(u64, usize)>)
    requires
        pos <= b@.len(),
    ensures
        match read_u64(b@.skip(pos as int)) {
            Some((v, rest)) => r matches Some((x, p)) && x == v && p == pos + 8 && pos + 8 <= b@.len()
                && rest == b@.skip(pos + 8),
            None => r is None,
        },
{
    if b.len() - pos < 8 {
        return None;
    }
    proof {
        lemma_skip_skip(b@, pos as int, 8);
    }
    Some((u64_from_le_bytes(&b[pos..pos + 8]), pos + 8))
}

fn take_bool(b: &[u8], pos: usize) -> (r: Option<(bool, usize)>)
    requires
        pos <= b@.len(),
    ensures
        match read_bool(b@.skip(pos as int)) {
            Some((v, rest)) => r matches Some((x, p)) && x == v && p == pos + 1 && pos + 1 <= b@.len()
                && rest == b@.skip(pos + 1),
            None => r is None,
        },
{
    if b.len() - pos < 1 || b[pos] > 1 {
        return None;
    }
    proof {
        lemma_skip_skip(b@, pos as int, 1);
    }
    Some((b[pos] == 1, pos + 1))
}

fn take_key(b: &[u8], pos: usize) -> (r: Option<(String, usize)>)
    requires
        pos <= b@.len(),
    ensures
        match read_key(b@.skip(pos as int)) {
            Some((k, rest)) => r matches Some((s, p)) && s@ == bs58_text(k) && p == pos + 32
                && pos + 32 <= b@.len() && rest == b@.skip(pos + 32),
            None => r is None,
        },
{
    if b.len() - pos < 32 {
        return None;
    }
    proof {
        lemma_skip_skip(b@, pos as int, 32);
    }
    Some((b58(&b[pos..pos + 32]), pos + 32))
}

fn take_string(b: &[u8], pos: usize) -> (r: Option<(String, usize)>)
    requires
        pos <= b@.len(),
    ensures
        match read_string(b@.skip(pos as int)) {
            Some((t, rest)) => r matches Some((s, p)) && s@ == t && pos <= p <= b@.len()
                && rest == b@.skip(p as int),
            None => r is None,
        },
{
    let (n, p) = match take_u32(b, pos) {
        Some(x) => x,
        None => return None,
    };
    let n = n as usize;
    if b.len() - p < n {
        return None;
    }
    proof {
        lemma_skip_skip(b@, p as int, n as int);
    }
    match utf8_string(&b[p..p + n]) {
        Some(s) => Some((s, p + n)),
        None => None,
    }
}

/// True when `b[at..at + 8]` equals `d`.
fn eight_bytes_at(b: &[u8], at: usize, d: [u8; 8]) -> (r: bool)
    requires
        at + 8 <= b@.len(),
    ensures
        r == (b@.subrange(at as int, at + 8) == d@),
{
    let mut i: usize = 0;
    while i < 8
        invariant
            i <= 8,
            at + 8 <= b.len(),
            forall|k: int| 0 <= k < i ==> b@[at + k] == d@[k],
        decreases 8 - i,
    {
        if b[at + i] != d[i] {
            assert(b@.subrange(at as int, at + 8)[i as int] != d@[i as int]);
            return false;
        }
        i += 1;
    }
    assert(b@.subrange(at as int, at + 8) =~= d@);
    true
}

fn decode_create(b: &[u8], pos: usize) -> (r: Option<PumpEvent>)
    requires
        pos <= b@.len(),
    ensures
        match r {
            Some(e) => create_fields(b@.skip(pos as int)) == Some(e@),
            None => create_fields(b@.skip(pos as int)) is None,
        },
{
    let (name, p1) = match take_string(b, pos) { Some(x) => x, None => return None };
    let (symbol, p2) = match take_string(b, p1) { Some(x) => x, None => return None };
    let (uri, p3) = match take_string(b, p2) { Some(x) => x, None => return None };
    let (mint, p4) = match take_key(b, p3) { Some(x) => x, None => return None };
    let (_curve, p5) = match take_key(b, p4) { Some(x) => x, None => return None };
    let (creator, _p6) = match take_key(b, p5) { Some(x) => x, None => return None };
    Some(PumpEvent::Create { mint, name, symbol, uri, creator })
}

fn decode_trade(b: &[u8], pos: usize) -> (r: Option<PumpEvent>)
    requires
        pos <= b@.len(),
    ensures
        match r {
            Some(e) => trade_fields(b@.skip(pos as int)) == Some(e@),
            None => trade_fields(b@.skip(pos as int)) is None,
        },
{
    let (mint, p1) = match take_key(b, pos) { Some(x) => x, None => return None };
    let (sol_lamports, p2) = match take_u64(b, p1) { Some(x) => x, None => return None };
    let (token_base, p3) = match take_u64(b, p2) { Some(x) => x, None => return None };
    let (is_buy, p4) = match take_bool(b, p3) { Some(x) => x, None => return None };
    let (trader, p5) = match take_key(b, p4) { Some(x) => x, None => return None };
    let (ts_bits, p6) = match take_u64(b, p5) { Some(x) => x, None => return None };
    let (vsol, p7) = match take_u64(b, p6) { Some(x) => x, None => return None };
    let (vtok, _p8) = match take_u64(b, p7) { Some(x) => x, None => return None };
    let ts = #[verifier::truncate] (ts_bits as i64);
    Some(PumpEvent::Trade { mint, is_buy, trader, sol_lamports, token_base, vsol, vtok, ts })
}

/// Decodes one pump.fun inner-instruction data blob (already base58-decoded):
/// the event-CPI sentinel, then a create or trade discriminator, then the
/// borsh-encoded prefix of that event. Bytes after the prefix are ignored.
pub fn decode_event(bytes: &[u8]) -> (r: Option<PumpEvent>)
    ensures
        match r {
            Some(e) => decode_event_spec(bytes@) == Some(e@),
            None => decode_event_spec(bytes@) is None,
        },
{
    if bytes.len() < 16 {
        return None;
    }
    let sentinel: [u8; 8] = [0xe4, 0x45, 0xa5, 0x2e, 0x51, 0xcb, 0x9a, 0x1d];
    let create: [u8; 8] = [27, 114, 169, 77, 222, 235, 99, 118];
    let trade: [u8; 8] = [189, 219, 127, 211, 78, 230, 97, 238];
    assert(sentinel@ =~= event_cpi_disc());
    assert(create@ =~= create_event_disc());
    assert(trade@ =~= trade_event_disc());
    assert(bytes@.subrange(0, 8) =~= bytes@.take(8));
    if !eight_bytes_at(bytes, 0, sentinel) {
        return None;
    }
    if eight_bytes_at(bytes, 8, create) {
        decode_create(bytes, 16)
    } else if eight_bytes_at(bytes, 8, trade) {
        decode_trade(bytes, 16)
    } else {
        None
    }
}


/// The pump.fun program id.
pub const PUMP_PROGRAM_ID: &'static str = "6EF8rrecthR5Dkzon8Nwu78hRvfCKubJ14M5uBEwF6P";

/// `a`, or `b` when `a` is `None`.
pub open spec fn or_else(a: Option<Json>, b: Option<Json>) -> Option<Json> {
    if a is Some { a } else { b }
}

/// The string text of an optional value.
pub open spec fn opt_str(v: Option<Json>) -> Option<Seq<char>> {
    match v {
        Some(j) => j.str_spec(),
        None => None,
    }
}

/// The elements of an optional array value.
pub open spec fn opt_array(v: Option<Json>) -> Option<Seq<Json>> {
    match v {
        Some(j) => j.array_spec(),
        None => None,
    }
}

/// Account-key entries of a message: plain strings, or objects carrying a
/// string `pubkey`; other entries are skipped.
pub open spec fn key_strings(arr: Seq<Json>) -> Seq<Seq<char>>
    decreases arr.len(),
{
    if arr.len() == 0 {
        Seq::empty()
    } else {
        let k = arr.last();
        let here = match k.str_spec() {
            Some(s) => seq![s],
            None => match opt_str(k.get_spec("pubkey"@)) {
                Some(s) => seq![s],
                None => Seq::empty(),
            },
        };
        key_strings(arr.drop_last()) + here
    }
}

/// The string entries of an array, in order.
pub open spec fn str_items(arr: Seq<Json>) -> Seq<Seq<char>>
    decreases arr.len(),
{
    if arr.len() == 0 {
        Seq::empty()
    } else {
        let here = match arr.last().str_spec() {
            Some(s) => seq![s],
            None => Seq::empty(),
        };
        str_items(arr.drop_last()) + here
    }
}

/// The transaction message of a notification result.
pub open spec fn message_of(r: Json) -> Option<Json> {
    or_else(
        r.pointer_spec(seq!["transaction"@, "transaction"@, "message"@]),
        r.pointer_spec(seq!["transaction"@, "message"@]),
    )
}

/// The transaction meta of a notification result.
pub open spec fn meta_of(r: Json) -> Option<Json> {
    or_else(r.pointer_spec(seq!["transaction"@, "meta"@]), r.get_spec("meta"@))
}

/// Addresses loaded through a lookup table, for one of `writable`/`readonly`.
pub open spec fn loaded_keys(meta: Json, field: Seq<char>) -> Seq<Seq<char>> {
    match opt_array(meta.pointer_spec(seq!["loadedAddresses"@, field])) {
        Some(arr) => str_items(arr),
        None => Seq::empty(),
    }
}

/// Every resolved account key of a transaction: the message's account keys,
/// then the writable and the readonly loaded addresses.
pub open spec fn account_keys_spec(r: Json) -> Seq<Seq<char>> {
    let k1 = match message_of(r) {
        Some(m) => match opt_array(m.get_spec("accountKeys"@)) {
            Some(arr) => key_strings(arr),
            None => Seq::empty(),
        },
        None => Seq::empty(),
    };
    let k2 = match meta_of(r) {
        Some(meta) => loaded_keys(meta, "writable"@) + loaded_keys(meta, "readonly"@),
        None => Seq::empty(),
    };
    k1 + k2
}

/// Views of a vector of strings.
pub open spec fn views(v: Seq<String>) -> Seq<Seq<char>> {
    v.map_values(|s: String| s@)
}

fn push_key_strings(keys: &mut Vec<String>, arr: &Vec<Json>)
    ensures
        views(final(keys)@) == views(old(keys)@) + key_strings(arr@),
{
    let ghost start = views(keys@);
    let mut i: usize = 0;
    while i < arr.len()
        invariant
            i <= arr@.len(),
            views(keys@) == start + key_strings(arr@.take(i as int)),
        decreases arr@.len() - i,
    {
        let k = &arr[i];
        assert(arr@.take(i + 1).drop_last() =~= arr@.take(i as int));
        assert(arr@.take(i + 1).last() == *k);
        let ghost prev = keys@;
        let ghost here = match k.str_spec() {
            Some(s) => seq![s],
            None => match opt_str(k.get_spec("pubkey"@)) {
                Some(s) => seq![s],
                None => Seq::<Seq<char>>::empty(),
            },
        };
        assert(key_strings(arr@.take(i + 1)) == key_strings(arr@.take(i as int)) + here);
        if let Some(s) = k.as_str() {
            keys.push(String::from_str(s));
            assert(views(keys@) =~= views(prev) + here);
        } else if let Some(p) = k.get("pubkey") {
            if let Some(s) = p.as_str() {
                keys.push(String::from_str(s));
                assert(views(keys@) =~= views(prev) + here);
            } else {
                assert(views(keys@) =~= views(prev) + here);
            }
        } else {
            assert(views(keys@) =~= views(prev) + here);
        }
        i += 1;
        assert(views(keys@) =~= start + key_strings(arr@.take(i as int)));
    }
    assert(arr@.take(i as int) =~= arr@);
}

fn push_str_items(keys: &mut Vec<String>, arr: &Vec<Json>)
    ensures
        views(final(keys)@) == views(old(keys)@) + str_items(arr@),
{
    let ghost start = views(keys@);
    let mut i: usize = 0;
    while i < arr.len()
        invariant
            i <= arr@.len(),
            views(keys@) == start + str_items(arr@.take(i as int)),
        decreases arr@.len() - i,
    {
        let k = &arr[i];
        assert(arr@.take(i + 1).drop_last() =~= arr@.take(i as int));
        assert(arr@.take(i + 1).last() == *k);
        let ghost prev = keys@;
        let ghost here = match k.str_spec() {
            Some(s) => seq![s],
            None => Seq::<Seq<char>>::empty(),
        };
        assert(str_items(arr@.take(i + 1)) == str_items(arr@.take(i as int)) + here);
        if let Some(s) = k.as_str() {
            keys.push(String::from_str(s));
            assert(views(keys@) =~= views(prev) + here);
        } else {
            assert(views(keys@) =~= views(prev) + here);
        }
        i += 1;
        assert(views(keys@) =~= start + str_items(arr@.take(i as int)));
    }
    assert(arr@.take(i as int) =~= arr@);
}

fn message(result: &Json) -> (r: Option<&Json>)
    ensures
        deref_opt(r) == message_of(*result),
{
    let p1: [&str; 3] = ["transaction", "transaction", "message"];
    assert(p1@.map_values(|t: &str| t@) =~= seq!["transaction"@, "transaction"@, "message"@]);
    match result.pointer(&p1) {
        Some(m) => Some(m),
        None => {
            let p2: [&str; 2] = ["transaction", "message"];
            assert(p2@.map_values(|t: &str| t@) =~= seq!["transaction"@, "message"@]);
            result.pointer(&p2)
        },
    }
}

fn meta(result: &Json) -> (r: Option<&Json>)
    ensures
        deref_opt(r) == meta_of(*result),
{
    let p: [&str; 2] = ["transaction", "meta"];
    assert(p@.map_values(|t: &str| t@) =~= seq!["transaction"@, "meta"@]);
    match result.pointer(&p) {
        Some(m) => Some(m),
        None => result.get("meta"),
    }
}

fn push_loaded(keys: &mut Vec<String>, meta: &Json, field: &str)
    ensures
        views(final(keys)@) == views(old(keys)@) + loaded_keys(*meta, field@),
{
    let p: [&str; 2] = ["loadedAddresses", field];
    assert(p@.map_values(|t: &str| t@) =~= seq!["loadedAddresses"@, field@]);
    if let Some(a) = meta.pointer(&p) {
        if let Some(arr) = a.as_array() {
            push_str_items(keys, arr);
            return;
        }
    }
    assert(views(keys@) =~= views(old(keys)@) + loaded_keys(*meta, field@));
}

/// Every resolved account key of a transaction: where an instruction only
/// carries `programIdIndex`, it is resolved against this list.
pub fn account_keys(result: &Json) -> (keys: Vec<String>)
    ensures
        views(keys@) == account_keys_spec(*result),
{
    let mut keys: Vec<String> = Vec::new();
    assert(views(keys@) =~= Seq::<Seq<char>>::empty());
    if let Some(m) = message(result) {
        if let Some(a) = m.get("accountKeys") {
            if let Some(arr) = a.as_array() {
                push_key_strings(&mut keys, arr);
            }
        }
    }
    let ghost k1 = views(keys@);
    if let Some(meta) = meta(result) {
        push_loaded(&mut keys, meta, "writable");
        push_loaded(&mut keys, meta, "readonly");
    }
    assert(views(keys@) =~= account_keys_spec(*result));
    keys
}

/// The program an instruction invokes: its `programId`, or else the account
/// key at its `programIdIndex`.
pub open spec fn ix_program_spec(ix: Json, keys: Seq<Seq<char>>) -> Option<Seq<char>> {
    match opt_str(ix.get_spec("programId"@)) {
        Some(s) => Some(s),
        None => match ix.get_spec("programIdIndex"@) {
            Some(i) => match i.u64_spec() {
                Some(n) => if (n as usize) < keys.len() { Some(keys[(n as usize) as int]) } else { None },
                None => None,
            },
            None => None,
        },
    }
}

/// The program an instruction invokes.
pub fn ix_program_id(ix: &Json, keys: &Vec<String>) -> (r: Option<String>)
    ensures
        match r {
            Some(s) => ix_program_spec(*ix, views(keys@)) == Some(s@),
            None => ix_program_spec(*ix, views(keys@)) is None,
        },
{
    if let Some(p) = ix.get("programId") {
        if let Some(s) = p.as_str() {
            return Some(String::from_str(s));
        }
    }
    let idx = match ix.get("programIdIndex") {
        Some(i) => match i.as_u64() {
            Some(n) => n,
            None => return None,
        },
        None => return None,
    };
    let i = #[verifier::truncate] (idx as usize);
    if i < keys.len() {
        Some(keys[i].clone())
    } else {
        None
    }
}

/// The pump.fun events one inner instruction holds (none or one): only
/// instructions of the pump.fun program whose `data` is base58 that decodes
/// to an event.
pub open spec fn ix_event(ix: Json, keys: Seq<Seq<char>>) -> Seq<EventView> {
    if ix_program_spec(ix, keys) != Some(PUMP_PROGRAM_ID@) {
        Seq::empty()
    } else {
        match opt_str(ix.get_spec("data"@)) {
            Some(data) => match bs58_bytes(data) {
                Some(bytes) => match decode_event_spec(bytes) {
                    Some(e) => seq![e],
                    None => Seq::empty(),
                },
                None => Seq::empty(),
            },
            None => Seq::empty(),
        }
    }
}

/// The events of a list of inner instructions, in order.
pub open spec fn ix_events(ixs: Seq<Json>, keys: Seq<Seq<char>>) -> Seq<EventView>
    decreases ixs.len(),
{
    if ixs.len() == 0 {
        Seq::empty()
    } else {
        ix_events(ixs.drop_last(), keys) + ix_event(ixs.last(), keys)
    }
}

/// The events of one inner-instruction group.
pub open spec fn group_events(g: Json, keys: Seq<Seq<char>>) -> Seq<EventView> {
    match opt_array(g.get_spec("instructions"@)) {
        Some(ixs) => ix_events(ixs, keys),
        None => Seq::empty(),
    }
}

/// The events of every inner-instruction group, in order.
pub open spec fn all_events(groups: Seq<Json>, keys: Seq<Seq<char>>) -> Seq<EventView>
    decreases groups.len(),
{
    if groups.len() == 0 {
        Seq::empty()
    } else {
        all_events(groups.drop_last(), keys) + group_events(groups.last(), keys)
    }
}

/// The inner-instruction groups of a notification result.
pub open spec fn inner_groups(r: Json) -> Option<Seq<Json>> {
    match meta_of(r) {
        Some(m) => opt_array(m.get_spec("innerInstructions"@)),
        None => None,
    }
}

/// Every pump.fun event of a notification result, in order.
pub open spec fn events_spec(r: Json) -> Seq<EventView> {
    match inner_groups(r) {
        Some(groups) => all_events(groups, account_keys_spec(r)),
        None => Seq::empty(),
    }
}

/// Views of a vector of events.
pub open spec fn event_views(v: Seq<PumpEvent>) -> Seq<EventView> {
    v.map_values(|e: PumpEvent| e@)
}

fn push_ix_event(events: &mut Vec<PumpEvent>, ix: &Json, keys: &Vec<String>)
    ensures
        event_views(final(events)@) == event_views(old(events)@) + ix_event(*ix, views(keys@)),
{
    let pid = ix_program_id(ix, keys);
    let is_pump = match &pid {
        Some(p) => str_eq(p.as_str(), PUMP_PROGRAM_ID),
        None => false,
    };
    if is_pump {
        if let Some(d) = ix.get("data") {
            if let Some(data) = d.as_str() {
                if let Some(bytes) = b58_decode(data) {
                    if let Some(ev) = decode_event(bytes.as_slice()) {
                        events.push(ev);
                        assert(event_views(events@) =~= event_views(old(events)@) + ix_event(*ix, views(keys@)));
                        return;
                    }
                }
            }
        }
    }
    assert(event_views(events@) =~= event_views(old(events)@) + ix_event(*ix, views(keys@)));
}

fn push_group_events(events: &mut Vec<PumpEvent>, group: &Json, keys: &Vec<String>)
    ensures
        event_views(final(events)@) == event_views(old(events)@) + group_events(*group, views(keys@)),
{
    let ixs = match group.get("instructions") {
        Some(a) => match a.as_array() {
            Some(v) => v,
            None => {
                assert(event_views(events@) =~= event_views(old(events)@) + group_events(*group, views(keys@)));
                return;
            },
        },
        None => {
            assert(event_views(events@) =~= event_views(old(events)@) + group_events(*group, views(keys@)));
            return;
        },
    };
    let ghost start = event_views(events@);
    let mut i: usize = 0;
    while i < ixs.len()
        invariant
            i <= ixs@.len(),
            event_views(events@) == start + ix_events(ixs@.take(i as int), views(keys@)),
        decreases ixs@.len() - i,
    {
        assert(ixs@.take(i + 1).drop_last() =~= ixs@.take(i as int));
        assert(ixs@.take(i + 1).last() == ixs@[i as int]);
        push_ix_event(events, &ixs[i], keys);
        i += 1;
        assert(event_views(events@) =~= start + ix_events(ixs@.take(i as int), views(keys@)));
    }
    assert(ixs@.take(i as int) =~= ixs@);
}

/// Every pump.fun event of a notification result, in instruction order.
pub fn collect_events(result: &Json) -> (events: Vec<PumpEvent>)
    ensures
        event_views(events@) == events_spec(*result),
{
    let mut events: Vec<PumpEvent> = Vec::new();
    assert(event_views(events@) =~= Seq::<EventView>::empty());
    let m = match meta(result) {
        Some(m) => m,
        None => return events,
    };
    let groups = match m.get("innerInstructions") {
        Some(a) => match a.as_array() {
            Some(v) => v,
            None => return events,
        },
        None => return events,
    };
    let keys = account_keys(result);
    let mut i: usize = 0;
    while i < groups.len()
        invariant
            i <= groups@.len(),
            inner_groups(*result) == Some(groups@),
            views(keys@) == account_keys_spec(*result),
            event_views(events@) == all_events(groups@.take(i as int), views(keys@)),
        decreases groups@.len() - i,
    {
        assert(groups@.take(i + 1).drop_last() =~= groups@.take(i as int));
        assert(groups@.take(i + 1).last() == groups@[i as int]);
        push_group_events(&mut events, &groups[i], &keys);
        i += 1;
    }
    assert(groups@.take(i as int) =~= groups@);
    events
}


/// Virtual SOL reserves of a fresh bonding curve, in lamports (used when a
/// create carries no dev buy to read them from).
pub const LAUNCH_VSOL_LAMPORTS: u64 = 30_000_000_000;

/// Virtual token reserves of a fresh bonding curve, in base units.
pub const LAUNCH_VTOK_BASE: u64 = 1_073_000_000_000_000;

/// A decoded frame, amounts in the chain's integer units: lamports for SOL,
/// base units (six decimals) for tokens.
pub enum FrameView {
    NewToken {
        mint: Seq<char>,
        name: Seq<char>,
        symbol: Seq<char>,
        creator: Seq<char>,
        created_ms: i64,
        vsol_lamports: u64,
        vtok_base: u64,
        initial_buy_lamports: u64,
        uri: Seq<char>,
        signature: Seq<char>,
        raw_json: Seq<char>,
    },
    Trade {
        mint: Seq<char>,
        is_buy: bool,
        trader: Seq<char>,
        signature: Seq<char>,
        sol_lamports: u64,
        token_base: u64,
        vsol_lamports: u64,
        vtok_base: u64,
        ts_ms: i64,
        raw_json: Seq<char>,
    },
}

/// A frame decoded from a Helius notification (see [`FrameView`]).
pub enum PumpFrame {
    NewToken {
        mint: String,
        name: String,
        symbol: String,
        creator: String,
        created_ms: i64,
        vsol_lamports: u64,
        vtok_base: u64,
        initial_buy_lamports: u64,
        uri: String,
        signature: String,
        raw_json: String,
    },
    Trade {
        mint: String,
        is_buy: bool,
        trader: String,
        signature: String,
        sol_lamports: u64,
        token_base: u64,
        vsol_lamports: u64,
        vtok_base: u64,
        ts_ms: i64,
        raw_json: String,
    },
}

impl View for PumpFrame {
    type V = FrameView;

    open spec fn view(&self) -> FrameView {
        match self {
            PumpFrame::NewToken {
                mint,
                name,
                symbol,
                creator,
                created_ms,
                vsol_lamports,
                vtok_base,
                initial_buy_lamports,
                uri,
                signature,
                raw_json,
            } => FrameView::NewToken {
                mint: mint@,
                name: name@,
                symbol: symbol@,
                creator: creator@,
                created_ms: *created_ms,
                vsol_lamports: *vsol_lamports,
                vtok_base: *vtok_base,
                initial_buy_lamports: *initial_buy_lamports,
                uri: uri@,
                signature: signature@,
                raw_json: raw_json@,
            },
            PumpFrame::Trade {
                mint,
                is_buy,
                trader,
                signature,
                sol_lamports,
                token_base,
                vsol_lamports,
                vtok_base,
                ts_ms,
                raw_json,
            } => FrameView::Trade {
                mint: mint@,
                is_buy: *is_buy,
                trader: trader@,
                signature: signature@,
                sol_lamports: *sol_lamports,
                token_base: *token_base,
                vsol_lamports: *vsol_lamports,
                vtok_base: *vtok_base,
                ts_ms: *ts_ms,
                raw_json: raw_json@,
            },
        }
    }
}

/// A signed integer value, if `v` holds one.
pub open spec fn opt_i64(v: Option<Json>) -> Option<i64> {
    match v {
        Some(j) => j.i64_spec(),
        None => None,
    }
}

/// The slot of a notification: `slot`, else `transaction.slot`, else 0.
pub open spec fn slot_spec(r: Json) -> i64 {
    match opt_i64(r.get_spec("slot"@)) {
        Some(s) => s,
        None => match opt_i64(r.pointer_spec(seq!["transaction"@, "slot"@])) {
            Some(s) => s,
            None => 0,
        },
    }
}

/// The signature of a notification: `signature`, else the first signature
/// of the inner transaction, else empty.
pub open spec fn signature_spec(r: Json) -> Seq<char> {
    match opt_str(r.get_spec("signature"@)) {
        Some(s) => s,
        None => match opt_str(
            r.pointer_spec(seq!["transaction"@, "transaction"@, "signatures"@, "0"@]),
        ) {
            Some(s) => s,
            None => Seq::empty(),
        },
    }
}

/// The `raw_json` kept with every decoded frame:
/// `{"sig":<sig>,"slot":<slot>,"src":"helius"}`.
pub open spec fn helius_raw_text(slot: i64, sig: Seq<char>) -> Seq<char> {
    "{\"sig\":"@ + json_quoted(sig) + ",\"slot\":"@ + signed_decimal(slot as int)
        + ",\"src\":\"helius\"}"@
}

/// The first trade among `evs`: (sol lamports, virtual SOL, virtual tokens,
/// timestamp). In a create transaction that is the dev buy.
pub open spec fn first_trade(evs: Seq<EventView>) -> Option<(u64, u64, u64, i64)>
    decreases evs.len(),
{
    if evs.len() == 0 {
        None
    } else {
        match evs[0] {
            EventView::Trade { sol_lamports, vsol, vtok, ts, .. } => Some((sol_lamports, vsol, vtok, ts)),
            _ => first_trade(evs.drop_first()),
        }
    }
}

/// Creation time of a token: the dev buy's timestamp in milliseconds when that
/// is positive, otherwise the fallback clock.
pub open spec fn create_ts_ms(ft: Option<(u64, u64, u64, i64)>, fallback_ms: i64) -> i64 {
    match ft {
        Some((_, _, _, ts)) => if ts.wrapping_mul(1000) > 0 { ts.wrapping_mul(1000) } else { fallback_ms },
        None => fallback_ms,
    }
}

/// The frame one event becomes. A create takes its reserves and initial buy
/// from the transaction's first trade, or fresh-launch reserves and no buy.
pub open spec fn frame_of(
    e: EventView,
    ft: Option<(u64, u64, u64, i64)>,
    sig: Seq<char>,
    raw: Seq<char>,
    fallback_ms: i64,
) -> FrameView {
    match e {
        EventView::Create { mint, name, symbol, uri, creator } => FrameView::NewToken {
            mint,
            name,
            symbol,
            creator,
            created_ms: create_ts_ms(ft, fallback_ms),
            vsol_lamports: match ft { Some((_, v, _, _)) => v, None => LAUNCH_VSOL_LAMPORTS },
            vtok_base: match ft { Some((_, _, t, _)) => t, None => LAUNCH_VTOK_BASE },
            initial_buy_lamports: match ft { Some((sol, _, _, _)) => sol, None => 0 },
            uri,
            signature: sig,
            raw_json: raw,
        },
        EventView::Trade { mint, is_buy, trader, sol_lamports, token_base, vsol, vtok, ts } =>
            FrameView::Trade {
            mint,
            is_buy,
            trader,
            signature: sig,
            sol_lamports,
            token_base,
            vsol_lamports: vsol,
            vtok_base: vtok,
            ts_ms: if ts > 0 { ts.wrapping_mul(1000) } else { fallback_ms },
            raw_json: raw,
        },
    }
}

/// Every frame of a notification result, one per event and in event order.
pub open spec fn frames_spec(r: Json, fallback_ms: i64) -> Seq<FrameView> {
    let evs = events_spec(r);
    let sig = signature_spec(r);
    let raw = helius_raw_text(slot_spec(r), sig);
    evs.map_values(|e: EventView| frame_of(e, first_trade(evs), sig, raw, fallback_ms))
}

/// Every event of a notification becomes one frame, in event order, and a
/// frame carries what its event says. A trade frame has the event's mint,
/// side (`is_buy`), trader, SOL and token amounts and reserves, the
/// event's time in milliseconds when that is positive (else the fallback
/// clock) and the notification's signature. A launch frame has the event's
/// mint, name, symbol, creator and URI.
pub proof fn law_frames_follow_events(r: Json, fallback_ms: i64)
    ensures
        frames_spec(r, fallback_ms).len() == events_spec(r).len(),
        forall|i: int| 0 <= i < events_spec(r).len() ==> {
            let e = #[trigger] events_spec(r)[i];
            let f = frames_spec(r, fallback_ms)[i];
            &&& (e is Trade <==> f is Trade)
            &&& e is Trade ==> {
                &&& f->Trade_mint == e->Trade_mint
                &&& f->Trade_is_buy == e->Trade_is_buy
                &&& f->Trade_trader == e->Trade_trader
                &&& f->Trade_sol_lamports == e->Trade_sol_lamports
                &&& f->Trade_token_base == e->Trade_token_base
                &&& f->Trade_vsol_lamports == e->vsol
                &&& f->Trade_vtok_base == e->vtok
                &&& f->Trade_ts_ms == (if e->ts > 0 { e->ts.wrapping_mul(1000) } else { fallback_ms })
                &&& f->Trade_signature == signature_spec(r)
            }
            &&& e is Create ==> {
                &&& f->NewToken_mint == e->Create_mint
                &&& f->name == e->name
                &&& f->symbol == e->symbol
                &&& f->creator == e->creator
                &&& f->uri == e->uri
                &&& f->NewToken_signature == signature_spec(r)
            }
        },
{
}

/// Views of a vector of frames.
pub open spec fn frame_views(v: Seq<PumpFrame>) -> Seq<FrameView> {
    v.map_values(|f: PumpFrame| f@)
}

fn slot_of(result: &Json) -> (s: i64)
    ensures
        s == slot_spec(*result),
{
    if let Some(v) = result.get("slot") {
        if let Some(n) = v.as_i64() {
            return n;
        }
    }
    let p: [&str; 2] = ["transaction", "slot"];
    assert(p@.map_values(|t: &str| t@) =~= seq!["transaction"@, "slot"@]);
    if let Some(v) = result.pointer(&p) {
        if let Some(n) = v.as_i64() {
            return n;
        }
    }
    0
}

fn signature_of(result: &Json) -> (s: String)
    ensures
        s@ == signature_spec(*result),
{
    if let Some(v) = result.get("signature") {
        if let Some(t) = v.as_str() {
            return String::from_str(t);
        }
    }
    let p: [&str; 4] = ["transaction", "transaction", "signatures", "0"];
    assert(p@.map_values(|t: &str| t@) =~= seq!["transaction"@, "transaction"@, "signatures"@, "0"@]);
    if let Some(v) = result.pointer(&p) {
        if let Some(t) = v.as_str() {
            return String::from_str(t);
        }
    }
    String::new()
}

/// The `raw_json` text kept with every frame of one notification.
pub fn helius_raw(slot: i64, sig: &str) -> (r: String)
    ensures
        r@ == helius_raw_text(slot, sig@),
{
    let mut r = String::from_str("{\"sig\":");
    push_json_string(&mut r, sig);
    r.append(",\"slot\":");
    push_signed_decimal(&mut r, slot);
    r.append(",\"src\":\"helius\"}");
    r
}

fn find_first_trade(events: &Vec<PumpEvent>) -> (r: Option<(u64, u64, u64, i64)>)
    ensures
        r == first_trade(event_views(events@)),
{
    let ghost evs = event_views(events@);
    let mut i: usize = 0;
    assert(evs.skip(0) =~= evs);
    while i < events.len()
        invariant
            i <= events@.len(),
            evs == event_views(events@),
            first_trade(evs) == first_trade(evs.skip(i as int)),
        decreases events@.len() - i,
    {
        assert(evs.skip(i as int).drop_first() =~= evs.skip(i + 1));
        assert(evs.skip(i as int)[0] == events@[i as int]@);
        match &events[i] {
            PumpEvent::Trade { sol_lamports, vsol, vtok, ts, .. } => {
                return Some((*sol_lamports, *vsol, *vtok, *ts));
            },
            _ => {},
        }
        i += 1;
    }
    None
}

fn make_frame(
    e: &PumpEvent,
    ft: Option<(u64, u64, u64, i64)>,
    sig: &String,
    raw: &String,
    fallback_ms: i64,
) -> (f: PumpFrame)
    ensures
        f@ == frame_of(e@, ft, sig@, raw@, fallback_ms),
{
    match e {
        PumpEvent::Create { mint, name, symbol, uri, creator } => {
            let (created_ms, vsol_lamports, vtok_base, initial_buy_lamports) = match ft {
                Some((sol, vsol, vtok, ts)) => {
                    let t = ts.wrapping_mul(1000);
                    (if t > 0 { t } else { fallback_ms }, vsol, vtok, sol)
                },
                None => (fallback_ms, LAUNCH_VSOL_LAMPORTS, LAUNCH_VTOK_BASE, 0),
            };
            PumpFrame::NewToken {
                mint: mint.clone(),
                name: name.clone(),
                symbol: symbol.clone(),
                creator: creator.clone(),
                created_ms,
                vsol_lamports,
                vtok_base,
                initial_buy_lamports,
                uri: uri.clone(),
                signature: sig.clone(),
                raw_json: raw.clone(),
            }
        },
        PumpEvent::Trade { mint, is_buy, trader, sol_lamports, token_base, vsol, vtok, ts } => {
            PumpFrame::Trade {
                mint: mint.clone(),
                is_buy: *is_buy,
                trader: trader.clone(),
                signature: sig.clone(),
                sol_lamports: *sol_lamports,
                token_base: *token_base,
                vsol_lamports: *vsol,
                vtok_base: *vtok,
                ts_ms: if *ts > 0 { ts.wrapping_mul(1000) } else { fallback_ms },
                raw_json: raw.clone(),
            }
        },
    }
}

/// Decodes every pump.fun event in one `transactionNotification` result into
/// frames, in instruction order: a create transaction yields its new token
/// first, then its dev-buy trade. Results without events yield nothing.
pub fn decode_result(result: &Json, fallback_ms: i64) -> (frames: Vec<PumpFrame>)
    ensures
        frame_views(frames@) == frames_spec(*result, fallback_ms),
{
    let events = collect_events(result);
    let ghost evs = event_views(events@);
    if events.len() == 0 {
        let empty: Vec<PumpFrame> = Vec::new();
        assert(frame_views(empty@) =~= frames_spec(*result, fallback_ms));
        return empty;
    }
    let slot = slot_of(result);
    let sig = signature_of(result);
    let raw = helius_raw(slot, sig.as_str());
    let ft = find_first_trade(&events);
    let mut frames: Vec<PumpFrame> = Vec::new();
    let mut i: usize = 0;
    while i < events.len()
        invariant
            i <= events@.len(),
            evs == event_views(events@),
            evs == events_spec(*result),
            sig@ == signature_spec(*result),
            raw@ == helius_raw_text(slot_spec(*result), sig@),
            ft == first_trade(evs),
            frame_views(frames@) == evs.take(i as int).map_values(
                |e: EventView| frame_of(e, ft, sig@, raw@, fallback_ms),
            ),
        decreases events@.len() - i,
    {
        let f = make_frame(&events[i], ft, &sig, &raw, fallback_ms);
        let ghost prev = frames@;
        assert(evs[i as int] == events@[i as int]@);
        frames.push(f);
        assert(frame_views(frames@) =~= frame_views(prev).push(f@));
        assert(evs.take(i + 1) =~= evs.take(i as int).push(evs[i as int]));
        i += 1;
        assert(frame_views(frames@) =~= evs.take(i as int).map_values(
            |e: EventView| frame_of(e, ft, sig@, raw@, fallback_ms),
        ));
    }
    assert(evs.take(i as int) =~= evs);
    assert(frame_views(frames@) =~= frames_spec(*result, fallback_ms));
    frames
}


/// The borsh encoding of a string: its UTF-8 byte length as a `u32`, then
/// the bytes.
pub open spec fn borsh_string(t: Seq<char>) -> Seq<u8> {
    spec_u32_to_le_bytes(encode_utf8(t).len() as u32) + encode_utf8(t)
}

/// The borsh encoding of the trade-event prefix.
pub open spec fn trade_prefix_bytes(
    mint: Seq<u8>,
    sol_lamports: u64,
    token_base: u64,
    is_buy: bool,
    user: Seq<u8>,
    ts: i64,
    vsol: u64,
    vtok: u64,
) -> Seq<u8> {
    mint + (spec_u64_to_le_bytes(sol_lamports) + (spec_u64_to_le_bytes(token_base) + (seq![
        if is_buy { 1u8 } else { 0u8 },
    ] + (user + (spec_u64_to_le_bytes(ts as u64) + (spec_u64_to_le_bytes(vsol)
        + spec_u64_to_le_bytes(vtok)))))))
}

/// The borsh encoding of the create-event prefix.
pub open spec fn create_prefix_bytes(
    name: Seq<char>,
    symbol: Seq<char>,
    uri: Seq<char>,
    mint: Seq<u8>,
    curve: Seq<u8>,
    user: Seq<u8>,
) -> Seq<u8> {
    borsh_string(name) + (borsh_string(symbol) + (borsh_string(uri) + (mint + (curve + user))))
}

proof fn lemma_read_u64(x: u64, rest: Seq<u8>)
    ensures
        read_u64(spec_u64_to_le_bytes(x) + rest) == Some((x, rest)),
{
    lemma_auto_spec_u64_to_from_le_bytes();
    let b = spec_u64_to_le_bytes(x);
    assert((b + rest).take(8) =~= b);
    assert((b + rest).skip(8) =~= rest);
}

proof fn lemma_read_key(k: Seq<u8>, rest: Seq<u8>)
    requires
        k.len() == 32,
    ensures
        read_key(k + rest) == Some((k, rest)),
{
    assert((k + rest).take(32) =~= k);
    assert((k + rest).skip(32) =~= rest);
}

proof fn lemma_read_bool(b: bool, rest: Seq<u8>)
    ensures
        read_bool(seq![if b { 1u8 } else { 0u8 }] + rest) == Some((b, rest)),
{
    assert((seq![if b { 1u8 } else { 0u8 }] + rest).skip(1) =~= rest);
}

proof fn lemma_read_string(t: Seq<char>, rest: Seq<u8>)
    requires
        encode_utf8(t).len() <= u32::MAX,
    ensures
        read_string(borsh_string(t) + rest) == Some((t, rest)),
{
    lemma_auto_spec_u32_to_from_le_bytes();
    let e = encode_utf8(t);
    let n = spec_u32_to_le_bytes(e.len() as u32);
    let all = borsh_string(t) + rest;
    assert(all.take(4) =~= n);
    assert(all.skip(4) =~= e + rest);
    assert((e + rest).take(e.len() as int) =~= e);
    assert((e + rest).skip(e.len() as int) =~= rest);
    encode_utf8_valid_utf8(t);
    encode_utf8_decode_utf8(t);
}

/// A trade event whose borsh prefix is followed by any further bytes decodes
/// to exactly the prefix's fields: trailing fields that newer program
/// versions append are ignored.
pub proof fn law_trade_event_roundtrip(
    mint: Seq<u8>,
    sol_lamports: u64,
    token_base: u64,
    is_buy: bool,
    user: Seq<u8>,
    ts: i64,
    vsol: u64,
    vtok: u64,
    trailing: Seq<u8>,
)
    requires
        mint.len() == 32,
        user.len() == 32,
    ensures
        decode_event_spec(
            event_cpi_disc() + trade_event_disc() + trade_prefix_bytes(
                mint,
                sol_lamports,
                token_base,
                is_buy,
                user,
                ts,
                vsol,
                vtok,
            ) + trailing,
        ) == Some(
            EventView::Trade {
                mint: bs58_text(mint),
                is_buy,
                trader: bs58_text(user),
                sol_lamports,
                token_base,
                vsol,
                vtok,
                ts,
            },
        ),
{
    let p = trade_prefix_bytes(mint, sol_lamports, token_base, is_buy, user, ts, vsol, vtok);
    let b = event_cpi_disc() + trade_event_disc() + p + trailing;
    assert(b.take(8) =~= event_cpi_disc());
    assert(b.subrange(8, 16) =~= trade_event_disc());
    assert(b.subrange(8, 16) != create_event_disc()) by {
        assert(b.subrange(8, 16)[0] != create_event_disc()[0]);
    }
    let t8 = spec_u64_to_le_bytes(vtok) + trailing;
    let t7 = spec_u64_to_le_bytes(vsol) + t8;
    let t6 = spec_u64_to_le_bytes(ts as u64) + t7;
    let t5 = user + t6;
    let t4 = seq![if is_buy { 1u8 } else { 0u8 }] + t5;
    let t3 = spec_u64_to_le_bytes(token_base) + t4;
    let t2 = spec_u64_to_le_bytes(sol_lamports) + t3;
    let t1 = mint + t2;
    assert(b.skip(16) =~= t1);
    lemma_read_key(mint, t2);
    lemma_read_u64(sol_lamports, t3);
    lemma_read_u64(token_base, t4);
    lemma_read_bool(is_buy, t5);
    lemma_read_key(user, t6);
    lemma_read_u64(ts as u64, t7);
    assert((ts as u64) as i64 == ts) by (bit_vector);
    lemma_read_u64(vsol, t8);
    lemma_read_u64(vtok, trailing);
}

/// A create event whose borsh prefix is followed by any further bytes decodes
/// to exactly the prefix's fields.
pub proof fn law_create_event_roundtrip(
    name: Seq<char>,
    symbol: Seq<char>,
    uri: Seq<char>,
    mint: Seq<u8>,
    curve: Seq<u8>,
    user: Seq<u8>,
    trailing: Seq<u8>,
)
    requires
        encode_utf8(name).len() <= u32::MAX,
        encode_utf8(symbol).len() <= u32::MAX,
        encode_utf8(uri).len() <= u32::MAX,
        mint.len() == 32,
        curve.len() == 32,
        user.len() == 32,
    ensures
        decode_event_spec(
            event_cpi_disc() + create_event_disc() + create_prefix_bytes(name, symbol, uri, mint, curve, user)
                + trailing,
        ) == Some(
            EventView::Create {
                mint: bs58_text(mint),
                name,
                symbol,
                uri,
                creator: bs58_text(user),
            },
        ),
{
    let p = create_prefix_bytes(name, symbol, uri, mint, curve, user);
    let b = event_cpi_disc() + create_event_disc() + p + trailing;
    assert(b.take(8) =~= event_cpi_disc());
    assert(b.subrange(8, 16) =~= create_event_disc());
    let t6 = user + trailing;
    let t5 = curve + t6;
    let t4 = mint + t5;
    let t3 = borsh_string(uri) + t4;
    let t2 = borsh_string(symbol) + t3;
    let t1 = borsh_string(name) + t2;
    assert(b.skip(16) =~= t1);
    lemma_read_string(name, t2);
    lemma_read_string(symbol, t3);
    lemma_read_string(uri, t4);
    lemma_read_key(mint, t5);
    lemma_read_key(curve, t6);
    lemma_read_key(user, trailing);
}

} // verus!
