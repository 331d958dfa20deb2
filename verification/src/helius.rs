//! The Helius LaserStream websocket protocol: the one subscription request
//! (`transactionSubscribe` filtered to a program), and what an incoming
//! message means. A single subscription carries every pump.fun launch and
//! trade, so it is simply re-sent on every reconnect.

use vstd::prelude::*;
use crate::json::Json;
use crate::pumpfun_decode::{decode_result, frame_views, frames_spec, PumpFrame};
use crate::text::{json_quoted, push_json_string, str_eq};

verus! {

/// The subscription request before the program id.
pub const SUBSCRIBE_HEAD: &'static str = "{\"id\":1,\"jsonrpc\":\"2.0\",\"method\":\"transactionSubscribe\",\"params\":[{\"accountInclude\":[";

/// The subscription request after the program id.
pub const SUBSCRIBE_TAIL: &'static str = "],\"failed\":false,\"vote\":false},{\"commitment\":\"confirmed\",\"encoding\":\"jsonParsed\",\"maxSupportedTransactionVersion\":0,\"transactionDetails\":\"full\"}]}";

/// The `transactionSubscribe` request for `program_id`: confirmed, parsed,
/// full transactions touching the program, no failed or vote transactions.
pub open spec fn subscribe_text(program_id: Seq<char>) -> Seq<char> {
    SUBSCRIBE_HEAD@ + json_quoted(program_id) + SUBSCRIBE_TAIL@
}

/// The subscription request, as JSON with its members in key order.
pub fn subscribe_request(program_id: &str) -> (r: String)
    ensures
        r@ == subscribe_text(program_id@),
{
    let mut r = String::from_str(SUBSCRIBE_HEAD);
    push_json_string(&mut r, program_id);
    r.append(SUBSCRIBE_TAIL);
    r
}

/// What an incoming message is.
pub enum Notification {
    /// An error reply: logged, nothing else.
    Error,
    /// Anything but a transaction notification (the subscription ack among
    /// them): ignored.
    Ignored,
    /// A transaction notification, decoded into launches and trades.
    Frames(Vec<PumpFrame>),
}

/// What an incoming message is, as plain values.
pub enum NotificationView {
    Error,
    Ignored,
    Frames(Seq<crate::pumpfun_decode::FrameView>),
}

impl View for Notification {
    type V = NotificationView;

    open spec fn view(&self) -> NotificationView {
        match self {
            Notification::Error => NotificationView::Error,
            Notification::Ignored => NotificationView::Ignored,
            Notification::Frames(fs) => NotificationView::Frames(frame_views(fs@)),
        }
    }
}

/// The meaning of message `doc`: an error when it has an `error` member;
/// otherwise, when its `method` is `transactionNotification` and it has
/// `params.result`, that result decoded (`now_ms` stamps frames without a
/// block time); otherwise ignored.
pub open spec fn notification_spec(doc: Json, now_ms: i64) -> NotificationView {
    if doc.get_spec("error"@) is Some {
        NotificationView::Error
    } else {
        match doc.get_spec("method"@) {
            Some(m) => if m.str_spec() == Some("transactionNotification"@) {
                match doc.pointer_spec(seq!["params"@, "result"@]) {
                    Some(r) => NotificationView::Frames(frames_spec(r, now_ms)),
                    None => NotificationView::Ignored,
                }
            } else {
                NotificationView::Ignored
            },
            None => NotificationView::Ignored,
        }
    }
}

/// Reads an incoming message (already parsed as JSON).
pub fn read_notification(doc: &Json, now_ms: i64) -> (n: Notification)
    ensures
        n@ == notification_spec(*doc, now_ms),
{
    if doc.get("error").is_some() {
        return Notification::Error;
    }
    let is_tx = match doc.get("method") {
        Some(m) => match m.as_str() {
            Some(s) => str_eq(s, "transactionNotification"),
            None => false,
        },
        None => false,
    };
    if !is_tx {
        return Notification::Ignored;
    }
    let p: [&str; 2] = ["params", "result"];
    assert(p@.map_values(|t: &str| t@) =~= seq!["params"@, "result"@]);
    match doc.pointer(&p) {
        Some(result) => Notification::Frames(decode_result(result, now_ms)),
        None => Notification::Ignored,
    }
}

} // verus!
