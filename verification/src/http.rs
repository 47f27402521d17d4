//! The HTTP interface: what each request is answered with.
//!
//! A handler here decides; the server around it reads the request, performs
//! what the handler asks for, and sends the reply. Paths, JSON shapes and status
//! codes are part of the interface: 402 for a decline, 504 for a timeout, 409
//! for a busy terminal.
use vstd::prelude::*;

use crate::json::{Fields, Json, JsonView, Object};
use crate::protocol::{PaxError, PaxErrorView};
use crate::text::same_text;




pub mod late;
pub mod laws;
pub mod payment_laws;
pub mod payments;
pub mod terminal_laws;
pub mod terminals;
pub mod validate;

verus! {

// ---------------------------------------------------------------------------
// Replies
// ---------------------------------------------------------------------------

/// What a request is answered with.
#[derive(Debug)]
pub struct Reply {
    pub status: u16,
    pub body: Option<Json>,
}

/// What a `Reply` holds.
pub struct ReplyView {
    pub status: u16,
    pub body: Option<JsonView>,
}

impl Reply {
    pub open spec fn view(&self) -> ReplyView {
        ReplyView {
            status: self.status,
            body: match self.body {
                Some(j) => Some(j@),
                None => None,
            },
        }
    }

    /// A reply with a JSON object.
    pub fn object(status: u16, body: Object) -> (r: Reply)
        ensures
            r@ == object_reply(status, body@),
    {
        Reply { status, body: Some(Json::Obj(body)) }
    }
}

/// A reply with a JSON object.
pub open spec fn object_reply(status: u16, body: Fields) -> ReplyView {
    ReplyView { status, body: Some(JsonView::Obj(body)) }
}

// ---------------------------------------------------------------------------
// Errors
// ---------------------------------------------------------------------------

/// The HTTP status of an error code, and what to do about it.
pub open spec fn error_entry(code: Seq<char>) -> (u16, Seq<char>) {
    if code == "TERMINAL_BUSY"@ {
        (409, "The terminal is already processing another transaction. Wait for it to finish before sending a new one."@)
    } else if code == "CONNECTION_REFUSED"@ {
        (502, "Device reachable but BroadPOS is not listening on this port. In BroadPOS TSYS Sierra: set ECR-Terminal Integration Mode = External POS, Communication = TCP, Host Port = 10009 (or USB if using a cable), then leave BroadPOS on the idle screen."@)
    } else if code == "HOST_UNREACHABLE"@ {
        (502, "Terminal unreachable — verify it is powered on and on the same LAN/subnet as this server."@)
    } else if code == "CONNECTION_CLOSED"@ {
        (502, "The terminal closed the connection before responding. Check terminal status and try again."@)
    } else if code == "TIMEOUT"@ {
        (504, "No response within the timeout. IMPORTANT: the card may already have been charged — verify on the terminal before retrying. Do NOT blindly retry."@)
    } else if code == "CANCELED"@ {
        (409, "The terminal keeps its card prompt until it times out or its red Cancel key is pressed. If a card is charged anyway, this bridge voids it automatically."@)
    } else if code == "LRC_MISMATCH"@ {
        (502, "Corrupted response (LRC check failed). This can indicate a protocol version mismatch or a noisy connection."@)
    } else if code == "MALFORMED_RESPONSE"@ {
        (502, "Could not parse the terminal response. Verify the protocol version and constants against the PAX spec PDF."@)
    } else if code == "UNEXPECTED_RESPONSE"@ {
        (502, "The terminal returned an unexpected command code. Verify the constants file against the PAX spec."@)
    } else if code == "WRITE_FAILED"@ {
        (502, "Failed to send the command to the terminal."@)
    } else if code == "SOCKET_ERROR"@ {
        (502, "Network error communicating with the terminal."@)
    } else if code == "SERIAL_OPEN_FAILED"@ {
        (502, "Could not open the USB/serial port. Plug in the cable, set Android USB computer connection to PAX POSVCOM USB MODE, and in BroadPOS set Communication = USB with External POS / ECR on. On macOS the device appears as /dev/tty.usbmodem…"@)
    } else if code == "SERIAL_ERROR"@ {
        (502, "Serial communication error with the terminal."@)
    } else if code == "SERIAL_UNAVAILABLE"@ {
        (500, "Serial support (the \"serialport\" native module) is not installed. Run npm install in the server directory."@)
    } else {
        (500, "Unexpected server error."@)
    }
}

/// The HTTP status of an error code, and what to do about it.
pub fn error_map(code: &str) -> (r: (u16, &'static str))
    ensures
        (r.0, r.1@) == error_entry(code@),
{
    if same_text(code, "TERMINAL_BUSY") {
        (409, "The terminal is already processing another transaction. Wait for it to finish before sending a new one.")
    } else if same_text(code, "CONNECTION_REFUSED") {
        (502, "Device reachable but BroadPOS is not listening on this port. In BroadPOS TSYS Sierra: set ECR-Terminal Integration Mode = External POS, Communication = TCP, Host Port = 10009 (or USB if using a cable), then leave BroadPOS on the idle screen.")
    } else if same_text(code, "HOST_UNREACHABLE") {
        (502, "Terminal unreachable — verify it is powered on and on the same LAN/subnet as this server.")
    } else if same_text(code, "CONNECTION_CLOSED") {
        (502, "The terminal closed the connection before responding. Check terminal status and try again.")
    } else if same_text(code, "TIMEOUT") {
        (504, "No response within the timeout. IMPORTANT: the card may already have been charged — verify on the terminal before retrying. Do NOT blindly retry.")
    } else if same_text(code, "CANCELED") {
        (409, "The terminal keeps its card prompt until it times out or its red Cancel key is pressed. If a card is charged anyway, this bridge voids it automatically.")
    } else if same_text(code, "LRC_MISMATCH") {
        (502, "Corrupted response (LRC check failed). This can indicate a protocol version mismatch or a noisy connection.")
    } else if same_text(code, "MALFORMED_RESPONSE") {
        (502, "Could not parse the terminal response. Verify the protocol version and constants against the PAX spec PDF.")
    } else if same_text(code, "UNEXPECTED_RESPONSE") {
        (502, "The terminal returned an unexpected command code. Verify the constants file against the PAX spec.")
    } else if same_text(code, "WRITE_FAILED") {
        (502, "Failed to send the command to the terminal.")
    } else if same_text(code, "SOCKET_ERROR") {
        (502, "Network error communicating with the terminal.")
    } else if same_text(code, "SERIAL_OPEN_FAILED") {
        (502, "Could not open the USB/serial port. Plug in the cable, set Android USB computer connection to PAX POSVCOM USB MODE, and in BroadPOS set Communication = USB with External POS / ECR on. On macOS the device appears as /dev/tty.usbmodem…")
    } else if same_text(code, "SERIAL_ERROR") {
        (502, "Serial communication error with the terminal.")
    } else if same_text(code, "SERIAL_UNAVAILABLE") {
        (500, "Serial support (the \"serialport\" native module) is not installed. Run npm install in the server directory.")
    } else {
        (500, "Unexpected server error.")
    }
}

/// An error as it stands in a body, without a hint.
pub open spec fn plain_error(code: Seq<char>, message: Seq<char>) -> Fields {
    map!["code"@ => JsonView::Str(code), "message"@ => JsonView::Str(message)]
}

/// An error as it stands in a body, with a hint.
pub open spec fn hinted_error(code: Seq<char>, message: Seq<char>, hint: Seq<char>) -> Fields {
    map![
        "code"@ => JsonView::Str(code),
        "message"@ => JsonView::Str(message),
        "hint"@ => JsonView::Str(hint)
    ]
}

/// A body that holds an error.
pub open spec fn error_fields(error: Fields) -> Fields {
    map!["error"@ => JsonView::Obj(error)]
}

/// The error object, without a hint.
pub fn plain_error_object(code: &str, message: &str) -> (o: Object)
    ensures
        o@ == plain_error(code@, message@),
{
    Object::new().put("code", Json::of_str(code)).put("message", Json::of_str(message))
}

/// The error object, with a hint.
pub fn hinted_error_object(code: &str, message: &str, hint: &str) -> (o: Object)
    ensures
        o@ == hinted_error(code@, message@, hint@),
{
    Object::new().put("code", Json::of_str(code)).put("message", Json::of_str(message)).put(
        "hint",
        Json::of_str(hint),
    )
}

/// A body that holds an error.
pub fn error_object(error: Object) -> (o: Object)
    ensures
        o@ == error_fields(error@),
{
    Object::new().put("error", Json::Obj(error))
}

/// The body of a terminal error.
pub open spec fn pax_error_fields(e: PaxErrorView) -> Fields {
    error_fields(hinted_error(e.code, e.message, error_entry(e.code).1))
}

/// The reply to a terminal error.
pub open spec fn pax_error_reply(e: PaxErrorView) -> ReplyView {
    object_reply(error_entry(e.code).0, pax_error_fields(e))
}

/// The status and the body of a terminal error.
pub fn pax_error_body(err: &PaxError) -> (r: (u16, Object))
    ensures
        r.0 == error_entry(err@.code).0,
        r.1@ == pax_error_fields(err@),
{
    let (status, hint) = error_map(err.code);
    (status, error_object(hinted_error_object(err.code, err.message.as_str(), hint)))
}

/// The reply to a terminal error.
pub fn pax_error_response(err: &PaxError) -> (r: Reply)
    ensures
        r@ == pax_error_reply(err@),
{
    let (status, body) = pax_error_body(err);
    Reply::object(status, body)
}

/// What a body holds once another is merged into it: nothing changes unless
/// both are objects.
pub open spec fn merged(base: JsonView, extra: JsonView) -> JsonView {
    match (base, extra) {
        (JsonView::Obj(b), JsonView::Obj(e)) => JsonView::Obj(b.union_prefer_right(e)),
        _ => base,
    }
}

/// Merges the fields of one body into another.
pub fn merge_json(base: Json, extra: &Json) -> (r: Json)
    ensures
        r@ == merged(base@, extra@),
{
    match base {
        Json::Obj(b) => match extra {
            Json::Obj(e) => {
                let mut all = b;
                all.merge(e);
                Json::Obj(all)
            },
            _ => Json::Obj(b),
        },
        other => other,
    }
}

/// The reply to a request for something that is not there.
pub open spec fn not_found_reply(message: Seq<char>) -> ReplyView {
    object_reply(404, error_fields(plain_error("NOT_FOUND"@, message)))
}

/// The reply to a request for something that is not there.
pub fn not_found(message: &str) -> (r: Reply)
    ensures
        r@ == not_found_reply(message@),
{
    Reply::object(404, error_object(plain_error_object("NOT_FOUND", message)))
}

/// The reply to a request that cannot be accepted as it stands.
pub open spec fn validation_reply(message: Seq<char>) -> ReplyView {
    object_reply(400, error_fields(plain_error("VALIDATION"@, message)))
}

/// The reply to a request that cannot be accepted as it stands.
pub fn validation_error(message: &str) -> (r: Reply)
    ensures
        r@ == validation_reply(message@),
{
    Reply::object(400, error_object(plain_error_object("VALIDATION", message)))
}

/// A text for a log line: a dash where it is empty.
pub fn non_empty(s: &str) -> (r: &str)
    ensures
        r@ == (if s@.len() == 0 {
            "-"@
        } else {
            s@
        }),
{
    if s.is_empty() {
        "-"
    } else {
        s
    }
}

// ---------------------------------------------------------------------------
// Misc routes
// ---------------------------------------------------------------------------

/// The health check.
pub fn health() -> (r: Reply)
    ensures
        r@ == object_reply(
            200,
            map![
                "status"@ => JsonView::Str("ok"@),
                "message"@ => JsonView::Str("Server is running"@),
                "bridgeVersion"@ => JsonView::Str("rust-tauri"@)
            ],
        ),
{
    Reply::object(
        200,
        Object::new().put("status", Json::of_str("ok")).put(
            "message",
            Json::of_str("Server is running"),
        ).put("bridgeVersion", Json::of_str("rust-tauri")),
    )
}

/// The root of the interface.
pub fn api_root() -> (r: Reply)
    ensures
        r@ == object_reply(200, map!["message"@ => JsonView::Str("Welcome to the API"@)]),
{
    Reply::object(200, Object::new().put("message", Json::of_str("Welcome to the API")))
}

}
