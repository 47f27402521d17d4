//! PAX ECR (POSLink wire) protocol.
//!
//! Wire framing:
//!   message = STX + <body> + ETX + LRC
//!     - body fields   separated by FS (0x1C)
//!     - sub-fields    separated by US (0x1F)
//!     - LRC = XOR of every byte after STX, up to and including ETX
//!   The protocol version string is sent as field #2 of most commands.
use vstd::prelude::*;
use vstd::string::StringExecFns;
use vstd::utf8::encode_utf8;

use crate::json::{copy_option, opt_text, text_array, Json, JsonView};
use crate::numeral::{hex_u64, is_digit, numeral, parse_i64, signed_of};
use crate::text::{
    chars_of, decode_lossy, has_char, join_texts, join_with, lemma_texts_push, same_text, split_on,
    split_text, text_of, texts, lossy_text,
};

pub mod laws;
pub mod requests;
pub mod responses;
pub mod t00_req_field;

pub use requests::{
    build_batch_close_fields, build_cancel_fields, build_credit_fields, build_initialize_fields,
    fields_for_log, CreditFieldsInput,
};
pub use responses::{
    parse_batch_response, parse_credit_response, parse_initialize, BatchResponse, CreditResponse,
    InitializeInfo,
};

verus! {

// ---------------------------------------------------------------------------
// Control bytes (ASCII / wire framing)
// ---------------------------------------------------------------------------

/// Start of text: begins every message.
pub const STX: u8 = 0x02;

/// End of text: ends the body, included in the LRC.
pub const ETX: u8 = 0x03;

/// Field separator, between top-level fields.
pub const FS: u8 = 0x1c;

/// Unit separator, between sub-fields inside one field.
pub const US: u8 = 0x1f;

/// Acknowledge.
pub const ACK: u8 = 0x06;

/// Negative acknowledge.
pub const NAK: u8 = 0x15;

/// Enquiry: some POSLink stacks send it to open a session.
pub const ENQ: u8 = 0x05;

/// End of transmission.
pub const EOT: u8 = 0x04;

// ---------------------------------------------------------------------------
// Command codes
// ---------------------------------------------------------------------------

/// Initialize / ping the terminal, answered by A01.
pub const COMMAND_INITIALIZE: &'static str = "A00";

/// Get input, answered by A09.
pub const COMMAND_GET_INPUT: &'static str = "A08";

/// Cancel what the terminal is prompting for, answered by A15.
pub const COMMAND_CANCEL: &'static str = "A14";

/// The terminal's answer to a cancel.
pub const RESPONSE_CANCEL: &'static str = "A15";

/// DoCredit (sale/auth/return/void/postauth), answered by T01.
pub const COMMAND_DO_CREDIT: &'static str = "T00";

/// Batch close / settle, answered by B01.
pub const COMMAND_BATCH_CLOSE: &'static str = "B00";

// ---------------------------------------------------------------------------
// Transaction type sub-codes for DoCredit (T00), field #3
// ---------------------------------------------------------------------------

/// Pre-authorization.
pub const TXN_TYPE_AUTH: &'static str = "01";

/// Sale / DoCredit.
pub const TXN_TYPE_SALE: &'static str = "02";

/// Return / refund.
pub const TXN_TYPE_RETURN: &'static str = "03";

/// Void a previous transaction.
pub const TXN_TYPE_VOID: &'static str = "04";

/// Post-authorization (capture).
pub const TXN_TYPE_POSTAUTH: &'static str = "05";

// ---------------------------------------------------------------------------
// Result / EDC codes
// ---------------------------------------------------------------------------

pub const RESULT_CODE_APPROVED: &'static str = "000000";

pub const EDC_TYPE_ALL: &'static str = "00";

/// The response code that each request command is answered with.
pub open spec fn response_code(command: Seq<char>) -> Option<Seq<char>> {
    if command == "A00"@ {
        Some("A01"@)
    } else if command == "A08"@ {
        Some("A09"@)
    } else if command == "T00"@ {
        Some("T01"@)
    } else if command == "B00"@ {
        Some("B01"@)
    } else {
        None
    }
}

/// Expected response code for each request command.
pub fn response_for(command: &str) -> (r: Option<&'static str>)
    ensures
        crate::json::opt_str(r) == response_code(command@),
{
    if same_text(command, "A00") {
        Some("A01")
    } else if same_text(command, "A08") {
        Some("A09")
    } else if same_text(command, "T00") {
        Some("T01")
    } else if same_text(command, "B00") {
        Some("B01")
    } else {
        None
    }
}

// ---------------------------------------------------------------------------
// Errors
// ---------------------------------------------------------------------------

/// An error with a machine-readable code, for the HTTP layer to map.
#[derive(Debug)]
pub struct PaxError {
    pub code: &'static str,
    pub message: String,
    pub raw: Option<Json>,
    pub cause: Option<String>,
}

/// What a `PaxError` holds.
pub struct PaxErrorView {
    pub code: Seq<char>,
    pub message: Seq<char>,
    pub raw: Option<JsonView>,
    pub cause: Option<Seq<char>>,
}

/// An error with a code and a message and nothing else.
pub open spec fn pax_error(code: Seq<char>, message: Seq<char>) -> PaxErrorView {
    PaxErrorView { code, message, raw: None, cause: None }
}

impl PaxError {
    pub open spec fn view(&self) -> PaxErrorView {
        PaxErrorView {
            code: self.code@,
            message: self.message@,
            raw: match self.raw {
                Some(j) => Some(j@),
                None => None,
            },
            cause: opt_text(self.cause),
        }
    }

    pub fn new(code: &'static str, message: String) -> (e: PaxError)
        ensures
            e@ == pax_error(code@, message@),
    {
        PaxError { code, message, raw: None, cause: None }
    }

    pub fn with_raw(self, raw: Json) -> (e: PaxError)
        ensures
            e@ == (PaxErrorView { raw: Some(raw@), ..self@ }),
    {
        PaxError { code: self.code, message: self.message, raw: Some(raw), cause: self.cause }
    }

    pub fn with_cause(self, cause: String) -> (e: PaxError)
        ensures
            e@ == (PaxErrorView { cause: Some(cause@), ..self@ }),
    {
        PaxError { code: self.code, message: self.message, raw: self.raw, cause: Some(cause) }
    }
}

impl Clone for PaxError {
    fn clone(&self) -> (e: PaxError)
        ensures
            e@ == self@,
    {
        PaxError {
            code: self.code,
            message: self.message.clone(),
            raw: match &self.raw {
                Some(j) => Some(j.copy()),
                None => None,
            },
            cause: copy_option(&self.cause),
        }
    }
}

/// Calls the lifecycle hook, where there is one, with the state reached:
/// `SENDING`, `WAITING` (request written) or `RECEIVING` (first byte in).
pub fn fire_state<F: Fn(&str)>(on_state: &Option<F>, state: &str)
    requires
        on_state matches Some(cb) ==> cb.requires((state,)),
    ensures
        on_state matches Some(cb) ==> cb.ensures((state,), ()),
{
    if let Some(cb) = on_state {
        cb(state);
    }
}

// ---------------------------------------------------------------------------
// Field framing
// ---------------------------------------------------------------------------

/// A single request field: either a plain string or a set of US-separated
/// sub-fields.
#[derive(Debug)]
pub enum Field {
    Single(String),
    Sub(Vec<String>),
}

/// What a `Field` holds.
pub enum FieldView {
    Single(Seq<char>),
    Sub(Seq<Seq<char>>),
}

impl Field {
    pub open spec fn view(&self) -> FieldView {
        match self {
            Field::Single(s) => FieldView::Single(s@),
            Field::Sub(v) => FieldView::Sub(texts(v@)),
        }
    }
}

impl From<&str> for Field {
    fn from(s: &str) -> (f: Field)
        ensures
            f@ == FieldView::Single(s@),
    {
        Field::Single(s.to_owned())
    }
}

// A copied text is known by its view alone, so the contract of `from` says what
// the field is, and no specification function does.
impl vstd::std_specs::convert::FromSpecImpl<&str> for Field {
    open spec fn obeys_from_spec() -> bool {
        false
    }

    open spec fn from_spec(s: &str) -> Field {
        arbitrary()
    }
}

impl From<String> for Field {
    fn from(s: String) -> Field {
        Field::Single(s)
    }
}

impl vstd::std_specs::convert::FromSpecImpl<String> for Field {
    open spec fn obeys_from_spec() -> bool {
        true
    }

    open spec fn from_spec(s: String) -> Field {
        Field::Single(s)
    }
}

impl From<Vec<String>> for Field {
    fn from(v: Vec<String>) -> Field {
        Field::Sub(v)
    }
}

impl vstd::std_specs::convert::FromSpecImpl<Vec<String>> for Field {
    open spec fn obeys_from_spec() -> bool {
        true
    }

    open spec fn from_spec(v: Vec<String>) -> Field {
        Field::Sub(v)
    }
}

impl FieldView {
    /// The field as it stands in a message body.
    pub open spec fn wire(self) -> Seq<char> {
        match self {
            FieldView::Single(s) => s,
            FieldView::Sub(v) => join_with(v, US as char),
        }
    }
}

/// What the fields of a list hold.
pub open spec fn fields_view(fields: Seq<Field>) -> Seq<FieldView> {
    Seq::new(fields.len(), |i: int| fields[i]@)
}

/// The fields of a list as they stand in a message body.
pub open spec fn wire_fields(fields: Seq<FieldView>) -> Seq<Seq<char>> {
    Seq::new(fields.len(), |i: int| fields[i].wire())
}

/// The body of the message that carries the fields.
pub open spec fn body_text(fields: Seq<FieldView>) -> Seq<char> {
    join_with(wire_fields(fields), FS as char)
}

/// The XOR of all bytes.
pub open spec fn lrc(bytes: Seq<u8>) -> u8
    decreases bytes.len(),
{
    if bytes.len() == 0 {
        0u8
    } else {
        lrc(bytes.drop_last()) ^ bytes.last()
    }
}

/// The frame around a message body: STX, the body, ETX and the LRC.
pub open spec fn frame(body: Seq<u8>) -> Seq<u8> {
    seq![STX] + body + seq![ETX, lrc(body.push(ETX))]
}

/// Computes the LRC (longitudinal redundancy check): the XOR of the bytes.
pub fn compute_lrc(bytes: &[u8]) -> (r: u8)
    ensures
        r == lrc(bytes@),
{
    let mut acc: u8 = 0;
    let mut i: usize = 0;
    while i < bytes.len()
        invariant
            i <= bytes@.len(),
            acc == lrc(bytes@.take(i as int)),
        decreases bytes@.len() - i,
    {
        assert(bytes@.take(i + 1).drop_last() =~= bytes@.take(i as int));
        acc = acc ^ bytes[i];
        i += 1;
    }
    assert(bytes@.take(bytes@.len() as int) =~= bytes@);
    acc
}

/// Builds a framed request from an ordered list of fields: the fields joined
/// with FS, sub-fields with US, as UTF-8 between STX and ETX, then the LRC.
pub fn build_message(fields: &[Field]) -> (out: Vec<u8>)
    ensures
        out@ == frame(encode_utf8(body_text(fields_view(fields@)))),
{
    let mut parts: Vec<String> = Vec::new();
    let mut i: usize = 0;
    while i < fields.len()
        invariant
            i <= fields@.len(),
            texts(parts@) == wire_fields(fields_view(fields@)).take(i as int),
        decreases fields@.len() - i,
    {
        broadcast use lemma_texts_push;

        let part = match &fields[i] {
            Field::Single(s) => s.clone(),
            Field::Sub(v) => join_texts(v, US as char),
        };
        parts.push(part);
        assert(texts(parts@) =~= wire_fields(fields_view(fields@)).take(i + 1));
        i += 1;
    }
    assert(texts(parts@) =~= wire_fields(fields_view(fields@)));
    let body = join_texts(&parts, FS as char);
    let body_bytes = body.as_str().as_bytes();
    let mut lrc_region: Vec<u8> = Vec::new();
    lrc_region.extend_from_slice(body_bytes);
    lrc_region.push(ETX);
    assert(lrc_region@ =~= body_bytes@.push(ETX));
    let check: u8 = compute_lrc(lrc_region.as_slice());
    let mut out: Vec<u8> = Vec::new();
    out.push(STX);
    out.extend_from_slice(body_bytes);
    out.push(ETX);
    out.push(check);
    assert(out@ =~= frame(body_bytes@));
    out
}

/// The first position at or after `from` that holds `b`, or the length.
pub open spec fn byte_index(s: Seq<u8>, b: u8, from: int) -> int
    decreases s.len() - from,
{
    if from >= s.len() {
        s.len() as int
    } else if s[from] == b {
        from
    } else {
        byte_index(s, b, from + 1)
    }
}

fn find_byte(s: &[u8], b: u8, from: usize) -> (r: usize)
    requires
        from <= s@.len(),
    ensures
        r == byte_index(s@, b, from as int),
        from <= r <= s@.len(),
        r < s@.len() ==> s@[r as int] == b,
{
    let mut i: usize = from;
    while i < s.len() && s[i] != b
        invariant
            from <= i <= s@.len(),
            byte_index(s@, b, i as int) == byte_index(s@, b, from as int),
        decreases s@.len() - i,
    {
        i += 1;
    }
    i
}

/// Where the first frame in a buffer starts: its first STX.
pub open spec fn frame_start(buf: Seq<u8>) -> int {
    byte_index(buf, STX, 0)
}

/// Where the body of the first frame in a buffer ends: the first ETX from its
/// start on.
pub open spec fn frame_end(buf: Seq<u8>) -> int {
    byte_index(buf, ETX, frame_start(buf))
}

/// Whether a buffer holds STX, a later ETX and one more byte.
pub open spec fn complete(buf: Seq<u8>) -> bool {
    frame_end(buf) + 1 < buf.len()
}

/// True once the buffer contains a full frame (STX ... ETX + 1 LRC byte).
pub fn has_complete_frame(buf: &[u8]) -> (r: bool)
    ensures
        r == complete(buf@),
{
    let start = find_byte(buf, STX, 0);
    let end = find_byte(buf, ETX, start);
    end < buf.len() && end + 1 < buf.len()
}

/// How many bytes the first frame and what stands before it take up.
pub fn first_frame_len(buf: &[u8]) -> (r: usize)
    requires
        complete(buf@),
    ensures
        r == frame_end(buf@) + 2,
        r <= buf@.len(),
{
    let start = find_byte(buf, STX, 0);
    let end = find_byte(buf, ETX, start);
    let n: usize = buf.len();
    assert(end + 1 < n);
    end + 2
}

/// A response split into its fields, and the text it was split from.
#[derive(Debug)]
pub struct ParsedResponse {
    pub fields: Vec<String>,
    pub raw: String,
}

/// What a `ParsedResponse` holds.
pub struct ParsedView {
    pub fields: Seq<Seq<char>>,
    pub raw: Seq<char>,
}

impl ParsedResponse {
    pub open spec fn view(&self) -> ParsedView {
        ParsedView { fields: texts(self.fields@), raw: self.raw@ }
    }
}

/// One or more decimal digits.
pub open spec fn app_index(s: Seq<char>) -> bool {
    s.len() > 0 && crate::numeral::all_digits(s)
}

/// An upper-case letter and two digits.
pub open spec fn command_code(s: Seq<char>) -> bool {
    s.len() == 3 && 'A' <= s[0] <= 'Z' && is_digit(s[1]) && is_digit(s[2])
}

/// The fields without the push/app index that BroadPOS puts before the command
/// code.
pub open spec fn without_index(fields: Seq<Seq<char>>) -> Seq<Seq<char>> {
    if fields.len() >= 2 && app_index(fields[0]) && command_code(fields[1]) {
        fields.drop_first()
    } else {
        fields
    }
}

/// What a response body means.
pub open spec fn parsed_body(raw: Seq<char>) -> ParsedView {
    ParsedView { fields: without_index(split_on(raw, FS as char)), raw }
}

/// Whether a text is one or more decimal digits.
pub fn is_all_digits(s: &str) -> (r: bool)
    ensures
        r == app_index(s@),
{
    let v = chars_of(s);
    let mut i: usize = 0;
    while i < v.len()
        invariant
            v@ == s@,
            i <= v@.len(),
            forall|k: int| 0 <= k < i ==> is_digit(#[trigger] s@[k]),
        decreases v@.len() - i,
    {
        if !('0' <= v[i] && v[i] <= '9') {
            assert(!is_digit(s@[i as int]));
            return false;
        }
        i += 1;
    }
    v.len() > 0
}

/// Whether a text is a command code: an upper-case letter and two digits.
pub fn is_cmd_code(s: &str) -> (r: bool)
    ensures
        r == command_code(s@),
{
    let v = chars_of(s);
    v.len() == 3 && 'A' <= v[0] && v[0] <= 'Z' && '0' <= v[1] && v[1] <= '9' && '0' <= v[2] && v[2]
        <= '9'
}

/// Splits the text of a response body into its fields.
pub fn parse_body(raw: String) -> (r: ParsedResponse)
    ensures
        r@ == parsed_body(raw@),
{
    let mut fields = split_text(raw.as_str(), FS as char);
    if fields.len() >= 2 && is_all_digits(fields[0].as_str()) && is_cmd_code(fields[1].as_str()) {
        let ghost before = fields@;
        fields.remove(0);
        assert(texts(fields@) =~= texts(before).drop_first());
    }
    ParsedResponse { fields, raw }
}

/// The bytes between STX and ETX of the first frame.
pub open spec fn frame_body(buf: Seq<u8>) -> Seq<u8> {
    buf.subrange(frame_start(buf) + 1, frame_end(buf))
}

/// The LRC byte that the first frame carries.
pub open spec fn frame_lrc(buf: Seq<u8>) -> u8 {
    buf[frame_end(buf) + 1]
}

/// The LRC that the body of the first frame should carry.
pub open spec fn expected_lrc(buf: Seq<u8>) -> u8 {
    lrc(frame_body(buf).push(ETX))
}

/// Why a buffer without a complete frame cannot be parsed.
pub open spec fn incomplete_reason(buf: Seq<u8>) -> Seq<char> {
    if buf.len() < 3 {
        "Response too short to be a valid PAX frame"@
    } else if frame_start(buf) == buf.len() {
        "No STX (0x02) found in response"@
    } else {
        "No ETX (0x03) + LRC found in response"@
    }
}

/// What parsing a buffer gives: an error where it holds no complete frame or
/// the LRC does not match, else the fields of the first frame.
pub open spec fn parsed(buf: Seq<u8>) -> Result<ParsedView, PaxErrorView> {
    if !complete(buf) {
        Err(pax_error("MALFORMED_RESPONSE"@, incomplete_reason(buf)))
    } else if frame_lrc(buf) != expected_lrc(buf) {
        Err(
            pax_error(
                "LRC_MISMATCH"@,
                "LRC check failed (received 0x"@ + numeral(frame_lrc(buf) as nat, 16)
                    + ", expected 0x"@ + numeral(expected_lrc(buf) as nat, 16) + ")"@,
            ),
        )
    } else {
        Ok(parsed_body(lossy_text(frame_body(buf))))
    }
}

/// What a parse result holds.
pub open spec fn parse_result_view(r: Result<ParsedResponse, PaxError>) -> Result<
    ParsedView,
    PaxErrorView,
> {
    match r {
        Ok(p) => Ok(p@),
        Err(e) => Err(e@),
    }
}

/// Parses a framed response buffer into its fields. Validates the STX prefix,
/// the presence of ETX, and the trailing LRC.
pub fn parse_response(buf: &[u8]) -> (r: Result<ParsedResponse, PaxError>)
    ensures
        parse_result_view(r) == parsed(buf@),
{
    let start = find_byte(buf, STX, 0);
    let end = find_byte(buf, ETX, start);
    if buf.len() < 3 {
        return Err(
            PaxError::new(
                "MALFORMED_RESPONSE",
                "Response too short to be a valid PAX frame".to_owned(),
            ),
        );
    }
    if start >= buf.len() {
        return Err(
            PaxError::new("MALFORMED_RESPONSE", "No STX (0x02) found in response".to_owned()),
        );
    }
    if end >= buf.len() || end + 1 >= buf.len() {
        return Err(
            PaxError::new("MALFORMED_RESPONSE", "No ETX (0x03) + LRC found in response".to_owned()),
        );
    }
    assert(buf@[start as int] == STX && buf@[end as int] == ETX);
    assert(start < end);
    let received: u8 = buf[end + 1];
    let expected: u8 = compute_lrc(&buf[start + 1..end + 1]);
    assert(buf@.subrange(start + 1, end + 1) =~= frame_body(buf@).push(ETX));
    if received != expected {
        let message = "LRC check failed (received 0x".to_owned().concat(
            hex_u64(received as u64).as_str(),
        ).concat(", expected 0x").concat(hex_u64(expected as u64).as_str()).concat(")");
        return Err(PaxError::new("LRC_MISMATCH", message));
    }
    Ok(parse_body(decode_lossy(&buf[start + 1..end])))
}

// ---------------------------------------------------------------------------
// Sub-field helpers
// ---------------------------------------------------------------------------

/// The sub-fields of a field, none where the field is missing.
pub open spec fn sub_texts(fields: Seq<Seq<char>>, i: int) -> Seq<Seq<char>> {
    if 0 <= i < fields.len() {
        split_on(fields[i], US as char)
    } else {
        Seq::empty()
    }
}

/// The text at a position, no characters where there is none.
pub open spec fn text_at(parts: Seq<Seq<char>>, i: int) -> Seq<char> {
    if 0 <= i < parts.len() {
        parts[i]
    } else {
        Seq::empty()
    }
}

/// The US-separated sub-fields of a field.
pub fn sub_fields(field: Option<&String>) -> (r: Vec<String>)
    ensures
        texts(r@) == (match field {
            Some(f) => split_on(f@, US as char),
            None => Seq::empty(),
        }),
{
    match field {
        None => {
            let r: Vec<String> = Vec::new();
            assert(texts(r@) =~= Seq::empty());
            r
        },
        Some(f) => split_text(f.as_str(), US as char),
    }
}

fn sub_fields_at(fields: &Vec<String>, i: usize) -> (r: Vec<String>)
    ensures
        texts(r@) == sub_texts(texts(fields@), i as int),
{
    if i < fields.len() {
        sub_fields(Some(&fields[i]))
    } else {
        sub_fields(None)
    }
}

/// The text at a position, empty where there is none.
pub fn at(arr: &Vec<String>, i: usize) -> (r: String)
    ensures
        r@ == text_at(texts(arr@), i as int),
{
    if i < arr.len() {
        arr[i].clone()
    } else {
        String::new()
    }
}

/// A field without control bytes: the list of its sub-fields where it has US
/// separators, else its text.
pub open spec fn readable_field(f: Seq<char>) -> JsonView {
    if f.contains(US as char) {
        text_array(split_on(f, US as char))
    } else {
        JsonView::Str(f)
    }
}

/// A list of fields without control bytes.
pub open spec fn readable(fields: Seq<Seq<char>>) -> JsonView {
    JsonView::Arr(Seq::new(fields.len(), |i: int| readable_field(fields[i])))
}

fn readable_json(f: &String) -> (j: Json)
    ensures
        j@ == readable_field(f@),
{
    if has_char(f.as_str(), US as char) {
        Json::of_texts(&split_text(f.as_str(), US as char))
    } else {
        Json::Str(f.clone())
    }
}

/// A control-byte-free form of the fields, for logging and JSON.
pub fn sanitize_raw(fields: &Vec<String>) -> (j: Json)
    ensures
        j@ == readable(texts(fields@)),
{
    let mut items: Vec<Json> = Vec::new();
    let mut i: usize = 0;
    while i < fields.len()
        invariant
            i <= fields@.len(),
            items@.len() == i,
            forall|k: int| 0 <= k < i ==> (#[trigger] items@[k])@ == readable_field(fields@[k]@),
        decreases fields@.len() - i,
    {
        items.push(readable_json(&fields[i]));
        i += 1;
    }
    proof {
        crate::json::lemma_array_items(items@);
        assert(crate::json::array_view(items@) =~= Seq::new(
            texts(fields@).len(),
            |i: int| readable_field(texts(fields@)[i]),
        ));
    }
    Json::Arr(items)
}

/// The characters that a cents amount is read from: digits and minus signs.
pub open spec fn cents_chars(s: Seq<char>) -> Seq<char> {
    s.filter(|c: char| is_digit(c) || c == '-')
}

/// A cents amount: the number that the digits and minus signs of a text
/// denote, zero where they denote none that fits.
pub open spec fn cents(s: Seq<char>) -> i64 {
    match signed_of(cents_chars(s)) {
        Some(n) => n as i64,
        None => 0,
    }
}

/// Reads a cents amount.
pub fn to_cents(v: &str) -> (r: i64)
    ensures
        r == cents(v@),
{
    let mut kept: String = String::new();
    let ghost pred = |c: char| is_digit(c) || c == '-';
    assert(v@.take(0).filter(pred) =~= Seq::<char>::empty()) by {
        reveal(Seq::filter);
    }
    for c in it: v.chars()
        invariant
            it.seq() == v@,
            pred == (|c: char| is_digit(c) || c == '-'),
            kept@ == v@.take(it.index() as int).filter(pred),
    {
        proof {
            reveal(Seq::filter);
            let t = v@.take(it.index() + 1);
            assert(t.drop_last() =~= v@.take(it.index() as int));
            assert(t.last() == c);
        }
        if ('0' <= c && c <= '9') || c == '-' {
            kept.push(c);
        }
    }
    assert(v@.take(v@.len() as int) =~= v@);
    match parse_i64(kept.as_str()) {
        Some(n) => n,
        None => 0,
    }
}

/// The last four digits of a text, or fewer where it has fewer.
pub open spec fn last_digits(s: Seq<char>) -> Seq<char> {
    let d = s.filter(|c: char| is_digit(c));
    d.subrange(if d.len() > 4 { d.len() - 4 } else { 0 }, d.len() as int)
}

/// The last four digits of a card number.
pub fn last_four(pan: &str) -> (r: String)
    ensures
        r@ == last_digits(pan@),
{
    let mut digits: Vec<char> = Vec::new();
    let ghost pred = |c: char| is_digit(c);
    assert(pan@.take(0).filter(pred) =~= Seq::<char>::empty()) by {
        reveal(Seq::filter);
    }
    for c in it: pan.chars()
        invariant
            it.seq() == pan@,
            pred == (|c: char| is_digit(c)),
            digits@ == pan@.take(it.index() as int).filter(pred),
    {
        proof {
            reveal(Seq::filter);
            let t = pan@.take(it.index() + 1);
            assert(t.drop_last() =~= pan@.take(it.index() as int));
            assert(t.last() == c);
        }
        if '0' <= c && c <= '9' {
            digits.push(c);
        }
    }
    assert(pan@.take(pan@.len() as int) =~= pan@);
    let n: usize = digits.len();
    let from: usize = if n > 4 {
        n - 4
    } else {
        0
    };
    text_of(&digits, from, n)
}

}
