//! One command on the wire: open the link, write the request, read until a
//! whole frame is in.
//!
//! The exchange decides; the caller performs. Each event that the I/O layer
//! reports is answered with the next thing to do. The same exchange runs over
//! TCP and over a serial port, which differ in how failures are reported.
use vstd::prelude::*;
use vstd::string::StringExecFns;
use vstd::utf8::encode_utf8;

use crate::io_fault::{IoFault, IoKind};
use crate::json::{opt_text, Json, JsonView};
use crate::numeral::{decimal, decimal_u64};
use crate::protocol::{
    at, body_text, complete, first_frame_len, frame, frame_end, has_complete_frame, parse_response,
    parsed, pax_error, text_at, wire_fields, FieldView, ParsedResponse, ParsedView, PaxError,
    PaxErrorView, ACK, ENQ,
};
use crate::serial::{classify_open_err, classify_runtime_err, open_error, runtime_error};
use crate::tcp::{connect_error, map_connect_err};
use crate::text::{lowercase, same_text};
use crate::transport::raw_view;
use crate::wire_laws::{
    digits_only, frame_end_in_buffer, frame_end_stays, index_in_front_is_dropped,
    letter_digit_digit, message_ends_its_frame, nothing_else_is_dropped, parse_undoes_build,
    plain_text, trailing_bytes_are_ignored, transparent,
};

verus! {

/// The pipe that a command goes through.
#[derive(Debug)]
pub enum Link {
    Tcp,
    Serial { path: String },
}

/// What a `Link` holds.
pub enum LinkView {
    Tcp,
    Serial { path: Seq<char> },
}

impl Link {
    pub open spec fn view(&self) -> LinkView {
        match self {
            Link::Tcp => LinkView::Tcp,
            Link::Serial { path } => LinkView::Serial { path: path@ },
        }
    }
}

/// How far an exchange has come.
#[derive(Debug, Clone, Copy, PartialEq, Eq, Structural)]
pub enum Stage {
    /// Opening the link.
    Opening,
    /// Writing the ENQ that some BroadPOS builds want first.
    Enquiring,
    /// Writing the request.
    Sending,
    /// Reading the response.
    Reading,
    /// Over.
    Done,
}

/// A command on the wire.
#[derive(Debug)]
pub struct Exchange {
    pub link: Link,
    pub request: Vec<u8>,
    pub expected: Option<String>,
    pub timeout_ms: u64,
    pub send_enq: bool,
    pub stage: Stage,
    /// What was read so far.
    pub buf: Vec<u8>,
    /// Whether anything was read.
    pub heard: bool,
    /// Whether a cancel was pushed down the link.
    pub cancel_pushed: bool,
}

/// What an `Exchange` holds.
pub struct ExchangeView {
    pub link: LinkView,
    pub request: Seq<u8>,
    pub expected: Option<Seq<char>>,
    pub timeout_ms: u64,
    pub send_enq: bool,
    pub stage: Stage,
    pub buf: Seq<u8>,
    pub heard: bool,
    pub cancel_pushed: bool,
}

/// What the I/O layer reports.
#[derive(Debug)]
pub enum Event {
    /// The link is open.
    Opened,
    /// The link could not be opened.
    OpenFailed(IoFault),
    /// What was to be written is written.
    Written,
    /// It could not be written.
    WriteFailed(IoFault),
    /// These bytes came in, none where the peer has closed a TCP connection or
    /// a serial read ended empty.
    Received(Vec<u8>),
    /// The read failed.
    ReadFailed(IoFault),
    /// The time for the exchange is up.
    TimeUp,
    /// A cancel frame is to be pushed down the link.
    Cancel(Vec<u8>),
}

/// What an `Event` holds.
pub enum EventView {
    Opened,
    OpenFailed(IoKind, Seq<char>),
    Written,
    WriteFailed(IoKind, Seq<char>),
    Received(Seq<u8>),
    ReadFailed(IoKind, Seq<char>),
    TimeUp,
    Cancel(Seq<u8>),
}

impl Event {
    pub open spec fn view(&self) -> EventView {
        match self {
            Event::Opened => EventView::Opened,
            Event::OpenFailed(f) => EventView::OpenFailed(f.kind, f.text@),
            Event::Written => EventView::Written,
            Event::WriteFailed(f) => EventView::WriteFailed(f.kind, f.text@),
            Event::Received(b) => EventView::Received(b@),
            Event::ReadFailed(f) => EventView::ReadFailed(f.kind, f.text@),
            Event::TimeUp => EventView::TimeUp,
            Event::Cancel(b) => EventView::Cancel(b@),
        }
    }
}

/// What is to be done next.
#[derive(Debug)]
pub enum Action {
    /// Open the link.
    Open,
    /// Write these bytes and report.
    Write(Vec<u8>),
    /// Write these bytes, wait a moment and report.
    WriteAndPause(Vec<u8>),
    /// Write these bytes, whatever comes of it, and read on.
    Push(Vec<u8>),
    /// Read some bytes and report.
    Read,
    /// Write these bytes, whatever comes of it, and end with the response.
    Accept(Vec<u8>, ParsedResponse),
    /// End with an error.
    Fail(PaxError),
    /// Nothing.
    Idle,
}

/// What an `Action` holds.
pub enum ActionView {
    Open,
    Write(Seq<u8>),
    WriteAndPause(Seq<u8>),
    Push(Seq<u8>),
    Read,
    Accept(Seq<u8>, ParsedView),
    Fail(PaxErrorView),
    Idle,
}

impl Action {
    pub open spec fn view(&self) -> ActionView {
        match self {
            Action::Open => ActionView::Open,
            Action::Write(b) => ActionView::Write(b@),
            Action::WriteAndPause(b) => ActionView::WriteAndPause(b@),
            Action::Push(b) => ActionView::Push(b@),
            Action::Read => ActionView::Read,
            Action::Accept(b, p) => ActionView::Accept(b@, p@),
            Action::Fail(e) => ActionView::Fail(e@),
            Action::Idle => ActionView::Idle,
        }
    }
}

/// The next thing to do, and the state to tell the lifecycle hook first.
#[derive(Debug)]
pub struct Step {
    pub state: Option<&'static str>,
    pub action: Action,
}

/// What a `Step` holds.
pub struct StepView {
    pub state: Option<Seq<char>>,
    pub action: ActionView,
}

impl Step {
    pub open spec fn view(&self) -> StepView {
        StepView { state: crate::json::opt_str(self.state), action: self.action@ }
    }
}

/// A step that tells nobody.
pub open spec fn quiet(action: ActionView) -> StepView {
    StepView { state: None, action }
}

/// A step that tells the hook first.
pub open spec fn telling(state: Seq<char>, action: ActionView) -> StepView {
    StepView { state: Some(state), action }
}

// ---------------------------------------------------------------------------
// What failures are reported as
// ---------------------------------------------------------------------------

/// The error of a link that could not be opened.
pub open spec fn opening_error(link: LinkView, kind: IoKind, text: Seq<char>) -> PaxErrorView {
    match link {
        LinkView::Tcp => connect_error(kind, text),
        LinkView::Serial { path } => open_error(path, text),
    }
}

/// The error of a failed write, of the ENQ or of the request.
pub open spec fn write_error(link: LinkView, enquiring: bool, text: Seq<char>) -> PaxErrorView {
    match link {
        LinkView::Tcp => PaxErrorView {
            cause: Some(text),
            ..pax_error(
                "WRITE_FAILED"@,
                if enquiring {
                    "Failed to write ENQ"@
                } else {
                    "Failed to write to terminal"@
                },
            )
        },
        LinkView::Serial { path } => {
            let msg = if enquiring {
                "Failed to write ENQ: "@ + text
            } else {
                "Failed to write to "@ + path + ": "@ + text
            };
            runtime_error(path, msg, lowercase(msg))
        },
    }
}

/// The error of a failed read.
pub open spec fn read_error(link: LinkView, text: Seq<char>) -> PaxErrorView {
    match link {
        LinkView::Tcp => pax_error("SOCKET_ERROR"@, "Socket error: "@ + text),
        LinkView::Serial { path } => runtime_error(path, text, lowercase(text)),
    }
}

/// The error of a connection that ended too early.
pub open spec fn closed_error() -> PaxErrorView {
    pax_error(
        "CONNECTION_CLOSED"@,
        "Terminal closed the connection before a full response"@,
    )
}

/// The error of an exchange whose time was up.
pub open spec fn timeout_error(timeout_ms: u64) -> PaxErrorView {
    pax_error(
        "TIMEOUT"@,
        "No complete response within "@ + decimal(timeout_ms as nat) + "ms"@,
    )
}

/// The error of a response to something else.
pub open spec fn unexpected_error(
    expected: Seq<char>,
    got: Seq<char>,
    raw: Seq<char>,
) -> PaxErrorView {
    PaxErrorView {
        raw: Some(JsonView::Str(raw)),
        ..pax_error(
            "UNEXPECTED_RESPONSE"@,
            "Expected "@ + expected + " response, got \""@ + got + "\""@,
        )
    }
}

// ---------------------------------------------------------------------------
// What the bytes read mean
// ---------------------------------------------------------------------------

/// Whether the first frame is the terminal's answer to a cancel.
pub open spec fn answers_cancel(buf: Seq<u8>) -> bool {
    complete(buf) && (parsed(buf) matches Ok(p) && text_at(p.fields, 0) == "A15"@)
}

/// What is left once the answers to a pushed cancel in front are taken away.
pub open spec fn after_cancel_answers(buf: Seq<u8>, cancel_pushed: bool) -> Seq<u8>
    decreases buf.len(),
{
    if cancel_pushed && answers_cancel(buf) {
        proof {
            frame_end_in_buffer(buf);
        }
        after_cancel_answers(buf.skip(frame_end(buf) + 2), cancel_pushed)
    } else {
        buf
    }
}

/// What a frame means to someone who expects a certain response.
pub open spec fn judged(buf: Seq<u8>, expected: Option<Seq<char>>) -> Result<
    ParsedView,
    PaxErrorView,
> {
    match parsed(buf) {
        Err(e) => Err(e),
        Ok(p) => {
            let got = text_at(p.fields, 0);
            match expected {
                Some(code) => if got != code {
                    Err(unexpected_error(code, got, p.raw))
                } else {
                    Ok(p)
                },
                None => Ok(p),
            }
        },
    }
}

/// What the bytes read so far come to: nothing until the frame is whole.
pub open spec fn verdict(
    buf: Seq<u8>,
    expected: Option<Seq<char>>,
    cancel_pushed: bool,
) -> Option<Result<ParsedView, PaxErrorView>> {
    let rest = after_cancel_answers(buf, cancel_pushed);
    if complete(rest) {
        Some(judged(rest, expected))
    } else {
        None
    }
}

// ---------------------------------------------------------------------------
// The exchange
// ---------------------------------------------------------------------------

/// An exchange that has not begun.
pub open spec fn fresh(
    link: LinkView,
    request: Seq<u8>,
    expected: Option<Seq<char>>,
    timeout_ms: u64,
    send_enq: bool,
) -> ExchangeView {
    ExchangeView {
        link,
        request,
        expected,
        timeout_ms,
        send_enq,
        stage: Stage::Opening,
        buf: Seq::empty(),
        heard: false,
        cancel_pushed: false,
    }
}

impl ExchangeView {
    pub open spec fn to(self, stage: Stage) -> ExchangeView {
        ExchangeView { stage, ..self }
    }

    /// Ends the exchange with an error.
    pub open spec fn failing(self, e: PaxErrorView) -> (ExchangeView, StepView) {
        (self.to(Stage::Done), quiet(ActionView::Fail(e)))
    }

    /// The exchange with more bytes read.
    pub open spec fn hearing(self, bytes: Seq<u8>) -> ExchangeView {
        ExchangeView {
            buf: after_cancel_answers(self.buf + bytes, self.cancel_pushed),
            heard: true,
            ..self
        }
    }

    /// What follows when bytes come in.
    pub open spec fn received(self, bytes: Seq<u8>) -> (ExchangeView, StepView) {
        if bytes.len() == 0 {
            match self.link {
                LinkView::Tcp => self.failing(closed_error()),
                LinkView::Serial { .. } => (self, quiet(ActionView::Read)),
            }
        } else {
            let next = self.hearing(bytes);
            let state = if self.heard {
                None
            } else {
                Some("RECEIVING"@)
            };
            match verdict(self.buf + bytes, self.expected, self.cancel_pushed) {
                None => (next, StepView { state, action: ActionView::Read }),
                Some(Ok(p)) => (
                    next.to(Stage::Done),
                    StepView { state, action: ActionView::Accept(seq![ACK], p) },
                ),
                Some(Err(e)) => (
                    next.to(Stage::Done),
                    StepView { state, action: ActionView::Fail(e) },
                ),
            }
        }
    }

    /// What follows an event. An event that does not belong to the stage is
    /// left alone.
    pub open spec fn next(self, event: EventView) -> (ExchangeView, StepView) {
        match (self.stage, event) {
            (Stage::Done, _) => (self, quiet(ActionView::Idle)),
            (_, EventView::TimeUp) => self.failing(timeout_error(self.timeout_ms)),
            (Stage::Opening, EventView::Opened) => if self.send_enq {
                (self.to(Stage::Enquiring), quiet(ActionView::WriteAndPause(seq![ENQ])))
            } else {
                (self.to(Stage::Sending), quiet(ActionView::Write(self.request)))
            },
            (Stage::Opening, EventView::OpenFailed(kind, text)) => self.failing(
                opening_error(self.link, kind, text),
            ),
            (Stage::Enquiring, EventView::Written) => (
                self.to(Stage::Sending),
                quiet(ActionView::Write(self.request)),
            ),
            (Stage::Enquiring, EventView::WriteFailed(_, text)) => self.failing(
                write_error(self.link, true, text),
            ),
            (Stage::Sending, EventView::Written) => (
                self.to(Stage::Reading),
                telling("WAITING"@, ActionView::Read),
            ),
            (Stage::Sending, EventView::WriteFailed(_, text)) => self.failing(
                write_error(self.link, false, text),
            ),
            (Stage::Reading, EventView::Received(bytes)) => self.received(bytes),
            (Stage::Reading, EventView::ReadFailed(kind, text)) => if self.link is Serial
                && kind is TimedOut {
                (self, quiet(ActionView::Read))
            } else {
                self.failing(read_error(self.link, text))
            },
            (Stage::Reading, EventView::Cancel(frame)) => match self.link {
                LinkView::Tcp => (
                    ExchangeView { cancel_pushed: true, ..self },
                    quiet(ActionView::Push(frame)),
                ),
                LinkView::Serial { .. } => (self, quiet(ActionView::Read)),
            },
            _ => (self, quiet(ActionView::Idle)),
        }
    }
}

/// Explains an exchange whose time was up.
pub fn timed_out(timeout_ms: u64) -> (e: PaxError)
    ensures
        e@ == timeout_error(timeout_ms),
{
    let message = "No complete response within ".to_owned().concat(
        decimal_u64(timeout_ms).as_str(),
    ).concat("ms");
    PaxError::new("TIMEOUT", message)
}

fn quiet_step(action: Action) -> (s: Step)
    ensures
        s@ == quiet(action@),
{
    Step { state: None, action }
}

impl Exchange {
    pub open spec fn view(&self) -> ExchangeView {
        ExchangeView {
            link: self.link@,
            request: self.request@,
            expected: opt_text(self.expected),
            timeout_ms: self.timeout_ms,
            send_enq: self.send_enq,
            stage: self.stage,
            buf: self.buf@,
            heard: self.heard,
            cancel_pushed: self.cancel_pushed,
        }
    }

    /// Begins an exchange. `expected` is the response code that answers the
    /// request.
    pub fn begin(
        link: Link,
        request: Vec<u8>,
        expected: Option<String>,
        timeout_ms: u64,
        send_enq: bool,
    ) -> (r: (Exchange, Step))
        ensures
            r.0@ == fresh(link@, request@, opt_text(expected), timeout_ms, send_enq),
            r.1@ == telling("SENDING"@, ActionView::Open),
    {
        let exchange = Exchange {
            link,
            request,
            expected,
            timeout_ms,
            send_enq,
            stage: Stage::Opening,
            buf: Vec::new(),
            heard: false,
            cancel_pushed: false,
        };
        (exchange, Step { state: Some("SENDING"), action: Action::Open })
    }

    fn fail(&mut self, e: PaxError) -> (s: Step)
        ensures
            (final(self)@, s@) == old(self)@.failing(e@),
    {
        self.stage = Stage::Done;
        quiet_step(Action::Fail(e))
    }

    fn write_failure(&self, enquiring: bool, text: &String) -> (e: PaxError)
        ensures
            e@ == write_error(self.link@, enquiring, text@),
    {
        match &self.link {
            Link::Tcp => {
                let message = if enquiring {
                    "Failed to write ENQ".to_owned()
                } else {
                    "Failed to write to terminal".to_owned()
                };
                PaxError::new("WRITE_FAILED", message).with_cause(text.clone())
            },
            Link::Serial { path } => {
                let msg = if enquiring {
                    "Failed to write ENQ: ".to_owned().concat(text.as_str())
                } else {
                    "Failed to write to ".to_owned().concat(path.as_str()).concat(": ").concat(
                        text.as_str(),
                    )
                };
                classify_runtime_err(path.as_str(), msg.as_str())
            },
        }
    }

    fn drop_cancel_answers(&mut self)
        ensures
            final(self)@ == (ExchangeView {
                buf: after_cancel_answers(old(self)@.buf, old(self)@.cancel_pushed),
                ..old(self)@
            }),
    {
        if !self.cancel_pushed {
            return;
        }
        let ghost whole = self.buf@;
        let ghost rest = self@;
        loop
            invariant
                self.cancel_pushed,
                self@ == (ExchangeView { buf: self.buf@, ..rest }),
                after_cancel_answers(self.buf@, true) == after_cancel_answers(whole, true),
            ensures
                self.cancel_pushed,
                self@ == (ExchangeView { buf: self.buf@, ..rest }),
                self.buf@ == after_cancel_answers(whole, true),
            decreases self.buf@.len(),
        {
            if !has_complete_frame(self.buf.as_slice()) {
                break;
            }
            let is_answer = match parse_response(self.buf.as_slice()) {
                Ok(p) => same_text(at(&p.fields, 0).as_str(), "A15"),
                Err(_) => false,
            };
            if !is_answer {
                break;
            }
            proof {
                frame_end_in_buffer(self.buf@);
            }
            let end = first_frame_len(self.buf.as_slice());
            let mut left: Vec<u8> = Vec::new();
            left.extend_from_slice(&self.buf.as_slice()[end..self.buf.len()]);
            assert(left@ =~= self.buf@.skip(end as int));
            self.buf = left;
        }
    }

    fn judge(&self, parsed_frame: ParsedResponse) -> (r: Result<ParsedResponse, PaxError>)
        ensures
            raw_view(r) == (match opt_text(self.expected) {
                Some(code) => if text_at(parsed_frame@.fields, 0) != code {
                    Err(
                        unexpected_error(
                            code,
                            text_at(parsed_frame@.fields, 0),
                            parsed_frame@.raw,
                        ),
                    )
                } else {
                    Ok(parsed_frame@)
                },
                None => Ok(parsed_frame@),
            }),
    {
        match &self.expected {
            Some(code) => {
                let got = at(&parsed_frame.fields, 0);
                if same_text(got.as_str(), code.as_str()) {
                    Ok(parsed_frame)
                } else {
                    let message = "Expected ".to_owned().concat(code.as_str()).concat(
                        " response, got \"",
                    ).concat(got.as_str()).concat("\"");
                    Err(
                        PaxError::new("UNEXPECTED_RESPONSE", message).with_raw(
                            Json::Str(parsed_frame.raw),
                        ),
                    )
                }
            },
            None => Ok(parsed_frame),
        }
    }

    fn receive(&mut self, bytes: Vec<u8>) -> (s: Step)
        ensures
            (final(self)@, s@) == old(self)@.received(bytes@),
    {
        if bytes.len() == 0 {
            return match &self.link {
                Link::Tcp => self.fail(
                    PaxError::new(
                        "CONNECTION_CLOSED",
                        "Terminal closed the connection before a full response".to_owned(),
                    ),
                ),
                Link::Serial { .. } => quiet_step(Action::Read),
            };
        }
        let state: Option<&'static str> = if self.heard {
            None
        } else {
            Some("RECEIVING")
        };
        let ghost before = self@;
        self.heard = true;
        self.buf.extend_from_slice(bytes.as_slice());
        assert(self.buf@ =~= before.buf + bytes@);
        self.drop_cancel_answers();
        if !has_complete_frame(self.buf.as_slice()) {
            return Step { state, action: Action::Read };
        }
        self.stage = Stage::Done;
        let outcome = match parse_response(self.buf.as_slice()) {
            Ok(p) => self.judge(p),
            Err(e) => Err(e),
        };
        match outcome {
            Ok(p) => {
                let mut ack: Vec<u8> = Vec::new();
                ack.push(ACK);
                assert(ack@ =~= seq![ACK]);
                Step { state, action: Action::Accept(ack, p) }
            },
            Err(e) => Step { state, action: Action::Fail(e) },
        }
    }

    /// Takes in what the I/O layer reports and says what to do next.
    pub fn on(&mut self, event: Event) -> (s: Step)
        ensures
            (final(self)@, s@) == old(self)@.next(event@),
    {
        match self.stage {
            Stage::Done => {
                return quiet_step(Action::Idle);
            },
            _ => {},
        }
        if let Event::TimeUp = event {
            let e = timed_out(self.timeout_ms);
            return self.fail(e);
        }
        match self.stage {
            Stage::Opening => match event {
                Event::Opened => {
                    if self.send_enq {
                        self.stage = Stage::Enquiring;
                        let mut enq: Vec<u8> = Vec::new();
                        enq.push(ENQ);
                        assert(enq@ =~= seq![ENQ]);
                        quiet_step(Action::WriteAndPause(enq))
                    } else {
                        self.stage = Stage::Sending;
                        quiet_step(Action::Write(copy_bytes(&self.request)))
                    }
                },
                Event::OpenFailed(fault) => {
                    let e = match &self.link {
                        Link::Tcp => map_connect_err(&fault),
                        Link::Serial { path } => classify_open_err(
                            path.as_str(),
                            fault.text.as_str(),
                        ),
                    };
                    self.fail(e)
                },
                _ => quiet_step(Action::Idle),
            },
            Stage::Enquiring => match event {
                Event::Written => {
                    self.stage = Stage::Sending;
                    quiet_step(Action::Write(copy_bytes(&self.request)))
                },
                Event::WriteFailed(fault) => {
                    let e = self.write_failure(true, &fault.text);
                    self.fail(e)
                },
                _ => quiet_step(Action::Idle),
            },
            Stage::Sending => match event {
                Event::Written => {
                    self.stage = Stage::Reading;
                    Step { state: Some("WAITING"), action: Action::Read }
                },
                Event::WriteFailed(fault) => {
                    let e = self.write_failure(false, &fault.text);
                    self.fail(e)
                },
                _ => quiet_step(Action::Idle),
            },
            Stage::Reading => match event {
                Event::Received(bytes) => self.receive(bytes),
                Event::ReadFailed(fault) => self.read_failure(fault),
                Event::Cancel(message) => self.push_cancel(message),
                _ => quiet_step(Action::Idle),
            },
            Stage::Done => quiet_step(Action::Idle),
        }
    }

    fn read_failure(&mut self, fault: IoFault) -> (s: Step)
        ensures
            (final(self)@, s@) == (if old(self)@.link is Serial && fault.kind is TimedOut {
                (old(self)@, quiet(ActionView::Read))
            } else {
                old(self)@.failing(read_error(old(self)@.link, fault.text@))
            }),
    {
        let timed_out = match fault.kind {
            IoKind::TimedOut => true,
            _ => false,
        };
        let e = match &self.link {
            Link::Tcp => PaxError::new(
                "SOCKET_ERROR",
                "Socket error: ".to_owned().concat(fault.text.as_str()),
            ),
            Link::Serial { path } => {
                if timed_out {
                    return quiet_step(Action::Read);
                }
                classify_runtime_err(path.as_str(), fault.text.as_str())
            },
        };
        self.fail(e)
    }

    fn push_cancel(&mut self, message: Vec<u8>) -> (s: Step)
        ensures
            (final(self)@, s@) == (match old(self)@.link {
                LinkView::Tcp => (
                    ExchangeView { cancel_pushed: true, ..old(self)@ },
                    quiet(ActionView::Push(message@)),
                ),
                LinkView::Serial { .. } => (old(self)@, quiet(ActionView::Read)),
            }),
    {
        match &self.link {
            Link::Tcp => {
                self.cancel_pushed = true;
                quiet_step(Action::Push(message))
            },
            Link::Serial { .. } => quiet_step(Action::Read),
        }
    }
}

fn copy_bytes(v: &Vec<u8>) -> (r: Vec<u8>)
    ensures
        r@ == v@,
{
    let mut r: Vec<u8> = Vec::new();
    r.extend_from_slice(v.as_slice());
    assert(r@ =~= v@);
    r
}

// ---------------------------------------------------------------------------
// Laws
// ---------------------------------------------------------------------------

/// Once the bytes read have come to a verdict, bytes that follow do not change
/// it: however the response is cut into reads, the outcome is the same.
pub proof fn verdict_is_final(
    buf: Seq<u8>,
    rest: Seq<u8>,
    expected: Option<Seq<char>>,
    cancel_pushed: bool,
)
    requires
        verdict(buf, expected, cancel_pushed) is Some,
    ensures
        verdict(buf + rest, expected, cancel_pushed) == verdict(buf, expected, cancel_pushed),
    decreases buf.len(),
{
    if cancel_pushed && answers_cancel(buf) {
        frame_end_in_buffer(buf);
        trailing_bytes_are_ignored(buf, rest);
        frame_end_stays(buf, rest);
        let n = frame_end(buf) + 2;
        verdict_is_final(buf.skip(n), rest, expected, cancel_pushed);
        assert((buf + rest).skip(n) =~= buf.skip(n) + rest);
    } else {
        trailing_bytes_are_ignored(buf, rest);
    }
}

/// Two reads in a row come to what one read of both would have come to, unless
/// the first already settled the matter.
pub proof fn reads_add_up(
    first: Seq<u8>,
    second: Seq<u8>,
    expected: Option<Seq<char>>,
    cancel_pushed: bool,
)
    ensures
        verdict(
            after_cancel_answers(first, cancel_pushed) + second,
            expected,
            cancel_pushed,
        ) == verdict(first + second, expected, cancel_pushed),
    decreases first.len(),
{
    if cancel_pushed && answers_cancel(first) {
        frame_end_in_buffer(first);
        trailing_bytes_are_ignored(first, second);
        frame_end_stays(first, second);
        let n = frame_end(first) + 2;
        reads_add_up(first.skip(n), second, expected, cancel_pushed);
        assert((first + second).skip(n) =~= first.skip(n) + second);
    }
}

/// It does not matter how the terminal's bytes are cut into reads: two reads in
/// a row end as one read of both would have, and where the first read already
/// ended the exchange, so would the read of both, in the same way.
pub proof fn cuts_do_not_matter(x: ExchangeView, first: Seq<u8>, second: Seq<u8>)
    requires
        x.stage is Reading,
        first.len() > 0,
        second.len() > 0,
    ensures
        ({
            let (after, step) = x.next(EventView::Received(first));
            let whole = x.next(EventView::Received(first + second)).1;
            if step.action is Read {
                after.next(EventView::Received(second)).1.action == whole.action
            } else {
                step.action == whole.action
            }
        }),
{
    let heard = x.buf + first;
    assert(x.buf + (first + second) =~= heard + second);
    if verdict(heard, x.expected, x.cancel_pushed) is Some {
        verdict_is_final(heard, second, x.expected, x.cancel_pushed);
    } else {
        reads_add_up(heard, second, x.expected, x.cancel_pushed);
    }
}

/// An exchange that is over stays over, whatever is still reported.
pub proof fn done_stays_done(x: ExchangeView, event: EventView)
    requires
        x.stage is Done,
    ensures
        x.next(event) == (x, quiet(ActionView::Idle)),
{
}

/// An exchange is over exactly when it has accepted a response or failed.
pub proof fn ends_with_an_outcome(x: ExchangeView, event: EventView)
    requires
        !(x.stage is Done),
    ensures
        ({
            let (after, step) = x.next(event);
            after.stage is Done <==> (step.action is Accept || step.action is Fail)
        }),
{
}

/// Whatever it is waiting for, an exchange ends when its time is up.
pub proof fn time_up_ends_it(x: ExchangeView)
    requires
        !(x.stage is Done),
    ensures
        x.next(EventView::TimeUp).0.stage is Done,
        x.next(EventView::TimeUp).1.action == ActionView::Fail(timeout_error(x.timeout_ms)),
{
}

/// The request goes out once, after the link is open and the ENQ, where one is
/// wanted, is written: a write of the request means that the stage before was
/// an earlier one, and no later event leads back.
pub proof fn request_is_written_once(x: ExchangeView, event: EventView)
    ensures
        ({
            let (after, step) = x.next(event);
            &&& step.action is Write ==> step.action == ActionView::Write(x.request) && (
            x.stage is Opening || x.stage is Enquiring) && after.stage is Sending
            &&& (x.stage is Sending || x.stage is Reading || x.stage is Done) ==> !(
            after.stage is Opening || after.stage is Enquiring)
            &&& (x.stage is Reading || x.stage is Done) ==> !(after.stage is Sending)
            &&& after.request == x.request
        }),
{
}

/// What the terminal writes is what is understood: the response frame of some
/// fields, the first of which is the expected code, is accepted with those
/// fields.
pub proof fn reply_is_understood(
    x: ExchangeView,
    fields: Seq<crate::protocol::FieldView>,
    code: Seq<char>,
)
    requires
        x.stage is Reading,
        x.buf.len() == 0,
        !x.cancel_pushed,
        x.expected == Some(code),
        fields.len() >= 1,
        forall|i: int|
            0 <= i < fields.len() ==> transparent(#[trigger] fields[i]),
        fields[0] == crate::protocol::FieldView::Single(code),
        crate::protocol::command_code(code),
    ensures
        ({
            let message = crate::protocol::frame(
                vstd::utf8::encode_utf8(crate::protocol::body_text(fields)),
            );
            x.next(EventView::Received(message)).1.action == ActionView::Accept(
                seq![ACK],
                ParsedView {
                    fields: crate::protocol::wire_fields(fields),
                    raw: crate::protocol::body_text(fields),
                },
            )
        }),
{
    let message = crate::protocol::frame(
        vstd::utf8::encode_utf8(crate::protocol::body_text(fields)),
    );
    parse_undoes_build(fields);
    let parts = crate::protocol::wire_fields(fields);
    assert(parts[0] == code);
    assert(!crate::numeral::is_digit(code[0]));
    assert(!crate::protocol::app_index(parts[0]));
    assert(x.buf + message =~= message);
}

/// A cancel that was pushed while a sale waits does not disturb it: the
/// terminal's answer to the cancel is passed over, and the response to the sale
/// that follows is taken as if it had come alone.
pub proof fn cancel_answer_is_passed_over(
    answer: Seq<u8>,
    response: Seq<u8>,
    expected: Option<Seq<char>>,
)
    requires
        answers_cancel(answer),
        answer.len() == frame_end(answer) + 2,
    ensures
        verdict(answer, expected, true) is None,
        verdict(answer + response, expected, true) == verdict(response, expected, true),
{
    frame_end_in_buffer(answer);
    let n = frame_end(answer) + 2;
    trailing_bytes_are_ignored(answer, response);
    frame_end_stays(answer, response);
    assert((answer + response).skip(n) =~= response);
    let none = Seq::<u8>::empty();
    assert(answer.skip(n) =~= none);
    assert(!complete(none));
    assert(after_cancel_answers(none, true) == none);
}

/// What the terminal writes is what is understood, with or without a number in
/// front: an exchange that expects a code accepts the reply that begins with it,
/// acknowledges with the byte 0x06, and hands on the fields of the reply.
pub proof fn reply_with_index_is_understood(
    x: ExchangeView,
    n: Seq<char>,
    code: Seq<char>,
    rest: Seq<FieldView>,
)
    requires
        x.stage is Reading,
        x.buf.len() == 0,
        !x.cancel_pushed,
        x.expected == Some(code),
        digits_only(n),
        letter_digit_digit(code),
        forall|i: int| 0 <= i < rest.len() ==> plain_text((#[trigger] rest[i]).wire()),
    ensures
        ({
            let reply = seq![FieldView::Single(code)] + rest;
            let bare = frame(encode_utf8(body_text(reply)));
            let indexed = frame(encode_utf8(body_text(seq![FieldView::Single(n)] + reply)));
            let fields = seq![code] + wire_fields(rest);
            &&& x.next(EventView::Received(bare)).1.action matches ActionView::Accept(ack, p)
                && ack == seq![0x06u8] && p.fields == fields
            &&& x.next(EventView::Received(indexed)).1.action matches ActionView::Accept(ack, p)
                && ack == seq![0x06u8] && p.fields == fields
        }),
{
    let reply = seq![FieldView::Single(code)] + rest;
    let bare = frame(encode_utf8(body_text(reply)));
    let indexed = frame(encode_utf8(body_text(seq![FieldView::Single(n)] + reply)));
    index_in_front_is_dropped(n, code, rest);
    assert(!digits_only(code)) by {
        assert(code[0] > '9');
    }
    assert forall|i: int| 0 <= i < reply.len() implies plain_text((#[trigger] reply[i]).wire()) by {
        if i == 0 {
            lemma_code_is_plain(code);
        } else {
            assert(reply[i] == rest[i - 1]);
        }
    }
    assert(reply[0].wire() == code);
    nothing_else_is_dropped(reply);
    lemma_message_is_whole(reply);
    assert(x.buf + bare =~= bare);
    assert(x.buf + indexed =~= indexed);
    assert(wire_fields(reply) =~= seq![code] + wire_fields(rest));
}

proof fn lemma_code_is_plain(code: Seq<char>)
    requires
        letter_digit_digit(code),
    ensures
        plain_text(code),
{
    if code.contains('\u{3}') {
        let k = choose|k: int| 0 <= k < code.len() && code[k] == '\u{3}';
        assert(code[0] >= '0' && code[1] >= '0' && code[2] >= '0');
    }
    if code.contains('\u{1c}') {
        let k = choose|k: int| 0 <= k < code.len() && code[k] == '\u{1c}';
        assert(code[0] >= '0' && code[1] >= '0' && code[2] >= '0');
    }
}

proof fn lemma_message_is_whole(fields: Seq<FieldView>)
    requires
        fields.len() >= 1,
        forall|i: int| 0 <= i < fields.len() ==> plain_text((#[trigger] fields[i]).wire()),
    ensures
        complete(frame(encode_utf8(body_text(fields)))),
{
    assert forall|i: int| 0 <= i < fields.len() implies transparent(#[trigger] fields[i]) by {
        assert(plain_text(fields[i].wire()));
    }
    parse_undoes_build(fields);
}

/// A reply to something else ends the exchange: where the reply begins with
/// another code than the one expected, the error says so.
pub proof fn other_reply_is_refused(
    x: ExchangeView,
    expected: Seq<char>,
    code: Seq<char>,
    rest: Seq<FieldView>,
)
    requires
        x.stage is Reading,
        x.buf.len() == 0,
        !x.cancel_pushed,
        x.expected == Some(expected),
        letter_digit_digit(code),
        code != expected,
        forall|i: int| 0 <= i < rest.len() ==> plain_text((#[trigger] rest[i]).wire()),
    ensures
        ({
            let text = body_text(seq![FieldView::Single(code)] + rest);
            &&& x.next(EventView::Received(frame(encode_utf8(text)))).1.action
                matches ActionView::Fail(e)
            &&& e.code == "UNEXPECTED_RESPONSE"@
            &&& e.message == "Expected "@ + expected + " response, got \""@ + code + "\""@
            &&& e.raw == Some(JsonView::Str(text))
        }),
{
    let reply = seq![FieldView::Single(code)] + rest;
    let message = frame(encode_utf8(body_text(reply)));
    assert(!digits_only(code)) by {
        assert(code[0] > '9');
    }
    assert forall|i: int| 0 <= i < reply.len() implies plain_text((#[trigger] reply[i]).wire()) by {
        if i == 0 {
            lemma_code_is_plain(code);
        } else {
            assert(reply[i] == rest[i - 1]);
        }
    }
    assert(reply[0].wire() == code);
    nothing_else_is_dropped(reply);
    lemma_message_is_whole(reply);
    assert(x.buf + message =~= message);
    assert(wire_fields(reply)[0] == code);
}

/// The terminal's answer to a cancel, a message that begins with A15, is passed
/// over where a cancel was pushed, and only there.
pub proof fn only_a_pushed_cancel_is_answered(
    rest: Seq<FieldView>,
    response: Seq<u8>,
    expected: Seq<char>,
)
    requires
        forall|i: int| 0 <= i < rest.len() ==> plain_text((#[trigger] rest[i]).wire()),
        expected != "A15"@,
    ensures
        ({
            let answer = frame(encode_utf8(body_text(seq![FieldView::Single("A15"@)] + rest)));
            &&& verdict(answer, Some(expected), true) is None
            &&& verdict(answer + response, Some(expected), true) == verdict(
                response,
                Some(expected),
                true,
            )
            &&& verdict(answer + response, Some(expected), false) matches Some(Err(e)) && e.code
                == "UNEXPECTED_RESPONSE"@
        }),
{
    let code = "A15"@;
    let reply = seq![FieldView::Single(code)] + rest;
    let answer = frame(encode_utf8(body_text(reply)));
    reveal_strlit("A15");
    assert(letter_digit_digit(code));
    assert(!digits_only(code)) by {
        assert(code[0] > '9');
    }
    assert forall|i: int| 0 <= i < reply.len() implies plain_text((#[trigger] reply[i]).wire()) by {
        if i == 0 {
            lemma_code_is_plain(code);
        } else {
            assert(reply[i] == rest[i - 1]);
        }
    }
    assert(reply[0].wire() == code);
    nothing_else_is_dropped(reply);
    lemma_message_is_whole(reply);
    assert(wire_fields(reply)[0] == code);
    assert(answers_cancel(answer));
    message_ends_its_frame(reply);
    cancel_answer_is_passed_over(answer, response, Some(expected));
    trailing_bytes_are_ignored(answer, response);
}

/// How an exchange begins: the request is written once the link is open, after
/// the byte 0x05 where that is asked for; then the reply is waited for.
pub proof fn exchange_begins(
    link: LinkView,
    request: Seq<u8>,
    expected: Option<Seq<char>>,
    timeout_ms: u64,
    send_enq: bool,
)
    ensures
        ({
            let x = fresh(link, request, expected, timeout_ms, send_enq);
            let (opened, first) = x.next(EventView::Opened);
            let (ready, second) = opened.next(EventView::Written);
            let (waiting, third) = ready.next(EventView::Written);
            &&& send_enq ==> first == quiet(ActionView::WriteAndPause(seq![0x05u8])) && second
                == quiet(ActionView::Write(request)) && third.state == Some("WAITING"@)
                && third.action is Read && waiting.stage is Reading && waiting.buf.len() == 0
                && !waiting.heard && !waiting.cancel_pushed && waiting.expected == expected
            &&& !send_enq ==> first == quiet(ActionView::Write(request)) && second.state == Some(
                "WAITING"@,
            ) && second.action is Read && ready.stage is Reading && ready.buf.len() == 0
                && !ready.heard && !ready.cancel_pushed && ready.expected == expected
        }),
{
}

/// The first bytes of a reply are announced, later ones are not; a read that
/// does not complete the reply keeps what it brought and reads on.
pub proof fn bytes_are_gathered(x: ExchangeView, bytes: Seq<u8>)
    requires
        x.stage is Reading,
        !x.cancel_pushed,
        bytes.len() > 0,
    ensures
        ({
            let (after, step) = x.next(EventView::Received(bytes));
            &&& x.heard ==> step.state is None
            &&& !x.heard ==> step.state == Some("RECEIVING"@)
            &&& after.heard
            &&& after.buf == x.buf + bytes
            &&& step.action is Read <==> !complete(x.buf + bytes)
            &&& step.action is Read ==> after.stage is Reading
        }),
{
}

/// What each failure ends an exchange with. An empty read means that the peer
/// has gone on TCP, and nothing on a serial port; there a read may also time out
/// and go on.
pub proof fn failures_have_their_codes(x: ExchangeView, kind: IoKind, text: Seq<char>)
    ensures
        !(x.stage is Done) ==> (x.next(EventView::TimeUp).1.action matches ActionView::Fail(e)
            && e.code == "TIMEOUT"@ && e.message == "No complete response within "@ + decimal(
            x.timeout_ms as nat,
        ) + "ms"@),
        x.stage is Reading && x.link is Tcp ==> (x.next(
            EventView::Received(Seq::empty()),
        ).1.action matches ActionView::Fail(e) && e.code == "CONNECTION_CLOSED"@),
        x.stage is Reading && x.link is Serial ==> x.next(EventView::Received(Seq::empty())) == (
            x,
            quiet(ActionView::Read),
        ),
        x.stage is Reading && x.link is Tcp ==> (x.next(
            EventView::ReadFailed(kind, text),
        ).1.action matches ActionView::Fail(e) && e.code == "SOCKET_ERROR"@ && e.message
            == "Socket error: "@ + text),
        x.stage is Reading && x.link is Serial && kind is TimedOut ==> x.next(
            EventView::ReadFailed(kind, text),
        ) == (x, quiet(ActionView::Read)),
        x.stage is Reading && x.link is Serial && !(kind is TimedOut) ==> (x.next(
            EventView::ReadFailed(kind, text),
        ).1.action matches ActionView::Fail(e) && (e.code == "SERIAL_ERROR"@ || e.code
            == "SERIAL_OPEN_FAILED"@)),
        (x.stage is Sending || x.stage is Enquiring) && x.link is Tcp ==> (x.next(
            EventView::WriteFailed(kind, text),
        ).1.action matches ActionView::Fail(e) && e.code == "WRITE_FAILED"@ && e.cause == Some(
            text,
        )),
        (x.stage is Sending || x.stage is Enquiring) && x.link is Serial ==> (x.next(
            EventView::WriteFailed(kind, text),
        ).1.action matches ActionView::Fail(e) && (e.code == "SERIAL_ERROR"@ || e.code
            == "SERIAL_OPEN_FAILED"@)),
        x.stage is Opening && x.link is Serial ==> (x.next(
            EventView::OpenFailed(kind, text),
        ).1.action matches ActionView::Fail(e) && e.code == "SERIAL_OPEN_FAILED"@),
        x.stage is Opening && x.link is Tcp ==> (x.next(
            EventView::OpenFailed(kind, text),
        ).1.action matches ActionView::Fail(e) && e.cause == Some(text) && e.code == (match kind {
            IoKind::ConnectionRefused => "CONNECTION_REFUSED"@,
            IoKind::TimedOut => "TIMEOUT"@,
            IoKind::HostUnreachable => "HOST_UNREACHABLE"@,
            IoKind::NetworkUnreachable => "HOST_UNREACHABLE"@,
            IoKind::Other => "SOCKET_ERROR"@,
        })),
{
}

/// A cancel is pushed down a TCP connection that waits for a reply, and the
/// exchange goes on; a serial port takes none.
pub proof fn cancel_goes_down_the_connection(x: ExchangeView, message: Seq<u8>)
    requires
        x.stage is Reading,
    ensures
        x.link is Tcp ==> x.next(EventView::Cancel(message)) == (
            ExchangeView { cancel_pushed: true, ..x },
            quiet(ActionView::Push(message)),
        ),
        x.link is Serial ==> x.next(EventView::Cancel(message)) == (x, quiet(ActionView::Read)),
{
}

/// What a whole reply comes to: one that cannot be read ends the exchange with
/// the reason; one that can is accepted where any reply is, and where its first
/// field is the code expected.
pub proof fn whole_reply_ends_it(x: ExchangeView, bytes: Seq<u8>)
    requires
        x.stage is Reading,
        !x.cancel_pushed,
        bytes.len() > 0,
        complete(x.buf + bytes),
    ensures
        ({
            let (after, step) = x.next(EventView::Received(bytes));
            &&& after.stage is Done
            &&& parsed(x.buf + bytes) matches Err(e) ==> step.action == ActionView::Fail(e)
            &&& parsed(x.buf + bytes) matches Ok(p) ==> x.expected is None ==> step.action
                == ActionView::Accept(seq![0x06u8], p)
            &&& parsed(x.buf + bytes) matches Ok(p) ==> x.expected matches Some(code) ==> (
            step.action is Accept <==> p.fields.len() > 0 && p.fields[0] == code || p.fields.len()
                == 0 && code.len() == 0)
            &&& parsed(x.buf + bytes) matches Ok(p) ==> step.action is Accept ==> step.action
                == ActionView::Accept(seq![0x06u8], p)
        }),
{
    if let Ok(p) = parsed(x.buf + bytes) {
        if let Some(code) = x.expected {
            if p.fields.len() == 0 {
                assert(text_at(p.fields, 0) =~= Seq::<char>::empty());
                if code.len() == 0 {
                    assert(code =~= Seq::<char>::empty());
                }
            }
        }
    }
}

/// What does not belong to the stage of an exchange changes nothing.
pub proof fn stray_events_change_nothing(x: ExchangeView, event: EventView)
    requires
        match x.stage {
            Stage::Opening => !(event is Opened || event is OpenFailed || event is TimeUp),
            Stage::Enquiring => !(event is Written || event is WriteFailed || event is TimeUp),
            Stage::Sending => !(event is Written || event is WriteFailed || event is TimeUp),
            Stage::Reading => !(event is Received || event is ReadFailed || event is Cancel
                || event is TimeUp),
            Stage::Done => true,
        },
    ensures
        x.next(event).0 == x,
        x.next(event).1.state is None,
        x.next(event).1.action is Idle,
{
}

/// What was settled at the start of an exchange stays: the link, the request, the
/// code expected and the time allowed.
pub proof fn settings_stay(x: ExchangeView, event: EventView)
    ensures
        x.next(event).0.link == x.link,
        x.next(event).0.request == x.request,
        x.next(event).0.expected == x.expected,
        x.next(event).0.timeout_ms == x.timeout_ms,
        x.next(event).0.send_enq == x.send_enq,
{
}

/// What a failed write says, over TCP and over a serial port.
pub proof fn failed_writes_say(x: ExchangeView, kind: IoKind, text: Seq<char>, path: Seq<char>)
    ensures
        x.link is Tcp && x.stage is Sending ==> (x.next(
            EventView::WriteFailed(kind, text),
        ).1.action matches ActionView::Fail(e) && e.message == "Failed to write to terminal"@),
        x.link is Tcp && x.stage is Enquiring ==> (x.next(
            EventView::WriteFailed(kind, text),
        ).1.action matches ActionView::Fail(e) && e.message == "Failed to write ENQ"@),
        x.link == (LinkView::Serial { path }) && x.stage is Sending ==> x.next(
            EventView::WriteFailed(kind, text),
        ).1.action == ActionView::Fail(
            runtime_error(
                path,
                "Failed to write to "@ + path + ": "@ + text,
                lowercase("Failed to write to "@ + path + ": "@ + text),
            ),
        ),
        x.link == (LinkView::Serial { path }) && x.stage is Enquiring ==> x.next(
            EventView::WriteFailed(kind, text),
        ).1.action == ActionView::Fail(
            runtime_error(
                path,
                "Failed to write ENQ: "@ + text,
                lowercase("Failed to write ENQ: "@ + text),
            ),
        ),
        x.link == (LinkView::Serial { path }) && x.stage is Reading && !(kind is TimedOut)
            ==> x.next(EventView::ReadFailed(kind, text)).1.action == ActionView::Fail(
            runtime_error(path, text, lowercase(text)),
        ),
{
}

/// A pushed cancel changes nothing but that answers to it are passed over: bytes
/// that do not begin with such an answer lead to what they would have led to
/// without it, and bytes that do lead to what the rest of them leads to.
pub proof fn pushed_cancel_changes_nothing_else(
    x: ExchangeView,
    bytes: Seq<u8>,
    answer: Seq<u8>,
)
    requires
        x.stage is Reading,
        x.cancel_pushed,
        bytes.len() > 0,
        answers_cancel(answer),
        answer.len() == frame_end(answer) + 2,
    ensures
        ({
            let plain = ExchangeView { cancel_pushed: false, ..x };
            let fresh_buf = ExchangeView { buf: Seq::empty(), ..x };
            let started = ExchangeView { buf: answer, ..x };
            &&& !answers_cancel(x.buf + bytes) ==> x.next(EventView::Received(bytes)).1
                == plain.next(EventView::Received(bytes)).1
            &&& started.next(EventView::Received(bytes)).1.action == fresh_buf.next(
                EventView::Received(bytes),
            ).1.action
            &&& fresh_buf.next(EventView::Received(answer)).1.action is Read
        }),
{
    cancel_answer_is_passed_over(answer, bytes, x.expected);
    frame_end_in_buffer(answer);
    assert(Seq::<u8>::empty() + bytes =~= bytes);
    assert(Seq::<u8>::empty() + answer =~= answer);
}

}
