//! Terminal operations: which command each one sends, who is in flight where,
//! and what a cancel does.
//!
//! PAX terminals handle exactly one transaction at a time. Each terminal, keyed
//! by `tcp:ip:port` or `usb:/dev/...`, has a serialized line, so commands never
//! interleave on the wire. `is_busy` lets callers fail fast instead of queueing.
use vstd::prelude::*;
use vstd::string::StringExecFns;
use vstd::utf8::encode_utf8;

use crate::db::terminal::TerminalView;
use crate::db::Terminal;
use crate::json::{int_json, opt_str, opt_text, text_array, text_or_null, Fields, Json, JsonView, Object};
use crate::numeral::{decimal, decimal_reads_back, decimal_u64, is_digit};
use crate::protocol::requests::{credit_request, CreditInputView};
use crate::protocol::responses::{batch_of, credit_of, initialize_of, CreditView, InitializeView};
use crate::protocol::{
    body_text, build_batch_close_fields, build_cancel_fields, build_credit_fields,
    build_initialize_fields, build_message, fields_view, frame, parse_batch_response,
    parse_credit_response, parse_initialize, pax_error, response_code, response_for, BatchResponse,
    CreditFieldsInput, CreditResponse, Field, FieldView, InitializeInfo, ParsedResponse, ParsedView,
    PaxError, PaxErrorView, TXN_TYPE_RETURN, TXN_TYPE_VOID,
};
use crate::serial::{serial_port_fields, serial_ports_view, SerialPortInfo, SerialPortView};
use crate::tcp::ProbeResult;
use crate::text::{same_text, texts};
use crate::textmap::TextMap;

verus! {

// ---------------------------------------------------------------------------
// Targets
// ---------------------------------------------------------------------------

/// Where a terminal is reached.
#[derive(Debug)]
pub enum Target {
    Tcp { ip: String, port: u16 },
    Usb { path: String, baud_rate: u32 },
}

/// What a `Target` holds.
pub enum TargetView {
    Tcp { ip: Seq<char>, port: u16 },
    Usb { path: Seq<char>, baud_rate: u32 },
}

/// Where a terminal is reached: over USB where it says so, else over TCP.
pub open spec fn target_of(t: TerminalView) -> TargetView {
    if t.conn_type == "usb"@ {
        TargetView::Usb { path: t.serial_path, baud_rate: t.baud_rate }
    } else {
        TargetView::Tcp { ip: t.ip, port: t.port }
    }
}

/// The key of a target's line.
pub open spec fn target_key(t: TargetView) -> Seq<char> {
    match t {
        TargetView::Tcp { ip, port } => "tcp:"@ + ip + ":"@ + decimal(port as nat),
        TargetView::Usb { path, .. } => "usb:"@ + path,
    }
}

/// The key of a terminal's line.
pub open spec fn line_key(t: TerminalView) -> Seq<char> {
    target_key(target_of(t))
}

impl Target {
    pub open spec fn view(&self) -> TargetView {
        match self {
            Target::Tcp { ip, port } => TargetView::Tcp { ip: ip@, port: *port },
            Target::Usb { path, baud_rate } => TargetView::Usb {
                path: path@,
                baud_rate: *baud_rate,
            },
        }
    }

    /// Where a terminal is reached.
    pub fn from_terminal(t: &Terminal) -> (r: Target)
        ensures
            r@ == target_of(t@),
    {
        if same_text(t.conn_type.as_str(), "usb") {
            Target::Usb { path: t.serial_path.clone(), baud_rate: t.baud_rate }
        } else {
            Target::Tcp { ip: t.ip.clone(), port: t.port }
        }
    }

    /// The key of this target's line.
    pub fn key(&self) -> (r: String)
        ensures
            r@ == target_key(self@),
    {
        match self {
            Target::Tcp { ip, port } => "tcp:".to_owned().concat(ip.as_str()).concat(":").concat(
                decimal_u64(*port as u64).as_str(),
            ),
            Target::Usb { path, .. } => "usb:".to_owned().concat(path.as_str()),
        }
    }
}

impl Clone for Target {
    fn clone(&self) -> (t: Target)
        ensures
            t@ == self@,
    {
        match self {
            Target::Tcp { ip, port } => Target::Tcp { ip: ip.clone(), port: *port },
            Target::Usb { path, baud_rate } => Target::Usb {
                path: path.clone(),
                baud_rate: *baud_rate,
            },
        }
    }
}

// ---------------------------------------------------------------------------
// Lines: who is in flight
// ---------------------------------------------------------------------------

/// The state of one terminal's line.
#[derive(Debug, Clone, Copy, PartialEq, Eq, Structural)]
pub struct Line {
    /// Commands in flight or queued.
    pub pending: usize,
    /// Whether a command is on the wire.
    pub on_wire: bool,
    /// Whether the wait for that command was canceled.
    pub canceled: bool,
}

/// A line with nothing on it.
pub open spec fn idle() -> Line {
    Line { pending: 0, on_wire: false, canceled: false }
}

impl Line {
    /// A command on the wire counts as pending, and only such a command can be
    /// canceled.
    pub open spec fn wf(self) -> bool {
        &&& self.on_wire ==> self.pending > 0
        &&& self.canceled ==> self.on_wire
    }
}

/// The lines of all terminals.
#[derive(Debug)]
pub struct CommandBoard {
    pub lines: TextMap<Line>,
}

impl CommandBoard {
    pub open spec fn view(&self) -> Map<Seq<char>, Line> {
        self.lines@
    }

    /// Every line is in order and belongs to some terminal.
    pub open spec fn wf(&self) -> bool {
        &&& self.lines.wf()
        &&& lines_wf(self@)
    }

    /// No command anywhere.
    pub fn new() -> (b: CommandBoard)
        ensures
            b.wf(),
            b@ == Map::<Seq<char>, Line>::empty(),
    {
        CommandBoard { lines: TextMap::new() }
    }

    fn line(&self, key: &str) -> (r: Line)
        requires
            self.wf(),
        ensures
            r == line_of(self@, key@),
            r.wf(),
    {
        match self.lines.get(key) {
            Some(l) => l,
            None => Line { pending: 0, on_wire: false, canceled: false },
        }
    }

    /// Counts a command as queued for a terminal.
    pub fn enqueue(&mut self, terminal: &Terminal)
        requires
            old(self).wf(),
            line_of(old(self)@, line_key(terminal@)).pending < usize::MAX,
        ensures
            final(self).wf(),
            final(self)@ == enqueued(old(self)@, line_key(terminal@)),
    {
        let key = Target::from_terminal(terminal).key();
        let l = self.line(key.as_str());
        self.lines.set(key.as_str(), Line { pending: l.pending + 1, ..l });
    }

    /// Puts the queued command whose turn it is on the wire. Only now can it be
    /// canceled, so a cancel always meets the command actually on the wire.
    pub fn start(&mut self, key: &str)
        requires
            old(self).wf(),
            line_of(old(self)@, key@).pending > 0,
            !line_of(old(self)@, key@).on_wire,
        ensures
            final(self).wf(),
            final(self)@ == started(old(self)@, key@),
    {
        let l = self.line(key);
        self.lines.set(key, Line { pending: l.pending, on_wire: true, canceled: false });
    }

    /// Takes the command that has ended off the wire, so a later cancel can
    /// never abort an unrelated command.
    pub fn finish(&mut self, key: &str)
        requires
            old(self).wf(),
            line_of(old(self)@, key@).on_wire,
        ensures
            final(self).wf(),
            final(self)@ == finished(old(self)@, key@),
    {
        let l = self.line(key);
        self.lines.set(key, Line { pending: l.pending - 1, on_wire: false, canceled: false });
    }

    /// Forgets a queued command that gave up before its turn came.
    pub fn abandon(&mut self, key: &str)
        requires
            old(self).wf(),
            line_of(old(self)@, key@).pending > (if line_of(old(self)@, key@).on_wire {
                1int
            } else {
                0int
            }),
        ensures
            final(self).wf(),
            final(self)@ == abandoned(old(self)@, key@),
    {
        let l = self.line(key);
        self.lines.set(key, Line { pending: l.pending - 1, ..l });
    }

    /// Whether a command is on the wire of a target.
    pub fn on_wire(&self, key: &str) -> (r: bool)
        requires
            self.wf(),
        ensures
            r == line_of(self@, key@).on_wire,
    {
        self.line(key).on_wire
    }
}

/// Whether a key is that of some terminal's line.
pub open spec fn is_line_key(key: Seq<char>) -> bool {
    exists|t: TerminalView| #[trigger] line_key(t) == key
}

/// Every line is in order and belongs to some terminal.
pub open spec fn lines_wf(lines: Map<Seq<char>, Line>) -> bool {
    forall|key: Seq<char>| #[trigger]
        lines.contains_key(key) ==> lines[key].wf() && is_line_key(key)
}

/// Whether a terminal has a command in flight or queued.
pub open spec fn busy(lines: Map<Seq<char>, Line>, t: TerminalView) -> bool {
    line_of(lines, line_key(t)).pending > 0
}

/// The line of a key, idle where nothing was ever sent.
pub open spec fn line_of(lines: Map<Seq<char>, Line>, key: Seq<char>) -> Line {
    if lines.contains_key(key) {
        lines[key]
    } else {
        idle()
    }
}

/// The lines after a command was queued.
pub open spec fn enqueued(lines: Map<Seq<char>, Line>, key: Seq<char>) -> Map<Seq<char>, Line> {
    let l = line_of(lines, key);
    lines.insert(key, Line { pending: (l.pending + 1) as usize, ..l })
}

/// The lines after a queued command went on the wire.
pub open spec fn started(lines: Map<Seq<char>, Line>, key: Seq<char>) -> Map<Seq<char>, Line> {
    let l = line_of(lines, key);
    lines.insert(key, Line { pending: l.pending, on_wire: true, canceled: false })
}

/// The lines after the command on the wire ended.
pub open spec fn finished(lines: Map<Seq<char>, Line>, key: Seq<char>) -> Map<Seq<char>, Line> {
    let l = line_of(lines, key);
    lines.insert(
        key,
        Line { pending: (l.pending - 1) as usize, on_wire: false, canceled: false },
    )
}

/// The lines after a queued command gave up.
pub open spec fn abandoned(lines: Map<Seq<char>, Line>, key: Seq<char>) -> Map<Seq<char>, Line> {
    let l = line_of(lines, key);
    lines.insert(key, Line { pending: (l.pending - 1) as usize, ..l })
}

/// The lines after a cancel: the command on the wire is marked, if there is
/// one.
pub open spec fn canceled(lines: Map<Seq<char>, Line>, key: Seq<char>) -> Map<Seq<char>, Line> {
    let l = line_of(lines, key);
    if l.on_wire {
        lines.insert(key, Line { canceled: true, ..l })
    } else {
        lines
    }
}

/// Stops waiting on the in-flight command for this terminal, if any.
///
/// This is the POS-side half of a cancel: it releases whoever is awaiting the
/// terminal's reply. The command stays on the wire, and the terminal stays
/// busy. Returns false if nothing was in flight.
pub fn cancel(board: &mut CommandBoard, terminal: &Terminal) -> (r: bool)
    requires
        old(board).wf(),
    ensures
        final(board).wf(),
        r == line_of(old(board)@, line_key(terminal@)).on_wire,
        final(board)@ == canceled(old(board)@, line_key(terminal@)),
{
    let key = Target::from_terminal(terminal).key();
    let l = board.line(key.as_str());
    if l.on_wire {
        board.lines.set(key.as_str(), Line { canceled: true, ..l });
        true
    } else {
        false
    }
}

/// True if a command is already in flight or queued for this terminal.
pub fn is_busy(board: &CommandBoard, terminal: &Terminal) -> (r: bool)
    requires
        board.wf(),
    ensures
        r == busy(board@, terminal@),
{
    let key = Target::from_terminal(terminal).key();
    board.line(key.as_str()).pending > 0
}

/// True if any terminal has a command in flight or queued.
///
/// Used to hold back an automatic update and restart while a card prompt is
/// live.
pub fn any_in_flight(board: &CommandBoard) -> (r: bool)
    requires
        board.wf(),
    ensures
        r == exists|t: TerminalView| #[trigger] busy(board@, t),
{
    let mut i: usize = 0;
    while i < board.lines.entries.len()
        invariant
            board.wf(),
            i <= board.lines.entries@.len(),
            forall|k: int| 0 <= k < i ==> (#[trigger] board.lines.entries@[k]).1.pending == 0,
        decreases board.lines.entries@.len() - i,
    {
        if board.lines.entries[i].1.pending > 0 {
            proof {
                crate::textmap::lemma_entry(board.lines.entries@, i as int);
                let key = board.lines.entries@[i as int].0@;
                assert(board@.contains_key(key));
                let t = choose|t: TerminalView| #[trigger] line_key(t) == key;
                assert(busy(board@, t));
            }
            return true;
        }
        i += 1;
    }
    proof {
        assert forall|t: TerminalView| !(#[trigger] busy(board@, t)) by {
            if board@.contains_key(line_key(t)) {
                crate::textmap::lemma_key_has_entry(board.lines.entries@, line_key(t));
            }
        }
    }
    false
}

/// What a cancel is answered with when nothing is on the wire.
pub open spec fn not_in_flight() -> PaxErrorView {
    pax_error("NOT_IN_FLIGHT"@, "No command is on the wire for this terminal to cancel."@)
}

/// The frame that tells the terminal itself to abort what it is prompting for:
/// an A14, to be pushed down the connection of the command on the wire.
pub fn cancel_on_terminal(
    board: &CommandBoard,
    terminal: &Terminal,
    protocol_version: &str,
) -> (r: Result<Vec<u8>, PaxError>)
    requires
        board.wf(),
    ensures
        match r {
            Ok(message) => line_of(board@, line_key(terminal@)).on_wire && message@ == frame(
                encode_utf8(
                    body_text(
                        seq![
                            FieldView::Single("A14"@),
                            FieldView::Single(protocol_version@),
                        ],
                    ),
                ),
            ),
            Err(e) => !line_of(board@, line_key(terminal@)).on_wire && e@ == not_in_flight(),
        },
{
    let key = Target::from_terminal(terminal).key();
    if !board.on_wire(key.as_str()) {
        return Err(
            PaxError::new(
                "NOT_IN_FLIGHT",
                "No command is on the wire for this terminal to cancel.".to_owned(),
            ),
        );
    }
    let fields = build_cancel_fields(protocol_version);
    Ok(build_message(fields.as_slice()))
}

/// The error of a cancel frame that the connection did not take.
pub fn cancel_failed(cause: String) -> (e: PaxError)
    ensures
        e@ == (PaxErrorView {
            cause: Some(cause@),
            ..pax_error(
                "CANCEL_FAILED"@,
                "Could not hand the cancel to the terminal connection."@,
            )
        }),
{
    PaxError::new(
        "CANCEL_FAILED",
        "Could not hand the cancel to the terminal connection.".to_owned(),
    ).with_cause(cause)
}

// ---------------------------------------------------------------------------
// Waiting for the result
// ---------------------------------------------------------------------------

/// Where the wait for a command's result stands.
#[derive(Debug, Clone, Copy, PartialEq, Eq, Structural)]
pub enum Wait {
    /// The caller is waiting.
    Waiting,
    /// The caller was released by a cancel; a result still goes to the late
    /// handler.
    Watching,
    /// Nobody waits any more.
    Over,
}

/// What can happen to a wait.
#[derive(Debug)]
pub enum WaitEvent {
    /// The command ended with a result.
    Result(Result<ParsedResponse, PaxError>),
    /// The command ended without one.
    Dropped,
    /// The wait was canceled from the point of sale.
    Canceled,
}

/// What is to be done about it.
#[derive(Debug)]
pub enum WaitAction {
    Nothing,
    /// Answer the caller.
    Answer(Result<ParsedResponse, PaxError>),
    /// Hand the result to the late handler.
    HandLate(Result<ParsedResponse, PaxError>),
}

/// What the caller of a command without a result is told.
pub open spec fn no_result() -> PaxErrorView {
    pax_error("SOCKET_ERROR"@, "Terminal command ended without a result"@)
}

/// What the caller of a canceled command is told.
pub open spec fn canceled_error() -> PaxErrorView {
    pax_error("CANCELED"@, "Cancelled from the point of sale."@)
}

/// What a raw result holds.
pub open spec fn raw_view(r: Result<ParsedResponse, PaxError>) -> Result<ParsedView, PaxErrorView> {
    match r {
        Ok(p) => Ok(p@),
        Err(e) => Err(e@),
    }
}

/// What a `WaitEvent` holds.
pub enum WaitEventView {
    Result(Result<ParsedView, PaxErrorView>),
    Dropped,
    Canceled,
}

/// What a `WaitAction` holds.
pub enum WaitActionView {
    Nothing,
    Answer(Result<ParsedView, PaxErrorView>),
    HandLate(Result<ParsedView, PaxErrorView>),
}

impl WaitEvent {
    pub open spec fn view(&self) -> WaitEventView {
        match self {
            WaitEvent::Result(r) => WaitEventView::Result(raw_view(*r)),
            WaitEvent::Dropped => WaitEventView::Dropped,
            WaitEvent::Canceled => WaitEventView::Canceled,
        }
    }
}

impl WaitAction {
    pub open spec fn view(&self) -> WaitActionView {
        match self {
            WaitAction::Nothing => WaitActionView::Nothing,
            WaitAction::Answer(r) => WaitActionView::Answer(raw_view(*r)),
            WaitAction::HandLate(r) => WaitActionView::HandLate(raw_view(*r)),
        }
    }
}

/// How a wait goes on. Whoever waits is answered with the result; a cancel
/// answers them at once, and the result that comes later goes to the late
/// handler, where there is one.
pub open spec fn wait_next(wait: Wait, event: WaitEventView, has_late: bool) -> (
    Wait,
    WaitActionView,
) {
    match (wait, event) {
        (Wait::Waiting, WaitEventView::Result(r)) => (Wait::Over, WaitActionView::Answer(r)),
        (Wait::Waiting, WaitEventView::Dropped) => (
            Wait::Over,
            WaitActionView::Answer(Err(no_result())),
        ),
        (Wait::Waiting, WaitEventView::Canceled) => (
            if has_late {
                Wait::Watching
            } else {
                Wait::Over
            },
            WaitActionView::Answer(Err(canceled_error())),
        ),
        (Wait::Watching, WaitEventView::Result(r)) => (Wait::Over, WaitActionView::HandLate(r)),
        (Wait::Watching, WaitEventView::Dropped) => (Wait::Over, WaitActionView::Nothing),
        (Wait::Watching, WaitEventView::Canceled) => (Wait::Watching, WaitActionView::Nothing),
        (Wait::Over, _) => (Wait::Over, WaitActionView::Nothing),
    }
}

impl Wait {
    /// Takes in what happened and says what to do about it.
    pub fn on(&mut self, event: WaitEvent, has_late: bool) -> (a: WaitAction)
        ensures
            (*final(self), a@) == wait_next(*old(self), event@, has_late),
    {
        match *self {
            Wait::Waiting => match event {
                WaitEvent::Result(r) => {
                    *self = Wait::Over;
                    WaitAction::Answer(r)
                },
                WaitEvent::Dropped => {
                    *self = Wait::Over;
                    WaitAction::Answer(
                        Err(
                            PaxError::new(
                                "SOCKET_ERROR",
                                "Terminal command ended without a result".to_owned(),
                            ),
                        ),
                    )
                },
                WaitEvent::Canceled => {
                    *self = if has_late {
                        Wait::Watching
                    } else {
                        Wait::Over
                    };
                    WaitAction::Answer(
                        Err(
                            PaxError::new(
                                "CANCELED",
                                "Cancelled from the point of sale.".to_owned(),
                            ),
                        ),
                    )
                },
            },
            Wait::Watching => match event {
                WaitEvent::Result(r) => {
                    *self = Wait::Over;
                    WaitAction::HandLate(r)
                },
                WaitEvent::Dropped => {
                    *self = Wait::Over;
                    WaitAction::Nothing
                },
                WaitEvent::Canceled => WaitAction::Nothing,
            },
            Wait::Over => WaitAction::Nothing,
        }
    }
}

/// What a credit result holds.
pub open spec fn credit_view(r: Result<CreditResponse, PaxError>) -> Result<
    CreditView,
    PaxErrorView,
> {
    match r {
        Ok(c) => Ok(c@),
        Err(e) => Err(e@),
    }
}

/// Reads a raw result as that of a credit command: what the callers of sale,
/// refund and void get, and their late handlers.
pub fn credit_result(raw: Result<ParsedResponse, PaxError>) -> (r: Result<
    CreditResponse,
    PaxError,
>)
    ensures
        credit_view(r) == (match raw_view(raw) {
            Ok(p) => Ok(credit_of(p.fields)),
            Err(e) => Err(e),
        }),
{
    match raw {
        Ok(p) => Ok(parse_credit_response(&p)),
        Err(e) => Err(e),
    }
}

/// Reads a raw result as that of a ping that took `latency_ms`.
pub fn initialize_result(raw: Result<ParsedResponse, PaxError>, latency_ms: i64) -> (r: Result<
    InitializeInfo,
    PaxError,
>)
    ensures
        match r {
            Ok(info) => raw_view(raw) matches Ok(p) && info@ == (InitializeView {
                latency_ms,
                ..initialize_of(p.fields)
            }),
            Err(e) => raw_view(raw) == Err::<ParsedView, PaxErrorView>(e@),
        },
{
    match raw {
        Ok(p) => {
            let mut info = parse_initialize(&p);
            info.latency_ms = latency_ms;
            Ok(info)
        },
        Err(e) => Err(e),
    }
}

/// Reads a raw result as that of a batch close.
pub fn batch_result(raw: Result<ParsedResponse, PaxError>) -> (r: Result<BatchResponse, PaxError>)
    ensures
        match r {
            Ok(b) => raw_view(raw) matches Ok(p) && b@ == batch_of(p.fields),
            Err(e) => raw_view(raw) == Err::<ParsedView, PaxErrorView>(e@),
        },
{
    match raw {
        Ok(p) => Ok(parse_batch_response(&p)),
        Err(e) => Err(e),
    }
}

// ---------------------------------------------------------------------------
// Commands
// ---------------------------------------------------------------------------

/// A command ready for the wire: the framed request and the response code that
/// answers it.
#[derive(Debug)]
pub struct Command {
    pub request: Vec<u8>,
    pub expected: Option<&'static str>,
}

/// What a `Command` holds.
pub struct CommandView {
    pub request: Seq<u8>,
    pub expected: Option<Seq<char>>,
}

impl Command {
    pub open spec fn view(&self) -> CommandView {
        CommandView { request: self.request@, expected: opt_str(self.expected) }
    }
}

/// The command code of a field list: its first field, if that is a plain one.
pub open spec fn command_of(fields: Seq<FieldView>) -> Seq<char> {
    if fields.len() > 0 {
        match fields[0] {
            FieldView::Single(s) => s,
            FieldView::Sub(_) => Seq::empty(),
        }
    } else {
        Seq::empty()
    }
}

/// The command of a field list.
pub open spec fn framed(fields: Seq<FieldView>) -> CommandView {
    CommandView {
        request: frame(encode_utf8(body_text(fields))),
        expected: response_code(command_of(fields)),
    }
}

/// Frames a field list and looks up the response code that answers it.
pub fn make_command(fields: &Vec<Field>) -> (c: Command)
    ensures
        c@ == framed(fields_view(fields@)),
{
    let command: &str = if fields.len() > 0 {
        assert(fields_view(fields@)[0] == fields@[0]@);
        match &fields[0] {
            Field::Single(s) => s.as_str(),
            Field::Sub(_) => {
                proof {
                    reveal_strlit("");
                    assert(""@ =~= Seq::<char>::empty());
                }
                ""
            },
        }
    } else {
        proof {
            reveal_strlit("");
            assert(""@ =~= Seq::<char>::empty());
        }
        ""
    };
    Command { request: build_message(fields.as_slice()), expected: response_for(command) }
}

/// A00 initialize / ping.
pub fn initialize(protocol_version: &str) -> (c: Command)
    ensures
        c@ == framed(
            seq![FieldView::Single("A00"@), FieldView::Single(protocol_version@)],
        ),
{
    make_command(&build_initialize_fields(protocol_version))
}

/// What a sale asks for, under a configured transaction type.
pub open spec fn sale_input(
    txn_type: Seq<char>,
    amount_cents: i64,
    ecr_ref_num: Seq<char>,
    tip_cents: i64,
) -> CreditInputView {
    CreditInputView {
        txn_type,
        amount_cents,
        tip_cents,
        ecr_ref_num,
        cashier_id: Seq::empty(),
        orig_ref_num: None,
        orig_trans_num: None,
    }
}

/// What a refund asks for.
pub open spec fn refund_input(amount_cents: i64, ecr_ref_num: Seq<char>) -> CreditInputView {
    CreditInputView {
        txn_type: "03"@,
        amount_cents,
        tip_cents: 0,
        ecr_ref_num,
        cashier_id: Seq::empty(),
        orig_ref_num: None,
        orig_trans_num: None,
    }
}

/// What a void asks for.
pub open spec fn void_input(
    orig_ref_num: Seq<char>,
    ecr_ref_num: Seq<char>,
    amount_cents: i64,
    orig_trans_num: Option<Seq<char>>,
) -> CreditInputView {
    CreditInputView {
        txn_type: "04"@,
        amount_cents,
        tip_cents: 0,
        ecr_ref_num,
        cashier_id: Seq::empty(),
        orig_ref_num: Some(orig_ref_num),
        orig_trans_num,
    }
}

/// T00 sale under the configured transaction type. The amount and the tip are
/// integer cents.
pub fn sale(
    amount_cents: i64,
    ecr_ref_num: String,
    tip_cents: i64,
    txn_type: &str,
    protocol_version: &str,
) -> (c: Command)
    ensures
        c@ == framed(
            credit_request(
                sale_input(txn_type@, amount_cents, ecr_ref_num@, tip_cents),
                protocol_version@,
            ),
        ),
{
    let input = CreditFieldsInput {
        txn_type,
        amount_cents,
        tip_cents,
        ecr_ref_num,
        cashier_id: String::new(),
        orig_ref_num: None,
        orig_trans_num: None,
    };
    make_command(&build_credit_fields(input, protocol_version))
}

/// T00 return / refund.
pub fn refund(amount_cents: i64, ecr_ref_num: String, protocol_version: &str) -> (c: Command)
    ensures
        c@ == framed(credit_request(refund_input(amount_cents, ecr_ref_num@), protocol_version@)),
{
    let input = CreditFieldsInput {
        txn_type: TXN_TYPE_RETURN,
        amount_cents,
        tip_cents: 0,
        ecr_ref_num,
        cashier_id: String::new(),
        orig_ref_num: None,
        orig_trans_num: None,
    };
    make_command(&build_credit_fields(input, protocol_version))
}

/// T00 void of a previous transaction, by its original reference number.
pub fn void_transaction(
    orig_ref_num: String,
    ecr_ref_num: String,
    amount_cents: i64,
    orig_trans_num: Option<String>,
    protocol_version: &str,
) -> (c: Command)
    ensures
        c@ == framed(
            credit_request(
                void_input(orig_ref_num@, ecr_ref_num@, amount_cents, opt_text(orig_trans_num)),
                protocol_version@,
            ),
        ),
{
    let input = CreditFieldsInput {
        txn_type: TXN_TYPE_VOID,
        amount_cents,
        tip_cents: 0,
        ecr_ref_num,
        cashier_id: String::new(),
        orig_ref_num: Some(orig_ref_num),
        orig_trans_num,
    };
    make_command(&build_credit_fields(input, protocol_version))
}

/// B00 batch close / settle.
pub fn batch_close(protocol_version: &str) -> (c: Command)
    ensures
        c@ == framed(
            seq![
                FieldView::Single("B00"@),
                FieldView::Single(protocol_version@),
                FieldView::Single("00"@),
            ],
        ),
{
    make_command(&build_batch_close_fields(protocol_version))
}

// ---------------------------------------------------------------------------
// Diagnostics
// ---------------------------------------------------------------------------

/// Whether a terminal is diagnosed over USB.
pub fn is_usb(terminal: &Terminal) -> (r: bool)
    ensures
        r == (terminal@.conn_type == "usb"@),
{
    same_text(terminal.conn_type.as_str(), "usb")
}

/// The port that a TCP terminal is probed on.
pub fn probe_port(terminal: &Terminal) -> (r: u16)
    ensures
        r == (if terminal@.port != 0 {
            terminal@.port
        } else {
            10009
        }),
{
    if terminal.port != 0 {
        terminal.port
    } else {
        10009
    }
}

/// The first port with a path, from `from` on, or the number of ports.
pub open spec fn port_index(ports: Seq<SerialPortView>, path: Seq<char>, from: int) -> int
    decreases ports.len() - from,
{
    if from >= ports.len() {
        ports.len() as int
    } else if ports[from].path == path {
        from
    } else {
        port_index(ports, path, from + 1)
    }
}

/// What to do next about a USB terminal.
pub open spec fn usb_steps(present: bool) -> Seq<Seq<char>> {
    if present {
        seq![
            "Serial device is present. Run Test Connection."@,
            "In BroadPOS: External POS / ECR ON, Communication = USB, leave idle."@,
        ]
    } else {
        seq![
            "No matching USB serial device. Set Android USB to PAX POSVCOM USB MODE."@,
            "In BroadPOS: External POS / ECR ON, Communication = USB."@,
            "Replug the USB cable into this Mac, then Detect again."@,
        ]
    }
}

/// What to do next about a TCP terminal.
pub open spec fn tcp_steps(open: bool, host_reachable: bool) -> Seq<Seq<char>> {
    if open {
        seq![
            "TCP port is open — BroadPOS ECR appears to be listening. Run Test Connection."@,
        ]
    } else if host_reachable {
        seq![
            "Device is on the network but port is closed — BroadPOS ECR is not listening."@,
            "Open BroadPOS TSYS Sierra → Settings (squares) → password = today's date MMDDYYYY (try ±1 day)."@,
            "System Settings → ECR-Terminal Integration Mode → External POS."@,
            "ECR Comm Settings → Protocol Type = TCP/IP, Host Port = 10009."@,
            "Leave BroadPOS on the idle / ready screen, then Test Connection again."@,
        ]
    } else {
        seq![
            "Cannot reach this IP. Confirm the terminal Wi-Fi IP and that the Mac is on the same LAN (AP isolation off)."@,
        ]
    }
}

/// The report on a USB terminal, given the serial ports of this computer.
pub open spec fn usb_report(
    t: TerminalView,
    version: Seq<char>,
    ports: Seq<SerialPortView>,
) -> Fields {
    let at = port_index(ports, t.serial_path, 0);
    let present = at < ports.len();
    map![
        "connType"@ => JsonView::Str("usb"@),
        "protocolVersion"@ => JsonView::Str(version),
        "serialPath"@ => JsonView::Str(t.serial_path),
        "portPresent"@ => JsonView::Bool(present),
        "portsFound"@ => JsonView::Num(crate::json::unsigned_number(ports.len() as u64)),
        "matchingPort"@ => if present {
            JsonView::Obj(serial_port_fields(ports[at]))
        } else {
            JsonView::Null
        },
        "ecrLikelyListening"@ => JsonView::Bool(present),
        "nextSteps"@ => text_array(usb_steps(present))
    ]
}

/// The report on a TCP terminal, given what a probe found.
pub open spec fn tcp_report(
    t: TerminalView,
    version: Seq<char>,
    open: bool,
    host_reachable: bool,
    error: Option<Seq<char>>,
) -> Fields {
    map![
        "connType"@ => JsonView::Str("tcp"@),
        "protocolVersion"@ => JsonView::Str(version),
        "ip"@ => JsonView::Str(t.ip),
        "port"@ => int_json(if t.port != 0 { t.port as i64 } else { 10009 }),
        "hostReachable"@ => JsonView::Bool(host_reachable),
        "tcpOpen"@ => JsonView::Bool(open),
        "tcpError"@ => text_or_null(error),
        "ecrLikelyListening"@ => JsonView::Bool(open),
        "nextSteps"@ => text_array(tcp_steps(open, host_reachable))
    ]
}

fn steps(list: Vec<&str>) -> (r: Vec<String>)
    ensures
        texts(r@) == Seq::new(list@.len(), |i: int| list@[i]@),
{
    let mut r: Vec<String> = Vec::new();
    let mut i: usize = 0;
    while i < list.len()
        invariant
            i <= list@.len(),
            r@.len() == i,
            forall|k: int| 0 <= k < i ==> (#[trigger] r@[k])@ == list@[k]@,
        decreases list@.len() - i,
    {
        r.push(list[i].to_owned());
        i += 1;
    }
    assert(texts(r@) =~= Seq::new(list@.len(), |i: int| list@[i]@));
    r
}

fn find_port(ports: &Vec<SerialPortInfo>, path: &str) -> (r: usize)
    ensures
        r == port_index(serial_ports_view(ports@), path@, 0),
        r <= ports@.len(),
{
    let mut i: usize = 0;
    while i < ports.len()
        invariant
            i <= ports@.len(),
            port_index(serial_ports_view(ports@), path@, i as int) == port_index(
                serial_ports_view(ports@),
                path@,
                0,
            ),
        decreases ports@.len() - i,
    {
        assert(serial_ports_view(ports@)[i as int] == ports@[i as int]@);
        if same_text(ports[i].path.as_str(), path) {
            return i;
        }
        i += 1;
    }
    i
}

/// Diagnoses a USB terminal from the serial ports of this computer, without
/// sending a payment.
pub fn diagnose_usb(
    terminal: &Terminal,
    protocol_version: &str,
    ports: &Vec<SerialPortInfo>,
) -> (j: Json)
    ensures
        j@ == JsonView::Obj(
            usb_report(terminal@, protocol_version@, serial_ports_view(ports@)),
        ),
{
    let i = find_port(ports, terminal.serial_path.as_str());
    let present = i < ports.len();
    let matching = if present {
        assert(serial_ports_view(ports@)[i as int] == ports@[i as int]@);
        ports[i].to_json()
    } else {
        Json::Null
    };
    let next_steps = if present {
        steps(
            vec![
                "Serial device is present. Run Test Connection.",
                "In BroadPOS: External POS / ECR ON, Communication = USB, leave idle.",
            ],
        )
    } else {
        steps(
            vec![
                "No matching USB serial device. Set Android USB to PAX POSVCOM USB MODE.",
                "In BroadPOS: External POS / ECR ON, Communication = USB.",
                "Replug the USB cable into this Mac, then Detect again.",
            ],
        )
    };
    assert(texts(next_steps@) =~= usb_steps(present));
    Json::Obj(
        Object::new().put("connType", Json::of_str("usb")).put(
            "protocolVersion",
            Json::of_str(protocol_version),
        ).put("serialPath", Json::of_str(terminal.serial_path.as_str())).put(
            "portPresent",
            Json::Bool(present),
        ).put("portsFound", Json::of_unsigned(ports.len() as u64)).put(
            "matchingPort",
            matching,
        ).put("ecrLikelyListening", Json::Bool(present)).put(
            "nextSteps",
            Json::of_texts(&next_steps),
        ),
    )
}

/// Diagnoses a TCP terminal from what a probe found, without sending a payment.
/// Tells a device that is offline from one whose BroadPOS is not listening.
pub fn diagnose_tcp(terminal: &Terminal, protocol_version: &str, probe: &ProbeResult) -> (j: Json)
    ensures
        j@ == JsonView::Obj(
            tcp_report(
                terminal@,
                protocol_version@,
                probe.open,
                probe.host_reachable,
                opt_text(probe.error),
            ),
        ),
{
    let next_steps = if probe.open {
        steps(
            vec!["TCP port is open — BroadPOS ECR appears to be listening. Run Test Connection."],
        )
    } else if probe.host_reachable {
        steps(
            vec![
                "Device is on the network but port is closed — BroadPOS ECR is not listening.",
                "Open BroadPOS TSYS Sierra → Settings (squares) → password = today's date MMDDYYYY (try ±1 day).",
                "System Settings → ECR-Terminal Integration Mode → External POS.",
                "ECR Comm Settings → Protocol Type = TCP/IP, Host Port = 10009.",
                "Leave BroadPOS on the idle / ready screen, then Test Connection again.",
            ],
        )
    } else {
        steps(
            vec![
                "Cannot reach this IP. Confirm the terminal Wi-Fi IP and that the Mac is on the same LAN (AP isolation off).",
            ],
        )
    };
    assert(texts(next_steps@) =~= tcp_steps(probe.open, probe.host_reachable));
    Json::Obj(
        Object::new().put("connType", Json::of_str("tcp")).put(
            "protocolVersion",
            Json::of_str(protocol_version),
        ).put("ip", Json::of_str(terminal.ip.as_str())).put(
            "port",
            Json::of_int(probe_port(terminal) as i64),
        ).put("hostReachable", Json::Bool(probe.host_reachable)).put(
            "tcpOpen",
            Json::Bool(probe.open),
        ).put("tcpError", Json::of_option(&probe.error)).put(
            "ecrLikelyListening",
            Json::Bool(probe.open),
        ).put("nextSteps", Json::of_texts(&next_steps)),
    )
}

// ---------------------------------------------------------------------------
// Laws
// ---------------------------------------------------------------------------

/// What can happen on the lines.
pub enum LineEvent {
    /// A command is queued for a terminal.
    Queued(TerminalView),
    /// A queued command goes on the wire.
    Started(TerminalView),
    /// The wait for the command on the wire is canceled.
    Canceled(TerminalView),
    /// The command on the wire ends.
    Finished(TerminalView),
    /// A queued command gives up.
    Abandoned(TerminalView),
}

impl LineEvent {
    /// The key of the line it happens on.
    pub open spec fn key(self) -> Seq<char> {
        match self {
            LineEvent::Queued(t) => line_key(t),
            LineEvent::Started(t) => line_key(t),
            LineEvent::Canceled(t) => line_key(t),
            LineEvent::Finished(t) => line_key(t),
            LineEvent::Abandoned(t) => line_key(t),
        }
    }

    /// Whether it can happen in a state of the lines.
    pub open spec fn possible(self, lines: Map<Seq<char>, Line>) -> bool {
        let l = line_of(lines, self.key());
        match self {
            LineEvent::Queued(_) => l.pending < usize::MAX,
            LineEvent::Started(_) => l.pending > 0 && !l.on_wire,
            LineEvent::Canceled(_) => true,
            LineEvent::Finished(_) => l.on_wire,
            LineEvent::Abandoned(_) => l.pending > (if l.on_wire {
                1int
            } else {
                0int
            }),
        }
    }

    /// The lines after it.
    pub open spec fn after(self, lines: Map<Seq<char>, Line>) -> Map<Seq<char>, Line> {
        match self {
            LineEvent::Queued(t) => enqueued(lines, line_key(t)),
            LineEvent::Started(t) => started(lines, line_key(t)),
            LineEvent::Canceled(t) => canceled(lines, line_key(t)),
            LineEvent::Finished(t) => finished(lines, line_key(t)),
            LineEvent::Abandoned(t) => abandoned(lines, line_key(t)),
        }
    }
}

/// The lines after a run of events from an empty board.
pub open spec fn line_run(events: Seq<LineEvent>) -> Map<Seq<char>, Line>
    decreases events.len(),
{
    if events.len() == 0 {
        Map::empty()
    } else {
        events.last().after(line_run(events.drop_last()))
    }
}

/// Whether each event of a run can happen when its turn comes.
pub open spec fn possible_run(events: Seq<LineEvent>) -> bool
    decreases events.len(),
{
    events.len() == 0 || (possible_run(events.drop_last()) && events.last().possible(
        line_run(events.drop_last()),
    ))
}

/// The commands of a line that were queued and have not ended: neither finished
/// nor given up.
pub open spec fn open_commands(events: Seq<LineEvent>, key: Seq<char>) -> int
    decreases events.len(),
{
    if events.len() == 0 {
        0
    } else {
        open_commands(events.drop_last(), key) + (if events.last().key() != key {
            0int
        } else {
            match events.last() {
                LineEvent::Queued(_) => 1int,
                LineEvent::Finished(_) => -1int,
                LineEvent::Abandoned(_) => -1int,
                _ => 0int,
            }
        })
    }
}

/// Terminals with one target key are busy together.
pub proof fn busy_by_target(lines: Map<Seq<char>, Line>, a: TerminalView, b: TerminalView)
    requires
        target_key(target_of(a)) == target_key(target_of(b)),
    ensures
        busy(lines, a) == busy(lines, b),
{
}

/// A terminal is busy exactly while a command for its target was queued and has
/// not ended.
pub proof fn busy_counts_open_commands(events: Seq<LineEvent>, t: TerminalView)
    requires
        possible_run(events),
    ensures
        lines_wf(line_run(events)),
        busy(line_run(events), t) <==> open_commands(events, line_key(t)) > 0,
{
    lemma_pending_counts(events, line_key(t));
}

/// No terminal is busy before the first command, nor once every command has
/// ended.
pub proof fn nobody_busy_when_all_has_ended(events: Seq<LineEvent>)
    requires
        possible_run(events),
        forall|t: TerminalView| #[trigger] open_commands(events, line_key(t)) == 0,
    ensures
        forall|t: TerminalView| !(#[trigger] busy(Map::empty(), t)),
        forall|t: TerminalView| !(#[trigger] busy(line_run(events), t)),
{
    assert forall|t: TerminalView| !(#[trigger] busy(line_run(events), t)) by {
        busy_counts_open_commands(events, t);
        assert(open_commands(events, line_key(t)) == 0);
    }
}

proof fn lemma_pending_counts(events: Seq<LineEvent>, key: Seq<char>)
    requires
        possible_run(events),
    ensures
        lines_wf(line_run(events)),
        line_of(line_run(events), key).pending == open_commands(events, key),
    decreases events.len(),
{
    if events.len() > 0 {
        let before = line_run(events.drop_last());
        let event = events.last();
        lemma_pending_counts(events.drop_last(), key);
        let after = event.after(before);
        assert(is_line_key(event.key()));
        assert forall|k: Seq<char>| #[trigger] after.contains_key(k) implies after[k].wf()
            && is_line_key(k) by {
            if k != event.key() {
                assert(before.contains_key(k));
            } else {
                assert(line_of(before, k).wf());
            }
        }
    }
}

/// A cancel with nothing on the wire changes nothing.
pub proof fn cancel_with_nothing_in_flight(lines: Map<Seq<char>, Line>, key: Seq<char>)
    requires
        !line_of(lines, key).on_wire,
    ensures
        canceled(lines, key) == lines,
{
}

/// The terminal stays busy through a cancel: until its command has ended, no
/// other may be sent to it.
pub proof fn busy_through_cancel(lines: Map<Seq<char>, Line>, key: Seq<char>)
    ensures
        line_of(canceled(lines, key), key).pending == line_of(lines, key).pending,
        line_of(canceled(lines, key), key).on_wire == line_of(lines, key).on_wire,
{
}

/// Once a command has ended, a later cancel meets nothing, and the next command
/// starts uncanceled.
pub proof fn cancel_dies_with_its_command(lines: Map<Seq<char>, Line>, key: Seq<char>)
    ensures
        ({
            let after = finished(canceled(lines, key), key);
            &&& !line_of(after, key).on_wire
            &&& canceled(after, key) == after
            &&& !line_of(started(after, key), key).canceled
        }),
{
}

/// What happens on one terminal's line leaves all others as they were.
pub proof fn lines_are_apart(lines: Map<Seq<char>, Line>, key: Seq<char>, other: Seq<char>)
    requires
        key != other,
    ensures
        line_of(enqueued(lines, key), other) == line_of(lines, other),
        line_of(started(lines, key), other) == line_of(lines, other),
        line_of(canceled(lines, key), other) == line_of(lines, other),
        line_of(finished(lines, key), other) == line_of(lines, other),
        line_of(abandoned(lines, key), other) == line_of(lines, other),
{
}

/// A command that was queued, sent and ended leaves its line as it was found,
/// whether or not it was canceled on the way.
pub proof fn command_leaves_no_trace(lines: Map<Seq<char>, Line>, key: Seq<char>, cancel_it: bool)
    requires
        !line_of(lines, key).on_wire,
        !line_of(lines, key).canceled,
        line_of(lines, key).pending < usize::MAX,
    ensures
        ({
            let sent = started(enqueued(lines, key), key);
            let after = finished(
                if cancel_it {
                    canceled(sent, key)
                } else {
                    sent
                },
                key,
            );
            line_of(after, key) == line_of(lines, key)
        }),
{
}

/// Only one place has a line: two TCP targets share theirs only where address
/// and port agree, two USB targets where the path does, and a TCP target shares
/// none with a USB target.
pub proof fn lines_by_target(a: TargetView, b: TargetView)
    requires
        target_key(a) == target_key(b),
    ensures
        a is Tcp <==> b is Tcp,
        a is Tcp ==> a->ip == b->ip && a->port == b->port,
        a is Usb ==> a->path == b->path,
{
    reveal_strlit("tcp:");
    reveal_strlit("usb:");
    reveal_strlit(":");
    let ka = target_key(a);
    let kb = target_key(b);
    assert(ka[0] == (if a is Tcp {
        't'
    } else {
        'u'
    }));
    assert(kb[0] == (if b is Tcp {
        't'
    } else {
        'u'
    }));
    if a is Usb {
        assert(ka.skip(4) =~= a->path);
        assert(kb.skip(4) =~= b->path);
    } else {
        let da = decimal(a->port as nat);
        let db = decimal(b->port as nat);
        decimal_reads_back(a->port as nat);
        decimal_reads_back(b->port as nat);
        let ca = ka.len() - da.len() - 1;
        let cb = kb.len() - db.len() - 1;
        assert(ka[ca] == ':' && kb[cb] == ':');
        if ca < cb {
            assert(ka[cb] == da[cb - ca - 1]);
            assert(is_digit(da[cb - ca - 1]));
        } else if cb < ca {
            assert(kb[ca] == db[ca - cb - 1]);
            assert(is_digit(db[ca - cb - 1]));
        }
        assert(ka.skip(ca + 1) =~= da);
        assert(kb.skip(cb + 1) =~= db);
        assert(ka.subrange(4, ca) =~= a->ip);
        assert(kb.subrange(4, cb) =~= b->ip);
    }
}

/// What a caller and their late handler get to see of a run of events.
pub open spec fn wait_run(wait: Wait, events: Seq<WaitEventView>, has_late: bool) -> Seq<
    WaitActionView,
>
    decreases events.len(),
{
    if events.len() == 0 {
        Seq::empty()
    } else {
        let (next, action) = wait_next(wait, events[0], has_late);
        seq![action] + wait_run(next, events.drop_first(), has_late)
    }
}

/// The caller is answered exactly once, by the first thing that happens: the
/// result, its absence, or a cancel.
pub proof fn caller_is_answered_once(events: Seq<WaitEventView>, has_late: bool)
    requires
        events.len() > 0,
    ensures
        wait_run(Wait::Waiting, events, has_late).len() == events.len(),
        wait_run(Wait::Waiting, events, has_late)[0] is Answer,
        forall|i: int|
            0 < i < events.len() ==> !((#[trigger] wait_run(
                Wait::Waiting,
                events,
                has_late,
            )[i]) is Answer),
{
    let (next, action) = wait_next(Wait::Waiting, events[0], has_late);
    lemma_no_answer(next, events.drop_first(), has_late);
    let rest = wait_run(next, events.drop_first(), has_late);
    assert forall|i: int| 0 < i < events.len() implies !((#[trigger] wait_run(
        Wait::Waiting,
        events,
        has_late,
    )[i]) is Answer) by {
        assert((seq![action] + rest)[i] == rest[i - 1]);
    }
}

proof fn lemma_no_answer(wait: Wait, events: Seq<WaitEventView>, has_late: bool)
    requires
        !(wait is Waiting),
    ensures
        wait_run(wait, events, has_late).len() == events.len(),
        forall|i: int|
            0 <= i < events.len() ==> !((#[trigger] wait_run(wait, events, has_late)[i]) is Answer),
    decreases events.len(),
{
    if events.len() > 0 {
        let (next, action) = wait_next(wait, events[0], has_late);
        lemma_no_answer(next, events.drop_first(), has_late);
        let rest = wait_run(next, events.drop_first(), has_late);
        assert forall|i: int| 0 <= i < events.len() implies !((#[trigger] wait_run(
            wait,
            events,
            has_late,
        )[i]) is Answer) by {
            if i > 0 {
                assert((seq![action] + rest)[i] == rest[i - 1]);
            }
        }
    }
}

/// A card completed after the cancel reaches the late handler: whatever the
/// terminal finally reports is handed over, once, and the caller has already
/// been told that the wait was canceled.
pub proof fn late_result_reaches_the_handler(result: Result<ParsedView, PaxErrorView>)
    ensures
        ({
            let events = seq![WaitEventView::Canceled, WaitEventView::Result(result)];
            wait_run(Wait::Waiting, events, true) == seq![
                WaitActionView::Answer(Err(canceled_error())),
                WaitActionView::HandLate(result),
            ]
        }),
{
    reveal_with_fuel(wait_run, 3);
    let events = seq![WaitEventView::Canceled, WaitEventView::Result(result)];
    let rest = events.drop_first();
    assert(rest =~= seq![WaitEventView::Result(result)]);
    assert(rest.drop_first() =~= Seq::empty());
    assert(wait_run(Wait::Waiting, events, true) =~= seq![
        WaitActionView::Answer(Err(canceled_error())),
        WaitActionView::HandLate(result),
    ]);
}

/// Which line a terminal is on: that of its USB path where its connection type is
/// `usb`, else that of its address and port.
pub proof fn lines_are_named(t: TerminalView)
    ensures
        t.conn_type == "usb"@ ==> line_key(t) == "usb:"@ + t.serial_path,
        t.conn_type != "usb"@ ==> line_key(t) == "tcp:"@ + t.ip + ":"@ + decimal(t.port as nat),
        t.conn_type == "usb"@ ==> (target_of(t) matches TargetView::Usb { path, baud_rate } && path
            == t.serial_path && baud_rate == t.baud_rate),
        t.conn_type != "usb"@ ==> (target_of(t) matches TargetView::Tcp { ip, port } && ip == t.ip
            && port == t.port),
{
}

/// What each event does to its line: queueing adds a command, ending and giving
/// up take one away; starting puts one on the wire, uncanceled, and only its end
/// takes it off; a cancel marks the one on the wire, if there is one.
pub proof fn events_change_their_line(lines: Map<Seq<char>, Line>, key: Seq<char>)
    ensures
        ({
            let l = line_of(lines, key);
            let queued = line_of(enqueued(lines, key), key);
            let on = line_of(started(lines, key), key);
            let off = line_of(finished(lines, key), key);
            let gone = line_of(abandoned(lines, key), key);
            let marked = line_of(canceled(lines, key), key);
            &&& l.pending < usize::MAX ==> queued.pending == l.pending + 1
            &&& queued.on_wire == l.on_wire && queued.canceled == l.canceled
            &&& on.pending == l.pending && on.on_wire && !on.canceled
            &&& l.pending > 0 ==> off.pending == l.pending - 1
            &&& !off.on_wire && !off.canceled
            &&& l.pending > 0 ==> gone.pending == l.pending - 1
            &&& gone.on_wire == l.on_wire && gone.canceled == l.canceled
            &&& marked.pending == l.pending && marked.on_wire == l.on_wire
            &&& l.on_wire ==> marked.canceled
            &&& !l.on_wire ==> marked == l
        }),
{
}

/// A line that nothing was sent on has no command, on the wire or waiting.
pub proof fn unused_line_is_idle(lines: Map<Seq<char>, Line>, key: Seq<char>)
    requires
        !lines.contains_key(key),
    ensures
        line_of(lines, key).pending == 0,
        !line_of(lines, key).on_wire,
        !line_of(lines, key).canceled,
{
}

/// Who waits gets the terminal's result, or CANCELED as soon as the wait is
/// canceled, or SOCKET_ERROR where there is no result. A result after a cancel
/// goes to the late handler, where there is one, and nowhere else.
pub proof fn waits_end(r: Result<ParsedView, PaxErrorView>, has_late: bool)
    ensures
        wait_next(Wait::Waiting, WaitEventView::Result(r), has_late) == (
            Wait::Over,
            WaitActionView::Answer(r),
        ),
        wait_next(Wait::Waiting, WaitEventView::Canceled, has_late).1 matches WaitActionView::Answer(
            Err(e),
        ) && e.code == "CANCELED"@ && e.message == "Cancelled from the point of sale."@,
        wait_next(Wait::Waiting, WaitEventView::Dropped, has_late).1 matches WaitActionView::Answer(
            Err(e),
        ) && e.code == "SOCKET_ERROR"@,
        ({
            let waiting = wait_next(Wait::Waiting, WaitEventView::Canceled, has_late).0;
            let next = wait_next(waiting, WaitEventView::Result(r), has_late).1;
            &&& has_late ==> next == WaitActionView::HandLate(r)
            &&& !has_late ==> next is Nothing
        }),
        wait_next(Wait::Watching, WaitEventView::Result(r), has_late) == (
            Wait::Over,
            WaitActionView::HandLate(r),
        ),
        wait_next(Wait::Watching, WaitEventView::Dropped, has_late) == (
            Wait::Over,
            WaitActionView::Nothing,
        ),
        wait_next(Wait::Watching, WaitEventView::Canceled, has_late) == (
            Wait::Watching,
            WaitActionView::Nothing,
        ),
        forall|event: WaitEventView| #[trigger]
            wait_next(Wait::Over, event, has_late) == (Wait::Over, WaitActionView::Nothing),
{
}

/// A command carries the message of its fields, and expects the answer to the
/// first of them.
pub proof fn commands_carry_their_fields(fields: Seq<FieldView>, code: Seq<char>)
    requires
        fields.len() > 0,
        fields[0] == FieldView::Single(code),
    ensures
        framed(fields).request == frame(encode_utf8(body_text(fields))),
        code == "A00"@ ==> framed(fields).expected == Some("A01"@),
        code == "T00"@ ==> framed(fields).expected == Some("T01"@),
        code == "B00"@ ==> framed(fields).expected == Some("B01"@),
{
    crate::protocol::laws::requests_have_their_answers(code, "A01"@);
    crate::protocol::laws::requests_have_their_answers(code, "T01"@);
    crate::protocol::laws::requests_have_their_answers(code, "B01"@);
}

/// What each payment asks the terminal for: a sale the configured type and its
/// tip, a refund 03, a void 04 and the charge to take back.
pub proof fn payments_ask_for(
    txn_type: Seq<char>,
    amount: i64,
    tip: i64,
    ecr: Seq<char>,
    orig: Seq<char>,
    trans: Option<Seq<char>>,
)
    ensures
        ({
            let s = sale_input(txn_type, amount, ecr, tip);
            &&& s.txn_type == txn_type && s.amount_cents == amount && s.tip_cents == tip
            &&& s.ecr_ref_num == ecr && s.orig_ref_num is None && s.cashier_id.len() == 0
        }),
        ({
            let r = refund_input(amount, ecr);
            &&& r.txn_type == "03"@ && r.amount_cents == amount && r.tip_cents == 0
            &&& r.ecr_ref_num == ecr && r.orig_ref_num is None && r.cashier_id.len() == 0
        }),
        ({
            let v = void_input(orig, ecr, amount, trans);
            &&& v.txn_type == "04"@ && v.amount_cents == amount && v.tip_cents == 0
            &&& v.ecr_ref_num == ecr && v.orig_ref_num == Some(orig) && v.orig_trans_num == trans
            &&& v.cashier_id.len() == 0
        }),
{
}

/// What the report on a USB terminal says: whether a port with its path is there.
pub proof fn usb_report_says(
    t: TerminalView,
    version: Seq<char>,
    ports: Seq<SerialPortView>,
    k: int,
)
    ensures
        ({
            let f = usb_report(t, version, ports);
            let present = exists|i: int|
                0 <= i < ports.len() && (#[trigger] ports[i]).path == t.serial_path;
            &&& f["connType"@] == JsonView::Str("usb"@)
            &&& f["protocolVersion"@] == JsonView::Str(version)
            &&& f["serialPath"@] == JsonView::Str(t.serial_path)
            &&& f["portPresent"@] == JsonView::Bool(present)
            &&& ports.len() <= i64::MAX ==> f["portsFound"@] == JsonView::Num(
                crate::json::Number::Int(ports.len() as i64),
            )
            &&& f["ecrLikelyListening"@] == JsonView::Bool(present)
            &&& !present ==> f["matchingPort"@] is Null
            &&& 0 <= k < ports.len() && ports[k].path == t.serial_path && (forall|j: int|
                0 <= j < k ==> (#[trigger] ports[j]).path != t.serial_path) ==> f["matchingPort"@]
                == JsonView::Obj(serial_port_fields(ports[k]))
            &&& f["nextSteps"@] matches JsonView::Arr(steps) && steps.len() > 0
        }),
{
    lemma_port_first(ports, t.serial_path, 0);
    let at = port_index(ports, t.serial_path, 0);
    if at < ports.len() {
        assert(ports[at].path == t.serial_path);
    }
    lemma_report_keys();
}

proof fn lemma_port_first(ports: Seq<SerialPortView>, path: Seq<char>, from: int)
    requires
        0 <= from <= ports.len(),
    ensures
        from <= port_index(ports, path, from) <= ports.len(),
        port_index(ports, path, from) < ports.len() ==> ports[port_index(ports, path, from)].path
            == path,
        forall|k: int|
            from <= k < port_index(ports, path, from) ==> (#[trigger] ports[k]).path != path,
    decreases ports.len() - from,
{
    if from < ports.len() && ports[from].path != path {
        lemma_port_first(ports, path, from + 1);
    }
}

proof fn lemma_report_keys()
    ensures
        "connType"@.len() == 8 && "protocolVersion"@.len() == 15 && "serialPath"@.len() == 10,
        "portPresent"@.len() == 11 && "portsFound"@.len() == 10 && "matchingPort"@.len() == 12,
        "ecrLikelyListening"@.len() == 18 && "nextSteps"@.len() == 9 && "ip"@.len() == 2,
        "port"@.len() == 4 && "hostReachable"@.len() == 13 && "tcpOpen"@.len() == 7,
        "tcpError"@.len() == 8 && "tcpError"@[0] == 't' && "connType"@[0] == 'c',
        "serialPath"@[0] == 's' && "portsFound"@[0] == 'p',
{
    reveal_strlit("connType");
    reveal_strlit("protocolVersion");
    reveal_strlit("serialPath");
    reveal_strlit("portPresent");
    reveal_strlit("portsFound");
    reveal_strlit("matchingPort");
    reveal_strlit("ecrLikelyListening");
    reveal_strlit("nextSteps");
    reveal_strlit("ip");
    reveal_strlit("port");
    reveal_strlit("hostReachable");
    reveal_strlit("tcpOpen");
    reveal_strlit("tcpError");
}

/// What the report on a TCP terminal says: where it was probed, on port 10009
/// where it has none, and what the probe found.
pub proof fn tcp_report_says(
    t: TerminalView,
    version: Seq<char>,
    open: bool,
    reachable: bool,
    error: Option<Seq<char>>,
)
    ensures
        ({
            let f = tcp_report(t, version, open, reachable, error);
            &&& f["connType"@] == JsonView::Str("tcp"@)
            &&& f["protocolVersion"@] == JsonView::Str(version)
            &&& f["ip"@] == JsonView::Str(t.ip)
            &&& t.port != 0 ==> f["port"@] == JsonView::Num(
                crate::json::Number::Int(t.port as i64),
            )
            &&& t.port == 0 ==> f["port"@] == JsonView::Num(crate::json::Number::Int(10009))
            &&& f["hostReachable"@] == JsonView::Bool(reachable)
            &&& f["tcpOpen"@] == JsonView::Bool(open)
            &&& f["ecrLikelyListening"@] == JsonView::Bool(open)
            &&& error matches Some(e) ==> f["tcpError"@] == JsonView::Str(e)
            &&& error is None ==> f["tcpError"@] is Null
            &&& f["nextSteps"@] matches JsonView::Arr(steps) && steps.len() > 0
        }),
{
    lemma_report_keys();
}

/// What is to be done next differs by what was found: a port that is open, a host
/// without the port, no host; a USB port that is there or not.
pub proof fn steps_tell_cases_apart(reachable: bool)
    ensures
        tcp_steps(true, reachable).len() == 1,
        tcp_steps(true, reachable)[0]
            == "TCP port is open — BroadPOS ECR appears to be listening. Run Test Connection."@,
        tcp_steps(false, true).len() == 5,
        tcp_steps(false, true)[0]
            == "Device is on the network but port is closed — BroadPOS ECR is not listening."@,
        tcp_steps(false, false).len() == 1,
        tcp_steps(false, false)[0]
            == "Cannot reach this IP. Confirm the terminal Wi-Fi IP and that the Mac is on the same LAN (AP isolation off)."@,
        usb_steps(true).len() == 2,
        usb_steps(true)[0] == "Serial device is present. Run Test Connection."@,
        usb_steps(false).len() == 3,
        usb_steps(false)[0]
            == "No matching USB serial device. Set Android USB to PAX POSVCOM USB MODE."@,
{
}

/// A cancel of a terminal with nothing on the wire is told so.
pub proof fn nothing_to_cancel_is_told()
    ensures
        not_in_flight().code == "NOT_IN_FLIGHT"@,
        not_in_flight().message == "No command is on the wire for this terminal to cancel."@,
{
}

}
