//! Receipt printing: the transports a browser cannot reach on its own.
//!
//! The ERP builds the receipt and hands over the finished ESC/POS bytes; this
//! module says which bytes go where. Three ways to reach a printer:
//!
//!   Network   raw TCP on 9100, WiFi and Ethernet alike
//!   Serial    a COM port or tty, which is also how Bluetooth Classic pairs
//!   System    a printer installed in the OS, addressed by name
use vstd::prelude::*;
use vstd::string::StringExecFns;

use crate::io_fault::{IoFault, IoKind};
use crate::numeral::{decimal, decimal_reads_back, decimal_u64, is_digit};
use crate::protocol::{pax_error, PaxError, PaxErrorView};
use crate::serial::SerialPortInfo;
use crate::system_printer::SystemPrinter;

verus! {

/// The port virtually every network receipt printer listens on (JetDirect).
pub const DEFAULT_NETWORK_PORT: u16 = 9100;

/// Epson's factory serial rate. Overridable per printer.
pub const DEFAULT_BAUD: u32 = 38_400;

pub const DEFAULT_TIMEOUT_MS: u64 = 15_000;

// ---------------------------------------------------------------------------
// Target
// ---------------------------------------------------------------------------

/// Where to send bytes.
#[derive(Debug)]
pub enum PrintTarget {
    /// WiFi or LAN: to the printer these are the same thing.
    Network { host: String, port: Option<u16> },
    /// A wired serial printer, or a Bluetooth Classic one.
    Serial { path: String, baud_rate: Option<u32> },
    /// A printer installed in the OS.
    System { name: String },
}

/// The port of a network target.
pub open spec fn network_port(port: Option<u16>) -> u16 {
    match port {
        Some(p) => p,
        None => DEFAULT_NETWORK_PORT,
    }
}

impl PrintTarget {
    /// The text that identifies the physical printer.
    pub open spec fn key_text(&self) -> Seq<char> {
        match self {
            PrintTarget::Network { host, port } => "network:"@ + host@ + ":"@ + decimal(
                network_port(*port) as nat,
            ),
            PrintTarget::Serial { path, .. } => "serial:"@ + path@,
            PrintTarget::System { name } => "system:"@ + name@,
        }
    }

    /// Identifies the physical printer, so two receipts never interleave on it.
    pub fn key(&self) -> (s: String)
        ensures
            s@ == self.key_text(),
    {
        match self {
            PrintTarget::Network { host, port } => {
                let p: u16 = match port {
                    Some(p) => *p,
                    None => DEFAULT_NETWORK_PORT,
                };
                "network:".to_owned().concat(host.as_str()).concat(":").concat(
                    decimal_u64(p as u64).as_str(),
                )
            },
            PrintTarget::Serial { path, .. } => "serial:".to_owned().concat(path.as_str()),
            PrintTarget::System { name } => "system:".to_owned().concat(name.as_str()),
        }
    }

    /// The target with its defaults filled in.
    pub fn route(&self) -> (r: Route)
        ensures
            match (self, r) {
                (PrintTarget::Network { host, port }, Route::Network { host: h, port: p }) => h@
                    == host@ && p == network_port(*port),
                (PrintTarget::Serial { path, baud_rate }, Route::Serial { path: q, baud_rate: b }) =>
                    q@ == path@ && b == (match baud_rate {
                        Some(x) => *x,
                        None => DEFAULT_BAUD,
                    }),
                (PrintTarget::System { name }, Route::System { name: n }) => n@ == name@,
                _ => false,
            },
    {
        match self {
            PrintTarget::Network { host, port } => Route::Network {
                host: host.clone(),
                port: match port {
                    Some(p) => *p,
                    None => DEFAULT_NETWORK_PORT,
                },
            },
            PrintTarget::Serial { path, baud_rate } => Route::Serial {
                path: path.clone(),
                baud_rate: match baud_rate {
                    Some(b) => *b,
                    None => DEFAULT_BAUD,
                },
            },
            PrintTarget::System { name } => Route::System { name: name.clone() },
        }
    }
}

/// A target with its defaults filled in: what a sender needs.
#[derive(Debug)]
pub enum Route {
    Network { host: String, port: u16 },
    Serial { path: String, baud_rate: u32 },
    System { name: String },
}

// ---------------------------------------------------------------------------
// ESC/POS odds and ends
// ---------------------------------------------------------------------------

/// ESC @: reset the printer to a known state.
pub fn init_bytes() -> (r: Vec<u8>)
    ensures
        r@ == seq![0x1bu8, 0x40],
{
    let r: Vec<u8> = vec![0x1b, 0x40];
    assert(r@ =~= seq![0x1bu8, 0x40]);
    r
}

/// The full cut command.
pub open spec fn cut_command() -> Seq<u8> {
    seq![0x1du8, 0x56, 0x41, 0x10]
}

/// GS V: full cut, matching what the ERP appends.
pub fn cut_bytes() -> (r: Vec<u8>)
    ensures
        r@ == cut_command(),
{
    let r: Vec<u8> = vec![0x1d, 0x56, 0x41, 0x10];
    assert(r@ =~= cut_command());
    r
}

/// The pulse byte of a drawer kick: a quarter of the milliseconds, between 1
/// and 255.
pub open spec fn pulse_byte(pulse_ms: u32) -> u8 {
    if pulse_ms / 4 < 1 {
        1
    } else if pulse_ms / 4 > 255 {
        255
    } else {
        (pulse_ms / 4) as u8
    }
}

/// The drawer kick command.
pub open spec fn drawer_command(pin: u8, pulse_ms: u32) -> Seq<u8> {
    seq![
        0x1bu8,
        0x70,
        if pin == 1 {
            1
        } else {
            0
        },
        pulse_byte(pulse_ms),
        pulse_byte(pulse_ms),
    ]
}

/// ESC p: kick the drawer wired to the printer. `pin` 0 is the usual one
/// (PIN 2); 1 is PIN 5.
pub fn drawer_bytes(pin: u8, pulse_ms: u32) -> (r: Vec<u8>)
    ensures
        r@ == drawer_command(pin, pulse_ms),
{
    let m: u8 = if pin == 1 {
        1
    } else {
        0
    };
    let q: u32 = pulse_ms / 4;
    let t: u8 = if q < 1 {
        1
    } else if q > 255 {
        255
    } else {
        q as u8
    };
    let r: Vec<u8> = vec![0x1b, 0x70, m, t, t];
    assert(r@ =~= drawer_command(pin, pulse_ms));
    r
}

// ---------------------------------------------------------------------------
// The job
// ---------------------------------------------------------------------------

/// A receipt to print, with what goes after it.
#[derive(Debug)]
pub struct PrintJob {
    pub data: Vec<u8>,
    pub copies: u16,
    pub cut: bool,
    pub open_drawer: bool,
    pub drawer_pin: u8,
    pub drawer_pulse: u32,
    pub timeout_ms: u64,
}

impl Default for PrintJob {
    fn default() -> (r: PrintJob)
        ensures
            r.data@ == Seq::<u8>::empty(),
            r.copies == 1,
            !r.cut,
            !r.open_drawer,
            r.drawer_pin == 0,
            r.drawer_pulse == 200,
            r.timeout_ms == DEFAULT_TIMEOUT_MS,
    {
        PrintJob {
            data: Vec::new(),
            copies: 1,
            cut: false,
            open_drawer: false,
            drawer_pin: 0,
            drawer_pulse: 200,
            timeout_ms: DEFAULT_TIMEOUT_MS,
        }
    }
}

/// `n` times the same bytes.
pub open spec fn repeated(unit: Seq<u8>, n: nat) -> Seq<u8>
    decreases n,
{
    if n == 0 {
        Seq::empty()
    } else {
        repeated(unit, (n - 1) as nat) + unit
    }
}

impl PrintJob {
    /// How often the receipt is printed: at least once.
    pub open spec fn copy_count(&self) -> nat {
        if self.copies == 0 {
            1
        } else {
            self.copies as nat
        }
    }

    /// One copy: the receipt, and the cut where one is asked for.
    pub open spec fn one_copy(&self) -> Seq<u8> {
        self.data@ + (if self.cut {
            cut_command()
        } else {
            Seq::empty()
        })
    }

    /// The drawer kick where one is asked for.
    pub open spec fn drawer_part(&self) -> Seq<u8> {
        if self.open_drawer {
            drawer_command(self.drawer_pin, self.drawer_pulse)
        } else {
            Seq::empty()
        }
    }

    /// Every copy, then the drawer kick: a customer copy and a merchant copy
    /// are one sale, not two.
    pub open spec fn wire_bytes(&self) -> Seq<u8> {
        repeated(self.one_copy(), self.copy_count()) + self.drawer_part()
    }

    /// The exact bytes to put on the wire, copies and trailers included.
    pub fn payload(&self) -> (out: Vec<u8>)
        ensures
            out@ == self.wire_bytes(),
    {
        let count: u16 = if self.copies > 1 {
            self.copies
        } else {
            1
        };
        let mut out: Vec<u8> = Vec::new();
        let mut index: u16 = 0;
        while index < count
            invariant
                count == self.copy_count(),
                index <= count,
                out@ == repeated(self.one_copy(), index as nat) + (if index == count {
                    self.drawer_part()
                } else {
                    Seq::empty()
                }),
            decreases count - index,
        {
            let ghost before = out@;
            out.extend_from_slice(self.data.as_slice());
            if self.cut {
                out.extend_from_slice(cut_bytes().as_slice());
            }
            assert(out@ =~= before + self.one_copy());
            if self.open_drawer && index + 1 == count {
                out.extend_from_slice(drawer_bytes(self.drawer_pin, self.drawer_pulse).as_slice());
            }
            assert(before =~= repeated(self.one_copy(), index as nat));
            assert(out@ =~= repeated(self.one_copy(), (index + 1) as nat) + (if index + 1
                == count {
                self.drawer_part()
            } else {
                Seq::empty()
            }));
            index += 1;
        }
        out
    }
}

/// What a finished job reports.
#[derive(Debug)]
pub struct PrintOutcome {
    pub target: String,
    pub bytes: usize,
}

/// A job ready to send: the printer to hold, the way to it and the bytes.
#[derive(Debug)]
pub struct PrintPlan {
    pub key: String,
    pub payload: Vec<u8>,
    pub timeout_ms: u64,
}

/// The error of a job without bytes.
pub open spec fn empty_job_error() -> PaxErrorView {
    pax_error("PRINT_EMPTY"@, "Nothing to print — the job had no data."@)
}

/// Prepares a job for a printer. A job without any bytes is refused.
pub fn plan_print(target: &PrintTarget, job: &PrintJob) -> (r: Result<PrintPlan, PaxError>)
    ensures
        match r {
            Ok(p) => job.wire_bytes().len() > 0 && p.key@ == target.key_text() && p.payload@
                == job.wire_bytes() && p.timeout_ms == job.timeout_ms,
            Err(e) => job.wire_bytes().len() == 0 && e@ == empty_job_error(),
        },
{
    let payload = job.payload();
    if payload.is_empty() {
        return Err(
            PaxError::new("PRINT_EMPTY", "Nothing to print — the job had no data.".to_owned()),
        );
    }
    Ok(PrintPlan { key: target.key(), payload, timeout_ms: job.timeout_ms })
}

/// How sending the bytes of a job ended.
#[derive(Debug)]
pub enum SendResult {
    Sent,
    Failed(PaxError),
    TimedOut,
}

/// The error of a printer that did not take the receipt in time.
pub open spec fn print_timeout_error(timeout_ms: u64) -> PaxErrorView {
    pax_error(
        "PRINTER_TIMEOUT"@,
        "The printer did not accept the receipt within "@ + decimal(timeout_ms as nat) + "ms."@,
    )
}

/// What a job reports once its bytes were sent, refused or given up on.
pub fn finish_print(plan: PrintPlan, sent: SendResult) -> (r: Result<PrintOutcome, PaxError>)
    ensures
        match sent {
            SendResult::Sent => r matches Ok(o) && o.target@ == plan.key@ && o.bytes
                == plan.payload@.len(),
            SendResult::Failed(e) => r matches Err(x) && x@ == e@,
            SendResult::TimedOut => r matches Err(x) && x@ == print_timeout_error(plan.timeout_ms),
        },
{
    match sent {
        SendResult::Sent => Ok(PrintOutcome { bytes: plan.payload.len(), target: plan.key }),
        SendResult::Failed(e) => Err(e),
        SendResult::TimedOut => Err(
            PaxError::new(
                "PRINTER_TIMEOUT",
                "The printer did not accept the receipt within ".to_owned().concat(
                    decimal_u64(plan.timeout_ms).as_str(),
                ).concat("ms."),
            ),
        ),
    }
}

// ---------------------------------------------------------------------------
// Network: WiFi and LAN
// ---------------------------------------------------------------------------

/// The code of a network printer that cannot be reached.
pub open spec fn network_code(kind: IoKind) -> Seq<char> {
    match kind {
        IoKind::ConnectionRefused => "PRINTER_REFUSED"@,
        _ => "PRINTER_UNREACHABLE"@,
    }
}

/// The message of a network printer that cannot be reached.
pub open spec fn network_message(
    host: Seq<char>,
    port: u16,
    kind: IoKind,
    text: Seq<char>,
) -> Seq<char> {
    let p = decimal(port as nat);
    match kind {
        IoKind::ConnectionRefused => host + ":"@ + p
            + " refused the connection. The address is right but nothing is listening — check the printer is on and that port "@
            + p + " is its raw printing port."@,
        IoKind::TimedOut => host + ":"@ + p
            + " did not answer. The printer may be off, asleep, or on a different network."@,
        IoKind::HostUnreachable | IoKind::NetworkUnreachable => host
            + " is unreachable from this computer — check they are on the same network."@,
        IoKind::Other => "Could not reach "@ + host + ":"@ + p + " — "@ + text,
    }
}

/// Explains why a network printer cannot be reached.
pub fn network_error(host: &str, port: u16, fault: &IoFault) -> (e: PaxError)
    ensures
        e@ == (PaxErrorView {
            cause: Some(fault.text@),
            ..pax_error(
                network_code(fault.kind),
                network_message(host@, port, fault.kind, fault.text@),
            )
        }),
{
    let p = decimal_u64(port as u64);
    let e = match fault.kind {
        IoKind::ConnectionRefused => PaxError::new(
            "PRINTER_REFUSED",
            host.to_owned().concat(":").concat(p.as_str()).concat(
                " refused the connection. The address is right but nothing is listening — check the printer is on and that port ",
            ).concat(p.as_str()).concat(" is its raw printing port."),
        ),
        IoKind::TimedOut => PaxError::new(
            "PRINTER_UNREACHABLE",
            host.to_owned().concat(":").concat(p.as_str()).concat(
                " did not answer. The printer may be off, asleep, or on a different network.",
            ),
        ),
        IoKind::HostUnreachable | IoKind::NetworkUnreachable => PaxError::new(
            "PRINTER_UNREACHABLE",
            host.to_owned().concat(
                " is unreachable from this computer — check they are on the same network.",
            ),
        ),
        IoKind::Other => PaxError::new(
            "PRINTER_UNREACHABLE",
            "Could not reach ".to_owned().concat(host).concat(":").concat(p.as_str()).concat(
                " — ",
            ).concat(fault.text.as_str()),
        ),
    };
    e.with_cause(fault.text.clone())
}

/// The error of a network printer that dropped the receipt.
pub fn network_write_error(host: &str, port: u16, text: &str) -> (e: PaxError)
    ensures
        e@ == pax_error(
            "PRINTER_WRITE_FAILED"@,
            "Sent to "@ + host@ + ":"@ + decimal(port as nat) + " but the printer dropped it: "@
                + text@,
        ),
{
    PaxError::new(
        "PRINTER_WRITE_FAILED",
        "Sent to ".to_owned().concat(host).concat(":").concat(
            decimal_u64(port as u64).as_str(),
        ).concat(" but the printer dropped it: ").concat(text),
    )
}

// ---------------------------------------------------------------------------
// Serial: wired, and Bluetooth Classic
// ---------------------------------------------------------------------------

/// The steps of sending to a serial printer.
#[derive(Debug, Clone, Copy, PartialEq, Eq, Structural)]
pub enum SerialStep {
    Open,
    Write,
    Flush,
    Task,
}

/// The error of a serial printer, by the step that failed.
pub open spec fn serial_print_error(
    step: SerialStep,
    path: Seq<char>,
    text: Seq<char>,
) -> PaxErrorView {
    match step {
        SerialStep::Open => pax_error(
            "PRINTER_UNREACHABLE"@,
            "Could not open "@ + path
                + " — check the printer is connected and no other program is holding the port: "@
                + text,
        ),
        SerialStep::Write => pax_error(
            "PRINTER_WRITE_FAILED"@,
            "Failed writing to "@ + path + ": "@ + text,
        ),
        SerialStep::Flush => pax_error(
            "PRINTER_WRITE_FAILED"@,
            "Failed flushing "@ + path + ": "@ + text,
        ),
        SerialStep::Task => pax_error("PRINTER_WRITE_FAILED"@, "Serial task failed: "@ + text),
    }
}

/// Explains a failure of a serial printer.
pub fn serial_error(step: SerialStep, path: &str, text: &str) -> (e: PaxError)
    ensures
        e@ == serial_print_error(step, path@, text@),
{
    match step {
        SerialStep::Open => PaxError::new(
            "PRINTER_UNREACHABLE",
            "Could not open ".to_owned().concat(path).concat(
                " — check the printer is connected and no other program is holding the port: ",
            ).concat(text),
        ),
        SerialStep::Write => PaxError::new(
            "PRINTER_WRITE_FAILED",
            "Failed writing to ".to_owned().concat(path).concat(": ").concat(text),
        ),
        SerialStep::Flush => PaxError::new(
            "PRINTER_WRITE_FAILED",
            "Failed flushing ".to_owned().concat(path).concat(": ").concat(text),
        ),
        SerialStep::Task => PaxError::new(
            "PRINTER_WRITE_FAILED",
            "Serial task failed: ".to_owned().concat(text),
        ),
    }
}

// ---------------------------------------------------------------------------
// Discovery
// ---------------------------------------------------------------------------

/// Everything this computer can print to.
#[derive(Debug)]
pub struct DiscoveredPrinters {
    /// Printers installed in the OS, by name.
    pub system: Vec<SystemPrinter>,
    /// Serial ports, which is where wired and Bluetooth Classic printers show.
    pub serial: Vec<SerialPortInfo>,
    pub default_network_port: u16,
}

/// Gathers what could be listed. A failure to list one kind does not hide the
/// other.
pub fn discovered(
    system: Result<Vec<SystemPrinter>, PaxError>,
    serial: Result<Vec<SerialPortInfo>, PaxError>,
) -> (r: DiscoveredPrinters)
    ensures
        match system {
            Ok(v) => r.system == v,
            Err(_) => r.system@.len() == 0,
        },
        match serial {
            Ok(v) => r.serial == v,
            Err(_) => r.serial@.len() == 0,
        },
        r.default_network_port == DEFAULT_NETWORK_PORT,
{
    DiscoveredPrinters {
        system: match system {
            Ok(v) => v,
            Err(_) => Vec::new(),
        },
        serial: match serial {
            Ok(v) => v,
            Err(_) => Vec::new(),
        },
        default_network_port: DEFAULT_NETWORK_PORT,
    }
}

// ---------------------------------------------------------------------------
// Test page
// ---------------------------------------------------------------------------

/// The bytes of the test page: reset, a centred double-size title, a subtitle,
/// then left-aligned text.
pub open spec fn test_page() -> Seq<u8> {
    seq![0x1bu8, 0x40] + seq![0x1bu8, 0x61, 0x01] + seq![0x1du8, 0x21, 0x11]
        + vstd::utf8::encode_utf8("SALESGENT\n"@) + seq![0x1du8, 0x21, 0x00]
        + vstd::utf8::encode_utf8("Bridge test receipt\n"@) + seq![0x1bu8, 0x61, 0x00]
        + vstd::utf8::encode_utf8("\n"@) + vstd::utf8::encode_utf8(
        "If you can read this, the printer\n"@,
    ) + vstd::utf8::encode_utf8("is reachable and the bytes arrived\n"@)
        + vstd::utf8::encode_utf8("in one piece.\n\n"@)
}

fn push_three(out: &mut Vec<u8>, a: u8, b: u8, c: u8)
    ensures
        final(out)@ == old(out)@ + seq![a, b, c],
{
    let ghost before = out@;
    out.push(a);
    out.push(b);
    out.push(c);
    assert(out@ =~= before + seq![a, b, c]);
}

fn push_text(out: &mut Vec<u8>, text: &str)
    ensures
        final(out)@ == old(out)@ + vstd::utf8::encode_utf8(text@),
{
    let ghost before = out@;
    out.extend_from_slice(text.as_bytes());
    assert(out@ =~= before + vstd::utf8::encode_utf8(text@));
}

/// A receipt the bridge can print by itself, so a till can be proved working
/// before the ERP is involved.
pub fn test_receipt() -> (r: Vec<u8>)
    ensures
        r@ == test_page(),
{
    let mut out = init_bytes();
    push_three(&mut out, 0x1b, 0x61, 0x01);
    push_three(&mut out, 0x1d, 0x21, 0x11);
    push_text(&mut out, "SALESGENT\n");
    push_three(&mut out, 0x1d, 0x21, 0x00);
    push_text(&mut out, "Bridge test receipt\n");
    push_three(&mut out, 0x1b, 0x61, 0x00);
    push_text(&mut out, "\n");
    push_text(&mut out, "If you can read this, the printer\n");
    push_text(&mut out, "is reachable and the bytes arrived\n");
    push_text(&mut out, "in one piece.\n\n");
    out
}

// ---------------------------------------------------------------------------
// Laws
// ---------------------------------------------------------------------------

/// Jobs wait for each other exactly on one printer: two targets have the same
/// key only where they lead to the same host and port, the same serial path or
/// the same installed printer.
pub proof fn key_names_one_printer(a: PrintTarget, b: PrintTarget)
    requires
        a.key_text() == b.key_text(),
    ensures
        match (a, b) {
            (PrintTarget::Network { host: g, port: p }, PrintTarget::Network { host: h, port: q }) =>
                g@ == h@ && network_port(p) == network_port(q),
            (PrintTarget::Serial { path: p, .. }, PrintTarget::Serial { path: q, .. }) => p@ == q@,
            (PrintTarget::System { name: m }, PrintTarget::System { name: n }) => m@ == n@,
            _ => false,
        },
{
    reveal_strlit("network:");
    reveal_strlit("serial:");
    reveal_strlit("system:");
    reveal_strlit(":");
    let ka = a.key_text();
    let kb = b.key_text();
    assert(a is Network ==> ka[0] == 'n');
    assert(b is Network ==> kb[0] == 'n');
    assert(a is Serial ==> ka[0] == 's' && ka[1] == 'e');
    assert(b is Serial ==> kb[0] == 's' && kb[1] == 'e');
    assert(a is System ==> ka[0] == 's' && ka[1] == 'y');
    assert(b is System ==> kb[0] == 's' && kb[1] == 'y');
    match (a, b) {
        (PrintTarget::Network { host: g, port: p }, PrintTarget::Network { host: h, port: q }) => {
            let da = decimal(network_port(p) as nat);
            let db = decimal(network_port(q) as nat);
            decimal_reads_back(network_port(p) as nat);
            decimal_reads_back(network_port(q) as nat);
            let ca = ka.len() - da.len() - 1;
            let cb = kb.len() - db.len() - 1;
            assert(ka[ca] == ':' && kb[cb] == ':');
            if ca < cb {
                assert(ka[cb] == da[cb - ca - 1]);
                assert(is_digit(da[cb - ca - 1]));
            } else if cb < ca {
                assert(kb[ca] == db[ca - cb - 1]);
                assert(is_digit(db[ca - cb - 1]));
            }
            assert(ka.skip(ca + 1) =~= da);
            assert(kb.skip(cb + 1) =~= db);
            assert(ka.subrange(8, ca) =~= g@);
            assert(kb.subrange(8, cb) =~= h@);
        },
        (PrintTarget::Serial { path: p, .. }, PrintTarget::Serial { path: q, .. }) => {
            assert(ka.skip(7) =~= p@);
            assert(kb.skip(7) =~= q@);
        },
        (PrintTarget::System { name: m }, PrintTarget::System { name: n }) => {
            assert(ka.skip(7) =~= m@);
            assert(kb.skip(7) =~= n@);
        },
        _ => {},
    }
}

/// The drawer opens at most once, with the last copy: whatever the number of
/// copies, the bytes are those of the same job without a drawer, then one kick.
pub proof fn drawer_opens_once(job: PrintJob, closed: PrintJob)
    requires
        job.open_drawer,
        !closed.open_drawer,
        job.data@ == closed.data@,
        job.cut == closed.cut,
        job.copies == closed.copies,
    ensures
        job.wire_bytes() == closed.wire_bytes() + drawer_command(job.drawer_pin, job.drawer_pulse),
{
    assert(job.one_copy() =~= closed.one_copy());
    assert(closed.wire_bytes() =~= repeated(closed.one_copy(), closed.copy_count()));
}

/// What goes to the printer: the receipt, once for each copy and at least once,
/// with the cut 1d 56 41 10 after each where one is asked for, and then the
/// drawer kick where one is asked for.
pub proof fn copies_follow_each_other(job: PrintJob, fewer: PrintJob)
    requires
        job.data@ == fewer.data@,
        job.cut == fewer.cut,
        !job.open_drawer && !fewer.open_drawer,
    ensures
        job.copies <= 1 ==> job.wire_bytes() == job.data@ + (if job.cut {
            seq![0x1du8, 0x56, 0x41, 0x10]
        } else {
            Seq::empty()
        }),
        fewer.copies >= 1 && job.copies == fewer.copies + 1 ==> job.wire_bytes()
            == fewer.wire_bytes() + job.data@ + (if job.cut {
            seq![0x1du8, 0x56, 0x41, 0x10]
        } else {
            Seq::empty()
        }),
{
    reveal_with_fuel(repeated, 2);
    let unit = job.one_copy();
    let cut = if job.cut {
        seq![0x1du8, 0x56, 0x41, 0x10]
    } else {
        Seq::empty()
    };
    assert(cut_command() =~= seq![0x1du8, 0x56, 0x41, 0x10]);
    assert(unit =~= job.data@ + cut);
    assert(fewer.one_copy() =~= unit);
    if job.copies <= 1 {
        assert(job.copy_count() == 1);
        assert(job.wire_bytes() =~= job.data@ + cut);
    }
    if fewer.copies >= 1 && job.copies == fewer.copies + 1 {
        assert(job.wire_bytes() =~= fewer.wire_bytes() + job.data@ + cut);
    }
}

/// The drawer kick is ESC p, the pin and the length of the pulse, twice: a
/// quarter of its milliseconds, at least 1 and at most 255.
pub proof fn drawer_kick_is(pin: u8, pulse_ms: u32)
    ensures
        drawer_command(pin, pulse_ms).len() == 5,
        drawer_command(pin, pulse_ms)[0] == 0x1b,
        drawer_command(pin, pulse_ms)[1] == 0x70,
        drawer_command(pin, pulse_ms)[2] == (if pin == 1 {
            1u8
        } else {
            0u8
        }),
        drawer_command(pin, pulse_ms)[3] == drawer_command(pin, pulse_ms)[4],
        pulse_ms < 4 ==> drawer_command(pin, pulse_ms)[3] == 1,
        pulse_ms >= 1020 ==> drawer_command(pin, pulse_ms)[3] == 255,
        4 <= pulse_ms < 1024 ==> drawer_command(pin, pulse_ms)[3] * 4 <= pulse_ms < drawer_command(
            pin,
            pulse_ms,
        )[3] * 4 + 4,
{
}

/// A network printer is reached on port 9100 unless another is given. Its
/// failures tell whether it refused or could not be reached.
pub proof fn network_printers(p: u16, host: Seq<char>, text: Seq<char>)
    ensures
        network_port(None) == 9100,
        network_port(Some(p)) == p,
        network_code(IoKind::ConnectionRefused) == "PRINTER_REFUSED"@,
        network_code(IoKind::TimedOut) == "PRINTER_UNREACHABLE"@,
        network_code(IoKind::HostUnreachable) == "PRINTER_UNREACHABLE"@,
        network_code(IoKind::NetworkUnreachable) == "PRINTER_UNREACHABLE"@,
        network_code(IoKind::Other) == "PRINTER_UNREACHABLE"@,
        network_message(host, p, IoKind::Other, text) == "Could not reach "@ + host + ":"@
            + decimal(p as nat) + " — "@ + text,
        forall|kind: IoKind|
            (#[trigger] network_message(host, p, kind, text)).len() > host.len(),
{
    reveal_strlit(":");
    reveal_strlit("Could not reach ");
    reveal_strlit(" is unreachable from this computer — check they are on the same network.");
}

/// How a printer is named: by what kind of way leads to it, and where.
pub proof fn printers_are_named(target: PrintTarget)
    ensures
        target matches PrintTarget::Network { host, port } ==> target.key_text() == "network:"@
            + host@ + ":"@ + decimal(
            match port {
                Some(p) => p as nat,
                None => 9100nat,
            },
        ),
        target matches PrintTarget::Serial { path, .. } ==> target.key_text() == "serial:"@ + path@,
        target matches PrintTarget::System { name } ==> target.key_text() == "system:"@ + name@,
{
}

/// What failures of printing are reported as.
pub proof fn printing_failures(path: Seq<char>, text: Seq<char>, timeout_ms: u64)
    ensures
        serial_print_error(SerialStep::Open, path, text).code == "PRINTER_UNREACHABLE"@,
        serial_print_error(SerialStep::Write, path, text).code == "PRINTER_WRITE_FAILED"@,
        serial_print_error(SerialStep::Flush, path, text).code == "PRINTER_WRITE_FAILED"@,
        serial_print_error(SerialStep::Task, path, text).code == "PRINTER_WRITE_FAILED"@,
        serial_print_error(SerialStep::Write, path, text).message == "Failed writing to "@ + path
            + ": "@ + text,
        print_timeout_error(timeout_ms).code == "PRINTER_TIMEOUT"@,
        print_timeout_error(timeout_ms).message
            == "The printer did not accept the receipt within "@ + decimal(timeout_ms as nat)
            + "ms."@,
        empty_job_error().code == "PRINT_EMPTY"@,
{
}

/// The test page begins with a reset of the printer and says that the bytes
/// arrived.
pub proof fn test_page_says()
    ensures
        test_page().len() > 2,
        test_page()[0] == 0x1b,
        test_page()[1] == 0x40,
        exists|front: Seq<u8>, back: Seq<u8>|
            test_page() == #[trigger] (front + vstd::utf8::encode_utf8(
                "Bridge test receipt\n"@,
            ) + back),
{
    let title = seq![0x1bu8, 0x40] + seq![0x1bu8, 0x61, 0x01] + seq![0x1du8, 0x21, 0x11]
        + vstd::utf8::encode_utf8("SALESGENT\n"@) + seq![0x1du8, 0x21, 0x00];
    let middle = vstd::utf8::encode_utf8("Bridge test receipt\n"@);
    let back = seq![0x1bu8, 0x61, 0x00] + vstd::utf8::encode_utf8("\n"@)
        + vstd::utf8::encode_utf8("If you can read this, the printer\n"@)
        + vstd::utf8::encode_utf8("is reachable and the bytes arrived\n"@)
        + vstd::utf8::encode_utf8("in one piece.\n\n"@);
    assert(test_page() =~= title + middle + back);
}

}
