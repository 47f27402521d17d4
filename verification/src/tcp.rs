//! TCP link to a terminal: what its failures are reported as.
use vstd::prelude::*;
use vstd::string::StringExecFns;

use crate::io_fault::{IoFault, IoKind};
use crate::json::opt_text;
use crate::protocol::{pax_error, PaxError, PaxErrorView};

verus! {

/// The error code of a failed connection attempt.
pub open spec fn connect_code(kind: IoKind) -> Seq<char> {
    match kind {
        IoKind::ConnectionRefused => "CONNECTION_REFUSED"@,
        IoKind::TimedOut => "TIMEOUT"@,
        IoKind::HostUnreachable | IoKind::NetworkUnreachable => "HOST_UNREACHABLE"@,
        IoKind::Other => "SOCKET_ERROR"@,
    }
}

/// The message of a failed connection attempt.
pub open spec fn connect_message(kind: IoKind, text: Seq<char>) -> Seq<char> {
    match kind {
        IoKind::ConnectionRefused =>
            "Connection refused — BroadPOS is not listening (enable External POS / ECR, Comm=TCP port 10009, leave BroadPOS idle)."@,
        IoKind::TimedOut =>
            "Connection timed out — terminal may be off, asleep, or on a different network/VLAN."@,
        IoKind::HostUnreachable | IoKind::NetworkUnreachable =>
            "Host unreachable — verify the terminal IP and that it is on the same LAN/subnet as the server."@,
        IoKind::Other => "Socket error: "@ + text,
    }
}

/// The error of a failed connection attempt.
pub open spec fn connect_error(kind: IoKind, text: Seq<char>) -> PaxErrorView {
    PaxErrorView {
        cause: Some(text),
        ..pax_error(connect_code(kind), connect_message(kind, text))
    }
}

/// Maps a failed connection attempt to an error.
pub fn map_connect_err(fault: &IoFault) -> (e: PaxError)
    ensures
        e@ == connect_error(fault.kind, fault.text@),
{
    let e = match fault.kind {
        IoKind::ConnectionRefused => PaxError::new(
            "CONNECTION_REFUSED",
            "Connection refused — BroadPOS is not listening (enable External POS / ECR, Comm=TCP port 10009, leave BroadPOS idle).".to_owned(),
        ),
        IoKind::TimedOut => PaxError::new(
            "TIMEOUT",
            "Connection timed out — terminal may be off, asleep, or on a different network/VLAN.".to_owned(),
        ),
        IoKind::HostUnreachable | IoKind::NetworkUnreachable => PaxError::new(
            "HOST_UNREACHABLE",
            "Host unreachable — verify the terminal IP and that it is on the same LAN/subnet as the server.".to_owned(),
        ),
        IoKind::Other => PaxError::new(
            "SOCKET_ERROR",
            "Socket error: ".to_owned().concat(fault.text.as_str()),
        ),
    };
    e.with_cause(fault.text.clone())
}

/// How a reachability probe ended.
#[derive(Debug)]
pub enum ProbeOutcome {
    Connected,
    Failed(IoFault),
    TimedOut,
}

/// What a probe found: the port is open, the host is reachable, and the error.
#[derive(Debug)]
pub struct ProbeResult {
    pub open: bool,
    pub host_reachable: bool,
    pub error: Option<String>,
}

/// The error text that a probe outcome is reported with.
pub open spec fn probe_error(outcome: ProbeOutcome) -> Option<Seq<char>> {
    match outcome {
        ProbeOutcome::Connected => None,
        ProbeOutcome::Failed(fault) => match fault.kind {
            IoKind::ConnectionRefused => Some("ECONNREFUSED"@),
            IoKind::HostUnreachable => Some("HostUnreachable"@),
            IoKind::NetworkUnreachable => Some("NetworkUnreachable"@),
            _ => Some(fault.text@),
        },
        ProbeOutcome::TimedOut => Some("TIMEOUT"@),
    }
}

/// Reads a probe outcome. A refused connection shows that the host is there.
pub fn probe_result(outcome: &ProbeOutcome) -> (r: ProbeResult)
    ensures
        r.open == (outcome is Connected),
        r.host_reachable == (outcome is Connected || (outcome matches ProbeOutcome::Failed(f)
            && f.kind is ConnectionRefused)),
        opt_text(r.error) == probe_error(*outcome),
{
    match outcome {
        ProbeOutcome::Connected => ProbeResult { open: true, host_reachable: true, error: None },
        ProbeOutcome::Failed(fault) => match fault.kind {
            IoKind::ConnectionRefused => ProbeResult {
                open: false,
                host_reachable: true,
                error: Some("ECONNREFUSED".to_owned()),
            },
            IoKind::HostUnreachable => ProbeResult {
                open: false,
                host_reachable: false,
                error: Some("HostUnreachable".to_owned()),
            },
            IoKind::NetworkUnreachable => ProbeResult {
                open: false,
                host_reachable: false,
                error: Some("NetworkUnreachable".to_owned()),
            },
            _ => ProbeResult {
                open: false,
                host_reachable: false,
                error: Some(fault.text.clone()),
            },
        },
        ProbeOutcome::TimedOut => ProbeResult {
            open: false,
            host_reachable: false,
            error: Some("TIMEOUT".to_owned()),
        },
    }
}

// ---------------------------------------------------------------------------
// Laws
// ---------------------------------------------------------------------------

/// What a failed connection is reported as, by its kind, with the system's own
/// words as the cause.
pub proof fn connection_failures(text: Seq<char>)
    ensures
        connect_error(IoKind::ConnectionRefused, text).code == "CONNECTION_REFUSED"@,
        connect_error(IoKind::TimedOut, text).code == "TIMEOUT"@,
        connect_error(IoKind::HostUnreachable, text).code == "HOST_UNREACHABLE"@,
        connect_error(IoKind::NetworkUnreachable, text).code == "HOST_UNREACHABLE"@,
        connect_error(IoKind::Other, text).code == "SOCKET_ERROR"@,
        connect_error(IoKind::Other, text).message == "Socket error: "@ + text,
        connect_error(IoKind::HostUnreachable, text).message == connect_error(
            IoKind::NetworkUnreachable,
            text,
        ).message,
        connect_error(IoKind::ConnectionRefused, text).message
            == "Connection refused — BroadPOS is not listening (enable External POS / ECR, Comm=TCP port 10009, leave BroadPOS idle)."@,
        connect_error(IoKind::TimedOut, text).message
            == "Connection timed out — terminal may be off, asleep, or on a different network/VLAN."@,
        connect_error(IoKind::HostUnreachable, text).message
            == "Host unreachable — verify the terminal IP and that it is on the same LAN/subnet as the server."@,
        forall|kind: IoKind| (#[trigger] connect_error(kind, text)).cause == Some(text),
{
}

/// What a probe that did not connect is reported with.
pub proof fn probe_failures(fault: IoFault)
    ensures
        probe_error(ProbeOutcome::Connected) is None,
        probe_error(ProbeOutcome::TimedOut) == Some("TIMEOUT"@),
        fault.kind is ConnectionRefused ==> probe_error(ProbeOutcome::Failed(fault)) == Some(
            "ECONNREFUSED"@,
        ),
        fault.kind is HostUnreachable ==> probe_error(ProbeOutcome::Failed(fault)) == Some(
            "HostUnreachable"@,
        ),
        fault.kind is NetworkUnreachable ==> probe_error(ProbeOutcome::Failed(fault)) == Some(
            "NetworkUnreachable"@,
        ),
        fault.kind is TimedOut || fault.kind is Other ==> probe_error(ProbeOutcome::Failed(fault))
            == Some(fault.text@),
{
}

}
