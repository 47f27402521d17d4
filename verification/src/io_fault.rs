//! What the I/O layer reports of a failed operation.
use vstd::prelude::*;

verus! {

/// The kinds of I/O error that the bridge tells apart.
#[derive(Debug, Clone, Copy, PartialEq, Eq, Structural)]
pub enum IoKind {
    ConnectionRefused,
    TimedOut,
    HostUnreachable,
    NetworkUnreachable,
    Other,
}

/// A failed I/O operation: its kind and the text of the error.
#[derive(Debug)]
pub struct IoFault {
    pub kind: IoKind,
    pub text: String,
}

}
