//! Server bootstrap: where it listens and what a taken port is reported as.
use vstd::prelude::*;
use vstd::string::StringExecFns;

use crate::numeral::{decimal, decimal_u64};

verus! {

/// The address to bind: every interface, the given port.
pub fn listen_address(port: u16) -> (s: String)
    ensures
        s@ == "0.0.0.0:"@ + decimal(port as nat),
{
    "0.0.0.0:".to_owned().concat(decimal_u64(port as u64).as_str())
}

/// What a cashier is told when the port is taken.
pub fn port_in_use_message(port: u16) -> (s: String)
    ensures
        s@ == "Port "@ + decimal(port as nat)
            + " is already in use by another program — most often a second copy of this app that is still running. Quit it (or pick a different port in Settings), then press Start."@,
{
    "Port ".to_owned().concat(decimal_u64(port as u64).as_str()).concat(
        " is already in use by another program — most often a second copy of this app that is still running. Quit it (or pick a different port in Settings), then press Start.",
    )
}

}
