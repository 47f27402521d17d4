//! T00 request field indexes (zero-based, top-level FS-separated body).
use vstd::prelude::*;

verus! {

pub const COMMAND: usize = 0;

pub const VERSION: usize = 1;

pub const TXN_TYPE: usize = 2;

pub const AMOUNT_INFO: usize = 3;

pub const ACCOUNT_INFO: usize = 4;

pub const TRACE_INFO: usize = 5;

pub const AVS_INFO: usize = 6;

pub const CASHIER_INFO: usize = 7;

pub const COMMERCIAL_INFO: usize = 8;

pub const MOTO_ECOMMERCE: usize = 9;

pub const ADDITIONAL_INFO: usize = 10;

}
