//! Runtime configuration: what the environment variables mean, and where
//! configuration and data live.
//!
//! PAX_HOME (installer-provided, writable) always wins, otherwise the exe
//! folder when packaged, or the crate root in development.
use vstd::prelude::*;

use crate::json::{opt_str, opt_text};
use crate::numeral::{parse_unsigned, unsigned_of};
use crate::text::{eq_ignore_ascii_case, same_ignoring_ascii_case, trim, trimmed};

verus! {

pub const DEFAULT_PORT: u16 = 5000;

pub const DEFAULT_PING_TIMEOUT_MS: u64 = 10_000;

pub const DEFAULT_PAYMENT_TIMEOUT_MS: u64 = 120_000;

/// The configuration file written on the first run.
pub const DEFAULT_ENV: &'static str =
    "# Auto-created on first run — live BroadPOS / TSYS Sierra mode.\nPORT=5000\nPAX_PING_TIMEOUT_MS=10000\nPAX_PAYMENT_TIMEOUT_MS=120000\n";

/// A folder to take as the base of a path.
#[derive(Debug)]
pub enum BaseDir {
    /// A folder named by an environment variable.
    Given(String),
    /// The folder of the running executable.
    ExeDir,
    /// The crate root, in development.
    DevDir,
}

/// Whether an environment variable is set to more than whitespace.
pub open spec fn is_set(v: Option<Seq<char>>) -> bool {
    v matches Some(s) && trimmed(s).len() > 0
}

fn set_text(v: Option<&str>) -> (r: bool)
    ensures
        r == is_set(opt_str(v)),
{
    match v {
        Some(s) => !trim(s).as_str().is_empty(),
        None => false,
    }
}

/// Base runtime directory: PAX_HOME wins, else the exe folder of a release
/// build where it is known, else the crate root.
pub fn runtime_dir(pax_home: Option<&str>, release: bool, exe_dir_known: bool) -> (r: BaseDir)
    ensures
        match r {
            BaseDir::Given(dir) => is_set(opt_str(pax_home)) && opt_str(pax_home) == Some(dir@),
            BaseDir::ExeDir => !is_set(opt_str(pax_home)) && release && exe_dir_known,
            BaseDir::DevDir => !is_set(opt_str(pax_home)) && !(release && exe_dir_known),
        },
{
    if set_text(pax_home) {
        if let Some(home) = pax_home {
            return BaseDir::Given(home.to_owned());
        }
    }
    if release && exe_dir_known {
        BaseDir::ExeDir
    } else {
        BaseDir::DevDir
    }
}

/// Where the JSON database is stored: a base folder, or `data` under it.
#[derive(Debug)]
pub struct DataDir {
    pub base: BaseDir,
    pub data_subfolder: bool,
}

/// Where to store the JSON database: PAX_DATA_DIR itself, else `data` under
/// PAX_HOME, else `data` under the exe folder of a release build, else `data`
/// under the crate root.
pub fn resolve_data_dir(
    pax_data_dir: Option<&str>,
    pax_home: Option<&str>,
    release: bool,
    exe_dir_known: bool,
) -> (r: DataDir)
    ensures
        r.data_subfolder == !is_set(opt_str(pax_data_dir)),
        match r.base {
            BaseDir::Given(dir) => if is_set(opt_str(pax_data_dir)) {
                opt_str(pax_data_dir) == Some(dir@)
            } else {
                is_set(opt_str(pax_home)) && opt_str(pax_home) == Some(dir@)
            },
            BaseDir::ExeDir => !is_set(opt_str(pax_data_dir)) && !is_set(opt_str(pax_home))
                && release && exe_dir_known,
            BaseDir::DevDir => !is_set(opt_str(pax_data_dir)) && !is_set(opt_str(pax_home)) && !(
            release && exe_dir_known),
        },
{
    if set_text(pax_data_dir) {
        if let Some(dir) = pax_data_dir {
            return DataDir { base: BaseDir::Given(dir.to_owned()), data_subfolder: false };
        }
    }
    DataDir { base: runtime_dir(pax_home, release, exe_dir_known), data_subfolder: true }
}

/// What has to be created before the bridge can run.
#[derive(Debug, Clone, Copy, PartialEq, Eq, Structural)]
pub struct SetupSteps {
    pub create_data_dir: bool,
    pub write_env: bool,
}

/// What is missing of the data folder and the configuration file.
pub fn setup_steps(data_dir_exists: bool, env_exists: bool) -> (r: SetupSteps)
    ensures
        r.create_data_dir == !data_dir_exists,
        r.write_env == !env_exists,
{
    SetupSteps { create_data_dir: !data_dir_exists, write_env: !env_exists }
}

/// Where the bridge runs, and whether its configuration file is new.
#[derive(Debug)]
pub struct RuntimeSetup<P> {
    pub dir: P,
    pub env_path: P,
    pub data_dir: P,
    pub created_env: bool,
}

/// The setup reached once the missing pieces were tried. A folder that cannot
/// be written is no error: the built-in defaults apply.
pub fn finish_setup<P>(
    dir: P,
    env_path: P,
    data_dir: P,
    steps: SetupSteps,
    env_written: bool,
) -> (r: RuntimeSetup<P>)
    ensures
        r.dir == dir,
        r.env_path == env_path,
        r.data_dir == data_dir,
        r.created_env == (steps.write_env && env_written),
{
    RuntimeSetup { dir, env_path, data_dir, created_env: steps.write_env && env_written }
}

/// The number in an environment variable, or a default where it is missing or
/// does not read as an unsigned number up to `max`.
pub open spec fn number_or(v: Option<Seq<char>>, max: nat, default: nat) -> nat {
    match v {
        Some(s) => match unsigned_of(s, max) {
            Some(n) => n,
            None => default,
        },
        None => default,
    }
}

/// Reads a number from an environment variable.
pub fn env_u64(v: Option<&str>, default: u64) -> (r: u64)
    ensures
        r == number_or(opt_str(v), u64::MAX as nat, default as nat),
{
    match v {
        Some(s) => match parse_unsigned(s, u64::MAX) {
            Some(n) => n,
            None => default,
        },
        None => default,
    }
}

/// The port to listen on, from PORT.
pub fn port(v: Option<&str>) -> (r: u16)
    ensures
        r == number_or(opt_str(v), u16::MAX as nat, DEFAULT_PORT as nat),
{
    match v {
        Some(s) => match parse_unsigned(s, 65535) {
            Some(n) => n as u16,
            None => DEFAULT_PORT,
        },
        None => DEFAULT_PORT,
    }
}

/// How long to wait for a ping, from PAX_PING_TIMEOUT_MS.
pub fn ping_timeout_ms(v: Option<&str>) -> (r: u64)
    ensures
        r == number_or(opt_str(v), u64::MAX as nat, 10_000),
{
    env_u64(v, DEFAULT_PING_TIMEOUT_MS)
}

/// How long to wait for a payment, from PAX_PAYMENT_TIMEOUT_MS.
pub fn payment_timeout_ms(v: Option<&str>) -> (r: u64)
    ensures
        r == number_or(opt_str(v), u64::MAX as nat, 120_000),
{
    env_u64(v, DEFAULT_PAYMENT_TIMEOUT_MS)
}

/// The protocol version string sent as field #2 of most commands, from
/// PAX_PROTOCOL_VERSION. BroadPOS TSYS Sierra answers with "1.54" in A01.
pub fn protocol_version(v: Option<String>) -> (r: String)
    ensures
        r@ == (match v {
            Some(s) => s@,
            None => "1.54"@,
        }),
{
    match v {
        Some(s) => s,
        None => "1.54".to_owned(),
    }
}

/// The DoCredit transaction type used for a sale: PAX_SALE_TXN_TYPE where it
/// is set, else the one of the protocol.
pub open spec fn sale_type(v: Option<Seq<char>>) -> Seq<char> {
    match v {
        Some(s) => if trimmed(s).len() > 0 {
            s
        } else {
            "02"@
        },
        None => "02"@,
    }
}

/// The DoCredit transaction type used for a sale, from PAX_SALE_TXN_TYPE. The
/// override allows a comparison on the terminal's own screen.
pub fn sale_txn_type(v: Option<String>) -> (r: String)
    ensures
        r@ == sale_type(opt_text(v)),
{
    match v {
        Some(s) => {
            if trim(s.as_str()).as_str().is_empty() {
                crate::protocol::TXN_TYPE_SALE.to_owned()
            } else {
                s
            }
        },
        None => crate::protocol::TXN_TYPE_SALE.to_owned(),
    }
}

/// Whether BroadPOS needs the ENQ handshake, from PAX_SEND_ENQ.
pub fn send_enq(v: Option<&str>) -> (r: bool)
    ensures
        r == (v matches Some(s) && same_ignoring_ascii_case(trimmed(s@), "true"@)),
{
    match v {
        Some(s) => eq_ignore_ascii_case(trim(s).as_str(), "true"),
        None => false,
    }
}

/// Whether a folder can be written: its read-only flag is known and not set.
pub fn is_dir_writable(read_only: Option<bool>) -> (r: bool)
    ensures
        r == (read_only == Some(false)),
{
    match read_only {
        Some(ro) => !ro,
        None => false,
    }
}

// ---------------------------------------------------------------------------
// Laws
// ---------------------------------------------------------------------------

/// A setting that is a decimal number up to the limit counts; one that is
/// missing, not a number, or above the limit leaves the default.
pub proof fn numbers_are_read(n: nat, max: nat, default: nat, s: Seq<char>)
    ensures
        number_or(None, max, default) == default,
        n <= max ==> number_or(Some(crate::numeral::decimal(n)), max, default) == n,
        n > max ==> number_or(Some(crate::numeral::decimal(n)), max, default) == default,
        (exists|i: int| 0 <= i < s.len() && !('0' <= #[trigger] s[i] <= '9') && (i > 0 || s[i]
            != '+')) ==> number_or(Some(s), max, default) == default,
{
    crate::numeral::unsigned_reads(n, max, s);
}

/// The type of a sale is 02 unless the setting holds more than whitespace.
pub proof fn sale_type_is(s: Seq<char>)
    ensures
        sale_type(None) == "02"@,
        trimmed(s).len() == 0 ==> sale_type(Some(s)) == "02"@,
        trimmed(s).len() > 0 ==> sale_type(Some(s)) == s,
{
}

/// A setting is made where it holds more than whitespace.
pub proof fn set_means(s: Seq<char>)
    ensures
        !is_set(None),
        is_set(Some(s)) <==> trimmed(s).len() > 0,
{
}

}
