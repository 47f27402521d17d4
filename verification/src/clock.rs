//! The clock and the random source, and the texts made from them.
//!
//! The calls into chrono and uuid stand here. What they return is handed on as
//! plain values, so that everything built from them is a function of its
//! arguments.
use vstd::prelude::*;
use vstd::string::StringExecFns;
use vstd::utf8::is_ascii_chars;

use crate::numeral::{all_digits, digit_char, signed_numeral, to_base36};

verus! {

/// The last second that a chrono `DateTime<Utc>` can represent.
pub const LAST_SECOND: i64 = 8_210_266_876_799;

/// The first second of the year 10000, from which on years have a sign and
/// more than four digits.
pub const YEAR_10000: i64 = 253_402_300_800;

/// A point in time: whole seconds since 1970 and the nanoseconds after them.
#[derive(Debug, Clone, Copy, PartialEq, Eq, Structural)]
pub struct Instant {
    pub secs: i64,
    pub nanos: u32,
}

impl Instant {
    /// The instants that the clock can give.
    pub open spec fn valid(self) -> bool {
        0 <= self.secs <= LAST_SECOND && self.nanos < 1_000_000_000
    }

    /// The milliseconds since 1970.
    pub open spec fn millis(self) -> int {
        self.secs * 1000 + self.nanos / 1_000_000
    }

    /// The milliseconds since 1970.
    pub fn to_millis(&self) -> (r: i64)
        requires
            self.valid(),
        ensures
            r == self.millis(),
    {
        self.secs * 1000 + (self.nanos / 1_000_000) as i64
    }
}

/// `chrono::Utc::now`: some instant from 1970 on that chrono can represent,
/// with less than a second of nanoseconds. Nothing else is known of it.
#[verifier::external_body]
pub(crate) fn utc_now() -> (t: Instant)
    ensures
        t.valid(),
{
    let now = chrono::Utc::now();
    Instant { secs: now.timestamp(), nanos: now.timestamp_subsec_nanos() }
}

/// What `DateTime::<Utc>::to_rfc3339` writes for an instant.
pub uninterp spec fn rfc3339_text(secs: i64, nanos: u32) -> Seq<char>;

/// What `DateTime::<Utc>::format` writes for an instant's second under a
/// pattern.
pub uninterp spec fn utc_text(secs: i64, pattern: Seq<char>) -> Seq<char>;

/// The pattern of a date, such as 2026-07-10.
pub const DATE_PATTERN: &'static str = "%Y-%m-%d";

/// The pattern of a date key, such as 20260710.
pub const DATE_KEY_PATTERN: &'static str = "%Y%m%d";

/// The date of a second.
pub open spec fn utc_date(secs: i64) -> Seq<char> {
    utc_text(secs, "%Y-%m-%d"@)
}

/// The date key of a second.
pub open spec fn utc_date_key(secs: i64) -> Seq<char> {
    utc_text(secs, "%Y%m%d"@)
}

/// `DateTime::<Utc>::to_rfc3339`: a function of the instant, in ASCII, at least
/// as long as `1970-01-01T00:00:00+00:00`. Up to the year 9999 its first ten
/// characters are the date.
#[verifier::external_body]
pub(crate) fn rfc3339(t: Instant) -> (s: String)
    requires
        t.valid(),
    ensures
        s@ == rfc3339_text(t.secs, t.nanos),
        is_ascii_chars(s@),
        s@.len() >= 25,
        t.secs < YEAR_10000 ==> s@.take(10) == utc_text(t.secs, "%Y-%m-%d"@),
{
    chrono::DateTime::from_timestamp(t.secs, t.nanos).unwrap().to_rfc3339()
}

/// `DateTime::<Utc>::format`, with a pattern of year, month and day: a function
/// of the second and the pattern. Up to the year 9999 the date key is eight
/// digits.
#[verifier::external_body]
fn format_utc(t: Instant, pattern: &str) -> (s: String)
    requires
        t.valid(),
        pattern@ == "%Y-%m-%d"@ || pattern@ == "%Y%m%d"@,
    ensures
        s@ == utc_text(t.secs, pattern@),
        pattern@ == "%Y%m%d"@ && t.secs < YEAR_10000 ==> s@.len() == 8 && all_digits(s@),
{
    chrono::DateTime::from_timestamp(t.secs, t.nanos).unwrap().format(pattern).to_string()
}

/// The date of an instant.
pub fn date_text(t: Instant) -> (s: String)
    requires
        t.valid(),
    ensures
        s@ == utc_date(t.secs),
{
    format_utc(t, DATE_PATTERN)
}

/// The date key of an instant: eight digits up to the year 9999.
pub fn date_key(t: Instant) -> (s: String)
    requires
        t.valid(),
    ensures
        s@ == utc_date_key(t.secs),
        t.secs < YEAR_10000 ==> s@.len() == 8 && all_digits(s@),
{
    format_utc(t, DATE_KEY_PATTERN)
}

/// `uuid::Uuid::new_v4`: sixteen bytes, of which nothing else is known.
#[verifier::external_body]
pub(crate) fn random_bytes() -> (b: Vec<u8>)
    ensures
        b@.len() == 16,
{
    uuid::Uuid::new_v4().as_bytes().to_vec()
}

// ---------------------------------------------------------------------------
// Identifiers
// ---------------------------------------------------------------------------

/// `len` base-36 digits, taken from the bytes in turn.
pub open spec fn base36_of(bytes: Seq<u8>, len: nat) -> Seq<char> {
    Seq::new(len, |i: int| digit_char((bytes[i % (bytes.len() as int)] % 36) as nat))
}

/// Makes `len` base-36 digits from some bytes.
pub fn base36_from(bytes: &Vec<u8>, len: usize) -> (s: String)
    requires
        bytes@.len() > 0,
    ensures
        s@ == base36_of(bytes@, len as nat),
{
    let mut s: String = String::new();
    let mut i: usize = 0;
    assert(s@ =~= base36_of(bytes@, 0));
    while i < len
        invariant
            bytes@.len() > 0,
            i <= len,
            s@ == base36_of(bytes@, i as nat),
        decreases len - i,
    {
        let n: usize = bytes.len();
        let k: usize = i % n;
        let d: u8 = bytes[k] % 36;
        let c: char = if d < 10 {
            (48 + d) as char
        } else {
            (87 + d) as char
        };
        s.push(c);
        assert(s@ =~= base36_of(bytes@, (i + 1) as nat));
        i += 1;
    }
    s
}

/// Makes `len` random base-36 digits.
pub fn rand_base36(len: usize) -> (s: String)
    ensures
        exists|bytes: Seq<u8>| bytes.len() == 16 && s@ == #[trigger] base36_of(bytes, len as nat),
{
    let bytes = random_bytes();
    base36_from(&bytes, len)
}

/// An id: the prefix, an underscore, the milliseconds in base 36 and six more
/// base-36 digits.
pub open spec fn id_text(prefix: Seq<char>, millis: int, bytes: Seq<u8>) -> Seq<char> {
    prefix + "_"@ + signed_numeral(millis, 36) + base36_of(bytes, 6)
}

/// Makes an id from a prefix, an instant and some bytes.
pub fn id_from(prefix: &str, t: Instant, bytes: &Vec<u8>) -> (s: String)
    requires
        t.valid(),
        bytes@.len() > 0,
    ensures
        s@ == id_text(prefix@, t.millis(), bytes@),
{
    prefix.to_owned().concat("_").concat(to_base36(t.to_millis()).as_str()).concat(
        base36_from(bytes, 6).as_str(),
    )
}

/// Whether a text is an id with the prefix, made at some instant from some
/// bytes.
pub open spec fn is_id(s: Seq<char>, prefix: Seq<char>) -> bool {
    exists|t: Instant, bytes: Seq<u8>|
        t.valid() && bytes.len() == 16 && s == #[trigger] id_text(prefix, t.millis(), bytes)
}

/// Whether a text is the RFC 3339 form of some instant.
pub open spec fn is_timestamp(s: Seq<char>) -> bool {
    exists|t: Instant| t.valid() && s == #[trigger] rfc3339_text(t.secs, t.nanos)
}

/// Generates an id like `<prefix>_<base36 millis><6 random base36 chars>`.
pub fn gen_id(prefix: &str) -> (s: String)
    ensures
        is_id(s@, prefix@),
{
    let t = utc_now();
    let digits = rand_base36(6);
    let s = prefix.to_owned().concat("_").concat(to_base36(t.to_millis()).as_str()).concat(
        digits.as_str(),
    );
    proof {
        let bytes = choose|bytes: Seq<u8>|
            bytes.len() == 16 && digits@ == #[trigger] base36_of(bytes, 6);
        assert(s@ == id_text(prefix@, t.millis(), bytes));
    }
    s
}

// ---------------------------------------------------------------------------
// Laws
// ---------------------------------------------------------------------------

/// An id begins with its prefix and an underscore; then come digits and small
/// letters, the time first and six more of them at the end.
pub proof fn id_is_made_of(prefix: Seq<char>, millis: nat, bytes: Seq<u8>, i: int)
    requires
        bytes.len() == 16,
    ensures
        ({
            let id = id_text(prefix, millis as int, bytes);
            let time = crate::numeral::numeral(millis, 36);
            let n = prefix.len() as int;
            &&& id.take(n) == prefix
            &&& id[n] == '_'
            &&& id.len() == n + 1 + time.len() + 6
            &&& id.subrange(n + 1, n + 1 + time.len()) == time
            &&& n < i < id.len() ==> '0' <= id[i] <= '9' || 'a' <= id[i] <= 'z'
        }),
{
    reveal_strlit("_");
    let id = id_text(prefix, millis as int, bytes);
    let time = crate::numeral::numeral(millis, 36);
    let n = prefix.len() as int;
    crate::numeral::numeral_reads_back(millis, 36);
    assert(id.take(n) =~= prefix);
    assert(id.subrange(n + 1, n + 1 + time.len()) =~= time);
    if n < i < id.len() {
        if i < n + 1 + time.len() {
            assert(id[i] == time[i - n - 1]);
        } else {
            let k = i - n - 1 - time.len();
            assert(id[i] == base36_of(bytes, 6)[k]);
        }
    }
}

/// The milliseconds of an instant are a thousand for each second, and those of
/// its nanoseconds.
pub proof fn milliseconds_count(t: Instant)
    requires
        t.valid(),
    ensures
        t.secs * 1000 <= t.millis() < t.secs * 1000 + 1000,
        t.millis() * 1_000_000 <= t.secs * 1_000_000_000 + t.nanos < (t.millis() + 1) * 1_000_000,
{
}

/// The digits at the end of an id come from the bytes in turn: two lists of bytes
/// that differ modulo 36 among the first six give different ids.
pub proof fn bytes_make_ids_differ(
    prefix: Seq<char>,
    millis: nat,
    a: Seq<u8>,
    b: Seq<u8>,
    k: int,
)
    requires
        a.len() == 16,
        b.len() == 16,
        0 <= k < 6,
        a[k] % 36 != b[k] % 36,
    ensures
        id_text(prefix, millis as int, a) != id_text(prefix, millis as int, b),
{
    let at = prefix.len() + "_"@.len() + signed_numeral(millis as int, 36).len() + k;
    assert(id_text(prefix, millis as int, a)[at as int] == base36_of(a, 6)[k]);
    assert(id_text(prefix, millis as int, b)[at as int] == base36_of(b, 6)[k]);
    assert(k % 16 == k);
}

/// The digits of a number from 0 to 35 are `0` to `9` and then `a` to `z`.
pub proof fn digits_are(d: nat)
    ensures
        d < 10 ==> digit_char(d) as u32 == '0' as u32 + d,
        10 <= d < 36 ==> digit_char(d) as u32 == 'a' as u32 + (d - 10),
{
}

}
