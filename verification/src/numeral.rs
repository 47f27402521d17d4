//! Numbers as text: decimal, hexadecimal and base 36, in both directions
//! where the bridge reads them back.
use vstd::prelude::*;

use crate::text::{chars_of, lemma_texts_push, texts};

verus! {

// ---------------------------------------------------------------------------
// Writing
// ---------------------------------------------------------------------------

/// The character of a digit in a base up to 36: `0` to `9`, then `a` to `z`.
pub open spec fn digit_char(d: nat) -> char {
    if d < 10 {
        (48 + d) as char
    } else {
        (87 + d) as char
    }
}

/// The digits of `n` in `base`, most significant first, without leading zeros.
pub open spec fn numeral(n: nat, base: nat) -> Seq<char>
    recommends
        2 <= base <= 36,
    decreases n,
{
    if n < base || base < 2 {
        seq![digit_char(n)]
    } else {
        proof {
            assert(n / base < n) by (nonlinear_arith)
                requires
                    n >= base >= 2,
            ;
        }
        numeral(n / base, base).push(digit_char(n % base))
    }
}

/// The decimal digits of a natural number.
pub open spec fn decimal(n: nat) -> Seq<char> {
    numeral(n, 10)
}

/// The decimal digits of an integer, with a minus sign where it is negative.
pub open spec fn signed_numeral(n: int, base: nat) -> Seq<char> {
    if n < 0 {
        seq!['-'] + numeral((-n) as nat, base)
    } else {
        numeral(n as nat, base)
    }
}

/// `n` in decimal, filled up with zeros on the left to at least `width` digits.
pub open spec fn padded(digits: Seq<char>, width: nat) -> Seq<char> {
    if digits.len() < width {
        Seq::new((width - digits.len()) as nat, |i: int| '0') + digits
    } else {
        digits
    }
}

fn digit(d: u64) -> (c: char)
    requires
        d < 36,
    ensures
        c == digit_char(d as nat),
{
    if d < 10 {
        (48 + d as u8) as char
    } else {
        (87 + d as u8) as char
    }
}

fn push_numeral(out: &mut String, n: u64, base: u64)
    requires
        2 <= base <= 36,
    ensures
        final(out)@ == old(out)@ + numeral(n as nat, base as nat),
    decreases n,
{
    let ghost before = out@;
    if n < base {
        out.push(digit(n));
        assert(out@ =~= before + numeral(n as nat, base as nat));
    } else {
        let q: u64 = n / base;
        let r: u64 = n % base;
        proof {
            assert(n / base < n) by (nonlinear_arith)
                requires
                    n >= base >= 2,
            ;
        }
        push_numeral(out, q, base);
        out.push(digit(r));
        assert(out@ =~= before + numeral(n as nat, base as nat));
    }
}

/// An unsigned number in decimal.
pub fn decimal_u64(n: u64) -> (s: String)
    ensures
        s@ == decimal(n as nat),
{
    let mut s: String = String::new();
    push_numeral(&mut s, n, 10);
    assert(s@ =~= decimal(n as nat));
    s
}

/// A signed number in decimal.
pub fn decimal_i64(n: i64) -> (s: String)
    ensures
        s@ == signed_numeral(n as int, 10),
{
    signed_text(n, 10)
}

fn signed_text(n: i64, base: u64) -> (s: String)
    requires
        2 <= base <= 36,
    ensures
        s@ == signed_numeral(n as int, base as nat),
{
    let mut s: String = String::new();
    if n < 0 {
        s.push('-');
        let m: u64 = (-(n + 1)) as u64 + 1;
        push_numeral(&mut s, m, base);
    } else {
        push_numeral(&mut s, n as u64, base);
    }
    assert(s@ =~= signed_numeral(n as int, base as nat));
    s
}

/// A number in base 36, lower case, with a minus sign where it is negative.
pub fn to_base36(n: i64) -> (s: String)
    requires
        n > i64::MIN,
    ensures
        s@ == signed_numeral(n as int, 36),
{
    signed_text(n, 36)
}

fn pad_text(digits: String, width: usize) -> (s: String)
    ensures
        s@ == padded(digits@, width as nat),
{
    let n: usize = chars_of(digits.as_str()).len();
    if n >= width {
        return digits;
    }
    let mut s: String = String::new();
    let mut i: usize = 0;
    let count: usize = width - n;
    assert(s@ =~= Seq::new(0, |i: int| '0'));
    while i < count
        invariant
            i <= count,
            s@ == Seq::new(i as nat, |i: int| '0'),
        decreases count - i,
    {
        s.push('0');
        assert(s@ =~= Seq::new((i + 1) as nat, |i: int| '0'));
        i += 1;
    }
    vstd::string::StringExecFns::append(&mut s, digits.as_str());
    s
}

/// A number in decimal with at least four digits.
pub fn decimal_pad4(n: u32) -> (s: String)
    ensures
        s@ == padded(decimal(n as nat), 4),
{
    pad_text(decimal_u64(n as u64), 4)
}

/// A number in lower-case hexadecimal.
pub fn hex_u64(n: u64) -> (s: String)
    ensures
        s@ == numeral(n as nat, 16),
{
    let mut s: String = String::new();
    push_numeral(&mut s, n, 16);
    assert(s@ =~= numeral(n as nat, 16));
    s
}

/// A number in lower-case hexadecimal with at least four digits.
pub fn hex_pad4(n: u16) -> (s: String)
    ensures
        s@ == padded(numeral(n as nat, 16), 4),
{
    pad_text(hex_u64(n as u64), 4)
}

/// The two-digit hexadecimal text of each byte.
pub open spec fn hex_pairs(bytes: Seq<u8>) -> Seq<Seq<char>> {
    Seq::new(bytes.len(), |i: int| padded(numeral(bytes[i] as nat, 16), 2))
}

/// A byte dump: two hexadecimal digits for each byte, a space between bytes.
pub fn hex(buf: &[u8]) -> (s: String)
    ensures
        s@ == crate::text::join_with(hex_pairs(buf@), ' '),
{
    broadcast use lemma_texts_push;

    let mut parts: Vec<String> = Vec::new();
    let mut i: usize = 0;
    assert(texts(parts@) =~= hex_pairs(buf@.take(0)));
    while i < buf.len()
        invariant
            i <= buf@.len(),
            texts(parts@) == hex_pairs(buf@.take(i as int)),
        decreases buf@.len() - i,
    {
        broadcast use lemma_texts_push;

        parts.push(pad_text(hex_u64(buf[i] as u64), 2));
        assert(texts(parts@) =~= hex_pairs(buf@.take(i + 1)));
        i += 1;
    }
    assert(buf@.take(buf@.len() as int) =~= buf@);
    crate::text::join_texts(&parts, ' ')
}

// ---------------------------------------------------------------------------
// Reading
// ---------------------------------------------------------------------------

/// Whether a character is an ASCII decimal digit.
pub open spec fn is_digit(c: char) -> bool {
    '0' <= c <= '9'
}

/// Whether every character is an ASCII decimal digit.
pub open spec fn all_digits(s: Seq<char>) -> bool {
    forall|i: int| 0 <= i < s.len() ==> is_digit(#[trigger] s[i])
}

/// The number that a sequence of decimal digits denotes.
pub open spec fn digits_value(s: Seq<char>) -> nat
    decreases s.len(),
{
    if s.len() == 0 {
        0
    } else {
        (digits_value(s.drop_last()) * 10 + (s.last() as u32 - 48)) as nat
    }
}

/// A text as an unsigned decimal number up to `max`: an optional `+`, then at
/// least one digit and nothing else.
pub open spec fn unsigned_of(s: Seq<char>, max: nat) -> Option<nat> {
    let digits = if s.len() > 0 && s[0] == '+' {
        s.drop_first()
    } else {
        s
    };
    if digits.len() > 0 && all_digits(digits) && digits_value(digits) <= max {
        Some(digits_value(digits))
    } else {
        None
    }
}

/// A text as a signed decimal number that fits 64 bits: an optional sign, then
/// at least one digit and nothing else.
pub open spec fn signed_of(s: Seq<char>) -> Option<int> {
    if s.len() > 0 && s[0] == '-' {
        let digits = s.drop_first();
        if digits.len() > 0 && all_digits(digits) && digits_value(digits) <= 0x8000_0000_0000_0000 {
            Some(-(digits_value(digits) as int))
        } else {
            None
        }
    } else {
        match unsigned_of(s, 0x7fff_ffff_ffff_ffff) {
            Some(n) => Some(n as int),
            None => None,
        }
    }
}

/// Leading digits never denote more than all the digits.
proof fn lemma_prefix_value(s: Seq<char>, i: int)
    requires
        0 <= i <= s.len(),
        all_digits(s),
    ensures
        digits_value(s.take(i)) <= digits_value(s),
    decreases s.len() - i,
{
    if i == s.len() {
        assert(s.take(i) =~= s);
    } else {
        lemma_prefix_value(s, i + 1);
        assert(s.take(i + 1).drop_last() =~= s.take(i));
        assert(is_digit(s[i]));
    }
}

/// Reads `v[from..]` as digits of a number up to `max`.
fn digits_from(v: &Vec<char>, from: usize, max: u64) -> (r: Option<u64>)
    requires
        from <= v@.len(),
    ensures
        ({
            let digits = v@.skip(from as int);
            match r {
                Some(n) => digits.len() > 0 && all_digits(digits) && digits_value(digits) == n && n
                    <= max,
                None => !(digits.len() > 0 && all_digits(digits) && digits_value(digits) <= max),
            }
        }),
{
    let ghost digits = v@.skip(from as int);
    if from == v.len() {
        return None;
    }
    let mut value: u64 = 0;
    let mut i: usize = from;
    assert(digits.take(0) =~= Seq::<char>::empty());
    while i < v.len()
        invariant
            from <= i <= v@.len(),
            digits == v@.skip(from as int),
            all_digits(digits.take(i - from)),
            value == digits_value(digits.take(i - from)),
            value <= max,
        decreases v@.len() - i,
    {
        let c: char = v[i];
        let ghost k = i - from;
        proof {
            assert(digits.take(k + 1).drop_last() =~= digits.take(k));
            assert(digits[k] == c);
        }
        if !('0' <= c && c <= '9') {
            assert(!is_digit(digits[k]));
            return None;
        }
        let d: u64 = (c as u32 - 48) as u64;
        assert(all_digits(digits.take(k + 1))) by {
            assert forall|j: int| 0 <= j < k + 1 implies is_digit(#[trigger] digits.take(k + 1)[j]) by {
                if j < k {
                    assert(is_digit(digits.take(k)[j]));
                }
            }
        }
        if value > max / 10 || d > max - value * 10 {
            proof {
                if all_digits(digits) {
                    lemma_prefix_value(digits, k + 1);
                }
            }
            return None;
        }
        value = value * 10 + d;
        i += 1;
    }
    assert(digits.take(digits.len() as int) =~= digits);
    Some(value)
}

/// Reads an unsigned decimal number up to `max`.
pub fn parse_unsigned(s: &str, max: u64) -> (r: Option<u64>)
    ensures
        match r {
            Some(n) => unsigned_of(s@, max as nat) == Some(n as nat),
            None => unsigned_of(s@, max as nat) is None,
        },
{
    let v = chars_of(s);
    let from: usize = if v.len() > 0 && v[0] == '+' {
        1
    } else {
        0
    };
    assert(s@.skip(0) =~= s@);
    assert(s@.len() > 0 ==> s@.skip(1) =~= s@.drop_first());
    digits_from(&v, from, max)
}

/// Reads a signed decimal number.
pub fn parse_i64(s: &str) -> (r: Option<i64>)
    ensures
        match r {
            Some(n) => signed_of(s@) == Some(n as int),
            None => signed_of(s@) is None,
        },
{
    let v = chars_of(s);
    if v.len() > 0 && v[0] == '-' {
        assert(s@.skip(1) =~= s@.drop_first());
        match digits_from(&v, 1, 0x8000_0000_0000_0000) {
            Some(m) => {
                if m == 0x8000_0000_0000_0000 {
                    Some(i64::MIN)
                } else {
                    Some(-(m as i64))
                }
            },
            None => None,
        }
    } else {
        match parse_unsigned(s, 0x7fff_ffff_ffff_ffff) {
            Some(m) => Some(m as i64),
            None => None,
        }
    }
}

// ---------------------------------------------------------------------------
// Laws
// ---------------------------------------------------------------------------

/// Every digit of a decimal numeral is a digit, and the numeral denotes the
/// number it was written from.
pub proof fn decimal_reads_back(n: nat)
    ensures
        decimal(n).len() > 0,
        all_digits(decimal(n)),
        digits_value(decimal(n)) == n,
    decreases n,
{
    if n < 10 {
        reveal_with_fuel(digits_value, 2);
        assert(decimal(n).drop_last() =~= Seq::<char>::empty());
    } else {
        decimal_reads_back(n / 10);
        let head = decimal(n / 10);
        assert(decimal(n) == head.push(digit_char(n % 10)));
        assert(decimal(n).drop_last() =~= head);
        assert forall|i: int| 0 <= i < decimal(n).len() implies is_digit(#[trigger] decimal(n)[i]) by {
            if i < head.len() {
                assert(is_digit(head[i]));
            }
        }
    }
}

proof fn lemma_zeros(n: nat)
    ensures
        digits_value(Seq::new(n, |i: int| '0')) == 0,
    decreases n,
{
    let zeros = Seq::new(n, |i: int| '0');
    if n > 0 {
        let fewer = (n - 1) as nat;
        lemma_zeros(fewer);
        assert(zeros.drop_last() =~= Seq::new(fewer, |i: int| '0'));
    }
}

proof fn lemma_leading_zeros(n: nat, s: Seq<char>)
    requires
        all_digits(s),
    ensures
        digits_value(Seq::new(n, |i: int| '0') + s) == digits_value(s),
    decreases s.len(),
{
    let zeros = Seq::new(n, |i: int| '0');
    if s.len() == 0 {
        lemma_zeros(n);
        assert(zeros + s =~= zeros);
    } else {
        assert(all_digits(s.drop_last())) by {
            assert forall|i: int| 0 <= i < s.drop_last().len() implies is_digit(
                #[trigger] s.drop_last()[i],
            ) by {
                assert(is_digit(s[i]));
            }
        }
        lemma_leading_zeros(n, s.drop_last());
        assert((zeros + s).drop_last() =~= zeros + s.drop_last());
    }
}

/// Filling up with zeros does not change the number.
pub proof fn padding_keeps_the_value(s: Seq<char>, width: nat)
    requires
        all_digits(s),
    ensures
        all_digits(padded(s, width)),
        digits_value(padded(s, width)) == digits_value(s),
{
    if s.len() < width {
        let n = (width - s.len()) as nat;
        lemma_leading_zeros(n, s);
        let all = padded(s, width);
        assert forall|i: int| 0 <= i < all.len() implies is_digit(#[trigger] all[i]) by {
            if i >= n {
                assert(is_digit(s[i - n]));
            }
        }
    }
}

/// A signed number written in decimal reads back as itself.
pub proof fn signed_decimal_reads_back(n: i64)
    ensures
        signed_of(signed_numeral(n as int, 10)) == Some(n as int),
{
    let m: nat = if n < 0 {
        (-n) as nat
    } else {
        n as nat
    };
    decimal_reads_back(m);
    if n < 0 {
        assert(signed_numeral(n as int, 10).drop_first() =~= decimal(m));
    } else {
        assert(is_digit(decimal(m)[0]));
    }
}

/// The number that digits in a base up to 16 denote.
pub open spec fn value_in(s: Seq<char>, base: nat) -> int
    decreases s.len(),
{
    if s.len() == 0 {
        0
    } else {
        value_in(s.drop_last(), base) * base + (if '0' <= s.last() <= '9' {
            s.last() as u32 - 48
        } else {
            s.last() as u32 - 87
        })
    }
}

/// A number written in a base up to 36 has digits from `0` to `9` and from `a`
/// on, denotes that number, and has no zero in front unless it is zero.
pub proof fn numeral_reads_back(n: nat, base: nat)
    requires
        2 <= base <= 36,
    ensures
        numeral(n, base).len() > 0,
        value_in(numeral(n, base), base) == n,
        forall|i: int|
            0 <= i < numeral(n, base).len() ==> '0' <= #[trigger] numeral(n, base)[i] <= '9' || 'a'
                <= numeral(n, base)[i] <= 'z',
        n > 0 ==> numeral(n, base)[0] != '0',
    decreases n,
{
    reveal_with_fuel(value_in, 2);
    let s = numeral(n, base);
    if n < base {
        assert(s.drop_last() =~= Seq::<char>::empty());
    } else {
        assert(n / base < n && n / base > 0) by (nonlinear_arith)
            requires
                n >= base >= 2,
        ;
        numeral_reads_back(n / base, base);
        assert(s.drop_last() =~= numeral(n / base, base));
        assert((n / base) * base + n % base == n && n % base < base) by (nonlinear_arith)
            requires
                base >= 2,
        ;
    }
}

/// A text reads as an unsigned number exactly where it is digits, with a plus
/// sign in front or not, and the number is not above the limit.
pub proof fn unsigned_reads(n: nat, max: nat, s: Seq<char>)
    ensures
        n <= max ==> unsigned_of(decimal(n), max) == Some(n),
        n <= max ==> unsigned_of(seq!['+'] + decimal(n), max) == Some(n),
        n > max ==> unsigned_of(decimal(n), max) is None,
        unsigned_of(Seq::empty(), max) is None,
        (exists|i: int| 0 <= i < s.len() && !('0' <= #[trigger] s[i] <= '9') && (i > 0 || s[i]
            != '+')) ==> unsigned_of(s, max) is None,
{
    decimal_reads_back(n);
    assert((seq!['+'] + decimal(n)).drop_first() =~= decimal(n));
    assert(is_digit(decimal(n)[0]));
    if exists|i: int|
        0 <= i < s.len() && !('0' <= #[trigger] s[i] <= '9') && (i > 0 || s[i] != '+') {
        let i = choose|i: int|
            0 <= i < s.len() && !('0' <= #[trigger] s[i] <= '9') && (i > 0 || s[i] != '+');
        if s[0] == '+' {
            assert(!is_digit(s.drop_first()[i - 1]));
        } else {
            assert(!is_digit(s[i]));
        }
    }
}

/// Filling up puts zeros in front, just as many as are missing.
pub proof fn padding_puts_zeros_in_front(s: Seq<char>, width: nat, i: int)
    ensures
        s.len() >= width ==> padded(s, width) == s,
        s.len() < width ==> padded(s, width).len() == width,
        s.len() < width ==> padded(s, width).skip(width - s.len()) == s,
        s.len() < width && 0 <= i < width - s.len() ==> padded(s, width)[i] == '0',
{
    if s.len() < width {
        assert(padded(s, width).skip(width - s.len()) =~= s);
    }
}

/// A byte dump shows each byte as its two hexadecimal digits.
pub proof fn dump_shows_each_byte(bytes: Seq<u8>, i: int)
    requires
        0 <= i < bytes.len(),
    ensures
        hex_pairs(bytes).len() == bytes.len(),
        hex_pairs(bytes)[i].len() == 2,
        bytes[i] >= 16 ==> value_in(hex_pairs(bytes)[i], 16) == bytes[i],
        bytes[i] < 16 ==> hex_pairs(bytes)[i] == seq!['0', digit_char(bytes[i] as nat)],
{
    let n = bytes[i] as nat;
    numeral_reads_back(n, 16);
    reveal_with_fuel(numeral, 3);
    if n >= 16 {
        assert(n / 16 < 16) by (nonlinear_arith)
            requires
                n < 256,
        ;
        assert(numeral(n, 16).len() == 2);
    } else {
        assert(hex_pairs(bytes)[i] =~= seq!['0', digit_char(n)]);
    }
}

}
