//! Laws of the wire framing: what a reader of a buffer can rely on.
use vstd::prelude::*;
use vstd::utf8::{encode_scalar, encode_utf8, encode_utf8_decode_utf8, encode_utf8_valid_utf8};

use crate::protocol::{
    body_text, byte_index, complete, expected_lrc, frame, frame_body, frame_end, frame_lrc,
    frame_start, lrc, parsed, parsed_body, wire_fields, without_index, FieldView, ParsedView, ETX,
    FS, STX, US,
};
use crate::text::{join_with, lossy_text, split_on, split_undoes_join};

verus! {

// ---------------------------------------------------------------------------
// Positions of bytes
// ---------------------------------------------------------------------------

/// `byte_index` is the first position from `from` on that holds the byte.
proof fn lemma_index(s: Seq<u8>, b: u8, from: int)
    requires
        0 <= from <= s.len(),
    ensures
        from <= byte_index(s, b, from) <= s.len(),
        byte_index(s, b, from) < s.len() ==> s[byte_index(s, b, from)] == b,
        forall|i: int| from <= i < byte_index(s, b, from) ==> s[i] != b,
    decreases s.len() - from,
{
    if from < s.len() && s[from] != b {
        lemma_index(s, b, from + 1);
    }
}

/// The position with those properties is the only one.
proof fn lemma_index_is(s: Seq<u8>, b: u8, from: int, at: int)
    requires
        0 <= from <= at < s.len(),
        s[at] == b,
        forall|i: int| from <= i < at ==> s[i] != b,
    ensures
        byte_index(s, b, from) == at,
{
    lemma_index(s, b, from);
    let found = byte_index(s, b, from);
    if found < at {
        assert(s[found] != b);
    }
}

/// Where the parts of a complete frame lie.
proof fn lemma_complete(buf: Seq<u8>)
    requires
        complete(buf),
    ensures
        0 <= frame_start(buf) < frame_end(buf),
        frame_end(buf) + 1 < buf.len(),
        buf[frame_start(buf)] == STX,
        buf[frame_end(buf)] == ETX,
        forall|i: int| 0 <= i < frame_start(buf) ==> buf[i] != STX,
        forall|i: int| frame_start(buf) <= i < frame_end(buf) ==> buf[i] != ETX,
{
    lemma_index(buf, STX, 0);
    lemma_index(buf, ETX, frame_start(buf));
}

// ---------------------------------------------------------------------------
// Reading from a stream
// ---------------------------------------------------------------------------

/// Bytes that follow a complete frame change nothing: the buffer stays complete
/// and parses to the same result.
pub proof fn trailing_bytes_are_ignored(buf: Seq<u8>, rest: Seq<u8>)
    requires
        complete(buf),
    ensures
        complete(buf + rest),
        parsed(buf + rest) == parsed(buf),
{
    lemma_complete(buf);
    let all = buf + rest;
    lemma_index_is(all, STX, 0, frame_start(buf));
    lemma_index_is(all, ETX, frame_start(buf), frame_end(buf));
    assert(frame_body(all) =~= frame_body(buf));
}

/// A complete frame ends inside its buffer.
pub proof fn frame_end_in_buffer(buf: Seq<u8>)
    requires
        complete(buf),
    ensures
        0 <= frame_start(buf) < frame_end(buf),
        frame_end(buf) + 2 <= buf.len(),
{
    lemma_complete(buf);
}

/// Bytes after a complete frame do not move its end.
pub proof fn frame_end_stays(buf: Seq<u8>, rest: Seq<u8>)
    requires
        complete(buf),
    ensures
        frame_end(buf + rest) == frame_end(buf),
{
    lemma_complete(buf);
    let all = buf + rest;
    lemma_index_is(all, STX, 0, frame_start(buf));
    lemma_index_is(all, ETX, frame_start(buf), frame_end(buf));
}

/// Bytes before the first STX change nothing, so an acknowledge or line noise
/// in front of a response is skipped.
pub proof fn leading_noise_is_ignored(noise: Seq<u8>, buf: Seq<u8>)
    requires
        forall|i: int| 0 <= i < noise.len() ==> noise[i] != STX,
        complete(buf),
    ensures
        complete(noise + buf),
        parsed(noise + buf) == parsed(buf),
{
    lemma_complete(buf);
    let all = noise + buf;
    let n = noise.len() as int;
    lemma_index_is(all, STX, 0, n + frame_start(buf));
    assert forall|i: int| n + frame_start(buf) <= i < n + frame_end(buf) implies all[i] != ETX by {
        assert(all[i] == buf[i - n]);
    }
    lemma_index_is(all, ETX, n + frame_start(buf), n + frame_end(buf));
    assert(frame_body(all) =~= frame_body(buf));
}

/// A buffer parses to something other than MALFORMED_RESPONSE exactly when it
/// holds a complete frame.
pub proof fn malformed_means_incomplete(buf: Seq<u8>)
    ensures
        (parsed(buf) matches Err(e) && e.code == "MALFORMED_RESPONSE"@) <==> !complete(buf),
{
    reveal_strlit("MALFORMED_RESPONSE");
    reveal_strlit("LRC_MISMATCH");
    assert("MALFORMED_RESPONSE"@.len() != "LRC_MISMATCH"@.len());
}

/// A complete frame whose LRC matches always parses.
pub proof fn good_frame_parses(buf: Seq<u8>)
    requires
        complete(buf),
        frame_lrc(buf) == expected_lrc(buf),
    ensures
        parsed(buf) == Ok::<ParsedView, crate::protocol::PaxErrorView>(
            parsed_body(lossy_text(frame_body(buf))),
        ),
{
}

// ---------------------------------------------------------------------------
// Round trip
// ---------------------------------------------------------------------------

/// The frame around a body without ETX bytes is found again, whole.
proof fn lemma_frame_found(body: Seq<u8>)
    requires
        !body.contains(ETX),
    ensures
        complete(frame(body)),
        frame_start(frame(body)) == 0,
        frame_end(frame(body)) == body.len() + 1,
        frame_body(frame(body)) == body,
        frame_lrc(frame(body)) == expected_lrc(frame(body)),
{
    let f = frame(body);
    lemma_index_is(f, STX, 0, 0);
    assert forall|i: int| 0 <= i < body.len() + 1 implies f[i] != ETX by {
        if i > 0 {
            assert(f[i] == body[i - 1]);
            assert(body.contains(body[i - 1]));
        }
    }
    lemma_index_is(f, ETX, 0, body.len() as int + 1);
    assert(frame_body(f) =~= body);
}

/// An ASCII byte occurs in the encoding of one character only where it is that
/// character.
proof fn lemma_scalar_bytes(c: char, b: u8)
    requires
        b < 0x80,
        encode_scalar(c as u32).contains(b),
    ensures
        c == b as char,
{
    let u = c as u32;
    let e = encode_scalar(u);
    let k = choose|k: int| 0 <= k < e.len() && e[k] == b;
    if u < 0x80 {
        assert((u & 0x7f) as u8 == u as u8) by (bit_vector)
            requires
                u < 0x80,
        ;
    }
    assert(0xC0u8 | ((u >> 6) & 0x1F) as u8 >= 0x80) by (bit_vector);
    assert(0xE0u8 | ((u >> 12) & 0x0F) as u8 >= 0x80) by (bit_vector);
    assert(0xF0u8 | ((u >> 18) & 0x7) as u8 >= 0x80) by (bit_vector);
    assert(0x80u8 | (u & 0x3F) as u8 >= 0x80) by (bit_vector);
    assert(0x80u8 | ((u >> 6) & 0x3F) as u8 >= 0x80) by (bit_vector);
    assert(0x80u8 | ((u >> 12) & 0x3F) as u8 >= 0x80) by (bit_vector);
}

/// An ASCII byte occurs in the encoding of a text only where its character
/// occurs in the text.
proof fn lemma_encoded_bytes(s: Seq<char>, b: u8)
    requires
        b < 0x80,
        encode_utf8(s).contains(b),
    ensures
        s.contains(b as char),
    decreases s.len(),
{
    let e = encode_utf8(s);
    let first = encode_scalar(s[0] as u32);
    let k = choose|k: int| 0 <= k < e.len() && e[k] == b;
    if k < first.len() {
        assert(first[k] == b);
        lemma_scalar_bytes(s[0], b);
    } else {
        let rest = s.drop_first();
        assert(encode_utf8(rest)[k - first.len()] == b);
        lemma_encoded_bytes(rest, b);
        let j = choose|j: int| 0 <= j < rest.len() && rest[j] == b as char;
        assert(s[j + 1] == b as char);
    }
}

/// Parsing the frame of a body text gives back what that text means, whatever
/// the text, unless it contains ETX.
pub proof fn parse_undoes_frame(text: Seq<char>)
    requires
        !text.contains(ETX as char),
    ensures
        complete(frame(encode_utf8(text))),
        parsed(frame(encode_utf8(text))) == Ok::<ParsedView, crate::protocol::PaxErrorView>(
            parsed_body(text),
        ),
{
    let body = encode_utf8(text);
    assert(!body.contains(ETX)) by {
        if body.contains(ETX) {
            lemma_encoded_bytes(text, ETX);
        }
    }
    lemma_frame_found(body);
    encode_utf8_valid_utf8(text);
    encode_utf8_decode_utf8(text);
}

/// Whether a field survives the wire: its text holds neither ETX nor FS.
pub open spec fn transparent(f: FieldView) -> bool {
    !f.wire().contains(ETX as char) && !f.wire().contains(FS as char)
}

/// A character of joined parts is the separator or lies in a part.
proof fn lemma_join_chars(parts: Seq<Seq<char>>, sep: char, c: char)
    requires
        c != sep,
        join_with(parts, sep).contains(c),
    ensures
        exists|i: int| 0 <= i < parts.len() && (#[trigger] parts[i]).contains(c),
    decreases parts.len(),
{
    if parts.len() == 1 {
        assert(parts[0].contains(c));
    } else if parts.len() > 1 {
        let head = join_with(parts.drop_last(), sep);
        let all = join_with(parts, sep);
        let k = choose|k: int| 0 <= k < all.len() && all[k] == c;
        if k < head.len() {
            assert(head[k] == c);
            lemma_join_chars(parts.drop_last(), sep, c);
            let i = choose|i: int|
                0 <= i < parts.drop_last().len() && (#[trigger] parts.drop_last()[i]).contains(c);
            assert(parts[i].contains(c));
        } else {
            assert(parts.last()[k - head.len() - 1] == c);
            assert(parts[parts.len() - 1].contains(c));
        }
    }
}

/// What `build_message` writes, `parse_response` reads: the message of one or
/// more fields without ETX and FS parses to the texts of those fields, less a
/// leading app index.
pub proof fn parse_undoes_build(fields: Seq<FieldView>)
    requires
        fields.len() >= 1,
        forall|i: int| 0 <= i < fields.len() ==> transparent(#[trigger] fields[i]),
    ensures
        ({
            let message = frame(encode_utf8(body_text(fields)));
            &&& complete(message)
            &&& parsed(message) == Ok::<ParsedView, crate::protocol::PaxErrorView>(
                ParsedView {
                    fields: without_index(wire_fields(fields)),
                    raw: body_text(fields),
                },
            )
        }),
{
    let parts = wire_fields(fields);
    assert forall|i: int| 0 <= i < parts.len() implies !(#[trigger] parts[i]).contains(
        FS as char,
    ) by {
        assert(transparent(fields[i]));
    }
    assert(!body_text(fields).contains(ETX as char)) by {
        if body_text(fields).contains(ETX as char) {
            lemma_join_chars(parts, FS as char, ETX as char);
            let i = choose|i: int|
                0 <= i < parts.len() && (#[trigger] parts[i]).contains(ETX as char);
            assert(transparent(fields[i]));
        }
    }
    parse_undoes_frame(body_text(fields));
    split_undoes_join(parts, FS as char);
}

/// Whether a text is one or more decimal digits.
pub open spec fn digits_only(n: Seq<char>) -> bool {
    n.len() > 0 && forall|i: int| 0 <= i < n.len() ==> '0' <= #[trigger] n[i] <= '9'
}

/// Whether a text is an upper-case letter and two digits.
pub open spec fn letter_digit_digit(code: Seq<char>) -> bool {
    code.len() == 3 && 'A' <= code[0] <= 'Z' && '0' <= code[1] <= '9' && '0' <= code[2] <= '9'
}

/// Whether a text can stand in a field: it holds neither 0x03 nor 0x1c.
pub open spec fn plain_text(s: Seq<char>) -> bool {
    !s.contains('\u{3}') && !s.contains('\u{1c}')
}

/// The number that BroadPOS puts in front of a reply is dropped: the message of
/// a text of digits and then some fields, the first of which is an upper-case
/// letter and two digits, parses to exactly those fields.
pub proof fn index_in_front_is_dropped(n: Seq<char>, code: Seq<char>, rest: Seq<FieldView>)
    requires
        digits_only(n),
        letter_digit_digit(code),
        forall|i: int| 0 <= i < rest.len() ==> plain_text((#[trigger] rest[i]).wire()),
    ensures
        ({
            let reply = seq![FieldView::Single(code)] + rest;
            let text = body_text(seq![FieldView::Single(n)] + reply);
            let message = frame(encode_utf8(text));
            &&& complete(message)
            &&& parsed(message) == Ok::<ParsedView, crate::protocol::PaxErrorView>(
                ParsedView { fields: wire_fields(reply), raw: text },
            )
            &&& wire_fields(reply) == seq![code] + wire_fields(rest)
        }),
{
    let reply = seq![FieldView::Single(code)] + rest;
    let all = seq![FieldView::Single(n)] + reply;
    assert(ETX as char == '\u{3}' && FS as char == '\u{1c}');
    assert forall|i: int| 0 <= i < all.len() implies transparent(#[trigger] all[i]) by {
        if i == 0 {
            lemma_printable(n);
        } else if i == 1 {
            lemma_printable(code);
        } else {
            assert(all[i] == rest[i - 2]);
        }
    }
    parse_undoes_build(all);
    let parts = wire_fields(all);
    assert(parts[0] == n && parts[1] == code);
    assert(crate::protocol::app_index(n)) by {
        assert forall|i: int| 0 <= i < n.len() implies crate::numeral::is_digit(
            #[trigger] n[i],
        ) by {
            assert('0' <= n[i] <= '9');
        }
    }
    assert(parts.drop_first() =~= wire_fields(reply));
    assert(wire_fields(reply) =~= seq![code] + wire_fields(rest));
}

proof fn lemma_printable(s: Seq<char>)
    requires
        forall|i: int| 0 <= i < s.len() ==> #[trigger] s[i] >= '0',
    ensures
        plain_text(s),
{
    if s.contains('\u{3}') {
        let k = choose|k: int| 0 <= k < s.len() && s[k] == '\u{3}';
        assert(s[k] >= '0');
    }
    if s.contains('\u{1c}') {
        let k = choose|k: int| 0 <= k < s.len() && s[k] == '\u{1c}';
        assert(s[k] >= '0');
    }
}

/// Nothing else is dropped: the message of some fields parses to all of them,
/// unless the first is a text of digits and the second an upper-case letter and
/// two digits.
pub proof fn nothing_else_is_dropped(fields: Seq<FieldView>)
    requires
        fields.len() >= 1,
        forall|i: int| 0 <= i < fields.len() ==> plain_text((#[trigger] fields[i]).wire()),
        fields.len() < 2 || !digits_only(fields[0].wire()) || !letter_digit_digit(fields[1].wire()),
    ensures
        parsed(frame(encode_utf8(body_text(fields)))) == Ok::<
            ParsedView,
            crate::protocol::PaxErrorView,
        >(ParsedView { fields: wire_fields(fields), raw: body_text(fields) }),
{
    assert(ETX as char == '\u{3}' && FS as char == '\u{1c}');
    assert forall|i: int| 0 <= i < fields.len() implies transparent(#[trigger] fields[i]) by {
        assert(plain_text(fields[i].wire()));
    }
    parse_undoes_build(fields);
    let parts = wire_fields(fields);
    assert(parts[0] == fields[0].wire());
    if fields.len() >= 2 {
        assert(parts[1] == fields[1].wire());
        if crate::protocol::app_index(parts[0]) {
            assert forall|i: int| 0 <= i < parts[0].len() implies '0' <= #[trigger] parts[0][i]
                <= '9' by {
                assert(crate::numeral::is_digit(parts[0][i]));
            }
        }
    }
}

/// A built message ends where its frame does.
pub proof fn message_ends_its_frame(fields: Seq<FieldView>)
    requires
        fields.len() >= 1,
        forall|i: int| 0 <= i < fields.len() ==> plain_text((#[trigger] fields[i]).wire()),
    ensures
        ({
            let message = frame(encode_utf8(body_text(fields)));
            frame_end(message) + 2 == message.len()
        }),
{
    let text = body_text(fields);
    let parts = wire_fields(fields);
    if text.contains(ETX as char) {
        lemma_join_chars(parts, FS as char, ETX as char);
        let i = choose|i: int| 0 <= i < parts.len() && (#[trigger] parts[i]).contains(ETX as char);
        assert(plain_text(fields[i].wire()));
    }
    if encode_utf8(text).contains(ETX) {
        lemma_encoded_bytes(text, ETX);
    }
    lemma_frame_found(encode_utf8(text));
}

/// Why a buffer cannot be read: one of fewer than three bytes, one without
/// 0x02, and one that ends too early are told apart.
pub proof fn unreadable_buffers(buf: Seq<u8>)
    ensures
        buf.len() < 3 ==> (parsed(buf) matches Err(e) && e.code == "MALFORMED_RESPONSE"@
            && e.message == "Response too short to be a valid PAX frame"@),
        buf.len() >= 3 && !buf.contains(0x02u8) ==> (parsed(buf) matches Err(e) && e.code
            == "MALFORMED_RESPONSE"@ && e.message == "No STX (0x02) found in response"@),
        buf.len() >= 3 && buf.contains(0x02u8) && !complete(buf) ==> (parsed(buf) matches Err(e)
            && e.code == "MALFORMED_RESPONSE"@ && e.message
            == "No ETX (0x03) + LRC found in response"@),
{
    lemma_index(buf, STX, 0);
    let start = frame_start(buf);
    lemma_index(buf, ETX, start);
    if buf.contains(0x02u8) {
        let k = choose|k: int| 0 <= k < buf.len() && buf[k] == 0x02u8;
        assert(start <= k);
    } else if start < buf.len() {
        assert(buf.contains(buf[start]));
    }
    if complete(buf) {
        lemma_complete(buf);
        assert(buf.contains(buf[start]));
    }
}

/// A message whose check byte is not the XOR of what it covers is refused, and
/// the error names the byte that came and the one that should have.
pub proof fn wrong_check_byte_is_refused(body: Seq<u8>, check: u8)
    requires
        !body.contains(0x03u8),
        check != lrc(body) ^ 0x03u8,
    ensures
        parsed(seq![0x02u8] + body + seq![0x03u8, check]) matches Err(e) && e.code
            == "LRC_MISMATCH"@ && e.message == "LRC check failed (received 0x"@
            + crate::numeral::numeral(check as nat, 16) + ", expected 0x"@
            + crate::numeral::numeral((lrc(body) ^ 0x03u8) as nat, 16) + ")"@,
{
    let bad = seq![0x02u8] + body + seq![0x03u8, check];
    lemma_index_is(bad, STX, 0, 0);
    assert forall|k: int| 0 <= k < body.len() + 1 implies bad[k] != ETX by {
        if k > 0 {
            assert(bad[k] == body[k - 1]);
            assert(body.contains(body[k - 1]));
        }
    }
    lemma_index_is(bad, ETX, 0, body.len() as int + 1);
    assert(frame_body(bad) =~= body);
    assert(body.push(ETX).drop_last() =~= body);
}

/// Sub-fields survive the wire: splitting a field at US gives back the
/// sub-fields it was built from, where there is one and none contains US.
pub proof fn sub_fields_read_back(subs: Seq<Seq<char>>)
    requires
        subs.len() >= 1,
        forall|i: int| 0 <= i < subs.len() ==> !(#[trigger] subs[i]).contains(US as char),
    ensures
        split_on(FieldView::Sub(subs).wire(), US as char) == subs,
{
    split_undoes_join(subs, US as char);
}

// ---------------------------------------------------------------------------
// Error detection
// ---------------------------------------------------------------------------

/// Appending the LRC of some bytes to them makes the XOR of all zero.
pub proof fn lrc_closes_to_zero(bytes: Seq<u8>)
    ensures
        lrc(bytes.push(lrc(bytes))) == 0,
{
    let x = lrc(bytes);
    assert(bytes.push(x).drop_last() =~= bytes);
    assert(x ^ x == 0u8) by (bit_vector);
}

/// Changing one byte changes the LRC.
pub proof fn lrc_sees_one_byte(bytes: Seq<u8>, i: int, b: u8)
    requires
        0 <= i < bytes.len(),
        b != bytes[i],
    ensures
        lrc(bytes.update(i, b)) != lrc(bytes),
    decreases bytes.len(),
{
    let shorter = bytes.drop_last();
    if i == bytes.len() - 1 {
        assert(bytes.update(i, b).drop_last() =~= shorter);
        let x = lrc(shorter);
        let y = bytes.last();
        assert(x ^ b != x ^ y) by (bit_vector)
            requires
                b != y,
        ;
    } else {
        lrc_sees_one_byte(shorter, i, b);
        assert(bytes.update(i, b).drop_last() =~= shorter.update(i, b));
        let x = lrc(shorter);
        let z = lrc(shorter.update(i, b));
        let y = bytes.last();
        assert(z ^ y != x ^ y) by (bit_vector)
            requires
                z != x,
        ;
    }
}

/// A frame with one body byte replaced by another that is not ETX is rejected
/// for its LRC.
pub proof fn corrupted_byte_is_rejected(body: Seq<u8>, i: int, b: u8)
    requires
        !body.contains(ETX),
        0 <= i < body.len(),
        b != body[i],
        b != ETX,
    ensures
        parsed(frame(body).update(i + 1, b)) matches Err(e) && e.code == "LRC_MISMATCH"@,
{
    let bad = frame(body).update(i + 1, b);
    let changed = body.update(i, b);
    lemma_index_is(bad, STX, 0, 0);
    assert forall|k: int| 0 <= k < body.len() + 1 implies bad[k] != ETX by {
        if k > 0 && k != i + 1 {
            assert(bad[k] == body[k - 1]);
            assert(body.contains(body[k - 1]));
        }
    }
    lemma_index_is(bad, ETX, 0, body.len() as int + 1);
    assert(frame_body(bad) =~= changed);
    assert(changed.push(ETX) =~= body.push(ETX).update(i, b));
    lrc_sees_one_byte(body.push(ETX), i, b);
}

}
