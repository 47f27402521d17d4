//! What replies and requests say, in terms of what stands on the wire.
use vstd::prelude::*;

use super::requests::{credit_request, CreditInputView};
use super::responses::{batch_of, credit_of, initialize_of};
use super::{
    body_text, cents, cents_chars, complete, frame, last_digits, lrc, readable, response_code,
    wire_fields, FieldView,
};
use crate::json::JsonView;
use crate::numeral::{
    all_digits, digits_value, is_digit, signed_decimal_reads_back, signed_numeral,
};
use crate::text::{join_with, split_undoes_join};

verus! {

// ---------------------------------------------------------------------------
// The wire
// ---------------------------------------------------------------------------

/// A message is the byte 0x02, the body, the byte 0x03 and the XOR of the body
/// bytes and 0x03.
pub proof fn frame_on_the_wire(body: Seq<u8>, b: u8)
    ensures
        frame(body).len() == body.len() + 3,
        frame(body)[0] == 0x02,
        frame(body).subrange(1, body.len() as int + 1) == body,
        frame(body)[body.len() as int + 1] == 0x03,
        frame(body)[body.len() as int + 2] == lrc(body) ^ 0x03u8,
        lrc(Seq::empty()) == 0,
        lrc(body.push(b)) == lrc(body) ^ b,
{
    assert(frame(body).subrange(1, body.len() as int + 1) =~= body);
    assert(body.push(0x03u8).drop_last() =~= body);
    assert(body.push(b).drop_last() =~= body);
}

/// A message body is the fields with the character 0x1c between them, and a
/// field of several parts is the parts with 0x1f between them.
pub proof fn body_on_the_wire(fields: Seq<FieldView>, next: FieldView, parts: Seq<Seq<char>>, part: Seq<char>)
    ensures
        body_text(seq![next]) == next.wire(),
        fields.len() > 0 ==> body_text(fields.push(next)) == body_text(fields) + seq!['\u{1c}']
            + next.wire(),
        FieldView::Single(part).wire() == part,
        FieldView::Sub(seq![part]).wire() == part,
        parts.len() > 0 ==> FieldView::Sub(parts.push(part)).wire() == FieldView::Sub(parts).wire()
            + seq!['\u{1f}'] + part,
{
    assert(wire_fields(seq![next]) =~= seq![next.wire()]);
    assert(wire_fields(fields.push(next)) =~= wire_fields(fields).push(next.wire()));
    assert(wire_fields(fields).push(next.wire()).drop_last() =~= wire_fields(fields));
    assert(parts.push(part).drop_last() =~= parts);
    assert(super::FS as char == '\u{1c}');
    assert(super::US as char == '\u{1f}');
    if fields.len() > 0 {
        assert(body_text(fields.push(next)) =~= body_text(fields) + seq!['\u{1c}'] + next.wire());
    }
    if parts.len() > 0 {
        assert(FieldView::Sub(parts.push(part)).wire() =~= FieldView::Sub(parts).wire()
            + seq!['\u{1f}'] + part);
    }
}

/// A buffer holds a whole message exactly where a 0x03 follows the first 0x02
/// and one more byte follows that.
pub proof fn whole_message(buf: Seq<u8>)
    ensures
        complete(buf) <==> exists|i: int, j: int|
            0 <= i < j && j + 1 < buf.len() && #[trigger] buf[i] == 0x02u8 && #[trigger] buf[j]
                == 0x03u8,
{
    lemma_first(buf, 0x02, 0);
    let start = super::frame_start(buf);
    lemma_first(buf, 0x03, start);
    let end = super::frame_end(buf);
    if complete(buf) {
        assert(buf[start] == 0x02u8 && buf[end] == 0x03u8);
    }
    if exists|i: int, j: int|
        0 <= i < j && j + 1 < buf.len() && #[trigger] buf[i] == 0x02u8 && #[trigger] buf[j]
            == 0x03u8 {
        let (i, j) = choose|i: int, j: int|
            0 <= i < j && j + 1 < buf.len() && #[trigger] buf[i] == 0x02u8 && #[trigger] buf[j]
                == 0x03u8;
        assert(start <= i);
        assert(end <= j);
    }
}

proof fn lemma_first(s: Seq<u8>, b: u8, from: int)
    requires
        0 <= from <= s.len(),
    ensures
        from <= super::byte_index(s, b, from) <= s.len(),
        super::byte_index(s, b, from) < s.len() ==> s[super::byte_index(s, b, from)] == b,
        forall|i: int| from <= i < super::byte_index(s, b, from) ==> s[i] != b,
    decreases s.len() - from,
{
    if from < s.len() && s[from] != b {
        lemma_first(s, b, from + 1);
    }
}

/// Which response answers which request: A00 is answered by A01, A08 by A09,
/// T00 by T01 and B00 by B01, and no other request has an expected answer.
pub proof fn requests_have_their_answers(command: Seq<char>, answer: Seq<char>)
    ensures
        response_code(command) == Some(answer) <==> (command == "A00"@ && answer == "A01"@) || (
        command == "A08"@ && answer == "A09"@) || (command == "T00"@ && answer == "T01"@) || (
        command == "B00"@ && answer == "B01"@),
{
    reveal_strlit("A00");
    reveal_strlit("A08");
    reveal_strlit("T00");
    reveal_strlit("B00");
    assert("A00"@[0] == 'A' && "A00"@[2] == '0');
    assert("A08"@[0] == 'A' && "A08"@[2] == '8');
    assert("T00"@[0] == 'T');
    assert("B00"@[0] == 'B');
}

// ---------------------------------------------------------------------------
// Replies
// ---------------------------------------------------------------------------

/// A credit reply is approved exactly where its third field is there and reads
/// 000000, and so for a ping and a batch close. Code and text are the third and
/// the fourth field.
pub proof fn approved_means_six_zeros(f: Seq<Seq<char>>)
    ensures
        credit_of(f).approved <==> f.len() > 2 && f[2] == "000000"@,
        initialize_of(f).approved <==> f.len() > 2 && f[2] == "000000"@,
        batch_of(f).settled <==> f.len() > 2 && f[2] == "000000"@,
        f.len() > 2 ==> credit_of(f).result_code == f[2] && initialize_of(f).result_code == f[2]
            && batch_of(f).result_code == f[2],
        f.len() > 3 ==> credit_of(f).result_txt == f[3] && initialize_of(f).result_txt == f[3]
            && batch_of(f).result_txt == f[3],
        f.len() <= 2 ==> credit_of(f).result_code.len() == 0 && batch_of(f).result_code.len() == 0
            && initialize_of(f).result_code.len() == 0,
        f.len() <= 3 ==> credit_of(f).result_txt.len() == 0 && batch_of(f).result_txt.len() == 0
            && initialize_of(f).result_txt.len() == 0,
{
    reveal_strlit("000000");
    assert("000000"@.len() == 6);
}

/// What a ping reply tells of the terminal: serial number, model, version and
/// MAC address are its fifth to eighth field, and empty where the reply ends
/// before.
pub proof fn ping_reply_tells(f: Seq<Seq<char>>)
    ensures
        f.len() > 4 ==> initialize_of(f).serial_number == f[4],
        f.len() > 5 ==> initialize_of(f).model == f[5],
        f.len() > 6 ==> initialize_of(f).app_version == f[6],
        f.len() > 7 ==> initialize_of(f).mac_address == f[7],
        f.len() <= 4 ==> initialize_of(f).serial_number.len() == 0,
        f.len() <= 5 ==> initialize_of(f).model.len() == 0,
        f.len() <= 6 ==> initialize_of(f).app_version.len() == 0,
        f.len() <= 7 ==> initialize_of(f).mac_address.len() == 0,
        initialize_of(f).raw == readable(f),
        initialize_of(f).latency_ms == 0,
{
}

/// Whether a list of parts survives as one field.
pub open spec fn one_field(parts: Seq<Seq<char>>) -> bool {
    parts.len() >= 1 && forall|i: int|
        0 <= i < parts.len() ==> !(#[trigger] parts[i]).contains('\u{1f}')
}

/// What the host field of a credit reply, its fifth, tells: the authorization is
/// its third part, the host reference its fourth. What is missing is empty.
pub proof fn host_field_tells(f: Seq<Seq<char>>, host: Seq<Seq<char>>)
    requires
        one_field(host),
    ensures
        ({
            let c = credit_of(f);
            let given = f.len() > 4 && f[4] == join_with(host, '\u{1f}');
            &&& given && host.len() > 2 ==> c.auth_code == host[2]
            &&& given && host.len() > 3 ==> c.host_ref_num == host[3]
            &&& given && host.len() <= 2 ==> c.auth_code.len() == 0
            &&& given && host.len() <= 3 ==> c.host_ref_num.len() == 0
            &&& f.len() <= 4 ==> c.auth_code.len() == 0 && c.host_ref_num.len() == 0
        }),
{
    assert(super::US as char == '\u{1f}');
    split_undoes_join(host, '\u{1f}');
}

/// What the amount field of a credit reply, its seventh, tells: the amount
/// charged is its first part, the tip its second. What is missing is zero.
pub proof fn amount_field_tells(f: Seq<Seq<char>>, amount: Seq<Seq<char>>)
    requires
        one_field(amount),
    ensures
        ({
            let c = credit_of(f);
            let given = f.len() > 6 && f[6] == join_with(amount, '\u{1f}');
            &&& given ==> c.approved_amount_cents == cents(amount[0])
            &&& given && amount.len() > 1 ==> c.tip_amount_cents == cents(amount[1])
            &&& given && amount.len() <= 1 ==> c.tip_amount_cents == 0
            &&& f.len() <= 6 ==> c.approved_amount_cents == 0 && c.tip_amount_cents == 0
        }),
{
    assert(super::US as char == '\u{1f}');
    split_undoes_join(amount, '\u{1f}');
    no_amount_is_zero(Seq::<char>::empty());
}

/// What the account field of a credit reply, its eighth, tells: the masked card
/// number is its first part, the card type its third, how the card was read its
/// fourth. What is missing is empty.
pub proof fn account_field_tells(f: Seq<Seq<char>>, account: Seq<Seq<char>>)
    requires
        one_field(account),
    ensures
        ({
            let c = credit_of(f);
            let given = f.len() > 7 && f[7] == join_with(account, '\u{1f}');
            &&& given ==> c.masked_pan == account[0] && c.last4 == last_digits(account[0])
            &&& given && account.len() > 2 ==> c.card_type == account[2]
            &&& given && account.len() > 3 ==> c.entry_mode == account[3]
            &&& given && account.len() <= 2 ==> c.card_type.len() == 0
            &&& given && account.len() <= 3 ==> c.entry_mode.len() == 0
            &&& f.len() <= 7 ==> c.masked_pan.len() == 0 && c.last4.len() == 0 && c.card_type.len()
                == 0 && c.entry_mode.len() == 0
        }),
{
    assert(super::US as char == '\u{1f}');
    split_undoes_join(account, '\u{1f}');
    let none = Seq::<char>::empty();
    assert(none.filter(|c: char| is_digit(c)) =~= none) by {
        reveal(Seq::filter);
    }
}

/// What the trace field of a credit reply, its ninth, tells: the reference of the
/// point of sale, the number of the transaction, its reference and the time are
/// its first four parts. What is missing is empty.
pub proof fn trace_field_tells(f: Seq<Seq<char>>, trace: Seq<Seq<char>>)
    requires
        one_field(trace),
    ensures
        ({
            let c = credit_of(f);
            let given = f.len() > 8 && f[8] == join_with(trace, '\u{1f}');
            &&& given ==> c.ecr_ref_num == trace[0]
            &&& given && trace.len() > 1 ==> c.transaction_num == trace[1]
            &&& given && trace.len() > 2 ==> c.ref_num == trace[2]
            &&& given && trace.len() > 3 ==> c.timestamp == trace[3]
            &&& given && trace.len() <= 1 ==> c.transaction_num.len() == 0
            &&& given && trace.len() <= 2 ==> c.ref_num.len() == 0
            &&& given && trace.len() <= 3 ==> c.timestamp.len() == 0
            &&& f.len() <= 8 ==> c.ecr_ref_num.len() == 0 && c.transaction_num.len() == 0
                && c.ref_num.len() == 0 && c.timestamp.len() == 0
            &&& c.raw == readable(f)
        }),
{
    assert(super::US as char == '\u{1f}');
    split_undoes_join(trace, '\u{1f}');
}

/// What a batch reply tells: the first part of its fifth field is the batch
/// number, the parts of its sixth are the count and the amount. What is missing
/// is empty or zero.
pub proof fn batch_reply_tells(f: Seq<Seq<char>>, host: Seq<Seq<char>>, totals: Seq<Seq<char>>)
    requires
        one_field(host),
        one_field(totals),
    ensures
        ({
            let b = batch_of(f);
            let counted = f.len() > 5 && f[5] == join_with(totals, '\u{1f}');
            &&& f.len() > 4 && f[4] == join_with(host, '\u{1f}') ==> b.batch_number == host[0]
            &&& f.len() <= 4 ==> b.batch_number.len() == 0
            &&& counted ==> b.credit_count == totals[0]
            &&& counted && totals.len() > 1 ==> b.credit_amount_cents == cents(totals[1])
            &&& counted && totals.len() <= 1 ==> b.credit_amount_cents == 0
            &&& f.len() <= 5 ==> b.credit_count.len() == 0 && b.credit_amount_cents == 0
            &&& b.raw == readable(f)
        }),
{
    assert(super::US as char == '\u{1f}');
    split_undoes_join(host, '\u{1f}');
    split_undoes_join(totals, '\u{1f}');
    no_amount_is_zero(Seq::<char>::empty());
}

/// A field as it is shown: a plain text is shown as it is, one of several parts
/// as the list of them.
pub proof fn fields_are_shown(f: Seq<Seq<char>>, i: int, parts: Seq<Seq<char>>)
    requires
        0 <= i < f.len(),
    ensures
        readable(f) matches JsonView::Arr(items) && items.len() == f.len() && ({
            &&& !f[i].contains('\u{1f}') ==> items[i] == JsonView::Str(f[i])
            &&& parts.len() > 1 && one_field(parts) && f[i] == join_with(parts, '\u{1f}') ==> (
            items[i] matches JsonView::Arr(subs) && subs.len() == parts.len() && forall|k: int|
                0 <= k < parts.len() ==> #[trigger] subs[k] == JsonView::Str(parts[k]))
        }),
{
    assert(super::US as char == '\u{1f}');
    if parts.len() > 1 && one_field(parts) && f[i] == join_with(parts, '\u{1f}') {
        split_undoes_join(parts, '\u{1f}');
        let head = join_with(parts.drop_last(), '\u{1f}');
        assert(f[i][head.len() as int] == '\u{1f}');
    }
}

// ---------------------------------------------------------------------------
// Amounts and card numbers
// ---------------------------------------------------------------------------

/// An amount in cents, written in decimal, reads back as itself.
pub proof fn amount_reads_back(n: i64)
    ensures
        cents(signed_numeral(n as int, 10)) == n,
{
    signed_decimal_reads_back(n);
    let s = signed_numeral(n as int, 10);
    let pred = |c: char| is_digit(c) || c == '-';
    assert forall|i: int| 0 <= i < s.len() implies pred(#[trigger] s[i]) by {
        if n < 0 {
            crate::numeral::decimal_reads_back((-n) as nat);
            if i > 0 {
                assert(s[i] == crate::numeral::decimal((-n) as nat)[i - 1]);
            }
        } else {
            crate::numeral::decimal_reads_back(n as nat);
        }
    }
    lemma_filter_all(s, pred);
}

/// Characters that are neither digits nor minus signs do not count in an
/// amount.
pub proof fn other_characters_do_not_count(a: Seq<char>, c: char, b: Seq<char>)
    requires
        !('0' <= c <= '9'),
        c != '-',
    ensures
        cents(a + seq![c] + b) == cents(a + b),
{
    let pred = |c: char| is_digit(c) || c == '-';
    lemma_filter_skips(a, c, b, pred);
}

/// A text without digits is no amount.
pub proof fn no_amount_is_zero(s: Seq<char>)
    requires
        forall|i: int| 0 <= i < s.len() ==> !('0' <= #[trigger] s[i] <= '9'),
    ensures
        cents(s) == 0,
{
    let kept = cents_chars(s);
    let pred = |c: char| is_digit(c) || c == '-';
    assert forall|i: int| 0 <= i < kept.len() implies kept[i] == '-' by {
        s.lemma_filter_pred(pred, i);
        s.lemma_filter_contains_rev(pred, kept[i]);
        let k = choose|k: int| 0 <= k < s.len() && s[k] == kept[i];
        assert(!('0' <= s[k] <= '9'));
    }
    if kept.len() > 1 {
        assert(!is_digit(kept.drop_first()[0]));
    } else if kept.len() == 1 {
        assert(kept.drop_first().len() == 0);
    }
    if kept.len() > 0 {
        assert(kept[0] == '-');
    }
}

/// The digits of a card number that are shown are its last four.
pub proof fn last_four_are_shown(front: Seq<char>, digits: Seq<char>)
    requires
        forall|i: int| 0 <= i < digits.len() ==> '0' <= #[trigger] digits[i] <= '9',
        digits.len() <= 4,
    ensures
        digits.len() == 4 ==> last_digits(front + digits) == digits,
        last_digits(digits) == digits,
{
    let pred = |c: char| is_digit(c);
    assert forall|i: int| 0 <= i < digits.len() implies pred(#[trigger] digits[i]) by {}
    lemma_filter_all(digits, pred);
    Seq::filter_distributes_over_add(front, digits, pred);
    let d = (front + digits).filter(pred);
    assert(d =~= front.filter(pred) + digits);
    if digits.len() == 4 {
        assert(last_digits(front + digits) =~= digits);
    }
    assert(last_digits(digits) =~= digits);
}

/// Other characters of a card number are never shown.
pub proof fn only_digits_are_shown(a: Seq<char>, c: char, b: Seq<char>)
    requires
        !('0' <= c <= '9'),
    ensures
        last_digits(a + seq![c] + b) == last_digits(a + b),
        last_digits(a).len() <= 4,
{
    let pred = |c: char| is_digit(c);
    lemma_filter_skips(a, c, b, pred);
}

proof fn lemma_filter_all(s: Seq<char>, pred: spec_fn(char) -> bool)
    requires
        forall|i: int| 0 <= i < s.len() ==> pred(#[trigger] s[i]),
    ensures
        s.filter(pred) == s,
    decreases s.len(),
{
    reveal(Seq::filter);
    if s.len() > 0 {
        let shorter = s.drop_last();
        assert forall|i: int| 0 <= i < shorter.len() implies pred(#[trigger] shorter[i]) by {
            assert(pred(s[i]));
        }
        lemma_filter_all(shorter, pred);
        assert(pred(s[s.len() - 1]));
        assert(shorter.push(s.last()) =~= s);
    } else {
        assert(s.filter(pred) =~= s);
    }
}

proof fn lemma_filter_skips(a: Seq<char>, c: char, b: Seq<char>, pred: spec_fn(char) -> bool)
    requires
        !pred(c),
    ensures
        (a + seq![c] + b).filter(pred) == (a + b).filter(pred),
{
    Seq::filter_distributes_over_add(a + seq![c], b, pred);
    Seq::filter_distributes_over_add(a, b, pred);
    assert((a + seq![c]).filter(pred) == a.filter(pred)) by {
        reveal(Seq::filter);
        assert((a + seq![c]).drop_last() =~= a);
        assert((a + seq![c]).last() == c);
    }
}

// ---------------------------------------------------------------------------
// Requests
// ---------------------------------------------------------------------------

/// The text of a credit request: the command T00, the version, the type of
/// transaction, the amount with the tip where there is one, nothing for the
/// account, the references, and five more fields of which the second names the
/// cashier.
pub open spec fn credit_text(
    version: Seq<char>,
    txn_type: Seq<char>,
    amount: Seq<char>,
    references: Seq<char>,
    cashier: Seq<char>,
) -> Seq<char> {
    let fs = '\u{1c}';
    "T00"@.push(fs) + version.push(fs) + txn_type.push(fs) + amount.push(fs) + seq![fs]
        + references.push(fs) + seq![fs] + cashier.push(fs) + seq![fs] + seq![fs]
}

/// What stands on the wire for a credit request.
pub proof fn credit_request_on_the_wire(input: CreditInputView, version: Seq<char>)
    ensures
        ({
            let us = seq!['\u{1f}'];
            let amount = signed_numeral(input.amount_cents as int, 10) + (if input.tip_cents != 0 {
                us + signed_numeral(input.tip_cents as int, 10)
            } else {
                Seq::empty()
            });
            let references = input.ecr_ref_num + (match input.orig_ref_num {
                Some(orig) => us + us + orig + (match input.orig_trans_num {
                    Some(trans) => us + trans,
                    None => Seq::empty(),
                }),
                None => Seq::empty(),
            });
            body_text(credit_request(input, version)) == credit_text(
                version,
                input.txn_type,
                amount,
                references,
                input.cashier_id,
            )
        }),
{
    let us = seq!['\u{1f}'];
    let amount = signed_numeral(input.amount_cents as int, 10) + (if input.tip_cents != 0 {
        us + signed_numeral(input.tip_cents as int, 10)
    } else {
        Seq::empty()
    });
    let references = input.ecr_ref_num + (match input.orig_ref_num {
        Some(orig) => us + us + orig + (match input.orig_trans_num {
            Some(trans) => us + trans,
            None => Seq::empty(),
        }),
        None => Seq::empty(),
    });
    assert(super::FS as char == '\u{1c}');
    assert(super::US as char == '\u{1f}');
    let w = wire_fields(credit_request(input, version));
    lemma_amount_text(input.amount_cents, input.tip_cents);
    lemma_trace_text(input.ecr_ref_num, input.orig_ref_num, input.orig_trans_num);
    assert(w[3] == amount);
    assert(w[5] == references);
    assert(w[0] == "T00"@ && w[1] == version && w[2] == input.txn_type && w[7] == input.cashier_id);
    let none = Seq::<char>::empty();
    assert(w[4] == none && w[6] == none && w[8] == none && w[9] == none && w[10] == none);
    lemma_join_eleven(w, '\u{1c}');
    assert(none.push('\u{1c}') =~= seq!['\u{1c}']);
    let text = credit_text(version, input.txn_type, amount, references, input.cashier_id);
    assert(text + none =~= text);
}

proof fn lemma_amount_text(amount_cents: i64, tip_cents: i64)
    ensures
        join_with(super::requests::amount_info(amount_cents, tip_cents), '\u{1f}')
            == signed_numeral(amount_cents as int, 10) + (if tip_cents != 0 {
            seq!['\u{1f}'] + signed_numeral(tip_cents as int, 10)
        } else {
            Seq::empty()
        }),
{
    reveal_with_fuel(join_with, 3);
    let parts = super::requests::amount_info(amount_cents, tip_cents);
    let amount = signed_numeral(amount_cents as int, 10);
    if tip_cents != 0 {
        let tip = signed_numeral(tip_cents as int, 10);
        assert(parts.drop_last() =~= seq![amount]);
        assert(amount.push('\u{1f}') + tip =~= amount + (seq!['\u{1f}'] + tip));
    } else {
        assert(amount + Seq::<char>::empty() =~= amount);
    }
}

proof fn lemma_trace_text(
    ecr_ref_num: Seq<char>,
    orig_ref_num: Option<Seq<char>>,
    orig_trans_num: Option<Seq<char>>,
)
    ensures
        join_with(
            super::requests::trace_info(ecr_ref_num, orig_ref_num, orig_trans_num),
            '\u{1f}',
        ) == ecr_ref_num + (match orig_ref_num {
            Some(orig) => seq!['\u{1f}'] + seq!['\u{1f}'] + orig + (match orig_trans_num {
                Some(trans) => seq!['\u{1f}'] + trans,
                None => Seq::empty(),
            }),
            None => Seq::empty(),
        }),
{
    reveal_with_fuel(join_with, 5);
    let parts = super::requests::trace_info(ecr_ref_num, orig_ref_num, orig_trans_num);
    let us = seq!['\u{1f}'];
    let e = Seq::<char>::empty();
    match orig_ref_num {
        None => {
            assert(ecr_ref_num + e =~= ecr_ref_num);
        },
        Some(orig) => {
            let three = seq![ecr_ref_num, e, orig];
            assert(three.drop_last() =~= seq![ecr_ref_num, e]);
            assert(three.drop_last().drop_last() =~= seq![ecr_ref_num]);
            assert(join_with(three, '\u{1f}') =~= ecr_ref_num + (us + us + orig));
            match orig_trans_num {
                None => {
                    assert(us + us + orig + e =~= us + us + orig);
                },
                Some(trans) => {
                    assert(parts.drop_last() =~= three);
                    assert(join_with(parts, '\u{1f}') =~= ecr_ref_num + (us + us + orig + (us
                        + trans)));
                },
            }
        },
    }
}

proof fn lemma_join_next(parts: Seq<Seq<char>>, sep: char, n: int)
    requires
        1 <= n < parts.len(),
    ensures
        join_with(parts.take(n + 1), sep) == join_with(parts.take(n), sep).push(sep) + parts[n],
{
    assert(parts.take(n + 1).drop_last() =~= parts.take(n));
}

proof fn lemma_join_eleven(p: Seq<Seq<char>>, sep: char)
    requires
        p.len() == 11,
    ensures
        join_with(p, sep) == p[0].push(sep) + p[1].push(sep) + p[2].push(sep) + p[3].push(sep)
            + p[4].push(sep) + p[5].push(sep) + p[6].push(sep) + p[7].push(sep) + p[8].push(sep)
            + p[9].push(sep) + p[10],
{
    assert(p.take(1) =~= seq![p[0]]);
    assert(p.take(11) =~= p);
    lemma_join_next(p, sep, 1);
    lemma_join_next(p, sep, 2);
    lemma_join_next(p, sep, 3);
    lemma_join_next(p, sep, 4);
    lemma_join_next(p, sep, 5);
    lemma_join_next(p, sep, 6);
    lemma_join_next(p, sep, 7);
    lemma_join_next(p, sep, 8);
    lemma_join_next(p, sep, 9);
    lemma_join_next(p, sep, 10);
    assert(join_with(p, sep) =~= p[0].push(sep) + p[1].push(sep) + p[2].push(sep) + p[3].push(sep)
        + p[4].push(sep) + p[5].push(sep) + p[6].push(sep) + p[7].push(sep) + p[8].push(sep)
        + p[9].push(sep) + p[10]);
}

/// A request field as it is logged: a plain text as it is, unless it holds parts;
/// several parts as the list of them.
pub proof fn requests_are_logged(s: Seq<char>, parts: Seq<Seq<char>>, i: int)
    ensures
        !s.contains('\u{1f}') ==> super::requests::logged_field(FieldView::Single(s))
            == JsonView::Str(s),
        super::requests::logged_field(FieldView::Sub(parts)) matches JsonView::Arr(items)
            && items.len() == parts.len() && (0 <= i < parts.len() ==> items[i] == JsonView::Str(
            parts[i],
        )),
{
    assert(super::US as char == '\u{1f}');
}

/// What the digits of an amount come to: with zeros in front or not, with a minus
/// sign in front or not, the number they denote, and zero where that does not fit
/// 64 bits or a minus sign stands after a digit.
pub proof fn amounts_are_read(s: Seq<char>, t: Seq<char>, c: char)
    requires
        s.len() > 0,
        forall|i: int| 0 <= i < s.len() ==> '0' <= #[trigger] s[i] <= '9',
        '0' <= c <= '9',
    ensures
        digits_value(s) <= i64::MAX ==> cents(s) == digits_value(s),
        digits_value(s) > i64::MAX ==> cents(s) == 0,
        digits_value(s) <= i64::MAX ==> cents(seq!['-'] + s) == -(digits_value(s) as int),
        cents(s + seq!['-'] + t) == 0,
        digits_value(s.push(c)) == digits_value(s) * 10 + (c as u32 - '0' as u32),
        digits_value(Seq::empty()) == 0,
{
    lemma_plain_amount(s);
    lemma_minus_in_front(s);
    lemma_minus_inside(s, t);
    lemma_one_more_digit(s, c);
}

proof fn lemma_plain_amount(s: Seq<char>)
    requires
        s.len() > 0,
        forall|i: int| 0 <= i < s.len() ==> '0' <= #[trigger] s[i] <= '9',
    ensures
        digits_value(s) <= i64::MAX ==> cents(s) == digits_value(s),
        digits_value(s) > i64::MAX ==> cents(s) == 0,
{
    let pred = |c: char| is_digit(c) || c == '-';
    assert forall|i: int| 0 <= i < s.len() implies pred(#[trigger] s[i]) by {}
    lemma_filter_all(s, pred);
    assert forall|i: int| 0 <= i < s.len() implies is_digit(#[trigger] s[i]) by {}
    assert('0' <= s[0] <= '9');
}

proof fn lemma_minus_in_front(s: Seq<char>)
    requires
        s.len() > 0,
        forall|i: int| 0 <= i < s.len() ==> '0' <= #[trigger] s[i] <= '9',
    ensures
        digits_value(s) <= i64::MAX ==> cents(seq!['-'] + s) == -(digits_value(s) as int),
{
    let pred = |c: char| is_digit(c) || c == '-';
    let minus = seq!['-'] + s;
    assert forall|i: int| 0 <= i < minus.len() implies pred(#[trigger] minus[i]) by {
        if i > 0 {
            assert(minus[i] == s[i - 1]);
        }
    }
    lemma_filter_all(minus, pred);
    assert forall|i: int| 0 <= i < s.len() implies is_digit(#[trigger] s[i]) by {}
    assert(minus.drop_first() =~= s);
    assert(minus[0] == '-');
}

proof fn lemma_one_more_digit(s: Seq<char>, c: char)
    requires
        '0' <= c <= '9',
    ensures
        digits_value(s.push(c)) == digits_value(s) * 10 + (c as u32 - '0' as u32),
        digits_value(Seq::empty()) == 0,
{
    assert(s.push(c).drop_last() =~= s);
}

proof fn lemma_minus_inside(s: Seq<char>, t: Seq<char>)
    requires
        s.len() > 0,
        forall|i: int| 0 <= i < s.len() ==> '0' <= #[trigger] s[i] <= '9',
    ensures
        cents(s + seq!['-'] + t) == 0,
{
    let pred = |c: char| is_digit(c) || c == '-';
    let dash = seq!['-'];
    Seq::filter_distributes_over_add(s + dash, t, pred);
    Seq::filter_distributes_over_add(s, dash, pred);
    assert forall|i: int| 0 <= i < s.len() implies pred(#[trigger] s[i]) by {}
    assert forall|i: int| 0 <= i < dash.len() implies pred(#[trigger] dash[i]) by {}
    lemma_filter_all(s, pred);
    lemma_filter_all(dash, pred);
    let kept = cents_chars(s + dash + t);
    assert(kept == s + dash + t.filter(pred));
    assert(kept[0] == s[0]);
    assert(kept[s.len() as int] == '-');
    assert('0' <= s[0] <= '9');
    assert(!is_digit(kept[s.len() as int]));
    assert(!all_digits(kept));
}

}
