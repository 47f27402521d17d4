//! What batch closes, terminal bodies and cancels come to.
use vstd::prelude::*;

use super::payments::with_void_settled;
use super::terminals::{
    batch_info, batch_reply, busy_batch_reply, busy_ping_reply, device_fields, made_on,
    nothing_in_flight, refused, row_ids, terminal_reply, unsettled_on,
};
use super::validate::terminal_errors;
use crate::db::record_laws::{settled_record_holds, unsettled_means};
use crate::db::terminal::{terminal_fields, NumberReading, TerminalView};
use crate::db::{row_with_id, settle_rows, unsettled, DbView, TerminalNumbers};
use crate::json::{flag_field, text_field, Fields, JsonView, Number};
use crate::protocol::responses::{
    batch_fields, credit_fields, initialize_fields, BatchView, CreditView, InitializeView,
};
use crate::protocol::PaxErrorView;
use crate::text::trimmed;

verus! {

// ---------------------------------------------------------------------------
// Batch close
// ---------------------------------------------------------------------------

/// Every transaction that a batch close is to settle is in the log, was approved,
/// was made on that terminal, is a sale, an authorization or a return, and is not
/// settled yet.
pub proof fn batch_holds_only_its_own(rows: Seq<Fields>, terminal_id: Seq<char>, row: Fields)
    requires
        unsettled_on(rows, terminal_id).contains(row),
    ensures
        rows.contains(row),
        text_field(row, "status"@) == Some("APPROVED"@),
        text_field(row, "terminalId"@) == Some(terminal_id),
        text_field(row, "type"@) == Some("SALE"@) || text_field(row, "type"@) == Some("AUTH"@)
            || text_field(row, "type"@) == Some("RETURN"@),
        flag_field(row, "settled"@) != Some(true),
{
    let first = |row: Fields| unsettled(row);
    let second = |row: Fields| made_on(row, terminal_id);
    let open = rows.filter(first);
    let batch = open.filter(second);
    let k = choose|k: int| 0 <= k < batch.len() && batch[k] == row;
    open.lemma_filter_pred(second, k);
    open.lemma_filter_contains_rev(second, row);
    let j = choose|j: int| 0 <= j < open.len() && open[j] == row;
    rows.lemma_filter_pred(first, j);
    rows.lemma_filter_contains_rev(first, row);
    unsettled_means(row);
}

/// Every transaction of the log that is approved, made on the terminal, a sale,
/// an authorization or a return, and not settled, is in the batch.
pub proof fn batch_holds_all_its_own(rows: Seq<Fields>, terminal_id: Seq<char>, i: int)
    requires
        0 <= i < rows.len(),
        text_field(rows[i], "status"@) == Some("APPROVED"@),
        text_field(rows[i], "terminalId"@) == Some(terminal_id),
        text_field(rows[i], "type"@) == Some("SALE"@) || text_field(rows[i], "type"@) == Some(
            "AUTH"@,
        ) || text_field(rows[i], "type"@) == Some("RETURN"@),
        flag_field(rows[i], "settled"@) != Some(true),
    ensures
        unsettled_on(rows, terminal_id).contains(rows[i]),
{
    let first = |row: Fields| unsettled(row);
    let second = |row: Fields| made_on(row, terminal_id);
    unsettled_means(rows[i]);
    assert(first(rows[i]));
    rows.lemma_filter_contains(first, i);
    let open = rows.filter(first);
    let j = choose|j: int| 0 <= j < open.len() && open[j] == rows[i];
    assert(second(open[j]));
    open.lemma_filter_contains(second, j);
}

/// Once a void of a transaction was approved, no batch lists that transaction.
pub proof fn voided_is_in_no_batch(
    db: DbView,
    orig: Fields,
    orig_id: Seq<char>,
    record: Fields,
    now: Seq<char>,
    today: Seq<char>,
    terminal_id: Seq<char>,
)
    requires
        row_with_id(db.transactions, orig_id) == Some(orig),
        text_field(record, "status"@) == Some("APPROVED"@),
    ensures
        ({
            let after = with_void_settled(db, orig_id, record, now, today).transactions;
            &&& row_with_id(after, orig_id) matches Some(found)
            &&& !unsettled_on(after, terminal_id).contains(found)
        }),
{
    super::laws::voided_only_once(db, orig, orig_id, record, now, today);
    let after = with_void_settled(db, orig_id, record, now, today).transactions;
    let found = row_with_id(after, orig_id)->0;
    unsettled_means(found);
    if unsettled_on(after, terminal_id).contains(found) {
        batch_holds_only_its_own(after, terminal_id, found);
        reveal_strlit("VOIDED");
        reveal_strlit("APPROVED");
        assert("VOIDED"@.len() != "APPROVED"@.len());
    }
}

proof fn lemma_row_ids(rows: Seq<Fields>, id: Seq<char>)
    ensures
        row_ids(rows).contains(id) <==> exists|k: int|
            0 <= k < rows.len() && text_field(#[trigger] rows[k], "id"@) == Some(id),
    decreases rows.len(),
{
    if rows.len() > 0 {
        let shorter = rows.drop_last();
        lemma_row_ids(shorter, id);
        let ids = row_ids(shorter);
        let n = rows.len() - 1;
        if row_ids(rows).contains(id) {
            if ids.contains(id) {
                let k = choose|k: int|
                    0 <= k < shorter.len() && text_field(#[trigger] shorter[k], "id"@) == Some(id);
                assert(text_field(rows[k], "id"@) == Some(id));
            } else {
                let k = choose|k: int| 0 <= k < row_ids(rows).len() && row_ids(rows)[k] == id;
                if k < ids.len() {
                    assert(ids[k] == id);
                }
                assert(text_field(rows[n], "id"@) == Some(id));
            }
        }
        if exists|k: int|
            0 <= k < rows.len() && text_field(#[trigger] rows[k], "id"@) == Some(id) {
            let k = choose|k: int|
                0 <= k < rows.len() && text_field(#[trigger] rows[k], "id"@) == Some(id);
            if k < n {
                assert(text_field(shorter[k], "id"@) == Some(id));
                let j = choose|j: int| 0 <= j < ids.len() && ids[j] == id;
                assert(row_ids(rows)[j] == id);
            } else {
                assert(row_ids(rows)[ids.len() as int] == id);
            }
        }
    }
}

/// What a batch that settled does to the log: each of its transactions that has
/// an id is marked as settled and knows its batch; a transaction whose id is not
/// in the batch, or that has none, is left as it is.
pub proof fn batch_settles_its_own(
    rows: Seq<Fields>,
    terminal_id: Seq<char>,
    number: Seq<char>,
    settled_at: Seq<char>,
    now: Seq<char>,
    i: int,
)
    requires
        0 <= i < rows.len(),
    ensures
        ({
            let batch = unsettled_on(rows, terminal_id);
            let info = batch_info(number, settled_at);
            let after = settle_rows(rows, row_ids(batch), info, now);
            let row = rows[i];
            let listed = text_field(row, "id"@) matches Some(id) && exists|k: int|
                0 <= k < batch.len() && text_field(#[trigger] batch[k], "id"@) == Some(id);
            &&& after.len() == rows.len()
            &&& listed ==> flag_field(after[i], "settled"@) == Some(true) && (
            after[i]["batchInfo"@] matches JsonView::Obj(o) && o["batchNumber"@] == JsonView::Str(
                number,
            ) && o["settledAt"@] == JsonView::Str(settled_at)) && text_field(after[i], "updatedAt"@)
                == Some(now)
            &&& !listed ==> after[i] == row
            &&& batch.contains(row) && text_field(row, "id"@) is Some ==> listed
        }),
{
    let batch = unsettled_on(rows, terminal_id);
    let info = batch_info(number, settled_at);
    let row = rows[i];
    if let Some(id) = text_field(row, "id"@) {
        lemma_row_ids(batch, id);
        if batch.contains(row) {
            let k = choose|k: int| 0 <= k < batch.len() && batch[k] == row;
            assert(text_field(batch[k], "id"@) == Some(id));
        }
    }
    settled_record_holds(row, info, now, "status"@);
    reveal_strlit("batchNumber");
    reveal_strlit("settledAt");
    assert("batchNumber"@.len() == 11 && "settledAt"@.len() == 9);
}

/// A batch close is answered with what the terminal said and how many
/// transactions it settled.
pub proof fn batch_answer(batch: Fields, count: usize)
    requires
        count <= i64::MAX,
    ensures
        batch_reply(batch, count as int).status == 200,
        batch_reply(batch, count as int).body matches Some(JsonView::Obj(body)) && body["result"@]
            == JsonView::Obj(batch) && body["settledCount"@] == JsonView::Num(
            Number::Int(count as i64),
        ),
{
    reveal_strlit("result");
    reveal_strlit("settledCount");
    assert("result"@.len() == 6 && "settledCount"@.len() == 12);
}

// ---------------------------------------------------------------------------
// What a terminal body must hold
// ---------------------------------------------------------------------------

/// Whether a body gives a text that is more than whitespace.
pub open spec fn says(body: Fields, key: Seq<char>) -> bool {
    text_field(body, key) matches Some(s) && trimmed(s).len() > 0
}

/// Whether a number that a body gives is positive.
pub open spec fn number_ok(body: Fields, key: Seq<char>, reading: Option<NumberReading>) -> bool {
    body.contains_key(key) ==> (reading matches Some(n) && !n.non_positive)
}

/// Which bodies make a new terminal: those with a name; with no connection type,
/// `tcp` or `usb`; with an address and a positive port for TCP, a path and a
/// positive rate for USB; and with no model or one of the two.
pub proof fn new_terminal_bodies(body: Fields, numbers: TerminalNumbers)
    ensures
        terminal_errors(body, false, numbers).len() == 0 <==> {
            let usb = text_field(body, "connType"@) == Some("usb"@);
            &&& says(body, "name"@)
            &&& text_field(body, "connType"@) is None || text_field(body, "connType"@) == Some(
                "tcp"@,
            ) || usb
            &&& usb ==> says(body, "serialPath"@) && number_ok(
                body,
                "baudRate"@,
                numbers.baud_rate,
            )
            &&& !usb ==> says(body, "ip"@) && number_ok(body, "port"@, numbers.port)
            &&& text_field(body, "model"@) is None || text_field(body, "model"@) == Some(
                "A920 Pro"@,
            ) || text_field(body, "model"@) == Some("A35"@)
        },
{
    reveal_strlit("tcp");
    reveal_strlit("usb");
    assert("tcp"@[0] != "usb"@[0]);
}

/// Which bodies can change a terminal: a name they give is not blank, a
/// connection type they give is `tcp` or `usb` and comes with an address that is
/// not blank and a positive number, and a model they give is one of the two.
pub proof fn change_terminal_bodies(body: Fields, numbers: TerminalNumbers)
    ensures
        terminal_errors(body, true, numbers).len() == 0 <==> {
            let kind = text_field(body, "connType"@);
            &&& body.contains_key("name"@) ==> says(body, "name"@)
            &&& kind is None || kind == Some("tcp"@) || kind == Some("usb"@)
            &&& kind == Some("usb"@) ==> says(body, "serialPath"@) && number_ok(
                body,
                "baudRate"@,
                numbers.baud_rate,
            )
            &&& kind == Some("tcp"@) ==> says(body, "ip"@) && number_ok(body, "port"@, numbers.port)
            &&& text_field(body, "model"@) is None || text_field(body, "model"@) == Some(
                "A920 Pro"@,
            ) || text_field(body, "model"@) == Some("A35"@)
        },
{
    reveal_strlit("tcp");
    reveal_strlit("usb");
    assert("tcp"@[0] != "usb"@[0]);
}

/// Each thing that is wrong with a new terminal is named, and each name given is
/// of something wrong.
pub proof fn wrong_things_are_named(body: Fields, numbers: TerminalNumbers)
    ensures
        ({
            let errors = terminal_errors(body, false, numbers);
            let usb = text_field(body, "connType"@) == Some("usb"@);
            let tcp = text_field(body, "connType"@) is None || text_field(body, "connType"@) == Some(
                "tcp"@,
            );
            &&& !says(body, "name"@) ==> errors.contains("name is required"@)
            &&& !usb && !tcp ==> errors.contains("connType must be 'tcp' or 'usb'"@)
            &&& usb && !says(body, "serialPath"@) ==> errors.contains(
                "serialPath is required for USB terminals"@,
            )
            &&& usb && !number_ok(body, "baudRate"@, numbers.baud_rate) ==> errors.contains(
                "baudRate must be a positive number"@,
            )
            &&& tcp && !says(body, "ip"@) ==> errors.contains(
                "ip is required for LAN (TCP) terminals"@,
            )
            &&& tcp && !number_ok(body, "port"@, numbers.port) ==> errors.contains(
                "port must be a positive number"@,
            )
            &&& (text_field(body, "model"@) matches Some(m) && m != "A920 Pro"@ && m != "A35"@)
                ==> errors.contains("model must be one of: A920 Pro, A35"@)
        }),
{
    reveal_strlit("tcp");
    reveal_strlit("usb");
    assert("tcp"@[0] != "usb"@[0]);
    let a = super::validate::name_errors(body, false);
    let b = super::validate::conn_type_errors(body);
    let c = super::validate::address_errors(body, false, numbers);
    let d = super::validate::model_errors(body);
    let errors = terminal_errors(body, false, numbers);
    if a.len() > 0 {
        assert(errors[0] == a[0]);
    }
    if b.len() > 0 {
        assert(errors[a.len() as int] == b[0]);
    }
    if c.len() > 0 {
        assert(errors[(a.len() + b.len()) as int] == c[0]);
    }
    if c.len() > 1 {
        assert(errors[(a.len() + b.len() + 1) as int] == c[1]);
    }
    if d.len() > 0 {
        assert(errors[(a.len() + b.len() + c.len()) as int] == d[0]);
    }
}

/// A body with something wrong is answered with 400, and the things wrong are
/// listed with semicolons between them.
pub proof fn wrong_bodies_are_answered(errors: Seq<Seq<char>>, next: Seq<char>)
    ensures
        super::payment_laws::refused_with(refused(seq![next]), 400, "VALIDATION"@, next),
        errors.len() > 0 ==> super::payment_laws::refused_with(
            refused(errors.push(next)),
            400,
            "VALIDATION"@,
            crate::text::join_between(errors, "; "@) + "; "@ + next,
        ),
{
    super::payment_laws::refusals(crate::text::join_between(errors.push(next), "; "@), next);
    super::payment_laws::refusals(crate::text::join_between(seq![next], "; "@), next);
    assert(errors.push(next).drop_last() =~= errors);
}

/// A terminal is shown under `terminal`, with the status given.
pub proof fn terminal_answer(status: u16, t: TerminalView)
    ensures
        terminal_reply(status, t).status == status,
        terminal_reply(status, t).body matches Some(JsonView::Obj(body)) && body["terminal"@]
            == JsonView::Obj(terminal_fields(t)),
{
}

// ---------------------------------------------------------------------------
// Pings and cancels
// ---------------------------------------------------------------------------

/// A busy terminal is answered with 409 and TERMINAL_BUSY, by a ping as one that
/// is online; a cancel with nothing to cancel with 409 and NOT_IN_FLIGHT.
pub proof fn busy_and_idle_answers()
    ensures
        super::payment_laws::refused_with(
            busy_ping_reply(),
            409,
            "TERMINAL_BUSY"@,
            "Terminal is busy"@,
        ),
        busy_ping_reply().body matches Some(JsonView::Obj(body)) && body["online"@]
            == JsonView::Bool(true),
        super::payment_laws::refused_with(
            busy_batch_reply(),
            409,
            "TERMINAL_BUSY"@,
            "Terminal is busy"@,
        ),
        super::payment_laws::refused_with(
            nothing_in_flight(),
            409,
            "NOT_IN_FLIGHT"@,
            "No command is currently in flight for this terminal."@,
        ),
{
    reveal_strlit("code");
    reveal_strlit("message");
    reveal_strlit("hint");
    reveal_strlit("error");
    reveal_strlit("online");
    assert("code"@.len() == 4 && "message"@.len() == 7 && "hint"@.len() == 4);
    assert("code"@[0] == 'c' && "hint"@[0] == 'h' && "error"@.len() == 5 && "online"@.len() == 6);
}

/// What is told of the cancel sent to the terminal: that it was sent, or that it
/// was not and why.
pub proof fn device_cancel_is_told(err: Option<PaxErrorView>)
    ensures
        flag_field(device_fields(err), "sent"@) == Some(err is None),
        err matches Some(e) ==> text_field(device_fields(err), "code"@) == Some(e.code)
            && text_field(device_fields(err), "message"@) == Some(e.message),
        err is None ==> !device_fields(err).contains_key("code"@),
{
    reveal_strlit("sent");
    reveal_strlit("code");
    reveal_strlit("message");
    assert("sent"@[0] == 's' && "code"@[0] == 'c' && "message"@.len() == 7);
    assert("sent"@.len() == 4 && "code"@.len() == 4);
}

// ---------------------------------------------------------------------------
// What replies of the terminal are shown as
// ---------------------------------------------------------------------------

/// What is shown of a credit reply: all that it tells, under its names.
pub proof fn credit_is_shown(c: CreditView)
    ensures
        ({
            let f = credit_fields(c);
            &&& text_field(f, "resultCode"@) == Some(c.result_code)
            &&& text_field(f, "resultTxt"@) == Some(c.result_txt)
            &&& flag_field(f, "approved"@) == Some(c.approved)
            &&& text_field(f, "authCode"@) == Some(c.auth_code)
            &&& text_field(f, "hostRefNum"@) == Some(c.host_ref_num)
            &&& text_field(f, "refNum"@) == Some(c.ref_num)
            &&& text_field(f, "transactionNum"@) == Some(c.transaction_num)
            &&& text_field(f, "ecrRefNum"@) == Some(c.ecr_ref_num)
            &&& text_field(f, "maskedPAN"@) == Some(c.masked_pan)
            &&& text_field(f, "last4"@) == Some(c.last4)
            &&& text_field(f, "cardType"@) == Some(c.card_type)
            &&& text_field(f, "entryMode"@) == Some(c.entry_mode)
            &&& f["approvedAmountCents"@] == JsonView::Num(Number::Int(c.approved_amount_cents))
            &&& f["tipAmountCents"@] == JsonView::Num(Number::Int(c.tip_amount_cents))
            &&& text_field(f, "timestamp"@) == Some(c.timestamp)
            &&& f["raw"@] == c.raw
        }),
{
    reveal_strlit("resultCode");
    reveal_strlit("resultTxt");
    reveal_strlit("approved");
    reveal_strlit("authCode");
    reveal_strlit("hostRefNum");
    reveal_strlit("refNum");
    reveal_strlit("transactionNum");
    reveal_strlit("ecrRefNum");
    reveal_strlit("maskedPAN");
    reveal_strlit("last4");
    reveal_strlit("cardType");
    reveal_strlit("entryMode");
    reveal_strlit("approvedAmountCents");
    reveal_strlit("tipAmountCents");
    reveal_strlit("timestamp");
    reveal_strlit("raw");
    assert("resultCode"@.len() == 10 && "hostRefNum"@.len() == 10 && "resultTxt"@.len() == 9);
    assert("approved"@.len() == 8 && "authCode"@.len() == 8 && "cardType"@.len() == 8);
    assert("refNum"@.len() == 6 && "transactionNum"@.len() == 14 && "tipAmountCents"@.len() == 14);
    assert("ecrRefNum"@.len() == 9 && "maskedPAN"@.len() == 9 && "entryMode"@.len() == 9);
    assert("timestamp"@.len() == 9 && "last4"@.len() == 5 && "approvedAmountCents"@.len() == 19);
    assert("raw"@.len() == 3);
    assert("resultCode"@[0] == 'r' && "hostRefNum"@[0] == 'h');
    assert("approved"@[1] == 'p' && "authCode"@[1] == 'u' && "cardType"@[1] == 'a');
    assert("transactionNum"@[1] == 'r' && "tipAmountCents"@[1] == 'i');
    assert("resultTxt"@[0] == 'r' && "ecrRefNum"@[0] == 'e' && "ecrRefNum"@[1] == 'c');
    assert("maskedPAN"@[0] == 'm' && "entryMode"@[1] == 'n' && "timestamp"@[0] == 't');
    assert("entryMode"@[0] == 'e' && "ecrRefNum"@[0] == 'e');
}

/// What is shown of a batch reply and of a ping: all that they tell, under their
/// names.
pub proof fn batch_and_ping_are_shown(b: BatchView, v: InitializeView)
    ensures
        ({
            let f = batch_fields(b);
            &&& text_field(f, "resultCode"@) == Some(b.result_code)
            &&& text_field(f, "resultTxt"@) == Some(b.result_txt)
            &&& flag_field(f, "settled"@) == Some(b.settled)
            &&& text_field(f, "batchNumber"@) == Some(b.batch_number)
            &&& text_field(f, "creditCount"@) == Some(b.credit_count)
            &&& f["creditAmountCents"@] == JsonView::Num(Number::Int(b.credit_amount_cents))
            &&& f["raw"@] == b.raw
        }),
        ({
            let f = initialize_fields(v);
            &&& text_field(f, "resultCode"@) == Some(v.result_code)
            &&& text_field(f, "resultTxt"@) == Some(v.result_txt)
            &&& flag_field(f, "approved"@) == Some(v.approved)
            &&& text_field(f, "serialNumber"@) == Some(v.serial_number)
            &&& text_field(f, "model"@) == Some(v.model)
            &&& text_field(f, "appVersion"@) == Some(v.app_version)
            &&& text_field(f, "macAddress"@) == Some(v.mac_address)
            &&& f["raw"@] == v.raw
            &&& f["latencyMs"@] == JsonView::Num(Number::Int(v.latency_ms))
        }),
{
    reveal_strlit("resultCode");
    reveal_strlit("resultTxt");
    reveal_strlit("settled");
    reveal_strlit("batchNumber");
    reveal_strlit("creditCount");
    reveal_strlit("creditAmountCents");
    reveal_strlit("raw");
    reveal_strlit("approved");
    reveal_strlit("serialNumber");
    reveal_strlit("model");
    reveal_strlit("appVersion");
    reveal_strlit("macAddress");
    reveal_strlit("latencyMs");
    assert("resultCode"@.len() == 10 && "macAddress"@.len() == 10 && "appVersion"@.len() == 10);
    assert("resultTxt"@.len() == 9 && "latencyMs"@.len() == 9 && "settled"@.len() == 7);
    assert("batchNumber"@.len() == 11 && "creditCount"@.len() == 11);
    assert("creditAmountCents"@.len() == 17 && "raw"@.len() == 3 && "approved"@.len() == 8);
    assert("serialNumber"@.len() == 12 && "model"@.len() == 5);
    assert("resultCode"@[0] == 'r' && "macAddress"@[0] == 'm' && "appVersion"@[0] == 'a');
    assert("resultTxt"@[0] == 'r' && "latencyMs"@[0] == 'l');
    assert("batchNumber"@[0] == 'b' && "creditCount"@[0] == 'c');
}

}
