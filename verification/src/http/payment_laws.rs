//! What a payment comes to, from the request to the record, the reply and the
//! event.
use vstd::prelude::*;
use vstd::utf8::encode_utf8;

use super::late::{
    late_event, late_patch, late_void, late_void_command, late_void_event, late_void_patch,
};
use super::payments::{
    event_fields, finished_record, is_finished, is_started, lifecycle_type, named_original,
    named_terminal, not_cancelable, payment_command, payment_event, payment_patch, payment_record,
    payment_ref, payment_reply, payment_status, void_plan, voidable, with_payment,
    with_void_settled, FinishedPayment, PaymentKindView, PlanView, StartedPayment,
};
use super::{error_entry, pax_error_fields, pax_error_reply, ReplyView};
use crate::db::laws::created_row_is_found;
use crate::db::terminal::{terminal_with_id, TerminalView};
use crate::db::{patched_row_is_found, row_with_id, updated_record, DbView};
use crate::json::{flag_field, int_field, text_field, Fields, JsonView};
use crate::numeral::signed_numeral;
use crate::protocol::laws::{credit_request_on_the_wire, credit_text, requests_have_their_answers};
use crate::protocol::responses::{credit_fields, credit_of, CreditView};
use crate::protocol::{frame, PaxErrorView};
use crate::transport::{refund_input, sale_input, void_input};

verus! {

// ---------------------------------------------------------------------------
// The record that a payment starts with
// ---------------------------------------------------------------------------

proof fn lemma_start_keys()
    ensures
        "id"@ != "createdAt"@ && "id"@ != "updatedAt"@ && "id"@ != "status"@,
        "id"@ != "terminalId"@ && "id"@ != "terminalName"@ && "id"@ != "type"@,
        "id"@ != "amountCents"@ && "id"@ != "tipCents"@ && "id"@ != "orderRef"@,
        "id"@ != "ecrRefNum"@ && "id"@ != "voidOfTxnId"@ && "id"@ != "voidOfRefNum"@,
        "createdAt"@ != "terminalId"@ && "createdAt"@ != "terminalName"@ && "createdAt"@ != "type"@,
        "createdAt"@ != "amountCents"@ && "createdAt"@ != "tipCents"@ && "createdAt"@
            != "orderRef"@,
        "createdAt"@ != "ecrRefNum"@ && "createdAt"@ != "voidOfTxnId"@ && "createdAt"@
            != "voidOfRefNum"@ && "createdAt"@ != "status"@ && "createdAt"@ != "updatedAt"@,
        "terminalId"@ != "terminalName"@ && "terminalId"@ != "type"@ && "terminalId"@
            != "amountCents"@ && "terminalId"@ != "tipCents"@ && "terminalId"@ != "orderRef"@
            && "terminalId"@ != "ecrRefNum"@ && "terminalId"@ != "status"@ && "terminalId"@
            != "voidOfTxnId"@ && "terminalId"@ != "voidOfRefNum"@,
        "terminalName"@ != "type"@ && "terminalName"@ != "amountCents"@ && "terminalName"@
            != "tipCents"@ && "terminalName"@ != "orderRef"@ && "terminalName"@ != "ecrRefNum"@
            && "terminalName"@ != "status"@ && "terminalName"@ != "voidOfTxnId"@
            && "terminalName"@ != "voidOfRefNum"@,
        "type"@ != "amountCents"@ && "type"@ != "tipCents"@ && "type"@ != "orderRef"@ && "type"@
            != "ecrRefNum"@ && "type"@ != "status"@ && "type"@ != "voidOfTxnId"@ && "type"@
            != "voidOfRefNum"@,
        "amountCents"@ != "tipCents"@ && "amountCents"@ != "orderRef"@ && "amountCents"@
            != "ecrRefNum"@ && "amountCents"@ != "status"@ && "amountCents"@ != "voidOfTxnId"@
            && "amountCents"@ != "voidOfRefNum"@,
        "tipCents"@ != "orderRef"@ && "tipCents"@ != "ecrRefNum"@ && "tipCents"@ != "status"@
            && "tipCents"@ != "voidOfTxnId"@ && "tipCents"@ != "voidOfRefNum"@,
        "orderRef"@ != "ecrRefNum"@ && "orderRef"@ != "status"@ && "orderRef"@ != "voidOfTxnId"@
            && "orderRef"@ != "voidOfRefNum"@,
        "ecrRefNum"@ != "status"@ && "ecrRefNum"@ != "voidOfTxnId"@ && "ecrRefNum"@
            != "voidOfRefNum"@,
        "status"@ != "voidOfTxnId"@ && "status"@ != "voidOfRefNum"@,
        "voidOfTxnId"@ != "voidOfRefNum"@,
        "updatedAt"@ != "status"@ && "updatedAt"@ != "voidOfTxnId"@ && "updatedAt"@
            != "voidOfRefNum"@,
{
    reveal_strlit("id");
    reveal_strlit("createdAt");
    reveal_strlit("updatedAt");
    reveal_strlit("terminalId");
    reveal_strlit("terminalName");
    reveal_strlit("type");
    reveal_strlit("amountCents");
    reveal_strlit("tipCents");
    reveal_strlit("orderRef");
    reveal_strlit("ecrRefNum");
    reveal_strlit("status");
    reveal_strlit("voidOfTxnId");
    reveal_strlit("voidOfRefNum");
    assert("id"@.len() == 2 && "createdAt"@.len() == 9 && "updatedAt"@.len() == 9);
    assert("terminalId"@.len() == 10 && "terminalName"@.len() == 12 && "type"@.len() == 4);
    assert("amountCents"@.len() == 11 && "tipCents"@.len() == 8 && "orderRef"@.len() == 8);
    assert("ecrRefNum"@.len() == 9 && "status"@.len() == 6 && "voidOfTxnId"@.len() == 11);
    assert("voidOfRefNum"@.len() == 12);
    assert("createdAt"@[0] == 'c' && "updatedAt"@[0] == 'u' && "ecrRefNum"@[0] == 'e');
    assert("tipCents"@[0] == 't' && "orderRef"@[0] == 'o');
    assert("amountCents"@[0] == 'a' && "voidOfTxnId"@[0] == 'v');
    assert("terminalName"@[0] == 't' && "voidOfRefNum"@[0] == 'v');
}

/// The record of a payment, looked up by its id before anything is sent, says
/// what was asked for: SALE for a sale, RETURN for a refund, VOID for a void, the
/// amount, the tip of a sale, the terminal, the order, and the reference number;
/// and that it is pending. A void also names the transaction it is for.
pub proof fn record_says_what_was_asked_for(
    db: DbView,
    plan: PlanView,
    key: Seq<char>,
    id: Seq<char>,
    now: Seq<char>,
    today: Seq<char>,
)
    ensures
        ({
            let after = with_payment(db, plan, key, id, now, today);
            &&& row_with_id(after.transactions, id) matches Some(r)
            &&& text_field(r, "id"@) == Some(id)
            &&& text_field(r, "type"@) == Some(
                match plan.kind {
                    PaymentKindView::Sale { .. } => "SALE"@,
                    PaymentKindView::Refund => "RETURN"@,
                    PaymentKindView::Void { .. } => "VOID"@,
                },
            )
            &&& int_field(r, "amountCents"@) == Some(plan.amount_cents)
            &&& int_field(r, "tipCents"@) == Some(
                match plan.kind {
                    PaymentKindView::Sale { tip_cents } => tip_cents,
                    _ => 0i64,
                },
            )
            &&& text_field(r, "terminalId"@) == Some(plan.terminal.id)
            &&& text_field(r, "terminalName"@) == Some(plan.terminal.name)
            &&& text_field(r, "orderRef"@) == plan.order_ref
            &&& text_field(r, "ecrRefNum"@) == Some(payment_ref(db, key))
            &&& text_field(r, "status"@) == Some("PENDING"@)
            &&& text_field(r, "createdAt"@) == Some(now)
            &&& plan.kind matches PaymentKindView::Void { orig_id, orig_ref_num, .. } ==> text_field(
                r,
                "voidOfTxnId"@,
            ) == Some(orig_id) && text_field(r, "voidOfRefNum"@) == Some(orig_ref_num)
            &&& !(plan.kind is Void) ==> !r.contains_key("voidOfTxnId"@) && !r.contains_key(
                "voidOfRefNum"@,
            )
            &&& after.transactions.len() == db.transactions.len() + 1
            &&& db.next_seq(key) <= u32::MAX ==> after.next_seq(key) == db.next_seq(key) + 1
        }),
{
    lemma_start_keys();
    let record = payment_record(plan, payment_ref(db, key), id, now);
    assert(text_field(record, "id"@) == Some(id));
    created_row_is_found(db.with_next_seq(key), record, id, today);
}

/// Sales, refunds and voids are told apart by the type on their records.
pub proof fn kinds_are_told_apart()
    ensures
        "SALE"@ != "RETURN"@,
        "SALE"@ != "VOID"@,
        "RETURN"@ != "VOID"@,
        "AUTH"@ != "VOID"@,
{
    reveal_strlit("SALE");
    reveal_strlit("RETURN");
    reveal_strlit("VOID");
    reveal_strlit("AUTH");
    assert("SALE"@[0] == 'S' && "RETURN"@.len() == 6 && "VOID"@[0] == 'V' && "AUTH"@[0] == 'A');
    assert("SALE"@.len() == 4 && "VOID"@.len() == 4);
}

// ---------------------------------------------------------------------------
// Who pays where
// ---------------------------------------------------------------------------

/// A payment goes to the terminal whose id the body gives as `terminalId`, a
/// void to the transaction whose id it gives as `origTxnId`.
pub proof fn body_names_terminal_and_original(db: DbView, body: Fields)
    ensures
        named_terminal(db, body) matches Some(t) ==> body.contains_key("terminalId"@)
            && body["terminalId"@] == JsonView::Str(t.id) && db.terminals.contains(t),
        text_field(body, "terminalId"@) matches Some(id) ==> named_terminal(db, body)
            == terminal_with_id(db.terminals, id),
        text_field(body, "terminalId"@) is None ==> named_terminal(db, body) is None,
        named_original(db, body) matches Some(row) ==> body.contains_key("origTxnId"@)
            && text_field(body, "origTxnId"@) is Some && text_field(row, "id"@) == text_field(
            body,
            "origTxnId"@,
        ),
        text_field(body, "origTxnId"@) matches Some(id) ==> named_original(db, body) == row_with_id(
            db.transactions,
            id,
        ),
        text_field(body, "origTxnId"@) is None ==> named_original(db, body) is None,
{
    if let Some(id) = text_field(body, "terminalId"@) {
        crate::db::record_laws::terminal_lookup(db.terminals, id, 0);
    }
    if let Some(id) = text_field(body, "origTxnId"@) {
        if row_with_id(db.transactions, id) is Some {
            crate::db::record_laws::lookup_gives_what_is_there(db.transactions, id);
        }
    }
}

/// A transaction can be voided exactly where its status is APPROVED and it is
/// not marked as settled. So none that was declined, canceled, voided or is
/// pending can be.
pub proof fn voidable_means(row: Fields)
    ensures
        voidable(row) <==> (row.contains_key("status"@) && row["status"@] == JsonView::Str(
            "APPROVED"@,
        ) && !(row.contains_key("settled"@) && row["settled"@] == JsonView::Bool(true))),
        text_field(row, "status"@) matches Some(s) ==> (s == "VOIDED"@ || s == "DECLINED"@ || s
            == "CANCELED"@ || s == "PENDING"@ || s == "TIMEOUT"@ || s == "ERROR"@) ==> !voidable(
            row,
        ),
{
    lemma_statuses_differ();
}

proof fn lemma_statuses_differ()
    ensures
        "APPROVED"@ != "VOIDED"@ && "APPROVED"@ != "DECLINED"@ && "APPROVED"@ != "CANCELED"@,
        "APPROVED"@ != "PENDING"@ && "APPROVED"@ != "TIMEOUT"@ && "APPROVED"@ != "ERROR"@,
        "CANCELED"@ != "TIMEOUT"@ && "DECLINED"@ != "CANCELED"@ && "VOIDED"@ != "CANCELED"@,
{
    reveal_strlit("APPROVED");
    reveal_strlit("VOIDED");
    reveal_strlit("DECLINED");
    reveal_strlit("CANCELED");
    reveal_strlit("PENDING");
    reveal_strlit("TIMEOUT");
    reveal_strlit("ERROR");
    assert("APPROVED"@[0] == 'A' && "APPROVED"@.len() == 8);
    assert("VOIDED"@.len() == 6 && "PENDING"@.len() == 7 && "TIMEOUT"@.len() == 7);
    assert("DECLINED"@[0] == 'D' && "CANCELED"@[0] == 'C' && "CANCELED"@.len() == 8);
    assert("ERROR"@.len() == 5);
}

/// A void takes back the whole transaction: its id, its reference, its
/// transaction number, its amount and its order, on the terminal named.
pub proof fn void_takes_back_the_whole(t: TerminalView, orig: Fields)
    ensures
        ({
            let plan = void_plan(t, orig);
            &&& plan.terminal == t
            &&& plan.kind matches PaymentKindView::Void { orig_id, orig_ref_num, orig_trans_num }
            &&& text_field(orig, "id"@) matches Some(id) ==> orig_id == id
            &&& text_field(orig, "refNum"@) matches Some(n) ==> orig_ref_num == n
            &&& text_field(orig, "refNum"@) is None ==> orig_ref_num.len() == 0
            &&& orig_trans_num == text_field(orig, "transactionNum"@)
            &&& int_field(orig, "amountCents"@) matches Some(n) ==> plan.amount_cents == n
            &&& int_field(orig, "amountCents"@) is None ==> plan.amount_cents == 0
            &&& plan.order_ref == text_field(orig, "orderRef"@)
        }),
{
}

// ---------------------------------------------------------------------------
// What is sent
// ---------------------------------------------------------------------------

/// What a payment puts on the wire. A sale sends the configured type, the amount
/// and the tip where there is one; a refund sends 03 and the amount; a void sends
/// 04, the amount and the references of the charge it takes back. All expect T01.
pub proof fn payment_on_the_wire(
    plan: PlanView,
    ecr: Seq<char>,
    sale_type: Seq<char>,
    version: Seq<char>,
)
    ensures
        ({
            let c = payment_command(plan, ecr, sale_type, version);
            let us = seq!['\u{1f}'];
            let none = Seq::<char>::empty();
            let amount = signed_numeral(plan.amount_cents as int, 10);
            let text = match plan.kind {
                PaymentKindView::Sale { tip_cents } => credit_text(
                    version,
                    sale_type,
                    amount + (if tip_cents != 0 {
                        us + signed_numeral(tip_cents as int, 10)
                    } else {
                        none
                    }),
                    ecr + none,
                    none,
                ),
                PaymentKindView::Refund => credit_text(
                    version,
                    "03"@,
                    amount + none,
                    ecr + none,
                    none,
                ),
                PaymentKindView::Void { orig_ref_num, orig_trans_num, .. } => credit_text(
                    version,
                    "04"@,
                    amount + none,
                    ecr + (us + us + orig_ref_num + (match orig_trans_num {
                        Some(trans) => us + trans,
                        None => none,
                    })),
                    none,
                ),
            };
            &&& c.request == frame(encode_utf8(text))
            &&& c.expected == Some("T01"@)
        }),
{
    let input = match plan.kind {
        PaymentKindView::Sale { tip_cents } => sale_input(
            sale_type,
            plan.amount_cents,
            ecr,
            tip_cents,
        ),
        PaymentKindView::Refund => refund_input(plan.amount_cents, ecr),
        PaymentKindView::Void { orig_ref_num, orig_trans_num, .. } => void_input(
            orig_ref_num,
            ecr,
            plan.amount_cents,
            orig_trans_num,
        ),
    };
    credit_request_on_the_wire(input, version);
    requests_have_their_answers("T00"@, "T01"@);
}

// ---------------------------------------------------------------------------
// How it ends
// ---------------------------------------------------------------------------

/// A terminal's reply decides a payment by its third field alone: 000000 is an
/// approval, answered with 200 and recorded as APPROVED; anything else is a
/// decline, answered with 402 and recorded as DECLINED.
pub proof fn reply_decides(f: Seq<Seq<char>>, offline: bool)
    ensures
        ({
            let result = Ok::<CreditView, PaxErrorView>(credit_of(f));
            let patch = payment_patch(result, offline);
            let approved = f.len() > 2 && f[2] == "000000"@;
            &&& approved ==> payment_status(result) == 200 && text_field(patch, "status"@) == Some(
                "APPROVED"@,
            )
            &&& !approved ==> payment_status(result) == 402 && text_field(patch, "status"@) == Some(
                "DECLINED"@,
            )
        }),
{
    crate::protocol::laws::approved_means_six_zeros(f);
    lemma_result_keys();
}

/// How a payment ends, by its result: the status it is recorded with, the status
/// it is answered with, and whether it stays unknown.
pub proof fn payment_ends(result: Result<CreditView, PaxErrorView>, offline: bool)
    ensures
        ({
            let patch = payment_patch(result, offline);
            let status = text_field(patch, "status"@);
            let unknown = flag_field(patch, "unknown"@);
            match result {
                Ok(c) => if c.approved {
                    status == Some("APPROVED"@) && payment_status(result) == 200 && unknown is None
                        && flag_field(patch, "offlineApproval"@) == Some(offline)
                } else {
                    status == Some("DECLINED"@) && payment_status(result) == 402 && unknown is None
                        && flag_field(patch, "offlineApproval"@) == Some(offline)
                },
                Err(e) => {
                    &&& e.code == "CANCELED"@ ==> status == Some("CANCELED"@) && payment_status(
                        result,
                    ) == 409 && unknown == Some(true)
                    &&& e.code == "TIMEOUT"@ ==> status == Some("TIMEOUT"@) && payment_status(
                        result,
                    ) == 504 && unknown == Some(true)
                    &&& e.code != "CANCELED"@ && e.code != "TIMEOUT"@ ==> status == Some("ERROR"@)
                        && payment_status(result) == error_entry(e.code).0 && unknown is None
                    &&& patch["error"@] matches JsonView::Obj(o) && o["code"@] == JsonView::Str(
                        e.code,
                    ) && o["message"@] == JsonView::Str(e.message)
                },
            }
        }),
{
    lemma_result_keys();
    lemma_statuses_differ();
    lemma_error_keys();
}

proof fn lemma_error_keys()
    ensures
        "code"@ != "message"@ && "code"@ != "hint"@ && "message"@ != "hint"@,
        "error"@ != "transaction"@ && "error"@ != "result"@ && "transaction"@ != "result"@,
        "error"@ != "online"@,
{
    reveal_strlit("code");
    reveal_strlit("message");
    reveal_strlit("hint");
    reveal_strlit("error");
    reveal_strlit("transaction");
    reveal_strlit("result");
    reveal_strlit("online");
    assert("code"@.len() == 4 && "message"@.len() == 7 && "hint"@.len() == 4);
    assert("code"@[0] == 'c' && "hint"@[0] == 'h');
    assert("error"@.len() == 5 && "transaction"@.len() == 11 && "result"@.len() == 6);
    assert("online"@.len() == 6);
}

proof fn lemma_result_keys()
    ensures
        "status"@ != "offlineApproval"@ && "status"@ != "unknown"@ && "status"@ != "error"@,
        "unknown"@ != "error"@ && "unknown"@ != "offlineApproval"@ && "unknown"@
            != "canceledByPos"@ && "status"@ != "canceledByPos"@,
        "response"@ != "status"@ && "resultCode"@ != "status"@ && "resultTxt"@ != "status"@
            && "authCode"@ != "status"@ && "refNum"@ != "status"@ && "transactionNum"@ != "status"@
            && "last4"@ != "status"@ && "cardType"@ != "status"@ && "approvedAmountCents"@
            != "status"@,
        "response"@ != "unknown"@ && "resultCode"@ != "unknown"@ && "resultTxt"@ != "unknown"@
            && "authCode"@ != "unknown"@ && "refNum"@ != "unknown"@ && "transactionNum"@
            != "unknown"@ && "last4"@ != "unknown"@ && "cardType"@ != "unknown"@
            && "approvedAmountCents"@ != "unknown"@,
        "response"@ != "offlineApproval"@ && "resultCode"@ != "offlineApproval"@ && "resultTxt"@
            != "offlineApproval"@ && "authCode"@ != "offlineApproval"@ && "refNum"@
            != "offlineApproval"@ && "transactionNum"@ != "offlineApproval"@ && "last4"@
            != "offlineApproval"@ && "cardType"@ != "offlineApproval"@ && "approvedAmountCents"@
            != "offlineApproval"@,
        "response"@ != "canceledByPos"@ && "resultCode"@ != "canceledByPos"@ && "resultTxt"@
            != "canceledByPos"@ && "authCode"@ != "canceledByPos"@ && "refNum"@
            != "canceledByPos"@ && "transactionNum"@ != "canceledByPos"@ && "last4"@
            != "canceledByPos"@ && "cardType"@ != "canceledByPos"@ && "approvedAmountCents"@
            != "canceledByPos"@,
        "response"@ != "resultCode"@ && "response"@ != "resultTxt"@ && "response"@ != "authCode"@
            && "response"@ != "refNum"@ && "response"@ != "transactionNum"@ && "response"@
            != "last4"@ && "response"@ != "cardType"@ && "response"@ != "approvedAmountCents"@,
        "resultCode"@ != "resultTxt"@ && "resultCode"@ != "authCode"@ && "resultCode"@ != "refNum"@
            && "resultCode"@ != "transactionNum"@ && "resultCode"@ != "last4"@ && "resultCode"@
            != "cardType"@ && "resultCode"@ != "approvedAmountCents"@,
        "resultTxt"@ != "authCode"@ && "resultTxt"@ != "refNum"@ && "resultTxt"@
            != "transactionNum"@ && "resultTxt"@ != "last4"@ && "resultTxt"@ != "cardType"@
            && "resultTxt"@ != "approvedAmountCents"@,
        "authCode"@ != "refNum"@ && "authCode"@ != "transactionNum"@ && "authCode"@ != "last4"@
            && "authCode"@ != "cardType"@ && "authCode"@ != "approvedAmountCents"@,
        "refNum"@ != "transactionNum"@ && "refNum"@ != "last4"@ && "refNum"@ != "cardType"@
            && "refNum"@ != "approvedAmountCents"@,
        "transactionNum"@ != "last4"@ && "transactionNum"@ != "cardType"@ && "transactionNum"@
            != "approvedAmountCents"@,
        "last4"@ != "cardType"@ && "last4"@ != "approvedAmountCents"@ && "cardType"@
            != "approvedAmountCents"@,
{
    reveal_strlit("status");
    reveal_strlit("offlineApproval");
    reveal_strlit("unknown");
    reveal_strlit("error");
    reveal_strlit("canceledByPos");
    reveal_strlit("response");
    reveal_strlit("resultCode");
    reveal_strlit("resultTxt");
    reveal_strlit("authCode");
    reveal_strlit("refNum");
    reveal_strlit("transactionNum");
    reveal_strlit("last4");
    reveal_strlit("cardType");
    reveal_strlit("approvedAmountCents");
    assert("status"@.len() == 6 && "offlineApproval"@.len() == 15 && "unknown"@.len() == 7);
    assert("error"@.len() == 5 && "canceledByPos"@.len() == 13 && "response"@.len() == 8);
    assert("resultCode"@.len() == 10 && "resultTxt"@.len() == 9 && "authCode"@.len() == 8);
    assert("refNum"@.len() == 6 && "transactionNum"@.len() == 14 && "last4"@.len() == 5);
    assert("cardType"@.len() == 8 && "approvedAmountCents"@.len() == 19);
    assert("response"@[0] == 'r' && "authCode"@[0] == 'a' && "cardType"@[0] == 'c');
    assert("status"@[0] == 's' && "refNum"@[0] == 'r');
    assert("error"@[0] == 'e' && "last4"@[0] == 'l');
}

/// What the record of a payment takes over from the terminal's reply, so that a
/// later void or refund can name the charge.
pub proof fn record_takes_over_the_reply(c: CreditView, offline: bool)
    ensures
        ({
            let patch = payment_patch(Ok(c), offline);
            &&& patch["response"@] == JsonView::Obj(credit_fields(c))
            &&& text_field(patch, "resultCode"@) == Some(c.result_code)
            &&& text_field(patch, "resultTxt"@) == Some(c.result_txt)
            &&& text_field(patch, "authCode"@) == Some(c.auth_code)
            &&& text_field(patch, "refNum"@) == Some(c.ref_num)
            &&& text_field(patch, "transactionNum"@) == Some(c.transaction_num)
            &&& text_field(patch, "last4"@) == Some(c.last4)
            &&& text_field(patch, "cardType"@) == Some(c.card_type)
            &&& int_field(patch, "approvedAmountCents"@) == Some(c.approved_amount_cents)
            &&& !patch.contains_key("error"@)
        }),
{
    lemma_result_keys();
    lemma_more_keys();
}

proof fn lemma_more_keys()
    ensures
        "error"@ != "response"@ && "error"@ != "resultCode"@ && "error"@ != "resultTxt"@ && "error"@
            != "authCode"@ && "error"@ != "refNum"@ && "error"@ != "transactionNum"@ && "error"@
            != "last4"@ && "error"@ != "cardType"@ && "error"@ != "approvedAmountCents"@
            && "error"@ != "offlineApproval"@,
{
    reveal_strlit("offlineApproval");
    reveal_strlit("error");
    reveal_strlit("response");
    reveal_strlit("resultCode");
    reveal_strlit("resultTxt");
    reveal_strlit("authCode");
    reveal_strlit("refNum");
    reveal_strlit("transactionNum");
    reveal_strlit("last4");
    reveal_strlit("cardType");
    reveal_strlit("approvedAmountCents");
    assert("error"@.len() == 5 && "error"@[0] == 'e' && "last4"@[0] == 'l');
}

/// What a payment is answered with: its record as it now stands, and the
/// terminal's reply, or the error and what to do about it.
pub proof fn payment_answer(result: Result<CreditView, PaxErrorView>, record: Fields)
    ensures
        ({
            let r = payment_reply(result, record);
            &&& r.status == payment_status(result)
            &&& r.body matches Some(JsonView::Obj(body))
            &&& body["transaction"@] == JsonView::Obj(record)
            &&& result matches Ok(c) ==> body["result"@] == JsonView::Obj(credit_fields(c))
                && !body.contains_key("error"@)
            &&& result matches Err(e) ==> (body["error"@] matches JsonView::Obj(o) && o["code"@]
                == JsonView::Str(e.code) && o["message"@] == JsonView::Str(e.message) && o["hint"@]
                == JsonView::Str(error_entry(e.code).1))
        }),
{
    lemma_error_keys();
}

/// The answer shows the record that is in the log.
pub proof fn answer_shows_the_log(
    db: DbView,
    row: Fields,
    txn: Fields,
    id: Seq<char>,
    patch: Fields,
    now: Seq<char>,
    today: Seq<char>,
)
    requires
        row_with_id(db.transactions, id) == Some(row),
        !patch.contains_key("id"@),
    ensures
        row_with_id(db.with_patch(id, patch, now, today).transactions, id) == Some(
            finished_record(db, txn, id, patch, now),
        ),
{
    patched_row_is_found(db, id, patch, now, today);
}

/// How a payment is announced: by the status it is recorded with, and its id;
/// a reply that came is told with it.
pub proof fn payment_is_announced(
    result: Result<CreditView, PaxErrorView>,
    offline: bool,
    id: Seq<char>,
    ecr: Seq<char>,
)
    ensures
        ({
            let event = payment_event(result, id, ecr);
            &&& text_field(event, "type"@) == text_field(payment_patch(result, offline), "status"@)
            &&& text_field(event, "txnId"@) == Some(id)
            &&& result matches Ok(c) ==> event["result"@] == JsonView::Obj(credit_fields(c))
                && text_field(event, "ecrRefNum"@) == Some(ecr)
            &&& result matches Err(e) ==> e.code == "CANCELED"@ ==> text_field(event, "ecrRefNum"@)
                == Some(ecr)
            &&& result matches Err(e) ==> e.code != "CANCELED"@ && e.code != "TIMEOUT"@ ==> (
            event["error"@] matches JsonView::Obj(o) && o["code"@] == JsonView::Str(e.code)
                && o["message"@] == JsonView::Str(e.message))
        }),
{
    lemma_event_keys();
    lemma_result_keys();
    lemma_statuses_differ();
    lemma_error_keys();
}

proof fn lemma_event_keys()
    ensures
        "type"@ != "txnId"@ && "type"@ != "ecrRefNum"@ && "type"@ != "result"@ && "type"@
            != "error"@,
        "txnId"@ != "ecrRefNum"@ && "txnId"@ != "result"@ && "txnId"@ != "error"@,
        "ecrRefNum"@ != "result"@ && "ecrRefNum"@ != "error"@,
{
    reveal_strlit("type");
    reveal_strlit("txnId");
    reveal_strlit("ecrRefNum");
    reveal_strlit("result");
    reveal_strlit("error");
    assert("type"@.len() == 4 && "txnId"@.len() == 5 && "ecrRefNum"@.len() == 9);
    assert("result"@.len() == 6 && "error"@.len() == 5 && "txnId"@[0] == 't' && "error"@[0] == 'e');
}

/// An event about a payment tells its type, the payment and its reference.
pub proof fn event_tells(kind: Seq<char>, id: Seq<char>, ecr: Seq<char>)
    ensures
        text_field(event_fields(kind, id, ecr), "type"@) == Some(kind),
        text_field(event_fields(kind, id, ecr), "txnId"@) == Some(id),
        text_field(event_fields(kind, id, ecr), "ecrRefNum"@) == Some(ecr),
{
    lemma_event_keys();
}

/// How the states of an exchange are announced: SENDING as such, WAITING as
/// WAITING_FOR_CARD, RECEIVING as PROCESSING, nothing else at all.
pub proof fn states_are_announced(state: Seq<char>, kind: Seq<char>)
    ensures
        lifecycle_type(state) == Some(kind) <==> (state == "SENDING"@ && kind == "SENDING"@) || (
        state == "WAITING"@ && kind == "WAITING_FOR_CARD"@) || (state == "RECEIVING"@ && kind
            == "PROCESSING"@),
{
    reveal_strlit("SENDING");
    reveal_strlit("WAITING");
    reveal_strlit("RECEIVING");
    assert("SENDING"@[0] == 'S' && "WAITING"@[0] == 'W' && "RECEIVING"@[0] == 'R');
}

// ---------------------------------------------------------------------------
// Voids
// ---------------------------------------------------------------------------

/// An approved void marks the transaction it was for as VOIDED, by the id of the
/// void; nothing else of the transaction changes but the time of its update.
pub proof fn approved_void_marks_the_original(
    db: DbView,
    orig: Fields,
    orig_id: Seq<char>,
    record: Fields,
    void_id: Seq<char>,
    now: Seq<char>,
    today: Seq<char>,
    key: Seq<char>,
)
    requires
        row_with_id(db.transactions, orig_id) == Some(orig),
        text_field(record, "status"@) == Some("APPROVED"@),
        text_field(record, "id"@) == Some(void_id),
    ensures
        ({
            let after = with_void_settled(db, orig_id, record, now, today);
            &&& row_with_id(after.transactions, orig_id) matches Some(found)
            &&& text_field(found, "status"@) == Some("VOIDED"@)
            &&& text_field(found, "voidedByTxnId"@) == Some(void_id)
            &&& key != "status"@ && key != "voidedByTxnId"@ && key != "updatedAt"@ ==> (
            found.contains_key(key) <==> orig.contains_key(key))
            &&& key != "status"@ && key != "voidedByTxnId"@ && key != "updatedAt"@
                && orig.contains_key(key) ==> found[key] == orig[key]
            &&& !voidable(found)
        }),
{
    reveal_strlit("status");
    reveal_strlit("voidedByTxnId");
    reveal_strlit("updatedAt");
    reveal_strlit("id");
    assert("status"@.len() == 6 && "voidedByTxnId"@.len() == 13 && "updatedAt"@.len() == 9);
    assert("id"@.len() == 2);
    let patch = super::payments::voided_patch(void_id);
    assert(!patch.contains_key("id"@));
    patched_row_is_found(db, orig_id, patch, now, today);
    let found = updated_record(orig, patch, now);
    assert(found["status"@] == JsonView::Str("VOIDED"@));
    assert(found["voidedByTxnId"@] == JsonView::Str(void_id));
    lemma_statuses_differ();
}

// ---------------------------------------------------------------------------
// Late results
// ---------------------------------------------------------------------------

/// What a result after a cancel writes on the record: whether a card was
/// charged, and for a reply all that it tells.
pub proof fn late_result_is_written(result: Result<CreditView, PaxErrorView>)
    ensures
        ({
            let patch = late_patch(result);
            match result {
                Ok(c) => {
                    &&& text_field(patch, "status"@) == Some(
                        if c.approved {
                            "APPROVED"@
                        } else {
                            "CANCELED"@
                        },
                    )
                    &&& flag_field(patch, "unknown"@) == Some(c.approved)
                    &&& flag_field(patch, "canceledByPos"@) == Some(true)
                    &&& patch["response"@] == JsonView::Obj(credit_fields(c))
                    &&& text_field(patch, "resultCode"@) == Some(c.result_code)
                    &&& text_field(patch, "resultTxt"@) == Some(c.result_txt)
                    &&& text_field(patch, "authCode"@) == Some(c.auth_code)
                    &&& text_field(patch, "refNum"@) == Some(c.ref_num)
                    &&& text_field(patch, "transactionNum"@) == Some(c.transaction_num)
                    &&& text_field(patch, "last4"@) == Some(c.last4)
                    &&& text_field(patch, "cardType"@) == Some(c.card_type)
                    &&& int_field(patch, "approvedAmountCents"@) == Some(c.approved_amount_cents)
                },
                Err(e) => {
                    &&& text_field(patch, "status"@) == Some("CANCELED"@)
                    &&& flag_field(patch, "unknown"@) == Some(false)
                    &&& patch["error"@] matches JsonView::Obj(o) && o["code"@] == JsonView::Str(
                        e.code,
                    ) && o["message"@] == JsonView::Str(e.message)
                },
            }
        }),
{
    lemma_result_keys();
    lemma_error_keys();
}

/// How a result after a cancel is announced: APPROVED where a card was charged,
/// else CANCELED.
pub proof fn late_result_is_announced(
    result: Result<CreditView, PaxErrorView>,
    id: Seq<char>,
    ecr: Seq<char>,
)
    ensures
        ({
            let event = late_event(result, id, ecr);
            let charged = result matches Ok(c) && c.approved;
            &&& text_field(event, "type"@) == Some(
                if charged {
                    "APPROVED"@
                } else {
                    "CANCELED"@
                },
            )
            &&& text_field(event, "txnId"@) == Some(id)
            &&& text_field(event, "ecrRefNum"@) == Some(ecr)
            &&& result matches Ok(c) ==> event["result"@] == JsonView::Obj(credit_fields(c))
        }),
{
    lemma_event_keys();
}

/// A sale that was charged after a cancel, and nothing else, is taken back: the
/// void names the charge by the reference, the number and the amount that the
/// terminal reported.
pub proof fn late_charge_is_taken_back(
    result: Result<CreditView, PaxErrorView>,
    tx_type: Seq<char>,
    ecr: Seq<char>,
    version: Seq<char>,
)
    ensures
        late_void(result, tx_type) is Some <==> tx_type == "SALE"@ && (result matches Ok(c)
            && c.approved),
        late_void(result, tx_type) matches Some(v) ==> (result matches Ok(c) && v.orig_ref_num
            == c.ref_num && v.amount_cents == c.approved_amount_cents && (c.transaction_num.len()
            > 0 ==> v.orig_trans_num == Some(c.transaction_num)) && (c.transaction_num.len() == 0
            ==> v.orig_trans_num is None)),
        late_void(result, tx_type) matches Some(v) ==> ({
            let us = seq!['\u{1f}'];
            let none = Seq::<char>::empty();
            let command = late_void_command(v, ecr, version);
            &&& command.expected == Some("T01"@)
            &&& command.request == frame(
                encode_utf8(
                    credit_text(
                        version,
                        "04"@,
                        signed_numeral(v.amount_cents as int, 10) + none,
                        ecr + (us + us + v.orig_ref_num + (match v.orig_trans_num {
                            Some(trans) => us + trans,
                            None => none,
                        })),
                        none,
                    ),
                ),
            )
        }),
{
    if let Some(v) = late_void(result, tx_type) {
        credit_request_on_the_wire(
            void_input(v.orig_ref_num, ecr, v.amount_cents, v.orig_trans_num),
            version,
        );
        requests_have_their_answers("T00"@, "T01"@);
    }
}

/// How the void of a late charge is written and announced: VOIDED, known and
/// with the reference of the void where it was approved; otherwise VOID_FAILED,
/// with the reason on the record and the rest of it left alone.
pub proof fn late_void_is_told(
    result: Result<CreditView, PaxErrorView>,
    id: Seq<char>,
    ecr: Seq<char>,
    void_ecr: Seq<char>,
)
    ensures
        ({
            let patch = late_void_patch(result, void_ecr);
            let event = late_void_event(result, id, ecr);
            let voided = result matches Ok(c) && c.approved;
            &&& text_field(event, "txnId"@) == Some(id)
            &&& text_field(event, "ecrRefNum"@) == Some(ecr)
            &&& voided ==> text_field(event, "type"@) == Some("VOIDED"@) && text_field(
                patch,
                "status"@,
            ) == Some("VOIDED"@) && flag_field(patch, "unknown"@) == Some(false) && text_field(
                patch,
                "voidedByEcrRefNum"@,
            ) == Some(void_ecr)
            &&& !voided ==> text_field(event, "type"@) == Some("VOID_FAILED"@)
                && !patch.contains_key("status"@) && !patch.contains_key("unknown"@)
            &&& result matches Ok(c) ==> !c.approved ==> (patch["voidError"@] matches JsonView::Obj(
                o,
            ) && o["code"@] == JsonView::Str(c.result_code) && o["message"@] == JsonView::Str(
                c.result_txt,
            ))
            &&& result matches Err(e) ==> (patch["voidError"@] matches JsonView::Obj(o)
                && o["code"@] == JsonView::Str(e.code) && o["message"@] == JsonView::Str(e.message))
        }),
{
    lemma_event_keys();
    lemma_error_keys();
    reveal_strlit("status");
    reveal_strlit("unknown");
    reveal_strlit("voidedByEcrRefNum");
    reveal_strlit("voidError");
    assert("status"@.len() == 6 && "unknown"@.len() == 7 && "voidedByEcrRefNum"@.len() == 17);
    assert("voidError"@.len() == 9);
}

// ---------------------------------------------------------------------------
// Errors
// ---------------------------------------------------------------------------

/// The status that each error is answered with: 409 for a busy terminal and a
/// cancel, 504 for a timeout, 502 for a terminal that cannot be reached or
/// understood, 500 for anything else.
pub proof fn errors_have_their_status(code: Seq<char>)
    ensures
        error_entry(code).0 == 409 <==> code == "TERMINAL_BUSY"@ || code == "CANCELED"@,
        error_entry(code).0 == 504 <==> code == "TIMEOUT"@,
        error_entry(code).0 == 502 <==> code == "CONNECTION_REFUSED"@ || code == "HOST_UNREACHABLE"@
            || code == "CONNECTION_CLOSED"@ || code == "LRC_MISMATCH"@ || code
            == "MALFORMED_RESPONSE"@ || code == "UNEXPECTED_RESPONSE"@ || code == "WRITE_FAILED"@
            || code == "SOCKET_ERROR"@ || code == "SERIAL_OPEN_FAILED"@ || code == "SERIAL_ERROR"@,
        error_entry(code).0 == 409 || error_entry(code).0 == 504 || error_entry(code).0 == 502
            || error_entry(code).0 == 500,
{
    reveal_strlit("TERMINAL_BUSY");
    reveal_strlit("CANCELED");
    reveal_strlit("TIMEOUT");
    reveal_strlit("CONNECTION_REFUSED");
    reveal_strlit("HOST_UNREACHABLE");
    reveal_strlit("CONNECTION_CLOSED");
    reveal_strlit("LRC_MISMATCH");
    reveal_strlit("MALFORMED_RESPONSE");
    reveal_strlit("UNEXPECTED_RESPONSE");
    reveal_strlit("WRITE_FAILED");
    reveal_strlit("SOCKET_ERROR");
    reveal_strlit("SERIAL_OPEN_FAILED");
    reveal_strlit("SERIAL_ERROR");
    reveal_strlit("SERIAL_UNAVAILABLE");
    assert("TERMINAL_BUSY"@[0] == 'T' && "TERMINAL_BUSY"@.len() == 13);
    assert("CANCELED"@.len() == 8 && "TIMEOUT"@.len() == 7);
    assert("CONNECTION_REFUSED"@.len() == 18 && "CONNECTION_REFUSED"@[0] == 'C');
    assert("HOST_UNREACHABLE"@.len() == 16 && "CONNECTION_CLOSED"@.len() == 17);
    assert("LRC_MISMATCH"@.len() == 12 && "LRC_MISMATCH"@[0] == 'L');
    assert("MALFORMED_RESPONSE"@.len() == 18 && "MALFORMED_RESPONSE"@[0] == 'M');
    assert("UNEXPECTED_RESPONSE"@.len() == 19);
    assert("WRITE_FAILED"@.len() == 12 && "WRITE_FAILED"@[0] == 'W');
    assert("SOCKET_ERROR"@.len() == 12 && "SOCKET_ERROR"@[0] == 'S' && "SOCKET_ERROR"@[1] == 'O');
    assert("SERIAL_ERROR"@.len() == 12 && "SERIAL_ERROR"@[0] == 'S' && "SERIAL_ERROR"@[1] == 'E');
    assert("SERIAL_OPEN_FAILED"@.len() == 18 && "SERIAL_OPEN_FAILED"@[7] == 'O');
    assert("SERIAL_UNAVAILABLE"@.len() == 18 && "SERIAL_UNAVAILABLE"@[7] == 'U');
    assert("SERIAL_OPEN_FAILED"@[0] == 'S' && "SERIAL_UNAVAILABLE"@[0] == 'S');
}

/// A terminal error is answered with its code, its message and a hint, under the
/// status of its code.
pub proof fn error_answer(e: PaxErrorView)
    ensures
        pax_error_reply(e).status == error_entry(e.code).0,
        pax_error_reply(e).body == Some(JsonView::Obj(pax_error_fields(e))),
        pax_error_fields(e)["error"@] matches JsonView::Obj(o) && o["code"@] == JsonView::Str(
            e.code,
        ) && o["message"@] == JsonView::Str(e.message) && o["hint"@] == JsonView::Str(
            error_entry(e.code).1,
        ),
{
    lemma_error_keys();
}

/// What is not there is answered with 404 and NOT_FOUND, what cannot be accepted
/// with 400 and VALIDATION, a cancel of what is over with 409 and NOT_CANCELABLE.
pub proof fn refusals(message: Seq<char>, status: Seq<char>)
    ensures
        refused_with(super::not_found_reply(message), 404, "NOT_FOUND"@, message),
        refused_with(super::validation_reply(message), 400, "VALIDATION"@, message),
        refused_with(super::payments::invalid_state(message), 400, "INVALID_STATE"@, message),
        refused_with(
            not_cancelable(status),
            409,
            "NOT_CANCELABLE"@,
            "Transaction already finished with status "@ + status + "."@,
        ),
        refused_with(
            super::payments::busy_payment_reply(),
            409,
            "TERMINAL_BUSY"@,
            "Terminal is busy"@,
        ),
        refused_with(
            super::payments::no_terminal(),
            404,
            "NOT_FOUND"@,
            "Terminal not found. Check terminalId."@,
        ),
        refused_with(
            super::payments::bad_amount(),
            400,
            "VALIDATION"@,
            "amountCents must be a positive integer (cents)"@,
        ),
{
    lemma_error_keys();
}

/// Whether a reply refuses a request with a status, a code and a message.
pub open spec fn refused_with(r: ReplyView, status: u16, code: Seq<char>, message: Seq<char>) -> bool {
    &&& r.status == status
    &&& r.body matches Some(JsonView::Obj(body))
    &&& body["error"@] matches JsonView::Obj(o)
    &&& o["code"@] == JsonView::Str(code)
    &&& o["message"@] == JsonView::Str(message)
}

/// Merging one body into another keeps the fields of both, and the second one's
/// where both have one; what is no object stays as it is.
pub proof fn bodies_are_merged(a: Fields, b: Fields, v: JsonView, key: Seq<char>)
    ensures
        super::merged(JsonView::Obj(a), JsonView::Obj(b)) matches JsonView::Obj(all) && (
        all.contains_key(key) <==> a.contains_key(key) || b.contains_key(key)) && (b.contains_key(
            key,
        ) ==> all[key] == b[key]) && (a.contains_key(key) && !b.contains_key(key) ==> all[key]
            == a[key]),
        !(v is Obj) ==> super::merged(JsonView::Obj(a), v) == JsonView::Obj(a),
        !(v is Obj) ==> super::merged(v, JsonView::Obj(b)) == v,
{
}

/// A payment that was started is the one on record: its id, its reference number
/// and its record are those of the log.
pub proof fn started_is_on_record(
    p: StartedPayment,
    db: DbView,
    plan: PlanView,
    key: Seq<char>,
    id: Seq<char>,
    now: Seq<char>,
    today: Seq<char>,
)
    requires
        is_started(p, db, plan, key, id, now),
    ensures
        p.txn_id@ == id,
        row_with_id(with_payment(db, plan, key, id, now, today).transactions, id) == Some(p.txn@),
        text_field(p.txn@, "ecrRefNum"@) == Some(p.ecr_ref_num@),
        text_field(p.txn@, "id"@) == Some(p.txn_id@),
{
    record_says_what_was_asked_for(db, plan, key, id, now, today);
    let record = payment_record(plan, payment_ref(db, key), id, now);
    lemma_start_keys();
    assert(text_field(record, "id"@) == Some(id));
    created_row_is_found(db.with_next_seq(key), record, id, today);
}

/// A payment that was finished is answered and announced as it is on record: the
/// reply shows the record of the log, and its status is 200 only where the record
/// says APPROVED.
pub proof fn finished_is_on_record(
    f: FinishedPayment,
    db: DbView,
    p: StartedPayment,
    row: Fields,
    result: Result<CreditView, PaxErrorView>,
    offline: bool,
    now: Seq<char>,
    today: Seq<char>,
)
    requires
        is_finished(f, db, p, result, offline, now),
        row_with_id(db.transactions, p.txn_id@) == Some(row),
    ensures
        ({
            let after = db.with_patch(p.txn_id@, payment_patch(result, offline), now, today);
            &&& row_with_id(after.transactions, p.txn_id@) == Some(f.record@)
            &&& f.reply@.body matches Some(JsonView::Obj(body)) && body["transaction"@]
                == JsonView::Obj(f.record@)
            &&& f.reply@.status == 200 <==> text_field(f.record@, "status"@) == Some("APPROVED"@)
            &&& f.reply@.status == 402 <==> text_field(f.record@, "status"@) == Some("DECLINED"@)
            &&& text_field(f.event@, "type"@) == text_field(f.record@, "status"@)
            &&& text_field(f.event@, "txnId"@) == Some(p.txn_id@)
        }),
{
    let patch = payment_patch(result, offline);
    lemma_patch_has_no_id(result, offline);
    answer_shows_the_log(db, row, p.txn@, p.txn_id@, patch, now, today);
    payment_answer(result, f.record@);
    payment_ends(result, offline);
    payment_is_announced(result, offline, p.txn_id@, p.ecr_ref_num@);
    lemma_statuses_differ();
    reveal_strlit("status");
    reveal_strlit("updatedAt");
    assert("status"@.len() == 6 && "updatedAt"@.len() == 9);
    assert(patch.contains_key("status"@));
    assert(f.record@["status"@] == patch["status"@]);
    reveal_strlit("DECLINED");
    reveal_strlit("TIMEOUT");
    reveal_strlit("ERROR");
    assert("DECLINED"@.len() == 8 && "TIMEOUT"@.len() == 7 && "ERROR"@.len() == 5);
    if let Err(e) = result {
        errors_have_their_status(e.code);
    }
}

proof fn lemma_patch_has_no_id(result: Result<CreditView, PaxErrorView>, offline: bool)
    ensures
        !payment_patch(result, offline).contains_key("id"@),
{
    reveal_strlit("id");
    reveal_strlit("response");
    reveal_strlit("resultCode");
    reveal_strlit("resultTxt");
    reveal_strlit("authCode");
    reveal_strlit("refNum");
    reveal_strlit("transactionNum");
    reveal_strlit("last4");
    reveal_strlit("cardType");
    reveal_strlit("approvedAmountCents");
    reveal_strlit("status");
    reveal_strlit("offlineApproval");
    reveal_strlit("unknown");
    reveal_strlit("error");
    assert("id"@.len() == 2);
}

/// A payment whose record is gone is answered with the record it started with.
pub proof fn lost_record_is_still_shown(
    db: DbView,
    txn: Fields,
    id: Seq<char>,
    patch: Fields,
    now: Seq<char>,
)
    requires
        row_with_id(db.transactions, id) is None,
    ensures
        finished_record(db, txn, id, patch, now) == txn,
{
}

/// The reference number of a payment is the date and the next number of that day.
pub proof fn payment_reference(db: DbView, date: Seq<char>)
    ensures
        payment_ref(db, date).take(date.len() as int) == date,
        crate::numeral::digits_value(payment_ref(db, date).skip(date.len() as int)) == db.next_seq(
            date,
        ),
        !db.ecr_seq.contains_key(date) ==> db.next_seq(date) == 1,
        db.ecr_seq.contains_key(date) ==> db.next_seq(date) == db.ecr_seq[date] + 1,
{
    crate::db::record_laws::reference_number(date, db.next_seq(date) as nat);
}

/// Whoever meets a timeout is told not to charge the card again, whoever cancels
/// that a late charge is voided.
pub proof fn hints_warn_of_charges()
    ensures
        error_entry("TIMEOUT"@).1
            == "No response within the timeout. IMPORTANT: the card may already have been charged — verify on the terminal before retrying. Do NOT blindly retry."@,
        error_entry("CANCELED"@).1
            == "The terminal keeps its card prompt until it times out or its red Cancel key is pressed. If a card is charged anyway, this bridge voids it automatically."@,
        error_entry("TERMINAL_BUSY"@).1
            == "The terminal is already processing another transaction. Wait for it to finish before sending a new one."@,
{
    reveal_strlit("TERMINAL_BUSY");
    reveal_strlit("CANCELED");
    reveal_strlit("TIMEOUT");
    reveal_strlit("CONNECTION_REFUSED");
    reveal_strlit("HOST_UNREACHABLE");
    reveal_strlit("CONNECTION_CLOSED");
    assert("TERMINAL_BUSY"@.len() == 13 && "CANCELED"@.len() == 8 && "TIMEOUT"@.len() == 7);
    assert("CONNECTION_REFUSED"@.len() == 18 && "HOST_UNREACHABLE"@.len() == 16);
    assert("CONNECTION_CLOSED"@.len() == 17);
}

}
