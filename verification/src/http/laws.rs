//! What holds of payments from start to end.
use vstd::prelude::*;

use super::late::{late_patch, late_void, late_void_patch};
use super::payments::{
    ending, ending_status, payment_fields, payment_patch, payment_record, payment_ref,
    payment_status, voidable, voided_patch, with_payment, with_void_settled, PlanView,
};
use super::validate::{
    address_errors, conn_type_errors, model_errors, name_errors, terminal_errors,
};
use crate::db::laws::created_row_is_found;
use crate::db::terminal::new_terminal;
use crate::db::{
    new_record, patched_row_is_found, row_with_id, settled_record, updated_record, DbView,
    TerminalNumbers,
};
use crate::json::{flag_field, text_field, Fields, JsonView};
use crate::protocol::responses::CreditView;
use crate::protocol::PaxErrorView;

verus! {

proof fn lemma_status_keys()
    ensures
        "status"@ != "updatedAt"@,
        "status"@ != "offlineApproval"@,
        "status"@ != "unknown"@,
        "status"@ != "error"@,
        "unknown"@ != "updatedAt"@,
        "unknown"@ != "error"@,
        "unknown"@ != "canceledByPos"@,
        "id"@ != "status"@,
        "id"@ != "unknown"@,
        "id"@ != "error"@,
        "id"@ != "offlineApproval"@,
        "id"@ != "canceledByPos"@,
        "id"@ != "voidedByEcrRefNum"@,
        "id"@ != "voidedByTxnId"@,
        "id"@ != "voidError"@,
        "id"@ != "updatedAt"@,
        "id"@ != "response"@,
        "id"@ != "resultCode"@,
        "id"@ != "resultTxt"@,
        "id"@ != "authCode"@,
        "id"@ != "refNum"@,
        "id"@ != "transactionNum"@,
        "id"@ != "last4"@,
        "id"@ != "cardType"@,
        "id"@ != "approvedAmountCents"@,
        "status"@ != "voidedByEcrRefNum"@,
        "status"@ != "voidedByTxnId"@,
        "status"@ != "voidError"@,
        "unknown"@ != "voidedByEcrRefNum"@,
        "unknown"@ != "voidError"@,
{
    reveal_strlit("status");
    reveal_strlit("updatedAt");
    reveal_strlit("offlineApproval");
    reveal_strlit("unknown");
    reveal_strlit("error");
    reveal_strlit("canceledByPos");
    reveal_strlit("voidedByEcrRefNum");
    reveal_strlit("voidedByTxnId");
    reveal_strlit("voidError");
    reveal_strlit("response");
    reveal_strlit("resultCode");
    reveal_strlit("resultTxt");
    reveal_strlit("authCode");
    reveal_strlit("refNum");
    reveal_strlit("transactionNum");
    reveal_strlit("last4");
    reveal_strlit("cardType");
    reveal_strlit("approvedAmountCents");
    reveal_strlit("id");
    assert("id"@.len() == 2 && "status"@.len() == 6 && "unknown"@.len() == 7);
}

/// The id and the status that a payment is recorded with.
proof fn lemma_record(plan: PlanView, ecr: Seq<char>, id: Seq<char>, now: Seq<char>)
    ensures
        text_field(payment_record(plan, ecr, id, now), "id"@) == Some(id),
        text_field(payment_record(plan, ecr, id, now), "status"@) == Some("PENDING"@),
{
    reveal_strlit("id");
    reveal_strlit("createdAt");
    reveal_strlit("updatedAt");
    reveal_strlit("terminalId");
    reveal_strlit("terminalName");
    reveal_strlit("type");
    reveal_strlit("amountCents");
    reveal_strlit("tipCents");
    reveal_strlit("orderRef");
    reveal_strlit("ecrRefNum");
    reveal_strlit("status");
    reveal_strlit("voidOfTxnId");
    reveal_strlit("voidOfRefNum");
    assert("id"@.len() == 2 && "status"@.len() == 6);
    let fields = payment_fields(plan, ecr);
    assert(!fields.contains_key("id"@));
    assert(fields["status"@] == JsonView::Str("PENDING"@));
    let record = new_record(fields, id, now);
    assert(record["id"@] == JsonView::Str(id));
    assert(record["status"@] == JsonView::Str("PENDING"@));
}

/// A payment is on record, as pending, before anything is sent.
pub proof fn payment_is_on_record(
    db: DbView,
    plan: PlanView,
    key: Seq<char>,
    id: Seq<char>,
    now: Seq<char>,
    today: Seq<char>,
)
    ensures
        ({
            let record = payment_record(plan, payment_ref(db, key), id, now);
            &&& row_with_id(with_payment(db, plan, key, id, now, today).transactions, id) == Some(
                record,
            )
            &&& text_field(record, "status"@) == Some("PENDING"@)
        }),
{
    let record = payment_record(plan, payment_ref(db, key), id, now);
    lemma_record(plan, payment_ref(db, key), id, now);
    created_row_is_found(db.with_next_seq(key), record, id, today);
}

/// However a payment ends, its record says so: looked up again, it carries the
/// status of its ending, and is marked as unknown where a card may have been
/// charged without the point of sale knowing.
pub proof fn payment_ends_on_its_record(
    db: DbView,
    row: Fields,
    id: Seq<char>,
    result: Result<CreditView, PaxErrorView>,
    offline_approval: bool,
    now: Seq<char>,
    today: Seq<char>,
)
    requires
        row_with_id(db.transactions, id) == Some(row),
    ensures
        ({
            let after = db.with_patch(id, payment_patch(result, offline_approval), now, today);
            &&& row_with_id(after.transactions, id) matches Some(found)
            &&& text_field(found, "status"@) == Some(ending_status(ending(result)))
            &&& (ending(result) is Canceled || ending(result) is Timeout) ==> flag_field(
                found,
                "unknown"@,
            ) == Some(true)
        }),
{
    lemma_status_keys();
    let patch = payment_patch(result, offline_approval);
    assert(!patch.contains_key("id"@));
    patched_row_is_found(db, id, patch, now, today);
    assert(patch.contains_key("status"@));
    assert(patch["status"@] == JsonView::Str(ending_status(ending(result))));
    let found = updated_record(row, patch, now);
    assert(found["status"@] == patch["status"@]);
}

/// Only an approval is answered with success.
pub proof fn only_approval_answers_ok(result: Result<CreditView, PaxErrorView>)
    ensures
        payment_status(result) == 200 <==> (result matches Ok(c) && c.approved),
{
}

/// A sale that the terminal charges after the point of sale gave up is voided:
/// the void goes to the charge that the terminal reported, over the amount that
/// it reported.
pub proof fn late_sale_is_voided(c: CreditView)
    requires
        c.approved,
    ensures
        late_void(Ok(c), "SALE"@) matches Some(v) && v.orig_ref_num == c.ref_num && v.amount_cents
            == c.approved_amount_cents,
{
}

/// Nothing but a charged sale is reversed on its own.
pub proof fn nothing_else_is_reversed(result: Result<CreditView, PaxErrorView>, tx_type: Seq<char>)
    requires
        late_void(result, tx_type) is Some,
    ensures
        tx_type == "SALE"@,
        result matches Ok(c) && c.approved,
{
}

/// A late result settles the record of a canceled payment: nothing charged
/// leaves it canceled and known; a charge leaves it approved and unknown.
pub proof fn late_result_is_on_record(
    db: DbView,
    row: Fields,
    id: Seq<char>,
    result: Result<CreditView, PaxErrorView>,
    now: Seq<char>,
    today: Seq<char>,
)
    requires
        row_with_id(db.transactions, id) == Some(row),
    ensures
        ({
            let after = db.with_patch(id, late_patch(result), now, today);
            let charged = result matches Ok(c) && c.approved;
            &&& row_with_id(after.transactions, id) matches Some(found)
            &&& flag_field(found, "unknown"@) == Some(charged)
            &&& text_field(found, "status"@) == Some(
                if charged {
                    "APPROVED"@
                } else {
                    "CANCELED"@
                },
            )
        }),
{
    lemma_status_keys();
    let patch = late_patch(result);
    assert(!patch.contains_key("id"@));
    patched_row_is_found(db, id, patch, now, today);
    let found = updated_record(row, patch, now);
    assert(found["status"@] == patch["status"@]);
    assert(found["unknown"@] == patch["unknown"@]);
}

/// The outcome of the void of a late charge settles the record: an approved
/// void leaves it voided and known; otherwise its status and its mark as unknown
/// stay, so that someone looks after the charge.
pub proof fn late_void_is_on_record(
    db: DbView,
    row: Fields,
    id: Seq<char>,
    result: Result<CreditView, PaxErrorView>,
    void_ecr_ref_num: Seq<char>,
    now: Seq<char>,
    today: Seq<char>,
)
    requires
        row_with_id(db.transactions, id) == Some(row),
    ensures
        ({
            let after = db.with_patch(id, late_void_patch(result, void_ecr_ref_num), now, today);
            let voided = result matches Ok(c) && c.approved;
            &&& row_with_id(after.transactions, id) matches Some(found)
            &&& voided ==> text_field(found, "status"@) == Some("VOIDED"@) && flag_field(
                found,
                "unknown"@,
            ) == Some(false)
            &&& !voided ==> text_field(found, "status"@) == text_field(row, "status"@)
                && flag_field(found, "unknown"@) == flag_field(row, "unknown"@)
        }),
{
    lemma_status_keys();
    let patch = late_void_patch(result, void_ecr_ref_num);
    assert(!patch.contains_key("id"@));
    patched_row_is_found(db, id, patch, now, today);
    let found = updated_record(row, patch, now);
    if result matches Ok(c) && c.approved {
        assert(found["status"@] == patch["status"@]);
        assert(found["unknown"@] == patch["unknown"@]);
    }
}

/// No charge goes unnoticed: whatever the terminal reports after a cancel, and
/// whatever becomes of the void, the record of the payment is known in the end
/// exactly where no card stays charged, and unknown where one does.
pub proof fn no_charge_goes_unnoticed(
    db: DbView,
    row: Fields,
    id: Seq<char>,
    late: Result<CreditView, PaxErrorView>,
    void: Result<CreditView, PaxErrorView>,
    void_ecr_ref_num: Seq<char>,
    now: Seq<char>,
    later: Seq<char>,
    today: Seq<char>,
)
    requires
        row_with_id(db.transactions, id) == Some(row),
    ensures
        ({
            let reported = db.with_patch(id, late_patch(late), now, today);
            let end = match late_void(late, "SALE"@) {
                Some(_) => reported.with_patch(
                    id,
                    late_void_patch(void, void_ecr_ref_num),
                    later,
                    today,
                ),
                None => reported,
            };
            let charged = late matches Ok(c) && c.approved;
            let reversed = void matches Ok(v) && v.approved;
            &&& row_with_id(end.transactions, id) matches Some(found)
            &&& flag_field(found, "unknown"@) == Some(charged && !reversed)
            &&& text_field(found, "status"@) == Some(
                if !charged {
                    "CANCELED"@
                } else if reversed {
                    "VOIDED"@
                } else {
                    "APPROVED"@
                },
            )
        }),
{
    late_result_is_on_record(db, row, id, late, now, today);
    let reported = db.with_patch(id, late_patch(late), now, today);
    if late_void(late, "SALE"@) is Some {
        let between = row_with_id(reported.transactions, id)->0;
        late_void_is_on_record(reported, between, id, void, void_ecr_ref_num, later, today);
    }
}

/// A transaction is voided once: after an approved void it can be voided no
/// more.
pub proof fn voided_only_once(
    db: DbView,
    orig: Fields,
    orig_id: Seq<char>,
    record: Fields,
    now: Seq<char>,
    today: Seq<char>,
)
    requires
        row_with_id(db.transactions, orig_id) == Some(orig),
        text_field(record, "status"@) == Some("APPROVED"@),
    ensures
        row_with_id(
            with_void_settled(db, orig_id, record, now, today).transactions,
            orig_id,
        ) matches Some(found) && !voidable(found) && text_field(found, "status"@) == Some(
            "VOIDED"@,
        ),
{
    lemma_status_keys();
    let patch = voided_patch(crate::json::or_empty(text_field(record, "id"@)));
    assert(!patch.contains_key("id"@));
    patched_row_is_found(db, orig_id, patch, now, today);
    let found = updated_record(orig, patch, now);
    assert(found["status"@] == patch["status"@]);
    reveal_strlit("VOIDED");
    reveal_strlit("APPROVED");
    assert("VOIDED"@.len() != "APPROVED"@.len());
}

/// A void that was not approved changes nothing of the transaction it was for.
pub proof fn failed_void_changes_nothing(
    db: DbView,
    orig_id: Seq<char>,
    record: Fields,
    now: Seq<char>,
    today: Seq<char>,
)
    requires
        text_field(record, "status"@) != Some("APPROVED"@),
    ensures
        with_void_settled(db, orig_id, record, now, today) == db,
{
}

/// A terminal that was accepted can be worked with: it has a name, a known
/// model, a place to be reached at, a port and a rate.
pub proof fn accepted_terminal_is_complete(
    body: Fields,
    numbers: TerminalNumbers,
    id: Seq<char>,
    created_at: Seq<char>,
)
    requires
        terminal_errors(body, false, numbers).len() == 0,
    ensures
        ({
            let t = new_terminal(body, numbers, id, created_at);
            &&& t.name.len() > 0
            &&& t.model == "A920 Pro"@ || t.model == "A35"@
            &&& t.conn_type == "tcp"@ || t.conn_type == "usb"@
            &&& t.conn_type == "tcp"@ ==> t.ip.len() > 0
            &&& t.conn_type == "usb"@ ==> t.serial_path.len() > 0
            &&& t.port != 0
            &&& t.baud_rate != 0
        }),
{
    reveal_strlit("tcp");
    reveal_strlit("usb");
    assert("tcp"@[0] != "usb"@[0]);
    assert(name_errors(body, false).len() == 0);
    assert(conn_type_errors(body).len() == 0);
    assert(address_errors(body, false, numbers).len() == 0);
    assert(model_errors(body).len() == 0);
}

/// What a batch has settled can be refunded, but not voided.
pub proof fn settled_is_not_voidable(row: Fields, batch_info: JsonView, now: Seq<char>)
    ensures
        !voidable(settled_record(row, batch_info, now)),
{
    reveal_strlit("settled");
    reveal_strlit("batchInfo");
    reveal_strlit("updatedAt");
    assert("settled"@.len() == 7 && "batchInfo"@.len() == 9 && "updatedAt"@.len() == 9);
    let found = settled_record(row, batch_info, now);
    assert(found["settled"@] == JsonView::Bool(true));
}

}
