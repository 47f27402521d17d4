//! Results that the terminal produced after the point of sale gave up waiting.
//!
//! Cancelling stops the point of sale from waiting; it cannot stop a customer
//! who taps their card anyway. A sale that lands here is money taken for an
//! order already abandoned, so it is voided immediately rather than left for
//! someone to notice on a statement.
use vstd::prelude::*;

use super::payments::{event_fields, event_object, response_object, response_part};
use super::{plain_error, plain_error_object};
use crate::clock::{date_text, rfc3339, rfc3339_text, utc_date, utc_now, Instant};
use crate::db::{row_readable, Db};
use crate::json::{opt_text, Fields, Json, JsonView, Object};
use crate::protocol::requests::credit_request;
use crate::protocol::responses::{credit_fields, CreditView};
use crate::protocol::{CreditResponse, PaxError, PaxErrorView};
use crate::text::same_text;
use crate::transport::{credit_view, framed, void_input, void_transaction, Command, CommandView};

verus! {

/// The void of a charge that nobody asked for.
#[derive(Debug)]
pub struct LateVoid {
    pub orig_ref_num: String,
    pub amount_cents: i64,
    pub orig_trans_num: Option<String>,
}

/// What a `LateVoid` holds.
pub struct LateVoidView {
    pub orig_ref_num: Seq<char>,
    pub amount_cents: i64,
    pub orig_trans_num: Option<Seq<char>>,
}

impl LateVoid {
    pub open spec fn view(&self) -> LateVoidView {
        LateVoidView {
            orig_ref_num: self.orig_ref_num@,
            amount_cents: self.amount_cents,
            orig_trans_num: opt_text(self.orig_trans_num),
        }
    }

    /// The command that carries the void.
    pub fn command(&self, ecr_ref_num: &str, protocol_version: &str) -> (c: Command)
        ensures
            c@ == late_void_command(self@, ecr_ref_num@, protocol_version@),
    {
        void_transaction(
            self.orig_ref_num.clone(),
            ecr_ref_num.to_owned(),
            self.amount_cents,
            crate::json::copy_option(&self.orig_trans_num),
            protocol_version,
        )
    }
}

/// The command that carries the void of a late charge.
pub open spec fn late_void_command(
    v: LateVoidView,
    ecr_ref_num: Seq<char>,
    version: Seq<char>,
) -> CommandView {
    framed(
        credit_request(
            void_input(v.orig_ref_num, ecr_ref_num, v.amount_cents, v.orig_trans_num),
            version,
        ),
    )
}

/// What a late result comes to: the event to announce, and the void to send
/// where a charge must be reversed.
#[derive(Debug)]
pub struct LateStep {
    pub event: Object,
    pub void: Option<LateVoid>,
}

/// Whether the terminal charged a card after the point of sale gave up.
pub open spec fn charged_late(result: Result<CreditView, PaxErrorView>) -> bool {
    result matches Ok(c) && c.approved
}

/// What a late result changes in the record of its payment. A charge that
/// landed stays unknown until the void settles it, so that a crash in between
/// leaves a record that needs attention; otherwise the cancel stands.
pub open spec fn late_patch(result: Result<CreditView, PaxErrorView>) -> Fields {
    match result {
        Err(e) => map![
            "status"@ => JsonView::Str("CANCELED"@),
            "unknown"@ => JsonView::Bool(false),
            "error"@ => JsonView::Obj(plain_error(e.code, e.message))
        ],
        Ok(c) => response_part(c).insert("canceledByPos"@, JsonView::Bool(true)).insert(
            "status"@,
            JsonView::Str(
                if c.approved {
                    "APPROVED"@
                } else {
                    "CANCELED"@
                },
            ),
        ).insert("unknown"@, JsonView::Bool(c.approved)),
    }
}

/// The event that a late result is announced with.
pub open spec fn late_event(
    result: Result<CreditView, PaxErrorView>,
    txn_id: Seq<char>,
    ecr_ref_num: Seq<char>,
) -> Fields {
    match result {
        Err(e) => event_fields("CANCELED"@, txn_id, ecr_ref_num),
        Ok(c) => event_fields(
            if c.approved {
                "APPROVED"@
            } else {
                "CANCELED"@
            },
            txn_id,
            ecr_ref_num,
        ).insert("result"@, JsonView::Obj(credit_fields(c))),
    }
}

/// The void that a late result calls for: a sale that was charged is voided.
/// Reversing a refund or a void is nothing to decide here.
pub open spec fn late_void(result: Result<CreditView, PaxErrorView>, tx_type: Seq<char>) -> Option<
    LateVoidView,
> {
    match result {
        Ok(c) => if c.approved && tx_type == "SALE"@ {
            Some(
                LateVoidView {
                    orig_ref_num: c.ref_num,
                    amount_cents: c.approved_amount_cents,
                    orig_trans_num: if c.transaction_num.len() == 0 {
                        None
                    } else {
                        Some(c.transaction_num)
                    },
                },
            )
        } else {
            None
        },
        Err(_) => None,
    }
}

/// What an optional void holds.
pub open spec fn opt_void(v: Option<LateVoid>) -> Option<LateVoidView> {
    match v {
        Some(x) => Some(x@),
        None => None,
    }
}

proof fn lemma_late_keys(result: Result<CreditView, PaxErrorView>)
    ensures
        !late_patch(result).contains_key("createdAt"@),
        row_readable(late_patch(result)),
{
    reveal_strlit("createdAt");
    reveal_strlit("response");
    reveal_strlit("resultCode");
    reveal_strlit("resultTxt");
    reveal_strlit("authCode");
    reveal_strlit("refNum");
    reveal_strlit("transactionNum");
    reveal_strlit("last4");
    reveal_strlit("cardType");
    reveal_strlit("approvedAmountCents");
    reveal_strlit("status");
    reveal_strlit("canceledByPos");
    reveal_strlit("unknown");
    reveal_strlit("error");
    assert("createdAt"@.len() == 9 && "createdAt"@[0] == 'c');
    assert("resultTxt"@[0] == 'r');
}

/// Records a result that the terminal produced after the point of sale gave up
/// waiting, now.
pub fn record_late_result(
    db: &mut Db,
    txn_id: &str,
    ecr_ref_num: &str,
    tx_type: &str,
    result: Result<CreditResponse, PaxError>,
) -> (s: LateStep)
    requires
        old(db).wf(),
        old(db)@.can_update(txn_id@),
    ensures
        final(db).wf(),
        old(db)@.readable() ==> final(db)@.readable(),
        s.event@ == late_event(credit_view(result), txn_id@, ecr_ref_num@),
        opt_void(s.void) == late_void(credit_view(result), tx_type@),
        exists|t: Instant|
            #![trigger rfc3339_text(t.secs, t.nanos)]
            t.valid() && final(db)@ == old(db)@.with_patch(
                txn_id@,
                late_patch(credit_view(result)),
                rfc3339_text(t.secs, t.nanos),
                utc_date(t.secs),
            ),
{
    let t = utc_now();
    let now = rfc3339(t);
    let today = date_text(t);
    record_late_result_at(db, txn_id, ecr_ref_num, tx_type, result, now.as_str(), today.as_str())
}

/// Records a late result at a time.
pub fn record_late_result_at(
    db: &mut Db,
    txn_id: &str,
    ecr_ref_num: &str,
    tx_type: &str,
    result: Result<CreditResponse, PaxError>,
    now: &str,
    today: &str,
) -> (s: LateStep)
    requires
        old(db).wf(),
        old(db)@.can_update(txn_id@),
    ensures
        final(db).wf(),
        old(db)@.readable() ==> final(db)@.readable(),
        s.event@ == late_event(credit_view(result), txn_id@, ecr_ref_num@),
        opt_void(s.void) == late_void(credit_view(result), tx_type@),
        final(db)@ == old(db)@.with_patch(txn_id@, late_patch(credit_view(result)), now@, today@),
{
    proof {
        lemma_late_keys(credit_view(result));
    }
    match result {
        Err(e) => {
            let patch = Object::new().put("status", Json::of_str("CANCELED")).put(
                "unknown",
                Json::Bool(false),
            ).put("error", Json::Obj(plain_error_object(e.code, e.message.as_str())));
            let _ = db.update_transaction_at(txn_id, &patch, now, today);
            LateStep { event: event_object("CANCELED", txn_id, ecr_ref_num), void: None }
        },
        Ok(c) => {
            let status: &'static str = if c.approved {
                "APPROVED"
            } else {
                "CANCELED"
            };
            let patch = response_object(&c).put("canceledByPos", Json::Bool(true)).put(
                "status",
                Json::of_str(status),
            ).put("unknown", Json::Bool(c.approved));
            let _ = db.update_transaction_at(txn_id, &patch, now, today);
            let event = event_object(status, txn_id, ecr_ref_num).put("result", c.to_json());
            let void = if c.approved && same_text(tx_type, "SALE") {
                let orig_trans_num = if c.transaction_num.as_str().is_empty() {
                    None
                } else {
                    Some(c.transaction_num)
                };
                Some(
                    LateVoid {
                        orig_ref_num: c.ref_num,
                        amount_cents: c.approved_amount_cents,
                        orig_trans_num,
                    },
                )
            } else {
                None
            };
            LateStep { event, void }
        },
    }
}

/// What the outcome of a late void changes in the record of the sale. A void
/// that failed leaves the sale as it stands, charged and unknown.
pub open spec fn late_void_patch(
    result: Result<CreditView, PaxErrorView>,
    void_ecr_ref_num: Seq<char>,
) -> Fields {
    match result {
        Ok(c) => if c.approved {
            map![
                "status"@ => JsonView::Str("VOIDED"@),
                "unknown"@ => JsonView::Bool(false),
                "voidedByEcrRefNum"@ => JsonView::Str(void_ecr_ref_num)
            ]
        } else {
            map!["voidError"@ => JsonView::Obj(plain_error(c.result_code, c.result_txt))]
        },
        Err(e) => map!["voidError"@ => JsonView::Obj(plain_error(e.code, e.message))],
    }
}

/// The event that the outcome of a late void is announced with.
pub open spec fn late_void_event(
    result: Result<CreditView, PaxErrorView>,
    txn_id: Seq<char>,
    ecr_ref_num: Seq<char>,
) -> Fields {
    event_fields(
        if charged_late(result) {
            "VOIDED"@
        } else {
            "VOID_FAILED"@
        },
        txn_id,
        ecr_ref_num,
    )
}

/// Records the outcome of a late void, now.
pub fn record_late_void(
    db: &mut Db,
    txn_id: &str,
    ecr_ref_num: &str,
    void_ecr_ref_num: &str,
    result: Result<CreditResponse, PaxError>,
) -> (event: Object)
    requires
        old(db).wf(),
        old(db)@.can_update(txn_id@),
    ensures
        final(db).wf(),
        old(db)@.readable() ==> final(db)@.readable(),
        event@ == late_void_event(credit_view(result), txn_id@, ecr_ref_num@),
        exists|t: Instant|
            #![trigger rfc3339_text(t.secs, t.nanos)]
            t.valid() && final(db)@ == old(db)@.with_patch(
                txn_id@,
                late_void_patch(credit_view(result), void_ecr_ref_num@),
                rfc3339_text(t.secs, t.nanos),
                utc_date(t.secs),
            ),
{
    let t = utc_now();
    let now = rfc3339(t);
    let today = date_text(t);
    record_late_void_at(
        db,
        txn_id,
        ecr_ref_num,
        void_ecr_ref_num,
        result,
        now.as_str(),
        today.as_str(),
    )
}

/// Records the outcome of a late void at a time.
pub fn record_late_void_at(
    db: &mut Db,
    txn_id: &str,
    ecr_ref_num: &str,
    void_ecr_ref_num: &str,
    result: Result<CreditResponse, PaxError>,
    now: &str,
    today: &str,
) -> (event: Object)
    requires
        old(db).wf(),
        old(db)@.can_update(txn_id@),
    ensures
        final(db).wf(),
        old(db)@.readable() ==> final(db)@.readable(),
        event@ == late_void_event(credit_view(result), txn_id@, ecr_ref_num@),
        final(db)@ == old(db)@.with_patch(
            txn_id@,
            late_void_patch(credit_view(result), void_ecr_ref_num@),
            now@,
            today@,
        ),
{
    proof {
        reveal_strlit("createdAt");
        reveal_strlit("status");
        reveal_strlit("unknown");
        reveal_strlit("voidedByEcrRefNum");
        reveal_strlit("voidError");
        assert("createdAt"@.len() == 9 && "createdAt"@[0] == 'c');
        assert("voidError"@[0] == 'v');
    }
    let (patch, kind): (Object, &'static str) = match result {
        Ok(c) => if c.approved {
            (
                Object::new().put("status", Json::of_str("VOIDED")).put(
                    "unknown",
                    Json::Bool(false),
                ).put("voidedByEcrRefNum", Json::of_str(void_ecr_ref_num)),
                "VOIDED",
            )
        } else {
            (
                Object::new().put(
                    "voidError",
                    Json::Obj(
                        plain_error_object(c.result_code.as_str(), c.result_txt.as_str()),
                    ),
                ),
                "VOID_FAILED",
            )
        },
        Err(e) => (
            Object::new().put(
                "voidError",
                Json::Obj(plain_error_object(e.code, e.message.as_str())),
            ),
            "VOID_FAILED",
        ),
    };
    let _ = db.update_transaction_at(txn_id, &patch, now, today);
    event_object(kind, txn_id, ecr_ref_num)
}

}
