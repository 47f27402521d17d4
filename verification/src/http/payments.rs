//! Payment routes: sale, refund, void, and what becomes of their records.
use vstd::prelude::*;
use vstd::string::StringExecFns;

use super::payment_laws::{
    body_names_terminal_and_original, errors_have_their_status, payment_ends,
    record_says_what_was_asked_for,
};
use super::terminals::{
    busy_error, busy_error_object, cancel_or_reply, clear_prompt, device_fields, device_json,
    nothing_in_flight, opt_error,
};
use super::{
    error_entry, error_fields, error_object, hinted_error, hinted_error_object, merge_json, not_found,
    not_found_reply, object_reply, pax_error_body, pax_error_fields, plain_error,
    plain_error_object, validation_error, validation_reply, Reply, ReplyView,
};
use crate::clock::{
    date_key, date_text, gen_id, is_id, rfc3339, rfc3339_text, utc_date, utc_date_key, utc_now,
    Instant,
};
use crate::db::query::{page_fields, page_fits, page_of, page_size_of, page_slice, pages, selected};
use crate::db::record_laws::terminal_lookup;
use crate::db::terminal::{terminal_with_id, TerminalView};
use crate::db::{
    ascii_day, day_readable, ecr_ref, new_record, opt_object, row_readable, row_with_id,
    updated_record, Db, DbView, Terminal, TxQuery,
};
use crate::json::{
    flag_field, int_field, int_json, opt_text, or_empty, own_text, text_field, text_or_null, Fields,
    Json, JsonView, Object,
};
use crate::protocol::requests::credit_request;
use crate::protocol::responses::{credit_fields, CreditView};
use crate::protocol::{CreditResponse, PaxError, PaxErrorView};
use crate::text::{is_text, same_text};
use crate::transport::{
    busy, canceled, credit_view, framed, is_busy, line_key, line_of, refund, refund_input, sale,
    sale_input, void_input, void_transaction, Command, CommandBoard, CommandView,
};

verus! {

// ---------------------------------------------------------------------------
// What is asked for
// ---------------------------------------------------------------------------

/// What kind of payment is asked for.
#[derive(Debug)]
pub enum PaymentKind {
    Sale { tip_cents: i64 },
    Refund,
    /// A void of an earlier transaction.
    Void { orig_id: String, orig_ref_num: String, orig_trans_num: Option<String> },
}

/// What a `PaymentKind` holds.
pub enum PaymentKindView {
    Sale { tip_cents: i64 },
    Refund,
    Void { orig_id: Seq<char>, orig_ref_num: Seq<char>, orig_trans_num: Option<Seq<char>> },
}

impl PaymentKind {
    pub open spec fn view(&self) -> PaymentKindView {
        match self {
            PaymentKind::Sale { tip_cents } => PaymentKindView::Sale { tip_cents: *tip_cents },
            PaymentKind::Refund => PaymentKindView::Refund,
            PaymentKind::Void { orig_id, orig_ref_num, orig_trans_num } => PaymentKindView::Void {
                orig_id: orig_id@,
                orig_ref_num: orig_ref_num@,
                orig_trans_num: opt_text(*orig_trans_num),
            },
        }
    }

    /// The type that the record of the payment carries.
    pub fn tx_type(&self) -> (r: &'static str)
        ensures
            r@ == self@.tx_type(),
    {
        match self {
            PaymentKind::Sale { .. } => "SALE",
            PaymentKind::Refund => "RETURN",
            PaymentKind::Void { .. } => "VOID",
        }
    }

    /// The tip, which only a sale has.
    pub fn tip(&self) -> (r: i64)
        ensures
            r == self@.tip(),
    {
        match self {
            PaymentKind::Sale { tip_cents } => *tip_cents,
            _ => 0,
        }
    }

    fn extra(&self) -> (o: Object)
        ensures
            o@ == self@.extra(),
    {
        match self {
            PaymentKind::Void { orig_id, orig_ref_num, .. } => Object::new().put(
                "voidOfTxnId",
                Json::of_str(orig_id.as_str()),
            ).put("voidOfRefNum", Json::of_str(orig_ref_num.as_str())),
            _ => Object::new(),
        }
    }
}

impl PaymentKindView {
    /// The type that the record of the payment carries.
    pub open spec fn tx_type(self) -> Seq<char> {
        match self {
            PaymentKindView::Sale { .. } => "SALE"@,
            PaymentKindView::Refund => "RETURN"@,
            PaymentKindView::Void { .. } => "VOID"@,
        }
    }

    /// The tip, which only a sale has.
    pub open spec fn tip(self) -> i64 {
        match self {
            PaymentKindView::Sale { tip_cents } => tip_cents,
            _ => 0,
        }
    }

    /// What the record of a void says of the transaction voided.
    pub open spec fn extra(self) -> Fields {
        match self {
            PaymentKindView::Void { orig_id, orig_ref_num, .. } => map![
                "voidOfTxnId"@ => JsonView::Str(orig_id),
                "voidOfRefNum"@ => JsonView::Str(orig_ref_num)
            ],
            _ => Map::empty(),
        }
    }
}

/// A payment that is to be run.
#[derive(Debug)]
pub struct PaymentPlan {
    pub terminal: Terminal,
    pub kind: PaymentKind,
    pub amount_cents: i64,
    pub order_ref: Option<String>,
}

/// What a `PaymentPlan` holds.
pub struct PlanView {
    pub terminal: TerminalView,
    pub kind: PaymentKindView,
    pub amount_cents: i64,
    pub order_ref: Option<Seq<char>>,
}

impl PaymentPlan {
    pub open spec fn view(&self) -> PlanView {
        PlanView {
            terminal: self.terminal@,
            kind: self.kind@,
            amount_cents: self.amount_cents,
            order_ref: opt_text(self.order_ref),
        }
    }

    /// The command that carries the payment.
    pub fn command(&self, ecr_ref_num: &str, sale_txn_type: &str, protocol_version: &str) -> (c:
        Command)
        ensures
            c@ == payment_command(self@, ecr_ref_num@, sale_txn_type@, protocol_version@),
    {
        match &self.kind {
            PaymentKind::Sale { tip_cents } => sale(
                self.amount_cents,
                ecr_ref_num.to_owned(),
                *tip_cents,
                sale_txn_type,
                protocol_version,
            ),
            PaymentKind::Refund => refund(
                self.amount_cents,
                ecr_ref_num.to_owned(),
                protocol_version,
            ),
            PaymentKind::Void { orig_ref_num, orig_trans_num, .. } => void_transaction(
                orig_ref_num.clone(),
                ecr_ref_num.to_owned(),
                self.amount_cents,
                crate::json::copy_option(orig_trans_num),
                protocol_version,
            ),
        }
    }
}

/// The command that carries a payment.
pub open spec fn payment_command(
    plan: PlanView,
    ecr_ref_num: Seq<char>,
    sale_txn_type: Seq<char>,
    version: Seq<char>,
) -> CommandView {
    let input = match plan.kind {
        PaymentKindView::Sale { tip_cents } => sale_input(
            sale_txn_type,
            plan.amount_cents,
            ecr_ref_num,
            tip_cents,
        ),
        PaymentKindView::Refund => refund_input(plan.amount_cents, ecr_ref_num),
        PaymentKindView::Void { orig_ref_num, orig_trans_num, .. } => void_input(
            orig_ref_num,
            ecr_ref_num,
            plan.amount_cents,
            orig_trans_num,
        ),
    };
    framed(credit_request(input, version))
}

/// The terminal that a payment body names.
pub open spec fn named_terminal(db: DbView, body: Fields) -> Option<TerminalView> {
    match text_field(body, "terminalId"@) {
        Some(id) => terminal_with_id(db.terminals, id),
        None => None,
    }
}

/// The reply to a payment body that names no terminal.
pub open spec fn no_terminal() -> ReplyView {
    not_found_reply("Terminal not found. Check terminalId."@)
}

/// The terminal that a payment body names, or the reply that there is none.
pub fn require_terminal(db: &Db, body: &Json) -> (r: Result<Terminal, Reply>)
    ensures
        match r {
            Ok(t) => named_terminal(db@, body@.fields()) == Some(t@),
            Err(reply) => named_terminal(db@, body@.fields()) is None && reply@ == no_terminal(),
        },
{
    if let Some(id) = body.text("terminalId") {
        if let Some(t) = db.get_terminal(id) {
            return Ok(t);
        }
    }
    Err(not_found("Terminal not found. Check terminalId."))
}

/// The reply to an amount that is no positive whole number of cents.
pub open spec fn bad_amount() -> ReplyView {
    validation_reply("amountCents must be a positive integer (cents)"@)
}

/// The sale that a body asks for, or the reply. `amount_cents` is what the
/// body's amount reads as, none where it is no positive whole number.
pub fn sale_payment(db: &Db, body: &Json, amount_cents: Option<i64>, tip_cents: i64) -> (r: Result<
    PaymentPlan,
    Reply,
>)
    ensures
        match named_terminal(db@, body@.fields()) {
            None => r matches Err(reply) && reply@ == no_terminal(),
            Some(t) => match amount_cents {
                None => r matches Err(reply) && reply@ == bad_amount(),
                Some(amount) => r matches Ok(plan) && plan@ == (PlanView {
                    terminal: t,
                    kind: PaymentKindView::Sale { tip_cents },
                    amount_cents: amount,
                    order_ref: text_field(body@.fields(), "orderRef"@),
                }),
            },
        },
        r is Ok <==> named_terminal(db@, body@.fields()) is Some && amount_cents is Some,
        r matches Ok(plan) ==> (plan.kind matches PaymentKind::Sale { tip_cents: tip } && tip
            == tip_cents),
        r matches Ok(plan) ==> text_field(body@.fields(), "terminalId"@) == Some(plan.terminal.id@),
        r matches Ok(plan) ==> amount_cents == Some(plan.amount_cents),
{
    proof {
        body_names_terminal_and_original(db@, body@.fields());
    }
    let terminal = match require_terminal(db, body) {
        Ok(t) => t,
        Err(reply) => {
            return Err(reply);
        },
    };
    match amount_cents {
        Some(amount) => Ok(
            PaymentPlan {
                terminal,
                kind: PaymentKind::Sale { tip_cents },
                amount_cents: amount,
                order_ref: own_text(body.text("orderRef")),
            },
        ),
        None => Err(validation_error("amountCents must be a positive integer (cents)")),
    }
}

/// The refund that a body asks for, or the reply.
pub fn refund_payment(db: &Db, body: &Json, amount_cents: Option<i64>) -> (r: Result<
    PaymentPlan,
    Reply,
>)
    ensures
        match named_terminal(db@, body@.fields()) {
            None => r matches Err(reply) && reply@ == no_terminal(),
            Some(t) => match amount_cents {
                None => r matches Err(reply) && reply@ == bad_amount(),
                Some(amount) => r matches Ok(plan) && plan@ == (PlanView {
                    terminal: t,
                    kind: PaymentKindView::Refund,
                    amount_cents: amount,
                    order_ref: text_field(body@.fields(), "orderRef"@),
                }),
            },
        },
        r is Ok <==> named_terminal(db@, body@.fields()) is Some && amount_cents is Some,
        r matches Ok(plan) ==> plan.kind is Refund,
        r matches Ok(plan) ==> text_field(body@.fields(), "terminalId"@) == Some(plan.terminal.id@),
        r matches Ok(plan) ==> amount_cents == Some(plan.amount_cents),
{
    proof {
        body_names_terminal_and_original(db@, body@.fields());
    }
    let terminal = match require_terminal(db, body) {
        Ok(t) => t,
        Err(reply) => {
            return Err(reply);
        },
    };
    match amount_cents {
        Some(amount) => Ok(
            PaymentPlan {
                terminal,
                kind: PaymentKind::Refund,
                amount_cents: amount,
                order_ref: own_text(body.text("orderRef")),
            },
        ),
        None => Err(validation_error("amountCents must be a positive integer (cents)")),
    }
}

/// The transaction that a void body names.
pub open spec fn named_original(db: DbView, body: Fields) -> Option<Fields> {
    match text_field(body, "origTxnId"@) {
        Some(id) => row_with_id(db.transactions, id),
        None => None,
    }
}

/// The reply to a void that the state of the original does not allow.
pub open spec fn invalid_state(message: Seq<char>) -> ReplyView {
    object_reply(400, error_fields(plain_error("INVALID_STATE"@, message)))
}

/// Whether a transaction can be voided: it is approved, and no batch has
/// settled it.
pub open spec fn voidable(orig: Fields) -> bool {
    text_field(orig, "status"@) == Some("APPROVED"@) && flag_field(orig, "settled"@) != Some(true)
}

/// The void of a transaction.
pub open spec fn void_plan(t: TerminalView, orig: Fields) -> PlanView {
    PlanView {
        terminal: t,
        kind: PaymentKindView::Void {
            orig_id: or_empty(text_field(orig, "id"@)),
            orig_ref_num: or_empty(text_field(orig, "refNum"@)),
            orig_trans_num: text_field(orig, "transactionNum"@),
        },
        amount_cents: match int_field(orig, "amountCents"@) {
            Some(n) => n,
            None => 0,
        },
        order_ref: text_field(orig, "orderRef"@),
    }
}

/// The void that a body asks for, or the reply. Only an approved transaction
/// that no batch has settled can be voided.
pub fn void_payment(db: &Db, body: &Json) -> (r: Result<PaymentPlan, Reply>)
    ensures
        match named_terminal(db@, body@.fields()) {
            None => r matches Err(reply) && reply@ == no_terminal(),
            Some(t) => match named_original(db@, body@.fields()) {
                None => r matches Err(reply) && reply@ == not_found_reply(
                    "Original transaction not found (origTxnId)."@,
                ),
                Some(orig) => if voidable(orig) {
                    r matches Ok(plan) && plan@ == void_plan(t, orig)
                } else if text_field(orig, "status"@) != Some("APPROVED"@) {
                    r matches Err(reply) && reply@ == invalid_state(
                        "Only APPROVED transactions can be voided."@,
                    )
                } else {
                    r matches Err(reply) && reply@ == invalid_state(
                        "Transaction already settled — issue a refund instead of a void."@,
                    )
                },
            },
        },
        r matches Ok(plan) ==> plan.kind is Void && text_field(body@.fields(), "terminalId"@)
            == Some(plan.terminal.id@),
        r matches Ok(plan) ==> (text_field(body@.fields(), "origTxnId"@) matches Some(id)
            && row_with_id(db@.transactions, id) matches Some(orig) && text_field(orig, "status"@)
            == Some("APPROVED"@) && flag_field(orig, "settled"@) != Some(true) && (int_field(
            orig,
            "amountCents"@,
        ) matches Some(n) ==> plan.amount_cents == n)),
{
    proof {
        body_names_terminal_and_original(db@, body@.fields());
    }
    let terminal = match require_terminal(db, body) {
        Ok(t) => t,
        Err(reply) => {
            return Err(reply);
        },
    };
    let found = match body.text("origTxnId") {
        Some(id) => db.get_transaction(id),
        None => None,
    };
    let orig = match found {
        Some(o) => o,
        None => {
            return Err(not_found("Original transaction not found (origTxnId)."));
        },
    };
    if !is_text(orig.text("status"), "APPROVED") {
        return Err(
            Reply::object(
                400,
                error_object(
                    plain_error_object("INVALID_STATE", "Only APPROVED transactions can be voided."),
                ),
            ),
        );
    }
    let settled = match orig.flag("settled") {
        Some(b) => b,
        None => false,
    };
    if settled {
        return Err(
            Reply::object(
                400,
                error_object(
                    plain_error_object(
                        "INVALID_STATE",
                        "Transaction already settled — issue a refund instead of a void.",
                    ),
                ),
            ),
        );
    }
    Ok(
        PaymentPlan {
            terminal,
            kind: PaymentKind::Void {
                orig_id: orig.text_or_empty("id"),
                orig_ref_num: orig.text_or_empty("refNum"),
                orig_trans_num: own_text(orig.text("transactionNum")),
            },
            amount_cents: match orig.integer("amountCents") {
                Some(n) => n,
                None => 0,
            },
            order_ref: own_text(orig.text("orderRef")),
        },
    )
}

// ---------------------------------------------------------------------------
// Starting
// ---------------------------------------------------------------------------

/// A payment that is recorded and about to be sent.
#[derive(Debug)]
pub struct StartedPayment {
    pub txn: Object,
    pub txn_id: String,
    pub ecr_ref_num: String,
}

/// The fields that a payment is recorded with.
pub open spec fn payment_fields(plan: PlanView, ecr_ref_num: Seq<char>) -> Fields {
    map![
        "terminalId"@ => JsonView::Str(plan.terminal.id),
        "terminalName"@ => JsonView::Str(plan.terminal.name),
        "type"@ => JsonView::Str(plan.kind.tx_type()),
        "amountCents"@ => int_json(plan.amount_cents),
        "tipCents"@ => int_json(plan.kind.tip()),
        "orderRef"@ => text_or_null(plan.order_ref),
        "ecrRefNum"@ => JsonView::Str(ecr_ref_num),
        "status"@ => JsonView::Str("PENDING"@)
    ].union_prefer_right(plan.kind.extra())
}

/// The record that a payment starts with.
pub open spec fn payment_record(
    plan: PlanView,
    ecr_ref_num: Seq<char>,
    id: Seq<char>,
    now: Seq<char>,
) -> Fields {
    new_record(payment_fields(plan, ecr_ref_num), id, now)
}

/// The ECR reference number that a payment gets on a day.
pub open spec fn payment_ref(db: DbView, key: Seq<char>) -> Seq<char> {
    ecr_ref(key, db.next_seq(key))
}

/// The database once a payment is recorded.
pub open spec fn with_payment(
    db: DbView,
    plan: PlanView,
    key: Seq<char>,
    id: Seq<char>,
    now: Seq<char>,
    today: Seq<char>,
) -> DbView {
    db.with_next_seq(key).with_transaction(
        payment_record(plan, payment_ref(db, key), id, now),
        today,
    )
}

/// Whether a started payment is the one recorded under an id at a time.
pub open spec fn is_started(
    p: StartedPayment,
    db: DbView,
    plan: PlanView,
    key: Seq<char>,
    id: Seq<char>,
    now: Seq<char>,
) -> bool {
    &&& p.ecr_ref_num@ == payment_ref(db, key)
    &&& p.txn@ == payment_record(plan, payment_ref(db, key), id, now)
    &&& p.txn_id@ == id
}

/// The reply to a payment on a busy terminal.
pub open spec fn busy_payment_reply() -> ReplyView {
    object_reply(409, error_fields(busy_error(clear_prompt())))
}

/// Records a payment as pending, with a new reference number and id, now. A
/// busy terminal is refused, and nothing is recorded.
pub fn start_payment(db: &mut Db, board: &CommandBoard, plan: &PaymentPlan) -> (r: Result<
    StartedPayment,
    Reply,
>)
    requires
        old(db).wf(),
        busy(board@, plan@.terminal) || old(db)@.readable(),
        busy(board@, plan@.terminal) || old(db).seq_left(),
        board.wf(),
    ensures
        final(db).wf(),
        old(db)@.readable() ==> final(db)@.readable(),
        if busy(board@, plan@.terminal) {
            final(db)@ == old(db)@ && (r matches Err(reply) && reply@ == busy_payment_reply())
        } else {
            r matches Ok(p) && exists|k: Instant, id: Seq<char>, t: Instant|
                #![trigger utc_date_key(k.secs), is_id(id, "txn"@), rfc3339_text(t.secs, t.nanos)]
                {
                    &&& k.valid() && t.valid() && is_id(id, "txn"@)
                    &&& is_started(
                        p,
                        old(db)@,
                        plan@,
                        utc_date_key(k.secs),
                        id,
                        rfc3339_text(t.secs, t.nanos),
                    )
                    &&& final(db)@ == with_payment(
                        old(db)@,
                        plan@,
                        utc_date_key(k.secs),
                        id,
                        rfc3339_text(t.secs, t.nanos),
                        utc_date(t.secs),
                    )
                }
        },
{
    let k = utc_now();
    let key = date_key(k);
    let id = gen_id("txn");
    let t = utc_now();
    let now = rfc3339(t);
    let today = date_text(t);
    proof {
        ascii_day(now@);
        assert(is_id(id@, "txn"@));
    }
    start_payment_at(db, board, plan, key.as_str(), id, now.as_str(), today.as_str())
}

/// Records a payment as pending, under an id at a time.
pub fn start_payment_at(
    db: &mut Db,
    board: &CommandBoard,
    plan: &PaymentPlan,
    key: &str,
    id: String,
    now: &str,
    today: &str,
) -> (r: Result<StartedPayment, Reply>)
    requires
        old(db).wf(),
        busy(board@, plan@.terminal) || old(db)@.readable(),
        busy(board@, plan@.terminal) || old(db)@.next_seq(key@) <= u32::MAX,
        board.wf(),
        day_readable(now@),
    ensures
        final(db).wf(),
        old(db)@.readable() ==> final(db)@.readable(),
        if busy(board@, plan@.terminal) {
            final(db)@ == old(db)@ && (r matches Err(reply) && reply@ == busy_payment_reply())
        } else {
            &&& r matches Ok(p) && is_started(p, old(db)@, plan@, key@, id@, now@)
            &&& final(db)@ == with_payment(old(db)@, plan@, key@, id@, now@, today@)
        },
        !busy(board@, plan@.terminal) ==> (row_with_id(
            final(db)@.transactions,
            id@,
        ) matches Some(record) && text_field(record, "status"@) == Some("PENDING"@) && int_field(
            record,
            "amountCents"@,
        ) == Some(plan.amount_cents) && text_field(record, "terminalId"@) == Some(
            plan.terminal.id@,
        ) && text_field(record, "type"@) == Some(
            match plan.kind {
                PaymentKind::Sale { .. } => "SALE"@,
                PaymentKind::Refund => "RETURN"@,
                PaymentKind::Void { .. } => "VOID"@,
            },
        )),
{
    proof {
        record_says_what_was_asked_for(db@, plan@, key@, id@, now@, today@);
    }
    if is_busy(board, &plan.terminal) {
        return Err(Reply::object(409, error_object(busy_error_object())));
    }
    let ecr_ref_num = db.next_ecr_ref_num_on(key);
    let mut fields = Object::new().put(
        "terminalId",
        Json::of_str(plan.terminal.id.as_str()),
    ).put("terminalName", Json::of_str(plan.terminal.name.as_str())).put(
        "type",
        Json::of_str(plan.kind.tx_type()),
    ).put("amountCents", Json::of_int(plan.amount_cents)).put(
        "tipCents",
        Json::of_int(plan.kind.tip()),
    ).put("orderRef", Json::of_option(&plan.order_ref)).put(
        "ecrRefNum",
        Json::of_str(ecr_ref_num.as_str()),
    ).put("status", Json::of_str("PENDING"));
    let extra = plan.kind.extra();
    fields.merge(&extra);
    proof {
        lemma_payment_keys(plan@, ecr_ref_num@);
    }
    let ghost id_view = id@;
    let txn = db.create_transaction_with(&fields, id, now, today);
    proof {
        lemma_record_id(fields@, id_view, now@);
    }
    let txn_id = txn.text_or_empty("id");
    Ok(StartedPayment { txn, txn_id, ecr_ref_num })
}

proof fn lemma_payment_keys(plan: PlanView, ecr_ref_num: Seq<char>)
    ensures
        !payment_fields(plan, ecr_ref_num).contains_key("id"@),
        !payment_fields(plan, ecr_ref_num).contains_key("createdAt"@),
{
    reveal_strlit("id");
    reveal_strlit("createdAt");
    reveal_strlit("terminalId");
    reveal_strlit("terminalName");
    reveal_strlit("type");
    reveal_strlit("amountCents");
    reveal_strlit("tipCents");
    reveal_strlit("orderRef");
    reveal_strlit("ecrRefNum");
    reveal_strlit("status");
    reveal_strlit("voidOfTxnId");
    reveal_strlit("voidOfRefNum");
    assert("createdAt"@[0] == 'c');
    assert("ecrRefNum"@[0] == 'e');
    assert("id"@.len() == 2);
}

proof fn lemma_record_id(fields: Fields, id: Seq<char>, now: Seq<char>)
    requires
        !fields.contains_key("id"@),
    ensures
        text_field(new_record(fields, id, now), "id"@) == Some(id),
{
    reveal_strlit("id");
    reveal_strlit("createdAt");
    reveal_strlit("updatedAt");
    reveal_strlit("status");
    assert("id"@.len() == 2);
    let r = new_record(fields, id, now);
    assert(r["id"@] == JsonView::Str(id));
}

// ---------------------------------------------------------------------------
// Lifecycle events
// ---------------------------------------------------------------------------

/// An event about a payment.
pub open spec fn event_fields(
    kind: Seq<char>,
    txn_id: Seq<char>,
    ecr_ref_num: Seq<char>,
) -> Fields {
    map![
        "type"@ => JsonView::Str(kind),
        "txnId"@ => JsonView::Str(txn_id),
        "ecrRefNum"@ => JsonView::Str(ecr_ref_num)
    ]
}

/// An event about a payment.
pub fn event_object(kind: &str, txn_id: &str, ecr_ref_num: &str) -> (o: Object)
    ensures
        o@ == event_fields(kind@, txn_id@, ecr_ref_num@),
{
    Object::new().put("type", Json::of_str(kind)).put("txnId", Json::of_str(txn_id)).put(
        "ecrRefNum",
        Json::of_str(ecr_ref_num),
    )
}

/// The event that a state of the exchange is announced with.
pub open spec fn lifecycle_type(state: Seq<char>) -> Option<Seq<char>> {
    if state == "SENDING"@ {
        Some("SENDING"@)
    } else if state == "WAITING"@ {
        Some("WAITING_FOR_CARD"@)
    } else if state == "RECEIVING"@ {
        Some("PROCESSING"@)
    } else {
        None
    }
}

/// The event to announce when the exchange of a payment reaches a state.
pub fn lifecycle_event(state: &str, txn_id: &str, ecr_ref_num: &str) -> (r: Option<Object>)
    ensures
        opt_object(r) == (match lifecycle_type(state@) {
            Some(kind) => Some(event_fields(kind, txn_id@, ecr_ref_num@)),
            None => None,
        }),
{
    if same_text(state, "SENDING") {
        Some(event_object("SENDING", txn_id, ecr_ref_num))
    } else if same_text(state, "WAITING") {
        Some(event_object("WAITING_FOR_CARD", txn_id, ecr_ref_num))
    } else if same_text(state, "RECEIVING") {
        Some(event_object("PROCESSING", txn_id, ecr_ref_num))
    } else {
        None
    }
}

// ---------------------------------------------------------------------------
// Finishing
// ---------------------------------------------------------------------------

/// How a payment ended.
pub enum Ending {
    Approved,
    Declined,
    Canceled,
    Timeout,
    Error,
}

/// How a payment with this result ended.
pub open spec fn ending(result: Result<CreditView, PaxErrorView>) -> Ending {
    match result {
        Ok(c) => if c.approved {
            Ending::Approved
        } else {
            Ending::Declined
        },
        Err(e) => if e.code == "CANCELED"@ {
            Ending::Canceled
        } else if e.code == "TIMEOUT"@ {
            Ending::Timeout
        } else {
            Ending::Error
        },
    }
}

/// The status that a payment that ended so is recorded and announced with.
pub open spec fn ending_status(e: Ending) -> Seq<char> {
    match e {
        Ending::Approved => "APPROVED"@,
        Ending::Declined => "DECLINED"@,
        Ending::Canceled => "CANCELED"@,
        Ending::Timeout => "TIMEOUT"@,
        Ending::Error => "ERROR"@,
    }
}

/// What a record takes over from the terminal's response.
pub open spec fn response_part(c: CreditView) -> Fields {
    map![
        "response"@ => JsonView::Obj(credit_fields(c)),
        "resultCode"@ => JsonView::Str(c.result_code),
        "resultTxt"@ => JsonView::Str(c.result_txt),
        "authCode"@ => JsonView::Str(c.auth_code),
        "refNum"@ => JsonView::Str(c.ref_num),
        "transactionNum"@ => JsonView::Str(c.transaction_num),
        "last4"@ => JsonView::Str(c.last4),
        "cardType"@ => JsonView::Str(c.card_type),
        "approvedAmountCents"@ => int_json(c.approved_amount_cents)
    ]
}

/// What a record takes over from the terminal's response.
pub fn response_object(c: &CreditResponse) -> (o: Object)
    ensures
        o@ == response_part(c@),
{
    Object::new().put("response", c.to_json()).put(
        "resultCode",
        Json::of_str(c.result_code.as_str()),
    ).put("resultTxt", Json::of_str(c.result_txt.as_str())).put(
        "authCode",
        Json::of_str(c.auth_code.as_str()),
    ).put("refNum", Json::of_str(c.ref_num.as_str())).put(
        "transactionNum",
        Json::of_str(c.transaction_num.as_str()),
    ).put("last4", Json::of_str(c.last4.as_str())).put(
        "cardType",
        Json::of_str(c.card_type.as_str()),
    ).put("approvedAmountCents", Json::of_int(c.approved_amount_cents))
}

/// What the result of a payment changes in its record. A canceled or timed-out
/// payment stays marked as unknown: the card may have been charged.
pub open spec fn payment_patch(
    result: Result<CreditView, PaxErrorView>,
    offline_approval: bool,
) -> Fields {
    let status = JsonView::Str(ending_status(ending(result)));
    match result {
        Ok(c) => response_part(c).insert("status"@, status).insert(
            "offlineApproval"@,
            JsonView::Bool(offline_approval),
        ),
        Err(e) => {
            let error = JsonView::Obj(plain_error(e.code, e.message));
            match ending(result) {
                Ending::Error => map!["status"@ => status, "error"@ => error],
                _ => map![
                    "status"@ => status,
                    "unknown"@ => JsonView::Bool(true),
                    "error"@ => error
                ],
            }
        },
    }
}

/// The event that the result of a payment is announced with.
pub open spec fn payment_event(
    result: Result<CreditView, PaxErrorView>,
    txn_id: Seq<char>,
    ecr_ref_num: Seq<char>,
) -> Fields {
    let kind = ending_status(ending(result));
    match result {
        Ok(c) => event_fields(kind, txn_id, ecr_ref_num).insert(
            "result"@,
            JsonView::Obj(credit_fields(c)),
        ),
        Err(e) => match ending(result) {
            Ending::Canceled => event_fields(kind, txn_id, ecr_ref_num),
            Ending::Timeout => map![
                "type"@ => JsonView::Str(kind),
                "txnId"@ => JsonView::Str(txn_id)
            ],
            _ => map![
                "type"@ => JsonView::Str(kind),
                "txnId"@ => JsonView::Str(txn_id),
                "error"@ => JsonView::Obj(plain_error(e.code, e.message))
            ],
        },
    }
}

/// The HTTP status that the result of a payment is answered with.
pub open spec fn payment_status(result: Result<CreditView, PaxErrorView>) -> u16 {
    match ending(result) {
        Ending::Approved => 200,
        Ending::Declined => 402,
        Ending::Canceled => 409,
        Ending::Timeout => 504,
        Ending::Error => match result {
            Err(e) => error_entry(e.code).0,
            Ok(_) => 500,
        },
    }
}

/// The reply to a payment, given its result and its record.
pub open spec fn payment_reply(
    result: Result<CreditView, PaxErrorView>,
    record: Fields,
) -> ReplyView {
    let base: Fields = map!["transaction"@ => JsonView::Obj(record)];
    object_reply(
        payment_status(result),
        match result {
            Ok(c) => base.insert("result"@, JsonView::Obj(credit_fields(c))),
            Err(e) => base.union_prefer_right(pax_error_fields(e)),
        },
    )
}

/// The record of a payment once its result is in.
pub open spec fn finished_record(
    db: DbView,
    txn: Fields,
    txn_id: Seq<char>,
    patch: Fields,
    now: Seq<char>,
) -> Fields {
    match row_with_id(db.transactions, txn_id) {
        Some(row) => updated_record(row, patch, now),
        None => txn,
    }
}

/// A payment whose result is in: the reply, the record as it now stands, and
/// the event to announce.
#[derive(Debug)]
pub struct FinishedPayment {
    pub reply: Reply,
    pub record: Object,
    pub event: Object,
}

/// Whether a payment was finished with this result at a time.
pub open spec fn is_finished(
    f: FinishedPayment,
    db: DbView,
    p: StartedPayment,
    result: Result<CreditView, PaxErrorView>,
    offline_approval: bool,
    now: Seq<char>,
) -> bool {
    let record = finished_record(
        db,
        p.txn@,
        p.txn_id@,
        payment_patch(result, offline_approval),
        now,
    );
    &&& f.record@ == record
    &&& f.reply@ == payment_reply(result, record)
    &&& f.event@ == payment_event(result, p.txn_id@, p.ecr_ref_num@)
}

/// Takes in the result of a payment, now. `offline_approval` tells whether the
/// terminal approved without reaching the processor.
pub fn finish_payment(
    db: &mut Db,
    started: &StartedPayment,
    result: Result<CreditResponse, PaxError>,
    offline_approval: bool,
) -> (f: FinishedPayment)
    requires
        old(db).wf(),
        old(db)@.can_update(started.txn_id@),
    ensures
        final(db).wf(),
        old(db)@.readable() ==> final(db)@.readable(),
        exists|t: Instant|
            #![trigger rfc3339_text(t.secs, t.nanos)]
            {
                &&& t.valid()
                &&& is_finished(
                    f,
                    old(db)@,
                    *started,
                    credit_view(result),
                    offline_approval,
                    rfc3339_text(t.secs, t.nanos),
                )
                &&& final(db)@ == old(db)@.with_patch(
                    started.txn_id@,
                    payment_patch(credit_view(result), offline_approval),
                    rfc3339_text(t.secs, t.nanos),
                    utc_date(t.secs),
                )
            },
{
    let t = utc_now();
    let now = rfc3339(t);
    let today = date_text(t);
    finish_payment_at(db, started, result, offline_approval, now.as_str(), today.as_str())
}

/// Takes in the result of a payment at a time.
pub fn finish_payment_at(
    db: &mut Db,
    started: &StartedPayment,
    result: Result<CreditResponse, PaxError>,
    offline_approval: bool,
    now: &str,
    today: &str,
) -> (f: FinishedPayment)
    requires
        old(db).wf(),
        old(db)@.can_update(started.txn_id@),
    ensures
        final(db).wf(),
        old(db)@.readable() ==> final(db)@.readable(),
        is_finished(f, old(db)@, *started, credit_view(result), offline_approval, now@),
        final(db)@ == old(db)@.with_patch(
            started.txn_id@,
            payment_patch(credit_view(result), offline_approval),
            now@,
            today@,
        ),
        f.reply.status == 200 <==> (result matches Ok(c) && c.approved),
        f.reply.status == 402 <==> (result matches Ok(c) && !c.approved),
{
    proof {
        payment_ends(credit_view(result), offline_approval);
        if let Err(e) = credit_view(result) {
            errors_have_their_status(e.code);
        }
    }
    let ghost view = credit_view(result);
    let txn_id = started.txn_id.as_str();
    let ecr_ref_num = started.ecr_ref_num.as_str();
    proof {
        lemma_patch_keys(view, offline_approval);
    }
    match result {
        Ok(c) => {
            let (status, http_status): (&'static str, u16) = if c.approved {
                ("APPROVED", 200)
            } else {
                ("DECLINED", 402)
            };
            let patch = response_object(&c).put("status", Json::of_str(status)).put(
                "offlineApproval",
                Json::Bool(offline_approval),
            );
            let record = apply_patch(db, started, &patch, now, today);
            let event = event_object(status, txn_id, ecr_ref_num).put("result", c.to_json());
            let reply = Reply::object(
                http_status,
                Object::new().put("transaction", Json::Obj(record.copy())).put(
                    "result",
                    c.to_json(),
                ),
            );
            FinishedPayment { reply, record, event }
        },
        Err(e) => {
            let canceled = same_text(e.code, "CANCELED");
            let timed_out = same_text(e.code, "TIMEOUT");
            let (mapped, body) = pax_error_body(&e);
            let error = plain_error_object(e.code, e.message.as_str());
            proof {
                reveal_strlit("CANCELED");
                reveal_strlit("TIMEOUT");
                assert("CANCELED"@.len() != "TIMEOUT"@.len());
            }
            let (patch, event, http_status): (Object, Object, u16) = if canceled {
                (
                    Object::new().put("status", Json::of_str("CANCELED")).put(
                        "unknown",
                        Json::Bool(true),
                    ).put("error", Json::Obj(error)),
                    event_object("CANCELED", txn_id, ecr_ref_num),
                    409,
                )
            } else if timed_out {
                (
                    Object::new().put("status", Json::of_str("TIMEOUT")).put(
                        "unknown",
                        Json::Bool(true),
                    ).put("error", Json::Obj(error)),
                    Object::new().put("type", Json::of_str("TIMEOUT")).put(
                        "txnId",
                        Json::of_str(txn_id),
                    ),
                    504,
                )
            } else {
                (
                    Object::new().put("status", Json::of_str("ERROR")).put(
                        "error",
                        Json::Obj(error.copy()),
                    ),
                    Object::new().put("type", Json::of_str("ERROR")).put(
                        "txnId",
                        Json::of_str(txn_id),
                    ).put("error", Json::Obj(error)),
                    mapped,
                )
            };
            let record = apply_patch(db, started, &patch, now, today);
            let all = merge_json(
                Json::Obj(Object::new().put("transaction", Json::Obj(record.copy()))),
                &Json::Obj(body),
            );
            FinishedPayment { reply: Reply { status: http_status, body: Some(all) }, record, event }
        },
    }
}

fn apply_patch(
    db: &mut Db,
    started: &StartedPayment,
    patch: &Object,
    now: &str,
    today: &str,
) -> (record: Object)
    requires
        old(db).wf(),
        old(db)@.can_update(started.txn_id@),
        row_readable(patch@),
    ensures
        final(db).wf(),
        old(db)@.readable() ==> final(db)@.readable(),
        record@ == finished_record(old(db)@, started.txn@, started.txn_id@, patch@, now@),
        final(db)@ == old(db)@.with_patch(started.txn_id@, patch@, now@, today@),
{
    match db.update_transaction_at(started.txn_id.as_str(), patch, now, today) {
        Some(record) => record,
        None => started.txn.copy(),
    }
}

proof fn lemma_patch_keys(result: Result<CreditView, PaxErrorView>, offline_approval: bool)
    ensures
        !payment_patch(result, offline_approval).contains_key("createdAt"@),
        !payment_patch(result, offline_approval).contains_key("id"@),
        row_readable(payment_patch(result, offline_approval)),
{
    reveal_strlit("createdAt");
    reveal_strlit("id");
    reveal_strlit("response");
    reveal_strlit("resultCode");
    reveal_strlit("resultTxt");
    reveal_strlit("authCode");
    reveal_strlit("refNum");
    reveal_strlit("transactionNum");
    reveal_strlit("last4");
    reveal_strlit("cardType");
    reveal_strlit("approvedAmountCents");
    reveal_strlit("status");
    reveal_strlit("offlineApproval");
    reveal_strlit("unknown");
    reveal_strlit("error");
    assert("createdAt"@.len() == 9 && "createdAt"@[0] == 'c');
    assert("resultTxt"@[0] == 'r');
    assert("id"@.len() == 2);
}

/// What a voided transaction is marked with.
pub open spec fn voided_patch(void_txn_id: Seq<char>) -> Fields {
    map![
        "status"@ => JsonView::Str("VOIDED"@),
        "voidedByTxnId"@ => JsonView::Str(void_txn_id)
    ]
}

/// The database once the result of a void is in: an approved void marks the
/// transaction voided.
pub open spec fn with_void_settled(
    db: DbView,
    orig_id: Seq<char>,
    record: Fields,
    now: Seq<char>,
    today: Seq<char>,
) -> DbView {
    if text_field(record, "status"@) == Some("APPROVED"@) {
        db.with_patch(orig_id, voided_patch(or_empty(text_field(record, "id"@))), now, today)
    } else {
        db
    }
}

/// Marks the transaction that a void was for, if the void was approved, now.
pub fn settle_void(db: &mut Db, orig_id: &str, record: &Object)
    requires
        old(db).wf(),
        text_field(record@, "status"@) == Some("APPROVED"@) ==> old(db)@.can_update(orig_id@),
    ensures
        final(db).wf(),
        old(db)@.readable() ==> final(db)@.readable(),
        exists|t: Instant|
            #![trigger rfc3339_text(t.secs, t.nanos)]
            t.valid() && final(db)@ == with_void_settled(
                old(db)@,
                orig_id@,
                record@,
                rfc3339_text(t.secs, t.nanos),
                utc_date(t.secs),
            ),
{
    let t = utc_now();
    let now = rfc3339(t);
    let today = date_text(t);
    settle_void_at(db, orig_id, record, now.as_str(), today.as_str());
}

/// Marks the transaction that a void was for, if the void was approved.
pub fn settle_void_at(db: &mut Db, orig_id: &str, record: &Object, now: &str, today: &str)
    requires
        old(db).wf(),
        text_field(record@, "status"@) == Some("APPROVED"@) ==> old(db)@.can_update(orig_id@),
    ensures
        final(db).wf(),
        old(db)@.readable() ==> final(db)@.readable(),
        final(db)@ == with_void_settled(old(db)@, orig_id@, record@, now@, today@),
{
    if is_text(record.text("status"), "APPROVED") {
        let id = record.text_or_empty("id");
        let patch = Object::new().put("status", Json::of_str("VOIDED")).put(
            "voidedByTxnId",
            Json::of_str(id.as_str()),
        );
        proof {
            reveal_strlit("createdAt");
            reveal_strlit("status");
            reveal_strlit("voidedByTxnId");
            assert("createdAt"@.len() == 9);
        }
        let _ = db.update_transaction_at(orig_id, &patch, now, today);
    }
}

// ---------------------------------------------------------------------------
// Reading and canceling
// ---------------------------------------------------------------------------

/// Lists the page of payments that a query asks for.
pub fn list_payments(db: &Db, q: &TxQuery) -> (r: Reply)
    requires
        page_fits(*q),
    ensures
        ({
            let all = db@.transactions.filter(|row: Fields| selected(*q, row));
            r@ == object_reply(
                200,
                page_fields(
                    all.len() as usize,
                    page_of(*q) as i64,
                    page_size_of(*q) as i64,
                    pages(all.len() as int, page_size_of(*q)) as i64,
                    page_slice(all, (page_of(*q) - 1) * page_size_of(*q), page_size_of(*q)),
                ),
            )
        }),
{
    let result = db.query_transactions(q);
    Reply { status: 200, body: Some(result.to_json()) }
}

/// Shows a payment.
pub fn get_payment(db: &Db, id: &str) -> (r: Reply)
    ensures
        r@ == (match row_with_id(db@.transactions, id@) {
            Some(row) => object_reply(200, map!["transaction"@ => JsonView::Obj(row)]),
            None => not_found_reply("Transaction not found"@),
        }),
{
    match db.get_transaction(id) {
        Some(row) => Reply::object(200, Object::new().put("transaction", Json::Obj(row))),
        None => not_found("Transaction not found"),
    }
}

/// The reply to a cancel of a payment that is already over.
pub open spec fn not_cancelable(status: Seq<char>) -> ReplyView {
    object_reply(
        409,
        error_fields(
            hinted_error(
                "NOT_CANCELABLE"@,
                "Transaction already finished with status "@ + status + "."@,
                "Only a payment still waiting on the terminal can be cancelled."@,
            ),
        ),
    )
}

/// Aborts a payment that is still waiting on the terminal, so the cashier is
/// not stuck until the payment timeout. Gives the terminal to push the cancel
/// frame to, or the reply. The record is left to the payment itself.
pub fn cancel_payment(db: &Db, board: &mut CommandBoard, id: &str) -> (r: Result<Terminal, Reply>)
    requires
        old(board).wf(),
    ensures
        final(board).wf(),
        match row_with_id(db@.transactions, id@) {
            None => final(board)@ == old(board)@ && (r matches Err(reply) && reply@
                == not_found_reply("Transaction not found"@)),
            Some(row) => if text_field(row, "status"@) != Some("PENDING"@) {
                final(board)@ == old(board)@ && (r matches Err(reply) && reply@ == not_cancelable(
                    or_empty(text_field(row, "status"@)),
                ))
            } else {
                match terminal_with_id(
                    db@.terminals,
                    or_empty(text_field(row, "terminalId"@)),
                ) {
                    None => final(board)@ == old(board)@ && (r matches Err(reply) && reply@
                        == not_found_reply("Terminal for this transaction no longer exists"@)),
                    Some(t) => final(board)@ == canceled(old(board)@, line_key(t)) && (if line_of(
                        old(board)@,
                        line_key(t),
                    ).on_wire {
                        r matches Ok(found) && found@ == t
                    } else {
                        r matches Err(reply) && reply@ == nothing_in_flight()
                    }),
                }
            },
        },
        r matches Ok(t) ==> (row_with_id(db@.transactions, id@) matches Some(row) && text_field(
            row,
            "status"@,
        ) == Some("PENDING"@) && or_empty(text_field(row, "terminalId"@)) == t.id@ && line_of(
            old(board)@,
            line_key(t@),
        ).on_wire && line_of(final(board)@, line_key(t@)).canceled),
        r is Err ==> final(board)@ == old(board)@,
        r is Err ==> r->Err_0.status == 404 || r->Err_0.status == 409,
{
    proof {
        if let Some(row) = row_with_id(db@.transactions, id@) {
            terminal_lookup(db@.terminals, or_empty(text_field(row, "terminalId"@)), 0);
        }
    }
    let txn = match db.get_transaction(id) {
        Some(row) => row,
        None => {
            return Err(not_found("Transaction not found"));
        },
    };
    if !is_text(txn.text("status"), "PENDING") {
        let status = txn.text_or_empty("status");
        let message = "Transaction already finished with status ".to_owned().concat(
            status.as_str(),
        ).concat(".");
        return Err(
            Reply::object(
                409,
                error_object(
                    hinted_error_object(
                        "NOT_CANCELABLE",
                        message.as_str(),
                        "Only a payment still waiting on the terminal can be cancelled.",
                    ),
                ),
            ),
        );
    }
    let terminal_id = txn.text_or_empty("terminalId");
    let terminal = match db.get_terminal(terminal_id.as_str()) {
        Some(t) => t,
        None => {
            return Err(not_found("Terminal for this transaction no longer exists"));
        },
    };
    match cancel_or_reply(board, &terminal) {
        Some(reply) => Err(reply),
        None => Ok(terminal),
    }
}

/// The reply to a cancel of a payment, given how the cancel frame fared.
pub fn cancel_payment_reply(id: &str, device: &Option<PaxError>) -> (r: Reply)
    ensures
        r@ == object_reply(
            200,
            map![
                "canceled"@ => JsonView::Bool(true),
                "txnId"@ => JsonView::Str(id@),
                "deviceCancel"@ => JsonView::Obj(device_fields(opt_error(*device)))
            ],
        ),
{
    Reply::object(
        200,
        Object::new().put("canceled", Json::Bool(true)).put("txnId", Json::of_str(id)).put(
            "deviceCancel",
            device_json(device),
        ),
    )
}

}
