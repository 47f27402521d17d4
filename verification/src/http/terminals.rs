//! Terminal routes.
use vstd::prelude::*;

use super::payment_laws::errors_have_their_status;
use super::terminal_laws::batch_holds_only_its_own;
use super::validate::{terminal_errors, validate_terminal};
use super::{
    error_fields, error_object, hinted_error, hinted_error_object, not_found, not_found_reply,
    object_reply, pax_error_body, pax_error_fields, pax_error_reply, pax_error_response,
    validation_error, validation_reply, Reply, ReplyView,
};
use crate::clock::{
    date_text, gen_id, is_id, is_timestamp, rfc3339, rfc3339_text, utc_date, utc_now, Instant,
};
use crate::db::record_laws::terminal_lookup;
use crate::db::terminal::{
    new_terminal, patched, terminal_fields, terminal_index, terminal_with_id, terminals_array,
    terminals_json, terminals_without, TerminalView,
};
use crate::db::{some_row_in, unsettled, Db, DbView, Terminal, TerminalNumbers};
use crate::json::{flag_field, rows_view, text_field, unsigned_number, Fields, Json, JsonView, Object};
use crate::protocol::responses::{batch_fields, initialize_fields};
use crate::protocol::{BatchResponse, InitializeInfo, PaxError, PaxErrorView};
use crate::serial::{serial_ports_array, serial_ports_json, serial_ports_view, SerialPortInfo};
use crate::text::{is_text, join_between, join_semicolon, lemma_texts_push, texts};
use crate::transport::{busy, cancel, canceled, is_busy, line_key, line_of, CommandBoard};

verus! {

/// The reply to a request for the serial ports, given how listing them went.
pub fn get_serial_ports(result: Result<Vec<SerialPortInfo>, PaxError>) -> (r: Reply)
    ensures
        r@ == (match result {
            Ok(ports) => object_reply(
                200,
                map!["ports"@ => serial_ports_array(serial_ports_view(ports@))],
            ),
            Err(e) => pax_error_reply(e@),
        }),
{
    match result {
        Ok(ports) => Reply::object(200, Object::new().put("ports", serial_ports_json(&ports))),
        Err(e) => pax_error_response(&e),
    }
}

/// Lists the terminals.
pub fn list_terminals(db: &Db) -> (r: Reply)
    ensures
        r@ == object_reply(200, map!["terminals"@ => terminals_array(db@.terminals)]),
{
    Reply::object(200, Object::new().put("terminals", terminals_json(&db.list_terminals())))
}

/// The reply that shows a terminal.
pub open spec fn terminal_reply(status: u16, t: TerminalView) -> ReplyView {
    object_reply(status, map!["terminal"@ => JsonView::Obj(terminal_fields(t))])
}

fn show_terminal(status: u16, t: &Terminal) -> (r: Reply)
    ensures
        r@ == terminal_reply(status, t@),
{
    Reply::object(status, Object::new().put("terminal", t.to_json()))
}

/// The reply to a terminal body that is wrong somewhere.
pub open spec fn refused(errors: Seq<Seq<char>>) -> ReplyView {
    validation_reply(join_between(errors, "; "@))
}

/// Adds the terminal that a body describes, with a new id, now.
pub fn create_terminal(db: &mut Db, body: &Json, numbers: &TerminalNumbers) -> (r: Reply)
    requires
        old(db).wf(),
    ensures
        final(db).wf(),
        ({
            let errors = terminal_errors(body@.fields(), false, *numbers);
            if errors.len() > 0 {
                r@ == refused(errors) && final(db)@ == old(db)@
            } else {
                exists|id: Seq<char>, at: Seq<char>|
                    #![trigger is_id(id, "term"@), is_timestamp(at)]
                    is_id(id, "term"@) && is_timestamp(at) && ({
                        let t = new_terminal(body@.fields(), *numbers, id, at);
                        &&& r@ == terminal_reply(201, t)
                        &&& final(db)@ == (DbView {
                            terminals: old(db)@.terminals.push(t),
                            unsaved: true,
                            ..old(db)@
                        })
                    })
            }
        }),
{
    let id = gen_id("term");
    let created_at = rfc3339(utc_now());
    assert(is_id(id@, "term"@) && is_timestamp(created_at@));
    create_terminal_with(db, body, numbers, id, created_at)
}

/// Adds the terminal that a body describes, under an id.
pub fn create_terminal_with(
    db: &mut Db,
    body: &Json,
    numbers: &TerminalNumbers,
    id: String,
    created_at: String,
) -> (r: Reply)
    requires
        old(db).wf(),
    ensures
        final(db).wf(),
        ({
            let errors = terminal_errors(body@.fields(), false, *numbers);
            let t = new_terminal(body@.fields(), *numbers, id@, created_at@);
            if errors.len() > 0 {
                r@ == refused(errors) && final(db)@ == old(db)@
            } else {
                &&& r@ == terminal_reply(201, t)
                &&& final(db)@ == (DbView {
                    terminals: old(db)@.terminals.push(t),
                    unsaved: true,
                    ..old(db)@
                })
            }
        }),
{
    let errors = validate_terminal(body, false, numbers);
    assert(texts(errors@).len() == errors@.len());
    if errors.len() > 0 {
        return validation_error(join_semicolon(&errors).as_str());
    }
    let t = db.create_terminal_with(body, numbers, id, created_at);
    show_terminal(201, &t)
}

/// Changes a terminal.
pub fn update_terminal_handler(
    db: &mut Db,
    id: &str,
    body: &Json,
    numbers: &TerminalNumbers,
) -> (r: Reply)
    requires
        old(db).wf(),
    ensures
        final(db).wf(),
        ({
            let errors = terminal_errors(body@.fields(), true, *numbers);
            let at = terminal_index(old(db)@.terminals, id@, 0);
            if errors.len() > 0 {
                r@ == refused(errors) && final(db)@ == old(db)@
            } else if at < old(db)@.terminals.len() {
                let t = patched(old(db)@.terminals[at], body@.fields(), *numbers);
                &&& r@ == terminal_reply(200, t)
                &&& final(db)@ == (DbView {
                    terminals: old(db)@.terminals.update(at, t),
                    unsaved: true,
                    ..old(db)@
                })
            } else {
                r@ == not_found_reply("Terminal not found"@) && final(db)@ == old(db)@
            }
        }),
{
    let errors = validate_terminal(body, true, numbers);
    assert(texts(errors@).len() == errors@.len());
    if errors.len() > 0 {
        return validation_error(join_semicolon(&errors).as_str());
    }
    match db.update_terminal(id, body, numbers) {
        Some(t) => show_terminal(200, &t),
        None => not_found("Terminal not found"),
    }
}

/// Removes a terminal.
pub fn delete_terminal_handler(db: &mut Db, id: &str) -> (r: Reply)
    requires
        old(db).wf(),
    ensures
        final(db).wf(),
        ({
            let kept = terminals_without(old(db)@.terminals, id@);
            if kept.len() != old(db)@.terminals.len() {
                &&& r@ == (ReplyView { status: 204, body: None })
                &&& final(db)@ == (DbView { terminals: kept, unsaved: true, ..old(db)@ })
            } else {
                r@ == not_found_reply("Terminal not found"@) && final(db)@ == old(db)@
            }
        }),
{
    if db.delete_terminal(id) {
        Reply { status: 204, body: None }
    } else {
        not_found("Terminal not found")
    }
}

/// The terminal that a request names, or the reply that it is not there.
pub fn find_or_reply(db: &Db, id: &str) -> (r: Result<Terminal, Reply>)
    ensures
        match r {
            Ok(t) => terminal_with_id(db@.terminals, id@) == Some(t@),
            Err(reply) => terminal_with_id(db@.terminals, id@) is None && reply@ == not_found_reply(
                "Terminal not found"@,
            ),
        },
{
    match db.get_terminal(id) {
        Some(t) => Ok(t),
        None => Err(not_found("Terminal not found")),
    }
}

/// The error of a terminal that is busy.
pub open spec fn busy_error(hint: Seq<char>) -> Fields {
    hinted_error("TERMINAL_BUSY"@, "Terminal is busy"@, hint)
}

/// What to do about a terminal that still shows its card prompt.
pub open spec fn clear_prompt() -> Seq<char> {
    "Finish the transaction on the terminal, or clear its card prompt with the red Cancel key, then try again."@
}

/// The error of a terminal that still shows its card prompt.
pub fn busy_error_object() -> (o: Object)
    ensures
        o@ == busy_error(clear_prompt()),
{
    hinted_error_object(
        "TERMINAL_BUSY",
        "Terminal is busy",
        "Finish the transaction on the terminal, or clear its card prompt with the red Cancel key, then try again.",
    )
}

/// The reply to a ping of a busy terminal.
pub open spec fn busy_ping_reply() -> ReplyView {
    object_reply(
        409,
        map!["online"@ => JsonView::Bool(true), "error"@ => JsonView::Obj(busy_error(clear_prompt()))],
    )
}

/// The terminal to ping, or the reply where none is to be pinged. A ping of a
/// busy terminal would queue behind the live command and read as unreachable.
pub fn ping_terminal(db: &Db, board: &CommandBoard, id: &str) -> (r: Result<Terminal, Reply>)
    requires
        board.wf(),
    ensures
        match terminal_with_id(db@.terminals, id@) {
            None => r matches Err(reply) && reply@ == not_found_reply("Terminal not found"@),
            Some(t) => if busy(board@, t) {
                r matches Err(reply) && reply@ == busy_ping_reply()
            } else {
                r matches Ok(found) && found@ == t
            },
        },
        r matches Ok(t) ==> t.id@ == id@ && !busy(board@, t@),
{
    proof {
        terminal_lookup(db@.terminals, id@, 0);
    }
    let terminal = match find_or_reply(db, id) {
        Ok(t) => t,
        Err(reply) => {
            return Err(reply);
        },
    };
    if is_busy(board, &terminal) {
        return Err(
            Reply::object(
                409,
                Object::new().put("online", Json::Bool(true)).put(
                    "error",
                    Json::Obj(busy_error_object()),
                ),
            ),
        );
    }
    Ok(terminal)
}

/// The reply to a ping, given how it went.
pub fn ping_reply(result: Result<InitializeInfo, PaxError>) -> (r: Reply)
    ensures
        r@ == (match result {
            Ok(info) => object_reply(
                200,
                map![
                    "online"@ => JsonView::Bool(true),
                    "info"@ => JsonView::Obj(initialize_fields(info@))
                ],
            ),
            Err(e) => object_reply(
                super::error_entry(e@.code).0,
                pax_error_fields(e@).insert("online"@, JsonView::Bool(false)),
            ),
        }),
{
    match result {
        Ok(info) => Reply::object(
            200,
            Object::new().put("online", Json::Bool(true)).put("info", info.to_json()),
        ),
        Err(e) => {
            let (status, body) = pax_error_body(&e);
            Reply::object(status, body.put("online", Json::Bool(false)))
        },
    }
}

// ---------------------------------------------------------------------------
// Cancel
// ---------------------------------------------------------------------------

/// How the cancel frame fared, as a reply shows it.
pub open spec fn device_fields(err: Option<PaxErrorView>) -> Fields {
    match err {
        None => map!["sent"@ => JsonView::Bool(true)],
        Some(e) => map![
            "sent"@ => JsonView::Bool(false),
            "code"@ => JsonView::Str(e.code),
            "message"@ => JsonView::Str(e.message)
        ],
    }
}

/// What an optional error holds.
pub open spec fn opt_error(e: Option<PaxError>) -> Option<PaxErrorView> {
    match e {
        Some(x) => Some(x@),
        None => None,
    }
}

/// How the cancel frame fared, as a reply shows it.
pub fn device_json(err: &Option<PaxError>) -> (j: Json)
    ensures
        j@ == JsonView::Obj(device_fields(opt_error(*err))),
{
    match err {
        None => Json::Obj(Object::new().put("sent", Json::Bool(true))),
        Some(e) => Json::Obj(
            Object::new().put("sent", Json::Bool(false)).put("code", Json::of_str(e.code)).put(
                "message",
                Json::of_str(e.message.as_str()),
            ),
        ),
    }
}

/// The reply to a cancel that found nothing in flight.
pub open spec fn nothing_in_flight() -> ReplyView {
    object_reply(
        409,
        error_fields(
            hinted_error(
                "NOT_IN_FLIGHT"@,
                "No command is currently in flight for this terminal."@,
                "The payment may have just completed — check its status before retrying."@,
            ),
        ),
    )
}

/// Cancels what is in flight on a terminal, or says that nothing is.
pub fn cancel_or_reply(board: &mut CommandBoard, terminal: &Terminal) -> (r: Option<Reply>)
    requires
        old(board).wf(),
    ensures
        final(board).wf(),
        final(board)@ == canceled(old(board)@, line_key(terminal@)),
        match r {
            None => line_of(old(board)@, line_key(terminal@)).on_wire,
            Some(reply) => !line_of(old(board)@, line_key(terminal@)).on_wire && reply@
                == nothing_in_flight(),
        },
{
    if cancel(board, terminal) {
        None
    } else {
        Some(
            Reply::object(
                409,
                error_object(
                    hinted_error_object(
                        "NOT_IN_FLIGHT",
                        "No command is currently in flight for this terminal.",
                        "The payment may have just completed — check its status before retrying.",
                    ),
                ),
            ),
        )
    }
}

/// Aborts whatever is in flight on a terminal, without needing a transaction
/// id. Gives the terminal to push the cancel frame to, or the reply.
pub fn cancel_terminal(db: &Db, board: &mut CommandBoard, id: &str) -> (r: Result<Terminal, Reply>)
    requires
        old(board).wf(),
    ensures
        final(board).wf(),
        match terminal_with_id(db@.terminals, id@) {
            None => final(board)@ == old(board)@ && (r matches Err(reply) && reply@
                == not_found_reply("Terminal not found"@)),
            Some(t) => final(board)@ == canceled(old(board)@, line_key(t)) && (if line_of(
                old(board)@,
                line_key(t),
            ).on_wire {
                r matches Ok(found) && found@ == t
            } else {
                r matches Err(reply) && reply@ == nothing_in_flight()
            }),
        },
        r matches Ok(t) ==> t.id@ == id@ && line_of(old(board)@, line_key(t@)).on_wire && line_of(
            final(board)@,
            line_key(t@),
        ).canceled,
        r is Err ==> final(board)@ == old(board)@,
{
    proof {
        terminal_lookup(db@.terminals, id@, 0);
    }
    let terminal = match find_or_reply(db, id) {
        Ok(t) => t,
        Err(reply) => {
            return Err(reply);
        },
    };
    match cancel_or_reply(board, &terminal) {
        Some(reply) => Err(reply),
        None => Ok(terminal),
    }
}

/// The reply to a cancel, given how the cancel frame fared.
pub fn cancel_terminal_reply(id: &str, device: &Option<PaxError>) -> (r: Reply)
    ensures
        r@ == object_reply(
            200,
            map![
                "canceled"@ => JsonView::Bool(true),
                "terminalId"@ => JsonView::Str(id@),
                "deviceCancel"@ => JsonView::Obj(device_fields(opt_error(*device)))
            ],
        ),
{
    Reply::object(
        200,
        Object::new().put("canceled", Json::Bool(true)).put("terminalId", Json::of_str(id)).put(
            "deviceCancel",
            device_json(device),
        ),
    )
}

/// The reply to a diagnosis, given how it went.
pub fn diagnose_reply(result: Result<Json, PaxError>) -> (r: Reply)
    ensures
        r@ == (match result {
            Ok(report) => object_reply(200, map!["report"@ => report@]),
            Err(e) => pax_error_reply(e@),
        }),
{
    match result {
        Ok(report) => Reply::object(200, Object::new().put("report", report)),
        Err(e) => pax_error_response(&e),
    }
}

// ---------------------------------------------------------------------------
// Batch close
// ---------------------------------------------------------------------------

/// The reply to a batch close of a busy terminal.
pub open spec fn busy_batch_reply() -> ReplyView {
    object_reply(409, error_fields(busy_error("Wait for the current transaction to finish."@)))
}

/// Whether a transaction was made on a terminal.
pub open spec fn made_on(row: Fields, terminal_id: Seq<char>) -> bool {
    text_field(row, "terminalId"@) == Some(terminal_id)
}

/// The transactions of a terminal that no batch has settled.
pub open spec fn unsettled_on(rows: Seq<Fields>, terminal_id: Seq<char>) -> Seq<Fields> {
    rows.filter(|row: Fields| unsettled(row)).filter(|row: Fields| made_on(row, terminal_id))
}

/// A batch close that is to be sent.
#[derive(Debug)]
pub struct BatchPlan {
    pub terminal: Terminal,
    /// The transactions that it will settle.
    pub rows: Vec<Object>,
}

/// The batch close to send to a terminal, or the reply where none is to be
/// sent.
pub fn batch_close_terminal(db: &Db, board: &CommandBoard, id: &str) -> (r: Result<
    BatchPlan,
    Reply,
>)
    requires
        board.wf(),
    ensures
        match terminal_with_id(db@.terminals, id@) {
            None => r matches Err(reply) && reply@ == not_found_reply("Terminal not found"@),
            Some(t) => if busy(board@, t) {
                r matches Err(reply) && reply@ == busy_batch_reply()
            } else {
                r matches Ok(plan) && plan.terminal@ == t && rows_view(plan.rows@) == unsettled_on(
                    db@.transactions,
                    t.id,
                )
            },
        },
        r matches Ok(plan) ==> forall|k: int|
            0 <= k < plan.rows@.len() ==> {
                let row = (#[trigger] plan.rows@[k])@;
                &&& db@.transactions.contains(row)
                &&& text_field(row, "status"@) == Some("APPROVED"@)
                &&& text_field(row, "terminalId"@) == Some(id@)
                &&& text_field(row, "type"@) == Some("SALE"@) || text_field(row, "type"@) == Some(
                    "AUTH"@,
                ) || text_field(row, "type"@) == Some("RETURN"@)
                &&& flag_field(row, "settled"@) != Some(true)
            },
{
    let terminal = match find_or_reply(db, id) {
        Ok(t) => t,
        Err(reply) => {
            return Err(reply);
        },
    };
    if is_busy(board, &terminal) {
        return Err(
            Reply::object(
                409,
                error_object(
                    hinted_error_object(
                        "TERMINAL_BUSY",
                        "Terminal is busy",
                        "Wait for the current transaction to finish.",
                    ),
                ),
            ),
        );
    }
    let all = db.list_unsettled();
    let rows = rows_made_on(&all, terminal.id.as_str());
    proof {
        terminal_lookup(db@.terminals, id@, 0);
        let batch = unsettled_on(db@.transactions, id@);
        assert forall|k: int| 0 <= k < rows@.len() implies batch.contains(
            (#[trigger] rows@[k])@,
        ) by {
            assert(batch[k] == rows@[k]@);
        }
        assert forall|row: Fields| #[trigger] batch.contains(row) implies {
            &&& db@.transactions.contains(row)
            &&& text_field(row, "status"@) == Some("APPROVED"@)
            &&& text_field(row, "terminalId"@) == Some(id@)
            &&& text_field(row, "type"@) == Some("SALE"@) || text_field(row, "type"@) == Some(
                "AUTH"@,
            ) || text_field(row, "type"@) == Some("RETURN"@)
            &&& flag_field(row, "settled"@) != Some(true)
        } by {
            batch_holds_only_its_own(db@.transactions, id@, row);
        }
    }
    Ok(BatchPlan { terminal, rows })
}

fn rows_made_on(all: &Vec<Object>, terminal_id: &str) -> (r: Vec<Object>)
    ensures
        rows_view(r@) == rows_view(all@).filter(|row: Fields| made_on(row, terminal_id@)),
{
    let ghost rows = rows_view(all@);
    let ghost pred = |row: Fields| made_on(row, terminal_id@);
    let mut r: Vec<Object> = Vec::new();
    let mut i: usize = 0;
    assert(rows_view(r@) =~= rows.take(0).filter(pred)) by {
        reveal(Seq::filter);
    }
    while i < all.len()
        invariant
            rows == rows_view(all@),
            pred == (|row: Fields| made_on(row, terminal_id@)),
            i <= all@.len(),
            rows_view(r@) == rows.take(i as int).filter(pred),
        decreases all@.len() - i,
    {
        let ghost before = r@;
        proof {
            reveal(Seq::filter);
            assert(rows.take(i + 1).drop_last() =~= rows.take(i as int));
            assert(rows.take(i + 1).last() == rows[i as int]);
        }
        if is_text(all[i].text("terminalId"), terminal_id) {
            r.push(all[i].copy());
            assert(rows_view(r@) =~= rows_view(before).push(r@.last()@));
        }
        i += 1;
    }
    assert(rows.take(rows.len() as int) =~= rows);
    r
}

/// The ids of some transactions; those without one are left out.
pub open spec fn row_ids(rows: Seq<Fields>) -> Seq<Seq<char>>
    decreases rows.len(),
{
    if rows.len() == 0 {
        Seq::empty()
    } else {
        match text_field(rows.last(), "id"@) {
            Some(id) => row_ids(rows.drop_last()).push(id),
            None => row_ids(rows.drop_last()),
        }
    }
}

fn ids_of(rows: &Vec<Object>) -> (r: Vec<String>)
    ensures
        texts(r@) == row_ids(rows_view(rows@)),
{
    broadcast use lemma_texts_push;

    let mut r: Vec<String> = Vec::new();
    let mut i: usize = 0;
    let ghost all = rows_view(rows@);
    assert(texts(r@) =~= row_ids(all.take(0)));
    while i < rows.len()
        invariant
            all == rows_view(rows@),
            i <= rows@.len(),
            texts(r@) == row_ids(all.take(i as int)),
        decreases rows@.len() - i,
    {
        proof {
            assert(all.take(i + 1).drop_last() =~= all.take(i as int));
            assert(all.take(i + 1).last() == all[i as int]);
        }
        if let Some(id) = rows[i].text("id") {
            r.push(id.to_owned());
        }
        i += 1;
    }
    assert(all.take(all.len() as int) =~= all);
    r
}

/// What a settled transaction remembers of its batch.
pub open spec fn batch_info(batch_number: Seq<char>, settled_at: Seq<char>) -> JsonView {
    JsonView::Obj(
        map![
            "batchNumber"@ => JsonView::Str(batch_number),
            "settledAt"@ => JsonView::Str(settled_at)
        ],
    )
}

/// The reply to a batch close that the terminal answered.
pub open spec fn batch_reply(batch: Fields, count: int) -> ReplyView {
    object_reply(
        200,
        map![
            "result"@ => JsonView::Obj(batch),
            "settledCount"@ => JsonView::Num(unsigned_number(count as u64))
        ],
    )
}

/// Takes in how a batch close went: the transactions of a batch that settled
/// are marked, now.
pub fn finish_batch_close(
    db: &mut Db,
    rows: &Vec<Object>,
    result: Result<BatchResponse, PaxError>,
) -> (r: Reply)
    requires
        old(db).wf(),
        (result matches Ok(batch) && batch.settled && some_row_in(
            old(db)@.transactions,
            row_ids(rows_view(rows@)),
        )) ==> old(db)@.readable(),
    ensures
        final(db).wf(),
        old(db)@.readable() ==> final(db)@.readable(),
        match result {
            Ok(batch) => if batch.settled {
                &&& r@ == batch_reply(batch_fields(batch@), rows@.len() as int)
                &&& exists|s: Instant, t: Instant|
                    #![trigger rfc3339_text(s.secs, s.nanos), rfc3339_text(t.secs, t.nanos)]
                    s.valid() && t.valid() && final(db)@ == old(db)@.with_settled(
                        row_ids(rows_view(rows@)),
                        batch_info(batch.batch_number@, rfc3339_text(s.secs, s.nanos)),
                        rfc3339_text(t.secs, t.nanos),
                        utc_date(t.secs),
                    )
            } else {
                r@ == batch_reply(batch_fields(batch@), 0) && final(db)@ == old(db)@
            },
            Err(e) => r@ == pax_error_reply(e@) && final(db)@ == old(db)@,
        },
{
    let s = utc_now();
    let settled_at = rfc3339(s);
    let t = utc_now();
    let now = rfc3339(t);
    let today = date_text(t);
    finish_batch_close_at(db, rows, result, settled_at.as_str(), now.as_str(), today.as_str())
}

/// Takes in how a batch close went, at a time.
pub fn finish_batch_close_at(
    db: &mut Db,
    rows: &Vec<Object>,
    result: Result<BatchResponse, PaxError>,
    settled_at: &str,
    now: &str,
    today: &str,
) -> (r: Reply)
    requires
        old(db).wf(),
        (result matches Ok(batch) && batch.settled && some_row_in(
            old(db)@.transactions,
            row_ids(rows_view(rows@)),
        )) ==> old(db)@.readable(),
    ensures
        final(db).wf(),
        old(db)@.readable() ==> final(db)@.readable(),
        match result {
            Ok(batch) => if batch.settled {
                &&& r@ == batch_reply(batch_fields(batch@), rows@.len() as int)
                &&& final(db)@ == old(db)@.with_settled(
                    row_ids(rows_view(rows@)),
                    batch_info(batch.batch_number@, settled_at@),
                    now@,
                    today@,
                )
            } else {
                r@ == batch_reply(batch_fields(batch@), 0) && final(db)@ == old(db)@
            },
            Err(e) => r@ == pax_error_reply(e@) && final(db)@ == old(db)@,
        },
        r.status == 200 <==> result is Ok,
        !(result matches Ok(batch) && batch.settled) ==> final(db)@ == old(db)@,
        final(db)@.transactions.len() == old(db)@.transactions.len(),
{
    proof {
        if let Err(e) = &result {
            errors_have_their_status(e@.code);
        }
    }
    match result {
        Ok(batch) => {
            let count: usize = if batch.settled {
                let ids = ids_of(rows);
                let info = Json::Obj(
                    Object::new().put(
                        "batchNumber",
                        Json::of_str(batch.batch_number.as_str()),
                    ).put("settledAt", Json::of_str(settled_at)),
                );
                db.mark_settled_at(&ids, &info, now, today);
                rows.len()
            } else {
                0
            };
            Reply::object(
                200,
                Object::new().put("result", batch.to_json()).put(
                    "settledCount",
                    Json::of_unsigned(count as u64),
                ),
            )
        },
        Err(e) => pax_error_response(&e),
    }
}

}
