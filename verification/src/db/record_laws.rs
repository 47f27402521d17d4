//! What transaction and terminal records hold.
use vstd::prelude::*;

use super::terminal::{
    new_terminal, patched, terminal_fields, terminal_index, terminal_with_id, TerminalNumbers,
    TerminalView,
};
use super::{
    day_text, ecr_ref, is_log_name, log_file_name, log_rows, main_fields, new_record, row_index,
    row_index_is_first, row_with_id, rows_on, settled_record, unsettled, updated_record, DbView,
};
use crate::json::{rows_view, text_field, Fields, JsonView, Number};
use crate::numeral::{all_digits, decimal, decimal_reads_back, digits_value, padding_keeps_the_value};
use crate::text::trimmed;

verus! {

// ---------------------------------------------------------------------------
// Transactions
// ---------------------------------------------------------------------------

proof fn lemma_record_keys()
    ensures
        "id"@ != "createdAt"@ && "id"@ != "updatedAt"@ && "id"@ != "status"@,
        "createdAt"@ != "updatedAt"@ && "createdAt"@ != "status"@ && "updatedAt"@ != "status"@,
        "settled"@ != "batchInfo"@ && "settled"@ != "updatedAt"@ && "batchInfo"@ != "updatedAt"@,
{
    reveal_strlit("id");
    reveal_strlit("createdAt");
    reveal_strlit("updatedAt");
    reveal_strlit("status");
    reveal_strlit("settled");
    reveal_strlit("batchInfo");
    assert("id"@.len() == 2 && "status"@.len() == 6 && "settled"@.len() == 7);
    assert("createdAt"@[0] == 'c' && "updatedAt"@[0] == 'u' && "batchInfo"@[0] == 'b');
}

/// A new record holds what it is given, and for what is not given its id, the
/// time for both times, and PENDING for the status.
pub proof fn new_record_holds(fields: Fields, id: Seq<char>, now: Seq<char>, key: Seq<char>)
    ensures
        ({
            let record = new_record(fields, id, now);
            &&& fields.contains_key(key) ==> record.contains_key(key) && record[key] == fields[key]
            &&& !fields.contains_key("id"@) ==> record["id"@] == JsonView::Str(id)
            &&& !fields.contains_key("createdAt"@) ==> record["createdAt"@] == JsonView::Str(now)
            &&& !fields.contains_key("updatedAt"@) ==> record["updatedAt"@] == JsonView::Str(now)
            &&& !fields.contains_key("status"@) ==> record["status"@] == JsonView::Str("PENDING"@)
            &&& record.contains_key(key) ==> fields.contains_key(key) || key == "id"@ || key
                == "createdAt"@ || key == "updatedAt"@ || key == "status"@
        }),
{
    lemma_record_keys();
}

/// An updated record holds what the patch says, the new time of update, and
/// what it held before for the rest.
pub proof fn updated_record_holds(row: Fields, patch: Fields, now: Seq<char>, key: Seq<char>)
    ensures
        ({
            let record = updated_record(row, patch, now);
            &&& record["updatedAt"@] == JsonView::Str(now)
            &&& key != "updatedAt"@ && patch.contains_key(key) ==> record.contains_key(key)
                && record[key] == patch[key]
            &&& key != "updatedAt"@ && !patch.contains_key(key) ==> (record.contains_key(key)
                <==> row.contains_key(key))
            &&& key != "updatedAt"@ && !patch.contains_key(key) && row.contains_key(key)
                ==> record[key] == row[key]
        }),
{
}

/// A settled record is marked as settled and knows its batch; the rest of it,
/// but for the time of update, is as before.
pub proof fn settled_record_holds(row: Fields, info: JsonView, now: Seq<char>, key: Seq<char>)
    ensures
        ({
            let record = settled_record(row, info, now);
            &&& record["settled"@] == JsonView::Bool(true)
            &&& record["batchInfo"@] == info
            &&& record["updatedAt"@] == JsonView::Str(now)
            &&& key != "settled"@ && key != "batchInfo"@ && key != "updatedAt"@ ==> (
            record.contains_key(key) <==> row.contains_key(key)) && (row.contains_key(key)
                ==> record[key] == row[key])
        }),
{
    lemma_record_keys();
}

/// What a batch is still to settle: exactly the transactions that are approved,
/// a sale, an authorization or a return, and not yet settled.
pub proof fn unsettled_means(row: Fields)
    ensures
        unsettled(row) <==> {
            &&& row.contains_key("status"@) && row["status"@] == JsonView::Str("APPROVED"@)
            &&& row.contains_key("type"@) && (row["type"@] == JsonView::Str("SALE"@)
                || row["type"@] == JsonView::Str("AUTH"@) || row["type"@] == JsonView::Str(
                "RETURN"@,
            ))
            &&& !(row.contains_key("settled"@) && row["settled"@] == JsonView::Bool(true))
        },
        text_field(row, "status"@) == Some("VOIDED"@) || text_field(row, "status"@) == Some(
            "DECLINED"@,
        ) || text_field(row, "status"@) == Some("CANCELED"@) || text_field(row, "status"@) == Some(
            "PENDING"@,
        ) || text_field(row, "status"@) == Some("TIMEOUT"@) || text_field(row, "status"@) == Some(
            "ERROR"@,
        ) ==> !unsettled(row),
        text_field(row, "type"@) == Some("VOID"@) ==> !unsettled(row),
{
    reveal_strlit("APPROVED");
    reveal_strlit("VOIDED");
    reveal_strlit("DECLINED");
    reveal_strlit("CANCELED");
    reveal_strlit("PENDING");
    reveal_strlit("TIMEOUT");
    reveal_strlit("ERROR");
    reveal_strlit("SALE");
    reveal_strlit("AUTH");
    reveal_strlit("RETURN");
    reveal_strlit("VOID");
    assert("APPROVED"@.len() == 8 && "APPROVED"@[0] == 'A');
    assert("VOIDED"@.len() == 6 && "PENDING"@.len() == 7 && "TIMEOUT"@.len() == 7);
    assert("DECLINED"@[0] == 'D' && "CANCELED"@[0] == 'C' && "ERROR"@.len() == 5);
    assert("VOID"@[0] == 'V' && "SALE"@[0] == 'S' && "AUTH"@[0] == 'A' && "RETURN"@.len() == 6);
    assert("VOID"@.len() == 4);
}

/// A lookup by id gives the first transaction with that id, and nothing where
/// there is none.
pub proof fn lookup_gives_the_first(rows: Seq<Fields>, id: Seq<char>, k: int)
    requires
        0 <= k < rows.len(),
        text_field(rows[k], "id"@) == Some(id),
    ensures
        row_with_id(rows, id) matches Some(found) && text_field(found, "id"@) == Some(id),
        (forall|j: int| 0 <= j < k ==> text_field(#[trigger] rows[j], "id"@) != Some(id))
            ==> row_with_id(rows, id) == Some(rows[k]),
{
    row_index_is_first(rows, id, 0);
    let at = row_index(rows, id, 0);
    assert(at <= k);
}

/// A lookup gives only a transaction of the log with the id asked for.
pub proof fn lookup_gives_what_is_there(rows: Seq<Fields>, id: Seq<char>)
    requires
        row_with_id(rows, id) is Some,
    ensures
        rows.contains(row_with_id(rows, id)->0),
        text_field(row_with_id(rows, id)->0, "id"@) == Some(id),
{
    row_index_is_first(rows, id, 0);
    assert(rows[row_index(rows, id, 0)] == row_with_id(rows, id)->0);
}

/// Recording puts the transaction in front of all others, which stay as they
/// are; nothing but the log changes.
pub proof fn recording_adds_in_front(db: DbView, record: Fields, today: Seq<char>, k: int)
    ensures
        ({
            let after = db.with_transaction(record, today);
            &&& after.transactions.len() == db.transactions.len() + 1
            &&& after.transactions[0] == record
            &&& 0 <= k < db.transactions.len() ==> after.transactions[k + 1] == db.transactions[k]
            &&& after.terminals == db.terminals
            &&& after.ecr_seq == db.ecr_seq
            &&& after.unsaved
        }),
{
}

/// Updating and settling change nothing but the log, and what was changed is to
/// be written.
pub proof fn changes_keep_the_rest(
    db: DbView,
    id: Seq<char>,
    patch: Fields,
    ids: Seq<Seq<char>>,
    info: JsonView,
    key: Seq<char>,
    now: Seq<char>,
    today: Seq<char>,
)
    ensures
        ({
            let updated = db.with_patch(id, patch, now, today);
            let settled = db.with_settled(ids, info, now, today);
            let counted = db.with_next_seq(key);
            &&& updated.terminals == db.terminals && updated.ecr_seq == db.ecr_seq
            &&& settled.terminals == db.terminals && settled.ecr_seq == db.ecr_seq
            &&& counted.terminals == db.terminals && counted.transactions == db.transactions
            &&& row_with_id(db.transactions, id) is Some ==> updated.unsaved
            &&& row_with_id(db.transactions, id) is None ==> updated == db
            &&& settled.unsaved && counted.unsaved
        }),
{
}

// ---------------------------------------------------------------------------
// Files and numbers
// ---------------------------------------------------------------------------

/// The log of a day is the file `transactions-`, the day, `.json`, and is known
/// as a log by that name.
pub proof fn log_is_known_by_its_name(day: Seq<char>)
    ensures
        log_file_name(day) == "transactions-"@ + day + ".json"@,
        is_log_name(log_file_name(day)),
{
    let name = log_file_name(day);
    let head = "transactions-"@;
    let tail = ".json"@;
    assert(name.take(head.len() as int) =~= head);
    assert(name.skip(name.len() - tail.len()) =~= tail);
}

/// The main file holds the terminals and the last sequence number of each day,
/// and nothing else.
pub proof fn main_file_holds(db: DbView, day: Seq<char>, i: int)
    ensures
        ({
            let file = main_fields(db);
            &&& file["terminals"@] matches JsonView::Arr(items) && items.len() == db.terminals.len()
                && (0 <= i < db.terminals.len() ==> items[i] == JsonView::Obj(
                terminal_fields(db.terminals[i]),
            ))
            &&& file["ecrSeq"@] matches JsonView::Obj(seq) && (seq.contains_key(day)
                <==> db.ecr_seq.contains_key(day)) && (db.ecr_seq.contains_key(day) ==> seq[day]
                == JsonView::Num(Number::Int(db.ecr_seq[day] as i64)))
            &&& forall|key: Seq<char>| #[trigger]
                file.contains_key(key) <==> key == "terminals"@ || key == "ecrSeq"@
        }),
{
    reveal_strlit("terminals");
    reveal_strlit("ecrSeq");
    assert("terminals"@.len() == 9 && "ecrSeq"@.len() == 6);
}

/// A reference number is the date and then the sequence number, with zeros in
/// front up to four digits.
pub proof fn reference_number(date: Seq<char>, seq: nat)
    ensures
        ({
            let r = ecr_ref(date, seq as int);
            let tail = r.skip(date.len() as int);
            &&& r.len() >= date.len() + 4
            &&& r.take(date.len() as int) == date
            &&& all_digits(tail)
            &&& digits_value(tail) == seq
            &&& decimal(seq).len() <= 4 ==> tail.len() == 4
            &&& decimal(seq).len() > 4 ==> tail == decimal(seq)
        }),
{
    let tail = crate::numeral::padded(decimal(seq), 4);
    let r = ecr_ref(date, seq as int);
    decimal_reads_back(seq);
    padding_keeps_the_value(decimal(seq), 4);
    assert(r.take(date.len() as int) =~= date);
    assert(r.skip(date.len() as int) =~= tail);
}

// ---------------------------------------------------------------------------
// Terminals
// ---------------------------------------------------------------------------

/// A lookup by id gives the first terminal with that id, and nothing where
/// there is none.
pub proof fn terminal_lookup(list: Seq<TerminalView>, id: Seq<char>, k: int)
    ensures
        terminal_with_id(list, id) matches Some(t) ==> t.id == id && list.contains(t),
        0 <= k < list.len() && list[k].id == id ==> terminal_with_id(list, id) is Some,
        0 <= k < list.len() && list[k].id == id && (forall|j: int|
            0 <= j < k ==> (#[trigger] list[j]).id != id) ==> terminal_with_id(list, id) == Some(
            list[k],
        ),
{
    lemma_terminal_first(list, id, 0);
    let at = terminal_index(list, id, 0);
    if at < list.len() {
        assert(list.contains(list[at]));
    }
}

proof fn lemma_terminal_first(list: Seq<TerminalView>, id: Seq<char>, from: int)
    requires
        0 <= from <= list.len(),
    ensures
        from <= terminal_index(list, id, from) <= list.len(),
        terminal_index(list, id, from) < list.len() ==> list[terminal_index(list, id, from)].id
            == id,
        forall|k: int|
            from <= k < terminal_index(list, id, from) ==> (#[trigger] list[k]).id != id,
    decreases list.len() - from,
{
    if from < list.len() && list[from].id != id {
        lemma_terminal_first(list, id, from + 1);
    }
}

/// What a new terminal is like: as its body says, trimmed, and for what the body
/// does not say a name, the larger model, TCP, port 10009 and 115200 baud.
pub proof fn new_terminal_is_as_asked(
    body: Fields,
    numbers: TerminalNumbers,
    id: Seq<char>,
    created_at: Seq<char>,
)
    ensures
        ({
            let t = new_terminal(body, numbers, id, created_at);
            &&& t.id == id && t.created_at == created_at
            &&& text_field(body, "name"@) matches Some(n) ==> trimmed(n).len() > 0 ==> t.name
                == trimmed(n)
            &&& (text_field(body, "name"@) is None || trimmed(
                text_field(body, "name"@)->0,
            ).len() == 0) ==> t.name == "Terminal"@
            &&& text_field(body, "model"@) matches Some(m) ==> t.model == m
            &&& text_field(body, "model"@) is None ==> t.model == "A920 Pro"@
            &&& text_field(body, "connType"@) == Some("usb"@) ==> t.conn_type == "usb"@
            &&& text_field(body, "connType"@) != Some("usb"@) ==> t.conn_type == "tcp"@
            &&& text_field(body, "ip"@) matches Some(ip) ==> t.ip == trimmed(ip)
            &&& text_field(body, "ip"@) is None ==> t.ip.len() == 0
            &&& text_field(body, "serialPath"@) matches Some(p) ==> t.serial_path == trimmed(p)
            &&& text_field(body, "serialPath"@) is None ==> t.serial_path.len() == 0
            &&& numbers.port matches Some(n) ==> n.as_u16 != 0 ==> t.port == n.as_u16
            &&& (numbers.port is None || numbers.port->0.as_u16 == 0) ==> t.port == 10009
            &&& numbers.baud_rate matches Some(n) ==> n.as_u32 != 0 ==> t.baud_rate == n.as_u32
            &&& (numbers.baud_rate is None || numbers.baud_rate->0.as_u32 == 0) ==> t.baud_rate
                == 115_200
        }),
{
}

/// A terminal that is changed keeps its id, its time of creation, and whatever
/// the body does not speak of; what the body speaks of becomes as it says.
pub proof fn patched_terminal_is_as_asked(t: TerminalView, body: Fields, numbers: TerminalNumbers)
    ensures
        ({
            let after = patched(t, body, numbers);
            &&& after.id == t.id && after.created_at == t.created_at
            &&& text_field(body, "name"@) matches Some(n) ==> after.name == trimmed(n)
            &&& text_field(body, "name"@) is None ==> after.name == t.name
            &&& text_field(body, "model"@) matches Some(m) ==> after.model == m
            &&& text_field(body, "model"@) is None ==> after.model == t.model
            &&& !body.contains_key("connType"@) ==> after.conn_type == t.conn_type
            &&& text_field(body, "connType"@) == Some("usb"@) ==> after.conn_type == "usb"@
            &&& body.contains_key("connType"@) && text_field(body, "connType"@) != Some("usb"@)
                ==> after.conn_type == "tcp"@
            &&& text_field(body, "ip"@) matches Some(ip) ==> after.ip == trimmed(ip)
            &&& text_field(body, "ip"@) is None ==> after.ip == t.ip
            &&& text_field(body, "serialPath"@) matches Some(p) ==> after.serial_path == trimmed(p)
            &&& text_field(body, "serialPath"@) is None ==> after.serial_path == t.serial_path
            &&& numbers.port matches Some(n) ==> n.as_u16 != 0 ==> after.port == n.as_u16
            &&& (numbers.port is None || numbers.port->0.as_u16 == 0) ==> after.port == t.port
            &&& numbers.baud_rate matches Some(n) ==> n.as_u32 != 0 ==> after.baud_rate == n.as_u32
            &&& (numbers.baud_rate is None || numbers.baud_rate->0.as_u32 == 0)
                ==> after.baud_rate == t.baud_rate
        }),
{
}

/// What is shown of a terminal: all that is known of it, under its names.
pub proof fn terminal_is_shown(t: TerminalView)
    ensures
        ({
            let f = terminal_fields(t);
            &&& f["id"@] == JsonView::Str(t.id)
            &&& f["name"@] == JsonView::Str(t.name)
            &&& f["model"@] == JsonView::Str(t.model)
            &&& f["connType"@] == JsonView::Str(t.conn_type)
            &&& f["ip"@] == JsonView::Str(t.ip)
            &&& f["port"@] == JsonView::Num(Number::Int(t.port as i64))
            &&& f["serialPath"@] == JsonView::Str(t.serial_path)
            &&& f["baudRate"@] == JsonView::Num(Number::Int(t.baud_rate as i64))
            &&& f["createdAt"@] == JsonView::Str(t.created_at)
        }),
{
    reveal_strlit("id");
    reveal_strlit("name");
    reveal_strlit("model");
    reveal_strlit("connType");
    reveal_strlit("ip");
    reveal_strlit("port");
    reveal_strlit("serialPath");
    reveal_strlit("baudRate");
    reveal_strlit("createdAt");
    assert("id"@.len() == 2 && "name"@.len() == 4 && "model"@.len() == 5 && "connType"@.len() == 8);
    assert("ip"@.len() == 2 && "port"@.len() == 4 && "serialPath"@.len() == 10);
    assert("baudRate"@.len() == 8 && "createdAt"@.len() == 9);
    assert("id"@[1] == 'd' && "ip"@[1] == 'p' && "name"@[0] == 'n' && "port"@[0] == 'p');
    assert("connType"@[0] == 'c' && "baudRate"@[0] == 'b');
}

// ---------------------------------------------------------------------------
// Days
// ---------------------------------------------------------------------------

/// A transaction belongs to the date that its time of creation begins with, in
/// ten ASCII characters, whatever day it is; one without a time of creation, or
/// with one that is no text, belongs to today.
pub proof fn row_belongs_to_its_date(row: Fields, created: Seq<char>, today: Seq<char>)
    ensures
        text_field(row, "createdAt"@) == Some(created) && vstd::utf8::is_ascii_chars(created)
            && created.len() >= 10 ==> day_text(row, today) == created.take(10),
        text_field(row, "createdAt"@) == Some(created) && vstd::utf8::is_ascii_chars(created)
            && created.len() < 10 ==> day_text(row, today) == today,
        text_field(row, "createdAt"@) is None ==> day_text(row, today) == today,
{
    if vstd::utf8::is_ascii_chars(created) {
        if created.len() >= 10 {
            super::ascii_day(created);
        }
        vstd::utf8::is_ascii_chars_encode_utf8(created);
    }
}

/// The log of a day holds the transactions of that day, and no others.
pub proof fn log_holds_its_day(rows: Seq<Fields>, day: Seq<char>, today: Seq<char>, row: Fields)
    ensures
        rows_on(rows, day, today).contains(row) <==> rows.contains(row) && day_text(row, today)
            == day,
{
    let pred = |row: Fields| day_text(row, today) == day;
    let log = rows_on(rows, day, today);
    if log.contains(row) {
        let k = choose|k: int| 0 <= k < log.len() && log[k] == row;
        rows.lemma_filter_pred(pred, k);
        rows.lemma_filter_contains_rev(pred, row);
    }
    if rows.contains(row) && day_text(row, today) == day {
        let i = choose|i: int| 0 <= i < rows.len() && rows[i] == row;
        assert(pred(rows[i]));
        rows.lemma_filter_contains(pred, i);
    }
}

/// Only a file whose name begins with `transactions-` and ends with `.json` is a
/// log.
pub proof fn logs_are_named(name: Seq<char>)
    requires
        is_log_name(name),
    ensures
        "transactions-"@.is_prefix_of(name),
        ".json"@.is_suffix_of(name),
{
    let head = "transactions-"@;
    let tail = ".json"@;
    assert(name.take(head.len() as int) =~= name.subrange(0, head.len() as int));
    assert(name.skip(name.len() - tail.len()) =~= name.subrange(
        name.len() - tail.len(),
        name.len() as int,
    ));
}

/// All logs that could be read are loaded, in their order, and each whole.
pub proof fn all_logs_are_loaded(
    logs: Seq<Option<Vec<crate::json::Object>>>,
    last: Option<Vec<crate::json::Object>>,
)
    ensures
        log_rows(Seq::empty()).len() == 0,
        last is None ==> log_rows(logs.push(last)) == log_rows(logs),
        last matches Some(rows) ==> log_rows(logs.push(last)) == log_rows(logs) + rows_view(rows@),
{
    assert(logs.push(last).drop_last() =~= logs);
    assert(log_rows(logs) + Seq::<Fields>::empty() =~= log_rows(logs));
}

}
