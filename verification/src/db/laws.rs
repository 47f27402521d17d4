//! What holds of the database as a whole.
use vstd::prelude::*;
use vstd::utf8::{encode_utf8, encode_utf8_decode_utf8};

use super::query::{page_slice, pages};
use super::terminal::{terminal_index, terminal_with_id, terminals_without, TerminalView};
use super::{
    created_key, created_keys, day_text, ecr_ref, log_rows, newest_first, row_in, row_index,
    row_index_is_first, row_with_id, rows_on, settle_rows, settled_record, unsettled,
    updated_record, with_day, with_days_of, DbView,
};
use crate::json::{flag_field, rows_view, text_field, Fields, JsonView, Object};
use crate::numeral::{decimal, decimal_reads_back, padded, padding_keeps_the_value};
use crate::order::{descending_order, descending_pair, text_le};

verus! {

// ---------------------------------------------------------------------------
// Reading back
// ---------------------------------------------------------------------------

/// A transaction that was just recorded is what a lookup of its id gives.
pub proof fn created_row_is_found(db: DbView, record: Fields, id: Seq<char>, today: Seq<char>)
    requires
        text_field(record, "id"@) == Some(id),
    ensures
        row_with_id(db.with_transaction(record, today).transactions, id) == Some(record),
{
    assert(db.with_transaction(record, today).transactions[0] == record);
}

/// Recording a transaction hides no other: one with another id is found as
/// before.
pub proof fn other_rows_are_still_found(
    db: DbView,
    record: Fields,
    id: Seq<char>,
    today: Seq<char>,
)
    requires
        text_field(record, "id"@) != Some(id),
    ensures
        row_with_id(db.with_transaction(record, today).transactions, id) == row_with_id(
            db.transactions,
            id,
        ),
{
    let rows = db.transactions;
    let after = db.with_transaction(record, today).transactions;
    lemma_shifted_index(rows, record, id, 0);
    assert(row_index(after, id, 0) == row_index(after, id, 1));
    row_index_is_first(rows, id, 0);
    let at = row_index(rows, id, 0);
    if at < rows.len() {
        assert(after[at + 1] == rows[at]);
    }
}

proof fn lemma_shifted_index(rows: Seq<Fields>, record: Fields, id: Seq<char>, from: int)
    requires
        0 <= from <= rows.len(),
    ensures
        row_index(seq![record] + rows, id, from + 1) == row_index(rows, id, from) + 1,
    decreases rows.len() - from,
{
    let after = seq![record] + rows;
    if from < rows.len() {
        assert(after[from + 1] == rows[from]);
        if text_field(rows[from], "id"@) != Some(id) {
            lemma_shifted_index(rows, record, id, from + 1);
        }
    }
}

/// Updating a transaction leaves every other record as it was.
pub proof fn update_touches_one_row(
    db: DbView,
    id: Seq<char>,
    patch: Fields,
    now: Seq<char>,
    today: Seq<char>,
    k: int,
)
    requires
        0 <= k < db.transactions.len(),
        k != row_index(db.transactions, id, 0),
    ensures
        db.with_patch(id, patch, now, today).transactions.len() == db.transactions.len(),
        db.with_patch(id, patch, now, today).transactions[k] == db.transactions[k],
{
    row_index_is_first(db.transactions, id, 0);
}

/// A removed terminal is not found any more, and every other one is.
pub proof fn deleted_terminal_is_gone(list: Seq<TerminalView>, id: Seq<char>, other: Seq<char>)
    ensures
        terminal_with_id(terminals_without(list, id), id) is None,
        other != id ==> terminal_with_id(terminals_without(list, id), other) == terminal_with_id(
            list,
            other,
        ),
    decreases list.len(),
{
    reveal(Seq::filter);
    if list.len() == 0 {
        assert(terminals_without(list, id) =~= list);
    } else {
        let shorter = list.drop_last();
        let last = list.last();
        deleted_terminal_is_gone(shorter, id, other);
        let kept = terminals_without(shorter, id);
        assert(shorter.push(last) =~= list);
        lemma_found_in_push(shorter, last, other);
        if last.id != id {
            assert(terminals_without(list, id) == kept.push(last));
            lemma_found_in_push(kept, last, id);
            lemma_found_in_push(kept, last, other);
        } else {
            assert(terminals_without(list, id) == kept);
        }
    }
}

/// A terminal that was added under a new id is found under it, and every other
/// one is found as before.
pub proof fn created_terminal_is_found(list: Seq<TerminalView>, t: TerminalView, other: Seq<char>)
    requires
        terminal_with_id(list, t.id) is None,
    ensures
        terminal_with_id(list.push(t), t.id) == Some(t),
        other != t.id ==> terminal_with_id(list.push(t), other) == terminal_with_id(list, other),
{
    lemma_found_in_push(list, t, t.id);
    lemma_found_in_push(list, t, other);
}

proof fn lemma_found_in_push(list: Seq<TerminalView>, t: TerminalView, id: Seq<char>)
    ensures
        terminal_with_id(list.push(t), id) == (match terminal_with_id(list, id) {
            Some(found) => Some(found),
            None => if t.id == id {
                Some(t)
            } else {
                None
            },
        }),
{
    lemma_index_in_push(list, t, id, 0);
    lemma_terminal_index_bounds(list, id, 0);
    let at = terminal_index(list, id, 0);
    if at < list.len() {
        assert(list.push(t)[at] == list[at]);
    }
}

proof fn lemma_terminal_index_bounds(list: Seq<TerminalView>, id: Seq<char>, from: int)
    requires
        0 <= from <= list.len(),
    ensures
        from <= terminal_index(list, id, from) <= list.len(),
    decreases list.len() - from,
{
    if from < list.len() && list[from].id != id {
        lemma_terminal_index_bounds(list, id, from + 1);
    }
}

proof fn lemma_index_in_push(list: Seq<TerminalView>, t: TerminalView, id: Seq<char>, from: int)
    requires
        0 <= from <= list.len(),
    ensures
        terminal_index(list.push(t), id, from) == (if terminal_index(list, id, from) < list.len() {
            terminal_index(list, id, from)
        } else if t.id == id {
            list.len() as int
        } else {
            (list.len() + 1) as int
        }),
    decreases list.len() - from,
{
    if from < list.len() {
        assert(list.push(t)[from] == list[from]);
        if list[from].id != id {
            lemma_index_in_push(list, t, id, from + 1);
        }
    } else {
        assert(list.push(t)[from] == t);
        assert(terminal_index(list.push(t), id, from + 1) == list.len() + 1);
    }
}

// ---------------------------------------------------------------------------
// Days and log files
// ---------------------------------------------------------------------------

proof fn lemma_keys_differ()
    ensures
        "createdAt"@ != "updatedAt"@,
        "createdAt"@ != "settled"@,
        "createdAt"@ != "batchInfo"@,
        "settled"@ != "batchInfo"@,
        "settled"@ != "updatedAt"@,
        "id"@ != "settled"@,
        "id"@ != "batchInfo"@,
        "id"@ != "updatedAt"@,
{
    reveal_strlit("createdAt");
    reveal_strlit("updatedAt");
    reveal_strlit("settled");
    reveal_strlit("batchInfo");
    reveal_strlit("id");
    assert("createdAt"@[0] != "updatedAt"@[0]);
    assert("createdAt"@[0] != "batchInfo"@[0]);
    assert("createdAt"@.len() == 9 && "settled"@.len() == 7 && "id"@.len() == 2);
    assert("batchInfo"@.len() == 9 && "updatedAt"@.len() == 9);
}

/// A transaction stays in the log of the day it was created: a late update
/// belongs to that day, not to today.
pub proof fn update_stays_on_its_day(
    row: Fields,
    patch: Fields,
    now: Seq<char>,
    today: Seq<char>,
)
    requires
        !patch.contains_key("createdAt"@),
    ensures
        day_text(updated_record(row, patch, now), today) == day_text(row, today),
{
    lemma_keys_differ();
}

/// Settling a transaction does not move it to another day either.
pub proof fn settling_stays_on_its_day(
    row: Fields,
    batch_info: JsonView,
    now: Seq<char>,
    today: Seq<char>,
)
    ensures
        day_text(settled_record(row, batch_info, now), today) == day_text(row, today),
{
    lemma_keys_differ();
}

/// A log file that is not marked for rewriting is still right after a
/// transaction was recorded.
pub proof fn clean_days_keep_their_log_on_create(
    db: DbView,
    record: Fields,
    today: Seq<char>,
    day: Seq<char>,
)
    requires
        !db.with_transaction(record, today).dirty_days.contains(day),
    ensures
        !db.dirty_days.contains(day),
        rows_on(db.with_transaction(record, today).transactions, day, today) == rows_on(
            db.transactions,
            day,
            today,
        ),
{
    let own = day_text(record, today);
    lemma_with_day(db.dirty_days, own, day);
    let pred = |row: Fields| day_text(row, today) == day;
    Seq::filter_distributes_over_add(seq![record], db.transactions, pred);
    assert(seq![record].filter(pred) =~= Seq::<Fields>::empty()) by {
        assert forall|k: int| 0 <= k < seq![record].len() implies !pred(
            #[trigger] seq![record][k],
        ) by {}
        lemma_filter_none(seq![record], pred);
    }
    assert(Seq::<Fields>::empty() + rows_on(db.transactions, day, today) =~= rows_on(
        db.transactions,
        day,
        today,
    ));
}

/// A log file that is not marked for rewriting is still right after an update
/// that leaves the creation time alone.
pub proof fn clean_days_keep_their_log_on_update(
    db: DbView,
    id: Seq<char>,
    patch: Fields,
    now: Seq<char>,
    today: Seq<char>,
    day: Seq<char>,
)
    requires
        !patch.contains_key("createdAt"@),
        !db.with_patch(id, patch, now, today).dirty_days.contains(day),
    ensures
        !db.dirty_days.contains(day),
        rows_on(db.with_patch(id, patch, now, today).transactions, day, today) == rows_on(
            db.transactions,
            day,
            today,
        ),
{
    let rows = db.transactions;
    row_index_is_first(rows, id, 0);
    let at = row_index(rows, id, 0);
    if at < rows.len() {
        let record = updated_record(rows[at], patch, now);
        update_stays_on_its_day(rows[at], patch, now, today);
        lemma_with_day(db.dirty_days, day_text(record, today), day);
        let pred = |row: Fields| day_text(row, today) == day;
        lemma_filter_same_outside(rows, rows.update(at, record), pred);
    }
}

/// A log file that is not marked for rewriting is still right after a batch was
/// settled.
pub proof fn clean_days_keep_their_log_on_settle(
    db: DbView,
    ids: Seq<Seq<char>>,
    batch_info: JsonView,
    now: Seq<char>,
    today: Seq<char>,
    day: Seq<char>,
)
    requires
        !db.with_settled(ids, batch_info, now, today).dirty_days.contains(day),
    ensures
        !db.dirty_days.contains(day),
        rows_on(db.with_settled(ids, batch_info, now, today).transactions, day, today) == rows_on(
            db.transactions,
            day,
            today,
        ),
{
    let rows = db.transactions;
    let after = settle_rows(rows, ids, batch_info, now);
    let settled_now = after.filter(|row: Fields| row_in(row, ids));
    lemma_with_days_of(db.dirty_days, settled_now, today, day);
    let pred = |row: Fields| day_text(row, today) == day;
    assert forall|i: int| 0 <= i < rows.len() implies (#[trigger] after[i]) == rows[i] || (!pred(
        after[i],
    ) && !pred(rows[i])) by {
        if row_in(rows[i], ids) {
            settling_stays_on_its_day(rows[i], batch_info, now, today);
            lemma_keys_differ();
            assert(row_in(after[i], ids));
            after.lemma_filter_contains(|row: Fields| row_in(row, ids), i);
            assert(settled_now.contains(after[i]));
        }
    }
    lemma_filter_same_outside(rows, after, pred);
}

/// A change of the database, made on a day.
pub enum Change {
    /// The terminals become these.
    Terminals(Seq<TerminalView>),
    /// An ECR reference number of a date is given out.
    NextSeq(Seq<char>),
    /// A transaction is recorded.
    Create { record: Fields, today: Seq<char> },
    /// The first transaction with an id is patched.
    Update { id: Seq<char>, patch: Fields, now: Seq<char>, today: Seq<char> },
    /// The transactions with the ids are settled.
    Settle { ids: Seq<Seq<char>>, batch_info: JsonView, now: Seq<char>, today: Seq<char> },
}

impl Change {
    /// The database after it.
    pub open spec fn after(self, db: DbView) -> DbView {
        match self {
            Change::Terminals(list) => DbView { terminals: list, unsaved: true, ..db },
            Change::NextSeq(key) => db.with_next_seq(key),
            Change::Create { record, today } => db.with_transaction(record, today),
            Change::Update { id, patch, now, today } => db.with_patch(id, patch, now, today),
            Change::Settle { ids, batch_info, now, today } => db.with_settled(
                ids,
                batch_info,
                now,
                today,
            ),
        }
    }

    /// Whether it touches a transaction of a day.
    pub open spec fn touches(self, db: DbView, day: Seq<char>) -> bool {
        match self {
            Change::Terminals(_) => false,
            Change::NextSeq(_) => false,
            Change::Create { record, today } => day_text(record, today) == day,
            Change::Update { id, patch, now, today } => row_with_id(
                db.transactions,
                id,
            ) matches Some(row) && day_text(updated_record(row, patch, now), today) == day,
            Change::Settle { ids, today, .. } => exists|i: int|
                0 <= i < db.transactions.len() && row_in(#[trigger] db.transactions[i], ids)
                    && day_text(db.transactions[i], today) == day,
        }
    }

    /// Whether it leaves creation times alone.
    pub open spec fn keeps_days(self) -> bool {
        self matches Change::Update { patch, .. } ==> !patch.contains_key("createdAt"@)
    }

    /// Whether a transaction it records tells the day it was created on.
    pub open spec fn dates(self) -> bool {
        self matches Change::Create { record, .. } ==> dated(record)
    }
}

/// Whether a transaction tells the day it was created on.
pub open spec fn dated(row: Fields) -> bool {
    text_field(row, "createdAt"@) matches Some(created) && encode_utf8(created).len() >= 10
}

/// Whether all transactions tell the day they were created on.
pub open spec fn all_dated(rows: Seq<Fields>) -> bool {
    forall|i: int| 0 <= i < rows.len() ==> dated(#[trigger] rows[i])
}

/// The database after a run of changes.
pub open spec fn after_all(db: DbView, changes: Seq<Change>) -> DbView
    decreases changes.len(),
{
    if changes.len() == 0 {
        db
    } else {
        changes.last().after(after_all(db, changes.drop_last()))
    }
}

/// Whether some change of a run touches a transaction of a day.
pub open spec fn some_touches(db: DbView, changes: Seq<Change>, day: Seq<char>) -> bool
    decreases changes.len(),
{
    changes.len() > 0 && (some_touches(db, changes.drop_last(), day) || changes.last().touches(
        after_all(db, changes.drop_last()),
        day,
    ))
}

/// A change marks the days it touches and no other.
pub proof fn change_marks_what_it_touches(db: DbView, change: Change, day: Seq<char>)
    ensures
        change.after(db).dirty_days.contains(day) <==> db.dirty_days.contains(day)
            || change.touches(db, day),
{
    match change {
        Change::Create { record, today } => {
            lemma_with_day_adds(db.dirty_days, day_text(record, today), day);
        },
        Change::Update { id, patch, now, today } => {
            row_index_is_first(db.transactions, id, 0);
            let at = row_index(db.transactions, id, 0);
            if at < db.transactions.len() {
                let record = updated_record(db.transactions[at], patch, now);
                lemma_with_day_adds(db.dirty_days, day_text(record, today), day);
            }
        },
        Change::Settle { ids, batch_info, now, today } => {
            let rows = db.transactions;
            let after = settle_rows(rows, ids, batch_info, now);
            let listed = |row: Fields| row_in(row, ids);
            let settled_now = after.filter(listed);
            lemma_with_days_of_adds(db.dirty_days, settled_now, today, day);
            lemma_keys_differ();
            if change.touches(db, day) {
                let i = choose|i: int|
                    0 <= i < rows.len() && row_in(#[trigger] rows[i], ids) && day_text(
                        rows[i],
                        today,
                    ) == day;
                settling_stays_on_its_day(rows[i], batch_info, now, today);
                assert(listed(after[i]));
                after.lemma_filter_contains(listed, i);
                let k = choose|k: int| 0 <= k < settled_now.len() && settled_now[k] == after[i];
                assert(day_text(settled_now[k], today) == day);
            }
            if exists|k: int|
                0 <= k < settled_now.len() && day_text(#[trigger] settled_now[k], today) == day {
                let k = choose|k: int|
                    0 <= k < settled_now.len() && day_text(#[trigger] settled_now[k], today) == day;
                lemma_filter_from(after, listed, k);
                let i = choose|i: int|
                    0 <= i < after.len() && #[trigger] after[i] == settled_now[k] && listed(
                        after[i],
                    );
                settling_stays_on_its_day(rows[i], batch_info, now, today);
                assert(row_in(rows[i], ids));
            }
        },
        _ => {},
    }
}

/// A write lists only the days touched since the last one, and each of them.
pub proof fn save_lists_the_days_touched_since(db: DbView, changes: Seq<Change>, day: Seq<char>)
    ensures
        after_all(db.saved(), changes).dirty_days.contains(day) <==> some_touches(
            db.saved(),
            changes,
            day,
        ),
    decreases changes.len(),
{
    if changes.len() > 0 {
        save_lists_the_days_touched_since(db, changes.drop_last(), day);
        change_marks_what_it_touches(
            after_all(db.saved(), changes.drop_last()),
            changes.last(),
            day,
        );
    }
}

/// What the log of each day holds on disk.
pub type LogFiles = spec_fn(Seq<char>) -> Seq<Fields>;

/// Whether each log that is not marked for rewriting holds the transactions of
/// its day.
pub open spec fn logs_right(files: LogFiles, db: DbView, today: Seq<char>) -> bool {
    forall|day: Seq<char>|
        !db.dirty_days.contains(day) ==> #[trigger] files(day) == rows_on(
            db.transactions,
            day,
            today,
        )
}

/// The logs on disk after a write: those of the marked days are rewritten.
pub open spec fn logs_written(files: LogFiles, db: DbView, today: Seq<char>) -> LogFiles {
    |day: Seq<char>|
        if db.dirty_days.contains(day) {
            rows_on(db.transactions, day, today)
        } else {
            files(day)
        }
}

/// A log that is not marked for rewriting stays right through any run of
/// changes, on whatever days they are made, that leaves creation times alone,
/// where all transactions have a date.
pub proof fn unmarked_logs_stay_right(
    files: LogFiles,
    db: DbView,
    changes: Seq<Change>,
    today: Seq<char>,
)
    requires
        logs_right(files, db, today),
        all_dated(db.transactions),
        forall|i: int|
            0 <= i < changes.len() ==> (#[trigger] changes[i]).keeps_days() && changes[i].dates(),
    ensures
        all_dated(after_all(db, changes).transactions),
        logs_right(files, after_all(db, changes), today),
    decreases changes.len(),
{
    if changes.len() > 0 {
        let before = after_all(db, changes.drop_last());
        let after = after_all(db, changes);
        let change = changes.last();
        assert forall|i: int| 0 <= i < changes.len() - 1 implies (
        #[trigger] changes.drop_last()[i]).keeps_days() && changes.drop_last()[i].dates() by {
            assert(changes[i].keeps_days());
        }
        unmarked_logs_stay_right(files, db, changes.drop_last(), today);
        assert(changes[changes.len() - 1].keeps_days());
        lemma_change_keeps_dates(before, change);
        assert forall|day: Seq<char>| !after.dirty_days.contains(day) implies #[trigger] files(day)
            == rows_on(after.transactions, day, today) by {
            match change {
                Change::Create { record, today: on } => {
                    clean_days_keep_their_log_on_create(before, record, on, day);
                    lemma_same_rows(before.transactions, day, on, today);
                    lemma_same_rows(after.transactions, day, on, today);
                },
                Change::Update { id, patch, now, today: on } => {
                    clean_days_keep_their_log_on_update(before, id, patch, now, on, day);
                    lemma_same_rows(before.transactions, day, on, today);
                    lemma_same_rows(after.transactions, day, on, today);
                },
                Change::Settle { ids, batch_info, now, today: on } => {
                    clean_days_keep_their_log_on_settle(before, ids, batch_info, now, on, day);
                    lemma_same_rows(before.transactions, day, on, today);
                    lemma_same_rows(after.transactions, day, on, today);
                },
                _ => {},
            }
        }
    }
}

/// The transactions of a day do not depend on when they are asked for, where
/// all have a date.
proof fn lemma_same_rows(rows: Seq<Fields>, day: Seq<char>, a: Seq<char>, b: Seq<char>)
    requires
        all_dated(rows),
    ensures
        rows_on(rows, day, a) == rows_on(rows, day, b),
    decreases rows.len(),
{
    reveal(Seq::filter);
    if rows.len() > 0 {
        assert(dated(rows[rows.len() - 1]));
        assert forall|i: int| 0 <= i < rows.len() - 1 implies dated(
            #[trigger] rows.drop_last()[i],
        ) by {
            assert(dated(rows[i]));
        }
        lemma_same_rows(rows.drop_last(), day, a, b);
    }
}

proof fn lemma_change_keeps_dates(db: DbView, change: Change)
    requires
        all_dated(db.transactions),
        change.keeps_days(),
        change.dates(),
    ensures
        all_dated(change.after(db).transactions),
{
    let rows = db.transactions;
    let after = change.after(db).transactions;
    lemma_keys_differ();
    assert forall|i: int| 0 <= i < after.len() implies dated(#[trigger] after[i]) by {
        match change {
            Change::Create { .. } => {
                if i > 0 {
                    assert(after[i] == rows[i - 1]);
                }
            },
            Change::Update { id, .. } => {
                row_index_is_first(rows, id, 0);
                assert(dated(rows[i]));
            },
            _ => {
                assert(dated(rows[i]));
            },
        }
    }
}

/// However many changes and writes came before, a write that rewrites only the
/// marked days leaves every log right.
pub proof fn write_makes_every_log_right(
    files: LogFiles,
    db: DbView,
    day: Seq<char>,
    today: Seq<char>,
)
    requires
        logs_right(files, db, today),
    ensures
        logs_right(logs_written(files, db, today), db.saved(), today),
        logs_written(files, db, today)(day) == rows_on(db.transactions, day, today),
{
}

/// Where the log of a day could not be written, marking the day again leaves no
/// wrong log unmarked.
pub proof fn failed_write_stays_marked(
    files: LogFiles,
    db: DbView,
    failed: Seq<char>,
    today: Seq<char>,
)
    requires
        logs_right(files, db, today),
    ensures
        logs_right(
            |day: Seq<char>|
                if day == failed {
                    files(day)
                } else {
                    logs_written(files, db, today)(day)
                },
            DbView { dirty_days: with_day(db.saved().dirty_days, failed), ..db.saved() },
            today,
        ),
{
    lemma_with_day_adds(db.saved().dirty_days, failed, failed);
}

/// No log file is written twice: the days marked stay distinct.
pub proof fn marked_days_stay_distinct(days: Seq<Seq<char>>, rows: Seq<Fields>, today: Seq<char>)
    requires
        days.no_duplicates(),
    ensures
        with_days_of(days, rows, today).no_duplicates(),
        forall|day: Seq<char>| (#[trigger] with_day(days, day)).no_duplicates(),
    decreases rows.len(),
{
    assert forall|day: Seq<char>| (#[trigger] with_day(days, day)).no_duplicates() by {
        lemma_distinct_with_day(days, day);
    }
    if rows.len() > 0 {
        marked_days_stay_distinct(days, rows.drop_last(), today);
        lemma_distinct_with_day(
            with_days_of(days, rows.drop_last(), today),
            day_text(rows.last(), today),
        );
    }
}

proof fn lemma_distinct_with_day(days: Seq<Seq<char>>, day: Seq<char>)
    requires
        days.no_duplicates(),
    ensures
        with_day(days, day).no_duplicates(),
{
    if !days.contains(day) {
        let more = days.push(day);
        assert forall|i: int, j: int|
            0 <= i < more.len() && 0 <= j < more.len() && i != j implies more[i] != more[j] by {
            if i < days.len() && j < days.len() {
                assert(days[i] != days[j]);
            } else if i < days.len() {
                assert(days.contains(days[i]));
            } else {
                assert(days.contains(days[j]));
            }
        }
    }
}

proof fn lemma_with_day(days: Seq<Seq<char>>, own: Seq<char>, day: Seq<char>)
    requires
        !with_day(days, own).contains(day),
    ensures
        !days.contains(day),
        own != day,
{
    if !days.contains(own) {
        assert(days.push(own)[days.len() as int] == own);
        if days.contains(day) {
            let k = choose|k: int| 0 <= k < days.len() && days[k] == day;
            assert(days.push(own)[k] == day);
        }
    }
}

proof fn lemma_with_day_adds(days: Seq<Seq<char>>, own: Seq<char>, day: Seq<char>)
    ensures
        with_day(days, own).contains(day) <==> days.contains(day) || own == day,
{
    if with_day(days, own).contains(day) {
        if !days.contains(own) {
            let k = choose|k: int| 0 <= k < days.push(own).len() && days.push(own)[k] == day;
            assert(k < days.len() ==> days[k] == day);
        }
    } else {
        lemma_with_day(days, own, day);
    }
}

proof fn lemma_with_days_of_adds(
    days: Seq<Seq<char>>,
    rows: Seq<Fields>,
    today: Seq<char>,
    day: Seq<char>,
)
    ensures
        with_days_of(days, rows, today).contains(day) <==> days.contains(day) || exists|k: int|
            0 <= k < rows.len() && day_text(#[trigger] rows[k], today) == day,
    decreases rows.len(),
{
    if rows.len() > 0 {
        let shorter = rows.drop_last();
        lemma_with_days_of_adds(days, shorter, today, day);
        lemma_with_day_adds(
            with_days_of(days, shorter, today),
            day_text(rows.last(), today),
            day,
        );
        if exists|k: int| 0 <= k < shorter.len() && day_text(#[trigger] shorter[k], today) == day {
            let k = choose|k: int|
                0 <= k < shorter.len() && day_text(#[trigger] shorter[k], today) == day;
            assert(rows[k] == shorter[k]);
        }
        if exists|k: int| 0 <= k < rows.len() && day_text(#[trigger] rows[k], today) == day {
            let k = choose|k: int| 0 <= k < rows.len() && day_text(#[trigger] rows[k], today) == day;
            if k < shorter.len() {
                assert(shorter[k] == rows[k]);
            }
        }
    }
}

proof fn lemma_filter_from(rows: Seq<Fields>, pred: spec_fn(Fields) -> bool, k: int)
    requires
        0 <= k < rows.filter(pred).len(),
    ensures
        exists|i: int|
            0 <= i < rows.len() && #[trigger] rows[i] == rows.filter(pred)[k] && pred(rows[i]),
    decreases rows.len(),
{
    reveal(Seq::filter);
    let shorter = rows.drop_last();
    let n = rows.len() - 1;
    if rows.len() > 0 {
        if k < shorter.filter(pred).len() {
            lemma_filter_from(shorter, pred, k);
            let i = choose|i: int|
                0 <= i < shorter.len() && #[trigger] shorter[i] == shorter.filter(pred)[k] && pred(
                    shorter[i],
                );
            assert(rows[i] == rows.filter(pred)[k]);
        } else {
            assert(rows[n] == rows.filter(pred)[k]);
        }
    }
}

proof fn lemma_with_days_of(
    days: Seq<Seq<char>>,
    rows: Seq<Fields>,
    today: Seq<char>,
    day: Seq<char>,
)
    requires
        !with_days_of(days, rows, today).contains(day),
    ensures
        !days.contains(day),
        forall|row: Fields| #[trigger] rows.contains(row) ==> day_text(row, today) != day,
    decreases rows.len(),
{
    if rows.len() > 0 {
        let shorter = rows.drop_last();
        lemma_with_day(
            with_days_of(days, shorter, today),
            day_text(rows.last(), today),
            day,
        );
        lemma_with_days_of(days, shorter, today, day);
        assert forall|row: Fields| #[trigger] rows.contains(row) implies day_text(row, today)
            != day by {
            let k = choose|k: int| 0 <= k < rows.len() && rows[k] == row;
            if k < shorter.len() {
                assert(shorter[k] == row);
                assert(shorter.contains(row));
            }
        }
    }
}

proof fn lemma_filter_same_outside(
    a: Seq<Fields>,
    b: Seq<Fields>,
    pred: spec_fn(Fields) -> bool,
)
    requires
        a.len() == b.len(),
        forall|i: int|
            0 <= i < a.len() ==> (#[trigger] b[i]) == a[i] || (!pred(b[i]) && !pred(a[i])),
    ensures
        b.filter(pred) == a.filter(pred),
    decreases a.len(),
{
    reveal(Seq::filter);
    if a.len() > 0 {
        let n = a.len() - 1;
        assert(b[n] == a[n] || (!pred(b[n]) && !pred(a[n])));
        assert forall|i: int| 0 <= i < n implies (#[trigger] b.drop_last()[i]) == a.drop_last()[i]
            || (!pred(b.drop_last()[i]) && !pred(a.drop_last()[i])) by {
            assert(b[i] == a[i] || (!pred(b[i]) && !pred(a[i])));
        }
        lemma_filter_same_outside(a.drop_last(), b.drop_last(), pred);
    }
}

// ---------------------------------------------------------------------------
// What is saved is loaded back
// ---------------------------------------------------------------------------

/// Whether transactions stand newest first.
pub open spec fn in_order(rows: Seq<Fields>) -> bool {
    forall|i: int, j: int|
        0 <= i < j < rows.len() ==> text_le(
            created_key(#[trigger] rows[j]),
            created_key(#[trigger] rows[i]),
        )
}

/// The transactions of several days, one day after the other.
pub open spec fn rows_of_days(
    rows: Seq<Fields>,
    days: Seq<Seq<char>>,
    today: Seq<char>,
) -> Seq<Fields>
    decreases days.len(),
{
    if days.len() == 0 {
        Seq::empty()
    } else {
        rows_of_days(rows, days.drop_last(), today) + rows_on(rows, days.last(), today)
    }
}

/// The transactions created at a certain time.
pub open spec fn created_at(rows: Seq<Fields>, key: Seq<char>) -> Seq<Fields> {
    rows.filter(|row: Fields| created_key(row) == key)
}

/// Recording a transaction keeps the order, as long as the clock does not run
/// backwards.
pub proof fn recording_keeps_the_order(db: DbView, record: Fields, today: Seq<char>)
    requires
        in_order(db.transactions),
        forall|i: int|
            0 <= i < db.transactions.len() ==> text_le(
                created_key(#[trigger] db.transactions[i]),
                created_key(record),
            ),
    ensures
        in_order(db.with_transaction(record, today).transactions),
{
    let rows = db.transactions;
    let after = db.with_transaction(record, today).transactions;
    assert forall|i: int, j: int| 0 <= i < j < after.len() implies text_le(
        created_key(#[trigger] after[j]),
        created_key(#[trigger] after[i]),
    ) by {
        assert(after[j] == rows[j - 1]);
        if i > 0 {
            assert(after[i] == rows[i - 1]);
        }
    }
}

/// Updates keep the order, as long as they leave the creation time alone.
pub proof fn updating_keeps_the_order(
    db: DbView,
    id: Seq<char>,
    patch: Fields,
    now: Seq<char>,
    today: Seq<char>,
)
    requires
        in_order(db.transactions),
        !patch.contains_key("createdAt"@),
    ensures
        in_order(db.with_patch(id, patch, now, today).transactions),
{
    lemma_keys_differ();
    let rows = db.transactions;
    row_index_is_first(rows, id, 0);
    let after = db.with_patch(id, patch, now, today).transactions;
    assert forall|i: int, j: int| 0 <= i < j < after.len() implies text_le(
        created_key(#[trigger] after[j]),
        created_key(#[trigger] after[i]),
    ) by {
        assert(created_key(after[i]) == created_key(rows[i]));
        assert(created_key(after[j]) == created_key(rows[j]));
    }
}

/// Loading puts the transactions in order, and loses or invents none.
pub proof fn loading_keeps_all_rows(rows: Seq<Fields>, out: Seq<Fields>)
    requires
        newest_first(rows, out),
    ensures
        in_order(out),
        out.len() == rows.len(),
        forall|key: Seq<char>| #[trigger] created_at(out, key) == created_at(rows, key),
{
    let order = choose|order: Seq<usize>| #[trigger]
        descending_order(created_keys(rows), order) && out == Seq::new(
            order.len(),
            |k: int| rows[order[k] as int],
        );
    assert forall|i: int, j: int| 0 <= i < j < out.len() implies text_le(
        created_key(#[trigger] out[j]),
        created_key(#[trigger] out[i]),
    ) by {
        assert(descending_pair(created_keys(rows), order[i], order[j]));
        assert(order[i] < rows.len() && order[j] < rows.len());
    }
    assert forall|key: Seq<char>| #[trigger] created_at(out, key) == created_at(rows, key) by {
        lemma_stable(rows, order, key);
    }
}

proof fn lemma_stable(rows: Seq<Fields>, order: Seq<usize>, key: Seq<char>)
    requires
        descending_order(created_keys(rows), order),
    ensures
        created_at(Seq::new(order.len(), |k: int| rows[order[k] as int]), key) == created_at(
            rows,
            key,
        ),
    decreases rows.len(),
{
    let pred = |row: Fields| created_key(row) == key;
    let out = Seq::new(order.len(), |k: int| rows[order[k] as int]);
    let keys = created_keys(rows);
    if rows.len() == 0 {
        assert(out =~= rows);
    } else {
        let n = rows.len() - 1;
        crate::order::lemma_covers(rows.len(), order, n);
        let p = choose|p: int| 0 <= p < rows.len() && order[p] == n;
        let shorter = rows.drop_last();
        let less = order.remove(p);
        assert(created_keys(shorter) =~= keys.drop_last());
        assert(descending_order(created_keys(shorter), less)) by {
            assert forall|k: int| 0 <= k < less.len() implies (#[trigger] less[k])
                < shorter.len() by {
                let o = if k < p {
                    k
                } else {
                    k + 1
                };
                assert(less[k] == order[o]);
                assert(order[o] < keys.len());
                assert(order[o] != order[p]);
            }
            assert forall|i: int, j: int| 0 <= i < j < less.len() implies less[i] != less[j]
                && descending_pair(
                created_keys(shorter),
                #[trigger] less[i],
                #[trigger] less[j],
            ) by {
                let oi = if i < p {
                    i
                } else {
                    i + 1
                };
                let oj = if j < p {
                    j
                } else {
                    j + 1
                };
                assert(less[i] == order[oi] && less[j] == order[oj]);
                assert(less[i] < shorter.len() && less[j] < shorter.len());
                assert(descending_pair(keys, order[oi], order[oj]));
                assert(order[oi] != order[oj]);
            }
        }
        lemma_stable(shorter, less, key);
        let before = out.take(p);
        let after = out.skip(p + 1);
        let out_less = Seq::new(less.len(), |k: int| shorter[less[k] as int]);
        assert(out_less =~= before + after) by {
            assert forall|k: int| 0 <= k < out_less.len() implies out_less[k] == (before
                + after)[k] by {
                let o = if k < p {
                    k
                } else {
                    k + 1
                };
                assert(less[k] == order[o]);
                assert(less[k] < shorter.len());
            }
        }
        assert(out[p] == rows[n]);
        assert(out =~= before + seq![rows[n]] + after);
        Seq::filter_distributes_over_add(before, after, pred);
        Seq::filter_distributes_over_add(before + seq![rows[n]], after, pred);
        Seq::filter_distributes_over_add(before, seq![rows[n]], pred);
        assert(seq![rows[n]].drop_last() =~= Seq::<Fields>::empty());
        assert(seq![rows[n]].last() == rows[n]);
        reveal(Seq::filter);
        if pred(rows[n]) {
            assert(after.filter(pred) =~= Seq::<Fields>::empty()) by {
                assert forall|k: int| 0 <= k < after.len() implies !pred(#[trigger] after[k]) by {
                    assert(descending_pair(keys, order[p], order[p + 1 + k]));
                    assert(order[p + 1 + k] < keys.len());
                    assert(after[k] == rows[order[p + 1 + k] as int]);
                    if pred(after[k]) {
                        lemma_le_reflexive(key);
                        assert(keys[order[p] as int] == key);
                        assert(keys[order[p + 1 + k] as int] == key);
                    }
                }
                lemma_filter_none(after, pred);
            }
            assert(seq![rows[n]].filter(pred) =~= seq![rows[n]]);
            assert(out.filter(pred) =~= shorter.filter(pred).push(rows[n]));
        } else {
            assert forall|k: int| 0 <= k < seq![rows[n]].len() implies !pred(
                #[trigger] seq![rows[n]][k],
            ) by {}
            lemma_filter_none(seq![rows[n]], pred);
            assert(out.filter(pred) =~= shorter.filter(pred));
        }
    }
}

proof fn lemma_le_reflexive(a: Seq<char>)
    ensures
        text_le(a, a),
{
    crate::order::text_order_is_total(a, a);
}

proof fn lemma_filter_none(rows: Seq<Fields>, pred: spec_fn(Fields) -> bool)
    requires
        forall|k: int| 0 <= k < rows.len() ==> !pred(#[trigger] rows[k]),
    ensures
        rows.filter(pred).len() == 0,
    decreases rows.len(),
{
    reveal(Seq::filter);
    if rows.len() > 0 {
        let shorter = rows.drop_last();
        assert forall|k: int| 0 <= k < shorter.len() implies !pred(#[trigger] shorter[k]) by {
            assert(!pred(rows[k]));
        }
        assert(!pred(rows[rows.len() - 1]));
        lemma_filter_none(shorter, pred);
    }
}

proof fn lemma_filter_twice(
    rows: Seq<Fields>,
    first: spec_fn(Fields) -> bool,
    second: spec_fn(Fields) -> bool,
)
    ensures
        (forall|k: int| 0 <= k < rows.len() && second(#[trigger] rows[k]) ==> first(rows[k]))
            ==> rows.filter(first).filter(second) == rows.filter(second),
        (forall|k: int| 0 <= k < rows.len() && second(#[trigger] rows[k]) ==> !first(rows[k]))
            ==> rows.filter(first).filter(second).len() == 0,
    decreases rows.len(),
{
    reveal(Seq::filter);
    if rows.len() > 0 {
        let shorter = rows.drop_last();
        let last = rows.last();
        assert(last == rows[rows.len() - 1]);
        lemma_filter_twice(shorter, first, second);
        assert forall|k: int| 0 <= k < shorter.len() implies #[trigger] shorter[k] == rows[k] by {}
        if first(last) {
            assert(shorter.filter(first).push(last).drop_last() =~= shorter.filter(first));
        }
    }
}

/// Transactions that stand in order are told apart by those of each time.
proof fn lemma_same_by_time(a: Seq<Fields>, b: Seq<Fields>)
    requires
        in_order(a),
        in_order(b),
        forall|key: Seq<char>| #[trigger] created_at(a, key) == created_at(b, key),
    ensures
        a == b,
    decreases a.len() + b.len(),
{
    if a.len() == 0 && b.len() == 0 {
        assert(a =~= b);
    } else if a.len() == 0 {
        lemma_last_is_found(b);
        assert(created_at(a, created_key(b.last())).len() == 0) by {
            reveal(Seq::filter);
        }
    } else if b.len() == 0 {
        lemma_last_is_found(a);
        assert(created_at(b, created_key(a.last())).len() == 0) by {
            reveal(Seq::filter);
        }
    } else {
        let ka = created_key(a.last());
        let kb = created_key(b.last());
        lemma_last_is_found(a);
        lemma_last_is_found(b);
        lemma_last_is_least(a, kb);
        lemma_last_is_least(b, ka);
        lemma_le_antisymmetric(ka, kb);
        assert(created_at(a, ka) == created_at(b, ka));
        assert(a.last() == b.last());
        let sa = a.drop_last();
        let sb = b.drop_last();
        assert forall|key: Seq<char>| #[trigger] created_at(sa, key) == created_at(sb, key) by {
            reveal(Seq::filter);
            assert(created_at(a, key) == created_at(b, key));
            if key == ka {
                assert(created_at(a, key).drop_last() =~= created_at(sa, key));
                assert(created_at(b, key).drop_last() =~= created_at(sb, key));
            }
        }
        assert(in_order(sa)) by {
            assert forall|i: int, j: int| 0 <= i < j < sa.len() implies text_le(
                created_key(#[trigger] sa[j]),
                created_key(#[trigger] sa[i]),
            ) by {
                assert(sa[i] == a[i] && sa[j] == a[j]);
            }
        }
        assert(in_order(sb)) by {
            assert forall|i: int, j: int| 0 <= i < j < sb.len() implies text_le(
                created_key(#[trigger] sb[j]),
                created_key(#[trigger] sb[i]),
            ) by {
                assert(sb[i] == b[i] && sb[j] == b[j]);
            }
        }
        lemma_same_by_time(sa, sb);
        assert(a =~= sa.push(a.last()));
        assert(b =~= sb.push(b.last()));
    }
}

proof fn lemma_last_is_found(rows: Seq<Fields>)
    requires
        rows.len() > 0,
    ensures
        created_at(rows, created_key(rows.last())).len() > 0,
        created_at(rows, created_key(rows.last())).last() == rows.last(),
{
    reveal(Seq::filter);
}

proof fn lemma_last_is_least(rows: Seq<Fields>, key: Seq<char>)
    requires
        rows.len() > 0,
        in_order(rows),
        created_at(rows, key).len() > 0,
    ensures
        text_le(created_key(rows.last()), key),
{
    let pred = |row: Fields| created_key(row) == key;
    if forall|k: int| 0 <= k < rows.len() ==> !pred(#[trigger] rows[k]) {
        lemma_filter_none(rows, pred);
    }
    let k = choose|k: int| 0 <= k < rows.len() && pred(#[trigger] rows[k]);
    let n = rows.len() - 1;
    if k == n {
        lemma_le_reflexive(key);
    } else {
        assert(text_le(created_key(rows[n]), created_key(rows[k])));
    }
}

proof fn lemma_le_antisymmetric(a: Seq<char>, b: Seq<char>)
    requires
        text_le(a, b),
        text_le(b, a),
    ensures
        a == b,
{
    crate::order::lemma_bytes_antisymmetric(encode_utf8(a), encode_utf8(b));
    encode_utf8_decode_utf8(a);
    encode_utf8_decode_utf8(b);
}

proof fn lemma_days_hold_time(
    rows: Seq<Fields>,
    days: Seq<Seq<char>>,
    today: Seq<char>,
    key: Seq<char>,
    day: Seq<char>,
)
    requires
        days.no_duplicates(),
        forall|i: int|
            0 <= i < rows.len() && created_key(#[trigger] rows[i]) == key ==> day_text(
                rows[i],
                today,
            ) == day,
    ensures
        created_at(rows_of_days(rows, days, today), key) == (if days.contains(day) {
            created_at(rows, key)
        } else {
            Seq::<Fields>::empty()
        }),
    decreases days.len(),
{
    let second = |row: Fields| created_key(row) == key;
    if days.len() == 0 {
        reveal(Seq::filter);
        assert(created_at(rows_of_days(rows, days, today), key) =~= Seq::<Fields>::empty());
    } else {
        let shorter = days.drop_last();
        let last = days.last();
        assert(shorter.no_duplicates()) by {
            assert forall|i: int, j: int|
                0 <= i < shorter.len() && 0 <= j < shorter.len() && i != j implies shorter[i]
                != shorter[j] by {
                assert(days[i] != days[j]);
            }
        }
        lemma_days_hold_time(rows, shorter, today, key, day);
        let first = |row: Fields| day_text(row, today) == last;
        Seq::filter_distributes_over_add(
            rows_of_days(rows, shorter, today),
            rows_on(rows, last, today),
            second,
        );
        lemma_filter_twice(rows, first, second);
        assert(days =~= shorter.push(last));
        if last == day {
            assert(days[days.len() - 1] == day);
            if shorter.contains(day) {
                let k = choose|k: int| 0 <= k < shorter.len() && shorter[k] == day;
                assert(days[k] == days[days.len() - 1]);
            }
            assert(rows.filter(first).filter(second) == rows.filter(second));
            assert(Seq::<Fields>::empty() + created_at(rows, key) =~= created_at(rows, key));
        } else {
            assert(rows.filter(first).filter(second) =~= Seq::<Fields>::empty());
            assert(created_at(rows_of_days(rows, shorter, today), key) + Seq::<Fields>::empty()
                =~= created_at(rows_of_days(rows, shorter, today), key));
            if days.contains(day) {
                let k = choose|k: int| 0 <= k < days.len() && days[k] == day;
                assert(shorter[k] == day);
            }
            if shorter.contains(day) {
                let k = choose|k: int| 0 <= k < shorter.len() && shorter[k] == day;
                assert(days[k] == day);
            }
        }
    }
}

proof fn lemma_logs_of_days(
    rows: Seq<Fields>,
    days: Seq<Seq<char>>,
    today: Seq<char>,
    logs: Seq<Option<Vec<Object>>>,
)
    requires
        logs.len() == days.len(),
        forall|i: int|
            0 <= i < logs.len() ==> ((#[trigger] logs[i]) matches Some(v) && rows_view(v@)
                == rows_on(rows, days[i], today)),
    ensures
        log_rows(logs) == rows_of_days(rows, days, today),
    decreases logs.len(),
{
    if logs.len() > 0 {
        let n = logs.len() - 1;
        assert(logs[n] matches Some(v) && rows_view(v@) == rows_on(rows, days[n], today));
        let fewer = logs.drop_last();
        assert forall|i: int| 0 <= i < fewer.len() implies ((#[trigger] fewer[i]) matches Some(v)
            && rows_view(v@) == rows_on(rows, days.drop_last()[i], today)) by {
            assert(logs[i] matches Some(v) && rows_view(v@) == rows_on(rows, days[i], today));
        }
        lemma_logs_of_days(rows, days.drop_last(), today, fewer);
    }
}

/// What the log files hold is what is loaded again: transactions in order, each
/// of which tells its day, written to one file per day and read back in
/// whatever order of the files, come out as they were.
pub proof fn saved_log_loads_back(
    rows: Seq<Fields>,
    days: Seq<Seq<char>>,
    today: Seq<char>,
    logs: Seq<Option<Vec<Object>>>,
    legacy: Seq<Fields>,
    out: Seq<Fields>,
)
    requires
        in_order(rows),
        forall|i: int| 0 <= i < rows.len() ==> dated(#[trigger] rows[i]),
        days.no_duplicates(),
        forall|i: int|
            0 <= i < rows.len() ==> days.contains(day_text(#[trigger] rows[i], today)),
        logs.len() == days.len(),
        forall|i: int|
            0 <= i < logs.len() ==> ((#[trigger] logs[i]) matches Some(v) && rows_view(v@)
                == rows_on(rows, days[i], today)),
        legacy.len() == 0,
        newest_first(legacy + log_rows(logs), out),
    ensures
        out == rows,
{
    lemma_logs_of_days(rows, days, today, logs);
    assert(legacy + log_rows(logs) =~= log_rows(logs));
    let read = rows_of_days(rows, days, today);
    loading_keeps_all_rows(read, out);
    assert forall|key: Seq<char>| #[trigger] created_at(out, key) == created_at(rows, key) by {
        assert(created_at(out, key) == created_at(read, key));
        let pred = |row: Fields| created_key(row) == key;
        if forall|k: int| 0 <= k < rows.len() ==> !pred(#[trigger] rows[k]) {
            lemma_filter_none(rows, pred);
            lemma_days_hold_time(rows, days, today, key, today);
            assert(created_at(rows, key) =~= Seq::<Fields>::empty());
        } else {
            let k = choose|k: int| 0 <= k < rows.len() && pred(#[trigger] rows[k]);
            let day = day_text(rows[k], today);
            assert(dated(rows[k]));
            assert forall|i: int| 0 <= i < rows.len() && created_key(#[trigger] rows[i]) == key
                implies day_text(rows[i], today) == day by {
                assert(dated(rows[i]));
            }
            lemma_days_hold_time(rows, days, today, key, day);
        }
    }
    lemma_same_by_time(out, rows);
}

// ---------------------------------------------------------------------------
// ECR reference numbers
// ---------------------------------------------------------------------------

/// Giving out a reference number counts its day up by one, and leaves the other
/// days alone.
pub proof fn sequence_counts_per_day(db: DbView, key: Seq<char>, other: Seq<char>)
    requires
        db.next_seq(key) <= u32::MAX,
    ensures
        db.with_next_seq(key).next_seq(key) == db.next_seq(key) + 1,
        other != key ==> db.with_next_seq(key).next_seq(other) == db.next_seq(other),
{
}

/// A day's sequence starts at one.
pub proof fn sequence_starts_at_one(db: DbView, key: Seq<char>)
    requires
        !db.ecr_seq.contains_key(key),
    ensures
        db.next_seq(key) == 1,
{
}

/// No two reference numbers are the same: those of one day differ in their
/// sequence, those of two days in their date.
pub proof fn ecr_refs_are_unique(key: Seq<char>, seq: int, other_key: Seq<char>, other_seq: int)
    requires
        key.len() == other_key.len(),
        seq >= 0,
        other_seq >= 0,
        ecr_ref(key, seq) == ecr_ref(other_key, other_seq),
    ensures
        key == other_key,
        seq == other_seq,
{
    let a = padded(decimal(seq as nat), 4);
    let b = padded(decimal(other_seq as nat), 4);
    assert(ecr_ref(key, seq).take(key.len() as int) =~= key);
    assert(ecr_ref(other_key, other_seq).take(key.len() as int) =~= other_key);
    assert(ecr_ref(key, seq).skip(key.len() as int) =~= a);
    assert(ecr_ref(other_key, other_seq).skip(key.len() as int) =~= b);
    decimal_reads_back(seq as nat);
    decimal_reads_back(other_seq as nat);
    padding_keeps_the_value(decimal(seq as nat), 4);
    padding_keeps_the_value(decimal(other_seq as nat), 4);
}

// ---------------------------------------------------------------------------
// Settling
// ---------------------------------------------------------------------------

/// What a batch has settled is on no later batch, and what it left out stays as
/// it was.
pub proof fn settled_rows_leave_the_list(
    db: DbView,
    ids: Seq<Seq<char>>,
    batch_info: JsonView,
    now: Seq<char>,
    today: Seq<char>,
    k: int,
)
    requires
        0 <= k < db.transactions.len(),
    ensures
        ({
            let after = db.with_settled(ids, batch_info, now, today).transactions;
            &&& after.len() == db.transactions.len()
            &&& row_in(db.transactions[k], ids) ==> !unsettled(after[k])
            &&& !row_in(db.transactions[k], ids) ==> after[k] == db.transactions[k]
        }),
{
    lemma_keys_differ();
    let row = db.transactions[k];
    if row_in(row, ids) {
        assert(flag_field(settled_record(row, batch_info, now), "settled"@) == Some(true));
    }
}

// ---------------------------------------------------------------------------
// Pages
// ---------------------------------------------------------------------------

/// Every transaction selected stands on exactly one page, and that page is
/// among those counted.
pub proof fn every_row_has_its_page(all: Seq<Fields>, size: int, i: int)
    requires
        size >= 1,
        0 <= i < all.len(),
        all.len() <= i64::MAX,
    ensures
        ({
            let page = i / size + 1;
            let slice = page_slice(all, (page - 1) * size, size);
            &&& 1 <= page <= pages(all.len() as int, size)
            &&& i % size < slice.len()
            &&& slice[i % size] == all[i]
        }),
{
    let n = all.len() as int;
    let q = i / size;
    vstd::arithmetic::div_mod::lemma_fundamental_div_mod(i, size);
    assert(0 <= q && q * size <= i < q * size + size) by (nonlinear_arith)
        requires
            i == size * q + i % size,
            0 <= i % size < size,
            0 <= i,
            size >= 1,
            q == i / size,
    ;
    assert(q + 1 <= (n + size - 1) / size) by {
        assert((q + 1) * size <= n + size - 1) by (nonlinear_arith)
            requires
                q * size <= i,
                i <= n - 1,
        ;
        vstd::arithmetic::div_mod::lemma_div_is_ordered((q + 1) * size, n + size - 1, size);
        vstd::arithmetic::div_mod::lemma_div_multiples_vanish(q + 1, size);
        assert((q + 1) * size == size * (q + 1)) by (nonlinear_arith);
    }
    assert((n + size - 1) / size <= n) by (nonlinear_arith)
        requires
            n >= 1,
            size >= 1,
    ;
}

/// The pages after the last one counted are empty.
pub proof fn no_rows_after_the_last_page(all: Seq<Fields>, size: int, page: int)
    requires
        size >= 1,
        page > pages(all.len() as int, size),
        all.len() <= i64::MAX,
    ensures
        page_slice(all, (page - 1) * size, size).len() == 0,
{
    let n = all.len() as int;
    if n > 0 {
        assert((n + size - 1) / size <= n) by (nonlinear_arith)
            requires
                n >= 1,
                size >= 1,
        ;
        let count = (n + size - 1) / size;
        assert(count * size >= n) by (nonlinear_arith)
            requires
                count == (n + size - 1) / size,
                size >= 1,
        ;
        assert((page - 1) * size >= count * size) by (nonlinear_arith)
            requires
                page - 1 >= count,
                size >= 1,
        ;
    } else {
        assert((page - 1) * size >= 0) by (nonlinear_arith)
            requires
                page >= 1,
                size >= 1,
        ;
    }
}

}
