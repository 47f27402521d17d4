//! The database: terminals, the transaction log and the ECR sequence.
//!
//! Everything is held in memory, newest transaction first. On disk, terminals
//! and the ECR sequence live in `pax-db.json`; transactions are a log, written
//! per day into `logs/transactions-YYYY-MM-DD.json`. This module says what the
//! files hold and which of them need rewriting; reading and writing them is the
//! caller's part.
use vstd::prelude::*;
use vstd::string::StringExecFns;
use vstd::utf8::{
    decode_utf8, encode_utf8, encode_utf8_decode_utf8, encode_utf8_valid_utf8, is_ascii_chars,
    is_char_boundary,
};

use crate::clock::{
    date_key, date_text, gen_id, is_id, is_timestamp, rfc3339, rfc3339_text, utc_date,
    utc_date_key, utc_now, Instant, YEAR_10000,
};
use crate::json::{
    copy_rows, flag_field, int_json, rows_view, text_field, Fields, Json, JsonView, Object,
};
use crate::numeral::{all_digits, decimal, decimal_pad4, padded};
use crate::order::{descending_order, sort_descending};
use crate::text::{is_text, same_text, texts};
use crate::textmap::{entries_view, TextMap};

pub mod laws;
pub mod query;
pub mod query_laws;
pub mod record_laws;
pub mod terminal;

pub use query::{TxQuery, TxQueryResult};
pub use terminal::{Terminal, TerminalNumbers};

use terminal::{new_terminal, patched, terminals_view, TerminalView};

verus! {

// ---------------------------------------------------------------------------
// Days
// ---------------------------------------------------------------------------

/// Whether the first ten bytes of a text are whole characters, or there are no
/// ten.
pub open spec fn day_readable(created: Seq<char>) -> bool {
    encode_utf8(created).len() >= 10 ==> is_char_boundary(encode_utf8(created), 10)
}

/// Whether the creation time of a transaction, if it is a text, is readable.
pub open spec fn row_readable(row: Fields) -> bool {
    text_field(row, "createdAt"@) matches Some(created) ==> day_readable(created)
}

/// The day a transaction belongs to: the first ten bytes of its creation time,
/// or today where it has none that long.
pub open spec fn day_text(row: Fields, today: Seq<char>) -> Seq<char> {
    match text_field(row, "createdAt"@) {
        Some(created) => if encode_utf8(created).len() >= 10 {
            decode_utf8(encode_utf8(created).subrange(0, 10))
        } else {
            today
        },
        None => today,
    }
}

/// The day a transaction belongs to, from its own `createdAt`.
pub fn day_of(row: &Object, today: &str) -> (r: String)
    requires
        row_readable(row@),
    ensures
        r@ == day_text(row@, today@),
{
    match row.text("createdAt") {
        Some(created) => {
            proof {
                encode_utf8_valid_utf8(created@);
            }
            let bytes = created.as_bytes();
            if bytes.len() >= 10 {
                let parts = created.split_at(10);
                proof {
                    encode_utf8_decode_utf8(parts.0@);
                }
                parts.0.to_owned()
            } else {
                today.to_owned()
            }
        },
        None => today.to_owned(),
    }
}

/// Whether the creation time of a transaction is readable.
pub fn is_row_readable(row: &Object) -> (r: bool)
    ensures
        r == row_readable(row@),
{
    match row.text("createdAt") {
        Some(created) => {
            proof {
                encode_utf8_valid_utf8(created@);
            }
            created.as_bytes().len() < 10 || created.is_char_boundary(10)
        },
        None => true,
    }
}

/// An ASCII text of at least ten characters is readable, and its first ten
/// bytes are its first ten characters.
pub proof fn ascii_day(created: Seq<char>)
    requires
        is_ascii_chars(created),
        created.len() >= 10,
    ensures
        day_readable(created),
        encode_utf8(created).len() >= 10,
        decode_utf8(encode_utf8(created).subrange(0, 10)) == created.take(10),
{
    let bytes = encode_utf8(created);
    vstd::utf8::is_ascii_chars_encode_utf8(created);
    encode_utf8_valid_utf8(created);
    let head = created.take(10);
    assert(is_ascii_chars(head)) by {
        assert forall|i: int| 0 <= i < head.len() implies 0 <= (#[trigger] head[i]) as nat && (head[i] as nat) < 128 by {
            assert(0 <= created[i] as nat && (created[i] as nat) < 128);
        }
    }
    vstd::utf8::is_ascii_chars_encode_utf8(head);
    assert(bytes.subrange(0, 10) =~= encode_utf8(head));
    encode_utf8_decode_utf8(head);
    if bytes.len() == 10 {
        vstd::utf8::is_char_boundary_start_end_of_seq(bytes);
    } else {
        let b = bytes[10];
        assert(b < 0x80);
        assert(!vstd::utf8::is_continuation_byte(b)) by {
            vstd::utf8::utf8_byte_ranges_bitwise(b);
        }
        vstd::utf8::is_char_boundary_iff_not_is_continuation_byte(bytes, 10);
    }
}

/// The days with one more, unless it is there already.
pub open spec fn with_day(days: Seq<Seq<char>>, day: Seq<char>) -> Seq<Seq<char>> {
    if days.contains(day) {
        days
    } else {
        days.push(day)
    }
}

/// The days with those of some transactions.
pub open spec fn with_days_of(
    days: Seq<Seq<char>>,
    rows: Seq<Fields>,
    today: Seq<char>,
) -> Seq<Seq<char>>
    decreases rows.len(),
{
    if rows.len() == 0 {
        days
    } else {
        with_day(with_days_of(days, rows.drop_last(), today), day_text(rows.last(), today))
    }
}

/// The transactions of a day.
pub open spec fn rows_on(rows: Seq<Fields>, day: Seq<char>, today: Seq<char>) -> Seq<Fields> {
    rows.filter(|row: Fields| day_text(row, today) == day)
}

/// The ECR sequence as JSON fields.
pub open spec fn seq_fields(seq: Map<Seq<char>, u32>) -> Fields {
    seq.map_values(|n: u32| int_json(n as i64))
}

/// What the main file holds: everything but the transactions.
pub open spec fn main_fields(db: DbView) -> Fields {
    map![
        "terminals"@ => terminal::terminals_array(db.terminals),
        "ecrSeq"@ => JsonView::Obj(seq_fields(db.ecr_seq))
    ]
}

/// The name of the log file of a day.
pub open spec fn log_file_name(day: Seq<char>) -> Seq<char> {
    "transactions-"@ + day + ".json"@
}

// ---------------------------------------------------------------------------
// Data
// ---------------------------------------------------------------------------

/// What is stored.
#[derive(Debug)]
pub struct DbData {
    pub terminals: Vec<Terminal>,
    pub transactions: Vec<Object>,
    pub ecr_seq: TextMap<u32>,
}

/// The database in memory, and what of it is not yet on disk.
#[derive(Debug)]
pub struct Db {
    pub data: DbData,
    /// Days (YYYY-MM-DD) whose log file needs rewriting, so a single new
    /// transaction does not rewrite years of history.
    pub dirty_days: Vec<String>,
    /// Whether something changed since the last write.
    pub unsaved: bool,
}

/// What a `Db` holds.
pub struct DbView {
    pub terminals: Seq<TerminalView>,
    pub transactions: Seq<Fields>,
    pub ecr_seq: Map<Seq<char>, u32>,
    pub dirty_days: Seq<Seq<char>>,
    pub unsaved: bool,
}

/// Whether the creation times of all transactions are readable.
pub open spec fn rows_readable(rows: Seq<Fields>) -> bool {
    forall|i: int| 0 <= i < rows.len() ==> row_readable(#[trigger] rows[i])
}

impl DbData {
    /// No sequence key twice.
    pub open spec fn wf(&self) -> bool {
        self.ecr_seq.wf()
    }
}

/// The position of the first transaction with an id, from `from` on, or the
/// number of transactions.
pub open spec fn row_index(rows: Seq<Fields>, id: Seq<char>, from: int) -> int
    decreases rows.len() - from,
{
    if from >= rows.len() {
        rows.len() as int
    } else if text_field(rows[from], "id"@) == Some(id) {
        from
    } else {
        row_index(rows, id, from + 1)
    }
}

/// The first transaction with an id.
pub open spec fn row_with_id(rows: Seq<Fields>, id: Seq<char>) -> Option<Fields> {
    if row_index(rows, id, 0) < rows.len() {
        Some(rows[row_index(rows, id, 0)])
    } else {
        None
    }
}

/// A new transaction record: id, times and PENDING, then the given fields over
/// them.
pub open spec fn new_record(fields: Fields, id: Seq<char>, now: Seq<char>) -> Fields {
    map![
        "id"@ => JsonView::Str(id),
        "createdAt"@ => JsonView::Str(now),
        "updatedAt"@ => JsonView::Str(now),
        "status"@ => JsonView::Str("PENDING"@)
    ].union_prefer_right(fields)
}

/// A transaction record with a patch applied at a time.
pub open spec fn updated_record(row: Fields, patch: Fields, now: Seq<char>) -> Fields {
    row.union_prefer_right(patch).insert("updatedAt"@, JsonView::Str(now))
}

/// A transaction record marked as settled at a time.
pub open spec fn settled_record(row: Fields, batch_info: JsonView, now: Seq<char>) -> Fields {
    row.insert("settled"@, JsonView::Bool(true)).insert("batchInfo"@, batch_info).insert(
        "updatedAt"@,
        JsonView::Str(now),
    )
}

/// Whether a transaction has one of the ids.
pub open spec fn row_in(row: Fields, ids: Seq<Seq<char>>) -> bool {
    text_field(row, "id"@) matches Some(id) && ids.contains(id)
}

/// The transactions, those with one of the ids marked as settled.
pub open spec fn settle_rows(
    rows: Seq<Fields>,
    ids: Seq<Seq<char>>,
    batch_info: JsonView,
    now: Seq<char>,
) -> Seq<Fields> {
    Seq::new(
        rows.len(),
        |i: int|
            if row_in(rows[i], ids) {
                settled_record(rows[i], batch_info, now)
            } else {
                rows[i]
            },
    )
}

/// An approved sale, authorization or return that no batch has settled.
pub open spec fn unsettled(row: Fields) -> bool {
    &&& text_field(row, "status"@) == Some("APPROVED"@)
    &&& flag_field(row, "settled"@) != Some(true)
    &&& (text_field(row, "type"@) == Some("SALE"@) || text_field(row, "type"@) == Some("AUTH"@)
        || text_field(row, "type"@) == Some("RETURN"@))
}

/// Whether some transaction has one of the ids.
pub open spec fn some_row_in(rows: Seq<Fields>, ids: Seq<Seq<char>>) -> bool {
    exists|i: int| 0 <= i < rows.len() && row_in(#[trigger] rows[i], ids)
}

impl DbView {
    /// Whether the creation times of all transactions are readable.
    pub open spec fn readable(self) -> bool {
        rows_readable(self.transactions)
    }

    /// Whether a transaction with the id can be written: where there is one, the
    /// creation times of all transactions are readable.
    pub open spec fn can_update(self, id: Seq<char>) -> bool {
        row_with_id(self.transactions, id) is Some ==> self.readable()
    }

    /// The database once it was written: nothing is left to write.
    pub open spec fn saved(self) -> DbView {
        DbView { dirty_days: Seq::empty(), unsaved: false, ..self }
    }

    /// The database with a transaction added in front.
    pub open spec fn with_transaction(self, record: Fields, today: Seq<char>) -> DbView {
        DbView {
            transactions: seq![record] + self.transactions,
            dirty_days: with_day(self.dirty_days, day_text(record, today)),
            unsaved: true,
            ..self
        }
    }

    /// The database with the patch applied to the first transaction with the
    /// id, unchanged where there is none.
    pub open spec fn with_patch(
        self,
        id: Seq<char>,
        patch: Fields,
        now: Seq<char>,
        today: Seq<char>,
    ) -> DbView {
        let at = row_index(self.transactions, id, 0);
        if at < self.transactions.len() {
            let record = updated_record(self.transactions[at], patch, now);
            DbView {
                transactions: self.transactions.update(at, record),
                dirty_days: with_day(self.dirty_days, day_text(record, today)),
                unsaved: true,
                ..self
            }
        } else {
            self
        }
    }

    /// The number that the next ECR reference of a day gets.
    pub open spec fn next_seq(self, key: Seq<char>) -> int {
        (if self.ecr_seq.contains_key(key) {
            self.ecr_seq[key] as int
        } else {
            0
        }) + 1
    }

    /// The database after an ECR reference of a day was given out.
    pub open spec fn with_next_seq(self, key: Seq<char>) -> DbView {
        DbView {
            ecr_seq: self.ecr_seq.insert(key, self.next_seq(key) as u32),
            unsaved: true,
            ..self
        }
    }

    /// The database with the transactions of the ids settled.
    pub open spec fn with_settled(
        self,
        ids: Seq<Seq<char>>,
        batch_info: JsonView,
        now: Seq<char>,
        today: Seq<char>,
    ) -> DbView {
        let rows = settle_rows(self.transactions, ids, batch_info, now);
        DbView {
            transactions: rows,
            dirty_days: with_days_of(
                self.dirty_days,
                rows.filter(|row: Fields| row_in(row, ids)),
                today,
            ),
            unsaved: true,
            ..self
        }
    }
}

/// An ECR reference number: the date and at least four digits of sequence.
pub open spec fn ecr_ref(key: Seq<char>, seq: int) -> Seq<char> {
    key + padded(decimal(seq as nat), 4)
}

// ---------------------------------------------------------------------------
// Loading
// ---------------------------------------------------------------------------

/// What was found of the main file.
#[derive(Debug)]
pub enum MainFile {
    Missing,
    Corrupt,
    Loaded(DbData),
}

/// The creation time that transactions are sorted by, empty where there is
/// none.
pub open spec fn created_key(row: Fields) -> Seq<char> {
    crate::json::or_empty(text_field(row, "createdAt"@))
}

/// The creation times of some transactions.
pub open spec fn created_keys(rows: Seq<Fields>) -> Seq<Seq<char>> {
    Seq::new(rows.len(), |i: int| created_key(rows[i]))
}

/// Whether `out` holds the transactions of `rows`, newest first, those of one
/// time in their original order.
pub open spec fn newest_first(rows: Seq<Fields>, out: Seq<Fields>) -> bool {
    exists|order: Seq<usize>| #[trigger]
        descending_order(created_keys(rows), order) && out == Seq::new(
            order.len(),
            |k: int| rows[order[k] as int],
        )
}

/// The transactions of all day logs that could be read, in order.
pub open spec fn log_rows(logs: Seq<Option<Vec<Object>>>) -> Seq<Fields>
    decreases logs.len(),
{
    if logs.len() == 0 {
        Seq::empty()
    } else {
        log_rows(logs.drop_last()) + (match logs.last() {
            Some(rows) => rows_view(rows@),
            None => Seq::empty(),
        })
    }
}

fn created_text(row: &Object) -> (r: String)
    ensures
        r@ == created_key(row@),
{
    row.text_or_empty("createdAt")
}

/// Sorts transactions newest first, those of one time in their original order.
pub fn sort_newest_first(rows: &Vec<Object>) -> (out: Vec<Object>)
    ensures
        newest_first(rows_view(rows@), rows_view(out@)),
{
    let mut keys: Vec<String> = Vec::new();
    let mut i: usize = 0;
    while i < rows.len()
        invariant
            i <= rows@.len(),
            keys@.len() == i,
            forall|k: int| 0 <= k < i ==> (#[trigger] keys@[k])@ == created_key(rows@[k]@),
        decreases rows@.len() - i,
    {
        keys.push(created_text(&rows[i]));
        i += 1;
    }
    assert(texts(keys@) =~= created_keys(rows_view(rows@)));
    let order = sort_descending(&keys);
    let mut out: Vec<Object> = Vec::new();
    let mut j: usize = 0;
    while j < order.len()
        invariant
            descending_order(created_keys(rows_view(rows@)), order@),
            j <= order@.len(),
            out@.len() == j,
            forall|k: int| 0 <= k < j ==> (#[trigger] out@[k])@ == rows@[order@[k] as int]@,
        decreases order@.len() - j,
    {
        assert(order@[j as int] < rows@.len());
        out.push(rows[order[j]].copy());
        j += 1;
    }
    assert(rows_view(out@) =~= Seq::new(
        order@.len(),
        |k: int| rows_view(rows@)[order@[k] as int],
    ));
    out
}

/// Which files of the log folder are day logs, by name.
pub open spec fn is_log_name(name: Seq<char>) -> bool {
    &&& name.len() >= "transactions-"@.len() && name.take("transactions-"@.len() as int)
        == "transactions-"@
    &&& name.len() >= ".json"@.len() && name.skip(name.len() - ".json"@.len()) == ".json"@
}

/// Whether a file of the log folder is a day log, by its name.
pub fn is_day_log(name: &str) -> (r: bool)
    ensures
        r == is_log_name(name@),
{
    let v = crate::text::chars_of(name);
    let head = crate::text::chars_of("transactions-");
    let tail = crate::text::chars_of(".json");
    if v.len() < head.len() || v.len() < tail.len() {
        return false;
    }
    let front = crate::text::text_of(&v, 0, head.len());
    let back = crate::text::text_of(&v, v.len() - tail.len(), v.len());
    assert(name@.take(head@.len() as int) =~= front@);
    assert(name@.skip(name@.len() - tail@.len()) =~= back@);
    same_text(front.as_str(), "transactions-") && same_text(back.as_str(), ".json")
}

/// The order in which day logs are read: newest name first.
pub fn log_reading_order(names: &Vec<String>) -> (order: Vec<usize>)
    ensures
        descending_order(texts(names@), order@),
{
    sort_descending(names)
}

/// What one write of the database puts on disk.
#[derive(Debug)]
pub struct Save {
    /// What the main file holds.
    pub main: Json,
    /// The days whose logs are rewritten.
    pub days: Vec<String>,
    /// The logs of these days, in their order: name and transactions.
    pub logs: Vec<(String, Vec<Object>)>,
}

/// Whether a write holds all of a database that is not on disk yet: the main
/// file, and for each day touched its log.
pub open spec fn is_save(save: Save, db: DbView, today: Seq<char>) -> bool {
    &&& save.main@ == JsonView::Obj(main_fields(db))
    &&& texts(save.days@) == db.dirty_days
    &&& save.logs@.len() == db.dirty_days.len()
    &&& forall|i: int|
        0 <= i < save.logs@.len() ==> (#[trigger] save.logs@[i]).0@ == log_file_name(
            db.dirty_days[i],
        ) && rows_view(save.logs@[i].1@) == rows_on(db.transactions, db.dirty_days[i], today)
}

impl Db {
    pub open spec fn view(&self) -> DbView {
        DbView {
            terminals: terminals_view(self.data.terminals@),
            transactions: rows_view(self.data.transactions@),
            ecr_seq: self.data.ecr_seq@,
            dirty_days: texts(self.dirty_days@),
            unsaved: self.unsaved,
        }
    }

    /// No sequence key twice.
    pub open spec fn wf(&self) -> bool {
        self.data.wf()
    }

    /// Whether the creation times of all transactions are readable. Where one is
    /// not, no day log can be written.
    pub fn is_readable(&self) -> (r: bool)
        ensures
            r == self@.readable(),
    {
        let mut i: usize = 0;
        while i < self.data.transactions.len()
            invariant
                i <= self.data.transactions@.len(),
                forall|k: int| 0 <= k < i ==> row_readable(#[trigger] self@.transactions[k]),
            decreases self.data.transactions@.len() - i,
        {
            assert(self@.transactions[i as int] == self.data.transactions@[i as int]@);
            if !is_row_readable(&self.data.transactions[i]) {
                return false;
            }
            i += 1;
        }
        true
    }

    /// Generates an id like `<prefix>_<base36 millis><6 random base36 chars>`.
    pub fn gen_id(prefix: &str) -> (s: String)
        ensures
            is_id(s@, prefix@),
    {
        gen_id(prefix)
    }

    /// Builds the database from what the files hold. A missing or corrupt main
    /// file starts fresh. A main file from before the log was split still holds
    /// transactions: they are kept, and their days are to be written as logs.
    /// Day logs that could not be read are skipped.
    pub fn load_from(main: MainFile, logs: Vec<Option<Vec<Object>>>, today: &str) -> (db: Db)
        requires
            main matches MainFile::Loaded(d) ==> d.wf() && rows_readable(
                rows_view(d.transactions@),
            ),
        ensures
            db.wf(),
            db@.readable() == rows_readable(log_rows(logs@)),
            ({
                let legacy = match main {
                    MainFile::Loaded(d) => rows_view(d.transactions@),
                    _ => Seq::empty(),
                };
                &&& newest_first(legacy + log_rows(logs@), db@.transactions)
                &&& db@.dirty_days == with_days_of(Seq::empty(), legacy, today@)
                &&& match main {
                    MainFile::Loaded(d) => db@.terminals == terminals_view(d.terminals@)
                        && db@.ecr_seq == d.ecr_seq@ && db@.unsaved == (legacy.len() > 0),
                    _ => db@.terminals.len() == 0 && db@.ecr_seq == Map::<Seq<char>, u32>::empty()
                        && db@.unsaved,
                }
            }),
    {
        let loaded = match &main {
            MainFile::Loaded(_) => true,
            _ => false,
        };
        let mut data = match main {
            MainFile::Loaded(d) => d,
            _ => DbData {
                terminals: Vec::new(),
                transactions: Vec::new(),
                ecr_seq: TextMap::new(),
            },
        };
        let ghost legacy = rows_view(data.transactions@);
        let unsaved = !loaded || data.transactions.len() > 0;
        let mut dirty_days: Vec<String> = Vec::new();
        let mut i: usize = 0;
        assert(texts(dirty_days@) =~= Seq::empty());
        assert(legacy.take(0) =~= Seq::empty());
        while i < data.transactions.len()
            invariant
                legacy == rows_view(data.transactions@),
                rows_readable(legacy),
                i <= data.transactions@.len(),
                texts(dirty_days@) == with_days_of(Seq::empty(), legacy.take(i as int), today@),
            decreases data.transactions@.len() - i,
        {
            proof {
                assert(legacy.take(i + 1).drop_last() =~= legacy.take(i as int));
                assert(legacy.take(i + 1).last() == legacy[i as int]);
                assert(row_readable(legacy[i as int]));
            }
            let day = day_of(&data.transactions[i], today);
            add_day(&mut dirty_days, day);
            i += 1;
        }
        assert(legacy.take(legacy.len() as int) =~= legacy);
        let mut all = data.transactions;
        let mut j: usize = 0;
        assert(legacy + log_rows(logs@.take(0)) =~= legacy);
        while j < logs.len()
            invariant
                j <= logs@.len(),
                rows_view(all@) == legacy + log_rows(logs@.take(j as int)),
            decreases logs@.len() - j,
        {
            let ghost so_far = rows_view(all@);
            proof {
                assert(logs@.take(j + 1).drop_last() =~= logs@.take(j as int));
                assert(logs@.take(j + 1).last() == logs@[j as int]);
            }
            match &logs[j] {
                Some(rows) => {
                    let mut more = copy_rows(rows);
                    let ghost added = more@;
                    all.append(&mut more);
                    assert(rows_view(all@) =~= so_far + rows_view(added));
                },
                None => {
                    assert(so_far + Seq::<Fields>::empty() =~= so_far);
                },
            }
            assert(rows_view(all@) =~= legacy + log_rows(logs@.take(j + 1)));
            j += 1;
        }
        assert(logs@.take(logs@.len() as int) =~= logs@);
        let sorted = sort_newest_first(&all);
        proof {
            let rows = rows_view(all@);
            let out = rows_view(sorted@);
            let order = choose|order: Seq<usize>| #[trigger]
                descending_order(created_keys(rows), order) && out == Seq::new(
                    order.len(),
                    |k: int| rows[order[k] as int],
                );
            lemma_readable_in_order(legacy, log_rows(logs@), order, out);
        }
        Db {
            data: DbData {
                terminals: data.terminals,
                transactions: sorted,
                ecr_seq: data.ecr_seq,
            },
            dirty_days,
            unsaved,
        }
    }

    // -----------------------------------------------------------------
    // Persisting
    // -----------------------------------------------------------------

    /// What the main file holds: everything but the transactions.
    pub fn main_file(&self) -> (j: Json)
        requires
            self.wf(),
        ensures
            j@ == JsonView::Obj(main_fields(self@)),
    {
        let entries = &self.data.ecr_seq.entries;
        let mut seq = Object::new();
        let mut i: usize = 0;
        assert(seq@ =~= seq_fields(entries_view(entries@.take(0))));
        while i < entries.len()
            invariant
                i <= entries@.len(),
                seq@ == seq_fields(entries_view(entries@.take(i as int))),
            decreases entries@.len() - i,
        {
            proof {
                assert(entries@.take(i + 1).drop_last() =~= entries@.take(i as int));
                assert(entries@.take(i + 1).last() == entries@[i as int]);
            }
            seq.set(entries[i].0.as_str(), Json::of_int(entries[i].1 as i64));
            assert(seq@ =~= seq_fields(entries_view(entries@.take(i + 1))));
            i += 1;
        }
        assert(entries@.take(entries@.len() as int) =~= entries@);
        Json::Obj(
            Object::new().put("terminals", terminal::terminals_json(&self.data.terminals)).put(
                "ecrSeq",
                Json::Obj(seq),
            ),
        )
    }

    /// The transactions of a day, in order.
    pub fn rows_of_day(&self, day: &str, today: &str) -> (r: Vec<Object>)
        requires
            self@.readable(),
        ensures
            rows_view(r@) == rows_on(self@.transactions, day@, today@),
    {
        let ghost rows = self@.transactions;
        let ghost pred = |row: Fields| day_text(row, today@) == day@;
        let mut r: Vec<Object> = Vec::new();
        let mut i: usize = 0;
        assert(rows_view(r@) =~= rows.take(0).filter(pred)) by {
            reveal(Seq::filter);
        }
        while i < self.data.transactions.len()
            invariant
                self@.readable(),
                rows == self@.transactions,
                pred == (|row: Fields| day_text(row, today@) == day@),
                i <= self.data.transactions@.len(),
                rows_view(r@) == rows.take(i as int).filter(pred),
            decreases self.data.transactions@.len() - i,
        {
            let ghost before = r@;
            proof {
                reveal(Seq::filter);
                assert(rows.take(i + 1).drop_last() =~= rows.take(i as int));
                assert(rows.take(i + 1).last() == rows[i as int]);
                assert(row_readable(rows[i as int]));
            }
            let row_day = day_of(&self.data.transactions[i], today);
            if same_text(row_day.as_str(), day) {
                r.push(self.data.transactions[i].copy());
                assert(rows_view(r@) =~= rows_view(before).push(r@.last()@));
            }
            i += 1;
        }
        assert(rows.take(rows.len() as int) =~= rows);
        r
    }

    /// The log files that need rewriting: for each day touched since the last
    /// write, its name and its transactions.
    fn log_files(&self, today: &str) -> (r: Vec<(String, Vec<Object>)>)
        requires
            self@.dirty_days.len() > 0 ==> self@.readable(),
        ensures
            r@.len() == self@.dirty_days.len(),
            forall|i: int|
                0 <= i < r@.len() ==> (#[trigger] r@[i]).0@ == log_file_name(self@.dirty_days[i])
                    && rows_view(r@[i].1@) == rows_on(
                    self@.transactions,
                    self@.dirty_days[i],
                    today@,
                ),
    {
        let mut r: Vec<(String, Vec<Object>)> = Vec::new();
        let mut i: usize = 0;
        while i < self.dirty_days.len()
            invariant
                self@.dirty_days.len() > 0 ==> self@.readable(),
                i <= self.dirty_days@.len(),
                r@.len() == i,
                forall|k: int|
                    0 <= k < i ==> (#[trigger] r@[k]).0@ == log_file_name(self@.dirty_days[k])
                        && rows_view(r@[k].1@) == rows_on(
                        self@.transactions,
                        self@.dirty_days[k],
                        today@,
                    ),
            decreases self.dirty_days@.len() - i,
        {
            let day = self.dirty_days[i].as_str();
            let name = "transactions-".to_owned().concat(day).concat(".json");
            let rows = self.rows_of_day(day, today);
            r.push((name, rows));
            i += 1;
        }
        r
    }

    /// Hands out the log files that need rewriting, for each day touched since
    /// the last write its name and its transactions. All of the database then
    /// counts as written.
    pub fn take_log_files(&mut self, today: &str) -> (r: Vec<(String, Vec<Object>)>)
        requires
            old(self).wf(),
            old(self)@.dirty_days.len() > 0 ==> old(self)@.readable(),
        ensures
            final(self).wf(),
            final(self)@ == old(self)@.saved(),
            r@.len() == old(self)@.dirty_days.len(),
            forall|i: int|
                0 <= i < r@.len() ==> (#[trigger] r@[i]).0@ == log_file_name(
                    old(self)@.dirty_days[i],
                ) && rows_view(r@[i].1@) == rows_on(
                    old(self)@.transactions,
                    old(self)@.dirty_days[i],
                    today@,
                ),
    {
        let r = self.log_files(today);
        self.dirty_days = Vec::new();
        self.unsaved = false;
        assert(texts(self.dirty_days@) =~= Seq::empty());
        r
    }

    /// Hands out what has to be written, if anything changed since the last
    /// write: the main file and the logs of the days touched since. All of the
    /// database then counts as written.
    pub fn take_save(&mut self, today: &str) -> (r: Option<Save>)
        requires
            old(self).wf(),
            old(self)@.unsaved && old(self)@.dirty_days.len() > 0 ==> old(self)@.readable(),
        ensures
            final(self).wf(),
            if old(self)@.unsaved {
                &&& r matches Some(save) && is_save(save, old(self)@, today@)
                &&& final(self)@ == old(self)@.saved()
            } else {
                r is None && final(self)@ == old(self)@
            },
    {
        if !self.unsaved {
            return None;
        }
        let main = self.main_file();
        let days = self.dirty_days.clone();
        assert(texts(days@) =~= self@.dirty_days);
        let logs = self.take_log_files(today);
        Some(Save { main, days, logs })
    }

    /// Marks the log of a day for rewriting at the next write, because this one
    /// did not reach the disk.
    pub fn mark_day(&mut self, day: &str)
        requires
            old(self).wf(),
        ensures
            final(self).wf(),
            final(self)@ == (DbView {
                dirty_days: with_day(old(self)@.dirty_days, day@),
                ..old(self)@
            }),
    {
        add_day(&mut self.dirty_days, day.to_owned());
    }

    // -----------------------------------------------------------------
    // Terminals
    // -----------------------------------------------------------------

    /// All terminals.
    pub fn list_terminals(&self) -> (r: Vec<Terminal>)
        ensures
            terminals_view(r@) == self@.terminals,
    {
        terminal::copy_terminals(&self.data.terminals)
    }

    /// The first terminal with an id.
    pub fn get_terminal(&self, id: &str) -> (r: Option<Terminal>)
        ensures
            terminal::opt_terminal(r) == terminal::terminal_with_id(self@.terminals, id@),
    {
        let i = terminal::find_terminal(&self.data.terminals, id);
        if i < self.data.terminals.len() {
            assert(self@.terminals[i as int] == self.data.terminals@[i as int]@);
            Some(self.data.terminals[i].clone())
        } else {
            None
        }
    }

    /// Adds the terminal that a request body describes, with a new id, now.
    pub fn create_terminal(&mut self, body: &Json, numbers: &TerminalNumbers) -> (r: Terminal)
        requires
            old(self).wf(),
        ensures
            final(self).wf(),
            is_id(r@.id, "term"@),
            is_timestamp(r@.created_at),
            r@ == new_terminal(body@.fields(), *numbers, r@.id, r@.created_at),
            final(self)@ == (DbView {
                terminals: old(self)@.terminals.push(r@),
                unsaved: true,
                ..old(self)@
            }),
    {
        let id = gen_id("term");
        let created_at = rfc3339(utc_now());
        self.create_terminal_with(body, numbers, id, created_at)
    }

    /// Adds the terminal that a request body describes.
    pub fn create_terminal_with(
        &mut self,
        body: &Json,
        numbers: &TerminalNumbers,
        id: String,
        created_at: String,
    ) -> (r: Terminal)
        requires
            old(self).wf(),
        ensures
            final(self).wf(),
            r@ == new_terminal(body@.fields(), *numbers, id@, created_at@),
            final(self)@ == (DbView {
                terminals: old(self)@.terminals.push(r@),
                unsaved: true,
                ..old(self)@
            }),
    {
        let ghost before = self.data.terminals@;
        let terminal = terminal::terminal_from(body, numbers, id, created_at);
        let r = terminal.clone();
        self.data.terminals.push(terminal);
        self.unsaved = true;
        assert(terminals_view(self.data.terminals@) =~= terminals_view(before).push(r@));
        r
    }

    /// Applies a request body to the first terminal with an id.
    pub fn update_terminal(
        &mut self,
        id: &str,
        patch: &Json,
        numbers: &TerminalNumbers,
    ) -> (r: Option<Terminal>)
        requires
            old(self).wf(),
        ensures
            final(self).wf(),
            ({
                let at = terminal::terminal_index(old(self)@.terminals, id@, 0);
                if at < old(self)@.terminals.len() {
                    let t = patched(old(self)@.terminals[at], patch@.fields(), *numbers);
                    &&& r matches Some(x) && x@ == t
                    &&& final(self)@ == (DbView {
                        terminals: old(self)@.terminals.update(at, t),
                        unsaved: true,
                        ..old(self)@
                    })
                } else {
                    r is None && final(self)@ == old(self)@
                }
            }),
    {
        let ghost before = self.data.terminals@;
        let i = terminal::find_terminal(&self.data.terminals, id);
        if i >= self.data.terminals.len() {
            return None;
        }
        let t = terminal::patch_terminal(&self.data.terminals[i], patch, numbers);
        let r = t.clone();
        self.data.terminals[i] = t;
        self.unsaved = true;
        assert(terminals_view(self.data.terminals@) =~= terminals_view(before).update(
            i as int,
            r@,
        ));
        Some(r)
    }

    /// Removes every terminal with an id.
    pub fn delete_terminal(&mut self, id: &str) -> (deleted: bool)
        requires
            old(self).wf(),
        ensures
            final(self).wf(),
            ({
                let kept = terminal::terminals_without(old(self)@.terminals, id@);
                &&& deleted == (kept.len() != old(self)@.terminals.len())
                &&& final(self)@ == (if deleted {
                    DbView { terminals: kept, unsaved: true, ..old(self)@ }
                } else {
                    old(self)@
                })
            }),
    {
        proof {
            terminal::nothing_to_remove(self@.terminals, id@);
        }
        let before = self.data.terminals.len();
        let kept = terminal::without_terminal(&self.data.terminals, id);
        let deleted = kept.len() != before;
        self.data.terminals = kept;
        if deleted {
            self.unsaved = true;
        }
        deleted
    }

    // -----------------------------------------------------------------
    // ECR reference numbers: unique, auto-incrementing, reset per day.
    // Format: <yyyymmdd><4-digit seq>, e.g. 202607100001
    // -----------------------------------------------------------------

    /// Whether every sequence can still be counted up.
    pub open spec fn seq_left(&self) -> bool {
        forall|key: Seq<char>| #[trigger]
            self@.ecr_seq.contains_key(key) ==> self@.ecr_seq[key] < u32::MAX
    }

    /// Whether every sequence can still be counted up.
    pub fn is_seq_left(&self) -> (r: bool)
        requires
            self.wf(),
        ensures
            r == self.seq_left(),
    {
        let mut i: usize = 0;
        while i < self.data.ecr_seq.entries.len()
            invariant
                self.wf(),
                i <= self.data.ecr_seq.entries@.len(),
                forall|k: int|
                    0 <= k < i ==> (#[trigger] self.data.ecr_seq.entries@[k]).1 < u32::MAX,
            decreases self.data.ecr_seq.entries@.len() - i,
        {
            if self.data.ecr_seq.entries[i].1 == u32::MAX {
                proof {
                    crate::textmap::lemma_entry(self.data.ecr_seq.entries@, i as int);
                    assert(self@.ecr_seq.contains_key(self.data.ecr_seq.entries@[i as int].0@));
                }
                return false;
            }
            i += 1;
        }
        proof {
            assert forall|key: Seq<char>| #[trigger] self@.ecr_seq.contains_key(key) implies self@.ecr_seq[key]
                < u32::MAX by {
                crate::textmap::lemma_key_has_entry(self.data.ecr_seq.entries@, key);
            }
        }
        true
    }

    /// Gives out the next ECR reference number of today: the date as eight
    /// digits up to the year 9999, then the sequence.
    pub fn next_ecr_ref_num(&mut self) -> (r: String)
        requires
            old(self).wf(),
            old(self).seq_left(),
        ensures
            final(self).wf(),
            exists|t: Instant|
                #![trigger utc_date_key(t.secs)]
                {
                    &&& t.valid()
                    &&& t.secs < YEAR_10000 ==> utc_date_key(t.secs).len() == 8 && all_digits(
                        utc_date_key(t.secs),
                    )
                    &&& r@ == ecr_ref(
                        utc_date_key(t.secs),
                        old(self)@.next_seq(utc_date_key(t.secs)),
                    )
                    &&& final(self)@ == old(self)@.with_next_seq(utc_date_key(t.secs))
                },
    {
        let t = utc_now();
        let key = date_key(t);
        self.next_ecr_ref_num_on(key.as_str())
    }

    /// Gives out the next ECR reference number of a day.
    pub fn next_ecr_ref_num_on(&mut self, key: &str) -> (r: String)
        requires
            old(self).wf(),
            old(self)@.next_seq(key@) <= u32::MAX,
        ensures
            final(self).wf(),
            r@ == ecr_ref(key@, old(self)@.next_seq(key@)),
            final(self)@ == old(self)@.with_next_seq(key@),
    {
        let last: u32 = match self.data.ecr_seq.get(key) {
            Some(n) => n,
            None => 0,
        };
        let next: u32 = last + 1;
        self.data.ecr_seq.set(key, next);
        self.unsaved = true;
        key.to_owned().concat(decimal_pad4(next).as_str())
    }

    // -----------------------------------------------------------------
    // Transactions
    // -----------------------------------------------------------------

    /// Records a transaction, with a new id, now. Up to the year 9999 it belongs
    /// to the log of the current date.
    pub fn create_transaction(&mut self, tx: &Object) -> (r: Object)
        requires
            old(self).wf(),
            old(self)@.readable(),
            row_readable(tx@),
        ensures
            final(self).wf(),
            final(self)@.readable(),
            exists|id: Seq<char>, t: Instant|
                #![trigger is_id(id, "txn"@), rfc3339_text(t.secs, t.nanos)]
                {
                    &&& is_id(id, "txn"@) && t.valid()
                    &&& r@ == new_record(tx@, id, rfc3339_text(t.secs, t.nanos))
                    &&& final(self)@ == old(self)@.with_transaction(r@, utc_date(t.secs))
                    &&& t.secs < YEAR_10000 && !tx@.contains_key("createdAt"@) ==> day_text(
                        r@,
                        utc_date(t.secs),
                    ) == utc_date(t.secs)
                },
    {
        let id = gen_id("txn");
        let t = utc_now();
        let now = rfc3339(t);
        let today = date_text(t);
        proof {
            ascii_day(now@);
        }
        let ghost id_view = id@;
        let r = self.create_transaction_with(tx, id, now.as_str(), today.as_str());
        proof {
            lemma_keys();
            if !tx@.contains_key("createdAt"@) {
                assert(r@["createdAt"@] == JsonView::Str(now@));
            }
            assert(is_id(id_view, "txn"@));
        }
        r
    }

    /// Records a transaction under an id at a time.
    pub fn create_transaction_with(
        &mut self,
        tx: &Object,
        id: String,
        now: &str,
        today: &str,
    ) -> (r: Object)
        requires
            old(self).wf(),
            old(self)@.readable(),
            row_readable(tx@),
            day_readable(now@),
        ensures
            final(self).wf(),
            final(self)@.readable(),
            r@ == new_record(tx@, id@, now@),
            final(self)@ == old(self)@.with_transaction(r@, today@),
    {
        let ghost before = self.data.transactions@;
        let mut record = Object::new().put("id", Json::Str(id)).put(
            "createdAt",
            Json::of_str(now),
        ).put("updatedAt", Json::of_str(now)).put("status", Json::of_str("PENDING"));
        record.merge(tx);
        proof {
            lemma_new_record_readable(tx@, id@, now@);
        }
        let day = day_of(&record, today);
        add_day(&mut self.dirty_days, day);
        let r = record.copy();
        self.data.transactions.insert(0, record);
        self.unsaved = true;
        proof {
            let rows = rows_view(self.data.transactions@);
            assert(rows =~= seq![r@] + rows_view(before));
            assert forall|i: int| 0 <= i < rows.len() implies row_readable(#[trigger] rows[i]) by {
                if i > 0 {
                    assert(rows[i] == rows_view(before)[i - 1]);
                }
            }
        }
        r
    }

    /// Applies a patch to the first transaction with an id, now.
    pub fn update_transaction(&mut self, id: &str, patch: &Object) -> (r: Option<Object>)
        requires
            old(self).wf(),
            old(self)@.can_update(id@),
            row_readable(patch@),
        ensures
            final(self).wf(),
            old(self)@.readable() ==> final(self)@.readable(),
            exists|t: Instant|
                #![trigger rfc3339_text(t.secs, t.nanos)]
                {
                    let now = rfc3339_text(t.secs, t.nanos);
                    &&& t.valid()
                    &&& final(self)@ == old(self)@.with_patch(id@, patch@, now, utc_date(t.secs))
                    &&& opt_object(r) == (match row_with_id(old(self)@.transactions, id@) {
                        Some(row) => Some(updated_record(row, patch@, now)),
                        None => None,
                    })
                },
    {
        let t = utc_now();
        let now = rfc3339(t);
        let today = date_text(t);
        self.update_transaction_at(id, patch, now.as_str(), today.as_str())
    }

    /// Applies a patch to the first transaction with an id at a time.
    pub fn update_transaction_at(
        &mut self,
        id: &str,
        patch: &Object,
        now: &str,
        today: &str,
    ) -> (r: Option<Object>)
        requires
            old(self).wf(),
            old(self)@.can_update(id@),
            row_readable(patch@),
        ensures
            final(self).wf(),
            old(self)@.readable() ==> final(self)@.readable(),
            final(self)@ == old(self)@.with_patch(id@, patch@, now@, today@),
            opt_object(r) == (match row_with_id(old(self)@.transactions, id@) {
                Some(row) => Some(updated_record(row, patch@, now@)),
                None => None,
            }),
    {
        let ghost before = self.data.transactions@;
        let i = self.find_transaction(id);
        if i >= self.data.transactions.len() {
            return None;
        }
        let mut record = self.data.transactions[i].copy();
        proof {
            assert(rows_view(before)[i as int] == before[i as int]@);
            assert(row_readable(before[i as int]@));
            lemma_updated_readable(before[i as int]@, patch@, now@);
        }
        record.merge(patch);
        record.set("updatedAt", Json::of_str(now));
        let day = day_of(&record, today);
        add_day(&mut self.dirty_days, day);
        let r = record.copy();
        self.data.transactions[i] = record;
        self.unsaved = true;
        proof {
            let rows = rows_view(self.data.transactions@);
            assert(rows =~= rows_view(before).update(i as int, r@));
        }
        Some(r)
    }

    fn find_transaction(&self, id: &str) -> (r: usize)
        ensures
            r == row_index(self@.transactions, id@, 0),
            r <= self.data.transactions@.len(),
    {
        let mut i: usize = 0;
        while i < self.data.transactions.len()
            invariant
                i <= self.data.transactions@.len(),
                row_index(self@.transactions, id@, i as int) == row_index(
                    self@.transactions,
                    id@,
                    0,
                ),
            decreases self.data.transactions@.len() - i,
        {
            assert(self@.transactions[i as int] == self.data.transactions@[i as int]@);
            if is_text(self.data.transactions[i].text("id"), id) {
                return i;
            }
            i += 1;
        }
        i
    }

    /// The first transaction with an id.
    pub fn get_transaction(&self, id: &str) -> (r: Option<Object>)
        ensures
            opt_object(r) == row_with_id(self@.transactions, id@),
    {
        let i = self.find_transaction(id);
        if i < self.data.transactions.len() {
            assert(self@.transactions[i as int] == self.data.transactions@[i as int]@);
            Some(self.data.transactions[i].copy())
        } else {
            None
        }
    }

    /// Approved sale/auth/return transactions not yet batch-closed.
    pub fn list_unsettled(&self) -> (r: Vec<Object>)
        ensures
            rows_view(r@) == self@.transactions.filter(|row: Fields| unsettled(row)),
    {
        let ghost rows = self@.transactions;
        let ghost pred = |row: Fields| unsettled(row);
        let mut r: Vec<Object> = Vec::new();
        let mut i: usize = 0;
        assert(rows_view(r@) =~= rows.take(0).filter(pred)) by {
            reveal(Seq::filter);
        }
        while i < self.data.transactions.len()
            invariant
                rows == self@.transactions,
                pred == (|row: Fields| unsettled(row)),
                i <= self.data.transactions@.len(),
                rows_view(r@) == rows.take(i as int).filter(pred),
            decreases self.data.transactions@.len() - i,
        {
            let ghost before = r@;
            proof {
                reveal(Seq::filter);
                assert(rows.take(i + 1).drop_last() =~= rows.take(i as int));
                assert(rows.take(i + 1).last() == rows[i as int]);
            }
            if is_unsettled(&self.data.transactions[i]) {
                r.push(self.data.transactions[i].copy());
                assert(rows_view(r@) =~= rows_view(before).push(r@.last()@));
            }
            i += 1;
        }
        assert(rows.take(rows.len() as int) =~= rows);
        r
    }

    /// Marks a set of transactions as settled, now.
    pub fn mark_settled(&mut self, ids: &Vec<String>, batch_info: &Json)
        requires
            old(self).wf(),
            some_row_in(old(self)@.transactions, texts(ids@)) ==> old(self)@.readable(),
        ensures
            final(self).wf(),
            old(self)@.readable() ==> final(self)@.readable(),
            exists|t: Instant|
                #![trigger rfc3339_text(t.secs, t.nanos)]
                t.valid() && final(self)@ == old(self)@.with_settled(
                    texts(ids@),
                    batch_info@,
                    rfc3339_text(t.secs, t.nanos),
                    utc_date(t.secs),
                ),
    {
        let t = utc_now();
        let now = rfc3339(t);
        let today = date_text(t);
        self.mark_settled_at(ids, batch_info, now.as_str(), today.as_str());
    }

    /// Marks a set of transactions as settled at a time.
    pub fn mark_settled_at(
        &mut self,
        ids: &Vec<String>,
        batch_info: &Json,
        now: &str,
        today: &str,
    )
        requires
            old(self).wf(),
            some_row_in(old(self)@.transactions, texts(ids@)) ==> old(self)@.readable(),
        ensures
            final(self).wf(),
            old(self)@.readable() ==> final(self)@.readable(),
            final(self)@ == old(self)@.with_settled(texts(ids@), batch_info@, now@, today@),
    {
        let ghost rows = self@.transactions;
        let ghost days = self@.dirty_days;
        let ghost want = settle_rows(rows, texts(ids@), batch_info@, now@);
        let ghost pred = |row: Fields| row_in(row, texts(ids@));
        let mut i: usize = 0;
        assert(want.take(0).filter(pred) =~= Seq::<Fields>::empty()) by {
            reveal(Seq::filter);
        }
        while i < self.data.transactions.len()
            invariant
                some_row_in(rows, texts(ids@)) ==> rows_readable(rows),
                self.data.ecr_seq == old(self).data.ecr_seq,
                self.data.terminals == old(self).data.terminals,
                want == settle_rows(rows, texts(ids@), batch_info@, now@),
                pred == (|row: Fields| row_in(row, texts(ids@))),
                i <= self.data.transactions@.len() == rows.len(),
                rows_view(self.data.transactions@) == want.take(i as int) + rows.skip(i as int),
                rows_readable(rows) ==> rows_readable(want.take(i as int)),
                texts(self.dirty_days@) == with_days_of(
                    days,
                    want.take(i as int).filter(pred),
                    today@,
                ),
            decreases rows.len() - i,
        {
            let ghost before = self.data.transactions@;
            proof {
                reveal(Seq::filter);
                assert(rows_view(before)[i as int] == before[i as int]@);
                let now_rows = want.take(i as int) + rows.skip(i as int);
                assert(now_rows[i as int] == rows[i as int]);
                assert forall|k: int| 0 <= k < rows.len() && k != i implies (
                #[trigger] before[k])@ == (want.take(i + 1) + rows.skip(i + 1))[k] by {
                    assert(rows_view(before)[k] == now_rows[k]);
                }
                assert(want.take(i + 1).drop_last() =~= want.take(i as int));
                assert(want.take(i + 1).last() == want[i as int]);
                if row_readable(rows[i as int]) {
                    lemma_settled_readable(rows[i as int], batch_info@, now@);
                }
            }
            if self.row_listed(i, ids) {
                let mut record = self.data.transactions[i].copy();
                record.set("settled", Json::Bool(true));
                record.set("batchInfo", batch_info.copy());
                record.set("updatedAt", Json::of_str(now));
                let day = day_of(&record, today);
                self.data.transactions[i] = record;
                add_day(&mut self.dirty_days, day);
                proof {
                    lemma_settled_keeps_id(rows[i as int], batch_info@, now@);
                    let kept = want.take(i as int).filter(pred);
                    assert(kept.push(want[i as int]).drop_last() =~= kept);
                }
            }
            assert(rows_view(self.data.transactions@) =~= want.take(i + 1) + rows.skip(i + 1));
            assert(rows_readable(rows) ==> rows_readable(want.take(i + 1))) by {
                assert forall|k: int| rows_readable(rows) && 0 <= k < i + 1 implies row_readable(
                    #[trigger] want.take(i + 1)[k],
                ) by {
                    if k < i {
                        assert(row_readable(want.take(i as int)[k]));
                    }
                }
            }
            i += 1;
        }
        proof {
            assert(want.take(want.len() as int) =~= want);
            assert(rows_view(self.data.transactions@) =~= want);
        }
        self.unsaved = true;
    }

    fn row_listed(&self, i: usize, ids: &Vec<String>) -> (r: bool)
        requires
            i < self.data.transactions@.len(),
        ensures
            r == row_in(self.data.transactions@[i as int]@, texts(ids@)),
    {
        match self.data.transactions[i].text("id") {
            Some(id) => has_text(ids, id),
            None => false,
        }
    }
}

/// What an optional object holds.
pub open spec fn opt_object(o: Option<Object>) -> Option<Fields> {
    match o {
        Some(x) => Some(x@),
        None => None,
    }
}

/// Whether a list of texts holds a text.
pub fn has_text(list: &Vec<String>, s: &str) -> (r: bool)
    ensures
        r == texts(list@).contains(s@),
{
    let mut i: usize = 0;
    while i < list.len()
        invariant
            i <= list@.len(),
            forall|k: int| 0 <= k < i ==> texts(list@)[k] != s@,
        decreases list@.len() - i,
    {
        if same_text(list[i].as_str(), s) {
            assert(texts(list@)[i as int] == s@);
            return true;
        }
        i += 1;
    }
    false
}

fn add_day(days: &mut Vec<String>, day: String)
    ensures
        texts(final(days)@) == with_day(texts(old(days)@), day@),
{
    if !has_text(days, day.as_str()) {
        let ghost before = days@;
        days.push(day);
        assert(texts(days@) =~= texts(before).push(day@));
    }
}

fn is_unsettled(row: &Object) -> (r: bool)
    ensures
        r == unsettled(row@),
{
    let settled = match row.flag("settled") {
        Some(b) => b,
        None => false,
    };
    let kind = row.text("type");
    is_text(row.text("status"), "APPROVED") && !settled && (is_text(kind, "SALE") || is_text(
        kind,
        "AUTH",
    ) || is_text(kind, "RETURN"))
}

// ---------------------------------------------------------------------------
// Proofs
// ---------------------------------------------------------------------------

proof fn lemma_keys()
    ensures
        "createdAt"@ != "updatedAt"@,
        "createdAt"@ != "status"@,
        "createdAt"@ != "settled"@,
        "createdAt"@ != "batchInfo"@,
        "createdAt"@ != "id"@,
        "id"@ != "settled"@,
        "id"@ != "batchInfo"@,
        "id"@ != "updatedAt"@,
{
    reveal_strlit("createdAt");
    reveal_strlit("updatedAt");
    reveal_strlit("status");
    reveal_strlit("settled");
    reveal_strlit("batchInfo");
    reveal_strlit("id");
    assert("createdAt"@[0] != "updatedAt"@[0]);
    assert("createdAt"@[0] != "batchInfo"@[0]);
    assert("createdAt"@.len() != "status"@.len());
    assert("createdAt"@.len() != "settled"@.len());
}

proof fn lemma_readable_in_order(
    legacy: Seq<Fields>,
    logged: Seq<Fields>,
    order: Seq<usize>,
    out: Seq<Fields>,
)
    requires
        rows_readable(legacy),
        descending_order(created_keys(legacy + logged), order),
        out == Seq::new(order.len(), |k: int| (legacy + logged)[order[k] as int]),
    ensures
        rows_readable(out) == rows_readable(logged),
{
    let rows = legacy + logged;
    if rows_readable(logged) {
        assert forall|k: int| 0 <= k < out.len() implies row_readable(#[trigger] out[k]) by {
            let p = order[k] as int;
            assert(order[k] < created_keys(rows).len());
            if p < legacy.len() {
                assert(rows[p] == legacy[p]);
            } else {
                assert(rows[p] == logged[p - legacy.len()]);
            }
        }
    }
    if rows_readable(out) {
        assert forall|j: int| 0 <= j < logged.len() implies row_readable(#[trigger] logged[j]) by {
            let p = legacy.len() + j;
            crate::order::lemma_covers(rows.len(), order, p);
            let k = choose|k: int| 0 <= k < rows.len() && order[k] == p;
            assert(out[k] == logged[j]);
        }
    }
}

proof fn lemma_new_record_readable(tx: Fields, id: Seq<char>, now: Seq<char>)
    requires
        row_readable(tx),
        day_readable(now),
    ensures
        row_readable(new_record(tx, id, now)),
{
    lemma_keys();
    let r = new_record(tx, id, now);
    if !tx.contains_key("createdAt"@) {
        assert(r["createdAt"@] == JsonView::Str(now));
    }
}

proof fn lemma_updated_readable(row: Fields, patch: Fields, now: Seq<char>)
    requires
        row_readable(row),
        row_readable(patch),
    ensures
        row_readable(updated_record(row, patch, now)),
{
    lemma_keys();
}

proof fn lemma_settled_readable(row: Fields, batch_info: JsonView, now: Seq<char>)
    requires
        row_readable(row),
    ensures
        row_readable(settled_record(row, batch_info, now)),
{
    lemma_keys();
}

proof fn lemma_settled_keeps_id(row: Fields, batch_info: JsonView, now: Seq<char>)
    ensures
        text_field(settled_record(row, batch_info, now), "id"@) == text_field(row, "id"@),
{
    lemma_keys();
}

/// `row_index` is the first position from `from` on with the id.
pub proof fn row_index_is_first(rows: Seq<Fields>, id: Seq<char>, from: int)
    requires
        0 <= from <= rows.len(),
    ensures
        from <= row_index(rows, id, from) <= rows.len(),
        row_index(rows, id, from) < rows.len() ==> text_field(
            rows[row_index(rows, id, from)],
            "id"@,
        ) == Some(id),
        forall|k: int|
            from <= k < row_index(rows, id, from) ==> text_field(#[trigger] rows[k], "id"@) != Some(
                id,
            ),
    decreases rows.len() - from,
{
    if from < rows.len() && text_field(rows[from], "id"@) != Some(id) {
        row_index_is_first(rows, id, from + 1);
    }
}

proof fn lemma_row_index_at(rows: Seq<Fields>, id: Seq<char>, from: int, at: int)
    requires
        0 <= from <= at < rows.len(),
        text_field(rows[at], "id"@) == Some(id),
        forall|k: int| from <= k < at ==> text_field(#[trigger] rows[k], "id"@) != Some(id),
    ensures
        row_index(rows, id, from) == at,
{
    row_index_is_first(rows, id, from);
    let found = row_index(rows, id, from);
    if found < at {
        assert(text_field(rows[found], "id"@) != Some(id));
    }
}

/// A transaction that was updated without touching its id is read back as
/// updated.
pub proof fn patched_row_is_found(
    db: DbView,
    id: Seq<char>,
    patch: Fields,
    now: Seq<char>,
    today: Seq<char>,
)
    requires
        !patch.contains_key("id"@),
    ensures
        row_with_id(db.with_patch(id, patch, now, today).transactions, id) == (match row_with_id(
            db.transactions,
            id,
        ) {
            Some(row) => Some(updated_record(row, patch, now)),
            None => None,
        }),
{
    lemma_keys();
    let rows = db.transactions;
    row_index_is_first(rows, id, 0);
    let at = row_index(rows, id, 0);
    if at < rows.len() {
        let after = db.with_patch(id, patch, now, today).transactions;
        assert forall|k: int| 0 <= k < at implies text_field(#[trigger] after[k], "id"@) != Some(
            id,
        ) by {
            assert(after[k] == rows[k]);
        }
        lemma_row_index_at(after, id, 0, at);
    }
}

}
