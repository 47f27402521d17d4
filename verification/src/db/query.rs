//! Queries over the transaction log.
use vstd::prelude::*;

use super::query_laws::{listed_rows_meet_each_filter, page_listed};
use super::Db;
use crate::json::{int_json, object_array, rows_view, text_field, Fields, Json, JsonView, Object};
use crate::order::{is_text_le, text_le};
use crate::text::is_text;

verus! {

/// Which transactions to list, and which page of them.
#[derive(Debug)]
pub struct TxQuery {
    pub status: Option<String>,
    pub tx_type: Option<String>,
    pub from: Option<String>,
    pub to: Option<String>,
    pub terminal_id: Option<String>,
    pub page: Option<i64>,
    pub page_size: Option<i64>,
}

/// A page of transactions.
#[derive(Debug)]
pub struct TxQueryResult {
    pub total: usize,
    pub page: i64,
    pub page_size: i64,
    pub page_count: i64,
    pub rows: Vec<Object>,
}

/// Whether a field has the wanted text, where one is wanted.
pub open spec fn wants(row: Fields, key: Seq<char>, wanted: Option<String>) -> bool {
    wanted matches Some(s) ==> text_field(row, key) == Some(s@)
}

/// Whether a transaction is among those that a query asks for. Times are
/// compared as texts.
pub open spec fn selected(q: TxQuery, row: Fields) -> bool {
    &&& wants(row, "status"@, q.status)
    &&& wants(row, "type"@, q.tx_type)
    &&& q.from matches Some(from) ==> (text_field(row, "createdAt"@) matches Some(c) && text_le(
        from@,
        c,
    ))
    &&& q.to matches Some(to) ==> (text_field(row, "createdAt"@) matches Some(c) && text_le(
        c,
        to@,
    ))
    &&& wants(row, "terminalId"@, q.terminal_id)
}

/// The page asked for: the first one unless a later one is.
pub open spec fn page_of(q: TxQuery) -> int {
    match q.page {
        Some(p) => if p < 1 {
            1
        } else {
            p as int
        },
        None => 1,
    }
}

/// The page size asked for: 25 by default, between 1 and 200.
pub open spec fn page_size_of(q: TxQuery) -> int {
    match q.page_size {
        Some(s) => if s < 1 {
            1
        } else if s > 200 {
            200
        } else {
            s as int
        },
        None => 25,
    }
}

/// How many pages `total` transactions fill: at least one, and no more than
/// 64 bits hold.
pub open spec fn pages(total: int, size: int) -> int {
    if total == 0 {
        1
    } else if (total + size - 1) / size > i64::MAX {
        i64::MAX as int
    } else {
        (total + size - 1) / size
    }
}

/// The part of a sequence from `start` on, at most `count` long.
pub open spec fn page_slice<A>(s: Seq<A>, start: int, count: int) -> Seq<A> {
    if start >= s.len() {
        Seq::empty()
    } else if start + count > s.len() {
        s.skip(start)
    } else {
        s.subrange(start, start + count)
    }
}

/// Whether the position of the page asked for fits 64 bits.
pub open spec fn page_fits(q: TxQuery) -> bool {
    (page_of(q) - 1) * page_size_of(q) <= i64::MAX
}

fn page_number(q: &TxQuery) -> (r: i64)
    ensures
        r == page_of(*q),
{
    match q.page {
        Some(p) => if p < 1 {
            1
        } else {
            p
        },
        None => 1,
    }
}

fn page_length(q: &TxQuery) -> (r: i64)
    ensures
        r == page_size_of(*q),
{
    match q.page_size {
        Some(s) => if s < 1 {
            1
        } else if s > 200 {
            200
        } else {
            s
        },
        None => 25,
    }
}

/// Whether the position of the page asked for fits 64 bits.
pub fn is_page_fitting(q: &TxQuery) -> (r: bool)
    ensures
        r == page_fits(*q),
{
    let page: i64 = page_number(q);
    let size: i64 = page_length(q);
    proof {
        assert(0 <= (page - 1) * size <= 0x7fff_ffff_ffff_ffff * 200) by (nonlinear_arith)
            requires
                1 <= page <= 0x7fff_ffff_ffff_ffff,
                1 <= size <= 200,
        ;
    }
    let product: i128 = (page as i128 - 1) * (size as i128);
    product <= 0x7fff_ffff_ffff_ffff
}

fn is_wanted(row: &Object, key: &str, wanted: &Option<String>) -> (r: bool)
    ensures
        r == wants(row@, key@, *wanted),
{
    match wanted {
        Some(s) => is_text(row.text(key), s.as_str()),
        None => true,
    }
}

/// Whether a transaction is among those that a query asks for.
pub fn is_selected(q: &TxQuery, row: &Object) -> (r: bool)
    ensures
        r == selected(*q, row@),
{
    if !is_wanted(row, "status", &q.status) || !is_wanted(row, "type", &q.tx_type) || !is_wanted(
        row,
        "terminalId",
        &q.terminal_id,
    ) {
        return false;
    }
    let created = row.text("createdAt");
    let after = match &q.from {
        Some(from) => match created {
            Some(c) => is_text_le(from.as_str(), c),
            None => false,
        },
        None => true,
    };
    let before = match &q.to {
        Some(to) => match created {
            Some(c) => is_text_le(c, to.as_str()),
            None => false,
        },
        None => true,
    };
    after && before
}

impl Db {
    /// The transactions that a query asks for, in order.
    fn select(&self, q: &TxQuery) -> (r: Vec<usize>)
        ensures
            r@.len() == self@.transactions.filter(|row: Fields| selected(*q, row)).len(),
            forall|k: int|
                0 <= k < r@.len() ==> (#[trigger] r@[k]) < self.data.transactions@.len()
                    && self@.transactions[r@[k] as int] == self@.transactions.filter(
                    |row: Fields| selected(*q, row),
                )[k],
    {
        let ghost rows = self@.transactions;
        let ghost pred = |row: Fields| selected(*q, row);
        let mut r: Vec<usize> = Vec::new();
        let mut i: usize = 0;
        assert(rows.take(0).filter(pred) =~= Seq::<Fields>::empty()) by {
            reveal(Seq::filter);
        }
        while i < self.data.transactions.len()
            invariant
                rows == self@.transactions,
                pred == (|row: Fields| selected(*q, row)),
                i <= self.data.transactions@.len(),
                r@.len() == rows.take(i as int).filter(pred).len(),
                forall|k: int|
                    0 <= k < r@.len() ==> (#[trigger] r@[k]) < i && rows[r@[k] as int] == rows.take(
                        i as int,
                    ).filter(pred)[k],
            decreases self.data.transactions@.len() - i,
        {
            proof {
                reveal(Seq::filter);
                assert(rows.take(i + 1).drop_last() =~= rows.take(i as int));
                assert(rows.take(i + 1).last() == rows[i as int]);
            }
            if is_selected(q, &self.data.transactions[i]) {
                r.push(i);
            }
            i += 1;
        }
        assert(rows.take(rows.len() as int) =~= rows);
        r
    }

    /// The page of the transactions that a query asks for.
    pub fn query_transactions(&self, q: &TxQuery) -> (r: TxQueryResult)
        requires
            page_fits(*q),
        ensures
            ({
                let all = self@.transactions.filter(|row: Fields| selected(*q, row));
                &&& r.total == all.len()
                &&& r.page == page_of(*q)
                &&& r.page_size == page_size_of(*q)
                &&& r.page_count == pages(all.len() as int, page_size_of(*q))
                &&& rows_view(r.rows@) == page_slice(
                    all,
                    (page_of(*q) - 1) * page_size_of(*q),
                    page_size_of(*q),
                )
            }),
            forall|k: int|
                0 <= k < r.rows@.len() ==> {
                    let row = (#[trigger] r.rows@[k])@;
                    &&& self@.transactions.contains(row)
                    &&& q.status matches Some(s) ==> text_field(row, "status"@) == Some(s@)
                    &&& q.tx_type matches Some(t) ==> text_field(row, "type"@) == Some(t@)
                    &&& q.terminal_id matches Some(t) ==> text_field(row, "terminalId"@) == Some(t@)
                    &&& q.from matches Some(from) ==> (text_field(
                        row,
                        "createdAt"@,
                    ) matches Some(c) && text_le(from@, c))
                    &&& q.to matches Some(to) ==> (text_field(row, "createdAt"@) matches Some(c)
                        && text_le(c, to@))
                },
    {
        let ghost all = self@.transactions.filter(|row: Fields| selected(*q, row));
        let found = self.select(q);
        let page: i64 = page_number(q);
        let page_size: i64 = page_length(q);
        let total: usize = found.len();
        proof {
            assert(0 <= (page - 1) * page_size) by (nonlinear_arith)
                requires
                    1 <= page,
                    1 <= page_size,
            ;
        }
        let start: u64 = ((page - 1) * page_size) as u64;
        let mut rows: Vec<Object> = Vec::new();
        if start < total as u64 {
            let first: usize = start as usize;
            let left: usize = total - first;
            let end: usize = if left as u64 <= page_size as u64 {
                total
            } else {
                first + page_size as usize
            };
            let mut i: usize = first;
            while i < end
                invariant
                    first <= i <= end <= found@.len(),
                    found@.len() == all.len(),
                    forall|k: int|
                        0 <= k < found@.len() ==> (#[trigger] found@[k])
                            < self.data.transactions@.len() && self@.transactions[found@[k] as int]
                            == all[k],
                    rows@.len() == i - first,
                    forall|k: int| 0 <= k < i - first ==> (#[trigger] rows@[k])@ == all[first + k],
                decreases end - i,
            {
                let at: usize = found[i];
                assert(self@.transactions[at as int] == self.data.transactions@[at as int]@);
                rows.push(self.data.transactions[at].copy());
                i += 1;
            }
            assert(rows_view(rows@) =~= all.subrange(first as int, end as int));
            assert(end == all.len() ==> all.subrange(first as int, end as int) =~= all.skip(
                first as int,
            ));
        } else {
            assert(rows_view(rows@) =~= Seq::empty());
        }
        proof {
            let shown = page_listed(self@.transactions, *q);
            assert(rows_view(rows@) == shown);
            assert forall|k: int| 0 <= k < rows@.len() implies shown.contains(
                (#[trigger] rows@[k])@,
            ) by {
                assert(shown[k] == rows@[k]@);
            }
            assert forall|row: Fields| #[trigger] shown.contains(row) implies {
                &&& self@.transactions.contains(row)
                &&& q.status matches Some(s) ==> text_field(row, "status"@) == Some(s@)
                &&& q.tx_type matches Some(t) ==> text_field(row, "type"@) == Some(t@)
                &&& q.terminal_id matches Some(t) ==> text_field(row, "terminalId"@) == Some(t@)
                &&& q.from matches Some(from) ==> (text_field(row, "createdAt"@) matches Some(c)
                    && text_le(from@, c))
                &&& q.to matches Some(to) ==> (text_field(row, "createdAt"@) matches Some(c)
                    && text_le(c, to@))
            } by {
                listed_rows_meet_each_filter(self@.transactions, *q, row);
            }
        }
        let page_count: i64 = page_total(total, page_size);
        TxQueryResult { total, page, page_size, page_count, rows }
    }
}

fn page_total(total: usize, size: i64) -> (r: i64)
    requires
        1 <= size <= 200,
    ensures
        r == pages(total as int, size as int),
{
    if total == 0 {
        return 1;
    }
    let sum: u128 = total as u128 + size as u128 - 1;
    let n: u128 = sum / (size as u128);
    if n > 0x7fff_ffff_ffff_ffff {
        0x7fff_ffff_ffff_ffff
    } else {
        n as i64
    }
}

/// The JSON body of a page of transactions.
pub open spec fn page_fields(
    total: usize,
    page: i64,
    page_size: i64,
    page_count: i64,
    rows: Seq<Fields>,
) -> Fields {
    map![
        "total"@ => JsonView::Num(crate::json::unsigned_number(total as u64)),
        "page"@ => int_json(page),
        "pageSize"@ => int_json(page_size),
        "pageCount"@ => int_json(page_count),
        "rows"@ => object_array(rows)
    ]
}

impl TxQueryResult {
    /// The page as a JSON object.
    pub fn to_json(self) -> (j: Json)
        ensures
            j@ == JsonView::Obj(
                page_fields(
                    self.total,
                    self.page,
                    self.page_size,
                    self.page_count,
                    rows_view(self.rows@),
                ),
            ),
    {
        Json::Obj(
            Object::new().put("total", Json::of_unsigned(self.total as u64)).put(
                "page",
                Json::of_int(self.page),
            ).put("pageSize", Json::of_int(self.page_size)).put(
                "pageCount",
                Json::of_int(self.page_count),
            ).put("rows", Json::of_objects(self.rows)),
        )
    }
}

}
