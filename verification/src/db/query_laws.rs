//! What a list of payments holds.
use vstd::prelude::*;

use super::query::{
    page_fields, page_fits, page_of, page_size_of, page_slice, pages, selected, TxQuery,
};
use crate::json::{text_field, Fields, JsonView, Number};
use crate::order::text_le;

verus! {

/// The transactions that a query lists, in order, all pages together.
pub open spec fn listed(rows: Seq<Fields>, q: TxQuery) -> Seq<Fields> {
    rows.filter(|row: Fields| selected(q, row))
}

/// The page of them that the query asks for.
pub open spec fn page_listed(rows: Seq<Fields>, q: TxQuery) -> Seq<Fields> {
    page_slice(listed(rows, q), (page_of(q) - 1) * page_size_of(q), page_size_of(q))
}

/// Whatever else a query asks for, every transaction it lists is in the log and
/// meets each filter given: it has the status, the type and the terminal asked
/// for, and was created within the times asked for.
pub proof fn listed_rows_meet_each_filter(rows: Seq<Fields>, q: TxQuery, row: Fields)
    requires
        listed(rows, q).contains(row) || page_listed(rows, q).contains(row),
    ensures
        rows.contains(row),
        q.status matches Some(s) ==> text_field(row, "status"@) == Some(s@),
        q.tx_type matches Some(t) ==> text_field(row, "type"@) == Some(t@),
        q.terminal_id matches Some(t) ==> text_field(row, "terminalId"@) == Some(t@),
        q.from matches Some(from) ==> (text_field(row, "createdAt"@) matches Some(c) && text_le(
            from@,
            c,
        )),
        q.to matches Some(to) ==> (text_field(row, "createdAt"@) matches Some(c) && text_le(
            c,
            to@,
        )),
{
    let pred = |row: Fields| selected(q, row);
    let all = listed(rows, q);
    if page_listed(rows, q).contains(row) {
        let page = page_listed(rows, q);
        let k = choose|k: int| 0 <= k < page.len() && page[k] == row;
        assert((page_of(q) - 1) * page_size_of(q) >= 0) by (nonlinear_arith)
            requires
                page_of(q) >= 1,
                page_size_of(q) >= 1,
        ;
        assert(all[(page_of(q) - 1) * page_size_of(q) + k] == row);
    }
    let j = choose|j: int| 0 <= j < all.len() && all[j] == row;
    rows.lemma_filter_pred(pred, j);
    rows.lemma_filter_contains_rev(pred, row);
}

/// Every transaction of the log that meets each filter given is listed. A
/// filter that is not given leaves nothing out.
pub proof fn fitting_rows_are_listed(rows: Seq<Fields>, q: TxQuery, i: int)
    requires
        0 <= i < rows.len(),
        q.status matches Some(s) ==> text_field(rows[i], "status"@) == Some(s@),
        q.tx_type matches Some(t) ==> text_field(rows[i], "type"@) == Some(t@),
        q.terminal_id matches Some(t) ==> text_field(rows[i], "terminalId"@) == Some(t@),
        q.from matches Some(from) ==> (text_field(rows[i], "createdAt"@) matches Some(c) && text_le(
            from@,
            c,
        )),
        q.to matches Some(to) ==> (text_field(rows[i], "createdAt"@) matches Some(c) && text_le(
            c,
            to@,
        )),
    ensures
        listed(rows, q).contains(rows[i]),
{
    let pred = |row: Fields| selected(q, row);
    assert(pred(rows[i]));
    rows.lemma_filter_contains(pred, i);
}

/// A query without filters lists the whole log, in its order.
pub proof fn no_filter_lists_all(rows: Seq<Fields>, q: TxQuery)
    requires
        q.status is None,
        q.tx_type is None,
        q.from is None,
        q.to is None,
        q.terminal_id is None,
    ensures
        listed(rows, q) == rows,
    decreases rows.len(),
{
    reveal(Seq::filter);
    if rows.len() > 0 {
        no_filter_lists_all(rows.drop_last(), q);
        assert(rows.drop_last().push(rows.last()) =~= rows);
    } else {
        assert(listed(rows, q) =~= rows);
    }
}

/// Filters only narrow: a query with one more filter lists no transaction that
/// the query without it does not list.
pub proof fn filters_narrow(rows: Seq<Fields>, q: TxQuery, wider: TxQuery, row: Fields)
    requires
        wider.status is None || wider.status == q.status,
        wider.tx_type is None || wider.tx_type == q.tx_type,
        wider.from is None || wider.from == q.from,
        wider.to is None || wider.to == q.to,
        wider.terminal_id is None || wider.terminal_id == q.terminal_id,
        listed(rows, q).contains(row),
    ensures
        listed(rows, wider).contains(row),
{
    listed_rows_meet_each_filter(rows, q, row);
    let i = choose|i: int| 0 <= i < rows.len() && rows[i] == row;
    fitting_rows_are_listed(rows, wider, i);
}

/// Which page is given: the one asked for, the first where none or one below is
/// asked for; of 25 transactions unless another number from 1 to 200 is asked
/// for, and of the nearest such number otherwise.
pub proof fn page_asked_for(q: TxQuery)
    ensures
        q.page is None ==> page_of(q) == 1,
        q.page matches Some(p) ==> p >= 1 ==> page_of(q) == p,
        q.page matches Some(p) ==> p < 1 ==> page_of(q) == 1,
        q.page_size is None ==> page_size_of(q) == 25,
        q.page_size matches Some(s) ==> 1 <= s <= 200 ==> page_size_of(q) == s,
        q.page_size matches Some(s) ==> s < 1 ==> page_size_of(q) == 1,
        q.page_size matches Some(s) ==> s > 200 ==> page_size_of(q) == 200,
{
}

/// A page holds the transactions listed from its place on: as many as its size
/// where there are so many left, else all that are left.
pub proof fn page_holds_its_rows(rows: Seq<Fields>, q: TxQuery, k: int)
    requires
        page_fits(q),
    ensures
        ({
            let all = listed(rows, q);
            let page = page_listed(rows, q);
            let start = (page_of(q) - 1) * page_size_of(q);
            &&& start >= all.len() ==> page.len() == 0
            &&& start < all.len() && all.len() - start >= page_size_of(q) ==> page.len()
                == page_size_of(q)
            &&& start < all.len() && all.len() - start < page_size_of(q) ==> page.len() == all.len()
                - start
            &&& 0 <= k < page.len() ==> page[k] == all[start + k]
        }),
{
    assert((page_of(q) - 1) * page_size_of(q) >= 0) by (nonlinear_arith)
        requires
            page_of(q) >= 1,
            page_size_of(q) >= 1,
    ;
}

/// How many pages there are: one where nothing is listed, else just as many as
/// hold all.
pub proof fn pages_hold_all(total: int, size: int)
    requires
        size >= 1,
        0 <= total <= i64::MAX,
    ensures
        total == 0 ==> pages(total, size) == 1,
        total > 0 ==> (pages(total, size) - 1) * size < total <= pages(total, size) * size,
{
    if total > 0 {
        let n = (total + size - 1) / size;
        assert(n <= total && (n - 1) * size < total <= n * size) by (nonlinear_arith)
            requires
                n == (total + size - 1) / size,
                total >= 1,
                size >= 1,
        ;
    }
}

/// What the body of a page says: the number of all transactions listed, the
/// page, its size, the number of pages, and the transactions of the page.
pub proof fn page_body(total: usize, page: i64, page_size: i64, page_count: i64, rows: Seq<Fields>)
    requires
        total <= i64::MAX,
    ensures
        ({
            let body = page_fields(total, page, page_size, page_count, rows);
            &&& body["total"@] == JsonView::Num(Number::Int(total as i64))
            &&& body["page"@] == JsonView::Num(Number::Int(page))
            &&& body["pageSize"@] == JsonView::Num(Number::Int(page_size))
            &&& body["pageCount"@] == JsonView::Num(Number::Int(page_count))
            &&& body["rows"@] matches JsonView::Arr(items) && items.len() == rows.len()
                && forall|i: int|
                0 <= i < rows.len() ==> #[trigger] items[i] == JsonView::Obj(rows[i])
        }),
{
    reveal_strlit("total");
    reveal_strlit("page");
    reveal_strlit("pageSize");
    reveal_strlit("pageCount");
    reveal_strlit("rows");
    assert("total"@.len() == 5 && "page"@.len() == 4 && "pageSize"@.len() == 8);
    assert("pageCount"@.len() == 9 && "rows"@.len() == 4 && "rows"@[0] == 'r' && "page"@[0] == 'p');
}

}
