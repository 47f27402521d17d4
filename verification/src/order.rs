//! The order of texts, and sorting by it.
use vstd::prelude::*;
use vstd::utf8::encode_utf8;

use crate::text::texts;

verus! {

/// Lexicographic order of byte sequences.
pub open spec fn bytes_le(a: Seq<u8>, b: Seq<u8>) -> bool
    decreases a.len(),
{
    if a.len() == 0 {
        true
    } else if b.len() == 0 {
        false
    } else if a[0] != b[0] {
        a[0] < b[0]
    } else {
        bytes_le(a.drop_first(), b.drop_first())
    }
}

/// The order of texts: that of their UTF-8 bytes.
pub open spec fn text_le(a: Seq<char>, b: Seq<char>) -> bool {
    bytes_le(encode_utf8(a), encode_utf8(b))
}

/// Whether a text comes before another or equals it.
pub fn is_text_le(a: &str, b: &str) -> (r: bool)
    ensures
        r == text_le(a@, b@),
{
    let x = a.as_bytes();
    let y = b.as_bytes();
    let mut i: usize = 0;
    assert(x@.skip(0) =~= x@);
    assert(y@.skip(0) =~= y@);
    while i < x.len()
        invariant
            i <= x@.len(),
            i <= y@.len(),
            x@ == encode_utf8(a@),
            y@ == encode_utf8(b@),
            bytes_le(x@.skip(i as int), y@.skip(i as int)) == text_le(a@, b@),
        decreases x@.len() - i,
    {
        if i == y.len() {
            return false;
        }
        if x[i] != y[i] {
            return x[i] < y[i];
        }
        assert(x@.skip(i as int).drop_first() =~= x@.skip(i + 1));
        assert(y@.skip(i as int).drop_first() =~= y@.skip(i + 1));
        i += 1;
    }
    true
}

proof fn lemma_le_total(a: Seq<u8>, b: Seq<u8>)
    ensures
        bytes_le(a, b) || bytes_le(b, a),
    decreases a.len(),
{
    if a.len() > 0 && b.len() > 0 && a[0] == b[0] {
        lemma_le_total(a.drop_first(), b.drop_first());
    }
}

proof fn lemma_le_transitive(a: Seq<u8>, b: Seq<u8>, c: Seq<u8>)
    requires
        bytes_le(a, b),
        bytes_le(b, c),
    ensures
        bytes_le(a, c),
    decreases a.len(),
{
    if a.len() > 0 && b.len() > 0 && c.len() > 0 && a[0] == b[0] && b[0] == c[0] {
        lemma_le_transitive(a.drop_first(), b.drop_first(), c.drop_first());
    }
}

/// Bytes that come before each other are the same.
pub proof fn lemma_bytes_antisymmetric(a: Seq<u8>, b: Seq<u8>)
    requires
        bytes_le(a, b),
        bytes_le(b, a),
    ensures
        a == b,
    decreases a.len(),
{
    if a.len() > 0 && b.len() > 0 {
        lemma_bytes_antisymmetric(a.drop_first(), b.drop_first());
        assert(a =~= seq![a[0]] + a.drop_first());
        assert(b =~= seq![b[0]] + b.drop_first());
    } else {
        assert(a =~= b);
    }
}

/// Any two texts can be ordered.
pub proof fn text_order_is_total(a: Seq<char>, b: Seq<char>)
    ensures
        text_le(a, b) || text_le(b, a),
{
    lemma_le_total(encode_utf8(a), encode_utf8(b));
}

/// The order of texts is transitive.
pub proof fn text_order_is_transitive(a: Seq<char>, b: Seq<char>, c: Seq<char>)
    requires
        text_le(a, b),
        text_le(b, c),
    ensures
        text_le(a, c),
{
    lemma_le_transitive(encode_utf8(a), encode_utf8(b), encode_utf8(c));
}

/// Whether `order` lists every position of `keys` once, greatest key first and
/// equal keys in their original order.
pub open spec fn descending_order(keys: Seq<Seq<char>>, order: Seq<usize>) -> bool {
    &&& order.len() == keys.len()
    &&& order.no_duplicates()
    &&& forall|k: int| 0 <= k < order.len() ==> (#[trigger] order[k]) < keys.len()
    &&& forall|i: int, j: int|
        0 <= i < j < order.len() ==> descending_pair(
            keys,
            #[trigger] order[i],
            #[trigger] order[j],
        )
}

/// Whether position `p` may stand before position `q`.
pub open spec fn descending_pair(keys: Seq<Seq<char>>, p: usize, q: usize) -> bool {
    &&& text_le(keys[q as int], keys[p as int])
    &&& text_le(keys[p as int], keys[q as int]) ==> p < q
}

/// The positions of `keys`, greatest key first, equal keys in their original
/// order.
pub fn sort_descending(keys: &Vec<String>) -> (order: Vec<usize>)
    ensures
        descending_order(texts(keys@), order@),
{
    let mut order: Vec<usize> = Vec::new();
    let mut n: usize = 0;
    let ghost k = texts(keys@);
    while n < keys.len()
        invariant
            n <= keys@.len(),
            k == texts(keys@),
            descending_order(k.take(n as int), order@),
        decreases keys@.len() - n,
    {
        let ghost before = order@;
        let mut p: usize = order.len();
        while p > 0 && !is_text_le(keys[n].as_str(), keys[order[p - 1]].as_str())
            invariant
                n < keys@.len(),
                k == texts(keys@),
                order@ == before,
                descending_order(k.take(n as int), before),
                p <= before.len(),
                forall|q: int| p <= q < before.len() ==> !text_le(k[n as int], k[#[trigger] before[q] as int]),
            decreases p,
        {
            p -= 1;
        }
        order.insert(p, n);
        proof {
            lemma_insert(k, n, before, p as int);
        }
        n += 1;
    }
    assert(k.take(k.len() as int) =~= k);
    order
}

/// Inserting the next position keeps the order descending.
proof fn lemma_insert(k: Seq<Seq<char>>, n: usize, before: Seq<usize>, p: int)
    requires
        n < k.len(),
        descending_order(k.take(n as int), before),
        0 <= p <= before.len(),
        p > 0 ==> text_le(k[n as int], k[before[p - 1] as int]),
        forall|q: int| p <= q < before.len() ==> !text_le(k[n as int], k[#[trigger] before[q] as int]),
    ensures
        descending_order(k.take(n + 1), before.insert(p, n)),
{
    let old_keys = k.take(n as int);
    let keys = k.take(n + 1);
    let after = before.insert(p, n);
    assert forall|i: int| 0 <= i < after.len() implies (#[trigger] after[i]) < keys.len() by {
        if i < p {
            assert(after[i] == before[i]);
        } else if i > p {
            assert(after[i] == before[i - 1]);
        }
    }
    assert forall|i: int, j: int| 0 <= i < j < after.len() implies after[i] != after[j]
        && descending_pair(keys, #[trigger] after[i], #[trigger] after[j]) by {
        let bi = if i < p { i } else { i - 1 };
        let bj = if j < p { j } else { j - 1 };
        if i != p && j != p {
            assert(after[i] == before[bi] && after[j] == before[bj]);
            assert(descending_pair(old_keys, before[bi], before[bj]));
            assert(before[bi] != before[bj]);
        } else if j == p {
            assert(after[i] == before[i]);
            assert(before[i] < old_keys.len());
            if i < p - 1 {
                assert(descending_pair(old_keys, before[i], before[p - 1]));
                text_order_is_transitive(
                    k[n as int],
                    k[before[p - 1] as int],
                    k[before[i] as int],
                );
            }
        } else {
            assert(after[j] == before[j - 1]);
            assert(before[j - 1] < old_keys.len());
            text_order_is_total(k[n as int], k[before[j - 1] as int]);
        }
    }
    assert(after.no_duplicates());
}

/// The order that `descending_order` describes is the only one.
pub proof fn descending_order_is_unique(keys: Seq<Seq<char>>, a: Seq<usize>, b: Seq<usize>)
    requires
        descending_order(keys, a),
        descending_order(keys, b),
    ensures
        a == b,
{
    if a != b {
        assert(exists|i: int| 0 <= i < a.len() && a[i] != b[i]) by {
            if forall|i: int| 0 <= i < a.len() ==> a[i] == b[i] {
                assert(a =~= b);
            }
        }
        let n = a.len() as int;
        let i = lemma_first_difference(a, b, 0);
        lemma_covers(keys.len(), b, a[i] as int);
        lemma_covers(keys.len(), a, b[i] as int);
        let j = choose|j: int| 0 <= j < n && b[j] == a[i];
        let l = choose|l: int| 0 <= l < n && a[l] == b[i];
        if j < i {
            assert(a[j] == b[j]);
        }
        if l < i {
            assert(b[l] == a[l]);
        }
        assert(descending_pair(keys, a[i], a[l]));
        assert(descending_pair(keys, b[i], b[j]));
    }
}

proof fn lemma_first_difference(a: Seq<usize>, b: Seq<usize>, from: int) -> (i: int)
    requires
        a.len() == b.len(),
        0 <= from <= a.len(),
        forall|k: int| 0 <= k < from ==> a[k] == b[k],
        exists|k: int| 0 <= k < a.len() && a[k] != b[k],
    ensures
        0 <= i < a.len(),
        a[i] != b[i],
        forall|k: int| 0 <= k < i ==> a[k] == b[k],
    decreases a.len() - from,
{
    if from < a.len() && a[from] == b[from] {
        lemma_first_difference(a, b, from + 1)
    } else {
        from
    }
}

/// Distinct positions below `n`, `n` of them, are all the positions below `n`.
pub proof fn lemma_covers(n: nat, s: Seq<usize>, x: int)
    requires
        s.len() == n,
        s.no_duplicates(),
        forall|k: int| 0 <= k < s.len() ==> (#[trigger] s[k]) < n,
        0 <= x < n,
    ensures
        exists|k: int| 0 <= k < n && s[k] == x,
{
    if forall|k: int| 0 <= k < n ==> s[k] != x {
        let m = s.map_values(|v: usize| v as int);
        assert(m.no_duplicates()) by {
            assert forall|i: int, j: int| 0 <= i < m.len() && 0 <= j < m.len() && i != j implies m[i]
                != m[j] by {
                assert(s[i] != s[j]);
            }
        }
        let all = vstd::set_lib::set_int_range(0, n as int);
        vstd::set_lib::lemma_int_range(0, n as int);
        m.unique_seq_to_set();
        let rest = all.remove(x);
        assert(m.to_set().subset_of(rest)) by {
            assert forall|v: int| m.to_set().contains(v) implies rest.contains(v) by {
                let k = choose|k: int| 0 <= k < m.len() && m[k] == v;
                assert(s[k] < n);
                assert(s[k] != x);
            }
        }
        vstd::set_lib::lemma_len_subset(m.to_set(), rest);
    }
}

/// Texts are ordered by their first different byte; where one runs out first, it
/// comes first.
pub proof fn first_difference_decides(common: Seq<u8>, x: u8, y: u8, a: Seq<u8>, b: Seq<u8>)
    ensures
        bytes_le(common, common + a),
        a.len() > 0 ==> !bytes_le(common + a, common),
        x < y ==> bytes_le(common + seq![x] + a, common + seq![y] + b) && !bytes_le(
            common + seq![y] + b,
            common + seq![x] + a,
        ),
    decreases common.len(),
{
    if common.len() > 0 {
        let rest = common.drop_first();
        first_difference_decides(rest, x, y, a, b);
        assert((common + a).drop_first() =~= rest + a);
        assert((common + seq![x] + a).drop_first() =~= rest + seq![x] + a);
        assert((common + seq![y] + b).drop_first() =~= rest + seq![y] + b);
        assert((common + a)[0] == common[0]);
        assert((common + seq![x] + a)[0] == common[0]);
        assert((common + seq![y] + b)[0] == common[0]);
    } else {
        assert((common + seq![x] + a)[0] == x);
        assert((common + seq![y] + b)[0] == y);
    }
}

/// So texts are ordered by the first different byte of their UTF-8 forms.
pub proof fn texts_are_ordered_by_bytes(
    a: Seq<char>,
    b: Seq<char>,
    common: Seq<u8>,
    x: u8,
    y: u8,
    p: Seq<u8>,
    q: Seq<u8>,
)
    requires
        encode_utf8(a) == common + seq![x] + p,
        encode_utf8(b) == common + seq![y] + q,
        x < y,
    ensures
        text_le(a, b),
        !text_le(b, a),
        text_le(a, a),
{
    first_difference_decides(common, x, y, p, q);
    first_difference_decides(encode_utf8(a), x, y, Seq::empty(), q);
    assert(encode_utf8(a) + Seq::<u8>::empty() =~= encode_utf8(a));
}

}
