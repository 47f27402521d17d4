//! JSON documents as the bridge reads, stores and answers them.
//!
//! `Json` and `Object` are the executable documents, `JsonView` is what they
//! denote: an object is a map from key text to document.
use vstd::prelude::*;

use crate::text::{same_text, texts};

verus! {

/// A JSON number. `Int` holds every integer that fits `i64`, `Big` an unsigned
/// one above that, `Float` the bit pattern of any other number, which nothing
/// in this crate looks into.
#[derive(Debug, Clone, Copy, PartialEq, Eq, Structural)]
pub enum Number {
    Int(i64),
    Big(u64),
    Float(u64),
}

#[derive(Debug)]
pub enum Json {
    Null,
    Bool(bool),
    Num(Number),
    Str(String),
    Arr(Vec<Json>),
    Obj(Object),
}

/// A JSON object. Where a key occurs twice the later entry counts.
#[derive(Debug)]
pub struct Object {
    pub entries: Vec<(String, Json)>,
}

/// What a `Json` denotes.
pub enum JsonView {
    Null,
    Bool(bool),
    Num(Number),
    Str(Seq<char>),
    Arr(Seq<JsonView>),
    Obj(Map<Seq<char>, JsonView>),
}

/// What an `Object` denotes.
pub type Fields = Map<Seq<char>, JsonView>;

// ---------------------------------------------------------------------------
// Views
// ---------------------------------------------------------------------------

pub open spec fn array_view(items: Seq<Json>) -> Seq<JsonView>
    decreases items,
{
    if items.len() == 0 {
        Seq::empty()
    } else {
        array_view(items.drop_last()).push(items.last().view())
    }
}

pub open spec fn object_view(entries: Seq<(String, Json)>) -> Map<Seq<char>, JsonView>
    decreases entries,
{
    if entries.len() == 0 {
        Map::empty()
    } else {
        object_view(entries.drop_last()).insert(entries.last().0@, entries.last().1.view())
    }
}

impl JsonView {
    /// The text of a string document.
    pub open spec fn text(self) -> Option<Seq<char>> {
        match self {
            JsonView::Str(s) => Some(s),
            _ => None,
        }
    }

    /// The value of a boolean document.
    pub open spec fn flag(self) -> Option<bool> {
        match self {
            JsonView::Bool(b) => Some(b),
            _ => None,
        }
    }

    /// The value of an integer document that fits `i64`.
    pub open spec fn integer(self) -> Option<i64> {
        match self {
            JsonView::Num(Number::Int(n)) => Some(n),
            _ => None,
        }
    }

    /// The fields of an object document; other documents have none.
    pub open spec fn fields(self) -> Fields {
        match self {
            JsonView::Obj(m) => m,
            _ => Map::empty(),
        }
    }
}

/// A document that is a text, or null where there is none.
pub open spec fn text_or_null(t: Option<Seq<char>>) -> JsonView {
    match t {
        Some(s) => JsonView::Str(s),
        None => JsonView::Null,
    }
}

/// An integer document.
pub open spec fn int_json(n: i64) -> JsonView {
    JsonView::Num(Number::Int(n))
}

/// The number that an unsigned value is written as.
pub open spec fn unsigned_number(n: u64) -> Number {
    if n <= 0x7fff_ffff_ffff_ffff {
        Number::Int(n as i64)
    } else {
        Number::Big(n)
    }
}

/// The field `key` of an object, if it is there.
pub open spec fn field(m: Fields, key: Seq<char>) -> Option<JsonView> {
    if m.contains_key(key) {
        Some(m[key])
    } else {
        None
    }
}

/// The text in the field `key`, if it is there and is a string.
pub open spec fn text_field(m: Fields, key: Seq<char>) -> Option<Seq<char>> {
    if m.contains_key(key) {
        m[key].text()
    } else {
        None
    }
}

/// The boolean in the field `key`, if it is there and is one.
pub open spec fn flag_field(m: Fields, key: Seq<char>) -> Option<bool> {
    if m.contains_key(key) {
        m[key].flag()
    } else {
        None
    }
}

/// The integer in the field `key`, if it is there and fits `i64`.
pub open spec fn int_field(m: Fields, key: Seq<char>) -> Option<i64> {
    if m.contains_key(key) {
        m[key].integer()
    } else {
        None
    }
}

/// The objects of a list.
pub open spec fn rows_view(rows: Seq<Object>) -> Seq<Fields> {
    Seq::new(rows.len(), |i: int| rows[i]@)
}

/// An array of texts.
pub open spec fn text_array(items: Seq<Seq<char>>) -> JsonView {
    JsonView::Arr(Seq::new(items.len(), |i: int| JsonView::Str(items[i])))
}

/// An array of objects.
pub open spec fn object_array(rows: Seq<Fields>) -> JsonView {
    JsonView::Arr(Seq::new(rows.len(), |i: int| JsonView::Obj(rows[i])))
}

// ---------------------------------------------------------------------------
// Proofs about views
// ---------------------------------------------------------------------------

broadcast proof fn lemma_array_push(items: Seq<Json>, item: Json)
    ensures
        #[trigger] array_view(items.push(item)) == array_view(items).push(item.view()),
{
    assert(items.push(item).drop_last() =~= items);
}

broadcast proof fn lemma_object_push(entries: Seq<(String, Json)>, e: (String, Json))
    ensures
        #[trigger] object_view(entries.push(e)) == object_view(entries).insert(e.0@, e.1.view()),
{
    assert(entries.push(e).drop_last() =~= entries);
}

/// The view of an array is the list of the views of its items.
pub proof fn lemma_array_items(items: Seq<Json>)
    ensures
        array_view(items).len() == items.len(),
        forall|i: int|
            0 <= i < items.len() ==> #[trigger] array_view(items)[i] == items[i].view(),
    decreases items.len(),
{
    if items.len() > 0 {
        lemma_array_items(items.drop_last());
        assert forall|i: int| 0 <= i < items.len() implies #[trigger] array_view(items)[i]
            == items[i].view() by {
            if i < items.len() - 1 {
                assert(array_view(items.drop_last())[i] == items.drop_last()[i].view());
            }
        }
    }
}

/// A key that no entry from `at` on carries is looked up among the earlier ones.
proof fn lemma_object_prefix(entries: Seq<(String, Json)>, at: int, key: Seq<char>)
    requires
        0 <= at <= entries.len(),
        forall|i: int| at <= i < entries.len() ==> (#[trigger] entries[i]).0@ != key,
    ensures
        object_view(entries).contains_key(key) == object_view(entries.take(at)).contains_key(key),
        object_view(entries).contains_key(key) ==> object_view(entries)[key] == object_view(
            entries.take(at),
        )[key],
    decreases entries.len() - at,
{
    if at == entries.len() {
        assert(entries.take(at) =~= entries);
    } else {
        let shorter = entries.drop_last();
        lemma_object_prefix(shorter, at, key);
        assert(shorter.take(at) =~= entries.take(at));
        assert(entries.last().0@ != key);
    }
}

/// Overwriting the last entry of a key is an insertion into the map.
proof fn lemma_object_update(entries: Seq<(String, Json)>, at: int, e: (String, Json))
    requires
        0 <= at < entries.len(),
        entries[at].0@ == e.0@,
        forall|i: int| at < i < entries.len() ==> (#[trigger] entries[i]).0@ != e.0@,
    ensures
        object_view(entries.update(at, e)) == object_view(entries).insert(e.0@, e.1.view()),
    decreases entries.len(),
{
    let shorter = entries.drop_last();
    if at == entries.len() - 1 {
        assert(entries.update(at, e).drop_last() =~= shorter);
        assert(object_view(entries.update(at, e)) =~= object_view(entries).insert(
            e.0@,
            e.1.view(),
        ));
    } else {
        assert forall|i: int| at < i < shorter.len() implies (#[trigger] shorter[i]).0@ != e.0@ by {
            assert(entries[i].0@ != e.0@);
        }
        lemma_object_update(shorter, at, e);
        assert(entries.update(at, e).drop_last() =~= shorter.update(at, e));
        assert(entries.last().0@ != e.0@);
        assert(object_view(entries.update(at, e)) =~= object_view(entries).insert(
            e.0@,
            e.1.view(),
        ));
    }
}

// ---------------------------------------------------------------------------
// Documents
// ---------------------------------------------------------------------------

impl Json {
    pub open spec fn view(&self) -> JsonView
        decreases self,
    {
        match self {
            Json::Null => JsonView::Null,
            Json::Bool(b) => JsonView::Bool(*b),
            Json::Num(n) => JsonView::Num(*n),
            Json::Str(s) => JsonView::Str(s@),
            Json::Arr(v) => JsonView::Arr(array_view(v@)),
            Json::Obj(o) => JsonView::Obj(object_view(o.entries@)),
        }
    }

    /// A string document.
    pub fn of_str(s: &str) -> (j: Json)
        ensures
            j@ == JsonView::Str(s@),
    {
        Json::Str(s.to_owned())
    }

    /// An integer document.
    pub fn of_int(n: i64) -> (j: Json)
        ensures
            j@ == int_json(n),
    {
        Json::Num(Number::Int(n))
    }

    /// An unsigned integer document.
    pub fn of_unsigned(n: u64) -> (j: Json)
        ensures
            j@ == JsonView::Num(unsigned_number(n)),
    {
        if n <= 0x7fff_ffff_ffff_ffff {
            Json::Num(Number::Int(n as i64))
        } else {
            Json::Num(Number::Big(n))
        }
    }

    /// A string document, or null where there is no text.
    pub fn of_option(s: &Option<String>) -> (j: Json)
        ensures
            j@ == text_or_null(opt_text(*s)),
    {
        match s {
            Some(t) => Json::Str(t.clone()),
            None => Json::Null,
        }
    }

    /// An array of string documents.
    pub fn of_texts(items: &Vec<String>) -> (j: Json)
        ensures
            j@ == text_array(texts(items@)),
    {
        broadcast use lemma_array_push;

        let mut v: Vec<Json> = Vec::new();
        let mut i: usize = 0;
        while i < items.len()
            invariant
                i <= items@.len(),
                array_view(v@).len() == i,
                forall|k: int|
                    0 <= k < i ==> #[trigger] array_view(v@)[k] == JsonView::Str(items@[k]@),
            decreases items@.len() - i,
        {
            broadcast use lemma_array_push;

            v.push(Json::Str(items[i].clone()));
            i += 1;
        }
        assert(array_view(v@) =~= Seq::new(
            texts(items@).len(),
            |i: int| JsonView::Str(texts(items@)[i]),
        ));
        Json::Arr(v)
    }

    /// An array of object documents.
    pub fn of_objects(rows: Vec<Object>) -> (j: Json)
        ensures
            j@ == object_array(rows_view(rows@)),
    {
        broadcast use lemma_array_push;

        let mut v: Vec<Json> = Vec::new();
        let mut i: usize = 0;
        while i < rows.len()
            invariant
                i <= rows@.len(),
                array_view(v@).len() == i,
                forall|k: int|
                    0 <= k < i ==> #[trigger] array_view(v@)[k] == JsonView::Obj(rows@[k]@),
            decreases rows@.len() - i,
        {
            broadcast use lemma_array_push;

            v.push(Json::Obj(rows[i].copy()));
            i += 1;
        }
        assert(array_view(v@) =~= Seq::new(
            rows_view(rows@).len(),
            |i: int| JsonView::Obj(rows_view(rows@)[i]),
        ));
        Json::Arr(v)
    }

    /// The text of a string document.
    pub fn as_str(&self) -> (r: Option<&str>)
        ensures
            match r {
                Some(s) => self@.text() == Some(s@),
                None => self@.text() is None,
            },
    {
        match self {
            Json::Str(s) => Some(s.as_str()),
            _ => None,
        }
    }

    /// The value of a boolean document.
    pub fn as_bool(&self) -> (r: Option<bool>)
        ensures
            r == self@.flag(),
    {
        match self {
            Json::Bool(b) => Some(*b),
            _ => None,
        }
    }

    /// The value of an integer document that fits `i64`.
    pub fn as_i64(&self) -> (r: Option<i64>)
        ensures
            r == self@.integer(),
    {
        match self {
            Json::Num(Number::Int(n)) => Some(*n),
            _ => None,
        }
    }

    /// The field `key` of an object document.
    pub fn get(&self, key: &str) -> (r: Option<&Json>)
        ensures
            match r {
                Some(j) => field(self@.fields(), key@) == Some(j@),
                None => field(self@.fields(), key@) is None,
            },
    {
        match self {
            Json::Obj(o) => o.get(key),
            _ => None,
        }
    }

    /// The text in the field `key` of an object document.
    pub fn text(&self, key: &str) -> (r: Option<&str>)
        ensures
            opt_str(r) == text_field(self@.fields(), key@),
    {
        match self.get(key) {
            Some(j) => j.as_str(),
            None => None,
        }
    }

    /// A copy of the document.
    pub fn copy(&self) -> (j: Json)
        ensures
            j@ == self@,
        decreases self,
    {
        match self {
            Json::Null => Json::Null,
            Json::Bool(b) => Json::Bool(*b),
            Json::Num(n) => Json::Num(*n),
            Json::Str(s) => Json::Str(s.clone()),
            Json::Arr(items) => Json::Arr(copy_items(items)),
            Json::Obj(o) => Json::Obj(o.copy()),
        }
    }
}

fn copy_items(items: &Vec<Json>) -> (v: Vec<Json>)
    ensures
        array_view(v@) == array_view(items@),
    decreases items,
{
    let mut v: Vec<Json> = Vec::new();
    let mut i: usize = 0;
    assert(items@.take(0) =~= Seq::<Json>::empty());
    while i < items.len()
        invariant
            i <= items@.len(),
            array_view(v@) == array_view(items@.take(i as int)),
        decreases items@.len() - i,
    {
        broadcast use lemma_array_push;

        let item = items[i].copy();
        v.push(item);
        assert(items@.take(i + 1) =~= items@.take(i as int).push(items@[i as int]));
        i += 1;
    }
    assert(items@.take(items@.len() as int) =~= items@);
    v
}

/// The characters of an optional string.
pub open spec fn opt_text(s: Option<String>) -> Option<Seq<char>> {
    match s {
        Some(t) => Some(t@),
        None => None,
    }
}

/// The characters of an optional string slice.
pub open spec fn opt_str(s: Option<&str>) -> Option<Seq<char>> {
    match s {
        Some(t) => Some(t@),
        None => None,
    }
}

/// An optional string slice as an owned string.
pub fn own_text(s: Option<&str>) -> (r: Option<String>)
    ensures
        opt_text(r) == opt_str(s),
{
    match s {
        Some(t) => Some(t.to_owned()),
        None => None,
    }
}

/// A copy of an optional string.
pub fn copy_option(s: &Option<String>) -> (r: Option<String>)
    ensures
        opt_text(r) == opt_text(*s),
{
    match s {
        Some(t) => Some(t.clone()),
        None => None,
    }
}

// ---------------------------------------------------------------------------
// Objects
// ---------------------------------------------------------------------------

impl Object {
    pub open spec fn view(&self) -> Fields {
        object_view(self.entries@)
    }

    /// The object without fields.
    pub fn new() -> (o: Object)
        ensures
            o@ == Map::<Seq<char>, JsonView>::empty(),
    {
        Object { entries: Vec::new() }
    }

    /// The position of the last entry of `key`.
    fn find(&self, key: &str) -> (r: Option<usize>)
        ensures
            match r {
                Some(i) => i < self.entries@.len() && self.entries@[i as int].0@ == key@
                    && forall|k: int|
                    i < k < self.entries@.len() ==> (#[trigger] self.entries@[k]).0@ != key@,
                None => forall|k: int|
                    0 <= k < self.entries@.len() ==> (#[trigger] self.entries@[k]).0@ != key@,
            },
    {
        let mut i: usize = self.entries.len();
        while i > 0
            invariant
                i <= self.entries@.len(),
                forall|k: int|
                    i <= k < self.entries@.len() ==> (#[trigger] self.entries@[k]).0@ != key@,
            decreases i,
        {
            i -= 1;
            if same_text(self.entries[i].0.as_str(), key) {
                return Some(i);
            }
        }
        None
    }

    /// The field `key`.
    pub fn get(&self, key: &str) -> (r: Option<&Json>)
        ensures
            match r {
                Some(j) => field(self@, key@) == Some(j@),
                None => field(self@, key@) is None,
            },
    {
        match self.find(key) {
            Some(i) => {
                proof {
                    let at = i as int + 1;
                    lemma_object_prefix(self.entries@, at, key@);
                    assert(self.entries@.take(at).drop_last() =~= self.entries@.take(i as int));
                }
                Some(&self.entries[i].1)
            },
            None => {
                proof {
                    lemma_object_prefix(self.entries@, 0, key@);
                    assert(self.entries@.take(0) =~= Seq::<(String, Json)>::empty());
                }
                None
            },
        }
    }

    /// The text in the field `key`.
    pub fn text(&self, key: &str) -> (r: Option<&str>)
        ensures
            opt_str(r) == text_field(self@, key@),
    {
        match self.get(key) {
            Some(j) => j.as_str(),
            None => None,
        }
    }

    /// The text in the field `key`, or no characters.
    pub fn text_or_empty(&self, key: &str) -> (r: String)
        ensures
            r@ == or_empty(text_field(self@, key@)),
    {
        match self.text(key) {
            Some(s) => s.to_owned(),
            None => String::new(),
        }
    }

    /// The boolean in the field `key`.
    pub fn flag(&self, key: &str) -> (r: Option<bool>)
        ensures
            r == flag_field(self@, key@),
    {
        match self.get(key) {
            Some(j) => j.as_bool(),
            None => None,
        }
    }

    /// The integer in the field `key`.
    pub fn integer(&self, key: &str) -> (r: Option<i64>)
        ensures
            r == int_field(self@, key@),
    {
        match self.get(key) {
            Some(j) => j.as_i64(),
            None => None,
        }
    }

    /// Sets the field `key`.
    pub fn set(&mut self, key: &str, value: Json)
        ensures
            final(self)@ == old(self)@.insert(key@, value@),
    {
        let ghost before = self.entries@;
        match self.find(key) {
            Some(i) => {
                let k = key.to_owned();
                proof {
                    lemma_object_update(before, i as int, (k, value));
                }
                self.entries[i] = (k, value);
            },
            None => {
                let k = key.to_owned();
                self.entries.push((k, value));
                proof {
                    lemma_object_push(before, (k, value));
                }
            },
        }
    }

    /// The object with the field `key` set.
    pub fn put(self, key: &str, value: Json) -> (o: Object)
        ensures
            o@ == self@.insert(key@, value@),
    {
        let mut o = self;
        o.set(key, value);
        o
    }

    /// Sets every field of `extra`, over those of the same name.
    pub fn merge(&mut self, extra: &Object)
        ensures
            final(self)@ == old(self)@.union_prefer_right(extra@),
    {
        let ghost before = self@;
        let mut i: usize = 0;
        assert(extra.entries@.take(0) =~= Seq::<(String, Json)>::empty());
        assert(self@ =~= before.union_prefer_right(object_view(extra.entries@.take(0))));
        while i < extra.entries.len()
            invariant
                i <= extra.entries@.len(),
                self@ == before.union_prefer_right(object_view(extra.entries@.take(i as int))),
            decreases extra.entries@.len() - i,
        {
            let e = &extra.entries[i];
            let value = e.1.copy();
            self.set(e.0.as_str(), value);
            proof {
                let done = extra.entries@.take(i as int);
                lemma_object_push(done, extra.entries@[i as int]);
                assert(extra.entries@.take(i + 1) =~= done.push(extra.entries@[i as int]));
                assert(self@ =~= before.union_prefer_right(
                    object_view(extra.entries@.take(i + 1)),
                ));
            }
            i += 1;
        }
        assert(extra.entries@.take(extra.entries@.len() as int) =~= extra.entries@);
    }

    /// A copy of the object.
    pub fn copy(&self) -> (o: Object)
        ensures
            o@ == self@,
        decreases self,
    {
        let mut v: Vec<(String, Json)> = Vec::new();
        let mut i: usize = 0;
        assert(self.entries@.take(0) =~= Seq::<(String, Json)>::empty());
        while i < self.entries.len()
            invariant
                i <= self.entries@.len(),
                object_view(v@) == object_view(self.entries@.take(i as int)),
            decreases self.entries@.len() - i,
        {
            broadcast use lemma_object_push;

            let key = self.entries[i].0.clone();
            let value = self.entries[i].1.copy();
            v.push((key, value));
            assert(self.entries@.take(i + 1) =~= self.entries@.take(i as int).push(
                self.entries@[i as int],
            ));
            i += 1;
        }
        assert(self.entries@.take(self.entries@.len() as int) =~= self.entries@);
        Object { entries: v }
    }
}

/// A text, or no characters where there is none.
pub open spec fn or_empty(t: Option<Seq<char>>) -> Seq<char> {
    match t {
        Some(s) => s,
        None => Seq::empty(),
    }
}

/// Copies of the objects of a list.
pub fn copy_rows(rows: &Vec<Object>) -> (r: Vec<Object>)
    ensures
        rows_view(r@) == rows_view(rows@),
{
    let mut r: Vec<Object> = Vec::new();
    let mut i: usize = 0;
    while i < rows.len()
        invariant
            i <= rows@.len(),
            r@.len() == i,
            forall|k: int| 0 <= k < i ==> (#[trigger] r@[k])@ == rows@[k]@,
        decreases rows@.len() - i,
    {
        r.push(rows[i].copy());
        i += 1;
    }
    assert(rows_view(r@) =~= rows_view(rows@));
    r
}

impl Clone for Json {
    fn clone(&self) -> (j: Json)
        ensures
            j@ == self@,
    {
        self.copy()
    }
}

impl Clone for Object {
    fn clone(&self) -> (o: Object)
        ensures
            o@ == self@,
    {
        self.copy()
    }
}

// ---------------------------------------------------------------------------
// Laws
// ---------------------------------------------------------------------------

/// A field is read as what was written: a text as a text, a flag as a flag, a
/// number as a number, and none of them as another. A field that is not there
/// reads as nothing, and other fields do not matter.
pub proof fn fields_read_as_written(
    m: Fields,
    key: Seq<char>,
    other: Seq<char>,
    s: Seq<char>,
    b: bool,
    n: i64,
    v: JsonView,
)
    ensures
        text_field(m.insert(key, JsonView::Str(s)), key) == Some(s),
        flag_field(m.insert(key, JsonView::Bool(b)), key) == Some(b),
        int_field(m.insert(key, JsonView::Num(Number::Int(n))), key) == Some(n),
        field(m.insert(key, v), key) == Some(v),
        !(v is Str) ==> text_field(m.insert(key, v), key) is None,
        !(v is Bool) ==> flag_field(m.insert(key, v), key) is None,
        !(v is Num) ==> int_field(m.insert(key, v), key) is None,
        !m.contains_key(key) ==> field(m, key) is None && text_field(m, key) is None && flag_field(
            m,
            key,
        ) is None && int_field(m, key) is None,
        other != key ==> field(m.insert(other, v), key) == field(m, key),
        other != key ==> text_field(m.insert(other, v), key) == text_field(m, key),
        other != key ==> flag_field(m.insert(other, v), key) == flag_field(m, key),
        other != key ==> int_field(m.insert(other, v), key) == int_field(m, key),
{
}

/// Only an object has fields; a text that is there is that text, one that is not
/// is null; a number that fits 64 bits with a sign is written as such.
pub proof fn documents_hold(m: Fields, v: JsonView, s: Seq<char>, n: u64)
    ensures
        JsonView::Obj(m).fields() == m,
        !(v is Obj) ==> v.fields() == Map::<Seq<char>, JsonView>::empty(),
        text_or_null(Some(s)) == JsonView::Str(s),
        text_or_null(None) == JsonView::Null,
        n <= i64::MAX ==> unsigned_number(n) == Number::Int(n as i64),
        n > i64::MAX ==> unsigned_number(n) == Number::Big(n),
        or_empty(Some(s)) == s,
        or_empty(None).len() == 0,
{
}

/// Where a key occurs twice in an object the later entry counts.
pub proof fn later_entry_counts(entries: Seq<(String, Json)>, e: (String, Json), key: Seq<char>)
    ensures
        object_view(entries.push(e)).contains_key(e.0@),
        object_view(entries.push(e))[e.0@] == e.1@,
        key != e.0@ ==> field(object_view(entries.push(e)), key) == field(
            object_view(entries),
            key,
        ),
        object_view(Seq::<(String, Json)>::empty()) == Map::<Seq<char>, JsonView>::empty(),
{
    lemma_object_push(entries, e);
}

}
