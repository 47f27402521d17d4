//! Terminals: what is known of each, and how request bodies change it.
use vstd::prelude::*;

use crate::json::{int_json, text_field, Fields, Json, JsonView, Object};
use crate::text::{is_text, same_text, trim, trimmed};

verus! {

/// A payment terminal.
#[derive(Debug)]
pub struct Terminal {
    pub id: String,
    pub name: String,
    pub model: String,
    /// `tcp` or `usb`.
    pub conn_type: String,
    pub ip: String,
    pub port: u16,
    pub serial_path: String,
    pub baud_rate: u32,
    pub created_at: String,
}

/// What a `Terminal` holds.
pub struct TerminalView {
    pub id: Seq<char>,
    pub name: Seq<char>,
    pub model: Seq<char>,
    pub conn_type: Seq<char>,
    pub ip: Seq<char>,
    pub port: u16,
    pub serial_path: Seq<char>,
    pub baud_rate: u32,
    pub created_at: Seq<char>,
}

impl Terminal {
    pub open spec fn view(&self) -> TerminalView {
        TerminalView {
            id: self.id@,
            name: self.name@,
            model: self.model@,
            conn_type: self.conn_type@,
            ip: self.ip@,
            port: self.port,
            serial_path: self.serial_path@,
            baud_rate: self.baud_rate,
            created_at: self.created_at@,
        }
    }

    /// The terminal as a JSON object.
    pub fn to_json(&self) -> (j: Json)
        ensures
            j@ == JsonView::Obj(terminal_fields(self@)),
    {
        Json::Obj(
            Object::new().put("id", Json::of_str(self.id.as_str())).put(
                "name",
                Json::of_str(self.name.as_str()),
            ).put("model", Json::of_str(self.model.as_str())).put(
                "connType",
                Json::of_str(self.conn_type.as_str()),
            ).put("ip", Json::of_str(self.ip.as_str())).put(
                "port",
                Json::of_int(self.port as i64),
            ).put("serialPath", Json::of_str(self.serial_path.as_str())).put(
                "baudRate",
                Json::of_int(self.baud_rate as i64),
            ).put("createdAt", Json::of_str(self.created_at.as_str())),
        )
    }
}

impl Clone for Terminal {
    fn clone(&self) -> (t: Terminal)
        ensures
            t@ == self@,
    {
        Terminal {
            id: self.id.clone(),
            name: self.name.clone(),
            model: self.model.clone(),
            conn_type: self.conn_type.clone(),
            ip: self.ip.clone(),
            port: self.port,
            serial_path: self.serial_path.clone(),
            baud_rate: self.baud_rate,
            created_at: self.created_at.clone(),
        }
    }
}

/// The JSON fields of a terminal.
pub open spec fn terminal_fields(t: TerminalView) -> Fields {
    map![
        "id"@ => JsonView::Str(t.id),
        "name"@ => JsonView::Str(t.name),
        "model"@ => JsonView::Str(t.model),
        "connType"@ => JsonView::Str(t.conn_type),
        "ip"@ => JsonView::Str(t.ip),
        "port"@ => int_json(t.port as i64),
        "serialPath"@ => JsonView::Str(t.serial_path),
        "baudRate"@ => int_json(t.baud_rate as i64),
        "createdAt"@ => JsonView::Str(t.created_at)
    ]
}

/// The terminals of a list.
pub open spec fn terminals_view(list: Seq<Terminal>) -> Seq<TerminalView> {
    Seq::new(list.len(), |i: int| list[i]@)
}

/// The JSON array of a list of terminals.
pub open spec fn terminals_array(list: Seq<TerminalView>) -> JsonView {
    JsonView::Arr(Seq::new(list.len(), |i: int| JsonView::Obj(terminal_fields(list[i]))))
}

/// What an optional terminal holds.
pub open spec fn opt_terminal(t: Option<Terminal>) -> Option<TerminalView> {
    match t {
        Some(x) => Some(x@),
        None => None,
    }
}

/// The position of the first terminal with an id, from `from` on, or the
/// number of terminals.
pub open spec fn terminal_index(list: Seq<TerminalView>, id: Seq<char>, from: int) -> int
    decreases list.len() - from,
{
    if from >= list.len() {
        list.len() as int
    } else if list[from].id == id {
        from
    } else {
        terminal_index(list, id, from + 1)
    }
}

/// The first terminal with an id.
pub open spec fn terminal_with_id(list: Seq<TerminalView>, id: Seq<char>) -> Option<TerminalView> {
    if terminal_index(list, id, 0) < list.len() {
        Some(list[terminal_index(list, id, 0)])
    } else {
        None
    }
}

/// The terminals without those of an id.
pub open spec fn terminals_without(list: Seq<TerminalView>, id: Seq<char>) -> Seq<TerminalView> {
    list.filter(|t: TerminalView| t.id != id)
}

/// What a request body's number field reads as: whether it is zero or less,
/// and its value cut to 16 and to 32 bits.
#[derive(Debug, Clone, Copy, PartialEq, Eq, Structural)]
pub struct NumberReading {
    pub non_positive: bool,
    pub as_u16: u16,
    pub as_u32: u32,
}

/// The number fields of a terminal body: none where a field is missing or does
/// not read as a number.
#[derive(Debug, Clone, Copy, PartialEq, Eq, Structural)]
pub struct TerminalNumbers {
    pub port: Option<NumberReading>,
    pub baud_rate: Option<NumberReading>,
}

// ---------------------------------------------------------------------------
// What bodies mean
// ---------------------------------------------------------------------------

/// The trimmed text of a field, or no characters.
pub open spec fn trimmed_field(body: Fields, key: Seq<char>) -> Seq<char> {
    match text_field(body, key) {
        Some(s) => trimmed(s),
        None => Seq::empty(),
    }
}

/// `usb` where the field says so, else `tcp`.
pub open spec fn conn_type_of(body: Fields) -> Seq<char> {
    if text_field(body, "connType"@) == Some("usb"@) {
        "usb"@
    } else {
        "tcp"@
    }
}

/// The port that a number reading gives, if it is not zero.
pub open spec fn port_or(n: Option<NumberReading>, default: u16) -> u16 {
    match n {
        Some(r) => if r.as_u16 != 0 {
            r.as_u16
        } else {
            default
        },
        None => default,
    }
}

/// The rate that a number reading gives, if it is not zero.
pub open spec fn baud_or(n: Option<NumberReading>, default: u32) -> u32 {
    match n {
        Some(r) => if r.as_u32 != 0 {
            r.as_u32
        } else {
            default
        },
        None => default,
    }
}

/// The terminal that a body describes, with defaults for what it leaves out.
pub open spec fn new_terminal(
    body: Fields,
    numbers: TerminalNumbers,
    id: Seq<char>,
    created_at: Seq<char>,
) -> TerminalView {
    TerminalView {
        id,
        name: if trimmed_field(body, "name"@).len() > 0 {
            trimmed_field(body, "name"@)
        } else {
            "Terminal"@
        },
        model: match text_field(body, "model"@) {
            Some(m) => m,
            None => "A920 Pro"@,
        },
        conn_type: conn_type_of(body),
        ip: trimmed_field(body, "ip"@),
        port: port_or(numbers.port, 10009),
        serial_path: trimmed_field(body, "serialPath"@),
        baud_rate: baud_or(numbers.baud_rate, 115_200),
        created_at,
    }
}

/// The trimmed text of a field, or what was there before.
pub open spec fn trimmed_or(body: Fields, key: Seq<char>, before: Seq<char>) -> Seq<char> {
    match text_field(body, key) {
        Some(s) => trimmed(s),
        None => before,
    }
}

/// A terminal with what a body says of it changed.
pub open spec fn patched(t: TerminalView, body: Fields, numbers: TerminalNumbers) -> TerminalView {
    TerminalView {
        name: trimmed_or(body, "name"@, t.name),
        model: match text_field(body, "model"@) {
            Some(m) => m,
            None => t.model,
        },
        conn_type: if body.contains_key("connType"@) {
            conn_type_of(body)
        } else {
            t.conn_type
        },
        ip: trimmed_or(body, "ip"@, t.ip),
        port: port_or(numbers.port, t.port),
        serial_path: trimmed_or(body, "serialPath"@, t.serial_path),
        baud_rate: baud_or(numbers.baud_rate, t.baud_rate),
        ..t
    }
}

fn trimmed_text(body: &Json, key: &str) -> (r: String)
    ensures
        r@ == trimmed_field(body@.fields(), key@),
{
    match body.text(key) {
        Some(s) => trim(s),
        None => String::new(),
    }
}

fn trimmed_text_or(body: &Json, key: &str, before: &String) -> (r: String)
    ensures
        r@ == trimmed_or(body@.fields(), key@, before@),
{
    match body.text(key) {
        Some(s) => trim(s),
        None => before.clone(),
    }
}

fn conn_type_text(body: &Json) -> (r: String)
    ensures
        r@ == conn_type_of(body@.fields()),
{
    if is_text(body.text("connType"), "usb") {
        "usb".to_owned()
    } else {
        "tcp".to_owned()
    }
}

fn port_reading(n: &Option<NumberReading>, default: u16) -> (r: u16)
    ensures
        r == port_or(*n, default),
{
    match n {
        Some(x) => if x.as_u16 != 0 {
            x.as_u16
        } else {
            default
        },
        None => default,
    }
}

fn baud_reading(n: &Option<NumberReading>, default: u32) -> (r: u32)
    ensures
        r == baud_or(*n, default),
{
    match n {
        Some(x) => if x.as_u32 != 0 {
            x.as_u32
        } else {
            default
        },
        None => default,
    }
}

/// Makes the terminal that a body describes.
pub fn terminal_from(
    body: &Json,
    numbers: &TerminalNumbers,
    id: String,
    created_at: String,
) -> (t: Terminal)
    ensures
        t@ == new_terminal(body@.fields(), *numbers, id@, created_at@),
{
    let mut name = trimmed_text(body, "name");
    if name.as_str().is_empty() {
        name = "Terminal".to_owned();
    }
    Terminal {
        id,
        name,
        model: match body.text("model") {
            Some(m) => m.to_owned(),
            None => "A920 Pro".to_owned(),
        },
        conn_type: conn_type_text(body),
        ip: trimmed_text(body, "ip"),
        port: port_reading(&numbers.port, 10009),
        serial_path: trimmed_text(body, "serialPath"),
        baud_rate: baud_reading(&numbers.baud_rate, 115_200),
        created_at,
    }
}

/// Makes a terminal with what a body says of it changed.
pub fn patch_terminal(t: &Terminal, body: &Json, numbers: &TerminalNumbers) -> (r: Terminal)
    ensures
        r@ == patched(t@, body@.fields(), *numbers),
{
    Terminal {
        id: t.id.clone(),
        name: trimmed_text_or(body, "name", &t.name),
        model: match body.text("model") {
            Some(m) => m.to_owned(),
            None => t.model.clone(),
        },
        conn_type: match body.get("connType") {
            Some(_) => conn_type_text(body),
            None => t.conn_type.clone(),
        },
        ip: trimmed_text_or(body, "ip", &t.ip),
        port: port_reading(&numbers.port, t.port),
        serial_path: trimmed_text_or(body, "serialPath", &t.serial_path),
        baud_rate: baud_reading(&numbers.baud_rate, t.baud_rate),
        created_at: t.created_at.clone(),
    }
}

// ---------------------------------------------------------------------------
// Lists
// ---------------------------------------------------------------------------

/// The position of the first terminal with an id, or the number of terminals.
pub fn find_terminal(list: &Vec<Terminal>, id: &str) -> (r: usize)
    ensures
        r == terminal_index(terminals_view(list@), id@, 0),
        r <= list@.len(),
{
    let mut i: usize = 0;
    while i < list.len()
        invariant
            i <= list@.len(),
            terminal_index(terminals_view(list@), id@, i as int) == terminal_index(
                terminals_view(list@),
                id@,
                0,
            ),
        decreases list@.len() - i,
    {
        assert(terminals_view(list@)[i as int] == list@[i as int]@);
        if same_text(list[i].id.as_str(), id) {
            return i;
        }
        i += 1;
    }
    i
}

/// Copies of the terminals of a list.
pub fn copy_terminals(list: &Vec<Terminal>) -> (r: Vec<Terminal>)
    ensures
        terminals_view(r@) == terminals_view(list@),
{
    let mut r: Vec<Terminal> = Vec::new();
    let mut i: usize = 0;
    while i < list.len()
        invariant
            i <= list@.len(),
            r@.len() == i,
            forall|k: int| 0 <= k < i ==> (#[trigger] r@[k])@ == list@[k]@,
        decreases list@.len() - i,
    {
        r.push(list[i].clone());
        i += 1;
    }
    assert(terminals_view(r@) =~= terminals_view(list@));
    r
}

/// The terminals without those of an id.
pub fn without_terminal(list: &Vec<Terminal>, id: &str) -> (r: Vec<Terminal>)
    ensures
        terminals_view(r@) == terminals_without(terminals_view(list@), id@),
{
    let ghost all = terminals_view(list@);
    let ghost pred = |t: TerminalView| t.id != id@;
    let mut r: Vec<Terminal> = Vec::new();
    let mut i: usize = 0;
    assert(terminals_view(r@) =~= all.take(0).filter(pred)) by {
        reveal(Seq::filter);
    }
    while i < list.len()
        invariant
            all == terminals_view(list@),
            pred == (|t: TerminalView| t.id != id@),
            i <= list@.len(),
            terminals_view(r@) == all.take(i as int).filter(pred),
        decreases list@.len() - i,
    {
        let ghost before = r@;
        proof {
            reveal(Seq::filter);
            assert(all.take(i + 1).drop_last() =~= all.take(i as int));
            assert(all.take(i + 1).last() == all[i as int]);
        }
        if !same_text(list[i].id.as_str(), id) {
            r.push(list[i].clone());
            assert(terminals_view(r@) =~= terminals_view(before).push(r@.last()@));
        }
        i += 1;
    }
    assert(all.take(all.len() as int) =~= all);
    r
}

/// Where no terminal has an id, leaving out those that have it changes nothing.
pub proof fn nothing_to_remove(list: Seq<TerminalView>, id: Seq<char>)
    ensures
        terminals_without(list, id).len() <= list.len(),
        terminals_without(list, id).len() == list.len() ==> terminals_without(list, id) == list,
    decreases list.len(),
{
    reveal(Seq::filter);
    if list.len() > 0 {
        nothing_to_remove(list.drop_last(), id);
        assert(list =~= list.drop_last().push(list.last()));
    } else {
        assert(terminals_without(list, id) =~= list);
    }
}

/// A list of terminals as a JSON array.
pub fn terminals_json(list: &Vec<Terminal>) -> (j: Json)
    ensures
        j@ == terminals_array(terminals_view(list@)),
{
    let mut items: Vec<Json> = Vec::new();
    let mut i: usize = 0;
    while i < list.len()
        invariant
            i <= list@.len(),
            items@.len() == i,
            forall|k: int|
                0 <= k < i ==> (#[trigger] items@[k])@ == JsonView::Obj(
                    terminal_fields(list@[k]@),
                ),
        decreases list@.len() - i,
    {
        items.push(list[i].to_json());
        i += 1;
    }
    proof {
        crate::json::lemma_array_items(items@);
        assert(crate::json::array_view(items@) =~= Seq::new(
            terminals_view(list@).len(),
            |i: int| JsonView::Obj(terminal_fields(terminals_view(list@)[i])),
        ));
    }
    Json::Arr(items)
}

}
