//! What a terminal body must hold.
use vstd::prelude::*;

use crate::db::terminal::NumberReading;
use crate::db::TerminalNumbers;
use crate::json::{text_field, Fields, Json};
use crate::text::{is_text, lemma_texts_push, same_text, texts, trim, trimmed};

verus! {

/// The models that a terminal can be of.
pub const MODEL_A920_PRO: &'static str = "A920 Pro";

/// The other one.
pub const MODEL_A35: &'static str = "A35";

/// Whether a field is missing, no text, or blank.
pub open spec fn blank(body: Fields, key: Seq<char>) -> bool {
    match text_field(body, key) {
        Some(s) => trimmed(s).len() == 0,
        None => true,
    }
}

/// One text where a condition holds, none otherwise.
pub open spec fn if_so(condition: bool, message: Seq<char>) -> Seq<Seq<char>> {
    if condition {
        seq![message]
    } else {
        Seq::empty()
    }
}

/// What is wrong with the name. A partial body may leave it out.
pub open spec fn name_errors(body: Fields, partial: bool) -> Seq<Seq<char>> {
    if_so((!partial || body.contains_key("name"@)) && blank(body, "name"@), "name is required"@)
}

/// What is wrong with the connection type.
pub open spec fn conn_type_errors(body: Fields) -> Seq<Seq<char>> {
    if_so(
        text_field(body, "connType"@) matches Some(ct) && ct != "tcp"@ && ct != "usb"@,
        "connType must be 'tcp' or 'usb'"@,
    )
}

/// The connection type that the rest is held to, none where a partial body
/// leaves it out.
pub open spec fn effective_type(body: Fields, partial: bool) -> Option<Seq<char>> {
    match text_field(body, "connType"@) {
        Some(ct) => Some(ct),
        None => if partial {
            None
        } else {
            Some("tcp"@)
        },
    }
}

/// Whether an address field is to be looked at: always in a full body, and in a
/// partial one where it is there or the connection type is.
pub open spec fn address_due(body: Fields, partial: bool, key: Seq<char>) -> bool {
    !partial || body.contains_key(key) || text_field(body, "connType"@) is Some
}

/// Whether a number field is there and is no positive number.
pub open spec fn bad_number(body: Fields, key: Seq<char>, reading: Option<NumberReading>) -> bool {
    body.contains_key(key) && (match reading {
        Some(n) => n.non_positive,
        None => true,
    })
}

/// What is wrong with where the terminal is reached.
pub open spec fn address_errors(
    body: Fields,
    partial: bool,
    numbers: TerminalNumbers,
) -> Seq<Seq<char>> {
    let kind = effective_type(body, partial);
    if kind == Some("usb"@) {
        if_so(
            address_due(body, partial, "serialPath"@) && blank(body, "serialPath"@),
            "serialPath is required for USB terminals"@,
        ) + if_so(
            bad_number(body, "baudRate"@, numbers.baud_rate),
            "baudRate must be a positive number"@,
        )
    } else if kind == Some("tcp"@) {
        if_so(
            address_due(body, partial, "ip"@) && blank(body, "ip"@),
            "ip is required for LAN (TCP) terminals"@,
        ) + if_so(
            bad_number(body, "port"@, numbers.port),
            "port must be a positive number"@,
        )
    } else {
        Seq::empty()
    }
}

/// What is wrong with the model.
pub open spec fn model_errors(body: Fields) -> Seq<Seq<char>> {
    if_so(
        text_field(body, "model"@) matches Some(m) && m != "A920 Pro"@ && m != "A35"@,
        "model must be one of: A920 Pro, A35"@,
    )
}

/// All that is wrong with a terminal body.
pub open spec fn terminal_errors(
    body: Fields,
    partial: bool,
    numbers: TerminalNumbers,
) -> Seq<Seq<char>> {
    name_errors(body, partial) + conn_type_errors(body) + address_errors(body, partial, numbers)
        + model_errors(body)
}

fn is_blank(body: &Json, key: &str) -> (r: bool)
    ensures
        r == blank(body@.fields(), key@),
{
    match body.text(key) {
        Some(s) => trim(s).as_str().is_empty(),
        None => true,
    }
}

fn has_key(body: &Json, key: &str) -> (r: bool)
    ensures
        r == body@.fields().contains_key(key@),
{
    match body.get(key) {
        Some(_) => true,
        None => false,
    }
}

fn is_bad_number(body: &Json, key: &str, reading: &Option<NumberReading>) -> (r: bool)
    ensures
        r == bad_number(body@.fields(), key@, *reading),
{
    has_key(body, key) && match reading {
        Some(n) => n.non_positive,
        None => true,
    }
}

fn push_if(errors: &mut Vec<String>, condition: bool, message: &str)
    ensures
        texts(final(errors)@) == texts(old(errors)@) + if_so(condition, message@),
{
    broadcast use lemma_texts_push;

    let ghost before = texts(errors@);
    if condition {
        errors.push(message.to_owned());
        assert(texts(errors@) =~= before + seq![message@]);
    } else {
        assert(before + Seq::<Seq<char>>::empty() =~= before);
    }
}

/// Lists all that is wrong with a terminal body. A partial one may leave fields
/// out.
pub fn validate_terminal(body: &Json, partial: bool, numbers: &TerminalNumbers) -> (errors: Vec<
    String,
>)
    ensures
        texts(errors@) == terminal_errors(body@.fields(), partial, *numbers),
{
    let ghost fields = body@.fields();
    let mut errors: Vec<String> = Vec::new();
    assert(texts(errors@) =~= Seq::<Seq<char>>::empty());
    let name_due = !partial || has_key(body, "name");
    push_if(&mut errors, name_due && is_blank(body, "name"), "name is required");
    assert(texts(errors@) =~= name_errors(fields, partial));

    let conn_type = body.text("connType");
    let strange = match conn_type {
        Some(ct) => !same_text(ct, "tcp") && !same_text(ct, "usb"),
        None => false,
    };
    push_if(&mut errors, strange, "connType must be 'tcp' or 'usb'");
    assert(texts(errors@) =~= name_errors(fields, partial) + conn_type_errors(fields));
    let ghost so_far = texts(errors@);

    let given = match conn_type {
        Some(_) => true,
        None => false,
    };
    let usb = is_text(conn_type, "usb");
    let tcp = is_text(conn_type, "tcp") || (!given && !partial);
    proof {
        reveal_strlit("usb");
        reveal_strlit("tcp");
        assert("usb"@[0] != "tcp"@[0]);
    }
    if usb {
        let due = !partial || has_key(body, "serialPath") || given;
        push_if(
            &mut errors,
            due && is_blank(body, "serialPath"),
            "serialPath is required for USB terminals",
        );
        push_if(
            &mut errors,
            is_bad_number(body, "baudRate", &numbers.baud_rate),
            "baudRate must be a positive number",
        );
    } else if tcp {
        let due = !partial || has_key(body, "ip") || given;
        push_if(
            &mut errors,
            due && is_blank(body, "ip"),
            "ip is required for LAN (TCP) terminals",
        );
        push_if(
            &mut errors,
            is_bad_number(body, "port", &numbers.port),
            "port must be a positive number",
        );
    }
    assert(texts(errors@) =~= so_far + address_errors(fields, partial, *numbers));

    let unknown_model = match body.text("model") {
        Some(m) => !same_text(m, MODEL_A920_PRO) && !same_text(m, MODEL_A35),
        None => false,
    };
    push_if(&mut errors, unknown_model, "model must be one of: A920 Pro, A35");
    assert(texts(errors@) =~= terminal_errors(fields, partial, *numbers));
    errors
}

}
