//! Printing through a printer the operating system already knows about.
//!
//! The bytes are handed to the spooler as RAW, so they travel through the
//! printer's own vendor driver without being interpreted.
use vstd::prelude::*;
use vstd::string::StringExecFns;

use crate::numeral::{decimal, decimal_u64};
use crate::protocol::{pax_error, PaxError, PaxErrorView};
use crate::text::{
    chars_of, decode_lossy, same_text, split_on, split_text, texts, trim, trimmed, lossy_text,
};

verus! {

/// A printer installed on this computer.
#[derive(Debug)]
pub struct SystemPrinter {
    pub name: String,
    pub is_default: bool,
}

/// What a `SystemPrinter` holds.
pub struct SystemPrinterView {
    pub name: Seq<char>,
    pub is_default: bool,
}

impl SystemPrinter {
    pub open spec fn view(&self) -> SystemPrinterView {
        SystemPrinterView { name: self.name@, is_default: self.is_default }
    }
}

/// The printers of a list.
pub open spec fn printers_view(list: Seq<SystemPrinter>) -> Seq<SystemPrinterView> {
    Seq::new(list.len(), |i: int| list[i]@)
}

/// The non-empty names, each marked where it is the default one.
pub open spec fn printers_named(
    names: Seq<Seq<char>>,
    default_name: Seq<char>,
) -> Seq<SystemPrinterView>
    decreases names.len(),
{
    if names.len() == 0 {
        Seq::empty()
    } else {
        let head = printers_named(names.drop_last(), default_name);
        if names.last().len() == 0 {
            head
        } else {
            head.push(
                SystemPrinterView { name: names.last(), is_default: names.last() == default_name },
            )
        }
    }
}

/// Lists the printers of the given names, leaving out empty names.
pub fn named_printers(names: &Vec<String>, default_name: &str) -> (r: Vec<SystemPrinter>)
    ensures
        printers_view(r@) == printers_named(texts(names@), default_name@),
{
    let mut r: Vec<SystemPrinter> = Vec::new();
    let mut i: usize = 0;
    assert(texts(names@).take(0) =~= Seq::<Seq<char>>::empty());
    assert(printers_view(r@) =~= Seq::empty());
    while i < names.len()
        invariant
            i <= names@.len(),
            printers_view(r@) == printers_named(texts(names@).take(i as int), default_name@),
        decreases names@.len() - i,
    {
        let ghost before = r@;
        proof {
            let t = texts(names@).take(i + 1);
            assert(t.drop_last() =~= texts(names@).take(i as int));
            assert(t.last() == names@[i as int]@);
        }
        if !names[i].as_str().is_empty() {
            let is_default = same_text(names[i].as_str(), default_name);
            r.push(SystemPrinter { name: names[i].clone(), is_default });
            assert(printers_view(r@) =~= printers_view(before).push(r@.last()@));
        }
        i += 1;
    }
    assert(texts(names@).take(names@.len() as int) =~= texts(names@));
    r
}

/// The trimmed lines of a text.
pub open spec fn trimmed_lines(text: Seq<char>) -> Seq<Seq<char>> {
    let lines = split_on(text, '\n');
    Seq::new(lines.len(), |i: int| trimmed(lines[i]))
}

/// Reads a list of destinations, one on each line, from its text.
pub fn destinations_of(text: &str, default_name: &str) -> (r: Vec<SystemPrinter>)
    ensures
        printers_view(r@) == printers_named(trimmed_lines(text@), default_name@),
{
    let lines = split_text(text, '\n');
    let mut names: Vec<String> = Vec::new();
    let mut i: usize = 0;
    while i < lines.len()
        invariant
            i <= lines@.len(),
            names@.len() == i,
            forall|k: int| 0 <= k < i ==> (#[trigger] names@[k])@ == trimmed(lines@[k]@),
        decreases lines@.len() - i,
    {
        names.push(trim(lines[i].as_str()));
        i += 1;
    }
    proof {
        assert(texts(names@) =~= trimmed_lines(text@)) by {
            assert(texts(lines@) == split_on(text@, '\n'));
            assert forall|k: int| 0 <= k < names@.len() implies texts(names@)[k]
                == trimmed_lines(text@)[k] by {
                assert(texts(lines@)[k] == lines@[k]@);
            }
        }
    }
    named_printers(&names, default_name)
}

/// Reads what the CUPS listing command printed. A listing that failed has no
/// printers.
pub fn list_printers(success: bool, stdout: &[u8], default_name: &str) -> (r: Vec<SystemPrinter>)
    ensures
        printers_view(r@) == (if success {
            printers_named(trimmed_lines(lossy_text(stdout@)), default_name@)
        } else {
            Seq::empty()
        }),
{
    if !success {
        let r: Vec<SystemPrinter> = Vec::new();
        assert(printers_view(r@) =~= Seq::empty());
        return r;
    }
    let text = decode_lossy(stdout);
    destinations_of(text.as_str(), default_name)
}

/// The default destination named after the first colon of a text, if any.
pub open spec fn default_named(text: Seq<char>) -> Seq<char> {
    let parts = split_on(text, ':');
    if parts.len() >= 2 {
        trimmed(parts[1])
    } else {
        Seq::empty()
    }
}

/// Reads the default destination from the text of a CUPS answer.
pub fn default_of(text: &str) -> (r: String)
    ensures
        r@ == default_named(text@),
{
    let parts = split_text(text, ':');
    if parts.len() >= 2 {
        assert(texts(parts@)[1] == parts@[1]@);
        trim(parts[1].as_str())
    } else {
        String::new()
    }
}

/// Reads the default destination from what the CUPS command printed.
pub fn default_printer_name(stdout: &[u8]) -> (r: String)
    ensures
        r@ == default_named(lossy_text(stdout@)),
{
    let text = decode_lossy(stdout);
    default_of(text.as_str())
}

/// Whether a list names a printer.
pub open spec fn names_printer(list: Seq<SystemPrinterView>, name: Seq<char>) -> bool {
    exists|i: int| 0 <= i < list.len() && (#[trigger] list[i]).name == name
}

/// Whether a printer is among those that could be listed.
pub fn printer_exists(list: &Result<Vec<SystemPrinter>, PaxError>, name: &str) -> (r: bool)
    ensures
        r == (list matches Ok(v) && names_printer(printers_view(v@), name@)),
{
    match list {
        Err(_) => false,
        Ok(v) => {
            let mut i: usize = 0;
            while i < v.len()
                invariant
                    *list == Ok::<Vec<SystemPrinter>, PaxError>(*v),
                    i <= v@.len(),
                    forall|k: int| 0 <= k < i ==> (#[trigger] printers_view(v@)[k]).name != name@,
                decreases v@.len() - i,
            {
                if same_text(v[i].name.as_str(), name) {
                    assert(printers_view(v@)[i as int].name == name@);
                    return true;
                }
                i += 1;
            }
            false
        },
    }
}

/// The error of a printer name that this computer does not have.
pub open spec fn unknown_printer(name: Seq<char>) -> PaxErrorView {
    pax_error(
        "PRINTER_NOT_FOUND"@,
        "No printer named \""@ + name
            + "\" on this computer. Check the name in the operating system's printer settings — it must match exactly."@,
    )
}

/// The error of a printer name that this computer does not have.
pub fn not_found(name: &str) -> (e: PaxError)
    ensures
        e@ == unknown_printer(name@),
{
    PaxError::new(
        "PRINTER_NOT_FOUND",
        "No printer named \"".to_owned().concat(name).concat(
            "\" on this computer. Check the name in the operating system's printer settings — it must match exactly.",
        ),
    )
}

/// The error of a printing command that cannot be run.
pub fn cups_missing(tool: &str, text: &str) -> (e: PaxError)
    ensures
        e@ == pax_error(
            "PRINTER_UNAVAILABLE"@,
            "Could not run `"@ + tool@
                + "` — the printing system is not available on this computer: "@ + text@,
        ),
{
    PaxError::new(
        "PRINTER_UNAVAILABLE",
        "Could not run `".to_owned().concat(tool).concat(
            "` — the printing system is not available on this computer: ",
        ).concat(text),
    )
}

/// The error of a print command that failed, by what it printed and whether
/// the printer exists.
pub open spec fn print_failure(
    name: Seq<char>,
    stderr: Seq<char>,
    exists_here: bool,
) -> PaxErrorView {
    if !exists_here {
        unknown_printer(name)
    } else if trimmed(stderr).len() == 0 {
        pax_error("PRINTER_WRITE_FAILED"@, "Printing to \""@ + name + "\" failed."@)
    } else {
        pax_error("PRINTER_WRITE_FAILED"@, trimmed(stderr))
    }
}

/// Explains a failed print command from the text of its error output.
pub fn print_failure_of(name: &str, stderr: &str, exists_here: bool) -> (e: PaxError)
    ensures
        e@ == print_failure(name@, stderr@, exists_here),
{
    let text = trim(stderr);
    if !exists_here {
        return not_found(name);
    }
    if text.as_str().is_empty() {
        PaxError::new(
            "PRINTER_WRITE_FAILED",
            "Printing to \"".to_owned().concat(name).concat("\" failed."),
        )
    } else {
        PaxError::new("PRINTER_WRITE_FAILED", text)
    }
}

/// Explains a failed print command from its error output and the printers that
/// exist.
pub fn explain_print_failure(
    name: &str,
    stderr: &[u8],
    list: &Result<Vec<SystemPrinter>, PaxError>,
) -> (e: PaxError)
    ensures
        e@ == print_failure(
            name@,
            lossy_text(stderr@),
            list matches Ok(v) && names_printer(printers_view(v@), name@),
        ),
{
    let text = decode_lossy(stderr);
    let exists_here = printer_exists(list, name);
    print_failure_of(name, text.as_str(), exists_here)
}

// ---------------------------------------------------------------------------
// Steps that can fail
// ---------------------------------------------------------------------------

/// The steps of listing and printing that the system can refuse.
#[derive(Debug, Clone, Copy, PartialEq, Eq, Structural)]
pub enum SpoolStep {
    /// The listing did not run to its end.
    ListTask,
    /// The printing did not run to its end.
    PrintTask,
    /// The print command takes no input.
    NoInput,
    /// The print command did not take the receipt.
    Feed,
    /// The print command did not end.
    Finish,
    /// Windows did not list its printers.
    WindowsList,
    /// Windows did not take the job.
    StartDocument,
    /// Windows did not start the page.
    StartPage,
    /// Windows did not take the receipt.
    WritePage,
    /// Windows did not end the page.
    EndPage,
    /// Windows did not end the job.
    EndDocument,
}

/// The error of a step, for a printer, with what the system said.
pub open spec fn step_error(step: SpoolStep, name: Seq<char>, text: Seq<char>) -> PaxErrorView {
    match step {
        SpoolStep::ListTask => pax_error("PRINTER_UNAVAILABLE"@, "Could not list printers: "@ + text),
        SpoolStep::PrintTask => pax_error("PRINTER_WRITE_FAILED"@, "Print task failed: "@ + text),
        SpoolStep::NoInput => pax_error("PRINTER_WRITE_FAILED"@, "Could not write to the print job."@),
        SpoolStep::Feed => pax_error("PRINTER_WRITE_FAILED"@, "Failed sending the receipt: "@ + text),
        SpoolStep::Finish => pax_error("PRINTER_WRITE_FAILED"@, "The print job did not finish: "@ + text),
        SpoolStep::WindowsList => pax_error("PRINTER_UNAVAILABLE"@, "Windows could not list printers: "@ + text),
        SpoolStep::StartDocument => pax_error("PRINTER_WRITE_FAILED"@, "Windows refused the print job for \""@ + name + "\". The printer may be offline or paused."@),
        SpoolStep::StartPage => pax_error("PRINTER_WRITE_FAILED"@, "Could not start the page: "@ + text),
        SpoolStep::WritePage => pax_error("PRINTER_WRITE_FAILED"@, "Could not send the receipt: "@ + text),
        SpoolStep::EndPage => pax_error("PRINTER_WRITE_FAILED"@, "Could not end the page: "@ + text),
        SpoolStep::EndDocument => pax_error("PRINTER_WRITE_FAILED"@, "Could not finish the job: "@ + text),
    }
}

/// Explains a step that failed.
pub fn spool_error(step: SpoolStep, name: &str, text: &str) -> (e: PaxError)
    ensures
        e@ == step_error(step, name@, text@),
{
    match step {
        SpoolStep::ListTask => PaxError::new("PRINTER_UNAVAILABLE", "Could not list printers: ".to_owned().concat(text)),
        SpoolStep::PrintTask => PaxError::new("PRINTER_WRITE_FAILED", "Print task failed: ".to_owned().concat(text)),
        SpoolStep::NoInput => PaxError::new("PRINTER_WRITE_FAILED", "Could not write to the print job.".to_owned()),
        SpoolStep::Feed => PaxError::new("PRINTER_WRITE_FAILED", "Failed sending the receipt: ".to_owned().concat(text)),
        SpoolStep::Finish => PaxError::new("PRINTER_WRITE_FAILED", "The print job did not finish: ".to_owned().concat(text)),
        SpoolStep::WindowsList => PaxError::new("PRINTER_UNAVAILABLE", "Windows could not list printers: ".to_owned().concat(text)),
        SpoolStep::StartDocument => PaxError::new("PRINTER_WRITE_FAILED", "Windows refused the print job for \"".to_owned().concat(name).concat(
                "\". The printer may be offline or paused.",
            )),
        SpoolStep::StartPage => PaxError::new("PRINTER_WRITE_FAILED", "Could not start the page: ".to_owned().concat(text)),
        SpoolStep::WritePage => PaxError::new("PRINTER_WRITE_FAILED", "Could not send the receipt: ".to_owned().concat(text)),
        SpoolStep::EndPage => PaxError::new("PRINTER_WRITE_FAILED", "Could not end the page: ".to_owned().concat(text)),
        SpoolStep::EndDocument => PaxError::new("PRINTER_WRITE_FAILED", "Could not finish the job: ".to_owned().concat(text)),
    }
}

// ---------------------------------------------------------------------------
// Windows spooler
// ---------------------------------------------------------------------------

/// The UTF-16 code units of a character.
pub open spec fn utf16_units(c: char) -> Seq<u16> {
    if (c as u32) < 0x10000 {
        seq![(c as u32) as u16]
    } else {
        seq![
            (0xd800 + (c as u32 - 0x10000) / 0x400) as u16,
            (0xdc00 + (c as u32 - 0x10000) % 0x400) as u16,
        ]
    }
}

/// The UTF-16 code units of a text.
pub open spec fn utf16(s: Seq<char>) -> Seq<u16>
    decreases s.len(),
{
    if s.len() == 0 {
        Seq::empty()
    } else {
        utf16(s.drop_last()) + utf16_units(s.last())
    }
}

/// A text as NUL-terminated UTF-16, which Windows wants for every string.
pub fn wide(value: &str) -> (r: Vec<u16>)
    ensures
        r@ == utf16(value@).push(0u16),
{
    let v = chars_of(value);
    let mut r: Vec<u16> = Vec::new();
    let mut i: usize = 0;
    while i < v.len()
        invariant
            v@ == value@,
            i <= v@.len(),
            r@ == utf16(value@.take(i as int)),
        decreases v@.len() - i,
    {
        let ghost before = r@;
        assert(value@.take(i + 1).drop_last() =~= value@.take(i as int));
        let c: char = v[i];
        let u: u32 = c as u32;
        proof {
            vstd::utf8::char_is_scalar(c);
        }
        if u < 0x10000 {
            r.push(u as u16);
        } else {
            r.push((0xd800 + (u - 0x10000) / 0x400) as u16);
            r.push((0xdc00 + (u - 0x10000) % 0x400) as u16);
        }
        assert(r@ =~= before + utf16_units(v@[i as int]));
        i += 1;
    }
    assert(value@.take(value@.len() as int) =~= value@);
    r.push(0u16);
    r
}

/// Checks that the spooler took the whole receipt.
pub fn check_spooled(written: u32, len: usize) -> (r: Result<(), PaxError>)
    ensures
        r is Ok <==> written == len,
        r matches Err(e) ==> e@ == pax_error(
            "PRINTER_WRITE_FAILED"@,
            "Only "@ + decimal(written as nat) + " of "@ + decimal(len as nat)
                + " bytes reached the printer."@,
        ),
{
    if written as usize != len {
        return Err(
            PaxError::new(
                "PRINTER_WRITE_FAILED",
                "Only ".to_owned().concat(decimal_u64(written as u64).as_str()).concat(
                    " of ",
                ).concat(decimal_u64(len as u64).as_str()).concat(" bytes reached the printer."),
            ),
        );
    }
    Ok(())
}

// ---------------------------------------------------------------------------
// Laws
// ---------------------------------------------------------------------------

/// Every printer listed has a name that was given, is not empty, and is marked
/// exactly where it is the default one; and every name given that is not empty is
/// listed.
pub proof fn printers_are_listed(names: Seq<Seq<char>>, default_name: Seq<char>)
    ensures
        forall|i: int|
            0 <= i < printers_named(names, default_name).len() ==> {
                let p = #[trigger] printers_named(names, default_name)[i];
                p.name.len() > 0 && names.contains(p.name) && p.is_default == (p.name
                    == default_name)
            },
        forall|k: int|
            0 <= k < names.len() && (#[trigger] names[k]).len() > 0 ==> names_printer(
                printers_named(names, default_name),
                names[k],
            ),
    decreases names.len(),
{
    let all = printers_named(names, default_name);
    if names.len() > 0 {
        let shorter = names.drop_last();
        let head = printers_named(shorter, default_name);
        printers_are_listed(shorter, default_name);
        assert(names.last() == names[names.len() - 1]);
        assert forall|i: int| 0 <= i < all.len() implies {
            let p = #[trigger] all[i];
            p.name.len() > 0 && names.contains(p.name) && p.is_default == (p.name == default_name)
        } by {
            if i < head.len() {
                assert(all[i] == head[i]);
                let k = choose|k: int| 0 <= k < shorter.len() && shorter[k] == head[i].name;
                assert(names[k] == all[i].name);
            }
        }
        assert forall|k: int| 0 <= k < names.len() && (#[trigger] names[k]).len() > 0 implies
            names_printer(all, names[k]) by {
            if k < shorter.len() {
                assert(shorter[k] == names[k]);
                assert(names_printer(head, names[k]));
                let i = choose|i: int| 0 <= i < head.len() && (#[trigger] head[i]).name == names[k];
                assert(all[i].name == names[k]);
            } else {
                assert(all[all.len() - 1].name == names[k]);
            }
        }
    }
}

/// A listing has one name on each line, without the whitespace around it.
pub proof fn lines_are_names(lines: Seq<Seq<char>>, k: int)
    requires
        0 <= k < lines.len(),
        forall|i: int| 0 <= i < lines.len() ==> !(#[trigger] lines[i]).contains('\n'),
    ensures
        trimmed_lines(crate::text::join_with(lines, '\n')).len() == lines.len(),
        trimmed_lines(crate::text::join_with(lines, '\n'))[k] == trimmed(lines[k]),
{
    crate::text::split_undoes_join(lines, '\n');
}

/// The default printer is what stands after the first colon, up to a second one,
/// without the whitespace around it; there is none without a colon.
pub proof fn default_is_after_the_colon(a: Seq<char>, b: Seq<char>)
    requires
        !a.contains(':'),
        !b.contains(':'),
    ensures
        default_named(a + seq![':'] + b) == trimmed(b),
        default_named(a).len() == 0,
{
    let parts = seq![a, b];
    crate::text::join_puts_between(seq![a], b, ':', b);
    assert(seq![a].push(b) =~= parts);
    crate::text::split_undoes_join(parts, ':');
    crate::text::join_puts_between(seq![a], a, ':', a);
    crate::text::split_undoes_join(seq![a], ':');
}

/// What a failed print is reported as: a printer that is not there as such, else
/// the words of the print command, or that it failed where it said nothing.
pub proof fn print_failures(name: Seq<char>, stderr: Seq<char>)
    ensures
        print_failure(name, stderr, false).code == "PRINTER_NOT_FOUND"@,
        print_failure(name, stderr, true).code == "PRINTER_WRITE_FAILED"@,
        trimmed(stderr).len() > 0 ==> print_failure(name, stderr, true).message == trimmed(stderr),
        trimmed(stderr).len() == 0 ==> print_failure(name, stderr, true).message
            == "Printing to \""@ + name + "\" failed."@,
        unknown_printer(name).code == "PRINTER_NOT_FOUND"@,
{
}

/// Failures to list are PRINTER_UNAVAILABLE, failures to print are
/// PRINTER_WRITE_FAILED.
pub proof fn spool_failures(step: SpoolStep, name: Seq<char>, text: Seq<char>)
    ensures
        step is ListTask || step is WindowsList ==> step_error(step, name, text).code
            == "PRINTER_UNAVAILABLE"@,
        !(step is ListTask || step is WindowsList) ==> step_error(step, name, text).code
            == "PRINTER_WRITE_FAILED"@,
{
}

/// The UTF-16 units of a character: the character itself up to 0xffff, above it a
/// high and a low surrogate that give it back.
pub proof fn utf16_gives_back(c: char, s: Seq<char>)
    ensures
        (c as u32) < 0x10000 ==> utf16_units(c).len() == 1 && utf16_units(c)[0] == c as u32,
        (c as u32) >= 0x10000 ==> utf16_units(c).len() == 2 && 0xd800 <= utf16_units(c)[0] < 0xdc00
            && 0xdc00 <= utf16_units(c)[1] < 0xe000 && (utf16_units(c)[0] - 0xd800) * 0x400 + (
        utf16_units(c)[1] - 0xdc00) + 0x10000 == c as u32,
        utf16(s.push(c)) == utf16(s) + utf16_units(c),
        utf16(Seq::empty()).len() == 0,
{
    assert(s.push(c).drop_last() =~= s);
    let u = c as u32;
    if u >= 0x10000 {
        assert(u <= 0x10ffff);
        assert(((u - 0x10000) / 0x400) * 0x400 + (u - 0x10000) % 0x400 == u - 0x10000
            && 0 <= (u - 0x10000) / 0x400 < 0x400) by (nonlinear_arith)
            requires
                0x10000 <= u <= 0x10ffff,
        ;
    }
}

}
