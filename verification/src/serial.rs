//! USB / serial link to a terminal: port descriptions and error classes.
//!
//! The wire protocol is the same as over TCP, only the pipe changes.
use vstd::prelude::*;
use vstd::string::StringExecFns;

use crate::json::{opt_text, or_empty, Fields, Json, JsonView, Object};
use crate::numeral::{hex_pad4, numeral, padded};
use crate::protocol::{pax_error, PaxError, PaxErrorView};
use crate::text::{contains_text, has_part, lowercase, to_lowercase};

verus! {

/// The rate used where a terminal has none configured.
pub const DEFAULT_BAUD: u32 = 115_200;

/// The rate that a port is opened with.
pub fn effective_baud(baud_rate: u32) -> (r: u32)
    ensures
        r == (if baud_rate == 0 {
            DEFAULT_BAUD
        } else {
            baud_rate
        }),
{
    if baud_rate == 0 {
        DEFAULT_BAUD
    } else {
        baud_rate
    }
}

/// A serial port of this computer.
#[derive(Debug)]
pub struct SerialPortInfo {
    pub path: String,
    pub manufacturer: String,
    pub vendor_id: String,
    pub product_id: String,
    pub serial_number: String,
}

/// What a `SerialPortInfo` holds.
pub struct SerialPortView {
    pub path: Seq<char>,
    pub manufacturer: Seq<char>,
    pub vendor_id: Seq<char>,
    pub product_id: Seq<char>,
    pub serial_number: Seq<char>,
}

impl SerialPortInfo {
    pub open spec fn view(&self) -> SerialPortView {
        SerialPortView {
            path: self.path@,
            manufacturer: self.manufacturer@,
            vendor_id: self.vendor_id@,
            product_id: self.product_id@,
            serial_number: self.serial_number@,
        }
    }

    /// The port as a JSON object.
    pub fn to_json(&self) -> (j: Json)
        ensures
            j@ == JsonView::Obj(serial_port_fields(self@)),
    {
        Json::Obj(
            Object::new().put("path", Json::of_str(self.path.as_str())).put(
                "manufacturer",
                Json::of_str(self.manufacturer.as_str()),
            ).put("vendorId", Json::of_str(self.vendor_id.as_str())).put(
                "productId",
                Json::of_str(self.product_id.as_str()),
            ).put("serialNumber", Json::of_str(self.serial_number.as_str())),
        )
    }
}

/// The JSON fields of a serial port.
pub open spec fn serial_port_fields(v: SerialPortView) -> Fields {
    map![
        "path"@ => JsonView::Str(v.path),
        "manufacturer"@ => JsonView::Str(v.manufacturer),
        "vendorId"@ => JsonView::Str(v.vendor_id),
        "productId"@ => JsonView::Str(v.product_id),
        "serialNumber"@ => JsonView::Str(v.serial_number)
    ]
}

/// The ports of a list.
pub open spec fn serial_ports_view(ports: Seq<SerialPortInfo>) -> Seq<SerialPortView> {
    Seq::new(ports.len(), |i: int| ports[i]@)
}

/// The JSON array of a list of ports.
pub open spec fn serial_ports_array(ports: Seq<SerialPortView>) -> JsonView {
    JsonView::Arr(Seq::new(ports.len(), |i: int| JsonView::Obj(serial_port_fields(ports[i]))))
}

/// A list of ports as a JSON array.
pub fn serial_ports_json(ports: &Vec<SerialPortInfo>) -> (j: Json)
    ensures
        j@ == serial_ports_array(serial_ports_view(ports@)),
{
    let mut items: Vec<Json> = Vec::new();
    let mut i: usize = 0;
    while i < ports.len()
        invariant
            i <= ports@.len(),
            items@.len() == i,
            forall|k: int|
                0 <= k < i ==> (#[trigger] items@[k])@ == JsonView::Obj(
                    serial_port_fields(ports@[k]@),
                ),
        decreases ports@.len() - i,
    {
        items.push(ports[i].to_json());
        i += 1;
    }
    proof {
        crate::json::lemma_array_items(items@);
        assert(JsonView::Arr(crate::json::array_view(items@))->Arr_0 =~= serial_ports_array(
            serial_ports_view(ports@),
        )->Arr_0);
    }
    Json::Arr(items)
}

/// What the system knows of the USB device behind a port.
#[derive(Debug)]
pub struct UsbDetails {
    pub manufacturer: Option<String>,
    pub vid: u16,
    pub pid: u16,
    pub serial_number: Option<String>,
}

/// The description of a port. Only USB ports have more than a path.
pub open spec fn port_description(path: Seq<char>, usb: Option<UsbDetails>) -> SerialPortView {
    match usb {
        Some(u) => SerialPortView {
            path,
            manufacturer: or_empty(opt_text(u.manufacturer)),
            vendor_id: padded(numeral(u.vid as nat, 16), 4),
            product_id: padded(numeral(u.pid as nat, 16), 4),
            serial_number: or_empty(opt_text(u.serial_number)),
        },
        None => SerialPortView {
            path,
            manufacturer: Seq::empty(),
            vendor_id: Seq::empty(),
            product_id: Seq::empty(),
            serial_number: Seq::empty(),
        },
    }
}

fn or_empty_text(s: Option<String>) -> (r: String)
    ensures
        r@ == or_empty(opt_text(s)),
{
    match s {
        Some(t) => t,
        None => String::new(),
    }
}

/// Describes a port as the UI's "detect USB device" helper lists it.
pub fn describe_port(path: String, usb: Option<UsbDetails>) -> (r: SerialPortInfo)
    ensures
        r@ == port_description(path@, usb),
{
    match usb {
        Some(u) => SerialPortInfo {
            path,
            manufacturer: or_empty_text(u.manufacturer),
            vendor_id: hex_pad4(u.vid),
            product_id: hex_pad4(u.pid),
            serial_number: or_empty_text(u.serial_number),
        },
        None => SerialPortInfo {
            path,
            manufacturer: String::new(),
            vendor_id: String::new(),
            product_id: String::new(),
            serial_number: String::new(),
        },
    }
}

/// The error of a serial layer that cannot list ports.
pub fn listing_failed(text: &str) -> (e: PaxError)
    ensures
        e@ == pax_error(
            "SERIAL_UNAVAILABLE"@,
            "Serial support is not installed or failed to load: "@ + text@,
        ),
{
    PaxError::new(
        "SERIAL_UNAVAILABLE",
        "Serial support is not installed or failed to load: ".to_owned().concat(text),
    )
}

/// The error of a port listing that did not run to its end.
pub fn listing_task_failed(text: &str) -> (e: PaxError)
    ensures
        e@ == pax_error("SERIAL_UNAVAILABLE"@, "Serial task failed: "@ + text@),
{
    PaxError::new("SERIAL_UNAVAILABLE", "Serial task failed: ".to_owned().concat(text))
}

/// The error of a serial exchange that did not run to its end.
pub fn exchange_task_failed(text: &str) -> (e: PaxError)
    ensures
        e@ == pax_error("SERIAL_ERROR"@, "Serial task failed: "@ + text@),
{
    PaxError::new("SERIAL_ERROR", "Serial task failed: ".to_owned().concat(text))
}

/// The error of a port that cannot be opened.
pub open spec fn open_error(path: Seq<char>, text: Seq<char>) -> PaxErrorView {
    pax_error(
        "SERIAL_OPEN_FAILED"@,
        "Cannot open "@ + path + " — is the terminal plugged in and in USB/ECR mode? ("@ + text
            + ")"@,
    )
}

/// Classifies a failure to open a port.
pub fn classify_open_err(path: &str, text: &str) -> (e: PaxError)
    ensures
        e@ == open_error(path@, text@),
{
    PaxError::new(
        "SERIAL_OPEN_FAILED",
        "Cannot open ".to_owned().concat(path).concat(
            " — is the terminal plugged in and in USB/ECR mode? (",
        ).concat(text).concat(")"),
    )
}

/// Whether a lower-case error text speaks of a port that is not there or may
/// not be used.
pub open spec fn port_unavailable(lower: Seq<char>) -> bool {
    ||| has_part(lower, "no such file"@)
    ||| has_part(lower, "cannot open"@)
    ||| has_part(lower, "access denied"@)
    ||| has_part(lower, "permission"@)
}

/// The error of a failed read or write, by the lower-case form of its text.
pub open spec fn runtime_error(
    path: Seq<char>,
    msg: Seq<char>,
    lower: Seq<char>,
) -> PaxErrorView {
    if port_unavailable(lower) {
        pax_error(
            "SERIAL_OPEN_FAILED"@,
            "Cannot open "@ + path
                + " — check the USB cable and that the terminal's payment app is set to USB/ECR mode. ("@
                + msg + ")"@,
        )
    } else {
        pax_error("SERIAL_ERROR"@, "Serial error on "@ + path + ": "@ + msg)
    }
}

/// Classifies a failed read or write, given the lower-case form of its text.
pub fn classify_lowered(path: &str, msg: &str, lower: &str) -> (e: PaxError)
    ensures
        e@ == runtime_error(path@, msg@, lower@),
{
    if contains_text(lower, "no such file") || contains_text(lower, "cannot open")
        || contains_text(lower, "access denied") || contains_text(lower, "permission") {
        PaxError::new(
            "SERIAL_OPEN_FAILED",
            "Cannot open ".to_owned().concat(path).concat(
                " — check the USB cable and that the terminal's payment app is set to USB/ECR mode. (",
            ).concat(msg).concat(")"),
        )
    } else {
        PaxError::new(
            "SERIAL_ERROR",
            "Serial error on ".to_owned().concat(path).concat(": ").concat(msg),
        )
    }
}

/// Classifies a failed read or write by its text, whatever its case.
pub fn classify_runtime_err(path: &str, msg: &str) -> (e: PaxError)
    ensures
        e@ == runtime_error(path@, msg@, lowercase(msg@)),
{
    let lower = to_lowercase(msg);
    classify_lowered(path, msg, lower.as_str())
}

// ---------------------------------------------------------------------------
// Laws
// ---------------------------------------------------------------------------

/// A failure that speaks of a missing file, a port that cannot be opened, denied
/// access or a permission, wherever in its text, is one of opening; any other is
/// an error of the line. Both tell the path and the system's own words.
pub proof fn serial_failures(
    path: Seq<char>,
    msg: Seq<char>,
    front: Seq<char>,
    back: Seq<char>,
    lower: Seq<char>,
)
    ensures
        runtime_error(path, msg, front + "no such file"@ + back).code == "SERIAL_OPEN_FAILED"@,
        runtime_error(path, msg, front + "cannot open"@ + back).code == "SERIAL_OPEN_FAILED"@,
        runtime_error(path, msg, front + "access denied"@ + back).code == "SERIAL_OPEN_FAILED"@,
        runtime_error(path, msg, front + "permission"@ + back).code == "SERIAL_OPEN_FAILED"@,
        !has_part(lower, "no such file"@) && !has_part(lower, "cannot open"@) && !has_part(
            lower,
            "access denied"@,
        ) && !has_part(lower, "permission"@) ==> runtime_error(path, msg, lower).code
            == "SERIAL_ERROR"@ && runtime_error(path, msg, lower).message == "Serial error on "@
            + path + ": "@ + msg,
        has_part(runtime_error(path, msg, lower).message, path),
        has_part(runtime_error(path, msg, lower).message, msg),
        open_error(path, msg).code == "SERIAL_OPEN_FAILED"@,
        has_part(open_error(path, msg).message, path),
        has_part(open_error(path, msg).message, msg),
{
    crate::text::parts_are_contained(front, "no such file"@, back, lower);
    crate::text::parts_are_contained(front, "cannot open"@, back, lower);
    crate::text::parts_are_contained(front, "access denied"@, back, lower);
    crate::text::parts_are_contained(front, "permission"@, back, lower);
    let open = "Cannot open "@;
    let hint =
        " — check the USB cable and that the terminal's payment app is set to USB/ECR mode. ("@;
    let line = "Serial error on "@;
    let none = Seq::<char>::empty();
    if port_unavailable(lower) {
        let m = runtime_error(path, msg, lower).message;
        crate::text::parts_are_contained(open, path, hint + msg + ")"@, lower);
        assert(m =~= open + path + (hint + msg + ")"@));
        crate::text::parts_are_contained(open + path + hint, msg, ")"@, lower);
        assert(m =~= open + path + hint + msg + ")"@);
    } else {
        let m = runtime_error(path, msg, lower).message;
        crate::text::parts_are_contained(line, path, ": "@ + msg, lower);
        assert(m =~= line + path + (": "@ + msg));
        crate::text::parts_are_contained(line + path + ": "@, msg, none, lower);
        assert(m =~= line + path + ": "@ + msg + none);
    }
    let m = open_error(path, msg).message;
    let plug = " — is the terminal plugged in and in USB/ECR mode? ("@;
    crate::text::parts_are_contained(open, path, plug + msg + ")"@, lower);
    assert(m =~= open + path + (plug + msg + ")"@));
    crate::text::parts_are_contained(open + path + plug, msg, ")"@, lower);
    assert(m =~= open + path + plug + msg + ")"@);
}

/// How a port is described: by its path, and a USB port also by its maker, its
/// two ids in four hexadecimal digits, and its serial number.
pub proof fn ports_are_described(path: Seq<char>, usb: Option<UsbDetails>)
    ensures
        ({
            let d = port_description(path, usb);
            &&& d.path == path
            &&& usb is None ==> d.manufacturer.len() == 0 && d.vendor_id.len() == 0
                && d.product_id.len() == 0 && d.serial_number.len() == 0
            &&& usb matches Some(u) ==> d.vendor_id == padded(numeral(u.vid as nat, 16), 4)
                && d.product_id == padded(numeral(u.pid as nat, 16), 4)
            &&& usb matches Some(u) ==> u.manufacturer matches Some(m) ==> d.manufacturer == m@
            &&& usb matches Some(u) ==> u.serial_number matches Some(n) ==> d.serial_number == n@
            &&& usb matches Some(u) ==> u.manufacturer is None ==> d.manufacturer.len() == 0
            &&& usb matches Some(u) ==> u.serial_number is None ==> d.serial_number.len() == 0
        }),
{
}

/// What is shown of a port: all that is known of it, under its names.
pub proof fn port_is_shown(v: SerialPortView)
    ensures
        ({
            let f = serial_port_fields(v);
            &&& f["path"@] == JsonView::Str(v.path)
            &&& f["manufacturer"@] == JsonView::Str(v.manufacturer)
            &&& f["vendorId"@] == JsonView::Str(v.vendor_id)
            &&& f["productId"@] == JsonView::Str(v.product_id)
            &&& f["serialNumber"@] == JsonView::Str(v.serial_number)
        }),
{
    reveal_strlit("path");
    reveal_strlit("manufacturer");
    reveal_strlit("vendorId");
    reveal_strlit("productId");
    reveal_strlit("serialNumber");
    assert("path"@.len() == 4 && "manufacturer"@.len() == 12 && "vendorId"@.len() == 8);
    assert("productId"@.len() == 9 && "serialNumber"@.len() == 12);
    assert("manufacturer"@[0] == 'm' && "serialNumber"@[0] == 's');
}

/// A list of ports is shown port by port.
pub proof fn ports_are_shown(ports: Seq<SerialPortView>, i: int)
    requires
        0 <= i < ports.len(),
    ensures
        serial_ports_array(ports) matches JsonView::Arr(items) && items.len() == ports.len()
            && items[i] == JsonView::Obj(serial_port_fields(ports[i])),
{
}

}
