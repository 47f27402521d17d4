use pax_bridge::io_fault::{IoFault, IoKind};
use pax_bridge::printer::{
    cut_bytes, discovered, drawer_bytes, finish_print, init_bytes, network_error, network_write_error, plan_print,
    serial_error, test_receipt, PrintJob, PrintTarget, Route, SendResult, SerialStep,
};
use pax_bridge::protocol::PaxError;
use pax_bridge::serial::describe_port;
use pax_bridge::system_printer::{
    check_spooled, cups_missing, default_printer_name, explain_print_failure, list_printers, named_printers,
    not_found, printer_exists, spool_error, wide, SpoolStep, SystemPrinter,
};

fn network(port: Option<u16>) -> PrintTarget {
    PrintTarget::Network { host: "10.0.0.9".into(), port }
}

fn fault(kind: IoKind) -> IoFault {
    IoFault { kind, text: "os".into() }
}

fn names(list: &[SystemPrinter]) -> Vec<(String, bool)> {
    list.iter().map(|p| (p.name.clone(), p.is_default)).collect()
}

#[test]
fn print_targets_have_keys_and_defaults() {
    assert_eq!(network(None).key(), "network:10.0.0.9:9100");
    assert_eq!(network(Some(7)).key(), "network:10.0.0.9:7");
    let serial = PrintTarget::Serial { path: "COM3".into(), baud_rate: None };
    assert_eq!(serial.key(), "serial:COM3");
    assert_eq!(PrintTarget::System { name: "Epson".into() }.key(), "system:Epson");
    assert!(matches!(network(None).route(), Route::Network { port: 9100, .. }));
    assert!(matches!(serial.route(), Route::Serial { baud_rate: 38_400, .. }));
    let fast = PrintTarget::Serial { path: "COM3".into(), baud_rate: Some(9600) };
    assert!(matches!(fast.route(), Route::Serial { baud_rate: 9600, .. }));
    assert!(matches!(PrintTarget::System { name: "E".into() }.route(), Route::System { name } if name == "E"));
}

#[test]
fn escape_sequences() {
    assert_eq!(init_bytes(), vec![0x1b, 0x40]);
    assert_eq!(cut_bytes(), vec![0x1d, 0x56, 0x41, 0x10]);
    assert_eq!(drawer_bytes(0, 200), vec![0x1b, 0x70, 0, 50, 50]);
    assert_eq!(drawer_bytes(1, 0), vec![0x1b, 0x70, 1, 1, 1]);
    assert_eq!(drawer_bytes(7, 1_000_000), vec![0x1b, 0x70, 0, 255, 255]);
}

#[test]
fn the_drawer_opens_once() {
    let mut job = PrintJob { data: vec![9], copies: 2, cut: true, open_drawer: true, ..PrintJob::default() };
    let mut want = vec![9, 0x1d, 0x56, 0x41, 0x10, 9, 0x1d, 0x56, 0x41, 0x10];
    let without = want.clone();
    want.extend_from_slice(&[0x1b, 0x70, 0, 50, 50]);
    assert_eq!(job.payload(), want);
    job.open_drawer = false;
    assert_eq!(job.payload(), without);
    job.copies = 0;
    job.cut = false;
    assert_eq!(job.payload(), vec![9]);
}

#[test]
fn an_empty_job_is_refused() {
    let job = PrintJob::default();
    assert_eq!((job.copies, job.drawer_pulse, job.timeout_ms), (1, 200, 15_000));
    let e = plan_print(&network(None), &job).unwrap_err();
    assert_eq!((e.code, e.message.as_str()), ("PRINT_EMPTY", "Nothing to print — the job had no data."));
    let drawer = PrintJob { open_drawer: true, ..PrintJob::default() };
    assert_eq!(plan_print(&network(None), &drawer).unwrap().payload.len(), 5);
}

#[test]
fn a_job_reports_how_it_ended() {
    let job = PrintJob { data: vec![1, 2, 3], ..PrintJob::default() };
    let plan = || plan_print(&network(None), &job).unwrap();
    let done = finish_print(plan(), SendResult::Sent).unwrap();
    assert_eq!((done.target.as_str(), done.bytes), ("network:10.0.0.9:9100", 3));
    let e = finish_print(plan(), SendResult::TimedOut).unwrap_err();
    assert_eq!((e.code, e.message.as_str()), ("PRINTER_TIMEOUT", "The printer did not accept the receipt within 15000ms."));
    let e = finish_print(plan(), SendResult::Failed(PaxError::new("X", "y".into()))).unwrap_err();
    assert_eq!(e.code, "X");
}

#[test]
fn printer_failures_are_explained() {
    let e = network_error("h", 9100, &fault(IoKind::ConnectionRefused));
    assert_eq!(e.code, "PRINTER_REFUSED");
    assert_eq!(e.message, "h:9100 refused the connection. The address is right but nothing is listening — check the printer is on and that port 9100 is its raw printing port.");
    assert_eq!(e.cause.as_deref(), Some("os"));
    let e = network_error("h", 1, &fault(IoKind::TimedOut));
    assert_eq!((e.code, e.message.as_str()), ("PRINTER_UNREACHABLE", "h:1 did not answer. The printer may be off, asleep, or on a different network."));
    let e = network_error("h", 1, &fault(IoKind::NetworkUnreachable));
    assert_eq!(e.message, "h is unreachable from this computer — check they are on the same network.");
    let e = network_error("h", 1, &fault(IoKind::Other));
    assert_eq!(e.message, "Could not reach h:1 — os");
    let e = network_write_error("h", 1, "os");
    assert_eq!((e.code, e.message.as_str()), ("PRINTER_WRITE_FAILED", "Sent to h:1 but the printer dropped it: os"));
    let e = serial_error(SerialStep::Open, "p", "os");
    assert_eq!((e.code, e.message.as_str()), ("PRINTER_UNREACHABLE", "Could not open p — check the printer is connected and no other program is holding the port: os"));
    assert_eq!(serial_error(SerialStep::Write, "p", "os").message, "Failed writing to p: os");
    assert_eq!(serial_error(SerialStep::Flush, "p", "os").message, "Failed flushing p: os");
    assert_eq!(serial_error(SerialStep::Task, "p", "os").message, "Serial task failed: os");
}

#[test]
fn discovery_shows_what_could_be_listed() {
    let e = || PaxError::new("X", "y".into());
    let system = || SystemPrinter { name: "E".into(), is_default: true };
    let d = discovered(Ok(vec![system()]), Err(e()));
    assert_eq!((d.system.len(), d.serial.len(), d.default_network_port), (1, 0, 9100));
    let d = discovered(Err(e()), Ok(vec![describe_port("p".into(), None)]));
    assert_eq!((d.system.len(), d.serial.len()), (0, 1));
}

#[test]
fn the_test_receipt_has_its_bytes() {
    let mut want: Vec<u8> = vec![0x1b, 0x40, 0x1b, 0x61, 0x01, 0x1d, 0x21, 0x11];
    want.extend_from_slice(b"SALESGENT\n");
    want.extend_from_slice(&[0x1d, 0x21, 0x00]);
    want.extend_from_slice(b"Bridge test receipt\n");
    want.extend_from_slice(&[0x1b, 0x61, 0x00]);
    want.extend_from_slice(b"\nIf you can read this, the printer\nis reachable and the bytes arrived\nin one piece.\n\n");
    assert_eq!(test_receipt(), want);
}

#[test]
fn cups_listings_are_read() {
    let list = list_printers(true, b"Epson\n  Star TSP \r\n\n", "Star TSP");
    assert_eq!(names(&list), vec![("Epson".to_string(), false), ("Star TSP".to_string(), true)]);
    assert!(list_printers(false, b"Epson\n", "").is_empty());
    assert_eq!(names(&list_printers(true, b"A\xff\n", "")), vec![("A\u{fffd}".to_string(), false)]);
    assert_eq!(default_printer_name(b"system default destination: Epson\n"), "Epson");
    assert_eq!(default_printer_name(b"no system default destination\n"), "");
    let list = named_printers(&vec!["".into(), "A".into()], "");
    assert_eq!(names(&list), vec![("A".to_string(), false)]);
    assert!(printer_exists(&Ok(list), "A"));
    assert!(!printer_exists(&Ok(vec![]), "A"));
    assert!(!printer_exists(&Err(PaxError::new("X", "y".into())), "A"));
}

#[test]
fn print_command_failures_are_explained() {
    let some = || Ok(vec![SystemPrinter { name: "A".into(), is_default: false }]);
    let e = explain_print_failure("A", b" jam \n", &some());
    assert_eq!((e.code, e.message.as_str()), ("PRINTER_WRITE_FAILED", "jam"));
    let e = explain_print_failure("A", b"", &some());
    assert_eq!(e.message, "Printing to \"A\" failed.");
    let e = explain_print_failure("B", b"jam", &some());
    assert_eq!((e.code, e.message.clone()), ("PRINTER_NOT_FOUND", not_found("B").message));
    assert_eq!(
        not_found("B").message,
        "No printer named \"B\" on this computer. Check the name in the operating system's printer settings — it must match exactly."
    );
    let e = cups_missing("lp", "os");
    assert_eq!((e.code, e.message.as_str()), ("PRINTER_UNAVAILABLE", "Could not run `lp` — the printing system is not available on this computer: os"));
}

#[test]
fn spooler_strings_and_counts() {
    for s in ["", "RAW", "é€", "a😀b", "\u{ffff}\u{10000}\u{10ffff}"] {
        let mut want: Vec<u16> = s.encode_utf16().collect();
        want.push(0);
        assert_eq!(wide(s), want);
    }
    assert!(check_spooled(5, 5).is_ok());
    assert_eq!(check_spooled(3, 5).unwrap_err().message, "Only 3 of 5 bytes reached the printer.");
}

#[test]
fn spooler_steps_are_explained() {
    let shown = |step: SpoolStep| {
        let e = spool_error(step, "Epson", "os");
        (e.code, e.message)
    };
    let unavailable = |m: &str| ("PRINTER_UNAVAILABLE", m.to_string());
    let failed = |m: &str| ("PRINTER_WRITE_FAILED", m.to_string());
    assert_eq!(shown(SpoolStep::ListTask), unavailable("Could not list printers: os"));
    assert_eq!(shown(SpoolStep::WindowsList), unavailable("Windows could not list printers: os"));
    assert_eq!(shown(SpoolStep::PrintTask), failed("Print task failed: os"));
    assert_eq!(shown(SpoolStep::NoInput), failed("Could not write to the print job."));
    assert_eq!(shown(SpoolStep::Feed), failed("Failed sending the receipt: os"));
    assert_eq!(shown(SpoolStep::Finish), failed("The print job did not finish: os"));
    assert_eq!(
        shown(SpoolStep::StartDocument),
        failed("Windows refused the print job for \"Epson\". The printer may be offline or paused.")
    );
    assert_eq!(shown(SpoolStep::StartPage), failed("Could not start the page: os"));
    assert_eq!(shown(SpoolStep::WritePage), failed("Could not send the receipt: os"));
    assert_eq!(shown(SpoolStep::EndPage), failed("Could not end the page: os"));
    assert_eq!(shown(SpoolStep::EndDocument), failed("Could not finish the job: os"));
}
