use pax_bridge::db::Terminal;
use pax_bridge::io_fault::{IoFault, IoKind};
use pax_bridge::json::{Json, Number};
use pax_bridge::protocol::{
    build_batch_close_fields, build_cancel_fields, build_message, parse_response, Field, PaxError,
};
use pax_bridge::serial::{describe_port, UsbDetails};
use pax_bridge::tcp::{map_connect_err, probe_result, ProbeOutcome};
use pax_bridge::transport::{
    any_in_flight, batch_close, batch_result, cancel, cancel_failed, cancel_on_terminal, credit_result,
    diagnose_tcp, diagnose_usb, initialize, initialize_result, is_busy, is_usb, make_command,
    probe_port, refund, sale, void_transaction, CommandBoard, Target, Wait, WaitAction, WaitEvent,
};

fn value(j: &Json) -> serde_json::Value {
    match j {
        Json::Null => serde_json::Value::Null,
        Json::Bool(b) => serde_json::Value::Bool(*b),
        Json::Num(Number::Int(n)) => serde_json::Value::from(*n),
        Json::Num(Number::Big(n)) => serde_json::Value::from(*n),
        Json::Num(Number::Float(bits)) => serde_json::Value::from(f64::from_bits(*bits)),
        Json::Str(s) => serde_json::Value::String(s.clone()),
        Json::Arr(items) => serde_json::Value::Array(items.iter().map(value).collect()),
        Json::Obj(o) => {
            let mut map = serde_json::Map::new();
            for (k, v) in &o.entries {
                map.insert(k.clone(), value(v));
            }
            serde_json::Value::Object(map)
        }
    }
}

fn expected(text: &str) -> serde_json::Value {
    serde_json::from_str(text).unwrap()
}

fn terminal(conn_type: &str) -> Terminal {
    Terminal {
        id: "t1".into(),
        name: "Counter".into(),
        model: "A35".into(),
        conn_type: conn_type.into(),
        ip: "10.0.0.5".into(),
        port: 10009,
        serial_path: "/dev/ttyUSB0".into(),
        baud_rate: 9600,
        created_at: String::new(),
    }
}

fn fault(kind: IoKind) -> IoFault {
    IoFault { kind, text: "os says no".to_string() }
}

#[test]
fn targets_and_keys() {
    assert_eq!(Target::from_terminal(&terminal("tcp")).key(), "tcp:10.0.0.5:10009");
    assert_eq!(Target::from_terminal(&terminal("usb")).key(), "usb:/dev/ttyUSB0");
    assert_eq!(Target::from_terminal(&terminal("")).clone().key(), "tcp:10.0.0.5:10009");
    match Target::from_terminal(&terminal("usb")) {
        Target::Usb { path, baud_rate } => {
            assert_eq!((path.as_str(), baud_rate), ("/dev/ttyUSB0", 9600));
        }
        other => panic!("{other:?}"),
    }
}

#[test]
fn a_line_is_busy_from_queue_to_end() {
    let mut board = CommandBoard::new();
    let t = terminal("tcp");
    let other = terminal("usb");
    let key = Target::from_terminal(&t).key();
    assert!(!is_busy(&board, &t) && !any_in_flight(&board));
    board.enqueue(&t);
    assert!(is_busy(&board, &t) && any_in_flight(&board) && !is_busy(&board, &other));
    assert!(!cancel(&mut board, &t), "a queued command is not on the wire yet");
    board.enqueue(&t);
    board.start(&key);
    assert!(board.on_wire(&key));
    assert!(cancel(&mut board, &t));
    assert!(board.lines.get(&key).unwrap().canceled);
    board.finish(&key);
    assert!(is_busy(&board, &t), "the second command still waits");
    assert!(!cancel(&mut board, &t));
    board.start(&key);
    assert!(!board.lines.get(&key).unwrap().canceled, "the next command starts uncanceled");
    board.enqueue(&t);
    board.abandon(&key);
    board.finish(&key);
    assert!(!is_busy(&board, &t) && !any_in_flight(&board));
    board.enqueue(&t);
    board.abandon(&key);
    assert!(!any_in_flight(&board));
}

#[test]
fn terminals_of_one_target_are_busy_together() {
    let mut board = CommandBoard::new();
    let a = terminal("tcp");
    let mut b = terminal("");
    b.id = "b".into();
    b.name = "B".into();
    b.serial_path = "/dev/other".into();
    board.enqueue(&a);
    assert!(is_busy(&board, &a) && is_busy(&board, &b) && any_in_flight(&board));
    board.abandon(&Target::from_terminal(&b).key());
    assert!(!is_busy(&board, &a) && !is_busy(&board, &b) && !any_in_flight(&board));
}

#[test]
fn the_device_cancel_needs_a_command_on_the_wire() {
    let mut board = CommandBoard::new();
    let t = terminal("tcp");
    let key = Target::from_terminal(&t).key();
    let e = cancel_on_terminal(&board, &t, "1.54").unwrap_err();
    assert_eq!(e.code, "NOT_IN_FLIGHT");
    assert_eq!(e.message, "No command is on the wire for this terminal to cancel.");
    board.enqueue(&t);
    assert!(cancel_on_terminal(&board, &t, "1.54").is_err());
    board.start(&key);
    assert_eq!(
        cancel_on_terminal(&board, &t, "1.54").unwrap(),
        build_message(&build_cancel_fields("1.54"))
    );
    let e = cancel_failed("no available capacity".to_string());
    assert_eq!(e.code, "CANCEL_FAILED");
    assert_eq!(e.message, "Could not hand the cancel to the terminal connection.");
    assert_eq!(e.cause.as_deref(), Some("no available capacity"));
}

#[test]
fn a_wait_answers_once() {
    let mut wait = Wait::Waiting;
    match wait.on(WaitEvent::Dropped, true) {
        WaitAction::Answer(Err(e)) => {
            assert_eq!(e.code, "SOCKET_ERROR");
            assert_eq!(e.message, "Terminal command ended without a result");
        }
        other => panic!("{other:?}"),
    }
    assert!(matches!(wait.on(WaitEvent::Canceled, true), WaitAction::Nothing));

    let mut wait = Wait::Waiting;
    let e = PaxError::new("TIMEOUT", "late".to_string());
    assert!(matches!(wait.on(WaitEvent::Result(Err(e)), true), WaitAction::Answer(Err(x)) if x.code == "TIMEOUT"));

    let mut wait = Wait::Waiting;
    match wait.on(WaitEvent::Canceled, false) {
        WaitAction::Answer(Err(e)) => assert_eq!(e.message, "Cancelled from the point of sale."),
        other => panic!("{other:?}"),
    }
    let e = PaxError::new("TIMEOUT", "late".to_string());
    assert!(matches!(wait.on(WaitEvent::Result(Err(e)), false), WaitAction::Nothing));

    let mut wait = Wait::Waiting;
    wait.on(WaitEvent::Canceled, true);
    assert_eq!(wait, Wait::Watching);
    assert!(matches!(wait.on(WaitEvent::Canceled, true), WaitAction::Nothing));
    assert!(matches!(wait.on(WaitEvent::Dropped, true), WaitAction::Nothing));
    assert_eq!(wait, Wait::Over);
}

#[test]
fn commands_carry_their_request_and_response() {
    let c = sale(11000, "1".to_string(), 0, "02", "1.54");
    assert_eq!(c.expected, Some("T01"));
    let p = parse_response(&c.request).unwrap();
    assert_eq!(p.fields, vec!["T00", "1.54", "02", "11000", "", "1", "", "", "", "", ""]);
    let c = sale(100, "1".to_string(), 25, "01", "1.54");
    let p = parse_response(&c.request).unwrap();
    assert_eq!(p.fields[2..4], ["01".to_string(), "100\u{1f}25".to_string()]);
    let p = parse_response(&refund(500, "2".to_string(), "1.54").request).unwrap();
    assert_eq!(p.fields[2..6], ["03", "500", "", "2"].map(String::from));
    let c = void_transaction("42".to_string(), "3".to_string(), 500, Some("7".to_string()), "1.54");
    let p = parse_response(&c.request).unwrap();
    assert_eq!(p.fields[2..6], ["04", "500", "", "3\u{1f}\u{1f}42\u{1f}7"].map(String::from));
    let c = initialize("1.54");
    assert_eq!(c.expected, Some("A01"));
    assert_eq!(parse_response(&c.request).unwrap().fields, vec!["A00", "1.54"]);
    let c = batch_close("1.54");
    assert_eq!(c.expected, Some("B01"));
    assert_eq!(c.request, build_message(&build_batch_close_fields("1.54")));
    assert_eq!(make_command(&vec![]).expected, None);
    assert_eq!(make_command(&vec![Field::Sub(vec!["A00".into()])]).expected, None);
}

#[test]
fn raw_results_are_read() {
    let m = build_message(&[Field::from("A01"), Field::from("1.54"), Field::from("000000")]);
    let info = initialize_result(parse_response(&m), 37).unwrap();
    assert!(info.approved);
    assert_eq!(info.latency_ms, 37);
    let m = build_message(&[Field::from("B01"), Field::from("1.54"), Field::from("100002")]);
    assert!(!batch_result(parse_response(&m)).unwrap().settled);
    let e = || Err(PaxError::new("TIMEOUT", "t".to_string()));
    assert_eq!(credit_result(e()).unwrap_err().code, "TIMEOUT");
    assert_eq!(initialize_result(e(), 1).unwrap_err().code, "TIMEOUT");
    assert_eq!(batch_result(e()).unwrap_err().code, "TIMEOUT");
}

#[test]
fn usb_diagnosis_looks_for_the_port() {
    let t = terminal("usb");
    assert!(is_usb(&t) && !is_usb(&terminal("tcp")));
    let usb = UsbDetails { manufacturer: Some("PAX".into()), vid: 0x2fb8, pid: 0x21, serial_number: None };
    let ports = vec![
        describe_port("/dev/ttyS0".to_string(), None),
        describe_port("/dev/ttyUSB0".to_string(), Some(usb)),
    ];
    assert_eq!(
        value(&diagnose_usb(&t, "1.54", &ports)),
        expected(
            r#"{"connType":"usb","protocolVersion":"1.54","serialPath":"/dev/ttyUSB0","portPresent":true,
            "portsFound":2,"matchingPort":{"path":"/dev/ttyUSB0","manufacturer":"PAX","vendorId":"2fb8",
            "productId":"0021","serialNumber":""},"ecrLikelyListening":true,"nextSteps":[
            "Serial device is present. Run Test Connection.",
            "In BroadPOS: External POS / ECR ON, Communication = USB, leave idle."]}"#
        )
    );
    let j = value(&diagnose_usb(&t, "1.54", &vec![]));
    assert_eq!(j["portPresent"], expected("false"));
    assert_eq!(j["matchingPort"], expected("null"));
    assert_eq!(j["nextSteps"].as_array().unwrap().len(), 3);
}

#[test]
fn tcp_diagnosis_tells_offline_from_not_listening() {
    let mut t = terminal("tcp");
    t.port = 0;
    assert_eq!(probe_port(&t), 10009);
    let j = value(&diagnose_tcp(&t, "1.54", &probe_result(&ProbeOutcome::Connected)));
    assert_eq!(
        j,
        expected(
            r#"{"connType":"tcp","protocolVersion":"1.54","ip":"10.0.0.5","port":10009,"hostReachable":true,
            "tcpOpen":true,"tcpError":null,"ecrLikelyListening":true,"nextSteps":[
            "TCP port is open — BroadPOS ECR appears to be listening. Run Test Connection."]}"#
        )
    );
    let refused = probe_result(&ProbeOutcome::Failed(fault(IoKind::ConnectionRefused)));
    let j = value(&diagnose_tcp(&t, "1.54", &refused));
    assert_eq!(j["tcpError"], expected(r#""ECONNREFUSED""#));
    assert_eq!(j["hostReachable"], expected("true"));
    assert_eq!(j["nextSteps"].as_array().unwrap().len(), 5);
    t.port = 7;
    let late = probe_result(&ProbeOutcome::TimedOut);
    let j = value(&diagnose_tcp(&t, "1.54", &late));
    assert_eq!(j["port"], expected("7"));
    assert_eq!(j["tcpError"], expected(r#""TIMEOUT""#));
    assert_eq!(j["nextSteps"].as_array().unwrap().len(), 1);
}

#[test]
fn probes_report_what_they_found() {
    let r = probe_result(&ProbeOutcome::Failed(fault(IoKind::HostUnreachable)));
    assert_eq!((r.open, r.host_reachable, r.error.as_deref()), (false, false, Some("HostUnreachable")));
    let r = probe_result(&ProbeOutcome::Failed(fault(IoKind::NetworkUnreachable)));
    assert_eq!(r.error.as_deref(), Some("NetworkUnreachable"));
    let r = probe_result(&ProbeOutcome::Failed(fault(IoKind::Other)));
    assert_eq!(r.error.as_deref(), Some("os says no"));
    let r = probe_result(&ProbeOutcome::Failed(fault(IoKind::TimedOut)));
    assert_eq!(r.error.as_deref(), Some("os says no"));
}

#[test]
fn connection_failures_have_codes() {
    let code = |k: IoKind| map_connect_err(&fault(k)).code;
    assert_eq!(code(IoKind::ConnectionRefused), "CONNECTION_REFUSED");
    assert_eq!(code(IoKind::TimedOut), "TIMEOUT");
    assert_eq!(code(IoKind::HostUnreachable), "HOST_UNREACHABLE");
    assert_eq!(code(IoKind::NetworkUnreachable), "HOST_UNREACHABLE");
    let e = map_connect_err(&fault(IoKind::Other));
    assert_eq!((e.code, e.message.as_str()), ("SOCKET_ERROR", "Socket error: os says no"));
    assert_eq!(e.cause.as_deref(), Some("os says no"));
}
