use pax_bridge::exchange::{timed_out, Action, Event, Exchange, Link, Stage};
use pax_bridge::io_fault::{IoFault, IoKind};
use pax_bridge::json::Json;
use pax_bridge::protocol::{build_message, Field};
use pax_bridge::serial::{
    classify_open_err, classify_runtime_err, effective_baud, exchange_task_failed, listing_failed,
    listing_task_failed,
};

fn reply(code: &str, text: &str) -> Vec<u8> {
    build_message(&[Field::from(code), Field::from("1.54"), Field::from(text)])
}

fn fault(kind: IoKind, text: &str) -> IoFault {
    IoFault { kind, text: text.to_string() }
}

fn tcp(send_enq: bool) -> Exchange {
    let (x, first) = Exchange::begin(Link::Tcp, vec![1, 2, 3], Some("T01".to_string()), 500, send_enq);
    assert_eq!(first.state, Some("SENDING"));
    assert!(matches!(first.action, Action::Open));
    x
}

fn serial(send_enq: bool) -> Exchange {
    let link = Link::Serial { path: "/dev/x".to_string() };
    Exchange::begin(link, vec![1, 2, 3], Some("T01".to_string()), 500, send_enq).0
}

fn reading(mut x: Exchange) -> Exchange {
    x.on(Event::Opened);
    x.on(Event::Written);
    assert_eq!(x.stage, Stage::Reading);
    x
}

fn failure(a: Action) -> (String, String, Option<String>) {
    match a {
        Action::Fail(e) => (e.code.to_string(), e.message, e.cause),
        other => panic!("no failure: {other:?}"),
    }
}

fn accepted(a: Action) -> Vec<String> {
    match a {
        Action::Accept(ack, p) => {
            assert_eq!(ack, vec![0x06]);
            p.fields
        }
        other => panic!("not accepted: {other:?}"),
    }
}

fn plain(code: &str, message: &str) -> (String, String, Option<String>) {
    (code.to_string(), message.to_string(), None)
}

#[test]
fn request_goes_out_after_opening() {
    let mut x = tcp(false);
    assert!(matches!(x.on(Event::Opened).action, Action::Write(b) if b == vec![1, 2, 3]));
    let step = x.on(Event::Written);
    assert_eq!(step.state, Some("WAITING"));
    assert!(matches!(step.action, Action::Read));
    let step = x.on(Event::Received(reply("T01", "ok")));
    assert_eq!(step.state, Some("RECEIVING"));
    assert_eq!(accepted(step.action), vec!["T01", "1.54", "ok"]);
    assert_eq!(x.stage, Stage::Done);
    assert!(matches!(x.on(Event::TimeUp).action, Action::Idle));
}

#[test]
fn enquiry_comes_first_where_wanted() {
    let mut x = tcp(true);
    assert!(matches!(x.on(Event::Opened).action, Action::WriteAndPause(b) if b == vec![0x05]));
    assert!(matches!(x.on(Event::Written).action, Action::Write(b) if b == vec![1, 2, 3]));
    assert!(matches!(x.on(Event::Written).action, Action::Read));
    let mut x = tcp(true);
    x.on(Event::Opened);
    assert_eq!(
        failure(x.on(Event::WriteFailed(fault(IoKind::Other, "gone"))).action),
        ("WRITE_FAILED".to_string(), "Failed to write ENQ".to_string(), Some("gone".to_string()))
    );
}

#[test]
fn tcp_failures_are_reported() {
    let mut x = tcp(false);
    let e = failure(x.on(Event::OpenFailed(fault(IoKind::ConnectionRefused, "r"))).action);
    assert_eq!(e.0, "CONNECTION_REFUSED");
    let mut x = tcp(false);
    x.on(Event::Opened);
    assert_eq!(
        failure(x.on(Event::WriteFailed(fault(IoKind::Other, "gone"))).action),
        ("WRITE_FAILED".to_string(), "Failed to write to terminal".to_string(), Some("gone".to_string()))
    );
    let mut x = reading(tcp(false));
    assert_eq!(
        failure(x.on(Event::Received(vec![])).action),
        plain("CONNECTION_CLOSED", "Terminal closed the connection before a full response")
    );
    let mut x = reading(tcp(false));
    assert_eq!(
        failure(x.on(Event::ReadFailed(fault(IoKind::TimedOut, "slow"))).action),
        plain("SOCKET_ERROR", "Socket error: slow")
    );
    let mut x = reading(tcp(false));
    assert_eq!(
        failure(x.on(Event::TimeUp).action),
        plain("TIMEOUT", "No complete response within 500ms")
    );
}

#[test]
fn an_unexpected_response_is_an_error() {
    let mut x = reading(tcp(false));
    match x.on(Event::Received(reply("A01", "ok"))).action {
        Action::Fail(e) => {
            assert_eq!(e.code, "UNEXPECTED_RESPONSE");
            assert_eq!(e.message, "Expected T01 response, got \"A01\"");
            assert!(matches!(e.raw, Some(Json::Str(s)) if s == "A01\u{1c}1.54\u{1c}ok"));
        }
        other => panic!("{other:?}"),
    }
    let (x, _) = Exchange::begin(Link::Tcp, vec![], None, 500, false);
    let mut x = reading(x);
    assert_eq!(accepted(x.on(Event::Received(reply("Z99", "any"))).action)[0], "Z99");
    let mut x = reading(tcp(false));
    let mut bad = reply("T01", "ok");
    bad[1] ^= 1;
    assert_eq!(failure(x.on(Event::Received(bad)).action).0, "LRC_MISMATCH");
}

#[test]
fn the_cuts_between_reads_do_not_matter() {
    let whole = reply("T01", "ok");
    for cut in 1..whole.len() {
        let mut x = reading(tcp(false));
        let first = x.on(Event::Received(whole[..cut].to_vec()));
        assert_eq!(first.state, Some("RECEIVING"));
        assert!(matches!(first.action, Action::Read));
        let second = x.on(Event::Received(whole[cut..].to_vec()));
        assert_eq!(second.state, None);
        assert_eq!(accepted(second.action), vec!["T01", "1.54", "ok"]);
    }
}

#[test]
fn a_pushed_cancel_does_not_disturb_the_sale() {
    let mut x = reading(tcp(false));
    assert!(matches!(x.on(Event::Cancel(vec![9, 9])).action, Action::Push(b) if b == vec![9, 9]));
    assert!(matches!(x.on(Event::Received(reply("A15", "000000"))).action, Action::Read));
    assert_eq!(accepted(x.on(Event::Received(reply("T01", "aborted"))).action)[2], "aborted");

    let mut both = reply("A15", "000000");
    both.extend_from_slice(&reply("T01", "aborted"));
    let mut x = reading(tcp(false));
    x.on(Event::Cancel(vec![9]));
    assert_eq!(accepted(x.on(Event::Received(both)).action)[2], "aborted");

    let mut x = reading(tcp(false));
    let e = failure(x.on(Event::Received(reply("A15", "000000"))).action);
    assert_eq!(e.0, "UNEXPECTED_RESPONSE");
}

#[test]
fn serial_links_poll_until_the_deadline() {
    let mut x = reading(serial(false));
    assert!(matches!(x.on(Event::Received(vec![])).action, Action::Read));
    assert!(matches!(x.on(Event::ReadFailed(fault(IoKind::TimedOut, "poll"))).action, Action::Read));
    assert!(matches!(x.on(Event::Cancel(vec![9])).action, Action::Read));
    assert_eq!(accepted(x.on(Event::Received(reply("T01", "ok"))).action)[0], "T01");
    assert_eq!(timed_out(7).message, "No complete response within 7ms");
    let mut x = reading(serial(false));
    assert_eq!(
        failure(x.on(Event::TimeUp).action),
        plain("TIMEOUT", "No complete response within 500ms")
    );
}

#[test]
fn serial_failures_are_classified() {
    let mut x = serial(false);
    assert_eq!(
        failure(x.on(Event::OpenFailed(fault(IoKind::Other, "busy"))).action),
        plain(
            "SERIAL_OPEN_FAILED",
            "Cannot open /dev/x — is the terminal plugged in and in USB/ECR mode? (busy)"
        )
    );
    let mut x = serial(true);
    x.on(Event::Opened);
    assert_eq!(
        failure(x.on(Event::WriteFailed(fault(IoKind::Other, "gone"))).action),
        plain("SERIAL_ERROR", "Serial error on /dev/x: Failed to write ENQ: gone")
    );
    let mut x = serial(false);
    x.on(Event::Opened);
    assert_eq!(
        failure(x.on(Event::WriteFailed(fault(IoKind::Other, "gone"))).action),
        plain("SERIAL_ERROR", "Serial error on /dev/x: Failed to write to /dev/x: gone")
    );
    let mut x = reading(serial(false));
    assert_eq!(
        failure(x.on(Event::ReadFailed(fault(IoKind::Other, "Permission denied"))).action),
        plain(
            "SERIAL_OPEN_FAILED",
            "Cannot open /dev/x — check the USB cable and that the terminal's payment app is set to USB/ECR mode. (Permission denied)"
        )
    );
}

#[test]
fn serial_error_texts_are_matched_in_any_case() {
    assert_eq!(classify_runtime_err("p", "ACCESS DENIED").code, "SERIAL_OPEN_FAILED");
    assert_eq!(classify_runtime_err("p", "No Such File or directory").code, "SERIAL_OPEN_FAILED");
    assert_eq!(classify_runtime_err("p", "CANNOT OPEN it").code, "SERIAL_OPEN_FAILED");
    let e = classify_runtime_err("p", "broken pipe");
    assert_eq!((e.code, e.message.as_str()), ("SERIAL_ERROR", "Serial error on p: broken pipe"));
    assert_eq!(
        classify_open_err("p", "x").message,
        "Cannot open p — is the terminal plugged in and in USB/ECR mode? (x)"
    );
    assert_eq!(exchange_task_failed("x").message, "Serial task failed: x");
    assert_eq!(exchange_task_failed("x").code, "SERIAL_ERROR");
    assert_eq!(listing_task_failed("x").code, "SERIAL_UNAVAILABLE");
    assert_eq!(
        listing_failed("x").message,
        "Serial support is not installed or failed to load: x"
    );
    assert_eq!(effective_baud(0), 115_200);
    assert_eq!(effective_baud(9600), 9600);
}

#[test]
fn stray_events_are_left_alone() {
    let mut x = tcp(false);
    assert!(matches!(x.on(Event::Received(vec![1])).action, Action::Idle));
    assert!(matches!(x.on(Event::Cancel(vec![1])).action, Action::Idle));
    assert_eq!(x.stage, Stage::Opening);
    assert_eq!(failure(x.on(Event::TimeUp).action).0, "TIMEOUT");
}
