//! Cancelling stops the caller from waiting, but the command stays on the wire
//! because the terminal keeps its card prompt regardless. These tests drive the
//! line, the wait and the exchange of one command: the caller is released at
//! once, and a card completed after the cancel still reaches the late handler.
use pax_bridge::db::Terminal;
use pax_bridge::exchange::{Action, Event, Exchange, Link};
use pax_bridge::protocol::{build_message, Field};
use pax_bridge::transport::{
    cancel, credit_result, is_busy, sale, CommandBoard, Target, Wait, WaitAction, WaitEvent,
};

/// A T01 frame the parser accepts: approved, $110.00, ref number 42.
fn approved_t01() -> Vec<u8> {
    build_message(&[
        Field::Single("T01".into()),
        Field::Single("1.28".into()),
        Field::Single("000000".into()),
        Field::Single("OK".into()),
        Field::Sub(vec!["0".into(), "APPROVAL".into(), "AUTH123".into(), "HOST9".into()]),
        Field::Single(String::new()),
        Field::Sub(vec!["11000".into(), "0".into()]),
        Field::Sub(vec!["************1234".into(), String::new(), "VISA".into(), "CHIP".into()]),
        Field::Sub(vec!["1".into(), "7".into(), "42".into(), "20260816120000".into()]),
    ])
}

fn terminal_on(port: u16) -> Terminal {
    Terminal {
        id: "t1".into(),
        name: "Fake".into(),
        model: "A35".into(),
        conn_type: "tcp".into(),
        ip: "127.0.0.1".into(),
        port,
        serial_path: String::new(),
        baud_rate: 9600,
        created_at: String::new(),
    }
}

/// Brings a sale to the point where the terminal prompts for a card.
fn sale_in_flight(board: &mut CommandBoard, terminal: &Terminal) -> Exchange {
    let key = Target::from_terminal(terminal).key();
    board.enqueue(terminal);
    board.start(&key);
    let command = sale(11000, "1".to_string(), 0, "02", "1.54");
    let expected = command.expected.map(|s| s.to_string());
    let (mut exchange, _) = Exchange::begin(Link::Tcp, command.request, expected, 120_000, false);
    exchange.on(Event::Opened);
    let step = exchange.on(Event::Written);
    assert_eq!(step.state, Some("WAITING"));
    assert!(matches!(step.action, Action::Read));
    exchange
}

#[test]
fn cancel_releases_the_caller_without_waiting_for_the_terminal() {
    let mut board = CommandBoard::new();
    let terminal = terminal_on(10009);
    let _exchange = sale_in_flight(&mut board, &terminal);
    let mut wait = Wait::Waiting;
    assert!(is_busy(&board, &terminal));

    assert!(cancel(&mut board, &terminal), "cancel found nothing in flight");
    let result = match wait.on(WaitEvent::Canceled, false) {
        WaitAction::Answer(r) => r,
        other => panic!("the caller was not answered: {other:?}"),
    };

    let err = result.expect_err("cancelled sale should not report success");
    assert_eq!(err.code, "CANCELED", "unexpected error: {err:?}");
    assert_eq!(wait, Wait::Over);

    // The prompt is still up on the device, so the terminal stays busy: a new
    // sale must not be sent while the old one can still take a card.
    assert!(is_busy(&board, &terminal), "terminal freed while its card prompt is still live");
}

#[test]
fn a_card_completed_after_cancel_reaches_the_late_handler() {
    let mut board = CommandBoard::new();
    let terminal = terminal_on(10009);
    let mut exchange = sale_in_flight(&mut board, &terminal);
    let mut wait = Wait::Waiting;

    // Cancel while the customer is still at the prompt.
    assert!(cancel(&mut board, &terminal), "cancel found nothing in flight");
    let err = match wait.on(WaitEvent::Canceled, true) {
        WaitAction::Answer(r) => r.expect_err("cancelled sale should not report success"),
        other => panic!("the caller was not answered: {other:?}"),
    };
    assert_eq!(err.code, "CANCELED", "unexpected error: {err:?}");

    // The terminal approved after we walked away: the handler must see it so
    // the charge can be voided instead of quietly standing.
    let parsed = match exchange.on(Event::Received(approved_t01())).action {
        Action::Accept(ack, parsed) => {
            assert_eq!(ack, vec![0x06]);
            parsed
        }
        other => panic!("the response was not accepted: {other:?}"),
    };
    let late = match wait.on(WaitEvent::Result(Ok(parsed)), true) {
        WaitAction::HandLate(r) => credit_result(r).expect("late result should be a parsed approval"),
        other => panic!("late result never reached the handler: {other:?}"),
    };
    assert!(late.approved, "late result should be approved: {late:?}");
    assert_eq!(late.approved_amount_cents, 11000);
    assert_eq!(late.ref_num, "42");

    let key = Target::from_terminal(&terminal).key();
    board.finish(&key);
    assert!(!is_busy(&board, &terminal));
}

#[test]
fn cancel_with_nothing_in_flight_is_a_noop() {
    let mut board = CommandBoard::new();
    let terminal = terminal_on(1);
    assert!(!cancel(&mut board, &terminal));
}
