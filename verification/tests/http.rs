use pax_bridge::db::terminal::NumberReading;
use pax_bridge::db::{Db, MainFile, TerminalNumbers, TxQuery};
use pax_bridge::http::late::{record_late_result, record_late_result_at, record_late_void, record_late_void_at};
use pax_bridge::http::payments::{
    cancel_payment, cancel_payment_reply, finish_payment, finish_payment_at, get_payment, lifecycle_event,
    list_payments, refund_payment, require_terminal, sale_payment, settle_void, settle_void_at, start_payment,
    start_payment_at, void_payment, PaymentPlan, StartedPayment,
};
use pax_bridge::http::terminals::{
    batch_close_terminal, cancel_terminal, cancel_terminal_reply, create_terminal, create_terminal_with,
    delete_terminal_handler, device_json, diagnose_reply, finish_batch_close, finish_batch_close_at,
    get_serial_ports, list_terminals, ping_reply, ping_terminal, update_terminal_handler,
};
use pax_bridge::http::validate::validate_terminal;
use pax_bridge::http::{
    api_root, error_map, health, merge_json, non_empty, not_found, pax_error_response, validation_error, Reply,
};
use pax_bridge::json::{Json, Number, Object};
use pax_bridge::protocol::{
    build_message, parse_batch_response, parse_credit_response, parse_initialize, parse_response, CreditResponse,
    Field, PaxError,
};
use pax_bridge::serial::describe_port;
use pax_bridge::transport::{CommandBoard, Target};

fn value(j: &Json) -> serde_json::Value {
    match j {
        Json::Null => serde_json::Value::Null,
        Json::Bool(b) => serde_json::Value::Bool(*b),
        Json::Num(Number::Int(n)) => serde_json::Value::from(*n),
        Json::Num(Number::Big(n)) => serde_json::Value::from(*n),
        Json::Num(Number::Float(bits)) => serde_json::Value::from(f64::from_bits(*bits)),
        Json::Str(s) => serde_json::Value::String(s.clone()),
        Json::Arr(items) => serde_json::Value::Array(items.iter().map(value).collect()),
        Json::Obj(o) => fields(o),
    }
}

fn fields(o: &Object) -> serde_json::Value {
    let mut map = serde_json::Map::new();
    for (k, v) in &o.entries {
        map.insert(k.clone(), value(v));
    }
    serde_json::Value::Object(map)
}

fn json(v: &serde_json::Value) -> Json {
    match v {
        serde_json::Value::Null => Json::Null,
        serde_json::Value::Bool(b) => Json::Bool(*b),
        serde_json::Value::Number(n) => match (n.as_i64(), n.as_u64()) {
            (Some(i), _) => Json::Num(Number::Int(i)),
            (None, Some(u)) => Json::Num(Number::Big(u)),
            _ => Json::Num(Number::Float(n.as_f64().unwrap().to_bits())),
        },
        serde_json::Value::String(s) => Json::of_str(s),
        serde_json::Value::Array(a) => Json::Arr(a.iter().map(json).collect()),
        serde_json::Value::Object(m) => {
            let mut o = Object::new();
            for (k, v) in m {
                o.set(k, json(v));
            }
            Json::Obj(o)
        }
    }
}

fn body(text: &str) -> Json {
    json(&serde_json::from_str(text).unwrap())
}

fn expected(text: &str) -> serde_json::Value {
    serde_json::from_str(text).unwrap()
}

fn shown(r: &Reply) -> (u16, serde_json::Value) {
    (r.status, r.body.as_ref().map(value).unwrap_or(serde_json::Value::Null))
}

fn no_numbers() -> TerminalNumbers {
    TerminalNumbers { port: None, baud_rate: None }
}

fn reading(non_positive: bool) -> Option<NumberReading> {
    Some(NumberReading { non_positive, as_u16: 5, as_u32: 5 })
}

/// A database with one TCP terminal `t1`.
fn till() -> Db {
    let mut db = Db::load_from(MainFile::Missing, vec![], "2026-07-10");
    let r = create_terminal_with(
        &mut db,
        &body(r#"{"name":"Till","ip":"10.0.0.5"}"#),
        &no_numbers(),
        "t1".into(),
        "2026-07-10T00:00:00+00:00".into(),
    );
    assert_eq!(r.status, 201);
    db
}

fn busy_board(db: &Db) -> CommandBoard {
    let mut board = CommandBoard::new();
    let terminal = db.get_terminal("t1").unwrap();
    board.enqueue(&terminal);
    board.start(&Target::from_terminal(&terminal).key());
    board
}

fn credit(code: &str) -> CreditResponse {
    let sub = |parts: &[&str]| Field::Sub(parts.iter().map(|p| p.to_string()).collect());
    let m = build_message(&[
        Field::from("T01"),
        Field::from("1.28"),
        Field::from(code),
        Field::from("TXT"),
        sub(&["0", "APPROVAL", "AUTH123", "HOST9"]),
        Field::from(""),
        sub(&["11000", "0"]),
        sub(&["************1234", "", "VISA", "CHIP"]),
        sub(&["1", "7", "42", "20260816120000"]),
    ]);
    parse_credit_response(&parse_response(&m).unwrap())
}

fn approved() -> CreditResponse {
    credit("000000")
}

fn error(code: &'static str) -> PaxError {
    PaxError::new(code, "it broke".to_string())
}

fn sale_plan(db: &Db) -> PaymentPlan {
    sale_payment(db, &body(r#"{"terminalId":"t1","orderRef":"o9"}"#), Some(11000), 250).unwrap()
}

fn started(db: &mut Db, plan: &PaymentPlan, id: &str) -> StartedPayment {
    start_payment_at(
        db,
        &CommandBoard::new(),
        plan,
        "20260710",
        id.to_string(),
        "2026-07-10T08:00:00+00:00",
        "2026-07-10",
    )
    .unwrap()
}

#[test]
fn error_codes_have_a_status_and_a_hint() {
    let status = |code: &str| error_map(code).0;
    for code in ["TERMINAL_BUSY", "CANCELED"] {
        assert_eq!(status(code), 409);
    }
    assert_eq!(status("TIMEOUT"), 504);
    for code in [
        "CONNECTION_REFUSED",
        "HOST_UNREACHABLE",
        "CONNECTION_CLOSED",
        "LRC_MISMATCH",
        "MALFORMED_RESPONSE",
        "UNEXPECTED_RESPONSE",
        "WRITE_FAILED",
        "SOCKET_ERROR",
        "SERIAL_OPEN_FAILED",
        "SERIAL_ERROR",
    ] {
        assert_eq!(status(code), 502);
    }
    assert_eq!(status("SERIAL_UNAVAILABLE"), 500);
    assert_eq!(error_map("WHATEVER"), (500, "Unexpected server error."));
    assert_eq!(error_map("WRITE_FAILED").1, "Failed to send the command to the terminal.");
    assert!(error_map("SERIAL_UNAVAILABLE").1.contains("(the \"serialport\" native module)"));
}

#[test]
fn plain_replies() {
    assert_eq!(
        shown(&pax_error_response(&error("WRITE_FAILED"))),
        (502, expected(r#"{"error":{"code":"WRITE_FAILED","message":"it broke","hint":"Failed to send the command to the terminal."}}"#))
    );
    assert_eq!(shown(&not_found("gone")), (404, expected(r#"{"error":{"code":"NOT_FOUND","message":"gone"}}"#)));
    assert_eq!(
        shown(&validation_error("bad")),
        (400, expected(r#"{"error":{"code":"VALIDATION","message":"bad"}}"#))
    );
    assert_eq!(
        shown(&health()),
        (200, expected(r#"{"status":"ok","message":"Server is running","bridgeVersion":"rust-tauri"}"#))
    );
    assert_eq!(shown(&api_root()), (200, expected(r#"{"message":"Welcome to the API"}"#)));
    assert_eq!((non_empty(""), non_empty("x")), ("-", "x"));
    assert_eq!(value(&merge_json(body(r#"{"a":1,"b":2}"#), &body(r#"{"b":3}"#))), expected(r#"{"a":1,"b":3}"#));
    assert_eq!(value(&merge_json(body("[1]"), &body(r#"{"b":3}"#))), expected("[1]"));
    assert_eq!(value(&merge_json(body(r#"{"a":1}"#), &body("7"))), expected(r#"{"a":1}"#));
}

#[test]
fn terminal_bodies_are_checked() {
    let errors = |text: &str, partial: bool, n: TerminalNumbers| validate_terminal(&body(text), partial, &n);
    assert_eq!(
        errors("{}", false, no_numbers()),
        vec!["name is required", "ip is required for LAN (TCP) terminals"]
    );
    assert!(errors("{}", true, no_numbers()).is_empty());
    assert_eq!(errors(r#"{"name":" "}"#, true, no_numbers()), vec!["name is required"]);
    assert_eq!(
        errors(r#"{"name":"a","connType":"ble","ip":"1"}"#, false, no_numbers()),
        vec!["connType must be 'tcp' or 'usb'"]
    );
    assert_eq!(
        errors(r#"{"connType":"usb","baudRate":"x"}"#, true, no_numbers()),
        vec!["serialPath is required for USB terminals", "baudRate must be a positive number"]
    );
    let bad_port = TerminalNumbers { port: reading(true), baud_rate: None };
    assert_eq!(
        errors(r#"{"name":"a","ip":"1","port":-1,"model":"X1"}"#, false, bad_port),
        vec!["port must be a positive number", "model must be one of: A920 Pro, A35"]
    );
    let good = TerminalNumbers { port: reading(false), baud_rate: None };
    assert!(errors(r#"{"name":"a","ip":"1","port":5,"model":"A35"}"#, false, good).is_empty());
    assert!(errors(r#"{"port":-1,"ip":""}"#, true, bad_port).is_empty());
    assert!(errors(r#"[1]"#, true, no_numbers()).is_empty());
}

#[test]
fn terminals_are_created_listed_changed_and_removed() {
    let mut db = till();
    let r = create_terminal(&mut db, &body(r#"{"ip":"1"}"#), &no_numbers());
    assert_eq!(
        shown(&r),
        (400, expected(r#"{"error":{"code":"VALIDATION","message":"name is required"}}"#))
    );
    let r = create_terminal(&mut db, &body("{}"), &no_numbers());
    assert_eq!(
        shown(&r).1["error"]["message"],
        expected(r#""name is required; ip is required for LAN (TCP) terminals""#)
    );
    assert_eq!(db.list_terminals().len(), 1);
    let r = create_terminal(&mut db, &body(r#"{"name":"B","ip":"1"}"#), &no_numbers());
    assert_eq!(r.status, 201);
    let list = shown(&list_terminals(&db));
    assert_eq!(list.0, 200);
    assert_eq!(list.1["terminals"].as_array().unwrap().len(), 2);
    assert_eq!(list.1["terminals"][0]["id"], expected(r#""t1""#));
    let r = update_terminal_handler(&mut db, "t1", &body(r#"{"name":"C"}"#), &no_numbers());
    assert_eq!((r.status, shown(&r).1["terminal"]["name"].clone()), (200, expected(r#""C""#)));
    assert_eq!(update_terminal_handler(&mut db, "t1", &body(r#"{"name":""}"#), &no_numbers()).status, 400);
    assert_eq!(update_terminal_handler(&mut db, "zz", &body("{}"), &no_numbers()).status, 404);
    assert_eq!(shown(&delete_terminal_handler(&mut db, "t1")), (204, serde_json::Value::Null));
    assert_eq!(
        shown(&delete_terminal_handler(&mut db, "t1")),
        (404, expected(r#"{"error":{"code":"NOT_FOUND","message":"Terminal not found"}}"#))
    );
}

#[test]
fn serial_ports_are_shown() {
    let r = get_serial_ports(Ok(vec![describe_port("/dev/x".into(), None)]));
    assert_eq!(
        shown(&r),
        (200, expected(r#"{"ports":[{"path":"/dev/x","manufacturer":"","vendorId":"","productId":"","serialNumber":""}]}"#))
    );
    assert_eq!(get_serial_ports(Err(error("SERIAL_UNAVAILABLE"))).status, 500);
}

#[test]
fn pings_do_not_queue_behind_a_live_command() {
    let db = till();
    assert_eq!(ping_terminal(&db, &CommandBoard::new(), "zz").unwrap_err().status, 404);
    assert_eq!(ping_terminal(&db, &CommandBoard::new(), "t1").unwrap().name, "Till");
    let r = ping_terminal(&db, &busy_board(&db), "t1").unwrap_err();
    assert_eq!(
        shown(&r),
        (409, expected(r#"{"online":true,"error":{"code":"TERMINAL_BUSY","message":"Terminal is busy",
        "hint":"Finish the transaction on the terminal, or clear its card prompt with the red Cancel key, then try again."}}"#))
    );
    let info = parse_initialize(&parse_response(&build_message(&[Field::from("A01")])).unwrap());
    let r = shown(&ping_reply(Ok(info)));
    assert_eq!((r.0, r.1["online"].clone(), r.1["info"]["raw"].clone()), (200, expected("true"), expected(r#"["A01"]"#)));
    let r = shown(&ping_reply(Err(error("HOST_UNREACHABLE"))));
    assert_eq!((r.0, r.1["online"].clone(), r.1["error"]["code"].clone()), (502, expected("false"), expected(r#""HOST_UNREACHABLE""#)));
    assert_eq!(shown(&diagnose_reply(Ok(body("[1]")))), (200, expected(r#"{"report":[1]}"#)));
    assert_eq!(diagnose_reply(Err(error("SERIAL_UNAVAILABLE"))).status, 500);
}

#[test]
fn a_cancel_needs_something_in_flight() {
    let db = till();
    let mut idle = CommandBoard::new();
    assert_eq!(cancel_terminal(&db, &mut idle, "zz").unwrap_err().status, 404);
    assert_eq!(
        shown(&cancel_terminal(&db, &mut idle, "t1").unwrap_err()),
        (409, expected(r#"{"error":{"code":"NOT_IN_FLIGHT","message":"No command is currently in flight for this terminal.",
        "hint":"The payment may have just completed — check its status before retrying."}}"#))
    );
    let mut board = busy_board(&db);
    assert_eq!(cancel_terminal(&db, &mut board, "t1").unwrap().id, "t1");
    assert_eq!(
        shown(&cancel_terminal_reply("t1", &None)),
        (200, expected(r#"{"canceled":true,"terminalId":"t1","deviceCancel":{"sent":true}}"#))
    );
    assert_eq!(
        shown(&cancel_payment_reply("x1", &Some(error("CANCEL_FAILED")))),
        (200, expected(r#"{"canceled":true,"txnId":"x1","deviceCancel":{"sent":false,"code":"CANCEL_FAILED","message":"it broke"}}"#))
    );
    assert_eq!(value(&device_json(&None)), expected(r#"{"sent":true}"#));
}

#[test]
fn a_batch_settles_what_the_terminal_took() {
    let mut db = till();
    for (id, terminal) in [("a", "t1"), ("b", "t2"), ("c", "t1")] {
        let tx = Object::new()
            .put("type", Json::of_str("SALE"))
            .put("status", Json::of_str("APPROVED"))
            .put("terminalId", Json::of_str(terminal));
        db.create_transaction_with(&tx, id.into(), "2026-07-10T00", "2026-07-10");
    }
    assert_eq!(batch_close_terminal(&db, &CommandBoard::new(), "zz").unwrap_err().status, 404);
    let r = batch_close_terminal(&db, &busy_board(&db), "t1").unwrap_err();
    assert_eq!((r.status, shown(&r).1["error"]["hint"].clone()), (409, expected(r#""Wait for the current transaction to finish.""#)));
    let plan = batch_close_terminal(&db, &CommandBoard::new(), "t1").unwrap();
    assert_eq!(plan.rows.len(), 2);
    let batch = |code: &str| {
        let m = build_message(&[
            Field::from("B01"),
            Field::from("1.54"),
            Field::from(code),
            Field::from("T"),
            Field::from("77"),
        ]);
        parse_batch_response(&parse_response(&m).unwrap())
    };
    let r = finish_batch_close_at(&mut db, &plan.rows, Ok(batch("100001")), "s", "n", "2026-07-10");
    assert_eq!((r.status, shown(&r).1["settledCount"].clone()), (200, expected("0")));
    assert_eq!(db.list_unsettled().len(), 3);
    assert_eq!(finish_batch_close(&mut db, &plan.rows, Err(error("TIMEOUT"))).status, 504);
    let r = finish_batch_close_at(&mut db, &plan.rows, Ok(batch("000000")), "s", "n", "2026-07-10");
    assert_eq!((r.status, shown(&r).1["settledCount"].clone()), (200, expected("2")));
    assert_eq!(db.list_unsettled().len(), 1);
    let row = fields(&db.get_transaction("a").unwrap());
    assert_eq!(row["batchInfo"], expected(r#"{"batchNumber":"77","settledAt":"s"}"#));
    assert_eq!(row["updatedAt"], expected(r#""n""#));
    assert!(void_payment(&db, &body(r#"{"terminalId":"t1","origTxnId":"a"}"#)).is_err());
}

#[test]
fn payments_need_a_terminal_and_an_amount() {
    let db = till();
    let no_terminal = r#"{"error":{"code":"NOT_FOUND","message":"Terminal not found. Check terminalId."}}"#;
    assert_eq!(shown(&require_terminal(&db, &body("{}")).unwrap_err()), (404, expected(no_terminal)));
    assert_eq!(require_terminal(&db, &body(r#"{"terminalId":"t1"}"#)).unwrap().id, "t1");
    assert_eq!(sale_payment(&db, &body(r#"{"terminalId":"x"}"#), Some(5), 0).unwrap_err().status, 404);
    let r = sale_payment(&db, &body(r#"{"terminalId":"t1"}"#), None, 0).unwrap_err();
    assert_eq!(
        shown(&r),
        (400, expected(r#"{"error":{"code":"VALIDATION","message":"amountCents must be a positive integer (cents)"}}"#))
    );
    assert_eq!(refund_payment(&db, &body(r#"{"terminalId":"t1"}"#), None).unwrap_err().status, 400);
    assert_eq!(refund_payment(&db, &body("{}"), None).unwrap_err().status, 404);
    let plan = refund_payment(&db, &body(r#"{"terminalId":"t1","orderRef":5}"#), Some(500)).unwrap();
    assert_eq!((plan.kind.tx_type(), plan.kind.tip(), plan.amount_cents, plan.order_ref.clone()), ("RETURN", 0, 500, None));
    let p = parse_response(&plan.command("r1", "02", "1.54").request).unwrap();
    assert_eq!(p.fields[2..6], ["03", "500", "", "r1"].map(String::from));
    let plan = sale_plan(&db);
    let p = parse_response(&plan.command("r1", "01", "1.54").request).unwrap();
    assert_eq!(p.fields[2..6], ["01", "11000\u{1f}250", "", "r1"].map(String::from));
}

#[test]
fn a_payment_is_recorded_before_it_is_sent() {
    let mut db = till();
    let plan = sale_plan(&db);
    let r = start_payment(&mut db, &busy_board(&till()), &plan).unwrap_err();
    assert_eq!(
        shown(&r),
        (409, expected(r#"{"error":{"code":"TERMINAL_BUSY","message":"Terminal is busy",
        "hint":"Finish the transaction on the terminal, or clear its card prompt with the red Cancel key, then try again."}}"#))
    );
    let mut spent = till();
    spent.data.ecr_seq.set("20260710", u32::MAX);
    assert_eq!(start_payment(&mut spent, &busy_board(&till()), &plan).unwrap_err().status, 409);
    assert!(db.data.transactions.is_empty() && db.data.ecr_seq.entries.is_empty());
    let p = started(&mut db, &plan, "txn_1");
    assert_eq!((p.txn_id.as_str(), p.ecr_ref_num.as_str()), ("txn_1", "202607100001"));
    assert_eq!(
        fields(&db.get_transaction("txn_1").unwrap()),
        expected(
            r#"{"id":"txn_1","createdAt":"2026-07-10T08:00:00+00:00","updatedAt":"2026-07-10T08:00:00+00:00",
            "status":"PENDING","terminalId":"t1","terminalName":"Till","type":"SALE","amountCents":11000,
            "tipCents":250,"orderRef":"o9","ecrRefNum":"202607100001"}"#
        )
    );
    let live = start_payment(&mut db, &CommandBoard::new(), &plan).unwrap();
    assert!(live.txn_id.starts_with("txn_") && live.ecr_ref_num.len() >= 12);
    assert_eq!(fields(&db.get_transaction(&live.txn_id).unwrap()), fields(&live.txn));
}

#[test]
fn states_are_announced() {
    let kind = |s: &str| lifecycle_event(s, "x", "r").map(|o| fields(&o));
    assert_eq!(kind("SENDING"), Some(expected(r#"{"type":"SENDING","txnId":"x","ecrRefNum":"r"}"#)));
    assert_eq!(kind("WAITING"), Some(expected(r#"{"type":"WAITING_FOR_CARD","txnId":"x","ecrRefNum":"r"}"#)));
    assert_eq!(kind("RECEIVING"), Some(expected(r#"{"type":"PROCESSING","txnId":"x","ecrRefNum":"r"}"#)));
    assert_eq!(kind("OTHER"), None);
}

#[test]
fn an_approval_is_answered_with_success() {
    let mut db = till();
    let plan = sale_plan(&db);
    let p = started(&mut db, &plan, "txn_1");
    let f = finish_payment_at(&mut db, &p, Ok(approved()), true, "later", "2026-07-10");
    assert_eq!(f.reply.status, 200);
    let (_, reply) = shown(&f.reply);
    assert_eq!(reply["transaction"], fields(&db.get_transaction("txn_1").unwrap()));
    assert_eq!(reply["transaction"]["status"], expected(r#""APPROVED""#));
    assert_eq!(reply["transaction"]["offlineApproval"], expected("true"));
    assert_eq!(reply["transaction"]["approvedAmountCents"], expected("11000"));
    assert_eq!(reply["transaction"]["refNum"], expected(r#""42""#));
    assert_eq!(reply["transaction"]["transactionNum"], expected(r#""7""#));
    assert_eq!(reply["transaction"]["last4"], expected(r#""1234""#));
    assert_eq!(reply["transaction"]["cardType"], expected(r#""VISA""#));
    assert_eq!(reply["transaction"]["authCode"], expected(r#""AUTH123""#));
    assert_eq!(reply["transaction"]["response"], reply["result"]);
    assert_eq!(reply["transaction"]["updatedAt"], expected(r#""later""#));
    let event = fields(&f.event);
    assert_eq!(event["type"], expected(r#""APPROVED""#));
    assert_eq!(event["result"], reply["result"]);
}

#[test]
fn a_decline_is_402() {
    let mut db = till();
    let plan = sale_plan(&db);
    let p = started(&mut db, &plan, "txn_1");
    let f = finish_payment(&mut db, &p, Ok(credit("100001")), false);
    assert_eq!(f.reply.status, 402);
    assert_eq!(f.record.text_or_empty("status"), "DECLINED");
    assert_eq!(fields(&f.event)["type"], expected(r#""DECLINED""#));
    assert_eq!(f.record.flag("offlineApproval"), Some(false));
}

#[test]
fn a_cancel_leaves_the_outcome_unknown() {
    let mut db = till();
    let plan = sale_plan(&db);
    let p = started(&mut db, &plan, "txn_1");
    let f = finish_payment_at(&mut db, &p, Err(error("CANCELED")), false, "later", "2026-07-10");
    assert_eq!(f.reply.status, 409);
    let (_, reply) = shown(&f.reply);
    assert_eq!(reply["transaction"]["status"], expected(r#""CANCELED""#));
    assert_eq!(reply["transaction"]["unknown"], expected("true"));
    assert_eq!(reply["transaction"]["error"], expected(r#"{"code":"CANCELED","message":"it broke"}"#));
    assert_eq!(reply["error"]["hint"], serde_json::Value::String(error_map("CANCELED").1.to_string()));
    assert_eq!(fields(&f.event), expected(r#"{"type":"CANCELED","txnId":"txn_1","ecrRefNum":"202607100001"}"#));
}

#[test]
fn a_timeout_is_504() {
    let mut db = till();
    let plan = sale_plan(&db);
    let p = started(&mut db, &plan, "txn_1");
    let f = finish_payment_at(&mut db, &p, Err(error("TIMEOUT")), false, "later", "2026-07-10");
    assert_eq!(f.reply.status, 504);
    assert_eq!(f.record.text_or_empty("status"), "TIMEOUT");
    assert_eq!(f.record.flag("unknown"), Some(true));
    assert_eq!(fields(&f.event), expected(r#"{"type":"TIMEOUT","txnId":"txn_1"}"#));
}

#[test]
fn other_errors_keep_their_status() {
    let mut db = till();
    let plan = sale_plan(&db);
    let p = started(&mut db, &plan, "txn_1");
    let f = finish_payment_at(&mut db, &p, Err(error("SOCKET_ERROR")), false, "later", "2026-07-10");
    assert_eq!(f.reply.status, 502);
    assert_eq!(f.record.text_or_empty("status"), "ERROR");
    assert_eq!(f.record.flag("unknown"), None);
    assert_eq!(
        fields(&f.event),
        expected(r#"{"type":"ERROR","txnId":"txn_1","error":{"code":"SOCKET_ERROR","message":"it broke"}}"#)
    );
    db.data.transactions.clear();
    let f = finish_payment_at(&mut db, &p, Err(error("SOCKET_ERROR")), false, "later", "2026-07-10");
    assert_eq!(f.record.text_or_empty("status"), "PENDING");
}

#[test]
fn only_approved_unsettled_transactions_are_voided() {
    let mut db = till();
    let plan = sale_plan(&db);
    let p = started(&mut db, &plan, "txn_1");
    let ask = body(r#"{"terminalId":"t1","origTxnId":"txn_1"}"#);
    let invalid = |m: &str| {
        (400, expected(&format!(r#"{{"error":{{"code":"INVALID_STATE","message":"{m}"}}}}"#)))
    };
    assert_eq!(shown(&void_payment(&db, &ask).unwrap_err()), invalid("Only APPROVED transactions can be voided."));
    assert_eq!(void_payment(&db, &body(r#"{"terminalId":"t1"}"#)).unwrap_err().status, 404);
    assert_eq!(
        shown(&void_payment(&db, &body(r#"{"terminalId":"t1","origTxnId":"zz"}"#)).unwrap_err()).1["error"]["message"],
        expected(r#""Original transaction not found (origTxnId).""#)
    );
    assert_eq!(void_payment(&db, &body(r#"{"origTxnId":"txn_1"}"#)).unwrap_err().status, 404);
    finish_payment_at(&mut db, &p, Ok(approved()), false, "later", "2026-07-10");
    let void = void_payment(&db, &ask).unwrap();
    assert_eq!((void.kind.tx_type(), void.amount_cents, void.order_ref.as_deref()), ("VOID", 11000, Some("o9")));
    let sent = parse_response(&void.command("r2", "02", "1.54").request).unwrap();
    assert_eq!(sent.fields[2..6], ["04", "11000", "", "r2\u{1f}\u{1f}42\u{1f}7"].map(String::from));

    let v = started(&mut db, &void, "txn_2");
    assert_eq!(fields(&v.txn)["voidOfTxnId"], expected(r#""txn_1""#));
    assert_eq!(fields(&v.txn)["voidOfRefNum"], expected(r#""42""#));
    let declined = finish_payment_at(&mut db, &v, Ok(credit("1")), false, "later", "2026-07-10");
    settle_void(&mut db, "txn_1", &declined.record);
    assert_eq!(db.get_transaction("txn_1").unwrap().text_or_empty("status"), "APPROVED");
    let done = finish_payment_at(&mut db, &v, Ok(approved()), false, "later", "2026-07-10");
    settle_void_at(&mut db, "txn_1", &done.record, "later", "2026-07-10");
    let orig = db.get_transaction("txn_1").unwrap();
    assert_eq!((orig.text_or_empty("status"), orig.text_or_empty("voidedByTxnId")), ("VOIDED".into(), "txn_2".into()));
    assert_eq!(shown(&void_payment(&db, &ask).unwrap_err()), invalid("Only APPROVED transactions can be voided."));

    db.update_transaction_at("txn_1", &Object::new().put("status", Json::of_str("APPROVED")).put("settled", Json::Bool(true)), "n", "2026-07-10");
    assert_eq!(
        shown(&void_payment(&db, &ask).unwrap_err()),
        invalid("Transaction already settled — issue a refund instead of a void.")
    );
}

#[test]
fn a_late_charge_is_voided() {
    let mut db = till();
    let plan = sale_plan(&db);
    let p = started(&mut db, &plan, "txn_1");
    finish_payment_at(&mut db, &p, Err(error("CANCELED")), false, "t1", "2026-07-10");
    let s = record_late_result_at(&mut db, "txn_1", &p.ecr_ref_num, "SALE", Ok(approved()), "t2", "2026-07-10");
    let row = db.get_transaction("txn_1").unwrap();
    assert_eq!((row.text_or_empty("status"), row.flag("unknown"), row.flag("canceledByPos")), ("APPROVED".into(), Some(true), Some(true)));
    assert_eq!(fields(&s.event)["type"], expected(r#""APPROVED""#));
    let void = s.void.unwrap();
    assert_eq!((void.orig_ref_num.as_str(), void.amount_cents, void.orig_trans_num.as_deref()), ("42", 11000, Some("7")));
    let sent = parse_response(&void.command("r9", "1.54").request).unwrap();
    assert_eq!(sent.fields[2..6], ["04", "11000", "", "r9\u{1f}\u{1f}42\u{1f}7"].map(String::from));

    let e = record_late_void_at(&mut db, "txn_1", &p.ecr_ref_num, "r9", Err(error("TIMEOUT")), "t3", "2026-07-10");
    assert_eq!(fields(&e)["type"], expected(r#""VOID_FAILED""#));
    let row = db.get_transaction("txn_1").unwrap();
    assert_eq!((row.text_or_empty("status"), row.flag("unknown")), ("APPROVED".into(), Some(true)));
    assert_eq!(fields(&row)["voidError"], expected(r#"{"code":"TIMEOUT","message":"it broke"}"#));

    let e = record_late_void(&mut db, "txn_1", &p.ecr_ref_num, "r9", Ok(credit("100002")));
    assert_eq!(fields(&e)["type"], expected(r#""VOID_FAILED""#));
    let row = db.get_transaction("txn_1").unwrap();
    assert_eq!(fields(&row)["voidError"], expected(r#"{"code":"100002","message":"TXT"}"#));

    let e = record_late_void_at(&mut db, "txn_1", &p.ecr_ref_num, "r9", Ok(approved()), "t4", "2026-07-10");
    assert_eq!(fields(&e), expected(r#"{"type":"VOIDED","txnId":"txn_1","ecrRefNum":"202607100001"}"#));
    let row = db.get_transaction("txn_1").unwrap();
    assert_eq!((row.text_or_empty("status"), row.flag("unknown")), ("VOIDED".into(), Some(false)));
    assert_eq!(row.text_or_empty("voidedByEcrRefNum"), "r9");
}

#[test]
fn a_late_end_without_a_charge_settles_the_cancel() {
    let mut db = till();
    let plan = sale_plan(&db);
    let p = started(&mut db, &plan, "txn_1");
    finish_payment_at(&mut db, &p, Err(error("CANCELED")), false, "t1", "2026-07-10");
    let s = record_late_result(&mut db, "txn_1", "e", "SALE", Err(error("TIMEOUT")));
    assert!(s.void.is_none());
    assert_eq!(fields(&s.event), expected(r#"{"type":"CANCELED","txnId":"txn_1","ecrRefNum":"e"}"#));
    let row = db.get_transaction("txn_1").unwrap();
    assert_eq!((row.text_or_empty("status"), row.flag("unknown")), ("CANCELED".into(), Some(false)));
    let s = record_late_result_at(&mut db, "txn_1", "e", "SALE", Ok(credit("100001")), "t2", "2026-07-10");
    assert!(s.void.is_none());
    assert_eq!(fields(&s.event)["type"], expected(r#""CANCELED""#));
    assert_eq!(fields(&s.event)["result"]["resultCode"], expected(r#""100001""#));
}

#[test]
fn a_late_refund_is_not_reversed() {
    let mut db = till();
    let plan = refund_payment(&db, &body(r#"{"terminalId":"t1"}"#), Some(500)).unwrap();
    let p = started(&mut db, &plan, "txn_1");
    let s = record_late_result_at(&mut db, &p.txn_id, "e", "RETURN", Ok(approved()), "t2", "2026-07-10");
    assert!(s.void.is_none());
    assert_eq!(db.get_transaction("txn_1").unwrap().flag("unknown"), Some(true));
}

#[test]
fn payments_are_listed_and_shown() {
    let mut db = till();
    let plan = sale_plan(&db);
    started(&mut db, &plan, "txn_1");
    let q = TxQuery {
        status: None,
        tx_type: Some("SALE".into()),
        from: None,
        to: None,
        terminal_id: Some("t1".into()),
        page: None,
        page_size: None,
    };
    let r = shown(&list_payments(&db, &q));
    assert_eq!((r.0, r.1["total"].clone(), r.1["rows"][0]["id"].clone()), (200, expected("1"), expected(r#""txn_1""#)));
    assert_eq!(shown(&get_payment(&db, "txn_1")).1["transaction"]["status"], expected(r#""PENDING""#));
    assert_eq!(
        shown(&get_payment(&db, "zz")),
        (404, expected(r#"{"error":{"code":"NOT_FOUND","message":"Transaction not found"}}"#))
    );
}

#[test]
fn only_a_pending_payment_is_canceled() {
    let mut db = till();
    let plan = sale_plan(&db);
    let p = started(&mut db, &plan, "txn_1");
    let mut board = busy_board(&db);
    assert_eq!(cancel_payment(&db, &mut board, "zz").unwrap_err().status, 404);
    assert_eq!(cancel_payment(&db, &mut board, "txn_1").unwrap().id, "t1");
    assert_eq!(
        shown(&cancel_payment(&db, &mut CommandBoard::new(), "txn_1").unwrap_err()).1["error"]["code"],
        expected(r#""NOT_IN_FLIGHT""#)
    );
    finish_payment_at(&mut db, &p, Ok(approved()), false, "later", "2026-07-10");
    assert_eq!(
        shown(&cancel_payment(&db, &mut board, "txn_1").unwrap_err()),
        (409, expected(r#"{"error":{"code":"NOT_CANCELABLE","message":"Transaction already finished with status APPROVED.",
        "hint":"Only a payment still waiting on the terminal can be cancelled."}}"#))
    );
    db.delete_terminal("t1");
    started(&mut db, &plan, "txn_2");
    assert_eq!(
        shown(&cancel_payment(&db, &mut board, "txn_2").unwrap_err()).1["error"]["message"],
        expected(r#""Terminal for this transaction no longer exists""#)
    );
}
