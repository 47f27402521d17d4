use pax_bridge::json::{Json, Number, Object};
use pax_bridge::protocol::{
    build_batch_close_fields, build_cancel_fields, build_credit_fields, build_initialize_fields,
    build_message, compute_lrc, fields_for_log, fire_state, first_frame_len, has_complete_frame,
    is_all_digits, is_cmd_code, last_four, parse_batch_response, parse_body, parse_credit_response,
    parse_initialize, parse_response, response_for, sub_fields, to_cents, CreditFieldsInput, Field,
    PaxError, ETX, FS, STX, TXN_TYPE_VOID, US,
};
use std::cell::RefCell;

fn value(j: &Json) -> serde_json::Value {
    match j {
        Json::Null => serde_json::Value::Null,
        Json::Bool(b) => serde_json::Value::Bool(*b),
        Json::Num(Number::Int(n)) => serde_json::Value::from(*n),
        Json::Num(Number::Big(n)) => serde_json::Value::from(*n),
        Json::Num(Number::Float(bits)) => serde_json::Value::from(f64::from_bits(*bits)),
        Json::Str(s) => serde_json::Value::String(s.clone()),
        Json::Arr(items) => serde_json::Value::Array(items.iter().map(value).collect()),
        Json::Obj(o) => object_value(o),
    }
}

fn object_value(o: &Object) -> serde_json::Value {
    let mut map = serde_json::Map::new();
    for (k, v) in &o.entries {
        map.insert(k.clone(), value(v));
    }
    serde_json::Value::Object(map)
}

fn expected(text: &str) -> serde_json::Value {
    serde_json::from_str(text).unwrap()
}

fn single(s: &str) -> Field {
    Field::Single(s.to_string())
}

fn sub(parts: &[&str]) -> Field {
    Field::Sub(parts.iter().map(|p| p.to_string()).collect())
}

fn approved_t01() -> Vec<u8> {
    build_message(&[
        single("T01"),
        single("1.28"),
        single("000000"),
        single("OK"),
        sub(&["0", "APPROVAL", "AUTH123", "HOST9"]),
        single(""),
        sub(&["11000", "0"]),
        sub(&["************1234", "", "VISA", "CHIP"]),
        sub(&["1", "7", "42", "20260816120000"]),
    ])
}

fn code_of(e: PaxError) -> (String, String) {
    (e.code.to_string(), e.message)
}

#[test]
fn lrc_is_the_xor_of_the_bytes() {
    assert_eq!(compute_lrc(&[]), 0);
    assert_eq!(compute_lrc(&[0x41, 0x30, 0x30, 0x03]), 0x42);
    let bytes = [1u8, 2, 4, 8, 0x80];
    let closed = [1u8, 2, 4, 8, 0x80, compute_lrc(&bytes)];
    assert_eq!(compute_lrc(&closed), 0);
    let changed = [1u8, 2, 5, 8, 0x80];
    assert_ne!(compute_lrc(&changed), compute_lrc(&bytes));
}

#[test]
fn message_is_framed_with_stx_etx_and_lrc() {
    let m = build_message(&[single("A00"), single("1.54")]);
    let body = b"A00\x1c1.54\x03";
    let mut want = vec![STX];
    want.extend_from_slice(body);
    want.push(body.iter().fold(0u8, |a, b| a ^ b));
    assert_eq!(m, want);
    assert_eq!(build_message(&[]), vec![STX, ETX, ETX]);
    let m = build_message(&[sub(&["a", "b"]), single("")]);
    assert_eq!(&m[1..6], &[b'a', US, b'b', FS, ETX]);
}

#[test]
fn a_frame_is_complete_with_its_lrc() {
    let m = approved_t01();
    assert!(has_complete_frame(&m));
    assert!(!has_complete_frame(&m[..m.len() - 1]));
    assert!(!has_complete_frame(&[]));
    assert!(!has_complete_frame(&[STX]));
    assert!(!has_complete_frame(&[ETX, 0]));
    let mut noisy = vec![0x06, 0x06];
    noisy.extend_from_slice(&m);
    noisy.push(0x77);
    assert!(has_complete_frame(&noisy));
    assert_eq!(first_frame_len(&noisy), m.len() + 2);
}

#[test]
fn parsing_undoes_building() {
    let m = build_message(&[single("T01"), single("1.28"), sub(&["x", "", "z"]), single("é€😀")]);
    let p = parse_response(&m).unwrap();
    assert_eq!(p.fields, vec!["T01", "1.28", "x\u{1f}\u{1f}z", "é€😀"]);
    assert_eq!(p.raw, "T01\u{1c}1.28\u{1c}x\u{1f}\u{1f}z\u{1c}é€😀");
    assert_eq!(sub_fields(Some(&p.fields[2])), vec!["x", "", "z"]);
    assert!(sub_fields(None).is_empty());
}

#[test]
fn noise_around_a_frame_changes_nothing() {
    let m = approved_t01();
    let plain = parse_response(&m).unwrap();
    let mut noisy = vec![0x06, 0x15];
    noisy.extend_from_slice(&m);
    noisy.extend_from_slice(&[0x02, 0x99]);
    let again = parse_response(&noisy).unwrap();
    assert_eq!(again.fields, plain.fields);
    assert_eq!(again.raw, plain.raw);
}

#[test]
fn malformed_frames_are_told_apart() {
    let malformed = |m: &str| ("MALFORMED_RESPONSE".to_string(), m.to_string());
    assert_eq!(
        code_of(parse_response(&[STX, ETX]).unwrap_err()),
        malformed("Response too short to be a valid PAX frame")
    );
    assert_eq!(
        code_of(parse_response(&[1, 1, 1]).unwrap_err()),
        malformed("No STX (0x02) found in response")
    );
    assert_eq!(
        code_of(parse_response(&[STX, 1, 1, 1]).unwrap_err()),
        malformed("No ETX (0x03) + LRC found in response")
    );
    assert_eq!(
        code_of(parse_response(&[STX, 1, 1, ETX]).unwrap_err()),
        malformed("No ETX (0x03) + LRC found in response")
    );
}

#[test]
fn a_corrupted_byte_is_rejected() {
    let mut m = build_message(&[single("A01")]);
    m[1] ^= 0x20;
    let e = parse_response(&m).unwrap_err();
    assert_eq!(e.code, "LRC_MISMATCH");
    assert_eq!(e.message, "LRC check failed (received 0x43, expected 0x63)");
    assert!(e.raw.is_none() && e.cause.is_none());
    let mut m = build_message(&[single("A01")]);
    let n = m.len();
    m[n - 1] = 0x0f;
    assert_eq!(
        parse_response(&m).unwrap_err().message,
        "LRC check failed (received 0xf, expected 0x43)"
    );
}

#[test]
fn invalid_utf8_is_replaced() {
    let body = [b'A', b'0', b'1', FS, 0xff, b'x'];
    let mut m = vec![STX];
    m.extend_from_slice(&body);
    m.push(ETX);
    let lrc = compute_lrc(&m[1..]);
    m.push(lrc);
    let p = parse_response(&m).unwrap();
    assert_eq!(p.fields, vec!["A01", "\u{fffd}x"]);
}

#[test]
fn the_app_index_is_dropped() {
    let p = parse_body("0\u{1c}A01\u{1c}1.54".to_string());
    assert_eq!(p.fields, vec!["A01", "1.54"]);
    assert_eq!(p.raw, "0\u{1c}A01\u{1c}1.54");
    assert_eq!(parse_body("0x\u{1c}A01".to_string()).fields, vec!["0x", "A01"]);
    assert_eq!(parse_body("12\u{1c}a01".to_string()).fields, vec!["12", "a01"]);
    assert_eq!(parse_body("12".to_string()).fields, vec!["12"]);
    assert_eq!(parse_body(String::new()).fields, vec![""]);
    assert!(is_all_digits("0123456789") && !is_all_digits("") && !is_all_digits("1a"));
    assert!(is_cmd_code("T01") && !is_cmd_code("t01") && !is_cmd_code("T0") && !is_cmd_code("T0x"));
}

#[test]
fn each_command_has_its_response() {
    assert_eq!(response_for("A00"), Some("A01"));
    assert_eq!(response_for("A08"), Some("A09"));
    assert_eq!(response_for("T00"), Some("T01"));
    assert_eq!(response_for("B00"), Some("B01"));
    assert_eq!(response_for("A14"), None);
    assert_eq!(response_for(""), None);
}

#[test]
fn initialize_response_is_read() {
    let m = build_message(&[
        single("A01"),
        single("1.54"),
        single("000000"),
        single("OK"),
        single("SN1"),
        single("A920"),
        single("2.1"),
        single("AA:BB"),
    ]);
    let info = parse_initialize(&parse_response(&m).unwrap());
    assert_eq!(
        value(&info.to_json()),
        expected(
            r#"{"resultCode":"000000","resultTxt":"OK","approved":true,"serialNumber":"SN1",
            "model":"A920","appVersion":"2.1","macAddress":"AA:BB","latencyMs":0,
            "raw":["A01","1.54","000000","OK","SN1","A920","2.1","AA:BB"]}"#
        )
    );
    let short = parse_initialize(&parse_response(&build_message(&[single("A01")])).unwrap());
    assert!(!short.approved);
    assert_eq!(short.result_code, "");
}

#[test]
fn credit_response_is_read() {
    let c = parse_credit_response(&parse_response(&approved_t01()).unwrap());
    assert_eq!(
        value(&c.to_json()),
        expected(
            r#"{"resultCode":"000000","resultTxt":"OK","approved":true,"authCode":"AUTH123",
            "hostRefNum":"HOST9","refNum":"42","transactionNum":"7","ecrRefNum":"1",
            "maskedPAN":"************1234","last4":"1234","cardType":"VISA","entryMode":"CHIP",
            "approvedAmountCents":11000,"tipAmountCents":0,"timestamp":"20260816120000",
            "raw":["T01","1.28","000000","OK",["0","APPROVAL","AUTH123","HOST9"],"",
            ["11000","0"],["************1234","","VISA","CHIP"],["1","7","42","20260816120000"]]}"#
        )
    );
    let declined = parse_credit_response(
        &parse_response(&build_message(&[single("T01"), single("1.28"), single("100001")])).unwrap(),
    );
    assert!(!declined.approved);
    assert_eq!(declined.last4, "");
    assert_eq!(declined.approved_amount_cents, 0);
}

#[test]
fn batch_response_is_read() {
    let m = build_message(&[
        single("B01"),
        single("1.54"),
        single("000000"),
        single("OK"),
        sub(&["77", "x"]),
        sub(&["3", "4200"]),
    ]);
    let b = parse_batch_response(&parse_response(&m).unwrap());
    assert!(b.settled);
    assert_eq!(b.result_txt, "OK");
    let j = value(&b.to_json());
    assert_eq!(j["settled"], expected("true"));
    assert_eq!(j["batchNumber"], serde_json::Value::String(b.batch_number.clone()));
    assert_eq!(j["creditAmountCents"], serde_json::Value::from(b.credit_amount_cents));
    assert_eq!((b.batch_number.as_str(), b.credit_count.as_str(), b.credit_amount_cents), ("77", "3", 4200));
}

#[test]
fn amounts_and_card_numbers_are_read_leniently() {
    assert_eq!(to_cents("11000"), 11000);
    assert_eq!(to_cents("$1,234.56"), 123456);
    assert_eq!(to_cents("-5"), -5);
    assert_eq!(to_cents("5-5"), 0);
    assert_eq!(to_cents(""), 0);
    assert_eq!(to_cents("99999999999999999999"), 0);
    assert_eq!(to_cents("٣"), 0);
    assert_eq!(last_four("************1234"), "1234");
    assert_eq!(last_four("4111 1111 1111 9876"), "9876");
    assert_eq!(last_four("12"), "12");
    assert_eq!(last_four("****"), "");
}

#[test]
fn a_sale_has_eleven_fields() {
    let fields = build_credit_fields(
        CreditFieldsInput {
            txn_type: "02",
            amount_cents: 11000,
            tip_cents: 250,
            ecr_ref_num: "202607100001".to_string(),
            cashier_id: "c1".to_string(),
            orig_ref_num: None,
            orig_trans_num: None,
        },
        "1.54",
    );
    assert_eq!(
        value(&fields_for_log(&fields)),
        expected(r#"["T00","1.54","02",["11000","250"],"",["202607100001"],"","c1","","",""]"#)
    );
}

#[test]
fn a_void_names_the_original() {
    let input = |trans: Option<String>| CreditFieldsInput {
        txn_type: TXN_TYPE_VOID,
        amount_cents: -5,
        tip_cents: 0,
        ecr_ref_num: "9".to_string(),
        cashier_id: String::new(),
        orig_ref_num: Some("42".to_string()),
        orig_trans_num: trans,
    };
    assert_eq!(
        value(&fields_for_log(&build_credit_fields(input(Some("7".to_string())), "1.54"))),
        expected(r#"["T00","1.54","04",["-5"],"",["9","","42","7"],"","","","",""]"#)
    );
    assert_eq!(
        value(&fields_for_log(&build_credit_fields(input(None), "1.54"))),
        expected(r#"["T00","1.54","04",["-5"],"",["9","","42"],"","","","",""]"#)
    );
}

#[test]
fn plain_commands_have_their_fields() {
    assert_eq!(value(&fields_for_log(&build_initialize_fields("1.5"))), expected(r#"["A00","1.5"]"#));
    assert_eq!(value(&fields_for_log(&build_cancel_fields("1.5"))), expected(r#"["A14","1.5"]"#));
    assert_eq!(
        value(&fields_for_log(&build_batch_close_fields("1.5"))),
        expected(r#"["B00","1.5","00"]"#)
    );
    assert_eq!(
        value(&fields_for_log(&[single("a\u{1f}b"), sub(&[])])),
        expected(r#"[["a","b"],[]]"#)
    );
}

#[test]
fn fields_are_made_from_texts_and_lists() {
    let fields: [Field; 3] = ["A00".into(), String::from("1.54").into(), vec!["x".to_string(), "y".to_string()].into()];
    assert_eq!(value(&fields_for_log(&fields)), expected(r#"["A00","1.54",["x","y"]]"#));
}

#[test]
fn errors_carry_raw_and_cause() {
    let e = PaxError::new("TIMEOUT", "late".to_string())
        .with_raw(Json::of_str("raw"))
        .with_cause("os".to_string());
    let copy = e.clone();
    assert_eq!(copy.code, "TIMEOUT");
    assert_eq!(copy.message, "late");
    assert_eq!(value(&copy.raw.unwrap()), expected(r#""raw""#));
    assert_eq!(copy.cause.as_deref(), Some("os"));
}

#[test]
fn the_state_hook_is_called() {
    let seen = RefCell::new(Vec::new());
    fire_state(&Some(|s: &str| seen.borrow_mut().push(s.to_string())), "SENDING");
    assert_eq!(*seen.borrow(), vec!["SENDING"]);
    let hook: Option<fn(&str)> = None;
    fire_state(&hook, "WAITING");
}
