use chrono::DateTime;
use pax_bridge::db::query::is_page_fitting;
use pax_bridge::db::terminal::NumberReading;
use pax_bridge::db::{
    day_of, is_day_log, is_row_readable, log_reading_order, sort_newest_first, Db, DbData, MainFile,
    Terminal, TerminalNumbers, TxQuery,
};
use pax_bridge::json::{Json, Number, Object};
use pax_bridge::textmap::TextMap;

fn value(j: &Json) -> serde_json::Value {
    match j {
        Json::Null => serde_json::Value::Null,
        Json::Bool(b) => serde_json::Value::Bool(*b),
        Json::Num(Number::Int(n)) => serde_json::Value::from(*n),
        Json::Num(Number::Big(n)) => serde_json::Value::from(*n),
        Json::Num(Number::Float(bits)) => serde_json::Value::from(f64::from_bits(*bits)),
        Json::Str(s) => serde_json::Value::String(s.clone()),
        Json::Arr(items) => serde_json::Value::Array(items.iter().map(value).collect()),
        Json::Obj(o) => fields(o),
    }
}

fn fields(o: &Object) -> serde_json::Value {
    let mut map = serde_json::Map::new();
    for (k, v) in &o.entries {
        map.insert(k.clone(), value(v));
    }
    serde_json::Value::Object(map)
}

fn json(v: &serde_json::Value) -> Json {
    match v {
        serde_json::Value::Null => Json::Null,
        serde_json::Value::Bool(b) => Json::Bool(*b),
        serde_json::Value::Number(n) => match (n.as_i64(), n.as_u64()) {
            (Some(i), _) => Json::Num(Number::Int(i)),
            (None, Some(u)) => Json::Num(Number::Big(u)),
            _ => Json::Num(Number::Float(n.as_f64().unwrap().to_bits())),
        },
        serde_json::Value::String(s) => Json::of_str(s),
        serde_json::Value::Array(a) => Json::Arr(a.iter().map(json).collect()),
        serde_json::Value::Object(m) => {
            let mut o = Object::new();
            for (k, v) in m {
                o.set(k, json(v));
            }
            Json::Obj(o)
        }
    }
}

fn body(text: &str) -> Json {
    json(&serde_json::from_str(text).unwrap())
}

fn object(text: &str) -> Object {
    match body(text) {
        Json::Obj(o) => o,
        other => panic!("{other:?}"),
    }
}

fn expected(text: &str) -> serde_json::Value {
    serde_json::from_str(text).unwrap()
}

fn empty_db() -> Db {
    Db::load_from(MainFile::Missing, vec![], "2026-07-10")
}

fn no_numbers() -> TerminalNumbers {
    TerminalNumbers { port: None, baud_rate: None }
}

fn number(n: u32) -> NumberReading {
    NumberReading { non_positive: n == 0, as_u16: n as u16, as_u32: n }
}

fn any_page(page: Option<i64>, page_size: Option<i64>) -> TxQuery {
    TxQuery { status: None, tx_type: None, from: None, to: None, terminal_id: None, page, page_size }
}

fn row(id: &str, created: &str) -> Object {
    Object::new().put("id", Json::of_str(id)).put("createdAt", Json::of_str(created))
}

fn ids(rows: &[Object]) -> Vec<String> {
    rows.iter().map(|r| r.text_or_empty("id")).collect()
}

#[test]
fn a_new_terminal_gets_defaults() {
    let mut db = empty_db();
    let t = db.create_terminal_with(&body("{}"), &no_numbers(), "term_1".into(), "now".into());
    assert_eq!(
        value(&t.to_json()),
        expected(
            r#"{"id":"term_1","name":"Terminal","model":"A920 Pro","connType":"tcp","ip":"","port":10009,
            "serialPath":"","baudRate":115200,"createdAt":"now"}"#
        )
    );
    assert!(db.unsaved);
    let numbers = TerminalNumbers { port: Some(number(7)), baud_rate: Some(number(9600)) };
    let given = body(
        r#"{"name":"  Till \t","model":"A35","connType":"usb","ip":" 1.2.3.4 ","serialPath":" /dev/x "}"#,
    );
    let t = db.create_terminal_with(&given, &numbers, "term_2".into(), "now".into());
    assert_eq!(
        value(&t.to_json()),
        expected(
            r#"{"id":"term_2","name":"Till","model":"A35","connType":"usb","ip":"1.2.3.4","port":7,
            "serialPath":"/dev/x","baudRate":9600,"createdAt":"now"}"#
        )
    );
    let zero = TerminalNumbers { port: Some(number(0)), baud_rate: Some(number(0)) };
    let t = db.create_terminal_with(&body(r#"{"name":"   "}"#), &zero, "term_3".into(), "now".into());
    assert_eq!((t.name.as_str(), t.port, t.baud_rate), ("Terminal", 10009, 115_200));
    assert_eq!(db.list_terminals().len(), 3);
}

#[test]
fn a_terminal_is_created_with_an_id_and_a_time() {
    let mut db = empty_db();
    let t: Terminal = db.create_terminal(&body(r#"{"name":"Till"}"#), &no_numbers());
    assert!(t.id.starts_with("term_"));
    assert!(t.id.len() >= "term_".len() + 6 + 6);
    assert!(DateTime::parse_from_rfc3339(&t.created_at).is_ok());
    assert_eq!(db.get_terminal(&t.id).unwrap().name, "Till");
    assert!(db.get_terminal("other").is_none());
}

#[test]
fn ids_differ_and_carry_the_time() {
    let before = chrono::Utc::now().timestamp_millis();
    let a = Db::gen_id("txn");
    let b = Db::gen_id("txn");
    let after = chrono::Utc::now().timestamp_millis();
    assert_ne!(a, b);
    let millis = i64::from_str_radix(&a["txn_".len()..a.len() - 6], 36).unwrap();
    assert!(before <= millis && millis <= after);
    assert!(a[4..].chars().all(|c| c.is_ascii_digit() || c.is_ascii_lowercase()));
}

#[test]
fn a_terminal_is_patched() {
    let mut db = empty_db();
    db.create_terminal_with(&body(r#"{"name":"A","ip":"1.1.1.1"}"#), &no_numbers(), "t1".into(), "x".into());
    db.take_save("2026-07-10");
    let numbers = TerminalNumbers { port: Some(number(0)), baud_rate: Some(number(300)) };
    let t = db
        .update_terminal("t1", &body(r#"{"name":" B ","connType":"usb","model":7,"serialPath":"/p"}"#), &numbers)
        .unwrap();
    assert_eq!(
        value(&t.to_json()),
        expected(
            r#"{"id":"t1","name":"B","model":"A920 Pro","connType":"usb","ip":"1.1.1.1","port":10009,
            "serialPath":"/p","baudRate":300,"createdAt":"x"}"#
        )
    );
    assert!(db.take_save("2026-07-10").is_some());
    let t = db.update_terminal("t1", &body(r#"{"connType":null,"name":""}"#), &no_numbers()).unwrap();
    assert_eq!((t.conn_type.as_str(), t.name.as_str()), ("tcp", ""));
    db.take_save("2026-07-10");
    assert!(db.update_terminal("t2", &body("{}"), &no_numbers()).is_none());
    assert!(db.take_save("2026-07-10").is_none());
}

#[test]
fn a_deleted_terminal_is_gone() {
    let mut db = empty_db();
    for id in ["t1", "t2", "t1"] {
        db.create_terminal_with(&body("{}"), &no_numbers(), id.into(), "x".into());
    }
    db.take_save("2026-07-10");
    assert!(!db.delete_terminal("t3"));
    assert!(!db.unsaved);
    assert!(db.delete_terminal("t1"));
    assert!(db.unsaved);
    assert!(db.get_terminal("t1").is_none());
    assert_eq!(db.list_terminals().len(), 1);
}

#[test]
fn reference_numbers_count_per_day() {
    let mut db = empty_db();
    assert!(db.is_seq_left());
    assert_eq!(db.next_ecr_ref_num_on("20260710"), "202607100001");
    assert_eq!(db.next_ecr_ref_num_on("20260710"), "202607100002");
    assert_eq!(db.next_ecr_ref_num_on("20260711"), "202607110001");
    db.data.ecr_seq.set("20260712", 12344);
    assert_eq!(db.next_ecr_ref_num_on("20260712"), "2026071212345");
    db.data.ecr_seq.set("20260713", u32::MAX);
    assert!(!db.is_seq_left());
}

#[test]
fn todays_reference_number_starts_with_the_date() {
    let mut db = empty_db();
    let before = chrono::Utc::now().format("%Y%m%d").to_string();
    let r = db.next_ecr_ref_num();
    let after = chrono::Utc::now().format("%Y%m%d").to_string();
    assert!(r == format!("{before}0001") || r == format!("{after}0001"));
    assert!(db.unsaved);
}

#[test]
fn a_transaction_is_recorded_in_front() {
    let mut db = empty_db();
    db.take_save("2026-07-10");
    let first = db.create_transaction_with(
        &object(r#"{"type":"SALE","amountCents":5}"#),
        "txn_1".into(),
        "2026-07-10T10:00:00+00:00",
        "2026-07-11",
    );
    assert_eq!(
        fields(&first),
        expected(
            r#"{"id":"txn_1","createdAt":"2026-07-10T10:00:00+00:00","updatedAt":"2026-07-10T10:00:00+00:00",
            "status":"PENDING","type":"SALE","amountCents":5}"#
        )
    );
    let second = db.create_transaction_with(
        &object(r#"{"status":"APPROVED","id":"mine"}"#),
        "txn_2".into(),
        "2026-07-10T10:00:01+00:00",
        "2026-07-11",
    );
    assert_eq!(second.text_or_empty("id"), "mine");
    assert_eq!(second.text_or_empty("status"), "APPROVED");
    assert_eq!(ids(&db.data.transactions), vec!["mine", "txn_1"]);
    assert_eq!(db.dirty_days, vec!["2026-07-10"]);
    assert!(db.unsaved);
    assert_eq!(fields(&db.get_transaction("txn_1").unwrap()), fields(&first));
    assert!(db.get_transaction("txn_2").is_none());
}

#[test]
fn a_transaction_gets_an_id_and_the_time() {
    let mut db = empty_db();
    let t = db.create_transaction(&object(r#"{"type":"SALE"}"#));
    assert!(t.text_or_empty("id").starts_with("txn_"));
    let created = t.text_or_empty("createdAt");
    assert_eq!(created, t.text_or_empty("updatedAt"));
    assert!(created.is_ascii() && created.len() >= 25);
    let parsed = DateTime::parse_from_rfc3339(&created).unwrap();
    assert!((chrono::Utc::now().timestamp() - parsed.timestamp()).abs() < 60);
    assert_eq!(db.dirty_days, vec![created[..10].to_string()]);
    let id = t.text_or_empty("id");
    let u = db.update_transaction(&id, &object(r#"{"status":"APPROVED"}"#)).unwrap();
    assert_eq!(u.text_or_empty("status"), "APPROVED");
    assert!(DateTime::parse_from_rfc3339(&u.text_or_empty("updatedAt")).is_ok());
    assert!(db.update_transaction("nobody", &Object::new()).is_none());
}

#[test]
fn an_update_stays_on_its_day() {
    let mut db = empty_db();
    for (id, at) in [("a", "2026-07-09T00:00:00+00:00"), ("b", "2026-07-10T00:00:00+00:00")] {
        db.create_transaction_with(&Object::new(), id.into(), at, "2026-07-10");
    }
    db.take_save("2026-07-10");
    let u = db
        .update_transaction_at("a", &object(r#"{"status":"VOIDED"}"#), "2026-07-20T00:00:00+00:00", "2026-07-20")
        .unwrap();
    assert_eq!(
        fields(&u),
        expected(
            r#"{"id":"a","createdAt":"2026-07-09T00:00:00+00:00","updatedAt":"2026-07-20T00:00:00+00:00",
            "status":"VOIDED"}"#
        )
    );
    assert_eq!(db.dirty_days, vec!["2026-07-09"]);
    assert_eq!(db.get_transaction("b").unwrap().text_or_empty("status"), "PENDING");
    db.take_save("2026-07-10");
    assert!(db.update_transaction_at("zzz", &Object::new(), "n", "2026-07-20").is_none());
    assert!(!db.unsaved);
}

#[test]
fn rows_without_a_date_belong_to_today() {
    assert_eq!(day_of(&row("a", "2026-07-10T00:00:00Z"), "2026-08-01"), "2026-07-10");
    assert_eq!(day_of(&row("a", "2026-07"), "2026-08-01"), "2026-08-01");
    assert_eq!(day_of(&object(r#"{"createdAt":5}"#), "2026-08-01"), "2026-08-01");
    assert_eq!(day_of(&row("a", "ééééé!"), "t"), "ééééé");
    assert!(is_row_readable(&row("a", "ééééé!")));
    assert!(!is_row_readable(&row("a", "123456789é")));
    assert!(is_row_readable(&row("a", "é")));
    assert!(is_row_readable(&Object::new()));
}

#[test]
fn log_files_hold_the_days_touched() {
    let mut db = empty_db();
    for (id, at) in [("a", "2026-07-09T01"), ("b", "2026-07-10T01"), ("c", "2026-07-09T02")] {
        db.create_transaction_with(&Object::new(), id.into(), at, "2026-07-10");
    }
    let files = db.take_log_files("2026-07-10");
    assert_eq!(files.len(), 2);
    assert_eq!(files[0].0, "transactions-2026-07-09.json");
    assert_eq!(ids(&files[0].1), vec!["c", "a"]);
    assert_eq!(files[1].0, "transactions-2026-07-10.json");
    assert_eq!(ids(&files[1].1), vec!["b"]);
    assert!(is_day_log("transactions-2026-07-09.json") && is_day_log("transactions-.json"));
    assert!(!is_day_log("transactions-.jso") && !is_day_log("pax-db.json") && !is_day_log("xtransactions-1.json"));
    let names = vec!["a".to_string(), "c".to_string(), "b".to_string()];
    assert_eq!(log_reading_order(&names), vec![1, 2, 0]);
}

#[test]
fn a_day_is_written_once_until_it_is_touched_again() {
    let mut db = empty_db();
    for (id, at) in [("a", "2026-07-09T01"), ("b", "2026-07-10T01")] {
        db.create_transaction_with(&Object::new(), id.into(), at, "2026-07-10");
    }
    let first = db.take_save("2026-07-10").unwrap();
    assert_eq!(first.days, vec!["2026-07-09", "2026-07-10"]);
    assert_eq!(first.logs[0].0, "transactions-2026-07-09.json");
    assert_eq!(ids(&first.logs[0].1), vec!["a"]);
    assert_eq!(ids(&first.logs[1].1), vec!["b"]);
    assert!(db.take_save("2026-07-10").is_none(), "nothing changed since");

    db.next_ecr_ref_num_on("20260710");
    let second = db.take_save("2026-07-10").unwrap();
    assert_eq!(value(&second.main)["ecrSeq"], expected(r#"{"20260710":1}"#));
    assert!(second.days.is_empty() && second.logs.is_empty());

    db.update_transaction_at("a", &object(r#"{"status":"VOIDED"}"#), "2026-07-11T00", "2026-07-11");
    let third = db.take_log_files("2026-07-11");
    assert_eq!(third.len(), 1);
    assert_eq!(third[0].0, "transactions-2026-07-09.json");
    assert_eq!(third[0].1[0].text_or_empty("status"), "VOIDED");
    assert!(!db.unsaved && db.take_log_files("2026-07-11").is_empty());
}

#[test]
fn a_log_that_failed_to_write_is_written_next_time() {
    let mut db = empty_db();
    db.create_transaction_with(&Object::new(), "a".into(), "2026-07-09T01", "2026-07-10");
    let save = db.take_save("2026-07-10").unwrap();
    db.mark_day(&save.days[0]);
    db.mark_day(&save.days[0]);
    assert!(db.take_save("2026-07-10").is_none(), "it waits for the next change");
    db.create_transaction_with(&Object::new(), "b".into(), "2026-07-10T01", "2026-07-10");
    assert_eq!(db.take_save("2026-07-10").unwrap().days, vec!["2026-07-09", "2026-07-10"]);
}

#[test]
fn a_log_with_an_unreadable_time_loads() {
    let logs = vec![Some(vec![row("a", "123456789é"), row("b", "2026-07-10T00")])];
    let mut db = Db::load_from(MainFile::Missing, logs, "2026-07-10");
    assert!(!db.is_readable());
    assert_eq!(ids(&db.data.transactions), vec!["b", "a"]);
    assert!(db.get_transaction("a").is_some());
    db.next_ecr_ref_num_on("20260710");
    assert!(db.update_transaction_at("zzz", &Object::new(), "n", "2026-07-10").is_none());
    assert!(db.take_save("2026-07-10").unwrap().logs.is_empty());
    assert!(empty_db().is_readable());
}

#[test]
fn the_main_file_leaves_the_transactions_out() {
    let mut db = empty_db();
    db.create_terminal_with(&body(r#"{"name":"A"}"#), &no_numbers(), "t1".into(), "x".into());
    db.next_ecr_ref_num_on("20260710");
    db.next_ecr_ref_num_on("20260710");
    db.next_ecr_ref_num_on("20260711");
    let j = value(&db.main_file());
    assert_eq!(j["ecrSeq"], expected(r#"{"20260710":2,"20260711":1}"#));
    assert_eq!(j["terminals"][0]["name"], expected(r#""A""#));
    assert_eq!(j.as_object().unwrap().len(), 2);
}

#[test]
fn a_saved_log_loads_back() {
    let mut db = empty_db();
    for (id, at) in [
        ("a", "2026-07-09T01"),
        ("b", "2026-07-09T05"),
        ("c", "2026-07-10T01"),
        ("d", "2026-07-10T01"),
        ("e", "2026-07-11T00"),
    ] {
        db.create_transaction_with(&Object::new(), id.into(), at, "2026-07-11");
    }
    let order = ids(&db.data.transactions);
    assert_eq!(order, vec!["e", "d", "c", "b", "a"]);
    let logs = db.take_log_files("2026-07-11").into_iter().map(|f| Some(f.1)).collect();
    let main = DbData { terminals: vec![], transactions: vec![], ecr_seq: TextMap::new() };
    let again = Db::load_from(MainFile::Loaded(main), logs, "2026-07-12");
    assert_eq!(ids(&again.data.transactions), order);
    assert!(again.dirty_days.is_empty() && !again.unsaved);
}

#[test]
fn loading_moves_old_transactions_into_logs() {
    let mut ecr_seq = TextMap::new();
    ecr_seq.set("20260710", 4);
    let main = DbData {
        terminals: vec![],
        transactions: vec![row("old1", "2026-01-02T00"), row("old2", "2026-01-03T00"), row("old3", "2026-01-02T05")],
        ecr_seq,
    };
    let logs = vec![Some(vec![row("new", "2026-05-05T00")]), None, Some(vec![row("older", "2025-01-01T00")])];
    let mut db = Db::load_from(MainFile::Loaded(main), logs, "2026-07-10");
    assert_eq!(ids(&db.data.transactions), vec!["new", "old2", "old3", "old1", "older"]);
    assert_eq!(db.dirty_days, vec!["2026-01-02", "2026-01-03"]);
    assert!(db.unsaved);
    assert_eq!(db.next_ecr_ref_num_on("20260710"), "202607100005");
}

#[test]
fn a_missing_or_corrupt_main_file_starts_fresh() {
    let db = Db::load_from(MainFile::Missing, vec![], "2026-07-10");
    assert!(db.unsaved && db.data.transactions.is_empty() && db.data.terminals.is_empty());
    let db = Db::load_from(MainFile::Corrupt, vec![Some(vec![row("a", "2026-01-02T00")])], "2026-07-10");
    assert!(db.unsaved && db.dirty_days.is_empty());
    assert_eq!(ids(&db.data.transactions), vec!["a"]);
}

#[test]
fn sorting_is_newest_first_and_stable() {
    let rows = vec![row("a", "1"), row("b", "3"), row("c", ""), row("d", "3"), object(r#"{"id":"e"}"#), row("f", "é")];
    assert_eq!(ids(&sort_newest_first(&rows)), vec!["f", "b", "d", "a", "c", "e"]);
}

#[test]
fn unsettled_rows_are_settled_once() {
    let mut db = empty_db();
    for (id, kind, status, settled) in [
        ("a", "SALE", "APPROVED", "false"),
        ("b", "AUTH", "APPROVED", "null"),
        ("c", "RETURN", "APPROVED", "true"),
        ("d", "VOID", "APPROVED", "false"),
        ("e", "SALE", "DECLINED", "false"),
        ("f", "RETURN", "APPROVED", "false"),
    ] {
        let tx = object(&format!(r#"{{"type":"{kind}","status":"{status}","settled":{settled}}}"#));
        db.create_transaction_with(&tx, id.into(), "2026-07-10T00", "2026-07-10");
    }
    assert_eq!(ids(&db.list_unsettled()), vec!["f", "b", "a"]);
    db.take_save("2026-07-10");
    let info = body(r#"{"batchNumber":"7"}"#);
    db.mark_settled_at(&vec!["a".into(), "f".into(), "zzz".into()], &info, "later", "2026-07-20");
    assert_eq!(ids(&db.list_unsettled()), vec!["b"]);
    let a = db.get_transaction("a").unwrap();
    assert_eq!(a.flag("settled"), Some(true));
    assert_eq!(a.text_or_empty("updatedAt"), "later");
    assert_eq!(fields(&a)["batchInfo"], expected(r#"{"batchNumber":"7"}"#));
    assert_eq!(db.get_transaction("b").unwrap().flag("settled"), None);
    assert_eq!(db.dirty_days, vec!["2026-07-10"]);
    assert!(db.unsaved);
    db.mark_settled(&vec!["b".into()], &info);
    assert!(db.list_unsettled().is_empty());
}

#[test]
fn queries_filter_and_page() {
    let mut db = empty_db();
    for i in 0..7 {
        let tx = object(&format!(
            r#"{{"type":"{}","status":"{}","terminalId":"t{}"}}"#,
            if i % 2 == 0 { "SALE" } else { "VOID" },
            if i < 5 { "APPROVED" } else { "ERROR" },
            i % 3
        ));
        db.create_transaction_with(&tx, format!("x{i}"), &format!("2026-07-1{i}T00"), "2026-07-10");
    }
    let all = db.query_transactions(&any_page(None, None));
    assert_eq!((all.total, all.page, all.page_size, all.page_count), (7, 1, 25, 1));
    assert_eq!(ids(&all.rows), vec!["x6", "x5", "x4", "x3", "x2", "x1", "x0"]);
    let q = TxQuery { tx_type: Some("SALE".into()), status: Some("APPROVED".into()), ..any_page(None, None) };
    assert_eq!(ids(&db.query_transactions(&q).rows), vec!["x4", "x2", "x0"]);
    let q = TxQuery { terminal_id: Some("t1".into()), ..any_page(None, None) };
    assert_eq!(ids(&db.query_transactions(&q).rows), vec!["x4", "x1"]);
    let q = TxQuery { from: Some("2026-07-12".into()), to: Some("2026-07-14T00".into()), ..any_page(None, None) };
    assert_eq!(ids(&db.query_transactions(&q).rows), vec!["x4", "x3", "x2"]);
    let page2 = db.query_transactions(&any_page(Some(2), Some(3)));
    assert_eq!(ids(&page2.rows), vec!["x3", "x2", "x1"]);
    assert_eq!(page2.page_count, 3);
    assert_eq!(ids(&db.query_transactions(&any_page(Some(3), Some(3))).rows), vec!["x0"]);
    assert!(db.query_transactions(&any_page(Some(4), Some(3))).rows.is_empty());
    let odd = db.query_transactions(&any_page(Some(-4), Some(0)));
    assert_eq!((odd.page, odd.page_size, odd.page_count), (1, 1, 7));
    assert_eq!(db.query_transactions(&any_page(None, Some(999))).page_size, 200);
    let none = empty_db().query_transactions(&any_page(None, None));
    assert_eq!((none.total, none.page_count), (0, 1));
    assert_eq!(
        value(&none.to_json()),
        expected(r#"{"total":0,"page":1,"pageSize":25,"pageCount":1,"rows":[]}"#)
    );
    assert!(is_page_fitting(&any_page(Some(i64::MAX), Some(1))));
    assert!(!is_page_fitting(&any_page(Some(i64::MAX), None)));
}
