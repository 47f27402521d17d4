use pax_bridge::clock::{date_key, date_text, id_from, rand_base36, Instant, LAST_SECOND, YEAR_10000};
use pax_bridge::config::{
    finish_setup, is_dir_writable, payment_timeout_ms, ping_timeout_ms, port, protocol_version, resolve_data_dir,
    runtime_dir, sale_txn_type, send_enq, setup_steps, BaseDir, DEFAULT_ENV,
};
use pax_bridge::json::{Json, Number, Object};
use pax_bridge::numeral::{decimal_i64, decimal_pad4, decimal_u64, hex, hex_pad4, hex_u64, parse_i64, parse_unsigned, to_base36};
use pax_bridge::order::{is_text_le, sort_descending};
use pax_bridge::server::{listen_address, port_in_use_message};
use pax_bridge::text::{contains_text, eq_ignore_ascii_case, is_whitespace, join_semicolon, join_texts, same_text, split_text, trim};
use pax_bridge::textmap::TextMap;

#[test]
fn whitespace_is_that_of_unicode() {
    for u in 0..=0x10ffffu32 {
        if let Some(c) = char::from_u32(u) {
            assert_eq!(is_whitespace(c), c.is_whitespace(), "{u:x}");
        }
    }
}

#[test]
fn texts_are_trimmed_split_and_joined() {
    assert_eq!(trim("\u{2003} a b\t\n"), "a b");
    assert_eq!(trim(" \u{85}"), "");
    assert_eq!(split_text("a,,b", ','), vec!["a", "", "b"]);
    assert_eq!(split_text("", ','), vec![""]);
    assert_eq!(join_texts(&split_text("x|y||", '|'), '|'), "x|y||");
    assert_eq!(join_semicolon(&vec!["a".into(), "b".into(), "c".into()]), "a; b; c");
    assert_eq!(join_semicolon(&vec![]), "");
    assert!(same_text("é", "é") && !same_text("é", "e"));
    assert!(contains_text("access denied", "denied") && !contains_text("acces", "access") && contains_text("x", ""));
    assert!(eq_ignore_ascii_case("TrUe", "true") && !eq_ignore_ascii_case("É", "é"));
}

#[test]
fn numbers_are_written() {
    assert_eq!(decimal_u64(0), "0");
    assert_eq!(decimal_u64(u64::MAX), u64::MAX.to_string());
    assert_eq!(decimal_i64(i64::MIN), i64::MIN.to_string());
    assert_eq!(decimal_i64(-7), "-7");
    assert_eq!(decimal_pad4(7), "0007");
    assert_eq!(decimal_pad4(12345), "12345");
    assert_eq!(hex_u64(255), "ff");
    assert_eq!(hex_pad4(0x21), "0021");
    assert_eq!(hex(&[0, 0xab, 0x10]), "00 ab 10");
    assert_eq!(hex(&[]), "");
    assert_eq!(to_base36(0), "0");
    assert_eq!(to_base36(35), "z");
    assert_eq!(to_base36(36), "10");
    assert_eq!(to_base36(-37), "-11");
    assert_eq!(i64::from_str_radix(&to_base36(i64::MAX), 36).unwrap(), i64::MAX);
}

#[test]
fn numbers_are_read() {
    for s in ["0", "7", "+7", "-7", "", "+", "-", "x", "1x", " 1", "9223372036854775807", "9223372036854775808", "-9223372036854775808", "-9223372036854775809", "--1", "007"] {
        assert_eq!(parse_i64(s), s.parse::<i64>().ok(), "{s}");
        assert_eq!(parse_unsigned(s, u64::MAX), s.parse::<u64>().ok(), "{s}");
        assert_eq!(parse_unsigned(s, 65535), s.parse::<u16>().ok().map(u64::from), "{s}");
    }
}

#[test]
fn text_order_is_that_of_the_bytes() {
    let words = ["", "a", "ab", "b", "é", "z", "\u{10000}", "\u{ffff}", "2026-07-10", "2026-07-1"];
    for a in words {
        for b in words {
            assert_eq!(is_text_le(a, b), a <= b, "{a} {b}");
        }
    }
    let keys: Vec<String> = ["b", "a", "b", "c"].iter().map(|s| s.to_string()).collect();
    assert_eq!(sort_descending(&keys), vec![3, 0, 2, 1]);
}

#[test]
fn a_text_map_keeps_one_value_per_key() {
    let mut m: TextMap<u32> = TextMap::new();
    assert_eq!(m.get("a"), None);
    m.set("a", 1);
    m.set("b", 2);
    m.set("a", 3);
    assert_eq!((m.get("a"), m.get("b"), m.entries.len()), (Some(3), Some(2), 2));
}

#[test]
fn json_documents_are_read_and_merged() {
    let mut o = Object::new().put("s", Json::of_str("x")).put("n", Json::of_int(5)).put("b", Json::Bool(true));
    assert_eq!((o.text("s"), o.integer("n"), o.flag("b")), (Some("x"), Some(5), Some(true)));
    assert_eq!((o.text("n"), o.integer("s"), o.flag("zz")), (None, None, None));
    assert_eq!((o.text_or_empty("s"), o.text_or_empty("n")), ("x".to_string(), String::new()));
    o.merge(&Object::new().put("s", Json::of_str("y")).put("new", Json::Null));
    assert_eq!(o.text("s"), Some("y"));
    assert!(matches!(o.get("new"), Some(Json::Null)));
    let j = Json::Obj(o.copy());
    assert_eq!(j.text("s"), Some("y"));
    assert!(Json::Null.get("s").is_none() && Json::of_str("s").get("s").is_none());
    assert_eq!(Json::Num(Number::Big(u64::MAX)).as_i64(), None);
    assert_eq!(Json::of_unsigned(7).as_i64(), Some(7));
    assert!(matches!(Json::of_unsigned(u64::MAX), Json::Num(Number::Big(u64::MAX))));
}

#[test]
fn dates_are_formatted() {
    let at = |secs: i64| Instant { secs, nanos: 0 };
    assert_eq!((date_text(at(0)), date_key(at(0))), ("1970-01-01".to_string(), "19700101".to_string()));
    assert_eq!(date_text(at(1_783_641_600)), "2026-07-10");
    assert_eq!(date_key(at(1_783_641_600)), "20260710");
    assert_eq!(date_text(at(YEAR_10000 - 1)), "9999-12-31");
    assert_eq!(date_key(at(YEAR_10000 - 1)).len(), 8);
    assert_ne!(date_key(at(YEAR_10000)).len(), 8);
    assert_eq!(LAST_SECOND, chrono::DateTime::<chrono::Utc>::MAX_UTC.timestamp());
    assert!(!date_text(at(LAST_SECOND)).is_empty());
}

#[test]
fn ids_are_built_from_their_parts() {
    let t = Instant { secs: 36, nanos: 5_999_999 };
    assert_eq!(id_from("txn", t, &vec![0, 35, 36, 71, 255, 10]), "txn_rs50z0z3a");
    let digits = rand_base36(20);
    assert_eq!(digits.len(), 20);
    assert_eq!(digits[..4], digits[16..]);
    assert_ne!(rand_base36(16), rand_base36(16));
}

#[test]
fn folders_are_resolved() {
    assert!(matches!(runtime_dir(Some("/h"), true, true), BaseDir::Given(d) if d == "/h"));
    assert!(matches!(runtime_dir(Some("  "), true, true), BaseDir::ExeDir));
    assert!(matches!(runtime_dir(None, true, false), BaseDir::DevDir));
    assert!(matches!(runtime_dir(None, false, true), BaseDir::DevDir));
    let d = resolve_data_dir(Some("/d"), Some("/h"), true, true);
    assert!(matches!(d.base, BaseDir::Given(p) if p == "/d") && !d.data_subfolder);
    let d = resolve_data_dir(Some(""), Some("/h"), true, true);
    assert!(matches!(d.base, BaseDir::Given(p) if p == "/h") && d.data_subfolder);
    let d = resolve_data_dir(None, None, true, true);
    assert!(matches!(d.base, BaseDir::ExeDir) && d.data_subfolder);
    let d = resolve_data_dir(None, None, false, true);
    assert!(matches!(d.base, BaseDir::DevDir) && d.data_subfolder);
}

#[test]
fn setup_creates_what_is_missing() {
    let s = setup_steps(false, true);
    assert!(s.create_data_dir && !s.write_env);
    let s = setup_steps(true, false);
    assert!(!s.create_data_dir && s.write_env);
    let r = finish_setup("d", "e", "f", s, false);
    assert_eq!((r.dir, r.env_path, r.data_dir, r.created_env), ("d", "e", "f", false));
    assert!(finish_setup("d", "e", "f", s, true).created_env);
    assert_eq!(DEFAULT_ENV.lines().count(), 4);
    assert!(is_dir_writable(Some(false)) && !is_dir_writable(Some(true)) && !is_dir_writable(None));
}

#[test]
fn environment_values_have_defaults() {
    assert_eq!((port(None), port(Some("8080")), port(Some("70000")), port(Some(" 1"))), (5000, 8080, 5000, 5000));
    assert_eq!((ping_timeout_ms(None), ping_timeout_ms(Some("5"))), (10_000, 5));
    assert_eq!((payment_timeout_ms(Some("x")), payment_timeout_ms(Some("5"))), (120_000, 5));
    assert_eq!((protocol_version(None), protocol_version(Some("1.28".into()))), ("1.54".into(), "1.28".into()));
    assert_eq!(sale_txn_type(None), "02");
    assert_eq!(sale_txn_type(Some(" ".into())), "02");
    assert_eq!(sale_txn_type(Some("01".into())), "01");
    assert!(send_enq(Some(" TRUE ")) && !send_enq(Some("1")) && !send_enq(None));
    assert_eq!(listen_address(5000), "0.0.0.0:5000");
    assert!(port_in_use_message(5000).starts_with("Port 5000 is already in use by another program — "));
}
