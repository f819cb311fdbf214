use quantum_sentry::json::{Json, JsonNumber};
use quantum_sentry::num::Double;
use quantum_sentry::rank::ranking;
use quantum_sentry::symbols::SymbolMap;
use quantum_sentry::text::digits::{
    parse_signed, parse_size, parse_unsigned, parse_unsigned_32, signed_text, unsigned_text,
};
use quantum_sentry::text::parts::{contains_text, digits_behind, double_char, trim_end};
use quantum_sentry::text::sorted::insert_sorted;
use quantum_sentry::text::words::{ends_with, parse_bool, same_text, split_first, text_below};

#[test]
fn integers_are_parsed_as_the_standard_library_does() {
    let texts = [
        "0", "00", "+5", "-5", "-0", "", "+", "-", "12a", " 1", "9223372036854775807",
        "9223372036854775808", "-9223372036854775808", "-9223372036854775809",
        "18446744073709551615", "18446744073709551616", "4294967295", "4294967296", "++1", "1_0",
    ];
    for t in texts {
        assert_eq!(parse_unsigned(t), t.parse::<u64>().ok(), "{}", t);
        assert_eq!(parse_signed(t), t.parse::<i64>().ok(), "{}", t);
        assert_eq!(parse_unsigned_32(t), t.parse::<u32>().ok(), "{}", t);
        assert_eq!(parse_size(t), t.parse::<usize>().ok(), "{}", t);
    }
}

#[test]
fn integers_are_printed_and_parsed_back() {
    for v in [0, 7, -7, 10, -10, 12345, i64::MAX, i64::MIN] {
        assert_eq!(signed_text(v), format!("{}", v));
        assert_eq!(parse_signed(&signed_text(v)), Some(v));
    }
    assert_eq!(unsigned_text(u64::MAX), "18446744073709551615");
}

#[test]
fn truth_values_are_spelled_out() {
    assert_eq!(parse_bool("true"), Some(true));
    assert_eq!(parse_bool("false"), Some(false));
    assert_eq!(parse_bool("True"), None);
    assert_eq!(parse_bool("1"), None);
}

#[test]
fn parts_of_texts_are_found() {
    assert_eq!(trim_end("60ss", 's'), "60");
    assert_eq!(trim_end("sss", 's'), "");
    assert!(contains_text("abcabd", "abd"));
    assert!(contains_text("x", ""));
    assert!(!contains_text("ab", "abc"));
    assert_eq!(double_char("a'b'", '\''), "a''b''");
    assert_eq!(digits_behind("w1_w60x", 'w'), Some("60".to_string()));
    assert_eq!(digits_behind("abc", 'w'), None);
    assert!(ends_with("BTCUSDT", "USDT"));
    assert!(!ends_with("SDT", "USDT"));
    assert_eq!(split_first("a@b@c", '@'), "a");
    assert_eq!(split_first("abc", '@'), "abc");
    assert!(same_text("é", "é") && !same_text("a", "b"));
    assert!(text_below("a", "ab") && text_below("B", "a") && !text_below("a", "a"));
}

#[test]
fn sorted_lists_have_no_repetitions() {
    let mut list = Vec::new();
    for w in ["b", "a", "c", "b", "a"] {
        insert_sorted(&mut list, w.to_string());
    }
    assert_eq!(list, vec!["a", "b", "c"]);
}

#[test]
fn rankings_are_stable() {
    let keys = vec![(2, 1), (1, 9), (2, 0), (1, 9), (-5, 3)];
    assert_eq!(ranking(&keys), vec![4, 1, 3, 2, 0]);
    let many: Vec<(i64, u64)> = (0..100).map(|i| (((i * 37) % 11) as i64, (i % 3) as u64)).collect();
    let mut expected: Vec<usize> = (0..100).collect();
    expected.sort_by_key(|i| many[*i]);
    assert_eq!(ranking(&many), expected);
}

#[test]
fn symbol_maps_keep_their_order() {
    let mut m: SymbolMap<u8> = SymbolMap::new();
    assert_eq!(m.insert("b", 1), None);
    assert_eq!(m.insert("a", 2), None);
    assert_eq!(m.insert("b", 3), Some(1));
    assert_eq!((m.entry(0).0.as_str(), *m.entry(0).1), ("b", 3));
    assert_eq!(m.len(), 2);
    assert!(m.contains("a") && !m.contains("c"));
    assert_eq!(m.remove("b"), Some(3));
    assert_eq!(m.remove("b"), None);
    assert_eq!(m.entry(0).0, "a");
    assert_eq!(m.get("a"), Some(&2));
}

#[test]
fn json_values_are_read_by_kind() {
    let n = |u: Option<u64>, s: Option<i64>, x: f64| {
        Json::Number(JsonNumber {
            unsigned: u,
            signed: s,
            double: Some(Double::from_bits(x.to_bits())),
        })
    };
    let o = Json::Object(vec![
        ("t".to_string(), Json::Text("x".to_string())),
        ("n".to_string(), Json::Null),
        ("big".to_string(), n(Some(u64::MAX), None, u64::MAX as f64)),
    ]);
    assert_eq!(o.get("t").and_then(|v| v.as_str()), Some("x"));
    assert!(o.get("none").is_none());
    assert_eq!(o.get_or("none", "t").and_then(|v| v.as_str()), Some("x"));
    assert_eq!(o.get_text("t"), Some("x".to_string()));
    assert_eq!(o.get_optional_part("n", 1, 3), Some(None));
    assert_eq!(o.get_optional_part("big", 2, 3), None);
    assert_eq!(o.get_optional_part("none", 0, 3), Some(None));
    assert_eq!(o.get_text_part("t", 2, 3), Some("x".to_string()));
    let l = Json::List(vec![Json::Text("y".to_string()), Json::Null]);
    assert_eq!(l.get_text_part("t", 0, 2), Some("y".to_string()));
    assert_eq!(l.get_text_part("t", 0, 3), None);
    assert_eq!(l.get_optional_part("t", 1, 2), Some(None));
    assert!(matches!(l.into_part("t", 1, 2), Some(Json::Null)));
    assert_eq!(o.get("big").unwrap().as_u64(), Some(u64::MAX));
    assert_eq!(o.get("big").unwrap().as_i64(), None);
    assert!(Json::List(vec![Json::Null]).as_list().is_some());
    assert!(Json::Null.as_list().is_none());
    assert!(matches!(o.into_part("n", 1, 3), Some(Json::Null)));
    assert_eq!(n(None, Some(-3), -3.0).as_i64(), Some(-3));
    assert_eq!(Json::Text("-7".to_string()).as_i64(), Some(-7));
    assert_eq!(n(None, None, 1.5).as_double().map(|x| f64::from_bits(x.to_bits())), Some(1.5));
}
