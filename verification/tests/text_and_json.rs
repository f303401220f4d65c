use world_loom::digest::hex_text;
use world_loom::json::{
    boolean, copy_json, integer, json_of_value, parse_json, same_json, text, unsigned,
    value_of_json, Fields, Items, Json,
};
use world_loom::ordered_map::{OrderedMap, VersionKey};
use world_loom::text::{
    byte_len, chars_of, is_text_less, is_white_space, lower_chars, parse_unsigned, prefixed,
    push_i64, push_u128, push_u64, same_text, starts_with, strip_prefix_or_all, text_of, trim_chars,
};

fn collect(chars: Vec<char>) -> String {
    chars.into_iter().collect()
}

#[test]
fn white_space_is_that_of_the_standard_library() {
    for code in 0..=0x10_FFFF_u32 {
        if let Some(c) = char::from_u32(code) {
            assert_eq!(is_white_space(c), c.is_whitespace(), "{code:x}");
        }
    }
}

#[test]
fn texts_are_trimmed_and_lowered_like_the_standard_library() {
    for sample in ["", " ", " a ", "\u{3000}Ä b\t\n", "ABC xyz ÀÉ", "\u{a0}x\u{2003}"] {
        assert_eq!(collect(trim_chars(&chars_of(sample))), sample.trim());
        assert_eq!(collect(lower_chars(&chars_of(sample))), sample.to_ascii_lowercase());
        assert_eq!(byte_len(sample), sample.len());
        for other in ["", "a", "ab", "é", " "] {
            assert_eq!(is_text_less(sample, other), sample < other);
            assert_eq!(same_text(sample, other), sample == other);
            assert_eq!(
                starts_with(&chars_of(sample), &chars_of(other)),
                sample.starts_with(other)
            );
            assert_eq!(
                strip_prefix_or_all(sample, other),
                sample.strip_prefix(other).unwrap_or(sample)
            );
        }
    }
    assert_eq!(text_of(&chars_of("hello"), 1, 3), "el");
    assert_eq!(prefixed("a: ", "b"), "a: b");
}

#[test]
fn numbers_are_written_and_read_like_the_standard_library() {
    for n in [0, 9, 10, 12345, u64::MAX] {
        let mut out = String::from(">");
        push_u64(&mut out, n);
        assert_eq!(out, format!(">{n}"));
    }
    for n in [0, -1, 7, i64::MIN, i64::MAX] {
        let mut out = String::new();
        push_i64(&mut out, n);
        assert_eq!(out, n.to_string());
    }
    let mut out = String::new();
    push_u128(&mut out, u128::MAX);
    assert_eq!(out, u128::MAX.to_string());
    for sample in ["", "+", "0", "+7", "-1", "007", "255", "256", "1x", " 1", "99999999999999999999"] {
        assert_eq!(
            parse_unsigned(&chars_of(sample), 255),
            sample.parse::<u8>().ok().map(u64::from),
            "{sample}"
        );
        assert_eq!(
            parse_unsigned(&chars_of(sample), u64::MAX),
            sample.parse::<u64>().ok(),
            "{sample}"
        );
    }
}

#[test]
fn json_is_read_and_written_like_serde_json() {
    for source in [
        "null",
        "true",
        "-12",
        "18446744073709551615",
        "1.5",
        "-0.0",
        "1e300",
        "\"a\\n\\u00e9\\\"\"",
        "[]",
        "[1,[2,{\"k\":null}],\"x\"]",
        "{\"b\":1,\"a\":{\"z\":[],\"y\":false}}",
        " { \"a\" : 1 , \"a\" : 2 } ",
    ] {
        let value: serde_json::Value = serde_json::from_str(source).unwrap();
        let json = parse_json(source.as_bytes()).unwrap();
        assert_eq!(json.compact_text(), value.to_string());
        assert_eq!(json.pretty_text(), serde_json::to_string_pretty(&value).unwrap());
        assert_eq!(value_of_json(&json), value);
        assert!(same_json(&json, &json_of_value(value)));
        assert!(same_json(&json, &copy_json(&json)));
    }
}

#[test]
fn json_errors_are_those_of_serde_json() {
    for source in ["", "{", "[1,]", "tru", "\"\\x\"", "1 2"] {
        let error = serde_json::from_str::<serde_json::Value>(source).unwrap_err();
        assert_eq!(parse_json(source.as_bytes()).err(), Some(error.to_string()));
    }
}

#[test]
fn json_values_are_told_apart() {
    let parse = |source: &str| parse_json(source.as_bytes()).unwrap();
    assert!(!same_json(&parse("1"), &parse("1.0")));
    assert!(same_json(&parse("0.0"), &parse("-0.0")));
    assert!(!same_json(&parse("[1,2]"), &parse("[2,1]")));
    assert!(same_json(&parse("{\"a\":1,\"b\":2}"), &parse("{\"b\":2,\"a\":1}")));
    assert!(!same_json(&parse("{\"a\":1}"), &parse("{\"a\":1,\"b\":2}")));
    assert!(!same_json(&parse("null"), &parse("false")));
}

#[test]
fn json_members_are_found_by_key() {
    let json = parse_json(b"{\"a\":\"x\",\"n\":-3,\"u\":7,\"big\":18446744073709551615}").unwrap();
    assert!(json.is_object());
    assert_eq!(json.get("a").and_then(Json::as_str), Some("x"));
    assert_eq!(json.get("n").and_then(Json::as_i64), Some(-3));
    assert_eq!(json.get("n").and_then(Json::as_u64), None);
    assert_eq!(json.get("u").and_then(Json::as_u64), Some(7));
    assert_eq!(json.get("big").and_then(Json::as_i64), None);
    assert_eq!(json.get("big").and_then(Json::as_u64), Some(u64::MAX));
    assert!(json.get("missing").is_none());
    assert!(integer(3).get("a").is_none());
}

#[test]
fn json_is_built_from_parts() {
    let json = Fields::new()
        .with("a", Items::new().with(integer(-1)).with(unsigned(2)).array())
        .with("b", boolean(true))
        .with("c", text("x\"y"))
        .object();
    assert_eq!(json.compact_text(), "{\"a\":[-1,2],\"b\":true,\"c\":\"x\\\"y\"}");
}

#[test]
fn bytes_are_written_in_hexadecimal() {
    assert_eq!(hex_text(&[0, 1, 0x7f, 0xab, 0xff]), "00017fabff");
}

#[test]
fn ordered_map_keeps_its_keys_in_order() {
    let mut map: OrderedMap<VersionKey, u8> = OrderedMap::new();
    let key = |name: &str, version: u32| VersionKey { name: name.to_string(), version };
    for (i, (name, version)) in [("b", 2), ("a", 9), ("b", 1), ("ab", 1)].iter().enumerate() {
        map.insert(key(name, *version), i as u8);
    }
    map.insert(key("b", 1), 7);
    assert_eq!(map.len(), 4);
    assert_eq!(map.values(), &vec![1, 3, 7, 0]);
    assert_eq!(map.keys()[1].name, "ab");
    assert_eq!(map.get(&key("b", 1)), Some(&7));
    assert_eq!(map.get(&key("b", 3)), None);
    assert_eq!(map.take(&key("a", 9)), Some(1));
    assert_eq!(map.take(&key("a", 9)), None);
    map.remove(&key("b", 2));
    assert_eq!(map.values(), &vec![3, 7]);
}

#[test]
fn rendered_values_read_back() {
    let source = "{\"a\":[1,-2,18446744073709551615,null,true],\"b\":{\"\":\"q\\\"\\\\ \\n \\u0001 \u{e9}\u{1f600}\"}}";
    let value = parse_json(source.as_bytes()).unwrap();
    let text = value.compact_text();
    let again = parse_json(text.as_bytes()).unwrap();
    assert!(same_json(&value, &again));
    assert_eq!(again.compact_text(), text);
    let nested = |depth: usize| {
        let mut value = Json::Null;
        for _ in 0..depth {
            value = Json::Array(vec![value]);
        }
        value.compact_text()
    };
    assert!(parse_json(nested(126).as_bytes()).is_ok());
    assert!(parse_json(nested(127).as_bytes()).is_ok());
    assert!(parse_json(nested(128).as_bytes()).is_err());
}

#[test]
fn key_order_is_gone_once_parsed() {
    let a = parse_json(br#"{"b":[{"y":1,"x":2}],"a":null}"#).unwrap();
    let b = parse_json(br#"{"a":null,"b":[{"x":2,"y":1}]}"#).unwrap();
    assert!(same_json(&a, &b));
    assert_eq!(a.compact_text(), b.compact_text());
    let c = parse_json(br#"{"a":null,"b":[{"x":1,"y":2}]}"#).unwrap();
    assert!(!same_json(&a, &c));
}
