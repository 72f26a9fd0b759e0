//! The data that the library is made of: text, names and JSON.

use duckdb_binding::json::{integer, string, unsigned, Json, JsonObject};
use duckdb_binding::names::NameMap;
use duckdb_binding::sql::count_placeholders;
use duckdb_binding::surface::{first_column, text_of_value, Surface};
use duckdb_binding::text::{
    blank, contains, double_apostrophes, i128_text, identifier, join, parse_u64,
    same_ignoring_case, starts_with, to_lower, to_lower_char, trim, u128_text, white_space,
};

fn parse(text: &str) -> Json {
    Json::parse(text.as_bytes()).expect("json")
}

#[test]
fn characters_are_classified_as_in_std() {
    for n in 0..=0x10ffff_u32 {
        if let Some(c) = char::from_u32(n) {
            assert_eq!(white_space(c), c.is_whitespace(), "{n:x}");
            assert_eq!(to_lower_char(c), c.to_ascii_lowercase(), "{n:x}");
        }
    }
}

#[test]
fn text_operations_agree_with_std() {
    let texts = [
        "",
        " ",
        "a",
        " a b\u{2003}",
        "\u{85}x\n",
        "Ärger",
        "it's",
        "''",
        "aXbX",
        "cred://",
        "xcred:/cred://y",
    ];
    for s in texts {
        assert_eq!(trim(s), s.trim(), "{s:?}");
        assert_eq!(blank(s), s.trim().is_empty(), "{s:?}");
        assert_eq!(to_lower(s), s.to_ascii_lowercase(), "{s:?}");
        assert_eq!(double_apostrophes(s), s.replace('\'', "''"), "{s:?}");
        for t in texts {
            assert_eq!(contains(s, t), s.contains(t), "{s:?} {t:?}");
            assert_eq!(starts_with(s, t), s.starts_with(t), "{s:?} {t:?}");
            assert_eq!(
                same_ignoring_case(s, t),
                s.eq_ignore_ascii_case(t),
                "{s:?} {t:?}"
            );
        }
    }
    assert!(identifier("_x9"));
    assert!(!identifier("9x"));
    let parts: Vec<String> = vec!["a".into(), "".into(), "b".into()];
    assert_eq!(join(&parts, ", "), parts.join(", "));
    assert_eq!(join(&vec![], ", "), "");
}

#[test]
fn numbers_are_written_and_read_as_in_std() {
    for n in [0u64, 7, 10, 99, 100, 18_446_744_073_709_551_615] {
        assert_eq!(u128_text(n as u128), n.to_string());
        assert_eq!(parse_u64(&n.to_string()), Some(n));
    }
    for n in [i128::MIN, -1, 0, 42, i128::MAX] {
        assert_eq!(i128_text(n), n.to_string());
    }
    for s in [
        "",
        "+",
        "-1",
        "-0",
        "+7",
        "007",
        " 1",
        "1 ",
        "1_0",
        "18446744073709551616",
        "000000000000000000000000000000001",
        "99999999999999999999999",
        "٣",
    ] {
        assert_eq!(parse_u64(s), s.parse::<u64>().ok(), "{s:?}");
    }
}

#[test]
fn names_are_kept_in_order() {
    let map = NameMap::new()
        .with("b", 1)
        .with("é", 2)
        .with("a", 3)
        .with("b", 4)
        .with("ab", 5)
        .with("", 6);
    let mut sorted = std::collections::BTreeMap::new();
    for (k, v) in [("b", 4), ("é", 2), ("a", 3), ("ab", 5), ("", 6)] {
        sorted.insert(k.to_owned(), v);
    }
    assert_eq!(map.len(), sorted.len());
    for (i, (name, value)) in sorted.iter().enumerate() {
        assert_eq!(map.name(i), name);
        assert_eq!(map.value(i), value);
    }
    assert_eq!(map.get("b"), Some(&4));
    assert_eq!(map.get("c"), None);
}

#[test]
fn objects_keep_the_order_of_their_keys() {
    let object = JsonObject::new()
        .with("z", integer(1))
        .with("a", integer(2))
        .with("z", integer(3));
    assert_eq!(object.len(), 2);
    assert_eq!(object.key(0), "z");
    assert_eq!(object.value(0), &integer(3));
    assert_eq!(object.get("a"), Some(&integer(2)));
    assert_eq!(object.get("b"), None);
    assert_eq!(Json::Object(object).to_text(), r#"{"z":3,"a":2}"#);
}

#[test]
fn documents_pass_through_serde_json() {
    let text = r#"{"b":[null,true,-1,18446744073709551615,1.5,"x\n\"é"],"a":{"c":{},"d":[]}}"#;
    let document = parse(text);
    assert_eq!(document.to_text(), text);
    assert_eq!(document.to_bytes(), Ok(text.as_bytes().to_vec()));
    assert_eq!(Json::from_value(&document.to_value()), document);
    assert_eq!(
        document.to_value(),
        serde_json::from_str::<serde_json::Value>(text).unwrap()
    );
    assert_eq!(document.clone(), document);
    assert!(Json::parse(b"[1,").is_err());
    assert_eq!(
        Json::parse(b"").expect_err("empty"),
        "EOF while parsing a value at line 1 column 0"
    );
}

#[test]
fn numbers_tell_whether_they_are_integers() {
    assert_eq!(integer(-7).as_i64(), Some(-7));
    assert_eq!(unsigned(7).as_i64(), Some(7));
    assert_eq!(unsigned(u64::MAX).as_i64(), None);
    assert_eq!(parse("1.0").as_i64(), None);
    assert_eq!(parse("1e3").as_i64(), None);
    assert_eq!(string("1").as_i64(), None);
    assert_eq!(unsigned(u64::MAX).to_text(), "18446744073709551615");
    assert_eq!(parse("1e21").to_text(), serde_json::Number::from_f64(1e21).unwrap().to_string());
}

#[test]
fn values_read_as_bare_text() {
    assert_eq!(text_of_value(&Json::Null), None);
    assert_eq!(text_of_value(&string("a\"b")).as_deref(), Some("a\"b"));
    assert_eq!(text_of_value(&parse("2.5")).as_deref(), Some("2.5"));
    assert_eq!(text_of_value(&Json::Bool(true)).as_deref(), Some("true"));
    assert_eq!(text_of_value(&parse("{\"a\": 1}")).as_deref(), Some("{\"a\":1}"));
    assert_eq!(first_column(&vec![]), None);
    assert_eq!(first_column(&vec![parse("{}")]), None);
    assert_eq!(
        first_column(&vec![parse("{\"q\":1,\"a\":2}")]).as_deref(),
        Some("q")
    );
    assert_eq!(Surface::default().as_str(), "tool");
    assert_eq!(Surface::Resource.as_str(), "resource");
    assert_eq!(Surface::Prompt.as_str(), "prompt");
}

#[test]
fn placeholders_stand_in_code_only() {
    let cases = [
        ("", 0),
        ("SELECT ?", 1),
        ("a = ? AND b = ?", 2),
        ("name <> '?'", 0),
        ("name <> 'it''s ?' AND a = ?", 1),
        ("SELECT \"?\" , ?", 1),
        ("SELECT \"a\"\"?\" , '\"', ?", 1),
        ("SELECT 1 -- ?\n, ?", 1),
        ("SELECT 1 -- ?\r, ?", 1),
        ("SELECT 1 -- ? '", 0),
        ("SELECT /* ? */ ?", 1),
        ("SELECT /* ? /* ' */ ? */ ?", 1),
        ("SELECT /*/ ? */ ?", 1),
        ("SELECT 1 - ? / ? * ?", 3),
        ("SELECT '?", 0),
        ("/* ?", 0),
        ("'--' ? '/*' ?", 2),
        ("SELECT n FROM t WHERE n <> $$it's$$ AND n LIKE ?", 1),
        ("SELECT n FROM t WHERE n <> $$?$$", 0),
        ("SELECT $tag$ ? $$ ' $other$ $tag$, ?", 1),
        ("SELECT $a1$?$a1$ ?", 1),
        ("SELECT $é$?$é$ ?", 1),
        ("SELECT $$?", 0),
        ("SELECT $$$?$$ ?", 1),
        ("SELECT $1, ? $1$ ?", 2),
        ("SELECT $name, ?", 1),
        ("SELECT $a b$ ?", 1),
        ("SELECT a$$, '?', ?", 1),
        ("SELECT a1$x$?$x$", 1),
        ("SELECT 1$$?$$, ?", 1),
        ("SELECT 1e5$$?$$, ?", 1),
        ("SELECT E'\\'', ?", 1),
        ("SELECT e'\\'?', ?", 1),
        ("SELECT E'a''?\\\\', ?", 1),
        ("SELECT E'?\\", 0),
        ("SELECT nE'\\', ?", 1),
        ("SELECT '\\', ?", 1),
        ("SELECT 1E'\\'?', ?", 1),
        ("SELECT 1e5E'\\'?', ?", 1),
        ("SELECT 1e5xE'\\', ?", 1),
        ("SELECT 1_000E'\\'?', 1.5e-3, .5, ?", 1),
        ("SELECT\u{a0}E'\\'?', ?", 1),
        ("SELECT `it's ?`, ?", 1),
        ("SELECT \"`\", ?, '\"`'", 1),
        ("SELECT j->>?, [?], ?::INT, x=?", 4),
        ("? ", 1),
    ];
    for (sql, n) in cases {
        assert_eq!(count_placeholders(sql), n, "{sql}");
    }
}
