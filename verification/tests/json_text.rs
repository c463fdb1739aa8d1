use fly_dist::json::{find, Json};
use fly_dist::text::same_text;

#[test]
fn parse_reads_an_object_in_text_order() {
    let json = Json::parse("{\"b\": 1, \"a\": [true, null, \"x\"]}").unwrap();
    match json {
        Json::Object(members) => {
            assert_eq!(members.len(), 2);
            assert_eq!(members[0].0, "b");
            assert!(matches!(members[0].1, Json::Number(1)));
            assert_eq!(members[1].0, "a");
            match &members[1].1 {
                Json::Array(items) => {
                    assert_eq!(items.len(), 3);
                    assert!(matches!(items[0], Json::Bool(true)));
                    assert!(matches!(items[1], Json::Null));
                    assert!(matches!(&items[2], Json::Str(s) if s == "x"));
                }
                _ => panic!("expected an array"),
            }
        }
        _ => panic!("expected an object"),
    }
}

#[test]
fn parse_refuses_what_is_not_json() {
    assert!(Json::parse("{\"a\": ").is_none());
    assert!(Json::parse("").is_none());
    assert!(Json::parse("{} {}").is_none());
}

#[test]
fn render_writes_compact_text_in_member_order() {
    let json = Json::Object(vec![
        ("src".to_string(), Json::Str("n1".to_string())),
        ("list".to_string(), Json::Array(vec![Json::Number(5), Json::Null, Json::Bool(false)])),
    ]);
    assert_eq!(json.render().unwrap(), "{\"src\":\"n1\",\"list\":[5,null,false]}");
}

#[test]
fn render_refuses_a_repeated_key() {
    let json = Json::Object(vec![
        ("a".to_string(), Json::Null),
        ("a".to_string(), Json::Null),
    ]);
    assert!(json.render().is_none());
}

#[test]
fn numbers_other_than_unsigned_integers_keep_no_value() {
    assert!(matches!(Json::parse("-1"), Some(Json::OtherNumber)));
    assert!(matches!(Json::parse("1.5"), Some(Json::OtherNumber)));
    assert!(matches!(Json::parse("18446744073709551615"), Some(Json::Number(u64::MAX))));
    assert!(matches!(Json::parse("18446744073709551616"), Some(Json::OtherNumber)));
    assert!(Json::Array(vec![Json::OtherNumber]).render().is_none());
}

#[test]
fn render_and_parse_agree_on_a_nested_tree() {
    let json = Json::Object(vec![
        ("a".to_string(), Json::Array(vec![Json::Object(vec![("b".to_string(), Json::Str("é\u{1F600}".to_string()))])])),
        ("c".to_string(), Json::Number(0)),
        ("".to_string(), Json::Bool(true)),
    ]);
    let text = json.render().unwrap();
    assert_eq!(Json::parse(&text), Some(json));
}

#[test]
fn parse_keeps_the_last_of_repeated_keys() {
    let json = Json::parse("{\"a\":1,\"b\":2,\"a\":3}").unwrap();
    assert_eq!(
        json,
        Json::Object(vec![("a".to_string(), Json::Number(3)), ("b".to_string(), Json::Number(2))])
    );
}

#[test]
fn find_gives_the_first_member_with_the_key() {
    let members = vec![
        ("a".to_string(), Json::Number(1)),
        ("b".to_string(), Json::Number(2)),
        ("a".to_string(), Json::Number(3)),
    ];
    assert_eq!(find(&members, "a"), Some(&Json::Number(1)));
    assert_eq!(find(&members, "b"), Some(&Json::Number(2)));
    assert_eq!(find(&members, "c"), None);
    assert_eq!(find(&members, ""), None);
}

#[test]
fn same_text_compares_character_by_character() {
    assert!(same_text("", ""));
    assert!(same_text("init", "init"));
    assert!(!same_text("init", "init_ok"));
    assert!(!same_text("init", "inix"));
    assert!(same_text("é", "\u{e9}"));
    assert!(!same_text("e", "é"));
}

#[test]
fn render_escapes_quotes_and_control_characters() {
    assert_eq!(Json::Str("a\"b\\c\n".to_string()).render().unwrap(), "\"a\\\"b\\\\c\\n\"");
    assert_eq!(Json::Str("é".to_string()).render().unwrap(), "\"é\"");
    assert_eq!(Json::Null.render().unwrap(), "null");
    assert_eq!(Json::Bool(true).render().unwrap(), "true");
    assert_eq!(Json::Number(u64::MAX).render().unwrap(), "18446744073709551615");
    assert_eq!(Json::Array(vec![]).render().unwrap(), "[]");
    assert_eq!(Json::Object(vec![]).render().unwrap(), "{}");
}

#[test]
fn parse_refuses_nesting_beyond_the_depth_that_serde_json_reads() {
    let shallow = format!("{}{}", "[".repeat(100), "]".repeat(100));
    assert!(Json::parse(&shallow).is_some());
    let deep = format!("{}{}", "[".repeat(200), "]".repeat(200));
    assert!(Json::parse(&deep).is_none());
}
