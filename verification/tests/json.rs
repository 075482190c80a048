use fabro::json::{from_value, parse_json, Json};

#[test]
fn documents_are_read_in_full() {
    assert_eq!(
        parse_json(r#"{"b":[1,-2.5,"x",null,true],"a":{}}"#).unwrap(),
        Json::Object(vec![
            ("a".to_string(), Json::Object(vec![])),
            (
                "b".to_string(),
                Json::Array(vec![
                    Json::Number("1".to_string()),
                    Json::Number("-2.5".to_string()),
                    Json::Text("x".to_string()),
                    Json::Null,
                    Json::Bool(true),
                ])
            ),
        ])
    );
}

#[test]
fn faults_are_reported_in_the_words_of_the_parser() {
    assert_eq!(
        parse_json("{\"a\":}"),
        Err("expected value at line 1 column 6".to_string())
    );
    assert_eq!(
        parse_json(""),
        Err("EOF while parsing a value at line 1 column 0".to_string())
    );
}

#[test]
fn values_keep_what_they_hold() {
    let value = serde_json::Value::Array(vec![
        serde_json::Value::from(7u64),
        serde_json::Value::from("seven"),
    ]);
    assert_eq!(
        from_value(value),
        Json::Array(vec![Json::Number("7".to_string()), Json::Text("seven".to_string())])
    );
}

#[test]
fn integers_are_read_within_their_range() {
    let value = parse_json(
        r#"{"n":7,"neg":-7,"big":18446744073709551615,"float":7.0,"text":"7","min":-9223372036854775808}"#,
    )
    .unwrap();
    assert_eq!(value.get_u64("n"), Some(7));
    assert_eq!(value.get_i64("n"), Some(7));
    assert_eq!(value.get_u64("neg"), None);
    assert_eq!(value.get_i64("neg"), Some(-7));
    assert_eq!(value.get_u64("big"), Some(u64::MAX));
    assert_eq!(value.get_i64("big"), None);
    assert_eq!(value.get_i64("min"), Some(i64::MIN));
    assert_eq!(value.get_u64("float"), None);
    assert_eq!(value.get_u64("text"), None);
    assert_eq!(value.get_u64("absent"), None);
}

#[test]
fn members_are_read_by_their_type() {
    let value = parse_json(r#"{"flag":true,"text":"t"}"#).unwrap();
    assert_eq!(value.get_bool("flag"), Some(true));
    assert_eq!(value.get_bool("text"), None);
    assert_eq!(value.get_text("text"), Some(&"t".to_string()));
    assert_eq!(value.get_text("flag"), None);
    assert_eq!(value.get("other"), None);
    assert_eq!(Json::Null.get("flag"), None);
}

#[test]
fn objects_are_the_same_in_any_order() {
    let a = Json::Object(vec![
        ("x".to_string(), Json::Number("1".to_string())),
        ("y".to_string(), Json::Array(vec![Json::Null])),
    ]);
    let b = Json::Object(vec![
        ("y".to_string(), Json::Array(vec![Json::Null])),
        ("x".to_string(), Json::Number("1".to_string())),
    ]);
    assert!(a.same(&b));
    assert!(a.same(&a.clone()));
    assert!(!a.same(&Json::Object(vec![])));
    assert!(!Json::Number("1".to_string()).same(&Json::Text("1".to_string())));
}

#[test]
fn zeros_with_a_fraction_are_the_same_with_either_sign() {
    let zero = parse_json("0.0").unwrap();
    let negative = parse_json("-0.0").unwrap();
    assert!(zero.same(&negative));
    assert!(negative.same(&zero));
    assert!(!zero.same(&parse_json("0").unwrap()));
    assert!(!parse_json("1.5").unwrap().same(&parse_json("-1.5").unwrap()));
}
