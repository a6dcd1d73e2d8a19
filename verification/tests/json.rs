use mac_window_resizer::json::{are_same, is_same_or_null, parse_json, Json, JsonNumber};
use mac_window_resizer::task::cargo::{
    built_executable, described_package, find_executable, find_package, parse_messages,
};

const METADATA: &str = r#"{"packages": [
    {"name": "other", "version": "9.9.9", "id": "other 9.9.9"},
    {"name": "MacWindowResizer", "version": "1.2.3", "id": "app 1.2.3"},
    {"name": "MacWindowResizer", "version": "4.5.6", "id": "app 4.5.6"}
]}"#;

fn artifact(id: &str, target: &str, executable: &str) -> String {
    format!(
        r#"{{"reason": "compiler-artifact", "package_id": {id}, "target": {{"name": "{target}"}}, "executable": {executable}}}"#
    )
}

#[test]
fn values_are_read_part_by_part() {
    let value = parse_json(r#"{"a": [1, -2, 2.5, "x", true, null]}"#).unwrap();
    let items = match value.member("a") {
        Some(Json::Array(items)) => items,
        other => panic!("{other:?}"),
    };
    assert!(matches!(items[0], Json::Number(JsonNumber::Unsigned(1))));
    assert!(matches!(items[1], Json::Number(JsonNumber::Negative(-2))));
    let large = parse_json("18446744073709551615").unwrap();
    assert!(matches!(large, Json::Number(JsonNumber::Unsigned(u64::MAX))));
    let least = parse_json("-9223372036854775808").unwrap();
    assert!(matches!(least, Json::Number(JsonNumber::Negative(i64::MIN))));
    assert!(matches!(items[2], Json::Number(JsonNumber::Float(bits)) if bits == 2.5f64.to_bits()));
    assert_eq!(items[3].text(), Some("x"));
    assert!(matches!(items[4], Json::Bool(true)));
    assert!(matches!(items[5], Json::Null));
    assert_eq!(items.len(), 6);
    assert!(value.member("b").is_none());
    assert!(items[3].member("a").is_none());
    assert!(items[0].text().is_none());
}

#[test]
fn syntax_errors_are_those_of_the_parser() {
    let error = serde_json::from_str::<serde_json::Value>("{").unwrap_err();
    assert_eq!(parse_json("{").unwrap_err(), error.to_string());
}

#[test]
fn values_are_compared_as_the_parser_compares_them() {
    let samples = [
        "null", "true", "false", "0", "1", "-1", "0.0", "-0.0", "1.0", "18446744073709551615",
        "\"a\"", "\"b\"", "[]", "[1]", "[1, 2]", "[[1], 2]", "{}", r#"{"a": 1}"#, r#"{"a": 2}"#,
        r#"{"b": 1}"#, r#"{"a": 1, "b": 2}"#, r#"{"b": 2, "a": 1}"#, r#"{"a": {"a": [null]}}"#,
    ];
    for a in samples {
        for b in samples {
            let expected = serde_json::from_str::<serde_json::Value>(a).unwrap()
                == serde_json::from_str::<serde_json::Value>(b).unwrap();
            let (p, q) = (parse_json(a).unwrap(), parse_json(b).unwrap());
            assert_eq!(are_same(&p, &q), expected, "{a} {b}");
        }
    }
    let member = |key: &str, value: bool| (key.to_string(), Json::Bool(value));
    let one = Json::Object(vec![member("a", true), member("b", false)]);
    assert!(are_same(&one, &Json::Object(vec![member("b", false), member("a", true)])));
    assert!(!are_same(&one, &Json::Object(vec![member("b", true), member("a", false)])));
    assert!(!are_same(&one, &Json::Object(vec![member("b", false), member("c", true)])));
    assert!(is_same_or_null(None, &Json::Null));
    assert!(is_same_or_null(Some(&Json::Null), &Json::Null));
    assert!(!is_same_or_null(None, &Json::Bool(false)));
    assert!(!is_same_or_null(Some(&Json::Bool(false)), &Json::Null));
}

#[test]
fn the_first_package_of_the_name_is_found() {
    let metadata = parse_json(METADATA).unwrap();
    let package = find_package(&metadata, "MacWindowResizer").unwrap();
    assert_eq!(package.version, "1.2.3");
    assert_eq!(package.id.text(), Some("app 1.2.3"));
    let described = described_package(METADATA, "other").unwrap();
    assert_eq!((described.version.as_str(), described.id.text()), ("9.9.9", Some("other 9.9.9")));
    assert_eq!(described_package("{", "other").unwrap_err(), parse_json("{").unwrap_err());
    assert_eq!(described_package("[]", "other").unwrap_err(), "missing packages");
}

#[test]
fn a_clone_is_the_same_value() {
    let value = parse_json(r#"{"a": [1, -2, 2.5, "x", true, null, [], {"b": {}}]}"#).unwrap();
    assert!(are_same(&value.clone(), &value));
}

#[test]
fn metadata_without_the_package_is_refused() {
    let find = |text: &str| find_package(&parse_json(text).unwrap(), "app").unwrap_err();
    assert_eq!(find("{}"), "missing packages");
    assert_eq!(find(r#"{"packages": {}}"#), "missing packages");
    assert_eq!(find(METADATA), "application package not found");
    assert_eq!(find(r#"{"packages": [{"name": "app"}]}"#), "missing package version");
    assert_eq!(
        find(r#"{"packages": [{"name": "app", "version": 1}]}"#),
        "missing package version"
    );
}

#[test]
fn the_last_artifact_names_the_executable() {
    let id = Json::Text("app".to_string());
    let output = [
        artifact("\"app\"", "MacWindowResizer", "\"/first\""),
        artifact("\"app\"", "MacWindowResizer", "\"/second\""),
        artifact("\"app\"", "task", "\"/task\""),
        artifact("\"other\"", "MacWindowResizer", "\"/other\""),
        r#"{"reason": "build-finished", "success": true}"#.to_string(),
    ]
    .join("\n");
    assert_eq!(built_executable(&output, &id).unwrap(), "/second");
    let messages = parse_messages(&output).unwrap();
    assert_eq!(messages.len(), 5);
    assert_eq!(find_executable(&messages, &id), Some("/second"));
}

#[test]
fn a_build_without_an_executable_is_refused() {
    let id = Json::Text("app".to_string());
    let missing = "Cargo did not report the application executable";
    assert_eq!(built_executable("", &id).unwrap_err(), missing);
    let output = format!(
        "{}\r\n{}\n",
        artifact("\"app\"", "MacWindowResizer", "\"/first\""),
        artifact("\"app\"", "MacWindowResizer", "null")
    );
    assert_eq!(built_executable(&output, &id).unwrap_err(), missing);
    assert_eq!(built_executable("{}\n\n{}", &id).unwrap_err(), parse_json("").unwrap_err());
}

#[test]
fn an_absent_package_id_is_null() {
    let metadata = r#"{"packages": [{"name": "app", "version": "1"}]}"#;
    let package = described_package(metadata, "app").unwrap();
    assert!(matches!(package.id, Json::Null));
    let output = artifact("null", "MacWindowResizer", "\"/a\"");
    assert_eq!(built_executable(&output, &package.id).unwrap(), "/a");
}
