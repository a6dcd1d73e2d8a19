use std::collections::BTreeMap;

use mac_window_resizer::config::{Config, Rule, EMBEDDED_CONFIG};
use mac_window_resizer::document::{parse_document, Node};
use mac_window_resizer::parse::{build_config, parse_config, read_rule};

const FINDER: &str = "[com.apple.finder]\nwidth = 860\nheight = 660\n";

fn float(bits: u64) -> f64 {
    f64::from_bits(bits)
}

fn reason(source: &str) -> String {
    parse_config(source).unwrap_err()
}

fn number(value: f64) -> Node {
    Node { entries: None, number: Ok(value.to_bits()) }
}

fn table(entries: Vec<(&str, Node)>) -> Node {
    Node {
        entries: Some(list(entries)),
        number: Err("invalid type: map, expected f64".to_string()),
    }
}

fn list(entries: Vec<(&str, Node)>) -> Vec<(String, Node)> {
    entries.into_iter().map(|(key, node)| (key.to_string(), node)).collect()
}

#[test]
fn dotted_application_tables_and_optional_positions() {
    let config = parse_config(&format!(
        "{FINDER}\n[com.apple.Safari]\nwidth = 1200.5\nheight = 800\nx = -1400\ny = 41"
    ))
    .unwrap();
    let finder = config.get("com.apple.finder").unwrap();
    assert_eq!(
        (float(finder.width), float(finder.height), finder.x.map(float), finder.y.map(float)),
        (860.0, 660.0, None, None)
    );
    let safari = config.get("com.apple.Safari").unwrap();
    assert_eq!(
        (float(safari.width), safari.x.map(float), safari.y.map(float)),
        (1200.5, Some(-1400.0), Some(41.0))
    );
}

#[test]
fn invalid_and_conflicting_rules_are_rejected() {
    for size in ["0", "-1", "nan", "inf"] {
        assert!(parse_config(&FINDER.replace("860", size)).is_err());
    }
    for extra in ["widht = 10", "x = nan", "y = inf"] {
        assert!(parse_config(&format!("{FINDER}{extra}")).is_err());
    }
    assert!(parse_config("").is_err());
    assert!(parse_config(&FINDER.replace("height = 660", "")).is_err());
    assert!(parse_config(&format!(
        "{FINDER}\n[\"com.apple.finder\"]\nwidth = 900\nheight = 700"
    ))
    .is_err());
}

#[test]
fn embedded_config_and_quoted_bundle_ids_are_supported() {
    parse_config(EMBEDDED_CONFIG).unwrap();
    assert!(parse_config(&FINDER.replace("[com.apple.finder]", "[\"com.apple.finder\"]"))
        .unwrap()
        .contains_key("com.apple.finder"));
}

#[test]
fn rules_know_their_bundle_id() {
    let config = parse_config(FINDER).unwrap();
    assert_eq!(config.get("com.apple.finder").unwrap().bundle_id, "com.apple.finder");
    assert!(config.get("com.apple.Finder").is_none());
    assert!(!config.contains_key("com.apple"));
}

#[test]
fn every_refusal_says_why() {
    let expected = "expected [application.bundle.id] with width and height";
    assert_eq!(reason(""), expected);
    assert_eq!(reason("width = 1\nheight = 2\n"), expected);
    assert_eq!(reason("[\"com.apple finder\"]\nwidth = 1\nheight = 2\n"), expected);
    assert_eq!(
        reason(&FINDER.replace("860", "0")),
        "com.apple.finder: width and height must be finite and positive"
    );
    assert_eq!(
        reason(&FINDER.replace("660", "-0.5")),
        "com.apple.finder: width and height must be finite and positive"
    );
    assert_eq!(
        reason(&format!("{FINDER}x = -inf")),
        "com.apple.finder: x and y must be finite"
    );
    assert_eq!(
        reason(&format!("{FINDER}\n[\"com.apple.finder\"]\nwidth = 900\nheight = 700")),
        "duplicate application: com.apple.finder"
    );
}

#[test]
fn syntax_errors_are_those_of_the_document() {
    let source = "[com.apple.finder\nwidth = 1";
    let error = source.parse::<toml::Table>().unwrap_err();
    assert_eq!(reason(source), error.to_string());
    assert!(parse_document(source).is_err());
}

#[test]
fn field_errors_are_worded_as_serde_words_them() {
    let unknown = <toml::de::Error as serde::de::Error>::unknown_field(
        "widht",
        &["width", "height", "x", "y"],
    );
    assert_eq!(reason(&format!("{FINDER}widht = 10")), format!("com.apple.finder: {unknown}"));
    let missing = <toml::de::Error as serde::de::Error>::missing_field("height");
    assert_eq!(
        reason(&FINDER.replace("height = 660", "")),
        format!("com.apple.finder: {missing}")
    );
    let missing = <toml::de::Error as serde::de::Error>::missing_field("width");
    assert_eq!(reason("[com.apple.finder]"), format!("com.apple.finder: {missing}"));
    for value in ["\"wide\"", "true", "[1]", "{ a = 1 }", "1979-05-27"] {
        let source = FINDER.replace("860", value);
        let fields = source.replace("[com.apple.finder]", "").parse::<toml::Table>().unwrap();
        let error = fields.try_into::<BTreeMap<String, f64>>().unwrap_err();
        assert_eq!(reason(&source), format!("com.apple.finder: {error}"));
    }
}

#[test]
fn the_first_fault_in_the_order_of_the_keys_is_told() {
    assert_eq!(
        reason("[a.b]\nzoom = 1\nheight = true\nabc = 1\n"),
        "a.b: unknown field `abc`, expected one of `width`, `height`, `x`, `y`\n"
    );
    assert_eq!(
        reason("[a.b]\nzoom = 1\nheight = true\n"),
        "a.b: invalid type: boolean `true`, expected f64\nin `height`\n"
    );
}

#[test]
fn integers_are_read_as_the_nearest_floating_point_numbers() {
    for n in [1i64, 860, 9007199254740993, i64::MAX] {
        let config = parse_config(&FINDER.replace("860", &n.to_string())).unwrap();
        assert_eq!(float(config.get("com.apple.finder").unwrap().width), n as f64);
    }
    let config = parse_config(&format!("{FINDER}x = {}", i64::MIN)).unwrap();
    assert_eq!(config.get("com.apple.finder").unwrap().x.map(float), Some(i64::MIN as f64));
}

#[test]
fn a_table_of_tables_is_a_path_and_any_other_is_a_rule() {
    let entries = list(vec![(
        "com",
        table(vec![
            ("a", table(vec![("width", number(1.0)), ("height", number(2.0))])),
            ("b", table(vec![("height", number(3.0)), ("width", number(4.0)), ("y", number(-5.0))])),
        ]),
    )]);
    let config = build_config(&entries).unwrap();
    let a = config.get("com.a").unwrap();
    let b = config.get("com.b").unwrap();
    assert_eq!((float(a.width), float(a.height), a.x, a.y), (1.0, 2.0, None, None));
    assert_eq!((float(b.width), float(b.height), b.y.map(float)), (4.0, 3.0, Some(-5.0)));

    let mixed = list(vec![(
        "com",
        table(vec![("a", table(vec![("width", number(1.0))])), ("width", number(1.0))]),
    )]);
    assert_eq!(
        build_config(&mixed).unwrap_err(),
        "com: unknown field `a`, expected one of `width`, `height`, `x`, `y`\n"
    );
    let nested = list(vec![("com", table(vec![("width", table(vec![]))]))]);
    assert_eq!(build_config(&nested).unwrap_err(), "com.width: missing field `width`\n");
    assert_eq!(
        build_config(&list(vec![])).unwrap_err(),
        "expected [application.bundle.id] with width and height"
    );
}

#[test]
fn an_empty_key_adds_nothing_to_an_empty_path() {
    let inner = || table(vec![("width", number(1.0)), ("height", number(1.0))]);
    let config = build_config(&list(vec![("", table(vec![("a", inner())]))])).unwrap();
    assert!(config.contains_key("a"));
    let config = build_config(&list(vec![("a", table(vec![("", inner())]))])).unwrap();
    assert!(config.contains_key("a."));
}

#[test]
fn dotted_and_quoted_headers_agree() {
    let fields = || table(vec![("width", number(7.0)), ("height", number(8.0))]);
    let dotted = build_config(&list(vec![("a", table(vec![("b", fields())]))])).unwrap();
    let quoted = build_config(&list(vec![("a.b", fields())])).unwrap();
    assert_eq!(dotted.get("a.b").unwrap().width, quoted.get("a.b").unwrap().width);
}

#[test]
fn sections_may_come_in_any_order_and_spelling() {
    let finder = "width = 860\nheight = 660\n";
    let safari = "width = 1200.5\nheight = 800\nx = -1400\ny = 41\n";
    let editor = "width = 1\nheight = 2\n";
    let one = parse_config(&format!(
        "[com.apple.finder]\n{finder}[com.apple.Safari]\n{safari}[org.editor]\n{editor}"
    ))
    .unwrap();
    let other = parse_config(&format!(
        "[org.editor]\n{editor}[\"com.apple.Safari\"]\n{safari}[com.\"apple.finder\"]\n{finder}"
    ))
    .unwrap();
    for id in ["com.apple.finder", "com.apple.Safari", "org.editor"] {
        let (a, b) = (one.get(id).unwrap(), other.get(id).unwrap());
        assert_eq!((&a.bundle_id, a.width, a.height), (&b.bundle_id, b.width, b.height));
        assert_eq!((a.x, a.y), (b.x, b.y));
    }
}

#[test]
fn a_table_may_stand_under_its_joined_key() {
    let fields = |width: f64| table(vec![("width", number(width)), ("height", number(8.0))]);
    let nested = list(vec![
        ("a", table(vec![("b", fields(1.0)), ("c", fields(2.0))])),
        ("d", fields(3.0)),
    ]);
    let moved = list(vec![
        ("a", table(vec![("c", fields(2.0))])),
        ("d", fields(3.0)),
        ("a.b", fields(1.0)),
    ]);
    let (nested, moved) = (build_config(&nested).unwrap(), build_config(&moved).unwrap());
    for (id, width) in [("a.b", 1.0), ("a.c", 2.0), ("d", 3.0)] {
        assert_eq!(float(nested.get(id).unwrap().width), width);
        assert_eq!(float(moved.get(id).unwrap().width), width);
    }
}

#[test]
fn a_rule_is_read_from_its_fields() {
    let fields = list(vec![("width", number(1.5)), ("height", number(2.5)), ("x", number(0.0))]);
    let rule = read_rule(&fields, "a").unwrap();
    assert_eq!((rule.bundle_id.as_str(), float(rule.width)), ("a", 1.5));
    assert_eq!((rule.x.map(float), rule.y), (Some(0.0), None));
    assert!(read_rule(&fields, "").is_err());
    assert!(read_rule(&fields, "a\u{3000}b").is_err());
}

#[test]
fn an_application_gets_one_rule() {
    let rule = |width: f64| Rule {
        bundle_id: "a".to_string(),
        width: width.to_bits(),
        height: 1.0f64.to_bits(),
        x: None,
        y: None,
    };
    let mut config = Config::new();
    assert!(!config.contains_key("a"));
    assert!(config.insert(rule(1.0)));
    assert!(!config.insert(rule(2.0)));
    assert_eq!(float(config.get("a").unwrap().clone().width), 1.0);
}
