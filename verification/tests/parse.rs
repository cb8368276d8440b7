use spanlog::config::{Config, Layout};
use spanlog::event::{Context, Event, Field, FieldValue};
use spanlog::format::render;
use spanlog::parse::{has_prefix, parse_record, scan_escaped, scan_int, scan_quoted, scan_value};
use spanlog::severity::Severity;

fn chars(s: &str) -> Vec<char> {
    s.chars().collect()
}

fn context() -> Context {
    Context {
        timestamp: 99,
        thread_id: 2,
        thread_name: "worker".to_string(),
        target: "svc::db".to_string(),
        file: "db.rs".to_string(),
        line: 10,
    }
}

fn same_value(a: &FieldValue, b: &FieldValue) -> bool {
    match (a, b) {
        (FieldValue::Str(x), FieldValue::Str(y)) => x == y,
        (FieldValue::Int(x), FieldValue::Int(y)) => x == y,
        (FieldValue::Bool(x), FieldValue::Bool(y)) => x == y,
        _ => false,
    }
}

fn same_fields(a: &[Field], b: &[Field]) -> bool {
    a.len() == b.len()
        && a.iter().zip(b.iter()).all(|(x, y)| x.key == y.key && same_value(&x.value, &y.value))
}

fn tricky_fields() -> Vec<Field> {
    vec![
        Field { key: "plain".to_string(), value: FieldValue::Str("text".to_string()) },
        Field {
            key: "odd \"key\"".to_string(),
            value: FieldValue::Str("a,b}c\\d\ne\rf\u{1b}g\"".to_string()),
        },
        Field { key: "min".to_string(), value: FieldValue::Int(i64::MIN) },
        Field { key: "max".to_string(), value: FieldValue::Int(i64::MAX) },
        Field { key: "zero".to_string(), value: FieldValue::Int(0) },
        Field { key: "yes".to_string(), value: FieldValue::Bool(true) },
        Field { key: "no".to_string(), value: FieldValue::Bool(false) },
        Field { key: "".to_string(), value: FieldValue::Str("".to_string()) },
        Field { key: "true".to_string(), value: FieldValue::Str("true".to_string()) },
    ]
}

#[test]
fn structured_record_round_trips() {
    let all = [Severity::Trace, Severity::Debug, Severity::Info, Severity::Warn, Severity::Error];
    for severity in all {
        for show_everything in [false, true] {
            let mut c = Config::new();
            c.layout = Layout::Structured;
            c.show_file_location = show_everything;
            c.show_line_number = show_everything;
            c.show_thread_id = show_everything;
            c.show_thread_name = show_everything;
            c.show_target = show_everything;
            let message = "line one\nline \"two\" \\ {\"level\":\"ERROR\"}";
            let e = Event::capture(
                severity,
                message,
                tricky_fields(),
                vec!["outer".to_string(), "in\"ner".to_string()],
                &context(),
                c.show_file_location,
                c.show_line_number,
            );
            let text = render(&e, &c);
            assert!(!text.contains('\n'));
            let record = parse_record(&text).unwrap();
            assert_eq!(record.severity, Some(severity));
            assert_eq!(record.message, message);
            assert!(same_fields(&record.fields, &tricky_fields()));
        }
    }
}

#[test]
fn round_trip_without_level_or_fields() {
    let mut c = Config::new();
    c.layout = Layout::Structured;
    c.show_level = false;
    let e = Event::capture(Severity::Warn, "", Vec::new(), Vec::new(), &context(), false, false);
    let text = render(&e, &c);
    assert_eq!(
        text,
        "{\"message\":\"\",\"fields\":{},\"timestamp\":99,\"spans\":[],\"target\":\"svc::db\"}"
    );
    let record = parse_record(&text).unwrap();
    assert_eq!(record.severity, None);
    assert_eq!(record.message, "");
    assert!(record.fields.is_empty());
}

#[test]
fn parse_of_a_given_line() {
    let line = "{\"level\":\"DEBUG\",\"message\":\"hi\",\"fields\":{\"a\":007,\"b\":-0,\"c\":\"x\\ey\"},\"ignored";
    let record = parse_record(line).unwrap();
    assert_eq!(record.severity, Some(Severity::Debug));
    assert_eq!(record.message, "hi");
    let expected = vec![
        Field { key: "a".to_string(), value: FieldValue::Int(7) },
        Field { key: "b".to_string(), value: FieldValue::Int(0) },
        Field { key: "c".to_string(), value: FieldValue::Str("x\u{1b}y".to_string()) },
    ];
    assert!(same_fields(&record.fields, &expected));
}

#[test]
fn malformed_lines_are_refused() {
    let bad = [
        "",
        "{",
        "level",
        "{\"level\":\"INFO\"}",
        "{\"level\":\"LOUD\",\"message\":\"m\",\"fields\":{}}",
        "{\"level\":\"INFO\" \"message\":\"m\",\"fields\":{}}",
        "{\"level\":\"INFO\",\"message\":\"m\"}",
        "{\"level\":\"INFO\",\"message\":\"m,\"fields\":{}}",
        "{\"level\":\"INFO\",\"message\":\"m\",\"fields\":{",
        "{\"level\":\"INFO\",\"message\":\"m\",\"fields\":{\"k\"}}",
        "{\"level\":\"INFO\",\"message\":\"m\",\"fields\":{\"k\":}}",
        "{\"level\":\"INFO\",\"message\":\"m\",\"fields\":{\"k\":1,}}",
        "{\"level\":\"INFO\",\"message\":\"m\",\"fields\":{\"k\":1 }}",
        "{\"level\":\"INFO\",\"message\":\"m\",\"fields\":{\"k\":tru}}",
        "{\"level\":\"INFO\",\"message\":\"m\",\"fields\":{\"k\":-}}",
        "{\"level\":\"INFO\",\"message\":\"m\",\"fields\":{\"k\":9223372036854775808}}",
        "{\"level\":\"INFO\",\"message\":\"m\",\"fields\":{\"k\":-9223372036854775809}}",
        "{\"level\":\"INFO\",\"message\":\"m\",\"fields\":{\"k\":\"bad \\x escape\"}}",
        "{\"message\":\"m\\",
    ];
    for line in bad {
        assert!(parse_record(line).is_none(), "accepted: {}", line);
    }
}

#[test]
fn integers_at_the_limits() {
    assert_eq!(scan_int(&chars("9223372036854775807,"), 0), Some((i64::MAX, 19)));
    assert_eq!(scan_int(&chars("-9223372036854775808"), 0), Some((i64::MIN, 20)));
    assert_eq!(scan_int(&chars("9223372036854775808"), 0), None);
    assert_eq!(scan_int(&chars("-9223372036854775809"), 0), None);
    assert_eq!(scan_int(&chars("99999999999999999999999999999999999999999999"), 0), None);
    assert_eq!(scan_int(&chars("0000000000000000000000000000000000000000012x"), 0), Some((12, 43)));
    assert_eq!(scan_int(&chars("x-42y"), 1), Some((-42, 4)));
    assert_eq!(scan_int(&chars("-"), 0), None);
    assert_eq!(scan_int(&chars(""), 0), None);
    assert_eq!(scan_int(&chars("+1"), 0), None);
}

#[test]
fn quoted_texts() {
    assert_eq!(scan_quoted(&chars("\"ab\"c"), 0), Some((chars("ab"), 4)));
    assert_eq!(scan_quoted(&chars("x\"\\\"\\\\\\n\\r\\e\""), 1), Some((chars("\"\\\n\r\u{1b}"), 13)));
    assert_eq!(scan_quoted(&chars("ab\""), 0), None);
    assert_eq!(scan_quoted(&chars("\"ab"), 0), None);
    assert_eq!(scan_quoted(&chars("\"a\\"), 0), None);
    assert_eq!(scan_quoted(&chars("\"a\\t\""), 0), None);
    assert_eq!(scan_escaped(&chars("ab\"cd\""), 0), Some((chars("ab"), 3)));
    assert_eq!(scan_escaped(&chars(""), 0), None);
}

#[test]
fn values_by_their_first_characters() {
    let s = chars("true,false,\"true\",-12}");
    match scan_value(&s, 0) {
        Some((FieldValue::Bool(true), 4)) => {}
        _ => panic!("true"),
    }
    match scan_value(&s, 5) {
        Some((FieldValue::Bool(false), 10)) => {}
        _ => panic!("false"),
    }
    match scan_value(&s, 11) {
        Some((FieldValue::Str(t), 17)) => assert_eq!(t, "true"),
        _ => panic!("text"),
    }
    match scan_value(&s, 18) {
        Some((FieldValue::Int(-12), 21)) => {}
        _ => panic!("integer"),
    }
    assert!(scan_value(&s, 21).is_none());
    assert!(scan_value(&s, 22).is_none());
    assert!(scan_value(&chars("tru"), 0).is_none());
}

#[test]
fn prefixes() {
    let s = chars("abcdef");
    assert!(has_prefix(&s, 0, &chars("abc")));
    assert!(has_prefix(&s, 2, &chars("cdef")));
    assert!(has_prefix(&s, 6, &chars("")));
    assert!(!has_prefix(&s, 3, &chars("defg")));
    assert!(!has_prefix(&s, 1, &chars("abc")));
}
