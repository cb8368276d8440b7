use spanlog::config::{Config, Destination, Layout};
use spanlog::event::{Context, Event, Field, FieldValue};
use spanlog::format::render;
use spanlog::severity::Severity;
use spanlog::text::{chars_of, push_decimal, push_escaped, push_signed_decimal, string_of};

fn context() -> Context {
    Context {
        timestamp: 17,
        thread_id: 3,
        thread_name: "main".to_string(),
        target: "app".to_string(),
        file: "src/main.rs".to_string(),
        line: 42,
    }
}

fn fields() -> Vec<Field> {
    vec![
        Field { key: "user".to_string(), value: FieldValue::Str("ann".to_string()) },
        Field { key: "n".to_string(), value: FieldValue::Int(-5) },
        Field { key: "ok".to_string(), value: FieldValue::Bool(true) },
    ]
}

fn event(c: &Config, spans: Vec<String>) -> Event {
    Event::capture(
        Severity::Info,
        "hello",
        fields(),
        spans,
        &context(),
        c.show_file_location,
        c.show_line_number,
    )
}

fn plain() -> Config {
    let mut c = Config::new();
    c.use_color = false;
    c
}

#[test]
fn compact_with_defaults() {
    let c = plain();
    let text = render(&event(&c, Vec::new()), &c);
    assert_eq!(text, "17 INFO app: hello user=\"ann\" n=-5 ok=true");
}

#[test]
fn compact_with_everything_shown() {
    let mut c = plain();
    c.show_file_location = true;
    c.show_line_number = true;
    c.show_thread_id = true;
    c.show_thread_name = true;
    let spans = vec!["outer".to_string(), "inner".to_string()];
    let text = render(&event(&c, spans), &c);
    assert_eq!(
        text,
        "17 INFO main ThreadId(3) outer:inner: app: src/main.rs:42: hello user=\"ann\" n=-5 ok=true"
    );
}

#[test]
fn each_toggle_removes_its_detail() {
    let mut c = plain();
    c.show_level = false;
    c.show_target = false;
    let text = render(&event(&c, Vec::new()), &c);
    assert_eq!(text, "17 hello user=\"ann\" n=-5 ok=true");
    c.show_line_number = true;
    let text = render(&event(&c, Vec::new()), &c);
    assert_eq!(text, "17 42: hello user=\"ann\" n=-5 ok=true");
}

#[test]
fn pretty_is_multi_line() {
    let mut c = plain();
    c.layout = Layout::Pretty;
    c.show_file_location = true;
    c.show_line_number = true;
    c.show_thread_id = true;
    c.show_thread_name = true;
    let spans = vec!["outer".to_string(), "inner".to_string()];
    let text = render(&event(&c, spans), &c);
    assert_eq!(
        text,
        "17 INFO app: hello user=\"ann\" n=-5 ok=true\n    at src/main.rs:42:\n    on main ThreadId(3) \n    in outer\n    in inner"
    );
}

#[test]
fn structured_is_one_object() {
    let mut c = plain();
    c.layout = Layout::Structured;
    c.show_line_number = true;
    c.show_thread_id = true;
    let spans = vec!["outer".to_string(), "inner".to_string()];
    let text = render(&event(&c, spans), &c);
    assert_eq!(
        text,
        "{\"level\":\"INFO\",\"message\":\"hello\",\"fields\":{\"user\":\"ann\",\"n\":-5,\"ok\":true},\"timestamp\":17,\"spans\":[\"outer\",\"inner\"],\"target\":\"app\",\"line\":42,\"thread_id\":3}"
    );
}

#[test]
fn structured_without_fields_or_spans() {
    let mut c = plain();
    c.layout = Layout::Structured;
    c.show_target = false;
    let e = Event::capture(Severity::Warn, "a \"b\"\n", Vec::new(), Vec::new(), &context(), false, false);
    let text = render(&e, &c);
    assert_eq!(
        text,
        "{\"level\":\"WARN\",\"message\":\"a \\\"b\\\"\\n\",\"fields\":{},\"timestamp\":17,\"spans\":[]}"
    );
}

#[test]
fn colour_on_the_console_only() {
    let mut c = Config::new();
    assert!(c.colored());
    let text = render(&event(&c, Vec::new()), &c);
    assert_eq!(text, "17 \u{1b}[32mINFO\u{1b}[0m app: hello user=\"ann\" n=-5 ok=true");
    c.destination = Destination::File("sample.log".to_string());
    assert!(!c.colored());
    let text = render(&event(&c, Vec::new()), &c);
    assert_eq!(text, "17 INFO app: hello user=\"ann\" n=-5 ok=true");
}

#[test]
fn file_output_holds_no_escape_character() {
    for layout in [Layout::Compact, Layout::Pretty, Layout::Structured] {
        for use_color in [false, true] {
            let mut c = Config::new();
            c.use_color = use_color;
            c.layout = layout;
            c.show_thread_name = true;
            c.destination = Destination::File("sample.log".to_string());
            let mut ctx = context();
            ctx.thread_name = "t\u{1b}[31m".to_string();
            let e = Event::capture(
                Severity::Error,
                "red \u{1b}[31malert",
                fields(),
                vec!["s\u{1b}".to_string()],
                &ctx,
                false,
                false,
            );
            let text = render(&e, &c);
            assert!(!text.contains('\u{1b}'));
            assert!(text.contains("red \\e[31malert"));
        }
    }
}

#[test]
fn escaping_of_special_characters() {
    let mut out: Vec<char> = Vec::new();
    let input: Vec<char> = "a\"b\\c\nd\re\u{1b}f".chars().collect();
    push_escaped(&mut out, &input);
    let text: String = out.iter().collect();
    assert_eq!(text, "a\\\"b\\\\c\\nd\\re\\ef");
}

#[test]
fn numerals() {
    let mut out: Vec<char> = Vec::new();
    push_decimal(&mut out, 0);
    out.push(' ');
    push_decimal(&mut out, 907);
    out.push(' ');
    push_decimal(&mut out, u64::MAX);
    out.push(' ');
    push_signed_decimal(&mut out, i64::MIN);
    out.push(' ');
    push_signed_decimal(&mut out, i64::MAX);
    out.push(' ');
    push_signed_decimal(&mut out, -1);
    let text: String = out.iter().collect();
    assert_eq!(
        text,
        "0 907 18446744073709551615 -9223372036854775808 9223372036854775807 -1"
    );
}

#[test]
fn strings_and_buffers_convert_both_ways() {
    let v = chars_of("héllo");
    assert_eq!(v, vec!['h', 'é', 'l', 'l', 'o']);
    assert_eq!(string_of(&v), "héllo");
    assert_eq!(string_of(&Vec::new()), "");
}

#[test]
fn one_line_layouts_hold_no_line_break() {
    for layout in [Layout::Compact, Layout::Structured] {
        let mut c = Config::new();
        c.layout = layout;
        c.show_thread_name = true;
        c.show_file_location = true;
        let mut ctx = context();
        ctx.thread_name = "a\nb".to_string();
        ctx.target = "t\r\n".to_string();
        ctx.file = "f\n.rs".to_string();
        let fields = vec![Field { key: "k\n".to_string(), value: FieldValue::Str("v\r\nw".to_string()) }];
        let e = Event::capture(
            Severity::Info,
            "first\nsecond",
            fields,
            vec!["sp\nan".to_string()],
            &ctx,
            true,
            false,
        );
        let text = render(&e, &c);
        assert!(!text.contains('\n'));
        assert!(!text.contains('\r'));
        assert!(text.contains("first\\nsecond"));
    }
}
