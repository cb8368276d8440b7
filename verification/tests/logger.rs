use spanlog::config::{Config, Layout};
use spanlog::event::{Context, Field, FieldValue};
use spanlog::logger::{InitError, Logger, Registry};
use spanlog::severity::Severity;
use spanlog::sink::{Sink, SinkError, SinkState};

fn context() -> Context {
    Context {
        timestamp: 5,
        thread_id: 1,
        thread_name: "main".to_string(),
        target: "demo".to_string(),
        file: "src/main.rs".to_string(),
        line: 7,
    }
}

fn plain(minimum: Severity) -> Config {
    let mut c = Config::new();
    c.use_color = false;
    c.minimum_level = Some(minimum);
    c
}

fn written(l: &Logger) -> Vec<String> {
    let s = l.sink();
    (0..s.len()).map(|i| s.record(i).clone()).collect()
}

#[test]
fn output_exactly_when_severity_reaches_minimum() {
    let all = [Severity::Trace, Severity::Debug, Severity::Info, Severity::Warn, Severity::Error];
    for (j, m) in all.iter().enumerate() {
        for (i, s) in all.iter().enumerate() {
            let mut l = Logger::new(plain(*m), Sink::new());
            l.emit(*s, "x", Vec::new(), &context());
            assert_eq!(l.sink().len() == 1, i >= j);
            assert_eq!(l.sink().len() == 0, i < j);
        }
    }
}

#[test]
fn warn_minimum_drops_info_and_debug_and_keeps_error() {
    let mut l = Logger::new(plain(Severity::Warn), Sink::new());
    l.emit(Severity::Info, "level is info", Vec::new(), &context());
    l.emit(Severity::Debug, "level is debug", Vec::new(), &context());
    assert_eq!(l.sink().len(), 0);
    assert_eq!(l.sink().state(), SinkState::Unopened);
    l.emit(Severity::Error, "level is error", Vec::new(), &context());
    let out = written(&l);
    assert_eq!(out.len(), 1);
    assert!(out[0].contains("level is error"));
    assert!(out[0].contains("ERROR"));
    assert_eq!(out[0], "5 ERROR demo: level is error");
    assert_eq!(l.sink().state(), SinkState::Open);
}

#[test]
fn nested_spans_render_outer_first() {
    let mut l = Logger::new(plain(Severity::Info), Sink::new());
    let outer = l.enter("outer");
    let inner = l.enter("inner");
    l.emit(Severity::Info, "inside", Vec::new(), &context());
    l.exit(inner);
    l.exit(outer);
    let out = written(&l);
    assert_eq!(out, vec!["5 INFO outer:inner: demo: inside".to_string()]);
    let at_outer = out[0].find("outer").unwrap();
    let at_inner = out[0].find("inner").unwrap();
    assert!(at_outer < at_inner);
}

#[test]
fn chain_of_each_event_is_the_chain_at_its_time() {
    let mut c = plain(Severity::Info);
    c.layout = Layout::Structured;
    c.show_target = false;
    let mut l = Logger::new(c, Sink::new());
    let a = l.enter("A");
    let b = l.enter("B");
    l.emit(Severity::Info, "one", Vec::new(), &context());
    assert!(l.is_innermost(&b));
    l.exit(b);
    l.emit(Severity::Info, "two", Vec::new(), &context());
    l.exit(a);
    l.emit(Severity::Info, "three", Vec::new(), &context());
    assert!(l.current_chain().is_empty());
    let out = written(&l);
    assert_eq!(out.len(), 3);
    assert!(out[0].ends_with(",\"spans\":[\"A\",\"B\"]}"));
    assert!(out[1].ends_with(",\"spans\":[\"A\"]}"));
    assert!(out[2].ends_with(",\"spans\":[]}"));
}

#[test]
fn location_is_captured_only_where_shown() {
    let mut c = plain(Severity::Info);
    c.show_file_location = true;
    let mut l = Logger::new(c, Sink::new());
    let fields = vec![Field { key: "k".to_string(), value: FieldValue::Bool(false) }];
    l.emit(Severity::Warn, "m", fields, &context());
    assert_eq!(written(&l), vec!["5 WARN demo: src/main.rs: m k=false".to_string()]);
}

#[test]
fn existing_content_is_kept_in_front() {
    let existing = vec!["old one".to_string(), "old two".to_string()];
    let mut l = Logger::new(plain(Severity::Info), Sink::with_existing(existing));
    for i in 0..4 {
        let fields = vec![Field { key: "i".to_string(), value: FieldValue::Int(i) }];
        l.emit(Severity::Info, "new", fields, &context());
    }
    let out = written(&l);
    assert_eq!(
        out,
        vec![
            "old one".to_string(),
            "old two".to_string(),
            "5 INFO demo: new i=0".to_string(),
            "5 INFO demo: new i=1".to_string(),
            "5 INFO demo: new i=2".to_string(),
            "5 INFO demo: new i=3".to_string(),
        ]
    );
}

#[test]
fn sink_life_cycle() {
    let mut s = Sink::new();
    assert_eq!(s.state(), SinkState::Unopened);
    assert_eq!(s.write("a".to_string()), Ok(()));
    assert_eq!(s.state(), SinkState::Open);
    assert_eq!(s.write_all(vec!["b".to_string(), "c".to_string()]), 2);
    assert_eq!(s.len(), 3);
    assert_eq!(s.record(0), "a");
    assert_eq!(s.record(1), "b");
    assert_eq!(s.record(2), "c");
    s.close();
    assert_eq!(s.state(), SinkState::Closed);
    assert_eq!(s.write("d".to_string()), Err(SinkError::SinkClosed));
    assert_eq!(s.write_all(vec!["e".to_string()]), 0);
    assert_eq!(s.len(), 3);
    assert_eq!(s.state(), SinkState::Closed);
}

#[test]
fn empty_batch_does_not_open_the_sink() {
    let mut s = Sink::new();
    assert_eq!(s.write_all(Vec::new()), 0);
    assert_eq!(s.state(), SinkState::Unopened);
}

#[test]
fn closed_sink_swallows_events() {
    let mut l = Logger::new(plain(Severity::Trace), Sink::new());
    l.emit(Severity::Info, "before", Vec::new(), &context());
    l.shutdown();
    l.emit(Severity::Error, "after", Vec::new(), &context());
    assert_eq!(written(&l), vec!["5 INFO demo: before".to_string()]);
    assert_eq!(l.sink().state(), SinkState::Closed);
}

#[test]
fn second_set_up_is_refused_and_harmless() {
    let mut r = Registry::new();
    assert!(r.active().is_none());
    r.emit(Severity::Error, "nobody listens", Vec::new(), &context());
    assert_eq!(
        r.init(plain(Severity::Info), Sink::new(), false),
        Err(InitError::SinkOpenFailure)
    );
    assert!(r.active().is_none());
    assert_eq!(r.init(plain(Severity::Info), Sink::new(), true), Ok(()));
    r.emit(Severity::Info, "first", Vec::new(), &context());
    assert_eq!(
        r.init(plain(Severity::Error), Sink::new(), true),
        Err(InitError::ConfigurationAlreadySet)
    );
    assert_eq!(
        r.init(plain(Severity::Error), Sink::new(), false),
        Err(InitError::ConfigurationAlreadySet)
    );
    r.emit(Severity::Info, "second", Vec::new(), &context());
    let l = r.active().unwrap();
    assert_eq!(
        written(l),
        vec!["5 INFO demo: first".to_string(), "5 INFO demo: second".to_string()]
    );
}

#[test]
fn defaults() {
    let c = Config::new();
    assert_eq!(c.minimum_level, Some(Severity::Info));
    assert_eq!(c.minimum(), Severity::Info);
    assert!(c.show_level && c.use_color && c.show_target);
    assert!(!c.show_file_location && !c.show_line_number);
    assert!(!c.show_thread_id && !c.show_thread_name);
    assert_eq!(c.layout, Layout::Compact);
    let mut d = Config::new();
    d.minimum_level = None;
    assert_eq!(d.minimum(), Severity::Info);
}

#[test]
fn failed_write_drops_the_record_and_nothing_else() {
    let mut s = Sink::new();
    assert_eq!(s.settle("lost".to_string(), false), Err(SinkError::SinkWriteFailure));
    assert_eq!(s.state(), SinkState::Open);
    assert_eq!(s.len(), 0);
    assert_eq!(s.settle("kept".to_string(), true), Ok(()));
    assert_eq!(s.len(), 1);
    assert_eq!(s.record(0), "kept");
    s.close();
    assert_eq!(s.settle("late".to_string(), true), Err(SinkError::SinkClosed));
    assert_eq!(s.settle("late".to_string(), false), Err(SinkError::SinkClosed));
    assert_eq!(s.len(), 1);
}

#[test]
fn compose_then_settle_is_emit_in_two_steps() {
    let mut l = Logger::new(plain(Severity::Warn), Sink::new());
    assert!(l.compose(Severity::Info, "quiet", Vec::new(), &context()).is_none());
    let text = l.compose(Severity::Warn, "loud", Vec::new(), &context()).unwrap();
    assert_eq!(text, "5 WARN demo: loud");
    assert_eq!(l.sink().len(), 0);
    l.settle(text.clone(), false);
    assert_eq!(l.sink().len(), 0);
    l.settle(text, true);
    assert_eq!(written(&l), vec!["5 WARN demo: loud".to_string()]);
    l.shutdown();
    assert!(l.compose(Severity::Error, "late", Vec::new(), &context()).is_none());
    l.settle("late".to_string(), true);
    assert_eq!(l.sink().len(), 1);
}
