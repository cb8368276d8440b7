use spanlog::span::SpanTracker;

fn names(t: &SpanTracker) -> Vec<String> {
    t.current_chain()
}

#[test]
fn chain_follows_enter_and_exit() {
    let mut t = SpanTracker::new();
    assert!(names(&t).is_empty());
    let a = t.enter("A");
    let b = t.enter("B");
    assert_eq!(names(&t), vec!["A".to_string(), "B".to_string()]);
    assert_eq!(t.depth(), 2);
    t.exit(b);
    assert_eq!(names(&t), vec!["A".to_string()]);
    t.exit(a);
    assert!(names(&t).is_empty());
    assert_eq!(t.depth(), 0);
}

#[test]
fn only_the_innermost_handle_is_accepted() {
    let mut t = SpanTracker::new();
    let a = t.enter("outer");
    let b = t.enter("inner");
    assert!(!t.is_innermost(&a));
    assert!(t.is_innermost(&b));
    t.exit(b);
    assert!(t.is_innermost(&a));
    t.exit(a);
}

#[test]
fn snapshot_is_not_a_live_reference() {
    let mut t = SpanTracker::new();
    let a = t.enter("A");
    let snapshot = t.current_chain();
    t.exit(a);
    let _ = t.enter("C");
    assert_eq!(snapshot, vec!["A".to_string()]);
}
