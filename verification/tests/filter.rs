use spanlog::severity::{should_emit, Severity};

const ALL: [Severity; 5] =
    [Severity::Trace, Severity::Debug, Severity::Info, Severity::Warn, Severity::Error];

#[test]
fn filter_follows_the_total_order() {
    for (i, s) in ALL.iter().enumerate() {
        for (j, m) in ALL.iter().enumerate() {
            assert_eq!(should_emit(*s, Some(*m)), i >= j);
        }
    }
}

#[test]
fn absent_minimum_means_info() {
    assert!(!should_emit(Severity::Trace, None));
    assert!(!should_emit(Severity::Debug, None));
    assert!(should_emit(Severity::Info, None));
    assert!(should_emit(Severity::Warn, None));
    assert!(should_emit(Severity::Error, None));
}

#[test]
fn ordinals_are_ascending() {
    assert_eq!(Severity::Trace.ordinal(), 0);
    assert_eq!(Severity::Debug.ordinal(), 1);
    assert_eq!(Severity::Info.ordinal(), 2);
    assert_eq!(Severity::Warn.ordinal(), 3);
    assert_eq!(Severity::Error.ordinal(), 4);
}

#[test]
fn labels_parse_back() {
    for s in ALL.iter() {
        let mut name: Vec<char> = Vec::new();
        s.push_label(&mut name);
        assert_eq!(Severity::parse_label(&name), Some(*s));
    }
    let info: Vec<char> = "INFO".chars().collect();
    assert_eq!(Severity::parse_label(&info), Some(Severity::Info));
    let lower: Vec<char> = "info".chars().collect();
    assert_eq!(Severity::parse_label(&lower), None);
    assert_eq!(Severity::parse_label(&Vec::new()), None);
}
