use pv::sources::plan_sources;
use pv::sources::total_hint;
use pv::sources::SourceCursor;
use pv::sources::SourceSpec;
use pv::sources::SourceStep;

#[test]
fn no_names_means_stdin() {
    assert_eq!(plan_sources(&vec![]), vec![SourceSpec::Stdin]);
}

#[test]
fn dash_means_stdin() {
    let names = vec!["-".to_string(), "a.txt".to_string(), "--".to_string()];
    assert_eq!(
        plan_sources(&names),
        vec![
            SourceSpec::Stdin,
            SourceSpec::File("a.txt".to_string()),
            SourceSpec::File("--".to_string()),
        ]
    );
}

#[test]
fn total_prefers_explicit_size() {
    assert_eq!(total_hint(Some(100), &vec![5, 5]), Some(100));
    assert_eq!(total_hint(None, &vec![5, 5]), Some(10));
    assert_eq!(total_hint(None, &vec![]), Some(0));
}

#[test]
fn total_that_does_not_fit_is_unknown() {
    assert_eq!(total_hint(None, &vec![u64::MAX, 1]), None);
    assert_eq!(total_hint(None, &vec![u64::MAX - 1, 1]), Some(u64::MAX));
}

#[test]
fn cursor_walks_sources_in_order() {
    let mut c = SourceCursor::new(2);
    assert!(!c.exhausted());
    assert_eq!(c.after_read(5), SourceStep::Deliver);
    assert_eq!(c.current, 0);
    assert_eq!(c.after_read(0), SourceStep::NextSource);
    assert_eq!(c.current, 1);
    assert_eq!(c.after_read(3), SourceStep::Deliver);
    assert_eq!(c.after_read(0), SourceStep::End);
    assert!(c.exhausted());
}
