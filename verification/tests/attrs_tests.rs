use validated_struct::attrs::{AttrEvent, AttrsReader, ATTR_STEP_LIMIT};
use validated_struct::model::AttrRef;

fn a(id: usize) -> AttrEvent {
    AttrEvent::Attribute(AttrRef { id, is_doc: false })
}

fn run(events: &[AttrEvent]) -> AttrsReader {
    let mut r = AttrsReader::new();
    for e in events {
        r.step(*e);
    }
    r
}

fn ids(v: &[AttrRef]) -> Vec<usize> {
    v.iter().map(|x| x.id).collect()
}

#[test]
fn attrs_before_marker_stay_local() {
    let r = run(&[a(0), a(1), AttrEvent::Other]);
    assert_eq!(ids(&r.local), vec![0, 1]);
    assert!(r.recursive.is_empty());
    assert!(!r.wants_more());
}

#[test]
fn attrs_after_marker_are_handed_down() {
    let r = run(&[a(0), AttrEvent::Marker, a(1), a(2), AttrEvent::Marker, a(3), AttrEvent::Other]);
    assert_eq!(ids(&r.local), vec![0]);
    assert_eq!(ids(&r.recursive), vec![1, 2, 3]);
    assert!(r.after_marker);
}

#[test]
fn attrs_reading_stops_at_other() {
    let r = run(&[a(0), AttrEvent::Other, a(1), AttrEvent::Marker, a(2)]);
    assert_eq!(ids(&r.local), vec![0]);
    assert!(r.recursive.is_empty());
    assert!(!r.after_marker);
    assert_eq!(r.steps, 1);
}

#[test]
fn attrs_reader_starts_empty() {
    let r = AttrsReader::new();
    assert!(r.wants_more());
    assert!(r.local.is_empty() && r.recursive.is_empty());
}

#[test]
fn attrs_reading_limited() {
    let mut r = AttrsReader::new();
    let mut n = 0usize;
    while r.wants_more() {
        r.step(a(n));
        n += 1;
    }
    assert_eq!(n, ATTR_STEP_LIMIT);
    assert_eq!(r.local.len(), 10000);
    r.step(a(99));
    assert_eq!(r.local.len(), 10000);
}
