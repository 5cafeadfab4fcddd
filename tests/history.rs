use git_viewer::history::{History, HistoryHandle};
use git_viewer::object_id::ObjectId;

fn id(s: &str) -> ObjectId {
    ObjectId::from_hex(s.to_string())
}

#[test]
fn appended_entries_never_move() {
    let mut h = History::new();
    h.append(id("c1"));
    h.append(id("c2"));
    let seen = h.get(1);
    for name in ["c3", "c4", "c2", "c5"] {
        h.append(id(name));
        assert_eq!(h.get(1), seen);
        assert_eq!(h.get(0), Some(id("c1")));
    }
    assert_eq!(h.len(), 5);
}

#[test]
fn append_refuses_duplicates() {
    let mut h = History::new();
    assert!(h.append(id("c1")));
    assert!(!h.append(id("c1")));
    assert_eq!(h.len(), 1);
    assert!(h.contains(&id("c1")));
    assert!(!h.contains(&id("c2")));
}

#[test]
fn extend_keeps_walk_order() {
    let mut h = History::new();
    let ids = vec![id("c1"), id("c2"), id("c3")];
    h.extend(&ids);
    assert_eq!(h.len(), 3);
    assert_eq!(h.get(0), Some(id("c1")));
    assert_eq!(h.get(1), Some(id("c2")));
    assert_eq!(h.get(2), Some(id("c3")));
    assert_eq!(h.get(3), None);
}

#[test]
fn shared_handle_sees_appends() {
    let writer = HistoryHandle::new();
    let reader = writer.share();
    assert_eq!(reader.len(), 0);
    assert_eq!(reader.get(0), None);
    assert!(writer.append(id("c1")));
    assert!(!writer.append(id("c1")));
    assert_eq!(reader.len(), 1);
    assert_eq!(reader.get(0), Some(id("c1")));
    assert_eq!(reader.snapshot().len(), 1);
}

#[test]
fn tail_reads_from_a_position() {
    let h = HistoryHandle::new();
    h.append(id("c1"));
    h.append(id("c2"));
    h.append(id("c3"));
    let t = h.tail(1);
    assert_eq!(t, vec![id("c2"), id("c3")]);
    assert!(h.tail(3).is_empty());
    assert!(h.tail(9).is_empty());
}
