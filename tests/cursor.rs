use git_viewer::cursor::Cursor;
use git_viewer::history::History;
use git_viewer::object_id::ObjectId;

fn id(s: &str) -> ObjectId {
    ObjectId::from_hex(s.to_string())
}

#[test]
fn retreat_at_start_is_a_no_op() {
    let mut c = Cursor::new();
    c.retreat(3);
    assert_eq!(c.index(), 0);
}

#[test]
fn advance_clamps_at_last_loaded() {
    let mut c = Cursor::new();
    c.advance(3);
    c.advance(3);
    c.advance(3);
    assert_eq!(c.index(), 2);
}

#[test]
fn advance_picks_up_growth() {
    let mut c = Cursor::new();
    c.advance(1);
    assert_eq!(c.index(), 0);
    c.advance(2);
    assert_eq!(c.index(), 1);
}

#[test]
fn jump_clamps_to_last() {
    let mut c = Cursor::new();
    c.jump_to(100, 3);
    assert_eq!(c.index(), 2);
}

#[test]
fn jump_back_and_within() {
    let mut c = Cursor::new();
    c.jump_to(4, 10);
    assert_eq!(c.index(), 4);
    c.jump_to(1, 10);
    assert_eq!(c.index(), 1);
    c.jump_to(1, 10);
    assert_eq!(c.index(), 1);
}

#[test]
fn empty_history_leaves_cursor_at_start() {
    let mut c = Cursor::new();
    c.advance(0);
    c.retreat(0);
    c.jump_to(5, 0);
    assert_eq!(c.index(), 0);
    assert_eq!(c.current(&History::new()), None);
}

#[test]
fn current_follows_the_cursor() {
    let mut h = History::new();
    h.append(id("c1"));
    h.append(id("c2"));
    let mut c = Cursor::new();
    assert_eq!(c.current(&h), Some(id("c1")));
    c.advance(h.len());
    assert_eq!(c.current(&h), Some(id("c2")));
}
