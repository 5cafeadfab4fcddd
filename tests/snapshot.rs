use git_viewer::git_handle::{absent_if_empty, walk_ids};
use git_viewer::object_id::ObjectId;
use git_viewer::snapshot::{files_from_visits, position_of_path, push_visit, record_entry, render_content, unique_by_path, FileEntry, BINARY_MARKER};
use git_viewer::startup::{wait_outcome, wait_step, WaitStep};
use git_viewer::git_handle::RepoError;

fn entry(path: &str, id: &str) -> FileEntry {
    FileEntry { path: path.to_string(), content_id: ObjectId::from_hex(id.to_string()) }
}

#[test]
fn record_entry_joins_root_and_name() {
    let mut out = Vec::new();
    record_entry(&mut out, "dir/", Some("b.txt"), "b1".to_string(), true);
    record_entry(&mut out, "", Some("dir"), "t1".to_string(), false);
    record_entry(&mut out, "", None, "x1".to_string(), true);
    record_entry(&mut out, "", Some("a.txt"), "a1".to_string(), true);
    assert_eq!(out.len(), 2);
    assert_eq!(out[0].path, "dir/b.txt");
    assert_eq!(out[0].content_id.as_hex(), "b1");
    assert_eq!(out[1].path, "a.txt");
}

#[test]
fn unique_by_path_keeps_first() {
    let v = vec![entry("a.txt", "1"), entry("dir/b.txt", "2"), entry("a.txt", "3")];
    let u = unique_by_path(&v);
    assert_eq!(u.len(), 2);
    assert_eq!(u[0].path, "a.txt");
    assert_eq!(u[0].content_id.as_hex(), "1");
    assert_eq!(u[1].path, "dir/b.txt");
}

#[test]
fn binary_content_is_marked() {
    assert_eq!(render_content(true, "\u{0}\u{1}".to_string()), BINARY_MARKER);
    assert_eq!(render_content(false, "hello".to_string()), "hello");
}

#[test]
fn empty_text_is_absent() {
    assert_eq!(absent_if_empty(Some(String::new())), None);
    assert_eq!(absent_if_empty(None), None);
    assert_eq!(absent_if_empty(Some("x".to_string())), Some("x".to_string()));
}

#[test]
fn startup_wait_steps() {
    assert_eq!(wait_step(1, 0, 100), WaitStep::Ready);
    assert_eq!(wait_step(0, 50, 100), WaitStep::Wait);
    assert_eq!(wait_step(0, 100, 100), WaitStep::Stalled);
    assert_eq!(wait_outcome(WaitStep::Stalled), Err(RepoError::LoadStalled));
    assert_eq!(wait_outcome(WaitStep::Ready), Ok(()));
}

#[test]
fn position_of_path_finds_first() {
    let v = vec![entry("a.txt", "1"), entry("dir/b.txt", "2")];
    assert_eq!(position_of_path(&v, &"dir/b.txt".to_string()), Some(1));
    assert_eq!(position_of_path(&v, &"c.txt".to_string()), None);
}

#[test]
fn walk_ids_stop_at_first_failure() {
    let items = vec![Some("c1".to_string()), Some("c2".to_string()), None, Some("c3".to_string())];
    let ids = walk_ids(&items);
    assert_eq!(ids, vec![ObjectId::from_hex("c1".to_string()), ObjectId::from_hex("c2".to_string())]);
    assert!(walk_ids(&vec![None, Some("c1".to_string())]).is_empty());
}

#[test]
fn files_from_visits_flattens_and_dedups() {
    let mut visits = Vec::new();
    push_visit(&mut visits, "", Some("a.txt"), "a1".to_string(), true);
    push_visit(&mut visits, "", Some("dir"), "t1".to_string(), false);
    push_visit(&mut visits, "dir/", Some("b.txt"), "b1".to_string(), true);
    push_visit(&mut visits, "", None, "x1".to_string(), true);
    push_visit(&mut visits, "", Some("a.txt"), "a2".to_string(), true);
    assert_eq!(visits.len(), 5);
    assert_eq!(visits[2].root, "dir/");
    let files = files_from_visits(&visits);
    assert_eq!(files.len(), 2);
    assert_eq!(files[0].path, "a.txt");
    assert_eq!(files[0].content_id.as_hex(), "a1");
    assert_eq!(files[1].path, "dir/b.txt");
    assert_eq!(files[1].content_id.as_hex(), "b1");
}
