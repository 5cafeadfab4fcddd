use git2::{ObjectType, Oid, Repository};
use git_viewer::git_handle::{load_history, GitStruct, RepoError};
use git_viewer::history::HistoryHandle;
use git_viewer::object_id::ObjectId;
use git_viewer::snapshot::BINARY_MARKER;

fn fresh_dir(tag: &str) -> String {
    let nanos = chrono::Utc::now().timestamp_nanos_opt().unwrap_or(0);
    format!("/tmp/git-viewer-fixtures/{}-{}", tag, nanos)
}

fn write_commit(repo: &Repository, tree: Oid, parent: Option<Oid>, author: &str, time: i64, msg: &str) -> Oid {
    let mut text = format!("tree {}\n", tree);
    if let Some(p) = parent {
        text.push_str(&format!("parent {}\n", p));
    }
    text.push_str(&format!("author {} {} +0000\n", author, time));
    text.push_str(&format!("committer {} {} +0000\n\n{}\n", author, time, msg));
    repo.odb().unwrap().write(ObjectType::Commit, text.as_bytes()).unwrap()
}

/// a.txt and dir/b.txt, and the two blob ids.
fn fixture_tree(repo: &Repository) -> (Oid, Oid, Oid) {
    let a = repo.blob(b"alpha\n").unwrap();
    let b = repo.blob(&[0u8, 1, 2, 3, 0, 255]).unwrap();
    let mut sub = repo.treebuilder(None).unwrap();
    sub.insert("b.txt", b, 0o100644).unwrap();
    let sub_id = sub.write().unwrap();
    let mut root = repo.treebuilder(None).unwrap();
    root.insert("a.txt", a, 0o100644).unwrap();
    root.insert("dir", sub_id, 0o040000).unwrap();
    (root.write().unwrap(), a, b)
}

/// A linear history c1 -> c2 -> c3; c3 has no author email.
fn fixture(tag: &str) -> (String, Vec<Oid>, Oid, Oid) {
    let path = fresh_dir(tag);
    let repo = Repository::init(&path).unwrap();
    let (tree, a, b) = fixture_tree(&repo);
    let c1 = write_commit(&repo, tree, None, "Ann <ann@example.com>", 1000, "first");
    let c2 = write_commit(&repo, tree, Some(c1), "Bob <bob@example.com>", 2000, "second");
    let c3 = write_commit(&repo, tree, Some(c2), "Cy <>", 3000, "third");
    repo.reference("refs/heads/main", c3, true, "fixture").unwrap();
    repo.set_head("refs/heads/main").unwrap();
    (path, vec![c1, c2, c3], a, b)
}

fn oid_id(o: Oid) -> ObjectId {
    ObjectId::from_hex(o.to_string())
}

#[test]
fn load_keeps_oldest_first_order() {
    let (path, commits, _, _) = fixture("order");
    let history = HistoryHandle::new();
    assert_eq!(load_history(&path, &history), Ok(3));
    assert_eq!(history.len(), 3);
    for (k, c) in commits.iter().enumerate() {
        assert_eq!(history.get(k), Some(oid_id(*c)));
    }
}

#[test]
fn git_struct_walk_and_navigation() {
    let (path, commits, _, _) = fixture("nav");
    let mut g = GitStruct::new(&path).unwrap();
    assert_eq!(g.get_commit(), None);
    let walk = g.get_rev_walk().unwrap();
    assert_eq!(walk.len(), 3);
    assert_eq!(g.populate_from_walk(&walk), 3);
    assert_eq!(g.populate_from_walk(&walk), 0);
    assert_eq!(g.get_len(), 3);
    g.decrement_idx();
    assert_eq!(g.get_idx(), 0);
    g.increment_idx();
    g.increment_idx();
    g.increment_idx();
    assert_eq!(g.get_idx(), 2);
    assert_eq!(g.get_commit(), Some(oid_id(commits[2])));
    g.jump_to(100);
    assert_eq!(g.get_idx(), 2);
    g.jump_to(0);
    assert_eq!(g.get_commit(), Some(oid_id(commits[0])));
}

#[test]
fn file_tree_lists_each_file_once() {
    let (path, commits, a, b) = fixture("tree");
    let g = GitStruct::new(&path).unwrap();
    for _ in 0..2 {
        let files = g.get_file_tree(&oid_id(commits[0])).unwrap();
        let mut paths: Vec<String> = files.iter().map(|f| f.path.clone()).collect();
        paths.sort();
        assert_eq!(paths, vec!["a.txt".to_string(), "dir/b.txt".to_string()]);
        for f in &files {
            let want = if f.path == "a.txt" { a } else { b };
            assert_eq!(f.content_id, oid_id(want));
        }
    }
}

#[test]
fn content_is_text_or_marker() {
    let (path, _, a, b) = fixture("content");
    let g = GitStruct::new(&path).unwrap();
    assert_eq!(g.get_file_content(&oid_id(a)), Ok("alpha\n".to_string()));
    assert_eq!(g.get_file_content(&oid_id(b)), Ok(BINARY_MARKER.to_string()));
    let missing = ObjectId::from_hex("0123456789012345678901234567890123456789".to_string());
    assert_eq!(g.get_file_content(&missing), Err(RepoError::ContentUnavailable));
}

#[test]
fn missing_email_is_absent() {
    let (path, commits, _, _) = fixture("email");
    let g = GitStruct::new(&path).unwrap();
    let m = g.metadata(&oid_id(commits[2])).unwrap();
    assert_eq!(m.author_email, None);
    assert_eq!(m.author_name, Some("Cy".to_string()));
    assert_eq!(m.timestamp, 3000);
    assert_eq!(m.summary, Some("third".to_string()));
    assert_eq!(g.get_author(&oid_id(commits[0])).unwrap(), (Some("Ann".to_string()), Some("ann@example.com".to_string())));
    assert_eq!(g.get_date(&oid_id(commits[1])), Ok(2000));
}

#[test]
fn unknown_commit_is_reported() {
    let (path, _, _, _) = fixture("unknown");
    let g = GitStruct::new(&path).unwrap();
    let bogus = ObjectId::from_hex("not an id".to_string());
    assert!(matches!(g.metadata(&bogus), Err(RepoError::UnknownCommit)));
    assert!(matches!(g.get_file_tree(&bogus), Err(RepoError::UnknownCommit)));
}

#[test]
fn bad_path_is_not_a_repository() {
    let path = fresh_dir("missing");
    assert!(matches!(GitStruct::new(&path), Err(RepoError::NotARepository)));
    let history = HistoryHandle::new();
    assert_eq!(load_history(&path, &history), Err(RepoError::NotARepository));
    assert_eq!(history.len(), 0);
}

#[test]
fn empty_repository_has_no_head() {
    let path = fresh_dir("empty");
    Repository::init(&path).unwrap();
    let history = HistoryHandle::new();
    assert_eq!(load_history(&path, &history), Err(RepoError::NoHead));
    assert_eq!(history.len(), 0);
}

#[test]
fn navigation_picks_up_loader_growth() {
    let (path, commits, _, _) = fixture("growth");
    let mut g = GitStruct::new(&path).unwrap();
    let loader = g.vec.share();
    assert_eq!(g.get_len(), 0);
    g.increment_idx();
    assert_eq!(g.get_idx(), 0);
    loader.append(oid_id(commits[0]));
    assert_eq!(g.get_len(), 1);
    g.increment_idx();
    assert_eq!(g.get_idx(), 0);
    loader.append(oid_id(commits[1]));
    g.increment_idx();
    assert_eq!(g.get_idx(), 1);
    assert_eq!(g.get_commit(), Some(oid_id(commits[1])));
    g.decrement_idx();
    assert_eq!(g.get_commit(), Some(oid_id(commits[0])));
}
