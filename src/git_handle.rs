use vstd::prelude::*;
use git2::{Blob, Commit, Oid, Repository, Revwalk, Tree};
use crate::cursor::{advanced, clamped, retreated, Cursor};
use crate::history::{distinct, extend_unique, extends, id_views, lemma_append_only, History, HistoryHandle};
use crate::object_id::{CommitId, ContentId, ObjectId};
use crate::snapshot::{files_from_visits, push_visit, render_content, unique_paths, FileEntry, TreeVisit};

verus! {

#[verifier::external_type_specification]
#[verifier::external_body]
pub struct ExRepository(git2::Repository);

#[verifier::external_type_specification]
#[verifier::external_body]
pub struct ExError(git2::Error);

#[verifier::external_type_specification]
#[verifier::external_body]
pub struct ExOid(git2::Oid);

#[verifier::external_type_specification]
#[verifier::external_body]
pub struct ExRevwalk<'repo>(git2::Revwalk<'repo>);

#[verifier::external_type_specification]
#[verifier::external_body]
pub struct ExCommit<'repo>(git2::Commit<'repo>);

#[verifier::external_type_specification]
#[verifier::external_body]
pub struct ExTree<'repo>(git2::Tree<'repo>);

#[verifier::external_type_specification]
#[verifier::external_body]
pub struct ExBlob<'repo>(git2::Blob<'repo>);

/// What can go wrong while reading the repository.
#[derive(Debug, Clone, Copy, PartialEq, Eq, Structural)]
pub enum RepoError {
    /// The path does not name a usable repository.
    NotARepository,
    /// The repository has no head commit.
    NoHead,
    /// No commit has the given id.
    UnknownCommit,
    /// No content has the given address.
    ContentUnavailable,
    /// The history stayed empty past the startup grace period.
    LoadStalled,
}

/// Relies on git2::Repository::open: opens the repository at `path`.
#[verifier::external_body]
fn open_repository(path: &str) -> (r: Result<Repository, git2::Error>) {
    Repository::open(path)
}

/// Relies on git2::Oid::from_str: parses a hexadecimal object id.
#[verifier::external_body]
fn parse_oid(hex: &str) -> (r: Result<Oid, git2::Error>) {
    Oid::from_str(hex)
}

/// Relies on git2::Repository::revwalk: a new, empty walk of the graph.
#[verifier::external_body]
fn new_revwalk(repo: &Repository) -> (r: Result<Revwalk<'_>, git2::Error>) {
    repo.revwalk()
}

/// Relies on git2::Revwalk::push_head: starts the walk at the head commit.
#[verifier::external_body]
fn walk_push_head(walk: &mut Revwalk<'_>) -> (r: Result<(), git2::Error>) {
    walk.push_head()
}

/// Relies on git2::Revwalk::set_sorting: orders the walk by commit time,
/// oldest first.
#[verifier::external_body]
fn walk_oldest_first(walk: &mut Revwalk<'_>) -> (r: Result<(), git2::Error>) {
    walk.set_sorting(git2::Sort::TIME | git2::Sort::REVERSE)
}

/// Relies on git2::Revwalk's Iterator::next: every item the walk yields, in
/// its order, as the hexadecimal text of the id (git2::Oid's Display), or
/// `None` for an item that failed.
#[verifier::external_body]
fn walk_items(walk: Revwalk<'_>) -> (r: Vec<Option<String>>) {
    walk.map(|item| item.ok().map(|oid| oid.to_string())).collect()
}

/// Relies on git2::Repository::find_commit: looks a commit up by id.
#[verifier::external_body]
fn find_commit<'a>(repo: &'a Repository, oid: Oid) -> (r: Result<Commit<'a>, git2::Error>) {
    repo.find_commit(oid)
}

/// Relies on git2::Commit::time: the commit time, in seconds since the epoch.
#[verifier::external_body]
fn commit_seconds(commit: &Commit<'_>) -> (r: i64) {
    commit.time().seconds()
}

/// Relies on git2::Signature::name of git2::Commit::author: the author's
/// name, `None` where it is not valid UTF-8.
#[verifier::external_body]
fn author_name(commit: &Commit<'_>) -> (r: Option<String>) {
    commit.author().name().map(|s| s.to_string())
}

/// Relies on git2::Signature::email of git2::Commit::author: the author's
/// email, `None` where it is not valid UTF-8.
#[verifier::external_body]
fn author_email(commit: &Commit<'_>) -> (r: Option<String>) {
    commit.author().email().map(|s| s.to_string())
}

/// Relies on git2::Commit::summary: the first paragraph of the message.
#[verifier::external_body]
fn commit_summary(commit: &Commit<'_>) -> (r: Option<String>) {
    commit.summary().map(|s| s.to_string())
}

/// Relies on git2::Commit::tree: the root tree of a commit.
#[verifier::external_body]
fn commit_tree<'a>(commit: &Commit<'a>) -> (r: Result<Tree<'a>, git2::Error>) {
    commit.tree()
}

/// Relies on git2::Tree::walk: visits the entries below `tree`, directories
/// before their contents, handing each to `push_visit` with its directory
/// path (empty or ending in '/'), its name (git2::TreeEntry::name, `None`
/// where not UTF-8), its id (git2::Oid's Display) and whether it is a file
/// (git2::TreeEntry::kind). git2 ignores libgit2's return code here and
/// stops the walk at a directory path that is not UTF-8, so the list may be
/// shortened and still come back as `Ok`.
#[verifier::external_body]
fn tree_visits(tree: &Tree<'_>) -> (r: Result<Vec<TreeVisit>, git2::Error>) {
    let mut out: Vec<TreeVisit> = Vec::new();
    tree.walk(git2::TreeWalkMode::PreOrder, |root, entry| {
        let is_file = entry.kind() == Some(git2::ObjectType::Blob);
        push_visit(&mut out, root, entry.name(), entry.id().to_string(), is_file);
        git2::TreeWalkResult::Ok
    })?;
    Ok(out)
}

/// Relies on git2::Repository::find_blob: looks file content up by address.
#[verifier::external_body]
fn find_blob<'a>(repo: &'a Repository, oid: Oid) -> (r: Result<Blob<'a>, git2::Error>) {
    repo.find_blob(oid)
}

/// Relies on git2::Blob::is_binary: whether the content is taken for binary.
#[verifier::external_body]
fn blob_is_binary(blob: &Blob<'_>) -> (r: bool) {
    blob.is_binary()
}

/// Relies on git2::Blob::content, read with String::from_utf8_lossy: the
/// content as text, invalid sequences replaced.
#[verifier::external_body]
fn blob_text(blob: &Blob<'_>) -> (r: String) {
    String::from_utf8_lossy(blob.content()).into_owned()
}

/// `Some` of the text where it is present and not empty, else `None`.
pub open spec fn present(s: Option<Seq<char>>) -> Option<Seq<char>> {
    match s {
        Some(t) => if t.len() > 0 { Some(t) } else { None },
        None => None,
    }
}

/// The view of an optional text.
pub open spec fn opt_view(s: Option<String>) -> Option<Seq<char>> {
    match s {
        Some(t) => Some(t@),
        None => None,
    }
}

/// A text field that is either absent or not empty.
pub open spec fn absent_or_nonempty(s: Option<String>) -> bool {
    s matches Some(t) ==> t@.len() > 0
}

/// Marks a missing or empty text field as absent.
pub fn absent_if_empty(s: Option<String>) -> (r: Option<String>)
    ensures
        opt_view(r) == present(opt_view(s)),
{
    match s {
        Some(t) => {
            if t == String::new() {
                None
            } else {
                assert(t@.len() > 0) by {
                    if t@.len() == 0 {
                        assert(t@ =~= Seq::<char>::empty());
                    }
                };
                Some(t)
            }
        },
        None => None,
    }
}

/// What a commit records besides its tree. Absent text fields are `None`.
#[derive(Debug)]
pub struct CommitMetadata {
    pub id: CommitId,
    /// Commit time in seconds since the Unix epoch.
    pub timestamp: i64,
    pub author_name: Option<String>,
    pub author_email: Option<String>,
    pub summary: Option<String>,
}

/// The ids of a walk's items up to its first failed item, in walk order:
/// the walk is taken to end where an item fails.
pub fn walk_ids(items: &Vec<Option<String>>) -> (r: Vec<CommitId>)
    ensures
        r@.len() <= items@.len(),
        forall|i: int| 0 <= i < r@.len() ==> ((#[trigger] items@[i]) matches Some(h) && r@[i]@ == h@),
        r@.len() < items@.len() ==> items@[r@.len() as int] is None,
{
    let mut out: Vec<CommitId> = Vec::new();
    let mut k: usize = 0;
    while k < items.len()
        invariant
            k <= items@.len(),
            out@.len() == k,
            forall|i: int| 0 <= i < k ==> ((#[trigger] items@[i]) matches Some(h) && out@[i]@ == h@),
        decreases items@.len() - k,
    {
        match &items[k] {
            Some(hex) => {
                out.push(ObjectId::from_hex(hex.clone()));
            },
            None => {
                return out;
            },
        }
        k += 1;
    }
    out
}

/// Walks the history of the repository opened at `path` from its head,
/// oldest first, and appends each commit id to `history` as it goes.
/// Returns how many ids were appended. Where the repository cannot be
/// opened or has no head, nothing is appended.
pub fn load_history(path: &str, history: &HistoryHandle) -> (r: Result<usize, RepoError>)
    ensures
        r matches Err(e) ==> e == RepoError::NotARepository || e == RepoError::NoHead,
{
    let repo = match open_repository(path) {
        Ok(repo) => repo,
        Err(_) => { return Err(RepoError::NotARepository); },
    };
    let ids = match walk_from_head(&repo) {
        Ok(ids) => ids,
        Err(e) => { return Err(e); },
    };
    let mut appended: usize = 0;
    let mut k: usize = 0;
    while k < ids.len()
        invariant
            k <= ids@.len(),
            appended <= k,
        decreases ids@.len() - k,
    {
        if history.append(ids[k].copy()) {
            appended += 1;
        }
        k += 1;
    }
    Ok(appended)
}

/// The ids of `repo`'s head commit and all its ancestors, oldest first.
fn walk_from_head(repo: &Repository) -> (r: Result<Vec<CommitId>, RepoError>)
    ensures
        r matches Err(e) ==> e == RepoError::NoHead,
{
    let mut walk = match new_revwalk(repo) {
        Ok(w) => w,
        Err(_) => { return Err(RepoError::NoHead); },
    };
    if walk_push_head(&mut walk).is_err() {
        return Err(RepoError::NoHead);
    }
    if walk_oldest_first(&mut walk).is_err() {
        return Err(RepoError::NoHead);
    }
    Ok(walk_ids(&walk_items(walk)))
}

/// A foreground view of a repository: its own open handle, the shared
/// history that a loader fills, the part of that history it has seen so
/// far, and a cursor into what it has seen. What it has seen grows only by
/// appending, from the shared history or from a walk of its own.
pub struct GitStruct {
    repo: Repository,
    cursor: Cursor,
    seen: History,
    pub vec: HistoryHandle,
}

impl GitStruct {
    /// The cursor's position.
    pub closed spec fn idx(&self) -> int {
        self.cursor.pos()
    }

    /// The history as seen so far, oldest first.
    pub closed spec fn history(&self) -> Seq<Seq<char>> {
        self.seen@
    }

    /// No id seen twice; the cursor on a seen entry, or at 0 while none is.
    pub open spec fn wf(&self) -> bool {
        &&& distinct(self.history())
        &&& if self.history().len() == 0 {
            self.idx() == 0
        } else {
            0 <= self.idx() < self.history().len()
        }
    }

    /// Opens the repository at `path`, with an empty history and the cursor
    /// at the start.
    pub fn new(path: &str) -> (r: Result<GitStruct, RepoError>)
        ensures
            r matches Ok(g) ==> g.wf() && g.idx() == 0 && g.history() == Seq::<Seq<char>>::empty(),
            r matches Err(e) ==> e == RepoError::NotARepository,
    {
        match open_repository(path) {
            Ok(repo) => Ok(
                GitStruct { repo, cursor: Cursor::new(), seen: History::new(), vec: HistoryHandle::new() },
            ),
            Err(_) => Err(RepoError::NotARepository),
        }
    }

    /// Takes in what the shared history holds beyond what was seen.
    fn refresh(&mut self)
        requires
            old(self).wf(),
        ensures
            final(self).wf(),
            extends(old(self).history(), final(self).history()),
            final(self).idx() == old(self).idx(),
    {
        let fresh = self.vec.tail(self.seen.len());
        self.seen.extend(&fresh);
        proof {
            let ids = id_views(fresh@);
            assert forall|i: int| 0 <= i < old(self).history().len() implies
                self.history()[i] == old(self).history()[i] by {
                lemma_append_only(old(self).history(), ids, i);
            }
            if old(self).history().len() > 0 {
                lemma_append_only(old(self).history(), ids, 0);
            }
        }
    }

    /// The number of commits seen, after taking in what was loaded since.
    pub fn get_len(&mut self) -> (r: usize)
        requires
            old(self).wf(),
        ensures
            final(self).wf(),
            extends(old(self).history(), final(self).history()),
            final(self).idx() == old(self).idx(),
            r == final(self).history().len(),
    {
        self.refresh();
        self.seen.len()
    }

    /// The cursor's position.
    pub fn get_idx(&self) -> (r: usize)
        ensures
            r == self.idx(),
    {
        self.cursor.index()
    }

    /// Takes in what was loaded since, then one step forward.
    pub fn increment_idx(&mut self)
        requires
            old(self).wf(),
        ensures
            final(self).wf(),
            extends(old(self).history(), final(self).history()),
            final(self).idx() == advanced(old(self).idx(), final(self).history().len() as int),
    {
        self.refresh();
        let len = self.seen.len();
        self.cursor.advance(len);
    }

    /// Takes in what was loaded since, then one step back.
    pub fn decrement_idx(&mut self)
        requires
            old(self).wf(),
        ensures
            final(self).wf(),
            extends(old(self).history(), final(self).history()),
            final(self).idx() == retreated(old(self).idx(), final(self).history().len() as int),
    {
        self.refresh();
        let len = self.seen.len();
        self.cursor.retreat(len);
    }

    /// Takes in what was loaded since, then moves to `target` clamped into
    /// the history, one step at a time; stays put while nothing is loaded.
    pub fn jump_to(&mut self, target: usize)
        requires
            old(self).wf(),
        ensures
            final(self).wf(),
            extends(old(self).history(), final(self).history()),
            final(self).history().len() == 0 ==> final(self).idx() == old(self).idx(),
            final(self).history().len() > 0 ==> final(self).idx() == clamped(
                target as int,
                final(self).history().len() as int,
            ),
    {
        self.refresh();
        let len = self.seen.len();
        self.cursor.jump_to(target, len);
    }

    /// The commit under the cursor; `None` while nothing is seen.
    pub fn get_commit(&self) -> (r: Option<CommitId>)
        ensures
            self.idx() < self.history().len() ==> (r matches Some(id) && id@ == self.history()[self.idx()]),
            self.idx() >= self.history().len() ==> r is None,
    {
        self.cursor.current(&self.seen)
    }

    /// The ids of the head commit and all its ancestors, oldest first.
    pub fn get_rev_walk(&self) -> (r: Result<Vec<CommitId>, RepoError>)
        ensures
            r matches Err(e) ==> e == RepoError::NoHead,
    {
        walk_from_head(&self.repo)
    }

    /// Offers each id of `walk`, in order, to the history: an id already
    /// held is passed over, any other is appended, here and to the shared
    /// history. Returns how many were appended.
    pub fn populate_from_walk(&mut self, walk: &Vec<CommitId>) -> (r: usize)
        requires
            old(self).wf(),
        ensures
            final(self).wf(),
            final(self).history() == extend_unique(old(self).history(), id_views(walk@)),
            final(self).idx() == old(self).idx(),
            r == final(self).history().len() - old(self).history().len(),
    {
        let before = self.seen.len();
        let mut k: usize = 0;
        while k < walk.len()
            invariant
                k <= walk@.len(),
                self.wf(),
                self.idx() == old(self).idx(),
                before == old(self).history().len(),
                old(self).history().len() <= self.history().len(),
                self.history() == extend_unique(old(self).history(), id_views(walk@).take(k as int)),
            decreases walk@.len() - k,
        {
            let ghost t = id_views(walk@).take(k as int + 1);
            assert(t.drop_last() =~= id_views(walk@).take(k as int));
            assert(t.last() == walk@[k as int]@);
            if self.seen.append(walk[k].copy()) {
                self.vec.append(walk[k].copy());
            }
            k += 1;
        }
        assert(id_views(walk@).take(walk@.len() as int) =~= id_views(walk@));
        self.seen.len() - before
    }

    /// Looks a commit up.
    fn commit_of(&self, id: &CommitId) -> (r: Result<Commit<'_>, RepoError>)
        ensures
            r matches Err(e) ==> e == RepoError::UnknownCommit,
    {
        match parse_oid(id.as_hex()) {
            Ok(oid) => match find_commit(&self.repo, oid) {
                Ok(c) => Ok(c),
                Err(_) => Err(RepoError::UnknownCommit),
            },
            Err(_) => Err(RepoError::UnknownCommit),
        }
    }

    /// The commit time of `id`, in seconds since the Unix epoch.
    pub fn get_date(&self, id: &CommitId) -> (r: Result<i64, RepoError>)
        ensures
            r matches Err(e) ==> e == RepoError::UnknownCommit,
    {
        match self.commit_of(id) {
            Ok(c) => Ok(commit_seconds(&c)),
            Err(e) => Err(e),
        }
    }

    /// The author's name and email of `id`, each `None` where absent.
    pub fn get_author(&self, id: &CommitId) -> (r: Result<(Option<String>, Option<String>), RepoError>)
        ensures
            r matches Err(e) ==> e == RepoError::UnknownCommit,
            r matches Ok(p) ==> absent_or_nonempty(p.0) && absent_or_nonempty(p.1),
    {
        match self.commit_of(id) {
            Ok(c) => Ok((absent_if_empty(author_name(&c)), absent_if_empty(author_email(&c)))),
            Err(e) => Err(e),
        }
    }

    /// Everything recorded of commit `id` but its tree.
    pub fn metadata(&self, id: &CommitId) -> (r: Result<CommitMetadata, RepoError>)
        ensures
            r matches Err(e) ==> e == RepoError::UnknownCommit,
            r matches Ok(m) ==> m.id@ == id@ && absent_or_nonempty(m.author_name)
                && absent_or_nonempty(m.author_email),
    {
        match self.commit_of(id) {
            Ok(c) => Ok(CommitMetadata {
                id: id.copy(),
                timestamp: commit_seconds(&c),
                author_name: absent_if_empty(author_name(&c)),
                author_email: absent_if_empty(author_email(&c)),
                summary: commit_summary(&c),
            }),
            Err(e) => Err(e),
        }
    }

    /// The files tracked in commit `id`, each path once, with their
    /// content addresses.
    pub fn get_file_tree(&self, id: &CommitId) -> (r: Result<Vec<FileEntry>, RepoError>)
        ensures
            r matches Err(e) ==> e == RepoError::UnknownCommit,
            r matches Ok(v) ==> unique_paths(v@),
    {
        let c = match self.commit_of(id) {
            Ok(c) => c,
            Err(e) => { return Err(e); },
        };
        let tree = match commit_tree(&c) {
            Ok(t) => t,
            Err(_) => { return Err(RepoError::UnknownCommit); },
        };
        match tree_visits(&tree) {
            Ok(visits) => Ok(files_from_visits(&visits)),
            Err(_) => Err(RepoError::UnknownCommit),
        }
    }

    /// The content at `content_id` as text, or a marker where it is binary.
    pub fn get_file_content(&self, content_id: &ContentId) -> (r: Result<String, RepoError>)
        ensures
            r matches Err(e) ==> e == RepoError::ContentUnavailable,
    {
        let oid = match parse_oid(content_id.as_hex()) {
            Ok(oid) => oid,
            Err(_) => { return Err(RepoError::ContentUnavailable); },
        };
        match find_blob(&self.repo, oid) {
            Ok(blob) => Ok(render_content(blob_is_binary(&blob), blob_text(&blob))),
            Err(_) => Err(RepoError::ContentUnavailable),
        }
    }
}

} // verus!
