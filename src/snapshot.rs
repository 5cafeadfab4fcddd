use vstd::prelude::*;
use vstd::string::StringExecFns;
use crate::object_id::{ContentId, ObjectId};

verus! {

/// Shown in place of content that is not text.
pub const BINARY_MARKER: &'static str = "binary, not displayable";

/// One tracked file of a commit: its path from the repository root and the
/// address of its content.
#[derive(Debug)]
pub struct FileEntry {
    pub path: String,
    pub content_id: ContentId,
}

impl FileEntry {
    /// A second, equal entry.
    pub fn copy(&self) -> (r: FileEntry)
        ensures
            r.path@ == self.path@,
            r.content_id@ == self.content_id@,
    {
        FileEntry { path: self.path.clone(), content_id: self.content_id.copy() }
    }
}

/// The paths of a sequence of entries.
pub open spec fn paths(s: Seq<FileEntry>) -> Seq<Seq<char>> {
    s.map_values(|e: FileEntry| e.path@)
}

/// No path occurs twice.
pub open spec fn unique_paths(s: Seq<FileEntry>) -> bool {
    forall|i: int, j: int| 0 <= i < j < s.len() ==> s[i].path@ != s[j].path@
}

/// The entries of `s` whose path has not occurred before them, in order.
pub open spec fn first_by_path(s: Seq<FileEntry>) -> Seq<FileEntry>
    decreases s.len(),
{
    if s.len() == 0 {
        s
    } else {
        let p = first_by_path(s.drop_last());
        if paths(p).contains(s.last().path@) {
            p
        } else {
            p.push(s.last())
        }
    }
}

/// Entries equal by path and content address.
pub open spec fn same_entries(a: Seq<FileEntry>, b: Seq<FileEntry>) -> bool {
    a.len() == b.len() && forall|i: int|
        0 <= i < a.len() ==> a[i].path@ == b[i].path@ && a[i].content_id@ == b[i].content_id@
}

/// The path of a file named `name` in the directory `root`, where `root` is
/// empty or ends in a separator.
pub open spec fn joined(root: Seq<char>, name: Seq<char>) -> Seq<char> {
    root + name
}

/// Records one entry met while walking a commit's tree: a file (blob) with a
/// readable name is appended under its full path; directories and other
/// objects are passed over, since the walk goes into them by itself.
pub fn record_entry(
    out: &mut Vec<FileEntry>,
    root: &str,
    name: Option<&str>,
    content_hex: String,
    is_file: bool,
)
    ensures
        (is_file && name.is_some()) ==> final(out)@.len() == old(out)@.len() + 1
            && final(out)@.drop_last() == old(out)@
            && final(out)@.last().path@ == joined(root@, name.unwrap()@)
            && final(out)@.last().content_id@ == content_hex@,
        !(is_file && name.is_some()) ==> final(out)@ == old(out)@,
{
    if is_file {
        if let Some(n) = name {
            let path = String::from_str(root).concat(n);
            out.push(FileEntry { path, content_id: ObjectId::from_hex(content_hex) });
            assert(out@.drop_last() =~= old(out)@);
        }
    }
}

/// Whether some entry of `entries` has the path `path`.
fn has_path(entries: &Vec<FileEntry>, path: &String) -> (r: bool)
    ensures
        r == paths(entries@).contains(path@),
{
    let mut k: usize = 0;
    while k < entries.len()
        invariant
            k <= entries@.len(),
            forall|j: int| 0 <= j < k ==> entries@[j].path@ != path@,
        decreases entries@.len() - k,
    {
        if entries[k].path == *path {
            assert(paths(entries@)[k as int] == path@);
            return true;
        }
        k += 1;
    }
    assert forall|j: int| 0 <= j < paths(entries@).len() implies paths(entries@)[j] != path@ by {
        assert(paths(entries@)[j] == entries@[j].path@);
    }
    false
}

/// The position of the first entry with path `path`, if any.
pub fn position_of_path(entries: &Vec<FileEntry>, path: &String) -> (r: Option<usize>)
    ensures
        r matches Some(k) ==> k < entries@.len() && entries@[k as int].path@ == path@
            && forall|j: int| 0 <= j < k ==> entries@[j].path@ != path@,
        r is None ==> forall|j: int| 0 <= j < entries@.len() ==> entries@[j].path@ != path@,
{
    let mut k: usize = 0;
    while k < entries.len()
        invariant
            k <= entries@.len(),
            forall|j: int| 0 <= j < k ==> entries@[j].path@ != path@,
        decreases entries@.len() - k,
    {
        if entries[k].path == *path {
            return Some(k);
        }
        k += 1;
    }
    None
}

proof fn lemma_first_by_path_unique(s: Seq<FileEntry>)
    ensures
        unique_paths(first_by_path(s)),
    decreases s.len(),
{
    if s.len() > 0 {
        lemma_first_by_path_unique(s.drop_last());
        let p = first_by_path(s.drop_last());
        if !paths(p).contains(s.last().path@) {
            let q = p.push(s.last());
            assert forall|i: int, j: int| 0 <= i < j < q.len() implies q[i].path@ != q[j].path@ by {
                if j == q.len() - 1 {
                    assert(paths(p)[i] == p[i].path@);
                }
            }
        }
    }
}

/// Keeps the first entry for each path, in the order given, so that every
/// path occurs once.
pub fn unique_by_path(entries: &Vec<FileEntry>) -> (r: Vec<FileEntry>)
    ensures
        same_entries(r@, first_by_path(entries@)),
        unique_paths(r@),
{
    let mut out: Vec<FileEntry> = Vec::new();
    let mut k: usize = 0;
    while k < entries.len()
        invariant
            k <= entries@.len(),
            same_entries(out@, first_by_path(entries@.take(k as int))),
        decreases entries@.len() - k,
    {
        let ghost t = entries@.take(k as int + 1);
        assert(t.drop_last() =~= entries@.take(k as int));
        assert(t.last() == entries@[k as int]);
        let ghost p = first_by_path(entries@.take(k as int));
        assert(paths(out@) =~= paths(p));
        if !has_path(&out, &entries[k].path) {
            out.push(entries[k].copy());
        }
        k += 1;
    }
    assert(entries@.take(entries@.len() as int) =~= entries@);
    proof {
        lemma_first_by_path_unique(entries@);
        assert forall|i: int, j: int| 0 <= i < j < out@.len() implies out@[i].path@ != out@[j].path@ by {
            assert(first_by_path(entries@)[i].path@ != first_by_path(entries@)[j].path@);
        }
    }
    out
}

/// One entry met while walking a commit's tree, as plain values: its
/// directory path (empty or ending in a separator), its name where
/// readable, the hexadecimal id of its object, and whether it is a file.
#[derive(Debug)]
pub struct TreeVisit {
    pub root: String,
    pub name: Option<String>,
    pub content_hex: String,
    pub is_file: bool,
}

/// Appends one visit of a tree walk, as met.
pub fn push_visit(
    visits: &mut Vec<TreeVisit>,
    root: &str,
    name: Option<&str>,
    content_hex: String,
    is_file: bool,
)
    ensures
        final(visits)@.len() == old(visits)@.len() + 1,
        final(visits)@.drop_last() == old(visits)@,
        final(visits)@.last().root@ == root@,
        final(visits)@.last().name matches Some(n) ==> name matches Some(m) && n@ == m@,
        final(visits)@.last().name is None <==> name is None,
        final(visits)@.last().content_hex@ == content_hex@,
        final(visits)@.last().is_file == is_file,
{
    let name = match name {
        Some(n) => Some(String::from_str(n)),
        None => None,
    };
    visits.push(TreeVisit { root: String::from_str(root), name, content_hex, is_file });
    assert(visits@.drop_last() =~= old(visits)@);
}

/// Visit `v` is a file with a readable name, at `path`, with content `hex`.
pub open spec fn records(v: TreeVisit, path: Seq<char>, hex: Seq<char>) -> bool {
    v.is_file && (v.name matches Some(n) && path == joined(v.root@, n@)) && hex == v.content_hex@
}

proof fn lemma_first_by_path_from(s: Seq<FileEntry>)
    ensures
        forall|i: int| 0 <= i < first_by_path(s).len() ==> exists|j: int|
            0 <= j < s.len() && s[j] == #[trigger] first_by_path(s)[i],
    decreases s.len(),
{
    if s.len() > 0 {
        lemma_first_by_path_from(s.drop_last());
        let p = first_by_path(s.drop_last());
        assert forall|i: int| 0 <= i < first_by_path(s).len() implies exists|j: int|
            0 <= j < s.len() && s[j] == #[trigger] first_by_path(s)[i] by {
            if i < p.len() {
                assert(p[i] == first_by_path(s)[i]);
                let j = choose|j: int| 0 <= j < s.drop_last().len() && s.drop_last()[j] == #[trigger] p[i];
                assert(s[j] == s.drop_last()[j]);
            } else {
                assert(s[s.len() - 1] == first_by_path(s)[i]);
            }
        }
    }
}

proof fn lemma_first_by_path_covers(s: Seq<FileEntry>)
    ensures
        forall|j: int| 0 <= j < s.len() ==> paths(first_by_path(s)).contains(#[trigger] s[j].path@),
    decreases s.len(),
{
    if s.len() > 0 {
        let d = s.drop_last();
        lemma_first_by_path_covers(d);
        let p = first_by_path(d);
        let q = p.push(s.last());
        assert(paths(q) =~= paths(p).push(s.last().path@));
        assert forall|j: int| 0 <= j < s.len() implies paths(first_by_path(s)).contains(#[trigger] s[j].path@) by {
            if j < d.len() {
                assert(s[j] == d[j]);
                assert(paths(p).contains(d[j].path@));
                let m = choose|m: int| 0 <= m < paths(p).len() && paths(p)[m] == d[j].path@;
                assert(paths(first_by_path(s))[m] == paths(p)[m]);
            } else if !paths(p).contains(s.last().path@) {
                assert(paths(q)[p.len() as int] == s.last().path@);
            }
        }
    }
}

/// The files of a commit from the visits of a walk of its tree: every path
/// once, each entry from a file visit, every file visit's path present.
pub fn files_from_visits(visits: &Vec<TreeVisit>) -> (r: Vec<FileEntry>)
    ensures
        unique_paths(r@),
        forall|i: int| 0 <= i < r@.len() ==> exists|k: int|
            0 <= k < visits@.len() && records(visits@[k], (#[trigger] r@[i]).path@, r@[i].content_id@),
        forall|k: int| 0 <= k < visits@.len() && (#[trigger] visits@[k]).is_file && visits@[k].name is Some
            ==> exists|i: int| 0 <= i < r@.len() && r@[i].path@ == joined(
                visits@[k].root@,
                visits@[k].name.unwrap()@,
            ),
{
    let mut raw: Vec<FileEntry> = Vec::new();
    let mut k: usize = 0;
    while k < visits.len()
        invariant
            k <= visits@.len(),
            forall|i: int| 0 <= i < raw@.len() ==> exists|m: int|
                0 <= m < k && records(visits@[m], (#[trigger] raw@[i]).path@, raw@[i].content_id@),
            forall|m: int| 0 <= m < k && (#[trigger] visits@[m]).is_file && visits@[m].name is Some
                ==> exists|i: int| 0 <= i < raw@.len() && raw@[i].path@ == joined(
                    visits@[m].root@,
                    visits@[m].name.unwrap()@,
                ),
        decreases visits@.len() - k,
    {
        let v = &visits[k];
        let name: Option<&str> = match &v.name {
            Some(n) => Some(n.as_str()),
            None => None,
        };
        let ghost before = raw@;
        record_entry(&mut raw, v.root.as_str(), name, v.content_hex.clone(), v.is_file);
        proof {
            assert forall|i: int| 0 <= i < raw@.len() implies exists|m: int|
                0 <= m < k + 1 && records(visits@[m], (#[trigger] raw@[i]).path@, raw@[i].content_id@) by {
                if i < before.len() {
                    assert(raw@[i] == before[i]);
                } else {
                    assert(records(visits@[k as int], raw@[i].path@, raw@[i].content_id@));
                }
            }
            assert forall|m: int| 0 <= m < k + 1 && (#[trigger] visits@[m]).is_file && visits@[m].name is Some
                implies exists|i: int| 0 <= i < raw@.len() && raw@[i].path@ == joined(
                    visits@[m].root@,
                    visits@[m].name.unwrap()@,
                ) by {
                if m < k {
                    let i = choose|i: int| 0 <= i < before.len() && before[i].path@ == joined(
                        visits@[m].root@,
                        visits@[m].name.unwrap()@,
                    );
                    assert(raw@[i] == before[i]);
                } else {
                    assert(raw@[raw@.len() - 1].path@ == joined(visits@[m].root@, visits@[m].name.unwrap()@));
                }
            }
        }
        k += 1;
    }
    let r = unique_by_path(&raw);
    proof {
        lemma_first_by_path_from(raw@);
        lemma_first_by_path_covers(raw@);
        let f = first_by_path(raw@);
        assert forall|i: int| 0 <= i < r@.len() implies exists|m: int|
            0 <= m < visits@.len() && records(visits@[m], (#[trigger] r@[i]).path@, r@[i].content_id@) by {
            let j = choose|j: int| 0 <= j < raw@.len() && raw@[j] == #[trigger] f[i];
            let m = choose|m: int| 0 <= m < visits@.len() && records(visits@[m], raw@[j].path@, raw@[j].content_id@);
        }
        assert forall|m: int| 0 <= m < visits@.len() && (#[trigger] visits@[m]).is_file && visits@[m].name is Some
            implies exists|i: int| 0 <= i < r@.len() && r@[i].path@ == joined(
                visits@[m].root@,
                visits@[m].name.unwrap()@,
            ) by {
            let j = choose|j: int| 0 <= j < raw@.len() && raw@[j].path@ == joined(
                visits@[m].root@,
                visits@[m].name.unwrap()@,
            );
            assert(paths(f).contains(raw@[j].path@));
            let i = choose|i: int| 0 <= i < paths(f).len() && paths(f)[i] == raw@[j].path@;
            assert(r@[i].path@ == f[i].path@);
        }
    }
    r
}

/// What is shown for a file's content: the text, or the marker for binary
/// content.
pub open spec fn shown_content(is_binary: bool, text: Seq<char>) -> Seq<char> {
    if is_binary {
        BINARY_MARKER@
    } else {
        text
    }
}

/// Renders a file's content for display.
pub fn render_content(is_binary: bool, text: String) -> (r: String)
    ensures
        r@ == shown_content(is_binary, text@),
{
    if is_binary {
        String::from_str(BINARY_MARKER)
    } else {
        text
    }
}

} // verus!
