use vstd::prelude::*;
use vstd::rwlock::{RwLock, RwLockPredicate};
use std::sync::Arc;
use crate::object_id::{CommitId, ObjectId};

verus! {

/// No identifier occurs twice.
pub open spec fn distinct(s: Seq<Seq<char>>) -> bool {
    forall|i: int, j: int| 0 <= i < j < s.len() ==> s[i] != s[j]
}

/// The history that results from offering each id of `ids`, in order, to
/// `h`: an id already present is passed over, any other is appended.
pub open spec fn extend_unique(h: Seq<Seq<char>>, ids: Seq<Seq<char>>) -> Seq<Seq<char>>
    decreases ids.len(),
{
    if ids.len() == 0 {
        h
    } else {
        let p = extend_unique(h, ids.drop_last());
        if p.contains(ids.last()) {
            p
        } else {
            p.push(ids.last())
        }
    }
}

/// The views of a sequence of identifiers.
pub open spec fn id_views(ids: Seq<ObjectId>) -> Seq<Seq<char>> {
    ids.map_values(|id: ObjectId| id@)
}

/// Every entry of `a` stands at the same position in `b`.
pub open spec fn extends(a: Seq<Seq<char>>, b: Seq<Seq<char>>) -> bool {
    a.len() <= b.len() && forall|i: int| 0 <= i < a.len() ==> b[i] == a[i]
}

/// Once an id stands at position `i`, any later offers leave it there.
pub proof fn lemma_append_only(h: Seq<Seq<char>>, ids: Seq<Seq<char>>, i: int)
    requires
        0 <= i < h.len(),
    ensures
        extend_unique(h, ids).len() >= h.len(),
        extend_unique(h, ids)[i] == h[i],
    decreases ids.len(),
{
    if ids.len() > 0 {
        lemma_append_only(h, ids.drop_last(), i);
    }
}

/// Offering ids never creates a duplicate.
pub proof fn lemma_extend_distinct(h: Seq<Seq<char>>, ids: Seq<Seq<char>>)
    requires
        distinct(h),
    ensures
        distinct(extend_unique(h, ids)),
    decreases ids.len(),
{
    if ids.len() > 0 {
        lemma_extend_distinct(h, ids.drop_last());
    }
}

/// Ids that are all new and pairwise distinct come out after the old
/// entries, in exactly the order in which they were offered.
pub proof fn lemma_walk_order_kept(h: Seq<Seq<char>>, ids: Seq<Seq<char>>)
    requires
        distinct(ids),
        forall|k: int| 0 <= k < ids.len() ==> !h.contains(#[trigger] ids[k]),
    ensures
        extend_unique(h, ids) == h + ids,
    decreases ids.len(),
{
    if ids.len() > 0 {
        let front = ids.drop_last();
        assert forall|k: int| 0 <= k < front.len() implies !h.contains(#[trigger] front[k]) by {
            assert(front[k] == ids[k]);
        }
        lemma_walk_order_kept(h, front);
        let x = ids.last();
        if (h + front).contains(x) {
            let j = choose|j: int| 0 <= j < (h + front).len() && (h + front)[j] == x;
            if j < h.len() {
                assert(h[j] == x);
                assert(h.contains(ids[ids.len() - 1]));
            } else {
                assert(ids[j - h.len()] == x);
            }
        }
        assert(h + ids == (h + front).push(x));
    }
}

/// The ordered, duplicate-free sequence of commit ids, oldest first.
pub struct History {
    ids: Vec<CommitId>,
}

impl View for History {
    type V = Seq<Seq<char>>;

    closed spec fn view(&self) -> Seq<Seq<char>> {
        id_views(self.ids@)
    }
}

impl History {
    /// The history holds no id twice.
    pub open spec fn wf(&self) -> bool {
        distinct(self@)
    }

    /// An empty history.
    pub fn new() -> (r: History)
        ensures
            r@ == Seq::<Seq<char>>::empty(),
            r.wf(),
    {
        let r = History { ids: Vec::new() };
        assert(r@ =~= Seq::<Seq<char>>::empty());
        r
    }

    /// The number of ids held.
    pub fn len(&self) -> (r: usize)
        ensures
            r == self@.len(),
    {
        self.ids.len()
    }

    /// The id at position `i`, or `None` past the end.
    pub fn get(&self, i: usize) -> (r: Option<CommitId>)
        ensures
            i < self@.len() ==> r.is_some() && r.unwrap()@ == self@[i as int],
            i >= self@.len() ==> r.is_none(),
    {
        if i < self.ids.len() {
            Some(self.ids[i].copy())
        } else {
            None
        }
    }

    /// Whether `id` is held.
    pub fn contains(&self, id: &CommitId) -> (r: bool)
        ensures
            r == self@.contains(id@),
    {
        let mut k: usize = 0;
        while k < self.ids.len()
            invariant
                k <= self.ids@.len(),
                forall|j: int| 0 <= j < k ==> self@[j] != id@,
            decreases self.ids@.len() - k,
        {
            if self.ids[k].same(id) {
                assert(self@[k as int] == id@);
                return true;
            }
            k += 1;
        }
        false
    }

    /// Appends `id` unless it is already held; says whether it was appended.
    pub fn append(&mut self, id: CommitId) -> (r: bool)
        requires
            old(self).wf(),
        ensures
            final(self).wf(),
            r == !old(self)@.contains(id@),
            final(self)@ == (if r { old(self)@.push(id@) } else { old(self)@ }),
    {
        if self.contains(&id) {
            false
        } else {
            let ghost v = id@;
            self.ids.push(id);
            assert(self@ =~= old(self)@.push(v));
            true
        }
    }

    /// Offers each id of `ids` in order, as `append` does.
    pub fn extend(&mut self, ids: &Vec<CommitId>)
        requires
            old(self).wf(),
        ensures
            final(self).wf(),
            final(self)@ == extend_unique(old(self)@, id_views(ids@)),
    {
        let mut k: usize = 0;
        while k < ids.len()
            invariant
                k <= ids@.len(),
                self.wf(),
                self@ == extend_unique(old(self)@, id_views(ids@).take(k as int)),
            decreases ids@.len() - k,
        {
            let ghost before = self@;
            self.append(ids[k].copy());
            let ghost t = id_views(ids@).take(k as int + 1);
            assert(t.drop_last() =~= id_views(ids@).take(k as int));
            assert(t.last() == ids@[k as int]@);
            k += 1;
        }
        assert(id_views(ids@).take(ids@.len() as int) =~= id_views(ids@));
    }
}

/// The lock predicate of the shared history: it stays well formed.
pub struct WellFormed;

impl RwLockPredicate<History> for WellFormed {
    open spec fn inv(self, v: History) -> bool {
        v.wf()
    }
}

/// A handle on a history shared between the loader and its readers.
/// Clones of the handle name the same history. Another thread may append
/// at any moment, so what a call returns is known only to come from a
/// well-formed history; a reader that needs exact statements keeps its own
/// `History`, fed from `tail` by appending (see `GitStruct`).
pub struct HistoryHandle {
    lock: Arc<RwLock<History, WellFormed>>,
}

impl HistoryHandle {
    /// A handle on a new, empty history.
    pub fn new() -> (r: HistoryHandle) {
        HistoryHandle { lock: Arc::new(RwLock::new(History::new(), Ghost(WellFormed))) }
    }

    /// A second handle on the same history.
    pub fn share(&self) -> (r: HistoryHandle) {
        HistoryHandle { lock: self.lock.clone() }
    }

    /// The number of ids held at the moment of the call.
    pub fn len(&self) -> (r: usize) {
        let read = self.lock.acquire_read();
        let n = read.borrow().len();
        read.release_read();
        n
    }

    /// The id at position `i` at the moment of the call, or `None` where the
    /// history is not that long yet.
    pub fn get(&self, i: usize) -> (r: Option<CommitId>) {
        let read = self.lock.acquire_read();
        let r = read.borrow().get(i);
        read.release_read();
        r
    }

    /// The ids at positions `start` and beyond at the moment of the call,
    /// read under one lock.
    pub fn tail(&self, start: usize) -> (r: Vec<CommitId>) {
        let read = self.lock.acquire_read();
        let h = read.borrow();
        let mut out: Vec<CommitId> = Vec::new();
        let mut k: usize = start;
        while k < h.ids.len()
            decreases h.ids@.len() - k,
        {
            out.push(h.ids[k].copy());
            k += 1;
        }
        read.release_read();
        out
    }

    /// A copy of the whole history at the moment of the call.
    pub fn snapshot(&self) -> (r: History)
        ensures
            r.wf(),
    {
        let read = self.lock.acquire_read();
        let h = read.borrow();
        let mut out = History::new();
        out.extend(&h.ids);
        read.release_read();
        out
    }

    /// Appends `id` unless the history already holds it; says whether it
    /// was appended. The append is seen whole or not at all by readers.
    pub fn append(&self, id: CommitId) -> (r: bool) {
        let (mut h, write) = self.lock.acquire_write();
        let r = h.append(id);
        write.release_write(h);
        r
    }
}

} // verus!
