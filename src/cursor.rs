use vstd::prelude::*;
use crate::history::History;
use crate::object_id::CommitId;

verus! {

/// Position after one step forward in a history of length `len`: past the
/// last loaded entry the position stays where it is.
pub open spec fn advanced(idx: int, len: int) -> int {
    if len <= 0 {
        idx
    } else if idx + 1 < len - 1 {
        idx + 1
    } else {
        len - 1
    }
}

/// Position after one step back: at the start, or in an empty history, the
/// position stays where it is.
pub open spec fn retreated(idx: int, len: int) -> int {
    if len <= 0 || idx == 0 {
        idx
    } else {
        idx - 1
    }
}

/// `target` brought into `[0, len - 1]`.
pub open spec fn clamped(target: int, len: int) -> int {
    if target < len - 1 {
        target
    } else {
        len - 1
    }
}

/// A position in the history, moved only by explicit navigation.
pub struct Cursor {
    idx: usize,
}

impl Cursor {
    /// The position, as a number.
    pub closed spec fn pos(&self) -> int {
        self.idx as int
    }

    /// A cursor at the start.
    pub fn new() -> (r: Cursor)
        ensures
            r.pos() == 0,
    {
        Cursor { idx: 0 }
    }

    /// The position.
    pub fn index(&self) -> (r: usize)
        ensures
            r == self.pos(),
    {
        self.idx
    }

    /// One step forward, in a history of `len` entries as read just before.
    pub fn advance(&mut self, len: usize)
        ensures
            final(self).pos() == advanced(old(self).pos(), len as int),
    {
        if len > 0 {
            if self.idx < len - 1 {
                self.idx = self.idx + 1;
            } else {
                self.idx = len - 1;
            }
        }
    }

    /// One step back, in a history of `len` entries as read just before.
    pub fn retreat(&mut self, len: usize)
        ensures
            final(self).pos() == retreated(old(self).pos(), len as int),
    {
        if len > 0 && self.idx > 0 {
            self.idx = self.idx - 1;
        }
    }

    /// Moves to `target`, clamped into the history of `len` entries, one
    /// step forward or back at a time. In an empty history it stays put.
    pub fn jump_to(&mut self, target: usize, len: usize)
        ensures
            len == 0 ==> final(self).pos() == old(self).pos(),
            len > 0 ==> final(self).pos() == clamped(target as int, len as int),
    {
        if len == 0 {
            return;
        }
        let goal: usize = if target < len - 1 { target } else { len - 1 };
        while self.idx < goal
            invariant
                len > 0,
                goal < len,
                self.idx <= goal || self.idx == old(self).idx,
            decreases goal - self.idx,
        {
            self.advance(len);
        }
        while self.idx > goal
            invariant
                len > 0,
                goal < len,
                self.idx >= goal,
            decreases self.idx - goal,
        {
            self.retreat(len);
        }
    }

    /// The commit under the cursor, `None` while the history is empty or
    /// shorter than the position.
    pub fn current(&self, history: &History) -> (r: Option<CommitId>)
        ensures
            self.pos() < history@.len() ==> r.is_some() && r.unwrap()@ == history@[self.pos()],
            self.pos() >= history@.len() ==> r.is_none(),
    {
        history.get(self.idx)
    }
}

} // verus!

verus! {

/// The cursor stays within the history: from a position inside the entries
/// loaded earlier, each step and each jump lands inside the entries loaded
/// now, however many were appended in between.
pub proof fn lemma_cursor_in_bounds(idx: int, old_len: int, len: int, target: int)
    requires
        0 <= idx < old_len <= len,
        0 <= target,
    ensures
        0 <= advanced(idx, len) < len,
        0 <= retreated(idx, len) < len,
        0 <= clamped(target, len) < len,
        advanced(idx, len) == (if idx + 1 < len { idx + 1 } else { idx }),
{
}

} // verus!

verus! {

/// The position after `n` single steps forward.
pub open spec fn advanced_n(idx: int, len: int, n: nat) -> int
    decreases n,
{
    if n == 0 {
        idx
    } else {
        advanced(advanced_n(idx, len, (n - 1) as nat), len)
    }
}

/// The position after `n` single steps back.
pub open spec fn retreated_n(idx: int, len: int, n: nat) -> int
    decreases n,
{
    if n == 0 {
        idx
    } else {
        retreated(retreated_n(idx, len, (n - 1) as nat), len)
    }
}

/// A jump lands where the same number of single steps would: from a
/// position inside the history, stepping forward or back as many times as
/// the clamped target lies away reaches exactly the clamped target.
pub proof fn lemma_jump_is_single_steps(idx: int, len: int, target: int)
    requires
        0 <= idx < len,
        0 <= target,
    ensures
        clamped(target, len) >= idx ==> advanced_n(idx, len, (clamped(target, len) - idx) as nat)
            == clamped(target, len),
        clamped(target, len) < idx ==> retreated_n(idx, len, (idx - clamped(target, len)) as nat)
            == clamped(target, len),
{
    let c = clamped(target, len);
    if c >= idx {
        lemma_advanced_n(idx, len, (c - idx) as nat);
    } else {
        lemma_retreated_n(idx, len, (idx - c) as nat);
    }
}

proof fn lemma_advanced_n(idx: int, len: int, n: nat)
    requires
        0 <= idx,
        idx + n < len,
    ensures
        advanced_n(idx, len, n) == idx + n,
    decreases n,
{
    if n > 0 {
        lemma_advanced_n(idx, len, (n - 1) as nat);
    }
}

proof fn lemma_retreated_n(idx: int, len: int, n: nat)
    requires
        0 <= idx - n,
        idx < len,
    ensures
        retreated_n(idx, len, n) == idx - n,
    decreases n,
{
    if n > 0 {
        lemma_retreated_n(idx, len, (n - 1) as nat);
    }
}

} // verus!
