use vstd::prelude::*;

verus! {

/// Identifier of a repository object (a commit or a file's content),
/// held as its hexadecimal text.
#[derive(Debug)]
pub struct ObjectId {
    hex: String,
}

/// A commit identifier.
pub type CommitId = ObjectId;

/// The content address of a file.
pub type ContentId = ObjectId;

impl View for ObjectId {
    type V = Seq<char>;

    closed spec fn view(&self) -> Seq<char> {
        self.hex@
    }
}

impl ObjectId {
    /// Wraps the hexadecimal text of an identifier.
    pub fn from_hex(hex: String) -> (r: ObjectId)
        ensures
            r@ == hex@,
    {
        ObjectId { hex }
    }

    /// The hexadecimal text of the identifier.
    pub fn as_hex(&self) -> (r: &str)
        ensures
            r@ == self@,
    {
        self.hex.as_str()
    }

    /// A second, equal identifier.
    pub fn copy(&self) -> (r: ObjectId)
        ensures
            r@ == self@,
    {
        ObjectId { hex: self.hex.clone() }
    }

    /// Whether two identifiers name the same object.
    pub fn same(&self, other: &ObjectId) -> (r: bool)
        ensures
            r == (self@ == other@),
    {
        self.hex == other.hex
    }
}

impl Clone for ObjectId {
    fn clone(&self) -> Self {
        self.copy()
    }
}

impl PartialEq for ObjectId {
    fn eq(&self, other: &ObjectId) -> (r: bool) {
        self.same(other)
    }
}

impl vstd::std_specs::cmp::PartialEqSpecImpl for ObjectId {
    open spec fn obeys_eq_spec() -> bool {
        true
    }

    open spec fn eq_spec(&self, other: &ObjectId) -> bool {
        self@ == other@
    }
}

impl Eq for ObjectId {
}

} // verus!
