//! Identifiers: changesets, Git objects, and Git objects with kind and size.

use vstd::prelude::*;

verus! {

/// The sixteen lowercase hexadecimal digits, indexed by value.
pub open spec fn hex_digits() -> Seq<char> {
    seq!['0', '1', '2', '3', '4', '5', '6', '7', '8', '9', 'a', 'b', 'c', 'd', 'e', 'f']
}

/// Lowercase hexadecimal rendering of a byte string: two digits per byte,
/// high nibble first.
pub open spec fn hex_of(bytes: Seq<u8>) -> Seq<char> {
    Seq::new(
        2 * bytes.len(),
        |i: int|
            if i % 2 == 0 {
                hex_digits()[bytes[i / 2] as int / 16]
            } else {
                hex_digits()[bytes[i / 2] as int % 16]
            },
    )
}

/// Identifier of a bonsai changeset: an opaque digest of 32 bytes.
#[derive(Clone, Copy, Debug, Eq, Hash)]
pub struct ChangesetId {
    pub bytes: [u8; 32],
}

impl View for ChangesetId {
    type V = Seq<u8>;

    open spec fn view(&self) -> Seq<u8> {
        self.bytes@
    }
}

impl PartialEq for ChangesetId {
    fn eq(&self, other: &Self) -> (r: bool) {
        let mut i: usize = 0;
        while i < 32
            invariant
                i <= 32,
                forall|j: int| 0 <= j < i ==> self.bytes[j] == other.bytes[j],
            decreases 32 - i,
        {
            if self.bytes[i] != other.bytes[i] {
                return false;
            }
            i += 1;
        }
        assert(self.bytes@ =~= other.bytes@);
        true
    }
}

impl vstd::std_specs::cmp::PartialEqSpecImpl for ChangesetId {
    open spec fn obeys_eq_spec() -> bool {
        true
    }

    open spec fn eq_spec(&self, other: &Self) -> bool {
        self@ == other@
    }
}

impl ChangesetId {
    /// The identifier with the given digest.
    pub fn new(bytes: [u8; 32]) -> (id: Self)
        ensures
            id@ == bytes@,
    {
        ChangesetId { bytes }
    }

}

/// Identifier of a Git object: the 20 bytes of its SHA-1 digest.
#[derive(Clone, Copy, Debug, Eq, Hash)]
pub struct GitObjectId {
    pub bytes: [u8; 20],
}

impl View for GitObjectId {
    type V = Seq<u8>;

    open spec fn view(&self) -> Seq<u8> {
        self.bytes@
    }
}

impl PartialEq for GitObjectId {
    fn eq(&self, other: &Self) -> (r: bool) {
        let mut i: usize = 0;
        while i < 20
            invariant
                i <= 20,
                forall|j: int| 0 <= j < i ==> self.bytes[j] == other.bytes[j],
            decreases 20 - i,
        {
            if self.bytes[i] != other.bytes[i] {
                return false;
            }
            i += 1;
        }
        assert(self.bytes@ =~= other.bytes@);
        true
    }
}

impl vstd::std_specs::cmp::PartialEqSpecImpl for GitObjectId {
    open spec fn obeys_eq_spec() -> bool {
        true
    }

    open spec fn eq_spec(&self, other: &Self) -> bool {
        self@ == other@
    }
}

/// Hexadecimal text of an object id, as `gix_hash::ObjectId::to_hex` displays
/// it: the crate encodes the digest with lowercase digits, two per byte, the
/// high nibble first, and displays all forty of them.
#[verifier::external_body]
fn object_id_hex(oid: &GitObjectId) -> (hex: String)
    ensures
        hex@ == hex_of(oid@),
{
    gix_hash::ObjectId::from(oid.bytes).to_hex().to_string()
}

impl GitObjectId {
    /// The identifier with the given digest.
    pub fn new(bytes: [u8; 20]) -> (id: Self)
        ensures
            id@ == bytes@,
    {
        GitObjectId { bytes }
    }

    /// The identifier as forty lowercase hexadecimal digits.
    pub fn to_hex(&self) -> (hex: String)
        ensures
            hex@ == hex_of(self@),
            hex@.len() == 40,
    {
        object_id_hex(self)
    }

}

/// Kind of a Git object.
#[derive(Clone, Copy, Debug, PartialEq, Eq, Hash, Structural)]
pub enum ObjectKind {
    Blob,
    Tree,
    Commit,
    Tag,
}

/// A Git object identifier together with the object's kind and its size in
/// bytes before compression. Blobs live in a keyspace of their own, so a blob
/// can be located only through this richer form.
#[derive(Clone, Copy, Debug, PartialEq, Eq)]
pub struct RichGitObjectId {
    pub oid: GitObjectId,
    pub kind: ObjectKind,
    pub size: u64,
}

impl RichGitObjectId {
    /// The rich identifier of the object `oid`, of kind `kind` and `size` bytes.
    pub fn new(oid: GitObjectId, kind: ObjectKind, size: u64) -> (rich: Self)
        ensures
            rich.oid == oid,
            rich.kind == kind,
            rich.size == size,
    {
        RichGitObjectId { oid, kind, size }
    }

    /// The plain identifier of the same object.
    pub fn to_object_id(&self) -> (oid: GitObjectId)
        ensures
            oid == self.oid,
    {
        self.oid
    }
}

} // verus!
