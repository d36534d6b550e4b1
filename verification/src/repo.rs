//! What a repository holds at one moment, as far as ref resolution and pack
//! generation read it: bookmarks, the two mappings, and symbolic refs.

use crate::bookmark::BookmarkKey;
use crate::collections::bookmark_pairs;
use crate::collections::pairs_map;
use crate::hash::ChangesetId;
use crate::hash::GitObjectId;
use crate::text::join;
use vstd::prelude::*;

verus! {

/// One row of the bonsai-git mapping: a changeset and the Git commit that
/// stands for it.
#[derive(Clone, Copy, Debug, PartialEq, Eq)]
pub struct BonsaiGitMappingEntry {
    pub bcs_id: ChangesetId,
    pub git_sha1: GitObjectId,
}

/// One row of the bonsai-tag mapping: the name of an annotated tag, as its
/// bookmark is named, and the tag object.
#[derive(Clone, Debug, PartialEq, Eq)]
pub struct BonsaiTagMappingEntry {
    pub tag_name: String,
    pub tag_hash: GitObjectId,
}

/// Whether a symref stands for a branch or for a tag.
#[derive(Clone, Copy, Debug, PartialEq, Eq, Structural)]
pub enum RefType {
    Branch,
    Tag,
}

/// A symbolic ref: a name, such as `HEAD`, that stands for another ref.
#[derive(Clone, Debug, PartialEq, Eq)]
pub struct GitSymbolicRefsEntry {
    pub symref_name: String,
    pub ref_name: String,
    pub ref_type: RefType,
}

/// The prefix of the full name of a branch.
pub open spec fn heads_ref_prefix() -> Seq<char> {
    "refs/heads/"@
}

/// The prefix of the full name of a tag.
pub open spec fn tags_ref_prefix() -> Seq<char> {
    "refs/tags/"@
}

impl GitSymbolicRefsEntry {
    /// The full name of the ref that the symref stands for.
    pub open spec fn spec_ref_name_with_type(&self) -> Seq<char> {
        match self.ref_type {
            RefType::Branch => heads_ref_prefix() + self.ref_name@,
            RefType::Tag => tags_ref_prefix() + self.ref_name@,
        }
    }

    /// The full name of the ref that the symref stands for: `refs/heads/` or
    /// `refs/tags/`, by its type, and the ref's own name.
    pub fn ref_name_with_type(&self) -> (name: String)
        ensures
            name@ == self.spec_ref_name_with_type(),
    {
        match self.ref_type {
            RefType::Branch => join("refs/heads/", self.ref_name.as_str()),
            RefType::Tag => join("refs/tags/", self.ref_name.as_str()),
        }
    }
}

/// The state of a repository at one moment.
#[derive(Clone, Debug, PartialEq, Eq)]
pub struct RepoSnapshot {
    /// Every publishing bookmark with the changeset it is at. Where a name
    /// is listed more than once, its last changeset counts.
    pub bookmarks: Vec<(BookmarkKey, ChangesetId)>,
    /// The bonsai-git mapping. Where a changeset has more than one row, its
    /// last row counts.
    pub bonsai_git_mapping: Vec<BonsaiGitMappingEntry>,
    /// The bonsai-tag mapping: the annotated tags. Where a tag has more than
    /// one row, its last row counts.
    pub bonsai_tag_mapping: Vec<BonsaiTagMappingEntry>,
    /// The symbolic refs. Where a symref is looked up by name, its first row
    /// counts.
    pub symbolic_refs: Vec<GitSymbolicRefsEntry>,
}

/// The rows of the bonsai-git mapping as plain values.
pub open spec fn git_pairs(entries: Seq<BonsaiGitMappingEntry>) -> Seq<(Seq<u8>, Seq<u8>)> {
    entries.map_values(|e: BonsaiGitMappingEntry| (e.bcs_id@, e.git_sha1@))
}

/// The rows of the bonsai-tag mapping as plain values.
pub open spec fn tag_pairs(entries: Seq<BonsaiTagMappingEntry>) -> Seq<(Seq<char>, Seq<u8>)> {
    entries.map_values(|e: BonsaiTagMappingEntry| (e.tag_name@, e.tag_hash@))
}

/// A copy of a listing of bookmarks.
pub fn duplicate_bookmarks(listing: &Vec<(BookmarkKey, ChangesetId)>) -> (r: Vec<
    (BookmarkKey, ChangesetId),
>)
    ensures
        r@ == listing@,
{
    let mut r: Vec<(BookmarkKey, ChangesetId)> = Vec::new();
    let mut i: usize = 0;
    while i < listing.len()
        invariant
            i <= listing.len(),
            r@ == listing@.take(i as int),
        decreases listing.len() - i,
    {
        proof {
            assert(listing@.take(i as int + 1) =~= listing@.take(i as int).push(listing@[i as int]));
        }
        r.push((listing[i].0.duplicate(), listing[i].1));
        i += 1;
    }
    proof {
        assert(listing@.take(i as int) =~= listing@);
    }
    r
}

/// A copy of the rows of a bonsai-git mapping.
pub fn duplicate_git_mapping(entries: &Vec<BonsaiGitMappingEntry>) -> (r: Vec<
    BonsaiGitMappingEntry,
>)
    ensures
        r@ == entries@,
{
    let mut r: Vec<BonsaiGitMappingEntry> = Vec::new();
    let mut i: usize = 0;
    while i < entries.len()
        invariant
            i <= entries.len(),
            r@ == entries@.take(i as int),
        decreases entries.len() - i,
    {
        proof {
            assert(entries@.take(i as int + 1) =~= entries@.take(i as int).push(entries@[i as int]));
        }
        r.push(entries[i]);
        i += 1;
    }
    proof {
        assert(entries@.take(i as int) =~= entries@);
    }
    r
}

/// A copy of the rows of a bonsai-tag mapping.
pub fn duplicate_tag_mapping(entries: &Vec<BonsaiTagMappingEntry>) -> (r: Vec<
    BonsaiTagMappingEntry,
>)
    ensures
        r@ == entries@,
{
    let mut r: Vec<BonsaiTagMappingEntry> = Vec::new();
    let mut i: usize = 0;
    while i < entries.len()
        invariant
            i <= entries.len(),
            r@ == entries@.take(i as int),
        decreases entries.len() - i,
    {
        proof {
            assert(entries@.take(i as int + 1) =~= entries@.take(i as int).push(entries@[i as int]));
        }
        r.push(
            BonsaiTagMappingEntry {
                tag_name: entries[i].tag_name.clone(),
                tag_hash: entries[i].tag_hash,
            },
        );
        i += 1;
    }
    proof {
        assert(entries@.take(i as int) =~= entries@);
    }
    r
}

/// A copy of a list of symbolic refs.
pub fn duplicate_symbolic_refs(entries: &Vec<GitSymbolicRefsEntry>) -> (r: Vec<
    GitSymbolicRefsEntry,
>)
    ensures
        r@ == entries@,
{
    let mut r: Vec<GitSymbolicRefsEntry> = Vec::new();
    let mut i: usize = 0;
    while i < entries.len()
        invariant
            i <= entries.len(),
            r@ == entries@.take(i as int),
        decreases entries.len() - i,
    {
        proof {
            assert(entries@.take(i as int + 1) =~= entries@.take(i as int).push(entries@[i as int]));
        }
        r.push(
            GitSymbolicRefsEntry {
                symref_name: entries[i].symref_name.clone(),
                ref_name: entries[i].ref_name.clone(),
                ref_type: entries[i].ref_type,
            },
        );
        i += 1;
    }
    proof {
        assert(entries@.take(i as int) =~= entries@);
    }
    r
}

impl RepoSnapshot {
    /// The changeset of each publishing bookmark, by the bookmark's name.
    pub open spec fn bookmark_map(&self) -> Map<Seq<char>, Seq<u8>> {
        pairs_map(bookmark_pairs(self.bookmarks@))
    }

    /// The Git commit id of each mapped changeset.
    pub open spec fn git_map(&self) -> Map<Seq<u8>, Seq<u8>> {
        pairs_map(git_pairs(self.bonsai_git_mapping@))
    }

    /// The tag object of each annotated tag, by the tag's name.
    pub open spec fn tag_map(&self) -> Map<Seq<char>, Seq<u8>> {
        pairs_map(tag_pairs(self.bonsai_tag_mapping@))
    }
}

} // verus!
