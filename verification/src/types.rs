//! Requests, responses, and the settings that steer ref resolution and pack
//! generation.

use crate::collections::RefMap;
use crate::hash::ChangesetId;
use crate::hash::GitObjectId;
use crate::items::PendingItem;
use crate::text::join;
use vstd::prelude::*;

verus! {

/// What a ref points at, as plain values.
pub enum RefTargetView {
    Plain(Seq<u8>),
    WithMetadata(Seq<u8>, Seq<char>),
}

impl RefTargetView {
    /// The object id that the ref points at.
    pub open spec fn id(self) -> Seq<u8> {
        match self {
            RefTargetView::Plain(oid) => oid,
            RefTargetView::WithMetadata(oid, _) => oid,
        }
    }
}

/// What a ref points at.
#[derive(Clone, Debug, PartialEq, Eq, Hash)]
pub enum RefTarget {
    /// The object with this id.
    Plain(GitObjectId),
    /// The object with this id; the text says more about the ref: the commit
    /// that a tag peels to, or the ref that a symref stands for.
    WithMetadata(GitObjectId, String),
}

impl View for RefTarget {
    type V = RefTargetView;

    open spec fn view(&self) -> RefTargetView {
        match self {
            RefTarget::Plain(oid) => RefTargetView::Plain(oid@),
            RefTarget::WithMetadata(oid, metadata) => RefTargetView::WithMetadata(oid@, metadata@),
        }
    }
}

impl RefTarget {
    /// A target that points at the same object with the same metadata.
    pub fn duplicate(&self) -> (r: RefTarget)
        ensures
            r@ == self@,
    {
        match self {
            RefTarget::Plain(oid) => RefTarget::Plain(*oid),
            RefTarget::WithMetadata(oid, metadata) => RefTarget::WithMetadata(
                *oid,
                metadata.clone(),
            ),
        }
    }

    /// The object id that the ref points at.
    pub fn id(&self) -> (oid: GitObjectId)
        ensures
            oid@ == self@.id(),
    {
        match self {
            RefTarget::Plain(oid) => *oid,
            RefTarget::WithMetadata(oid, _) => *oid,
        }
    }
}

/// The text before the commit id in the metadata of a tag that is listed with
/// the commit it peels to.
pub open spec fn peeled_prefix() -> Seq<char> {
    "peeled:"@
}

/// The text before the ref name in the metadata of a symref that is listed
/// with the ref it stands for.
pub open spec fn symref_target_prefix() -> Seq<char> {
    "symref-target:"@
}

/// Metadata of a tag that peels to the commit `commit`: `peeled:` and the
/// commit's id in lowercase hexadecimal.
pub open spec fn peeled_metadata(commit: Seq<u8>) -> Seq<char> {
    peeled_prefix() + crate::hash::hex_of(commit)
}

/// Metadata of a symref that stands for the ref `ref_name`: `symref-target:`
/// and that name.
pub open spec fn symref_metadata(ref_name: Seq<char>) -> Seq<char> {
    symref_target_prefix() + ref_name
}

/// Which refs a request selects.
#[derive(Clone, Debug, PartialEq, Eq)]
pub enum RequestedRefs {
    /// The bookmarks with one of these names.
    Included(Vec<String>),
    /// The bookmarks whose ref name, `refs/` and the bookmark's name, begins
    /// with one of these prefixes.
    IncludedWithPrefix(Vec<String>),
    /// The bookmarks with none of these names.
    Excluded(Vec<String>),
    /// The bookmarks with these names, each at the changeset given with it,
    /// whether or not the repository knows the name. Where a name occurs more
    /// than once, its last changeset counts.
    IncludedWithValue(Vec<(String, ChangesetId)>),
}

impl RequestedRefs {
    /// The request that selects every bookmark.
    pub fn all() -> (r: Self)
        ensures
            r matches RequestedRefs::Excluded(names) && names@.len() == 0,
    {
        RequestedRefs::Excluded(Vec::new())
    }
}

/// How a symref is listed.
#[derive(Clone, Copy, Debug, PartialEq, Eq, Structural)]
pub enum SymrefFormat {
    /// As an ordinary ref at the commit that the symref resolves to.
    NameOnly,
    /// At that commit, with the name of the ref it stands for as metadata.
    NameWithTarget,
}

/// Which symrefs a request selects.
#[derive(Clone, Copy, Debug, PartialEq, Eq, Structural)]
pub enum RequestedSymrefs {
    /// `HEAD` alone.
    IncludeHead(SymrefFormat),
    /// Every symref of the repository.
    IncludeAll(SymrefFormat),
    /// None.
    ExcludeAll,
}

/// How an annotated tag is listed.
#[derive(Clone, Copy, Debug, PartialEq, Eq, Structural)]
pub enum TagInclusion {
    /// At the commit that the tag peels to.
    Peeled,
    /// At the tag object, with the commit it peels to as metadata.
    WithTarget,
    /// At the tag object.
    AsIs,
}

/// A ratio of two whole numbers, `numerator / denominator`.
#[derive(Clone, Copy, Debug, PartialEq, Eq, Structural)]
pub struct Ratio {
    pub numerator: u64,
    pub denominator: u64,
}

/// Whether objects may be sent as deltas.
#[derive(Clone, Copy, Debug, PartialEq, Eq, Structural)]
pub enum DeltaInclusion {
    /// A delta is sent where its compressed instructions are smaller than
    /// the full object's size times the threshold, a ratio above 0 and at
    /// most 1.
    Include { inclusion_threshold: Ratio },
    /// Every object is sent in full.
    Exclude,
}

impl DeltaInclusion {
    /// The setting for an ordinary fetch: deltas below three fifths of the
    /// full object's size.
    pub open spec fn spec_standard() -> Self {
        DeltaInclusion::Include { inclusion_threshold: Ratio { numerator: 3, denominator: 5 } }
    }

    /// The setting for an ordinary fetch: deltas below three fifths of the
    /// full object's size.
    #[verifier::when_used_as_spec(spec_standard)]
    pub fn standard() -> (r: Self)
        ensures
            r == Self::spec_standard(),
    {
        DeltaInclusion::Include { inclusion_threshold: Ratio { numerator: 3, denominator: 5 } }
    }
}

/// How the packfile item of an object that is emitted as a base is obtained.
#[derive(Clone, Copy, Debug, PartialEq, Eq, Structural)]
pub enum PackfileItemInclusion {
    /// Build the item from the object's raw bytes.
    Generate,
    /// Use the stored, already encoded item; fail if there is none.
    FetchOnly,
    /// Use the stored item; if there is none, build it, store it, and use it.
    FetchAndStore,
}

/// What the client asks to be listed: refs, symrefs, and the form of tags.
#[derive(Clone, Debug, PartialEq, Eq)]
pub struct LsRefsRequest {
    pub requested_refs: RequestedRefs,
    pub requested_symrefs: RequestedSymrefs,
    pub tag_inclusion: TagInclusion,
}

/// The refs of the repository that the client asked for, by name.
#[derive(Clone, Debug, PartialEq, Eq)]
pub struct LsRefsResponse {
    pub refs: RefMap,
}

impl LsRefsResponse {
    /// The response that lists `refs`.
    pub fn new(refs: RefMap) -> (r: Self)
        ensures
            r.refs == refs,
    {
        LsRefsResponse { refs }
    }
}

/// What a pack is asked to hold: everything that the selected refs reach
/// and the commits of `have_heads` do not.
#[derive(Clone, Debug, PartialEq, Eq)]
pub struct PackItemStreamRequest {
    pub requested_symrefs: RequestedSymrefs,
    pub requested_refs: RequestedRefs,
    pub have_heads: Vec<ChangesetId>,
    pub delta_inclusion: DeltaInclusion,
    pub tag_inclusion: TagInclusion,
    pub packfile_item_inclusion: PackfileItemInclusion,
}

/// The items of a pack in the order in which they go out, how many objects
/// the pack declares, and the refs that it was made for.
#[derive(Clone, Debug, PartialEq, Eq)]
pub struct PackItemStreamResponse {
    pub stream: Vec<PendingItem>,
    pub object_count: usize,
    pub refs: RefMap,
}

impl PackItemStreamResponse {
    /// The response with these items, this count and these refs.
    pub fn new(stream: Vec<PendingItem>, object_count: usize, refs: RefMap) -> (r: Self)
        ensures
            r.stream == stream,
            r.object_count == object_count,
            r.refs == refs,
    {
        PackItemStreamResponse { stream, object_count, refs }
    }
}

/// What a fetch asks for: what the Git objects `heads` reach and the Git
/// objects `bases` do not.
#[derive(Clone, Debug, PartialEq, Eq)]
pub struct FetchRequest {
    pub heads: Vec<GitObjectId>,
    pub bases: Vec<GitObjectId>,
}

/// The items of the pack that answers a fetch, in the order in which they go
/// out, and how many objects the pack declares.
#[derive(Clone, Debug, PartialEq, Eq)]
pub struct FetchResponse {
    pub stream: Vec<PendingItem>,
    pub object_count: usize,
}

impl FetchResponse {
    /// The response with these items and this count.
    pub fn new(stream: Vec<PendingItem>, object_count: usize) -> (r: Self)
        ensures
            r.stream == stream,
            r.object_count == object_count,
    {
        FetchResponse { stream, object_count }
    }
}

/// The target of a symref that stands for the ref `ref_name`, which is at the
/// commit `commit`.
pub open spec fn spec_symref_target(
    ref_name: Seq<char>,
    commit: Seq<u8>,
    format: SymrefFormat,
) -> RefTargetView {
    match format {
        SymrefFormat::NameWithTarget => RefTargetView::WithMetadata(
            commit,
            symref_metadata(ref_name),
        ),
        SymrefFormat::NameOnly => RefTargetView::Plain(commit),
    }
}

/// The target of a symref that stands for the ref `ref_name`, which is at
/// the commit `commit_id`: the commit alone, or the commit with
/// `symref-target:` and the ref's name as metadata.
pub fn symref_target(ref_name: &str, commit_id: GitObjectId, symref_format: SymrefFormat) -> (r:
    RefTarget)
    ensures
        r@ == spec_symref_target(ref_name@, commit_id@, symref_format),
{
    match symref_format {
        SymrefFormat::NameWithTarget => {
            let metadata = join("symref-target:", ref_name);
            RefTarget::WithMetadata(commit_id, metadata)
        },
        SymrefFormat::NameOnly => RefTarget::Plain(commit_id),
    }
}

} // verus!
