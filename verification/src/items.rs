//! The items of a pack before their bytes are read: which object each stands
//! for, in which form it is sent, and in which order they go out.

use bytes::Bytes;
use crate::bookmark::name_is_tag;
use crate::buffer::bytes_contents;
use crate::buffer::concat_chunks;
use crate::buffer::concat_contents;
use crate::collections::BookmarkMap;
use crate::collections::bookmark_map_contents;
use crate::collections::bookmark_map_entries;
use crate::collections::bookmark_pairs;
use crate::collections::git_map_contents;
use crate::collections::git_map_get;
use crate::collections::lemma_pairs_map_contains;
use crate::collections::tag_map_contents;
use crate::collections::tag_map_get;
use crate::delta::GitDeltaManifestEntry;
use crate::delta::ObjectDelta;
use crate::delta::ObjectEntry;
use crate::delta::delta_base;
use crate::delta::spec_delta_base;
use crate::error::Error;
use crate::hash::ChangesetId;
use crate::hash::GitObjectId;
use crate::manifest::ManifestEntry;
use crate::manifest::TargetCommit;
use crate::provider::ObjectIdentifierType;
use crate::provider::ObjectIdentifierView;
use crate::provider::PackfileItem;
use crate::refs::git_map_of;
use crate::refs::tag_map_of;
use crate::repo::BonsaiTagMappingEntry;
use crate::repo::RepoSnapshot;
use crate::types::DeltaInclusion;
use crate::types::PackItemStreamRequest;
use crate::types::PackfileItemInclusion;
use vstd::prelude::*;

verus! {

/// How many commits have their trees and blobs prepared at a time.
pub const TREE_AND_BLOB_COMMIT_CONCURRENCY: usize = 500;

/// How many entries of one manifest are turned into items at a time.
pub const MANIFEST_ENTRY_CONCURRENCY: usize = 1000;

/// How many commit objects are turned into items at a time.
pub const COMMIT_CONCURRENCY: usize = 1000;

/// How many manifests are read at a time while objects are counted.
pub const OBJECT_COUNT_CONCURRENCY: usize = 1000;

/// How many tag objects are turned into items at a time.
pub const TAG_CONCURRENCY: usize = 500;

/// The key under which the chunks of a delta's instructions are stored: the
/// changeset and path of the object, and the changeset and path of its base.
#[derive(Clone, Debug, PartialEq, Eq)]
pub struct DeltaInstructionChunkIdPrefix {
    pub changeset_id: ChangesetId,
    pub path: Vec<u8>,
    pub origin: ChangesetId,
    pub origin_path: Vec<u8>,
}

/// An item of a pack whose bytes have not been read yet.
#[derive(Clone, Debug, PartialEq, Eq)]
pub enum PendingItem {
    /// The object goes out in base form, which the base item provider obtains
    /// under the policy `inclusion`.
    Base { id: ObjectIdentifierType, inclusion: PackfileItemInclusion },
    /// The object `oid`, at `path` in the changeset `changeset_id`, goes out
    /// as the delta `delta`.
    Delta { oid: GitObjectId, delta: ObjectDelta, changeset_id: ChangesetId, path: Vec<u8> },
}

/// A pending item as plain values.
pub enum PendingItemView {
    Base { id: ObjectIdentifierView, inclusion: PackfileItemInclusion },
    Delta {
        oid: Seq<u8>,
        base_oid: Seq<u8>,
        origin: Seq<u8>,
        chunk_count: u64,
        uncompressed_size: u64,
        compressed_size: u64,
        changeset_id: Seq<u8>,
        path: Seq<u8>,
    },
}

impl PendingItemView {
    /// The id of the object that the item stands for.
    pub open spec fn oid(self) -> Seq<u8> {
        match self {
            PendingItemView::Base { id, inclusion } => id.oid(),
            PendingItemView::Delta {
                oid,
                base_oid,
                origin,
                chunk_count,
                uncompressed_size,
                compressed_size,
                changeset_id,
                path,
            } => oid,
        }
    }
}

impl View for PendingItem {
    type V = PendingItemView;

    open spec fn view(&self) -> PendingItemView {
        match self {
            PendingItem::Base { id, inclusion } => PendingItemView::Base {
                id: id@,
                inclusion: *inclusion,
            },
            PendingItem::Delta { oid, delta, changeset_id, path } => PendingItemView::Delta {
                oid: oid@,
                base_oid: delta.base_oid@,
                origin: delta.origin@,
                chunk_count: delta.instructions_chunk_count,
                uncompressed_size: delta.instructions_uncompressed_size,
                compressed_size: delta.instructions_compressed_size,
                changeset_id: changeset_id@,
                path: path@,
            },
        }
    }
}

/// The plain values of each of `items`.
pub open spec fn item_views(items: Seq<PendingItem>) -> Seq<PendingItemView> {
    items.map_values(|item: PendingItem| item@)
}

impl PendingItem {
    /// The id of the object that the item stands for.
    pub fn oid(&self) -> (oid: GitObjectId)
        ensures
            oid@ == self@.oid(),
    {
        match self {
            PendingItem::Base { id, inclusion: _ } => id.to_object_id(),
            PendingItem::Delta { oid, delta: _, changeset_id: _, path: _ } => *oid,
        }
    }

    /// The key of the instruction chunks of a delta item: the object's own
    /// changeset and path, and the changeset of its base with the same path.
    /// `None` for an item in base form.
    pub fn chunk_id_prefix(&self) -> (r: Option<DeltaInstructionChunkIdPrefix>)
        ensures
            match *self {
                PendingItem::Base { id, inclusion } => r is None,
                PendingItem::Delta { oid, delta, changeset_id, path } => {
                    &&& r matches Some(prefix)
                    &&& prefix.changeset_id == changeset_id
                    &&& prefix.path@ == path@
                    &&& prefix.origin == delta.origin
                    &&& prefix.origin_path@ == path@
                },
            },
    {
        match self {
            PendingItem::Base { id: _, inclusion: _ } => None,
            PendingItem::Delta { oid: _, delta, changeset_id, path } => Some(
                DeltaInstructionChunkIdPrefix {
                    changeset_id: *changeset_id,
                    path: path.clone(),
                    origin: delta.origin,
                    origin_path: path.clone(),
                },
            ),
        }
    }
}

/// The item for the object of a manifest entry: a delta where the delta
/// chooser picks one, else the full object in base form under `inclusion`.
pub open spec fn spec_packfile_entry(
    delta_inclusion: DeltaInclusion,
    inclusion: PackfileItemInclusion,
    changeset_id: ChangesetId,
    path: Seq<u8>,
    full: ObjectEntry,
    deltas: Seq<ObjectDelta>,
) -> PendingItemView {
    match spec_delta_base(full, deltas, delta_inclusion) {
        Some(delta) => PendingItemView::Delta {
            oid: full.oid@,
            base_oid: delta.base_oid@,
            origin: delta.origin@,
            chunk_count: delta.instructions_chunk_count,
            uncompressed_size: delta.instructions_uncompressed_size,
            compressed_size: delta.instructions_compressed_size,
            changeset_id: changeset_id@,
            path: path,
        },
        None => PendingItemView::Base {
            id: ObjectIdentifierView::AllObjects { oid: full.oid@, kind: full.kind, size: full.size },
            inclusion,
        },
    }
}

/// The item for the object of `entry`, which the changeset `changeset_id`
/// introduces at `path`: the delta that the delta chooser picks under
/// `delta_inclusion`, or, where it picks none, the full object in base form,
/// identified with its kind and size.
pub fn packfile_entry(
    delta_inclusion: DeltaInclusion,
    packfile_item_inclusion: PackfileItemInclusion,
    changeset_id: ChangesetId,
    path: Vec<u8>,
    entry: GitDeltaManifestEntry,
) -> (item: PendingItem)
    ensures
        item@ == spec_packfile_entry(
            delta_inclusion,
            packfile_item_inclusion,
            changeset_id,
            path@,
            entry.full,
            entry.deltas@,
        ),
{
    let mut entry = entry;
    // Whether the object goes out as a delta or in full
    let delta = delta_base(&mut entry, delta_inclusion);
    match delta {
        Some(delta) => PendingItem::Delta { oid: entry.full.oid, delta, changeset_id, path },
        None => PendingItem::Base {
            id: ObjectIdentifierType::AllObjects(entry.full.as_rich_git_sha1()),
            inclusion: packfile_item_inclusion,
        },
    }
}

/// The packfile item of a delta, once the chunks of its instructions have
/// been read: the chunks in order, as one buffer.
///
/// Fails with `Error::UnexpectedAnswer` where `item` is no delta or the
/// chunks are not as many as the delta declares, and with
/// `Error::InstructionsTooLarge` where the declared compressed size or the
/// size of the chunks together is more than a buffer can hold.
pub fn delta_packfile_item(item: &PendingItem, chunks: &Vec<Bytes>) -> (r: Result<
    PackfileItem,
    Error,
>)
    ensures
        match *item {
            PendingItem::Base { id, inclusion } => r == Err::<PackfileItem, Error>(
                Error::UnexpectedAnswer,
            ),
            PendingItem::Delta { oid, delta, changeset_id, path } => {
                if chunks@.len() != delta.instructions_chunk_count {
                    r == Err::<PackfileItem, Error>(Error::UnexpectedAnswer)
                } else if delta.instructions_compressed_size > isize::MAX || concat_contents(
                    chunks@,
                ).len() > isize::MAX {
                    r == Err::<PackfileItem, Error>(Error::InstructionsTooLarge)
                } else {
                    &&& r matches Ok(
                        PackfileItem::Delta {
                            oid: target,
                            base_oid,
                            decompressed_size,
                            instructions,
                        },
                    )
                    &&& target == oid
                    &&& base_oid == delta.base_oid
                    &&& decompressed_size == delta.instructions_uncompressed_size
                    &&& bytes_contents(instructions) == concat_contents(chunks@)
                }
            },
        },
{
    match item {
        PendingItem::Base { id: _, inclusion: _ } => Err(Error::UnexpectedAnswer),
        PendingItem::Delta { oid, delta, changeset_id: _, path: _ } => {
            if chunks.len() as u64 != delta.instructions_chunk_count {
                return Err(Error::UnexpectedAnswer);
            }
            match concat_chunks(chunks, delta.instructions_compressed_size) {
                Err(e) => Err(e),
                Ok(instruction_bytes) => Ok(
                    PackfileItem::new_delta(
                        *oid,
                        delta.base_oid,
                        delta.instructions_uncompressed_size,
                        instruction_bytes,
                    ),
                ),
            }
        },
    }
}

/// The items for the trees and blobs of one commit: one for each entry of
/// its manifest, in manifest order.
pub open spec fn commit_items(
    delta_inclusion: DeltaInclusion,
    inclusion: PackfileItemInclusion,
    commit: TargetCommit,
) -> Seq<PendingItemView> {
    commit.manifest@.map_values(
        |e: ManifestEntry|
            spec_packfile_entry(
                delta_inclusion,
                inclusion,
                commit.changeset_id,
                e.path@,
                e.entry.full,
                e.entry.deltas@,
            ),
    )
}

/// The items for the trees and blobs of `commits`: those of each commit in
/// turn, each in manifest order.
pub open spec fn tree_and_blob_items(
    delta_inclusion: DeltaInclusion,
    inclusion: PackfileItemInclusion,
    commits: Seq<TargetCommit>,
) -> Seq<PendingItemView>
    decreases commits.len(),
{
    if commits.len() == 0 {
        Seq::empty()
    } else {
        tree_and_blob_items(delta_inclusion, inclusion, commits.drop_last()) + commit_items(
            delta_inclusion,
            inclusion,
            commits.last(),
        )
    }
}

/// Appends to `items` the items for the trees and blobs that `commit`
/// introduces, one for each entry of its manifest, in manifest order.
fn push_commit_items(
    items: &mut Vec<PendingItem>,
    delta_inclusion: DeltaInclusion,
    packfile_item_inclusion: PackfileItemInclusion,
    commit: &TargetCommit,
)
    ensures
        item_views(final(items)@) == item_views(old(items)@) + commit_items(
            delta_inclusion,
            packfile_item_inclusion,
            *commit,
        ),
{
    let ghost before = item_views(items@);
    let ghost wanted = commit_items(delta_inclusion, packfile_item_inclusion, *commit);
    let mut i: usize = 0;
    proof {
        assert(item_views(items@) =~= before + wanted.take(0));
    }
    while i < commit.manifest.len()
        invariant
            i <= commit.manifest.len(),
            wanted == commit_items(delta_inclusion, packfile_item_inclusion, *commit),
            item_views(items@) == before + wanted.take(i as int),
        decreases commit.manifest.len() - i,
    {
        let sub = &commit.manifest[i];
        let path = sub.path.clone();
        let deltas = sub.entry.deltas.clone();
        proof {
            assert(path@ =~= sub.path@);
            assert(deltas@ =~= sub.entry.deltas@);
        }
        let entry = GitDeltaManifestEntry { full: sub.entry.full, deltas };
        let item = packfile_entry(
            delta_inclusion,
            packfile_item_inclusion,
            commit.changeset_id,
            path,
            entry,
        );
        proof {
            assert(item@ == wanted[i as int]);
            assert(item_views(items@.push(item)) =~= item_views(items@).push(item@));
            assert(wanted.take(i as int + 1) =~= wanted.take(i as int).push(wanted[i as int]));
            assert((before + wanted.take(i as int)).push(item@) =~= before + wanted.take(
                i as int + 1,
            ));
        }
        items.push(item);
        i += 1;
    }
    proof {
        assert(wanted.take(i as int) =~= wanted);
    }
}

/// The items for the trees and blobs that `commit` introduces: one for each
/// entry of its manifest, as `packfile_entry` gives it, in manifest order.
pub fn blob_and_tree_packfile_items(
    delta_inclusion: DeltaInclusion,
    packfile_item_inclusion: PackfileItemInclusion,
    commit: &TargetCommit,
) -> (items: Vec<PendingItem>)
    ensures
        item_views(items@) == commit_items(delta_inclusion, packfile_item_inclusion, *commit),
{
    let mut items: Vec<PendingItem> = Vec::new();
    push_commit_items(&mut items, delta_inclusion, packfile_item_inclusion, commit);
    proof {
        let wanted = commit_items(delta_inclusion, packfile_item_inclusion, *commit);
        assert(Seq::<PendingItemView>::empty() + wanted =~= wanted);
        assert(item_views(Seq::<PendingItem>::empty()) =~= Seq::<PendingItemView>::empty());
    }
    items
}

/// The items for the trees and blobs of `target_commits`: the items of each
/// commit in the order of the commits, and within a commit in the order of
/// its manifest.
pub fn blob_and_tree_packfile_stream(
    target_commits: &Vec<TargetCommit>,
    delta_inclusion: DeltaInclusion,
    packfile_item_inclusion: PackfileItemInclusion,
) -> (items: Vec<PendingItem>)
    ensures
        item_views(items@) == tree_and_blob_items(
            delta_inclusion,
            packfile_item_inclusion,
            target_commits@,
        ),
{
    let mut items: Vec<PendingItem> = Vec::new();
    let mut i: usize = 0;
    proof {
        assert(item_views(items@) =~= tree_and_blob_items(
            delta_inclusion,
            packfile_item_inclusion,
            target_commits@.take(0),
        ));
    }
    while i < target_commits.len()
        invariant
            i <= target_commits.len(),
            item_views(items@) == tree_and_blob_items(
                delta_inclusion,
                packfile_item_inclusion,
                target_commits@.take(i as int),
            ),
        decreases target_commits.len() - i,
    {
        proof {
            assert(target_commits@.take(i as int + 1).drop_last() =~= target_commits@.take(
                i as int,
            ));
        }
        push_commit_items(
            &mut items,
            delta_inclusion,
            packfile_item_inclusion,
            &target_commits[i],
        );
        i += 1;
    }
    proof {
        assert(target_commits@.take(i as int) =~= target_commits@);
    }
    items
}

/// The item in base form for an object that is known not to be a blob.
pub open spec fn non_blob_item(oid: Seq<u8>, inclusion: PackfileItemInclusion) -> PendingItemView {
    PendingItemView::Base { id: ObjectIdentifierView::NonBlobObjects(oid), inclusion }
}

/// Whether every one of `commits` has a Git commit id in `git`.
pub open spec fn commits_mapped(git: Map<Seq<u8>, Seq<u8>>, commits: Seq<TargetCommit>) -> bool {
    forall|i: int| 0 <= i < commits.len() ==> git.contains_key((#[trigger] commits[i]).changeset_id@)
}

/// Whether `e` names the first of `commits` that has no Git commit in `git`.
pub open spec fn is_unmapped_commit_error(
    git: Map<Seq<u8>, Seq<u8>>,
    commits: Seq<TargetCommit>,
    e: Error,
) -> bool {
    exists|i: int|
        {
            &&& 0 <= i < commits.len()
            &&& !git.contains_key((#[trigger] commits[i]).changeset_id@)
            &&& commits_mapped(git, commits.take(i))
            &&& e == Error::MissingGitMapping(commits[i].changeset_id)
        }
}

/// The items for the commit objects of `commits`, in order.
pub open spec fn commit_object_items(
    git: Map<Seq<u8>, Seq<u8>>,
    commits: Seq<TargetCommit>,
    inclusion: PackfileItemInclusion,
) -> Seq<PendingItemView> {
    commits.map_values(|c: TargetCommit| non_blob_item(git[c.changeset_id@], inclusion))
}

/// The items for the commit objects of `target_commits`, in the order of the
/// commits: each the Git commit of its changeset, in base form.
///
/// Fails with `Error::MissingGitMapping`, for the first such commit, where
/// the bonsai-git mapping of `repo` has no Git commit for a changeset.
pub fn commit_packfile_stream(
    repo: &RepoSnapshot,
    target_commits: &Vec<TargetCommit>,
    packfile_item_inclusion: PackfileItemInclusion,
) -> (r: Result<Vec<PendingItem>, Error>)
    ensures
        r is Ok <==> commits_mapped(repo.git_map(), target_commits@),
        r matches Ok(items) ==> item_views(items@) == commit_object_items(
            repo.git_map(),
            target_commits@,
            packfile_item_inclusion,
        ),
        r matches Err(e) ==> is_unmapped_commit_error(repo.git_map(), target_commits@, e),
{
    let git = git_map_of(&repo.bonsai_git_mapping);
    let ghost wanted = commit_object_items(
        repo.git_map(),
        target_commits@,
        packfile_item_inclusion,
    );
    let mut items: Vec<PendingItem> = Vec::new();
    let mut i: usize = 0;
    proof {
        assert(item_views(items@) =~= wanted.take(0));
    }
    while i < target_commits.len()
        invariant
            i <= target_commits.len(),
            git_map_contents(git) == repo.git_map(),
            wanted == commit_object_items(repo.git_map(), target_commits@, packfile_item_inclusion),
            commits_mapped(repo.git_map(), target_commits@.take(i as int)),
            item_views(items@) == wanted.take(i as int),
        decreases target_commits.len() - i,
    {
        let changeset_id = target_commits[i].changeset_id;
        let git_objectid = match git_map_get(&git, &changeset_id) {
            None => {
                return Err(Error::MissingGitMapping(changeset_id));
            },
            Some(oid) => oid,
        };
        let item = PendingItem::Base {
            // A commit is never a blob
            id: ObjectIdentifierType::NonBlobObjects(git_objectid),
            inclusion: packfile_item_inclusion,
        };
        proof {
            assert(item@ == wanted[i as int]);
            assert(item_views(items@.push(item)) =~= item_views(items@).push(item@));
            assert(wanted.take(i as int + 1) =~= wanted.take(i as int).push(wanted[i as int]));
            assert forall|j: int| 0 <= j < i + 1 implies repo.git_map().contains_key(
                (#[trigger] target_commits@.take(i as int + 1)[j]).changeset_id@,
            ) by {
                if j < i {
                    assert(target_commits@.take(i as int)[j] == target_commits@[j]);
                }
            }
        }
        items.push(item);
        i += 1;
    }
    proof {
        assert(target_commits@.take(i as int) =~= target_commits@);
        assert(wanted.take(i as int) =~= wanted);
    }
    Ok(items)
}

/// The items for the tag objects of `tag_entries`, in order.
pub open spec fn tag_object_items(
    tag_entries: Seq<BonsaiTagMappingEntry>,
    inclusion: PackfileItemInclusion,
) -> Seq<PendingItemView> {
    tag_entries.map_values(|e: BonsaiTagMappingEntry| non_blob_item(e.tag_hash@, inclusion))
}

/// The items for the tag objects of `tag_entries`, in order: each tag object
/// in base form.
pub fn tag_entries_to_stream(
    tag_entries: &Vec<BonsaiTagMappingEntry>,
    packfile_item_inclusion: PackfileItemInclusion,
) -> (items: Vec<PendingItem>)
    ensures
        item_views(items@) == tag_object_items(tag_entries@, packfile_item_inclusion),
{
    let ghost wanted = tag_object_items(tag_entries@, packfile_item_inclusion);
    let mut items: Vec<PendingItem> = Vec::new();
    let mut i: usize = 0;
    proof {
        assert(item_views(items@) =~= wanted.take(0));
    }
    while i < tag_entries.len()
        invariant
            i <= tag_entries.len(),
            wanted == tag_object_items(tag_entries@, packfile_item_inclusion),
            item_views(items@) == wanted.take(i as int),
        decreases tag_entries.len() - i,
    {
        let item = PendingItem::Base {
            // A tag object is never a blob
            id: ObjectIdentifierType::NonBlobObjects(tag_entries[i].tag_hash),
            inclusion: packfile_item_inclusion,
        };
        proof {
            assert(item@ == wanted[i as int]);
            assert(item_views(items@.push(item)) =~= item_views(items@).push(item@));
            assert(wanted.take(i as int + 1) =~= wanted.take(i as int).push(wanted[i as int]));
        }
        items.push(item);
        i += 1;
    }
    proof {
        assert(wanted.take(i as int) =~= wanted);
    }
    items
}

/// The names of the bookmarks of `bookmarks` that are annotated tags: tags
/// that `tags` holds.
pub open spec fn annotated_tags(
    bookmarks: Map<Seq<char>, Seq<u8>>,
    tags: Map<Seq<char>, Seq<u8>>,
) -> Set<Seq<char>> {
    Set::new(
        |name: Seq<char>|
            bookmarks.contains_key(name) && name_is_tag(name) && tags.contains_key(name),
    )
}

/// Whether `names` lists each element of `set` once, and nothing else.
pub open spec fn enumerates(names: Seq<Seq<char>>, set: Set<Seq<char>>) -> bool {
    &&& names.no_duplicates()
    &&& forall|name: Seq<char>| names.contains(name) <==> set.contains(name)
}

/// The items for the tag objects of the tags `names`, in order.
pub open spec fn named_tag_items(
    names: Seq<Seq<char>>,
    tags: Map<Seq<char>, Seq<u8>>,
    inclusion: PackfileItemInclusion,
) -> Seq<PendingItemView> {
    names.map_values(|name: Seq<char>| non_blob_item(tags[name], inclusion))
}

/// The items for the tag objects that go with the bookmarks `bookmarks`, and
/// their number: one item, in base form under the policy of `request`, for
/// each bookmark that is a tag and has a tag object in the bonsai-tag mapping
/// of `repo`. A simple tag has no object of its own and gets no item. The
/// order of the items is not fixed.
pub fn tag_packfile_stream(
    repo: &RepoSnapshot,
    bookmarks: &BookmarkMap,
    request: &PackItemStreamRequest,
) -> (r: (Vec<PendingItem>, usize))
    ensures
        r.1 == r.0@.len(),
        exists|names: Seq<Seq<char>>|
            {
                &&& enumerates(
                    names,
                    annotated_tags(bookmark_map_contents(*bookmarks), repo.tag_map()),
                )
                &&& #[trigger] named_tag_items(
                    names,
                    repo.tag_map(),
                    request.packfile_item_inclusion,
                ) == item_views(r.0@)
            },
{
    let inclusion = request.packfile_item_inclusion;
    let entries = bookmark_map_entries(bookmarks);
    let tag_map = tag_map_of(&repo.bonsai_tag_mapping);
    let ghost all = bookmark_map_contents(*bookmarks);
    let ghost tags = repo.tag_map();
    let ghost mut names: Seq<Seq<char>> = Seq::empty();
    let ghost mut origin: Seq<int> = Seq::empty();
    let mut annotated: Vec<BonsaiTagMappingEntry> = Vec::new();
    let mut i: usize = 0;
    while i < entries.len()
        invariant
            i <= entries.len(),
            tag_map_contents(tag_map) == tags,
            names.len() == annotated@.len(),
            names.len() == origin.len(),
            forall|k: int|
                0 <= k < origin.len() ==> {
                    &&& 0 <= (#[trigger] origin[k]) < i
                    &&& names[k] == entries@[origin[k]].0@
                    &&& annotated@[k].tag_hash@ == tags[names[k]]
                    &&& name_is_tag(names[k])
                    &&& tags.contains_key(names[k])
                },
            forall|a: int, b: int|
                0 <= a < b < origin.len() ==> (#[trigger] origin[a]) < (#[trigger] origin[b]),
            forall|j: int|
                0 <= j < i && name_is_tag((#[trigger] entries@[j]).0@) && tags.contains_key(
                    entries@[j].0@,
                ) ==> exists|k: int| 0 <= k < origin.len() && #[trigger] origin[k] == j,
        decreases entries.len() - i,
    {
        let bookmark = &entries[i].0;
        // A tag without a row in the mapping is a simple tag: it has no object
        // of its own. With a row, its tag object goes into the pack
        let found = if bookmark.is_tag() {
            tag_map_get(&tag_map, bookmark.name())
        } else {
            None
        };
        match found {
            Some(tag_hash) => {
                proof {
                    let grown = origin.push(i as int);
                    assert forall|j: int|
                        0 <= j < i + 1 && name_is_tag((#[trigger] entries@[j]).0@)
                            && tags.contains_key(entries@[j].0@) implies exists|k: int|
                        0 <= k < grown.len() && #[trigger] grown[k] == j by {
                        if j < i {
                            let k = choose|k: int| 0 <= k < origin.len() && #[trigger] origin[k] == j;
                            assert(grown[k] == j);
                        } else {
                            assert(grown[origin.len() as int] == j);
                        }
                    }
                    names = names.push(bookmark@);
                    origin = grown;
                }
                annotated.push(
                    BonsaiTagMappingEntry { tag_name: bookmark.name().to_owned(), tag_hash },
                );
            },
            None => {},
        }
        i += 1;
    }
    let tags_count = annotated.len();
    let tag_stream = tag_entries_to_stream(&annotated, inclusion);
    proof {
        let set = annotated_tags(all, tags);
        let pairs = bookmark_pairs(entries@);
        assert forall|a: int, b: int| 0 <= a < b < names.len() implies names[a] != names[b] by {
            assert(origin[a] < origin[b]);
            assert(entries@[origin[a]].0@ != entries@[origin[b]].0@);
        }
        assert forall|n: Seq<char>| names.contains(n) <==> set.contains(n) by {
            lemma_pairs_map_contains(pairs, n);
            if names.contains(n) {
                let k = choose|k: int| 0 <= k < names.len() && names[k] == n;
                let j = origin[k];
                assert(pairs[j].0 == n);
            }
            if set.contains(n) {
                let j = choose|j: int| 0 <= j < pairs.len() && (#[trigger] pairs[j]).0 == n;
                assert(entries@[j].0@ == n);
                let k = choose|k: int| 0 <= k < origin.len() && #[trigger] origin[k] == j;
                assert(names[k] == n);
            }
        }
        let wanted = named_tag_items(names, tags, inclusion);
        assert(wanted.len() == item_views(tag_stream@).len());
        assert forall|k: int| 0 <= k < wanted.len() implies wanted[k] == item_views(
            tag_stream@,
        )[k] by {
            assert(0 <= origin[k]);
            assert(item_views(tag_stream@)[k] == tag_object_items(annotated@, inclusion)[k]);
        }
        assert(wanted =~= item_views(tag_stream@));
    }
    (tag_stream, tags_count)
}

/// The items for all annotated tags of `repo`, in the order of its bonsai-tag
/// mapping, under the policy `FetchAndStore`, and their number.
pub fn all_tags_packfile_stream(repo: &RepoSnapshot) -> (r: (Vec<PendingItem>, usize))
    ensures
        item_views(r.0@) == tag_object_items(
            repo.bonsai_tag_mapping@,
            PackfileItemInclusion::FetchAndStore,
        ),
        r.1 == repo.bonsai_tag_mapping@.len(),
{
    let tags_count = repo.bonsai_tag_mapping.len();
    let tag_stream = tag_entries_to_stream(
        &repo.bonsai_tag_mapping,
        PackfileItemInclusion::FetchAndStore,
    );
    (tag_stream, tags_count)
}

/// The items of a pack: tag objects, then commit objects, then trees and
/// blobs.
pub open spec fn pack_items(
    tag_items: Seq<PendingItemView>,
    git: Map<Seq<u8>, Seq<u8>>,
    commits: Seq<TargetCommit>,
    delta_inclusion: DeltaInclusion,
    inclusion: PackfileItemInclusion,
) -> Seq<PendingItemView> {
    tag_items + commit_object_items(git, commits, inclusion) + tree_and_blob_items(
        delta_inclusion,
        inclusion,
        commits,
    )
}

} // verus!
