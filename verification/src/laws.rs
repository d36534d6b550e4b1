//! What holds of the handlers on every repository and request.

use crate::bookmark::name_is_tag;
use crate::bookmark::ref_name_of;
use crate::collections::ref_map_contents;
use crate::delta::ObjectDelta;
use crate::delta::lemma_smallest_index;
use crate::delta::smallest_index;
use crate::delta::spec_below_threshold;
use crate::delta::spec_delta_base;
use crate::error::Error;
use crate::hash::hex_of;
use crate::items::PendingItemView;
use crate::items::annotated_tags;
use crate::items::commit_items;
use crate::items::commit_object_items;
use crate::items::enumerates;
use crate::items::item_views;
use crate::items::named_tag_items;
use crate::items::pack_items;
use crate::items::tag_object_items;
use crate::items::tree_and_blob_items;
use crate::manifest::TargetCommit;
use crate::manifest::manifest_oids;
use crate::pack::fetch_result;
use crate::pack::lemma_tree_and_blob_items_len;
use crate::pack::ls_refs_result;
use crate::pack::pack_stream_result;
use crate::pack::spec_resolve_refs;
use crate::refs::first_symref_named;
use crate::refs::head_ref;
use crate::refs::lemma_bookmark_of_ref;
use crate::refs::spec_bookmarks;
use crate::refs::spec_include_symrefs;
use crate::refs::spec_ref_target;
use crate::refs::spec_refs_to_include;
use crate::refs::symref_additions;
use crate::repo::BonsaiTagMappingEntry;
use crate::repo::GitSymbolicRefsEntry;
use crate::repo::RepoSnapshot;
use crate::types::DeltaInclusion;
use crate::types::FetchResponse;
use crate::types::LsRefsRequest;
use crate::types::LsRefsResponse;
use crate::types::PackItemStreamRequest;
use crate::types::PackItemStreamResponse;
use crate::types::PackfileItemInclusion;
use crate::types::RefTargetView;
use crate::types::RequestedRefs;
use crate::types::RequestedSymrefs;
use crate::types::SymrefFormat;
use crate::types::TagInclusion;
use crate::types::peeled_prefix;
use vstd::prelude::*;

verus! {

/// The refs that a listing names are the refs that a pack is made for: where
/// a request for the refs and a request for a pack select the same refs and
/// symrefs and list tags alike, the two answers hold the same refs.
pub proof fn law_listed_refs_are_pack_refs(
    repo: RepoSnapshot,
    ancestors_difference: Seq<TargetCommit>,
    listing: LsRefsRequest,
    pack: PackItemStreamRequest,
    listed: LsRefsResponse,
    packed: PackItemStreamResponse,
)
    requires
        listing.requested_refs == pack.requested_refs,
        listing.requested_symrefs == pack.requested_symrefs,
        listing.tag_inclusion == pack.tag_inclusion,
        ls_refs_result(repo, listing, Ok(listed)),
        pack_stream_result(repo, ancestors_difference, pack, Ok(packed)),
    ensures
        ref_map_contents(listed.refs) == ref_map_contents(packed.refs),
{
}

/// A listing fails exactly where a pack for the same refs cannot name its
/// refs either.
pub proof fn law_listing_fails_with_pack(
    repo: RepoSnapshot,
    ancestors_difference: Seq<TargetCommit>,
    listing: LsRefsRequest,
    pack: PackItemStreamRequest,
    listed: Result<LsRefsResponse, Error>,
    packed: Result<PackItemStreamResponse, Error>,
)
    requires
        listing.requested_refs == pack.requested_refs,
        listing.requested_symrefs == pack.requested_symrefs,
        listing.tag_inclusion == pack.tag_inclusion,
        ls_refs_result(repo, listing, listed),
        pack_stream_result(repo, ancestors_difference, pack, packed),
    ensures
        listed is Err ==> packed is Err,
        packed is Ok ==> listed is Ok,
{
}

/// A pack yields as many items as it declares objects exactly if its
/// manifests name no object twice: an object that two entries name is sent
/// with each of them and counted once.
pub proof fn law_pack_object_count(
    repo: RepoSnapshot,
    ancestors_difference: Seq<TargetCommit>,
    request: PackItemStreamRequest,
    response: PackItemStreamResponse,
)
    requires
        pack_stream_result(repo, ancestors_difference, request, Ok(response)),
    ensures
        response.stream@.len() == response.object_count <==> manifest_oids(
            ancestors_difference.reverse(),
        ).no_duplicates(),
{
    let commits = ancestors_difference.reverse();
    lemma_tree_and_blob_items_len(
        request.delta_inclusion,
        request.packfile_item_inclusion,
        commits,
    );
    assert(item_views(response.stream@).len() == response.stream@.len());
    if manifest_oids(commits).no_duplicates() {
        manifest_oids(commits).unique_seq_to_set();
    }
    if response.stream@.len() == response.object_count {
        manifest_oids(commits).lemma_no_dup_set_cardinality();
    }
}

/// The pack that answers a fetch yields as many items as it declares objects
/// exactly if its manifests name no object twice.
pub proof fn law_fetch_object_count(
    repo: RepoSnapshot,
    ancestors_difference: Seq<TargetCommit>,
    response: FetchResponse,
)
    requires
        fetch_result(repo, ancestors_difference, Ok(response)),
    ensures
        response.stream@.len() == response.object_count <==> manifest_oids(
            ancestors_difference.reverse(),
        ).no_duplicates(),
{
    let commits = ancestors_difference.reverse();
    lemma_tree_and_blob_items_len(
        DeltaInclusion::standard(),
        PackfileItemInclusion::FetchAndStore,
        commits,
    );
    assert(item_views(response.stream@).len() == response.stream@.len());
    if manifest_oids(commits).no_duplicates() {
        manifest_oids(commits).unique_seq_to_set();
    }
    if response.stream@.len() == response.object_count {
        manifest_oids(commits).lemma_no_dup_set_cardinality();
    }
}

/// A pack never declares more objects than it yields items.
pub proof fn law_pack_object_count_at_most_items(
    repo: RepoSnapshot,
    ancestors_difference: Seq<TargetCommit>,
    request: PackItemStreamRequest,
    response: PackItemStreamResponse,
)
    requires
        pack_stream_result(repo, ancestors_difference, request, Ok(response)),
    ensures
        response.object_count <= response.stream@.len(),
{
    let commits = ancestors_difference.reverse();
    lemma_tree_and_blob_items_len(
        request.delta_inclusion,
        request.packfile_item_inclusion,
        commits,
    );
    manifest_oids(commits).lemma_cardinality_of_set();
    assert(item_views(response.stream@).len() == response.stream@.len());
}

/// Where among the trees and blobs of a pack the object of entry `entry` of
/// the manifest of commit `commit` stands: after the objects of all earlier
/// commits and of the earlier entries of its own manifest.
pub open spec fn object_position(commits: Seq<TargetCommit>, commit: int, entry: int) -> int {
    manifest_oids(commits.take(commit)).len() + entry
}

/// Whether `entry` is an entry of the manifest of commit `commit`.
pub open spec fn is_entry(commits: Seq<TargetCommit>, commit: int, entry: int) -> bool {
    0 <= commit < commits.len() && 0 <= entry < commits[commit].manifest@.len()
}

/// The object of an entry stands at its position, as the item that
/// `packfile_entry` makes of it.
pub proof fn lemma_object_at_position(
    delta_inclusion: DeltaInclusion,
    inclusion: PackfileItemInclusion,
    commits: Seq<TargetCommit>,
    commit: int,
    entry: int,
)
    requires
        is_entry(commits, commit, entry),
    ensures
        0 <= object_position(commits, commit, entry) < manifest_oids(commits).len(),
        tree_and_blob_items(delta_inclusion, inclusion, commits).len() == manifest_oids(
            commits,
        ).len(),
        manifest_oids(commits)[object_position(commits, commit, entry)]
            == commits[commit].manifest@[entry].entry.full.oid@,
        tree_and_blob_items(delta_inclusion, inclusion, commits)[object_position(
            commits,
            commit,
            entry,
        )] == commit_items(delta_inclusion, inclusion, commits[commit])[entry],
    decreases commits.len(),
{
    lemma_tree_and_blob_items_len(delta_inclusion, inclusion, commits);
    let front = commits.drop_last();
    lemma_tree_and_blob_items_len(delta_inclusion, inclusion, front);
    if commit == commits.len() - 1 {
        assert(commits.take(commit) =~= front);
    } else {
        lemma_object_at_position(delta_inclusion, inclusion, front, commit, entry);
        assert(front.take(commit) =~= commits.take(commit));
        assert(front[commit] == commits[commit]);
    }
}

/// The objects of an earlier commit all stand before those of a later one.
pub proof fn lemma_positions_ordered(commits: Seq<TargetCommit>, earlier: int, later: int)
    requires
        0 <= earlier < later <= commits.len(),
    ensures
        manifest_oids(commits.take(earlier)).len() + commits[earlier].manifest@.len()
            <= manifest_oids(commits.take(later)).len(),
    decreases later - earlier,
{
    assert(commits.take(earlier + 1).drop_last() =~= commits.take(earlier));
    assert(commits.take(earlier + 1).last() == commits[earlier]);
    if earlier + 1 < later {
        lemma_positions_ordered(commits, earlier + 1, later);
        assert(commits.take(earlier + 2).drop_last() =~= commits.take(earlier + 1));
    }
}

/// Every position among the trees and blobs is that of an entry.
pub proof fn lemma_position_is_of_entry(commits: Seq<TargetCommit>, position: int) -> (r: (
    int,
    int,
))
    requires
        0 <= position < manifest_oids(commits).len(),
    ensures
        is_entry(commits, r.0, r.1),
        object_position(commits, r.0, r.1) == position,
    decreases commits.len(),
{
    let front = commits.drop_last();
    if position < manifest_oids(front).len() {
        let r = lemma_position_is_of_entry(front, position);
        assert(front.take(r.0) =~= commits.take(r.0));
        assert(front[r.0] == commits[r.0]);
        r
    } else {
        let last = commits.len() - 1;
        assert(commits.take(last) =~= front);
        (last, position - manifest_oids(front).len())
    }
}

/// How many items of a pack come before its trees and blobs.
pub open spec fn trees_and_blobs_start(stream_len: int, commits: Seq<TargetCommit>) -> int {
    stream_len - manifest_oids(commits).len()
}

/// Whether `items` end with the items for the trees and blobs of `commits`,
/// and hold no delta before them.
pub open spec fn ends_with_trees_and_blobs(
    items: Seq<PendingItemView>,
    commits: Seq<TargetCommit>,
    delta_inclusion: DeltaInclusion,
    inclusion: PackfileItemInclusion,
) -> bool {
    let start = trees_and_blobs_start(items.len() as int, commits);
    &&& 0 <= start
    &&& items.skip(start) == tree_and_blob_items(delta_inclusion, inclusion, commits)
    &&& forall|i: int| 0 <= i < start ==> (#[trigger] items[i]) is Base
}

/// The items of a pack end with its trees and blobs, and those that come
/// before are in base form.
proof fn lemma_pack_items_end(
    tag_items: Seq<PendingItemView>,
    git: Map<Seq<u8>, Seq<u8>>,
    commits: Seq<TargetCommit>,
    delta_inclusion: DeltaInclusion,
    inclusion: PackfileItemInclusion,
)
    requires
        forall|i: int| 0 <= i < tag_items.len() ==> (#[trigger] tag_items[i]) is Base,
    ensures
        ends_with_trees_and_blobs(
            pack_items(tag_items, git, commits, delta_inclusion, inclusion),
            commits,
            delta_inclusion,
            inclusion,
        ),
{
    lemma_tree_and_blob_items_len(delta_inclusion, inclusion, commits);
    let items = pack_items(tag_items, git, commits, delta_inclusion, inclusion);
    let objects = commit_object_items(git, commits, inclusion);
    let start = trees_and_blobs_start(items.len() as int, commits);
    assert(start == tag_items.len() + objects.len());
    assert(items.skip(start) =~= tree_and_blob_items(delta_inclusion, inclusion, commits));
    assert forall|i: int| 0 <= i < start implies (#[trigger] items[i]) is Base by {
        if i < tag_items.len() {
            assert(items[i] == tag_items[i]);
        } else {
            assert(items[i] == objects[i - tag_items.len()]);
        }
    }
}

/// The items of a pack end with its trees and blobs, and those that come
/// before are in base form.
pub proof fn lemma_pack_ends_with_trees_and_blobs(
    repo: RepoSnapshot,
    ancestors_difference: Seq<TargetCommit>,
    request: PackItemStreamRequest,
    response: PackItemStreamResponse,
)
    requires
        pack_stream_result(repo, ancestors_difference, request, Ok(response)),
    ensures
        ends_with_trees_and_blobs(
            item_views(response.stream@),
            ancestors_difference.reverse(),
            request.delta_inclusion,
            request.packfile_item_inclusion,
        ),
{
    let commits = ancestors_difference.reverse();
    let inclusion = request.packfile_item_inclusion;
    let names = choose|names: Seq<Seq<char>>|
        item_views(response.stream@) == pack_items(
            #[trigger] named_tag_items(names, repo.tag_map(), inclusion),
            repo.git_map(),
            commits,
            request.delta_inclusion,
            inclusion,
        );
    lemma_pack_items_end(
        named_tag_items(names, repo.tag_map(), inclusion),
        repo.git_map(),
        commits,
        request.delta_inclusion,
        inclusion,
    );
}

/// The items of the pack for a fetch end with its trees and blobs, and those
/// that come before are in base form.
pub proof fn lemma_fetch_ends_with_trees_and_blobs(
    repo: RepoSnapshot,
    ancestors_difference: Seq<TargetCommit>,
    response: FetchResponse,
)
    requires
        fetch_result(repo, ancestors_difference, Ok(response)),
    ensures
        ends_with_trees_and_blobs(
            item_views(response.stream@),
            ancestors_difference.reverse(),
            DeltaInclusion::standard(),
            PackfileItemInclusion::FetchAndStore,
        ),
{
    lemma_pack_items_end(
        tag_object_items(repo.bonsai_tag_mapping@, PackfileItemInclusion::FetchAndStore),
        repo.git_map(),
        ancestors_difference.reverse(),
        DeltaInclusion::standard(),
        PackfileItemInclusion::FetchAndStore,
    );
}

/// Whether the item `item` is as the delta policy allows for the object of
/// the manifest entry it was made for, whose full size is `full_size`: it is
/// a delta only where deltas are included, and then its compressed
/// instructions are smaller than the full size times the threshold.
pub open spec fn within_delta_policy(
    item: PendingItemView,
    full_size: u64,
    delta_inclusion: DeltaInclusion,
) -> bool {
    item matches PendingItemView::Delta {
        oid,
        base_oid,
        origin,
        chunk_count,
        uncompressed_size,
        compressed_size,
        changeset_id,
        path,
    } ==> {
        &&& delta_inclusion matches DeltaInclusion::Include { inclusion_threshold }
        &&& spec_below_threshold(compressed_size, full_size, inclusion_threshold)
    }
}

/// Every delta among items that end with the trees and blobs of `commits` is
/// below the threshold of its object, and there is none where deltas are
/// excluded.
pub proof fn lemma_deltas_below_threshold(
    items: Seq<PendingItemView>,
    commits: Seq<TargetCommit>,
    delta_inclusion: DeltaInclusion,
    inclusion: PackfileItemInclusion,
)
    requires
        ends_with_trees_and_blobs(items, commits, delta_inclusion, inclusion),
    ensures
        delta_inclusion is Exclude ==> forall|i: int|
            0 <= i < items.len() ==> (#[trigger] items[i]) is Base,
        forall|commit: int, entry: int|
            is_entry(commits, commit, entry) ==> within_delta_policy(
                items[trees_and_blobs_start(items.len() as int, commits) + #[trigger] object_position(
                    commits,
                    commit,
                    entry,
                )],
                commits[commit].manifest@[entry].entry.full.size,
                delta_inclusion,
            ),
        forall|i: int|
            0 <= i < items.len() && (#[trigger] items[i]) is Delta ==> exists|
                commit: int,
                entry: int,
            |
                is_entry(commits, commit, entry) && i == trees_and_blobs_start(
                    items.len() as int,
                    commits,
                ) + #[trigger] object_position(commits, commit, entry),
{
    let start = trees_and_blobs_start(items.len() as int, commits);
    let tail = tree_and_blob_items(delta_inclusion, inclusion, commits);
    assert forall|commit: int, entry: int| is_entry(commits, commit, entry) implies (
    within_delta_policy(
        items[start + #[trigger] object_position(commits, commit, entry)],
        commits[commit].manifest@[entry].entry.full.size,
        delta_inclusion,
    ) && (delta_inclusion is Exclude ==> items[start + object_position(commits, commit, entry)]
        is Base)) by {
        lemma_object_at_position(delta_inclusion, inclusion, commits, commit, entry);
        let position = object_position(commits, commit, entry);
        assert(items[start + position] == items.skip(start)[position]);
    }
    assert forall|i: int| 0 <= i < items.len() && (#[trigger] items[i]) is Delta implies exists|
        commit: int,
        entry: int,
    |
        is_entry(commits, commit, entry) && i == start + #[trigger] object_position(
            commits,
            commit,
            entry,
        ) by {
        lemma_tree_and_blob_items_len(delta_inclusion, inclusion, commits);
        assert(items.skip(start).len() == items.len() - start);
        let r = lemma_position_is_of_entry(commits, i - start);
        assert(i == start + object_position(commits, r.0, r.1));
    }
    if delta_inclusion is Exclude {
        assert forall|i: int| 0 <= i < items.len() implies (#[trigger] items[i]) is Base by {
            if i >= start {
                lemma_tree_and_blob_items_len(delta_inclusion, inclusion, commits);
                assert(items.skip(start).len() == items.len() - start);
                let r = lemma_position_is_of_entry(commits, i - start);
                assert(i == start + object_position(commits, r.0, r.1));
            }
        }
    }
}

/// A pack sends as a delta only what the delta policy of its request allows.
/// Every delta among its items stands for the object of a manifest entry, and
/// its compressed instructions are smaller than that object's full size times
/// the threshold of the request. Where the request excludes deltas, the pack
/// holds none.
pub proof fn law_deltas_below_threshold(
    repo: RepoSnapshot,
    ancestors_difference: Seq<TargetCommit>,
    request: PackItemStreamRequest,
    response: PackItemStreamResponse,
)
    requires
        pack_stream_result(repo, ancestors_difference, request, Ok(response)),
    ensures
        request.delta_inclusion is Exclude ==> forall|i: int|
            0 <= i < response.stream@.len() ==> (#[trigger] response.stream@[i])@ is Base,
        forall|i: int|
            0 <= i < response.stream@.len() && (#[trigger] response.stream@[i])@ is Delta
                ==> exists|commit: int, entry: int|
                {
                    &&& is_entry(ancestors_difference.reverse(), commit, entry)
                    &&& i == trees_and_blobs_start(
                        response.stream@.len() as int,
                        ancestors_difference.reverse(),
                    ) + #[trigger] object_position(ancestors_difference.reverse(), commit, entry)
                    &&& within_delta_policy(
                        response.stream@[i]@,
                        ancestors_difference.reverse()[commit].manifest@[entry].entry.full.size,
                        request.delta_inclusion,
                    )
                },
{
    let commits = ancestors_difference.reverse();
    let items = item_views(response.stream@);
    lemma_pack_ends_with_trees_and_blobs(repo, ancestors_difference, request, response);
    lemma_deltas_below_threshold(
        items,
        commits,
        request.delta_inclusion,
        request.packfile_item_inclusion,
    );
    assert forall|i: int|
        0 <= i < response.stream@.len() && (#[trigger] response.stream@[i])@ is Delta implies exists|
        commit: int,
        entry: int,
    |
        {
            &&& is_entry(commits, commit, entry)
            &&& i == trees_and_blobs_start(response.stream@.len() as int, commits)
                + #[trigger] object_position(commits, commit, entry)
            &&& within_delta_policy(
                response.stream@[i]@,
                commits[commit].manifest@[entry].entry.full.size,
                request.delta_inclusion,
            )
        } by {
        assert(items[i] == response.stream@[i]@);
        let (commit, entry) = choose|commit: int, entry: int|
            is_entry(commits, commit, entry) && i == trees_and_blobs_start(
                items.len() as int,
                commits,
            ) + #[trigger] object_position(commits, commit, entry);
        assert(is_entry(commits, commit, entry));
    }
    if request.delta_inclusion is Exclude {
        assert forall|i: int| 0 <= i < response.stream@.len() implies (
        #[trigger] response.stream@[i])@ is Base by {
            assert(items[i] == response.stream@[i]@);
        }
    }
}

/// The pack for a fetch sends as a delta only what is below the standard
/// threshold: every delta among its items stands for the object of a manifest
/// entry, and its compressed instructions are smaller than three fifths of
/// that object's full size.
pub proof fn law_fetch_deltas_below_threshold(
    repo: RepoSnapshot,
    ancestors_difference: Seq<TargetCommit>,
    response: FetchResponse,
)
    requires
        fetch_result(repo, ancestors_difference, Ok(response)),
    ensures
        forall|i: int|
            0 <= i < response.stream@.len() && (#[trigger] response.stream@[i])@ is Delta
                ==> exists|commit: int, entry: int|
                {
                    &&& is_entry(ancestors_difference.reverse(), commit, entry)
                    &&& i == trees_and_blobs_start(
                        response.stream@.len() as int,
                        ancestors_difference.reverse(),
                    ) + #[trigger] object_position(ancestors_difference.reverse(), commit, entry)
                    &&& within_delta_policy(
                        response.stream@[i]@,
                        ancestors_difference.reverse()[commit].manifest@[entry].entry.full.size,
                        DeltaInclusion::standard(),
                    )
                },
{
    let commits = ancestors_difference.reverse();
    let items = item_views(response.stream@);
    lemma_fetch_ends_with_trees_and_blobs(repo, ancestors_difference, response);
    lemma_deltas_below_threshold(
        items,
        commits,
        DeltaInclusion::standard(),
        PackfileItemInclusion::FetchAndStore,
    );
    assert forall|i: int|
        0 <= i < response.stream@.len() && (#[trigger] response.stream@[i])@ is Delta implies exists|
        commit: int,
        entry: int,
    |
        {
            &&& is_entry(commits, commit, entry)
            &&& i == trees_and_blobs_start(response.stream@.len() as int, commits)
                + #[trigger] object_position(commits, commit, entry)
            &&& within_delta_policy(
                response.stream@[i]@,
                commits[commit].manifest@[entry].entry.full.size,
                DeltaInclusion::standard(),
            )
        } by {
        assert(items[i] == response.stream@[i]@);
        let (commit, entry) = choose|commit: int, entry: int|
            is_entry(commits, commit, entry) && i == trees_and_blobs_start(
                items.len() as int,
                commits,
            ) + #[trigger] object_position(commits, commit, entry);
        assert(is_entry(commits, commit, entry));
    }
}

/// Whether the commit graph's answer `answer` names every commit before its
/// ancestors: no commit is, by `is_ancestor`, an ancestor of one that comes
/// after it.
pub open spec fn newest_first(
    answer: Seq<TargetCommit>,
    is_ancestor: spec_fn(Seq<u8>, Seq<u8>) -> bool,
) -> bool {
    forall|i: int, j: int|
        0 <= i < j < answer.len() ==> !is_ancestor(
            (#[trigger] answer[i]).changeset_id@,
            (#[trigger] answer[j]).changeset_id@,
        )
}

/// Whether, among the trees and blobs of a pack of `commits`, every object of
/// commit `earlier` stands before every object of commit `later`.
pub open spec fn objects_precede(commits: Seq<TargetCommit>, earlier: int, later: int) -> bool {
    forall|e: int, l: int|
        is_entry(commits, earlier, e) && is_entry(commits, later, l) ==> (
        #[trigger] object_position(commits, earlier, e)) < (#[trigger] object_position(
            commits,
            later,
            l,
        ))
}

/// The object that an item stands for is the object of the manifest entry at
/// whose position it stands.
pub proof fn lemma_item_is_for_entry(
    items: Seq<PendingItemView>,
    commits: Seq<TargetCommit>,
    delta_inclusion: DeltaInclusion,
    inclusion: PackfileItemInclusion,
    commit: int,
    entry: int,
)
    requires
        ends_with_trees_and_blobs(items, commits, delta_inclusion, inclusion),
        is_entry(commits, commit, entry),
    ensures
        0 <= trees_and_blobs_start(items.len() as int, commits) + object_position(
            commits,
            commit,
            entry,
        ) < items.len(),
        items[trees_and_blobs_start(items.len() as int, commits) + object_position(
            commits,
            commit,
            entry,
        )] == commit_items(delta_inclusion, inclusion, commits[commit])[entry],
        items[trees_and_blobs_start(items.len() as int, commits) + object_position(
            commits,
            commit,
            entry,
        )].oid() == commits[commit].manifest@[entry].entry.full.oid@,
{
    let start = trees_and_blobs_start(items.len() as int, commits);
    lemma_object_at_position(delta_inclusion, inclusion, commits, commit, entry);
    let position = object_position(commits, commit, entry);
    assert(items.skip(start).len() == items.len() - start);
    assert(items[start + position] == items.skip(start)[position]);
}

/// In a pack, a commit comes after its ancestors, and so do its trees and
/// blobs. Where the commit graph names every commit before its ancestors, and
/// a commit of the pack is an ancestor of another, the pack brings the
/// ancestor first, and each tree and blob of the ancestor before each of the
/// other's.
pub proof fn law_ancestors_first(
    answer: Seq<TargetCommit>,
    is_ancestor: spec_fn(Seq<u8>, Seq<u8>) -> bool,
    ancestor: int,
    descendant: int,
)
    requires
        newest_first(answer, is_ancestor),
        0 <= ancestor < answer.len(),
        0 <= descendant < answer.len(),
        ancestor != descendant,
        is_ancestor(
            answer.reverse()[ancestor].changeset_id@,
            answer.reverse()[descendant].changeset_id@,
        ),
    ensures
        ancestor < descendant,
        objects_precede(answer.reverse(), ancestor, descendant),
{
    let commits = answer.reverse();
    let n = answer.len() as int;
    assert(commits[ancestor] == answer[n - 1 - ancestor]);
    assert(commits[descendant] == answer[n - 1 - descendant]);
    if ancestor > descendant {
        assert(!is_ancestor(
            answer[n - 1 - ancestor].changeset_id@,
            answer[n - 1 - descendant].changeset_id@,
        ));
    }
    lemma_positions_ordered(commits, ancestor, descendant);
}

/// The delta by which the object of entry `entry` of the manifest of commit
/// `commit` is sent, if it is sent as a delta.
pub open spec fn sent_delta(
    commits: Seq<TargetCommit>,
    commit: int,
    entry: int,
    delta_inclusion: DeltaInclusion,
) -> Option<ObjectDelta> {
    spec_delta_base(
        commits[commit].manifest@[entry].entry.full,
        commits[commit].manifest@[entry].entry.deltas@,
        delta_inclusion,
    )
}

/// Whether `base` is the full object of a manifest entry that stands before
/// the position `position` among the trees and blobs of `commits`.
pub open spec fn is_earlier_object(commits: Seq<TargetCommit>, position: int, base: Seq<u8>) -> bool {
    exists|from: int, at: int|
        {
            &&& #[trigger] is_entry(commits, from, at)
            &&& object_position(commits, from, at) < position
            &&& commits[from].manifest@[at].entry.full.oid@ == base
        }
}

/// Whether `base` is the Git commit of one of `commits`.
pub open spec fn is_commit_object(
    git: Map<Seq<u8>, Seq<u8>>,
    commits: Seq<TargetCommit>,
    base: Seq<u8>,
) -> bool {
    exists|c: int| 0 <= c < commits.len() && git[(#[trigger] commits[c]).changeset_id@] == base
}

/// Whether `base` is the tag object of an annotated tag among `bookmarks`.
pub open spec fn is_tag_object(
    bookmarks: Map<Seq<char>, Seq<u8>>,
    tags: Map<Seq<char>, Seq<u8>>,
    base: Seq<u8>,
) -> bool {
    exists|name: Seq<char>| #[trigger] annotated_tags(bookmarks, tags).contains(name) && tags[name] == base
}

/// Whether `base` is the tag object of a row of the bonsai-tag mapping.
pub open spec fn is_mapped_tag_object(rows: Seq<BonsaiTagMappingEntry>, base: Seq<u8>) -> bool {
    exists|k: int| 0 <= k < rows.len() && (#[trigger] rows[k]).tag_hash@ == base
}

/// Whether the pack for `commits` and for the tags of `bookmarks` needs no
/// object from elsewhere: the base of every delta that is sent is the object
/// of an earlier manifest entry, the Git commit of a commit of the pack, or
/// the tag object of an annotated tag of the pack.
pub open spec fn pack_is_self_contained(
    repo: RepoSnapshot,
    bookmarks: Map<Seq<char>, Seq<u8>>,
    commits: Seq<TargetCommit>,
    delta_inclusion: DeltaInclusion,
) -> bool {
    forall|commit: int, entry: int| #[trigger]
        is_entry(commits, commit, entry) ==> (sent_delta(commits, commit, entry, delta_inclusion)
            matches Some(delta) ==> {
            ||| is_earlier_object(
                commits,
                object_position(commits, commit, entry),
                delta.base_oid@,
            )
            ||| is_commit_object(repo.git_map(), commits, delta.base_oid@)
            ||| is_tag_object(bookmarks, repo.tag_map(), delta.base_oid@)
        })
}

/// Whether the pack that answers a fetch of `commits` needs no object from
/// elsewhere: the base of every delta that is sent is the object of an
/// earlier manifest entry, the Git commit of a commit of the pack, or the
/// tag object of an annotated tag of the repository.
pub open spec fn fetch_is_self_contained(repo: RepoSnapshot, commits: Seq<TargetCommit>) -> bool {
    forall|commit: int, entry: int| #[trigger]
        is_entry(commits, commit, entry) ==> (sent_delta(
            commits,
            commit,
            entry,
            DeltaInclusion::standard(),
        ) matches Some(delta) ==> {
            ||| is_earlier_object(
                commits,
                object_position(commits, commit, entry),
                delta.base_oid@,
            )
            ||| is_commit_object(repo.git_map(), commits, delta.base_oid@)
            ||| is_mapped_tag_object(repo.bonsai_tag_mapping@, delta.base_oid@)
        })
}

/// Whether every delta among `items` comes after an item for its base.
pub open spec fn bases_come_first(items: Seq<PendingItemView>) -> bool {
    forall|i: int|
        0 <= i < items.len() && (#[trigger] items[i]) is Delta ==> exists|j: int|
            0 <= j < i && (#[trigger] items[j]).oid() == items[i]->base_oid
}

/// The delta at the position of an entry is the delta by which the entry's
/// object is sent.
proof fn lemma_delta_at_position(
    items: Seq<PendingItemView>,
    commits: Seq<TargetCommit>,
    delta_inclusion: DeltaInclusion,
    inclusion: PackfileItemInclusion,
    commit: int,
    entry: int,
)
    requires
        ends_with_trees_and_blobs(items, commits, delta_inclusion, inclusion),
        is_entry(commits, commit, entry),
    ensures
        ({
            let i = trees_and_blobs_start(items.len() as int, commits) + object_position(
                commits,
                commit,
                entry,
            );
            &&& 0 <= trees_and_blobs_start(items.len() as int, commits) <= i < items.len()
            &&& items[i].oid() == commits[commit].manifest@[entry].entry.full.oid@
            &&& items[i] is Delta <==> sent_delta(commits, commit, entry, delta_inclusion) is Some
            &&& items[i] is Delta ==> items[i]->base_oid == sent_delta(
                commits,
                commit,
                entry,
                delta_inclusion,
            ).unwrap().base_oid@
        }),
{
    lemma_item_is_for_entry(items, commits, delta_inclusion, inclusion, commit, entry);
    lemma_object_at_position(delta_inclusion, inclusion, commits, commit, entry);
}

/// Among the items of a pack that needs no object from elsewhere, every
/// delta comes after an item for its base; and a pack in which every delta
/// comes after an item for its base needs no object from elsewhere.
proof fn lemma_bases_come_first(
    head: Seq<PendingItemView>,
    git: Map<Seq<u8>, Seq<u8>>,
    commits: Seq<TargetCommit>,
    delta_inclusion: DeltaInclusion,
    inclusion: PackfileItemInclusion,
)
    requires
        forall|i: int| 0 <= i < head.len() ==> (#[trigger] head[i]) is Base,
    ensures
        bases_come_first(pack_items(head, git, commits, delta_inclusion, inclusion)) <==> (
        forall|commit: int, entry: int| #[trigger]
            is_entry(commits, commit, entry) ==> (sent_delta(
                commits,
                commit,
                entry,
                delta_inclusion,
            ) matches Some(delta) ==> {
                ||| is_earlier_object(
                    commits,
                    object_position(commits, commit, entry),
                    delta.base_oid@,
                )
                ||| is_commit_object(git, commits, delta.base_oid@)
                ||| exists|k: int| 0 <= k < head.len() && (#[trigger] head[k]).oid() == delta.base_oid@
            })),
{
    let items = pack_items(head, git, commits, delta_inclusion, inclusion);
    let objects = commit_object_items(git, commits, inclusion);
    let start = trees_and_blobs_start(items.len() as int, commits);
    lemma_pack_items_end(head, git, commits, delta_inclusion, inclusion);
    lemma_tree_and_blob_items_len(delta_inclusion, inclusion, commits);
    assert(start == head.len() + objects.len());
    let contained = forall|commit: int, entry: int| #[trigger]
        is_entry(commits, commit, entry) ==> (sent_delta(commits, commit, entry, delta_inclusion)
            matches Some(delta) ==> {
            ||| is_earlier_object(
                commits,
                object_position(commits, commit, entry),
                delta.base_oid@,
            )
            ||| is_commit_object(git, commits, delta.base_oid@)
            ||| exists|k: int| 0 <= k < head.len() && (#[trigger] head[k]).oid() == delta.base_oid@
        });
    if contained {
        assert forall|i: int| 0 <= i < items.len() && (#[trigger] items[i]) is Delta implies exists|
            j: int,
        |
            0 <= j < i && (#[trigger] items[j]).oid() == items[i]->base_oid by {
            assert(items.skip(start).len() == items.len() - start);
            let (commit, entry) = lemma_position_is_of_entry(commits, i - start);
            lemma_delta_at_position(items, commits, delta_inclusion, inclusion, commit, entry);
            assert(is_entry(commits, commit, entry));
            let base = sent_delta(commits, commit, entry, delta_inclusion).unwrap().base_oid@;
            if is_earlier_object(commits, object_position(commits, commit, entry), base) {
                let (from, at) = choose|from: int, at: int|
                    {
                        &&& #[trigger] is_entry(commits, from, at)
                        &&& object_position(commits, from, at) < object_position(
                            commits,
                            commit,
                            entry,
                        )
                        &&& commits[from].manifest@[at].entry.full.oid@ == base
                    };
                lemma_delta_at_position(items, commits, delta_inclusion, inclusion, from, at);
                let j = start + object_position(commits, from, at);
                assert(0 <= j < i && items[j].oid() == items[i]->base_oid);
            } else if is_commit_object(git, commits, base) {
                let c = choose|c: int|
                    0 <= c < commits.len() && git[(#[trigger] commits[c]).changeset_id@] == base;
                let j = head.len() + c;
                assert(items[j] == objects[c]);
                assert(0 <= j < i && items[j].oid() == items[i]->base_oid);
            } else {
                let k = choose|k: int| 0 <= k < head.len() && (#[trigger] head[k]).oid() == base;
                assert(items[k] == head[k]);
                assert(0 <= k < i && items[k].oid() == items[i]->base_oid);
            }
        }
    }
    if bases_come_first(items) {
        assert forall|commit: int, entry: int| #[trigger]
            is_entry(commits, commit, entry) implies (sent_delta(
            commits,
            commit,
            entry,
            delta_inclusion,
        ) matches Some(delta) ==> {
            ||| is_earlier_object(
                commits,
                object_position(commits, commit, entry),
                delta.base_oid@,
            )
            ||| is_commit_object(git, commits, delta.base_oid@)
            ||| exists|k: int| 0 <= k < head.len() && (#[trigger] head[k]).oid() == delta.base_oid@
        }) by {
            if sent_delta(commits, commit, entry, delta_inclusion) is Some {
                lemma_delta_at_position(items, commits, delta_inclusion, inclusion, commit, entry);
                let i = start + object_position(commits, commit, entry);
                let base = sent_delta(commits, commit, entry, delta_inclusion).unwrap().base_oid@;
                assert(items[i] is Delta);
                let j = choose|j: int|
                    0 <= j < i && (#[trigger] items[j]).oid() == items[i]->base_oid;
                if j >= start {
                    assert(items.skip(start).len() == items.len() - start);
                    let (from, at) = lemma_position_is_of_entry(commits, j - start);
                    lemma_delta_at_position(items, commits, delta_inclusion, inclusion, from, at);
                    assert(is_entry(commits, from, at));
                    assert(is_earlier_object(
                        commits,
                        object_position(commits, commit, entry),
                        base,
                    ));
                } else if j >= head.len() {
                    let c = j - head.len();
                    assert(items[j] == objects[c]);
                    assert(git[commits[c].changeset_id@] == base);
                    assert(is_commit_object(git, commits, base));
                } else {
                    assert(items[j] == head[j]);
                    assert(head[j].oid() == base);
                }
            }
        }
    }
}

/// A pack brings the base of every delta before the delta, exactly if it
/// needs no object from elsewhere: every delta among its items comes after
/// an item for its base object if, and only if, the base of every delta that
/// is sent is the object of an earlier manifest entry, the Git commit of a
/// commit of the pack, or the tag object of an annotated tag of the pack.
pub proof fn law_delta_bases_first(
    repo: RepoSnapshot,
    ancestors_difference: Seq<TargetCommit>,
    request: PackItemStreamRequest,
    response: PackItemStreamResponse,
)
    requires
        pack_stream_result(repo, ancestors_difference, request, Ok(response)),
    ensures
        bases_come_first(item_views(response.stream@)) <==> pack_is_self_contained(
            repo,
            spec_bookmarks(repo.bookmark_map(), request.requested_refs),
            ancestors_difference.reverse(),
            request.delta_inclusion,
        ),
{
    let commits = ancestors_difference.reverse();
    let inclusion = request.packfile_item_inclusion;
    let bookmarks = spec_bookmarks(repo.bookmark_map(), request.requested_refs);
    let tags = repo.tag_map();
    let names = choose|names: Seq<Seq<char>>|
        {
            &&& enumerates(names, annotated_tags(bookmarks, tags))
            &&& item_views(response.stream@) == pack_items(
                #[trigger] named_tag_items(names, tags, inclusion),
                repo.git_map(),
                commits,
                request.delta_inclusion,
                inclusion,
            )
        };
    let head = named_tag_items(names, tags, inclusion);
    lemma_bases_come_first(head, repo.git_map(), commits, request.delta_inclusion, inclusion);
    assert forall|base: Seq<u8>|
        is_tag_object(bookmarks, tags, base) <==> (exists|k: int|
            0 <= k < head.len() && (#[trigger] head[k]).oid() == base) by {
        if is_tag_object(bookmarks, tags, base) {
            let name = choose|name: Seq<char>| #[trigger]
                annotated_tags(bookmarks, tags).contains(name) && tags[name] == base;
            assert(names.contains(name));
            let k = choose|k: int| 0 <= k < names.len() && names[k] == name;
            assert(head[k].oid() == base);
        }
        if exists|k: int| 0 <= k < head.len() && (#[trigger] head[k]).oid() == base {
            let k = choose|k: int| 0 <= k < head.len() && (#[trigger] head[k]).oid() == base;
            assert(names.contains(names[k]));
            assert(annotated_tags(bookmarks, tags).contains(names[k]));
        }
    }
}

/// The pack that answers a fetch brings the base of every delta before the
/// delta, exactly if it needs no object from elsewhere: every delta among
/// its items comes after an item for its base object if, and only if, the
/// base of every delta that is sent is the object of an earlier manifest
/// entry, the Git commit of a commit of the pack, or the tag object of an
/// annotated tag of the repository.
pub proof fn law_fetch_delta_bases_first(
    repo: RepoSnapshot,
    ancestors_difference: Seq<TargetCommit>,
    response: FetchResponse,
)
    requires
        fetch_result(repo, ancestors_difference, Ok(response)),
    ensures
        bases_come_first(item_views(response.stream@)) <==> fetch_is_self_contained(
            repo,
            ancestors_difference.reverse(),
        ),
{
    let commits = ancestors_difference.reverse();
    let inclusion = PackfileItemInclusion::FetchAndStore;
    let rows = repo.bonsai_tag_mapping@;
    let head = tag_object_items(rows, inclusion);
    lemma_bases_come_first(head, repo.git_map(), commits, DeltaInclusion::standard(), inclusion);
    assert forall|base: Seq<u8>|
        is_mapped_tag_object(rows, base) <==> (exists|k: int|
            0 <= k < head.len() && (#[trigger] head[k]).oid() == base) by {
        if is_mapped_tag_object(rows, base) {
            let k = choose|k: int| 0 <= k < rows.len() && (#[trigger] rows[k]).tag_hash@ == base;
            assert(head[k].oid() == base);
        }
        if exists|k: int| 0 <= k < head.len() && (#[trigger] head[k]).oid() == base {
            let k = choose|k: int| 0 <= k < head.len() && (#[trigger] head[k]).oid() == base;
            assert(rows[k].tag_hash@ == base);
        }
    }
}

/// Whether the manifests of `commits` build every delta on an object that
/// the pack brings first: the base of each delta is the full object of an
/// earlier entry of the same manifest, or of an entry of the manifest of a
/// commit that is, by `is_ancestor`, an ancestor.
pub open spec fn bases_introduced_before(
    commits: Seq<TargetCommit>,
    is_ancestor: spec_fn(Seq<u8>, Seq<u8>) -> bool,
) -> bool {
    forall|commit: int, entry: int, delta: int|
        is_entry(commits, commit, entry) && 0 <= delta
            < commits[commit].manifest@[entry].entry.deltas@.len() ==> (
        #[trigger] has_base_before(commits, is_ancestor, commit, entry, delta))
}

/// Whether the base of delta `delta` of entry `entry` of commit `commit` is
/// the full object of an earlier entry of the same manifest, or of an entry
/// of the manifest of an ancestor.
pub open spec fn has_base_before(
    commits: Seq<TargetCommit>,
    is_ancestor: spec_fn(Seq<u8>, Seq<u8>) -> bool,
    commit: int,
    entry: int,
    delta: int,
) -> bool {
    exists|from: int, at: int|
        {
            &&& #[trigger] is_entry(commits, from, at)
            &&& commits[from].manifest@[at].entry.full.oid@
                == commits[commit].manifest@[entry].entry.deltas@[delta].base_oid@
            &&& if from == commit {
                at < entry
            } else {
                is_ancestor(commits[from].changeset_id@, commits[commit].changeset_id@)
            }
        }
}

/// Deltas that are built on the objects of ancestors find their bases in
/// the pack. Where the commit graph names every commit before its ancestors,
/// and the manifests build every delta on an object of the same manifest or
/// of an ancestor's, the base of every delta that is sent is the object of an
/// earlier manifest entry: the pack needs no object from elsewhere, whatever
/// deltas it includes.
pub proof fn law_ancestor_bases_are_earlier(
    answer: Seq<TargetCommit>,
    is_ancestor: spec_fn(Seq<u8>, Seq<u8>) -> bool,
    delta_inclusion: DeltaInclusion,
    commit: int,
    entry: int,
)
    requires
        newest_first(answer, is_ancestor),
        bases_introduced_before(answer.reverse(), is_ancestor),
        is_entry(answer.reverse(), commit, entry),
        sent_delta(answer.reverse(), commit, entry, delta_inclusion) is Some,
    ensures
        is_earlier_object(
            answer.reverse(),
            object_position(answer.reverse(), commit, entry),
            sent_delta(answer.reverse(), commit, entry, delta_inclusion).unwrap().base_oid@,
        ),
{
    let commits = answer.reverse();
    let record = commits[commit].manifest@[entry].entry;
    lemma_smallest_index(record.deltas@);
    let delta = smallest_index(record.deltas@);
    assert(has_base_before(commits, is_ancestor, commit, entry, delta));
    let (from, at) = choose|from: int, at: int|
        {
            &&& #[trigger] is_entry(commits, from, at)
            &&& commits[from].manifest@[at].entry.full.oid@ == record.deltas@[delta].base_oid@
            &&& if from == commit {
                at < entry
            } else {
                is_ancestor(commits[from].changeset_id@, commits[commit].changeset_id@)
            }
        };
    if from != commit {
        law_ancestors_first(answer, is_ancestor, from, commit);
        assert(object_position(commits, from, at) < object_position(commits, commit, entry));
    }
    assert(is_entry(commits, from, at));
}

/// A pack whose deltas are built on the objects of ancestors brings every
/// base before its delta: where the commit graph names every commit before
/// its ancestors, and the manifests build every delta on an object of the
/// same manifest or of an ancestor's, each delta among the items of the pack
/// comes after an item for its base object.
pub proof fn law_deltas_on_ancestors_come_after_bases(
    repo: RepoSnapshot,
    ancestors_difference: Seq<TargetCommit>,
    is_ancestor: spec_fn(Seq<u8>, Seq<u8>) -> bool,
    request: PackItemStreamRequest,
    response: PackItemStreamResponse,
)
    requires
        pack_stream_result(repo, ancestors_difference, request, Ok(response)),
        newest_first(ancestors_difference, is_ancestor),
        bases_introduced_before(ancestors_difference.reverse(), is_ancestor),
    ensures
        bases_come_first(item_views(response.stream@)),
{
    let commits = ancestors_difference.reverse();
    law_delta_bases_first(repo, ancestors_difference, request, response);
    assert forall|commit: int, entry: int| #[trigger]
        is_entry(commits, commit, entry) && sent_delta(
            commits,
            commit,
            entry,
            request.delta_inclusion,
        ) is Some implies is_earlier_object(
        commits,
        object_position(commits, commit, entry),
        sent_delta(commits, commit, entry, request.delta_inclusion).unwrap().base_oid@,
    ) by {
        law_ancestor_bases_are_earlier(
            ancestors_difference,
            is_ancestor,
            request.delta_inclusion,
            commit,
            entry,
        );
    }
}

/// The pack that answers a fetch, where its deltas are built on the objects
/// of ancestors that the pack holds, brings every base before its delta.
pub proof fn law_fetch_deltas_on_ancestors_come_after_bases(
    repo: RepoSnapshot,
    ancestors_difference: Seq<TargetCommit>,
    is_ancestor: spec_fn(Seq<u8>, Seq<u8>) -> bool,
    response: FetchResponse,
)
    requires
        fetch_result(repo, ancestors_difference, Ok(response)),
        newest_first(ancestors_difference, is_ancestor),
        bases_introduced_before(ancestors_difference.reverse(), is_ancestor),
    ensures
        bases_come_first(item_views(response.stream@)),
{
    let commits = ancestors_difference.reverse();
    law_fetch_delta_bases_first(repo, ancestors_difference, response);
    assert forall|commit: int, entry: int| #[trigger]
        is_entry(commits, commit, entry) && sent_delta(
            commits,
            commit,
            entry,
            DeltaInclusion::standard(),
        ) is Some implies is_earlier_object(
        commits,
        object_position(commits, commit, entry),
        sent_delta(commits, commit, entry, DeltaInclusion::standard()).unwrap().base_oid@,
    ) by {
        law_ancestor_bases_are_earlier(
            ancestors_difference,
            is_ancestor,
            DeltaInclusion::standard(),
            commit,
            entry,
        );
    }
}

/// Where in a pack the objects of its commits stand: the commit object of
/// the commit at `commit` directly before the trees and blobs, among the
/// commit objects in the order of the commits; and the object of each entry
/// of its manifest at the entry's position among the trees and blobs.
pub proof fn law_object_positions(
    repo: RepoSnapshot,
    ancestors_difference: Seq<TargetCommit>,
    request: PackItemStreamRequest,
    response: PackItemStreamResponse,
    commit: int,
)
    requires
        pack_stream_result(repo, ancestors_difference, request, Ok(response)),
        0 <= commit < ancestors_difference.len(),
    ensures
        ({
            let commits = ancestors_difference.reverse();
            let start = trees_and_blobs_start(response.stream@.len() as int, commits);
            &&& 0 <= start - commits.len() + commit < start
            &&& response.stream@[start - commits.len() + commit]@.oid()
                == repo.git_map()[commits[commit].changeset_id@]
            &&& forall|entry: int|
                0 <= entry < commits[commit].manifest@.len() ==> {
                    &&& 0 <= start + #[trigger] object_position(commits, commit, entry)
                        < response.stream@.len()
                    &&& response.stream@[start + object_position(commits, commit, entry)]@.oid()
                        == commits[commit].manifest@[entry].entry.full.oid@
                }
        }),
{
    let commits = ancestors_difference.reverse();
    let items = item_views(response.stream@);
    let inclusion = request.packfile_item_inclusion;
    let start = trees_and_blobs_start(response.stream@.len() as int, commits);
    lemma_pack_ends_with_trees_and_blobs(repo, ancestors_difference, request, response);
    lemma_tree_and_blob_items_len(request.delta_inclusion, inclusion, commits);
    let names = choose|names: Seq<Seq<char>>|
        item_views(response.stream@) == pack_items(
            #[trigger] named_tag_items(names, repo.tag_map(), inclusion),
            repo.git_map(),
            commits,
            request.delta_inclusion,
            inclusion,
        );
    let tag_items = named_tag_items(names, repo.tag_map(), inclusion);
    let objects = commit_object_items(repo.git_map(), commits, inclusion);
    assert(start == tag_items.len() + objects.len());
    assert(items[start - commits.len() + commit] == objects[commit]);
    assert(items[start - commits.len() + commit] == response.stream@[start - commits.len()
        + commit]@);
    assert forall|entry: int| 0 <= entry < commits[commit].manifest@.len() implies {
        &&& 0 <= start + #[trigger] object_position(commits, commit, entry) < response.stream@.len()
        &&& response.stream@[start + object_position(commits, commit, entry)]@.oid()
            == commits[commit].manifest@[entry].entry.full.oid@
    } by {
        lemma_item_is_for_entry(
            items,
            commits,
            request.delta_inclusion,
            inclusion,
            commit,
            entry,
        );
        assert(items[start + object_position(commits, commit, entry)] == response.stream@[start
            + object_position(commits, commit, entry)]@);
    }
}

/// Where in the pack for a fetch the objects of its commits stand: the commit
/// object of the commit at `commit` directly before the trees and blobs,
/// among the commit objects in the order of the commits; and the object of
/// each entry of its manifest at the entry's position among the trees and
/// blobs.
pub proof fn law_fetch_object_positions(
    repo: RepoSnapshot,
    ancestors_difference: Seq<TargetCommit>,
    response: FetchResponse,
    commit: int,
)
    requires
        fetch_result(repo, ancestors_difference, Ok(response)),
        0 <= commit < ancestors_difference.len(),
    ensures
        ({
            let commits = ancestors_difference.reverse();
            let start = trees_and_blobs_start(response.stream@.len() as int, commits);
            &&& 0 <= start - commits.len() + commit < start
            &&& response.stream@[start - commits.len() + commit]@.oid()
                == repo.git_map()[commits[commit].changeset_id@]
            &&& forall|entry: int|
                0 <= entry < commits[commit].manifest@.len() ==> {
                    &&& 0 <= start + #[trigger] object_position(commits, commit, entry)
                        < response.stream@.len()
                    &&& response.stream@[start + object_position(commits, commit, entry)]@.oid()
                        == commits[commit].manifest@[entry].entry.full.oid@
                }
        }),
{
    let commits = ancestors_difference.reverse();
    let items = item_views(response.stream@);
    let inclusion = PackfileItemInclusion::FetchAndStore;
    let start = trees_and_blobs_start(response.stream@.len() as int, commits);
    lemma_fetch_ends_with_trees_and_blobs(repo, ancestors_difference, response);
    lemma_tree_and_blob_items_len(DeltaInclusion::standard(), inclusion, commits);
    let tag_items = tag_object_items(repo.bonsai_tag_mapping@, inclusion);
    let objects = commit_object_items(repo.git_map(), commits, inclusion);
    assert(start == tag_items.len() + objects.len());
    assert(items[start - commits.len() + commit] == objects[commit]);
    assert(items[start - commits.len() + commit] == response.stream@[start - commits.len()
        + commit]@);
    assert forall|entry: int| 0 <= entry < commits[commit].manifest@.len() implies {
        &&& 0 <= start + #[trigger] object_position(commits, commit, entry) < response.stream@.len()
        &&& response.stream@[start + object_position(commits, commit, entry)]@.oid()
            == commits[commit].manifest@[entry].entry.full.oid@
    } by {
        lemma_item_is_for_entry(
            items,
            commits,
            DeltaInclusion::standard(),
            inclusion,
            commit,
            entry,
        );
        assert(items[start + object_position(commits, commit, entry)] == response.stream@[start
            + object_position(commits, commit, entry)]@);
    }
}

/// A branch and a simple tag are at the Git commit of their changeset: where
/// the refs for `bookmarks` can be resolved, the ref of a bookmark that is no
/// annotated tag points, without metadata, at the commit that the bonsai-git
/// mapping has for the bookmark's changeset.
pub proof fn law_branch_at_mapped_commit(
    bookmarks: Map<Seq<char>, Seq<u8>>,
    git: Map<Seq<u8>, Seq<u8>>,
    tags: Map<Seq<char>, Seq<u8>>,
    inclusion: TagInclusion,
    name: Seq<char>,
)
    requires
        spec_refs_to_include(bookmarks, git, tags, inclusion) is Some,
        bookmarks.contains_key(name),
        !(name_is_tag(name) && tags.contains_key(name)),
    ensures
        git.contains_key(bookmarks[name]),
        spec_refs_to_include(bookmarks, git, tags, inclusion).unwrap().contains_key(
            ref_name_of(name),
        ),
        spec_refs_to_include(bookmarks, git, tags, inclusion).unwrap()[ref_name_of(name)]
            == RefTargetView::Plain(git[bookmarks[name]]),
{
    lemma_bookmark_of_ref(name);
    assert(spec_ref_target(name, bookmarks[name], git, tags, inclusion) is Some);
}

/// An annotated tag is listed as the request says: where the refs for
/// `bookmarks` can be resolved, the ref of a tag that the bonsai-tag mapping
/// holds points at the commit of its changeset if tags are peeled, at the tag
/// object if they are listed as they are, and at the tag object with
/// `peeled:` and the commit's id in hexadecimal as metadata if they are
/// listed with their target.
pub proof fn law_annotated_tag_target(
    bookmarks: Map<Seq<char>, Seq<u8>>,
    git: Map<Seq<u8>, Seq<u8>>,
    tags: Map<Seq<char>, Seq<u8>>,
    inclusion: TagInclusion,
    name: Seq<char>,
)
    requires
        spec_refs_to_include(bookmarks, git, tags, inclusion) is Some,
        bookmarks.contains_key(name),
        name_is_tag(name),
        tags.contains_key(name),
    ensures
        spec_refs_to_include(bookmarks, git, tags, inclusion).unwrap().contains_key(
            ref_name_of(name),
        ),
        spec_refs_to_include(bookmarks, git, tags, inclusion).unwrap()[ref_name_of(name)]
            == match inclusion {
            TagInclusion::Peeled => RefTargetView::Plain(git[bookmarks[name]]),
            TagInclusion::AsIs => RefTargetView::Plain(tags[name]),
            TagInclusion::WithTarget => RefTargetView::WithMetadata(
                tags[name],
                peeled_prefix() + hex_of(git[bookmarks[name]]),
            ),
        },
        inclusion != TagInclusion::AsIs ==> git.contains_key(bookmarks[name]),
{
    lemma_bookmark_of_ref(name);
    assert(spec_ref_target(name, bookmarks[name], git, tags, inclusion) is Some);
}

/// Every ref for a bookmark has a name that begins with `refs/`.
pub proof fn law_ref_names_begin_with_refs(
    bookmarks: Map<Seq<char>, Seq<u8>>,
    git: Map<Seq<u8>, Seq<u8>>,
    tags: Map<Seq<char>, Seq<u8>>,
    inclusion: TagInclusion,
    ref_name: Seq<char>,
)
    requires
        spec_refs_to_include(bookmarks, git, tags, inclusion) is Some,
        spec_refs_to_include(bookmarks, git, tags, inclusion).unwrap().contains_key(ref_name),
    ensures
        crate::bookmark::refs_prefix().is_prefix_of(ref_name),
{
}

/// Whether one of `symrefs` is named `name`.
pub open spec fn is_symref_name(symrefs: Seq<GitSymbolicRefsEntry>, name: Seq<char>) -> bool {
    exists|i: int| 0 <= i < symrefs.len() && (#[trigger] symrefs[i]).symref_name@ == name
}

/// What symrefs add is named as one of them is.
proof fn lemma_additions_are_symrefs(
    refs: Map<Seq<char>, RefTargetView>,
    symrefs: Seq<GitSymbolicRefsEntry>,
    format: SymrefFormat,
    name: Seq<char>,
)
    requires
        symref_additions(refs, symrefs, format).contains_key(name),
    ensures
        is_symref_name(symrefs, name),
    decreases symrefs.len(),
{
    if symrefs.len() > 0 {
        if symrefs.last().symref_name@ == name {
            assert(symrefs[symrefs.len() - 1].symref_name@ == name);
        } else {
            lemma_additions_are_symrefs(refs, symrefs.drop_last(), format, name);
            let i = choose|i: int|
                0 <= i < symrefs.drop_last().len() && (#[trigger] symrefs.drop_last()[i]).symref_name@
                    == name;
            assert(symrefs[i].symref_name@ == name);
        }
    }
}

/// Every resolved ref stands for a bookmark, under a name that begins with
/// `refs/`, or is a symref of the repository, under the symref's own name.
pub proof fn law_resolved_ref_names(
    repo: RepoSnapshot,
    requested_refs: RequestedRefs,
    tag_inclusion: TagInclusion,
    requested_symrefs: RequestedSymrefs,
    name: Seq<char>,
)
    requires
        spec_resolve_refs(repo, requested_refs, tag_inclusion, requested_symrefs) is Some,
        spec_resolve_refs(
            repo,
            requested_refs,
            tag_inclusion,
            requested_symrefs,
        ).unwrap().contains_key(name),
    ensures
        crate::bookmark::refs_prefix().is_prefix_of(name) || is_symref_name(
            repo.symbolic_refs@,
            name,
        ),
{
    let bookmarks = spec_bookmarks(repo.bookmark_map(), requested_refs);
    let refs = spec_refs_to_include(
        bookmarks,
        repo.git_map(),
        repo.tag_map(),
        tag_inclusion,
    ).unwrap();
    if !refs.contains_key(name) {
        match requested_symrefs {
            RequestedSymrefs::ExcludeAll => {},
            RequestedSymrefs::IncludeHead(format) => {
                let i = first_symref_named(repo.symbolic_refs@, head_ref(), 0).unwrap();
                lemma_first_symref_named(repo.symbolic_refs@, head_ref(), 0);
                assert(repo.symbolic_refs@[i].symref_name@ == name);
            },
            RequestedSymrefs::IncludeAll(format) => {
                lemma_additions_are_symrefs(refs, repo.symbolic_refs@, format, name);
            },
        }
    }
}

/// Adding symrefs changes no ref but those that are named as a symref is:
/// where the symrefs that a request selects can be added to `refs`, a ref of
/// `refs` whose name is the name of no symref is among the result as it was.
pub proof fn law_symrefs_keep_other_refs(
    refs: Map<Seq<char>, RefTargetView>,
    symrefs: Seq<GitSymbolicRefsEntry>,
    requested: RequestedSymrefs,
    name: Seq<char>,
)
    requires
        spec_include_symrefs(refs, symrefs, requested) is Some,
        refs.contains_key(name),
        !is_symref_name(symrefs, name),
    ensures
        spec_include_symrefs(refs, symrefs, requested).unwrap().contains_key(name),
        spec_include_symrefs(refs, symrefs, requested).unwrap()[name] == refs[name],
{
    match requested {
        RequestedSymrefs::ExcludeAll => {},
        RequestedSymrefs::IncludeHead(format) => {
            let i = first_symref_named(symrefs, head_ref(), 0).unwrap();
            lemma_first_symref_named(symrefs, head_ref(), 0);
            assert(symrefs[i].symref_name@ != name);
        },
        RequestedSymrefs::IncludeAll(format) => {
            if symref_additions(refs, symrefs, format).contains_key(name) {
                lemma_additions_are_symrefs(refs, symrefs, format, name);
            }
        },
    }
}

/// The first symref of a name, where there is one, is a symref of that name.
proof fn lemma_first_symref_named(symrefs: Seq<GitSymbolicRefsEntry>, name: Seq<char>, from: int)
    requires
        first_symref_named(symrefs, name, from) is Some,
    ensures
        0 <= first_symref_named(symrefs, name, from).unwrap() < symrefs.len(),
        symrefs[first_symref_named(symrefs, name, from).unwrap()].symref_name@ == name,
    decreases symrefs.len() - from,
{
    if 0 <= from < symrefs.len() && symrefs[from].symref_name@ != name {
        lemma_first_symref_named(symrefs, name, from + 1);
    }
}

} // verus!
