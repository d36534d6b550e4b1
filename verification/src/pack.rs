//! The three handlers: the refs of a repository, the pack for a clone, and
//! the pack for a fetch.
//!
//! A handler reads the repository from a snapshot. The commits of a pack are
//! the commit graph's to find: a handler is handed the graph's answer to the
//! question that `pack_commit_set` or `fetch_commit_set` poses.

use crate::collections::BookmarkMap;
use crate::collections::RefMap;
use crate::collections::bookmark_map_contents;
use crate::collections::bookmark_map_entries;
use crate::collections::bookmark_pairs;
use crate::collections::lemma_pairs_map_contains;
use crate::collections::lemma_pairs_map_holds;
use crate::collections::oid_set_contents;
use crate::collections::oid_set_insert;
use crate::collections::oid_set_len;
use crate::collections::oid_set_new;
use crate::collections::ref_map_contents;
use crate::commits::CommitSetQuery;
use crate::commits::git_shas_to_bonsais;
use crate::commits::spec_git_shas_to_bonsais;
use crate::commits::target_commits;
use crate::error::Error;
use crate::hash::ChangesetId;
use crate::items::PendingItem;
use crate::items::all_tags_packfile_stream;
use crate::items::annotated_tags;
use crate::items::blob_and_tree_packfile_stream;
use crate::items::commit_packfile_stream;
use crate::items::commits_mapped;
use crate::items::enumerates;
use crate::items::is_unmapped_commit_error;
use crate::items::item_views;
use crate::items::named_tag_items;
use crate::items::pack_items;
use crate::items::tag_object_items;
use crate::items::tag_packfile_stream;
use crate::items::tree_and_blob_items;
use crate::manifest::TargetCommit;
use crate::manifest::commit_oids;
use crate::manifest::manifest_oids;
use crate::manifest::spec_trees_and_blobs_count;
use crate::refs::bookmarks;
use crate::refs::changeset_set;
use crate::refs::include_symrefs;
use crate::refs::is_malformed_name_error;
use crate::refs::is_missing_mapping_error;
use crate::refs::is_symref_error;
use crate::refs::refs_to_include;
use crate::refs::request_well_formed;
use crate::refs::spec_bookmarks;
use crate::refs::spec_include_symrefs;
use crate::refs::spec_refs_to_include;
use crate::repo::RepoSnapshot;
use crate::types::DeltaInclusion;
use crate::types::FetchRequest;
use crate::types::FetchResponse;
use crate::types::LsRefsRequest;
use crate::types::LsRefsResponse;
use crate::types::PackItemStreamRequest;
use crate::types::PackItemStreamResponse;
use crate::types::PackfileItemInclusion;
use crate::types::RefTargetView;
use crate::types::RequestedRefs;
use crate::types::RequestedSymrefs;
use crate::types::TagInclusion;
use vstd::prelude::*;

verus! {

/// Adding an id to a sequence adds it to the set of its ids.
proof fn lemma_push_to_set(s: Seq<Seq<u8>>, x: Seq<u8>)
    ensures
        s.push(x).to_set() == s.to_set().insert(x),
{
    assert forall|y: Seq<u8>| s.push(x).to_set().contains(y) <==> s.to_set().insert(x).contains(
        y,
    ) by {
        if s.push(x).contains(y) {
            let i = choose|i: int| 0 <= i < s.push(x).len() && s.push(x)[i] == y;
            if i < s.len() {
                assert(s[i] == y);
            }
        }
        if s.contains(y) {
            let i = choose|i: int| 0 <= i < s.len() && s[i] == y;
            assert(s.push(x)[i] == y);
        }
        if y == x {
            assert(s.push(x)[s.len() as int] == y);
        }
    }
    assert(s.push(x).to_set() =~= s.to_set().insert(x));
}

/// The number of distinct trees and blobs that a pack of `target_commits`
/// holds: the number of distinct object ids among the full objects of the
/// commits' manifests. It is at most the number of manifest entries.
pub fn trees_and_blobs_count(target_commits: &Vec<TargetCommit>) -> (count: usize)
    ensures
        count == spec_trees_and_blobs_count(target_commits@),
        count <= manifest_oids(target_commits@).len(),
{
    let mut objects = oid_set_new();
    let mut i: usize = 0;
    proof {
        assert(manifest_oids(target_commits@.take(0)).to_set() =~= Set::<Seq<u8>>::empty());
    }
    while i < target_commits.len()
        invariant
            i <= target_commits.len(),
            oid_set_contents(objects) == manifest_oids(target_commits@.take(i as int)).to_set(),
        decreases target_commits.len() - i,
    {
        let commit = &target_commits[i];
        let ghost seen = manifest_oids(target_commits@.take(i as int));
        let mut k: usize = 0;
        proof {
            assert(seen + commit_oids(*commit).take(0) =~= seen);
        }
        while k < commit.manifest.len()
            invariant
                k <= commit.manifest.len(),
                oid_set_contents(objects) == (seen + commit_oids(*commit).take(k as int)).to_set(),
            decreases commit.manifest.len() - k,
        {
            proof {
                let oids = commit_oids(*commit);
                lemma_push_to_set(seen + oids.take(k as int), oids[k as int]);
                assert((seen + oids.take(k as int)).push(oids[k as int]) =~= seen + oids.take(
                    k as int + 1,
                ));
            }
            oid_set_insert(&mut objects, &commit.manifest[k].entry.full.oid);
            k += 1;
        }
        proof {
            assert(commit_oids(*commit).take(k as int) =~= commit_oids(*commit));
            assert(target_commits@.take(i as int + 1).drop_last() =~= target_commits@.take(
                i as int,
            ));
        }
        i += 1;
    }
    proof {
        assert(target_commits@.take(i as int) =~= target_commits@);
        manifest_oids(target_commits@).lemma_cardinality_of_set();
    }
    oid_set_len(&objects)
}

/// The refs that a request resolves to in `repo`: the refs for the bookmarks
/// that `requested_refs` selects, tags as `tag_inclusion` says, and the
/// symrefs that `requested_symrefs` selects. `None` where the request cannot
/// be resolved.
pub open spec fn spec_resolve_refs(
    repo: RepoSnapshot,
    requested_refs: RequestedRefs,
    tag_inclusion: TagInclusion,
    requested_symrefs: RequestedSymrefs,
) -> Option<Map<Seq<char>, RefTargetView>> {
    if !request_well_formed(requested_refs) {
        None
    } else {
        match spec_refs_to_include(
            spec_bookmarks(repo.bookmark_map(), requested_refs),
            repo.git_map(),
            repo.tag_map(),
            tag_inclusion,
        ) {
            None => None,
            Some(refs) => spec_include_symrefs(refs, repo.symbolic_refs@, requested_symrefs),
        }
    }
}

/// Whether `e` is the error with which the resolution of a request fails in
/// `repo`: the first malformed name; else the changeset of a bookmark that
/// has no Git commit; else the symref that cannot be resolved.
pub open spec fn is_resolve_error(
    repo: RepoSnapshot,
    requested_refs: RequestedRefs,
    tag_inclusion: TagInclusion,
    requested_symrefs: RequestedSymrefs,
    e: Error,
) -> bool {
    let bookmarks = spec_bookmarks(repo.bookmark_map(), requested_refs);
    if !request_well_formed(requested_refs) {
        is_malformed_name_error(requested_refs, e)
    } else {
        match spec_refs_to_include(bookmarks, repo.git_map(), repo.tag_map(), tag_inclusion) {
            None => is_missing_mapping_error(
                bookmarks,
                repo.git_map(),
                repo.tag_map(),
                tag_inclusion,
                e,
            ),
            Some(refs) => is_symref_error(refs, repo.symbolic_refs@, requested_symrefs, e),
        }
    }
}

/// Resolves the refs of a request: the bookmarks that `requested_refs`
/// selects, and the map from ref name to target for them and for the symrefs
/// that `requested_symrefs` selects.
pub fn resolve_refs(
    repo: &RepoSnapshot,
    requested_refs: &RequestedRefs,
    tag_inclusion: TagInclusion,
    requested_symrefs: RequestedSymrefs,
) -> (r: Result<(BookmarkMap, RefMap), Error>)
    ensures
        r is Ok <==> spec_resolve_refs(*repo, *requested_refs, tag_inclusion, requested_symrefs)
            is Some,
        r matches Ok(resolved) ==> {
            &&& bookmark_map_contents(resolved.0) == spec_bookmarks(
                repo.bookmark_map(),
                *requested_refs,
            )
            &&& Some(ref_map_contents(resolved.1)) == spec_resolve_refs(
                *repo,
                *requested_refs,
                tag_inclusion,
                requested_symrefs,
            )
        },
        r matches Err(e) ==> is_resolve_error(
            *repo,
            *requested_refs,
            tag_inclusion,
            requested_symrefs,
            e,
        ),
{
    // The bookmarks, branches and tags, that the request selects
    let selected = match bookmarks(repo, requested_refs) {
        Err(e) => {
            return Err(e);
        },
        Ok(selected) => selected,
    };
    // The refs that stand for them, at Git objects
    let mut refs = match refs_to_include(repo, &selected, tag_inclusion) {
        Err(e) => {
            return Err(e);
        },
        Ok(refs) => refs,
    };
    // The symrefs that the request selects
    match include_symrefs(repo, requested_symrefs, &mut refs) {
        Err(e) => Err(e),
        Ok(()) => Ok((selected, refs)),
    }
}

/// Whether `r` is what `ls_refs_response` returns for `request` in `repo`:
/// the resolved refs where the request can be resolved, and otherwise the
/// error that tells why it cannot.
pub open spec fn ls_refs_result(
    repo: RepoSnapshot,
    request: LsRefsRequest,
    r: Result<LsRefsResponse, Error>,
) -> bool {
    let resolved = spec_resolve_refs(
        repo,
        request.requested_refs,
        request.tag_inclusion,
        request.requested_symrefs,
    );
    match r {
        Ok(response) => resolved == Some(ref_map_contents(response.refs)),
        Err(e) => resolved is None && is_resolve_error(
            repo,
            request.requested_refs,
            request.tag_inclusion,
            request.requested_symrefs,
            e,
        ),
    }
}

/// The answer to a request for the refs of `repo`: the refs for the bookmarks
/// that the request selects, and the symrefs that it selects.
///
/// Fails where a name that the request supplies is malformed, where a
/// selected bookmark is at a changeset without a Git commit, and where a
/// selected symref cannot be resolved.
pub fn ls_refs_response(repo: &RepoSnapshot, request: LsRefsRequest) -> (r: Result<
    LsRefsResponse,
    Error,
>)
    ensures
        ls_refs_result(*repo, request, r),
{
    match resolve_refs(
        repo,
        &request.requested_refs,
        request.tag_inclusion,
        request.requested_symrefs,
    ) {
        Err(e) => Err(e),
        Ok(resolved) => Ok(LsRefsResponse::new(resolved.1)),
    }
}

/// The plain values of a concatenation are those of its parts, concatenated.
proof fn lemma_item_views_concat(a: Seq<PendingItem>, b: Seq<PendingItem>)
    ensures
        item_views(a + b) == item_views(a) + item_views(b),
{
    assert(item_views(a + b) =~= item_views(a) + item_views(b));
}

/// There is one tree or blob item for each manifest entry.
pub proof fn lemma_tree_and_blob_items_len(
    delta_inclusion: DeltaInclusion,
    inclusion: PackfileItemInclusion,
    commits: Seq<TargetCommit>,
)
    ensures
        tree_and_blob_items(delta_inclusion, inclusion, commits).len() == manifest_oids(
            commits,
        ).len(),
    decreases commits.len(),
{
    if commits.len() > 0 {
        lemma_tree_and_blob_items_len(delta_inclusion, inclusion, commits.drop_last());
    }
}

/// Puts the three parts of a pack together, and counts its objects: the
/// commits, the distinct trees and blobs, and the tags.
fn compose(
    tag_stream: Vec<PendingItem>,
    tags_count: usize,
    commit_stream: Vec<PendingItem>,
    blob_and_tree_stream: Vec<PendingItem>,
    trees_and_blobs_count: usize,
    commits_count: usize,
) -> (r: (Vec<PendingItem>, usize))
    requires
        tags_count == tag_stream@.len(),
        commits_count == commit_stream@.len(),
        trees_and_blobs_count <= blob_and_tree_stream@.len(),
    ensures
        item_views(r.0@) == item_views(tag_stream@) + item_views(commit_stream@) + item_views(
            blob_and_tree_stream@,
        ),
        r.1 == commits_count + trees_and_blobs_count + tags_count,
{
    let mut packfile_stream = tag_stream;
    let mut commit_stream = commit_stream;
    let mut blob_and_tree_stream = blob_and_tree_stream;
    proof {
        lemma_item_views_concat(packfile_stream@, commit_stream@);
        lemma_item_views_concat(packfile_stream@ + commit_stream@, blob_and_tree_stream@);
    }
    packfile_stream.append(&mut commit_stream);
    packfile_stream.append(&mut blob_and_tree_stream);
    let length = packfile_stream.len();
    assert(commits_count + trees_and_blobs_count + tags_count <= length);
    let object_count = commits_count + trees_and_blobs_count + tags_count;
    (packfile_stream, object_count)
}

/// Whether `response` is the pack for the commits `commits`, in the order in
/// which they go out, and for the tags of the bookmarks `bookmarks`.
pub open spec fn is_pack_stream_response(
    repo: RepoSnapshot,
    bookmarks: Map<Seq<char>, Seq<u8>>,
    commits: Seq<TargetCommit>,
    delta_inclusion: DeltaInclusion,
    inclusion: PackfileItemInclusion,
    response: PackItemStreamResponse,
) -> bool {
    exists|names: Seq<Seq<char>>|
        {
            &&& enumerates(names, annotated_tags(bookmarks, repo.tag_map()))
            &&& item_views(response.stream@) == pack_items(
                #[trigger] named_tag_items(names, repo.tag_map(), inclusion),
                repo.git_map(),
                commits,
                delta_inclusion,
                inclusion,
            )
            &&& response.object_count == commits.len() + spec_trees_and_blobs_count(commits)
                + names.len()
        }
}

/// Whether `r` is what `generate_pack_item_stream` returns for `request` in
/// `repo`, where the commit graph answered `ancestors_difference`.
///
/// It is a pack exactly if the refs can be resolved and every commit of the
/// answer has a Git commit. A resolution that fails gives its error; a commit
/// without a Git commit gives `Error::MissingGitMapping`.
pub open spec fn pack_stream_result(
    repo: RepoSnapshot,
    ancestors_difference: Seq<TargetCommit>,
    request: PackItemStreamRequest,
    r: Result<PackItemStreamResponse, Error>,
) -> bool {
    let resolved = spec_resolve_refs(
        repo,
        request.requested_refs,
        request.tag_inclusion,
        request.requested_symrefs,
    );
    let commits = ancestors_difference.reverse();
    match r {
        Ok(response) => {
            &&& resolved == Some(ref_map_contents(response.refs))
            &&& commits_mapped(repo.git_map(), commits)
            &&& is_pack_stream_response(
                repo,
                spec_bookmarks(repo.bookmark_map(), request.requested_refs),
                commits,
                request.delta_inclusion,
                request.packfile_item_inclusion,
                response,
            )
        },
        Err(e) => if resolved is Some {
            is_unmapped_commit_error(repo.git_map(), commits, e)
        } else {
            is_resolve_error(
                repo,
                request.requested_refs,
                request.tag_inclusion,
                request.requested_symrefs,
                e,
            )
        },
    }
}

/// The pack that answers `request`: its items in the order in which they go
/// out, the number of objects that it declares, and the refs that it was made
/// for.
///
/// `ancestors_difference` is the commit graph's answer to the question of
/// `pack_commit_set`, each commit with its Git delta manifest. The commits go
/// out in reverse of that answer. The items are the tag objects of the
/// selected annotated tags, then the commit objects in the order of the
/// commits, then the trees and blobs commit by commit, each commit's in the
/// order of its manifest. Tags and commits go out in base form; a tree or a
/// blob goes out as the delta chooser says. The count is the number of
/// commits, of distinct trees and blobs, and of tag objects.
///
/// Fails where the refs cannot be resolved, and with
/// `Error::MissingGitMapping` where a commit of the pack has no Git commit.
pub fn generate_pack_item_stream(
    repo: &RepoSnapshot,
    ancestors_difference: Vec<TargetCommit>,
    request: PackItemStreamRequest,
) -> (r: Result<PackItemStreamResponse, Error>)
    ensures
        pack_stream_result(*repo, ancestors_difference@, request, r),
{
    // The commits go out oldest first, so that no delta comes before its base
    let target_commits = target_commits(ancestors_difference);
    let commits_count = target_commits.len();
    // The distinct trees and blobs of the pack
    let trees_and_blobs_count = trees_and_blobs_count(&target_commits);
    // The bookmarks that the request selects, and the refs for them and for
    // the symrefs
    let (selected, refs) = match resolve_refs(
        repo,
        &request.requested_refs,
        request.tag_inclusion,
        request.requested_symrefs,
    ) {
        Err(e) => {
            return Err(e);
        },
        Ok(resolved) => resolved,
    };
    // The trees and blobs, as deltas where possible
    let blob_and_tree_stream = blob_and_tree_packfile_stream(
        &target_commits,
        request.delta_inclusion,
        request.packfile_item_inclusion,
    );
    // The commit objects
    let commit_stream = match commit_packfile_stream(
        repo,
        &target_commits,
        request.packfile_item_inclusion,
    ) {
        Err(e) => {
            return Err(e);
        },
        Ok(commit_stream) => commit_stream,
    };
    // The tag objects, which are yet to be counted
    let (tag_stream, tags_count) = tag_packfile_stream(repo, &selected, &request);
    proof {
        lemma_tree_and_blob_items_len(
            request.delta_inclusion,
            request.packfile_item_inclusion,
            target_commits@,
        );
        assert(item_views(commit_stream@).len() == commit_stream@.len());
        assert(item_views(blob_and_tree_stream@).len() == blob_and_tree_stream@.len());
    }
    let ghost tag_views = item_views(tag_stream@);
    let (packfile_stream, object_count) = compose(
        tag_stream,
        tags_count,
        commit_stream,
        blob_and_tree_stream,
        trees_and_blobs_count,
        commits_count,
    );
    let response = PackItemStreamResponse::new(packfile_stream, object_count, refs);
    proof {
        let names = choose|names: Seq<Seq<char>>|
            {
                &&& enumerates(
                    names,
                    annotated_tags(bookmark_map_contents(selected), repo.tag_map()),
                )
                &&& #[trigger] named_tag_items(
                    names,
                    repo.tag_map(),
                    request.packfile_item_inclusion,
                ) == tag_views
            };
        assert(tag_views.len() == names.len());
        assert(enumerates(
            names,
            annotated_tags(
                spec_bookmarks(repo.bookmark_map(), request.requested_refs),
                repo.tag_map(),
            ),
        ));
    }
    Ok(response)
}

/// Whether `response` is the pack that answers a fetch of the commits
/// `commits`, in the order in which they go out.
pub open spec fn is_fetch_response(
    repo: RepoSnapshot,
    commits: Seq<TargetCommit>,
    response: FetchResponse,
) -> bool {
    &&& item_views(response.stream@) == pack_items(
        tag_object_items(repo.bonsai_tag_mapping@, PackfileItemInclusion::FetchAndStore),
        repo.git_map(),
        commits,
        DeltaInclusion::standard(),
        PackfileItemInclusion::FetchAndStore,
    )
    &&& response.object_count == commits.len() + spec_trees_and_blobs_count(commits)
        + repo.bonsai_tag_mapping@.len()
}

/// Whether `r` is what `fetch_response` returns in `repo`, where the commit
/// graph answered `ancestors_difference`: a pack exactly if every commit of
/// the answer has a Git commit, and otherwise `Error::MissingGitMapping` with
/// the first commit, in the order of the pack, that has none.
pub open spec fn fetch_result(
    repo: RepoSnapshot,
    ancestors_difference: Seq<TargetCommit>,
    r: Result<FetchResponse, Error>,
) -> bool {
    let commits = ancestors_difference.reverse();
    match r {
        Ok(response) => commits_mapped(repo.git_map(), commits) && is_fetch_response(
            repo,
            commits,
            response,
        ),
        Err(e) => is_unmapped_commit_error(repo.git_map(), commits, e),
    }
}

/// The pack that answers a fetch: its items in the order in which they go
/// out, and the number of objects that it declares.
///
/// `ancestors_difference` is the commit graph's answer to the question of
/// `fetch_commit_set`, each commit with its Git delta manifest. The pack is
/// laid out as `generate_pack_item_stream` lays it out, with two differences:
/// it holds the tag object of every annotated tag of the repository, whether
/// the fetch reaches it or not, in the order of the bonsai-tag mapping; and
/// deltas are included at the standard threshold and base items are fetched
/// and stored, whatever the client says.
///
/// Fails with `Error::MissingGitMapping`, for the first such commit in the
/// order of the pack, where a commit of the pack has no Git commit.
pub fn fetch_response(repo: &RepoSnapshot, ancestors_difference: Vec<TargetCommit>) -> (r: Result<
    FetchResponse,
    Error,
>)
    ensures
        fetch_result(*repo, ancestors_difference@, r),
{
    let delta_inclusion = DeltaInclusion::standard();
    let packfile_item_inclusion = PackfileItemInclusion::FetchAndStore;
    // The commits go out oldest first, so that no delta comes before its base
    let target_commits = target_commits(ancestors_difference);
    let commits_count = target_commits.len();
    // The distinct trees and blobs of the pack
    let trees_and_blobs_count = trees_and_blobs_count(&target_commits);
    // The trees and blobs, as deltas where possible
    let blob_and_tree_stream = blob_and_tree_packfile_stream(
        &target_commits,
        delta_inclusion,
        packfile_item_inclusion,
    );
    // The commit objects
    let commit_stream = match commit_packfile_stream(
        repo,
        &target_commits,
        packfile_item_inclusion,
    ) {
        Err(e) => {
            return Err(e);
        },
        Ok(commit_stream) => commit_stream,
    };
    // Every annotated tag of the repository: to send them all is much faster
    // than to pick those that the fetch reaches, Git ignores what it does not
    // need, and a tag object is small
    let (tag_stream, tags_count) = all_tags_packfile_stream(repo);
    proof {
        lemma_tree_and_blob_items_len(delta_inclusion, packfile_item_inclusion, target_commits@);
        assert(item_views(tag_stream@).len() == tag_stream@.len());
        assert(item_views(commit_stream@).len() == commit_stream@.len());
        assert(item_views(blob_and_tree_stream@).len() == blob_and_tree_stream@.len());
    }
    let (packfile_stream, object_count) = compose(
        tag_stream,
        tags_count,
        commit_stream,
        blob_and_tree_stream,
        trees_and_blobs_count,
        commits_count,
    );
    Ok(FetchResponse::new(packfile_stream, object_count))
}

/// The set of the values of `entries`.
proof fn lemma_values_of_entries(entries: Seq<(crate::bookmark::BookmarkKey, ChangesetId)>)
    requires
        crate::collections::distinct_names(entries),
    ensures
        crate::collections::pairs_map(bookmark_pairs(entries)).values() =~= Set::new(
            |c: Seq<u8>| exists|i: int| 0 <= i < entries.len() && (#[trigger] entries[i]).1@ == c,
        ),
{
    let pairs = bookmark_pairs(entries);
    let map = crate::collections::pairs_map(pairs);
    assert forall|a: int, b: int| 0 <= a < b < pairs.len() implies (#[trigger] pairs[a]).0 != (
    #[trigger] pairs[b]).0 by {
        assert(entries[a].0@ != entries[b].0@);
    }
    assert forall|c: Seq<u8>| map.values().contains(c) <==> (exists|i: int|
        0 <= i < entries.len() && (#[trigger] entries[i]).1@ == c) by {
        if map.values().contains(c) {
            let name = choose|name: Seq<char>| map.contains_key(name) && map[name] == c;
            lemma_pairs_map_contains(pairs, name);
            let i = choose|i: int| 0 <= i < pairs.len() && (#[trigger] pairs[i]).0 == name;
            lemma_pairs_map_holds(pairs, i);
            assert(entries[i].1@ == c);
        }
        if exists|i: int| 0 <= i < entries.len() && (#[trigger] entries[i]).1@ == c {
            let i = choose|i: int| 0 <= i < entries.len() && (#[trigger] entries[i]).1@ == c;
            lemma_pairs_map_holds(pairs, i);
            assert(map.contains_key(pairs[i].0) && map[pairs[i].0] == c);
        }
    }
}

/// What the commit graph is asked for the pack that answers `request`: the
/// ancestors of the changesets that the selected bookmarks are at, without
/// the ancestors of the request's `have_heads`. The heads come in no fixed
/// order.
///
/// Fails, as the resolution of the refs does, where a name that the request
/// supplies is malformed.
pub fn pack_commit_set(repo: &RepoSnapshot, request: &PackItemStreamRequest) -> (r: Result<
    CommitSetQuery,
    Error,
>)
    ensures
        r is Ok <==> request_well_formed(request.requested_refs),
        r matches Ok(query) ==> {
            &&& changeset_set(query.heads@) == spec_bookmarks(
                repo.bookmark_map(),
                request.requested_refs,
            ).values()
            &&& query.haves@ == request.have_heads@
        },
        r matches Err(e) ==> is_malformed_name_error(request.requested_refs, e),
{
    let selected = match bookmarks(repo, &request.requested_refs) {
        Err(e) => {
            return Err(e);
        },
        Ok(selected) => selected,
    };
    let entries = bookmark_map_entries(&selected);
    let mut heads: Vec<ChangesetId> = Vec::new();
    let mut i: usize = 0;
    while i < entries.len()
        invariant
            i <= entries.len(),
            heads@.len() == i,
            forall|j: int| 0 <= j < i ==> (#[trigger] heads@[j]) == entries@[j].1,
        decreases entries.len() - i,
    {
        heads.push(entries[i].1);
        i += 1;
    }
    let haves = request.have_heads.clone();
    proof {
        lemma_values_of_entries(entries@);
        assert forall|c: Seq<u8>| changeset_set(heads@).contains(c) <==> (exists|i: int|
            0 <= i < entries@.len() && (#[trigger] entries@[i]).1@ == c) by {
            if changeset_set(heads@).contains(c) {
                let j = choose|j: int| 0 <= j < heads@.len() && (#[trigger] heads@[j])@ == c;
                assert(entries@[j].1@ == c);
            }
            if exists|i: int| 0 <= i < entries@.len() && (#[trigger] entries@[i]).1@ == c {
                let j = choose|j: int| 0 <= j < entries@.len() && (#[trigger] entries@[j]).1@ == c;
                assert(heads@[j]@ == c);
            }
        }
        assert(changeset_set(heads@) =~= bookmark_map_contents(selected).values());
        assert(haves@ =~= request.have_heads@);
    }
    Ok(CommitSetQuery { heads, haves })
}

/// What the commit graph is asked for the pack that answers the fetch
/// `request`: the ancestors of the changesets that the request's `heads`
/// stand for, without the ancestors of those that its `bases` stand for. An
/// id that is neither a commit nor an annotated tag of the repository stands
/// for nothing.
pub fn fetch_commit_set(repo: &RepoSnapshot, request: &FetchRequest) -> (query: CommitSetQuery)
    ensures
        query.heads@ == spec_git_shas_to_bonsais(*repo, request.heads@),
        query.haves@ == spec_git_shas_to_bonsais(*repo, request.bases@),
{
    let haves = git_shas_to_bonsais(repo, &request.bases);
    let heads = git_shas_to_bonsais(repo, &request.heads);
    CommitSetQuery { heads, haves }
}

} // verus!
