//! The commit set resolver: which commits the commit graph is asked for, and
//! the order in which its answer goes into a pack.

use crate::bookmark::BookmarkKey;
use crate::bookmark::name_is_tag;
use crate::collections::name_set_contains;
use crate::collections::name_set_contents;
use crate::collections::name_set_insert;
use crate::collections::name_set_new;
use crate::hash::ChangesetId;
use crate::hash::GitObjectId;
use crate::manifest::TargetCommit;
use crate::repo::BonsaiGitMappingEntry;
use crate::repo::BonsaiTagMappingEntry;
use crate::repo::RepoSnapshot;
use vstd::prelude::*;

verus! {

/// What the commit graph is asked: the ancestors of `heads`, these included,
/// that are not ancestors of `haves`.
#[derive(Clone, Debug, PartialEq, Eq)]
pub struct CommitSetQuery {
    pub heads: Vec<ChangesetId>,
    pub haves: Vec<ChangesetId>,
}

/// The commits of a pack in the order in which they go out: the answer of
/// the commit graph reversed. The graph names a commit before its ancestors;
/// reversed, every commit comes after them, so that no delta needs a base
/// that the pack has yet to bring.
pub fn target_commits(ancestors_difference: Vec<TargetCommit>) -> (commits: Vec<TargetCommit>)
    ensures
        commits@ == ancestors_difference@.reverse(),
{
    let ghost given = ancestors_difference@;
    let mut rest = ancestors_difference;
    let mut commits: Vec<TargetCommit> = Vec::new();
    proof {
        assert(given.skip(given.len() as int).reverse() =~= commits@);
        assert(given.take(given.len() as int) =~= given);
    }
    while rest.len() > 0
        invariant
            rest@ == given.take(rest@.len() as int),
            rest@.len() <= given.len(),
            commits@ == given.skip(rest@.len() as int).reverse(),
        decreases rest.len(),
    {
        let ghost n = rest@.len() as int;
        let last = rest.pop();
        proof {
            assert(rest@ =~= given.take(n - 1));
            assert(given.skip(n - 1).reverse() =~= given.skip(n).reverse().push(given[n - 1]));
        }
        match last {
            Some(commit) => {
                commits.push(commit);
            },
            None => {},
        }
    }
    proof {
        assert(given.skip(0) =~= given);
    }
    commits
}

/// Whether `oid` is one of `oids`.
pub open spec fn oids_contain(oids: Seq<GitObjectId>, oid: Seq<u8>) -> bool {
    exists|i: int| 0 <= i < oids.len() && (#[trigger] oids[i])@ == oid
}

/// Whether `oid` is one of `oids`.
fn contains_oid(oids: &Vec<GitObjectId>, oid: &GitObjectId) -> (r: bool)
    ensures
        r == oids_contain(oids@, oid@),
{
    let mut i: usize = 0;
    while i < oids.len()
        invariant
            i <= oids.len(),
            forall|j: int| 0 <= j < i ==> (#[trigger] oids[j])@ != oid@,
        decreases oids.len() - i,
    {
        if oids[i] == *oid {
            return true;
        }
        i += 1;
    }
    false
}

/// The names of the annotated tags of `tags` whose tag object is one of
/// `git_shas`.
pub open spec fn tag_names_of(
    tags: Seq<BonsaiTagMappingEntry>,
    git_shas: Seq<GitObjectId>,
) -> Set<Seq<char>> {
    Set::new(
        |name: Seq<char>|
            exists|i: int|
                0 <= i < tags.len() && (#[trigger] tags[i]).tag_name@ == name && oids_contain(
                    git_shas,
                    tags[i].tag_hash@,
                ),
    )
}

/// The changesets of the bookmarks of `listing` that are tags with a name
/// among `names`, in the order of the listing.
pub open spec fn tag_changesets(
    listing: Seq<(BookmarkKey, ChangesetId)>,
    names: Set<Seq<char>>,
) -> Seq<ChangesetId>
    decreases listing.len(),
{
    if listing.len() == 0 {
        Seq::empty()
    } else {
        let rest = tag_changesets(listing.drop_last(), names);
        if name_is_tag(listing.last().0@) && names.contains(listing.last().0@) {
            rest.push(listing.last().1)
        } else {
            rest
        }
    }
}

/// The changesets that the annotated tags with the tag objects `git_shas`
/// point to.
pub open spec fn spec_tagged_commits(repo: RepoSnapshot, git_shas: Seq<GitObjectId>) -> Seq<
    ChangesetId,
> {
    tag_changesets(repo.bookmarks@, tag_names_of(repo.bonsai_tag_mapping@, git_shas))
}

/// The changesets that the annotated tags with the tag objects `git_shas`
/// point to: the bonsai-tag mapping of `repo` gives the names of those tags,
/// and each bookmark under `tags/` with such a name gives its changeset, in
/// the order of the bookmarks.
pub fn tagged_commits(repo: &RepoSnapshot, git_shas: &Vec<GitObjectId>) -> (commits: Vec<
    ChangesetId,
>)
    ensures
        commits@ == spec_tagged_commits(*repo, git_shas@),
{
    let ghost names = tag_names_of(repo.bonsai_tag_mapping@, git_shas@);
    if git_shas.len() == 0 {
        proof {
            assert(names =~= Set::<Seq<char>>::empty());
            lemma_tag_changesets_of_none(repo.bookmarks@);
        }
        return Vec::new();
    }
    // The names of the tags whose tag object is one of the ids
    let tags = &repo.bonsai_tag_mapping;
    let mut tag_names = name_set_new();
    let mut k: usize = 0;
    while k < tags.len()
        invariant
            k <= tags.len(),
            name_set_contents(tag_names) == tag_names_of(tags@.take(k as int), git_shas@),
        decreases tags.len() - k,
    {
        let listed = contains_oid(git_shas, &tags[k].tag_hash);
        proof {
            let before = tag_names_of(tags@.take(k as int), git_shas@);
            let after = tag_names_of(tags@.take(k as int + 1), git_shas@);
            let name = tags@[k as int].tag_name@;
            assert forall|n: Seq<char>| after.contains(n) <==> (before.contains(n) || (listed && n
                == name)) by {
                if before.contains(n) {
                    let i = choose|i: int|
                        0 <= i < tags@.take(k as int).len() && (#[trigger] tags@.take(
                            k as int,
                        )[i]).tag_name@ == n && oids_contain(
                            git_shas@,
                            tags@.take(k as int)[i].tag_hash@,
                        );
                    assert(tags@.take(k as int + 1)[i] == tags@.take(k as int)[i]);
                }
                if listed && n == name {
                    assert(tags@.take(k as int + 1)[k as int] == tags@[k as int]);
                }
                if after.contains(n) {
                    let i = choose|i: int|
                        0 <= i < tags@.take(k as int + 1).len() && (#[trigger] tags@.take(
                            k as int + 1,
                        )[i]).tag_name@ == n && oids_contain(
                            git_shas@,
                            tags@.take(k as int + 1)[i].tag_hash@,
                        );
                    if i < k {
                        assert(tags@.take(k as int)[i] == tags@.take(k as int + 1)[i]);
                    }
                }
            }
            if listed {
                assert(after =~= before.insert(name));
            } else {
                assert(after =~= before);
            }
        }
        if listed {
            name_set_insert(&mut tag_names, tags[k].tag_name.clone());
        }
        k += 1;
    }
    proof {
        assert(tags@.take(k as int) =~= tags@);
    }
    // The changesets that those tags point to
    let listing = &repo.bookmarks;
    let mut commits: Vec<ChangesetId> = Vec::new();
    let mut i: usize = 0;
    while i < listing.len()
        invariant
            i <= listing.len(),
            name_set_contents(tag_names) == names,
            commits@ == tag_changesets(listing@.take(i as int), names),
        decreases listing.len() - i,
    {
        proof {
            assert(listing@.take(i as int + 1).drop_last() =~= listing@.take(i as int));
        }
        let bookmark = &listing[i].0;
        if bookmark.is_tag() && name_set_contains(&tag_names, bookmark.name()) {
            commits.push(listing[i].1);
        }
        i += 1;
    }
    proof {
        assert(listing@.take(i as int) =~= listing@);
    }
    commits
}

/// No bookmark is a tag with a name out of no names.
proof fn lemma_tag_changesets_of_none(listing: Seq<(BookmarkKey, ChangesetId)>)
    ensures
        tag_changesets(listing, Set::<Seq<char>>::empty()) == Seq::<ChangesetId>::empty(),
    decreases listing.len(),
{
    if listing.len() > 0 {
        lemma_tag_changesets_of_none(listing.drop_last());
    }
}

/// Whether some row of `entries` is for the Git object `oid`.
pub open spec fn git_rows_contain(entries: Seq<BonsaiGitMappingEntry>, oid: Seq<u8>) -> bool {
    exists|i: int| 0 <= i < entries.len() && (#[trigger] entries[i]).git_sha1@ == oid
}

/// The changesets of the rows of `entries` whose Git object is one of
/// `oids`, in the order of the rows.
pub open spec fn mapped_changesets(
    entries: Seq<BonsaiGitMappingEntry>,
    oids: Seq<GitObjectId>,
) -> Seq<ChangesetId>
    decreases entries.len(),
{
    if entries.len() == 0 {
        Seq::empty()
    } else {
        let rest = mapped_changesets(entries.drop_last(), oids);
        if oids_contain(oids, entries.last().git_sha1@) {
            rest.push(entries.last().bcs_id)
        } else {
            rest
        }
    }
}

/// Those of `oids` for which `entries` has no row, in order.
pub open spec fn unmapped_oids(
    entries: Seq<BonsaiGitMappingEntry>,
    oids: Seq<GitObjectId>,
) -> Seq<GitObjectId>
    decreases oids.len(),
{
    if oids.len() == 0 {
        Seq::empty()
    } else {
        let rest = unmapped_oids(entries, oids.drop_last());
        if git_rows_contain(entries, oids.last()@) {
            rest
        } else {
            rest.push(oids.last())
        }
    }
}

/// The changesets that the Git objects `oids` stand for: the changesets that
/// annotated tags among them point to, followed by the changesets of the
/// commits among them. An id that is neither is left out.
pub open spec fn spec_git_shas_to_bonsais(repo: RepoSnapshot, oids: Seq<GitObjectId>) -> Seq<
    ChangesetId,
> {
    spec_tagged_commits(repo, unmapped_oids(repo.bonsai_git_mapping@, oids)) + mapped_changesets(
        repo.bonsai_git_mapping@,
        oids,
    )
}

/// Whether some row of `entries` is for the Git object `oid`.
fn has_git_row(entries: &Vec<BonsaiGitMappingEntry>, oid: &GitObjectId) -> (r: bool)
    ensures
        r == git_rows_contain(entries@, oid@),
{
    let mut i: usize = 0;
    while i < entries.len()
        invariant
            i <= entries.len(),
            forall|j: int| 0 <= j < i ==> (#[trigger] entries[j]).git_sha1@ != oid@,
        decreases entries.len() - i,
    {
        if entries[i].git_sha1 == *oid {
            return true;
        }
        i += 1;
    }
    false
}

/// The changesets that the Git object ids `oids` stand for.
///
/// An id with a row in the bonsai-git mapping of `repo` is a commit and
/// stands for the changeset of that row. Every other id is taken for the
/// object of an annotated tag and stands for the changesets that
/// `tagged_commits` finds for it, which may be none: an id that is neither
/// is left out. The changesets found through tags come first, then those of
/// the commits in the order of the mapping's rows.
pub fn git_shas_to_bonsais(repo: &RepoSnapshot, oids: &Vec<GitObjectId>) -> (commits: Vec<
    ChangesetId,
>)
    ensures
        commits@ == spec_git_shas_to_bonsais(*repo, oids@),
{
    let entries = &repo.bonsai_git_mapping;
    // The ids without a row are likely annotated tags
    let mut tag_shas: Vec<GitObjectId> = Vec::new();
    let mut k: usize = 0;
    while k < oids.len()
        invariant
            k <= oids.len(),
            tag_shas@ == unmapped_oids(entries@, oids@.take(k as int)),
        decreases oids.len() - k,
    {
        proof {
            assert(oids@.take(k as int + 1).drop_last() =~= oids@.take(k as int));
        }
        if !has_git_row(entries, &oids[k]) {
            tag_shas.push(oids[k]);
        }
        k += 1;
    }
    proof {
        assert(oids@.take(k as int) =~= oids@);
    }
    let mut commits = tagged_commits(repo, &tag_shas);
    let ghost from_tags = commits@;
    let mut i: usize = 0;
    proof {
        assert(commits@ =~= from_tags + mapped_changesets(entries@.take(0), oids@));
    }
    while i < entries.len()
        invariant
            i <= entries.len(),
            commits@ == from_tags + mapped_changesets(entries@.take(i as int), oids@),
        decreases entries.len() - i,
    {
        proof {
            assert(entries@.take(i as int + 1).drop_last() =~= entries@.take(i as int));
        }
        if contains_oid(oids, &entries[i].git_sha1) {
            commits.push(entries[i].bcs_id);
        }
        i += 1;
    }
    proof {
        assert(entries@.take(i as int) =~= entries@);
    }
    commits
}

} // verus!
