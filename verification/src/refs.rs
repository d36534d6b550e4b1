//! The ref resolver: from the refs that a request selects to the map from
//! ref name to target.

use crate::bookmark::BookmarkKey;
use crate::bookmark::name_is_tag;
use crate::bookmark::name_is_well_formed;
use crate::bookmark::ref_name_of;
use crate::bookmark::refs_prefix;
use crate::collections::BookmarkMap;
use crate::collections::GitMap;
use crate::collections::RefMap;
use crate::collections::TagMap;
use crate::collections::bookmark_map_contents;
use crate::collections::bookmark_map_entries;
use crate::collections::bookmark_map_insert;
use crate::collections::bookmark_map_new;
use crate::collections::bookmark_pairs;
use crate::collections::distinct_names;
use crate::collections::git_map_contents;
use crate::collections::git_map_get;
use crate::collections::git_map_insert;
use crate::collections::git_map_new;
use crate::collections::lemma_pairs_map_contains;
use crate::collections::lemma_pairs_map_holds;
use crate::collections::pairs_map;
use crate::collections::ref_map_contents;
use crate::collections::ref_map_get;
use crate::collections::ref_map_insert;
use crate::collections::ref_map_names;
use crate::collections::ref_map_new;
use crate::collections::tag_map_contents;
use crate::collections::tag_map_get;
use crate::collections::tag_map_insert;
use crate::collections::tag_map_new;
use crate::error::Error;
use crate::hash::ChangesetId;
use crate::repo::BonsaiGitMappingEntry;
use crate::repo::BonsaiTagMappingEntry;
use crate::repo::GitSymbolicRefsEntry;
use crate::repo::RepoSnapshot;
use crate::repo::git_pairs;
use crate::repo::tag_pairs;
use crate::text::any_prefix_of;
use crate::text::contains_name;
use crate::text::has_any_prefix;
use crate::text::join;
use crate::text::names_contain;
use crate::text::str_eq;
use crate::types::RefTarget;
use crate::types::RefTargetView;
use crate::types::RequestedRefs;
use crate::types::RequestedSymrefs;
use crate::types::SymrefFormat;
use crate::types::TagInclusion;
use crate::types::peeled_metadata;
use crate::types::spec_symref_target;
use crate::types::symref_target;
use vstd::prelude::*;

verus! {

/// Whether `requested`, a request that filters the repository's bookmarks,
/// selects the bookmark named `name`.
pub open spec fn selects(requested: RequestedRefs, name: Seq<char>) -> bool {
    match requested {
        RequestedRefs::Included(names) => names_contain(names@, name),
        RequestedRefs::IncludedWithPrefix(prefixes) => any_prefix_of(prefixes@, ref_name_of(name)),
        RequestedRefs::Excluded(names) => !names_contain(names@, name),
        RequestedRefs::IncludedWithValue(_) => false,
    }
}

/// Names and changesets as plain values.
pub open spec fn value_pairs(values: Seq<(String, ChangesetId)>) -> Seq<(Seq<char>, Seq<u8>)> {
    values.map_values(|v: (String, ChangesetId)| (v.0@, v.1@))
}

/// Whether every name among `values` is well-formed.
pub open spec fn names_well_formed(values: Seq<(String, ChangesetId)>) -> bool {
    forall|i: int| 0 <= i < values.len() ==> name_is_well_formed((#[trigger] values[i]).0@)
}

/// The bookmarks that `requested` selects, each with its changeset. A
/// request that filters takes the bookmarks of `listing` that it selects. A
/// request with values takes its own names at its own changesets, whether
/// `listing` has them or not.
pub open spec fn spec_bookmarks(
    listing: Map<Seq<char>, Seq<u8>>,
    requested: RequestedRefs,
) -> Map<Seq<char>, Seq<u8>> {
    match requested {
        RequestedRefs::IncludedWithValue(values) => pairs_map(value_pairs(values@)),
        _ => listing.restrict(Set::new(|name: Seq<char>| selects(requested, name))),
    }
}

/// Whether `requested` can be resolved: the names that it supplies with a
/// value, if any, are well-formed.
pub open spec fn request_well_formed(requested: RequestedRefs) -> bool {
    requested matches RequestedRefs::IncludedWithValue(values) ==> names_well_formed(values@)
}

/// Whether `e` tells why `requested` cannot be resolved: it names the first
/// of the names supplied with a value that is not well-formed.
pub open spec fn is_malformed_name_error(requested: RequestedRefs, e: Error) -> bool {
    &&& requested matches RequestedRefs::IncludedWithValue(values)
    &&& exists|i: int|
        {
            &&& 0 <= i < values@.len()
            &&& !name_is_well_formed((#[trigger] values@[i]).0@)
            &&& names_well_formed(values@.take(i))
            &&& e matches Error::MalformedRefName(name)
            &&& name@ == values@[i].0@
        }
}

/// Whether `requested`, which filters, selects the bookmark named `name`.
fn is_selected(requested: &RequestedRefs, name: &str) -> (r: bool)
    requires
        !(requested is IncludedWithValue),
    ensures
        r == selects(*requested, name@),
{
    match requested {
        RequestedRefs::Included(names) => contains_name(names, name),
        RequestedRefs::IncludedWithPrefix(prefixes) => {
            let ref_name = join("refs/", name);
            has_any_prefix(prefixes, ref_name.as_str())
        },
        RequestedRefs::Excluded(names) => !contains_name(names, name),
        RequestedRefs::IncludedWithValue(_) => false,
    }
}

/// The bookmarks, branches and tags, that `requested_refs` selects among the
/// publishing bookmarks of `repo`, each with the changeset it is at.
///
/// - `Included` keeps the bookmarks whose name is listed, `Excluded` those
///   whose name is not, and `IncludedWithPrefix` those for which `refs/` and
///   the name begins with a listed prefix.
/// - `IncludedWithValue` yields each supplied name at the changeset supplied
///   with it, whether the repository has a bookmark of that name or not.
///   It fails, with `Error::MalformedRefName` for the first such name, where
///   a supplied name is not well-formed.
pub fn bookmarks(repo: &RepoSnapshot, requested_refs: &RequestedRefs) -> (r: Result<
    BookmarkMap,
    Error,
>)
    ensures
        r is Ok <==> request_well_formed(*requested_refs),
        r matches Ok(m) ==> bookmark_map_contents(m) == spec_bookmarks(
            repo.bookmark_map(),
            *requested_refs,
        ),
        r matches Err(e) ==> is_malformed_name_error(*requested_refs, e),
{
    let mut selected = bookmark_map_new();
    match requested_refs {
        RequestedRefs::IncludedWithValue(values) => {
            let mut i: usize = 0;
            while i < values.len()
                invariant
                    i <= values.len(),
                    requested_refs matches RequestedRefs::IncludedWithValue(supplied) && supplied
                        == *values,
                    names_well_formed(values@.take(i as int)),
                    bookmark_map_contents(selected) == pairs_map(
                        value_pairs(values@.take(i as int)),
                    ),
                decreases values.len() - i,
            {
                let key = match BookmarkKey::new(values[i].0.as_str()) {
                    Err(e) => {
                        proof {
                            assert(!name_is_well_formed(values@[i as int].0@));
                        }
                        return Err(e);
                    },
                    Ok(key) => key,
                };
                proof {
                    let grown = values@.take(i as int + 1);
                    assert(value_pairs(grown).drop_last() =~= value_pairs(values@.take(i as int)));
                    assert forall|j: int| 0 <= j < grown.len() implies name_is_well_formed(
                        (#[trigger] grown[j]).0@,
                    ) by {
                        if j < i {
                            assert(values@.take(i as int)[j] == grown[j]);
                        }
                    }
                }
                bookmark_map_insert(&mut selected, key, values[i].1);
                i += 1;
            }
            proof {
                assert(values@.take(i as int) =~= values@);
            }
            Ok(selected)
        },
        _ => {
            let listing = &repo.bookmarks;
            let ghost chosen = Set::new(|name: Seq<char>| selects(*requested_refs, name));
            let mut i: usize = 0;
            while i < listing.len()
                invariant
                    i <= listing.len(),
                    !(requested_refs is IncludedWithValue),
                    chosen == Set::new(|name: Seq<char>| selects(*requested_refs, name)),
                    bookmark_map_contents(selected) == pairs_map(
                        bookmark_pairs(listing@.take(i as int)),
                    ).restrict(chosen),
                decreases listing.len() - i,
            {
                let keep = is_selected(requested_refs, listing[i].0.name());
                proof {
                    let grown = listing@.take(i as int + 1);
                    let before = pairs_map(bookmark_pairs(listing@.take(i as int)));
                    assert(bookmark_pairs(grown).drop_last() =~= bookmark_pairs(
                        listing@.take(i as int),
                    ));
                    let name = listing@[i as int].0@;
                    let changeset = listing@[i as int].1@;
                    assert(pairs_map(bookmark_pairs(grown)) == before.insert(name, changeset));
                    if keep {
                        assert(chosen.contains(name));
                        assert(before.insert(name, changeset).restrict(chosen) =~= before.restrict(
                            chosen,
                        ).insert(name, changeset));
                    } else {
                        assert(!chosen.contains(name));
                        assert(before.insert(name, changeset).restrict(chosen) =~= before.restrict(
                            chosen,
                        ));
                    }
                }
                if keep {
                    bookmark_map_insert(&mut selected, listing[i].0.duplicate(), listing[i].1);
                }
                i += 1;
            }
            proof {
                assert(listing@.take(i as int) =~= listing@);
            }
            Ok(selected)
        },
    }
}

/// The Git commit id of every mapped changeset of the table `entries`.
pub fn git_map_of(entries: &Vec<BonsaiGitMappingEntry>) -> (m: GitMap)
    ensures
        git_map_contents(m) == pairs_map(git_pairs(entries@)),
{
    let mut m = git_map_new();
    let mut i: usize = 0;
    while i < entries.len()
        invariant
            i <= entries.len(),
            git_map_contents(m) == pairs_map(git_pairs(entries@.take(i as int))),
        decreases entries.len() - i,
    {
        proof {
            assert(git_pairs(entries@.take(i as int + 1)).drop_last() =~= git_pairs(
                entries@.take(i as int),
            ));
        }
        git_map_insert(&mut m, entries[i].bcs_id, entries[i].git_sha1);
        i += 1;
    }
    proof {
        assert(entries@.take(i as int) =~= entries@);
    }
    m
}

/// The tag object of every annotated tag of the table `entries`.
pub fn tag_map_of(entries: &Vec<BonsaiTagMappingEntry>) -> (m: TagMap)
    ensures
        tag_map_contents(m) == pairs_map(tag_pairs(entries@)),
{
    let mut m = tag_map_new();
    let mut i: usize = 0;
    while i < entries.len()
        invariant
            i <= entries.len(),
            tag_map_contents(m) == pairs_map(tag_pairs(entries@.take(i as int))),
        decreases entries.len() - i,
    {
        proof {
            assert(tag_pairs(entries@.take(i as int + 1)).drop_last() =~= tag_pairs(
                entries@.take(i as int),
            ));
        }
        tag_map_insert(&mut m, entries[i].tag_name.clone(), entries[i].tag_hash);
        i += 1;
    }
    proof {
        assert(entries@.take(i as int) =~= entries@);
    }
    m
}

/// The changesets of `cs_ids`, as a set of plain values.
pub open spec fn changeset_set(cs_ids: Seq<ChangesetId>) -> Set<Seq<u8>> {
    Set::new(|c: Seq<u8>| exists|i: int| 0 <= i < cs_ids.len() && (#[trigger] cs_ids[i])@ == c)
}

/// The rows of the bonsai-git mapping of `repo` for the changesets `cs_ids`:
/// the Git commit id of each of them that is mapped.
pub fn bonsai_git_mappings_by_bonsai(repo: &RepoSnapshot, cs_ids: &Vec<ChangesetId>) -> (m: GitMap)
    ensures
        git_map_contents(m) == repo.git_map().restrict(changeset_set(cs_ids@)),
{
    let table = git_map_of(&repo.bonsai_git_mapping);
    let mut m = git_map_new();
    let mut i: usize = 0;
    while i < cs_ids.len()
        invariant
            i <= cs_ids.len(),
            git_map_contents(table) == repo.git_map(),
            git_map_contents(m) == repo.git_map().restrict(
                changeset_set(cs_ids@.take(i as int)),
            ),
        decreases cs_ids.len() - i,
    {
        let found = git_map_get(&table, &cs_ids[i]);
        proof {
            let before = changeset_set(cs_ids@.take(i as int));
            let after = changeset_set(cs_ids@.take(i as int + 1));
            let c = cs_ids@[i as int]@;
            assert forall|x: Seq<u8>| after.contains(x) <==> (before.contains(x) || x == c) by {
                if before.contains(x) {
                    let j = choose|j: int|
                        0 <= j < cs_ids@.take(i as int).len() && (#[trigger] cs_ids@.take(
                            i as int,
                        )[j])@ == x;
                    assert(cs_ids@.take(i as int + 1)[j]@ == x);
                }
                if x == c {
                    assert(cs_ids@.take(i as int + 1)[i as int]@ == x);
                }
                if after.contains(x) {
                    let j = choose|j: int|
                        0 <= j < cs_ids@.take(i as int + 1).len() && (#[trigger] cs_ids@.take(
                            i as int + 1,
                        )[j])@ == x;
                    if j < i {
                        assert(cs_ids@.take(i as int)[j]@ == x);
                    }
                }
            }
            assert(after =~= before.insert(c));
            match found {
                Some(oid) => {
                    assert(repo.git_map().restrict(after) =~= repo.git_map().restrict(
                        before,
                    ).insert(c, oid@));
                },
                None => {
                    assert(repo.git_map().restrict(after) =~= repo.git_map().restrict(before));
                },
            }
        }
        match found {
            Some(oid) => {
                git_map_insert(&mut m, cs_ids[i], oid);
            },
            None => {},
        }
        i += 1;
    }
    proof {
        assert(cs_ids@.take(i as int) =~= cs_ids@);
    }
    m
}

/// The target of the ref for the bookmark `name` at the changeset
/// `changeset`, or `None` where the target is a commit and the changeset has
/// none in `git`.
///
/// A branch, and a tag that `tags` does not hold, is at the commit of its
/// changeset. An annotated tag is at its tag object, at the commit, or at the
/// tag object with the commit as metadata, as `inclusion` says.
pub open spec fn spec_ref_target(
    name: Seq<char>,
    changeset: Seq<u8>,
    git: Map<Seq<u8>, Seq<u8>>,
    tags: Map<Seq<char>, Seq<u8>>,
    inclusion: TagInclusion,
) -> Option<RefTargetView> {
    if name_is_tag(name) && tags.contains_key(name) {
        match inclusion {
            TagInclusion::AsIs => Some(RefTargetView::Plain(tags[name])),
            TagInclusion::Peeled => if git.contains_key(changeset) {
                Some(RefTargetView::Plain(git[changeset]))
            } else {
                None
            },
            TagInclusion::WithTarget => if git.contains_key(changeset) {
                Some(RefTargetView::WithMetadata(tags[name], peeled_metadata(git[changeset])))
            } else {
                None
            },
        }
    } else {
        if git.contains_key(changeset) {
            Some(RefTargetView::Plain(git[changeset]))
        } else {
            None
        }
    }
}

/// Whether every bookmark of `bookmarks` has a target.
pub open spec fn refs_resolvable(
    bookmarks: Map<Seq<char>, Seq<u8>>,
    git: Map<Seq<u8>, Seq<u8>>,
    tags: Map<Seq<char>, Seq<u8>>,
    inclusion: TagInclusion,
) -> bool {
    forall|name: Seq<char>| #[trigger]
        bookmarks.contains_key(name) ==> spec_ref_target(
            name,
            bookmarks[name],
            git,
            tags,
            inclusion,
        ) is Some
}

/// Whether `e` tells why the refs for `bookmarks` cannot be resolved: it
/// names the changeset of a bookmark whose target is a commit that `git` does
/// not hold.
pub open spec fn is_missing_mapping_error(
    bookmarks: Map<Seq<char>, Seq<u8>>,
    git: Map<Seq<u8>, Seq<u8>>,
    tags: Map<Seq<char>, Seq<u8>>,
    inclusion: TagInclusion,
    e: Error,
) -> bool {
    exists|name: Seq<char>|
        {
            &&& #[trigger] bookmarks.contains_key(name)
            &&& spec_ref_target(name, bookmarks[name], git, tags, inclusion) is None
            &&& e matches Error::MissingGitMapping(changeset)
            &&& changeset@ == bookmarks[name]
        }
}

/// The name of the bookmark that the ref named `ref_name` stands for.
pub open spec fn bookmark_of_ref(ref_name: Seq<char>) -> Seq<char> {
    ref_name.subrange(refs_prefix().len() as int, ref_name.len() as int)
}

/// The refs for `bookmarks`: for each bookmark the ref named `refs/` and the
/// bookmark's name, at the bookmark's target; or `None` where a bookmark has
/// no target.
pub open spec fn spec_refs_to_include(
    bookmarks: Map<Seq<char>, Seq<u8>>,
    git: Map<Seq<u8>, Seq<u8>>,
    tags: Map<Seq<char>, Seq<u8>>,
    inclusion: TagInclusion,
) -> Option<Map<Seq<char>, RefTargetView>> {
    if refs_resolvable(bookmarks, git, tags, inclusion) {
        Some(
            Map::new(
                |ref_name: Seq<char>|
                    refs_prefix().is_prefix_of(ref_name) && bookmarks.contains_key(
                        bookmark_of_ref(ref_name),
                    ),
                |ref_name: Seq<char>|
                    spec_ref_target(
                        bookmark_of_ref(ref_name),
                        bookmarks[bookmark_of_ref(ref_name)],
                        git,
                        tags,
                        inclusion,
                    ).unwrap(),
            ),
        )
    } else {
        None
    }
}

/// A ref name begins with `refs/`, and what follows is the bookmark's name.
pub proof fn lemma_bookmark_of_ref(name: Seq<char>)
    ensures
        refs_prefix().is_prefix_of(ref_name_of(name)),
        bookmark_of_ref(ref_name_of(name)) == name,
{
    assert(bookmark_of_ref(ref_name_of(name)) =~= name);
}

/// A name that begins with `refs/` is the ref name of what follows.
pub proof fn lemma_ref_of_bookmark(ref_name: Seq<char>)
    requires
        refs_prefix().is_prefix_of(ref_name),
    ensures
        ref_name_of(bookmark_of_ref(ref_name)) == ref_name,
{
    assert(ref_name_of(bookmark_of_ref(ref_name)) =~= ref_name);
}

/// The refs for the first `n` of `entries`.
pub open spec fn refs_of_entries(
    entries: Seq<(BookmarkKey, ChangesetId)>,
    n: int,
    git: Map<Seq<u8>, Seq<u8>>,
    tags: Map<Seq<char>, Seq<u8>>,
    inclusion: TagInclusion,
) -> Map<Seq<char>, RefTargetView> {
    let bookmarks = pairs_map(bookmark_pairs(entries));
    Map::new(
        |ref_name: Seq<char>|
            exists|j: int| 0 <= j < n && ref_name == ref_name_of((#[trigger] entries[j]).0@),
        |ref_name: Seq<char>|
            spec_ref_target(
                bookmark_of_ref(ref_name),
                bookmarks[bookmark_of_ref(ref_name)],
                git,
                tags,
                inclusion,
            ).unwrap(),
    )
}

/// The Git refs for `bookmarks`, the bookmarks that a request selected. A
/// branch and a simple tag are at the Git commit of their changeset. An
/// annotated tag, one that the bonsai-tag mapping of `repo` holds, is listed
/// as `tag_inclusion` says.
///
/// Fails with `Error::MissingGitMapping` where the target of some bookmark is
/// the commit of a changeset that the bonsai-git mapping does not hold; the
/// error names the changeset of one such bookmark.
pub fn refs_to_include(
    repo: &RepoSnapshot,
    bookmarks: &BookmarkMap,
    tag_inclusion: TagInclusion,
) -> (r: Result<RefMap, Error>)
    ensures
        r is Ok <==> refs_resolvable(
            bookmark_map_contents(*bookmarks),
            repo.git_map(),
            repo.tag_map(),
            tag_inclusion,
        ),
        r matches Ok(refs) ==> Some(ref_map_contents(refs)) == spec_refs_to_include(
            bookmark_map_contents(*bookmarks),
            repo.git_map(),
            repo.tag_map(),
            tag_inclusion,
        ),
        r matches Err(e) ==> is_missing_mapping_error(
            bookmark_map_contents(*bookmarks),
            repo.git_map(),
            repo.tag_map(),
            tag_inclusion,
            e,
        ),
{
    let entries = bookmark_map_entries(bookmarks);
    let mut cs_ids: Vec<ChangesetId> = Vec::new();
    let mut k: usize = 0;
    while k < entries.len()
        invariant
            k <= entries.len(),
            cs_ids@.len() == k,
            forall|j: int| 0 <= j < k ==> (#[trigger] cs_ids@[j]) == entries@[j].1,
        decreases entries.len() - k,
    {
        cs_ids.push(entries[k].1);
        k += 1;
    }
    let bonsai_git_map = bonsai_git_mappings_by_bonsai(repo, &cs_ids);
    let bonsai_tag_map = tag_map_of(&repo.bonsai_tag_mapping);
    let ghost all = bookmark_map_contents(*bookmarks);
    let ghost git = repo.git_map();
    let ghost tags = repo.tag_map();
    let mut refs = ref_map_new();
    let mut i: usize = 0;
    proof {
        assert(ref_map_contents(refs) =~= refs_of_entries(entries@, 0, git, tags, tag_inclusion));
    }
    while i < entries.len()
        invariant
            i <= entries.len(),
            cs_ids@.len() == entries@.len(),
            forall|j: int| 0 <= j < entries@.len() ==> (#[trigger] cs_ids@[j]) == entries@[j].1,
            distinct_names(entries@),
            all == pairs_map(bookmark_pairs(entries@)),
            all == bookmark_map_contents(*bookmarks),
            git == repo.git_map(),
            tags == repo.tag_map(),
            git_map_contents(bonsai_git_map) == git.restrict(changeset_set(cs_ids@)),
            tag_map_contents(bonsai_tag_map) == tags,
            forall|j: int|
                0 <= j < i ==> spec_ref_target(
                    (#[trigger] entries@[j]).0@,
                    entries@[j].1@,
                    git,
                    tags,
                    tag_inclusion,
                ) is Some,
            ref_map_contents(refs) == refs_of_entries(
                entries@,
                i as int,
                git,
                tags,
                tag_inclusion,
            ),
        decreases entries.len() - i,
    {
        let bookmark = &entries[i].0;
        let cs_id = entries[i].1;
        let ghost name = bookmark@;
        proof {
            assert(cs_ids@[i as int]@ == cs_id@);
            assert(changeset_set(cs_ids@).contains(cs_id@));
            let pairs = bookmark_pairs(entries@);
            assert forall|a: int, b: int| 0 <= a < b < pairs.len() implies (#[trigger] pairs[a]).0
                != (#[trigger] pairs[b]).0 by {
                assert(entries@[a].0@ != entries@[b].0@);
            }
            lemma_pairs_map_holds(pairs, i as int);
            assert(all.contains_key(name) && all[name] == cs_id@);
            lemma_bookmark_of_ref(name);
        }
        let annotated = if bookmark.is_tag() {
            tag_map_get(&bonsai_tag_map, bookmark.name())
        } else {
            None
        };
        let commit = git_map_get(&bonsai_git_map, &cs_id);
        let target = match (annotated, tag_inclusion) {
            (Some(tag_oid), TagInclusion::AsIs) => RefTarget::Plain(tag_oid),
            (Some(tag_oid), TagInclusion::WithTarget) => match commit {
                None => {
                    return Err(Error::MissingGitMapping(cs_id));
                },
                Some(commit_oid) => {
                    let metadata = join("peeled:", commit_oid.to_hex().as_str());
                    RefTarget::WithMetadata(tag_oid, metadata)
                },
            },
            _ => match commit {
                None => {
                    return Err(Error::MissingGitMapping(cs_id));
                },
                Some(commit_oid) => RefTarget::Plain(commit_oid),
            },
        };
        let ref_name = bookmark.ref_name();
        proof {
            assert(target@ == spec_ref_target(name, cs_id@, git, tags, tag_inclusion).unwrap());
            let before = refs_of_entries(entries@, i as int, git, tags, tag_inclusion);
            let after = refs_of_entries(entries@, i as int + 1, git, tags, tag_inclusion);
            assert forall|r: Seq<char>| after.contains_key(r) <==> (before.contains_key(r) || r
                == ref_name@) by {
                if before.contains_key(r) {
                    let j = choose|j: int|
                        0 <= j < i && r == ref_name_of((#[trigger] entries@[j]).0@);
                    assert(0 <= j < i + 1 && r == ref_name_of(entries@[j].0@));
                }
                if r == ref_name@ {
                    assert(r == ref_name_of(entries@[i as int].0@));
                }
            }
            assert(before.insert(ref_name@, target@) =~= after);
        }
        ref_map_insert(&mut refs, ref_name, target);
        i += 1;
    }
    proof {
        let built = refs_of_entries(entries@, entries@.len() as int, git, tags, tag_inclusion);
        let pairs = bookmark_pairs(entries@);
        assert forall|name: Seq<char>| #[trigger] all.contains_key(name) implies spec_ref_target(
            name,
            all[name],
            git,
            tags,
            tag_inclusion,
        ) is Some by {
            lemma_pairs_map_contains(pairs, name);
            let j = choose|j: int| 0 <= j < pairs.len() && (#[trigger] pairs[j]).0 == name;
            assert forall|a: int, b: int| 0 <= a < b < pairs.len() implies (#[trigger] pairs[a]).0
                != (#[trigger] pairs[b]).0 by {
                assert(entries@[a].0@ != entries@[b].0@);
            }
            lemma_pairs_map_holds(pairs, j);
            assert(entries@[j].0@ == name);
        }
        let wanted = spec_refs_to_include(all, git, tags, tag_inclusion).unwrap();
        assert forall|r: Seq<char>| built.contains_key(r) <==> wanted.contains_key(r) by {
            if built.contains_key(r) {
                let j = choose|j: int|
                    0 <= j < entries@.len() && r == ref_name_of((#[trigger] entries@[j]).0@);
                lemma_bookmark_of_ref(entries@[j].0@);
                assert(pairs[j].0 == entries@[j].0@);
                lemma_pairs_map_contains(pairs, entries@[j].0@);
            }
            if wanted.contains_key(r) {
                lemma_ref_of_bookmark(r);
                lemma_pairs_map_contains(pairs, bookmark_of_ref(r));
                let j = choose|j: int|
                    0 <= j < pairs.len() && (#[trigger] pairs[j]).0 == bookmark_of_ref(r);
                assert(entries@[j].0@ == bookmark_of_ref(r));
            }
        }
        assert(built =~= wanted);
    }
    Ok(refs)
}

/// The name of the symref that says which branch a clone checks out.
pub open spec fn head_ref() -> Seq<char> {
    "HEAD"@
}

/// The index of the first symref named `name` at or after `from`, if any.
pub open spec fn first_symref_named(
    symrefs: Seq<GitSymbolicRefsEntry>,
    name: Seq<char>,
    from: int,
) -> Option<int>
    decreases symrefs.len() - from,
{
    if from < 0 || from >= symrefs.len() {
        None
    } else if symrefs[from].symref_name@ == name {
        Some(from)
    } else {
        first_symref_named(symrefs, name, from + 1)
    }
}

/// Whether `refs` holds the ref that each of `symrefs` stands for.
pub open spec fn symrefs_resolvable(
    refs: Map<Seq<char>, RefTargetView>,
    symrefs: Seq<GitSymbolicRefsEntry>,
) -> bool {
    forall|i: int|
        0 <= i < symrefs.len() ==> refs.contains_key(
            (#[trigger] symrefs[i]).spec_ref_name_with_type(),
        )
}

/// The target of `symref` in the format `format`, where `refs` holds the ref
/// that it stands for.
pub open spec fn symref_entry_target(
    refs: Map<Seq<char>, RefTargetView>,
    symref: GitSymbolicRefsEntry,
    format: SymrefFormat,
) -> RefTargetView {
    spec_symref_target(
        symref.spec_ref_name_with_type(),
        refs[symref.spec_ref_name_with_type()].id(),
        format,
    )
}

/// The refs that `symrefs` add: each symref by its name, at the commit of the
/// ref in `refs` that it stands for. Where a name occurs more than once, its
/// last target stays.
pub open spec fn symref_additions(
    refs: Map<Seq<char>, RefTargetView>,
    symrefs: Seq<GitSymbolicRefsEntry>,
    format: SymrefFormat,
) -> Map<Seq<char>, RefTargetView>
    decreases symrefs.len(),
{
    if symrefs.len() == 0 {
        Map::empty()
    } else {
        symref_additions(refs, symrefs.drop_last(), format).insert(
            symrefs.last().symref_name@,
            symref_entry_target(refs, symrefs.last(), format),
        )
    }
}

/// The refs `refs` together with the symrefs that `requested` selects from
/// `symrefs`, or `None` where a selected symref cannot be resolved: `HEAD` is
/// asked for and there is none, or a selected symref stands for a ref that
/// `refs` does not hold.
pub open spec fn spec_include_symrefs(
    refs: Map<Seq<char>, RefTargetView>,
    symrefs: Seq<GitSymbolicRefsEntry>,
    requested: RequestedSymrefs,
) -> Option<Map<Seq<char>, RefTargetView>> {
    match requested {
        RequestedSymrefs::ExcludeAll => Some(refs),
        RequestedSymrefs::IncludeHead(format) => match first_symref_named(symrefs, head_ref(), 0) {
            None => None,
            Some(i) => if refs.contains_key(symrefs[i].spec_ref_name_with_type()) {
                Some(
                    refs.insert(
                        symrefs[i].symref_name@,
                        symref_entry_target(refs, symrefs[i], format),
                    ),
                )
            } else {
                None
            },
        },
        RequestedSymrefs::IncludeAll(format) => if symrefs_resolvable(refs, symrefs) {
            Some(refs.union_prefer_right(symref_additions(refs, symrefs, format)))
        } else {
            None
        },
    }
}

/// Whether `e` reports that `symref` stands for a ref that is not among
/// `refs`, and lists the names of `refs`.
pub open spec fn is_missing_target_of(
    e: Error,
    symref: GitSymbolicRefsEntry,
    refs: Map<Seq<char>, RefTargetView>,
) -> bool {
    &&& e matches Error::MissingSymrefTarget { symref_name, ref_name, known_refs }
    &&& symref_name@ == symref.symref_name@
    &&& ref_name@ == symref.spec_ref_name_with_type()
    &&& forall|name: Seq<char>| names_contain(known_refs@, name) <==> refs.contains_key(name)
}

/// Whether `e` tells why the symrefs that `requested` selects cannot be added
/// to `refs`: `HEAD` is asked for and there is none; or the first selected
/// symref that stands for a ref which `refs` does not hold.
pub open spec fn is_symref_error(
    refs: Map<Seq<char>, RefTargetView>,
    symrefs: Seq<GitSymbolicRefsEntry>,
    requested: RequestedSymrefs,
    e: Error,
) -> bool {
    match requested {
        RequestedSymrefs::ExcludeAll => false,
        RequestedSymrefs::IncludeHead(_) => match first_symref_named(symrefs, head_ref(), 0) {
            None => e == Error::HeadNotFound,
            Some(i) => is_missing_target_of(e, symrefs[i], refs),
        },
        RequestedSymrefs::IncludeAll(_) => exists|i: int|
            {
                &&& 0 <= i < symrefs.len()
                &&& symrefs_resolvable(refs, symrefs.take(i))
                &&& is_missing_target_of(e, #[trigger] symrefs[i], refs)
            },
    }
}

/// The first symref named `HEAD`, if the repository has one.
fn head_symref(symrefs: &Vec<GitSymbolicRefsEntry>) -> (r: Option<usize>)
    ensures
        match r {
            Some(i) => first_symref_named(symrefs@, head_ref(), 0) == Some(i as int) && i
                < symrefs.len(),
            None => first_symref_named(symrefs@, head_ref(), 0) is None,
        },
{
    let mut i: usize = 0;
    while i < symrefs.len()
        invariant
            i <= symrefs.len(),
            first_symref_named(symrefs@, head_ref(), 0) == first_symref_named(
                symrefs@,
                head_ref(),
                i as int,
            ),
        decreases symrefs.len() - i,
    {
        if str_eq(symrefs[i].symref_name.as_str(), "HEAD") {
            return Some(i);
        }
        i += 1;
    }
    None
}

/// The target of each of `symrefs` in turn, with the symref's name; or the
/// error for the first of them whose ref `refs` does not hold.
fn symref_targets(
    symrefs: &Vec<GitSymbolicRefsEntry>,
    format: SymrefFormat,
    refs: &RefMap,
) -> (r: Result<Vec<(String, RefTarget)>, Error>)
    ensures
        match r {
            Ok(targets) => {
                &&& symrefs_resolvable(ref_map_contents(*refs), symrefs@)
                &&& targets@.len() == symrefs@.len()
                &&& forall|i: int|
                    0 <= i < symrefs@.len() ==> {
                        &&& (#[trigger] targets@[i]).0@ == symrefs@[i].symref_name@
                        &&& targets@[i].1@ == symref_entry_target(
                            ref_map_contents(*refs),
                            symrefs@[i],
                            format,
                        )
                    }
            },
            Err(e) => exists|i: int|
                {
                    &&& 0 <= i < symrefs@.len()
                    &&& !ref_map_contents(*refs).contains_key(
                        (#[trigger] symrefs@[i]).spec_ref_name_with_type(),
                    )
                    &&& symrefs_resolvable(ref_map_contents(*refs), symrefs@.take(i))
                    &&& is_missing_target_of(e, symrefs@[i], ref_map_contents(*refs))
                },
        },
{
    let mut targets: Vec<(String, RefTarget)> = Vec::new();
    let mut i: usize = 0;
    while i < symrefs.len()
        invariant
            i <= symrefs.len(),
            targets@.len() == i,
            symrefs_resolvable(ref_map_contents(*refs), symrefs@.take(i as int)),
            forall|j: int|
                0 <= j < i ==> {
                    &&& (#[trigger] targets@[j]).0@ == symrefs@[j].symref_name@
                    &&& targets@[j].1@ == symref_entry_target(
                        ref_map_contents(*refs),
                        symrefs@[j],
                        format,
                    )
                },
        decreases symrefs.len() - i,
    {
        let entry = &symrefs[i];
        let ref_name = entry.ref_name_with_type();
        match ref_map_get(refs, ref_name.as_str()) {
            None => {
                return Err(
                    Error::MissingSymrefTarget {
                        symref_name: entry.symref_name.clone(),
                        ref_name,
                        known_refs: ref_map_names(refs),
                    },
                );
            },
            Some(target) => {
                let commit = target.id();
                let symref = symref_target(ref_name.as_str(), commit, format);
                targets.push((entry.symref_name.clone(), symref));
            },
        }
        proof {
            assert forall|j: int| 0 <= j < i + 1 implies ref_map_contents(*refs).contains_key(
                (#[trigger] symrefs@.take(i + 1)[j]).spec_ref_name_with_type(),
            ) by {
                if j < i {
                    assert(symrefs@.take(i as int)[j] == symrefs@[j]);
                }
            }
        }
        i += 1;
    }
    proof {
        assert(symrefs@.take(i as int) =~= symrefs@);
    }
    Ok(targets)
}

/// Adds to `refs_to_include` the symrefs that `requested_symrefs` selects
/// among those of `repo`: none, `HEAD` alone, or all. Each is added under its
/// own name, at the commit of the ref that it stands for, as `symref_target`
/// gives it; that ref is looked up among the refs as they were handed in.
///
/// Fails, and leaves the refs as they were, where `HEAD` is asked for and the
/// repository has none (`Error::HeadNotFound`), and where a selected symref
/// stands for a ref that is not among the refs (`Error::MissingSymrefTarget`,
/// for the first such symref).
pub fn include_symrefs(
    repo: &RepoSnapshot,
    requested_symrefs: RequestedSymrefs,
    refs_to_include: &mut RefMap,
) -> (r: Result<(), Error>)
    ensures
        r is Ok <==> spec_include_symrefs(
            ref_map_contents(*old(refs_to_include)),
            repo.symbolic_refs@,
            requested_symrefs,
        ) is Some,
        r is Ok ==> Some(ref_map_contents(*final(refs_to_include))) == spec_include_symrefs(
            ref_map_contents(*old(refs_to_include)),
            repo.symbolic_refs@,
            requested_symrefs,
        ),
        r is Err ==> ref_map_contents(*final(refs_to_include)) == ref_map_contents(
            *old(refs_to_include),
        ),
        r matches Err(e) ==> is_symref_error(
            ref_map_contents(*old(refs_to_include)),
            repo.symbolic_refs@,
            requested_symrefs,
            e,
        ),
{
    let symrefs = &repo.symbolic_refs;
    match requested_symrefs {
        RequestedSymrefs::ExcludeAll => Ok(()),
        RequestedSymrefs::IncludeHead(symref_format) => {
            let head = match head_symref(symrefs) {
                None => {
                    return Err(Error::HeadNotFound);
                },
                Some(i) => &symrefs[i],
            };
            let ref_name = head.ref_name_with_type();
            let commit = match ref_map_get(refs_to_include, ref_name.as_str()) {
                None => {
                    return Err(
                        Error::MissingSymrefTarget {
                            symref_name: head.symref_name.clone(),
                            ref_name,
                            known_refs: ref_map_names(refs_to_include),
                        },
                    );
                },
                Some(target) => target.id(),
            };
            let target = symref_target(ref_name.as_str(), commit, symref_format);
            ref_map_insert(refs_to_include, head.symref_name.clone(), target);
            Ok(())
        },
        RequestedSymrefs::IncludeAll(symref_format) => {
            let targets = match symref_targets(symrefs, symref_format, refs_to_include) {
                Err(e) => {
                    proof {
                        let i = choose|i: int|
                            {
                                &&& 0 <= i < symrefs@.len()
                                &&& !ref_map_contents(*refs_to_include).contains_key(
                                    (#[trigger] symrefs@[i]).spec_ref_name_with_type(),
                                )
                                &&& symrefs_resolvable(
                                    ref_map_contents(*refs_to_include),
                                    symrefs@.take(i),
                                )
                                &&& is_missing_target_of(
                                    e,
                                    symrefs@[i],
                                    ref_map_contents(*refs_to_include),
                                )
                            };
                        assert(!ref_map_contents(*refs_to_include).contains_key(
                            symrefs@[i].spec_ref_name_with_type(),
                        ));
                    }
                    return Err(e);
                },
                Ok(targets) => targets,
            };
            let ghost before = ref_map_contents(*refs_to_include);
            let mut i: usize = 0;
            while i < targets.len()
                invariant
                    i <= targets.len(),
                    targets@.len() == symrefs@.len(),
                    forall|j: int|
                        0 <= j < symrefs@.len() ==> {
                            &&& (#[trigger] targets@[j]).0@ == symrefs@[j].symref_name@
                            &&& targets@[j].1@ == symref_entry_target(
                                before,
                                symrefs@[j],
                                symref_format,
                            )
                        },
                    ref_map_contents(*refs_to_include) == before.union_prefer_right(
                        symref_additions(before, symrefs@.take(i as int), symref_format),
                    ),
                decreases targets.len() - i,
            {
                let name = targets[i].0.clone();
                let target = targets[i].1.duplicate();
                proof {
                    let grown = symrefs@.take(i as int + 1);
                    assert(grown.drop_last() =~= symrefs@.take(i as int));
                    assert(grown.last() == symrefs@[i as int]);
                    assert(before.union_prefer_right(
                        symref_additions(before, symrefs@.take(i as int), symref_format),
                    ).insert(name@, target@) =~= before.union_prefer_right(
                        symref_additions(before, grown, symref_format),
                    ));
                }
                ref_map_insert(refs_to_include, name, target);
                i += 1;
            }
            proof {
                assert(symrefs@.take(i as int) =~= symrefs@);
            }
            Ok(())
        },
    }
}

} // verus!
