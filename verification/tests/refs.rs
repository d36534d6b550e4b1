use git_protocol::bookmark::BookmarkCategory;
use git_protocol::bookmark::BookmarkKey;
use git_protocol::collections::BookmarkMap;
use git_protocol::collections::RefMap;
use git_protocol::error::Error;
use git_protocol::hash::ChangesetId;
use git_protocol::hash::GitObjectId;
use git_protocol::pack::ls_refs_response;
use git_protocol::pack::resolve_refs;
use git_protocol::refs::bonsai_git_mappings_by_bonsai;
use git_protocol::refs::bookmarks;
use git_protocol::refs::git_map_of;
use git_protocol::refs::include_symrefs;
use git_protocol::refs::refs_to_include;
use git_protocol::refs::tag_map_of;
use git_protocol::repo::BonsaiGitMappingEntry;
use git_protocol::repo::BonsaiTagMappingEntry;
use git_protocol::repo::GitSymbolicRefsEntry;
use git_protocol::repo::RefType;
use git_protocol::repo::RepoSnapshot;
use git_protocol::types::LsRefsRequest;
use git_protocol::types::RefTarget;
use git_protocol::types::RequestedRefs;
use git_protocol::types::RequestedSymrefs;
use git_protocol::types::SymrefFormat;
use git_protocol::types::TagInclusion;
use git_protocol::types::symref_target;

fn cs(n: u8) -> ChangesetId {
    ChangesetId::new([n; 32])
}

fn oid(n: u8) -> GitObjectId {
    GitObjectId::new([n; 20])
}

fn key(name: &str) -> BookmarkKey {
    BookmarkKey::new(name).unwrap()
}

fn names(list: &[&str]) -> Vec<String> {
    list.iter().map(|name| name.to_string()).collect()
}

fn head_at(ref_name: &str, ref_type: RefType) -> GitSymbolicRefsEntry {
    GitSymbolicRefsEntry {
        symref_name: "HEAD".to_string(),
        ref_name: ref_name.to_string(),
        ref_type,
    }
}

/// Branch `heads/main` at changeset 1 (commit 0x11), branch `heads/dev` at
/// changeset 2 (commit 0x12), annotated tag `tags/v1` at changeset 1 with the
/// tag object 0xA1, simple tag `tags/simple` at changeset 2, and `HEAD` that
/// stands for `refs/heads/main`.
fn repo() -> RepoSnapshot {
    RepoSnapshot {
        bookmarks: vec![
            (key("heads/main"), cs(1)),
            (key("heads/dev"), cs(2)),
            (key("tags/v1"), cs(1)),
            (key("tags/simple"), cs(2)),
        ],
        bonsai_git_mapping: vec![
            BonsaiGitMappingEntry { bcs_id: cs(1), git_sha1: oid(0x11) },
            BonsaiGitMappingEntry { bcs_id: cs(2), git_sha1: oid(0x12) },
        ],
        bonsai_tag_mapping: vec![BonsaiTagMappingEntry {
            tag_name: "tags/v1".to_string(),
            tag_hash: oid(0xA1),
        }],
        symbolic_refs: vec![head_at("main", RefType::Branch)],
    }
}

fn known(names: &[&str]) -> Vec<String> {
    let mut names = self::names(names);
    names.sort();
    names
}

/// The same failure with the known refs in alphabetical order.
fn sorted<T>(result: Result<T, Error>) -> Result<T, Error> {
    result.map_err(|e| match e {
        Error::MissingSymrefTarget { symref_name, ref_name, mut known_refs } => {
            known_refs.sort();
            Error::MissingSymrefTarget { symref_name, ref_name, known_refs }
        }
        other => other,
    })
}

const ALL_REFS: [&str; 4] =
    ["refs/heads/main", "refs/heads/dev", "refs/tags/v1", "refs/tags/simple"];

fn all_bookmarks() -> BookmarkMap {
    bookmarks(&repo(), &RequestedRefs::all()).unwrap()
}

fn plain_refs() -> RefMap {
    refs_to_include(&repo(), &all_bookmarks(), TagInclusion::AsIs).unwrap()
}

#[test]
fn bookmark_name_must_be_ascii() {
    assert_eq!(BookmarkKey::new("heads/main").unwrap().name(), "heads/main");
    assert_eq!(
        BookmarkKey::new("heads/ma\u{ef}n"),
        Err(Error::MalformedRefName("heads/ma\u{ef}n".to_string()))
    );
    assert!(BookmarkKey::new("").is_ok());
}

#[test]
fn bookmark_under_tags_is_a_tag() {
    assert!(key("tags/v1").is_tag());
    assert_eq!(key("tags/v1").category(), BookmarkCategory::Tag);
    assert!(!key("heads/main").is_tag());
    assert_eq!(key("heads/main").category(), BookmarkCategory::Branch);
    assert!(!key("heads/tags/v1").is_tag());
    assert!(!key("tags").is_tag());
}

#[test]
fn bookmark_ref_name_begins_with_refs() {
    assert_eq!(key("heads/main").ref_name(), "refs/heads/main");
    assert_eq!(key("tags/v1").ref_name(), "refs/tags/v1");
    assert_eq!(key("heads/main").duplicate(), key("heads/main"));
}

#[test]
fn all_refs_selects_every_bookmark() {
    let selected = all_bookmarks();
    assert_eq!(selected.len(), 4);
    assert_eq!(selected.get(&key("heads/main")), Some(&cs(1)));
    assert_eq!(selected.get(&key("heads/dev")), Some(&cs(2)));
    assert_eq!(selected.get(&key("tags/v1")), Some(&cs(1)));
    assert_eq!(selected.get(&key("tags/simple")), Some(&cs(2)));
}

#[test]
fn included_keeps_the_named_bookmarks() {
    let requested = RequestedRefs::Included(names(&["heads/dev", "tags/v1", "heads/unknown"]));
    let selected = bookmarks(&repo(), &requested).unwrap();
    assert_eq!(selected.len(), 2);
    assert_eq!(selected.get(&key("heads/dev")), Some(&cs(2)));
    assert_eq!(selected.get(&key("tags/v1")), Some(&cs(1)));
}

#[test]
fn included_with_no_names_selects_nothing() {
    let selected = bookmarks(&repo(), &RequestedRefs::Included(vec![])).unwrap();
    assert!(selected.is_empty());
}

#[test]
fn excluded_drops_the_named_bookmarks() {
    let requested = RequestedRefs::Excluded(names(&["heads/dev", "tags/v1"]));
    let selected = bookmarks(&repo(), &requested).unwrap();
    assert_eq!(selected.len(), 2);
    assert_eq!(selected.get(&key("heads/main")), Some(&cs(1)));
    assert_eq!(selected.get(&key("tags/simple")), Some(&cs(2)));
}

#[test]
fn prefix_is_matched_against_the_ref_name() {
    let requested = RequestedRefs::IncludedWithPrefix(names(&["refs/heads/"]));
    let selected = bookmarks(&repo(), &requested).unwrap();
    assert_eq!(selected.len(), 2);
    assert_eq!(selected.get(&key("heads/main")), Some(&cs(1)));
    assert_eq!(selected.get(&key("heads/dev")), Some(&cs(2)));

    // The bookmark's own name does not begin with `refs/`
    let requested = RequestedRefs::IncludedWithPrefix(names(&["heads/"]));
    assert!(bookmarks(&repo(), &requested).unwrap().is_empty());

    let requested = RequestedRefs::IncludedWithPrefix(names(&["refs/tags/s", "refs/heads/d"]));
    let selected = bookmarks(&repo(), &requested).unwrap();
    assert_eq!(selected.len(), 2);
    assert_eq!(selected.get(&key("tags/simple")), Some(&cs(2)));
    assert_eq!(selected.get(&key("heads/dev")), Some(&cs(2)));
}

#[test]
fn supplied_values_replace_and_add_bookmarks() {
    let requested = RequestedRefs::IncludedWithValue(vec![
        ("heads/main".to_string(), cs(9)),
        ("heads/unknown".to_string(), cs(2)),
    ]);
    let selected = bookmarks(&repo(), &requested).unwrap();
    assert_eq!(selected.len(), 2);
    assert_eq!(selected.get(&key("heads/main")), Some(&cs(9)));
    assert_eq!(selected.get(&key("heads/unknown")), Some(&cs(2)));
}

#[test]
fn last_supplied_value_of_a_name_counts() {
    let requested = RequestedRefs::IncludedWithValue(vec![
        ("heads/x".to_string(), cs(1)),
        ("heads/x".to_string(), cs(2)),
    ]);
    let selected = bookmarks(&repo(), &requested).unwrap();
    assert_eq!(selected.len(), 1);
    assert_eq!(selected.get(&key("heads/x")), Some(&cs(2)));
}

#[test]
fn malformed_supplied_name_is_refused() {
    let requested = RequestedRefs::IncludedWithValue(vec![
        ("heads/main".to_string(), cs(1)),
        ("heads/caf\u{e9}".to_string(), cs(2)),
        ("heads/na\u{ef}ve".to_string(), cs(2)),
    ]);
    assert_eq!(
        bookmarks(&repo(), &requested),
        Err(Error::MalformedRefName("heads/caf\u{e9}".to_string()))
    );
}

#[test]
fn last_listed_changeset_of_a_bookmark_counts() {
    let mut repo = repo();
    repo.bookmarks.push((key("heads/main"), cs(2)));
    let selected = bookmarks(&repo, &RequestedRefs::all()).unwrap();
    assert_eq!(selected.len(), 4);
    assert_eq!(selected.get(&key("heads/main")), Some(&cs(2)));
}

#[test]
fn mapping_tables_become_maps() {
    let git = git_map_of(&repo().bonsai_git_mapping);
    assert_eq!(git.len(), 2);
    assert_eq!(git.get(&cs(1)), Some(&oid(0x11)));
    assert_eq!(git.get(&cs(2)), Some(&oid(0x12)));
    let tags = tag_map_of(&repo().bonsai_tag_mapping);
    assert_eq!(tags.len(), 1);
    assert_eq!(tags.get("tags/v1"), Some(&oid(0xA1)));
}

#[test]
fn git_mapping_is_asked_for_the_given_changesets_only() {
    let git = bonsai_git_mappings_by_bonsai(&repo(), &vec![cs(2), cs(7), cs(2)]);
    assert_eq!(git.len(), 1);
    assert_eq!(git.get(&cs(2)), Some(&oid(0x12)));
    assert!(bonsai_git_mappings_by_bonsai(&repo(), &vec![]).is_empty());
}

#[test]
fn branches_and_simple_tags_point_at_the_commit() {
    for inclusion in [TagInclusion::AsIs, TagInclusion::Peeled, TagInclusion::WithTarget] {
        let refs = refs_to_include(&repo(), &all_bookmarks(), inclusion).unwrap();
        assert_eq!(refs.len(), 4);
        assert_eq!(refs.get("refs/heads/main"), Some(&RefTarget::Plain(oid(0x11))));
        assert_eq!(refs.get("refs/heads/dev"), Some(&RefTarget::Plain(oid(0x12))));
        assert_eq!(refs.get("refs/tags/simple"), Some(&RefTarget::Plain(oid(0x12))));
    }
}

#[test]
fn annotated_tag_is_listed_in_three_ways() {
    let refs = refs_to_include(&repo(), &all_bookmarks(), TagInclusion::AsIs).unwrap();
    assert_eq!(refs.get("refs/tags/v1"), Some(&RefTarget::Plain(oid(0xA1))));

    let refs = refs_to_include(&repo(), &all_bookmarks(), TagInclusion::Peeled).unwrap();
    assert_eq!(refs.get("refs/tags/v1"), Some(&RefTarget::Plain(oid(0x11))));

    let refs = refs_to_include(&repo(), &all_bookmarks(), TagInclusion::WithTarget).unwrap();
    assert_eq!(
        refs.get("refs/tags/v1"),
        Some(&RefTarget::WithMetadata(
            oid(0xA1),
            "peeled:1111111111111111111111111111111111111111".to_string()
        ))
    );
}

#[test]
fn branch_named_in_the_tag_mapping_is_no_annotated_tag() {
    let mut repo = repo();
    repo.bonsai_tag_mapping.push(BonsaiTagMappingEntry {
        tag_name: "heads/main".to_string(),
        tag_hash: oid(0xA2),
    });
    let refs = refs_to_include(&repo, &all_bookmarks(), TagInclusion::AsIs).unwrap();
    assert_eq!(refs.get("refs/heads/main"), Some(&RefTarget::Plain(oid(0x11))));
}

#[test]
fn ref_at_unmapped_changeset_cannot_be_resolved() {
    let mut repo = repo();
    repo.bookmarks.push((key("heads/orphan"), cs(5)));
    let selected = bookmarks(&repo, &RequestedRefs::all()).unwrap();
    for inclusion in [TagInclusion::AsIs, TagInclusion::Peeled, TagInclusion::WithTarget] {
        assert_eq!(
            refs_to_include(&repo, &selected, inclusion),
            Err(Error::MissingGitMapping(cs(5)))
        );
    }
}

#[test]
fn annotated_tag_at_unmapped_changeset_is_listed_as_is_only() {
    let mut repo = repo();
    repo.bookmarks = vec![(key("tags/v1"), cs(5))];
    let selected = bookmarks(&repo, &RequestedRefs::all()).unwrap();
    let refs = refs_to_include(&repo, &selected, TagInclusion::AsIs).unwrap();
    assert_eq!(refs.get("refs/tags/v1"), Some(&RefTarget::Plain(oid(0xA1))));
    assert_eq!(
        refs_to_include(&repo, &selected, TagInclusion::Peeled),
        Err(Error::MissingGitMapping(cs(5)))
    );
    assert_eq!(
        refs_to_include(&repo, &selected, TagInclusion::WithTarget),
        Err(Error::MissingGitMapping(cs(5)))
    );
}

#[test]
fn no_bookmarks_give_no_refs() {
    let refs = refs_to_include(&repo(), &BookmarkMap::default(), TagInclusion::Peeled).unwrap();
    assert!(refs.is_empty());
}

#[test]
fn symref_target_in_both_formats() {
    assert_eq!(
        symref_target("refs/heads/main", oid(1), SymrefFormat::NameOnly),
        RefTarget::Plain(oid(1))
    );
    assert_eq!(
        symref_target("refs/heads/main", oid(1), SymrefFormat::NameWithTarget),
        RefTarget::WithMetadata(oid(1), "symref-target:refs/heads/main".to_string())
    );
}

#[test]
fn ref_target_gives_its_object_id() {
    assert_eq!(RefTarget::Plain(oid(3)).id(), oid(3));
    assert_eq!(RefTarget::WithMetadata(oid(4), "peeled:x".to_string()).id(), oid(4));
    let target = RefTarget::WithMetadata(oid(4), "peeled:x".to_string());
    assert_eq!(target.duplicate(), target);
}

#[test]
fn symref_names_its_ref_by_type() {
    assert_eq!(head_at("main", RefType::Branch).ref_name_with_type(), "refs/heads/main");
    assert_eq!(head_at("v1", RefType::Tag).ref_name_with_type(), "refs/tags/v1");
}

#[test]
fn head_is_added_with_the_ref_it_stands_for() {
    let mut refs = plain_refs();
    let added = include_symrefs(
        &repo(),
        RequestedSymrefs::IncludeHead(SymrefFormat::NameWithTarget),
        &mut refs,
    );
    assert_eq!(added, Ok(()));
    assert_eq!(refs.len(), 5);
    assert_eq!(
        refs.get("HEAD"),
        Some(&RefTarget::WithMetadata(oid(0x11), "symref-target:refs/heads/main".to_string()))
    );
    assert_eq!(refs.get("refs/heads/main"), Some(&RefTarget::Plain(oid(0x11))));
}

#[test]
fn head_is_added_as_an_ordinary_ref() {
    let mut refs = plain_refs();
    let added =
        include_symrefs(&repo(), RequestedSymrefs::IncludeHead(SymrefFormat::NameOnly), &mut refs);
    assert_eq!(added, Ok(()));
    assert_eq!(refs.get("HEAD"), Some(&RefTarget::Plain(oid(0x11))));
}

#[test]
fn head_at_an_annotated_tag_takes_the_id_that_the_tag_is_listed_with() {
    let mut repo = repo();
    repo.symbolic_refs = vec![head_at("v1", RefType::Tag)];
    let mut refs = refs_to_include(&repo, &all_bookmarks(), TagInclusion::WithTarget).unwrap();
    let added = include_symrefs(
        &repo,
        RequestedSymrefs::IncludeHead(SymrefFormat::NameWithTarget),
        &mut refs,
    );
    assert_eq!(added, Ok(()));
    assert_eq!(
        refs.get("HEAD"),
        Some(&RefTarget::WithMetadata(oid(0xA1), "symref-target:refs/tags/v1".to_string()))
    );
}

#[test]
fn no_symref_is_added_where_none_is_asked_for() {
    let mut refs = plain_refs();
    assert_eq!(include_symrefs(&repo(), RequestedSymrefs::ExcludeAll, &mut refs), Ok(()));
    assert_eq!(refs, plain_refs());
}

#[test]
fn head_that_the_repository_lacks_cannot_be_added() {
    let mut repo = repo();
    repo.symbolic_refs = vec![GitSymbolicRefsEntry {
        symref_name: "OTHER".to_string(),
        ref_name: "main".to_string(),
        ref_type: RefType::Branch,
    }];
    let mut refs = plain_refs();
    assert_eq!(
        include_symrefs(&repo, RequestedSymrefs::IncludeHead(SymrefFormat::NameOnly), &mut refs),
        Err(Error::HeadNotFound)
    );
    assert_eq!(refs, plain_refs());
}

#[test]
fn head_at_an_unresolved_ref_cannot_be_added() {
    let mut repo = repo();
    repo.symbolic_refs = vec![head_at("gone", RefType::Branch)];
    let mut refs = plain_refs();
    assert_eq!(
        sorted(include_symrefs(
            &repo,
            RequestedSymrefs::IncludeHead(SymrefFormat::NameOnly),
            &mut refs
        )),
        Err(Error::MissingSymrefTarget {
            symref_name: "HEAD".to_string(),
            ref_name: "refs/heads/gone".to_string(),
            known_refs: known(&ALL_REFS),
        })
    );
    assert_eq!(refs, plain_refs());
}

#[test]
fn first_head_counts_where_there_are_two() {
    let mut repo = repo();
    repo.symbolic_refs = vec![head_at("dev", RefType::Branch), head_at("main", RefType::Branch)];
    let mut refs = plain_refs();
    assert_eq!(
        include_symrefs(&repo, RequestedSymrefs::IncludeHead(SymrefFormat::NameOnly), &mut refs),
        Ok(())
    );
    assert_eq!(refs.get("HEAD"), Some(&RefTarget::Plain(oid(0x12))));
}

#[test]
fn all_symrefs_are_added() {
    let mut repo = repo();
    repo.symbolic_refs.push(GitSymbolicRefsEntry {
        symref_name: "LATEST".to_string(),
        ref_name: "simple".to_string(),
        ref_type: RefType::Tag,
    });
    let mut refs = plain_refs();
    assert_eq!(
        include_symrefs(&repo, RequestedSymrefs::IncludeAll(SymrefFormat::NameWithTarget), &mut refs),
        Ok(())
    );
    assert_eq!(refs.len(), 6);
    assert_eq!(
        refs.get("HEAD"),
        Some(&RefTarget::WithMetadata(oid(0x11), "symref-target:refs/heads/main".to_string()))
    );
    assert_eq!(
        refs.get("LATEST"),
        Some(&RefTarget::WithMetadata(oid(0x12), "symref-target:refs/tags/simple".to_string()))
    );
}

#[test]
fn all_symrefs_of_a_repository_without_symrefs_are_none() {
    let mut repo = repo();
    repo.symbolic_refs = vec![];
    let mut refs = plain_refs();
    assert_eq!(
        include_symrefs(&repo, RequestedSymrefs::IncludeAll(SymrefFormat::NameOnly), &mut refs),
        Ok(())
    );
    assert_eq!(refs, plain_refs());
}

#[test]
fn no_symref_is_added_where_one_cannot_be_resolved() {
    let mut repo = repo();
    repo.symbolic_refs.push(GitSymbolicRefsEntry {
        symref_name: "BROKEN".to_string(),
        ref_name: "gone".to_string(),
        ref_type: RefType::Tag,
    });
    repo.symbolic_refs.push(GitSymbolicRefsEntry {
        symref_name: "BROKEN2".to_string(),
        ref_name: "gone2".to_string(),
        ref_type: RefType::Branch,
    });
    let mut refs = plain_refs();
    assert_eq!(
        sorted(include_symrefs(
            &repo,
            RequestedSymrefs::IncludeAll(SymrefFormat::NameOnly),
            &mut refs
        )),
        Err(Error::MissingSymrefTarget {
            symref_name: "BROKEN".to_string(),
            ref_name: "refs/tags/gone".to_string(),
            known_refs: known(&ALL_REFS),
        })
    );
    assert_eq!(refs, plain_refs());
}

#[test]
fn symref_is_resolved_among_the_refs_as_they_were() {
    let mut repo = repo();
    // The second symref stands for a ref with the name of the first
    repo.symbolic_refs = vec![
        GitSymbolicRefsEntry {
            symref_name: "refs/heads/alias".to_string(),
            ref_name: "main".to_string(),
            ref_type: RefType::Branch,
        },
        GitSymbolicRefsEntry {
            symref_name: "SECOND".to_string(),
            ref_name: "alias".to_string(),
            ref_type: RefType::Branch,
        },
    ];
    let mut refs = plain_refs();
    assert_eq!(
        sorted(include_symrefs(
            &repo,
            RequestedSymrefs::IncludeAll(SymrefFormat::NameOnly),
            &mut refs
        )),
        Err(Error::MissingSymrefTarget {
            symref_name: "SECOND".to_string(),
            ref_name: "refs/heads/alias".to_string(),
            known_refs: known(&ALL_REFS),
        })
    );
}

#[test]
fn ls_refs_lists_head_with_its_target() {
    let request = LsRefsRequest {
        requested_refs: RequestedRefs::all(),
        requested_symrefs: RequestedSymrefs::IncludeHead(SymrefFormat::NameWithTarget),
        tag_inclusion: TagInclusion::AsIs,
    };
    let response = ls_refs_response(&repo(), request).unwrap();
    assert_eq!(response.refs.len(), 5);
    assert_eq!(
        response.refs.get("HEAD"),
        Some(&RefTarget::WithMetadata(oid(0x11), "symref-target:refs/heads/main".to_string()))
    );
    assert_eq!(response.refs.get("refs/heads/main"), Some(&RefTarget::Plain(oid(0x11))));
    assert_eq!(response.refs.get("refs/heads/dev"), Some(&RefTarget::Plain(oid(0x12))));
    assert_eq!(response.refs.get("refs/tags/v1"), Some(&RefTarget::Plain(oid(0xA1))));
    assert_eq!(response.refs.get("refs/tags/simple"), Some(&RefTarget::Plain(oid(0x12))));
}

#[test]
fn ls_refs_fails_where_head_stands_for_a_ref_that_is_not_selected() {
    let request = LsRefsRequest {
        requested_refs: RequestedRefs::Included(names(&["heads/dev"])),
        requested_symrefs: RequestedSymrefs::IncludeHead(SymrefFormat::NameOnly),
        tag_inclusion: TagInclusion::AsIs,
    };
    assert_eq!(
        sorted(ls_refs_response(&repo(), request)),
        Err(Error::MissingSymrefTarget {
            symref_name: "HEAD".to_string(),
            ref_name: "refs/heads/main".to_string(),
            known_refs: known(&["refs/heads/dev"]),
        })
    );
}

#[test]
fn ls_refs_reports_a_malformed_name_before_anything_else() {
    let mut repo = repo();
    repo.symbolic_refs = vec![];
    let request = LsRefsRequest {
        requested_refs: RequestedRefs::IncludedWithValue(vec![("h\u{e9}".to_string(), cs(77))]),
        requested_symrefs: RequestedSymrefs::IncludeHead(SymrefFormat::NameOnly),
        tag_inclusion: TagInclusion::AsIs,
    };
    assert_eq!(
        ls_refs_response(&repo, request),
        Err(Error::MalformedRefName("h\u{e9}".to_string()))
    );
}

#[test]
fn ls_refs_reports_an_unmapped_changeset_before_a_symref() {
    let mut repo = repo();
    repo.symbolic_refs = vec![];
    let request = LsRefsRequest {
        requested_refs: RequestedRefs::IncludedWithValue(vec![("heads/x".to_string(), cs(77))]),
        requested_symrefs: RequestedSymrefs::IncludeHead(SymrefFormat::NameOnly),
        tag_inclusion: TagInclusion::AsIs,
    };
    assert_eq!(ls_refs_response(&repo, request), Err(Error::MissingGitMapping(cs(77))));
}

#[test]
fn supplied_ref_that_the_repository_does_not_know_is_listed() {
    let request = LsRefsRequest {
        requested_refs: RequestedRefs::IncludedWithValue(vec![(
            "refs/heads/unknown".to_string(),
            cs(2),
        )]),
        requested_symrefs: RequestedSymrefs::ExcludeAll,
        tag_inclusion: TagInclusion::AsIs,
    };
    let response = ls_refs_response(&repo(), request).unwrap();
    assert_eq!(response.refs.len(), 1);
    assert_eq!(response.refs.get("refs/refs/heads/unknown"), Some(&RefTarget::Plain(oid(0x12))));
}

#[test]
fn resolve_refs_gives_bookmarks_and_refs() {
    let (selected, refs) = resolve_refs(
        &repo(),
        &RequestedRefs::Included(names(&["heads/main"])),
        TagInclusion::Peeled,
        RequestedSymrefs::IncludeAll(SymrefFormat::NameOnly),
    )
    .unwrap();
    assert_eq!(selected.len(), 1);
    assert_eq!(selected.get(&key("heads/main")), Some(&cs(1)));
    assert_eq!(refs.len(), 2);
    assert_eq!(refs.get("refs/heads/main"), Some(&RefTarget::Plain(oid(0x11))));
    assert_eq!(refs.get("HEAD"), Some(&RefTarget::Plain(oid(0x11))));
}
