use git_protocol::bookmark::BookmarkKey;
use git_protocol::commits::CommitSetQuery;
use git_protocol::commits::target_commits;
use git_protocol::delta::GitDeltaManifestEntry;
use git_protocol::delta::ObjectDelta;
use git_protocol::delta::ObjectEntry;
use git_protocol::error::Error;
use git_protocol::hash::ChangesetId;
use git_protocol::hash::GitObjectId;
use git_protocol::hash::ObjectKind;
use git_protocol::hash::RichGitObjectId;
use git_protocol::items::COMMIT_CONCURRENCY;
use git_protocol::items::MANIFEST_ENTRY_CONCURRENCY;
use git_protocol::items::OBJECT_COUNT_CONCURRENCY;
use git_protocol::items::PendingItem;
use git_protocol::items::TAG_CONCURRENCY;
use git_protocol::items::TREE_AND_BLOB_COMMIT_CONCURRENCY;
use git_protocol::items::blob_and_tree_packfile_items;
use git_protocol::items::blob_and_tree_packfile_stream;
use git_protocol::items::commit_packfile_stream;
use git_protocol::items::packfile_entry;
use git_protocol::items::tag_entries_to_stream;
use git_protocol::items::tag_packfile_stream;
use git_protocol::manifest::ManifestEntry;
use git_protocol::manifest::TargetCommit;
use git_protocol::pack::generate_pack_item_stream;
use git_protocol::pack::ls_refs_response;
use git_protocol::pack::pack_commit_set;
use git_protocol::pack::trees_and_blobs_count;
use git_protocol::provider::ObjectIdentifierType;
use git_protocol::refs::bookmarks;
use git_protocol::repo::BonsaiGitMappingEntry;
use git_protocol::repo::BonsaiTagMappingEntry;
use git_protocol::repo::GitSymbolicRefsEntry;
use git_protocol::repo::RefType;
use git_protocol::repo::RepoSnapshot;
use git_protocol::types::DeltaInclusion;
use git_protocol::types::LsRefsRequest;
use git_protocol::types::PackItemStreamRequest;
use git_protocol::types::PackfileItemInclusion;
use git_protocol::types::Ratio;
use git_protocol::types::RefTarget;
use git_protocol::types::RequestedRefs;
use git_protocol::types::RequestedSymrefs;
use git_protocol::types::SymrefFormat;
use git_protocol::types::TagInclusion;

fn cs(n: u8) -> ChangesetId {
    ChangesetId::new([n; 32])
}

fn oid(n: u8) -> GitObjectId {
    GitObjectId::new([n; 20])
}

fn key(name: &str) -> BookmarkKey {
    BookmarkKey::new(name).unwrap()
}

fn delta_on(base: u8, origin: u8, compressed: u64) -> ObjectDelta {
    ObjectDelta {
        origin: cs(origin),
        base_oid: oid(base),
        instructions_chunk_count: 2,
        instructions_uncompressed_size: 500,
        instructions_compressed_size: compressed,
    }
}

fn object(
    path: &str,
    id: u8,
    kind: ObjectKind,
    size: u64,
    deltas: Vec<ObjectDelta>,
) -> ManifestEntry {
    ManifestEntry {
        path: path.as_bytes().to_vec(),
        entry: GitDeltaManifestEntry { full: ObjectEntry { oid: oid(id), size, kind }, deltas },
    }
}

fn full(id: u8, kind: ObjectKind, size: u64, inclusion: PackfileItemInclusion) -> PendingItem {
    PendingItem::Base {
        id: ObjectIdentifierType::AllObjects(RichGitObjectId::new(oid(id), kind, size)),
        inclusion,
    }
}

fn non_blob(id: u8, inclusion: PackfileItemInclusion) -> PendingItem {
    PendingItem::Base { id: ObjectIdentifierType::NonBlobObjects(oid(id)), inclusion }
}

fn request(delta_inclusion: DeltaInclusion, tag_inclusion: TagInclusion) -> PackItemStreamRequest {
    PackItemStreamRequest {
        requested_symrefs: RequestedSymrefs::ExcludeAll,
        requested_refs: RequestedRefs::all(),
        have_heads: vec![],
        delta_inclusion,
        tag_inclusion,
        packfile_item_inclusion: PackfileItemInclusion::Generate,
    }
}

/// Commit 1 (Git commit 0x11) brings the tree 0x21 and the blob 0x31.
fn first_commit() -> TargetCommit {
    TargetCommit {
        changeset_id: cs(1),
        manifest: vec![
            object("", 0x21, ObjectKind::Tree, 40, vec![]),
            object("file", 0x31, ObjectKind::Blob, 100, vec![]),
        ],
    }
}

/// Commit 2 (Git commit 0x12), child of commit 1, brings the tree 0x22 and
/// the blob 0x32, each with a delta on its forerunner of commit 1.
fn second_commit() -> TargetCommit {
    TargetCommit {
        changeset_id: cs(2),
        manifest: vec![
            object("", 0x22, ObjectKind::Tree, 40, vec![delta_on(0x21, 1, 30)]),
            object(
                "file",
                0x32,
                ObjectKind::Blob,
                100,
                vec![delta_on(0x30, 0, 70), delta_on(0x31, 1, 20)],
            ),
        ],
    }
}

fn empty_repo() -> RepoSnapshot {
    RepoSnapshot {
        bookmarks: vec![],
        bonsai_git_mapping: vec![],
        bonsai_tag_mapping: vec![],
        symbolic_refs: vec![],
    }
}

/// Branch `heads/main` at commit 2, whose parent is commit 1, and the
/// annotated tag `tags/v1`, with the tag object 0xA1, at commit 1.
fn repo() -> RepoSnapshot {
    RepoSnapshot {
        bookmarks: vec![(key("heads/main"), cs(2)), (key("tags/v1"), cs(1))],
        bonsai_git_mapping: vec![
            BonsaiGitMappingEntry { bcs_id: cs(1), git_sha1: oid(0x11) },
            BonsaiGitMappingEntry { bcs_id: cs(2), git_sha1: oid(0x12) },
        ],
        bonsai_tag_mapping: vec![BonsaiTagMappingEntry {
            tag_name: "tags/v1".to_string(),
            tag_hash: oid(0xA1),
        }],
        symbolic_refs: vec![GitSymbolicRefsEntry {
            symref_name: "HEAD".to_string(),
            ref_name: "main".to_string(),
            ref_type: RefType::Branch,
        }],
    }
}

fn half() -> DeltaInclusion {
    DeltaInclusion::Include { inclusion_threshold: Ratio { numerator: 1, denominator: 2 } }
}

#[test]
fn empty_repo_clone() {
    let response = generate_pack_item_stream(
        &empty_repo(),
        vec![],
        request(DeltaInclusion::standard(), TagInclusion::AsIs),
    )
    .unwrap();
    assert_eq!(response.object_count, 0);
    assert!(response.refs.is_empty());
    assert!(response.stream.is_empty());
}

#[test]
fn single_commit_clone_delta_off() {
    let repo = RepoSnapshot {
        bookmarks: vec![(key("heads/main"), cs(1))],
        bonsai_git_mapping: vec![BonsaiGitMappingEntry { bcs_id: cs(1), git_sha1: oid(0x11) }],
        bonsai_tag_mapping: vec![],
        symbolic_refs: vec![],
    };
    let response = generate_pack_item_stream(
        &repo,
        vec![first_commit()],
        request(DeltaInclusion::Exclude, TagInclusion::AsIs),
    )
    .unwrap();
    assert_eq!(response.object_count, 3);
    assert_eq!(
        response.stream,
        vec![
            non_blob(0x11, PackfileItemInclusion::Generate),
            full(0x21, ObjectKind::Tree, 40, PackfileItemInclusion::Generate),
            full(0x31, ObjectKind::Blob, 100, PackfileItemInclusion::Generate),
        ]
    );
    assert_eq!(response.refs.len(), 1);
    assert_eq!(response.refs.get("refs/heads/main"), Some(&RefTarget::Plain(oid(0x11))));
}

#[test]
fn annotated_tag_three_tag_inclusion_modes() {
    for (inclusion, target) in [
        (TagInclusion::AsIs, RefTarget::Plain(oid(0xA1))),
        (TagInclusion::Peeled, RefTarget::Plain(oid(0x11))),
        (
            TagInclusion::WithTarget,
            RefTarget::WithMetadata(
                oid(0xA1),
                "peeled:1111111111111111111111111111111111111111".to_string(),
            ),
        ),
    ] {
        let response = generate_pack_item_stream(
            &repo(),
            vec![second_commit(), first_commit()],
            request(DeltaInclusion::Exclude, inclusion),
        )
        .unwrap();
        assert_eq!(response.refs.len(), 2);
        assert_eq!(response.refs.get("refs/tags/v1"), Some(&target));
        assert_eq!(response.refs.get("refs/heads/main"), Some(&RefTarget::Plain(oid(0x12))));
        // The tag object goes with every bookmark that is an annotated tag
        let tag_objects =
            response.stream.iter().filter(|item| item.oid() == oid(0xA1)).count();
        assert_eq!(tag_objects, 1);
        assert_eq!(response.stream[0], non_blob(0xA1, PackfileItemInclusion::Generate));
        assert_eq!(response.object_count, 7);
    }
}

#[test]
fn pack_brings_tags_then_commits_then_trees_and_blobs() {
    let response = generate_pack_item_stream(
        &repo(),
        vec![second_commit(), first_commit()],
        request(DeltaInclusion::Exclude, TagInclusion::AsIs),
    )
    .unwrap();
    let generate = PackfileItemInclusion::Generate;
    assert_eq!(
        response.stream,
        vec![
            non_blob(0xA1, generate),
            non_blob(0x11, generate),
            non_blob(0x12, generate),
            full(0x21, ObjectKind::Tree, 40, generate),
            full(0x31, ObjectKind::Blob, 100, generate),
            full(0x22, ObjectKind::Tree, 40, generate),
            full(0x32, ObjectKind::Blob, 100, generate),
        ]
    );
    assert_eq!(response.object_count, 7);
    assert_eq!(response.object_count, response.stream.len());
}

#[test]
fn pack_sends_deltas_below_the_threshold_after_their_bases() {
    let mut request = request(half(), TagInclusion::AsIs);
    request.packfile_item_inclusion = PackfileItemInclusion::FetchOnly;
    let response =
        generate_pack_item_stream(&repo(), vec![second_commit(), first_commit()], request)
            .unwrap();
    let fetch = PackfileItemInclusion::FetchOnly;
    assert_eq!(
        response.stream,
        vec![
            non_blob(0xA1, fetch),
            non_blob(0x11, fetch),
            non_blob(0x12, fetch),
            full(0x21, ObjectKind::Tree, 40, fetch),
            full(0x31, ObjectKind::Blob, 100, fetch),
            // 30 is not below half of 40
            full(0x22, ObjectKind::Tree, 40, fetch),
            // 20 is the smallest, and below half of 100
            PendingItem::Delta {
                oid: oid(0x32),
                delta: delta_on(0x31, 1, 20),
                changeset_id: cs(2),
                path: b"file".to_vec(),
            },
        ]
    );
    assert_eq!(response.object_count, 7);
    for (i, item) in response.stream.iter().enumerate() {
        if let PendingItem::Delta { delta, .. } = item {
            assert!(response.stream[..i].iter().any(|earlier| earlier.oid() == delta.base_oid));
        }
    }
}

#[test]
fn pack_holds_no_delta_where_deltas_are_excluded() {
    let response = generate_pack_item_stream(
        &repo(),
        vec![second_commit(), first_commit()],
        request(DeltaInclusion::Exclude, TagInclusion::AsIs),
    )
    .unwrap();
    assert!(response.stream.iter().all(|item| matches!(item, PendingItem::Base { .. })));
}

#[test]
fn pack_counts_an_object_of_two_manifests_once() {
    let again = TargetCommit {
        changeset_id: cs(2),
        manifest: vec![
            object("", 0x22, ObjectKind::Tree, 40, vec![]),
            object("copy", 0x31, ObjectKind::Blob, 100, vec![]),
        ],
    };
    let response = generate_pack_item_stream(
        &repo(),
        vec![again, first_commit()],
        request(DeltaInclusion::Exclude, TagInclusion::AsIs),
    )
    .unwrap();
    // One tag, two commits, three distinct trees and blobs; the blob goes out
    // with each of the two manifests
    assert_eq!(response.object_count, 6);
    assert_eq!(response.stream.len(), 7);
}

#[test]
fn pack_lists_the_refs_that_ls_refs_lists() {
    for tag_inclusion in [TagInclusion::AsIs, TagInclusion::Peeled, TagInclusion::WithTarget] {
        for requested_symrefs in [
            RequestedSymrefs::ExcludeAll,
            RequestedSymrefs::IncludeHead(SymrefFormat::NameWithTarget),
            RequestedSymrefs::IncludeAll(SymrefFormat::NameOnly),
        ] {
            let mut pack = request(DeltaInclusion::standard(), tag_inclusion);
            pack.requested_symrefs = requested_symrefs;
            let listing = LsRefsRequest {
                requested_refs: RequestedRefs::all(),
                requested_symrefs,
                tag_inclusion,
            };
            let packed =
                generate_pack_item_stream(&repo(), vec![second_commit(), first_commit()], pack)
                    .unwrap();
            let listed = ls_refs_response(&repo(), listing).unwrap();
            assert_eq!(packed.refs, listed.refs);
        }
    }
}

#[test]
fn pack_fails_as_the_refs_do() {
    let mut pack = request(DeltaInclusion::standard(), TagInclusion::AsIs);
    pack.requested_refs = RequestedRefs::Included(vec!["tags/v1".to_string()]);
    pack.requested_symrefs = RequestedSymrefs::IncludeHead(SymrefFormat::NameOnly);
    assert_eq!(
        generate_pack_item_stream(&repo(), vec![first_commit()], pack),
        Err(Error::MissingSymrefTarget {
            symref_name: "HEAD".to_string(),
            ref_name: "refs/heads/main".to_string(),
            known_refs: vec!["refs/tags/v1".to_string()],
        })
    );
}

#[test]
fn pack_fails_where_a_commit_has_no_git_commit() {
    let stranger = TargetCommit { changeset_id: cs(7), manifest: vec![] };
    let other = TargetCommit { changeset_id: cs(8), manifest: vec![] };
    assert_eq!(
        generate_pack_item_stream(
            &repo(),
            vec![other, second_commit(), stranger, first_commit()],
            request(DeltaInclusion::standard(), TagInclusion::AsIs),
        ),
        Err(Error::MissingGitMapping(cs(7)))
    );
}

#[test]
fn commit_graph_is_asked_for_the_selected_bookmarks() {
    let mut pack = request(DeltaInclusion::standard(), TagInclusion::AsIs);
    pack.have_heads = vec![cs(5), cs(6)];
    let mut query = pack_commit_set(&repo(), &pack).unwrap();
    query.heads.sort_by_key(|id| id.bytes);
    assert_eq!(query, CommitSetQuery { heads: vec![cs(1), cs(2)], haves: vec![cs(5), cs(6)] });

    pack.requested_refs = RequestedRefs::Included(vec!["heads/main".to_string()]);
    assert_eq!(
        pack_commit_set(&repo(), &pack),
        Ok(CommitSetQuery { heads: vec![cs(2)], haves: vec![cs(5), cs(6)] })
    );

    pack.requested_refs = RequestedRefs::IncludedWithValue(vec![("\u{e9}".to_string(), cs(1))]);
    assert_eq!(
        pack_commit_set(&repo(), &pack),
        Err(Error::MalformedRefName("\u{e9}".to_string()))
    );
}

#[test]
fn commits_go_out_in_reverse_of_the_graphs_answer() {
    let third = TargetCommit { changeset_id: cs(3), manifest: vec![] };
    assert_eq!(
        target_commits(vec![third.clone(), second_commit(), first_commit()]),
        vec![first_commit(), second_commit(), third]
    );
    assert_eq!(target_commits(vec![first_commit()]), vec![first_commit()]);
    assert_eq!(target_commits(vec![]), Vec::<TargetCommit>::new());
}

#[test]
fn trees_and_blobs_are_counted_once_each() {
    assert_eq!(trees_and_blobs_count(&vec![]), 0);
    assert_eq!(trees_and_blobs_count(&vec![first_commit()]), 2);
    assert_eq!(trees_and_blobs_count(&vec![first_commit(), second_commit()]), 4);
    assert_eq!(trees_and_blobs_count(&vec![first_commit(), first_commit()]), 2);
    let twice = TargetCommit {
        changeset_id: cs(4),
        manifest: vec![
            object("a", 0x31, ObjectKind::Blob, 100, vec![]),
            object("b", 0x31, ObjectKind::Blob, 100, vec![]),
        ],
    };
    assert_eq!(trees_and_blobs_count(&vec![twice.clone()]), 1);
    assert_eq!(trees_and_blobs_count(&vec![first_commit(), twice]), 2);
}

#[test]
fn packfile_entry_is_a_delta_or_the_full_object() {
    let sub = object("file", 0x32, ObjectKind::Blob, 100, vec![delta_on(0x31, 1, 49)]);
    let generate = PackfileItemInclusion::Generate;
    assert_eq!(
        packfile_entry(half(), generate, cs(2), sub.path.clone(), sub.entry.clone()),
        PendingItem::Delta {
            oid: oid(0x32),
            delta: delta_on(0x31, 1, 49),
            changeset_id: cs(2),
            path: b"file".to_vec(),
        }
    );
    assert_eq!(
        packfile_entry(DeltaInclusion::Exclude, generate, cs(2), sub.path.clone(), sub.entry),
        full(0x32, ObjectKind::Blob, 100, generate)
    );
    let sub = object("file", 0x32, ObjectKind::Blob, 100, vec![delta_on(0x31, 1, 50)]);
    assert_eq!(
        packfile_entry(half(), generate, cs(2), sub.path.clone(), sub.entry),
        full(0x32, ObjectKind::Blob, 100, generate)
    );
}

#[test]
fn trees_and_blobs_of_a_commit_keep_the_order_of_its_manifest() {
    let store = PackfileItemInclusion::FetchAndStore;
    assert_eq!(
        blob_and_tree_packfile_items(half(), store, &second_commit()),
        vec![
            full(0x22, ObjectKind::Tree, 40, store),
            PendingItem::Delta {
                oid: oid(0x32),
                delta: delta_on(0x31, 1, 20),
                changeset_id: cs(2),
                path: b"file".to_vec(),
            },
        ]
    );
    let empty = TargetCommit { changeset_id: cs(3), manifest: vec![] };
    assert!(blob_and_tree_packfile_items(half(), store, &empty).is_empty());
}

#[test]
fn trees_and_blobs_keep_the_order_of_the_commits() {
    let generate = PackfileItemInclusion::Generate;
    let empty = TargetCommit { changeset_id: cs(3), manifest: vec![] };
    assert_eq!(
        blob_and_tree_packfile_stream(
            &vec![second_commit(), empty, first_commit()],
            DeltaInclusion::Exclude,
            generate
        ),
        vec![
            full(0x22, ObjectKind::Tree, 40, generate),
            full(0x32, ObjectKind::Blob, 100, generate),
            full(0x21, ObjectKind::Tree, 40, generate),
            full(0x31, ObjectKind::Blob, 100, generate),
        ]
    );
    assert!(blob_and_tree_packfile_stream(&vec![], half(), generate).is_empty());
}

#[test]
fn commit_objects_keep_the_order_of_the_commits() {
    let fetch = PackfileItemInclusion::FetchOnly;
    assert_eq!(
        commit_packfile_stream(&repo(), &vec![second_commit(), first_commit()], fetch),
        Ok(vec![non_blob(0x12, fetch), non_blob(0x11, fetch)])
    );
    assert_eq!(commit_packfile_stream(&repo(), &vec![], fetch), Ok(vec![]));
    let stranger = TargetCommit { changeset_id: cs(7), manifest: vec![] };
    assert_eq!(
        commit_packfile_stream(&repo(), &vec![first_commit(), stranger], fetch),
        Err(Error::MissingGitMapping(cs(7)))
    );
}

#[test]
fn tag_objects_go_with_annotated_tags_only() {
    let mut repo = repo();
    repo.bookmarks.push((key("tags/simple"), cs(2)));
    repo.bonsai_tag_mapping.push(BonsaiTagMappingEntry {
        tag_name: "tags/unlisted".to_string(),
        tag_hash: oid(0xA2),
    });
    repo.bonsai_tag_mapping.push(BonsaiTagMappingEntry {
        tag_name: "heads/main".to_string(),
        tag_hash: oid(0xA3),
    });
    let generate = PackfileItemInclusion::Generate;
    let request = request(DeltaInclusion::Exclude, TagInclusion::Peeled);
    let selected = bookmarks(&repo, &RequestedRefs::all()).unwrap();
    assert_eq!(
        tag_packfile_stream(&repo, &selected, &request),
        (vec![non_blob(0xA1, generate)], 1)
    );
    let selected =
        bookmarks(&repo, &RequestedRefs::Included(vec!["heads/main".to_string()])).unwrap();
    assert_eq!(tag_packfile_stream(&repo, &selected, &request), (vec![], 0));
}

#[test]
fn every_annotated_tag_among_the_bookmarks_gets_its_object() {
    let mut repo = repo();
    repo.bookmarks.push((key("tags/v2"), cs(2)));
    repo.bonsai_tag_mapping.push(BonsaiTagMappingEntry {
        tag_name: "tags/v2".to_string(),
        tag_hash: oid(0xA2),
    });
    let store = PackfileItemInclusion::FetchAndStore;
    let mut request = request(DeltaInclusion::Exclude, TagInclusion::AsIs);
    request.packfile_item_inclusion = store;
    let selected = bookmarks(&repo, &RequestedRefs::all()).unwrap();
    let (mut items, count) = tag_packfile_stream(&repo, &selected, &request);
    items.sort_by_key(|item| item.oid().bytes);
    assert_eq!(count, 2);
    assert_eq!(items, vec![non_blob(0xA1, store), non_blob(0xA2, store)]);
}

#[test]
fn tag_entries_become_items_in_order() {
    let entries = vec![
        BonsaiTagMappingEntry { tag_name: "tags/b".to_string(), tag_hash: oid(0xB0) },
        BonsaiTagMappingEntry { tag_name: "tags/a".to_string(), tag_hash: oid(0xA0) },
    ];
    let fetch = PackfileItemInclusion::FetchOnly;
    assert_eq!(
        tag_entries_to_stream(&entries, fetch),
        vec![non_blob(0xB0, fetch), non_blob(0xA0, fetch)]
    );
    assert!(tag_entries_to_stream(&vec![], fetch).is_empty());
}

#[test]
fn concurrency_windows() {
    assert_eq!(TREE_AND_BLOB_COMMIT_CONCURRENCY, 500);
    assert_eq!(MANIFEST_ENTRY_CONCURRENCY, 1000);
    assert_eq!(COMMIT_CONCURRENCY, 1000);
    assert_eq!(OBJECT_COUNT_CONCURRENCY, 1000);
    assert_eq!(TAG_CONCURRENCY, 500);
}
