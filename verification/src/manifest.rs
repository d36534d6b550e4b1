//! The commits of a pack, newest first as the commit graph hands them out,
//! each with its Git delta manifest.

use crate::delta::GitDeltaManifestEntry;
use crate::hash::ChangesetId;
use vstd::prelude::*;

verus! {

/// One sub-entry of a Git delta manifest: the path of a tree or blob that
/// the changeset introduces, and the manifest's record of it.
#[derive(Clone, Debug, PartialEq, Eq)]
pub struct ManifestEntry {
    pub path: Vec<u8>,
    pub entry: GitDeltaManifestEntry,
}

/// A commit of a pack: the changeset and the sub-entries of its Git delta
/// manifest, in manifest order.
#[derive(Clone, Debug, PartialEq, Eq)]
pub struct TargetCommit {
    pub changeset_id: ChangesetId,
    pub manifest: Vec<ManifestEntry>,
}

/// The object ids of the full objects of the manifest of `commit`, in
/// manifest order.
pub open spec fn commit_oids(commit: TargetCommit) -> Seq<Seq<u8>> {
    commit.manifest@.map_values(|e: ManifestEntry| e.entry.full.oid@)
}

/// The object ids of the full objects of the manifests of `commits`, commit
/// after commit, each in manifest order.
pub open spec fn manifest_oids(commits: Seq<TargetCommit>) -> Seq<Seq<u8>>
    decreases commits.len(),
{
    if commits.len() == 0 {
        Seq::empty()
    } else {
        manifest_oids(commits.drop_last()) + commit_oids(commits.last())
    }
}

/// How many trees and blobs the manifests of `commits` introduce: the number
/// of distinct object ids among them.
pub open spec fn spec_trees_and_blobs_count(commits: Seq<TargetCommit>) -> nat {
    manifest_oids(commits).to_set().len()
}

/// The same commits in reverse order.
pub open spec fn spec_target_commits(commits: Seq<TargetCommit>) -> Seq<TargetCommit> {
    commits.reverse()
}

} // verus!
