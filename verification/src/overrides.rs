//! Replacing one part of a repository, for tests that need a repository
//! which differs from another in that part alone.

use crate::bookmark::BookmarkKey;
use crate::hash::ChangesetId;
use crate::repo::BonsaiGitMappingEntry;
use crate::repo::BonsaiTagMappingEntry;
use crate::repo::GitSymbolicRefsEntry;
use crate::repo::RepoSnapshot;
use crate::repo::duplicate_bookmarks;
use crate::repo::duplicate_git_mapping;
use crate::repo::duplicate_symbolic_refs;
use crate::repo::duplicate_tag_mapping;
use vstd::prelude::*;

verus! {

/// A value with a part of type `T` that can be replaced.
///
/// `dangerous_override` makes a new value in which that part is what `modify`
/// made of a copy of it. This can be very dangerous: it is for tests, and for
/// those who really know what they are doing.
pub trait DangerousOverride<T: View>: Sized {
    /// What the part that is replaced holds.
    spec fn overridden(&self) -> T::V;

    fn dangerous_override<F>(&self, modify: F) -> (r: Self) where F: FnOnce(T) -> T
        requires
            forall|part: T| part@ == self.overridden() ==> modify.requires((part,)),
        ensures
            exists|part: T, made: T|
                {
                    &&& part@ == self.overridden()
                    &&& modify.ensures((part,), made)
                    &&& r.overridden() == made@
                },
    ;
}

impl DangerousOverride<Vec<(BookmarkKey, ChangesetId)>> for RepoSnapshot {
    open spec fn overridden(&self) -> Seq<(BookmarkKey, ChangesetId)> {
        self.bookmarks@
    }

    /// The same repository with other bookmarks.
    fn dangerous_override<F>(&self, modify: F) -> (r: Self) where
        F: FnOnce(Vec<(BookmarkKey, ChangesetId)>) -> Vec<(BookmarkKey, ChangesetId)>,

        ensures
            r.bonsai_git_mapping@ == self.bonsai_git_mapping@,
            r.bonsai_tag_mapping@ == self.bonsai_tag_mapping@,
            r.symbolic_refs@ == self.symbolic_refs@,
    {
        let bookmarks = modify(duplicate_bookmarks(&self.bookmarks));
        RepoSnapshot {
            bookmarks,
            bonsai_git_mapping: duplicate_git_mapping(&self.bonsai_git_mapping),
            bonsai_tag_mapping: duplicate_tag_mapping(&self.bonsai_tag_mapping),
            symbolic_refs: duplicate_symbolic_refs(&self.symbolic_refs),
        }
    }
}

impl DangerousOverride<Vec<BonsaiGitMappingEntry>> for RepoSnapshot {
    open spec fn overridden(&self) -> Seq<BonsaiGitMappingEntry> {
        self.bonsai_git_mapping@
    }

    /// The same repository with another bonsai-git mapping.
    fn dangerous_override<F>(&self, modify: F) -> (r: Self) where
        F: FnOnce(Vec<BonsaiGitMappingEntry>) -> Vec<BonsaiGitMappingEntry>,

        ensures
            r.bookmarks@ == self.bookmarks@,
            r.bonsai_tag_mapping@ == self.bonsai_tag_mapping@,
            r.symbolic_refs@ == self.symbolic_refs@,
    {
        let bonsai_git_mapping = modify(duplicate_git_mapping(&self.bonsai_git_mapping));
        RepoSnapshot {
            bookmarks: duplicate_bookmarks(&self.bookmarks),
            bonsai_git_mapping,
            bonsai_tag_mapping: duplicate_tag_mapping(&self.bonsai_tag_mapping),
            symbolic_refs: duplicate_symbolic_refs(&self.symbolic_refs),
        }
    }
}

impl DangerousOverride<Vec<BonsaiTagMappingEntry>> for RepoSnapshot {
    open spec fn overridden(&self) -> Seq<BonsaiTagMappingEntry> {
        self.bonsai_tag_mapping@
    }

    /// The same repository with another bonsai-tag mapping.
    fn dangerous_override<F>(&self, modify: F) -> (r: Self) where
        F: FnOnce(Vec<BonsaiTagMappingEntry>) -> Vec<BonsaiTagMappingEntry>,

        ensures
            r.bookmarks@ == self.bookmarks@,
            r.bonsai_git_mapping@ == self.bonsai_git_mapping@,
            r.symbolic_refs@ == self.symbolic_refs@,
    {
        let bonsai_tag_mapping = modify(duplicate_tag_mapping(&self.bonsai_tag_mapping));
        RepoSnapshot {
            bookmarks: duplicate_bookmarks(&self.bookmarks),
            bonsai_git_mapping: duplicate_git_mapping(&self.bonsai_git_mapping),
            bonsai_tag_mapping,
            symbolic_refs: duplicate_symbolic_refs(&self.symbolic_refs),
        }
    }
}

impl DangerousOverride<Vec<GitSymbolicRefsEntry>> for RepoSnapshot {
    open spec fn overridden(&self) -> Seq<GitSymbolicRefsEntry> {
        self.symbolic_refs@
    }

    /// The same repository with other symbolic refs.
    fn dangerous_override<F>(&self, modify: F) -> (r: Self) where
        F: FnOnce(Vec<GitSymbolicRefsEntry>) -> Vec<GitSymbolicRefsEntry>,

        ensures
            r.bookmarks@ == self.bookmarks@,
            r.bonsai_git_mapping@ == self.bonsai_git_mapping@,
            r.bonsai_tag_mapping@ == self.bonsai_tag_mapping@,
    {
        let symbolic_refs = modify(duplicate_symbolic_refs(&self.symbolic_refs));
        RepoSnapshot {
            bookmarks: duplicate_bookmarks(&self.bookmarks),
            bonsai_git_mapping: duplicate_git_mapping(&self.bonsai_git_mapping),
            bonsai_tag_mapping: duplicate_tag_mapping(&self.bonsai_tag_mapping),
            symbolic_refs,
        }
    }
}

} // verus!
