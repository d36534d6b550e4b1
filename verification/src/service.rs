//! What the source control service decides about commits before and after
//! it reads them: how a changed path is reported, which requests for diffs,
//! history and bookmarks are refused, and where a listing continues.

use vstd::prelude::*;

verus! {

/// How a path differs between two commits.
#[derive(Clone, Copy, Debug, PartialEq, Eq, Structural)]
pub enum PathDiff {
    /// The path is in the base commit alone.
    Added,
    /// The path is in the other commit alone.
    Removed,
    /// The path is in both commits, with other contents.
    Changed,
    /// The path of the base commit is a copy of a path of the other commit.
    Copied,
    /// The path of the base commit was moved there from a path of the other
    /// commit.
    Moved,
}

/// Whether a file was copied or moved.
#[derive(Clone, Copy, Debug, PartialEq, Eq, Structural)]
pub enum CopyInfo {
    Neither,
    Copy,
    Move,
}

/// How a changed path is reported: as a file or as a tree, with which of its
/// two sides, and, for a file, whether it was copied or moved.
#[derive(Clone, Copy, Debug, PartialEq, Eq, Structural)]
pub enum ComparePath {
    File { base: bool, other: bool, copy_info: CopyInfo },
    Tree { base: bool, other: bool },
}

/// How a path that differs as `diff` says is reported. `is_file` tells
/// whether the path is a file: of an added path the base side is asked, of
/// every other the other side. An added path has a base side only and a
/// removed path an other side only; every other has both. A file that was
/// copied or moved says so; a tree never does.
pub fn into_compare_path(diff: PathDiff, is_file: bool) -> (r: ComparePath)
    ensures
        r == spec_compare_path(diff, is_file),
{
    let base = match diff {
        PathDiff::Removed => false,
        _ => true,
    };
    let other = match diff {
        PathDiff::Added => false,
        _ => true,
    };
    if is_file {
        let copy_info = match diff {
            PathDiff::Copied => CopyInfo::Copy,
            PathDiff::Moved => CopyInfo::Move,
            _ => CopyInfo::Neither,
        };
        ComparePath::File { base, other, copy_info }
    } else {
        ComparePath::Tree { base, other }
    }
}

/// How a path that differs as `diff` says is reported.
pub open spec fn spec_compare_path(diff: PathDiff, is_file: bool) -> ComparePath {
    let base = diff != PathDiff::Removed;
    let other = diff != PathDiff::Added;
    if is_file {
        ComparePath::File {
            base,
            other,
            copy_info: match diff {
                PathDiff::Copied => CopyInfo::Copy,
                PathDiff::Moved => CopyInfo::Move,
                _ => CopyInfo::Neither,
            },
        }
    } else {
        ComparePath::Tree { base, other }
    }
}

/// What of two commits is compared.
#[derive(Clone, Copy, Debug, PartialEq, Eq, Structural)]
pub enum CompareItem {
    Files,
    Trees,
    /// An item that this service does not know.
    Other,
}

/// Which of files and trees are compared.
#[derive(Clone, Copy, Debug, PartialEq, Eq, Structural)]
pub struct DiffItems {
    pub files: bool,
    pub trees: bool,
}

/// Whether `item` is among `items`.
pub open spec fn items_contain(items: Seq<CompareItem>, item: CompareItem) -> bool {
    exists|i: int| 0 <= i < items.len() && items[i] == item
}

/// What is compared where `items` are asked for: files and trees as asked,
/// unknown items left out; and files where that leaves nothing.
pub fn diff_items(items: &Vec<CompareItem>) -> (r: DiffItems)
    ensures
        r.trees == items_contain(items@, CompareItem::Trees),
        r.files == (items_contain(items@, CompareItem::Files) || !items_contain(
            items@,
            CompareItem::Trees,
        )),
{
    let mut files = false;
    let mut trees = false;
    let mut i: usize = 0;
    while i < items.len()
        invariant
            i <= items.len(),
            files == items_contain(items@.take(i as int), CompareItem::Files),
            trees == items_contain(items@.take(i as int), CompareItem::Trees),
        decreases items.len() - i,
    {
        proof {
            let before = items@.take(i as int);
            let after = items@.take(i as int + 1);
            assert forall|item: CompareItem|
                items_contain(after, item) <==> (items_contain(before, item) || items@[i as int]
                    == item) by {
                if items_contain(before, item) {
                    let j = choose|j: int| 0 <= j < before.len() && before[j] == item;
                    assert(after[j] == item);
                }
                if items@[i as int] == item {
                    assert(after[i as int] == item);
                }
                if items_contain(after, item) {
                    let j = choose|j: int| 0 <= j < after.len() && after[j] == item;
                    if j < i {
                        assert(before[j] == item);
                    }
                }
            }
        }
        match items[i] {
            CompareItem::Files => {
                files = true;
            },
            CompareItem::Trees => {
                trees = true;
            },
            CompareItem::Other => {},
        }
        i += 1;
    }
    proof {
        assert(items@.take(i as int) =~= items@);
    }
    if !files && !trees {
        files = true;
    }
    DiffItems { files, trees }
}

/// How the diff of a file is made.
#[derive(Clone, Copy, Debug, PartialEq, Eq, Structural)]
pub enum UnifiedDiffMode {
    /// With the changed lines.
    Inline,
    /// With a placeholder in place of the changed lines.
    OmitContent,
}

/// How the diff of a pair of paths is made: with a placeholder where the
/// request asks for one, else inline.
pub fn diff_mode(generate_placeholder_diff: Option<bool>) -> (mode: UnifiedDiffMode)
    ensures
        mode == if generate_placeholder_diff == Some(true) {
            UnifiedDiffMode::OmitContent
        } else {
            UnifiedDiffMode::Inline
        },
{
    match generate_placeholder_diff {
        Some(true) => UnifiedDiffMode::OmitContent,
        _ => UnifiedDiffMode::Inline,
    }
}

/// Whether `count`, a number of paths or of bytes, is more than `limit`.
pub fn exceeds_limit(count: u64, limit: i64) -> (r: bool)
    ensures
        r == (count > limit),
{
    if limit < 0 {
        true
    } else {
        count > limit as u64
    }
}

/// Why a request for the history of a commit is refused.
#[derive(Clone, Copy, Debug, PartialEq, Eq, Structural)]
pub enum HistoryError {
    /// The history is to end before it begins.
    AfterGreaterThanBefore { after_timestamp: i64, before_timestamp: i64 },
    /// Commits are to be skipped while a time filter is set.
    SkipWithTimeFilter,
}

/// Whether a request for the history of a commit between two times, with
/// `skip` commits left out, can be served, or why not: the time before which
/// the history lies must not be earlier than the time after which it lies;
/// and, that being so, no commit can be skipped where either time is set.
pub open spec fn spec_check_history_window(
    after_timestamp: Option<i64>,
    before_timestamp: Option<i64>,
    skip: usize,
) -> Result<(), HistoryError> {
    if after_timestamp is Some && before_timestamp is Some && before_timestamp.unwrap()
        < after_timestamp.unwrap() {
        Err(
            HistoryError::AfterGreaterThanBefore {
                after_timestamp: after_timestamp.unwrap(),
                before_timestamp: before_timestamp.unwrap(),
            },
        )
    } else if skip > 0 && (after_timestamp is Some || before_timestamp is Some) {
        Err(HistoryError::SkipWithTimeFilter)
    } else {
        Ok(())
    }
}

/// Whether a request for the history of a commit between two times, with
/// `skip` commits left out, can be served, or why not.
pub fn check_history_window(
    after_timestamp: Option<i64>,
    before_timestamp: Option<i64>,
    skip: usize,
) -> (r: Result<(), HistoryError>)
    ensures
        r == spec_check_history_window(after_timestamp, before_timestamp, skip),
{
    match (after_timestamp, before_timestamp) {
        (Some(ats), Some(bts)) => {
            if bts < ats {
                return Err(
                    HistoryError::AfterGreaterThanBefore {
                        after_timestamp: ats,
                        before_timestamp: bts,
                    },
                );
            }
        },
        _ => {},
    }
    if skip > 0 && (after_timestamp.is_some() || before_timestamp.is_some()) {
        return Err(HistoryError::SkipWithTimeFilter);
    }
    Ok(())
}

/// The most bookmarks to list: a limit of zero is no limit.
pub fn bookmark_limit(limit: u64) -> (r: Option<u64>)
    ensures
        r == if limit == 0 {
            None
        } else {
            Some(limit)
        },
{
    if limit == 0 {
        None
    } else {
        Some(limit)
    }
}

/// The name after which a listing of bookmarks continues: the last of the
/// names listed, where the listing is limited and the limit was reached;
/// else the listing is complete.
pub fn continue_after(limit: Option<u64>, listed: &Vec<String>) -> (r: Option<String>)
    ensures
        match r {
            Some(name) => {
                &&& limit matches Some(most)
                &&& listed@.len() >= most
                &&& listed@.len() > 0
                &&& name@ == listed@.last()@
            },
            None => !(limit matches Some(most) && listed@.len() >= most && listed@.len() > 0),
        },
{
    match limit {
        Some(most) => {
            if listed.len() as u64 >= most && listed.len() > 0 {
                Some(listed[listed.len() - 1].clone())
            } else {
                None
            }
        },
        None => None,
    }
}

} // verus!
