use git_protocol::command::FetchMode;
use git_protocol::command::FetchType;
use git_protocol::command::FileAttributes;
use git_protocol::command::OptionsError;
use git_protocol::command::fetch_mode;
use git_protocol::command::fetch_type;
use git_protocol::command::file_fetch_attempts;
use git_protocol::service::CompareItem;
use git_protocol::service::ComparePath;
use git_protocol::service::CopyInfo;
use git_protocol::service::DiffItems;
use git_protocol::service::HistoryError;
use git_protocol::service::PathDiff;
use git_protocol::service::UnifiedDiffMode;
use git_protocol::service::bookmark_limit;
use git_protocol::service::check_history_window;
use git_protocol::service::continue_after;
use git_protocol::service::diff_items;
use git_protocol::service::diff_mode;
use git_protocol::service::exceeds_limit;
use git_protocol::service::into_compare_path;

#[test]
fn mode_must_be_file_or_tree() {
    assert_eq!(fetch_type("file", true, false), Ok(FetchType::File));
    assert_eq!(fetch_type("tree", true, false), Ok(FetchType::Tree));
    assert_eq!(fetch_type("files", true, false), Err(OptionsError::UnknownMode));
    assert_eq!(fetch_type("", true, false), Err(OptionsError::UnknownMode));
    assert_eq!(fetch_type("File", true, false), Err(OptionsError::UnknownMode));
    // An unknown mode is reported before anything else
    assert_eq!(fetch_type("blob", true, true), Err(OptionsError::UnknownMode));
}

#[test]
fn exactly_one_source_of_keys_must_be_given() {
    assert_eq!(fetch_type("file", true, true), Err(OptionsError::NotOneKeySource));
    assert_eq!(fetch_type("file", false, false), Err(OptionsError::NotOneKeySource));
    assert_eq!(fetch_type("tree", true, true), Err(OptionsError::NotOneKeySource));
    assert_eq!(fetch_type("tree", false, false), Err(OptionsError::NotOneKeySource));
    assert_eq!(fetch_type("file", false, true), Ok(FetchType::File));
}

#[test]
fn trees_cannot_be_asked_for_by_revision() {
    assert_eq!(fetch_type("tree", false, true), Err(OptionsError::RevisionWithTrees));
}

#[test]
fn refused_options_are_explained() {
    assert_eq!(OptionsError::UnknownMode.message(), "'mode' must be one of 'file' or 'tree'");
    assert_eq!(
        OptionsError::NotOneKeySource.message(),
        "must specify exactly one of --rev or --path"
    );
    assert_eq!(OptionsError::RevisionWithTrees.message(), "--rev doesn't support trees yet");
}

#[test]
fn store_is_asked_locally_on_request() {
    assert_eq!(fetch_mode(true), FetchMode::LocalOnly);
    assert_eq!(fetch_mode(false), FetchMode::AllowRemote);
}

#[test]
fn files_are_asked_for_in_up_to_three_attempts() {
    assert_eq!(
        file_fetch_attempts(true),
        vec![FileAttributes { content: false, aux_data: true }]
    );
    assert_eq!(
        file_fetch_attempts(false),
        vec![
            FileAttributes { content: true, aux_data: true },
            FileAttributes { content: true, aux_data: false },
            FileAttributes { content: false, aux_data: true },
        ]
    );
}

#[test]
fn changed_file_is_reported_with_both_sides() {
    assert_eq!(
        into_compare_path(PathDiff::Changed, true),
        ComparePath::File { base: true, other: true, copy_info: CopyInfo::Neither }
    );
    assert_eq!(
        into_compare_path(PathDiff::Copied, true),
        ComparePath::File { base: true, other: true, copy_info: CopyInfo::Copy }
    );
    assert_eq!(
        into_compare_path(PathDiff::Moved, true),
        ComparePath::File { base: true, other: true, copy_info: CopyInfo::Move }
    );
}

#[test]
fn added_and_removed_paths_have_one_side() {
    assert_eq!(
        into_compare_path(PathDiff::Added, true),
        ComparePath::File { base: true, other: false, copy_info: CopyInfo::Neither }
    );
    assert_eq!(
        into_compare_path(PathDiff::Removed, true),
        ComparePath::File { base: false, other: true, copy_info: CopyInfo::Neither }
    );
    assert_eq!(
        into_compare_path(PathDiff::Added, false),
        ComparePath::Tree { base: true, other: false }
    );
    assert_eq!(
        into_compare_path(PathDiff::Removed, false),
        ComparePath::Tree { base: false, other: true }
    );
}

#[test]
fn tree_is_never_reported_as_copied_or_moved() {
    for diff in [PathDiff::Changed, PathDiff::Copied, PathDiff::Moved] {
        assert_eq!(into_compare_path(diff, false), ComparePath::Tree { base: true, other: true });
    }
}

#[test]
fn files_are_compared_where_nothing_known_is_asked_for() {
    assert_eq!(diff_items(&vec![]), DiffItems { files: true, trees: false });
    assert_eq!(diff_items(&vec![CompareItem::Other]), DiffItems { files: true, trees: false });
    assert_eq!(diff_items(&vec![CompareItem::Files]), DiffItems { files: true, trees: false });
    assert_eq!(diff_items(&vec![CompareItem::Trees]), DiffItems { files: false, trees: true });
    assert_eq!(
        diff_items(&vec![CompareItem::Trees, CompareItem::Other, CompareItem::Files]),
        DiffItems { files: true, trees: true }
    );
    assert_eq!(
        diff_items(&vec![CompareItem::Trees, CompareItem::Trees]),
        DiffItems { files: false, trees: true }
    );
}

#[test]
fn placeholder_diff_is_made_on_request_only() {
    assert_eq!(diff_mode(Some(true)), UnifiedDiffMode::OmitContent);
    assert_eq!(diff_mode(Some(false)), UnifiedDiffMode::Inline);
    assert_eq!(diff_mode(None), UnifiedDiffMode::Inline);
}

#[test]
fn limit_is_exceeded_by_more_only() {
    assert!(!exceeds_limit(1000, 1000));
    assert!(exceeds_limit(1001, 1000));
    assert!(!exceeds_limit(0, 0));
    assert!(exceeds_limit(1, 0));
    assert!(exceeds_limit(0, -1));
    assert!(exceeds_limit(u64::MAX, i64::MAX));
    assert!(!exceeds_limit(i64::MAX as u64, i64::MAX));
}

#[test]
fn history_cannot_end_before_it_begins() {
    assert_eq!(
        check_history_window(Some(20), Some(10), 0),
        Err(HistoryError::AfterGreaterThanBefore { after_timestamp: 20, before_timestamp: 10 })
    );
    // Reported before the skip is looked at
    assert_eq!(
        check_history_window(Some(20), Some(10), 5),
        Err(HistoryError::AfterGreaterThanBefore { after_timestamp: 20, before_timestamp: 10 })
    );
    assert_eq!(check_history_window(Some(10), Some(10), 0), Ok(()));
    assert_eq!(check_history_window(Some(10), Some(20), 0), Ok(()));
}

#[test]
fn history_cannot_skip_commits_under_a_time_filter() {
    assert_eq!(check_history_window(Some(10), None, 1), Err(HistoryError::SkipWithTimeFilter));
    assert_eq!(check_history_window(None, Some(10), 1), Err(HistoryError::SkipWithTimeFilter));
    assert_eq!(
        check_history_window(Some(10), Some(20), 3),
        Err(HistoryError::SkipWithTimeFilter)
    );
    assert_eq!(check_history_window(None, None, 7), Ok(()));
    assert_eq!(check_history_window(Some(10), None, 0), Ok(()));
    assert_eq!(check_history_window(None, Some(10), 0), Ok(()));
}

#[test]
fn limit_of_zero_bookmarks_is_no_limit() {
    assert_eq!(bookmark_limit(0), None);
    assert_eq!(bookmark_limit(1), Some(1));
    assert_eq!(bookmark_limit(u64::MAX), Some(u64::MAX));
}

#[test]
fn listing_continues_after_its_last_name_where_the_limit_was_reached() {
    let listed = vec!["a".to_string(), "b".to_string(), "c".to_string()];
    assert_eq!(continue_after(Some(3), &listed), Some("c".to_string()));
    assert_eq!(continue_after(Some(2), &listed), Some("c".to_string()));
    assert_eq!(continue_after(Some(4), &listed), None);
    assert_eq!(continue_after(None, &listed), None);
    assert_eq!(continue_after(Some(1), &vec![]), None);
    assert_eq!(continue_after(Some(0), &vec![]), None);
}
