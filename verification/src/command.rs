//! The command that fetches files and trees through the store: how it is
//! named, what its options may say, and what it asks of the store.

use crate::text::str_eq;
use vstd::prelude::*;

verus! {

/// The name by which the command is called.
pub fn aliases() -> (r: &'static str)
    ensures
        r@ == "debugscmstore"@,
{
    "debugscmstore"
}

/// One line that says what the command does.
pub fn doc() -> (r: &'static str)
    ensures
        r@ == "test file and tree fetching using scmstore"@,
{
    "test file and tree fetching using scmstore"
}

/// The synopsis of the command's arguments: it has none.
pub fn synopsis() -> (r: Option<&'static str>)
    ensures
        r is None,
{
    None
}

/// What the command fetches.
#[derive(Clone, Copy, Debug, PartialEq, Eq, Structural)]
pub enum FetchType {
    File,
    Tree,
}

/// Why the options of the command are refused.
#[derive(Clone, Copy, Debug, PartialEq, Eq, Structural)]
pub enum OptionsError {
    /// The mode is neither `file` nor `tree`.
    UnknownMode,
    /// A file of requests and a revision are both given, or neither is.
    NotOneKeySource,
    /// Trees are asked for by revision.
    RevisionWithTrees,
}

impl OptionsError {
    /// What the user is told.
    pub fn message(&self) -> (r: &'static str)
        ensures
            r@ == match *self {
                OptionsError::UnknownMode => "'mode' must be one of 'file' or 'tree'"@,
                OptionsError::NotOneKeySource => "must specify exactly one of --rev or --path"@,
                OptionsError::RevisionWithTrees => "--rev doesn't support trees yet"@,
            },
    {
        match self {
            OptionsError::UnknownMode => "'mode' must be one of 'file' or 'tree'",
            OptionsError::NotOneKeySource => "must specify exactly one of --rev or --path",
            OptionsError::RevisionWithTrees => "--rev doesn't support trees yet",
        }
    }
}

/// What the options of the command ask to be fetched, or why they are
/// refused: the mode must be `file` or `tree`; then exactly one of a file
/// of requests and a revision must be given; then a revision must not be
/// given for trees.
pub open spec fn spec_fetch_type(mode: Seq<char>, has_requests_file: bool, has_rev: bool) -> Result<
    FetchType,
    OptionsError,
> {
    if mode != "file"@ && mode != "tree"@ {
        Err(OptionsError::UnknownMode)
    } else if has_requests_file == has_rev {
        Err(OptionsError::NotOneKeySource)
    } else if has_rev && mode == "tree"@ {
        Err(OptionsError::RevisionWithTrees)
    } else if mode == "file"@ {
        Ok(FetchType::File)
    } else {
        Ok(FetchType::Tree)
    }
}

/// What the options of the command ask to be fetched, files or trees, or why
/// they are refused.
pub fn fetch_type(mode: &str, has_requests_file: bool, has_rev: bool) -> (r: Result<
    FetchType,
    OptionsError,
>)
    ensures
        r == spec_fetch_type(mode@, has_requests_file, has_rev),
{
    let fetch = if str_eq(mode, "file") {
        FetchType::File
    } else if str_eq(mode, "tree") {
        FetchType::Tree
    } else {
        return Err(OptionsError::UnknownMode);
    };
    proof {
        reveal_strlit("file");
        reveal_strlit("tree");
        assert("file"@.len() == 4 && "tree"@.len() == 4);
        assert("file"@[0] == 'f' && "tree"@[0] == 't');
    }
    if has_requests_file == has_rev {
        return Err(OptionsError::NotOneKeySource);
    }
    if has_rev && fetch == FetchType::Tree {
        return Err(OptionsError::RevisionWithTrees);
    }
    Ok(fetch)
}

/// Where the store may look for what is fetched.
#[derive(Clone, Copy, Debug, PartialEq, Eq, Structural)]
pub enum FetchMode {
    /// Only in what is at hand locally.
    LocalOnly,
    /// Locally, and at the server for what is not found.
    AllowRemote,
}

/// Where the store may look: locally only if `local` says so.
pub fn fetch_mode(local: bool) -> (mode: FetchMode)
    ensures
        mode == if local {
            FetchMode::LocalOnly
        } else {
            FetchMode::AllowRemote
        },
{
    if local {
        FetchMode::LocalOnly
    } else {
        FetchMode::AllowRemote
    }
}

/// What of a file is asked for.
#[derive(Clone, Copy, Debug, PartialEq, Eq, Structural)]
pub struct FileAttributes {
    pub content: bool,
    pub aux_data: bool,
}

/// What is asked of the store for files, attempt after attempt, each for the
/// files that the one before did not find. With `aux_only` there is one
/// attempt, for the aux data. Otherwise content and aux data are asked for
/// together, and then, as the store cannot be asked for aux data only where
/// it is at hand, the content alone and the aux data alone.
pub fn file_fetch_attempts(aux_only: bool) -> (attempts: Vec<FileAttributes>)
    ensures
        attempts@ == if aux_only {
            seq![FileAttributes { content: false, aux_data: true }]
        } else {
            seq![
                FileAttributes { content: true, aux_data: true },
                FileAttributes { content: true, aux_data: false },
                FileAttributes { content: false, aux_data: true },
            ]
        },
{
    let mut attempts: Vec<FileAttributes> = Vec::new();
    attempts.push(FileAttributes { content: !aux_only, aux_data: true });
    if !aux_only {
        attempts.push(FileAttributes { content: true, aux_data: false });
        attempts.push(FileAttributes { content: false, aux_data: true });
    }
    proof {
        if aux_only {
            assert(attempts@ =~= seq![FileAttributes { content: false, aux_data: true }]);
        } else {
            assert(attempts@ =~= seq![
                FileAttributes { content: true, aux_data: true },
                FileAttributes { content: true, aux_data: false },
                FileAttributes { content: false, aux_data: true },
            ]);
        }
    }
    attempts
}

} // verus!
