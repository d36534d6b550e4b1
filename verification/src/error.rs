//! What can go wrong while refs are resolved and a pack is laid out.

use crate::hash::ChangesetId;
use crate::hash::GitObjectId;
use vstd::prelude::*;

verus! {

/// Failure of a handler or of one of its components.
#[derive(Clone, Debug, PartialEq, Eq)]
pub enum Error {
    /// A changeset that a ref or a pack commit resolves to has no Git object
    /// id in the bonsai-git mapping.
    MissingGitMapping(ChangesetId),
    /// The `HEAD` symref was asked for and the repository has none.
    HeadNotFound,
    /// A symref points at a ref that is not among the resolved refs, whose
    /// names are listed, in no fixed order.
    MissingSymrefTarget { symref_name: String, ref_name: String, known_refs: Vec<String> },
    /// A ref name supplied together with its value is not a well-formed name.
    MalformedRefName(String),
    /// No stored packfile item exists for the object, and the policy forbids
    /// generating one.
    MissingPackfileItem(GitObjectId),
    /// The answer handed to the base item provider is not the one that its
    /// last request asked for, or instruction chunks are fewer or more than
    /// the delta declares.
    UnexpectedAnswer,
    /// The instructions of a delta are larger than any buffer can be.
    InstructionsTooLarge,
}

} // verus!
