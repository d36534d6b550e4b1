//! Bookmarks: the repository's names for branches and tags.

use crate::error::Error;
use crate::text::join;
use crate::text::starts_with;
use vstd::prelude::*;

verus! {

/// Whether a bookmark names a branch or a tag.
#[derive(Clone, Copy, Debug, PartialEq, Eq, Hash, Structural)]
pub enum BookmarkCategory {
    Branch,
    Tag,
}

/// The name of a bookmark, such as `heads/main` or `tags/v1`. The part before
/// the first slash tells its category: a name under `tags/` is a tag, every
/// other name is a branch.
#[derive(Clone, Debug, PartialEq, Eq, Hash)]
pub struct BookmarkKey {
    name: String,
}

impl View for BookmarkKey {
    type V = Seq<char>;

    closed spec fn view(&self) -> Seq<char> {
        self.name@
    }
}

/// The prefix that the names of tags begin with.
pub open spec fn tags_prefix() -> Seq<char> {
    "tags/"@
}

/// The prefix that turns the name of a bookmark into the name of a ref.
pub open spec fn refs_prefix() -> Seq<char> {
    "refs/"@
}

/// Whether the bookmark named `name` is a tag.
pub open spec fn name_is_tag(name: Seq<char>) -> bool {
    tags_prefix().is_prefix_of(name)
}

/// The name of the Git ref that stands for the bookmark named `name`.
pub open spec fn ref_name_of(name: Seq<char>) -> Seq<char> {
    refs_prefix() + name
}

/// Whether `name` can be the name of a bookmark: all of its characters are
/// ASCII.
pub open spec fn name_is_well_formed(name: Seq<char>) -> bool {
    vstd::utf8::is_ascii_chars(name)
}

impl BookmarkKey {
    /// The bookmark named `name`, or `Error::MalformedRefName` with that name
    /// if the name is not well-formed.
    pub fn new(name: &str) -> (r: Result<BookmarkKey, Error>)
        ensures
            match r {
                Ok(key) => name_is_well_formed(name@) && key@ == name@,
                Err(e) => {
                    &&& !name_is_well_formed(name@)
                    &&& e matches Error::MalformedRefName(n)
                    &&& n@ == name@
                },
            },
    {
        if name.is_ascii() {
            Ok(BookmarkKey { name: name.to_owned() })
        } else {
            Err(Error::MalformedRefName(name.to_owned()))
        }
    }

    /// The name of the bookmark.
    pub fn name(&self) -> (name: &str)
        ensures
            name@ == self@,
    {
        self.name.as_str()
    }

    /// A bookmark with the same name.
    pub fn duplicate(&self) -> (key: BookmarkKey)
        ensures
            key == *self,
    {
        BookmarkKey { name: self.name.clone() }
    }

    /// Whether the bookmark is a tag.
    pub fn is_tag(&self) -> (r: bool)
        ensures
            r == name_is_tag(self@),
    {
        starts_with(self.name.as_str(), "tags/")
    }

    /// The category of the bookmark.
    pub fn category(&self) -> (category: BookmarkCategory)
        ensures
            category == if name_is_tag(self@) {
                BookmarkCategory::Tag
            } else {
                BookmarkCategory::Branch
            },
    {
        if self.is_tag() {
            BookmarkCategory::Tag
        } else {
            BookmarkCategory::Branch
        }
    }

    /// The name of the Git ref that stands for the bookmark: `refs/` and the
    /// bookmark's name.
    pub fn ref_name(&self) -> (name: String)
        ensures
            name@ == ref_name_of(self@),
    {
        join("refs/", self.name.as_str())
    }
}

} // verus!
