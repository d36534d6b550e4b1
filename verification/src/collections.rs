//! The hash maps and hash sets of `rustc_hash` that the pack logic fills and
//! reads, each with a name for what it holds.

use crate::bookmark::BookmarkKey;
use crate::hash::ChangesetId;
use crate::hash::GitObjectId;
use crate::types::RefTarget;
use crate::types::RefTargetView;
use vstd::prelude::*;

verus! {

/// The hasher of the maps and sets of `rustc_hash`; nothing is read of it.
#[verifier::external_type_specification]
#[verifier::external_body]
pub struct ExFxBuildHasher(rustc_hash::FxBuildHasher);

/// The object id of `gix_hash`, the item of a set of object ids; nothing is
/// read of it but through that set.
#[verifier::external_type_specification]
#[verifier::external_body]
pub struct ExObjectId(gix_hash::ObjectId);

/// Refs by name.
pub type RefMap = rustc_hash::FxHashMap<String, RefTarget>;

/// Bookmarks with the changeset that each is at.
pub type BookmarkMap = rustc_hash::FxHashMap<BookmarkKey, ChangesetId>;

/// Git commit ids by changeset.
pub type GitMap = rustc_hash::FxHashMap<ChangesetId, GitObjectId>;

/// Tag objects by the name of the tag.
pub type TagMap = rustc_hash::FxHashMap<String, GitObjectId>;

/// A set of names.
pub type NameSet = rustc_hash::FxHashSet<String>;

/// A set of Git object ids.
pub type OidSet = rustc_hash::FxHashSet<gix_hash::ObjectId>;

/// The map that results from inserting `pairs` one after another into an
/// empty map: where a key occurs more than once, its last value stays.
pub open spec fn pairs_map<K, V>(pairs: Seq<(K, V)>) -> Map<K, V>
    decreases pairs.len(),
{
    if pairs.len() == 0 {
        Map::empty()
    } else {
        pairs_map(pairs.drop_last()).insert(pairs.last().0, pairs.last().1)
    }
}

/// Bookmarks and changesets as plain values.
pub open spec fn bookmark_pairs(entries: Seq<(BookmarkKey, ChangesetId)>) -> Seq<
    (Seq<char>, Seq<u8>),
> {
    entries.map_values(|e: (BookmarkKey, ChangesetId)| (e.0@, e.1@))
}

/// Whether no two of `entries` have the same name.
pub open spec fn distinct_names(entries: Seq<(BookmarkKey, ChangesetId)>) -> bool {
    forall|i: int, j: int|
        0 <= i < j < entries.len() ==> (#[trigger] entries[i]).0@ != (#[trigger] entries[j]).0@
}

/// A key is in the map of `pairs` exactly if one of the pairs has it.
pub proof fn lemma_pairs_map_contains<K, V>(pairs: Seq<(K, V)>, key: K)
    ensures
        pairs_map(pairs).contains_key(key) <==> exists|i: int|
            0 <= i < pairs.len() && (#[trigger] pairs[i]).0 == key,
    decreases pairs.len(),
{
    if pairs.len() > 0 {
        let front = pairs.drop_last();
        lemma_pairs_map_contains(front, key);
        if pairs_map(pairs).contains_key(key) {
            if pairs.last().0 == key {
                assert(pairs[pairs.len() - 1].0 == key);
            } else {
                let i = choose|i: int| 0 <= i < front.len() && (#[trigger] front[i]).0 == key;
                assert(pairs[i].0 == key);
            }
        }
        if exists|i: int| 0 <= i < pairs.len() && (#[trigger] pairs[i]).0 == key {
            let i = choose|i: int| 0 <= i < pairs.len() && (#[trigger] pairs[i]).0 == key;
            if i < front.len() {
                assert(front[i].0 == key);
            }
        }
    }
}

/// Where no key occurs twice, the map of `pairs` holds each pair.
pub proof fn lemma_pairs_map_holds<K, V>(pairs: Seq<(K, V)>, i: int)
    requires
        0 <= i < pairs.len(),
        forall|a: int, b: int|
            0 <= a < b < pairs.len() ==> (#[trigger] pairs[a]).0 != (#[trigger] pairs[b]).0,
    ensures
        pairs_map(pairs).contains_key(pairs[i].0),
        pairs_map(pairs)[pairs[i].0] == pairs[i].1,
    decreases pairs.len(),
{
    let front = pairs.drop_last();
    if i < front.len() {
        assert forall|a: int, b: int| 0 <= a < b < front.len() implies (#[trigger] front[a]).0 != (
        #[trigger] front[b]).0 by {
            assert(front[a] == pairs[a]);
            assert(front[b] == pairs[b]);
        }
        lemma_pairs_map_holds(front, i);
        assert(front[i] == pairs[i]);
        assert(pairs[i].0 != pairs[pairs.len() - 1].0);
    }
}

/// The refs that a map of refs holds: target by name.
pub uninterp spec fn ref_map_contents(m: RefMap) -> Map<Seq<char>, RefTargetView>;

/// The bookmarks that a map of bookmarks holds: changeset by name.
pub uninterp spec fn bookmark_map_contents(m: BookmarkMap) -> Map<Seq<char>, Seq<u8>>;

/// What a map of Git commit ids holds: object id by changeset.
pub uninterp spec fn git_map_contents(m: GitMap) -> Map<Seq<u8>, Seq<u8>>;

/// What a map of tag objects holds: object id by tag name.
pub uninterp spec fn tag_map_contents(m: TagMap) -> Map<Seq<char>, Seq<u8>>;

/// The names that a set of names holds.
pub uninterp spec fn name_set_contents(s: NameSet) -> Set<Seq<char>>;

/// The object ids that a set of object ids holds.
pub uninterp spec fn oid_set_contents(s: OidSet) -> Set<Seq<u8>>;

/// `FxHashMap::default`: a map that holds nothing.
#[verifier::external_body]
pub(crate) fn ref_map_new() -> (m: RefMap)
    ensures
        ref_map_contents(m) == (Map::<Seq<char>, RefTargetView>::empty()),
{
    RefMap::default()
}

/// `HashMap::insert`: afterwards the map holds `target` under `name`, in
/// place of what it held under that name, and everything else as before.
#[verifier::external_body]
pub(crate) fn ref_map_insert(m: &mut RefMap, name: String, target: RefTarget)
    ensures
        ref_map_contents(*final(m)) == ref_map_contents(*old(m)).insert(name@, target@),
{
    m.insert(name, target);
}

/// `HashMap::get`: the target held under `name`, if any.
#[verifier::external_body]
pub(crate) fn ref_map_get<'a>(m: &'a RefMap, name: &str) -> (r: Option<&'a RefTarget>)
    ensures
        match r {
            Some(target) => ref_map_contents(*m).contains_key(name@) && target@
                == ref_map_contents(*m)[name@],
            None => !ref_map_contents(*m).contains_key(name@),
        },
{
    m.get(name)
}

/// `HashMap::keys`: every name of the map once, in an order that is not
/// fixed.
#[verifier::external_body]
pub(crate) fn ref_map_names(m: &RefMap) -> (names: Vec<String>)
    ensures
        forall|i: int, j: int|
            0 <= i < j < names@.len() ==> (#[trigger] names@[i])@ != (#[trigger] names@[j])@,
        forall|name: Seq<char>|
            crate::text::names_contain(names@, name) <==> ref_map_contents(*m).contains_key(name),
{
    m.keys().cloned().collect()
}

/// `FxHashMap::default`: a map that holds nothing.
#[verifier::external_body]
pub(crate) fn bookmark_map_new() -> (m: BookmarkMap)
    ensures
        bookmark_map_contents(m) == (Map::<Seq<char>, Seq<u8>>::empty()),
{
    BookmarkMap::default()
}

/// `HashMap::insert`: afterwards the map holds `changeset` under the name
/// of `key`, in place of what it held under that name, and everything else
/// as before.
#[verifier::external_body]
pub(crate) fn bookmark_map_insert(m: &mut BookmarkMap, key: BookmarkKey, changeset: ChangesetId)
    ensures
        bookmark_map_contents(*final(m)) == bookmark_map_contents(*old(m)).insert(
            key@,
            changeset@,
        ),
{
    m.insert(key, changeset);
}

/// `HashMap::iter`: every bookmark of the map once, with its changeset, in
/// an order that is not fixed.
#[verifier::external_body]
pub(crate) fn bookmark_map_entries(m: &BookmarkMap) -> (entries: Vec<(BookmarkKey, ChangesetId)>)
    ensures
        distinct_names(entries@),
        pairs_map(bookmark_pairs(entries@)) == bookmark_map_contents(*m),
{
    m.iter().map(|(key, changeset)| (key.duplicate(), *changeset)).collect()
}

/// `FxHashMap::default`: a map that holds nothing.
#[verifier::external_body]
pub(crate) fn git_map_new() -> (m: GitMap)
    ensures
        git_map_contents(m) == (Map::<Seq<u8>, Seq<u8>>::empty()),
{
    GitMap::default()
}

/// `HashMap::insert`: afterwards the map holds `oid` under `changeset`, in
/// place of what it held under that changeset, and everything else as before.
#[verifier::external_body]
pub(crate) fn git_map_insert(m: &mut GitMap, changeset: ChangesetId, oid: GitObjectId)
    ensures
        git_map_contents(*final(m)) == git_map_contents(*old(m)).insert(changeset@, oid@),
{
    m.insert(changeset, oid);
}

/// `HashMap::get`: the object id held under `changeset`, if any.
#[verifier::external_body]
pub(crate) fn git_map_get(m: &GitMap, changeset: &ChangesetId) -> (r: Option<GitObjectId>)
    ensures
        match r {
            Some(oid) => git_map_contents(*m).contains_key(changeset@) && oid@
                == git_map_contents(*m)[changeset@],
            None => !git_map_contents(*m).contains_key(changeset@),
        },
{
    m.get(changeset).copied()
}

/// `FxHashMap::default`: a map that holds nothing.
#[verifier::external_body]
pub(crate) fn tag_map_new() -> (m: TagMap)
    ensures
        tag_map_contents(m) == (Map::<Seq<char>, Seq<u8>>::empty()),
{
    TagMap::default()
}

/// `HashMap::insert`: afterwards the map holds `oid` under `name`, in place
/// of what it held under that name, and everything else as before.
#[verifier::external_body]
pub(crate) fn tag_map_insert(m: &mut TagMap, name: String, oid: GitObjectId)
    ensures
        tag_map_contents(*final(m)) == tag_map_contents(*old(m)).insert(name@, oid@),
{
    m.insert(name, oid);
}

/// `HashMap::get`: the object id held under `name`, if any.
#[verifier::external_body]
pub(crate) fn tag_map_get(m: &TagMap, name: &str) -> (r: Option<GitObjectId>)
    ensures
        match r {
            Some(oid) => tag_map_contents(*m).contains_key(name@) && oid@ == tag_map_contents(
                *m,
            )[name@],
            None => !tag_map_contents(*m).contains_key(name@),
        },
{
    m.get(name).copied()
}

/// `FxHashSet::default`: a set that holds nothing.
#[verifier::external_body]
pub(crate) fn name_set_new() -> (s: NameSet)
    ensures
        name_set_contents(s) == Set::<Seq<char>>::empty(),
{
    NameSet::default()
}

/// `HashSet::insert`: afterwards the set holds `name` and what it held before.
#[verifier::external_body]
pub(crate) fn name_set_insert(s: &mut NameSet, name: String)
    ensures
        name_set_contents(*final(s)) == name_set_contents(*old(s)).insert(name@),
{
    s.insert(name);
}

/// `HashSet::contains`: whether the set holds `name`.
#[verifier::external_body]
pub(crate) fn name_set_contains(s: &NameSet, name: &str) -> (r: bool)
    ensures
        r == name_set_contents(*s).contains(name@),
{
    s.contains(name)
}

/// `FxHashSet::default`: a set that holds nothing.
#[verifier::external_body]
pub(crate) fn oid_set_new() -> (s: OidSet)
    ensures
        oid_set_contents(s) == Set::<Seq<u8>>::empty(),
{
    OidSet::default()
}

/// `HashSet::insert`, on the `gix_hash::ObjectId` made from the twenty bytes
/// of `oid`: afterwards the set holds that id and what it held before.
#[verifier::external_body]
pub(crate) fn oid_set_insert(s: &mut OidSet, oid: &GitObjectId)
    ensures
        oid_set_contents(*final(s)) == oid_set_contents(*old(s)).insert(oid@),
{
    s.insert(gix_hash::ObjectId::from(oid.bytes));
}

/// `HashSet::len`: how many ids the set holds.
#[verifier::external_body]
pub(crate) fn oid_set_len(s: &OidSet) -> (n: usize)
    ensures
        n == oid_set_contents(*s).len(),
{
    s.len()
}

} // verus!
