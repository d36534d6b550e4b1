//! The base item provider: which reads and writes of the blob store turn an
//! object identifier into a packfile item in base form, under each policy.
//!
//! The provider does no I/O. It names the next request, the caller performs
//! it and hands the answer back.

use bytes::Bytes;
use crate::buffer::bytes_contents;
use crate::buffer::to_vec;
use crate::error::Error;
use crate::hash::GitObjectId;
use crate::hash::ObjectKind;
use crate::hash::RichGitObjectId;
use crate::types::PackfileItemInclusion;
use vstd::prelude::*;

verus! {

/// The identifier by which the bytes of a base object are read.
#[derive(Clone, Copy, Debug, PartialEq, Eq)]
pub enum ObjectIdentifierType {
    /// Identifier with kind and size: usable for every object, blobs included.
    AllObjects(RichGitObjectId),
    /// Identifier alone: usable only where the object is not a blob.
    NonBlobObjects(GitObjectId),
}

/// An object identifier as plain values.
pub enum ObjectIdentifierView {
    AllObjects { oid: Seq<u8>, kind: ObjectKind, size: u64 },
    NonBlobObjects(Seq<u8>),
}

impl ObjectIdentifierView {
    /// The Git object id of the object, whichever form identifies it.
    pub open spec fn oid(self) -> Seq<u8> {
        match self {
            ObjectIdentifierView::AllObjects { oid, kind, size } => oid,
            ObjectIdentifierView::NonBlobObjects(oid) => oid,
        }
    }
}

impl View for ObjectIdentifierType {
    type V = ObjectIdentifierView;

    open spec fn view(&self) -> ObjectIdentifierView {
        match self {
            ObjectIdentifierType::AllObjects(rich) => ObjectIdentifierView::AllObjects {
                oid: rich.oid@,
                kind: rich.kind,
                size: rich.size,
            },
            ObjectIdentifierType::NonBlobObjects(oid) => ObjectIdentifierView::NonBlobObjects(oid@),
        }
    }
}

impl ObjectIdentifierType {
    /// The Git object id of the object, whichever form identifies it.
    pub fn to_object_id(&self) -> (oid: GitObjectId)
        ensures
            oid == self.spec_object_id(),
            oid@ == self@.oid(),
    {
        match self {
            ObjectIdentifierType::AllObjects(rich) => rich.oid,
            ObjectIdentifierType::NonBlobObjects(oid) => *oid,
        }
    }

    /// The Git object id of the object, whichever form identifies it.
    pub open spec fn spec_object_id(&self) -> GitObjectId {
        match self {
            ObjectIdentifierType::AllObjects(rich) => rich.oid,
            ObjectIdentifierType::NonBlobObjects(oid) => *oid,
        }
    }
}

/// A packfile item, as it is handed to the encoder.
#[derive(Debug, PartialEq, Eq)]
pub enum PackfileItem {
    /// Base form, built from the raw bytes of the object.
    Base(Bytes),
    /// Base form that was encoded earlier and stored.
    EncodedBase(Vec<u8>),
    /// The object `oid` as instructions that rebuild it from `base_oid`.
    Delta { oid: GitObjectId, base_oid: GitObjectId, decompressed_size: u64, instructions: Bytes },
}

impl PackfileItem {
    /// The item in base form for an object with the given raw bytes.
    pub fn new_base(object_bytes: Bytes) -> (item: Self)
        ensures
            item == PackfileItem::Base(object_bytes),
    {
        PackfileItem::Base(object_bytes)
    }

    /// The item in base form from its stored encoding.
    pub fn new_encoded_base(encoded: Vec<u8>) -> (item: Self)
        ensures
            item == PackfileItem::EncodedBase(encoded),
    {
        PackfileItem::EncodedBase(encoded)
    }

    /// The item for `oid` as a delta against `base_oid`.
    pub fn new_delta(
        oid: GitObjectId,
        base_oid: GitObjectId,
        decompressed_size: u64,
        instructions: Bytes,
    ) -> (item: Self)
        ensures
            item == (PackfileItem::Delta { oid, base_oid, decompressed_size, instructions }),
    {
        PackfileItem::Delta { oid, base_oid, decompressed_size, instructions }
    }
}

/// Which reader of the blob store yields the raw bytes of an object.
#[derive(Clone, Copy, Debug, PartialEq, Eq)]
pub enum ObjectRead {
    /// The reader for any object: it goes to the file-content keyspace for a
    /// blob and to the raw-object keyspace otherwise, by the kind and size
    /// given, and returns the bytes with the object header.
    AnyObject(RichGitObjectId),
    /// The reader for objects that are not blobs.
    NonBlobObject(GitObjectId),
}

/// The read that yields the raw bytes of the object that `id` identifies.
pub fn object_bytes(id: ObjectIdentifierType) -> (read: ObjectRead)
    ensures
        read == spec_object_bytes(id),
{
    match id {
        ObjectIdentifierType::AllObjects(rich) => ObjectRead::AnyObject(rich),
        ObjectIdentifierType::NonBlobObjects(oid) => ObjectRead::NonBlobObject(oid),
    }
}

/// The read that yields the raw bytes of the object that `id` identifies.
pub open spec fn spec_object_bytes(id: ObjectIdentifierType) -> ObjectRead {
    match id {
        ObjectIdentifierType::AllObjects(rich) => ObjectRead::AnyObject(rich),
        ObjectIdentifierType::NonBlobObjects(oid) => ObjectRead::NonBlobObject(oid),
    }
}

/// What the provider asks of its caller next, or how it ended.
#[derive(Debug, PartialEq, Eq)]
pub enum BaseItemStep {
    /// Read the raw bytes of the object; answer with `BaseItemAnswer::ObjectBytes`.
    ReadObject(ObjectRead),
    /// Fetch the stored packfile item of the object; answer with
    /// `BaseItemAnswer::Stored`.
    FetchStored(GitObjectId),
    /// Store a packfile item built from these raw bytes under the object id;
    /// answer with `BaseItemAnswer::Uploaded`, the item as stored.
    Upload { oid: GitObjectId, object_bytes: Vec<u8> },
    /// The item is ready.
    Done(PackfileItem),
    /// No item can be had.
    Failed(Error),
}

/// The answer to the provider's last request.
#[derive(Debug, PartialEq, Eq)]
pub enum BaseItemAnswer {
    /// The raw bytes of the object.
    ObjectBytes(Bytes),
    /// The stored packfile item of the object, if there is one.
    Stored(Option<Vec<u8>>),
    /// The packfile item that was stored by the upload.
    Uploaded(Vec<u8>),
}

/// Where the provider stands between two requests.
#[derive(Clone, Copy, Debug, PartialEq, Eq)]
pub enum BaseItemState {
    /// Waiting for the raw bytes, to build the item from them.
    ReadingToGenerate,
    /// Waiting for the stored item, which must exist.
    FetchingOnly { oid: GitObjectId },
    /// Waiting for the stored item; the object is read if there is none.
    FetchingToStore { id: ObjectIdentifierType },
    /// Waiting for the raw bytes, to store the item built from them.
    ReadingToStore { oid: GitObjectId },
    /// Waiting for the uploaded item.
    Uploading,
    /// Nothing more is asked: the item was handed out, or the provider failed.
    Finished,
}

/// The first request for the packfile item of `id` in base form under the
/// policy `inclusion`, and the state from which the answer is taken.
pub open spec fn spec_base_packfile_item(
    id: ObjectIdentifierType,
    inclusion: PackfileItemInclusion,
) -> (BaseItemState, BaseItemStep) {
    match inclusion {
        PackfileItemInclusion::Generate => (
            BaseItemState::ReadingToGenerate,
            BaseItemStep::ReadObject(spec_object_bytes(id)),
        ),
        PackfileItemInclusion::FetchOnly => (
            BaseItemState::FetchingOnly { oid: id.spec_object_id() },
            BaseItemStep::FetchStored(id.spec_object_id()),
        ),
        PackfileItemInclusion::FetchAndStore => (
            BaseItemState::FetchingToStore { id },
            BaseItemStep::FetchStored(id.spec_object_id()),
        ),
    }
}

/// Begins to provide the packfile item of `id` in base form. `Generate` reads
/// the raw bytes; both fetching policies first ask for the stored item.
pub fn base_packfile_item(id: ObjectIdentifierType, inclusion: PackfileItemInclusion) -> (r: (
    BaseItemState,
    BaseItemStep,
))
    ensures
        r == spec_base_packfile_item(id, inclusion),
{
    match inclusion {
        PackfileItemInclusion::Generate => (
            BaseItemState::ReadingToGenerate,
            BaseItemStep::ReadObject(object_bytes(id)),
        ),
        PackfileItemInclusion::FetchOnly => {
            let oid = id.to_object_id();
            (BaseItemState::FetchingOnly { oid }, BaseItemStep::FetchStored(oid))
        },
        PackfileItemInclusion::FetchAndStore => {
            let oid = id.to_object_id();
            (BaseItemState::FetchingToStore { id }, BaseItemStep::FetchStored(oid))
        },
    }
}

impl BaseItemState {
    /// Takes the answer to the last request and names the next one.
    ///
    /// - Raw bytes read under `Generate` become the item in base form.
    /// - A stored item becomes the item in encoded base form. Where none is
    ///   stored, `FetchOnly` fails with `Error::MissingPackfileItem`, and
    ///   `FetchAndStore` reads the raw bytes, uploads them, and hands out what
    ///   the upload stored.
    /// - An answer of another kind than the one waited for ends the provider
    ///   with `Error::UnexpectedAnswer`, as does any answer once it has finished.
    pub fn advance(self, answer: BaseItemAnswer) -> (r: (BaseItemState, BaseItemStep))
        ensures
            match (self, answer) {
                (BaseItemState::ReadingToGenerate, BaseItemAnswer::ObjectBytes(bytes)) => {
                    r == (BaseItemState::Finished, BaseItemStep::Done(PackfileItem::Base(bytes)))
                },
                (BaseItemState::FetchingOnly { oid }, BaseItemAnswer::Stored(Some(encoded))) => {
                    r == (
                        BaseItemState::Finished,
                        BaseItemStep::Done(PackfileItem::EncodedBase(encoded)),
                    )
                },
                (BaseItemState::FetchingOnly { oid }, BaseItemAnswer::Stored(None)) => {
                    r == (
                        BaseItemState::Finished,
                        BaseItemStep::Failed(Error::MissingPackfileItem(oid)),
                    )
                },
                (BaseItemState::FetchingToStore { id }, BaseItemAnswer::Stored(Some(encoded))) => {
                    r == (
                        BaseItemState::Finished,
                        BaseItemStep::Done(PackfileItem::EncodedBase(encoded)),
                    )
                },
                (BaseItemState::FetchingToStore { id }, BaseItemAnswer::Stored(None)) => {
                    r == (
                        BaseItemState::ReadingToStore { oid: id.spec_object_id() },
                        BaseItemStep::ReadObject(spec_object_bytes(id)),
                    )
                },
                (BaseItemState::ReadingToStore { oid }, BaseItemAnswer::ObjectBytes(bytes)) => {
                    &&& r.0 == BaseItemState::Uploading
                    &&& r.1 matches BaseItemStep::Upload { oid: to, object_bytes }
                    &&& to == oid
                    &&& object_bytes@ == bytes_contents(bytes)
                },
                (BaseItemState::Uploading, BaseItemAnswer::Uploaded(encoded)) => {
                    r == (
                        BaseItemState::Finished,
                        BaseItemStep::Done(PackfileItem::EncodedBase(encoded)),
                    )
                },
                _ => r == (BaseItemState::Finished, BaseItemStep::Failed(Error::UnexpectedAnswer)),
            },
    {
        match (self, answer) {
            (BaseItemState::ReadingToGenerate, BaseItemAnswer::ObjectBytes(bytes)) => (
                BaseItemState::Finished,
                BaseItemStep::Done(PackfileItem::new_base(bytes)),
            ),
            (BaseItemState::FetchingOnly { oid: _ }, BaseItemAnswer::Stored(Some(encoded))) => (
                BaseItemState::Finished,
                BaseItemStep::Done(PackfileItem::new_encoded_base(encoded)),
            ),
            (BaseItemState::FetchingOnly { oid }, BaseItemAnswer::Stored(None)) => (
                BaseItemState::Finished,
                BaseItemStep::Failed(Error::MissingPackfileItem(oid)),
            ),
            (BaseItemState::FetchingToStore { id: _ }, BaseItemAnswer::Stored(Some(encoded))) => (
                BaseItemState::Finished,
                BaseItemStep::Done(PackfileItem::new_encoded_base(encoded)),
            ),
            (BaseItemState::FetchingToStore { id }, BaseItemAnswer::Stored(None)) => (
                BaseItemState::ReadingToStore { oid: id.to_object_id() },
                BaseItemStep::ReadObject(object_bytes(id)),
            ),
            (BaseItemState::ReadingToStore { oid }, BaseItemAnswer::ObjectBytes(bytes)) => (
                BaseItemState::Uploading,
                BaseItemStep::Upload { oid, object_bytes: to_vec(&bytes) },
            ),
            (BaseItemState::Uploading, BaseItemAnswer::Uploaded(encoded)) => (
                BaseItemState::Finished,
                BaseItemStep::Done(PackfileItem::new_encoded_base(encoded)),
            ),
            _ => (BaseItemState::Finished, BaseItemStep::Failed(Error::UnexpectedAnswer)),
        }
    }
}

} // verus!
