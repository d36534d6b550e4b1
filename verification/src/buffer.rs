//! Byte buffers of the `bytes` crate, as far as the pack logic touches them.

use bytes::Bytes;
use bytes::BytesMut;
use crate::error::Error;
use vstd::prelude::*;

verus! {

/// The immutable buffer of `bytes`; what it holds is `bytes_contents`.
#[verifier::external_type_specification]
#[verifier::external_body]
pub struct ExBytes(bytes::Bytes);

/// The growable buffer of `bytes`; what it holds is `buffer_contents`.
#[verifier::external_type_specification]
#[verifier::external_body]
pub struct ExBytesMut(bytes::BytesMut);

/// The bytes that an immutable buffer holds, first to last.
pub uninterp spec fn bytes_contents(b: Bytes) -> Seq<u8>;

/// The bytes written so far to a growable buffer, first to last.
pub uninterp spec fn buffer_contents(b: BytesMut) -> Seq<u8>;

/// `Bytes::len`: the number of bytes in the buffer.
#[verifier::external_body]
fn bytes_len(b: &Bytes) -> (n: usize)
    ensures
        n == bytes_contents(*b).len(),
{
    b.len()
}

/// `Bytes` dereferences to the slice of its bytes; this copies that slice into
/// a vector.
#[verifier::external_body]
fn bytes_to_vec(b: &Bytes) -> (v: Vec<u8>)
    ensures
        v@ == bytes_contents(*b),
{
    b.as_ref().to_vec()
}

/// `BytesMut::with_capacity`: an empty buffer with room for `capacity` bytes.
/// The backing vector cannot be larger than `isize::MAX` bytes.
#[verifier::external_body]
fn buffer_with_capacity(capacity: usize) -> (buf: BytesMut)
    requires
        capacity <= isize::MAX,
    ensures
        buffer_contents(buf) == Seq::<u8>::empty(),
{
    BytesMut::with_capacity(capacity)
}

/// `BytesMut::extend_from_slice`: appends the bytes of `chunk`, growing the
/// buffer first where needed. Growing beyond `isize::MAX` bytes panics.
#[verifier::external_body]
fn buffer_extend(buf: &mut BytesMut, chunk: &Bytes)
    requires
        buffer_contents(*old(buf)).len() + bytes_contents(*chunk).len() <= isize::MAX,
    ensures
        buffer_contents(*final(buf)) == buffer_contents(*old(buf)) + bytes_contents(*chunk),
{
    buf.extend_from_slice(chunk.as_ref())
}

/// `BytesMut::freeze`: the same bytes, no longer writable.
#[verifier::external_body]
fn buffer_freeze(buf: BytesMut) -> (b: Bytes)
    ensures
        bytes_contents(b) == buffer_contents(buf),
{
    buf.freeze()
}

/// The concatenation of the contents of `chunks`, in order.
pub open spec fn concat_contents(chunks: Seq<Bytes>) -> Seq<u8>
    decreases chunks.len(),
{
    if chunks.len() == 0 {
        Seq::empty()
    } else {
        concat_contents(chunks.drop_last()) + bytes_contents(chunks.last())
    }
}

/// A copy of the bytes of `b` in a vector.
pub fn to_vec(b: &Bytes) -> (v: Vec<u8>)
    ensures
        v@ == bytes_contents(*b),
{
    bytes_to_vec(b)
}

/// Concatenates `chunks` in order into one buffer that is sized for
/// `expected_size` bytes before the first chunk is written. Fails, with
/// `Error::InstructionsTooLarge`, exactly when the expected size or the
/// actual total is more than `isize::MAX`, the largest size a buffer can have.
pub fn concat_chunks(chunks: &Vec<Bytes>, expected_size: u64) -> (r: Result<Bytes, Error>)
    ensures
        match r {
            Ok(b) => {
                &&& bytes_contents(b) == concat_contents(chunks@)
                &&& expected_size <= isize::MAX
                &&& concat_contents(chunks@).len() <= isize::MAX
            },
            Err(e) => {
                &&& e == Error::InstructionsTooLarge
                &&& (expected_size > isize::MAX || concat_contents(chunks@).len() > isize::MAX)
            },
        },
{
    let limit: usize = isize::MAX as usize;
    if expected_size > limit as u64 {
        return Err(Error::InstructionsTooLarge);
    }
    let mut buf = buffer_with_capacity(expected_size as usize);
    let mut written: usize = 0;
    let mut i: usize = 0;
    while i < chunks.len()
        invariant
            i <= chunks.len(),
            limit == isize::MAX,
            written == buffer_contents(buf).len(),
            written <= limit,
            buffer_contents(buf) == concat_contents(chunks@.take(i as int)),
        decreases chunks.len() - i,
    {
        let n = bytes_len(&chunks[i]);
        proof {
            assert(chunks@.take(i as int + 1).drop_last() =~= chunks@.take(i as int));
            lemma_concat_contents_prefix(chunks@, i as int + 1);
        }
        if n > limit - written {
            return Err(Error::InstructionsTooLarge);
        }
        buffer_extend(&mut buf, &chunks[i]);
        written += n;
        i += 1;
    }
    proof {
        assert(chunks@.take(i as int) =~= chunks@);
    }
    Ok(buffer_freeze(buf))
}

/// A prefix of the chunks concatenates to no more bytes than all of them.
pub proof fn lemma_concat_contents_prefix(chunks: Seq<Bytes>, n: int)
    requires
        0 <= n <= chunks.len(),
    ensures
        concat_contents(chunks.take(n)).len() <= concat_contents(chunks).len(),
    decreases chunks.len(),
{
    if n < chunks.len() {
        lemma_concat_contents_prefix(chunks.drop_last(), n);
        assert(chunks.drop_last().take(n) =~= chunks.take(n));
    } else {
        assert(chunks.take(n) =~= chunks);
    }
}

} // verus!
