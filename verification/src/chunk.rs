//! Data chunks: what a body hands out piece by piece.

use vstd::prelude::*;

verus! {

/// `bytes::Bytes`, a buffer of bytes. Nothing of its inside is known
/// here.
#[verifier::external_type_specification]
#[verifier::external_body]
pub struct ExBytes(bytes::Bytes);

/// The bytes that a buffer of the `bytes` crate holds, first to last.
pub uninterp spec fn buffer_bytes(buffer: bytes::Bytes) -> Seq<u8>;

/// `bytes::Buf::remaining` of `bytes::Bytes`: the number of bytes in the
/// buffer.
#[verifier::external_body]
fn buffer_remaining(buffer: &bytes::Bytes) -> (n: usize)
    ensures
        n == buffer_bytes(*buffer).len(),
{
    bytes::Buf::remaining(buffer)
}

/// `bytes::Buf::copy_to_bytes` of `bytes::Bytes`: hands out the first
/// `len` bytes of the buffer as a buffer and leaves the rest. The call
/// panics where the buffer holds fewer, so `len` is at most what it holds.
#[verifier::external_body]
fn buffer_copy_to_bytes(buffer: &mut bytes::Bytes, len: usize) -> (front: bytes::Bytes)
    requires
        len <= buffer_bytes(*old(buffer)).len(),
    ensures
        buffer_bytes(front) == buffer_bytes(*old(buffer)).subrange(0, len as int),
        buffer_bytes(*final(buffer)) == buffer_bytes(*old(buffer)).subrange(
            len as int,
            buffer_bytes(*old(buffer)).len() as int,
        ),
{
    bytes::Buf::copy_to_bytes(buffer, len)
}

/// A piece of data that can be gathered into one buffer.
pub trait Chunk: Sized {
    /// The bytes of the piece.
    spec fn bytes(&self) -> Seq<u8>;

    /// The bytes of the piece as one buffer. A buffer that counts the
    /// users of its memory may hand out the memory it has.
    fn copy_out(self) -> (copy: Self)
        ensures
            copy.bytes() == self.bytes(),
    ;
}

impl Chunk for bytes::Bytes {
    open spec fn bytes(&self) -> Seq<u8> {
        buffer_bytes(*self)
    }

    fn copy_out(self) -> (copy: Self) {
        let mut buffer = self;
        let len = buffer_remaining(&buffer);
        let copy = buffer_copy_to_bytes(&mut buffer, len);
        assert(buffer_bytes(copy) =~= buffer_bytes(self));
        copy
    }
}

impl Chunk for Vec<u8> {
    open spec fn bytes(&self) -> Seq<u8> {
        self@
    }

    fn copy_out(self) -> (copy: Self) {
        self
    }
}

/// Whether `out` may be handed on for `data`: always the same bytes, and
/// the very same piece unless the body gathers its chunks.
pub open spec fn same_chunk<D: Chunk>(data: D, out: D, copies: bool) -> bool {
    out.bytes() == data.bytes() && (!copies ==> out == data)
}

} // verus!
