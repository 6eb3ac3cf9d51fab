//! The byte buffers of the `bytes` crate, as far as this library reads and
//! fills them.
//!
//! Verus does not look inside these buffers. What one holds is named by
//! [`bytes_contents`] and [`bytes_mut_contents`], and each operation below
//! says what it does to those contents.

use vstd::prelude::*;

verus! {

/// `bytes::Bytes`, an immutable byte buffer.
#[verifier::external_type_specification]
#[verifier::external_body]
pub struct ExBytes(bytes::Bytes);

/// `bytes::BytesMut`, a growable byte buffer.
#[verifier::external_type_specification]
#[verifier::external_body]
pub struct ExBytesMut(bytes::BytesMut);

/// The bytes that a `Bytes` holds, in order.
pub uninterp spec fn bytes_contents(b: bytes::Bytes) -> Seq<u8>;

/// The bytes written so far to a `BytesMut`, in order.
pub uninterp spec fn bytes_mut_contents(b: bytes::BytesMut) -> Seq<u8>;

/// The eight bytes of `n`, most significant first.
pub open spec fn be_bytes_u64(n: u64) -> Seq<u8> {
    seq![
        (n / 0x100_0000_0000_0000) as u8,
        (n / 0x1_0000_0000_0000 % 0x100) as u8,
        (n / 0x100_0000_0000 % 0x100) as u8,
        (n / 0x1_0000_0000 % 0x100) as u8,
        (n / 0x100_0000 % 0x100) as u8,
        (n / 0x1_0000 % 0x100) as u8,
        (n / 0x100 % 0x100) as u8,
        (n % 0x100) as u8,
    ]
}

/// The eight bytes of `n` in two's complement, most significant first.
pub open spec fn be_bytes_i64(n: i64) -> Seq<u8> {
    if n >= 0 {
        be_bytes_u64(n as u64)
    } else {
        be_bytes_u64((n + 0x1_0000_0000_0000_0000) as u64)
    }
}

/// `Bytes` seen as a slice, through its `AsRef<[u8]>`: the slice holds the
/// buffer's bytes.
#[verifier::external_body]
pub(crate) fn bytes_as_slice(b: &bytes::Bytes) -> (r: &[u8])
    ensures
        r@ == bytes_contents(*b),
{
    b.as_ref()
}

/// `Clone` for `Bytes`: the clone holds the same bytes.
pub assume_specification[ <bytes::Bytes as Clone>::clone ](b: &bytes::Bytes) -> (r: bytes::Bytes)
    ensures
        bytes_contents(r) == bytes_contents(*b),
;

/// `BytesMut::with_capacity`: a buffer that holds no bytes yet. The capacity
/// is kept within what an allocation can be asked for.
pub assume_specification[ bytes::BytesMut::with_capacity ](capacity: usize) -> (b: bytes::BytesMut)
    requires
        capacity <= isize::MAX,
    ensures
        bytes_mut_contents(b) == Seq::<u8>::empty(),
;

/// `BufMut::put_u8` on a `BytesMut`: appends the byte `n`. The buffer grows
/// as needed; its length is kept within what an allocation can hold.
#[verifier::external_body]
pub(crate) fn put_u8(buf: &mut bytes::BytesMut, n: u8)
    requires
        bytes_mut_contents(*old(buf)).len() + 1 <= isize::MAX,
    ensures
        bytes_mut_contents(*final(buf)) == bytes_mut_contents(*old(buf)).push(n),
{
    bytes::BufMut::put_u8(buf, n)
}

/// `BufMut::put_u64` on a `BytesMut`: appends the eight bytes of `n` in
/// big-endian order.
#[verifier::external_body]
pub(crate) fn put_u64(buf: &mut bytes::BytesMut, n: u64)
    requires
        bytes_mut_contents(*old(buf)).len() + 8 <= isize::MAX,
    ensures
        bytes_mut_contents(*final(buf)) == bytes_mut_contents(*old(buf)) + be_bytes_u64(n),
{
    bytes::BufMut::put_u64(buf, n)
}

/// `BufMut::put_i64` on a `BytesMut`: appends the eight bytes of `n`, in
/// two's complement and big-endian order.
#[verifier::external_body]
pub(crate) fn put_i64(buf: &mut bytes::BytesMut, n: i64)
    requires
        bytes_mut_contents(*old(buf)).len() + 8 <= isize::MAX,
    ensures
        bytes_mut_contents(*final(buf)) == bytes_mut_contents(*old(buf)) + be_bytes_i64(n),
{
    bytes::BufMut::put_i64(buf, n)
}

/// `BytesMut::freeze`: the immutable buffer holds the bytes written.
pub assume_specification[ bytes::BytesMut::freeze ](b: bytes::BytesMut) -> (r: bytes::Bytes)
    ensures
        bytes_contents(r) == bytes_mut_contents(b),
;

} // verus!
