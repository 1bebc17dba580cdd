//! Fixed-width little-endian layout of embedding vectors.
//!
//! A vector of `n` components becomes `4 * n` bytes: the components in input
//! order, each as its four bytes, least significant first.

use crate::error::MemoryError;
use byteorder::{ByteOrder, LittleEndian, WriteBytesExt};
use vstd::prelude::*;
use vstd::slice::slice_subrange;

verus! {

/// The four bytes of `x`, least significant first.
pub open spec fn le_bytes(x: u32) -> Seq<u8> {
    seq![
        (x % 256) as u8,
        (x / 256 % 256) as u8,
        (x / 65536 % 256) as u8,
        (x / 16777216) as u8,
    ]
}

/// The number whose little-endian bytes are the first four of `b`.
pub open spec fn le_value(b: Seq<u8>) -> u32
    recommends
        b.len() >= 4,
{
    (b[0] + 256 * b[1] + 65536 * b[2] + 16777216 * b[3]) as u32
}

/// The byte layout of a vector: byte `i` is byte `i % 4` of component `i / 4`.
pub open spec fn encoded(v: Seq<u32>) -> Seq<u8> {
    Seq::new(4 * v.len(), |i: int| le_bytes(v[i / 4])[i % 4])
}

/// The vector laid out in `b`: component `k` is read from bytes `4k .. 4k + 4`.
pub open spec fn decoded(b: Seq<u8>) -> Seq<u32> {
    Seq::new(b.len() / 4, |k: int| le_value(b.subrange(4 * k, 4 * k + 4)))
}

/// Reading back the little-endian bytes of a number gives the number.
pub proof fn le_value_of_le_bytes(x: u32)
    ensures
        le_bytes(x).len() == 4,
        le_value(le_bytes(x)) == x,
{
}

/// Writing out the number read from four bytes gives those bytes.
pub proof fn le_bytes_of_le_value(b: Seq<u8>)
    requires
        b.len() == 4,
    ensures
        le_bytes(le_value(b)) == b,
{
    let b0 = b[0] as int;
    let b1 = b[1] as int;
    let b2 = b[2] as int;
    let b3 = b[3] as int;
    let x = b0 + 256 * b1 + 65536 * b2 + 16777216 * b3;
    assert(le_value(b) == x);
    assert(x % 256 == b0);
    assert(x / 256 == b1 + 256 * b2 + 65536 * b3);
    assert(x / 65536 == b2 + 256 * b3);
    assert(x / 16777216 == b3);
    assert(le_bytes(le_value(b)) =~= b);
}

/// An encoding is four bytes for each component.
pub proof fn encoded_len(v: Seq<u32>)
    ensures
        encoded(v).len() == 4 * v.len(),
{
}

/// Decoding an encoding gives back the vector, bit for bit.
pub proof fn decode_inverts_encode(v: Seq<u32>)
    ensures
        encoded(v).len() % 4 == 0,
        decoded(encoded(v)) == v,
{
    let b = encoded(v);
    assert forall|k: int| 0 <= k < v.len() implies #[trigger] decoded(b)[k] == v[k] by {
        let chunk = b.subrange(4 * k, 4 * k + 4);
        assert(chunk =~= le_bytes(v[k])) by {
            assert forall|j: int| 0 <= j < 4 implies chunk[j] == le_bytes(v[k])[j] by {
                assert((4 * k + j) / 4 == k);
                assert((4 * k + j) % 4 == j);
            }
        }
        le_value_of_le_bytes(v[k]);
    }
    assert(decoded(b) =~= v);
}

/// Encoding what was decoded from a whole number of components gives back the bytes.
pub proof fn encode_inverts_decode(b: Seq<u8>)
    requires
        b.len() % 4 == 0,
    ensures
        encoded(decoded(b)) == b,
{
    let v = decoded(b);
    assert forall|i: int| 0 <= i < b.len() implies #[trigger] encoded(v)[i] == b[i] by {
        let k = i / 4;
        let chunk = b.subrange(4 * k, 4 * k + 4);
        le_bytes_of_le_value(chunk);
        assert(chunk[i % 4] == b[i]);
    }
    assert(encoded(v) =~= b);
}

/// Appends the four little-endian bytes of `bits` to `buf`.
///
/// Trusted: calls `byteorder::WriteBytesExt::write_u32::<LittleEndian>` on a
/// `Vec<u8>`, which formats the number with `LittleEndian::write_u32` and
/// hands the four bytes to `Write::write_all`; on a `Vec<u8>` that appends and
/// reports no error.
#[verifier::external_body]
fn write_u32_le(buf: &mut Vec<u8>, bits: u32)
    ensures
        final(buf)@ == old(buf)@ + le_bytes(bits),
{
    buf.write_u32::<LittleEndian>(bits).unwrap();
}

/// Reads the number held in the first four bytes of `buf`, least significant first.
///
/// Trusted: calls `byteorder::LittleEndian::read_u32`, which panics on fewer
/// than four bytes and otherwise returns `u32::from_le_bytes` of the first four.
#[verifier::external_body]
fn read_u32_le(buf: &[u8]) -> (bits: u32)
    requires
        buf@.len() >= 4,
    ensures
        bits == le_value(buf@),
{
    LittleEndian::read_u32(buf)
}

/// Lays a vector out as bytes.
pub fn encode(fs: &[u32]) -> (bytes: Vec<u8>)
    ensures
        bytes@ == encoded(fs@),
        bytes@.len() == 4 * fs@.len(),
{
    let mut buf: Vec<u8> = Vec::new();
    let mut k: usize = 0;
    while k < fs.len()
        invariant
            k <= fs.len(),
            buf@ == encoded(fs@.take(k as int)),
        decreases fs.len() - k,
    {
        let ghost before = buf@;
        write_u32_le(&mut buf, fs[k]);
        proof {
            let next = fs@.take(k + 1);
            assert forall|i: int| 0 <= i < 4 * (k + 1) implies #[trigger] buf@[i] == encoded(
                next,
            )[i] by {
                if i < 4 * k {
                    assert(before[i] == encoded(fs@.take(k as int))[i]);
                    assert(fs@.take(k as int)[i / 4] == next[i / 4]);
                } else {
                    assert(i / 4 == k);
                    assert(i % 4 == i - 4 * k);
                }
            }
            assert(buf@ =~= encoded(next));
        }
        k = k + 1;
    }
    proof {
        assert(fs@.take(fs.len() as int) =~= fs@);
    }
    buf
}

/// Reads a vector back from its byte layout.
///
/// Fails with `EncodingError` exactly when the bytes are not a whole number of
/// four-byte components.
pub fn decode(bytes: &[u8]) -> (r: Result<Vec<u32>, MemoryError>)
    ensures
        match r {
            Ok(fs) => bytes@.len() % 4 == 0 && fs@ == decoded(bytes@),
            Err(e) => bytes@.len() % 4 != 0 && e == MemoryError::EncodingError,
        },
{
    let n = bytes.len();
    if n % 4 != 0 {
        return Err(MemoryError::EncodingError);
    }
    let mut fs: Vec<u32> = Vec::new();
    let mut k: usize = 0;
    while k < n / 4
        invariant
            n == bytes@.len(),
            n % 4 == 0,
            k <= n / 4,
            fs@.len() == k,
            forall|j: int| 0 <= j < k ==> #[trigger] fs@[j] == decoded(bytes@)[j],
        decreases n / 4 - k,
    {
        let chunk = slice_subrange(bytes, 4 * k, 4 * k + 4);
        let bits = read_u32_le(chunk);
        fs.push(bits);
        k = k + 1;
    }
    proof {
        assert(fs@ =~= decoded(bytes@));
    }
    Ok(fs)
}

} // verus!
