//! Little-endian byte codecs shared by the on-disk structure parsers.
//!
//! All multi-byte integers of the ext4 format are little-endian; the spec
//! functions here give the mathematical value of a field and the exec
//! functions read or write it.

use vstd::prelude::*;

verus! {

/// The value of the little-endian 16-bit integer at byte offset `i` of `b`.
pub open spec fn le16(b: Seq<u8>, i: int) -> int {
    b[i] + 0x100 * b[i + 1]
}

/// The value of the little-endian 32-bit integer at byte offset `i` of `b`.
pub open spec fn le32(b: Seq<u8>, i: int) -> int {
    b[i] + 0x100 * b[i + 1] + 0x1_0000 * b[i + 2] + 0x100_0000 * b[i + 3]
}

pub fn read_u8(data: &[u8], off: usize) -> (r: u8)
    requires
        off < data.len(),
    ensures
        r == data@[off as int],
{
    data[off]
}

pub fn read_u16(data: &[u8], off: usize) -> (r: u16)
    requires
        off + 2 <= data.len(),
    ensures
        r == le16(data@, off as int),
{
    data[off] as u16 + (data[off + 1] as u16) * 0x100
}

pub fn read_u32(data: &[u8], off: usize) -> (r: u32)
    requires
        off + 4 <= data.len(),
    ensures
        r == le32(data@, off as int),
{
    data[off] as u32 + (data[off + 1] as u32) * 0x100 + (data[off + 2] as u32) * 0x1_0000
        + (data[off + 3] as u32) * 0x100_0000
}

pub fn write_u16(data: &mut Vec<u8>, off: usize, v: u16)
    requires
        off + 2 <= old(data).len(),
    ensures
        final(data)@.len() == old(data)@.len(),
        le16(final(data)@, off as int) == v,
        final(data)@.subrange(off as int, off as int + 2) == u16_le_bytes(v),
        forall|i: int|
            0 <= i < old(data)@.len() && i != off && i != off + 1 ==> final(data)@[i] == old(
                data,
            )@[i],
{
    data[off] = (v % 0x100) as u8;
    data[off + 1] = (v / 0x100) as u8;
    proof {
        assert(data@.subrange(off as int, off as int + 2) =~= u16_le_bytes(v));
    }
}

pub fn write_u32(data: &mut Vec<u8>, off: usize, v: u32)
    requires
        off + 4 <= old(data).len(),
    ensures
        final(data)@.len() == old(data)@.len(),
        le32(final(data)@, off as int) == v,
        final(data)@.subrange(off as int, off as int + 4) == u32_le_bytes(v),
        forall|i: int|
            0 <= i < old(data)@.len() && !(off <= i < off + 4) ==> final(data)@[i] == old(
                data,
            )@[i],
{
    data[off] = (v % 0x100) as u8;
    data[off + 1] = ((v / 0x100) % 0x100) as u8;
    data[off + 2] = ((v / 0x1_0000) % 0x100) as u8;
    data[off + 3] = ((v / 0x100_0000) % 0x100) as u8;
    proof {
        assert(data@.subrange(off as int, off as int + 4) =~= u32_le_bytes(v));
    }
}

/// A vector of `n` zero bytes.
pub fn zero_vec(n: usize) -> (r: Vec<u8>)
    ensures
        r@.len() == n,
        forall|i: int| 0 <= i < n ==> r@[i] == 0u8,
{
    let mut v: Vec<u8> = Vec::new();
    while v.len() < n
        invariant
            v@.len() <= n,
            forall|i: int| 0 <= i < v@.len() ==> v@[i] == 0u8,
        decreases n - v@.len(),
    {
        v.push(0u8);
    }
    v
}

/// Whether two byte slices hold the same bytes.
pub fn bytes_eq(a: &[u8], b: &[u8]) -> (r: bool)
    ensures
        r == (a@ == b@),
{
    if a.len() != b.len() {
        assert(a@ != b@) by {
            assert(a@.len() != b@.len());
        }
        return false;
    }
    let n = a.len();
    let mut i: usize = 0;
    while i < n
        invariant
            0 <= i <= n,
            n == a@.len() == b@.len(),
            forall|j: int| 0 <= j < i ==> a@[j] == b@[j],
        decreases n - i,
    {
        if a[i] != b[i] {
            return false;
        }
        i += 1;
    }
    assert(a@ =~= b@);
    true
}

/// Copies `src[src_off .. src_off + n]` over `dst[dst_off .. dst_off + n]`.
pub fn copy_into(dst: &mut Vec<u8>, dst_off: usize, src: &[u8], src_off: usize, n: usize)
    requires
        dst_off + n <= old(dst).len(),
        src_off + n <= src.len(),
    ensures
        final(dst)@.len() == old(dst)@.len(),
        forall|i: int|
            dst_off <= i < dst_off + n ==> final(dst)@[i] == src@[i - dst_off + src_off],
        forall|i: int|
            0 <= i < old(dst)@.len() && !(dst_off <= i < dst_off + n) ==> final(dst)@[i] == old(
                dst,
            )@[i],
{
    let mut i: usize = 0;
    while i < n
        invariant
            0 <= i <= n,
            dst_off + n <= dst.len(),
            src_off + n <= src.len(),
            dst@.len() == old(dst)@.len(),
            forall|j: int| dst_off <= j < dst_off + i ==> dst@[j] == src@[j - dst_off + src_off],
            forall|j: int|
                0 <= j < old(dst)@.len() && !(dst_off <= j < dst_off + i) ==> dst@[j] == old(
                    dst,
                )@[j],
        decreases n - i,
    {
        dst[dst_off + i] = src[src_off + i];
        i += 1;
    }
}

/// The two little-endian bytes of `v`.
pub open spec fn u16_le_bytes(v: u16) -> Seq<u8> {
    seq![(v % 0x100) as u8, ((v / 0x100) % 0x100) as u8]
}

/// The four little-endian bytes of `v`.
pub open spec fn u32_le_bytes(v: u32) -> Seq<u8> {
    seq![
        (v % 0x100) as u8,
        ((v / 0x100) % 0x100) as u8,
        ((v / 0x1_0000) % 0x100) as u8,
        ((v / 0x100_0000) % 0x100) as u8,
    ]
}

/// Reading back the two little-endian bytes of `v` gives `v`.
pub proof fn lemma_le16_round_trip(b: Seq<u8>, i: int, v: u16)
    requires
        0 <= i,
        i + 2 <= b.len(),
        b.subrange(i, i + 2) == u16_le_bytes(v),
    ensures
        le16(b, i) == v,
{
    assert(b[i] == u16_le_bytes(v)[0] && b[i + 1] == u16_le_bytes(v)[1]) by {
        assert(b.subrange(i, i + 2)[0] == b[i]);
        assert(b.subrange(i, i + 2)[1] == b[i + 1]);
    }
    assert((v % 0x100) + 0x100 * ((v / 0x100) % 0x100) == v) by (nonlinear_arith);
}

/// Reading back the four little-endian bytes of `v` gives `v`.
pub proof fn lemma_le32_round_trip(b: Seq<u8>, i: int, v: u32)
    requires
        0 <= i,
        i + 4 <= b.len(),
        b.subrange(i, i + 4) == u32_le_bytes(v),
    ensures
        le32(b, i) == v,
{
    assert(b[i] == u32_le_bytes(v)[0] && b[i + 1] == u32_le_bytes(v)[1] && b[i + 2]
        == u32_le_bytes(v)[2] && b[i + 3] == u32_le_bytes(v)[3]) by {
        assert(b.subrange(i, i + 4)[0] == b[i]);
        assert(b.subrange(i, i + 4)[1] == b[i + 1]);
        assert(b.subrange(i, i + 4)[2] == b[i + 2]);
        assert(b.subrange(i, i + 4)[3] == b[i + 3]);
    }
    assert((v % 0x100) + 0x100 * ((v / 0x100) % 0x100) + 0x1_0000 * ((v / 0x1_0000) % 0x100)
        + 0x100_0000 * ((v / 0x100_0000) % 0x100) == v) by (nonlinear_arith);
}

/// Relies on `String::from_utf8`: it succeeds exactly on valid UTF-8
/// and decodes the bytes to the string's characters.
#[verifier::external_body]
pub(crate) fn string_from_utf8(bytes: Vec<u8>) -> (r: Option<String>)
    ensures
        r is Some <==> vstd::utf8::valid_utf8(bytes@),
        r is Some ==> r.get_Some_0()@ == vstd::utf8::decode_utf8(bytes@),
{
    match String::from_utf8(bytes) {
        Ok(s) => Some(s),
        Err(_) => None,
    }
}

/// Appends all of `src` to `dst`.
pub fn append_bytes(dst: &mut Vec<u8>, src: &[u8])
    ensures
        final(dst)@ == old(dst)@ + src@,
{
    let n = src.len();
    let mut i: usize = 0;
    while i < n
        invariant
            0 <= i <= n,
            n == src@.len(),
            dst@ == old(dst)@ + src@.subrange(0, i as int),
        decreases n - i,
    {
        dst.push(src[i]);
        proof {
            assert(dst@ =~= old(dst)@ + src@.subrange(0, i as int + 1));
        }
        i += 1;
    }
    proof {
        assert(src@.subrange(0, n as int) =~= src@);
    }
}

/// `s` with the bytes from `off` on replaced by `v`.
pub open spec fn splice_bytes(s: Seq<u8>, off: int, v: Seq<u8>) -> Seq<u8>
    recommends
        0 <= off,
        off + v.len() <= s.len(),
{
    s.subrange(0, off) + v + s.subrange(off + v.len(), s.len() as int)
}

/// The bytes `data[off .. off + n]` as a fresh vector.
pub fn sub_bytes(data: &[u8], off: usize, n: usize) -> (r: Vec<u8>)
    requires
        off + n <= data.len(),
    ensures
        r@ == data@.subrange(off as int, off + n),
{
    let mut v: Vec<u8> = Vec::new();
    let mut i: usize = 0;
    while i < n
        invariant
            0 <= i <= n,
            off + n <= data.len(),
            v@.len() == i,
            forall|j: int| 0 <= j < i ==> v@[j] == data@[off + j],
        decreases n - i,
    {
        v.push(data[off + i]);
        i += 1;
    }
    assert(v@ =~= data@.subrange(off as int, off + n));
    v
}

} // verus!
