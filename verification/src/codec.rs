//! Big-endian (network order) integer encoding over byte sequences.

use vstd::prelude::*;
use vstd::utf8::{valid_utf8, decode_utf8};

verus! {

/// The two bytes of `v`, most significant first.
pub open spec fn u16_be_bytes(v: u16) -> Seq<u8> {
    seq![(v >> 8u16) as u8, v as u8]
}

/// The four bytes of `v`, most significant first.
pub open spec fn u32_be_bytes(v: u32) -> Seq<u8> {
    seq![(v >> 24u32) as u8, (v >> 16u32) as u8, (v >> 8u32) as u8, v as u8]
}

/// The eight bytes of `v`, most significant first.
pub open spec fn u64_be_bytes(v: u64) -> Seq<u8> {
    seq![
        (v >> 56u64) as u8, (v >> 48u64) as u8, (v >> 40u64) as u8, (v >> 32u64) as u8,
        (v >> 24u64) as u8, (v >> 16u64) as u8, (v >> 8u64) as u8, v as u8,
    ]
}

pub open spec fn i32_be_bytes(v: i32) -> Seq<u8> {
    u32_be_bytes(v as u32)
}

pub open spec fn i64_be_bytes(v: i64) -> Seq<u8> {
    u64_be_bytes(v as u64)
}

/// The `u16` whose big-endian bytes are `s[at]`, `s[at + 1]`.
pub open spec fn u16_at(s: Seq<u8>, at: int) -> u16 {
    ((s[at] as u16) << 8u16) | (s[at + 1] as u16)
}

pub open spec fn u32_at(s: Seq<u8>, at: int) -> u32 {
    ((s[at] as u32) << 24u32) | ((s[at + 1] as u32) << 16u32) | ((s[at + 2] as u32) << 8u32)
        | (s[at + 3] as u32)
}

pub open spec fn u64_at(s: Seq<u8>, at: int) -> u64 {
    ((s[at] as u64) << 56u64) | ((s[at + 1] as u64) << 48u64) | ((s[at + 2] as u64) << 40u64)
        | ((s[at + 3] as u64) << 32u64) | ((s[at + 4] as u64) << 24u64) | ((s[at + 5] as u64)
        << 16u64) | ((s[at + 6] as u64) << 8u64) | (s[at + 7] as u64)
}

pub open spec fn i32_at(s: Seq<u8>, at: int) -> i32 {
    u32_at(s, at) as i32
}

pub open spec fn i64_at(s: Seq<u8>, at: int) -> i64 {
    u64_at(s, at) as i64
}

proof fn lemma_u16_parts(v: u16)
    ensures
        ((((v >> 8u16) as u8) as u16) << 8u16) | ((v as u8) as u16) == v,
{
    assert(((((v >> 8u16) as u8) as u16) << 8u16) | ((v as u8) as u16) == v) by (bit_vector);
}

proof fn lemma_u32_parts(v: u32)
    ensures
        ((((v >> 24u32) as u8) as u32) << 24u32) | ((((v >> 16u32) as u8) as u32) << 16u32) | ((((v
            >> 8u32) as u8) as u32) << 8u32) | ((v as u8) as u32) == v,
{
    assert(((((v >> 24u32) as u8) as u32) << 24u32) | ((((v >> 16u32) as u8) as u32) << 16u32) | ((((
    v >> 8u32) as u8) as u32) << 8u32) | ((v as u8) as u32) == v) by (bit_vector);
}

proof fn lemma_u64_parts(v: u64)
    ensures
        ((((v >> 56u64) as u8) as u64) << 56u64) | ((((v >> 48u64) as u8) as u64) << 48u64) | ((((v
            >> 40u64) as u8) as u64) << 40u64) | ((((v >> 32u64) as u8) as u64) << 32u64) | ((((v
            >> 24u64) as u8) as u64) << 24u64) | ((((v >> 16u64) as u8) as u64) << 16u64) | ((((v
            >> 8u64) as u8) as u64) << 8u64) | ((v as u8) as u64) == v,
{
    assert(((((v >> 56u64) as u8) as u64) << 56u64) | ((((v >> 48u64) as u8) as u64) << 48u64) | ((((
    v >> 40u64) as u8) as u64) << 40u64) | ((((v >> 32u64) as u8) as u64) << 32u64) | ((((v
        >> 24u64) as u8) as u64) << 24u64) | ((((v >> 16u64) as u8) as u64) << 16u64) | ((((v
        >> 8u64) as u8) as u64) << 8u64) | ((v as u8) as u64) == v) by (bit_vector);
}

/// Decoding the bytes that encoding wrote, at any offset of a larger
/// sequence, gives the value back.
pub proof fn lemma_u16_roundtrip(pre: Seq<u8>, v: u16, post: Seq<u8>)
    ensures
        u16_at(pre + u16_be_bytes(v) + post, pre.len() as int) == v,
{
    let s = pre + u16_be_bytes(v) + post;
    let n = pre.len() as int;
    assert(s[n] == (v >> 8u16) as u8);
    assert(s[n + 1] == v as u8);
    lemma_u16_parts(v);
}

pub proof fn lemma_u32_roundtrip(pre: Seq<u8>, v: u32, post: Seq<u8>)
    ensures
        u32_at(pre + u32_be_bytes(v) + post, pre.len() as int) == v,
{
    let s = pre + u32_be_bytes(v) + post;
    let n = pre.len() as int;
    assert(s[n] == (v >> 24u32) as u8);
    assert(s[n + 1] == (v >> 16u32) as u8);
    assert(s[n + 2] == (v >> 8u32) as u8);
    assert(s[n + 3] == v as u8);
    lemma_u32_parts(v);
}

pub proof fn lemma_u64_roundtrip(pre: Seq<u8>, v: u64, post: Seq<u8>)
    ensures
        u64_at(pre + u64_be_bytes(v) + post, pre.len() as int) == v,
{
    let s = pre + u64_be_bytes(v) + post;
    let n = pre.len() as int;
    assert(s[n] == (v >> 56u64) as u8);
    assert(s[n + 1] == (v >> 48u64) as u8);
    assert(s[n + 2] == (v >> 40u64) as u8);
    assert(s[n + 3] == (v >> 32u64) as u8);
    assert(s[n + 4] == (v >> 24u64) as u8);
    assert(s[n + 5] == (v >> 16u64) as u8);
    assert(s[n + 6] == (v >> 8u64) as u8);
    assert(s[n + 7] == v as u8);
    lemma_u64_parts(v);
}

pub proof fn lemma_i32_roundtrip(pre: Seq<u8>, v: i32, post: Seq<u8>)
    ensures
        i32_at(pre + i32_be_bytes(v) + post, pre.len() as int) == v,
{
    lemma_u32_roundtrip(pre, v as u32, post);
    assert((v as u32) as i32 == v) by (bit_vector);
}

pub proof fn lemma_i64_roundtrip(pre: Seq<u8>, v: i64, post: Seq<u8>)
    ensures
        i64_at(pre + i64_be_bytes(v) + post, pre.len() as int) == v,
{
    lemma_u64_roundtrip(pre, v as u64, post);
    assert((v as u64) as i64 == v) by (bit_vector);
}

/// Reads the big-endian `u16` at `at`.
pub fn get_u16(s: &[u8], at: usize) -> (r: u16)
    requires
        at + 2 <= s@.len(),
    ensures
        r == u16_at(s@, at as int),
{
    ((s[at] as u16) << 8u16) | (s[at + 1] as u16)
}

/// Reads the big-endian `u32` at `at`.
pub fn get_u32(s: &[u8], at: usize) -> (r: u32)
    requires
        at + 4 <= s@.len(),
    ensures
        r == u32_at(s@, at as int),
{
    ((s[at] as u32) << 24u32) | ((s[at + 1] as u32) << 16u32) | ((s[at + 2] as u32) << 8u32) | (s[at
        + 3] as u32)
}

/// Reads the big-endian `u64` at `at`.
pub fn get_u64(s: &[u8], at: usize) -> (r: u64)
    requires
        at + 8 <= s@.len(),
    ensures
        r == u64_at(s@, at as int),
{
    ((s[at] as u64) << 56u64) | ((s[at + 1] as u64) << 48u64) | ((s[at + 2] as u64) << 40u64) | ((s[at
        + 3] as u64) << 32u64) | ((s[at + 4] as u64) << 24u64) | ((s[at + 5] as u64) << 16u64) | ((s[at
        + 6] as u64) << 8u64) | (s[at + 7] as u64)
}

/// Reads the big-endian `i32` at `at`.
pub fn get_i32(s: &[u8], at: usize) -> (r: i32)
    requires
        at + 4 <= s@.len(),
    ensures
        r == i32_at(s@, at as int),
{
    get_u32(s, at) as i32
}

/// Reads the big-endian `i64` at `at`.
pub fn get_i64(s: &[u8], at: usize) -> (r: i64)
    requires
        at + 8 <= s@.len(),
    ensures
        r == i64_at(s@, at as int),
{
    get_u64(s, at) as i64
}

/// Appends the big-endian bytes of `v`.
pub fn put_u16(out: &mut Vec<u8>, v: u16)
    ensures
        final(out)@ == old(out)@ + u16_be_bytes(v),
{
    out.push((v >> 8u16) as u8);
    out.push(v as u8);
    assert(out@ =~= old(out)@ + u16_be_bytes(v));
}

pub fn put_u32(out: &mut Vec<u8>, v: u32)
    ensures
        final(out)@ == old(out)@ + u32_be_bytes(v),
{
    out.push((v >> 24u32) as u8);
    out.push((v >> 16u32) as u8);
    out.push((v >> 8u32) as u8);
    out.push(v as u8);
    assert(out@ =~= old(out)@ + u32_be_bytes(v));
}

pub fn put_u64(out: &mut Vec<u8>, v: u64)
    ensures
        final(out)@ == old(out)@ + u64_be_bytes(v),
{
    out.push((v >> 56u64) as u8);
    out.push((v >> 48u64) as u8);
    out.push((v >> 40u64) as u8);
    out.push((v >> 32u64) as u8);
    out.push((v >> 24u64) as u8);
    out.push((v >> 16u64) as u8);
    out.push((v >> 8u64) as u8);
    out.push(v as u8);
    assert(out@ =~= old(out)@ + u64_be_bytes(v));
}

pub fn put_i32(out: &mut Vec<u8>, v: i32)
    ensures
        final(out)@ == old(out)@ + i32_be_bytes(v),
{
    put_u32(out, v as u32);
}

pub fn put_i64(out: &mut Vec<u8>, v: i64)
    ensures
        final(out)@ == old(out)@ + i64_be_bytes(v),
{
    put_u64(out, v as u64);
}

/// Appends every byte of `bytes`.
pub fn put_bytes(out: &mut Vec<u8>, bytes: &[u8])
    ensures
        final(out)@ == old(out)@ + bytes@,
{
    let ghost start = out@;
    let mut i: usize = 0;
    while i < bytes.len()
        invariant
            i <= bytes@.len(),
            out@ == start + bytes@.subrange(0, i as int),
        decreases bytes@.len() - i,
    {
        out.push(bytes[i]);
        i = i + 1;
        assert(out@ =~= start + bytes@.subrange(0, i as int));
    }
    assert(bytes@.subrange(0, bytes@.len() as int) =~= bytes@);
}

} // verus!

verus! {

/// Why reading bytes failed.
#[derive(PartialEq, Eq, Clone, Copy, Debug)]
pub enum IoError {
    /// Fewer bytes were left than the read needed.
    UnexpectedEof,
    /// The bytes could not be decoded.
    InvalidData,
}

/// The text that the standard library gives for a kind of read failure.
pub open spec fn io_error_text(e: IoError) -> Seq<char> {
    match e {
        IoError::UnexpectedEof => "failed to fill whole buffer"@,
        IoError::InvalidData => "invalid data"@,
    }
}

impl IoError {
    /// The text that the standard library gives for this kind of failure.
    pub fn message(&self) -> (r: &'static str)
        ensures
            r@ == io_error_text(*self),
    {
        match self {
            IoError::UnexpectedEof => "failed to fill whole buffer",
            IoError::InvalidData => "invalid data",
        }
    }
}

/// Copies the 20 bytes at `at` into an array.
pub fn array20(s: &[u8], at: usize) -> (r: [u8; 20])
    requires
        at + 20 <= s@.len(),
    ensures
        r@ == s@.subrange(at as int, at + 20),
{
    let mut a = [0u8; 20];
    let mut i: usize = 0;
    while i < 20
        invariant
            i <= 20,
            at + 20 <= s.len(),
            forall|j: int| 0 <= j < i ==> a@[j] == s@[at + j],
        decreases 20 - i,
    {
        a[i] = s[at + i];
        i = i + 1;
    }
    assert(a@ =~= s@.subrange(at as int, at + 20));
    a
}

/// Copies the 16 bytes at `at` into an array.
pub fn array16(s: &[u8], at: usize) -> (r: [u8; 16])
    requires
        at + 16 <= s@.len(),
    ensures
        r@ == s@.subrange(at as int, at + 16),
{
    let mut a = [0u8; 16];
    let mut i: usize = 0;
    while i < 16
        invariant
            i <= 16,
            at + 16 <= s.len(),
            forall|j: int| 0 <= j < i ==> a@[j] == s@[at + j],
        decreases 16 - i,
    {
        a[i] = s[at + i];
        i = i + 1;
    }
    assert(a@ =~= s@.subrange(at as int, at + 16));
    a
}

/// Copies the 4 bytes at `at` into an array.
pub fn array4(s: &[u8], at: usize) -> (r: [u8; 4])
    requires
        at + 4 <= s@.len(),
    ensures
        r@ == s@.subrange(at as int, at + 4),
{
    let r = [s[at], s[at + 1], s[at + 2], s[at + 3]];
    assert(r@ =~= s@.subrange(at as int, at + 4));
    r
}

} // verus!

verus! {

/// Calls `std::str::from_utf8` and copies the text out. The contract claims
/// what the standard library documents: the call succeeds exactly on valid
/// UTF-8, and the text is what those bytes encode.
#[verifier::external_body]
pub(crate) fn utf8_to_string(bytes: &[u8]) -> (r: Option<String>)
    ensures
        r is Some <==> valid_utf8(bytes@),
        r matches Some(s) ==> s@ == decode_utf8(bytes@),
{
    match std::str::from_utf8(bytes) {
        Ok(text) => Some(text.to_string()),
        Err(_) => None,
    }
}

} // verus!

verus! {

/// A sequence that holds the big-endian bytes of `v` at `k` decodes to `v`
/// there.
pub proof fn lemma_u16_at(b: Seq<u8>, k: int, v: u16)
    requires
        0 <= k,
        k + 2 <= b.len(),
        b.subrange(k, k + 2) == u16_be_bytes(v),
    ensures
        u16_at(b, k) == v,
{
    lemma_u16_roundtrip(b.subrange(0, k), v, b.subrange(k + 2, b.len() as int));
    assert(b =~= b.subrange(0, k) + u16_be_bytes(v) + b.subrange(k + 2, b.len() as int));
}

pub proof fn lemma_u32_at(b: Seq<u8>, k: int, v: u32)
    requires
        0 <= k,
        k + 4 <= b.len(),
        b.subrange(k, k + 4) == u32_be_bytes(v),
    ensures
        u32_at(b, k) == v,
{
    lemma_u32_roundtrip(b.subrange(0, k), v, b.subrange(k + 4, b.len() as int));
    assert(b =~= b.subrange(0, k) + u32_be_bytes(v) + b.subrange(k + 4, b.len() as int));
}

pub proof fn lemma_i32_at(b: Seq<u8>, k: int, v: i32)
    requires
        0 <= k,
        k + 4 <= b.len(),
        b.subrange(k, k + 4) == i32_be_bytes(v),
    ensures
        i32_at(b, k) == v,
{
    lemma_i32_roundtrip(b.subrange(0, k), v, b.subrange(k + 4, b.len() as int));
    assert(b =~= b.subrange(0, k) + i32_be_bytes(v) + b.subrange(k + 4, b.len() as int));
}

pub proof fn lemma_i64_at(b: Seq<u8>, k: int, v: i64)
    requires
        0 <= k,
        k + 8 <= b.len(),
        b.subrange(k, k + 8) == i64_be_bytes(v),
    ensures
        i64_at(b, k) == v,
{
    lemma_i64_roundtrip(b.subrange(0, k), v, b.subrange(k + 8, b.len() as int));
    assert(b =~= b.subrange(0, k) + i64_be_bytes(v) + b.subrange(k + 8, b.len() as int));
}

} // verus!

verus! {

/// What `String::from_utf8_lossy` makes of `bytes`: the text they encode,
/// with each invalid sequence replaced by U+FFFD.
pub uninterp spec fn utf8_lossy(bytes: Seq<u8>) -> Seq<char>;

/// The text of `bytes` read leniently: valid UTF-8 is the text it encodes,
/// as `String::from_utf8_lossy` documents; anything else is what that
/// function makes of it.
pub open spec fn lossy_text(bytes: Seq<u8>) -> Seq<char> {
    if valid_utf8(bytes) {
        decode_utf8(bytes)
    } else {
        utf8_lossy(bytes)
    }
}

/// Calls `String::from_utf8_lossy` and copies the text out. The contract
/// names the result and states the one fact that the documentation gives
/// plainly: valid UTF-8 comes back as the text it encodes.
#[verifier::external_body]
pub(crate) fn lossy_string(bytes: &[u8]) -> (r: String)
    ensures
        valid_utf8(bytes@) ==> r@ == decode_utf8(bytes@),
        !valid_utf8(bytes@) ==> r@ == utf8_lossy(bytes@),
{
    String::from_utf8_lossy(bytes).into_owned()
}

} // verus!
