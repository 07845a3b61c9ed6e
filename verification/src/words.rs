//! Little-endian words, the layout in which the kernel's linear memory
//! holds its result arrays.

use vstd::prelude::*;

verus! {

/// The unsigned 32-bit word whose little-endian bytes start at `at`.
pub open spec fn le_u32(b: Seq<u8>, at: int) -> u32 {
    (b[at] + 256 * b[at + 1] + 65536 * b[at + 2] + 16777216 * b[at + 3]) as u32
}

/// The signed 32-bit integer with the bit pattern `u` (two's complement).
pub open spec fn to_i32(u: u32) -> i32 {
    if u < 0x8000_0000 {
        u as i32
    } else {
        (u - 0x1_0000_0000) as i32
    }
}

/// The unsigned 64-bit word whose little-endian bytes start at `at`.
pub open spec fn le_u64(b: Seq<u8>, at: int) -> u64 {
    (le_u32(b, at) + 0x1_0000_0000 * le_u32(b, at + 4)) as u64
}

/// The consecutive little-endian `u32` words of `b`; a trailing partial
/// word is dropped.
pub open spec fn le_u32_words(b: Seq<u8>) -> Seq<u32> {
    Seq::new((b.len() / 4) as nat, |k: int| le_u32(b, 4 * k))
}

/// The consecutive little-endian `i32` words of `b`; a trailing partial
/// word is dropped.
pub open spec fn le_i32_words(b: Seq<u8>) -> Seq<i32> {
    Seq::new((b.len() / 4) as nat, |k: int| to_i32(le_u32(b, 4 * k)))
}

/// The consecutive little-endian `u64` words of `b`; a trailing partial
/// word is dropped.
pub open spec fn le_u64_words(b: Seq<u8>) -> Seq<u64> {
    Seq::new((b.len() / 8) as nat, |k: int| le_u64(b, 8 * k))
}

/// The little-endian bytes of `x`.
pub open spec fn u32_le_bytes(x: u32) -> Seq<u8> {
    seq![(x % 256) as u8, ((x / 256) % 256) as u8, ((x / 65536) % 256) as u8, (x / 16777216) as u8]
}

/// The little-endian bytes of `x`.
pub open spec fn u64_le_bytes(x: u64) -> Seq<u8> {
    u32_le_bytes((x % 0x1_0000_0000) as u32) + u32_le_bytes((x / 0x1_0000_0000) as u32)
}

/// The word whose little-endian bytes start at `at`.
pub fn read_le_u32(b: &[u8], at: usize) -> (w: u32)
    requires
        at + 4 <= b@.len(),
    ensures
        w == le_u32(b@, at as int),
{
    (b[at] as u32) + (b[at + 1] as u32) * 256 + (b[at + 2] as u32) * 65536 + (b[at + 3] as u32) * 16777216
}

/// The signed integer with the bit pattern `u`.
pub fn u32_to_i32(u: u32) -> (i: i32)
    ensures
        i == to_i32(u),
{
    if u < 0x8000_0000 {
        u as i32
    } else {
        ((u - 0x8000_0000) as i32) - 0x7fff_ffff - 1
    }
}

/// The consecutive little-endian `u32` words of `b`.
pub fn decode_u32_words(b: &[u8]) -> (out: Vec<u32>)
    ensures
        out@ == le_u32_words(b@),
{
    let len = b.len();
    let n = len / 4;
    let mut out: Vec<u32> = Vec::new();
    let mut k: usize = 0;
    while k < n
        invariant
            n == b@.len() / 4,
            len == b@.len(),
            k <= n,
            out@.len() == k,
            forall|m: int| 0 <= m < k ==> #[trigger] out@[m] == le_u32(b@, 4 * m),
        decreases n - k,
    {
        assert(4 * k + 4 <= b@.len()) by (nonlinear_arith)
            requires
                k < n,
                n == b@.len() / 4,
        ;
        out.push(read_le_u32(b, 4 * k));
        k = k + 1;
    }
    assert(out@ =~= le_u32_words(b@));
    out
}

/// The consecutive little-endian `i32` words of `b`.
pub fn decode_i32_words(b: &[u8]) -> (out: Vec<i32>)
    ensures
        out@ == le_i32_words(b@),
{
    let len = b.len();
    let n = len / 4;
    let mut out: Vec<i32> = Vec::new();
    let mut k: usize = 0;
    while k < n
        invariant
            n == b@.len() / 4,
            len == b@.len(),
            k <= n,
            out@.len() == k,
            forall|m: int| 0 <= m < k ==> #[trigger] out@[m] == to_i32(le_u32(b@, 4 * m)),
        decreases n - k,
    {
        assert(4 * k + 4 <= b@.len()) by (nonlinear_arith)
            requires
                k < n,
                n == b@.len() / 4,
        ;
        out.push(u32_to_i32(read_le_u32(b, 4 * k)));
        k = k + 1;
    }
    assert(out@ =~= le_i32_words(b@));
    out
}

/// The consecutive little-endian `u64` words of `b`.
pub fn decode_u64_words(b: &[u8]) -> (out: Vec<u64>)
    ensures
        out@ == le_u64_words(b@),
{
    let len = b.len();
    let n = len / 8;
    let mut out: Vec<u64> = Vec::new();
    let mut k: usize = 0;
    while k < n
        invariant
            n == b@.len() / 8,
            len == b@.len(),
            k <= n,
            out@.len() == k,
            forall|m: int| 0 <= m < k ==> #[trigger] out@[m] == le_u64(b@, 8 * m),
        decreases n - k,
    {
        assert(8 * k + 8 <= b@.len()) by (nonlinear_arith)
            requires
                k < n,
                n == b@.len() / 8,
        ;
        let low = read_le_u32(b, 8 * k) as u64;
        let high = read_le_u32(b, 8 * k + 4) as u64;
        out.push(low + high * 0x1_0000_0000);
        k = k + 1;
    }
    assert(out@ =~= le_u64_words(b@));
    out
}

/// The little-endian bytes of `x`.
pub fn encode_u32(x: u32) -> (out: Vec<u8>)
    ensures
        out@ == u32_le_bytes(x),
{
    let out = vec![(x % 256) as u8, ((x / 256) % 256) as u8, ((x / 65536) % 256) as u8, (x / 16777216) as u8];
    assert(out@ =~= u32_le_bytes(x));
    out
}

/// The little-endian bytes of `x`.
pub fn encode_u64(x: u64) -> (out: Vec<u8>)
    ensures
        out@ == u64_le_bytes(x),
{
    let mut out = encode_u32((x % 0x1_0000_0000) as u32);
    let mut high = encode_u32((x / 0x1_0000_0000) as u32);
    out.append(&mut high);
    out
}

/// Decoding the encoding of a word gives the word back.
pub proof fn law_u32_round_trip(x: u32)
    ensures
        le_u32(u32_le_bytes(x), 0) == x,
{
}

/// Decoding the encoding of a 64-bit word gives the word back.
pub proof fn law_u64_round_trip(x: u64)
    ensures
        le_u64(u64_le_bytes(x), 0) == x,
{
    law_u32_round_trip((x % 0x1_0000_0000) as u32);
    law_u32_round_trip((x / 0x1_0000_0000) as u32);
    let b = u64_le_bytes(x);
    assert(b.subrange(4, 8) =~= u32_le_bytes((x / 0x1_0000_0000) as u32));
    assert(le_u32(b, 4) == le_u32(b.subrange(4, 8), 0));
}

/// The little-endian bytes of each word of `ws`, one after another: the
/// layout of a `u32` array in the kernel's memory.
pub open spec fn u32_words_le(ws: Seq<u32>) -> Seq<u8>
    decreases ws.len(),
{
    if ws.len() == 0 {
        Seq::empty()
    } else {
        u32_words_le(ws.drop_last()) + u32_le_bytes(ws.last())
    }
}

proof fn lemma_u32_words_le(ws: Seq<u32>)
    ensures
        u32_words_le(ws).len() == 4 * ws.len(),
        forall|k: int| 0 <= k < ws.len() ==> #[trigger] le_u32(u32_words_le(ws), 4 * k) == ws[k],
    decreases ws.len(),
{
    if ws.len() > 0 {
        let front = ws.drop_last();
        let x = ws.last();
        lemma_u32_words_le(front);
        law_u32_round_trip(x);
        let b = u32_words_le(ws);
        let fb = u32_words_le(front);
        let n = fb.len() as int;
        assert(b == fb + u32_le_bytes(x));
        assert forall|k: int| 0 <= k < ws.len() implies #[trigger] le_u32(b, 4 * k) == ws[k] by {
            if k < front.len() {
                assert(le_u32(fb, 4 * k) == front[k]);
                assert(b[4 * k] == fb[4 * k] && b[4 * k + 1] == fb[4 * k + 1]);
                assert(b[4 * k + 2] == fb[4 * k + 2] && b[4 * k + 3] == fb[4 * k + 3]);
            } else {
                assert(4 * k == n);
                let e = u32_le_bytes(x);
                assert(b[n] == e[0] && b[n + 1] == e[1] && b[n + 2] == e[2] && b[n + 3] == e[3]);
            }
        }
    }
}

/// Decoding the little-endian layout of a sequence of words gives the
/// words back.
pub proof fn law_u32_words_round_trip(ws: Seq<u32>)
    ensures
        le_u32_words(u32_words_le(ws)) == ws,
{
    lemma_u32_words_le(ws);
    assert(le_u32_words(u32_words_le(ws)) =~= ws);
}

} // verus!
