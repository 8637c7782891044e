//! Little-endian fields in byte streams: how a value is written, how it
//! is read back at a position, and the lemmas that read a written value
//! back from any stream holding it.
use vstd::prelude::*;

verus! {

pub open spec fn le16_bytes(v: u16) -> Seq<u8> {
    seq![v as u8, (v >> 8u16) as u8]
}

pub open spec fn le32_bytes(v: u32) -> Seq<u8> {
    seq![v as u8, (v >> 8u32) as u8, (v >> 16u32) as u8, (v >> 24u32) as u8]
}

pub open spec fn le64_bytes(v: u64) -> Seq<u8> {
    seq![
        v as u8,
        (v >> 8u64) as u8,
        (v >> 16u64) as u8,
        (v >> 24u64) as u8,
        (v >> 32u64) as u8,
        (v >> 40u64) as u8,
        (v >> 48u64) as u8,
        (v >> 56u64) as u8,
    ]
}

pub open spec fn le16_at(s: Seq<u8>, p: int) -> u16 {
    (s[p] as u16) | ((s[p + 1] as u16) << 8u16)
}

pub open spec fn le32_at(s: Seq<u8>, p: int) -> u32 {
    (s[p] as u32) | ((s[p + 1] as u32) << 8u32) | ((s[p + 2] as u32) << 16u32) | ((s[p + 3] as u32) << 24u32)
}

pub open spec fn le64_at(s: Seq<u8>, p: int) -> u64 {
    (s[p] as u64) | ((s[p + 1] as u64) << 8u64) | ((s[p + 2] as u64) << 16u64) | ((s[p + 3] as u64) << 24u64)
        | ((s[p + 4] as u64) << 32u64) | ((s[p + 5] as u64) << 40u64) | ((s[p + 6] as u64) << 48u64) | ((
    s[p + 7] as u64) << 56u64)
}

pub fn push_le16(out: &mut Vec<u8>, v: u16)
    ensures
        final(out)@ == old(out)@ + le16_bytes(v),
{
    out.push(v as u8);
    out.push((v >> 8u16) as u8);
    assert(out@ =~= old(out)@ + le16_bytes(v));
}

pub fn push_le32(out: &mut Vec<u8>, v: u32)
    ensures
        final(out)@ == old(out)@ + le32_bytes(v),
{
    out.push(v as u8);
    out.push((v >> 8u32) as u8);
    out.push((v >> 16u32) as u8);
    out.push((v >> 24u32) as u8);
    assert(out@ =~= old(out)@ + le32_bytes(v));
}

pub fn push_le64(out: &mut Vec<u8>, v: u64)
    ensures
        final(out)@ == old(out)@ + le64_bytes(v),
{
    out.push(v as u8);
    out.push((v >> 8u64) as u8);
    out.push((v >> 16u64) as u8);
    out.push((v >> 24u64) as u8);
    out.push((v >> 32u64) as u8);
    out.push((v >> 40u64) as u8);
    out.push((v >> 48u64) as u8);
    out.push((v >> 56u64) as u8);
    assert(out@ =~= old(out)@ + le64_bytes(v));
}

pub fn push_bytes(out: &mut Vec<u8>, bytes: &[u8])
    ensures
        final(out)@ == old(out)@ + bytes@,
{
    let mut i: usize = 0;
    while i < bytes.len()
        invariant
            i <= bytes@.len(),
            out@ == old(out)@ + bytes@.subrange(0, i as int),
        decreases bytes@.len() - i,
    {
        out.push(bytes[i]);
        i = i + 1;
        assert(out@ =~= old(out)@ + bytes@.subrange(0, i as int));
    }
    assert(bytes@.subrange(0, bytes@.len() as int) =~= bytes@);
}

pub fn read_le16(s: &[u8], p: usize) -> (r: Option<u16>)
    ensures
        r is Some <==> p + 2 <= s@.len(),
        r matches Some(v) ==> v == le16_at(s@, p as int),
{
    if p > s.len() || s.len() - p < 2 {
        return None;
    }
    Some((s[p] as u16) | ((s[p + 1] as u16) << 8u16))
}

pub fn read_le32(s: &[u8], p: usize) -> (r: Option<u32>)
    ensures
        r is Some <==> p + 4 <= s@.len(),
        r matches Some(v) ==> v == le32_at(s@, p as int),
{
    if p > s.len() || s.len() - p < 4 {
        return None;
    }
    Some((s[p] as u32) | ((s[p + 1] as u32) << 8u32) | ((s[p + 2] as u32) << 16u32) | ((s[p + 3] as u32) << 24u32))
}

pub fn read_le64(s: &[u8], p: usize) -> (r: Option<u64>)
    ensures
        r is Some <==> p + 8 <= s@.len(),
        r matches Some(v) ==> v == le64_at(s@, p as int),
{
    if p > s.len() || s.len() - p < 8 {
        return None;
    }
    Some(
        (s[p] as u64) | ((s[p + 1] as u64) << 8u64) | ((s[p + 2] as u64) << 16u64) | ((s[p + 3] as u64) << 24u64)
            | ((s[p + 4] as u64) << 32u64) | ((s[p + 5] as u64) << 40u64) | ((s[p + 6] as u64) << 48u64) | ((s[p
            + 7] as u64) << 56u64),
    )
}


pub proof fn lemma_le16(s: Seq<u8>, p: int, v: u16)
    requires
        0 <= p,
        p + 2 <= s.len(),
        s[p] == v as u8,
        s[p + 1] == (v >> 8u16) as u8,
    ensures
        le16_at(s, p) == v,
{
    let a = s[p];
    let b = s[p + 1];
    assert((a as u16) | ((b as u16) << 8u16) == v) by (bit_vector)
        requires
            a == v as u8,
            b == (v >> 8u16) as u8,
    ;
}

pub proof fn lemma_le32(s: Seq<u8>, p: int, v: u32)
    requires
        0 <= p,
        p + 4 <= s.len(),
        s[p] == v as u8,
        s[p + 1] == (v >> 8u32) as u8,
        s[p + 2] == (v >> 16u32) as u8,
        s[p + 3] == (v >> 24u32) as u8,
    ensures
        le32_at(s, p) == v,
{
    let a = s[p];
    let b = s[p + 1];
    let c = s[p + 2];
    let d = s[p + 3];
    assert((a as u32) | ((b as u32) << 8u32) | ((c as u32) << 16u32) | ((d as u32) << 24u32) == v) by (bit_vector)
        requires
            a == v as u8,
            b == (v >> 8u32) as u8,
            c == (v >> 16u32) as u8,
            d == (v >> 24u32) as u8,
    ;
}

pub proof fn lemma_le64(s: Seq<u8>, p: int, v: u64)
    requires
        0 <= p,
        p + 8 <= s.len(),
        s[p] == v as u8,
        s[p + 1] == (v >> 8u64) as u8,
        s[p + 2] == (v >> 16u64) as u8,
        s[p + 3] == (v >> 24u64) as u8,
        s[p + 4] == (v >> 32u64) as u8,
        s[p + 5] == (v >> 40u64) as u8,
        s[p + 6] == (v >> 48u64) as u8,
        s[p + 7] == (v >> 56u64) as u8,
    ensures
        le64_at(s, p) == v,
{
    let b0 = s[p];
    let b1 = s[p + 1];
    let b2 = s[p + 2];
    let b3 = s[p + 3];
    let b4 = s[p + 4];
    let b5 = s[p + 5];
    let b6 = s[p + 6];
    let b7 = s[p + 7];
    assert((b0 as u64) | ((b1 as u64) << 8u64) | ((b2 as u64) << 16u64) | ((b3 as u64) << 24u64) | ((b4 as u64)
        << 32u64) | ((b5 as u64) << 40u64) | ((b6 as u64) << 48u64) | ((b7 as u64) << 56u64) == v) by (bit_vector)
        requires
            b0 == v as u8,
            b1 == (v >> 8u64) as u8,
            b2 == (v >> 16u64) as u8,
            b3 == (v >> 24u64) as u8,
            b4 == (v >> 32u64) as u8,
            b5 == (v >> 40u64) as u8,
            b6 == (v >> 48u64) as u8,
            b7 == (v >> 56u64) as u8,
    ;
}

/// Where `s` holds `e` at `p`, a field of `e` at offset `o` reads back.
pub proof fn lemma_le16_in(s: Seq<u8>, p: int, e: Seq<u8>, o: int, v: u16)
    requires
        0 <= p,
        p + e.len() <= s.len(),
        s.subrange(p, p + e.len()) == e,
        0 <= o,
        o + 2 <= e.len(),
        e[o] == v as u8,
        e[o + 1] == (v >> 8u16) as u8,
    ensures
        le16_at(s, p + o) == v,
{
    assert(s.subrange(p, p + e.len())[o] == s[p + o]);
    assert(s.subrange(p, p + e.len())[o + 1] == s[p + o + 1]);
    lemma_le16(s, p + o, v);
}

pub proof fn lemma_le32_in(s: Seq<u8>, p: int, e: Seq<u8>, o: int, v: u32)
    requires
        0 <= p,
        p + e.len() <= s.len(),
        s.subrange(p, p + e.len()) == e,
        0 <= o,
        o + 4 <= e.len(),
        e[o] == v as u8,
        e[o + 1] == (v >> 8u32) as u8,
        e[o + 2] == (v >> 16u32) as u8,
        e[o + 3] == (v >> 24u32) as u8,
    ensures
        le32_at(s, p + o) == v,
{
    assert(s.subrange(p, p + e.len())[o + 0] == s[p + o + 0]);
    assert(s.subrange(p, p + e.len())[o + 1] == s[p + o + 1]);
    assert(s.subrange(p, p + e.len())[o + 2] == s[p + o + 2]);
    assert(s.subrange(p, p + e.len())[o + 3] == s[p + o + 3]);
    lemma_le32(s, p + o, v);
}

pub proof fn lemma_le64_in(s: Seq<u8>, p: int, e: Seq<u8>, o: int, v: u64)
    requires
        0 <= p,
        p + e.len() <= s.len(),
        s.subrange(p, p + e.len()) == e,
        0 <= o,
        o + 8 <= e.len(),
        e[o] == v as u8,
        e[o + 1] == (v >> 8u64) as u8,
        e[o + 2] == (v >> 16u64) as u8,
        e[o + 3] == (v >> 24u64) as u8,
        e[o + 4] == (v >> 32u64) as u8,
        e[o + 5] == (v >> 40u64) as u8,
        e[o + 6] == (v >> 48u64) as u8,
        e[o + 7] == (v >> 56u64) as u8,
    ensures
        le64_at(s, p + o) == v,
{
    assert(s.subrange(p, p + e.len())[o + 0] == s[p + o + 0]);
    assert(s.subrange(p, p + e.len())[o + 1] == s[p + o + 1]);
    assert(s.subrange(p, p + e.len())[o + 2] == s[p + o + 2]);
    assert(s.subrange(p, p + e.len())[o + 3] == s[p + o + 3]);
    assert(s.subrange(p, p + e.len())[o + 4] == s[p + o + 4]);
    assert(s.subrange(p, p + e.len())[o + 5] == s[p + o + 5]);
    assert(s.subrange(p, p + e.len())[o + 6] == s[p + o + 6]);
    assert(s.subrange(p, p + e.len())[o + 7] == s[p + o + 7]);
    lemma_le64(s, p + o, v);
}

/// Where `s` holds `e` at `p`, its byte at offset `o` reads back.
pub proof fn lemma_byte_in(s: Seq<u8>, p: int, e: Seq<u8>, o: int)
    requires
        0 <= p,
        p + e.len() <= s.len(),
        s.subrange(p, p + e.len()) == e,
        0 <= o < e.len(),
    ensures
        s[p + o] == e[o],
{
    assert(s.subrange(p, p + e.len())[o] == s[p + o]);
}

/// Where `s` holds `a + b` at `p`, it holds `a` at `p` and `b` right after.
pub proof fn lemma_split(s: Seq<u8>, p: int, a: Seq<u8>, b: Seq<u8>)
    requires
        0 <= p,
        p + a.len() + b.len() <= s.len(),
        s.subrange(p, p + a.len() + b.len()) == a + b,
    ensures
        s.subrange(p, p + a.len()) == a,
        s.subrange(p + a.len(), p + a.len() + b.len()) == b,
{
    assert forall|i: int| 0 <= i < a.len() implies s.subrange(p, p + a.len())[i] == a[i] by {
        assert(s.subrange(p, p + a.len() + b.len())[i] == (a + b)[i]);
    }
    assert forall|i: int| 0 <= i < b.len() implies s.subrange(p + a.len(), p + a.len() + b.len())[i] == b[i] by {
        assert(s.subrange(p, p + a.len() + b.len())[a.len() + i] == (a + b)[a.len() + i]);
        assert(s.subrange(p, p + a.len() + b.len())[a.len() + i] == s[p + a.len() + i]);
        assert(s.subrange(p + a.len(), p + a.len() + b.len())[i] == s[p + a.len() + i]);
    }
    assert(s.subrange(p, p + a.len()) =~= a);
    assert(s.subrange(p + a.len(), p + a.len() + b.len()) =~= b);
}

/// A length-prefixed run of bytes.
pub open spec fn blob_bytes(b: Seq<u8>) -> Seq<u8> {
    le32_bytes(b.len() as u32) + b
}

/// The run at `p` of `s` and where it ends, when its length is `size` and
/// `s` holds all of it.
pub open spec fn dec_blob(s: Seq<u8>, p: int, size: int) -> Option<(Seq<u8>, int)> {
    if p < 0 || p + 4 > s.len() || le32_at(s, p) != size || p + 4 + size > s.len() {
        None
    } else {
        Some((s.subrange(p + 4, p + 4 + size), p + 4 + size))
    }
}

/// Appends `bytes` as a length-prefixed run.
pub fn push_blob(out: &mut Vec<u8>, bytes: &[u8])
    requires
        bytes@.len() <= u32::MAX,
    ensures
        final(out)@ == old(out)@ + blob_bytes(bytes@),
{
    push_le32(out, bytes.len() as u32);
    push_bytes(out, bytes);
    assert(out@ =~= old(out)@ + blob_bytes(bytes@));
}

/// Reads the run of `size` bytes at `p` (see `dec_blob`).
pub fn read_blob(s: &[u8], p: usize, size: usize) -> (r: Option<(Vec<u8>, usize)>)
    ensures
        r is Some <==> dec_blob(s@, p as int, size as int) is Some,
        r matches Some((v, q)) ==> dec_blob(s@, p as int, size as int) == Some((v@, q as int)),
{
    let n = s.len();
    let len = match read_le32(s, p) {
        Some(v) => v,
        None => return None,
    };
    if len as usize != size || n - (p + 4) < size {
        return None;
    }
    let mut v: Vec<u8> = Vec::new();
    let mut i: usize = 0;
    while i < size
        invariant
            i <= size,
            n == s@.len(),
            p + 4 + size <= n,
            v@ == s@.subrange(p + 4, p + 4 + i),
        decreases size - i,
    {
        v.push(s[p + 4 + i]);
        i = i + 1;
        assert(v@ =~= s@.subrange(p + 4, p + 4 + i));
    }
    Some((v, p + 4 + size))
}

/// A run written at `p` reads back at `p`.
pub proof fn lemma_blob_in(s: Seq<u8>, p: int, b: Seq<u8>)
    requires
        b.len() <= u32::MAX,
        0 <= p,
        p + 4 + b.len() <= s.len(),
        s.subrange(p, p + 4 + b.len()) == blob_bytes(b),
    ensures
        dec_blob(s, p, b.len() as int) == Some((b, p + 4 + b.len())),
{
    let l = le32_bytes(b.len() as u32);
    lemma_split(s, p, l, b);
    lemma_le32_in(s, p, l, 0, b.len() as u32);
}

} // verus!
