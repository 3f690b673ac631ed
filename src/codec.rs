//! The canonical byte encoding: fixed-width big-endian integers, raw byte
//! strings of known length and length-prefixed byte strings.
//!
//! Each encoder appends to a buffer and says which bytes it appended; each
//! decoder follows a spec parser that consumes a prefix and hands back the rest.
use vstd::prelude::*;

verus! {

/// Big-endian bytes of a 64-bit integer.
pub open spec fn be64(x: u64) -> Seq<u8> {
    seq![
        (x >> 56u64) as u8,
        (x >> 48u64) as u8,
        (x >> 40u64) as u8,
        (x >> 32u64) as u8,
        (x >> 24u64) as u8,
        (x >> 16u64) as u8,
        (x >> 8u64) as u8,
        x as u8,
    ]
}

/// Little-endian bytes of a 64-bit integer.
pub open spec fn le64(x: u64) -> Seq<u8> {
    seq![
        x as u8,
        (x >> 8u64) as u8,
        (x >> 16u64) as u8,
        (x >> 24u64) as u8,
        (x >> 32u64) as u8,
        (x >> 40u64) as u8,
        (x >> 48u64) as u8,
        (x >> 56u64) as u8,
    ]
}

/// The integer whose big-endian bytes start `s`.
pub open spec fn from_be64(s: Seq<u8>) -> u64 {
    ((s[0] as u64) << 56u64) | ((s[1] as u64) << 48u64) | ((s[2] as u64) << 40u64) | ((
    s[3] as u64) << 32u64) | ((s[4] as u64) << 24u64) | ((s[5] as u64) << 16u64) | ((s[6] as u64)
        << 8u64) | (s[7] as u64)
}

/// A byte string preceded by its length.
pub open spec fn enc_bytes(b: Seq<u8>) -> Seq<u8> {
    be64(b.len() as u64) + b
}

/// Reads a 64-bit integer off the front of `s`.
pub open spec fn parse_u64(s: Seq<u8>) -> Option<(u64, Seq<u8>)> {
    if s.len() >= 8 {
        Some((from_be64(s), s.skip(8)))
    } else {
        None
    }
}

/// Reads `n` raw bytes off the front of `s`.
pub open spec fn parse_raw(s: Seq<u8>, n: nat) -> Option<(Seq<u8>, Seq<u8>)> {
    if s.len() >= n {
        Some((s.take(n as int), s.skip(n as int)))
    } else {
        None
    }
}

/// Reads a length-prefixed byte string off the front of `s`.
pub open spec fn parse_bytes(s: Seq<u8>) -> Option<(Seq<u8>, Seq<u8>)> {
    match parse_u64(s) {
        Some((n, rest)) => parse_raw(rest, n as nat),
        None => None,
    }
}

pub proof fn lemma_be64_roundtrip(x: u64)
    ensures
        from_be64(be64(x)) == x,
{
    let s = be64(x);
    assert(((((x >> 56u64) as u8) as u64) << 56u64) | ((((x >> 48u64) as u8) as u64) << 48u64)
        | ((((x >> 40u64) as u8) as u64) << 40u64) | ((((x >> 32u64) as u8) as u64) << 32u64) | ((((
    x >> 24u64) as u8) as u64) << 24u64) | ((((x >> 16u64) as u8) as u64) << 16u64) | ((((x
        >> 8u64) as u8) as u64) << 8u64) | ((x as u8) as u64) == x) by (bit_vector);
}

pub proof fn lemma_parse_u64(x: u64, tail: Seq<u8>)
    ensures
        parse_u64(be64(x) + tail) == Some((x, tail)),
{
    let s = be64(x) + tail;
    lemma_be64_roundtrip(x);
    assert(s.take(8) =~= be64(x));
    assert(s.skip(8) =~= tail);
    assert(from_be64(s) == from_be64(be64(x)));
}

pub proof fn lemma_parse_raw(b: Seq<u8>, tail: Seq<u8>)
    ensures
        parse_raw(b + tail, b.len()) == Some((b, tail)),
{
    let s = b + tail;
    assert(s.take(b.len() as int) =~= b);
    assert(s.skip(b.len() as int) =~= tail);
}

pub proof fn lemma_parse_bytes(b: Seq<u8>, tail: Seq<u8>)
    requires
        b.len() <= u64::MAX,
    ensures
        parse_bytes(enc_bytes(b) + tail) == Some((b, tail)),
{
    assert(enc_bytes(b) + tail =~= be64(b.len() as u64) + (b + tail));
    lemma_parse_u64(b.len() as u64, b + tail);
    lemma_parse_raw(b, tail);
}

/// Appends the big-endian bytes of `x`.
pub fn put_u64(out: &mut Vec<u8>, x: u64)
    ensures
        final(out)@ == old(out)@ + be64(x),
{
    out.push((x >> 56u64) as u8);
    out.push((x >> 48u64) as u8);
    out.push((x >> 40u64) as u8);
    out.push((x >> 32u64) as u8);
    out.push((x >> 24u64) as u8);
    out.push((x >> 16u64) as u8);
    out.push((x >> 8u64) as u8);
    out.push(x as u8);
    assert(out@ =~= old(out)@ + be64(x));
}

/// Appends the little-endian bytes of `x`.
pub fn put_u64_le(out: &mut Vec<u8>, x: u64)
    ensures
        final(out)@ == old(out)@ + le64(x),
{
    out.push(x as u8);
    out.push((x >> 8u64) as u8);
    out.push((x >> 16u64) as u8);
    out.push((x >> 24u64) as u8);
    out.push((x >> 32u64) as u8);
    out.push((x >> 40u64) as u8);
    out.push((x >> 48u64) as u8);
    out.push((x >> 56u64) as u8);
    assert(out@ =~= old(out)@ + le64(x));
}

/// Appends raw bytes.
pub fn put_raw(out: &mut Vec<u8>, b: &[u8])
    ensures
        final(out)@ == old(out)@ + b@,
{
    let ghost start = out@;
    let mut i: usize = 0;
    while i < b.len()
        invariant
            i <= b@.len(),
            out@ == start + b@.take(i as int),
        decreases b@.len() - i,
    {
        out.push(b[i]);
        i = i + 1;
        assert(out@ =~= start + b@.take(i as int));
    }
    assert(b@.take(i as int) =~= b@);
}

/// Appends a byte string preceded by its length.
pub fn put_bytes(out: &mut Vec<u8>, b: &[u8])
    ensures
        final(out)@ == old(out)@ + enc_bytes(b@),
{
    put_u64(out, b.len() as u64);
    put_raw(out, b);
    assert(out@ =~= old(out)@ + enc_bytes(b@));
}

/// Reads a 64-bit integer at `pos`, returning it and the position after it.
pub fn read_u64(buf: &[u8], pos: usize) -> (r: Option<(u64, usize)>)
    requires
        pos <= buf@.len(),
    ensures
        match parse_u64(buf@.skip(pos as int)) {
            None => r is None,
            Some((v, rest)) => r matches Some((w, p)) && w == v && p == pos + 8 && p <= buf@.len()
                && rest == buf@.skip(p as int),
        },
{
    if buf.len() - pos < 8 {
        return None;
    }
    let s = Ghost(buf@.skip(pos as int));
    let v = ((buf[pos] as u64) << 56u64) | ((buf[pos + 1] as u64) << 48u64) | ((buf[pos
        + 2] as u64) << 40u64) | ((buf[pos + 3] as u64) << 32u64) | ((buf[pos + 4] as u64)
        << 24u64) | ((buf[pos + 5] as u64) << 16u64) | ((buf[pos + 6] as u64) << 8u64) | (buf[pos
        + 7] as u64);
    assert(s@[0] == buf@[pos as int] && s@[1] == buf@[pos + 1] && s@[2] == buf@[pos + 2] && s@[3]
        == buf@[pos + 3] && s@[4] == buf@[pos + 4] && s@[5] == buf@[pos + 5] && s@[6] == buf@[pos
        + 6] && s@[7] == buf@[pos + 7]);
    assert(s@.skip(8) =~= buf@.skip(pos + 8));
    Some((v, pos + 8))
}

/// Reads `n` raw bytes at `pos`.
pub fn read_raw(buf: &[u8], pos: usize, n: usize) -> (r: Option<(Vec<u8>, usize)>)
    requires
        pos <= buf@.len(),
    ensures
        match parse_raw(buf@.skip(pos as int), n as nat) {
            None => r is None,
            Some((v, rest)) => r matches Some((w, p)) && w@ == v && p == pos + n && p <= buf@.len()
                && rest == buf@.skip(p as int),
        },
{
    let len = buf.len();
    if len - pos < n {
        return None;
    }
    let mut out: Vec<u8> = Vec::with_capacity(n);
    let mut i: usize = 0;
    while i < n
        invariant
            len == buf@.len(),
            pos + n <= buf@.len(),
            i <= n,
            out@ == buf@.subrange(pos as int, pos + i),
        decreases n - i,
    {
        out.push(buf[pos + i]);
        i = i + 1;
        assert(out@ =~= buf@.subrange(pos as int, pos + i));
    }
    assert(buf@.skip(pos as int).take(n as int) =~= out@);
    assert(buf@.skip(pos as int).skip(n as int) =~= buf@.skip(pos + n));
    Some((out, pos + n))
}

/// Reads a length-prefixed byte string at `pos`.
pub fn read_bytes(buf: &[u8], pos: usize) -> (r: Option<(Vec<u8>, usize)>)
    requires
        pos <= buf@.len(),
    ensures
        match parse_bytes(buf@.skip(pos as int)) {
            None => r is None,
            Some((v, rest)) => r matches Some((w, p)) && w@ == v && p <= buf@.len() && rest
                == buf@.skip(p as int),
        },
{
    let len = buf.len();
    let (n, p) = match read_u64(buf, pos) {
        None => return None,
        Some(x) => x,
    };
    if n > usize::MAX as u64 {
        assert(buf@.skip(p as int).len() < n);
        return None;
    }
    read_raw(buf, p, n as usize)
}

} // verus!
