//! Reading fields one after another off the front of a buffer.
//!
//! A control message is a run of fields with nothing between them, so its
//! grammar is easiest to state as readers that each take the bytes still
//! unread and hand back a value with the bytes after it. The executable
//! readers here take the whole buffer and a position; their specifications
//! speak of the bytes from that position on.

use vstd::prelude::*;
use crate::error::CodecError;
use crate::varint::{spec_varint_at, spec_varint_encode, spec_varint_len, spec_varint_value, VarInt, VARINT_BOUND, lemma_varint_roundtrip};
use crate::wire::{read_bytes, read_varint, varint_end};

verus! {

/// A variable-length integer at the front of `s`, with the bytes after it.
pub open spec fn rd_varint(s: Seq<u8>) -> Result<(u64, Seq<u8>), CodecError> {
    match spec_varint_at(s, 0) {
        Some((v, q)) => Ok((v, s.skip(q))),
        None => Err(varint_end()),
    }
}

/// The byte at the front of `s`, with the bytes after it.
pub open spec fn rd_u8(s: Seq<u8>) -> Result<(u8, Seq<u8>), CodecError> {
    if s.len() >= 1 {
        Ok((s[0], s.skip(1)))
    } else {
        Err(CodecError::UnexpectedEnd)
    }
}

/// The first `len` bytes of `s`, with the bytes after them.
pub open spec fn rd_bytes(s: Seq<u8>, len: u64) -> Result<(Seq<u8>, Seq<u8>), CodecError> {
    if len <= s.len() {
        Ok((s.take(len as int), s.skip(len as int)))
    } else {
        Err(CodecError::UnexpectedEnd)
    }
}

/// A length and that many bytes at the front of `s`.
pub open spec fn rd_len_bytes(s: Seq<u8>) -> Result<(Seq<u8>, Seq<u8>), CodecError> {
    match rd_varint(s) {
        Err(e) => Err(e),
        Ok((len, s1)) => rd_bytes(s1, len),
    }
}

/// A length and that many bytes, the length refused above `max` with `err`
/// before any of the bytes is looked for.
pub open spec fn rd_capped_bytes(s: Seq<u8>, max: u64, err: CodecError) -> Result<(Seq<u8>, Seq<u8>), CodecError> {
    match rd_varint(s) {
        Err(e) => Err(e),
        Ok((len, s1)) => if len > max {
            Err(err)
        } else {
            rd_bytes(s1, len)
        },
    }
}

/// A run of bytes as written with its length before it.
pub open spec fn enc_len_bytes(b: Seq<u8>) -> Seq<u8> {
    spec_varint_encode(b.len() as u64) + b
}

/// Reading an integer at `p` of `s` is reading it at the front of what
/// follows `p`.
pub proof fn lemma_varint_at_skip(s: Seq<u8>, p: int)
    requires
        0 <= p <= s.len(),
    ensures
        spec_varint_at(s.skip(p), 0) == match spec_varint_at(s, p) {
            Some((v, q)) => Some((v, q - p)),
            None => None::<(u64, int)>,
        },
{
    reveal(spec_varint_value);
    let t = s.skip(p);
    if p < s.len() {
        assert(t[0] == s[p]);
        let len = spec_varint_len(s[p]);
        if p + len <= s.len() {
            if len >= 2 {
                assert(t[1] == s[p + 1]);
            }
            if len >= 4 {
                assert(t[2] == s[p + 2] && t[3] == s[p + 3]);
            }
            if len == 8 {
                assert(t[4] == s[p + 4] && t[5] == s[p + 5]);
                assert(t[6] == s[p + 6] && t[7] == s[p + 7]);
            }
        }
    }
}

/// The encoding of an integer is read back as the integer, whatever follows.
pub broadcast proof fn lemma_rd_varint_encode(v: u64, rest: Seq<u8>)
    requires
        v < VARINT_BOUND,
    ensures
        #[trigger] rd_varint(spec_varint_encode(v) + rest) == Ok::<(u64, Seq<u8>), CodecError>((v, rest)),
{
    lemma_varint_roundtrip(Seq::empty(), v, rest);
    let e = spec_varint_encode(v);
    assert(Seq::<u8>::empty() + e + rest =~= e + rest);
    assert((e + rest).skip(e.len() as int) =~= rest);
}

/// The encoding of an integer alone is read back as the integer.
pub broadcast proof fn lemma_rd_varint_encode_alone(v: u64)
    requires
        v < VARINT_BOUND,
    ensures
        #[trigger] rd_varint(spec_varint_encode(v)) == Ok::<(u64, Seq<u8>), CodecError>((v, Seq::empty())),
{
    lemma_rd_varint_encode(v, Seq::empty());
    assert(spec_varint_encode(v) + Seq::<u8>::empty() =~= spec_varint_encode(v));
}

/// A byte is read back as itself, whatever follows.
pub broadcast proof fn lemma_rd_u8_push(b: u8, rest: Seq<u8>)
    ensures
        #[trigger] rd_u8(seq![b] + rest) == Ok::<(u8, Seq<u8>), CodecError>((b, rest)),
{
    assert((seq![b] + rest).skip(1) =~= rest);
}

/// A run of bytes is read back as itself, whatever follows.
pub broadcast proof fn lemma_rd_bytes_front(b: Seq<u8>, rest: Seq<u8>)
    requires
        b.len() <= u64::MAX,
    ensures
        #[trigger] rd_bytes(b + rest, b.len() as u64) == Ok::<(Seq<u8>, Seq<u8>), CodecError>((b, rest)),
{
    assert((b + rest).take(b.len() as int) =~= b);
    assert((b + rest).skip(b.len() as int) =~= rest);
}

/// A run of bytes alone is read back as itself.
pub broadcast proof fn lemma_rd_bytes_alone(b: Seq<u8>)
    requires
        b.len() <= u64::MAX,
    ensures
        #[trigger] rd_bytes(b, b.len() as u64) == Ok::<(Seq<u8>, Seq<u8>), CodecError>((b, Seq::empty())),
{
    assert(b.take(b.len() as int) =~= b);
    assert(b.skip(b.len() as int) =~= Seq::<u8>::empty());
}

/// A length-prefixed run of bytes is read back as itself, whatever follows.
pub proof fn lemma_rd_len_bytes(b: Seq<u8>, rest: Seq<u8>)
    requires
        b.len() < VARINT_BOUND,
    ensures
        rd_len_bytes(enc_len_bytes(b) + rest) == Ok::<(Seq<u8>, Seq<u8>), CodecError>((b, rest)),
        rd_len_bytes(enc_len_bytes(b)) == Ok::<(Seq<u8>, Seq<u8>), CodecError>((b, Seq::empty())),
{
    let l = spec_varint_encode(b.len() as u64);
    assert(enc_len_bytes(b) + rest =~= l + (b + rest));
    lemma_rd_varint_encode(b.len() as u64, b + rest);
    lemma_rd_bytes_front(b, rest);
    lemma_rd_varint_encode(b.len() as u64, b);
    lemma_rd_bytes_alone(b);
}

pub broadcast group group_cursor {
    lemma_rd_varint_encode,
    lemma_rd_varint_encode_alone,
    lemma_rd_u8_push,
    lemma_rd_bytes_front,
    lemma_rd_bytes_alone,
}

/// Read a variable-length integer at `pos`.
pub fn cur_varint(buf: &[u8], pos: usize) -> (r: Result<(VarInt, usize), CodecError>)
    requires
        pos <= buf@.len(),
    ensures
        match rd_varint(buf@.skip(pos as int)) {
            Ok((v, rest)) => (r matches Ok((x, n)) && x@ == v && pos <= n <= buf@.len()
                && buf@.skip(n as int) == rest),
            Err(e) => r == Err::<(VarInt, usize), CodecError>(e),
        },
{
    proof {
        lemma_varint_at_skip(buf@, pos as int);
    }
    let (x, n) = read_varint(buf, pos)?;
    proof {
        assert(buf@.skip(pos as int).skip(n - pos) =~= buf@.skip(n as int));
    }
    Ok((x, n))
}

/// Read one byte at `pos`.
pub fn cur_u8(buf: &[u8], pos: usize) -> (r: Result<(u8, usize), CodecError>)
    requires
        pos <= buf@.len(),
    ensures
        match rd_u8(buf@.skip(pos as int)) {
            Ok((v, rest)) => (r matches Ok((x, n)) && x == v && pos <= n <= buf@.len()
                && buf@.skip(n as int) == rest),
            Err(e) => r == Err::<(u8, usize), CodecError>(e),
        },
{
    if pos >= buf.len() {
        return Err(CodecError::UnexpectedEnd);
    }
    proof {
        assert(buf@.skip(pos as int).skip(1) =~= buf@.skip(pos + 1));
    }
    Ok((buf[pos], pos + 1))
}

/// Copy `len` bytes at `pos`.
pub fn cur_bytes(buf: &[u8], pos: usize, len: u64) -> (r: Result<(Vec<u8>, usize), CodecError>)
    requires
        pos <= buf@.len(),
    ensures
        match rd_bytes(buf@.skip(pos as int), len) {
            Ok((v, rest)) => (r matches Ok((x, n)) && x@ == v && pos <= n <= buf@.len()
                && buf@.skip(n as int) == rest),
            Err(e) => r == Err::<(Vec<u8>, usize), CodecError>(e),
        },
{
    let (x, n) = read_bytes(buf, pos, len)?;
    proof {
        assert(buf@.skip(pos as int).take(len as int) =~= buf@.subrange(pos as int, n as int));
        assert(buf@.skip(pos as int).skip(len as int) =~= buf@.skip(n as int));
    }
    Ok((x, n))
}

/// Read a length and that many bytes at `pos`.
pub fn cur_len_bytes(buf: &[u8], pos: usize) -> (r: Result<(Vec<u8>, usize), CodecError>)
    requires
        pos <= buf@.len(),
    ensures
        match rd_len_bytes(buf@.skip(pos as int)) {
            Ok((v, rest)) => (r matches Ok((x, n)) && x@ == v && pos <= n <= buf@.len()
                && buf@.skip(n as int) == rest),
            Err(e) => r == Err::<(Vec<u8>, usize), CodecError>(e),
        },
{
    let (len, p1) = cur_varint(buf, pos)?;
    cur_bytes(buf, p1, len.into_inner())
}

/// Read a length and that many bytes at `pos`, refusing a length above
/// `max` with `err`.
pub fn cur_capped_bytes(buf: &[u8], pos: usize, max: u64, err: CodecError) -> (r: Result<(Vec<u8>, usize), CodecError>)
    requires
        pos <= buf@.len(),
    ensures
        match rd_capped_bytes(buf@.skip(pos as int), max, err) {
            Ok((v, rest)) => (r matches Ok((x, n)) && x@ == v && pos <= n <= buf@.len()
                && buf@.skip(n as int) == rest),
            Err(e) => r == Err::<(Vec<u8>, usize), CodecError>(e),
        },
{
    let (len, p1) = cur_varint(buf, pos)?;
    if len.into_inner() > max {
        return Err(err);
    }
    cur_bytes(buf, p1, len.into_inner())
}

} // verus!
