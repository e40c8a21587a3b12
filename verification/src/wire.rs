//! Reading and writing the primitive fields every frame is built from: a
//! variable-length integer, a single byte, and a run of bytes whose length
//! was read before it.
//!
//! Each reader takes the whole buffer and the position to read at, and hands
//! back the position just past what it read. Its specification is the
//! matching `spec_*_at` function over `Seq<u8>`.

use vstd::prelude::*;
use crate::error::{CodecError, VarIntError};
use crate::varint::{
    lemma_varint_at_agree, lemma_varint_roundtrip, spec_varint_at, spec_varint_encode, spec_varint_len,
    VarInt, VARINT_BOUND,
};

verus! {

/// The error a variable-length integer that runs past the buffer reports.
pub open spec fn varint_end() -> CodecError {
    CodecError::VarInt(VarIntError::UnexpectedEnd)
}

/// The byte at `p`, with the position after it.
pub open spec fn spec_u8_at(s: Seq<u8>, p: int) -> Option<(u8, int)> {
    if 0 <= p < s.len() {
        Some((s[p], p + 1))
    } else {
        None
    }
}

/// The `len` bytes starting at `p`, with the position after them.
pub open spec fn spec_bytes_at(s: Seq<u8>, p: int, len: u64) -> Option<(Seq<u8>, int)> {
    if 0 <= p <= s.len() && p + len <= s.len() {
        Some((s.subrange(p, p + len), p + len))
    } else {
        None
    }
}

/// A variable-length integer at `p` when `present`, and nothing otherwise.
pub open spec fn spec_opt_varint_at(s: Seq<u8>, p: int, present: bool) -> Option<(Option<u64>, int)> {
    if present {
        match spec_varint_at(s, p) {
            Some((v, q)) => Some((Some(v), q)),
            None => None,
        }
    } else {
        Some((None, p))
    }
}

/// Read a variable-length integer at `pos`.
pub fn read_varint(buf: &[u8], pos: usize) -> (r: Result<(VarInt, usize), CodecError>)
    ensures
        match spec_varint_at(buf@, pos as int) {
            Some((v, q)) => (r matches Ok((x, n)) && x@ == v && n == q),
            None => r == Err::<(VarInt, usize), CodecError>(varint_end()),
        },
{
    match VarInt::decode_at(buf, pos) {
        Ok(pair) => Ok(pair),
        Err(e) => Err(CodecError::VarInt(e)),
    }
}

/// Read a variable-length integer at `pos` and hand back its value.
pub fn read_varint_u64(buf: &[u8], pos: usize) -> (r: Result<(u64, usize), CodecError>)
    ensures
        match spec_varint_at(buf@, pos as int) {
            Some((v, q)) => (r matches Ok((x, n)) && x == v && n == q),
            None => r == Err::<(u64, usize), CodecError>(varint_end()),
        },
        r matches Ok((v, _)) ==> v < VARINT_BOUND,
{
    match VarInt::decode_at(buf, pos) {
        Ok((x, n)) => Ok((x.into_inner(), n)),
        Err(e) => Err(CodecError::VarInt(e)),
    }
}

/// Read the single byte at `pos`.
pub fn read_u8(buf: &[u8], pos: usize) -> (r: Result<(u8, usize), CodecError>)
    ensures
        match spec_u8_at(buf@, pos as int) {
            Some((b, q)) => (r matches Ok((x, n)) && x == b && n == q),
            None => r == Err::<(u8, usize), CodecError>(CodecError::UnexpectedEnd),
        },
{
    if pos < buf.len() {
        Ok((buf[pos], pos + 1))
    } else {
        Err(CodecError::UnexpectedEnd)
    }
}

/// Copy the `len` bytes starting at `pos`.
pub fn read_bytes(buf: &[u8], pos: usize, len: u64) -> (r: Result<(Vec<u8>, usize), CodecError>)
    ensures
        match spec_bytes_at(buf@, pos as int, len) {
            Some((b, q)) => (r matches Ok((v, n)) && v@ == b && n == q),
            None => r == Err::<(Vec<u8>, usize), CodecError>(CodecError::UnexpectedEnd),
        },
{
    if pos > buf.len() || len > (buf.len() - pos) as u64 {
        return Err(CodecError::UnexpectedEnd);
    }
    let end = pos + len as usize;
    let mut out: Vec<u8> = Vec::new();
    let mut i = pos;
    while i < end
        invariant
            pos <= i <= end <= buf.len(),
            end == pos + len,
            out@ == buf@.subrange(pos as int, i as int),
        decreases end - i,
    {
        out.push(buf[i]);
        i = i + 1;
        assert(out@ =~= buf@.subrange(pos as int, i as int));
    }
    Ok((out, end))
}

/// Step over the `len` bytes starting at `pos` without copying them.
pub fn skip(buf: &[u8], pos: usize, len: u64) -> (r: Result<usize, CodecError>)
    ensures
        match spec_bytes_at(buf@, pos as int, len) {
            Some((_, q)) => (r matches Ok(n) && n == q),
            None => r == Err::<usize, CodecError>(CodecError::UnexpectedEnd),
        },
{
    if pos > buf.len() || len > (buf.len() - pos) as u64 {
        return Err(CodecError::UnexpectedEnd);
    }
    Ok(pos + len as usize)
}

/// Append `data` to `buf`.
pub fn put_slice(buf: &mut Vec<u8>, data: &[u8])
    ensures
        final(buf)@ == old(buf)@ + data@,
{
    let mut i: usize = 0;
    while i < data.len()
        invariant
            i <= data.len(),
            buf@ == old(buf)@ + data@.subrange(0, i as int),
        decreases data.len() - i,
    {
        buf.push(data[i]);
        i = i + 1;
        assert(buf@ =~= old(buf)@ + data@.subrange(0, i as int));
    }
    assert(data@.subrange(0, data@.len() as int) =~= data@);
}

/// Reading a run of bytes looks only at the bytes it covers.
pub proof fn lemma_bytes_roundtrip(pre: Seq<u8>, b: Seq<u8>, post: Seq<u8>)
    requires
        b.len() <= u64::MAX,
    ensures
        spec_bytes_at(pre + b + post, pre.len() as int, b.len() as u64) == Some(
            (b, (pre.len() + b.len()) as int),
        ),
{
    assert((pre + b + post).subrange(pre.len() as int, (pre.len() + b.len()) as int) =~= b);
}

/// A single byte is read back as itself, whatever surrounds it.
pub proof fn lemma_u8_roundtrip(pre: Seq<u8>, b: u8, post: Seq<u8>)
    ensures
        spec_u8_at(pre + seq![b] + post, pre.len() as int) == Some((b, pre.len() + 1int)),
{
    assert((pre + seq![b] + post)[pre.len() as int] == b);
}

/// `a` is a prefix of `s`.
pub open spec fn spec_is_prefix(a: Seq<u8>, s: Seq<u8>) -> bool {
    &&& a.len() <= s.len()
    &&& forall|i: int| 0 <= i < a.len() ==> s[i] == #[trigger] a[i]
}

/// A sequence is a prefix of itself followed by anything.
pub proof fn lemma_prefix_of_add(a: Seq<u8>, b: Seq<u8>)
    ensures
        spec_is_prefix(a, a + b),
{
}

/// Being a prefix is transitive.
pub proof fn lemma_prefix_trans(a: Seq<u8>, b: Seq<u8>, c: Seq<u8>)
    requires
        spec_is_prefix(a, b),
        spec_is_prefix(b, c),
    ensures
        spec_is_prefix(a, c),
{
    assert forall|i: int| 0 <= i < a.len() implies c[i] == #[trigger] a[i] by {
        assert(b[i] == a[i]);
    }
}

/// A successful read of an integer is not changed by more bytes after it.
pub proof fn lemma_varint_at_prefix(a: Seq<u8>, s: Seq<u8>, p: int)
    requires
        spec_is_prefix(a, s),
        spec_varint_at(a, p) is Some,
    ensures
        spec_varint_at(s, p) == spec_varint_at(a, p),
{
    assert(a[p] == s[p]);
    lemma_varint_at_agree(a, s, p);
}

/// A successful read of a byte is not changed by more bytes after it.
pub proof fn lemma_u8_at_prefix(a: Seq<u8>, s: Seq<u8>, p: int)
    requires
        spec_is_prefix(a, s),
        spec_u8_at(a, p) is Some,
    ensures
        spec_u8_at(s, p) == spec_u8_at(a, p),
{
    assert(a[p] == s[p]);
}

/// A successful read of a run of bytes is not changed by more bytes after it.
pub proof fn lemma_bytes_at_prefix(a: Seq<u8>, s: Seq<u8>, p: int, len: u64)
    requires
        spec_is_prefix(a, s),
        spec_bytes_at(a, p, len) is Some,
    ensures
        spec_bytes_at(s, p, len) == spec_bytes_at(a, p, len),
{
    assert(s.subrange(p, p + len) =~= a.subrange(p, p + len));
}

/// The encoding of an integer is read back as the integer.
pub proof fn lemma_varint_encoded(pre: Seq<u8>, v: u64)
    requires
        v < VARINT_BOUND,
    ensures
        spec_varint_at(pre + spec_varint_encode(v), pre.len() as int) == Some(
            (v, (pre + spec_varint_encode(v)).len() as int),
        ),
{
    lemma_varint_roundtrip(pre, v, Seq::empty());
    assert(pre + spec_varint_encode(v) + Seq::<u8>::empty() =~= pre + spec_varint_encode(v));
}

/// A byte is read back as itself.
pub proof fn lemma_u8_encoded(pre: Seq<u8>, b: u8)
    ensures
        spec_u8_at(pre + seq![b], pre.len() as int) == Some((b, (pre + seq![b]).len() as int)),
{
    assert((pre + seq![b])[pre.len() as int] == b);
}

/// A run of bytes is read back as itself.
pub proof fn lemma_bytes_encoded(pre: Seq<u8>, b: Seq<u8>)
    requires
        b.len() <= u64::MAX,
    ensures
        spec_bytes_at(pre + b, pre.len() as int, b.len() as u64) == Some(
            (b, (pre + b).len() as int),
        ),
{
    assert((pre + b).subrange(pre.len() as int, (pre + b).len() as int) =~= b);
}

/// The extension block at `p` when the stream carries one: a length, then
/// that many bytes.
pub open spec fn spec_read_extensions(ext: bool, s: Seq<u8>, p: int) -> Result<(Seq<u8>, int), CodecError> {
    if !ext {
        Ok((Seq::empty(), p))
    } else {
        match spec_varint_at(s, p) {
            None => Err(varint_end()),
            Some((len, q)) => match spec_bytes_at(s, q, len) {
                None => Err(CodecError::UnexpectedEnd),
                Some((b, r)) => Ok((b, r)),
            },
        }
    }
}


/// An extension block as written on a stream whose objects carry one: its
/// length, then its bytes; nothing on a stream whose objects carry none.
pub open spec fn spec_encode_extensions(ext: bool, x: Seq<u8>) -> Seq<u8> {
    if ext {
        spec_varint_encode(x.len() as u64) + x
    } else {
        Seq::empty()
    }
}


pub fn encode_extensions(ext: bool, x: &Vec<u8>, buf: &mut Vec<u8>)
    requires
        x@.len() < VARINT_BOUND,
    ensures
        final(buf)@ == old(buf)@ + spec_encode_extensions(ext, x@),
{
    let ghost start = buf@;
    if ext {
        VarInt::from_usize(x.len()).encode(buf);
        put_slice(buf, x.as_slice());
        assert(buf@ =~= start + spec_encode_extensions(ext, x@));
    } else {
        assert(buf@ =~= start + spec_encode_extensions(ext, x@));
    }
}


pub fn read_extensions(ext: bool, buf: &[u8], pos: usize) -> (r: Result<(Vec<u8>, usize), CodecError>)
    ensures
        match spec_read_extensions(ext, buf@, pos as int) {
            Ok((b, q)) => (r matches Ok((v, n)) && v@ == b && n == q),
            Err(e) => r == Err::<(Vec<u8>, usize), CodecError>(e),
        },
{
    if ext {
        let (ext_len, q) = read_varint_u64(buf, pos)?;
        read_bytes(buf, q, ext_len)
    } else {
        Ok((Vec::new(), pos))
    }
}

pub fn skip_extensions(ext: bool, buf: &[u8], pos: usize) -> (r: Result<(u64, usize), CodecError>)
    ensures
        match spec_read_extensions(ext, buf@, pos as int) {
            Ok((b, q)) => (r matches Ok((l, n)) && l == b.len() && n == q),
            Err(e) => r == Err::<(u64, usize), CodecError>(e),
        },
{
    if ext {
        let (ext_len, q) = read_varint_u64(buf, pos)?;
        let q2 = skip(buf, q, ext_len)?;
        Ok((ext_len, q2))
    } else {
        Ok((0, pos))
    }
}


/// The extension block an object writer writes is read
/// back as the same block.
pub proof fn lemma_extensions_roundtrip(ext: bool, pre: Seq<u8>, x: Seq<u8>, post: Seq<u8>)
    requires
        x.len() < VARINT_BOUND,
        !ext ==> x.len() == 0,
    ensures
        ({
            let e = if ext {
                spec_varint_encode(x.len() as u64) + x
            } else {
                Seq::<u8>::empty()
            };
            spec_read_extensions(ext, pre + e + post, pre.len() as int) == Ok::<
                (Seq<u8>, int),
                CodecError,
            >((x, (pre.len() + e.len()) as int))
        }),
{
    if ext {
        let el = spec_varint_encode(x.len() as u64);
        let s = pre + (el + x) + post;
        assert(s =~= pre + el + (x + post));
        lemma_varint_roundtrip(pre, x.len() as u64, x + post);
        assert(s =~= (pre + el) + x + post);
        lemma_bytes_roundtrip(pre + el, x, post);
    } else {
        assert(x =~= Seq::<u8>::empty());
        assert(pre + Seq::<u8>::empty() + post =~= pre + post);
    }
}


/// A successful read of an extension block is not changed by more bytes
/// after it.
pub proof fn lemma_read_extensions_prefix(ext: bool, a: Seq<u8>, s: Seq<u8>, p: int)
    requires
        spec_is_prefix(a, s),
        spec_read_extensions(ext, a, p) is Ok,
    ensures
        spec_read_extensions(ext, s, p) == spec_read_extensions(ext, a, p),
{
    if ext {
        lemma_varint_at_prefix(a, s, p);
        let (len, q) = spec_varint_at(a, p)->Some_0;
        lemma_bytes_at_prefix(a, s, q, len);
    }
}


/// An extension block as written is read back as written.
pub proof fn lemma_extensions_encoded(ext: bool, pre: Seq<u8>, x: Seq<u8>)
    requires
        x.len() < VARINT_BOUND,
        !ext ==> x.len() == 0,
    ensures
        spec_read_extensions(ext, pre + spec_encode_extensions(ext, x), pre.len() as int) == Ok::<
            (Seq<u8>, int),
            CodecError,
        >((x, (pre + spec_encode_extensions(ext, x)).len() as int)),
{
    lemma_extensions_roundtrip(ext, pre, x, Seq::empty());
    assert(pre + spec_encode_extensions(ext, x) + Seq::<u8>::empty() =~= pre
        + spec_encode_extensions(ext, x));
}


} // verus!
