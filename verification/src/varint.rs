//! QUIC variable-length integers (RFC 9000 Section 16).
//!
//! The two high bits of the first byte give the encoded length: 1, 2, 4 or 8
//! bytes. The remaining bits, big-endian, hold a value below 2^62.

use vstd::prelude::*;
use crate::error::VarIntError;

verus! {

/// One past the largest value a variable-length integer can hold.
pub const VARINT_BOUND: u64 = 0x4000_0000_0000_0000;

/// Encoded length announced by the first byte of a variable-length integer.
pub open spec fn spec_varint_len(first: u8) -> int {
    if first < 0x40 {
        1
    } else if first < 0x80 {
        2
    } else if first < 0xC0 {
        4
    } else {
        8
    }
}

/// The value of the `len`-byte integer starting at `p`.
#[verifier::opaque]
pub open spec fn spec_varint_value(s: Seq<u8>, p: int, len: int) -> u64 {
    if len == 1 {
        (s[p] & 0x3f) as u64
    } else if len == 2 {
        ((s[p] & 0x3f) as u64) << 8u64 | (s[p + 1] as u64)
    } else if len == 4 {
        ((s[p] & 0x3f) as u64) << 24u64 | (s[p + 1] as u64) << 16u64 | (s[p + 2] as u64) << 8u64
            | (s[p + 3] as u64)
    } else {
        ((s[p] & 0x3f) as u64) << 56u64 | (s[p + 1] as u64) << 48u64 | (s[p + 2] as u64) << 40u64
            | (s[p + 3] as u64) << 32u64 | (s[p + 4] as u64) << 24u64 | (s[p + 5] as u64) << 16u64
            | (s[p + 6] as u64) << 8u64 | (s[p + 7] as u64)
    }
}

/// The integer starting at position `p` of `s`, with the position just past
/// it; `None` when `s` ends first.
pub open spec fn spec_varint_at(s: Seq<u8>, p: int) -> Option<(u64, int)> {
    if 0 <= p < s.len() {
        let len = spec_varint_len(s[p]);
        if p + len <= s.len() {
            Some((spec_varint_value(s, p, len), p + len))
        } else {
            None
        }
    } else {
        None
    }
}

/// The shortest encoding of `v`.
#[verifier::opaque]
pub open spec fn spec_varint_encode(v: u64) -> Seq<u8> {
    if v < 0x40 {
        seq![v as u8]
    } else if v < 0x4000 {
        seq![(((v >> 8u64) & 0xff) | 0x40) as u8, (v & 0xff) as u8]
    } else if v < 0x4000_0000 {
        seq![
            (((v >> 24u64) & 0xff) | 0x80) as u8,
            ((v >> 16u64) & 0xff) as u8,
            ((v >> 8u64) & 0xff) as u8,
            (v & 0xff) as u8,
        ]
    } else {
        seq![
            (((v >> 56u64) & 0xff) | 0xC0) as u8,
            ((v >> 48u64) & 0xff) as u8,
            ((v >> 40u64) & 0xff) as u8,
            ((v >> 32u64) & 0xff) as u8,
            ((v >> 24u64) & 0xff) as u8,
            ((v >> 16u64) & 0xff) as u8,
            ((v >> 8u64) & 0xff) as u8,
            (v & 0xff) as u8,
        ]
    }
}

/// A value below 64 is written as the single byte it is.
pub proof fn lemma_varint_encode_small(v: u64)
    requires
        v < 0x40,
    ensures
        spec_varint_encode(v) == seq![v as u8],
{
    reveal(spec_varint_encode);
}

/// A value read from at most eight bytes with the two length bits masked
/// off is below 2^62.
pub proof fn lemma_varint_value_bounded(s: Seq<u8>, p: int, len: int)
    requires
        0 <= p,
        p + len <= s.len(),
        len == 1 || len == 2 || len == 4 || len == 8,
    ensures
        spec_varint_value(s, p, len) < VARINT_BOUND,
{
    reveal(spec_varint_value);
    let b0 = s[p];
    if len == 1 {
        assert(((b0 & 0x3f) as u64) < 0x4000_0000_0000_0000u64) by (bit_vector);
    } else if len == 2 {
        let b1 = s[p + 1];
        assert((((b0 & 0x3f) as u64) << 8u64 | (b1 as u64)) < 0x4000_0000_0000_0000u64)
            by (bit_vector);
    } else if len == 4 {
        let b1 = s[p + 1];
        let b2 = s[p + 2];
        let b3 = s[p + 3];
        assert((((b0 & 0x3f) as u64) << 24u64 | (b1 as u64) << 16u64 | (b2 as u64) << 8u64
            | (b3 as u64)) < 0x4000_0000_0000_0000u64) by (bit_vector);
    } else {
        let b1 = s[p + 1];
        let b2 = s[p + 2];
        let b3 = s[p + 3];
        let b4 = s[p + 4];
        let b5 = s[p + 5];
        let b6 = s[p + 6];
        let b7 = s[p + 7];
        assert((((b0 & 0x3f) as u64) << 56u64 | (b1 as u64) << 48u64 | (b2 as u64) << 40u64
            | (b3 as u64) << 32u64 | (b4 as u64) << 24u64 | (b5 as u64) << 16u64 | (b6 as u64)
            << 8u64 | (b7 as u64)) < 0x4000_0000_0000_0000u64) by (bit_vector);
    }
}

/// The shortest encoding of a value below 2^62 is read back as that value,
/// whatever surrounds it: the encoding announces its own length and nothing
/// past it is consulted.
pub proof fn lemma_varint_roundtrip(pre: Seq<u8>, v: u64, post: Seq<u8>)
    requires
        v < VARINT_BOUND,
    ensures
        spec_varint_at(pre + spec_varint_encode(v) + post, pre.len() as int) == Some(
            (v, pre.len() + spec_varint_encode(v).len() as int),
        ),
        1 <= spec_varint_encode(v).len() <= 8,
{
    reveal(spec_varint_value);
    reveal(spec_varint_encode);
    let e = spec_varint_encode(v);
    let s = pre + e + post;
    let p = pre.len() as int;
    assert forall|i: int| 0 <= i < e.len() implies s[p + i] == e[i] by {
        assert(s[p + i] == (pre + e)[p + i]);
    }
    if v < 0x40 {
        let b0 = v as u8;
        assert(b0 < 0x40 && ((b0 & 0x3f) as u64) == v) by (bit_vector)
            requires
                v < 0x40,
                b0 == v as u8,
        ;
        assert(s[p] == b0);
    } else if v < 0x4000 {
        let b0 = (((v >> 8u64) & 0xff) | 0x40) as u8;
        let b1 = (v & 0xff) as u8;
        assert(0x40 <= b0 < 0x80 && (((b0 & 0x3f) as u64) << 8u64 | (b1 as u64)) == v)
            by (bit_vector)
            requires
                0x40 <= v < 0x4000,
                b0 == (((v >> 8u64) & 0xff) | 0x40) as u8,
                b1 == (v & 0xff) as u8,
        ;
        assert(s[p] == b0 && s[p + 1] == b1);
    } else if v < 0x4000_0000 {
        let b0 = (((v >> 24u64) & 0xff) | 0x80) as u8;
        let b1 = ((v >> 16u64) & 0xff) as u8;
        let b2 = ((v >> 8u64) & 0xff) as u8;
        let b3 = (v & 0xff) as u8;
        assert(0x80 <= b0 < 0xC0 && (((b0 & 0x3f) as u64) << 24u64 | (b1 as u64) << 16u64
            | (b2 as u64) << 8u64 | (b3 as u64)) == v) by (bit_vector)
            requires
                0x4000 <= v < 0x4000_0000,
                b0 == (((v >> 24u64) & 0xff) | 0x80) as u8,
                b1 == ((v >> 16u64) & 0xff) as u8,
                b2 == ((v >> 8u64) & 0xff) as u8,
                b3 == (v & 0xff) as u8,
        ;
        assert(s[p] == b0 && s[p + 1] == b1 && s[p + 2] == b2 && s[p + 3] == b3);
    } else {
        let b0 = (((v >> 56u64) & 0xff) | 0xC0) as u8;
        let b1 = ((v >> 48u64) & 0xff) as u8;
        let b2 = ((v >> 40u64) & 0xff) as u8;
        let b3 = ((v >> 32u64) & 0xff) as u8;
        let b4 = ((v >> 24u64) & 0xff) as u8;
        let b5 = ((v >> 16u64) & 0xff) as u8;
        let b6 = ((v >> 8u64) & 0xff) as u8;
        let b7 = (v & 0xff) as u8;
        assert(0xC0 <= b0 && (((b0 & 0x3f) as u64) << 56u64 | (b1 as u64) << 48u64 | (b2 as u64)
            << 40u64 | (b3 as u64) << 32u64 | (b4 as u64) << 24u64 | (b5 as u64) << 16u64 | (b6
            as u64) << 8u64 | (b7 as u64)) == v) by (bit_vector)
            requires
                0x4000_0000 <= v < 0x4000_0000_0000_0000u64,
                b0 == (((v >> 56u64) & 0xff) | 0xC0) as u8,
                b1 == ((v >> 48u64) & 0xff) as u8,
                b2 == ((v >> 40u64) & 0xff) as u8,
                b3 == ((v >> 32u64) & 0xff) as u8,
                b4 == ((v >> 24u64) & 0xff) as u8,
                b5 == ((v >> 16u64) & 0xff) as u8,
                b6 == ((v >> 8u64) & 0xff) as u8,
                b7 == (v & 0xff) as u8,
        ;
        assert(s[p] == b0 && s[p + 1] == b1 && s[p + 2] == b2 && s[p + 3] == b3);
        assert(s[p + 4] == b4 && s[p + 5] == b5 && s[p + 6] == b6 && s[p + 7] == b7);
    }
}

/// Reading an integer looks only at the bytes it occupies, so two buffers
/// that agree there read the same.
pub proof fn lemma_varint_at_agree(s: Seq<u8>, t: Seq<u8>, p: int)
    requires
        spec_varint_at(s, p) is Some,
        p + spec_varint_len(s[p]) <= t.len(),
        forall|i: int| p <= i < p + spec_varint_len(s[p]) ==> s[i] == t[i],
    ensures
        spec_varint_at(t, p) == spec_varint_at(s, p),
{
    reveal(spec_varint_value);
    let len = spec_varint_len(s[p]);
    assert(t[p] == s[p]);
    if len >= 2 {
        assert(t[p + 1] == s[p + 1]);
    }
    if len >= 4 {
        assert(t[p + 2] == s[p + 2] && t[p + 3] == s[p + 3]);
    }
    if len == 8 {
        assert(t[p + 4] == s[p + 4] && t[p + 5] == s[p + 5]);
        assert(t[p + 6] == s[p + 6] && t[p + 7] == s[p + 7]);
    }
}

/// A variable-length integer: a value below 2^62.
#[derive(Debug, Clone, Copy, PartialEq, Eq, Structural)]
pub struct VarInt(u64);

impl View for VarInt {
    type V = u64;

    closed spec fn view(&self) -> u64 {
        self.0
    }
}

impl VarInt {
    #[verifier::type_invariant]
    closed spec fn bounded(self) -> bool {
        self.0 < VARINT_BOUND
    }

    /// The integer holding `v`, as a specification value.
    pub closed spec fn spec_new(v: u64) -> VarInt {
        VarInt(v)
    }

    /// Every integer is the one its value names.
    pub broadcast proof fn lemma_spec_new_view(v: u64)
        ensures
            #[trigger] VarInt::spec_new(v)@ == v,
    {
    }

    /// An integer is determined by its value.
    pub broadcast proof fn lemma_view_spec_new(x: VarInt)
        ensures
            #[trigger] VarInt::spec_new(x@) == x,
    {
    }

    /// The value of an integer is below 2^62.
    pub fn into_inner(self) -> (r: u64)
        ensures
            r == self@,
            r < VARINT_BOUND,
    {
        proof {
            use_type_invariant(&self);
        }
        self.0
    }

    /// Wrap `v`, refusing a value of 2^62 or more.
    pub fn from_u64(v: u64) -> (r: Result<VarInt, VarIntError>)
        ensures
            v < VARINT_BOUND ==> (r matches Ok(x) && x@ == v),
            v >= VARINT_BOUND ==> r == Err::<VarInt, VarIntError>(VarIntError::ValueTooLarge(v)),
    {
        if v < VARINT_BOUND {
            Ok(VarInt(v))
        } else {
            Err(VarIntError::ValueTooLarge(v))
        }
    }

    /// Wrap a length or count. Every length a machine can hold in memory is
    /// below 2^62.
    pub fn from_usize(v: usize) -> (r: VarInt)
        requires
            v < VARINT_BOUND,
        ensures
            r@ == v,
    {
        VarInt(v as u64)
    }

    /// The number of bytes [`Self::encode`] writes.
    pub fn encoded_len(self) -> (r: usize)
        ensures
            r == spec_varint_encode(self@).len(),
    {
        reveal(spec_varint_encode);
        if self.0 < 0x40 {
            1
        } else if self.0 < 0x4000 {
            2
        } else if self.0 < 0x4000_0000 {
            4
        } else {
            8
        }
    }

    /// Read the integer starting at `pos`, with the position just past it.
    pub fn decode_at(buf: &[u8], pos: usize) -> (r: Result<(VarInt, usize), VarIntError>)
        ensures
            match spec_varint_at(buf@, pos as int) {
                Some((v, q)) => (r matches Ok((x, n)) && x@ == v && n == q),
                None => r == Err::<(VarInt, usize), VarIntError>(VarIntError::UnexpectedEnd),
            },
    {
        if pos >= buf.len() {
            return Err(VarIntError::UnexpectedEnd);
        }
        let b0 = buf[pos];
        let len: usize = if b0 < 0x40 {
            1
        } else if b0 < 0x80 {
            2
        } else if b0 < 0xC0 {
            4
        } else {
            8
        };
        if len > buf.len() - pos {
            return Err(VarIntError::UnexpectedEnd);
        }
        proof {
            lemma_varint_value_bounded(buf@, pos as int, len as int);
            reveal(spec_varint_value);
        }
        let v: u64 = if len == 1 {
            (b0 & 0x3f) as u64
        } else if len == 2 {
            ((b0 & 0x3f) as u64) << 8u64 | (buf[pos + 1] as u64)
        } else if len == 4 {
            ((b0 & 0x3f) as u64) << 24u64 | (buf[pos + 1] as u64) << 16u64 | (buf[pos + 2] as u64)
                << 8u64 | (buf[pos + 3] as u64)
        } else {
            ((b0 & 0x3f) as u64) << 56u64 | (buf[pos + 1] as u64) << 48u64 | (buf[pos + 2] as u64)
                << 40u64 | (buf[pos + 3] as u64) << 32u64 | (buf[pos + 4] as u64) << 24u64 | (buf[pos
                + 5] as u64) << 16u64 | (buf[pos + 6] as u64) << 8u64 | (buf[pos + 7] as u64)
        };
        Ok((VarInt(v), pos + len))
    }

    /// Read the integer at the start of `buf`, with the number of bytes it
    /// occupies.
    pub fn decode(buf: &[u8]) -> (r: Result<(VarInt, usize), VarIntError>)
        ensures
            match spec_varint_at(buf@, 0) {
                Some((v, q)) => (r matches Ok((x, n)) && x@ == v && n == q),
                None => r == Err::<(VarInt, usize), VarIntError>(VarIntError::UnexpectedEnd),
            },
    {
        VarInt::decode_at(buf, 0)
    }

    /// Append the shortest encoding of this integer.
    pub fn encode(self, buf: &mut Vec<u8>)
        ensures
            final(buf)@ == old(buf)@ + spec_varint_encode(self@),
    {
        reveal(spec_varint_encode);
        let v = self.0;
        if v < 0x40 {
            buf.push(v as u8);
        } else if v < 0x4000 {
            buf.push((((v >> 8u64) & 0xff) | 0x40) as u8);
            buf.push((v & 0xff) as u8);
        } else if v < 0x4000_0000 {
            buf.push((((v >> 24u64) & 0xff) | 0x80) as u8);
            buf.push(((v >> 16u64) & 0xff) as u8);
            buf.push(((v >> 8u64) & 0xff) as u8);
            buf.push((v & 0xff) as u8);
        } else {
            buf.push((((v >> 56u64) & 0xff) | 0xC0) as u8);
            buf.push(((v >> 48u64) & 0xff) as u8);
            buf.push(((v >> 40u64) & 0xff) as u8);
            buf.push(((v >> 32u64) & 0xff) as u8);
            buf.push(((v >> 24u64) & 0xff) as u8);
            buf.push(((v >> 16u64) & 0xff) as u8);
            buf.push(((v >> 8u64) & 0xff) as u8);
            buf.push((v & 0xff) as u8);
        }
        assert(buf@ =~= old(buf)@ + spec_varint_encode(self@));
    }
}

} // verus!
