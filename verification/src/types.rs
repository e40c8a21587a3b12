//! Wire types that control messages of several drafts share.

use vstd::prelude::*;
use crate::cursor::{cur_len_bytes, cur_varint, enc_len_bytes, group_cursor, lemma_rd_len_bytes, rd_len_bytes, rd_varint};
use crate::error::CodecError;
use crate::varint::{spec_varint_encode, VarInt, VARINT_BOUND};
use crate::wire::put_slice;

verus! {

/// A Track Namespace: an ordered tuple of byte-string fields.
#[derive(Debug, Clone, PartialEq, Eq)]
pub struct TrackNamespace(pub Vec<Vec<u8>>);

/// The total length of a namespace's fields, in bytes, without the length
/// prefixes the wire puts before them.
pub open spec fn spec_field_bytes_len(fields: Seq<Vec<u8>>) -> nat
    decreases fields.len(),
{
    if fields.len() == 0 {
        0
    } else {
        spec_field_bytes_len(fields.drop_last()) + fields.last()@.len()
    }
}


/// The most fields a Track Namespace holds.
pub const MAX_NAMESPACE_FIELDS: u64 = 32;

/// The fields of a namespace as byte strings.
pub open spec fn ns_view(fields: Seq<Vec<u8>>) -> Seq<Seq<u8>> {
    fields.map_values(|f: Vec<u8>| f@)
}

/// `n` length-prefixed fields at the front of `s`; with `nonempty`, a field
/// of no bytes is refused as `InvalidField` as soon as it is read.
pub open spec fn rd_ns_fields(s: Seq<u8>, n: nat, nonempty: bool) -> Result<(Seq<Seq<u8>>, Seq<u8>), CodecError>
    decreases n,
{
    if n == 0 {
        Ok((Seq::empty(), s))
    } else {
        match rd_ns_fields(s, (n - 1) as nat, nonempty) {
            Err(e) => Err(e),
            Ok((fs, s1)) => match rd_len_bytes(s1) {
                Err(e) => Err(e),
                Ok((f, s2)) => if nonempty && f.len() == 0 {
                    Err(CodecError::InvalidField)
                } else {
                    Ok((fs.push(f), s2))
                },
            },
        }
    }
}

/// A Track Namespace at the front of `s`: a field count between
/// `min_fields` and [`MAX_NAMESPACE_FIELDS`], refused as `InvalidField`
/// outside it, then the fields.
pub open spec fn rd_namespace(s: Seq<u8>, min_fields: u64, nonempty: bool) -> Result<(Seq<Seq<u8>>, Seq<u8>), CodecError> {
    match rd_varint(s) {
        Err(e) => Err(e),
        Ok((count, s1)) => if count < min_fields || count > MAX_NAMESPACE_FIELDS {
            Err(CodecError::InvalidField)
        } else {
            rd_ns_fields(s1, count as nat, nonempty)
        },
    }
}

/// Whether every field of a namespace is shorter than 2^62 bytes, so that
/// its length is a variable-length integer.
pub open spec fn ns_fits(fs: Seq<Seq<u8>>) -> bool {
    forall|i: int| 0 <= i < fs.len() ==> (#[trigger] fs[i]).len() < VARINT_BOUND
}

/// Whether a namespace keeps the rules a reader holds it to.
pub open spec fn ns_valid(fs: Seq<Seq<u8>>, min_fields: u64, nonempty: bool) -> bool {
    &&& min_fields <= fs.len() <= MAX_NAMESPACE_FIELDS
    &&& nonempty ==> forall|i: int| 0 <= i < fs.len() ==> #[trigger] fs[i].len() > 0
}

/// The fields as written, one after another.
pub open spec fn enc_ns_fields(fs: Seq<Seq<u8>>) -> Seq<u8>
    decreases fs.len(),
{
    if fs.len() == 0 {
        Seq::empty()
    } else {
        enc_ns_fields(fs.drop_last()) + enc_len_bytes(fs.last())
    }
}

/// A namespace as written: its field count, then its fields.
pub open spec fn enc_namespace(fs: Seq<Seq<u8>>) -> Seq<u8> {
    spec_varint_encode(fs.len() as u64) + enc_ns_fields(fs)
}

/// A read that failed after `k` fields fails the same way for more.
pub proof fn lemma_rd_ns_fields_err(s: Seq<u8>, k: nat, n: nat, nonempty: bool)
    requires
        k <= n,
        rd_ns_fields(s, k, nonempty) is Err,
    ensures
        rd_ns_fields(s, n, nonempty) == rd_ns_fields(s, k, nonempty),
    decreases n - k,
{
    if k < n {
        lemma_rd_ns_fields_err(s, k, (n - 1) as nat, nonempty);
    }
}

/// Fields as written are read back as the same fields, whatever follows.
pub proof fn lemma_ns_fields_roundtrip(fs: Seq<Seq<u8>>, rest: Seq<u8>, nonempty: bool)
    requires
        forall|i: int| 0 <= i < fs.len() ==> (#[trigger] fs[i]).len() < VARINT_BOUND,
        nonempty ==> forall|i: int| 0 <= i < fs.len() ==> #[trigger] fs[i].len() > 0,
    ensures
        rd_ns_fields(enc_ns_fields(fs) + rest, fs.len(), nonempty) == Ok::<(Seq<Seq<u8>>, Seq<u8>), CodecError>((fs, rest)),
    decreases fs.len(),
{
    if fs.len() == 0 {
        assert(enc_ns_fields(fs) + rest =~= rest);
        assert(fs =~= Seq::<Seq<u8>>::empty());
    } else {
        let init = fs.drop_last();
        let l = fs.last();
        assert(fs[fs.len() - 1] == l);
        assert(l.len() < VARINT_BOUND);
        assert(nonempty ==> l.len() > 0);
        let tail = enc_len_bytes(l) + rest;
        let whole = enc_ns_fields(fs) + rest;
        assert(whole =~= enc_ns_fields(init) + tail);
        assert forall|i: int| 0 <= i < init.len() implies (#[trigger] init[i]).len() < VARINT_BOUND by {
            assert(init[i] == fs[i]);
        }
        assert forall|i: int| nonempty && 0 <= i < init.len() implies #[trigger] init[i].len() > 0 by {
            assert(init[i] == fs[i]);
        }
        lemma_ns_fields_roundtrip(init, tail, nonempty);
        lemma_rd_len_bytes(l, rest);
        assert(rd_ns_fields(whole, (fs.len() - 1) as nat, nonempty) == Ok::<(Seq<Seq<u8>>, Seq<u8>), CodecError>((init, tail)));
        assert(rd_len_bytes(tail) == Ok::<(Seq<u8>, Seq<u8>), CodecError>((l, rest)));
        assert(init.push(l) =~= fs);
        assert(rd_ns_fields(whole, fs.len(), nonempty) == Ok::<(Seq<Seq<u8>>, Seq<u8>), CodecError>((fs, rest)));
        assert(init.push(l) =~= fs);
    }
}

/// A namespace that keeps its rules is read back from its own encoding.
pub proof fn lemma_namespace_roundtrip(fs: Seq<Seq<u8>>, rest: Seq<u8>, min_fields: u64, nonempty: bool)
    requires
        ns_valid(fs, min_fields, nonempty),
        forall|i: int| 0 <= i < fs.len() ==> (#[trigger] fs[i]).len() < VARINT_BOUND,
    ensures
        rd_namespace(enc_namespace(fs) + rest, min_fields, nonempty) == Ok::<(Seq<Seq<u8>>, Seq<u8>), CodecError>((fs, rest)),
{
    broadcast use group_cursor;
    assert(enc_namespace(fs) + rest =~= spec_varint_encode(fs.len() as u64) + (enc_ns_fields(fs) + rest));
    lemma_ns_fields_roundtrip(fs, rest, nonempty);
}

impl TrackNamespace {
    /// Read a namespace at `pos` under the given rules.
    pub fn decode_at(buf: &[u8], pos: usize, min_fields: u64, nonempty: bool) -> (r: Result<(TrackNamespace, usize), CodecError>)
        requires
            pos <= buf@.len(),
        ensures
            match rd_namespace(buf@.skip(pos as int), min_fields, nonempty) {
                Ok((fs, rest)) => (r matches Ok((x, n)) && ns_view(x.0@) == fs && pos <= n <= buf@.len()
                    && buf@.skip(n as int) == rest),
                Err(e) => r == Err::<(TrackNamespace, usize), CodecError>(e),
            },
    {
        let (count, p1) = cur_varint(buf, pos)?;
        let count = count.into_inner();
        if count < min_fields || count > MAX_NAMESPACE_FIELDS {
            return Err(CodecError::InvalidField);
        }
        let ghost s1 = buf@.skip(p1 as int);
        let mut fields: Vec<Vec<u8>> = Vec::new();
        proof {
            assert(ns_view(fields@) =~= Seq::<Seq<u8>>::empty());
        }
        let mut p = p1;
        let mut i: u64 = 0;
        while i < count
            invariant
                i <= count <= MAX_NAMESPACE_FIELDS,
                p1 <= p <= buf@.len(),
                s1 == buf@.skip(p1 as int),
                rd_namespace(buf@.skip(pos as int), min_fields, nonempty) == rd_ns_fields(s1, count as nat, nonempty),
                rd_ns_fields(s1, i as nat, nonempty) == Ok::<(Seq<Seq<u8>>, Seq<u8>), CodecError>((ns_view(fields@), buf@.skip(p as int))),
            decreases count - i,
        {
            let res = cur_len_bytes(buf, p);
            match res {
                Err(e) => {
                    proof {
                        assert(rd_ns_fields(s1, (i + 1) as nat, nonempty) == Err::<(Seq<Seq<u8>>, Seq<u8>), CodecError>(e));
                        lemma_rd_ns_fields_err(s1, (i + 1) as nat, count as nat, nonempty);
                    }
                    return Err(e);
                },
                Ok((f, q)) => {
                    if nonempty && f.len() == 0 {
                        proof {
                            assert(rd_ns_fields(s1, (i + 1) as nat, nonempty) == Err::<(Seq<Seq<u8>>, Seq<u8>), CodecError>(CodecError::InvalidField));
                            lemma_rd_ns_fields_err(s1, (i + 1) as nat, count as nat, nonempty);
                        }
                        return Err(CodecError::InvalidField);
                    }
                    let ghost before = fields@;
                    fields.push(f);
                    proof {
                        assert(ns_view(fields@) =~= ns_view(before).push(f@));
                    }
                    p = q;
                    i = i + 1;
                },
            }
        }
        Ok((TrackNamespace(fields), p))
    }

    /// Whether the namespace keeps the rules, refused as `InvalidField`
    /// otherwise.
    pub fn validate(&self, min_fields: u64, nonempty: bool) -> (r: Result<(), CodecError>)
        ensures
            r == (if ns_valid(ns_view(self.0@), min_fields, nonempty) {
                Ok::<(), CodecError>(())
            } else {
                Err::<(), CodecError>(CodecError::InvalidField)
            }),
    {
        let n = self.0.len();
        assert(ns_view(self.0@).len() == n);
        if (n as u64) < min_fields || n as u64 > MAX_NAMESPACE_FIELDS {
            return Err(CodecError::InvalidField);
        }
        if nonempty {
            let mut i: usize = 0;
            while i < n
                invariant
                    i <= n == self.0@.len(),
                    nonempty,
                    forall|j: int| 0 <= j < i ==> #[trigger] ns_view(self.0@)[j].len() > 0,
                decreases n - i,
            {
                if self.0[i].len() == 0 {
                    assert(ns_view(self.0@)[i as int].len() == 0);
                    assert(!ns_valid(ns_view(self.0@), min_fields, nonempty));
                    return Err(CodecError::InvalidField);
                }
                i = i + 1;
            }
        }
        proof {
            assert(ns_view(self.0@).len() == n);
        }
        Ok(())
    }

    /// Append the namespace: its field count, then each field with its
    /// length.
    pub fn encode(&self, buf: &mut Vec<u8>)
        requires
            self.0@.len() <= MAX_NAMESPACE_FIELDS,
            ns_fits(ns_view(self.0@)),
        ensures
            final(buf)@ == old(buf)@ + enc_namespace(ns_view(self.0@)),
    {
        let ghost start = buf@;
        VarInt::from_usize(self.0.len()).encode(buf);
        let ghost head = buf@;
        let mut i: usize = 0;
        while i < self.0.len()
            invariant
                i <= self.0@.len(),
                ns_fits(ns_view(self.0@)),
                head == start + spec_varint_encode(self.0@.len() as u64),
                buf@ == head + enc_ns_fields(ns_view(self.0@.take(i as int))),
            decreases self.0@.len() - i,
        {
            let f = &self.0[i];
            assert(ns_view(self.0@)[i as int] == f@);
            VarInt::from_usize(f.len()).encode(buf);
            put_slice(buf, f.as_slice());
            proof {
                let vs = ns_view(self.0@.take(i + 1));
                assert(vs.drop_last() =~= ns_view(self.0@.take(i as int)));
                assert(vs.last() == f@);
                assert(buf@ =~= head + enc_ns_fields(vs));
            }
            i = i + 1;
        }
        proof {
            assert(self.0@.take(i as int) =~= self.0@);
        }
    }
}

impl TrackNamespace {
    /// The total length of the namespace's fields, in bytes, saturating at
    /// `usize::MAX`.
    pub fn field_bytes_len(&self) -> (r: usize)
        ensures
            r == (if spec_field_bytes_len(self.0@) <= usize::MAX {
                spec_field_bytes_len(self.0@)
            } else {
                usize::MAX as nat
            }),
    {
        let mut total: usize = 0;
        let mut i: usize = 0;
        while i < self.0.len()
            invariant
                i <= self.0@.len(),
                total == (if spec_field_bytes_len(self.0@.take(i as int)) <= usize::MAX {
                    spec_field_bytes_len(self.0@.take(i as int))
                } else {
                    usize::MAX as nat
                }),
            decreases self.0@.len() - i,
        {
            proof {
                assert(self.0@.take(i + 1).drop_last() =~= self.0@.take(i as int));
            }
            total = total.saturating_add(self.0[i].len());
            i = i + 1;
        }
        proof {
            assert(self.0@.take(i as int) =~= self.0@);
        }
        total
    }
}

/// A Location: a Group ID and an Object ID within it.
#[derive(Debug, Clone, Copy, PartialEq, Eq, Structural)]
pub struct Location {
    pub group: VarInt,
    pub object: VarInt,
}

/// The order in which groups are delivered. `Publisher` (wire value 0x0)
/// asks for the original publisher's order.
#[derive(Debug, Clone, Copy, PartialEq, Eq, Structural)]
pub enum GroupOrder {
    /// The original publisher's order (0x0).
    Publisher,
    /// Ascending group order (0x1).
    Ascending,
    /// Descending group order (0x2).
    Descending,
}

impl GroupOrder {
    /// The group order with wire value `v`, if there is one.
    pub open spec fn spec_from_u8(v: u8) -> Option<GroupOrder> {
        if v == 0 {
            Some(GroupOrder::Publisher)
        } else if v == 1 {
            Some(GroupOrder::Ascending)
        } else if v == 2 {
            Some(GroupOrder::Descending)
        } else {
            None
        }
    }

    /// The group order with wire value `v`; `None` above 0x2.
    pub fn from_u8(v: u8) -> (r: Option<GroupOrder>)
        ensures
            r == Self::spec_from_u8(v),
    {
        match v {
            0 => Some(GroupOrder::Publisher),
            1 => Some(GroupOrder::Ascending),
            2 => Some(GroupOrder::Descending),
            _ => None,
        }
    }
}

/// Whether a subscription forwards objects.
#[derive(Debug, Clone, Copy, PartialEq, Eq, Structural)]
pub enum Forward {
    /// Objects are not forwarded (0x0).
    DontForward,
    /// Objects are forwarded (0x1).
    Forward,
}

/// Which objects a subscription selects.
#[derive(Debug, Clone, Copy, PartialEq, Eq, Structural)]
pub enum FilterType {
    /// From the start of the next group (0x1).
    NextGroupStart,
    /// From the largest object (0x2).
    LargestObject,
    /// From a start Location (0x3).
    AbsoluteStart,
    /// From a start Location through an end group (0x4).
    AbsoluteRange,
}

/// Whether a response carries a largest Location.
#[derive(Debug, Clone, Copy, PartialEq, Eq, Structural)]
pub enum ContentExists {
    /// No object has been published (0x0).
    NoLargestLocation,
    /// A largest Location follows (0x1).
    HasLargestLocation,
}

} // verus!
