//! Draft-14 data streams: subgroup streams, fetch streams, datagrams.
//!
//! * **Subgroup stream**: a Type byte `0x10..=0x15` or `0x18..=0x1D` whose
//!   bits say whether a Subgroup ID field is present, whether the Subgroup ID
//!   is the first Object ID, whether objects carry extension headers, and
//!   whether the stream ends its group. Object IDs are delta encoded against
//!   the previous object on the stream.
//! * **Fetch stream**: Type `0x05`, a Request ID, then self-describing
//!   objects.
//! * **Datagram**: Type `0x00..=0x07`, `0x20` or `0x21`, with bits for End of
//!   Group, Extensions Present, Object ID absent, and Status vs Payload.
//!
//! Every decoder reads from the start of a byte slice and returns the value
//! with the number of bytes it consumed; its specification is the matching
//! `spec_decode_*` or `spec_read_*` function. Every encoder appends to a
//! `Vec<u8>` exactly the bytes of the matching `spec_encode_*` function.

use vstd::prelude::*;
use super::types::ObjectStatus;
use crate::error::CodecError;
use crate::varint::{
    lemma_varint_roundtrip, spec_varint_at, spec_varint_encode, VarInt, VARINT_BOUND,
};
use crate::wire::{
    encode_extensions, lemma_bytes_at_prefix, lemma_bytes_encoded, lemma_bytes_roundtrip,
    lemma_extensions_encoded, lemma_extensions_roundtrip, lemma_prefix_of_add, lemma_prefix_trans,
    lemma_read_extensions_prefix, lemma_u8_at_prefix, lemma_u8_encoded, lemma_u8_roundtrip,
    lemma_varint_at_prefix, lemma_varint_encoded, put_slice, read_bytes, read_extensions, read_u8,
    read_varint, read_varint_u64, skip, skip_extensions, spec_bytes_at, spec_encode_extensions,
    spec_is_prefix, spec_opt_varint_at, spec_read_extensions, spec_u8_at, varint_end,
};

verus! {

broadcast use {VarInt::lemma_spec_new_view, VarInt::lemma_view_spec_new};

/// `v` as a `usize`, or `usize::MAX` when it does not fit.
pub open spec fn spec_saturating_usize(v: u64) -> usize {
    if v <= usize::MAX {
        v as usize
    } else {
        usize::MAX
    }
}

/// Draft-14 Section 10.2.1.2: an object whose status is Object Does Not
/// Exist may not carry extension headers. `status` is the wire code of the
/// object's explicit status, if it has one.
pub open spec fn spec_check_extensions_against_status(status: Option<u64>, len: u64) -> Result<
    (),
    CodecError,
> {
    if status == Some(1u64) && len != 0 {
        Err(CodecError::ExtensionsOnNonExistentObject(spec_saturating_usize(len)))
    } else {
        Ok(())
    }
}

/// Hold an object to the rule binding extension headers to Object Status.
fn check_extensions_against_status(status: Option<u64>, extension_headers_len: u64) -> (r: Result<
    (),
    CodecError,
>)
    ensures
        r == spec_check_extensions_against_status(status, extension_headers_len),
{
    let does_not_exist = match status {
        Some(code) => code == ObjectStatus::ObjectDoesNotExist.as_u64(),
        None => false,
    };
    if does_not_exist && extension_headers_len != 0 {
        let reported = if extension_headers_len <= usize::MAX as u64 {
            extension_headers_len as usize
        } else {
            usize::MAX
        };
        return Err(CodecError::ExtensionsOnNonExistentObject(reported));
    }
    Ok(())
}

// ============================================================
// Subgroup stream (Type 0x10..=0x1D)
// ============================================================

/// Whether draft-14 assigns subgroup stream type `v`: twelve values,
/// `0x10..=0x15` and `0x18..=0x1D`.
pub open spec fn spec_subgroup_type_assigned(v: u8) -> bool {
    (0x10 <= v <= 0x15) || (0x18 <= v <= 0x1D)
}

/// Subgroup stream type byte.
///
/// * bit 0 (`0x01`) — Extensions Present
/// * bit 1 (`0x02`) — Subgroup ID is the first Object ID (only when bit 2 is clear)
/// * bit 2 (`0x04`) — Subgroup ID Field Present
/// * bit 3 (`0x08`) — Contains End of Group
#[derive(Debug, Clone, Copy, PartialEq, Eq, Structural)]
pub struct SubgroupStreamType(u8);

impl View for SubgroupStreamType {
    type V = u8;

    closed spec fn view(&self) -> u8 {
        self.0
    }
}

impl SubgroupStreamType {
    /// The type with raw byte `v`, as a specification value.
    pub closed spec fn spec_new(v: u8) -> SubgroupStreamType {
        SubgroupStreamType(v)
    }

    /// A type is the one its raw byte names.
    pub broadcast proof fn lemma_spec_new_view(v: u8)
        ensures
            #[trigger] SubgroupStreamType::spec_new(v)@ == v,
    {
    }

    /// A type is determined by its raw byte.
    pub broadcast proof fn lemma_view_spec_new(t: SubgroupStreamType)
        ensures
            #[trigger] SubgroupStreamType::spec_new(t@) == t,
    {
    }

    /// The raw wire byte.
    pub fn as_u8(self) -> (r: u8)
        ensures
            r == self@,
    {
        self.0
    }

    /// The type with raw byte `v`, or `None` when draft-14 does not assign it.
    /// `0x16` and `0x17` fall inside `0x10..=0x1D` but are not assigned.
    pub fn from_u8(v: u8) -> (r: Option<Self>)
        ensures
            spec_subgroup_type_assigned(v) ==> r == Some(SubgroupStreamType::spec_new(v)),
            !spec_subgroup_type_assigned(v) ==> r is None,
    {
        if (0x10 <= v && v <= 0x15) || (0x18 <= v && v <= 0x1D) {
            Some(SubgroupStreamType(v))
        } else {
            None
        }
    }

    /// Build a type from its component flags. When both
    /// `subgroup_id_field_present` and `subgroup_id_is_first_object` are set,
    /// the field-present bit wins.
    pub fn from_flags(
        subgroup_id_field_present: bool,
        subgroup_id_is_first_object: bool,
        extensions_present: bool,
        end_of_group: bool,
    ) -> (r: Self)
        ensures
            spec_subgroup_type_assigned(r@),
            (r@ & 0x04 != 0) == subgroup_id_field_present,
            !subgroup_id_field_present ==> ((r@ & 0x02 != 0) == subgroup_id_is_first_object),
            subgroup_id_field_present ==> r@ & 0x02 == 0,
            (r@ & 0x01 != 0) == extensions_present,
            (r@ & 0x08 != 0) == end_of_group,
    {
        let a: u8 = if extensions_present {
            0x01
        } else {
            0
        };
        let b: u8 = if subgroup_id_field_present {
            0x04
        } else if subgroup_id_is_first_object {
            0x02
        } else {
            0
        };
        let c: u8 = if end_of_group {
            0x08
        } else {
            0
        };
        let v: u8 = 0x10 + a + b + c;
        assert({
            &&& (v & 0x04 != 0) == (b == 4)
            &&& (v & 0x02 != 0) == (b == 2)
            &&& (v & 0x01 != 0) == (a == 1)
            &&& (v & 0x08 != 0) == (c == 8)
        }) by (bit_vector)
            requires
                v == 0x10 + a + b + c,
                a == 0 || a == 1,
                b == 0 || b == 2 || b == 4,
                c == 0 || c == 8,
        ;
        SubgroupStreamType(v)
    }

    /// True if the header carries an explicit Subgroup ID varint.
    pub fn has_subgroup_id_field(self) -> (r: bool)
        ensures
            r == (self@ & 0x04 != 0),
    {
        self.0 & 0x04 != 0
    }

    /// True if the Subgroup ID is the first Object ID on the stream (only
    /// when [`Self::has_subgroup_id_field`] is false).
    pub fn subgroup_id_is_first_object(self) -> (r: bool)
        ensures
            r == (self@ & 0x04 == 0 && self@ & 0x02 != 0),
    {
        !self.has_subgroup_id_field() && (self.0 & 0x02 != 0)
    }

    /// True if every object on the stream carries an extension block.
    pub fn extensions_present(self) -> (r: bool)
        ensures
            r == (self@ & 0x01 != 0),
    {
        self.0 & 0x01 != 0
    }

    /// True if the last object on the stream ends its group.
    pub fn contains_end_of_group(self) -> (r: bool)
        ensures
            r == (self@ & 0x08 != 0),
    {
        self.0 & 0x08 != 0
    }
}

/// Draft-14 fetch stream type byte.
pub const FETCH_STREAM_TYPE: u8 = 0x05;

/// Which failure a leading stream type other than the one a reader wants
/// is: a type the stream table assigns (the fetch type or a subgroup type)
/// is a disagreement with the reader, reported as `InvalidField`; any other
/// value is unknown, which this draft answers by closing the session.
pub open spec fn spec_stream_type_error(raw: u64) -> CodecError {
    if raw == 0x05 || (raw <= 0xFF && spec_subgroup_type_assigned(raw as u8)) {
        CodecError::InvalidField
    } else {
        CodecError::UnknownStreamType(raw)
    }
}

fn stream_type_error(raw: u64) -> (r: CodecError)
    ensures
        r == spec_stream_type_error(raw),
{
    let assigned = raw == FETCH_STREAM_TYPE as u64 || (raw <= 0xFF && SubgroupStreamType::from_u8(
        raw as u8,
    ).is_some());
    if assigned {
        CodecError::InvalidField
    } else {
        CodecError::UnknownStreamType(raw)
    }
}

/// Subgroup stream header: type byte, Track Alias, Group ID, Subgroup ID
/// (only for types that carry one), Publisher Priority.
#[derive(Debug, Clone, Copy, PartialEq, Eq, Structural)]
pub struct SubgroupHeader {
    /// Type byte identifying the flag set for this stream.
    pub stream_type: SubgroupStreamType,
    /// Track alias.
    pub track_alias: VarInt,
    /// Group ID.
    pub group_id: VarInt,
    /// Explicit Subgroup ID, present only when the type carries the field.
    pub subgroup_id: Option<VarInt>,
    /// Publisher priority.
    pub publisher_priority: u8,
}

/// The wire value of an optional integer field, zero when absent.
pub open spec fn spec_or_zero(x: Option<VarInt>) -> u64 {
    match x {
        Some(v) => v@,
        None => 0,
    }
}

/// The value of each present integer of an optional field.
pub open spec fn spec_opt_view(x: Option<VarInt>) -> Option<u64> {
    match x {
        Some(v) => Some(v@),
        None => None,
    }
}

/// The integer field holding each present value.
pub open spec fn spec_opt_varint(x: Option<u64>) -> Option<VarInt> {
    match x {
        Some(v) => Some(VarInt::spec_new(v)),
        None => None,
    }
}

/// The bytes [`SubgroupHeader::encode`] writes: the field follows the type
/// byte, and a missing Subgroup ID under a type that carries one is written
/// as zero.
pub open spec fn spec_encode_subgroup_header(h: SubgroupHeader) -> Seq<u8> {
    spec_varint_encode(h.stream_type@ as u64) + spec_varint_encode(h.track_alias@)
        + spec_varint_encode(h.group_id@) + (if h.stream_type@ & 0x04 != 0 {
        spec_varint_encode(spec_or_zero(h.subgroup_id))
    } else {
        Seq::empty()
    }) + seq![h.publisher_priority]
}

/// What [`SubgroupHeader::decode`] reads from the start of `s`, with the
/// number of bytes it consumed.
pub open spec fn spec_decode_subgroup_header(s: Seq<u8>) -> Result<(SubgroupHeader, int), CodecError> {
    match spec_varint_at(s, 0) {
        None => Err(varint_end()),
        Some((t, p1)) => if t > 0xFF || !spec_subgroup_type_assigned(t as u8) {
            Err(spec_stream_type_error(t))
        } else {
            match spec_varint_at(s, p1) {
                None => Err(varint_end()),
                Some((ta, p2)) => match spec_varint_at(s, p2) {
                    None => Err(varint_end()),
                    Some((g, p3)) => match spec_opt_varint_at(s, p3, (t as u8) & 0x04 != 0) {
                        None => Err(varint_end()),
                        Some((sg, p4)) => match spec_u8_at(s, p4) {
                            None => Err(CodecError::UnexpectedEnd),
                            Some((prio, p5)) => Ok(
                                (
                                    SubgroupHeader {
                                        stream_type: SubgroupStreamType::spec_new(t as u8),
                                        track_alias: VarInt::spec_new(ta),
                                        group_id: VarInt::spec_new(g),
                                        subgroup_id: spec_opt_varint(sg),
                                        publisher_priority: prio,
                                    },
                                    p5,
                                ),
                            ),
                        },
                    },
                },
            }
        },
    }
}

/// The integers of a header are all below 2^62.
pub open spec fn spec_subgroup_header_wf(h: SubgroupHeader) -> bool {
    &&& h.track_alias@ < VARINT_BOUND
    &&& h.group_id@ < VARINT_BOUND
    &&& spec_or_zero(h.subgroup_id) < VARINT_BOUND
}

impl SubgroupHeader {
    /// Encode the header including the leading stream type byte.
    ///
    /// Driven by `stream_type`: a `None` Subgroup ID under a type that
    /// carries the field is written as zero, and a `Some` under a type that
    /// does not is dropped. [`Self::encode_checked`] refuses both shapes.
    pub fn encode(&self, buf: &mut Vec<u8>)
        ensures
            final(buf)@ == old(buf)@ + spec_encode_subgroup_header(*self),
    {
        VarInt::from_usize(self.stream_type.as_u8() as usize).encode(buf);
        self.track_alias.encode(buf);
        self.group_id.encode(buf);
        let ghost mid = buf@;
        if self.stream_type.has_subgroup_id_field() {
            let sg = match self.subgroup_id {
                Some(v) => v,
                None => VarInt::from_usize(0),
            };
            sg.encode(buf);
        }
        buf.push(self.publisher_priority);
        assert(buf@ =~= old(buf)@ + spec_encode_subgroup_header(*self));
    }

    /// Encode, refusing a header whose Subgroup ID presence disagrees with
    /// its own type byte. A refused header leaves `buf` untouched.
    pub fn encode_checked(&self, buf: &mut Vec<u8>) -> (r: Result<(), CodecError>)
        ensures
            (self.stream_type@ & 0x04 != 0) != (self.subgroup_id is Some) ==> r == Err::<
                (),
                CodecError,
            >(CodecError::InvalidField) && final(buf)@ == old(buf)@,
            (self.stream_type@ & 0x04 != 0) == (self.subgroup_id is Some) ==> r == Ok::<
                (),
                CodecError,
            >(()) && final(buf)@ == old(buf)@ + spec_encode_subgroup_header(*self),
    {
        if self.stream_type.has_subgroup_id_field() != self.subgroup_id.is_some() {
            return Err(CodecError::InvalidField);
        }
        self.encode(buf);
        Ok(())
    }

    /// Decode a subgroup header from the start of `buf`, with the number of
    /// bytes it occupies.
    ///
    /// A leading type the stream table does not assign is
    /// `UnknownStreamType`; the fetch type `0x05` is `InvalidField`.
    pub fn decode(buf: &[u8]) -> (r: Result<(SubgroupHeader, usize), CodecError>)
        ensures
            match spec_decode_subgroup_header(buf@) {
                Ok((h, n)) => (r matches Ok((x, k)) && x == h && k == n),
                Err(e) => r == Err::<(SubgroupHeader, usize), CodecError>(e),
            },
    {
        let (type_val, p1) = read_varint_u64(buf, 0)?;
        if type_val > 0xFF {
            return Err(stream_type_error(type_val));
        }
        let stream_type = match SubgroupStreamType::from_u8(type_val as u8) {
            Some(t) => t,
            None => return Err(stream_type_error(type_val)),
        };
        let (track_alias, p2) = read_varint(buf, p1)?;
        let (group_id, p3) = read_varint(buf, p2)?;
        let (subgroup_id, p4) = if stream_type.has_subgroup_id_field() {
            let (v, q) = read_varint(buf, p3)?;
            (Some(v), q)
        } else {
            (None, p3)
        };
        let (publisher_priority, p5) = read_u8(buf, p4)?;
        Ok((SubgroupHeader { stream_type, track_alias, group_id, subgroup_id, publisher_priority }, p5))
    }
}

/// A well-formed header whose Subgroup ID presence matches its type is read
/// back from its own encoding, whatever follows it.
#[verifier::rlimit(40)]
pub proof fn lemma_subgroup_header_roundtrip(h: SubgroupHeader, rest: Seq<u8>)
    requires
        spec_subgroup_type_assigned(h.stream_type@),
        (h.stream_type@ & 0x04 != 0) == (h.subgroup_id is Some),
        spec_subgroup_header_wf(h),
    ensures
        spec_decode_subgroup_header(spec_encode_subgroup_header(h) + rest) == Ok::<
            (SubgroupHeader, int),
            CodecError,
        >((h, spec_encode_subgroup_header(h).len() as int)),
{
    broadcast use SubgroupStreamType::lemma_view_spec_new;

    let t = h.stream_type@ as u64;
    let e1 = spec_varint_encode(t);
    let e2 = spec_varint_encode(h.track_alias@);
    let e3 = spec_varint_encode(h.group_id@);
    let e4 = if h.stream_type@ & 0x04 != 0 {
        spec_varint_encode(spec_or_zero(h.subgroup_id))
    } else {
        Seq::<u8>::empty()
    };
    let e5 = seq![h.publisher_priority];
    let s = spec_encode_subgroup_header(h) + rest;
    assert(spec_encode_subgroup_header(h) == e1 + e2 + e3 + e4 + e5);
    assert(s =~= Seq::<u8>::empty() + e1 + (e2 + e3 + e4 + e5 + rest));
    lemma_varint_roundtrip(Seq::<u8>::empty(), t, e2 + e3 + e4 + e5 + rest);
    assert(spec_varint_at(s, 0) == Some((t, e1.len() as int)));
    assert(s =~= e1 + e2 + (e3 + e4 + e5 + rest));
    lemma_varint_roundtrip(e1, h.track_alias@, e3 + e4 + e5 + rest);
    assert(spec_varint_at(s, e1.len() as int) == Some((h.track_alias@, (e1 + e2).len() as int)));
    assert(s =~= (e1 + e2) + e3 + (e4 + e5 + rest));
    lemma_varint_roundtrip(e1 + e2, h.group_id@, e4 + e5 + rest);
    assert(spec_varint_at(s, (e1 + e2).len() as int) == Some(
        (h.group_id@, (e1 + e2 + e3).len() as int),
    ));
    if h.stream_type@ & 0x04 != 0 {
        assert(s =~= (e1 + e2 + e3) + e4 + (e5 + rest));
        lemma_varint_roundtrip(e1 + e2 + e3, spec_or_zero(h.subgroup_id), e5 + rest);
    }
    assert(spec_opt_varint_at(s, (e1 + e2 + e3).len() as int, h.stream_type@ & 0x04 != 0) == Some(
        (spec_opt_view(h.subgroup_id), (e1 + e2 + e3 + e4).len() as int),
    ));
    assert(s =~= (e1 + e2 + e3 + e4) + e5 + rest);
    lemma_u8_roundtrip(e1 + e2 + e3 + e4, h.publisher_priority, rest);
}

// ============================================================
// Subgroup objects
// ============================================================

/// One object within a subgroup stream, with the Object ID already resolved
/// from its delta encoding.
#[derive(Debug, Clone, PartialEq, Eq)]
pub struct SubgroupObject {
    /// Resolved Object ID.
    pub object_id: VarInt,
    /// Raw extension-header bytes, opaque here. Empty when the stream type has
    /// no extensions, or when the block was present but empty.
    pub extension_headers: Vec<u8>,
    /// Explicit Object Status; `None` when a non-empty payload follows.
    pub status: Option<ObjectStatus>,
    /// Object payload. Empty when `status` is `Some(..)`.
    pub payload: Vec<u8>,
}

/// The mathematical value of a [`SubgroupObject`].
pub struct SubgroupObjectView {
    pub object_id: u64,
    pub extension_headers: Seq<u8>,
    pub status: Option<ObjectStatus>,
    pub payload: Seq<u8>,
}

impl View for SubgroupObject {
    type V = SubgroupObjectView;

    open spec fn view(&self) -> SubgroupObjectView {
        SubgroupObjectView {
            object_id: self.object_id@,
            extension_headers: self.extension_headers@,
            status: self.status,
            payload: self.payload@,
        }
    }
}

/// The framing of one subgroup object, without its payload.
#[derive(Debug, Clone, Copy, PartialEq, Eq, Structural)]
pub struct SubgroupObjectMeta {
    /// Resolved Object ID.
    pub object_id: u64,
    /// Length of the extension-header block, excluding its length prefix.
    pub extension_headers_len: u64,
    /// Declared payload length. Zero when `status` is `Some`.
    pub payload_length: u64,
    /// Object Status wire code, present only when the payload is empty.
    pub status: Option<u64>,
    /// Total bytes this object occupies on the wire, prefix fields included.
    pub wire_len: u64,
}

/// Whether an object carrying a given status may hold a non-empty payload.
///
/// Section 10.2.1.1: "Any object with a status code other than zero MUST
/// have an empty payload."
#[derive(Debug, Clone, Copy, PartialEq, Eq, Structural)]
pub enum PayloadPermission {
    /// A payload is permitted but not required.
    Permitted,
    /// The object has an empty payload; one carrying bytes is malformed.
    Forbidden,
}

/// The permission this draft gives objects carrying `status`.
pub open spec fn spec_permission_for(status: ObjectStatus) -> PayloadPermission {
    if status == ObjectStatus::Normal {
        PayloadPermission::Permitted
    } else {
        PayloadPermission::Forbidden
    }
}

impl PayloadPermission {
    /// The permission this draft gives objects carrying `status`.
    pub fn for_status(status: ObjectStatus) -> (r: Self)
        ensures
            r == spec_permission_for(status),
    {
        match status {
            ObjectStatus::Normal => PayloadPermission::Permitted,
            ObjectStatus::ObjectDoesNotExist => PayloadPermission::Forbidden,
            ObjectStatus::EndOfGroup => PayloadPermission::Forbidden,
            ObjectStatus::EndOfTrack => PayloadPermission::Forbidden,
        }
    }

    /// `true` for [`PayloadPermission::Permitted`].
    pub fn permits(self) -> (r: bool)
        ensures
            r == (self == PayloadPermission::Permitted),
    {
        match self {
            PayloadPermission::Permitted => true,
            PayloadPermission::Forbidden => false,
        }
    }
}

/// The status an object with this status field and payload length resolves
/// to: the wire carries a status only on an empty object, so an object
/// holding bytes is Normal whatever the field says.
pub open spec fn spec_resolved_status(status: Option<ObjectStatus>, payload_len: nat) -> ObjectStatus {
    if payload_len == 0 {
        match status {
            Some(s) => s,
            None => ObjectStatus::Normal,
        }
    } else {
        ObjectStatus::Normal
    }
}

/// The payload permission of a status wire code: `Permitted` when no code
/// is spelled, `None` for a code this draft does not assign.
pub open spec fn spec_code_permission(status: Option<u64>) -> Option<PayloadPermission> {
    match status {
        None => Some(PayloadPermission::Permitted),
        Some(code) => match ObjectStatus::spec_from_code(code) {
            Some(s) => Some(spec_permission_for(s)),
            None => None,
        },
    }
}

fn resolved_status(status: Option<ObjectStatus>, payload_is_empty: bool) -> (r: ObjectStatus)
    ensures
        payload_is_empty ==> r == spec_resolved_status(status, 0),
        !payload_is_empty ==> r == ObjectStatus::Normal,
{
    if payload_is_empty {
        match status {
            Some(s) => s,
            None => ObjectStatus::Normal,
        }
    } else {
        ObjectStatus::Normal
    }
}

fn code_permission(status: Option<u64>) -> (r: Option<PayloadPermission>)
    ensures
        r == spec_code_permission(status),
{
    match status {
        None => Some(PayloadPermission::Permitted),
        Some(code) => match ObjectStatus::from_u64(code) {
            Some(s) => Some(PayloadPermission::for_status(s)),
            None => None,
        },
    }
}

impl SubgroupObject {
    /// The status this object resolves to.
    pub fn status(&self) -> (r: ObjectStatus)
        ensures
            r == spec_resolved_status(self.status, self.payload@.len()),
    {
        resolved_status(self.status, self.payload.len() == 0)
    }

    /// Whether this object's status permits it a non-empty payload, answered
    /// from the status alone.
    pub fn permits_payload(&self) -> (r: bool)
        ensures
            r == (spec_resolved_status(self.status, self.payload@.len()) == ObjectStatus::Normal),
    {
        PayloadPermission::for_status(self.status()).permits()
    }
}

impl SubgroupObjectMeta {
    /// Whether this object's status permits it a non-empty payload; `None`
    /// for a status code this draft does not assign.
    pub fn payload_permission(&self) -> (r: Option<PayloadPermission>)
        ensures
            r == spec_code_permission(self.status),
    {
        code_permission(self.status)
    }
}

/// The Object ID a delta resolves to after `prev`: the first object's field
/// is its absolute ID, and every later one is the gap to its predecessor
/// less one. `None` when the sum overflows.
pub open spec fn spec_next_object_id(prev: Option<u64>, delta: u64) -> Option<u64> {
    match prev {
        None => Some(delta),
        Some(p) => if p + 1 + delta <= u64::MAX {
            Some((p + 1 + delta) as u64)
        } else {
            None
        },
    }
}

/// The delta that encodes `id` after `prev`; `None` when `id` is not
/// strictly greater than `prev`.
pub open spec fn spec_object_id_delta(prev: Option<u64>, id: u64) -> Option<u64> {
    match prev {
        None => Some(id),
        Some(p) => if id > p {
            Some((id - p - 1) as u64)
        } else {
            None
        },
    }
}

/// The Object Payload Length at `p` and what it announces: a status code
/// when it is zero (refused with `InvalidField` when this draft does not
/// assign the code), and otherwise that many payload bytes.
pub open spec fn spec_read_status_or_payload(s: Seq<u8>, p: int) -> Result<
    (Option<ObjectStatus>, Seq<u8>, int),
    CodecError,
> {
    match spec_varint_at(s, p) {
        None => Err(varint_end()),
        Some((plen, p3)) => if plen == 0 {
            match spec_varint_at(s, p3) {
                None => Err(varint_end()),
                Some((code, p4)) => match ObjectStatus::spec_from_code(code) {
                    None => Err(CodecError::InvalidField),
                    Some(st) => Ok((Some(st), Seq::empty(), p4)),
                },
            }
        } else {
            match spec_bytes_at(s, p3, plen) {
                None => Err(CodecError::UnexpectedEnd),
                Some((b, p4)) => Ok((None, b, p4)),
            }
        },
    }
}

/// The wire code of a status, if there is one.
pub open spec fn spec_opt_code(s: Option<ObjectStatus>) -> Option<u64> {
    match s {
        Some(st) => Some(st.spec_code()),
        None => None,
    }
}

/// The fields after the Object ID delta of a subgroup object.
pub open spec fn spec_read_object_body(ext: bool, oid: u64, s: Seq<u8>, p: int) -> Result<
    (SubgroupObjectView, int),
    CodecError,
> {
    match spec_read_extensions(ext, s, p) {
        Err(e) => Err(e),
        Ok((x, p2)) => match spec_read_status_or_payload(s, p2) {
            Err(e) => Err(e),
            Ok((st, payload, p4)) => match spec_check_extensions_against_status(
                spec_opt_code(st),
                x.len() as u64,
            ) {
                Err(e) => Err(e),
                Ok(_) => Ok(
                    (
                        SubgroupObjectView {
                            object_id: oid,
                            extension_headers: x,
                            status: st,
                            payload: payload,
                        },
                        p4,
                    ),
                ),
            },
        },
    }
}

/// What [`SubgroupObjectReader::read_object`] reads from the start of `s`
/// under reader state `(ext, prev)`: the state's new previous Object ID, and
/// the object with the bytes it consumed.
///
/// The previous Object ID moves as soon as the delta resolves, before the
/// rest of the object is read.
pub open spec fn spec_read_object(ext: bool, prev: Option<u64>, s: Seq<u8>) -> (
    Option<u64>,
    Result<(SubgroupObjectView, int), CodecError>,
) {
    match spec_varint_at(s, 0) {
        None => (prev, Err(varint_end())),
        Some((delta, p1)) => match spec_next_object_id(prev, delta) {
            None => (prev, Err(CodecError::InvalidField)),
            Some(oid) => (
                Some(oid),
                if oid >= VARINT_BOUND {
                    Err(CodecError::InvalidField)
                } else {
                    spec_read_object_body(ext, oid, s, p1)
                },
            ),
        },
    }
}

/// The fields after the Object ID delta of a subgroup object, framing only.
pub open spec fn spec_read_object_meta_body(ext: bool, oid: u64, s: Seq<u8>, p: int) -> Result<
    (SubgroupObjectMeta, int),
    CodecError,
> {
    match spec_read_extensions(ext, s, p) {
        Err(e) => Err(e),
        Ok((x, p2)) => match spec_read_status_or_payload(s, p2) {
            Err(e) => Err(e),
            Ok((st, payload, p4)) => match spec_check_extensions_against_status(
                spec_opt_code(st),
                x.len() as u64,
            ) {
                Err(e) => Err(e),
                Ok(_) => Ok(
                    (
                        SubgroupObjectMeta {
                            object_id: oid,
                            extension_headers_len: x.len() as u64,
                            payload_length: payload.len() as u64,
                            status: spec_opt_code(st),
                            wire_len: p4 as u64,
                        },
                        p4,
                    ),
                ),
            },
        },
    }
}

/// What [`SubgroupObjectReader::read_object_meta`] reads from the start of
/// `s` under reader state `(ext, prev)`.
pub open spec fn spec_read_object_meta(ext: bool, prev: Option<u64>, s: Seq<u8>) -> (
    Option<u64>,
    Result<(SubgroupObjectMeta, int), CodecError>,
) {
    match spec_varint_at(s, 0) {
        None => (prev, Err(varint_end())),
        Some((delta, p1)) => match spec_next_object_id(prev, delta) {
            None => (prev, Err(CodecError::InvalidField)),
            Some(oid) => (
                Some(oid),
                if oid >= VARINT_BOUND {
                    Err(CodecError::InvalidField)
                } else {
                    spec_read_object_meta_body(ext, oid, s, p1)
                },
            ),
        },
    }
}

/// The status [`SubgroupObjectReader::write_object`] puts on the wire for
/// `o`, or the refusal of a non-Normal status beside a payload.
pub open spec fn spec_explicit_status(o: SubgroupObjectView) -> Result<Option<ObjectStatus>, CodecError> {
    match o.status {
        Some(st) => if st != ObjectStatus::Normal {
            if o.payload.len() != 0 {
                Err(CodecError::InvalidField)
            } else {
                Ok(Some(st))
            }
        } else if o.payload.len() == 0 {
            Ok(Some(ObjectStatus::Normal))
        } else {
            Ok(None)
        },
        None => Ok(None),
    }
}

/// A zero length and the status code when there is a status to spell, and
/// otherwise the payload length and the payload.
pub open spec fn spec_encode_status_or_payload(explicit: Option<ObjectStatus>, payload: Seq<u8>) -> Seq<u8> {
    match explicit {
        Some(st) => spec_varint_encode(0) + spec_varint_encode(st.spec_code()),
        None => spec_varint_encode(payload.len() as u64) + payload,
    }
}

/// What [`SubgroupObjectReader::write_object`] writes for `o` under reader
/// state `(ext, prev)`, or why it refuses.
pub open spec fn spec_write_object(ext: bool, prev: Option<u64>, o: SubgroupObjectView) -> Result<
    Seq<u8>,
    CodecError,
> {
    match spec_explicit_status(o) {
        Err(e) => Err(e),
        Ok(explicit) => if !ext && o.extension_headers.len() != 0 {
            Err(CodecError::InvalidField)
        } else {
            match spec_check_extensions_against_status(
                spec_opt_code(explicit),
                o.extension_headers.len() as u64,
            ) {
                Err(e) => Err(e),
                Ok(_) => match spec_object_id_delta(prev, o.object_id) {
                    None => Err(CodecError::InvalidField),
                    Some(delta) => Ok(
                        spec_varint_encode(delta) + spec_encode_extensions(ext, o.extension_headers)
                            + spec_encode_status_or_payload(explicit, o.payload),
                    ),
                },
            }
        },
    }
}

fn read_status_or_payload(buf: &[u8], pos: usize) -> (r: Result<
    (Option<ObjectStatus>, Vec<u8>, usize),
    CodecError,
>)
    ensures
        match spec_read_status_or_payload(buf@, pos as int) {
            Ok((st, b, q)) => (r matches Ok((st2, v, n)) && st2 == st && v@ == b && n == q),
            Err(e) => r == Err::<(Option<ObjectStatus>, Vec<u8>, usize), CodecError>(e),
        },
{
    let (payload_length, p3) = read_varint_u64(buf, pos)?;
    if payload_length == 0 {
        let (status_val, p4) = read_varint_u64(buf, p3)?;
        match ObjectStatus::from_u64(status_val) {
            Some(st) => Ok((Some(st), Vec::new(), p4)),
            None => Err(CodecError::InvalidField),
        }
    } else {
        let (payload, p4) = read_bytes(buf, p3, payload_length)?;
        Ok((None, payload, p4))
    }
}

fn skip_status_or_payload(buf: &[u8], pos: usize) -> (r: Result<
    (Option<ObjectStatus>, u64, usize),
    CodecError,
>)
    ensures
        match spec_read_status_or_payload(buf@, pos as int) {
            Ok((st, b, q)) => (r matches Ok((st2, l, n)) && st2 == st && l == b.len() && n == q),
            Err(e) => r == Err::<(Option<ObjectStatus>, u64, usize), CodecError>(e),
        },
{
    let (payload_length, p3) = read_varint_u64(buf, pos)?;
    if payload_length == 0 {
        let (status_val, p4) = read_varint_u64(buf, p3)?;
        match ObjectStatus::from_u64(status_val) {
            Some(st) => Ok((Some(st), 0, p4)),
            None => Err(CodecError::InvalidField),
        }
    } else {
        let p4 = skip(buf, p3, payload_length)?;
        Ok((None, payload_length, p4))
    }
}

fn opt_code(st: Option<ObjectStatus>) -> (r: Option<u64>)
    ensures
        r == spec_opt_code(st),
{
    match st {
        Some(s) => Some(s.as_u64()),
        None => None,
    }
}

fn encode_status_or_payload(explicit: Option<ObjectStatus>, payload: &Vec<u8>, buf: &mut Vec<u8>)
    requires
        payload@.len() < VARINT_BOUND,
    ensures
        final(buf)@ == old(buf)@ + spec_encode_status_or_payload(explicit, payload@),
{
    let ghost start = buf@;
    match explicit {
        Some(status) => {
            VarInt::from_usize(0).encode(buf);
            let ghost mid = buf@;
            match VarInt::from_u64(status.as_u64()) {
                Ok(code) => code.encode(buf),
                Err(_) => {},
            }
            assert(buf@ =~= start + spec_encode_status_or_payload(explicit, payload@));
        },
        None => {
            VarInt::from_usize(payload.len()).encode(buf);
            put_slice(buf, payload.as_slice());
            assert(buf@ =~= start + spec_encode_status_or_payload(explicit, payload@));
        },
    }
}

/// A status or payload as [`SubgroupObjectReader::write_object`] writes it
/// is read back as written.
pub proof fn lemma_status_or_payload_roundtrip(
    pre: Seq<u8>,
    explicit: Option<ObjectStatus>,
    payload: Seq<u8>,
    post: Seq<u8>,
)
    requires
        payload.len() < VARINT_BOUND,
        explicit is Some ==> payload.len() == 0,
        explicit is None ==> payload.len() != 0,
    ensures
        spec_read_status_or_payload(
            pre + spec_encode_status_or_payload(explicit, payload) + post,
            pre.len() as int,
        ) == Ok::<(Option<ObjectStatus>, Seq<u8>, int), CodecError>(
            (explicit, payload, (pre.len() + spec_encode_status_or_payload(explicit, payload).len()) as int),
        ),
{
    broadcast use ObjectStatus::lemma_from_code_of_code;

    let e = spec_encode_status_or_payload(explicit, payload);
    let s = pre + e + post;
    match explicit {
        Some(st) => {
            let z = spec_varint_encode(0);
            let c = spec_varint_encode(st.spec_code());
            assert(s =~= pre + z + (c + post));
            lemma_varint_roundtrip(pre, 0, c + post);
            assert(s =~= (pre + z) + c + post);
            lemma_varint_roundtrip(pre + z, st.spec_code(), post);
            assert(payload =~= Seq::<u8>::empty());
        },
        None => {
            let l = spec_varint_encode(payload.len() as u64);
            assert(s =~= pre + l + (payload + post));
            lemma_varint_roundtrip(pre, payload.len() as u64, payload + post);
            assert(s =~= (pre + l) + payload + post);
            lemma_bytes_roundtrip(pre + l, payload, post);
        },
    }
}

/// What reading an object back gives for `o`: the wire carries a status only
/// beside an empty payload, so a status beside bytes does not survive.
pub open spec fn spec_object_as_read(o: SubgroupObjectView) -> SubgroupObjectView {
    SubgroupObjectView {
        object_id: o.object_id,
        extension_headers: o.extension_headers,
        status: if o.payload.len() == 0 {
            o.status
        } else {
            None
        },
        payload: o.payload,
    }
}

/// Reading an object's framing agrees with reading the object: the same
/// bytes are consumed, the same previous Object ID is left behind, the same
/// errors are reported, and the framing describes the object read.
pub proof fn lemma_meta_matches_read_object(ext: bool, prev: Option<u64>, s: Seq<u8>)
    requires
        s.len() <= u64::MAX,
    ensures
        ({
            let (np1, r1) = spec_read_object(ext, prev, s);
            let (np2, r2) = spec_read_object_meta(ext, prev, s);
            &&& np1 == np2
            &&& r1 is Ok <==> r2 is Ok
            &&& r1 is Err ==> r1->Err_0 == r2->Err_0
            &&& r1 is Ok ==> {
                let (o, n1) = r1->Ok_0;
                let (m, n2) = r2->Ok_0;
                &&& n1 == n2
                &&& m.object_id == o.object_id
                &&& m.extension_headers_len == o.extension_headers.len()
                &&& m.payload_length == o.payload.len()
                &&& m.status == spec_opt_code(o.status)
                &&& m.wire_len == n1
            }
        }),
{
    match spec_varint_at(s, 0) {
        None => {},
        Some((delta, p1)) => match spec_next_object_id(prev, delta) {
            None => {},
            Some(oid) => {
                if oid < VARINT_BOUND {
                    match spec_read_extensions(ext, s, p1) {
                        Err(_) => {},
                        Ok((x, p2)) => {
                            assert(x.len() <= u64::MAX);
                            match spec_read_status_or_payload(s, p2) {
                                Err(_) => {},
                                Ok((st, payload, p4)) => {
                                    assert(payload.len() <= u64::MAX);
                                },
                            }
                        },
                    }
                }
            },
        },
    }
}

/// An object [`SubgroupObjectReader::write_object`] accepts is read back by
/// [`SubgroupObjectReader::read_object`] from the bytes written, whatever
/// follows them, leaving both ends with the same previous Object ID.
///
/// Excluded: an object with no status and an empty payload, for which the
/// writer puts a zero length and no status field on the wire, so the reader
/// takes the next byte for the status.
#[verifier::rlimit(50)]
pub proof fn lemma_subgroup_object_roundtrip(
    ext: bool,
    prev: Option<u64>,
    o: SubgroupObjectView,
    rest: Seq<u8>,
)
    requires
        spec_write_object(ext, prev, o) is Ok,
        o.object_id < VARINT_BOUND,
        o.extension_headers.len() < VARINT_BOUND,
        o.payload.len() < VARINT_BOUND,
        !(o.status is None && o.payload.len() == 0),
    ensures
        ({
            let bytes = spec_write_object(ext, prev, o)->Ok_0;
            spec_read_object(ext, prev, bytes + rest) == (
                Some(o.object_id),
                Ok::<(SubgroupObjectView, int), CodecError>(
                    (spec_object_as_read(o), bytes.len() as int),
                ),
            )
        }),
{
    let explicit = spec_explicit_status(o)->Ok_0;
    let delta = spec_object_id_delta(prev, o.object_id)->Some_0;
    let e1 = spec_varint_encode(delta);
    let e2 = spec_encode_extensions(ext, o.extension_headers);
    let e3 = spec_encode_status_or_payload(explicit, o.payload);
    let bytes = spec_write_object(ext, prev, o)->Ok_0;
    assert(bytes == e1 + e2 + e3);
    let s = bytes + rest;
    assert(s =~= Seq::<u8>::empty() + e1 + (e2 + e3 + rest));
    lemma_varint_roundtrip(Seq::<u8>::empty(), delta, e2 + e3 + rest);
    assert(spec_varint_at(s, 0) == Some((delta, e1.len() as int)));
    assert(spec_next_object_id(prev, delta) == Some(o.object_id));
    assert(s =~= e1 + e2 + (e3 + rest));
    lemma_extensions_roundtrip(ext, e1, o.extension_headers, e3 + rest);
    assert(s =~= (e1 + e2) + e3 + rest);
    lemma_status_or_payload_roundtrip(e1 + e2, explicit, o.payload, rest);
    assert(explicit == spec_object_as_read(o).status);
}

/// Stateful reader (and writer) for the objects of one subgroup stream: it
/// remembers whether objects carry extension blocks and the previous
/// Object ID, against which the next delta is resolved.
#[derive(Debug, Clone)]
pub struct SubgroupObjectReader {
    extensions_present: bool,
    prev_object_id: Option<u64>,
}

impl View for SubgroupObjectReader {
    type V = (bool, Option<u64>);

    closed spec fn view(&self) -> (bool, Option<u64>) {
        (self.extensions_present, self.prev_object_id)
    }
}

impl SubgroupObjectReader {
    /// Create a reader from a parsed subgroup header.
    pub fn new(header: &SubgroupHeader) -> (r: Self)
        ensures
            r@ == (header.stream_type@ & 0x01 != 0, None::<u64>),
    {
        Self { extensions_present: header.stream_type.extensions_present(), prev_object_id: None }
    }

    /// Decode the next object from the start of `buf`, with the number of
    /// bytes it occupies.
    pub fn read_object(&mut self, buf: &[u8]) -> (r: Result<(SubgroupObject, usize), CodecError>)
        ensures
            final(self)@.0 == old(self)@.0,
            ({
                let (np, res) = spec_read_object(old(self)@.0, old(self)@.1, buf@);
                &&& final(self)@.1 == np
                &&& match res {
                    Ok((o, n)) => (r matches Ok((x, m)) && x@ == o && m == n),
                    Err(e) => r == Err::<(SubgroupObject, usize), CodecError>(e),
                }
            }),
    {
        let (delta, p1) = read_varint_u64(buf, 0)?;
        let object_id_val = match self.prev_object_id {
            None => delta,
            Some(prev) => {
                if prev > u64::MAX - 1 || delta > u64::MAX - 1 - prev {
                    return Err(CodecError::InvalidField);
                }
                prev + 1 + delta
            },
        };
        self.prev_object_id = Some(object_id_val);
        let object_id = match VarInt::from_u64(object_id_val) {
            Ok(v) => v,
            Err(_) => return Err(CodecError::InvalidField),
        };
        let (extension_headers, p2) = read_extensions(self.extensions_present, buf, p1)?;
        let (status, payload, p4) = read_status_or_payload(buf, p2)?;
        check_extensions_against_status(opt_code(status), extension_headers.len() as u64)?;
        Ok((SubgroupObject { object_id, extension_headers, status, payload }, p4))
    }

    /// Decode the next object's framing without copying its payload.
    /// Consumes exactly the bytes [`Self::read_object`] consumes and leaves
    /// the same state behind.
    pub fn read_object_meta(&mut self, buf: &[u8]) -> (r: Result<(SubgroupObjectMeta, usize), CodecError>)
        ensures
            final(self)@.0 == old(self)@.0,
            ({
                let (np, res) = spec_read_object_meta(old(self)@.0, old(self)@.1, buf@);
                &&& final(self)@.1 == np
                &&& match res {
                    Ok((m, n)) => (r matches Ok((x, k)) && x == m && k == n),
                    Err(e) => r == Err::<(SubgroupObjectMeta, usize), CodecError>(e),
                }
            }),
    {
        let (delta, p1) = read_varint_u64(buf, 0)?;
        let object_id = match self.prev_object_id {
            None => delta,
            Some(prev) => {
                if prev > u64::MAX - 1 || delta > u64::MAX - 1 - prev {
                    return Err(CodecError::InvalidField);
                }
                prev + 1 + delta
            },
        };
        self.prev_object_id = Some(object_id);
        if object_id >= VARINT_BOUND {
            return Err(CodecError::InvalidField);
        }
        let (extension_headers_len, p2) = skip_extensions(self.extensions_present, buf, p1)?;
        let (status, payload_length, p4) = skip_status_or_payload(buf, p2)?;
        let status = opt_code(status);
        check_extensions_against_status(status, extension_headers_len)?;
        Ok((SubgroupObjectMeta { object_id, extension_headers_len, payload_length, status, wire_len: p4 as u64 }, p4))
    }

    /// Serialize an object against the reader's delta state and advance it.
    ///
    /// Refuses, before writing anything: an Object ID not strictly greater
    /// than the previous one; a non-empty payload beside a status other than
    /// Normal; extension headers on a stream whose type has none; and
    /// extension headers on an Object Does Not Exist status.
    pub fn write_object(&mut self, object: &SubgroupObject, buf: &mut Vec<u8>) -> (r: Result<(), CodecError>)
        requires
            object.extension_headers@.len() < VARINT_BOUND,
            object.payload@.len() < VARINT_BOUND,
        ensures
            final(self)@.0 == old(self)@.0,
            match spec_write_object(old(self)@.0, old(self)@.1, object@) {
                Ok(bytes) => r == Ok::<(), CodecError>(()) && final(buf)@ == old(buf)@ + bytes
                    && final(self)@.1 == Some(object@.object_id),
                Err(e) => r == Err::<(), CodecError>(e) && final(buf)@ == old(buf)@
                    && final(self)@.1 == old(self)@.1,
            },
    {
        let explicit_status = match object.status {
            Some(status) => {
                if status != ObjectStatus::Normal {
                    if object.payload.len() != 0 {
                        return Err(CodecError::InvalidField);
                    }
                    Some(status)
                } else if object.payload.len() == 0 {
                    Some(ObjectStatus::Normal)
                } else {
                    None
                }
            },
            None => None,
        };
        if !self.extensions_present && object.extension_headers.len() != 0 {
            return Err(CodecError::InvalidField);
        }
        let explicit_code = match explicit_status {
            Some(s) => Some(s.as_u64()),
            None => None,
        };
        check_extensions_against_status(explicit_code, object.extension_headers.len() as u64)?;
        let oid = object.object_id.into_inner();
        let delta = match self.prev_object_id {
            None => oid,
            Some(prev) => {
                if oid <= prev {
                    return Err(CodecError::InvalidField);
                }
                oid - prev - 1
            },
        };
        let ghost start = buf@;
        let delta_vi = match VarInt::from_u64(delta) {
            Ok(v) => v,
            Err(_) => return Err(CodecError::InvalidField),
        };
        delta_vi.encode(buf);
        encode_extensions(self.extensions_present, &object.extension_headers, buf);
        encode_status_or_payload(explicit_status, &object.payload, buf);
        assert(buf@ =~= start + (spec_varint_encode(delta) + spec_encode_extensions(
            self.extensions_present,
            object.extension_headers@,
        ) + spec_encode_status_or_payload(explicit_status, object.payload@)));
        self.prev_object_id = Some(oid);
        Ok(())
    }
}

/// A successful read of a status or payload is not changed by more bytes
/// after it.
pub proof fn lemma_status_or_payload_prefix(a: Seq<u8>, s: Seq<u8>, p: int)
    requires
        spec_is_prefix(a, s),
        spec_read_status_or_payload(a, p) is Ok,
    ensures
        spec_read_status_or_payload(s, p) == spec_read_status_or_payload(a, p),
{
    lemma_varint_at_prefix(a, s, p);
    let (plen, q) = spec_varint_at(a, p)->Some_0;
    if plen == 0 {
        lemma_varint_at_prefix(a, s, q);
    } else {
        lemma_bytes_at_prefix(a, s, q, plen);
    }
}

/// A status or payload as written is read back as written.
pub proof fn lemma_status_or_payload_encoded(pre: Seq<u8>, explicit: Option<ObjectStatus>, payload: Seq<u8>)
    requires
        payload.len() < VARINT_BOUND,
        explicit is Some ==> payload.len() == 0,
        explicit is None ==> payload.len() != 0,
    ensures
        spec_read_status_or_payload(pre + spec_encode_status_or_payload(explicit, payload), pre.len() as int)
            == Ok::<(Option<ObjectStatus>, Seq<u8>, int), CodecError>(
            (explicit, payload, (pre + spec_encode_status_or_payload(explicit, payload)).len() as int),
        ),
{
    lemma_status_or_payload_roundtrip(pre, explicit, payload, Seq::empty());
    assert(pre + spec_encode_status_or_payload(explicit, payload) + Seq::<u8>::empty() =~= pre
        + spec_encode_status_or_payload(explicit, payload));
}

// ============================================================
// Fetch stream (Type 0x05)
// ============================================================

/// Fetch stream header: the type byte `0x05` followed by the Request ID.
#[derive(Debug, Clone, Copy, PartialEq, Eq, Structural)]
pub struct FetchHeader {
    /// Request ID from the originating FETCH control message.
    pub request_id: VarInt,
}

/// The bytes [`FetchHeader::encode`] writes.
pub open spec fn spec_encode_fetch_header(h: FetchHeader) -> Seq<u8> {
    spec_varint_encode(0x05) + spec_varint_encode(h.request_id@)
}

/// What [`FetchHeader::decode`] reads from the start of `s`.
pub open spec fn spec_decode_fetch_header(s: Seq<u8>) -> Result<(FetchHeader, int), CodecError> {
    match spec_varint_at(s, 0) {
        None => Err(varint_end()),
        Some((t, p1)) => if t != 0x05 {
            Err(spec_stream_type_error(t))
        } else {
            match spec_varint_at(s, p1) {
                None => Err(varint_end()),
                Some((rid, p2)) => Ok((FetchHeader { request_id: VarInt::spec_new(rid) }, p2)),
            }
        },
    }
}

impl FetchHeader {
    /// Encode the header including the leading type byte.
    pub fn encode(&self, buf: &mut Vec<u8>)
        ensures
            final(buf)@ == old(buf)@ + spec_encode_fetch_header(*self),
    {
        VarInt::from_usize(FETCH_STREAM_TYPE as usize).encode(buf);
        self.request_id.encode(buf);
        assert(buf@ =~= old(buf)@ + spec_encode_fetch_header(*self));
    }

    /// Decode the header from the start of `buf`. A leading type the stream
    /// table does not assign is `UnknownStreamType`; a subgroup type is
    /// `InvalidField`.
    pub fn decode(buf: &[u8]) -> (r: Result<(FetchHeader, usize), CodecError>)
        ensures
            match spec_decode_fetch_header(buf@) {
                Ok((h, n)) => (r matches Ok((x, k)) && x == h && k == n),
                Err(e) => r == Err::<(FetchHeader, usize), CodecError>(e),
            },
    {
        let (type_val, p1) = read_varint_u64(buf, 0)?;
        if type_val != FETCH_STREAM_TYPE as u64 {
            return Err(stream_type_error(type_val));
        }
        let (request_id, p2) = read_varint(buf, p1)?;
        Ok((FetchHeader { request_id }, p2))
    }
}

/// A fetch header is read back from its own encoding, whatever follows it.
pub proof fn lemma_fetch_header_roundtrip(h: FetchHeader, rest: Seq<u8>)
    requires
        h.request_id@ < VARINT_BOUND,
    ensures
        spec_decode_fetch_header(spec_encode_fetch_header(h) + rest) == Ok::<(FetchHeader, int), CodecError>(
            (h, spec_encode_fetch_header(h).len() as int),
        ),
{
    let e1 = spec_varint_encode(0x05);
    let e2 = spec_varint_encode(h.request_id@);
    let s = spec_encode_fetch_header(h) + rest;
    assert(s =~= Seq::<u8>::empty() + e1 + (e2 + rest));
    lemma_varint_roundtrip(Seq::<u8>::empty(), 0x05, e2 + rest);
    assert(s =~= e1 + e2 + rest);
    lemma_varint_roundtrip(e1, h.request_id@, rest);
}

/// One object carried on a fetch stream. Every object is self-describing:
/// no delta encoding, and the extension block is always length-prefixed.
#[derive(Debug, Clone, PartialEq, Eq)]
pub struct FetchObject {
    /// Group ID.
    pub group_id: VarInt,
    /// Subgroup ID.
    pub subgroup_id: VarInt,
    /// Object ID.
    pub object_id: VarInt,
    /// Publisher priority.
    pub publisher_priority: u8,
    /// Raw extension-header bytes.
    pub extension_headers: Vec<u8>,
    /// Object status when the payload is empty, otherwise `None`.
    pub status: Option<ObjectStatus>,
    /// Object payload.
    pub payload: Vec<u8>,
}

/// The mathematical value of a [`FetchObject`].
pub struct FetchObjectView {
    pub group_id: u64,
    pub subgroup_id: u64,
    pub object_id: u64,
    pub publisher_priority: u8,
    pub extension_headers: Seq<u8>,
    pub status: Option<ObjectStatus>,
    pub payload: Seq<u8>,
}

impl View for FetchObject {
    type V = FetchObjectView;

    open spec fn view(&self) -> FetchObjectView {
        FetchObjectView {
            group_id: self.group_id@,
            subgroup_id: self.subgroup_id@,
            object_id: self.object_id@,
            publisher_priority: self.publisher_priority,
            extension_headers: self.extension_headers@,
            status: self.status,
            payload: self.payload@,
        }
    }
}

/// The framing of one fetch object, without its payload.
#[derive(Debug, Clone, Copy, PartialEq, Eq, Structural)]
pub struct FetchObjectMeta {
    /// Group ID.
    pub group_id: u64,
    /// Subgroup ID.
    pub subgroup_id: u64,
    /// Object ID.
    pub object_id: u64,
    /// Publisher priority.
    pub publisher_priority: u8,
    /// Length of the extension-header block, excluding its length prefix.
    pub extension_headers_len: u64,
    /// Declared payload length. Zero when `status` is `Some`.
    pub payload_length: u64,
    /// Object Status wire code, present only when the payload is empty.
    pub status: Option<u64>,
    /// Total bytes this object occupies on the wire, prefix fields included.
    pub wire_len: u64,
}

impl FetchObjectMeta {
    /// Whether this object's status permits it a non-empty payload; `None`
    /// for a status code this draft does not assign.
    pub fn payload_permission(&self) -> (r: Option<PayloadPermission>)
        ensures
            r == spec_code_permission(self.status),
    {
        code_permission(self.status)
    }
}

/// The bytes [`FetchObject::encode`] writes: the status, when one is set,
/// decides the framing and any payload beside it is dropped.
pub open spec fn spec_encode_fetch_object(o: FetchObjectView) -> Seq<u8> {
    spec_varint_encode(o.group_id) + spec_varint_encode(o.subgroup_id) + spec_varint_encode(
        o.object_id,
    ) + seq![o.publisher_priority] + spec_encode_extensions(true, o.extension_headers)
        + spec_encode_status_or_payload(o.status, o.payload)
}

/// The status [`FetchObject::encode_checked`] puts on the wire: a non-Normal
/// status beside a payload is refused, and Normal beside a payload is written
/// as an ordinary payload-bearing object.
pub open spec fn spec_fetch_explicit_status(o: FetchObjectView) -> Result<Option<ObjectStatus>, CodecError> {
    match o.status {
        Some(st) => if st != ObjectStatus::Normal && o.payload.len() != 0 {
            Err(CodecError::InvalidField)
        } else if st == ObjectStatus::Normal && o.payload.len() != 0 {
            Ok(None)
        } else {
            Ok(Some(st))
        },
        None => Ok(None),
    }
}

/// What [`FetchObject::encode_checked`] writes, or why it refuses.
pub open spec fn spec_encode_fetch_object_checked(o: FetchObjectView) -> Result<Seq<u8>, CodecError> {
    match spec_fetch_explicit_status(o) {
        Err(e) => Err(e),
        Ok(explicit) => match spec_check_extensions_against_status(
            spec_opt_code(o.status),
            o.extension_headers.len() as u64,
        ) {
            Err(e) => Err(e),
            Ok(_) => Ok(
                spec_encode_fetch_object(
                    FetchObjectView { status: explicit, ..o },
                ),
            ),
        },
    }
}

/// The extension block, status or payload, and the rule binding them, that
/// end a fetch object.
pub open spec fn spec_decode_fetch_object_tail(s: Seq<u8>, p: int) -> Result<
    (Seq<u8>, Option<ObjectStatus>, Seq<u8>, int),
    CodecError,
> {
    match spec_read_extensions(true, s, p) {
        Err(e) => Err(e),
        Ok((x, p5)) => match spec_read_status_or_payload(s, p5) {
            Err(e) => Err(e),
            Ok((st, payload, p6)) => match spec_check_extensions_against_status(
                spec_opt_code(st),
                x.len() as u64,
            ) {
                Err(e) => Err(e),
                Ok(_) => Ok((x, st, payload, p6)),
            },
        },
    }
}

/// What [`FetchObject::decode`] reads from the start of `s`.
pub open spec fn spec_decode_fetch_object(s: Seq<u8>) -> Result<(FetchObjectView, int), CodecError> {
    match spec_varint_at(s, 0) {
        None => Err(varint_end()),
        Some((g, p1)) => match spec_varint_at(s, p1) {
            None => Err(varint_end()),
            Some((sg, p2)) => match spec_varint_at(s, p2) {
                None => Err(varint_end()),
                Some((oid, p3)) => match spec_u8_at(s, p3) {
                    None => Err(CodecError::UnexpectedEnd),
                    Some((prio, p4)) => match spec_decode_fetch_object_tail(s, p4) {
                        Err(e) => Err(e),
                        Ok((x, st, payload, p6)) => Ok(
                            (
                                FetchObjectView {
                                    group_id: g,
                                    subgroup_id: sg,
                                    object_id: oid,
                                    publisher_priority: prio,
                                    extension_headers: x,
                                    status: st,
                                    payload: payload,
                                },
                                p6,
                            ),
                        ),
                    },
                },
            },
        },
    }
}

/// What [`FetchObject::decode_meta`] reads from the start of `s`: the
/// framing [`FetchObject::decode`] reads, described without the payload.
pub open spec fn spec_decode_fetch_object_meta(s: Seq<u8>) -> Result<(FetchObjectMeta, int), CodecError> {
    match spec_decode_fetch_object(s) {
        Err(e) => Err(e),
        Ok((o, n)) => Ok(
            (
                FetchObjectMeta {
                    group_id: o.group_id,
                    subgroup_id: o.subgroup_id,
                    object_id: o.object_id,
                    publisher_priority: o.publisher_priority,
                    extension_headers_len: o.extension_headers.len() as u64,
                    payload_length: o.payload.len() as u64,
                    status: spec_opt_code(o.status),
                    wire_len: n as u64,
                },
                n,
            ),
        ),
    }
}

impl FetchObject {
    /// The status this object resolves to.
    pub fn status(&self) -> (r: ObjectStatus)
        ensures
            r == spec_resolved_status(self.status, self.payload@.len()),
    {
        resolved_status(self.status, self.payload.len() == 0)
    }

    /// Whether this object's status permits it a non-empty payload.
    pub fn permits_payload(&self) -> (r: bool)
        ensures
            r == (spec_resolved_status(self.status, self.payload@.len()) == ObjectStatus::Normal),
    {
        PayloadPermission::for_status(self.status()).permits()
    }

    /// Encode one fetch object, refusing before writing anything a status
    /// other than Normal beside a payload, and extension headers on an Object
    /// Does Not Exist status. Normal beside a payload is written as an
    /// ordinary payload-bearing object.
    pub fn encode_checked(&self, buf: &mut Vec<u8>) -> (r: Result<(), CodecError>)
        requires
            self.extension_headers@.len() < VARINT_BOUND,
            self.payload@.len() < VARINT_BOUND,
        ensures
            match spec_encode_fetch_object_checked(self@) {
                Ok(bytes) => r == Ok::<(), CodecError>(()) && final(buf)@ == old(buf)@ + bytes,
                Err(e) => r == Err::<(), CodecError>(e) && final(buf)@ == old(buf)@,
            },
    {
        let explicit = match self.status {
            Some(st) => {
                if st != ObjectStatus::Normal && self.payload.len() != 0 {
                    return Err(CodecError::InvalidField);
                } else if st == ObjectStatus::Normal && self.payload.len() != 0 {
                    None
                } else {
                    Some(st)
                }
            },
            None => None,
        };
        check_extensions_against_status(opt_code(self.status), self.extension_headers.len() as u64)?;
        self.encode_with_status(explicit, buf);
        Ok(())
    }

    /// Encode one fetch object. The status, when one is set, decides the
    /// framing, and a payload set beside it is dropped without a word;
    /// [`Self::encode_checked`] refuses that combination instead.
    pub fn encode(&self, buf: &mut Vec<u8>)
        requires
            self.extension_headers@.len() < VARINT_BOUND,
            self.payload@.len() < VARINT_BOUND,
        ensures
            final(buf)@ == old(buf)@ + spec_encode_fetch_object(self@),
    {
        self.encode_with_status(self.status, buf);
    }

    fn encode_with_status(&self, status: Option<ObjectStatus>, buf: &mut Vec<u8>)
        requires
            self.extension_headers@.len() < VARINT_BOUND,
            self.payload@.len() < VARINT_BOUND,
        ensures
            final(buf)@ == old(buf)@ + spec_encode_fetch_object(FetchObjectView { status: status, ..self@ }),
    {
        let ghost start = buf@;
        self.group_id.encode(buf);
        self.subgroup_id.encode(buf);
        self.object_id.encode(buf);
        buf.push(self.publisher_priority);
        encode_extensions(true, &self.extension_headers, buf);
        encode_status_or_payload(status, &self.payload, buf);
        assert(buf@ =~= start + spec_encode_fetch_object(FetchObjectView { status: status, ..self@ }));
    }

    /// Decode one fetch object from the start of `buf`, with the number of
    /// bytes it occupies.
    pub fn decode(buf: &[u8]) -> (r: Result<(FetchObject, usize), CodecError>)
        ensures
            match spec_decode_fetch_object(buf@) {
                Ok((o, n)) => (r matches Ok((x, k)) && x@ == o && k == n),
                Err(e) => r == Err::<(FetchObject, usize), CodecError>(e),
            },
    {
        let (group_id, p1) = read_varint(buf, 0)?;
        let (subgroup_id, p2) = read_varint(buf, p1)?;
        let (object_id, p3) = read_varint(buf, p2)?;
        let (publisher_priority, p4) = read_u8(buf, p3)?;
        let (extension_headers, p5) = read_extensions(true, buf, p4)?;
        let (status, payload, p6) = read_status_or_payload(buf, p5)?;
        check_extensions_against_status(opt_code(status), extension_headers.len() as u64)?;
        Ok((FetchObject { group_id, subgroup_id, object_id, publisher_priority, extension_headers, status, payload }, p6))
    }

    /// Decode one fetch object's framing without copying its payload.
    /// Consumes exactly the bytes [`Self::decode`] consumes.
    pub fn decode_meta(buf: &[u8]) -> (r: Result<(FetchObjectMeta, usize), CodecError>)
        ensures
            match spec_decode_fetch_object_meta(buf@) {
                Ok((m, n)) => (r matches Ok((x, k)) && x == m && k == n),
                Err(e) => r == Err::<(FetchObjectMeta, usize), CodecError>(e),
            },
    {
        proof {
            match spec_decode_fetch_object(buf@) {
                Ok((o, n)) => {
                    assert(o.extension_headers.len() <= u64::MAX);
                    assert(o.payload.len() <= u64::MAX);
                },
                Err(_) => {},
            }
        }
        let (group_id, p1) = read_varint_u64(buf, 0)?;
        let (subgroup_id, p2) = read_varint_u64(buf, p1)?;
        let (object_id, p3) = read_varint_u64(buf, p2)?;
        let (publisher_priority, p4) = read_u8(buf, p3)?;
        let (extension_headers_len, p5) = skip_extensions(true, buf, p4)?;
        let (status, payload_length, p6) = skip_status_or_payload(buf, p5)?;
        let status = opt_code(status);
        check_extensions_against_status(status, extension_headers_len)?;
        Ok((FetchObjectMeta { group_id, subgroup_id, object_id, publisher_priority, extension_headers_len, payload_length, status, wire_len: p6 as u64 }, p6))
    }
}

/// A fetch object whose status and payload agree is read back from the
/// bytes [`FetchObject::encode`] writes, whatever follows them.
///
/// Excluded: an object with neither a status nor a payload, for which the
/// encoder writes a zero length and no status field.
pub proof fn lemma_fetch_object_roundtrip(o: FetchObjectView, rest: Seq<u8>)
    requires
        o.group_id < VARINT_BOUND,
        o.subgroup_id < VARINT_BOUND,
        o.object_id < VARINT_BOUND,
        o.extension_headers.len() < VARINT_BOUND,
        o.payload.len() < VARINT_BOUND,
        o.status is Some ==> o.payload.len() == 0,
        o.status is None ==> o.payload.len() != 0,
        spec_check_extensions_against_status(spec_opt_code(o.status), o.extension_headers.len() as u64) is Ok,
    ensures
        spec_decode_fetch_object(spec_encode_fetch_object(o) + rest) == Ok::<(FetchObjectView, int), CodecError>(
            (o, spec_encode_fetch_object(o).len() as int),
        ),
{
    let e1 = spec_varint_encode(o.group_id);
    let e2 = spec_varint_encode(o.subgroup_id);
    let e3 = spec_varint_encode(o.object_id);
    let e4 = seq![o.publisher_priority];
    let e5 = spec_encode_extensions(true, o.extension_headers);
    let e6 = spec_encode_status_or_payload(o.status, o.payload);
    let a1 = e1;
    let a2 = a1 + e2;
    let a3 = a2 + e3;
    let a4 = a3 + e4;
    let a5 = a4 + e5;
    let a6 = a5 + e6;
    let s = a6 + rest;
    assert(spec_encode_fetch_object(o) + rest == s);
    lemma_prefix_of_add(a6, rest);
    lemma_prefix_of_add(a5, e6);
    lemma_prefix_trans(a5, a6, s);
    lemma_prefix_of_add(a4, e5);
    lemma_prefix_trans(a4, a5, s);
    lemma_prefix_of_add(a3, e4);
    lemma_prefix_trans(a3, a4, s);
    lemma_prefix_of_add(a2, e3);
    lemma_prefix_trans(a2, a3, s);
    lemma_prefix_of_add(a1, e2);
    lemma_prefix_trans(a1, a2, s);
    lemma_varint_encoded(Seq::empty(), o.group_id);
    assert(Seq::<u8>::empty() + e1 =~= a1);
    lemma_varint_at_prefix(a1, s, 0);
    lemma_varint_encoded(a1, o.subgroup_id);
    lemma_varint_at_prefix(a2, s, a1.len() as int);
    lemma_varint_encoded(a2, o.object_id);
    lemma_varint_at_prefix(a3, s, a2.len() as int);
    lemma_u8_encoded(a3, o.publisher_priority);
    lemma_u8_at_prefix(a4, s, a3.len() as int);
    lemma_extensions_encoded(true, a4, o.extension_headers);
    lemma_read_extensions_prefix(true, a5, s, a4.len() as int);
    lemma_status_or_payload_encoded(a5, o.status, o.payload);
    lemma_status_or_payload_prefix(a6, s, a5.len() as int);
}

// ============================================================
// Datagram (Type 0x00..=0x07, 0x20..=0x21)
// ============================================================

/// Whether draft-14 assigns datagram type `v`: `0x00..=0x07`, `0x20`, `0x21`.
pub open spec fn spec_datagram_type_assigned(v: u8) -> bool {
    v <= 0x07 || v == 0x20 || v == 0x21
}

/// Datagram type byte.
///
/// * bit 0 (`0x01`) — Extensions Present
/// * bit 1 (`0x02`) — End of Group
/// * bit 2 (`0x04`) — Object ID absent (the Object ID is then 0)
///
/// `0x20` and `0x21` carry a status instead of a payload.
#[derive(Debug, Clone, Copy, PartialEq, Eq, Structural)]
pub struct DatagramType(u8);

impl View for DatagramType {
    type V = u8;

    closed spec fn view(&self) -> u8 {
        self.0
    }
}

/// Whether a datagram of type `t` carries a status instead of a payload.
pub open spec fn spec_datagram_is_status(t: u8) -> bool {
    t >= 0x20
}

/// Whether a datagram of type `t` carries an Object ID field.
pub open spec fn spec_datagram_object_id_present(t: u8) -> bool {
    spec_datagram_is_status(t) || t & 0x04 == 0
}

/// Whether a datagram of type `t` carries an extension block.
pub open spec fn spec_datagram_extensions_present(t: u8) -> bool {
    t & 0x01 != 0
}

impl DatagramType {
    /// The type with raw byte `v`, as a specification value.
    pub closed spec fn spec_new(v: u8) -> DatagramType {
        DatagramType(v)
    }

    /// A type is the one its raw byte names.
    pub broadcast proof fn lemma_spec_new_view(v: u8)
        ensures
            #[trigger] DatagramType::spec_new(v)@ == v,
    {
    }

    /// A type is determined by its raw byte.
    pub broadcast proof fn lemma_view_spec_new(t: DatagramType)
        ensures
            #[trigger] DatagramType::spec_new(t@) == t,
    {
    }

    /// Raw wire byte.
    pub fn as_u8(self) -> (r: u8)
        ensures
            r == self@,
    {
        self.0
    }

    /// Validate and wrap a raw wire byte.
    pub fn from_u8(v: u8) -> (r: Option<Self>)
        ensures
            spec_datagram_type_assigned(v) ==> r == Some(DatagramType::spec_new(v)),
            !spec_datagram_type_assigned(v) ==> r is None,
    {
        if v <= 0x07 || v == 0x20 || v == 0x21 {
            Some(DatagramType(v))
        } else {
            None
        }
    }

    /// Build a payload-bearing datagram type (`0x00..=0x07`).
    pub fn payload(object_id_present: bool, extensions_present: bool, end_of_group: bool) -> (r: Self)
        ensures
            spec_datagram_type_assigned(r@),
            !spec_datagram_is_status(r@),
            spec_datagram_object_id_present(r@) == object_id_present,
            spec_datagram_extensions_present(r@) == extensions_present,
            (r@ & 0x02 != 0) == end_of_group,
    {
        let a: u8 = if extensions_present {
            0x01
        } else {
            0
        };
        let b: u8 = if end_of_group {
            0x02
        } else {
            0
        };
        let c: u8 = if !object_id_present {
            0x04
        } else {
            0
        };
        let v: u8 = a + b + c;
        assert({
            &&& v <= 0x07
            &&& (v & 0x04 == 0) == (c == 0)
            &&& (v & 0x02 != 0) == (b == 2)
            &&& (v & 0x01 != 0) == (a == 1)
        }) by (bit_vector)
            requires
                v == a + b + c,
                a == 0 || a == 1,
                b == 0 || b == 2,
                c == 0 || c == 4,
        ;
        DatagramType(v)
    }

    /// Build a status-only datagram type (`0x20` or `0x21`).
    pub fn status(extensions_present: bool) -> (r: Self)
        ensures
            r@ == (if extensions_present {
                0x21u8
            } else {
                0x20u8
            }),
    {
        if extensions_present {
            DatagramType(0x21)
        } else {
            DatagramType(0x20)
        }
    }

    /// True when the datagram carries an Object Status instead of a payload.
    pub fn is_status(self) -> (r: bool)
        ensures
            r == spec_datagram_is_status(self@),
    {
        self.0 >= 0x20
    }

    /// True when the datagram carries an explicit Object ID field; status
    /// datagrams always do.
    pub fn object_id_present(self) -> (r: bool)
        ensures
            r == spec_datagram_object_id_present(self@),
    {
        if self.is_status() {
            true
        } else {
            self.0 & 0x04 == 0
        }
    }

    /// True if the datagram carries the last object of its group.
    pub fn end_of_group(self) -> (r: bool)
        ensures
            r == (!spec_datagram_is_status(self@) && self@ & 0x02 != 0),
    {
        !self.is_status() && (self.0 & 0x02 != 0)
    }

    /// True if extension headers are present in this datagram.
    pub fn extensions_present(self) -> (r: bool)
        ensures
            r == spec_datagram_extensions_present(self@),
    {
        self.0 & 0x01 != 0
    }
}

/// Datagram carrying a single object.
#[derive(Debug, Clone, PartialEq, Eq)]
pub struct DatagramObject {
    /// Datagram type byte.
    pub datagram_type: DatagramType,
    /// Track alias.
    pub track_alias: VarInt,
    /// Group ID.
    pub group_id: VarInt,
    /// Object ID; 0 when the type carries no Object ID field.
    pub object_id: VarInt,
    /// Publisher priority.
    pub publisher_priority: u8,
    /// Raw extension-header bytes (empty unless the type carries them).
    pub extension_headers: Vec<u8>,
    /// Object status (status-type datagrams only).
    pub status: Option<ObjectStatus>,
    /// Object payload (empty for status-type datagrams).
    pub payload: Vec<u8>,
}

/// The mathematical value of a [`DatagramObject`].
pub struct DatagramObjectView {
    pub datagram_type: u8,
    pub track_alias: u64,
    pub group_id: u64,
    pub object_id: u64,
    pub publisher_priority: u8,
    pub extension_headers: Seq<u8>,
    pub status: Option<ObjectStatus>,
    pub payload: Seq<u8>,
}

impl View for DatagramObject {
    type V = DatagramObjectView;

    open spec fn view(&self) -> DatagramObjectView {
        DatagramObjectView {
            datagram_type: self.datagram_type@,
            track_alias: self.track_alias@,
            group_id: self.group_id@,
            object_id: self.object_id@,
            publisher_priority: self.publisher_priority,
            extension_headers: self.extension_headers@,
            status: self.status,
            payload: self.payload@,
        }
    }
}

/// The status a status datagram writes: Normal when none is set.
pub open spec fn spec_status_or_normal(s: Option<ObjectStatus>) -> ObjectStatus {
    match s {
        Some(st) => st,
        None => ObjectStatus::Normal,
    }
}

/// The bytes [`DatagramObject::encode`] writes. The type byte decides the
/// framing: a status under a payload type, or a payload under a status
/// type, is dropped.
pub open spec fn spec_encode_datagram(d: DatagramObjectView) -> Seq<u8> {
    let t = d.datagram_type;
    spec_varint_encode(t as u64) + spec_varint_encode(d.track_alias) + spec_varint_encode(d.group_id)
        + (if spec_datagram_object_id_present(t) {
        spec_varint_encode(d.object_id)
    } else {
        Seq::empty()
    }) + seq![d.publisher_priority] + spec_encode_extensions(
        spec_datagram_extensions_present(t),
        d.extension_headers,
    ) + (if spec_datagram_is_status(t) {
        spec_varint_encode(spec_status_or_normal(d.status).spec_code())
    } else {
        d.payload
    })
}

/// Why [`DatagramObject::encode_checked`] refuses `d`, if it does: a payload
/// under a status type, a non-Normal status under a payload type, an
/// extension block the type does not announce or an empty one it does, or
/// extension headers on an Object Does Not Exist status.
pub open spec fn spec_datagram_refusal(d: DatagramObjectView) -> Option<CodecError> {
    let t = d.datagram_type;
    if spec_datagram_is_status(t) && d.payload.len() != 0 {
        Some(CodecError::InvalidField)
    } else if !spec_datagram_is_status(t) && (d.status matches Some(st) && st
        != ObjectStatus::Normal) {
        Some(CodecError::InvalidField)
    } else if spec_datagram_extensions_present(t) && d.extension_headers.len() == 0 {
        Some(CodecError::InvalidField)
    } else if !spec_datagram_extensions_present(t) && d.extension_headers.len() != 0 {
        Some(CodecError::InvalidField)
    } else {
        match spec_check_extensions_against_status(
            spec_opt_code(d.status),
            d.extension_headers.len() as u64,
        ) {
            Err(e) => Some(e),
            Ok(_) => None,
        }
    }
}

/// The extension block of a datagram: under a type that announces one, a
/// declared length of 0 is refused.
pub open spec fn spec_read_datagram_extensions(ext: bool, s: Seq<u8>, p: int) -> Result<
    (Seq<u8>, int),
    CodecError,
> {
    if !ext {
        Ok((Seq::empty(), p))
    } else {
        match spec_varint_at(s, p) {
            None => Err(varint_end()),
            Some((len, q)) => if len == 0 {
                Err(CodecError::InvalidField)
            } else {
                match spec_bytes_at(s, q, len) {
                    None => Err(CodecError::UnexpectedEnd),
                    Some((b, r)) => Ok((b, r)),
                }
            },
        }
    }
}

/// The status of a status datagram, or the payload of any other, which runs
/// to the end of the datagram.
pub open spec fn spec_read_datagram_tail(status: bool, s: Seq<u8>, p: int) -> Result<
    (Option<ObjectStatus>, Seq<u8>, int),
    CodecError,
> {
    if status {
        match spec_varint_at(s, p) {
            None => Err(varint_end()),
            Some((code, q)) => match ObjectStatus::spec_from_code(code) {
                None => Err(CodecError::InvalidField),
                Some(st) => Ok((Some(st), Seq::empty(), q)),
            },
        }
    } else if 0 <= p <= s.len() {
        Ok((None, s.subrange(p, s.len() as int), s.len() as int))
    } else {
        Err(CodecError::UnexpectedEnd)
    }
}

/// What [`DatagramObject::decode`] reads from `s`.
pub open spec fn spec_decode_datagram(s: Seq<u8>) -> Result<(DatagramObjectView, int), CodecError> {
    match spec_varint_at(s, 0) {
        None => Err(varint_end()),
        Some((t, p1)) => if t > 0xFF || !spec_datagram_type_assigned(t as u8) {
            Err(CodecError::UnknownDatagramType(t))
        } else {
            let ty = t as u8;
            match spec_varint_at(s, p1) {
                None => Err(varint_end()),
                Some((ta, p2)) => match spec_varint_at(s, p2) {
                    None => Err(varint_end()),
                    Some((g, p3)) => match spec_opt_varint_at(
                        s,
                        p3,
                        spec_datagram_object_id_present(ty),
                    ) {
                        None => Err(varint_end()),
                        Some((oid, p4)) => match spec_u8_at(s, p4) {
                            None => Err(CodecError::UnexpectedEnd),
                            Some((prio, p5)) => match spec_read_datagram_extensions(
                                spec_datagram_extensions_present(ty),
                                s,
                                p5,
                            ) {
                                Err(e) => Err(e),
                                Ok((x, p6)) => match spec_read_datagram_tail(
                                    spec_datagram_is_status(ty),
                                    s,
                                    p6,
                                ) {
                                    Err(e) => Err(e),
                                    Ok((st, payload, p7)) => match spec_check_extensions_against_status(
                                        spec_opt_code(st),
                                        x.len() as u64,
                                    ) {
                                        Err(e) => Err(e),
                                        Ok(_) => Ok(
                                            (
                                                DatagramObjectView {
                                                    datagram_type: ty,
                                                    track_alias: ta,
                                                    group_id: g,
                                                    object_id: match oid {
                                                        Some(v) => v,
                                                        None => 0,
                                                    },
                                                    publisher_priority: prio,
                                                    extension_headers: x,
                                                    status: st,
                                                    payload: payload,
                                                },
                                                p7,
                                            ),
                                        ),
                                    },
                                },
                            },
                        },
                    },
                },
            }
        },
    }
}

fn read_datagram_extensions(ext: bool, buf: &[u8], pos: usize) -> (r: Result<(Vec<u8>, usize), CodecError>)
    ensures
        match spec_read_datagram_extensions(ext, buf@, pos as int) {
            Ok((b, q)) => (r matches Ok((v, n)) && v@ == b && n == q),
            Err(e) => r == Err::<(Vec<u8>, usize), CodecError>(e),
        },
{
    if ext {
        let (ext_len, q) = read_varint_u64(buf, pos)?;
        if ext_len == 0 {
            return Err(CodecError::InvalidField);
        }
        read_bytes(buf, q, ext_len)
    } else {
        Ok((Vec::new(), pos))
    }
}

fn read_datagram_tail(status: bool, buf: &[u8], pos: usize) -> (r: Result<
    (Option<ObjectStatus>, Vec<u8>, usize),
    CodecError,
>)
    ensures
        match spec_read_datagram_tail(status, buf@, pos as int) {
            Ok((st, b, q)) => (r matches Ok((st2, v, n)) && st2 == st && v@ == b && n == q),
            Err(e) => r == Err::<(Option<ObjectStatus>, Vec<u8>, usize), CodecError>(e),
        },
{
    if status {
        let (code, q) = read_varint_u64(buf, pos)?;
        match ObjectStatus::from_u64(code) {
            Some(st) => Ok((Some(st), Vec::new(), q)),
            None => Err(CodecError::InvalidField),
        }
    } else {
        if pos > buf.len() {
            return Err(CodecError::UnexpectedEnd);
        }
        let remaining = (buf.len() - pos) as u64;
        let (payload, q) = read_bytes(buf, pos, remaining)?;
        Ok((None, payload, q))
    }
}

impl DatagramObject {
    /// Encode the datagram, refusing before writing anything a field the type
    /// byte cannot carry: a payload under a status type, a non-Normal status
    /// under a payload type, an extension block the type does not announce or
    /// an empty one it does, and extension headers on an Object Does Not
    /// Exist status. Normal under a payload type is accepted.
    pub fn encode_checked(&self, buf: &mut Vec<u8>) -> (r: Result<(), CodecError>)
        requires
            self.extension_headers@.len() < VARINT_BOUND,
        ensures
            match spec_datagram_refusal(self@) {
                Some(e) => r == Err::<(), CodecError>(e) && final(buf)@ == old(buf)@,
                None => r == Ok::<(), CodecError>(()) && final(buf)@ == old(buf)@
                    + spec_encode_datagram(self@),
            },
    {
        if self.datagram_type.is_status() {
            if self.payload.len() != 0 {
                return Err(CodecError::InvalidField);
            }
        } else {
            match self.status {
                Some(st) => {
                    if st != ObjectStatus::Normal {
                        return Err(CodecError::InvalidField);
                    }
                },
                None => {},
            }
        }
        if self.datagram_type.extensions_present() {
            if self.extension_headers.len() == 0 {
                return Err(CodecError::InvalidField);
            }
        } else if self.extension_headers.len() != 0 {
            return Err(CodecError::InvalidField);
        }
        check_extensions_against_status(opt_code(self.status), self.extension_headers.len() as u64)?;
        self.encode(buf);
        Ok(())
    }

    /// Encode the datagram. The type byte decides the framing, which is what
    /// makes this infallible and what makes it lossy: a status under a payload
    /// type, or a payload under a status type, is dropped.
    pub fn encode(&self, buf: &mut Vec<u8>)
        requires
            self.extension_headers@.len() < VARINT_BOUND,
        ensures
            final(buf)@ == old(buf)@ + spec_encode_datagram(self@),
    {
        let ghost start = buf@;
        VarInt::from_usize(self.datagram_type.as_u8() as usize).encode(buf);
        self.track_alias.encode(buf);
        self.group_id.encode(buf);
        if self.datagram_type.object_id_present() {
            self.object_id.encode(buf);
        }
        buf.push(self.publisher_priority);
        encode_extensions(self.datagram_type.extensions_present(), &self.extension_headers, buf);
        let ghost mid = buf@;
        if self.datagram_type.is_status() {
            let status = match self.status {
                Some(st) => st,
                None => ObjectStatus::Normal,
            };
            match VarInt::from_u64(status.as_u64()) {
                Ok(code) => code.encode(buf),
                Err(_) => {},
            }
        } else {
            put_slice(buf, self.payload.as_slice());
        }
        assert(buf@ =~= start + spec_encode_datagram(self@));
    }

    /// Decode a datagram. The buffer must hold the whole datagram: the payload
    /// of a payload-bearing type runs to its end.
    pub fn decode(buf: &[u8]) -> (r: Result<(DatagramObject, usize), CodecError>)
        ensures
            match spec_decode_datagram(buf@) {
                Ok((d, n)) => (r matches Ok((x, k)) && x@ == d && k == n),
                Err(e) => r == Err::<(DatagramObject, usize), CodecError>(e),
            },
    {
        let (type_val, p1) = read_varint_u64(buf, 0)?;
        if type_val > 0xFF {
            return Err(CodecError::UnknownDatagramType(type_val));
        }
        let datagram_type = match DatagramType::from_u8(type_val as u8) {
            Some(t) => t,
            None => return Err(CodecError::UnknownDatagramType(type_val)),
        };
        let (track_alias, p2) = read_varint(buf, p1)?;
        let (group_id, p3) = read_varint(buf, p2)?;
        let (object_id, p4) = if datagram_type.object_id_present() {
            read_varint(buf, p3)?
        } else {
            (VarInt::from_usize(0), p3)
        };
        let (publisher_priority, p5) = read_u8(buf, p4)?;
        let (extension_headers, p6) = read_datagram_extensions(datagram_type.extensions_present(), buf, p5)?;
        let (status, payload, p7) = read_datagram_tail(datagram_type.is_status(), buf, p6)?;
        check_extensions_against_status(opt_code(status), extension_headers.len() as u64)?;
        Ok((DatagramObject { datagram_type, track_alias, group_id, object_id, publisher_priority, extension_headers, status, payload }, p7))
    }
}

/// What decoding a datagram gives back for `d`: the status field exists only
/// under a status type, where an unset status is written as Normal, and the
/// Object ID only under a type that carries it.
pub open spec fn spec_datagram_as_read(d: DatagramObjectView) -> DatagramObjectView {
    DatagramObjectView {
        object_id: if spec_datagram_object_id_present(d.datagram_type) {
            d.object_id
        } else {
            0
        },
        status: if spec_datagram_is_status(d.datagram_type) {
            Some(spec_status_or_normal(d.status))
        } else {
            None
        },
        ..d
    }
}

/// A datagram [`DatagramObject::encode_checked`] accepts is decoded from the
/// bytes it writes.
pub proof fn lemma_datagram_roundtrip(d: DatagramObjectView)
    requires
        spec_datagram_type_assigned(d.datagram_type),
        spec_datagram_refusal(d) is None,
        d.track_alias < VARINT_BOUND,
        d.group_id < VARINT_BOUND,
        d.object_id < VARINT_BOUND,
        d.extension_headers.len() < VARINT_BOUND,
    ensures
        spec_decode_datagram(spec_encode_datagram(d)) == Ok::<(DatagramObjectView, int), CodecError>(
            (spec_datagram_as_read(d), spec_encode_datagram(d).len() as int),
        ),
{
    broadcast use ObjectStatus::lemma_from_code_of_code;

    let t = d.datagram_type;
    let ext = spec_datagram_extensions_present(t);
    let e1 = spec_varint_encode(t as u64);
    let e2 = spec_varint_encode(d.track_alias);
    let e3 = spec_varint_encode(d.group_id);
    let e4 = if spec_datagram_object_id_present(t) {
        spec_varint_encode(d.object_id)
    } else {
        Seq::<u8>::empty()
    };
    let e5 = seq![d.publisher_priority];
    let e6 = spec_encode_extensions(ext, d.extension_headers);
    let e7 = if spec_datagram_is_status(t) {
        spec_varint_encode(spec_status_or_normal(d.status).spec_code())
    } else {
        d.payload
    };
    let a1 = e1;
    let a2 = a1 + e2;
    let a3 = a2 + e3;
    let a4 = a3 + e4;
    let a5 = a4 + e5;
    let a6 = a5 + e6;
    let s = a6 + e7;
    assert(spec_encode_datagram(d) == s);
    lemma_prefix_of_add(a6, e7);
    lemma_prefix_of_add(a5, e6);
    lemma_prefix_trans(a5, a6, s);
    lemma_prefix_of_add(a4, e5);
    lemma_prefix_trans(a4, a5, s);
    lemma_prefix_of_add(a3, e4);
    lemma_prefix_trans(a3, a4, s);
    lemma_prefix_of_add(a2, e3);
    lemma_prefix_trans(a2, a3, s);
    lemma_prefix_of_add(a1, e2);
    lemma_prefix_trans(a1, a2, s);
    lemma_varint_encoded(Seq::empty(), t as u64);
    assert(Seq::<u8>::empty() + e1 =~= a1);
    lemma_varint_at_prefix(a1, s, 0);
    lemma_varint_encoded(a1, d.track_alias);
    lemma_varint_at_prefix(a2, s, a1.len() as int);
    lemma_varint_encoded(a2, d.group_id);
    lemma_varint_at_prefix(a3, s, a2.len() as int);
    if spec_datagram_object_id_present(t) {
        lemma_varint_encoded(a3, d.object_id);
        lemma_varint_at_prefix(a4, s, a3.len() as int);
    } else {
        assert(a4 =~= a3);
    }
    lemma_u8_encoded(a4, d.publisher_priority);
    lemma_u8_at_prefix(a5, s, a4.len() as int);
    lemma_extensions_encoded(ext, a5, d.extension_headers);
    if ext {
        lemma_varint_encoded(a5, d.extension_headers.len() as u64);
        let a5l = a5 + spec_varint_encode(d.extension_headers.len() as u64);
        assert(a6 =~= a5l + d.extension_headers);
        lemma_prefix_of_add(a5l, d.extension_headers);
        lemma_prefix_trans(a5l, a6, s);
        lemma_varint_at_prefix(a5l, s, a5.len() as int);
        lemma_bytes_encoded(a5l, d.extension_headers);
        lemma_bytes_at_prefix(a6, s, a5l.len() as int, d.extension_headers.len() as u64);
        assert(spec_read_datagram_extensions(ext, s, a5.len() as int) == Ok::<(Seq<u8>, int), CodecError>(
            (d.extension_headers, a6.len() as int),
        ));
    } else {
        assert(a6 =~= a5);
        assert(d.extension_headers =~= Seq::<u8>::empty());
    }
    if spec_datagram_is_status(t) {
        lemma_varint_encoded(a6, spec_status_or_normal(d.status).spec_code());
    } else {
        assert(s.subrange(a6.len() as int, s.len() as int) =~= d.payload);
    }
    assert(d.payload.len() == 0 ==> d.payload =~= Seq::<u8>::empty());
}

} // verus!
