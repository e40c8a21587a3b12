//! Draft-15 data streams: subgroup streams, datagrams and fetch streams.
//!
//! Differences from draft-14:
//! - Section 10.4.2 Table 6 assigns twenty-four subgroup stream types:
//!   `0x10`-`0x15`, `0x18`-`0x1D`, `0x30`-`0x35` and `0x38`-`0x3D`.
//! - Priority is absent when `type & 0x20`; the object then inherits the
//!   priority the subscription established.
//! - `type & 0x06` says how the Subgroup ID is carried: zero, the first
//!   object's ID, or a field on the wire; `0x06` is not a row of the table.
//! - Fetch objects lead with a Serialization Flags byte saying which fields
//!   are on the wire; the others are taken from the object before.
//!
//! Every decoder reads from a byte slice and returns the value with the
//! number of bytes consumed; every encoder appends to a `Vec<u8>`.

use vstd::prelude::*;
use super::types::ObjectStatus;
use crate::error::CodecError;
use crate::varint::{spec_varint_at, spec_varint_encode, VarInt, VARINT_BOUND};
use crate::wire::{
    encode_extensions, lemma_bytes_at_prefix, lemma_bytes_encoded, lemma_extensions_encoded,
    lemma_prefix_of_add, lemma_prefix_trans, lemma_read_extensions_prefix, lemma_u8_at_prefix,
    lemma_u8_encoded, lemma_varint_at_prefix, lemma_varint_encoded, put_slice, read_bytes,
    read_extensions, read_u8, read_varint, read_varint_u64, skip, skip_extensions, spec_bytes_at,
    spec_encode_extensions, spec_is_prefix, spec_read_extensions, spec_u8_at, varint_end,
};

verus! {

broadcast use {VarInt::lemma_spec_new_view, VarInt::lemma_view_spec_new};

/// The status draft-15 gives a wire Object Status code, refusing a code it
/// does not assign.
pub open spec fn spec_decoded_status(code: u64) -> Result<ObjectStatus, CodecError> {
    match ObjectStatus::spec_from_code(code) {
        Some(s) => Ok(s),
        None => Err(CodecError::InvalidField),
    }
}

fn decoded_status(code: u64) -> (r: Result<ObjectStatus, CodecError>)
    ensures
        r == spec_decoded_status(code),
{
    match ObjectStatus::from_u64(code) {
        Some(s) => Ok(s),
        None => Err(CodecError::InvalidField),
    }
}

/// Section 10.2.1.2: extension headers are permitted only on an object
/// whose status is Normal. `status` is the code the object resolves to;
/// `None` is the implicit Normal of an object that carries a payload.
pub open spec fn spec_check_extensions_on_encode(status: Option<u64>, len: u64) -> Result<
    (),
    CodecError,
> {
    if len != 0 && (status matches Some(code) && code != 0) {
        Err(CodecError::InvalidField)
    } else {
        Ok(())
    }
}

/// Refuse an object that would be written with extension headers beside a
/// status other than Normal. Applied by [`DatagramHeader::encode_checked`]
/// alone: every other carrier has a single writer, which must be able to
/// reproduce a captured violation.
fn check_extensions_against_status_on_encode(status: Option<u64>, extension_headers_len: u64) -> (r: Result<
    (),
    CodecError,
>)
    ensures
        r == spec_check_extensions_on_encode(status, extension_headers_len),
{
    let not_normal = match status {
        Some(code) => code != ObjectStatus::Normal.as_u64(),
        None => false,
    };
    if extension_headers_len != 0 && not_normal {
        return Err(CodecError::InvalidField);
    }
    Ok(())
}

// ── Payload permission ─────────────────────────────────────

/// Whether an object carrying a given status may hold a non-empty payload.
/// Section 10.2.1.1: "Any object with a status code other than zero MUST
/// have an empty payload."
#[derive(Debug, Clone, Copy, PartialEq, Eq, Structural)]
pub enum PayloadPermission {
    /// A payload is permitted but not required.
    Permitted,
    /// The object has an empty payload; one carrying bytes is malformed.
    Forbidden,
}

/// The permission draft-15 gives objects carrying `status`.
pub open spec fn spec_permission_for(status: ObjectStatus) -> PayloadPermission {
    if status == ObjectStatus::Normal {
        PayloadPermission::Permitted
    } else {
        PayloadPermission::Forbidden
    }
}

impl PayloadPermission {
    /// The permission draft-15 gives objects carrying `status`.
    pub fn for_status(status: ObjectStatus) -> (r: Self)
        ensures
            r == spec_permission_for(status),
    {
        match status {
            ObjectStatus::Normal => PayloadPermission::Permitted,
            ObjectStatus::ObjectDoesNotExist => PayloadPermission::Forbidden,
            ObjectStatus::EndOfGroup => PayloadPermission::Forbidden,
            ObjectStatus::EndOfTrack => PayloadPermission::Forbidden,
        }
    }

    /// `true` for [`PayloadPermission::Permitted`].
    pub fn permits(self) -> (r: bool)
        ensures
            r == (self == PayloadPermission::Permitted),
    {
        match self {
            PayloadPermission::Permitted => true,
            PayloadPermission::Forbidden => false,
        }
    }
}

// ── Subgroup streams ───────────────────────────────────────

/// Whether Table 6 assigns subgroup stream type `ty`: a base of `0x10` or
/// `0x30`, and `0x06` bits naming one of the three ways the table carries a
/// Subgroup ID. `0x16`, `0x17`, `0x1E`, `0x1F`, `0x36`, `0x37`, `0x3E` and
/// `0x3F` have no row.
pub open spec fn spec_subgroup_type_assigned(ty: u64) -> bool {
    ty <= 0xFF && ((ty as u8) & 0xD0) == 0x10 && ((ty as u8) & 0x06) != 0x06
}

fn subgroup_type_is_assigned(ty: u64) -> (r: bool)
    ensures
        r == spec_subgroup_type_assigned(ty),
{
    if ty > 0xFF {
        return false;
    }
    let t = ty as u8;
    (t & 0xD0) == 0x10 && (t & 0x06) != 0x06
}

/// The unidirectional stream type of a fetch stream (Section 10.4.4).
const FETCH_STREAM_TYPE: u64 = 0x05;

/// Which failure a leading stream type other than the one a reader wants
/// is: `InvalidField` for a type the stream table assigns, and
/// `UnknownStreamType` otherwise.
pub open spec fn spec_stream_type_error(raw: u64) -> CodecError {
    if raw == 0x05 || spec_subgroup_type_assigned(raw) {
        CodecError::InvalidField
    } else {
        CodecError::UnknownStreamType(raw)
    }
}

fn stream_type_error(raw: u64) -> (r: CodecError)
    ensures
        r == spec_stream_type_error(raw),
{
    if raw == FETCH_STREAM_TYPE || subgroup_type_is_assigned(raw) {
        CodecError::InvalidField
    } else {
        CodecError::UnknownStreamType(raw)
    }
}

/// Subgroup stream header for draft-15.
///
/// - `& 0x01`: extensions present on objects
/// - `& 0x06`: `0x00` Subgroup ID zero, `0x02` the first object's ID,
///   `0x04` a field on the wire
/// - `& 0x08`: the last object on the stream ends its group
/// - `& 0x20`: no publisher priority; the subscription's is inherited
#[derive(Debug, Clone, Copy, PartialEq, Eq, Structural)]
pub struct SubgroupHeader {
    pub header_type: u8,
    pub track_alias: VarInt,
    pub group_id: VarInt,
    pub subgroup_id: VarInt,
    pub publisher_priority: Option<u8>,
}

/// The bytes [`SubgroupHeader::encode`] writes: field presence follows the
/// type byte, and a missing priority under a type that carries one is
/// written as zero.
pub open spec fn spec_encode_subgroup_header(h: SubgroupHeader) -> Seq<u8> {
    let t = h.header_type;
    spec_varint_encode(t as u64) + spec_varint_encode(h.track_alias@) + spec_varint_encode(
        h.group_id@,
    ) + (if t & 0x06 == 0x04 {
        spec_varint_encode(h.subgroup_id@)
    } else {
        Seq::empty()
    }) + (if t & 0x20 == 0 {
        seq![
            match h.publisher_priority {
                Some(p) => p,
                None => 0u8,
            },
        ]
    } else {
        Seq::empty()
    })
}

/// A priority byte at `p` when `present`.
pub open spec fn spec_opt_u8_at(s: Seq<u8>, p: int, present: bool) -> Option<(Option<u8>, int)> {
    if present {
        match spec_u8_at(s, p) {
            Some((b, q)) => Some((Some(b), q)),
            None => None,
        }
    } else {
        Some((None, p))
    }
}

/// What [`SubgroupHeader::decode`] reads from the start of `s`.
pub open spec fn spec_decode_subgroup_header(s: Seq<u8>) -> Result<(SubgroupHeader, int), CodecError> {
    match spec_varint_at(s, 0) {
        None => Err(varint_end()),
        Some((t, p1)) => if !spec_subgroup_type_assigned(t) {
            Err(spec_stream_type_error(t))
        } else {
            let ty = t as u8;
            match spec_varint_at(s, p1) {
                None => Err(varint_end()),
                Some((ta, p2)) => match spec_varint_at(s, p2) {
                    None => Err(varint_end()),
                    Some((g, p3)) => match (if ty & 0x06 == 0x04 {
                        spec_varint_at(s, p3)
                    } else {
                        Some((0u64, p3))
                    }) {
                        None => Err(varint_end()),
                        Some((sg, p4)) => match spec_opt_u8_at(s, p4, ty & 0x20 == 0) {
                            None => Err(CodecError::UnexpectedEnd),
                            Some((prio, p5)) => Ok(
                                (
                                    SubgroupHeader {
                                        header_type: ty,
                                        track_alias: VarInt::spec_new(ta),
                                        group_id: VarInt::spec_new(g),
                                        subgroup_id: VarInt::spec_new(sg),
                                        publisher_priority: prio,
                                    },
                                    p5,
                                ),
                            ),
                        },
                    },
                },
            }
        },
    }
}

fn read_opt_u8(buf: &[u8], pos: usize, present: bool) -> (r: Result<(Option<u8>, usize), CodecError>)
    ensures
        match spec_opt_u8_at(buf@, pos as int, present) {
            Some((b, q)) => (r matches Ok((x, n)) && x == b && n == q),
            None => r == Err::<(Option<u8>, usize), CodecError>(CodecError::UnexpectedEnd),
        },
{
    if present {
        let (b, q) = read_u8(buf, pos)?;
        Ok((Some(b), q))
    } else {
        Ok((None, pos))
    }
}

impl SubgroupHeader {
    pub fn has_extensions(&self) -> (r: bool)
        ensures
            r == (self.header_type & 0x01 != 0),
    {
        self.header_type & 0x01 != 0
    }

    /// The Subgroup ID is the Object ID of the first object on the stream and
    /// is not transmitted: the `0x02` row of the `0x06` bits.
    pub fn subgroup_id_from_first_object(&self) -> (r: bool)
        ensures
            r == (self.header_type & 0x06 == 0x02),
    {
        self.header_type & 0x06 == 0x02
    }

    pub fn has_explicit_subgroup_id(&self) -> (r: bool)
        ensures
            r == (self.header_type & 0x06 == 0x04),
    {
        self.header_type & 0x06 == 0x04
    }

    pub fn has_end_of_group(&self) -> (r: bool)
        ensures
            r == (self.header_type & 0x08 != 0),
    {
        self.header_type & 0x08 != 0
    }

    pub fn has_priority(&self) -> (r: bool)
        ensures
            r == (self.header_type & 0x20 == 0),
    {
        self.header_type & 0x20 == 0
    }

    /// Encode the header, writing whichever fields the type byte announces.
    /// A `None` priority under a type that carries one is written as zero.
    pub fn encode(&self, buf: &mut Vec<u8>)
        ensures
            final(buf)@ == old(buf)@ + spec_encode_subgroup_header(*self),
    {
        let ghost start = buf@;
        VarInt::from_usize(self.header_type as usize).encode(buf);
        self.track_alias.encode(buf);
        self.group_id.encode(buf);
        if self.has_explicit_subgroup_id() {
            self.subgroup_id.encode(buf);
        }
        if self.has_priority() {
            let p = match self.publisher_priority {
                Some(p) => p,
                None => 0,
            };
            buf.push(p);
        }
        assert(buf@ =~= start + spec_encode_subgroup_header(*self));
    }

    /// Encode, refusing before writing anything a priority that disagrees
    /// with the type byte's `0x20` bit, and a type Table 6 does not assign.
    pub fn encode_checked(&self, buf: &mut Vec<u8>) -> (r: Result<(), CodecError>)
        ensures
            ((self.header_type & 0x20 == 0) != (self.publisher_priority is Some)
                || !spec_subgroup_type_assigned(self.header_type as u64)) ==> r == Err::<
                (),
                CodecError,
            >(CodecError::InvalidField) && final(buf)@ == old(buf)@,
            ((self.header_type & 0x20 == 0) == (self.publisher_priority is Some)
                && spec_subgroup_type_assigned(self.header_type as u64)) ==> r == Ok::<
                (),
                CodecError,
            >(()) && final(buf)@ == old(buf)@ + spec_encode_subgroup_header(*self),
    {
        if self.has_priority() != self.publisher_priority.is_some() {
            return Err(CodecError::InvalidField);
        }
        if !subgroup_type_is_assigned(self.header_type as u64) {
            return Err(CodecError::InvalidField);
        }
        self.encode(buf);
        Ok(())
    }

    /// Decode a subgroup header from the start of `buf`. The type is compared
    /// as the full varint, so `0x110` is not read as `0x10`.
    pub fn decode(buf: &[u8]) -> (r: Result<(SubgroupHeader, usize), CodecError>)
        ensures
            match spec_decode_subgroup_header(buf@) {
                Ok((h, n)) => (r matches Ok((x, k)) && x == h && k == n),
                Err(e) => r == Err::<(SubgroupHeader, usize), CodecError>(e),
            },
    {
        let (type_value, p1) = read_varint_u64(buf, 0)?;
        if !subgroup_type_is_assigned(type_value) {
            return Err(stream_type_error(type_value));
        }
        let header_type = type_value as u8;
        let (track_alias, p2) = read_varint(buf, p1)?;
        let (group_id, p3) = read_varint(buf, p2)?;
        let (subgroup_id, p4) = if header_type & 0x06 == 0x04 {
            read_varint(buf, p3)?
        } else {
            (VarInt::from_usize(0), p3)
        };
        let (publisher_priority, p5) = read_opt_u8(buf, p4, header_type & 0x20 == 0)?;
        Ok((SubgroupHeader { header_type, track_alias, group_id, subgroup_id, publisher_priority }, p5))
    }
}

/// A header whose type Table 6 assigns and whose fields agree with it is read
/// back from its own encoding, whatever follows it.
pub proof fn lemma_subgroup_header_roundtrip(h: SubgroupHeader, rest: Seq<u8>)
    requires
        spec_subgroup_type_assigned(h.header_type as u64),
        (h.header_type & 0x20 == 0) == (h.publisher_priority is Some),
        h.header_type & 0x06 != 0x04 ==> h.subgroup_id@ == 0,
        h.track_alias@ < VARINT_BOUND,
        h.group_id@ < VARINT_BOUND,
        h.subgroup_id@ < VARINT_BOUND,
    ensures
        spec_decode_subgroup_header(spec_encode_subgroup_header(h) + rest) == Ok::<
            (SubgroupHeader, int),
            CodecError,
        >((h, spec_encode_subgroup_header(h).len() as int)),
{
    let t = h.header_type;
    let e1 = spec_varint_encode(t as u64);
    let e2 = spec_varint_encode(h.track_alias@);
    let e3 = spec_varint_encode(h.group_id@);
    let e4 = if t & 0x06 == 0x04 {
        spec_varint_encode(h.subgroup_id@)
    } else {
        Seq::<u8>::empty()
    };
    let e5 = if t & 0x20 == 0 {
        seq![h.publisher_priority->Some_0]
    } else {
        Seq::<u8>::empty()
    };
    let a1 = e1;
    let a2 = a1 + e2;
    let a3 = a2 + e3;
    let a4 = a3 + e4;
    let a5 = a4 + e5;
    let s = a5 + rest;
    assert(spec_encode_subgroup_header(h) == a5);
    lemma_prefix_of_add(a5, rest);
    lemma_prefix_of_add(a4, e5);
    lemma_prefix_trans(a4, a5, s);
    lemma_prefix_of_add(a3, e4);
    lemma_prefix_trans(a3, a4, s);
    lemma_prefix_of_add(a2, e3);
    lemma_prefix_trans(a2, a3, s);
    lemma_prefix_of_add(a1, e2);
    lemma_prefix_trans(a1, a2, s);
    lemma_varint_encoded(Seq::empty(), t as u64);
    assert(Seq::<u8>::empty() + e1 =~= a1);
    lemma_varint_at_prefix(a1, s, 0);
    lemma_varint_encoded(a1, h.track_alias@);
    lemma_varint_at_prefix(a2, s, a1.len() as int);
    lemma_varint_encoded(a2, h.group_id@);
    lemma_varint_at_prefix(a3, s, a2.len() as int);
    if t & 0x06 == 0x04 {
        lemma_varint_encoded(a3, h.subgroup_id@);
        lemma_varint_at_prefix(a4, s, a3.len() as int);
    } else {
        assert(a4 =~= a3);
    }
    if t & 0x20 == 0 {
        lemma_u8_encoded(a4, h.publisher_priority->Some_0);
        lemma_u8_at_prefix(a5, s, a4.len() as int);
    } else {
        assert(a5 =~= a4);
    }
}

// ── Subgroup objects (stateful) ─────────────────────────────

/// One object within a draft-15 subgroup stream, with its Object ID resolved
/// from the delta encoding.
#[derive(Debug, Clone, PartialEq, Eq)]
pub struct SubgroupObject {
    /// Resolved absolute Object ID.
    pub object_id: VarInt,
    /// Raw extension-header bytes, excluding the length prefix before them.
    pub extension_headers: Vec<u8>,
    /// Payload length as encoded on the wire; zero for a status object.
    pub payload_length: VarInt,
    /// Object status; `Some` when `payload_length` is zero. `None` there
    /// means Normal.
    pub object_status: Option<ObjectStatus>,
    /// Payload bytes; empty when `object_status` is `Some`.
    pub payload: Vec<u8>,
}

/// The mathematical value of a [`SubgroupObject`].
pub struct SubgroupObjectView {
    pub object_id: u64,
    pub extension_headers: Seq<u8>,
    pub payload_length: u64,
    pub object_status: Option<ObjectStatus>,
    pub payload: Seq<u8>,
}

impl View for SubgroupObject {
    type V = SubgroupObjectView;

    open spec fn view(&self) -> SubgroupObjectView {
        SubgroupObjectView {
            object_id: self.object_id@,
            extension_headers: self.extension_headers@,
            payload_length: self.payload_length@,
            object_status: self.object_status,
            payload: self.payload@,
        }
    }
}

/// The status of an object with this status field and declared length: the
/// wire carries a status only beside a zero length, and an unset one is
/// Normal.
pub open spec fn spec_resolved_status(status: Option<ObjectStatus>, payload_length: u64) -> ObjectStatus {
    if payload_length == 0 {
        match status {
            Some(s) => s,
            None => ObjectStatus::Normal,
        }
    } else {
        ObjectStatus::Normal
    }
}

fn resolved_status(status: Option<ObjectStatus>, payload_length: u64) -> (r: ObjectStatus)
    ensures
        r == spec_resolved_status(status, payload_length),
{
    if payload_length == 0 {
        match status {
            Some(s) => s,
            None => ObjectStatus::Normal,
        }
    } else {
        ObjectStatus::Normal
    }
}

impl SubgroupObject {
    /// The status this object resolves to.
    pub fn status(&self) -> (r: ObjectStatus)
        ensures
            r == spec_resolved_status(self.object_status, self.payload_length@),
    {
        resolved_status(self.object_status, self.payload_length.into_inner())
    }

    /// Whether this object's status is allowed to carry the extension headers
    /// it has: `false` exactly for a non-empty block beside a status other
    /// than Normal (Section 10.2.1.2).
    pub fn extensions_permitted(&self) -> (r: bool)
        ensures
            r == (self.extension_headers@.len() == 0 || spec_resolved_status(
                self.object_status,
                self.payload_length@,
            ) == ObjectStatus::Normal),
    {
        self.extension_headers.len() == 0 || self.status() == ObjectStatus::Normal
    }
}

/// The framing of one draft-15 subgroup object, without its payload.
#[derive(Debug, Clone, Copy, PartialEq, Eq, Structural)]
pub struct SubgroupObjectMeta {
    /// Resolved absolute Object ID.
    pub object_id: u64,
    /// Length of the extension-header block, excluding its length prefix.
    pub extension_headers_len: u64,
    /// Declared payload length. Zero when `status` is `Some`.
    pub payload_length: u64,
    /// Object status wire code, present only when the payload is empty.
    pub status: Option<u64>,
    /// Total bytes this object occupies on the wire, prefix fields included.
    pub wire_len: u64,
}

/// The payload permission of a status wire code: `Permitted` when no code is
/// spelled, `None` for a code draft-15 does not assign.
pub open spec fn spec_code_permission(status: Option<u64>) -> Option<PayloadPermission> {
    match status {
        None => Some(PayloadPermission::Permitted),
        Some(code) => match ObjectStatus::spec_from_code(code) {
            Some(s) => Some(spec_permission_for(s)),
            None => None,
        },
    }
}

/// Whether an object with this status code may carry an extension block of
/// this length: `None` for a code draft-15 does not assign.
pub open spec fn spec_code_extensions_permitted(status: Option<u64>, len: u64) -> Option<bool> {
    if len == 0 {
        Some(true)
    } else {
        match status {
            None => Some(true),
            Some(code) => match ObjectStatus::spec_from_code(code) {
                Some(s) => Some(s == ObjectStatus::Normal),
                None => None,
            },
        }
    }
}

impl SubgroupObjectMeta {
    /// Whether this object is permitted a non-empty payload, or `None` when
    /// the status holds a code draft-15 does not assign.
    pub fn payload_permission(&self) -> (r: Option<PayloadPermission>)
        ensures
            r == spec_code_permission(self.status),
    {
        match self.status {
            None => Some(PayloadPermission::Permitted),
            Some(code) => match ObjectStatus::from_u64(code) {
                Some(s) => Some(PayloadPermission::for_status(s)),
                None => None,
            },
        }
    }

    /// Whether this object's status is allowed to carry the extension block it
    /// declares, or `None` for a status code draft-15 does not assign.
    pub fn extensions_permitted(&self) -> (r: Option<bool>)
        ensures
            r == spec_code_extensions_permitted(self.status, self.extension_headers_len),
    {
        if self.extension_headers_len == 0 {
            return Some(true);
        }
        match self.status {
            None => Some(true),
            Some(code) => match ObjectStatus::from_u64(code) {
                Some(s) => Some(s == ObjectStatus::Normal),
                None => None,
            },
        }
    }
}

/// The Object ID a delta resolves to after `prev`; `None` on overflow.
pub open spec fn spec_next_object_id(prev: Option<u64>, delta: u64) -> Option<u64> {
    match prev {
        None => Some(delta),
        Some(p) => if p + 1 + delta <= u64::MAX {
            Some((p + 1 + delta) as u64)
        } else {
            None
        },
    }
}

/// The delta that encodes `id` after `prev`; `None` unless `id > prev`.
pub open spec fn spec_object_id_delta(prev: Option<u64>, id: u64) -> Option<u64> {
    match prev {
        None => Some(id),
        Some(p) => if id > p {
            Some((id - p - 1) as u64)
        } else {
            None
        },
    }
}

/// The Object Payload Length at `p` and what it announces: a status when it
/// is zero, and otherwise that many payload bytes.
pub open spec fn spec_read_length_and_body(s: Seq<u8>, p: int) -> Result<
    (u64, Option<ObjectStatus>, Seq<u8>, int),
    CodecError,
> {
    match spec_varint_at(s, p) {
        None => Err(varint_end()),
        Some((plen, p3)) => if plen == 0 {
            match spec_varint_at(s, p3) {
                None => Err(varint_end()),
                Some((code, p4)) => match spec_decoded_status(code) {
                    Err(e) => Err(e),
                    Ok(st) => Ok((0, Some(st), Seq::empty(), p4)),
                },
            }
        } else {
            match spec_bytes_at(s, p3, plen) {
                None => Err(CodecError::UnexpectedEnd),
                Some((b, p4)) => Ok((plen, None, b, p4)),
            }
        },
    }
}

/// What [`SubgroupObjectReader::read_object`] reads from the start of `s`
/// under reader state `(ext, prev)`: the new previous Object ID, and the
/// object with the bytes it consumed. The previous Object ID moves as soon
/// as the delta resolves.
pub open spec fn spec_read_object(ext: bool, prev: Option<u64>, s: Seq<u8>) -> (
    Option<u64>,
    Result<(SubgroupObjectView, int), CodecError>,
) {
    match spec_varint_at(s, 0) {
        None => (prev, Err(varint_end())),
        Some((delta, p1)) => match spec_next_object_id(prev, delta) {
            None => (prev, Err(CodecError::InvalidField)),
            Some(oid) => (
                Some(oid),
                if oid >= VARINT_BOUND {
                    Err(CodecError::InvalidField)
                } else {
                    match spec_read_extensions(ext, s, p1) {
                        Err(e) => Err(e),
                        Ok((x, p2)) => match spec_read_length_and_body(s, p2) {
                            Err(e) => Err(e),
                            Ok((plen, st, payload, p4)) => Ok(
                                (
                                    SubgroupObjectView {
                                        object_id: oid,
                                        extension_headers: x,
                                        payload_length: plen,
                                        object_status: st,
                                        payload: payload,
                                    },
                                    p4,
                                ),
                            ),
                        },
                    }
                },
            ),
        },
    }
}

/// The wire code of a status, if there is one.
pub open spec fn spec_opt_code(s: Option<ObjectStatus>) -> Option<u64> {
    match s {
        Some(st) => Some(st.spec_code()),
        None => None,
    }
}

/// What [`SubgroupObjectReader::read_object_meta`] reads: the framing
/// [`SubgroupObjectReader::read_object`] reads, without the payload.
pub open spec fn spec_read_object_meta(ext: bool, prev: Option<u64>, s: Seq<u8>) -> (
    Option<u64>,
    Result<(SubgroupObjectMeta, int), CodecError>,
) {
    let (np, r) = spec_read_object(ext, prev, s);
    (
        np,
        match r {
            Err(e) => Err(e),
            Ok((o, n)) => Ok(
                (
                    SubgroupObjectMeta {
                        object_id: o.object_id,
                        extension_headers_len: o.extension_headers.len() as u64,
                        payload_length: o.payload_length,
                        status: spec_opt_code(o.object_status),
                        wire_len: n as u64,
                    },
                    n,
                ),
            ),
        },
    )
}

/// Reading an object's framing agrees with reading the object: the same
/// bytes are consumed, the same previous Object ID is left behind, the same
/// errors are reported, and the framing describes the object read, down to
/// the payload and extension permissions it answers.
pub proof fn lemma_meta_matches_read_object(ext: bool, prev: Option<u64>, s: Seq<u8>)
    requires
        s.len() <= u64::MAX,
    ensures
        ({
            let (np1, r1) = spec_read_object(ext, prev, s);
            let (np2, r2) = spec_read_object_meta(ext, prev, s);
            &&& np1 == np2
            &&& r1 is Ok <==> r2 is Ok
            &&& r1 is Err ==> r1->Err_0 == r2->Err_0
            &&& r1 is Ok ==> {
                let (o, n1) = r1->Ok_0;
                let (m, n2) = r2->Ok_0;
                &&& n1 == n2
                &&& m.object_id == o.object_id
                &&& m.extension_headers_len == o.extension_headers.len()
                &&& m.payload_length == o.payload_length
                &&& m.status == spec_opt_code(o.object_status)
                &&& m.wire_len == n1
                &&& spec_code_extensions_permitted(m.status, m.extension_headers_len) == Some(
                    o.extension_headers.len() == 0 || spec_resolved_status(
                        o.object_status,
                        o.payload_length,
                    ) == ObjectStatus::Normal,
                )
                &&& spec_code_permission(m.status) == Some(
                    spec_permission_for(spec_resolved_status(o.object_status, o.payload_length)),
                )
            }
        }),
{
    broadcast use ObjectStatus::lemma_from_code_of_code;

    let (_, r1) = spec_read_object(ext, prev, s);
    if r1 is Ok {
        let (o, n1) = r1->Ok_0;
        assert(o.extension_headers.len() <= s.len());
        assert(n1 <= s.len());
    }
}

/// The status field and payload that follow a declared length.
pub open spec fn spec_encode_body(payload_length: u64, status: Option<ObjectStatus>, payload: Seq<u8>) -> Seq<u8> {
    if payload_length == 0 {
        spec_varint_encode(spec_resolved_status(status, 0).spec_code())
    } else {
        payload
    }
}

/// What [`SubgroupObjectReader::write_object`] writes for `o` under reader
/// state `(ext, prev)`, or why it refuses: a declared length that is not the
/// payload's, or an Object ID not above the previous one. An extension block
/// on a stream whose objects carry none is not written.
pub open spec fn spec_write_object(ext: bool, prev: Option<u64>, o: SubgroupObjectView) -> Result<
    Seq<u8>,
    CodecError,
> {
    if o.payload_length != o.payload.len() {
        Err(CodecError::InvalidField)
    } else {
        match spec_object_id_delta(prev, o.object_id) {
            None => Err(CodecError::InvalidField),
            Some(delta) => Ok(
                spec_varint_encode(delta) + spec_encode_extensions(ext, o.extension_headers)
                    + spec_varint_encode(o.payload_length) + spec_encode_body(
                    o.payload_length,
                    o.object_status,
                    o.payload,
                ),
            ),
        }
    }
}

fn read_length_and_body(buf: &[u8], pos: usize) -> (r: Result<
    (VarInt, Option<ObjectStatus>, Vec<u8>, usize),
    CodecError,
>)
    ensures
        match spec_read_length_and_body(buf@, pos as int) {
            Ok((l, st, b, q)) => (r matches Ok((l2, st2, v, n)) && l2@ == l && st2 == st && v@ == b
                && n == q),
            Err(e) => r == Err::<(VarInt, Option<ObjectStatus>, Vec<u8>, usize), CodecError>(e),
        },
{
    let (payload_length, p3) = read_varint(buf, pos)?;
    let plen = payload_length.into_inner();
    if plen == 0 {
        let (code, p4) = read_varint_u64(buf, p3)?;
        let st = decoded_status(code)?;
        Ok((payload_length, Some(st), Vec::new(), p4))
    } else {
        let (payload, p4) = read_bytes(buf, p3, plen)?;
        Ok((payload_length, None, payload, p4))
    }
}

fn skip_length_and_body(buf: &[u8], pos: usize) -> (r: Result<(u64, Option<u64>, usize), CodecError>)
    ensures
        match spec_read_length_and_body(buf@, pos as int) {
            Ok((l, st, b, q)) => (r matches Ok((l2, c, n)) && l2 == l && c == spec_opt_code(st) && n
                == q),
            Err(e) => r == Err::<(u64, Option<u64>, usize), CodecError>(e),
        },
{
    let (payload_length, p3) = read_varint_u64(buf, pos)?;
    if payload_length == 0 {
        let (code, p4) = read_varint_u64(buf, p3)?;
        decoded_status(code)?;
        Ok((0, Some(code), p4))
    } else {
        let p4 = skip(buf, p3, payload_length)?;
        Ok((payload_length, None, p4))
    }
}

/// Stateful reader (and writer) for the objects of one draft-15 subgroup
/// stream: whether objects carry extension blocks, and the previous Object
/// ID against which the next delta is resolved.
#[derive(Debug, Clone)]
pub struct SubgroupObjectReader {
    extensions_present: bool,
    prev_object_id: Option<u64>,
}

impl View for SubgroupObjectReader {
    type V = (bool, Option<u64>);

    closed spec fn view(&self) -> (bool, Option<u64>) {
        (self.extensions_present, self.prev_object_id)
    }
}

impl SubgroupObjectReader {
    /// Build a reader seeded from the enclosing subgroup header.
    pub fn new(header: &SubgroupHeader) -> (r: Self)
        ensures
            r@ == (header.header_type & 0x01 != 0, None::<u64>),
    {
        Self { extensions_present: header.has_extensions(), prev_object_id: None }
    }

    fn next_object_id(&self, delta: u64) -> (r: Result<u64, CodecError>)
        ensures
            match spec_next_object_id(self@.1, delta) {
                Some(v) => r == Ok::<u64, CodecError>(v),
                None => r == Err::<u64, CodecError>(CodecError::InvalidField),
            },
    {
        match self.prev_object_id {
            None => Ok(delta),
            Some(prev) => {
                if prev > u64::MAX - 1 || delta > u64::MAX - 1 - prev {
                    return Err(CodecError::InvalidField);
                }
                Ok(prev + 1 + delta)
            },
        }
    }

    /// Decode the next object from the start of `buf`, with the number of
    /// bytes it occupies.
    pub fn read_object(&mut self, buf: &[u8]) -> (r: Result<(SubgroupObject, usize), CodecError>)
        ensures
            final(self)@.0 == old(self)@.0,
            ({
                let (np, res) = spec_read_object(old(self)@.0, old(self)@.1, buf@);
                &&& final(self)@.1 == np
                &&& match res {
                    Ok((o, n)) => (r matches Ok((x, m)) && x@ == o && m == n),
                    Err(e) => r == Err::<(SubgroupObject, usize), CodecError>(e),
                }
            }),
    {
        let (delta, p1) = read_varint_u64(buf, 0)?;
        let object_id_val = self.next_object_id(delta)?;
        self.prev_object_id = Some(object_id_val);
        let object_id = match VarInt::from_u64(object_id_val) {
            Ok(v) => v,
            Err(_) => return Err(CodecError::InvalidField),
        };
        let (extension_headers, p2) = read_extensions(self.extensions_present, buf, p1)?;
        let (payload_length, object_status, payload, p4) = read_length_and_body(buf, p2)?;
        Ok((SubgroupObject { object_id, extension_headers, payload_length, object_status, payload }, p4))
    }

    /// Decode the next object's framing without copying its payload. Consumes
    /// exactly the bytes [`Self::read_object`] consumes and leaves the same
    /// delta state behind.
    pub fn read_object_meta(&mut self, buf: &[u8]) -> (r: Result<(SubgroupObjectMeta, usize), CodecError>)
        ensures
            final(self)@.0 == old(self)@.0,
            ({
                let (np, res) = spec_read_object_meta(old(self)@.0, old(self)@.1, buf@);
                &&& final(self)@.1 == np
                &&& match res {
                    Ok((m, n)) => (r matches Ok((x, k)) && x == m && k == n),
                    Err(e) => r == Err::<(SubgroupObjectMeta, usize), CodecError>(e),
                }
            }),
    {
        proof {
            let (_, res) = spec_read_object(old(self)@.0, old(self)@.1, buf@);
            if res is Ok {
                assert(res->Ok_0.0.extension_headers.len() <= u64::MAX);
            }
        }
        let (delta, p1) = read_varint_u64(buf, 0)?;
        let object_id = self.next_object_id(delta)?;
        self.prev_object_id = Some(object_id);
        if object_id >= VARINT_BOUND {
            return Err(CodecError::InvalidField);
        }
        let (extension_headers_len, p2) = skip_extensions(self.extensions_present, buf, p1)?;
        let (payload_length, status, p4) = skip_length_and_body(buf, p2)?;
        Ok((SubgroupObjectMeta { object_id, extension_headers_len, payload_length, status, wire_len: p4 as u64 }, p4))
    }

    /// Serialize an object against the reader's delta state and advance it.
    ///
    /// Refuses, before writing anything, an Object ID not strictly greater than
    /// the previous one and a declared length that is not the payload's. A zero
    /// length is written with its status, Normal when unset. Extension headers
    /// beside a status other than Normal are written, not refused: this is the
    /// only writer a subgroup object has.
    pub fn write_object(&mut self, object: &SubgroupObject, buf: &mut Vec<u8>) -> (r: Result<(), CodecError>)
        requires
            object.extension_headers@.len() < VARINT_BOUND,
        ensures
            final(self)@.0 == old(self)@.0,
            match spec_write_object(old(self)@.0, old(self)@.1, object@) {
                Ok(bytes) => r == Ok::<(), CodecError>(()) && final(buf)@ == old(buf)@ + bytes
                    && final(self)@.1 == Some(object@.object_id),
                Err(e) => r == Err::<(), CodecError>(e) && final(buf)@ == old(buf)@
                    && final(self)@.1 == old(self)@.1,
            },
    {
        let declared = object.payload_length.into_inner();
        if declared != object.payload.len() as u64 {
            return Err(CodecError::InvalidField);
        }
        let oid = object.object_id.into_inner();
        let delta = match self.prev_object_id {
            None => oid,
            Some(prev) => {
                if oid <= prev {
                    return Err(CodecError::InvalidField);
                }
                oid - prev - 1
            },
        };
        let ghost start = buf@;
        let delta_vi = match VarInt::from_u64(delta) {
            Ok(v) => v,
            Err(_) => return Err(CodecError::InvalidField),
        };
        delta_vi.encode(buf);
        encode_extensions(self.extensions_present, &object.extension_headers, buf);
        object.payload_length.encode(buf);
        let ghost mid = buf@;
        if declared == 0 {
            let status = match object.object_status {
                Some(s) => s,
                None => ObjectStatus::Normal,
            };
            match VarInt::from_u64(status.as_u64()) {
                Ok(code) => code.encode(buf),
                Err(_) => {},
            }
        } else {
            put_slice(buf, object.payload.as_slice());
        }
        assert(buf@ =~= start + (spec_varint_encode(delta) + spec_encode_extensions(
            self.extensions_present,
            object.extension_headers@,
        ) + spec_varint_encode(declared) + spec_encode_body(
            declared,
            object.object_status,
            object.payload@,
        )));
        self.prev_object_id = Some(oid);
        Ok(())
    }
}

/// What reading an object back gives for `o`: a zero length carries its
/// status, Normal when unset, and a non-zero one carries none.
pub open spec fn spec_object_as_read(o: SubgroupObjectView) -> SubgroupObjectView {
    SubgroupObjectView {
        object_status: if o.payload_length == 0 {
            Some(spec_resolved_status(o.object_status, 0))
        } else {
            None
        },
        ..o
    }
}

/// An object [`SubgroupObjectReader::write_object`] accepts is read back by
/// [`SubgroupObjectReader::read_object`] from the bytes written, whatever
/// follows them, leaving both ends with the same previous Object ID.
///
/// Excluded: an extension block on a stream whose objects carry none, which
/// the writer does not put on the wire.
pub proof fn lemma_subgroup_object_roundtrip(
    ext: bool,
    prev: Option<u64>,
    o: SubgroupObjectView,
    rest: Seq<u8>,
)
    requires
        spec_write_object(ext, prev, o) is Ok,
        o.object_id < VARINT_BOUND,
        o.payload_length < VARINT_BOUND,
        o.extension_headers.len() < VARINT_BOUND,
        !ext ==> o.extension_headers.len() == 0,
    ensures
        ({
            let bytes = spec_write_object(ext, prev, o)->Ok_0;
            spec_read_object(ext, prev, bytes + rest) == (
                Some(o.object_id),
                Ok::<(SubgroupObjectView, int), CodecError>(
                    (spec_object_as_read(o), bytes.len() as int),
                ),
            )
        }),
{
    broadcast use ObjectStatus::lemma_from_code_of_code;

    let delta = spec_object_id_delta(prev, o.object_id)->Some_0;
    let e1 = spec_varint_encode(delta);
    let e2 = spec_encode_extensions(ext, o.extension_headers);
    let e3 = spec_varint_encode(o.payload_length);
    let e4 = spec_encode_body(o.payload_length, o.object_status, o.payload);
    let a1 = e1;
    let a2 = a1 + e2;
    let a3 = a2 + e3;
    let a4 = a3 + e4;
    let s = a4 + rest;
    assert(spec_write_object(ext, prev, o)->Ok_0 == a4);
    lemma_prefix_of_add(a4, rest);
    lemma_prefix_of_add(a3, e4);
    lemma_prefix_trans(a3, a4, s);
    lemma_prefix_of_add(a2, e3);
    lemma_prefix_trans(a2, a3, s);
    lemma_prefix_of_add(a1, e2);
    lemma_prefix_trans(a1, a2, s);
    lemma_varint_encoded(Seq::empty(), delta);
    assert(Seq::<u8>::empty() + e1 =~= a1);
    lemma_varint_at_prefix(a1, s, 0);
    lemma_extensions_encoded(ext, a1, o.extension_headers);
    lemma_read_extensions_prefix(ext, a2, s, a1.len() as int);
    lemma_varint_encoded(a2, o.payload_length);
    lemma_varint_at_prefix(a3, s, a2.len() as int);
    if o.payload_length == 0 {
        lemma_varint_encoded(a3, spec_resolved_status(o.object_status, 0).spec_code());
        lemma_varint_at_prefix(a4, s, a3.len() as int);
        assert(o.payload =~= Seq::<u8>::empty());
    } else {
        lemma_bytes_encoded(a3, o.payload);
        lemma_bytes_at_prefix(a4, s, a3.len() as int, o.payload_length);
    }
}

// ── Datagram headers ───────────────────────────────────────

/// Whether Section 10.3.1 Table 5 assigns datagram type `ty`: only the bits
/// `0x01`, `0x02`, `0x04`, `0x08` and `0x20` may be set, and not `0x20` and
/// `0x02` together.
pub open spec fn spec_datagram_type_assigned(ty: u64) -> bool {
    ty <= 0xFF && (ty as u8) & 0xD0 == 0 && (ty as u8) & 0x22 != 0x22
}

fn datagram_type_is_assigned(ty: u64) -> (r: bool)
    ensures
        r == spec_datagram_type_assigned(ty),
{
    if ty > 0xFF {
        return false;
    }
    let t = ty as u8;
    t & 0xD0 == 0 && t & 0x22 != 0x22
}

/// Datagram header for draft-15.
///
/// - `0x01`: extension block present
/// - `0x02`: end of group
/// - `0x04`: no Object ID (it is 0)
/// - `0x08`: no priority (the subscription's is inherited)
/// - `0x20`: status datagram (a status instead of a payload)
#[derive(Debug, Clone, PartialEq, Eq)]
pub struct DatagramHeader {
    /// Raw datagram-type byte.
    pub datagram_type: u8,
    /// Track alias identifying the track.
    pub track_alias: VarInt,
    /// Group ID for the contained object.
    pub group_id: VarInt,
    /// Object ID (zero when the type carries none).
    pub object_id: VarInt,
    /// Publisher priority, present only when the type's `0x08` bit is clear.
    pub publisher_priority: Option<u8>,
    /// Opaque extension-headers blob (only when the `0x01` bit is set).
    pub extension_headers: Vec<u8>,
    /// Object status (only when the `0x20` bit is set; unset there means
    /// Normal).
    pub object_status: Option<ObjectStatus>,
}

/// The mathematical value of a [`DatagramHeader`].
pub struct DatagramHeaderView {
    pub datagram_type: u8,
    pub track_alias: u64,
    pub group_id: u64,
    pub object_id: u64,
    pub publisher_priority: Option<u8>,
    pub extension_headers: Seq<u8>,
    pub object_status: Option<ObjectStatus>,
}

impl View for DatagramHeader {
    type V = DatagramHeaderView;

    open spec fn view(&self) -> DatagramHeaderView {
        DatagramHeaderView {
            datagram_type: self.datagram_type,
            track_alias: self.track_alias@,
            group_id: self.group_id@,
            object_id: self.object_id@,
            publisher_priority: self.publisher_priority,
            extension_headers: self.extension_headers@,
            object_status: self.object_status,
        }
    }
}

/// The status a datagram resolves to: under the status bit the field is on
/// the wire, Normal when unset; otherwise `None`, the implicit Normal of a
/// datagram that carries a payload.
pub open spec fn spec_effective_status(h: DatagramHeaderView) -> Option<ObjectStatus> {
    if h.datagram_type & 0x20 != 0 {
        Some(spec_resolved_status(h.object_status, 0))
    } else {
        None
    }
}

/// Whether the datagram's status is allowed to carry the extension headers
/// it has.
pub open spec fn spec_datagram_extensions_permitted(h: DatagramHeaderView) -> bool {
    h.datagram_type & 0x01 == 0 || h.extension_headers.len() == 0 || spec_resolved_status(
        spec_effective_status(h),
        0,
    ) == ObjectStatus::Normal
}

/// The bytes [`DatagramHeader::encode`] writes: field presence follows the
/// type byte; a missing priority is written as zero and a missing status as
/// Normal.
pub open spec fn spec_encode_datagram_header(h: DatagramHeaderView) -> Seq<u8> {
    spec_varint_encode(h.datagram_type as u64) + spec_datagram_ids_bytes(h)
        + spec_datagram_tail_bytes(h)
}

/// The Track Alias, Group ID, Object ID and priority fields of a datagram
/// header as written.
pub open spec fn spec_datagram_ids_bytes(h: DatagramHeaderView) -> Seq<u8> {
    spec_varint_encode(h.track_alias) + spec_varint_encode(h.group_id)
        + spec_datagram_object_id_bytes(h) + spec_datagram_priority_bytes(h)
}

/// The extension block and status field of a datagram header as written.
pub open spec fn spec_datagram_tail_bytes(h: DatagramHeaderView) -> Seq<u8> {
    spec_encode_extensions(h.datagram_type & 0x01 != 0, h.extension_headers)
        + spec_datagram_status_bytes(h)
}

/// The Object ID field of a datagram header: present unless the type
/// says it is zero.
pub open spec fn spec_datagram_object_id_bytes(h: DatagramHeaderView) -> Seq<u8> {
    if h.datagram_type & 0x04 == 0 {
        spec_varint_encode(h.object_id)
    } else {
        Seq::empty()
    }
}

/// The publisher priority byte of a datagram header, zero when missing.
pub open spec fn spec_datagram_priority_bytes(h: DatagramHeaderView) -> Seq<u8> {
    if h.datagram_type & 0x08 == 0 {
        seq![
            match h.publisher_priority {
                Some(p) => p,
                None => 0u8,
            },
        ]
    } else {
        Seq::empty()
    }
}

/// The status field of a datagram header, present under the status bit.
pub open spec fn spec_datagram_status_bytes(h: DatagramHeaderView) -> Seq<u8> {
    if h.datagram_type & 0x20 != 0 {
        spec_varint_encode(spec_resolved_status(h.object_status, 0).spec_code())
    } else {
        Seq::empty()
    }
}

/// Why [`DatagramHeader::encode_checked`] refuses `h`, if it does.
pub open spec fn spec_datagram_refusal(h: DatagramHeaderView) -> Option<CodecError> {
    let t = h.datagram_type;
    if t & 0x20 == 0 && (h.object_status matches Some(st) && st != ObjectStatus::Normal) {
        Some(CodecError::InvalidField)
    } else if !spec_datagram_type_assigned(t as u64) {
        Some(CodecError::UnknownDatagramType(t as u64))
    } else if t & 0x01 != 0 && h.extension_headers.len() == 0 {
        Some(CodecError::InvalidField)
    } else if t & 0x01 == 0 && h.extension_headers.len() != 0 {
        Some(CodecError::InvalidField)
    } else {
        match spec_check_extensions_on_encode(
            spec_opt_code(spec_effective_status(h)),
            if t & 0x01 != 0 {
                h.extension_headers.len() as u64
            } else {
                0
            },
        ) {
            Err(e) => Some(e),
            Ok(_) => None,
        }
    }
}

/// A datagram's extension block: under a type that announces one, a declared
/// length of 0 is refused.
pub open spec fn spec_read_datagram_extensions(ext: bool, s: Seq<u8>, p: int) -> Result<
    (Seq<u8>, int),
    CodecError,
> {
    if !ext {
        Ok((Seq::empty(), p))
    } else {
        match spec_varint_at(s, p) {
            None => Err(varint_end()),
            Some((len, q)) => if len == 0 {
                Err(CodecError::InvalidField)
            } else {
                match spec_bytes_at(s, q, len) {
                    None => Err(CodecError::UnexpectedEnd),
                    Some((b, r)) => Ok((b, r)),
                }
            },
        }
    }
}

/// A status code at `p` when `present`.
pub open spec fn spec_opt_status_at(s: Seq<u8>, p: int, present: bool) -> Result<(Option<ObjectStatus>, int), CodecError> {
    if present {
        match spec_varint_at(s, p) {
            None => Err(varint_end()),
            Some((code, q)) => match spec_decoded_status(code) {
                Err(e) => Err(e),
                Ok(st) => Ok((Some(st), q)),
            },
        }
    } else {
        Ok((None, p))
    }
}

/// The Track Alias, Group ID, Object ID and priority of a datagram of type
/// `t`, read at `p`.
pub open spec fn spec_datagram_ids_at(t: u8, s: Seq<u8>, p: int) -> Result<
    (u64, u64, u64, Option<u8>, int),
    CodecError,
> {
    match spec_varint_at(s, p) {
        None => Err(varint_end()),
        Some((ta, p2)) => match spec_varint_at(s, p2) {
            None => Err(varint_end()),
            Some((g, p3)) => match (if t & 0x04 == 0 {
                spec_varint_at(s, p3)
            } else {
                Some((0u64, p3))
            }) {
                None => Err(varint_end()),
                Some((oid, p4)) => match spec_opt_u8_at(s, p4, t & 0x08 == 0) {
                    None => Err(CodecError::UnexpectedEnd),
                    Some((prio, p5)) => Ok((ta, g, oid, prio, p5)),
                },
            },
        },
    }
}

/// The extension block and status of a datagram of type `t`, read at `p`.
pub open spec fn spec_datagram_tail_at(t: u8, s: Seq<u8>, p: int) -> Result<
    (Seq<u8>, Option<ObjectStatus>, int),
    CodecError,
> {
    match spec_read_datagram_extensions(t & 0x01 != 0, s, p) {
        Err(e) => Err(e),
        Ok((x, p6)) => match spec_opt_status_at(s, p6, t & 0x20 != 0) {
            Err(e) => Err(e),
            Ok((st, p7)) => Ok((x, st, p7)),
        },
    }
}

/// The fields of a datagram of type `t` that follow its type, read at `p`.
pub open spec fn spec_datagram_body_at(t: u8, s: Seq<u8>, p: int) -> Result<
    (DatagramHeaderView, int),
    CodecError,
> {
    match spec_datagram_ids_at(t, s, p) {
        Err(e) => Err(e),
        Ok((ta, g, oid, prio, p5)) => match spec_datagram_tail_at(t, s, p5) {
            Err(e) => Err(e),
            Ok((x, st, p7)) => Ok(
                (
                    DatagramHeaderView {
                        datagram_type: t,
                        track_alias: ta,
                        group_id: g,
                        object_id: oid,
                        publisher_priority: prio,
                        extension_headers: x,
                        object_status: st,
                    },
                    p7,
                ),
            ),
        },
    }
}

/// What [`DatagramHeader::decode`] reads from the start of `s`.
pub open spec fn spec_decode_datagram_header(s: Seq<u8>) -> Result<(DatagramHeaderView, int), CodecError> {
    match spec_varint_at(s, 0) {
        None => Err(varint_end()),
        Some((tv, p1)) => if !spec_datagram_type_assigned(tv) {
            Err(CodecError::UnknownDatagramType(tv))
        } else {
            spec_datagram_body_at(tv as u8, s, p1)
        },
    }
}

fn read_datagram_extensions(ext: bool, buf: &[u8], pos: usize) -> (r: Result<(Vec<u8>, usize), CodecError>)
    ensures
        match spec_read_datagram_extensions(ext, buf@, pos as int) {
            Ok((b, q)) => (r matches Ok((v, n)) && v@ == b && n == q),
            Err(e) => r == Err::<(Vec<u8>, usize), CodecError>(e),
        },
{
    if ext {
        let (ext_len, q) = read_varint_u64(buf, pos)?;
        if ext_len == 0 {
            return Err(CodecError::InvalidField);
        }
        read_bytes(buf, q, ext_len)
    } else {
        Ok((Vec::new(), pos))
    }
}

fn read_opt_status(buf: &[u8], pos: usize, present: bool) -> (r: Result<(Option<ObjectStatus>, usize), CodecError>)
    ensures
        match spec_opt_status_at(buf@, pos as int, present) {
            Ok((st, q)) => (r matches Ok((st2, n)) && st2 == st && n == q),
            Err(e) => r == Err::<(Option<ObjectStatus>, usize), CodecError>(e),
        },
{
    if present {
        let (code, q) = read_varint_u64(buf, pos)?;
        let st = decoded_status(code)?;
        Ok((Some(st), q))
    } else {
        Ok((None, pos))
    }
}

fn opt_code(st: Option<ObjectStatus>) -> (r: Option<u64>)
    ensures
        r == spec_opt_code(st),
{
    match st {
        Some(s) => Some(s.as_u64()),
        None => None,
    }
}

fn read_datagram_ids(t: u8, buf: &[u8], p: usize) -> (r: Result<
    (VarInt, VarInt, VarInt, Option<u8>, usize),
    CodecError,
>)
    ensures
        match spec_datagram_ids_at(t, buf@, p as int) {
            Ok((ta, g, oid, prio, q)) => (r matches Ok((x1, x2, x3, x4, n)) && x1@ == ta && x2@
                == g && x3@ == oid && x4 == prio && n == q),
            Err(e) => r == Err::<(VarInt, VarInt, VarInt, Option<u8>, usize), CodecError>(e),
        },
{
    let (track_alias, p2) = read_varint(buf, p)?;
    let (group_id, p3) = read_varint(buf, p2)?;
    let (object_id, p4) = if t & 0x04 == 0 {
        read_varint(buf, p3)?
    } else {
        (VarInt::from_usize(0), p3)
    };
    let (publisher_priority, p5) = read_opt_u8(buf, p4, t & 0x08 == 0)?;
    Ok((track_alias, group_id, object_id, publisher_priority, p5))
}

fn read_datagram_tail(t: u8, buf: &[u8], p: usize) -> (r: Result<
    (Vec<u8>, Option<ObjectStatus>, usize),
    CodecError,
>)
    ensures
        match spec_datagram_tail_at(t, buf@, p as int) {
            Ok((x, st, q)) => (r matches Ok((y, st2, n)) && y@ == x && st2 == st && n == q),
            Err(e) => r == Err::<(Vec<u8>, Option<ObjectStatus>, usize), CodecError>(e),
        },
{
    let (extension_headers, p6) = read_datagram_extensions(t & 0x01 != 0, buf, p)?;
    let (object_status, p7) = read_opt_status(buf, p6, t & 0x20 != 0)?;
    Ok((extension_headers, object_status, p7))
}

impl DatagramHeader {
    /// Whether the datagram carries an explicit Object ID.
    pub fn has_object_id(&self) -> (r: bool)
        ensures
            r == (self.datagram_type & 0x04 == 0),
    {
        self.datagram_type & 0x04 == 0
    }

    /// Whether this datagram marks the end of its group.
    pub fn is_end_of_group(&self) -> (r: bool)
        ensures
            r == (self.datagram_type & 0x02 != 0),
    {
        self.datagram_type & 0x02 != 0
    }

    /// Whether this datagram carries a status instead of a payload.
    pub fn is_status(&self) -> (r: bool)
        ensures
            r == (self.datagram_type & 0x20 != 0),
    {
        self.datagram_type & 0x20 != 0
    }

    /// Whether this datagram carries extension headers.
    pub fn has_extensions(&self) -> (r: bool)
        ensures
            r == (self.datagram_type & 0x01 != 0),
    {
        self.datagram_type & 0x01 != 0
    }

    /// Whether the publisher priority is omitted and inherited.
    pub fn has_default_priority(&self) -> (r: bool)
        ensures
            r == (self.datagram_type & 0x08 != 0),
    {
        self.datagram_type & 0x08 != 0
    }

    fn effective_status(&self) -> (r: Option<ObjectStatus>)
        ensures
            r == spec_effective_status(self@),
    {
        if self.is_status() {
            Some(resolved_status(self.object_status, 0))
        } else {
            None
        }
    }

    /// Whether this datagram's status is allowed to carry the extension
    /// headers it has (Section 10.2.1.2). [`Self::decode`] reports this rather
    /// than refusing; [`Self::encode_checked`] refuses it.
    pub fn extensions_permitted(&self) -> (r: bool)
        ensures
            r == spec_datagram_extensions_permitted(self@),
    {
        if !self.has_extensions() || self.extension_headers.len() == 0 {
            return true;
        }
        resolved_status(self.effective_status(), 0) == ObjectStatus::Normal
    }

    /// Encode the header, refusing before writing anything: a non-Normal
    /// status the type cannot carry, a type Table 5 does not assign, an
    /// extension block the type does not announce or an empty one it does,
    /// and extensions beside a status other than Normal.
    pub fn encode_checked(&self, buf: &mut Vec<u8>) -> (r: Result<(), CodecError>)
        requires
            self.extension_headers@.len() < VARINT_BOUND,
        ensures
            match spec_datagram_refusal(self@) {
                Some(e) => r == Err::<(), CodecError>(e) && final(buf)@ == old(buf)@,
                None => r == Ok::<(), CodecError>(()) && final(buf)@ == old(buf)@
                    + spec_encode_datagram_header(self@),
            },
    {
        if !self.is_status() {
            match self.object_status {
                Some(st) => {
                    if st != ObjectStatus::Normal {
                        return Err(CodecError::InvalidField);
                    }
                },
                None => {},
            }
        }
        if !datagram_type_is_assigned(self.datagram_type as u64) {
            return Err(CodecError::UnknownDatagramType(self.datagram_type as u64));
        }
        if self.has_extensions() {
            if self.extension_headers.len() == 0 {
                return Err(CodecError::InvalidField);
            }
        } else if self.extension_headers.len() != 0 {
            return Err(CodecError::InvalidField);
        }
        let len = if self.has_extensions() {
            self.extension_headers.len() as u64
        } else {
            0
        };
        check_extensions_against_status_on_encode(opt_code(self.effective_status()), len)?;
        self.encode(buf);
        Ok(())
    }

    /// Encode the datagram header. The type byte decides the framing: the
    /// status field is written whenever the status bit is set, Normal when
    /// unset, and a status set without the bit is dropped.
    pub fn encode(&self, buf: &mut Vec<u8>)
        requires
            self.extension_headers@.len() < VARINT_BOUND,
        ensures
            final(buf)@ == old(buf)@ + spec_encode_datagram_header(self@),
    {
        let ghost start = buf@;
        VarInt::from_usize(self.datagram_type as usize).encode(buf);
        let ghost a1 = buf@;
        encode_datagram_ids(self, buf);
        let ghost a2 = buf@;
        encode_datagram_tail(self, buf);
        assert(buf@ =~= start + spec_encode_datagram_header(self@));
    }

    /// Decode a datagram header from the start of `buf`; the payload of a
    /// payload-bearing datagram is what follows it.
    pub fn decode(buf: &[u8]) -> (r: Result<(DatagramHeader, usize), CodecError>)
        ensures
            match spec_decode_datagram_header(buf@) {
                Ok((h, n)) => (r matches Ok((x, k)) && x@ == h && k == n),
                Err(e) => r == Err::<(DatagramHeader, usize), CodecError>(e),
            },
    {
        let (type_value, p1) = read_varint_u64(buf, 0)?;
        if !datagram_type_is_assigned(type_value) {
            return Err(CodecError::UnknownDatagramType(type_value));
        }
        let datagram_type = type_value as u8;
        let (track_alias, group_id, object_id, publisher_priority, p5) = read_datagram_ids(
            datagram_type,
            buf,
            p1,
        )?;
        let (extension_headers, object_status, p7) = read_datagram_tail(datagram_type, buf, p5)?;
        Ok(
            (
                DatagramHeader {
                    datagram_type,
                    track_alias,
                    group_id,
                    object_id,
                    publisher_priority,
                    extension_headers,
                    object_status,
                },
                p7,
            ),
        )
    }
}

fn encode_datagram_ids(d: &DatagramHeader, buf: &mut Vec<u8>)
    ensures
        final(buf)@ == old(buf)@ + spec_datagram_ids_bytes(d@),
{
    let ghost start = buf@;
    let ghost h = d@;
    let ghost q2 = spec_varint_encode(h.track_alias) + spec_varint_encode(h.group_id);
    let ghost q3 = q2 + spec_datagram_object_id_bytes(h);
    d.track_alias.encode(buf);
    d.group_id.encode(buf);
    assert(buf@ =~= start + q2);
    if d.has_object_id() {
        d.object_id.encode(buf);
    }
    assert(buf@ =~= start + q3);
    if !d.has_default_priority() {
        let p = match d.publisher_priority {
            Some(p) => p,
            None => 0,
        };
        buf.push(p);
    }
    assert(buf@ =~= start + spec_datagram_ids_bytes(h));
}

fn encode_datagram_tail(d: &DatagramHeader, buf: &mut Vec<u8>)
    requires
        d.extension_headers@.len() < VARINT_BOUND,
    ensures
        final(buf)@ == old(buf)@ + spec_datagram_tail_bytes(d@),
{
    let ghost start = buf@;
    let ghost h = d@;
    encode_extensions(d.has_extensions(), &d.extension_headers, buf);
    let ghost a3 = buf@;
    if d.is_status() {
        let status = resolved_status(d.object_status, 0);
        match VarInt::from_u64(status.as_u64()) {
            Ok(code) => code.encode(buf),
            Err(_) => {},
        }
    }
    assert(buf@ =~= a3 + spec_datagram_status_bytes(h));
    assert(buf@ =~= start + spec_datagram_tail_bytes(h));
}

/// What decoding a datagram header gives back for `h`: the Object ID only
/// under a type that carries it, the priority only under a type that
/// carries it, and a status only under the status bit, Normal when unset.
pub open spec fn spec_datagram_as_read(h: DatagramHeaderView) -> DatagramHeaderView {
    DatagramHeaderView {
        object_id: if h.datagram_type & 0x04 == 0 {
            h.object_id
        } else {
            0
        },
        publisher_priority: if h.datagram_type & 0x08 == 0 {
            Some(
                match h.publisher_priority {
                    Some(p) => p,
                    None => 0u8,
                },
            )
        } else {
            None
        },
        object_status: spec_effective_status(h),
        ..h
    }
}

/// A datagram header [`DatagramHeader::encode_checked`] accepts is decoded
/// from the bytes it writes, whatever follows them.
pub proof fn lemma_datagram_header_roundtrip(h: DatagramHeaderView, rest: Seq<u8>)
    requires
        spec_datagram_refusal(h) is None,
        h.track_alias < VARINT_BOUND,
        h.group_id < VARINT_BOUND,
        h.object_id < VARINT_BOUND,
        h.extension_headers.len() < VARINT_BOUND,
    ensures
        spec_decode_datagram_header(spec_encode_datagram_header(h) + rest) == Ok::<
            (DatagramHeaderView, int),
            CodecError,
        >((spec_datagram_as_read(h), spec_encode_datagram_header(h).len() as int)),
{
    let t = h.datagram_type;
    let e1 = spec_varint_encode(t as u64);
    let ids = spec_datagram_ids_bytes(h);
    let a2 = e1 + ids;
    let e = spec_encode_datagram_header(h);
    let s = e + rest;
    lemma_prefix_of_add(e, rest);
    lemma_prefix_of_add(a2, spec_datagram_tail_bytes(h));
    lemma_prefix_trans(a2, e, s);
    lemma_varint_encoded(Seq::empty(), t as u64);
    assert(Seq::<u8>::empty() + e1 =~= e1);
    lemma_prefix_of_add(e1, ids);
    lemma_prefix_trans(e1, a2, s);
    lemma_varint_at_prefix(e1, s, 0);
    lemma_datagram_ids_read(h, e1, s);
    lemma_datagram_tail_read(h, a2, s);
}

/// The identifying fields of a datagram header are read back as written.
proof fn lemma_datagram_ids_read(h: DatagramHeaderView, pre: Seq<u8>, s: Seq<u8>)
    requires
        h.track_alias < VARINT_BOUND,
        h.group_id < VARINT_BOUND,
        h.object_id < VARINT_BOUND,
        spec_is_prefix(pre + spec_datagram_ids_bytes(h), s),
    ensures
        spec_datagram_ids_at(h.datagram_type, s, pre.len() as int) == Ok::<
            (u64, u64, u64, Option<u8>, int),
            CodecError,
        >(
            (
                h.track_alias,
                h.group_id,
                spec_datagram_as_read(h).object_id,
                spec_datagram_as_read(h).publisher_priority,
                (pre + spec_datagram_ids_bytes(h)).len() as int,
            ),
        ),
{
    let t = h.datagram_type;
    let prio = match h.publisher_priority {
        Some(p) => p,
        None => 0u8,
    };
    let b1 = pre + spec_varint_encode(h.track_alias);
    let b2 = b1 + spec_varint_encode(h.group_id);
    let b3 = b2 + spec_datagram_object_id_bytes(h);
    let b4 = b3 + spec_datagram_priority_bytes(h);
    assert(b4 =~= pre + spec_datagram_ids_bytes(h));
    lemma_prefix_of_add(b3, spec_datagram_priority_bytes(h));
    lemma_prefix_trans(b3, b4, s);
    lemma_prefix_of_add(b2, spec_datagram_object_id_bytes(h));
    lemma_prefix_trans(b2, b3, s);
    lemma_prefix_of_add(b1, spec_varint_encode(h.group_id));
    lemma_prefix_trans(b1, b2, s);
    lemma_varint_encoded(pre, h.track_alias);
    lemma_varint_at_prefix(b1, s, pre.len() as int);
    lemma_varint_encoded(b1, h.group_id);
    lemma_varint_at_prefix(b2, s, b1.len() as int);
    if t & 0x04 == 0 {
        lemma_varint_encoded(b2, h.object_id);
        lemma_varint_at_prefix(b3, s, b2.len() as int);
    } else {
        assert(b3 =~= b2);
    }
    if t & 0x08 == 0 {
        lemma_u8_encoded(b3, prio);
        lemma_u8_at_prefix(b4, s, b3.len() as int);
    } else {
        assert(b4 =~= b3);
    }
}

/// The extension block and status of a datagram header are read back as
/// written, the status as reading resolves it.
proof fn lemma_datagram_tail_read(h: DatagramHeaderView, pre: Seq<u8>, s: Seq<u8>)
    requires
        h.datagram_type & 0x01 != 0 <==> h.extension_headers.len() != 0,
        h.extension_headers.len() < VARINT_BOUND,
        spec_is_prefix(pre + spec_datagram_tail_bytes(h), s),
    ensures
        spec_datagram_tail_at(h.datagram_type, s, pre.len() as int) == Ok::<
            (Seq<u8>, Option<ObjectStatus>, int),
            CodecError,
        >(
            (
                spec_datagram_as_read(h).extension_headers,
                spec_datagram_as_read(h).object_status,
                (pre + spec_datagram_tail_bytes(h)).len() as int,
            ),
        ),
{
    broadcast use ObjectStatus::lemma_from_code_of_code;

    let t = h.datagram_type;
    let ext = t & 0x01 != 0;
    let b1 = pre + spec_encode_extensions(ext, h.extension_headers);
    let b2 = b1 + spec_datagram_status_bytes(h);
    assert(b2 =~= pre + spec_datagram_tail_bytes(h));
    lemma_prefix_of_add(b1, spec_datagram_status_bytes(h));
    lemma_prefix_trans(b1, b2, s);
    if ext {
        let x = h.extension_headers;
        let bl = pre + spec_varint_encode(x.len() as u64);
        assert(b1 =~= bl + x);
        lemma_prefix_of_add(bl, x);
        lemma_prefix_trans(bl, b1, s);
        lemma_varint_encoded(pre, x.len() as u64);
        lemma_varint_at_prefix(bl, s, pre.len() as int);
        lemma_bytes_encoded(bl, x);
        lemma_bytes_at_prefix(b1, s, bl.len() as int, x.len() as u64);
    } else {
        assert(b1 =~= pre);
        assert(spec_datagram_as_read(h).extension_headers =~= Seq::<u8>::empty());
    }
    if t & 0x20 != 0 {
        let code = spec_resolved_status(h.object_status, 0).spec_code();
        lemma_varint_encoded(b1, code);
        lemma_varint_at_prefix(b2, s, b1.len() as int);
    } else {
        assert(b2 =~= b1);
    }
}

// ── Fetch stream headers ───────────────────────────────────

/// Fetch stream header for draft-15: stream type `0x05` and a Request ID.
#[derive(Debug, Clone, Copy, PartialEq, Eq, Structural)]
pub struct FetchHeader {
    pub request_id: VarInt,
}

/// The bytes [`FetchHeader::encode`] writes.
pub open spec fn spec_encode_fetch_header(h: FetchHeader) -> Seq<u8> {
    spec_varint_encode(0x05) + spec_varint_encode(h.request_id@)
}

/// What [`FetchHeader::decode`] reads from the start of `s`.
pub open spec fn spec_decode_fetch_header(s: Seq<u8>) -> Result<(FetchHeader, int), CodecError> {
    match spec_varint_at(s, 0) {
        None => Err(varint_end()),
        Some((t, p1)) => if t != 0x05 {
            Err(spec_stream_type_error(t))
        } else {
            match spec_varint_at(s, p1) {
                None => Err(varint_end()),
                Some((rid, p2)) => Ok((FetchHeader { request_id: VarInt::spec_new(rid) }, p2)),
            }
        },
    }
}

impl FetchHeader {
    pub fn encode(&self, buf: &mut Vec<u8>)
        ensures
            final(buf)@ == old(buf)@ + spec_encode_fetch_header(*self),
    {
        VarInt::from_usize(FETCH_STREAM_TYPE as usize).encode(buf);
        self.request_id.encode(buf);
        assert(buf@ =~= old(buf)@ + spec_encode_fetch_header(*self));
    }

    /// Decode the header. A leading type the stream table does not assign is
    /// `UnknownStreamType`; a subgroup type is `InvalidField`.
    pub fn decode(buf: &[u8]) -> (r: Result<(FetchHeader, usize), CodecError>)
        ensures
            match spec_decode_fetch_header(buf@) {
                Ok((h, n)) => (r matches Ok((x, k)) && x == h && k == n),
                Err(e) => r == Err::<(FetchHeader, usize), CodecError>(e),
            },
    {
        let (stream_type, p1) = read_varint_u64(buf, 0)?;
        if stream_type != FETCH_STREAM_TYPE {
            return Err(stream_type_error(stream_type));
        }
        let (request_id, p2) = read_varint(buf, p1)?;
        Ok((Self { request_id }, p2))
    }
}

/// A fetch header is read back from its own encoding, whatever follows it.
pub proof fn lemma_fetch_header_roundtrip(h: FetchHeader, rest: Seq<u8>)
    requires
        h.request_id@ < VARINT_BOUND,
    ensures
        spec_decode_fetch_header(spec_encode_fetch_header(h) + rest) == Ok::<(FetchHeader, int), CodecError>(
            (h, spec_encode_fetch_header(h).len() as int),
        ),
{
    let e1 = spec_varint_encode(0x05);
    let e2 = spec_varint_encode(h.request_id@);
    let a2 = e1 + e2;
    let s = a2 + rest;
    lemma_prefix_of_add(a2, rest);
    lemma_prefix_of_add(e1, e2);
    lemma_prefix_trans(e1, a2, s);
    lemma_varint_encoded(Seq::empty(), 0x05);
    assert(Seq::<u8>::empty() + e1 =~= e1);
    lemma_varint_at_prefix(e1, s, 0);
    lemma_varint_encoded(e1, h.request_id@);
    lemma_varint_at_prefix(a2, s, e1.len() as int);
}

// ── Fetch objects (stateful) ───────────────────────────────

/// How a draft-15 fetch object carries its Subgroup ID: the two low bits of
/// its Serialization Flags, read as one field (Section 10.4.4, Table 7).
#[derive(Debug, Clone, Copy, PartialEq, Eq, Structural)]
pub enum SubgroupIdEncoding {
    /// `0x00`: the Subgroup ID is zero, whatever the preceding object's was.
    Zero,
    /// `0x01`: the Subgroup ID is the prior object's.
    SameAsPrior,
    /// `0x02`: the Subgroup ID is the prior object's plus one.
    PriorPlusOne,
    /// `0x03`: the Subgroup ID follows as a varint.
    Present,
}

/// The encoding a two-bit field value names.
pub open spec fn spec_subgroup_encoding(bits: u8) -> SubgroupIdEncoding {
    if bits == 0 {
        SubgroupIdEncoding::Zero
    } else if bits == 1 {
        SubgroupIdEncoding::SameAsPrior
    } else if bits == 2 {
        SubgroupIdEncoding::PriorPlusOne
    } else {
        SubgroupIdEncoding::Present
    }
}

impl SubgroupIdEncoding {
    /// The bits an encoding occupies in a Serialization Flags byte.
    pub open spec fn spec_bits(self) -> u8 {
        match self {
            SubgroupIdEncoding::Zero => 0,
            SubgroupIdEncoding::SameAsPrior => 1,
            SubgroupIdEncoding::PriorPlusOne => 2,
            SubgroupIdEncoding::Present => 3,
        }
    }

    /// Whether resolving the Subgroup ID needs the object before it.
    pub open spec fn spec_references_prior(self) -> bool {
        self == SubgroupIdEncoding::SameAsPrior || self == SubgroupIdEncoding::PriorPlusOne
    }

    /// Read the two-bit field out of a Serialization Flags byte.
    pub fn from_flags(flags: u8) -> (r: Self)
        ensures
            r == spec_subgroup_encoding(flags & 0x03),
    {
        let bits = flags & 0x03;
        if bits == 0 {
            SubgroupIdEncoding::Zero
        } else if bits == 1 {
            SubgroupIdEncoding::SameAsPrior
        } else if bits == 2 {
            SubgroupIdEncoding::PriorPlusOne
        } else {
            SubgroupIdEncoding::Present
        }
    }

    /// The bit pattern this encoding occupies in a Serialization Flags byte.
    pub fn as_bits(self) -> (r: u8)
        ensures
            r == self.spec_bits(),
    {
        match self {
            SubgroupIdEncoding::Zero => 0x00,
            SubgroupIdEncoding::SameAsPrior => 0x01,
            SubgroupIdEncoding::PriorPlusOne => 0x02,
            SubgroupIdEncoding::Present => 0x03,
        }
    }

    /// Whether resolving a Subgroup ID under this encoding needs the object
    /// before it on the stream; `Zero` does not, which makes it the one
    /// implicit form a stream's first object may use.
    pub fn references_prior(self) -> (r: bool)
        ensures
            r == self.spec_references_prior(),
    {
        match self {
            SubgroupIdEncoding::SameAsPrior => true,
            SubgroupIdEncoding::PriorPlusOne => true,
            _ => false,
        }
    }
}

/// The two-bit field and its encodings are in one-to-one correspondence:
/// reading an encoding's bits back names that encoding, and every flags
/// byte's field is the bits of the encoding it names.
pub proof fn lemma_subgroup_encoding_bits(e: SubgroupIdEncoding, flags: u8)
    ensures
        spec_subgroup_encoding(e.spec_bits() & 0x03) == e,
        spec_subgroup_encoding(flags & 0x03).spec_bits() == flags & 0x03,
{
    let b = e.spec_bits();
    assert(b <= 3 ==> b & 0x03 == b) by (bit_vector);
    assert(flags & 0x03 <= 3) by (bit_vector);
}

/// One object on a draft-15 fetch stream, without its payload, with every
/// field resolved against the objects before it. `serialization_flags` is
/// kept beside the resolved values so that the object re-encodes to the
/// bytes it was decoded from.
///
/// The flag bits (Section 10.4.4, Tables 7 and 8): `0x03` the Subgroup ID
/// encoding, `0x04` Object ID present (else the prior's plus one), `0x08`
/// Group ID present (else the prior's), `0x10` Publisher Priority present
/// (else the prior's), `0x20` Extensions present, `0xc0` unassigned.
#[derive(Debug, Clone, PartialEq, Eq)]
pub struct FetchObjectHeader {
    /// Raw Serialization Flags byte, as decoded or as it is to be written.
    pub serialization_flags: u8,
    /// Resolved absolute Group ID.
    pub group_id: VarInt,
    /// Resolved absolute Subgroup ID.
    pub subgroup_id: VarInt,
    /// Resolved absolute Object ID.
    pub object_id: VarInt,
    /// Publisher priority for delivery ordering.
    pub publisher_priority: u8,
    /// Raw extension-header bytes, excluding the length prefix before them.
    pub extension_headers: Vec<u8>,
    /// Payload length as encoded on the wire; zero for a status object.
    pub payload_length: VarInt,
    /// Object status; `Some` when `payload_length` is zero. `None` there
    /// means Normal and encodes as it.
    pub object_status: Option<ObjectStatus>,
}

/// The mathematical value of a [`FetchObjectHeader`].
pub struct FetchObjectHeaderView {
    pub serialization_flags: u8,
    pub group_id: u64,
    pub subgroup_id: u64,
    pub object_id: u64,
    pub publisher_priority: u8,
    pub extension_headers: Seq<u8>,
    pub payload_length: u64,
    pub object_status: Option<ObjectStatus>,
}

impl View for FetchObjectHeader {
    type V = FetchObjectHeaderView;

    open spec fn view(&self) -> FetchObjectHeaderView {
        FetchObjectHeaderView {
            serialization_flags: self.serialization_flags,
            group_id: self.group_id@,
            subgroup_id: self.subgroup_id@,
            object_id: self.object_id@,
            publisher_priority: self.publisher_priority,
            extension_headers: self.extension_headers@,
            payload_length: self.payload_length@,
            object_status: self.object_status,
        }
    }
}

/// Whether any field of an object with these flags is taken from the object
/// before it: the two inheriting Subgroup ID encodings, and the cleared
/// Object ID, Group ID and Priority bits.
pub open spec fn spec_fetch_refs_prior(flags: u8) -> bool {
    spec_subgroup_encoding(flags & 0x03).spec_references_prior() || flags & 0x04 == 0 || flags
        & 0x08 == 0 || flags & 0x10 == 0
}

/// The Group ID field of a fetch object, present under `0x08`.
pub open spec fn spec_fetch_group_bytes(h: FetchObjectHeaderView) -> Seq<u8> {
    if h.serialization_flags & 0x08 != 0 {
        spec_varint_encode(h.group_id)
    } else {
        Seq::empty()
    }
}

/// The Subgroup ID field of a fetch object, present under encoding `0x03`.
pub open spec fn spec_fetch_subgroup_bytes(h: FetchObjectHeaderView) -> Seq<u8> {
    if spec_subgroup_encoding(h.serialization_flags & 0x03) == SubgroupIdEncoding::Present {
        spec_varint_encode(h.subgroup_id)
    } else {
        Seq::empty()
    }
}

/// The Object ID field of a fetch object, present under `0x04`.
pub open spec fn spec_fetch_object_bytes(h: FetchObjectHeaderView) -> Seq<u8> {
    if h.serialization_flags & 0x04 != 0 {
        spec_varint_encode(h.object_id)
    } else {
        Seq::empty()
    }
}

/// The Publisher Priority byte of a fetch object, present under `0x10`.
pub open spec fn spec_fetch_priority_bytes(h: FetchObjectHeaderView) -> Seq<u8> {
    if h.serialization_flags & 0x10 != 0 {
        seq![h.publisher_priority]
    } else {
        Seq::empty()
    }
}

/// The Object Status field of a fetch object, present exactly when the
/// declared length is zero; an unset status is written as Normal.
pub open spec fn spec_fetch_status_bytes(h: FetchObjectHeaderView) -> Seq<u8> {
    if h.payload_length == 0 {
        spec_varint_encode(spec_resolved_status(h.object_status, 0).spec_code())
    } else {
        Seq::empty()
    }
}

/// The bytes a fetch object's framing occupies: the flags byte, then the
/// fields its flags announce in the order of Section 10.4.4, Figure 30, then
/// the payload length and, beside a zero length, the status.
pub open spec fn spec_encode_fetch_object_header(h: FetchObjectHeaderView) -> Seq<u8> {
    spec_fetch_head_bytes(h) + spec_fetch_tail_bytes(h)
}

/// The flags byte and the identifying fields it announces.
pub open spec fn spec_fetch_head_bytes(h: FetchObjectHeaderView) -> Seq<u8> {
    seq![h.serialization_flags] + spec_fetch_group_bytes(h) + spec_fetch_subgroup_bytes(h)
        + spec_fetch_object_bytes(h) + spec_fetch_priority_bytes(h)
}

/// The extensions block, payload length and status that end the framing.
pub open spec fn spec_fetch_tail_bytes(h: FetchObjectHeaderView) -> Seq<u8> {
    spec_encode_extensions(h.serialization_flags & 0x20 != 0, h.extension_headers)
        + spec_varint_encode(h.payload_length) + spec_fetch_status_bytes(h)
}

/// A value inherited from the prior object: refused as `InvalidField` where
/// it cannot be held as a varint.
pub open spec fn spec_inherited(v: int, p: int) -> Result<(u64, int), CodecError> {
    if 0 <= v < VARINT_BOUND {
        Ok((v as u64, p))
    } else {
        Err(CodecError::InvalidField)
    }
}

/// A varint field read at `p`.
pub open spec fn spec_field_at(s: Seq<u8>, p: int) -> Result<(u64, int), CodecError> {
    match spec_varint_at(s, p) {
        None => Err(varint_end()),
        Some((v, q)) => Ok((v, q)),
    }
}

/// The Group ID of a fetch object read at `p`.
pub open spec fn spec_fetch_group_at(
    flags: u8,
    prior: Option<(u64, u64, u64, u8)>,
    s: Seq<u8>,
    p: int,
) -> Result<(u64, int), CodecError> {
    if flags & 0x08 != 0 {
        spec_field_at(s, p)
    } else {
        match prior {
            None => Err(CodecError::InvalidField),
            Some(pr) => spec_inherited(pr.0 as int, p),
        }
    }
}

/// The Subgroup ID of a fetch object read at `p`.
pub open spec fn spec_fetch_subgroup_at(
    flags: u8,
    prior: Option<(u64, u64, u64, u8)>,
    s: Seq<u8>,
    p: int,
) -> Result<(u64, int), CodecError> {
    match spec_subgroup_encoding(flags & 0x03) {
        SubgroupIdEncoding::Zero => Ok((0, p)),
        SubgroupIdEncoding::SameAsPrior => match prior {
            None => Err(CodecError::InvalidField),
            Some(pr) => spec_inherited(pr.1 as int, p),
        },
        SubgroupIdEncoding::PriorPlusOne => match prior {
            None => Err(CodecError::InvalidField),
            Some(pr) => spec_inherited(pr.1 + 1, p),
        },
        SubgroupIdEncoding::Present => spec_field_at(s, p),
    }
}

/// The Object ID of a fetch object read at `p`.
pub open spec fn spec_fetch_object_at(
    flags: u8,
    prior: Option<(u64, u64, u64, u8)>,
    s: Seq<u8>,
    p: int,
) -> Result<(u64, int), CodecError> {
    if flags & 0x04 != 0 {
        spec_field_at(s, p)
    } else {
        match prior {
            None => Err(CodecError::InvalidField),
            Some(pr) => spec_inherited(pr.2 + 1, p),
        }
    }
}

/// The Publisher Priority of a fetch object read at `p`.
pub open spec fn spec_fetch_priority_at(
    flags: u8,
    prior: Option<(u64, u64, u64, u8)>,
    s: Seq<u8>,
    p: int,
) -> Result<(u8, int), CodecError> {
    if flags & 0x10 != 0 {
        match spec_u8_at(s, p) {
            None => Err(CodecError::UnexpectedEnd),
            Some((b, q)) => Ok((b, q)),
        }
    } else {
        match prior {
            None => Err(CodecError::InvalidField),
            Some(pr) => Ok((pr.3, p)),
        }
    }
}

/// The Group ID, Subgroup ID, Object ID and priority of a fetch object whose
/// flags byte has been read, with the position after them.
pub open spec fn spec_fetch_ids_at(
    flags: u8,
    prior: Option<(u64, u64, u64, u8)>,
    s: Seq<u8>,
    p: int,
) -> Result<((u64, u64, u64, u8), int), CodecError> {
    match spec_fetch_group_at(flags, prior, s, p) {
        Err(e) => Err(e),
        Ok((g, p1)) => match spec_fetch_subgroup_at(flags, prior, s, p1) {
            Err(e) => Err(e),
            Ok((sg, p2)) => match spec_fetch_object_at(flags, prior, s, p2) {
                Err(e) => Err(e),
                Ok((o, p3)) => match spec_fetch_priority_at(flags, prior, s, p3) {
                    Err(e) => Err(e),
                    Ok((pr, p4)) => Ok(((g, sg, o, pr), p4)),
                },
            },
        },
    }
}

/// The extensions, payload length and status that end a fetch object's
/// framing, read at `p`.
pub open spec fn spec_fetch_tail_at(ext: bool, s: Seq<u8>, p: int) -> Result<
    (Seq<u8>, u64, Option<ObjectStatus>, int),
    CodecError,
> {
    match spec_read_extensions(ext, s, p) {
        Err(e) => Err(e),
        Ok((x, p5)) => match spec_varint_at(s, p5) {
            None => Err(varint_end()),
            Some((len, p6)) => match spec_opt_status_at(s, p6, len == 0) {
                Err(e) => Err(e),
                Ok((st, p7)) => Ok((x, len, st, p7)),
            },
        },
    }
}

/// What a fetch-stream reader whose prior object is `prior` reads from the
/// start of `s`: the object's framing and the bytes it occupies.
pub open spec fn spec_read_fetch_object_header(prior: Option<(u64, u64, u64, u8)>, s: Seq<u8>) -> Result<
    (FetchObjectHeaderView, int),
    CodecError,
> {
    match spec_u8_at(s, 0) {
        None => Err(CodecError::UnexpectedEnd),
        Some((f, p0)) => if f & 0xc0 != 0 {
            Err(CodecError::InvalidField)
        } else if spec_fetch_refs_prior(f) && prior is None {
            Err(CodecError::InvalidField)
        } else {
            match spec_fetch_ids_at(f, prior, s, p0) {
                Err(e) => Err(e),
                Ok((ids, p4)) => match spec_fetch_tail_at(f & 0x20 != 0, s, p4) {
                    Err(e) => Err(e),
                    Ok((x, len, st, p7)) => Ok(
                        (
                            FetchObjectHeaderView {
                                serialization_flags: f,
                                group_id: ids.0,
                                subgroup_id: ids.1,
                                object_id: ids.2,
                                publisher_priority: ids.3,
                                extension_headers: x,
                                payload_length: len,
                                object_status: st,
                            },
                            p7,
                        ),
                    ),
                },
            }
        },
    }
}

/// The fields of `h` the object after it may inherit.
pub open spec fn spec_fetch_prior_of(h: FetchObjectHeaderView) -> (u64, u64, u64, u8) {
    (h.group_id, h.subgroup_id, h.object_id, h.publisher_priority)
}

/// Whether `h` can be written faithfully after an object `prior`: its flags
/// carry no unassigned bit, a status other than Normal has no payload
/// length beside it, extension bytes have their bit, and every field the
/// flags leave off is the value the omission implies.
pub open spec fn spec_fetch_consistent(prior: Option<(u64, u64, u64, u8)>, h: FetchObjectHeaderView) -> bool {
    let f = h.serialization_flags;
    &&& f & 0xc0 == 0
    &&& !(h.payload_length != 0 && (h.object_status matches Some(st) && st
        != ObjectStatus::Normal))
    &&& (f & 0x20 == 0 ==> h.extension_headers.len() == 0)
    &&& (spec_fetch_refs_prior(f) ==> prior is Some)
    &&& (f & 0x08 == 0 ==> (prior matches Some(pr) && h.group_id == pr.0))
    &&& match spec_subgroup_encoding(f & 0x03) {
        SubgroupIdEncoding::Zero => h.subgroup_id == 0,
        SubgroupIdEncoding::SameAsPrior => prior matches Some(pr) && h.subgroup_id == pr.1,
        SubgroupIdEncoding::PriorPlusOne => prior matches Some(pr) && h.subgroup_id == pr.1 + 1,
        SubgroupIdEncoding::Present => true,
    }
    &&& (f & 0x04 == 0 ==> (prior matches Some(pr) && h.object_id == pr.2 + 1))
    &&& (f & 0x10 == 0 ==> (prior matches Some(pr) && h.publisher_priority == pr.3))
}

/// What reading back the framing of `h` gives: a status exactly beside a
/// zero length, Normal where unset.
pub open spec fn spec_fetch_as_read(h: FetchObjectHeaderView) -> FetchObjectHeaderView {
    FetchObjectHeaderView {
        object_status: if h.payload_length == 0 {
            Some(spec_resolved_status(h.object_status, 0))
        } else {
            None
        },
        ..h
    }
}

impl FetchObjectHeader {
    /// How this object's Subgroup ID is carried, from the low two flag bits.
    pub fn subgroup_id_encoding(&self) -> (r: SubgroupIdEncoding)
        ensures
            r == spec_subgroup_encoding(self.serialization_flags & 0x03),
    {
        SubgroupIdEncoding::from_flags(self.serialization_flags)
    }

    /// Whether the Object ID is on the wire, rather than the prior object's
    /// ID plus one.
    pub fn has_object_id(&self) -> (r: bool)
        ensures
            r == (self.serialization_flags & 0x04 != 0),
    {
        self.serialization_flags & 0x04 != 0
    }

    /// Whether the Group ID is on the wire, rather than the prior object's.
    pub fn has_group_id(&self) -> (r: bool)
        ensures
            r == (self.serialization_flags & 0x08 != 0),
    {
        self.serialization_flags & 0x08 != 0
    }

    /// Whether the Publisher Priority is on the wire, rather than the prior
    /// object's.
    pub fn has_priority(&self) -> (r: bool)
        ensures
            r == (self.serialization_flags & 0x10 != 0),
    {
        self.serialization_flags & 0x10 != 0
    }

    /// Whether an extensions block is on the wire.
    pub fn has_extensions(&self) -> (r: bool)
        ensures
            r == (self.serialization_flags & 0x20 != 0),
    {
        self.serialization_flags & 0x20 != 0
    }

    /// Whether any of this object's fields is taken from the object before it
    /// on the stream; the first object of a stream may not do so.
    pub fn references_prior_object(&self) -> (r: bool)
        ensures
            r == spec_fetch_refs_prior(self.serialization_flags),
    {
        self.subgroup_id_encoding().references_prior() || !self.has_object_id()
            || !self.has_group_id() || !self.has_priority()
    }

    /// The status this object resolves to: Normal whenever a payload length
    /// is declared, and Normal for an unset status.
    pub fn status(&self) -> (r: ObjectStatus)
        ensures
            r == spec_resolved_status(self.object_status, self.payload_length@),
    {
        resolved_status(self.object_status, self.payload_length.into_inner())
    }

    /// Whether this object's status is allowed to carry the extension headers
    /// it has (Section 10.2.1.2): `false` exactly for extension bytes beside
    /// a status other than Normal.
    pub fn extensions_permitted(&self) -> (r: bool)
        ensures
            r == (self.extension_headers@.len() == 0 || spec_resolved_status(
                self.object_status,
                self.payload_length@,
            ) == ObjectStatus::Normal),
    {
        self.extension_headers.len() == 0 || self.status() == ObjectStatus::Normal
    }

    /// Serialize this object's framing, writing only the fields its own
    /// flags announce. A flags byte with either unassigned bit is refused as
    /// `InvalidField` before anything is written.
    pub fn encode(&self, buf: &mut Vec<u8>) -> (r: Result<(), CodecError>)
        requires
            self.extension_headers@.len() < VARINT_BOUND,
        ensures
            if self.serialization_flags & 0xc0 != 0 {
                r == Err::<(), CodecError>(CodecError::InvalidField) && final(buf)@ == old(buf)@
            } else {
                r == Ok::<(), CodecError>(()) && final(buf)@ == old(buf)@
                    + spec_encode_fetch_object_header(self@)
            },
    {
        if self.serialization_flags & 0xc0 != 0 {
            return Err(CodecError::InvalidField);
        }
        encode_fetch_framing(self, buf);
        Ok(())
    }
}

/// Append the framing of `h` as its flags announce it.
fn encode_fetch_framing(h: &FetchObjectHeader, buf: &mut Vec<u8>)
    requires
        h.extension_headers@.len() < VARINT_BOUND,
    ensures
        final(buf)@ == old(buf)@ + spec_encode_fetch_object_header(h@),
{
    let ghost start = buf@;
    encode_fetch_head(h, buf);
    let ghost mid = buf@;
    encode_fetch_tail(h, buf);
    assert(buf@ =~= start + spec_encode_fetch_object_header(h@));
}

fn encode_fetch_head(h: &FetchObjectHeader, buf: &mut Vec<u8>)
    ensures
        final(buf)@ == old(buf)@ + spec_fetch_head_bytes(h@),
{
    let ghost start = buf@;
    let ghost v = h@;
    let ghost p1 = seq![v.serialization_flags];
    let ghost p2 = p1 + spec_fetch_group_bytes(v);
    let ghost p3 = p2 + spec_fetch_subgroup_bytes(v);
    let ghost p4 = p3 + spec_fetch_object_bytes(v);
    buf.push(h.serialization_flags);
    assert(buf@ =~= start + p1);
    if h.has_group_id() {
        h.group_id.encode(buf);
    }
    assert(buf@ =~= start + p2);
    if h.subgroup_id_encoding() == SubgroupIdEncoding::Present {
        h.subgroup_id.encode(buf);
    }
    assert(buf@ =~= start + p3);
    if h.has_object_id() {
        h.object_id.encode(buf);
    }
    assert(buf@ =~= start + p4);
    if h.has_priority() {
        buf.push(h.publisher_priority);
    }
    assert(buf@ =~= start + (p4 + spec_fetch_priority_bytes(v)));
}

fn encode_fetch_tail(h: &FetchObjectHeader, buf: &mut Vec<u8>)
    requires
        h.extension_headers@.len() < VARINT_BOUND,
    ensures
        final(buf)@ == old(buf)@ + spec_fetch_tail_bytes(h@),
{
    let ghost start = buf@;
    let ghost v = h@;
    let ghost p1 = spec_encode_extensions(v.serialization_flags & 0x20 != 0, v.extension_headers);
    let ghost p2 = p1 + spec_varint_encode(v.payload_length);
    encode_extensions(h.has_extensions(), &h.extension_headers, buf);
    h.payload_length.encode(buf);
    assert(buf@ =~= start + p2);
    if h.payload_length.into_inner() == 0 {
        let status = resolved_status(h.object_status, 0);
        match VarInt::from_u64(status.as_u64()) {
            Ok(code) => code.encode(buf),
            Err(_) => {},
        }
    }
    assert(buf@ =~= start + (p2 + spec_fetch_status_bytes(v)));
}

/// The fields a fetch object leaves to its successor to inherit.
#[derive(Debug, Clone, Copy)]
struct PriorFetchObject {
    group_id: u64,
    subgroup_id: u64,
    object_id: u64,
    publisher_priority: u8,
}

/// A prior object as its Group ID, Subgroup ID, Object ID and priority.
closed spec fn spec_prior_tuple(p: Option<PriorFetchObject>) -> Option<(u64, u64, u64, u8)> {
    match p {
        None => None,
        Some(q) => Some((q.group_id, q.subgroup_id, q.object_id, q.publisher_priority)),
    }
}

fn prior_of(h: &FetchObjectHeader) -> (r: Option<PriorFetchObject>)
    ensures
        spec_prior_tuple(r) == Some(spec_fetch_prior_of(h@)),
{
    Some(
        PriorFetchObject {
            group_id: h.group_id.into_inner(),
            subgroup_id: h.subgroup_id.into_inner(),
            object_id: h.object_id.into_inner(),
            publisher_priority: h.publisher_priority,
        },
    )
}

fn inherit(v: u64, p: usize) -> (r: Result<(VarInt, usize), CodecError>)
    ensures
        match spec_inherited(v as int, p as int) {
            Ok((x, q)) => (r matches Ok((y, n)) && y@ == x && n == q),
            Err(e) => r == Err::<(VarInt, usize), CodecError>(e),
        },
{
    match VarInt::from_u64(v) {
        Ok(x) => Ok((x, p)),
        Err(_) => Err(CodecError::InvalidField),
    }
}

fn inherit_next(v: u64, p: usize) -> (r: Result<(VarInt, usize), CodecError>)
    ensures
        match spec_inherited(v + 1, p as int) {
            Ok((x, q)) => (r matches Ok((y, n)) && y@ == x && n == q),
            Err(e) => r == Err::<(VarInt, usize), CodecError>(e),
        },
{
    if v == u64::MAX {
        return Err(CodecError::InvalidField);
    }
    inherit(v + 1, p)
}

fn read_fetch_ids(flags: u8, prior: Option<PriorFetchObject>, buf: &[u8], p: usize) -> (r: Result<
    ((VarInt, VarInt, VarInt, u8), usize),
    CodecError,
>)
    ensures
        match spec_fetch_ids_at(flags, spec_prior_tuple(prior), buf@, p as int) {
            Ok((ids, q)) => (r matches Ok((x, n)) && x.0@ == ids.0 && x.1@ == ids.1 && x.2@
                == ids.2 && x.3 == ids.3 && n == q),
            Err(e) => r == Err::<((VarInt, VarInt, VarInt, u8), usize), CodecError>(e),
        },
{
    let (group_id, p1) = if flags & 0x08 != 0 {
        read_varint(buf, p)?
    } else {
        match prior {
            None => return Err(CodecError::InvalidField),
            Some(pr) => inherit(pr.group_id, p)?,
        }
    };
    let (subgroup_id, p2) = match SubgroupIdEncoding::from_flags(flags) {
        SubgroupIdEncoding::Zero => (VarInt::from_usize(0), p1),
        SubgroupIdEncoding::SameAsPrior => match prior {
            None => return Err(CodecError::InvalidField),
            Some(pr) => inherit(pr.subgroup_id, p1)?,
        },
        SubgroupIdEncoding::PriorPlusOne => match prior {
            None => return Err(CodecError::InvalidField),
            Some(pr) => inherit_next(pr.subgroup_id, p1)?,
        },
        SubgroupIdEncoding::Present => read_varint(buf, p1)?,
    };
    let (object_id, p3) = if flags & 0x04 != 0 {
        read_varint(buf, p2)?
    } else {
        match prior {
            None => return Err(CodecError::InvalidField),
            Some(pr) => inherit_next(pr.object_id, p2)?,
        }
    };
    let (publisher_priority, p4) = if flags & 0x10 != 0 {
        read_u8(buf, p3)?
    } else {
        match prior {
            None => return Err(CodecError::InvalidField),
            Some(pr) => (pr.publisher_priority, p3),
        }
    };
    Ok(((group_id, subgroup_id, object_id, publisher_priority), p4))
}

fn read_fetch_tail(ext: bool, buf: &[u8], p: usize) -> (r: Result<
    (Vec<u8>, VarInt, Option<ObjectStatus>, usize),
    CodecError,
>)
    ensures
        match spec_fetch_tail_at(ext, buf@, p as int) {
            Ok((x, len, st, q)) => (r matches Ok((y, l, s2, n)) && y@ == x && l@ == len && s2 == st
                && n == q),
            Err(e) => r == Err::<(Vec<u8>, VarInt, Option<ObjectStatus>, usize), CodecError>(e),
        },
{
    let (extension_headers, p5) = read_extensions(ext, buf, p)?;
    let (payload_length, p6) = read_varint(buf, p5)?;
    let (object_status, p7) = read_opt_status(buf, p6, payload_length.into_inner() == 0)?;
    Ok((extension_headers, payload_length, object_status, p7))
}

/// Stateful reader for the objects on one draft-15 fetch stream. It holds the
/// fields of the object last read or written, which is what the next
/// object's flags may refer to; a fresh reader has none, and the stream's
/// first object may then inherit nothing.
#[derive(Debug, Clone)]
pub struct FetchObjectReader {
    prior: Option<PriorFetchObject>,
}

impl View for FetchObjectReader {
    type V = Option<(u64, u64, u64, u8)>;

    closed spec fn view(&self) -> Option<(u64, u64, u64, u8)> {
        spec_prior_tuple(self.prior)
    }
}

impl FetchObjectReader {
    /// Build a reader for the objects following a fetch stream's header.
    pub fn new() -> (r: Self)
        ensures
            r@ == None::<(u64, u64, u64, u8)>,
    {
        FetchObjectReader { prior: None }
    }

    /// Decode the next object's framing from the start of `buf`, with the
    /// number of bytes it occupies; the payload that follows is left to the
    /// caller. On success the object becomes the prior one; on an error the
    /// reader is unchanged.
    pub fn read_object_header(&mut self, buf: &[u8]) -> (r: Result<(FetchObjectHeader, usize), CodecError>)
        ensures
            match spec_read_fetch_object_header(old(self)@, buf@) {
                Ok((h, n)) => (r matches Ok((x, k)) && x@ == h && k == n) && final(self)@ == Some(
                    spec_fetch_prior_of(h),
                ),
                Err(e) => r == Err::<(FetchObjectHeader, usize), CodecError>(e) && final(self)@
                    == old(self)@,
            },
    {
        let (serialization_flags, p0) = read_u8(buf, 0)?;
        if serialization_flags & 0xc0 != 0 {
            return Err(CodecError::InvalidField);
        }
        let inherits = SubgroupIdEncoding::from_flags(serialization_flags).references_prior()
            || serialization_flags & 0x04 == 0 || serialization_flags & 0x08 == 0
            || serialization_flags & 0x10 == 0;
        if inherits && self.prior.is_none() {
            return Err(CodecError::InvalidField);
        }
        let (ids, p4) = read_fetch_ids(serialization_flags, self.prior, buf, p0)?;
        let (extension_headers, payload_length, object_status, p7) = read_fetch_tail(
            serialization_flags & 0x20 != 0,
            buf,
            p4,
        )?;
        let (group_id, subgroup_id, object_id, publisher_priority) = ids;
        let header = FetchObjectHeader {
            serialization_flags,
            group_id,
            subgroup_id,
            object_id,
            publisher_priority,
            extension_headers,
            payload_length,
            object_status,
        };
        self.prior = prior_of(&header);
        Ok((header, p7))
    }

    /// Serialize an object's framing, leaving its payload to the caller. The
    /// flags decide what reaches the wire, so a header whose resolved fields
    /// disagree with its own flags, or with the prior object, is refused as
    /// `InvalidField` before a byte is written, and the reader is then left
    /// as it was. Extension bytes beside a status other than Normal are not
    /// refused.
    pub fn write_object_header(&mut self, header: &FetchObjectHeader, buf: &mut Vec<u8>) -> (r: Result<(), CodecError>)
        requires
            header.extension_headers@.len() < VARINT_BOUND,
        ensures
            if spec_fetch_consistent(old(self)@, header@) {
                &&& r == Ok::<(), CodecError>(())
                &&& final(buf)@ == old(buf)@ + spec_encode_fetch_object_header(header@)
                &&& final(self)@ == Some(spec_fetch_prior_of(header@))
            } else {
                &&& r == Err::<(), CodecError>(CodecError::InvalidField)
                &&& final(buf)@ == old(buf)@
                &&& final(self)@ == old(self)@
            },
    {
        if !fetch_consistent(self.prior, header) {
            return Err(CodecError::InvalidField);
        }
        encode_fetch_framing(header, buf);
        self.prior = prior_of(header);
        Ok(())
    }
}

fn fetch_consistent(prior: Option<PriorFetchObject>, header: &FetchObjectHeader) -> (r: bool)
    ensures
        r == spec_fetch_consistent(spec_prior_tuple(prior), header@),
{
    if header.serialization_flags & 0xc0 != 0 {
        return false;
    }
    if header.payload_length.into_inner() != 0 {
        match header.object_status {
            Some(st) => {
                if st != ObjectStatus::Normal {
                    return false;
                }
            },
            None => {},
        }
    }
    if !header.has_extensions() && header.extension_headers.len() != 0 {
        return false;
    }
    if header.references_prior_object() && prior.is_none() {
        return false;
    }
    if !header.has_group_id() {
        match prior {
            None => return false,
            Some(pr) => {
                if header.group_id.into_inner() != pr.group_id {
                    return false;
                }
            },
        }
    }
    let subgroup_id = header.subgroup_id.into_inner();
    match header.subgroup_id_encoding() {
        SubgroupIdEncoding::Zero => {
            if subgroup_id != 0 {
                return false;
            }
        },
        SubgroupIdEncoding::SameAsPrior => match prior {
            None => return false,
            Some(pr) => {
                if subgroup_id != pr.subgroup_id {
                    return false;
                }
            },
        },
        SubgroupIdEncoding::PriorPlusOne => match prior {
            None => return false,
            Some(pr) => {
                if pr.subgroup_id == u64::MAX || subgroup_id != pr.subgroup_id + 1 {
                    return false;
                }
            },
        },
        SubgroupIdEncoding::Present => {},
    }
    if !header.has_object_id() {
        match prior {
            None => return false,
            Some(pr) => {
                if pr.object_id == u64::MAX || header.object_id.into_inner() != pr.object_id + 1 {
                    return false;
                }
            },
        }
    }
    if !header.has_priority() {
        match prior {
            None => return false,
            Some(pr) => {
                if header.publisher_priority != pr.publisher_priority {
                    return false;
                }
            },
        }
    }
    true
}

/// The Subgroup ID encoding a writer picks for `o` after `prior`: the
/// object's own where it still names the right number, else the cheapest
/// that does.
pub open spec fn spec_subgroup_choice(prior: Option<(u64, u64, u64, u8)>, o: FetchObjectHeaderView) -> SubgroupIdEncoding {
    let sg = o.subgroup_id;
    let inherits = prior matches Some(pr) && pr.1 == sg;
    let successor = prior matches Some(pr) && pr.1 + 1 == sg;
    let kept = match spec_subgroup_encoding(o.serialization_flags & 0x03) {
        SubgroupIdEncoding::Zero => sg == 0,
        SubgroupIdEncoding::SameAsPrior => inherits,
        SubgroupIdEncoding::PriorPlusOne => successor,
        SubgroupIdEncoding::Present => true,
    };
    if kept {
        spec_subgroup_encoding(o.serialization_flags & 0x03)
    } else if sg == 0 {
        SubgroupIdEncoding::Zero
    } else if inherits {
        SubgroupIdEncoding::SameAsPrior
    } else if successor {
        SubgroupIdEncoding::PriorPlusOne
    } else {
        SubgroupIdEncoding::Present
    }
}

/// The flags a writer gives `o` after `prior`: each field is written when
/// the object wrote it, and written anyway when leaving it off would now say
/// something else; the extensions bit is the object's own.
pub open spec fn spec_writer_flags(prior: Option<(u64, u64, u64, u8)>, o: FetchObjectHeaderView) -> u8 {
    let g: u8 = if o.serialization_flags & 0x08 != 0 || !(prior matches Some(pr) && pr.0
        == o.group_id) {
        0x08
    } else {
        0
    };
    let ob: u8 = if o.serialization_flags & 0x04 != 0 || !(prior matches Some(pr) && pr.2 + 1
        == o.object_id) {
        0x04
    } else {
        0
    };
    let pb: u8 = if o.serialization_flags & 0x10 != 0 || !(prior matches Some(pr) && pr.3
        == o.publisher_priority) {
        0x10
    } else {
        0
    };
    let xb: u8 = if o.serialization_flags & 0x20 != 0 {
        0x20
    } else {
        0
    };
    g | ob | pb | xb | spec_subgroup_choice(prior, o).spec_bits()
}

/// The header a writer whose prior object is `prior` produces for `o`: the
/// same resolved values under the flags [`spec_writer_flags`] chooses.
pub open spec fn spec_header_for(prior: Option<(u64, u64, u64, u8)>, o: FetchObjectHeaderView) -> FetchObjectHeaderView {
    FetchObjectHeaderView { serialization_flags: spec_writer_flags(prior, o), ..o }
}

/// Re-encodes resolved fetch objects onto one fetch stream: the inverse of
/// [`FetchObjectReader`], for a caller writing a stream out of the objects
/// of another, possibly with some removed. An object's own flags are kept
/// wherever they still say the same thing against the new predecessor, so a
/// stream with nothing removed is reproduced byte for byte.
#[derive(Debug, Clone)]
pub struct FetchObjectWriter {
    prior: Option<PriorFetchObject>,
}

impl View for FetchObjectWriter {
    type V = Option<(u64, u64, u64, u8)>;

    closed spec fn view(&self) -> Option<(u64, u64, u64, u8)> {
        spec_prior_tuple(self.prior)
    }
}

impl FetchObjectWriter {
    /// A writer positioned before the first object of a fetch stream.
    pub fn new() -> (r: Self)
        ensures
            r@ == None::<(u64, u64, u64, u8)>,
    {
        FetchObjectWriter { prior: None }
    }

    /// The header that encodes `original`'s resolved values against
    /// everything written so far; the writer does not move. A flags byte
    /// with an unassigned bit is `InvalidField`.
    pub fn header_for(&self, original: &FetchObjectHeader) -> (r: Result<FetchObjectHeader, CodecError>)
        ensures
            if original.serialization_flags & 0xc0 != 0 {
                r == Err::<FetchObjectHeader, CodecError>(CodecError::InvalidField)
            } else {
                r matches Ok(h) && h@ == spec_header_for(self@, original@)
            },
    {
        if original.serialization_flags & 0xc0 != 0 {
            return Err(CodecError::InvalidField);
        }
        let group_id = original.group_id.into_inner();
        let object_id = original.object_id.into_inner();
        let g: u8 = if original.has_group_id() {
            0x08
        } else {
            match self.prior {
                Some(pr) => if pr.group_id == group_id {
                    0
                } else {
                    0x08
                },
                None => 0x08,
            }
        };
        let ob: u8 = if original.has_object_id() {
            0x04
        } else {
            match self.prior {
                Some(pr) => if pr.object_id != u64::MAX && pr.object_id + 1 == object_id {
                    0
                } else {
                    0x04
                },
                None => 0x04,
            }
        };
        let pb: u8 = if original.has_priority() {
            0x10
        } else {
            match self.prior {
                Some(pr) => if pr.publisher_priority == original.publisher_priority {
                    0
                } else {
                    0x10
                },
                None => 0x10,
            }
        };
        let xb: u8 = if original.has_extensions() {
            0x20
        } else {
            0
        };
        let flags = g | ob | pb | xb | self.subgroup_bits(original).as_bits();
        let extension_headers = original.extension_headers.clone();
        assert(extension_headers@ =~= original.extension_headers@);
        Ok(
            FetchObjectHeader {
                serialization_flags: flags,
                group_id: original.group_id,
                subgroup_id: original.subgroup_id,
                object_id: original.object_id,
                publisher_priority: original.publisher_priority,
                extension_headers,
                payload_length: original.payload_length,
                object_status: original.object_status,
            },
        )
    }

    /// Which Subgroup ID encoding says `original`'s Subgroup ID against this
    /// predecessor: its own where that still holds, else the cheapest.
    fn subgroup_bits(&self, original: &FetchObjectHeader) -> (r: SubgroupIdEncoding)
        ensures
            r == spec_subgroup_choice(self@, original@),
    {
        let subgroup_id = original.subgroup_id.into_inner();
        let inherits = match self.prior {
            Some(pr) => pr.subgroup_id == subgroup_id,
            None => false,
        };
        let successor = match self.prior {
            Some(pr) => pr.subgroup_id != u64::MAX && pr.subgroup_id + 1 == subgroup_id,
            None => false,
        };
        let own = original.subgroup_id_encoding();
        let kept = match own {
            SubgroupIdEncoding::Zero => subgroup_id == 0,
            SubgroupIdEncoding::SameAsPrior => inherits,
            SubgroupIdEncoding::PriorPlusOne => successor,
            SubgroupIdEncoding::Present => true,
        };
        if kept {
            own
        } else if subgroup_id == 0 {
            SubgroupIdEncoding::Zero
        } else if inherits {
            SubgroupIdEncoding::SameAsPrior
        } else if successor {
            SubgroupIdEncoding::PriorPlusOne
        } else {
            SubgroupIdEncoding::Present
        }
    }

    /// Encode `original`'s resolved values against everything written so far
    /// and advance; the payload is the caller's to copy. A flags byte with an
    /// unassigned bit is `InvalidField`, and leaves the writer untouched.
    pub fn write_object_header(&mut self, original: &FetchObjectHeader, out: &mut Vec<u8>) -> (r: Result<FetchObjectHeader, CodecError>)
        requires
            original.extension_headers@.len() < VARINT_BOUND,
        ensures
            if original.serialization_flags & 0xc0 != 0 {
                &&& r == Err::<FetchObjectHeader, CodecError>(CodecError::InvalidField)
                &&& final(out)@ == old(out)@
                &&& final(self)@ == old(self)@
            } else {
                &&& r matches Ok(h) && h@ == spec_header_for(old(self)@, original@)
                &&& final(out)@ == old(out)@ + spec_encode_fetch_object_header(
                    spec_header_for(old(self)@, original@),
                )
                &&& final(self)@ == Some(spec_fetch_prior_of(original@))
            },
    {
        let header = self.header_for(original)?;
        proof {
            lemma_writer_flags_assigned(self@, original@);
        }
        match header.encode(out) {
            Ok(()) => {},
            Err(e) => return Err(e),
        }
        self.advance(&header);
        Ok(header)
    }

    /// Record what was written as the predecessor of whatever comes next; a
    /// caller that forwards an object's own bytes untouched still advances.
    pub fn advance(&mut self, written: &FetchObjectHeader)
        ensures
            final(self)@ == Some(spec_fetch_prior_of(written@)),
    {
        self.prior = prior_of(written);
    }
}

/// The flags a writer chooses never carry an unassigned bit.
proof fn lemma_writer_flags_assigned(prior: Option<(u64, u64, u64, u8)>, o: FetchObjectHeaderView)
    ensures
        spec_writer_flags(prior, o) & 0xc0 == 0,
{
    let c = spec_subgroup_choice(prior, o).spec_bits();
    let f = o.serialization_flags;
    let g: u8 = if f & 0x08 != 0 || !(prior matches Some(pr) && pr.0 == o.group_id) {
        0x08
    } else {
        0
    };
    let ob: u8 = if f & 0x04 != 0 || !(prior matches Some(pr) && pr.2 + 1 == o.object_id) {
        0x04
    } else {
        0
    };
    let pb: u8 = if f & 0x10 != 0 || !(prior matches Some(pr) && pr.3 == o.publisher_priority) {
        0x10
    } else {
        0
    };
    let xb: u8 = if f & 0x20 != 0 {
        0x20
    } else {
        0
    };
    assert(spec_writer_flags(prior, o) == g | ob | pb | xb | c);
    assert((g == 0 || g == 8) && (ob == 0 || ob == 4) && (pb == 0 || pb == 0x10) && (xb == 0 || xb
        == 0x20) && c <= 3 ==> (g | ob | pb | xb | c) & 0xc0 == 0) by (bit_vector);
}

/// The flags byte and identifying fields of a consistent object are read
/// back, against the same prior object, as the object's own values.
proof fn lemma_fetch_head_read(prior: Option<(u64, u64, u64, u8)>, h: FetchObjectHeaderView, s: Seq<u8>)
    requires
        spec_fetch_consistent(prior, h),
        h.group_id < VARINT_BOUND,
        h.subgroup_id < VARINT_BOUND,
        h.object_id < VARINT_BOUND,
        spec_is_prefix(spec_fetch_head_bytes(h), s),
    ensures
        spec_u8_at(s, 0) == Some((h.serialization_flags, 1int)),
        spec_fetch_ids_at(h.serialization_flags, prior, s, 1) == Ok::<
            ((u64, u64, u64, u8), int),
            CodecError,
        >((spec_fetch_prior_of(h), spec_fetch_head_bytes(h).len() as int)),
{
    let f = h.serialization_flags;
    let a1 = seq![f];
    let a2 = a1 + spec_fetch_group_bytes(h);
    let a3 = a2 + spec_fetch_subgroup_bytes(h);
    let a4 = a3 + spec_fetch_object_bytes(h);
    let a5 = a4 + spec_fetch_priority_bytes(h);
    lemma_prefix_of_add(a4, spec_fetch_priority_bytes(h));
    lemma_prefix_trans(a4, a5, s);
    lemma_prefix_of_add(a3, spec_fetch_object_bytes(h));
    lemma_prefix_trans(a3, a4, s);
    lemma_prefix_of_add(a2, spec_fetch_subgroup_bytes(h));
    lemma_prefix_trans(a2, a3, s);
    lemma_prefix_of_add(a1, spec_fetch_group_bytes(h));
    lemma_prefix_trans(a1, a2, s);
    lemma_u8_encoded(Seq::empty(), f);
    assert(Seq::<u8>::empty() + seq![f] =~= a1);
    lemma_u8_at_prefix(a1, s, 0);
    if f & 0x08 != 0 {
        lemma_varint_encoded(a1, h.group_id);
        lemma_varint_at_prefix(a2, s, 1);
    } else {
        assert(a2 =~= a1);
    }
    assert(spec_fetch_group_at(f, prior, s, 1) == Ok::<(u64, int), CodecError>(
        (h.group_id, a2.len() as int),
    ));
    if spec_subgroup_encoding(f & 0x03) == SubgroupIdEncoding::Present {
        lemma_varint_encoded(a2, h.subgroup_id);
        lemma_varint_at_prefix(a3, s, a2.len() as int);
    } else {
        assert(a3 =~= a2);
    }
    assert(spec_fetch_subgroup_at(f, prior, s, a2.len() as int) == Ok::<(u64, int), CodecError>(
        (h.subgroup_id, a3.len() as int),
    ));
    if f & 0x04 != 0 {
        lemma_varint_encoded(a3, h.object_id);
        lemma_varint_at_prefix(a4, s, a3.len() as int);
    } else {
        assert(a4 =~= a3);
    }
    assert(spec_fetch_object_at(f, prior, s, a3.len() as int) == Ok::<(u64, int), CodecError>(
        (h.object_id, a4.len() as int),
    ));
    if f & 0x10 != 0 {
        lemma_u8_encoded(a4, h.publisher_priority);
        lemma_u8_at_prefix(a5, s, a4.len() as int);
    } else {
        assert(a5 =~= a4);
    }
    assert(spec_fetch_priority_at(f, prior, s, a4.len() as int) == Ok::<(u8, int), CodecError>(
        (h.publisher_priority, a5.len() as int),
    ));
}

/// The extensions block, payload length and status of an object are read
/// back as written, with the status as reading resolves it.
proof fn lemma_fetch_tail_read(h: FetchObjectHeaderView, pre: Seq<u8>, s: Seq<u8>)
    requires
        h.serialization_flags & 0x20 == 0 ==> h.extension_headers.len() == 0,
        h.extension_headers.len() < VARINT_BOUND,
        h.payload_length < VARINT_BOUND,
        spec_is_prefix(pre + spec_fetch_tail_bytes(h), s),
    ensures
        spec_fetch_tail_at(h.serialization_flags & 0x20 != 0, s, pre.len() as int) == Ok::<
            (Seq<u8>, u64, Option<ObjectStatus>, int),
            CodecError,
        >(
            (
                h.extension_headers,
                h.payload_length,
                spec_fetch_as_read(h).object_status,
                (pre + spec_fetch_tail_bytes(h)).len() as int,
            ),
        ),
{
    broadcast use ObjectStatus::lemma_from_code_of_code;

    let ext = h.serialization_flags & 0x20 != 0;
    let b1 = pre + spec_encode_extensions(ext, h.extension_headers);
    let b2 = b1 + spec_varint_encode(h.payload_length);
    let b3 = b2 + spec_fetch_status_bytes(h);
    assert(b3 =~= pre + spec_fetch_tail_bytes(h));
    lemma_prefix_of_add(b2, spec_fetch_status_bytes(h));
    lemma_prefix_trans(b2, b3, s);
    lemma_prefix_of_add(b1, spec_varint_encode(h.payload_length));
    lemma_prefix_trans(b1, b2, s);
    lemma_extensions_encoded(ext, pre, h.extension_headers);
    lemma_read_extensions_prefix(ext, b1, s, pre.len() as int);
    lemma_varint_encoded(b1, h.payload_length);
    lemma_varint_at_prefix(b2, s, b1.len() as int);
    if h.payload_length == 0 {
        let code = spec_resolved_status(h.object_status, 0).spec_code();
        lemma_varint_encoded(b2, code);
        lemma_varint_at_prefix(b3, s, b2.len() as int);
    } else {
        assert(b3 =~= b2);
    }
}

/// A fetch object whose fields agree with its flags and with the prior
/// object is read back by a reader holding that prior object as the same
/// object, whatever follows it; reading resolves its status as Normal where
/// unset and drops it beside a declared length.
pub proof fn lemma_fetch_object_roundtrip(
    prior: Option<(u64, u64, u64, u8)>,
    h: FetchObjectHeaderView,
    rest: Seq<u8>,
)
    requires
        spec_fetch_consistent(prior, h),
        h.group_id < VARINT_BOUND,
        h.subgroup_id < VARINT_BOUND,
        h.object_id < VARINT_BOUND,
        h.payload_length < VARINT_BOUND,
        h.extension_headers.len() < VARINT_BOUND,
    ensures
        spec_read_fetch_object_header(prior, spec_encode_fetch_object_header(h) + rest) == Ok::<
            (FetchObjectHeaderView, int),
            CodecError,
        >((spec_fetch_as_read(h), spec_encode_fetch_object_header(h).len() as int)),
{
    let head = spec_fetch_head_bytes(h);
    let e = spec_encode_fetch_object_header(h);
    let s = e + rest;
    lemma_prefix_of_add(e, rest);
    lemma_prefix_of_add(head, spec_fetch_tail_bytes(h));
    lemma_prefix_trans(head, e, s);
    lemma_fetch_head_read(prior, h, s);
    lemma_fetch_tail_read(h, head, s);
}

/// The fields of a flags byte built from one value per field.
proof fn lemma_flag_fields(g: u8, ob: u8, pb: u8, xb: u8, c: u8)
    by (bit_vector)
    requires
        g == 0 || g == 0x08,
        ob == 0 || ob == 0x04,
        pb == 0 || pb == 0x10,
        xb == 0 || xb == 0x20,
        c <= 3,
    ensures
        (g | ob | pb | xb | c) & 0xc0 == 0,
        (g | ob | pb | xb | c) & 0x08 == g,
        (g | ob | pb | xb | c) & 0x04 == ob,
        (g | ob | pb | xb | c) & 0x10 == pb,
        (g | ob | pb | xb | c) & 0x20 == xb,
        (g | ob | pb | xb | c) & 0x03 == c,
{
}

/// A flags byte without the unassigned bits is its fields put together.
proof fn lemma_flags_split(f: u8)
    by (bit_vector)
    requires
        f & 0xc0 == 0,
    ensures
        f == (f & 0x08) | (f & 0x04) | (f & 0x10) | (f & 0x20) | (f & 0x03),
        f & 0x08 == 0 || f & 0x08 == 0x08,
        f & 0x04 == 0 || f & 0x04 == 0x04,
        f & 0x10 == 0 || f & 0x10 == 0x10,
        f & 0x20 == 0 || f & 0x20 == 0x20,
{
}

/// A writer whose prior object is the one an object was read against keeps
/// that object's flags: a stream written out with nothing removed is
/// reproduced byte for byte.
pub proof fn lemma_header_for_reproduces(prior: Option<(u64, u64, u64, u8)>, o: FetchObjectHeaderView)
    requires
        spec_fetch_consistent(prior, o),
    ensures
        spec_header_for(prior, o) == o,
{
    let f = o.serialization_flags;
    lemma_flags_split(f);
    lemma_subgroup_encoding_bits(SubgroupIdEncoding::Zero, f);
    assert(spec_subgroup_choice(prior, o) == spec_subgroup_encoding(f & 0x03));
    assert(spec_writer_flags(prior, o) == f);
}

/// The header a writer produces agrees with its flags and with the writer's
/// prior object, so the reader accepts it; its resolved values are the
/// original's, and no flag it sets is unassigned.
pub proof fn lemma_header_for_consistent(prior: Option<(u64, u64, u64, u8)>, o: FetchObjectHeaderView)
    requires
        !(o.payload_length != 0 && (o.object_status matches Some(st) && st
            != ObjectStatus::Normal)),
        o.serialization_flags & 0x20 == 0 ==> o.extension_headers.len() == 0,
    ensures
        spec_fetch_consistent(prior, spec_header_for(prior, o)),
        spec_fetch_prior_of(spec_header_for(prior, o)) == spec_fetch_prior_of(o),
{
    let f = o.serialization_flags;
    let choice = spec_subgroup_choice(prior, o);
    let g: u8 = if f & 0x08 != 0 || !(prior matches Some(pr) && pr.0 == o.group_id) {
        0x08
    } else {
        0
    };
    let ob: u8 = if f & 0x04 != 0 || !(prior matches Some(pr) && pr.2 + 1 == o.object_id) {
        0x04
    } else {
        0
    };
    let pb: u8 = if f & 0x10 != 0 || !(prior matches Some(pr) && pr.3 == o.publisher_priority) {
        0x10
    } else {
        0
    };
    let xb: u8 = if f & 0x20 != 0 {
        0x20
    } else {
        0
    };
    let nf = spec_writer_flags(prior, o);
    assert(nf == g | ob | pb | xb | choice.spec_bits());
    lemma_flag_fields(g, ob, pb, xb, choice.spec_bits());
    assert(spec_subgroup_encoding(nf & 0x03) == choice);
}

/// What a writer writes for an object, a reader holding the same prior
/// object reads back as the object's resolved values under the writer's
/// flags, and both then hold that object as the prior one.
pub proof fn lemma_writer_reader_inverse(
    prior: Option<(u64, u64, u64, u8)>,
    o: FetchObjectHeaderView,
    rest: Seq<u8>,
)
    requires
        !(o.payload_length != 0 && (o.object_status matches Some(st) && st
            != ObjectStatus::Normal)),
        o.serialization_flags & 0x20 == 0 ==> o.extension_headers.len() == 0,
        o.group_id < VARINT_BOUND,
        o.subgroup_id < VARINT_BOUND,
        o.object_id < VARINT_BOUND,
        o.payload_length < VARINT_BOUND,
        o.extension_headers.len() < VARINT_BOUND,
    ensures
        spec_read_fetch_object_header(
            prior,
            spec_encode_fetch_object_header(spec_header_for(prior, o)) + rest,
        ) == Ok::<(FetchObjectHeaderView, int), CodecError>(
            (
                spec_fetch_as_read(spec_header_for(prior, o)),
                spec_encode_fetch_object_header(spec_header_for(prior, o)).len() as int,
            ),
        ),
        spec_fetch_prior_of(spec_header_for(prior, o)) == spec_fetch_prior_of(o),
{
    lemma_header_for_consistent(prior, o);
    lemma_fetch_object_roundtrip(prior, spec_header_for(prior, o), rest);
}

/// Every object a reader reads agrees with its flags and with the prior
/// object it was read against, so writing it back against that object is
/// accepted.
pub proof fn lemma_read_is_consistent(prior: Option<(u64, u64, u64, u8)>, s: Seq<u8>)
    requires
        spec_read_fetch_object_header(prior, s) is Ok,
    ensures
        spec_fetch_consistent(prior, spec_read_fetch_object_header(prior, s)->Ok_0.0),
{
    let (f, p0) = spec_u8_at(s, 0)->Some_0;
    let (ids, p4) = spec_fetch_ids_at(f, prior, s, p0)->Ok_0;
    let (g, p1) = spec_fetch_group_at(f, prior, s, p0)->Ok_0;
    let (sg, p2) = spec_fetch_subgroup_at(f, prior, s, p1)->Ok_0;
    let (o, p3) = spec_fetch_object_at(f, prior, s, p2)->Ok_0;
    let (x, len, st, p7) = spec_fetch_tail_at(f & 0x20 != 0, s, p4)->Ok_0;
    assert(ids == (g, sg, o, ids.3));
    if f & 0x20 == 0 {
        assert(x.len() == 0);
    }
    if len != 0 {
        assert(st is None);
    }
}

} // verus!

