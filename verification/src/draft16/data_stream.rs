//! Draft-16 data streams: subgroup streams, datagrams and fetch streams.
//!
//! Subgroup Type byte (Section 10.4.2):
//! - `& 0x01`: extensions present on objects
//! - `& 0x06`: SUBGROUP_ID_MODE, read as `(type & 0x06) >> 1`: 0 puts no
//!   Subgroup ID on the wire and it is zero, 1 takes it from the first
//!   object, 2 reads it after the Group ID, and 3 is reserved
//! - `& 0x08`: end-of-group marker
//! - `& 0x20`: no publisher priority
//!
//! Datagram Type byte (Section 10.3.1): `0x01` extensions, `0x02`
//! end-of-group, `0x04` no Object ID, `0x08` default priority, `0x20` status
//! datagram.
//!
//! Both Types are read as one byte: every Type this draft assigns is below
//! `0x40`, and a first byte that begins a longer varint is refused with the
//! error its full value deserves rather than narrowed to a byte.
//!
//! Fetch objects lead with a Serialization Flags varint saying which fields
//! are on the wire; the others are taken from the object before. A fetch
//! object carries no Object Status.
//!
//! Every decoder reads from a byte slice and returns the value with the
//! number of bytes consumed; every encoder appends to a `Vec<u8>`.

use vstd::prelude::*;
use super::types::ObjectStatus;
use crate::error::{CodecError, VarIntError};
use crate::varint::{lemma_varint_encode_small, spec_varint_at, spec_varint_encode, VarInt, VARINT_BOUND};
use crate::wire::{
    encode_extensions, lemma_bytes_at_prefix, lemma_bytes_encoded, lemma_extensions_encoded,
    lemma_prefix_of_add, lemma_prefix_trans, lemma_read_extensions_prefix, lemma_u8_at_prefix,
    lemma_u8_encoded, lemma_varint_at_prefix, lemma_varint_encoded, put_slice, read_bytes,
    read_extensions, read_u8, read_varint, read_varint_u64, skip, skip_extensions, spec_bytes_at,
    spec_encode_extensions, spec_is_prefix, spec_read_extensions, spec_u8_at, varint_end,
};

verus! {

broadcast use {VarInt::lemma_spec_new_view, VarInt::lemma_view_spec_new};

/// The status draft-16 gives a wire Object Status code, refusing a code it
/// does not assign (Section 10.2.1.1); `0x1` is among those refused.
pub open spec fn spec_decoded_status(code: u64) -> Result<ObjectStatus, CodecError> {
    match ObjectStatus::spec_from_code(code) {
        Some(s) => Ok(s),
        None => Err(CodecError::InvalidField),
    }
}

fn decoded_status(code: u64) -> (r: Result<ObjectStatus, CodecError>)
    ensures
        r == spec_decoded_status(code),
{
    match ObjectStatus::from_u64(code) {
        Some(s) => Ok(s),
        None => Err(CodecError::InvalidField),
    }
}

/// Whether an object whose status code is `status` may carry an extension
/// block of `len` bytes (Section 10.2.1.2): `false` exactly for a non-empty
/// block beside a code other than Normal. `None` is an object that carried a
/// payload, Normal by definition.
pub open spec fn spec_extensions_permitted_at(status: Option<u64>, len: u64) -> bool {
    match status {
        None => true,
        Some(code) => len == 0 || code == 0,
    }
}

fn extensions_permitted_at(status: Option<u64>, extensions_len: u64) -> (r: bool)
    ensures
        r == spec_extensions_permitted_at(status, extensions_len),
{
    match status {
        None => true,
        Some(code) => extensions_len == 0 || code == ObjectStatus::Normal.as_u64(),
    }
}

// ── Type validation ────────────────────────────────────────

/// The SUBGROUP_ID_MODE field of a subgroup Type.
pub open spec fn spec_subgroup_id_mode(t: u8) -> u8 {
    (t & 0x06) >> 1
}

/// Whether `raw` is a subgroup Type draft-16 admits: the form `0b00X1XXXX`,
/// and not the reserved SUBGROUP_ID_MODE.
pub open spec fn spec_subgroup_type_valid(raw: u64) -> bool {
    raw <= 0xFF && (raw as u8) & 0xC0 == 0 && (raw as u8) & 0x10 != 0 && spec_subgroup_id_mode(
        raw as u8,
    ) != 3
}

/// Whether `raw` is inside the subgroup form but names the reserved
/// SUBGROUP_ID_MODE: `0x16`, `0x17`, `0x1E`, `0x1F`, `0x36`, `0x37`, `0x3E`,
/// `0x3F`.
pub open spec fn spec_subgroup_type_reserved(raw: u64) -> bool {
    raw <= 0xFF && (raw as u8) & 0xC0 == 0 && (raw as u8) & 0x10 != 0 && spec_subgroup_id_mode(
        raw as u8,
    ) == 3
}

fn subgroup_type_is_valid(raw: u64) -> (r: bool)
    ensures
        r == spec_subgroup_type_valid(raw),
{
    if raw > 0xFF {
        return false;
    }
    let t = raw as u8;
    t & 0xC0 == 0 && t & 0x10 != 0 && (t & 0x06) >> 1 != 3
}

fn subgroup_type_is_reserved_mode(raw: u64) -> (r: bool)
    ensures
        r == spec_subgroup_type_reserved(raw),
{
    if raw > 0xFF {
        return false;
    }
    let t = raw as u8;
    t & 0xC0 == 0 && t & 0x10 != 0 && (t & 0x06) >> 1 == 3
}

/// The unidirectional stream Type of a fetch stream (Section 10.4.4).
const FETCH_STREAM_TYPE: u64 = 0x05;

/// Which failure a leading stream Type other than the one a reader wants is:
/// `InvalidField` for a Type this draft defines (the fetch stream, or a valid
/// subgroup Type), `InvalidTypeValue` for a reserved-mode subgroup Type, and
/// `UnknownStreamType` for any other.
pub open spec fn spec_stream_type_error(raw: u64) -> CodecError {
    if raw == 0x05 || spec_subgroup_type_valid(raw) {
        CodecError::InvalidField
    } else if spec_subgroup_type_reserved(raw) {
        CodecError::InvalidTypeValue {
            raw,
            detail: "its SUBGROUP_ID_MODE is 0b11, which this draft reserves",
        }
    } else {
        CodecError::UnknownStreamType(raw)
    }
}

fn stream_type_error(raw: u64) -> (r: CodecError)
    ensures
        r == spec_stream_type_error(raw),
{
    if raw == FETCH_STREAM_TYPE || subgroup_type_is_valid(raw) {
        CodecError::InvalidField
    } else if subgroup_type_is_reserved_mode(raw) {
        CodecError::InvalidTypeValue {
            raw,
            detail: "its SUBGROUP_ID_MODE is 0b11, which this draft reserves",
        }
    } else {
        CodecError::UnknownStreamType(raw)
    }
}

/// Whether `raw` is a datagram Type draft-16 admits: the form `0b00X0XXXX`,
/// without STATUS and END_OF_GROUP together.
pub open spec fn spec_datagram_type_valid(raw: u64) -> bool {
    raw <= 0xFF && (raw as u8) & 0xD0 == 0 && !((raw as u8) & 0x20 != 0 && (raw as u8) & 0x02
        != 0)
}

/// Whether `raw` is inside the datagram form but sets STATUS and END_OF_GROUP
/// together.
pub open spec fn spec_datagram_type_status_eog(raw: u64) -> bool {
    raw <= 0xFF && (raw as u8) & 0xD0 == 0 && (raw as u8) & 0x20 != 0 && (raw as u8) & 0x02 != 0
}

/// The verdict on a datagram Type: `UnknownDatagramType` outside the form,
/// `InvalidTypeValue` for STATUS with END_OF_GROUP.
pub open spec fn spec_datagram_type_check(raw: u64) -> Result<(), CodecError> {
    if spec_datagram_type_valid(raw) {
        Ok(())
    } else if spec_datagram_type_status_eog(raw) {
        Err(
            CodecError::InvalidTypeValue {
                raw,
                detail: "it sets both the STATUS bit and the END_OF_GROUP bit",
            },
        )
    } else {
        Err(CodecError::UnknownDatagramType(raw))
    }
}

fn validate_datagram_type(raw: u64) -> (r: Result<(), CodecError>)
    ensures
        r == spec_datagram_type_check(raw),
{
    if raw > 0xFF {
        return Err(CodecError::UnknownDatagramType(raw));
    }
    let t = raw as u8;
    if t & 0xD0 == 0 && !(t & 0x20 != 0 && t & 0x02 != 0) {
        Ok(())
    } else if t & 0xD0 == 0 && t & 0x20 != 0 && t & 0x02 != 0 {
        Err(
            CodecError::InvalidTypeValue {
                raw,
                detail: "it sets both the STATUS bit and the END_OF_GROUP bit",
            },
        )
    } else {
        Err(CodecError::UnknownDatagramType(raw))
    }
}

/// The error a datagram Type spelled in more than one byte is refused with.
pub open spec fn spec_datagram_type_refusal(raw: u64) -> CodecError {
    match spec_datagram_type_check(raw) {
        Ok(()) => CodecError::InvalidField,
        Err(e) => e,
    }
}

/// The one-byte Type at the start of `s`. A first byte of `0x40` or more
/// begins a wider varint, which is decoded in full and refused with the error
/// its value deserves: as a datagram Type when `datagram`, else as a stream
/// Type.
pub open spec fn spec_type_byte_at(s: Seq<u8>, datagram: bool) -> Result<u8, CodecError> {
    match spec_u8_at(s, 0) {
        None => Err(CodecError::UnexpectedEnd),
        Some((b, _)) => if b < 0x40 {
            Ok(b)
        } else {
            match spec_varint_at(s, 0) {
                None => Err(varint_end()),
                Some((raw, _)) => Err(
                    if datagram {
                        spec_datagram_type_refusal(raw)
                    } else {
                        spec_stream_type_error(raw)
                    },
                ),
            }
        },
    }
}

fn read_type_byte(buf: &[u8], datagram: bool) -> (r: Result<u8, CodecError>)
    ensures
        r == spec_type_byte_at(buf@, datagram),
{
    let (b, _) = read_u8(buf, 0)?;
    if b < 0x40 {
        return Ok(b);
    }
    let (raw, _) = read_varint_u64(buf, 0)?;
    if datagram {
        match validate_datagram_type(raw) {
            Ok(()) => Err(CodecError::InvalidField),
            Err(e) => Err(e),
        }
    } else {
        Err(stream_type_error(raw))
    }
}

/// A byte at `p` when `present`.
pub open spec fn spec_opt_u8_at(s: Seq<u8>, p: int, present: bool) -> Option<(Option<u8>, int)> {
    if present {
        match spec_u8_at(s, p) {
            Some((b, q)) => Some((Some(b), q)),
            None => None,
        }
    } else {
        Some((None, p))
    }
}

fn read_opt_u8(buf: &[u8], pos: usize, present: bool) -> (r: Result<(Option<u8>, usize), CodecError>)
    ensures
        match spec_opt_u8_at(buf@, pos as int, present) {
            Some((b, q)) => (r matches Ok((x, n)) && x == b && n == q),
            None => r == Err::<(Option<u8>, usize), CodecError>(CodecError::UnexpectedEnd),
        },
{
    if present {
        let (b, q) = read_u8(buf, pos)?;
        Ok((Some(b), q))
    } else {
        Ok((None, pos))
    }
}

/// The priority written when a header under a Type that carries one holds
/// none: Section 11.1.1.1 gives an unstated subscription priority as 128.
const DEFAULT_PUBLISHER_PRIORITY: u8 = 128;

// ── Subgroup stream headers ────────────────────────────────

/// Subgroup stream header for draft-16.
#[derive(Debug, Clone, Copy, PartialEq, Eq, Structural)]
pub struct SubgroupHeader {
    pub header_type: u8,
    pub track_alias: VarInt,
    pub group_id: VarInt,
    pub subgroup_id: VarInt,
    pub publisher_priority: Option<u8>,
}

/// The bytes [`SubgroupHeader::encode`] writes: field presence follows the
/// Type byte, and a missing priority under a Type that carries one is
/// written as 128.
pub open spec fn spec_encode_subgroup_header(h: SubgroupHeader) -> Seq<u8> {
    let t = h.header_type;
    spec_varint_encode(t as u64) + spec_varint_encode(h.track_alias@) + spec_varint_encode(
        h.group_id@,
    ) + (if spec_subgroup_id_mode(t) == 2 {
        spec_varint_encode(h.subgroup_id@)
    } else {
        Seq::empty()
    }) + (if t & 0x20 == 0 {
        seq![
            match h.publisher_priority {
                Some(p) => p,
                None => 128u8,
            },
        ]
    } else {
        Seq::empty()
    })
}

/// What [`SubgroupHeader::decode`] reads from the start of `s`.
pub open spec fn spec_decode_subgroup_header(s: Seq<u8>) -> Result<(SubgroupHeader, int), CodecError> {
    match spec_type_byte_at(s, false) {
        Err(e) => Err(e),
        Ok(ty) => if !spec_subgroup_type_valid(ty as u64) {
            Err(spec_stream_type_error(ty as u64))
        } else {
            match spec_varint_at(s, 1) {
                None => Err(varint_end()),
                Some((ta, p2)) => match spec_varint_at(s, p2) {
                    None => Err(varint_end()),
                    Some((g, p3)) => match (if spec_subgroup_id_mode(ty) == 2 {
                        spec_varint_at(s, p3)
                    } else {
                        Some((0u64, p3))
                    }) {
                        None => Err(varint_end()),
                        Some((sg, p4)) => match spec_opt_u8_at(s, p4, ty & 0x20 == 0) {
                            None => Err(CodecError::UnexpectedEnd),
                            Some((prio, p5)) => Ok(
                                (
                                    SubgroupHeader {
                                        header_type: ty,
                                        track_alias: VarInt::spec_new(ta),
                                        group_id: VarInt::spec_new(g),
                                        subgroup_id: VarInt::spec_new(sg),
                                        publisher_priority: prio,
                                    },
                                    p5,
                                ),
                            ),
                        },
                    },
                },
            }
        },
    }
}

impl SubgroupHeader {
    pub fn has_extensions(&self) -> (r: bool)
        ensures
            r == (self.header_type & 0x01 != 0),
    {
        self.header_type & 0x01 != 0
    }

    /// Whether SUBGROUP_ID_MODE is 1: the Subgroup ID is the first object's
    /// Object ID and is not on the wire.
    pub fn subgroup_id_from_first_object(&self) -> (r: bool)
        ensures
            r == (spec_subgroup_id_mode(self.header_type) == 1),
    {
        (self.header_type & 0x06) >> 1 == 1
    }

    /// Whether SUBGROUP_ID_MODE is 2: a Subgroup ID field follows the Group ID.
    pub fn has_explicit_subgroup_id(&self) -> (r: bool)
        ensures
            r == (spec_subgroup_id_mode(self.header_type) == 2),
    {
        (self.header_type & 0x06) >> 1 == 2
    }

    pub fn has_end_of_group(&self) -> (r: bool)
        ensures
            r == (self.header_type & 0x08 != 0),
    {
        self.header_type & 0x08 != 0
    }

    pub fn has_priority(&self) -> (r: bool)
        ensures
            r == (self.header_type & 0x20 == 0),
    {
        self.header_type & 0x20 == 0
    }

    /// Encode the header exactly as its Type byte describes it: a Subgroup
    /// ID only under mode 2 (none under the reserved mode), and a priority
    /// byte under a Type that carries one, 128 when the header holds none.
    pub fn encode(&self, buf: &mut Vec<u8>)
        ensures
            final(buf)@ == old(buf)@ + spec_encode_subgroup_header(*self),
    {
        let ghost start = buf@;
        VarInt::from_usize(self.header_type as usize).encode(buf);
        self.track_alias.encode(buf);
        self.group_id.encode(buf);
        if self.has_explicit_subgroup_id() {
            self.subgroup_id.encode(buf);
        }
        if self.has_priority() {
            let p = match self.publisher_priority {
                Some(p) => p,
                None => DEFAULT_PUBLISHER_PRIORITY,
            };
            buf.push(p);
        }
        assert(buf@ =~= start + spec_encode_subgroup_header(*self));
    }

    /// Encode, refusing as `InvalidField`, before anything is written, a Type
    /// Section 10.4.2 lists as invalid and a priority that disagrees with the
    /// Type's `0x20` bit.
    pub fn encode_checked(&self, buf: &mut Vec<u8>) -> (r: Result<(), CodecError>)
        ensures
            (!spec_subgroup_type_valid(self.header_type as u64) || (self.header_type & 0x20 == 0)
                != (self.publisher_priority is Some)) ==> r == Err::<(), CodecError>(
                CodecError::InvalidField,
            ) && final(buf)@ == old(buf)@,
            (spec_subgroup_type_valid(self.header_type as u64) && (self.header_type & 0x20 == 0)
                == (self.publisher_priority is Some)) ==> r == Ok::<(), CodecError>(())
                && final(buf)@ == old(buf)@ + spec_encode_subgroup_header(*self),
    {
        if !subgroup_type_is_valid(self.header_type as u64) {
            return Err(CodecError::InvalidField);
        }
        if self.has_priority() != self.publisher_priority.is_some() {
            return Err(CodecError::InvalidField);
        }
        self.encode(buf);
        Ok(())
    }

    /// Decode a subgroup header from the start of `buf`. A Type spelled in
    /// more than one byte is refused before it could be narrowed.
    pub fn decode(buf: &[u8]) -> (r: Result<(SubgroupHeader, usize), CodecError>)
        ensures
            match spec_decode_subgroup_header(buf@) {
                Ok((h, n)) => (r matches Ok((x, k)) && x == h && k == n),
                Err(e) => r == Err::<(SubgroupHeader, usize), CodecError>(e),
            },
    {
        let header_type = read_type_byte(buf, false)?;
        if !subgroup_type_is_valid(header_type as u64) {
            return Err(stream_type_error(header_type as u64));
        }
        let (track_alias, p2) = read_varint(buf, 1)?;
        let (group_id, p3) = read_varint(buf, p2)?;
        let (subgroup_id, p4) = if (header_type & 0x06) >> 1 == 2 {
            read_varint(buf, p3)?
        } else {
            (VarInt::from_usize(0), p3)
        };
        let (publisher_priority, p5) = read_opt_u8(buf, p4, header_type & 0x20 == 0)?;
        Ok((SubgroupHeader { header_type, track_alias, group_id, subgroup_id, publisher_priority }, p5))
    }
}

/// A header whose Type is valid and whose fields agree with it is read back
/// from its own encoding, whatever follows it.
pub proof fn lemma_subgroup_header_roundtrip(h: SubgroupHeader, rest: Seq<u8>)
    requires
        spec_subgroup_type_valid(h.header_type as u64),
        (h.header_type & 0x20 == 0) == (h.publisher_priority is Some),
        spec_subgroup_id_mode(h.header_type) != 2 ==> h.subgroup_id@ == 0,
        h.track_alias@ < VARINT_BOUND,
        h.group_id@ < VARINT_BOUND,
        h.subgroup_id@ < VARINT_BOUND,
    ensures
        spec_decode_subgroup_header(spec_encode_subgroup_header(h) + rest) == Ok::<
            (SubgroupHeader, int),
            CodecError,
        >((h, spec_encode_subgroup_header(h).len() as int)),
{
    let t = h.header_type;
    let e1 = spec_varint_encode(t as u64);
    let e2 = spec_varint_encode(h.track_alias@);
    let e3 = spec_varint_encode(h.group_id@);
    let e4 = if spec_subgroup_id_mode(t) == 2 {
        spec_varint_encode(h.subgroup_id@)
    } else {
        Seq::<u8>::empty()
    };
    let e5 = if t & 0x20 == 0 {
        seq![h.publisher_priority->Some_0]
    } else {
        Seq::<u8>::empty()
    };
    let a1 = e1;
    let a2 = a1 + e2;
    let a3 = a2 + e3;
    let a4 = a3 + e4;
    let a5 = a4 + e5;
    let s = a5 + rest;
    assert(spec_encode_subgroup_header(h) == a5);
    assert(t & 0xC0 == 0 ==> t < 0x40) by (bit_vector);
    lemma_varint_encode_small(t as u64);
    assert(e1 =~= seq![t]);
    lemma_prefix_of_add(a5, rest);
    lemma_prefix_of_add(a4, e5);
    lemma_prefix_trans(a4, a5, s);
    lemma_prefix_of_add(a3, e4);
    lemma_prefix_trans(a3, a4, s);
    lemma_prefix_of_add(a2, e3);
    lemma_prefix_trans(a2, a3, s);
    lemma_prefix_of_add(a1, e2);
    lemma_prefix_trans(a1, a2, s);
    assert(s[0] == t);
    lemma_varint_encoded(a1, h.track_alias@);
    lemma_varint_at_prefix(a2, s, a1.len() as int);
    lemma_varint_encoded(a2, h.group_id@);
    lemma_varint_at_prefix(a3, s, a2.len() as int);
    if spec_subgroup_id_mode(t) == 2 {
        lemma_varint_encoded(a3, h.subgroup_id@);
        lemma_varint_at_prefix(a4, s, a3.len() as int);
    } else {
        assert(a4 =~= a3);
    }
    if t & 0x20 == 0 {
        lemma_u8_encoded(a4, h.publisher_priority->Some_0);
        lemma_u8_at_prefix(a5, s, a4.len() as int);
    } else {
        assert(a5 =~= a4);
    }
}

// ── Subgroup objects (stateful) ─────────────────────────────

/// One object within a draft-16 subgroup stream, with its Object ID resolved
/// from the delta encoding.
#[derive(Debug, Clone, PartialEq, Eq)]
pub struct SubgroupObject {
    /// Resolved absolute Object ID.
    pub object_id: VarInt,
    /// Raw extension-header bytes, excluding the length prefix before them.
    pub extension_headers: Vec<u8>,
    /// Payload length as encoded on the wire; zero for a status object.
    pub payload_length: VarInt,
    /// Object status; `Some` when `payload_length` is zero. `None` there
    /// means Normal.
    pub object_status: Option<ObjectStatus>,
    /// Payload bytes; empty when `object_status` is `Some`.
    pub payload: Vec<u8>,
}

/// The mathematical value of a [`SubgroupObject`].
pub struct SubgroupObjectView {
    pub object_id: u64,
    pub extension_headers: Seq<u8>,
    pub payload_length: u64,
    pub object_status: Option<ObjectStatus>,
    pub payload: Seq<u8>,
}

impl View for SubgroupObject {
    type V = SubgroupObjectView;

    open spec fn view(&self) -> SubgroupObjectView {
        SubgroupObjectView {
            object_id: self.object_id@,
            extension_headers: self.extension_headers@,
            payload_length: self.payload_length@,
            object_status: self.object_status,
            payload: self.payload@,
        }
    }
}

/// The status of an object with this status field and declared length: the
/// wire carries a status only beside a zero length, and an unset one is
/// Normal.
pub open spec fn spec_resolved_status(status: Option<ObjectStatus>, payload_length: u64) -> ObjectStatus {
    if payload_length == 0 {
        match status {
            Some(s) => s,
            None => ObjectStatus::Normal,
        }
    } else {
        ObjectStatus::Normal
    }
}

fn resolved_status(status: Option<ObjectStatus>, payload_length: u64) -> (r: ObjectStatus)
    ensures
        r == spec_resolved_status(status, payload_length),
{
    if payload_length == 0 {
        match status {
            Some(s) => s,
            None => ObjectStatus::Normal,
        }
    } else {
        ObjectStatus::Normal
    }
}

impl SubgroupObject {
    /// The status this object resolves to.
    pub fn status(&self) -> (r: ObjectStatus)
        ensures
            r == spec_resolved_status(self.object_status, self.payload_length@),
    {
        resolved_status(self.object_status, self.payload_length.into_inner())
    }

    /// Whether this object's status is allowed to carry the extension headers
    /// it has: `false` exactly for a non-empty block on an object whose
    /// resolved status is not Normal (Section 10.2.1.2). Neither the
    /// reader nor the writer refuses such an object; this reports it.
    pub fn extensions_permitted(&self) -> (r: bool)
        ensures
            r == (self.extension_headers@.len() == 0 || spec_resolved_status(
                self.object_status,
                self.payload_length@,
            ) == ObjectStatus::Normal),
    {
        self.extension_headers.len() == 0 || self.status() == ObjectStatus::Normal
    }
}

// ── Payload permission ─────────────────────────────────────

/// Whether an object carrying a given status may hold a non-empty payload.
/// Section 10.2.1.1: "Any object with a status code other than zero MUST
/// have an empty payload."
#[derive(Debug, Clone, Copy, PartialEq, Eq, Structural)]
pub enum PayloadPermission {
    /// A payload is permitted but not required.
    Permitted,
    /// The object has an empty payload; one carrying bytes is malformed.
    Forbidden,
}

impl PayloadPermission {
    /// `true` for [`PayloadPermission::Permitted`].
    pub fn permits(self) -> (r: bool)
        ensures
            r == (self == PayloadPermission::Permitted),
    {
        match self {
            PayloadPermission::Permitted => true,
            PayloadPermission::Forbidden => false,
        }
    }
}

/// The framing of one draft-16 subgroup object, without its payload.
#[derive(Debug, Clone, Copy, PartialEq, Eq, Structural)]
pub struct SubgroupObjectMeta {
    /// Resolved absolute Object ID.
    pub object_id: u64,
    /// Length of the extension-header block, excluding its length prefix.
    pub extension_headers_len: u64,
    /// Declared payload length. Zero when `status` is `Some`.
    pub payload_length: u64,
    /// Object status wire code, present only when the payload is empty.
    pub status: Option<u64>,
    /// Total bytes this object occupies on the wire, prefix fields included.
    pub wire_len: u64,
}

/// The payload permission of a status wire code: `Permitted` when no code is
/// spelled or for Normal, `Forbidden` for End of Group and End of Track, and
/// `None` for a code draft-16 does not assign.
pub open spec fn spec_code_permission(status: Option<u64>) -> Option<PayloadPermission> {
    match status {
        None => Some(PayloadPermission::Permitted),
        Some(code) => match ObjectStatus::spec_from_code(code) {
            Some(s) => Some(
                if s == ObjectStatus::Normal {
                    PayloadPermission::Permitted
                } else {
                    PayloadPermission::Forbidden
                },
            ),
            None => None,
        },
    }
}

impl SubgroupObjectMeta {
    /// Whether this object is permitted a non-empty payload, or `None` when
    /// the status holds a code draft-16 does not assign.
    pub fn payload_permission(&self) -> (r: Option<PayloadPermission>)
        ensures
            r == spec_code_permission(self.status),
    {
        match self.status {
            None => Some(PayloadPermission::Permitted),
            Some(code) => match ObjectStatus::from_u64(code) {
                Some(ObjectStatus::Normal) => Some(PayloadPermission::Permitted),
                Some(ObjectStatus::EndOfGroup) => Some(PayloadPermission::Forbidden),
                Some(ObjectStatus::EndOfTrack) => Some(PayloadPermission::Forbidden),
                None => None,
            },
        }
    }

    /// Whether this object's status is allowed to carry the extension block
    /// it declares, answered from the declared length.
    pub fn extensions_permitted(&self) -> (r: bool)
        ensures
            r == spec_extensions_permitted_at(self.status, self.extension_headers_len),
    {
        extensions_permitted_at(self.status, self.extension_headers_len)
    }
}

/// The Object ID a delta resolves to after `prev`; `None` on overflow.
pub open spec fn spec_next_object_id(prev: Option<u64>, delta: u64) -> Option<u64> {
    match prev {
        None => Some(delta),
        Some(p) => if p + 1 + delta <= u64::MAX {
            Some((p + 1 + delta) as u64)
        } else {
            None
        },
    }
}

/// The delta that encodes `id` after `prev`; `None` unless `id > prev`.
pub open spec fn spec_object_id_delta(prev: Option<u64>, id: u64) -> Option<u64> {
    match prev {
        None => Some(id),
        Some(p) => if id > p {
            Some((id - p - 1) as u64)
        } else {
            None
        },
    }
}

/// The Object Payload Length at `p` and what it announces: a status when it
/// is zero, and otherwise that many payload bytes.
pub open spec fn spec_read_length_and_body(s: Seq<u8>, p: int) -> Result<
    (u64, Option<ObjectStatus>, Seq<u8>, int),
    CodecError,
> {
    match spec_varint_at(s, p) {
        None => Err(varint_end()),
        Some((plen, p3)) => if plen == 0 {
            match spec_varint_at(s, p3) {
                None => Err(varint_end()),
                Some((code, p4)) => match spec_decoded_status(code) {
                    Err(e) => Err(e),
                    Ok(st) => Ok((0, Some(st), Seq::empty(), p4)),
                },
            }
        } else {
            match spec_bytes_at(s, p3, plen) {
                None => Err(CodecError::UnexpectedEnd),
                Some((b, p4)) => Ok((plen, None, b, p4)),
            }
        },
    }
}

/// What [`SubgroupObjectReader::read_object`] reads from the start of `s`
/// under reader state `(ext, prev)`: the new previous Object ID, and the
/// object with the bytes it consumed. The previous Object ID moves as soon
/// as the delta resolves.
pub open spec fn spec_read_object(ext: bool, prev: Option<u64>, s: Seq<u8>) -> (
    Option<u64>,
    Result<(SubgroupObjectView, int), CodecError>,
) {
    match spec_varint_at(s, 0) {
        None => (prev, Err(varint_end())),
        Some((delta, p1)) => match spec_next_object_id(prev, delta) {
            None => (prev, Err(CodecError::InvalidField)),
            Some(oid) => (
                Some(oid),
                if oid >= VARINT_BOUND {
                    Err(CodecError::InvalidField)
                } else {
                    match spec_read_extensions(ext, s, p1) {
                        Err(e) => Err(e),
                        Ok((x, p2)) => match spec_read_length_and_body(s, p2) {
                            Err(e) => Err(e),
                            Ok((plen, st, payload, p4)) => Ok(
                                (
                                    SubgroupObjectView {
                                        object_id: oid,
                                        extension_headers: x,
                                        payload_length: plen,
                                        object_status: st,
                                        payload: payload,
                                    },
                                    p4,
                                ),
                            ),
                        },
                    }
                },
            ),
        },
    }
}

/// The wire code of a status, if there is one.
pub open spec fn spec_opt_code(s: Option<ObjectStatus>) -> Option<u64> {
    match s {
        Some(st) => Some(st.spec_code()),
        None => None,
    }
}

/// What [`SubgroupObjectReader::read_object_meta`] reads: the framing
/// [`SubgroupObjectReader::read_object`] reads, without the payload.
pub open spec fn spec_read_object_meta(ext: bool, prev: Option<u64>, s: Seq<u8>) -> (
    Option<u64>,
    Result<(SubgroupObjectMeta, int), CodecError>,
) {
    let (np, r) = spec_read_object(ext, prev, s);
    (
        np,
        match r {
            Err(e) => Err(e),
            Ok((o, n)) => Ok(
                (
                    SubgroupObjectMeta {
                        object_id: o.object_id,
                        extension_headers_len: o.extension_headers.len() as u64,
                        payload_length: o.payload_length,
                        status: spec_opt_code(o.object_status),
                        wire_len: n as u64,
                    },
                    n,
                ),
            ),
        },
    )
}

/// Reading an object's framing agrees with reading the object: the same
/// bytes are consumed, the same previous Object ID is left behind, the same
/// errors are reported, and the framing describes the object read, down to
/// the payload and extension permissions it answers.
pub proof fn lemma_meta_matches_read_object(ext: bool, prev: Option<u64>, s: Seq<u8>)
    requires
        s.len() <= u64::MAX,
    ensures
        ({
            let (np1, r1) = spec_read_object(ext, prev, s);
            let (np2, r2) = spec_read_object_meta(ext, prev, s);
            &&& np1 == np2
            &&& r1 is Ok <==> r2 is Ok
            &&& r1 is Err ==> r1->Err_0 == r2->Err_0
            &&& r1 is Ok ==> {
                let (o, n1) = r1->Ok_0;
                let (m, n2) = r2->Ok_0;
                &&& n1 == n2
                &&& m.object_id == o.object_id
                &&& m.extension_headers_len == o.extension_headers.len()
                &&& m.payload_length == o.payload_length
                &&& m.status == spec_opt_code(o.object_status)
                &&& m.wire_len == n1
                &&& spec_extensions_permitted_at(m.status, m.extension_headers_len) == (
                o.extension_headers.len() == 0 || spec_resolved_status(
                    o.object_status,
                    o.payload_length,
                ) == ObjectStatus::Normal)
                &&& spec_code_permission(m.status) == Some(
                    if spec_resolved_status(o.object_status, o.payload_length) == ObjectStatus::Normal {
                        PayloadPermission::Permitted
                    } else {
                        PayloadPermission::Forbidden
                    },
                )
            }
        }),
{
    broadcast use ObjectStatus::lemma_from_code_of_code;

    let (_, r1) = spec_read_object(ext, prev, s);
    if r1 is Ok {
        let (o, n1) = r1->Ok_0;
        assert(o.extension_headers.len() <= s.len());
        assert(n1 <= s.len());
    }
}

/// The status field and payload that follow a declared length.
pub open spec fn spec_encode_body(payload_length: u64, status: Option<ObjectStatus>, payload: Seq<u8>) -> Seq<u8> {
    if payload_length == 0 {
        spec_varint_encode(spec_resolved_status(status, 0).spec_code())
    } else {
        payload
    }
}

/// What [`SubgroupObjectReader::write_object`] writes for `o` under reader
/// state `(ext, prev)`, or why it refuses: a declared length that is not the
/// payload's, or an Object ID not above the previous one. An extension block
/// on a stream whose objects carry none is not written.
pub open spec fn spec_write_object(ext: bool, prev: Option<u64>, o: SubgroupObjectView) -> Result<
    Seq<u8>,
    CodecError,
> {
    if o.payload_length != o.payload.len() {
        Err(CodecError::InvalidField)
    } else {
        match spec_object_id_delta(prev, o.object_id) {
            None => Err(CodecError::InvalidField),
            Some(delta) => Ok(
                spec_varint_encode(delta) + spec_encode_extensions(ext, o.extension_headers)
                    + spec_varint_encode(o.payload_length) + spec_encode_body(
                    o.payload_length,
                    o.object_status,
                    o.payload,
                ),
            ),
        }
    }
}

fn read_length_and_body(buf: &[u8], pos: usize) -> (r: Result<
    (VarInt, Option<ObjectStatus>, Vec<u8>, usize),
    CodecError,
>)
    ensures
        match spec_read_length_and_body(buf@, pos as int) {
            Ok((l, st, b, q)) => (r matches Ok((l2, st2, v, n)) && l2@ == l && st2 == st && v@ == b
                && n == q),
            Err(e) => r == Err::<(VarInt, Option<ObjectStatus>, Vec<u8>, usize), CodecError>(e),
        },
{
    let (payload_length, p3) = read_varint(buf, pos)?;
    let plen = payload_length.into_inner();
    if plen == 0 {
        let (code, p4) = read_varint_u64(buf, p3)?;
        let st = decoded_status(code)?;
        Ok((payload_length, Some(st), Vec::new(), p4))
    } else {
        let (payload, p4) = read_bytes(buf, p3, plen)?;
        Ok((payload_length, None, payload, p4))
    }
}

fn skip_length_and_body(buf: &[u8], pos: usize) -> (r: Result<(u64, Option<u64>, usize), CodecError>)
    ensures
        match spec_read_length_and_body(buf@, pos as int) {
            Ok((l, st, b, q)) => (r matches Ok((l2, c, n)) && l2 == l && c == spec_opt_code(st) && n
                == q),
            Err(e) => r == Err::<(u64, Option<u64>, usize), CodecError>(e),
        },
{
    let (payload_length, p3) = read_varint_u64(buf, pos)?;
    if payload_length == 0 {
        let (code, p4) = read_varint_u64(buf, p3)?;
        decoded_status(code)?;
        Ok((0, Some(code), p4))
    } else {
        let p4 = skip(buf, p3, payload_length)?;
        Ok((payload_length, None, p4))
    }
}

/// Stateful reader (and writer) for the objects of one draft-16 subgroup
/// stream: whether objects carry extension blocks, and the previous Object
/// ID against which the next delta is resolved.
#[derive(Debug, Clone)]
pub struct SubgroupObjectReader {
    extensions_present: bool,
    prev_object_id: Option<u64>,
}

impl View for SubgroupObjectReader {
    type V = (bool, Option<u64>);

    closed spec fn view(&self) -> (bool, Option<u64>) {
        (self.extensions_present, self.prev_object_id)
    }
}

impl SubgroupObjectReader {
    /// Build a reader seeded from the enclosing subgroup header.
    pub fn new(header: &SubgroupHeader) -> (r: Self)
        ensures
            r@ == (header.header_type & 0x01 != 0, None::<u64>),
    {
        Self { extensions_present: header.has_extensions(), prev_object_id: None }
    }

    fn next_object_id(&self, delta: u64) -> (r: Result<u64, CodecError>)
        ensures
            match spec_next_object_id(self@.1, delta) {
                Some(v) => r == Ok::<u64, CodecError>(v),
                None => r == Err::<u64, CodecError>(CodecError::InvalidField),
            },
    {
        match self.prev_object_id {
            None => Ok(delta),
            Some(prev) => {
                if prev > u64::MAX - 1 || delta > u64::MAX - 1 - prev {
                    return Err(CodecError::InvalidField);
                }
                Ok(prev + 1 + delta)
            },
        }
    }

    /// Decode the next object from the start of `buf`, with the number of
    /// bytes it occupies.
    pub fn read_object(&mut self, buf: &[u8]) -> (r: Result<(SubgroupObject, usize), CodecError>)
        ensures
            final(self)@.0 == old(self)@.0,
            ({
                let (np, res) = spec_read_object(old(self)@.0, old(self)@.1, buf@);
                &&& final(self)@.1 == np
                &&& match res {
                    Ok((o, n)) => (r matches Ok((x, m)) && x@ == o && m == n),
                    Err(e) => r == Err::<(SubgroupObject, usize), CodecError>(e),
                }
            }),
    {
        let (delta, p1) = read_varint_u64(buf, 0)?;
        let object_id_val = self.next_object_id(delta)?;
        self.prev_object_id = Some(object_id_val);
        let object_id = match VarInt::from_u64(object_id_val) {
            Ok(v) => v,
            Err(_) => return Err(CodecError::InvalidField),
        };
        let (extension_headers, p2) = read_extensions(self.extensions_present, buf, p1)?;
        let (payload_length, object_status, payload, p4) = read_length_and_body(buf, p2)?;
        Ok((SubgroupObject { object_id, extension_headers, payload_length, object_status, payload }, p4))
    }

    /// Decode the next object's framing without copying its payload. Consumes
    /// exactly the bytes [`Self::read_object`] consumes and leaves the same
    /// delta state behind.
    pub fn read_object_meta(&mut self, buf: &[u8]) -> (r: Result<(SubgroupObjectMeta, usize), CodecError>)
        ensures
            final(self)@.0 == old(self)@.0,
            ({
                let (np, res) = spec_read_object_meta(old(self)@.0, old(self)@.1, buf@);
                &&& final(self)@.1 == np
                &&& match res {
                    Ok((m, n)) => (r matches Ok((x, k)) && x == m && k == n),
                    Err(e) => r == Err::<(SubgroupObjectMeta, usize), CodecError>(e),
                }
            }),
    {
        proof {
            let (_, res) = spec_read_object(old(self)@.0, old(self)@.1, buf@);
            if res is Ok {
                assert(res->Ok_0.0.extension_headers.len() <= u64::MAX);
            }
        }
        let (delta, p1) = read_varint_u64(buf, 0)?;
        let object_id = self.next_object_id(delta)?;
        self.prev_object_id = Some(object_id);
        if object_id >= VARINT_BOUND {
            return Err(CodecError::InvalidField);
        }
        let (extension_headers_len, p2) = skip_extensions(self.extensions_present, buf, p1)?;
        let (payload_length, status, p4) = skip_length_and_body(buf, p2)?;
        Ok((SubgroupObjectMeta { object_id, extension_headers_len, payload_length, status, wire_len: p4 as u64 }, p4))
    }

    /// Serialize an object against the reader's delta state and advance it.
    ///
    /// Refuses, before writing anything, an Object ID not strictly greater than
    /// the previous one and a declared length that is not the payload's. A zero
    /// length is written with its status, Normal when unset. Extension headers
    /// beside a status other than Normal are written, not refused: this is the
    /// only writer a subgroup object has.
    pub fn write_object(&mut self, object: &SubgroupObject, buf: &mut Vec<u8>) -> (r: Result<(), CodecError>)
        requires
            object.extension_headers@.len() < VARINT_BOUND,
        ensures
            final(self)@.0 == old(self)@.0,
            match spec_write_object(old(self)@.0, old(self)@.1, object@) {
                Ok(bytes) => r == Ok::<(), CodecError>(()) && final(buf)@ == old(buf)@ + bytes
                    && final(self)@.1 == Some(object@.object_id),
                Err(e) => r == Err::<(), CodecError>(e) && final(buf)@ == old(buf)@
                    && final(self)@.1 == old(self)@.1,
            },
    {
        let declared = object.payload_length.into_inner();
        if declared != object.payload.len() as u64 {
            return Err(CodecError::InvalidField);
        }
        let oid = object.object_id.into_inner();
        let delta = match self.prev_object_id {
            None => oid,
            Some(prev) => {
                if oid <= prev {
                    return Err(CodecError::InvalidField);
                }
                oid - prev - 1
            },
        };
        let ghost start = buf@;
        let delta_vi = match VarInt::from_u64(delta) {
            Ok(v) => v,
            Err(_) => return Err(CodecError::InvalidField),
        };
        delta_vi.encode(buf);
        encode_extensions(self.extensions_present, &object.extension_headers, buf);
        object.payload_length.encode(buf);
        let ghost mid = buf@;
        if declared == 0 {
            let status = match object.object_status {
                Some(s) => s,
                None => ObjectStatus::Normal,
            };
            match VarInt::from_u64(status.as_u64()) {
                Ok(code) => code.encode(buf),
                Err(_) => {},
            }
        } else {
            put_slice(buf, object.payload.as_slice());
        }
        assert(buf@ =~= start + (spec_varint_encode(delta) + spec_encode_extensions(
            self.extensions_present,
            object.extension_headers@,
        ) + spec_varint_encode(declared) + spec_encode_body(
            declared,
            object.object_status,
            object.payload@,
        )));
        self.prev_object_id = Some(oid);
        Ok(())
    }
}

/// What reading an object back gives for `o`: a zero length carries its
/// status, Normal when unset, and a non-zero one carries none.
pub open spec fn spec_object_as_read(o: SubgroupObjectView) -> SubgroupObjectView {
    SubgroupObjectView {
        object_status: if o.payload_length == 0 {
            Some(spec_resolved_status(o.object_status, 0))
        } else {
            None
        },
        ..o
    }
}

/// An object [`SubgroupObjectReader::write_object`] accepts is read back by
/// [`SubgroupObjectReader::read_object`] from the bytes written, whatever
/// follows them, leaving both ends with the same previous Object ID.
///
/// Excluded: an extension block on a stream whose objects carry none, which
/// the writer does not put on the wire.
pub proof fn lemma_subgroup_object_roundtrip(
    ext: bool,
    prev: Option<u64>,
    o: SubgroupObjectView,
    rest: Seq<u8>,
)
    requires
        spec_write_object(ext, prev, o) is Ok,
        o.object_id < VARINT_BOUND,
        o.payload_length < VARINT_BOUND,
        o.extension_headers.len() < VARINT_BOUND,
        !ext ==> o.extension_headers.len() == 0,
    ensures
        ({
            let bytes = spec_write_object(ext, prev, o)->Ok_0;
            spec_read_object(ext, prev, bytes + rest) == (
                Some(o.object_id),
                Ok::<(SubgroupObjectView, int), CodecError>(
                    (spec_object_as_read(o), bytes.len() as int),
                ),
            )
        }),
{
    broadcast use ObjectStatus::lemma_from_code_of_code;

    let delta = spec_object_id_delta(prev, o.object_id)->Some_0;
    let e1 = spec_varint_encode(delta);
    let e2 = spec_encode_extensions(ext, o.extension_headers);
    let e3 = spec_varint_encode(o.payload_length);
    let e4 = spec_encode_body(o.payload_length, o.object_status, o.payload);
    let a1 = e1;
    let a2 = a1 + e2;
    let a3 = a2 + e3;
    let a4 = a3 + e4;
    let s = a4 + rest;
    assert(spec_write_object(ext, prev, o)->Ok_0 == a4);
    lemma_prefix_of_add(a4, rest);
    lemma_prefix_of_add(a3, e4);
    lemma_prefix_trans(a3, a4, s);
    lemma_prefix_of_add(a2, e3);
    lemma_prefix_trans(a2, a3, s);
    lemma_prefix_of_add(a1, e2);
    lemma_prefix_trans(a1, a2, s);
    lemma_varint_encoded(Seq::empty(), delta);
    assert(Seq::<u8>::empty() + e1 =~= a1);
    lemma_varint_at_prefix(a1, s, 0);
    lemma_extensions_encoded(ext, a1, o.extension_headers);
    lemma_read_extensions_prefix(ext, a2, s, a1.len() as int);
    lemma_varint_encoded(a2, o.payload_length);
    lemma_varint_at_prefix(a3, s, a2.len() as int);
    if o.payload_length == 0 {
        lemma_varint_encoded(a3, spec_resolved_status(o.object_status, 0).spec_code());
        lemma_varint_at_prefix(a4, s, a3.len() as int);
        assert(o.payload =~= Seq::<u8>::empty());
    } else {
        lemma_bytes_encoded(a3, o.payload);
        lemma_bytes_at_prefix(a4, s, a3.len() as int, o.payload_length);
    }
}

/// Datagram header for draft-16.
///
/// - `0x01`: extension block present
/// - `0x02`: end of group
/// - `0x04`: no Object ID (it is 0)
/// - `0x08`: no priority (the subscription's is inherited)
/// - `0x20`: status datagram (a status instead of a payload)
#[derive(Debug, Clone, PartialEq, Eq)]
pub struct DatagramHeader {
    /// Raw datagram-type byte.
    pub datagram_type: u8,
    /// Track alias identifying the track.
    pub track_alias: VarInt,
    /// Group ID for the contained object.
    pub group_id: VarInt,
    /// Object ID (zero when the type carries none).
    pub object_id: VarInt,
    /// Publisher priority, present only when the type's `0x08` bit is clear.
    pub publisher_priority: Option<u8>,
    /// Opaque extension-headers blob (only when the `0x01` bit is set).
    pub extension_headers: Vec<u8>,
    /// Object status (only when the `0x20` bit is set; unset there means
    /// Normal).
    pub object_status: Option<ObjectStatus>,
}

/// The mathematical value of a [`DatagramHeader`].
pub struct DatagramHeaderView {
    pub datagram_type: u8,
    pub track_alias: u64,
    pub group_id: u64,
    pub object_id: u64,
    pub publisher_priority: Option<u8>,
    pub extension_headers: Seq<u8>,
    pub object_status: Option<ObjectStatus>,
}

impl View for DatagramHeader {
    type V = DatagramHeaderView;

    open spec fn view(&self) -> DatagramHeaderView {
        DatagramHeaderView {
            datagram_type: self.datagram_type,
            track_alias: self.track_alias@,
            group_id: self.group_id@,
            object_id: self.object_id@,
            publisher_priority: self.publisher_priority,
            extension_headers: self.extension_headers@,
            object_status: self.object_status,
        }
    }
}

/// The status a datagram resolves to: under the status bit the field is on
/// the wire, Normal when unset; otherwise `None`, the implicit Normal of a
/// datagram that carries a payload.
pub open spec fn spec_effective_status(h: DatagramHeaderView) -> Option<ObjectStatus> {
    if h.datagram_type & 0x20 != 0 {
        Some(spec_resolved_status(h.object_status, 0))
    } else {
        None
    }
}

/// Whether the datagram's status field is allowed to carry the extension
/// headers on its wire (Section 10.2.1.2): the block counts only under the
/// `0x01` bit.
pub open spec fn spec_datagram_extensions_permitted(h: DatagramHeaderView) -> bool {
    spec_extensions_permitted_at(
        spec_opt_code(h.object_status),
        if h.datagram_type & 0x01 != 0 {
            h.extension_headers.len() as u64
        } else {
            0
        },
    )
}

/// The bytes [`DatagramHeader::encode`] writes: field presence follows the
/// type byte; a missing priority is written as 128 and a missing status as
/// Normal.
pub open spec fn spec_encode_datagram_header(h: DatagramHeaderView) -> Seq<u8> {
    spec_varint_encode(h.datagram_type as u64) + spec_datagram_ids_bytes(h)
        + spec_datagram_tail_bytes(h)
}

/// The Track Alias, Group ID, Object ID and priority fields of a datagram
/// header as written.
pub open spec fn spec_datagram_ids_bytes(h: DatagramHeaderView) -> Seq<u8> {
    spec_varint_encode(h.track_alias) + spec_varint_encode(h.group_id)
        + spec_datagram_object_id_bytes(h) + spec_datagram_priority_bytes(h)
}

/// The extension block and status field of a datagram header as written.
pub open spec fn spec_datagram_tail_bytes(h: DatagramHeaderView) -> Seq<u8> {
    spec_encode_extensions(h.datagram_type & 0x01 != 0, h.extension_headers)
        + spec_datagram_status_bytes(h)
}

/// The Object ID field of a datagram header: present unless the type
/// says it is zero.
pub open spec fn spec_datagram_object_id_bytes(h: DatagramHeaderView) -> Seq<u8> {
    if h.datagram_type & 0x04 == 0 {
        spec_varint_encode(h.object_id)
    } else {
        Seq::empty()
    }
}

/// The publisher priority byte of a datagram header, 128 when missing.
pub open spec fn spec_datagram_priority_bytes(h: DatagramHeaderView) -> Seq<u8> {
    if h.datagram_type & 0x08 == 0 {
        seq![
            match h.publisher_priority {
                Some(p) => p,
                None => 128u8,
            },
        ]
    } else {
        Seq::empty()
    }
}

/// The status field of a datagram header, present under the status bit.
pub open spec fn spec_datagram_status_bytes(h: DatagramHeaderView) -> Seq<u8> {
    if h.datagram_type & 0x20 != 0 {
        spec_varint_encode(spec_resolved_status(h.object_status, 0).spec_code())
    } else {
        Seq::empty()
    }
}

/// Why [`DatagramHeader::encode_checked`] refuses `h`, if it does: a Type
/// Section 10.3.1 lists as invalid, a status other than Normal the Type
/// cannot carry, an extension bit over an empty block, or extensions beside
/// a status other than Normal.
pub open spec fn spec_datagram_refusal(h: DatagramHeaderView) -> Option<CodecError> {
    let t = h.datagram_type;
    match spec_datagram_type_check(t as u64) {
        Err(e) => Some(e),
        Ok(()) => if t & 0x20 == 0 && (h.object_status matches Some(st) && st
            != ObjectStatus::Normal) {
            Some(CodecError::InvalidField)
        } else if t & 0x01 != 0 && h.extension_headers.len() == 0 {
            Some(CodecError::InvalidField)
        } else if !spec_datagram_extensions_permitted(h) {
            Some(CodecError::InvalidField)
        } else {
            None
        },
    }
}

/// A datagram's extension block: under a type that announces one, a declared
/// length of 0 is refused.
pub open spec fn spec_read_datagram_extensions(ext: bool, s: Seq<u8>, p: int) -> Result<
    (Seq<u8>, int),
    CodecError,
> {
    if !ext {
        Ok((Seq::empty(), p))
    } else {
        match spec_varint_at(s, p) {
            None => Err(varint_end()),
            Some((len, q)) => if len == 0 {
                Err(CodecError::InvalidField)
            } else {
                match spec_bytes_at(s, q, len) {
                    None => Err(CodecError::UnexpectedEnd),
                    Some((b, r)) => Ok((b, r)),
                }
            },
        }
    }
}

/// A status code at `p` when `present`.
pub open spec fn spec_opt_status_at(s: Seq<u8>, p: int, present: bool) -> Result<(Option<ObjectStatus>, int), CodecError> {
    if present {
        match spec_varint_at(s, p) {
            None => Err(varint_end()),
            Some((code, q)) => match spec_decoded_status(code) {
                Err(e) => Err(e),
                Ok(st) => Ok((Some(st), q)),
            },
        }
    } else {
        Ok((None, p))
    }
}

/// The Track Alias, Group ID, Object ID and priority of a datagram of type
/// `t`, read at `p`.
pub open spec fn spec_datagram_ids_at(t: u8, s: Seq<u8>, p: int) -> Result<
    (u64, u64, u64, Option<u8>, int),
    CodecError,
> {
    match spec_varint_at(s, p) {
        None => Err(varint_end()),
        Some((ta, p2)) => match spec_varint_at(s, p2) {
            None => Err(varint_end()),
            Some((g, p3)) => match (if t & 0x04 == 0 {
                spec_varint_at(s, p3)
            } else {
                Some((0u64, p3))
            }) {
                None => Err(varint_end()),
                Some((oid, p4)) => match spec_opt_u8_at(s, p4, t & 0x08 == 0) {
                    None => Err(CodecError::UnexpectedEnd),
                    Some((prio, p5)) => Ok((ta, g, oid, prio, p5)),
                },
            },
        },
    }
}

/// The extension block and status of a datagram of type `t`, read at `p`.
pub open spec fn spec_datagram_tail_at(t: u8, s: Seq<u8>, p: int) -> Result<
    (Seq<u8>, Option<ObjectStatus>, int),
    CodecError,
> {
    match spec_read_datagram_extensions(t & 0x01 != 0, s, p) {
        Err(e) => Err(e),
        Ok((x, p6)) => match spec_opt_status_at(s, p6, t & 0x20 != 0) {
            Err(e) => Err(e),
            Ok((st, p7)) => Ok((x, st, p7)),
        },
    }
}

/// The fields of a datagram of type `t` that follow its type, read at `p`.
pub open spec fn spec_datagram_body_at(t: u8, s: Seq<u8>, p: int) -> Result<
    (DatagramHeaderView, int),
    CodecError,
> {
    match spec_datagram_ids_at(t, s, p) {
        Err(e) => Err(e),
        Ok((ta, g, oid, prio, p5)) => match spec_datagram_tail_at(t, s, p5) {
            Err(e) => Err(e),
            Ok((x, st, p7)) => Ok(
                (
                    DatagramHeaderView {
                        datagram_type: t,
                        track_alias: ta,
                        group_id: g,
                        object_id: oid,
                        publisher_priority: prio,
                        extension_headers: x,
                        object_status: st,
                    },
                    p7,
                ),
            ),
        },
    }
}

/// What [`DatagramHeader::decode`] reads from the start of `s`.
pub open spec fn spec_decode_datagram_header(s: Seq<u8>) -> Result<(DatagramHeaderView, int), CodecError> {
    match spec_type_byte_at(s, true) {
        Err(e) => Err(e),
        Ok(t) => match spec_datagram_type_check(t as u64) {
            Err(e) => Err(e),
            Ok(()) => spec_datagram_body_at(t, s, 1),
        },
    }
}

fn read_datagram_extensions(ext: bool, buf: &[u8], pos: usize) -> (r: Result<(Vec<u8>, usize), CodecError>)
    ensures
        match spec_read_datagram_extensions(ext, buf@, pos as int) {
            Ok((b, q)) => (r matches Ok((v, n)) && v@ == b && n == q),
            Err(e) => r == Err::<(Vec<u8>, usize), CodecError>(e),
        },
{
    if ext {
        let (ext_len, q) = read_varint_u64(buf, pos)?;
        if ext_len == 0 {
            return Err(CodecError::InvalidField);
        }
        read_bytes(buf, q, ext_len)
    } else {
        Ok((Vec::new(), pos))
    }
}

fn read_opt_status(buf: &[u8], pos: usize, present: bool) -> (r: Result<(Option<ObjectStatus>, usize), CodecError>)
    ensures
        match spec_opt_status_at(buf@, pos as int, present) {
            Ok((st, q)) => (r matches Ok((st2, n)) && st2 == st && n == q),
            Err(e) => r == Err::<(Option<ObjectStatus>, usize), CodecError>(e),
        },
{
    if present {
        let (code, q) = read_varint_u64(buf, pos)?;
        let st = decoded_status(code)?;
        Ok((Some(st), q))
    } else {
        Ok((None, pos))
    }
}

fn opt_code(st: Option<ObjectStatus>) -> (r: Option<u64>)
    ensures
        r == spec_opt_code(st),
{
    match st {
        Some(s) => Some(s.as_u64()),
        None => None,
    }
}

fn read_datagram_ids(t: u8, buf: &[u8], p: usize) -> (r: Result<
    (VarInt, VarInt, VarInt, Option<u8>, usize),
    CodecError,
>)
    ensures
        match spec_datagram_ids_at(t, buf@, p as int) {
            Ok((ta, g, oid, prio, q)) => (r matches Ok((x1, x2, x3, x4, n)) && x1@ == ta && x2@
                == g && x3@ == oid && x4 == prio && n == q),
            Err(e) => r == Err::<(VarInt, VarInt, VarInt, Option<u8>, usize), CodecError>(e),
        },
{
    let (track_alias, p2) = read_varint(buf, p)?;
    let (group_id, p3) = read_varint(buf, p2)?;
    let (object_id, p4) = if t & 0x04 == 0 {
        read_varint(buf, p3)?
    } else {
        (VarInt::from_usize(0), p3)
    };
    let (publisher_priority, p5) = read_opt_u8(buf, p4, t & 0x08 == 0)?;
    Ok((track_alias, group_id, object_id, publisher_priority, p5))
}

fn read_datagram_tail(t: u8, buf: &[u8], p: usize) -> (r: Result<
    (Vec<u8>, Option<ObjectStatus>, usize),
    CodecError,
>)
    ensures
        match spec_datagram_tail_at(t, buf@, p as int) {
            Ok((x, st, q)) => (r matches Ok((y, st2, n)) && y@ == x && st2 == st && n == q),
            Err(e) => r == Err::<(Vec<u8>, Option<ObjectStatus>, usize), CodecError>(e),
        },
{
    let (extension_headers, p6) = read_datagram_extensions(t & 0x01 != 0, buf, p)?;
    let (object_status, p7) = read_opt_status(buf, p6, t & 0x20 != 0)?;
    Ok((extension_headers, object_status, p7))
}

impl DatagramHeader {
    /// Whether the datagram carries an explicit Object ID.
    pub fn has_object_id(&self) -> (r: bool)
        ensures
            r == (self.datagram_type & 0x04 == 0),
    {
        self.datagram_type & 0x04 == 0
    }

    /// Whether this datagram marks the end of its group.
    pub fn is_end_of_group(&self) -> (r: bool)
        ensures
            r == (self.datagram_type & 0x02 != 0),
    {
        self.datagram_type & 0x02 != 0
    }

    /// Whether this datagram carries a status instead of a payload.
    pub fn is_status(&self) -> (r: bool)
        ensures
            r == (self.datagram_type & 0x20 != 0),
    {
        self.datagram_type & 0x20 != 0
    }

    /// Whether this datagram carries extension headers.
    pub fn has_extensions(&self) -> (r: bool)
        ensures
            r == (self.datagram_type & 0x01 != 0),
    {
        self.datagram_type & 0x01 != 0
    }

    /// Whether the publisher priority is omitted and inherited.
    pub fn has_default_priority(&self) -> (r: bool)
        ensures
            r == (self.datagram_type & 0x08 != 0),
    {
        self.datagram_type & 0x08 != 0
    }

    /// Whether this datagram's status field is allowed to carry the
    /// extension headers on its wire (Section 10.2.1.2). [`Self::decode`]
    /// reports this rather than refusing; [`Self::encode_checked`] refuses it.
    pub fn extensions_permitted(&self) -> (r: bool)
        ensures
            r == spec_datagram_extensions_permitted(self@),
    {
        let len: u64 = if self.has_extensions() {
            self.extension_headers.len() as u64
        } else {
            0
        };
        extensions_permitted_at(opt_code(self.object_status), len)
    }

    /// Encode the header, refusing before writing anything: a Type Section
    /// 10.3.1 lists as invalid (with the error that Type deserves), a status
    /// other than Normal under a Type without the STATUS bit, an EXTENSIONS
    /// bit over an empty block, and extensions beside a status other than
    /// Normal (all three `InvalidField`).
    pub fn encode_checked(&self, buf: &mut Vec<u8>) -> (r: Result<(), CodecError>)
        requires
            self.extension_headers@.len() < VARINT_BOUND,
        ensures
            match spec_datagram_refusal(self@) {
                Some(e) => r == Err::<(), CodecError>(e) && final(buf)@ == old(buf)@,
                None => r == Ok::<(), CodecError>(()) && final(buf)@ == old(buf)@
                    + spec_encode_datagram_header(self@),
            },
    {
        validate_datagram_type(self.datagram_type as u64)?;
        if !self.is_status() {
            match self.object_status {
                Some(st) => {
                    if st != ObjectStatus::Normal {
                        return Err(CodecError::InvalidField);
                    }
                },
                None => {},
            }
        }
        if self.has_extensions() && self.extension_headers.len() == 0 {
            return Err(CodecError::InvalidField);
        }
        if !self.extensions_permitted() {
            return Err(CodecError::InvalidField);
        }
        self.encode(buf);
        Ok(())
    }

    /// Encode the datagram header. The type byte decides the framing: a
    /// priority byte unless the default-priority bit is set (128 when the
    /// header holds none), the extension block under its bit, and the status
    /// field whenever the status bit is set, Normal when unset; a status set
    /// without the bit is dropped.
    pub fn encode(&self, buf: &mut Vec<u8>)
        requires
            self.extension_headers@.len() < VARINT_BOUND,
        ensures
            final(buf)@ == old(buf)@ + spec_encode_datagram_header(self@),
    {
        let ghost start = buf@;
        VarInt::from_usize(self.datagram_type as usize).encode(buf);
        let ghost a1 = buf@;
        encode_datagram_ids(self, buf);
        let ghost a2 = buf@;
        encode_datagram_tail(self, buf);
        assert(buf@ =~= start + spec_encode_datagram_header(self@));
    }

    /// Decode a datagram header from the start of `buf`; the payload of a
    /// payload-bearing datagram is what follows it.
    pub fn decode(buf: &[u8]) -> (r: Result<(DatagramHeader, usize), CodecError>)
        ensures
            match spec_decode_datagram_header(buf@) {
                Ok((h, n)) => (r matches Ok((x, k)) && x@ == h && k == n),
                Err(e) => r == Err::<(DatagramHeader, usize), CodecError>(e),
            },
    {
        let datagram_type = read_type_byte(buf, true)?;
        validate_datagram_type(datagram_type as u64)?;
        let p1: usize = 1;
        let (track_alias, group_id, object_id, publisher_priority, p5) = read_datagram_ids(
            datagram_type,
            buf,
            p1,
        )?;
        let (extension_headers, object_status, p7) = read_datagram_tail(datagram_type, buf, p5)?;
        Ok(
            (
                DatagramHeader {
                    datagram_type,
                    track_alias,
                    group_id,
                    object_id,
                    publisher_priority,
                    extension_headers,
                    object_status,
                },
                p7,
            ),
        )
    }
}

fn encode_datagram_ids(d: &DatagramHeader, buf: &mut Vec<u8>)
    ensures
        final(buf)@ == old(buf)@ + spec_datagram_ids_bytes(d@),
{
    let ghost start = buf@;
    let ghost h = d@;
    let ghost q2 = spec_varint_encode(h.track_alias) + spec_varint_encode(h.group_id);
    let ghost q3 = q2 + spec_datagram_object_id_bytes(h);
    d.track_alias.encode(buf);
    d.group_id.encode(buf);
    assert(buf@ =~= start + q2);
    if d.has_object_id() {
        d.object_id.encode(buf);
    }
    assert(buf@ =~= start + q3);
    if !d.has_default_priority() {
        let p = match d.publisher_priority {
            Some(p) => p,
            None => DEFAULT_PUBLISHER_PRIORITY,
        };
        buf.push(p);
    }
    assert(buf@ =~= start + spec_datagram_ids_bytes(h));
}

fn encode_datagram_tail(d: &DatagramHeader, buf: &mut Vec<u8>)
    requires
        d.extension_headers@.len() < VARINT_BOUND,
    ensures
        final(buf)@ == old(buf)@ + spec_datagram_tail_bytes(d@),
{
    let ghost start = buf@;
    let ghost h = d@;
    encode_extensions(d.has_extensions(), &d.extension_headers, buf);
    let ghost a3 = buf@;
    if d.is_status() {
        let status = resolved_status(d.object_status, 0);
        match VarInt::from_u64(status.as_u64()) {
            Ok(code) => code.encode(buf),
            Err(_) => {},
        }
    }
    assert(buf@ =~= a3 + spec_datagram_status_bytes(h));
    assert(buf@ =~= start + spec_datagram_tail_bytes(h));
}

/// What decoding a datagram header gives back for `h`: the Object ID only
/// under a type that carries it, the priority only under a type that
/// carries it, and a status only under the status bit, Normal when unset.
pub open spec fn spec_datagram_as_read(h: DatagramHeaderView) -> DatagramHeaderView {
    DatagramHeaderView {
        object_id: if h.datagram_type & 0x04 == 0 {
            h.object_id
        } else {
            0
        },
        publisher_priority: if h.datagram_type & 0x08 == 0 {
            Some(
                match h.publisher_priority {
                    Some(p) => p,
                    None => 128u8,
                },
            )
        } else {
            None
        },
        extension_headers: if h.datagram_type & 0x01 != 0 {
            h.extension_headers
        } else {
            Seq::empty()
        },
        object_status: spec_effective_status(h),
        ..h
    }
}

/// A datagram header [`DatagramHeader::encode_checked`] accepts is decoded
/// from the bytes it writes, whatever follows them; an extension block held
/// without its bit is not written and reads back empty.
pub proof fn lemma_datagram_header_roundtrip(h: DatagramHeaderView, rest: Seq<u8>)
    requires
        spec_datagram_refusal(h) is None,
        h.track_alias < VARINT_BOUND,
        h.group_id < VARINT_BOUND,
        h.object_id < VARINT_BOUND,
        h.extension_headers.len() < VARINT_BOUND,
    ensures
        spec_decode_datagram_header(spec_encode_datagram_header(h) + rest) == Ok::<
            (DatagramHeaderView, int),
            CodecError,
        >((spec_datagram_as_read(h), spec_encode_datagram_header(h).len() as int)),
{
    let t = h.datagram_type;
    let e1 = spec_varint_encode(t as u64);
    let ids = spec_datagram_ids_bytes(h);
    let a2 = e1 + ids;
    let e = spec_encode_datagram_header(h);
    let s = e + rest;
    lemma_prefix_of_add(e, rest);
    lemma_prefix_of_add(a2, spec_datagram_tail_bytes(h));
    lemma_prefix_trans(a2, e, s);
    assert(t & 0xD0 == 0 ==> t < 0x40) by (bit_vector);
    lemma_varint_encode_small(t as u64);
    assert(e1 =~= seq![t]);
    lemma_prefix_of_add(e1, ids);
    lemma_prefix_trans(e1, a2, s);
    assert(s[0] == t);
    lemma_datagram_ids_read(h, e1, s);
    lemma_datagram_tail_read(h, a2, s);
}

/// The identifying fields of a datagram header are read back as written.
proof fn lemma_datagram_ids_read(h: DatagramHeaderView, pre: Seq<u8>, s: Seq<u8>)
    requires
        h.track_alias < VARINT_BOUND,
        h.group_id < VARINT_BOUND,
        h.object_id < VARINT_BOUND,
        spec_is_prefix(pre + spec_datagram_ids_bytes(h), s),
    ensures
        spec_datagram_ids_at(h.datagram_type, s, pre.len() as int) == Ok::<
            (u64, u64, u64, Option<u8>, int),
            CodecError,
        >(
            (
                h.track_alias,
                h.group_id,
                spec_datagram_as_read(h).object_id,
                spec_datagram_as_read(h).publisher_priority,
                (pre + spec_datagram_ids_bytes(h)).len() as int,
            ),
        ),
{
    let t = h.datagram_type;
    let prio = match h.publisher_priority {
        Some(p) => p,
        None => 128u8,
    };
    let b1 = pre + spec_varint_encode(h.track_alias);
    let b2 = b1 + spec_varint_encode(h.group_id);
    let b3 = b2 + spec_datagram_object_id_bytes(h);
    let b4 = b3 + spec_datagram_priority_bytes(h);
    assert(b4 =~= pre + spec_datagram_ids_bytes(h));
    lemma_prefix_of_add(b3, spec_datagram_priority_bytes(h));
    lemma_prefix_trans(b3, b4, s);
    lemma_prefix_of_add(b2, spec_datagram_object_id_bytes(h));
    lemma_prefix_trans(b2, b3, s);
    lemma_prefix_of_add(b1, spec_varint_encode(h.group_id));
    lemma_prefix_trans(b1, b2, s);
    lemma_varint_encoded(pre, h.track_alias);
    lemma_varint_at_prefix(b1, s, pre.len() as int);
    lemma_varint_encoded(b1, h.group_id);
    lemma_varint_at_prefix(b2, s, b1.len() as int);
    if t & 0x04 == 0 {
        lemma_varint_encoded(b2, h.object_id);
        lemma_varint_at_prefix(b3, s, b2.len() as int);
    } else {
        assert(b3 =~= b2);
    }
    if t & 0x08 == 0 {
        lemma_u8_encoded(b3, prio);
        lemma_u8_at_prefix(b4, s, b3.len() as int);
    } else {
        assert(b4 =~= b3);
    }
}

/// The extension block and status of a datagram header are read back as
/// written, the status as reading resolves it.
proof fn lemma_datagram_tail_read(h: DatagramHeaderView, pre: Seq<u8>, s: Seq<u8>)
    requires
        h.datagram_type & 0x01 != 0 ==> h.extension_headers.len() != 0,
        h.extension_headers.len() < VARINT_BOUND,
        spec_is_prefix(pre + spec_datagram_tail_bytes(h), s),
    ensures
        spec_datagram_tail_at(h.datagram_type, s, pre.len() as int) == Ok::<
            (Seq<u8>, Option<ObjectStatus>, int),
            CodecError,
        >(
            (
                spec_datagram_as_read(h).extension_headers,
                spec_datagram_as_read(h).object_status,
                (pre + spec_datagram_tail_bytes(h)).len() as int,
            ),
        ),
{
    broadcast use ObjectStatus::lemma_from_code_of_code;

    let t = h.datagram_type;
    let ext = t & 0x01 != 0;
    let b1 = pre + spec_encode_extensions(ext, h.extension_headers);
    let b2 = b1 + spec_datagram_status_bytes(h);
    assert(b2 =~= pre + spec_datagram_tail_bytes(h));
    lemma_prefix_of_add(b1, spec_datagram_status_bytes(h));
    lemma_prefix_trans(b1, b2, s);
    if ext {
        let x = h.extension_headers;
        let bl = pre + spec_varint_encode(x.len() as u64);
        assert(b1 =~= bl + x);
        lemma_prefix_of_add(bl, x);
        lemma_prefix_trans(bl, b1, s);
        lemma_varint_encoded(pre, x.len() as u64);
        lemma_varint_at_prefix(bl, s, pre.len() as int);
        lemma_bytes_encoded(bl, x);
        lemma_bytes_at_prefix(b1, s, bl.len() as int, x.len() as u64);
    } else {
        assert(b1 =~= pre);
        assert(spec_datagram_as_read(h).extension_headers =~= Seq::<u8>::empty());
    }
    if t & 0x20 != 0 {
        let code = spec_resolved_status(h.object_status, 0).spec_code();
        lemma_varint_encoded(b1, code);
        lemma_varint_at_prefix(b2, s, b1.len() as int);
    } else {
        assert(b2 =~= b1);
    }
}

// ── Fetch stream headers ───────────────────────────────────

/// Fetch stream header for draft-16: stream type `0x05` and a Request ID.
#[derive(Debug, Clone, Copy, PartialEq, Eq, Structural)]
pub struct FetchHeader {
    pub request_id: VarInt,
}

/// The bytes [`FetchHeader::encode`] writes.
pub open spec fn spec_encode_fetch_header(h: FetchHeader) -> Seq<u8> {
    spec_varint_encode(0x05) + spec_varint_encode(h.request_id@)
}

/// What [`FetchHeader::decode`] reads from the start of `s`.
pub open spec fn spec_decode_fetch_header(s: Seq<u8>) -> Result<(FetchHeader, int), CodecError> {
    match spec_varint_at(s, 0) {
        None => Err(varint_end()),
        Some((t, p1)) => if t != 0x05 {
            Err(spec_stream_type_error(t))
        } else {
            match spec_varint_at(s, p1) {
                None => Err(varint_end()),
                Some((rid, p2)) => Ok((FetchHeader { request_id: VarInt::spec_new(rid) }, p2)),
            }
        },
    }
}

impl FetchHeader {
    pub fn encode(&self, buf: &mut Vec<u8>)
        ensures
            final(buf)@ == old(buf)@ + spec_encode_fetch_header(*self),
    {
        VarInt::from_usize(FETCH_STREAM_TYPE as usize).encode(buf);
        self.request_id.encode(buf);
        assert(buf@ =~= old(buf)@ + spec_encode_fetch_header(*self));
    }

    /// Decode the header. A leading type the stream table does not assign is
    /// `UnknownStreamType`; a subgroup type is `InvalidField`.
    pub fn decode(buf: &[u8]) -> (r: Result<(FetchHeader, usize), CodecError>)
        ensures
            match spec_decode_fetch_header(buf@) {
                Ok((h, n)) => (r matches Ok((x, k)) && x == h && k == n),
                Err(e) => r == Err::<(FetchHeader, usize), CodecError>(e),
            },
    {
        let (stream_type, p1) = read_varint_u64(buf, 0)?;
        if stream_type != FETCH_STREAM_TYPE {
            return Err(stream_type_error(stream_type));
        }
        let (request_id, p2) = read_varint(buf, p1)?;
        Ok((Self { request_id }, p2))
    }
}

/// A fetch header is read back from its own encoding, whatever follows it.
pub proof fn lemma_fetch_header_roundtrip(h: FetchHeader, rest: Seq<u8>)
    requires
        h.request_id@ < VARINT_BOUND,
    ensures
        spec_decode_fetch_header(spec_encode_fetch_header(h) + rest) == Ok::<(FetchHeader, int), CodecError>(
            (h, spec_encode_fetch_header(h).len() as int),
        ),
{
    let e1 = spec_varint_encode(0x05);
    let e2 = spec_varint_encode(h.request_id@);
    let a2 = e1 + e2;
    let s = a2 + rest;
    lemma_prefix_of_add(a2, rest);
    lemma_prefix_of_add(e1, e2);
    lemma_prefix_trans(e1, a2, s);
    lemma_varint_encoded(Seq::empty(), 0x05);
    assert(Seq::<u8>::empty() + e1 =~= e1);
    lemma_varint_at_prefix(e1, s, 0);
    lemma_varint_encoded(e1, h.request_id@);
    lemma_varint_at_prefix(a2, s, e1.len() as int);
}

// ── Fetch objects ──────────────────────────────────────────

/// The two Serialization Flags values at or above 128 that draft-16 gives a
/// meaning of their own (Section 10.4.4, Table 4); any other such value is a
/// protocol violation. Each marks the far end of a span of Objects.
#[derive(Debug, Clone, Copy, PartialEq, Eq, Structural)]
pub enum FetchEndOfRange {
    /// End of Non-Existent Range (`0x8C`).
    NonExistent,
    /// End of Unknown Range (`0x10C`).
    Unknown,
}

/// The marker a Serialization Flags value is, if it is one.
pub open spec fn spec_end_of_range(v: u64) -> Option<FetchEndOfRange> {
    if v == 0x8c {
        Some(FetchEndOfRange::NonExistent)
    } else if v == 0x10c {
        Some(FetchEndOfRange::Unknown)
    } else {
        None
    }
}

impl FetchEndOfRange {

    /// Every value, in registry order.
    pub fn all() -> (r: Vec<FetchEndOfRange>)
        ensures
            r@ == seq![FetchEndOfRange::NonExistent, FetchEndOfRange::Unknown],
    {
        let mut v: Vec<FetchEndOfRange> = Vec::new();
        v.push(FetchEndOfRange::NonExistent);
        v.push(FetchEndOfRange::Unknown);
        assert(v@ =~= seq![FetchEndOfRange::NonExistent, FetchEndOfRange::Unknown]);
        v
    }
    /// The wire value of a marker.
    pub open spec fn spec_value(self) -> u64 {
        match self {
            FetchEndOfRange::NonExistent => 0x8c,
            FetchEndOfRange::Unknown => 0x10c,
        }
    }

    /// The Table 4 meaning of `v`, or `None` for a flag word (below 128) or a
    /// large value the table leaves unassigned.
    pub fn from_u64(v: u64) -> (r: Option<Self>)
        ensures
            r == spec_end_of_range(v),
    {
        if v == 0x8c {
            Some(FetchEndOfRange::NonExistent)
        } else if v == 0x10c {
            Some(FetchEndOfRange::Unknown)
        } else {
            None
        }
    }

    /// Return the wire value.
    pub fn as_u64(self) -> (r: u64)
        ensures
            r == self.spec_value(),
    {
        match self {
            FetchEndOfRange::NonExistent => 0x8c,
            FetchEndOfRange::Unknown => 0x10c,
        }
    }
}

/// Reading a marker's wire value gives the marker back.
pub proof fn lemma_end_of_range_value(e: FetchEndOfRange)
    ensures
        spec_end_of_range(e.spec_value()) == Some(e),
{
}

/// How an Object on a draft-16 fetch stream states its Subgroup ID: the two
/// low bits of the Serialization Flags (Section 10.4.4.1, Table 5).
#[derive(Debug, Clone, Copy, PartialEq, Eq, Structural)]
pub enum FetchSubgroupMode {
    /// `0x00`: the Subgroup ID is zero.
    Zero,
    /// `0x01`: the Subgroup ID is the prior Object's.
    SameAsPrior,
    /// `0x02`: the Subgroup ID is the prior Object's plus one.
    PriorPlusOne,
    /// `0x03`: the Subgroup ID field is on the wire.
    Present,
}

/// Whether a Serialization Flags value is one draft-16 can frame: a flag
/// word below 128, or a Table 4 marker.
pub open spec fn spec_fetch_flags_assigned(f: u64) -> bool {
    f < 128 || spec_end_of_range(f) is Some
}

/// Bit `0x40` of a flag word: the Object is forwarded as a Datagram and has
/// no Subgroup ID. Never set for a marker.
pub open spec fn spec_fetch_is_datagram(f: u64) -> bool {
    spec_end_of_range(f) is None && f & 0x40 != 0
}

/// The Table 5 reading of the two low bits; `Zero` for a marker and for a
/// Datagram-forwarded Object, neither of which has a Subgroup ID on the wire.
pub open spec fn spec_fetch_subgroup_mode(f: u64) -> FetchSubgroupMode {
    if spec_end_of_range(f) is Some || spec_fetch_is_datagram(f) {
        FetchSubgroupMode::Zero
    } else if f & 0x03 == 0 {
        FetchSubgroupMode::Zero
    } else if f & 0x03 == 1 {
        FetchSubgroupMode::SameAsPrior
    } else if f & 0x03 == 2 {
        FetchSubgroupMode::PriorPlusOne
    } else {
        FetchSubgroupMode::Present
    }
}

/// Whether a Group ID field is on the wire: always for a marker.
pub open spec fn spec_fetch_has_group_id(f: u64) -> bool {
    spec_end_of_range(f) is Some || f & 0x08 != 0
}

/// Whether a Subgroup ID field is on the wire.
pub open spec fn spec_fetch_has_subgroup_id(f: u64) -> bool {
    spec_fetch_subgroup_mode(f) == FetchSubgroupMode::Present
}

/// Whether an Object ID field is on the wire: always for a marker.
pub open spec fn spec_fetch_has_object_id(f: u64) -> bool {
    spec_end_of_range(f) is Some || f & 0x04 != 0
}

/// Whether a Publisher Priority byte is on the wire: never for a marker.
pub open spec fn spec_fetch_has_priority(f: u64) -> bool {
    spec_end_of_range(f) is None && f & 0x10 != 0
}

/// Whether an Extensions block is on the wire: never for a marker.
pub open spec fn spec_fetch_has_extensions(f: u64) -> bool {
    spec_end_of_range(f) is None && f & 0x20 != 0
}

/// Whether the flags read any field off the Object before this one; a marker
/// reads none.
pub open spec fn spec_fetch_refs_prior(f: u64) -> bool {
    spec_end_of_range(f) is None && (!spec_fetch_has_group_id(f) || !spec_fetch_has_object_id(f)
        || !spec_fetch_has_priority(f) || spec_fetch_subgroup_mode(f)
        == FetchSubgroupMode::SameAsPrior || spec_fetch_subgroup_mode(f)
        == FetchSubgroupMode::PriorPlusOne)
}

/// One Object as it is framed on a draft-16 fetch stream, before any field
/// is resolved against the Object before it. Every optional field is `Some`
/// exactly when its bytes are on the wire, so an object re-encodes to the
/// bytes it was decoded from; the payload follows it on the stream.
#[derive(Debug, Clone, PartialEq, Eq)]
pub struct FetchObjectHeader {
    /// Serialization Flags as they appear on the wire: a flag word below 128,
    /// or a [`FetchEndOfRange`] marker.
    pub serialization_flags: VarInt,
    /// Group ID, when the flags put it on the wire.
    pub group_id: Option<VarInt>,
    /// Subgroup ID, present only under [`FetchSubgroupMode::Present`].
    pub subgroup_id: Option<VarInt>,
    /// Object ID, when the flags put it on the wire.
    pub object_id: Option<VarInt>,
    /// Publisher Priority, when the flags put it on the wire.
    pub publisher_priority: Option<u8>,
    /// Raw extension-header bytes, excluding their length prefix; `None`
    /// when the flags carry no extensions block at all.
    pub extensions: Option<Vec<u8>>,
    /// Declared Object Payload Length.
    pub payload_length: VarInt,
}

/// The mathematical value of a [`FetchObjectHeader`].
pub struct FetchObjectHeaderView {
    pub serialization_flags: u64,
    pub group_id: Option<u64>,
    pub subgroup_id: Option<u64>,
    pub object_id: Option<u64>,
    pub publisher_priority: Option<u8>,
    pub extensions: Option<Seq<u8>>,
    pub payload_length: u64,
}

/// The value of an optional integer field.
pub open spec fn spec_opt_value(v: Option<VarInt>) -> Option<u64> {
    match v {
        Some(x) => Some(x@),
        None => None,
    }
}

impl View for FetchObjectHeader {
    type V = FetchObjectHeaderView;

    open spec fn view(&self) -> FetchObjectHeaderView {
        FetchObjectHeaderView {
            serialization_flags: self.serialization_flags@,
            group_id: spec_opt_value(self.group_id),
            subgroup_id: spec_opt_value(self.subgroup_id),
            object_id: spec_opt_value(self.object_id),
            publisher_priority: self.publisher_priority,
            extensions: match self.extensions {
                Some(x) => Some(x@),
                None => None,
            },
            payload_length: self.payload_length@,
        }
    }
}

/// Whether a header agrees with its own Serialization Flags: the flags are
/// assigned, and each field is present exactly when the flags say so.
pub open spec fn spec_fetch_shape_ok(h: FetchObjectHeaderView) -> bool {
    let f = h.serialization_flags;
    &&& spec_fetch_flags_assigned(f)
    &&& (h.group_id is Some) == spec_fetch_has_group_id(f)
    &&& (h.subgroup_id is Some) == spec_fetch_has_subgroup_id(f)
    &&& (h.object_id is Some) == spec_fetch_has_object_id(f)
    &&& (h.publisher_priority is Some) == spec_fetch_has_priority(f)
    &&& (h.extensions is Some) == spec_fetch_has_extensions(f)
}

/// An optional integer field's bytes.
pub open spec fn spec_opt_varint_bytes(v: Option<u64>) -> Seq<u8> {
    match v {
        Some(x) => spec_varint_encode(x),
        None => Seq::empty(),
    }
}

/// An optional priority byte.
pub open spec fn spec_opt_u8_bytes(v: Option<u8>) -> Seq<u8> {
    match v {
        Some(b) => seq![b],
        None => Seq::empty(),
    }
}

/// An optional extensions block: its length, then its bytes.
pub open spec fn spec_opt_extensions_bytes(x: Option<Seq<u8>>) -> Seq<u8> {
    match x {
        Some(b) => spec_encode_extensions(true, b),
        None => Seq::empty(),
    }
}

/// The flags and identifying fields of a fetch object as written.
pub open spec fn spec_fetch_head_bytes(h: FetchObjectHeaderView) -> Seq<u8> {
    spec_varint_encode(h.serialization_flags) + spec_opt_varint_bytes(h.group_id)
        + spec_opt_varint_bytes(h.subgroup_id) + spec_opt_varint_bytes(h.object_id)
}

/// The bytes [`FetchObjectHeader::encode`] writes for a header it accepts.
pub open spec fn spec_encode_fetch_object_header(h: FetchObjectHeaderView) -> Seq<u8> {
    spec_fetch_head_bytes(h) + spec_fetch_tail_bytes(h)
}

/// The priority, extensions and payload length of a fetch object as written.
pub open spec fn spec_fetch_tail_bytes(h: FetchObjectHeaderView) -> Seq<u8> {
    spec_opt_u8_bytes(h.publisher_priority) + spec_opt_extensions_bytes(h.extensions)
        + spec_varint_encode(h.payload_length)
}

/// An integer field at `p` when `present`.
pub open spec fn spec_opt_field_at(s: Seq<u8>, p: int, present: bool) -> Result<(Option<u64>, int), CodecError> {
    if present {
        match spec_varint_at(s, p) {
            None => Err(varint_end()),
            Some((v, q)) => Ok((Some(v), q)),
        }
    } else {
        Ok((None, p))
    }
}

/// The Group, Subgroup and Object ID fields a flags value announces, read at
/// `p`.
pub open spec fn spec_fetch_ids_at(f: u64, s: Seq<u8>, p: int) -> Result<
    (Option<u64>, Option<u64>, Option<u64>, int),
    CodecError,
> {
    match spec_opt_field_at(s, p, spec_fetch_has_group_id(f)) {
        Err(e) => Err(e),
        Ok((g, p1)) => match spec_opt_field_at(s, p1, spec_fetch_has_subgroup_id(f)) {
            Err(e) => Err(e),
            Ok((sg, p2)) => match spec_opt_field_at(s, p2, spec_fetch_has_object_id(f)) {
                Err(e) => Err(e),
                Ok((o, p3)) => Ok((g, sg, o, p3)),
            },
        },
    }
}

/// The priority, extensions and payload length a flags value announces, read
/// at `p`.
pub open spec fn spec_fetch_tail_at(f: u64, s: Seq<u8>, p: int) -> Result<
    (Option<u8>, Option<Seq<u8>>, u64, int),
    CodecError,
> {
    match spec_opt_u8_at(s, p, spec_fetch_has_priority(f)) {
        None => Err(CodecError::UnexpectedEnd),
        Some((prio, p4)) => match (if spec_fetch_has_extensions(f) {
            match spec_read_extensions(true, s, p4) {
                Err(e) => Err(e),
                Ok((x, q)) => Ok((Some(x), q)),
            }
        } else {
            Ok((None, p4))
        }) {
            Err(e) => Err(e),
            Ok((x, p5)) => match spec_varint_at(s, p5) {
                None => Err(varint_end()),
                Some((len, p6)) => Ok((prio, x, len, p6)),
            },
        },
    }
}

/// What [`FetchObjectHeader::decode`] reads from the start of `s`.
pub open spec fn spec_decode_fetch_object_header(s: Seq<u8>) -> Result<(FetchObjectHeaderView, int), CodecError> {
    match spec_varint_at(s, 0) {
        None => Err(varint_end()),
        Some((f, p0)) => if !spec_fetch_flags_assigned(f) {
            Err(CodecError::InvalidField)
        } else {
            match spec_fetch_ids_at(f, s, p0) {
                Err(e) => Err(e),
                Ok((g, sg, o, p3)) => match spec_fetch_tail_at(f, s, p3) {
                    Err(e) => Err(e),
                    Ok((prio, x, len, p6)) => Ok(
                        (
                            FetchObjectHeaderView {
                                serialization_flags: f,
                                group_id: g,
                                subgroup_id: sg,
                                object_id: o,
                                publisher_priority: prio,
                                extensions: x,
                                payload_length: len,
                            },
                            p6,
                        ),
                    ),
                },
            }
        },
    }
}

fn read_opt_field(buf: &[u8], pos: usize, present: bool) -> (r: Result<(Option<VarInt>, usize), CodecError>)
    ensures
        match spec_opt_field_at(buf@, pos as int, present) {
            Ok((v, q)) => (r matches Ok((x, n)) && spec_opt_value(x) == v && n == q),
            Err(e) => r == Err::<(Option<VarInt>, usize), CodecError>(e),
        },
{
    if present {
        let (v, q) = read_varint(buf, pos)?;
        Ok((Some(v), q))
    } else {
        Ok((None, pos))
    }
}

fn write_opt_field(v: Option<VarInt>, buf: &mut Vec<u8>)
    ensures
        final(buf)@ == old(buf)@ + spec_opt_varint_bytes(spec_opt_value(v)),
{
    match v {
        Some(x) => x.encode(buf),
        None => {
            assert(buf@ =~= old(buf)@ + spec_opt_varint_bytes(spec_opt_value(v)));
        },
    }
}

fn encode_fetch_head(h: &FetchObjectHeader, buf: &mut Vec<u8>)
    ensures
        final(buf)@ == old(buf)@ + spec_fetch_head_bytes(h@),
{
    let ghost start = buf@;
    let ghost v = h@;
    h.serialization_flags.encode(buf);
    let ghost a1 = buf@;
    write_opt_field(h.group_id, buf);
    let ghost a2 = buf@;
    write_opt_field(h.subgroup_id, buf);
    let ghost a3 = buf@;
    write_opt_field(h.object_id, buf);
    assert(buf@ =~= start + spec_fetch_head_bytes(v));
}

fn encode_fetch_tail(h: &FetchObjectHeader, buf: &mut Vec<u8>)
    requires
        h.extensions matches Some(x) ==> x@.len() < VARINT_BOUND,
    ensures
        final(buf)@ == old(buf)@ + spec_fetch_tail_bytes(h@),
{
    let ghost start = buf@;
    let ghost v = h@;
    match h.publisher_priority {
        Some(p) => buf.push(p),
        None => {},
    }
    assert(buf@ =~= start + spec_opt_u8_bytes(v.publisher_priority));
    let ghost a5 = buf@;
    match &h.extensions {
        Some(x) => encode_extensions(true, x, buf),
        None => {},
    }
    assert(buf@ =~= a5 + spec_opt_extensions_bytes(v.extensions));
    let ghost a6 = buf@;
    h.payload_length.encode(buf);
    assert(buf@ =~= start + spec_fetch_tail_bytes(v));
}

impl FetchObjectHeader {
    /// Serialization Flags as a plain integer.
    fn flags(&self) -> (r: u64)
        ensures
            r == self.serialization_flags@,
    {
        self.serialization_flags.into_inner()
    }

    /// The Table 4 marker this object is, or `None` for a flag word.
    pub fn end_of_range(&self) -> (r: Option<FetchEndOfRange>)
        ensures
            r == spec_end_of_range(self.serialization_flags@),
    {
        FetchEndOfRange::from_u64(self.flags())
    }

    /// Bit `0x40`: the Object's Forwarding Preference is Datagram, so it has
    /// no Subgroup ID and the two low bits are ignored.
    pub fn is_datagram(&self) -> (r: bool)
        ensures
            r == spec_fetch_is_datagram(self.serialization_flags@),
    {
        self.end_of_range().is_none() && self.flags() & 0x40 != 0
    }

    /// The Table 5 reading of the two low bits.
    pub fn subgroup_mode(&self) -> (r: FetchSubgroupMode)
        ensures
            r == spec_fetch_subgroup_mode(self.serialization_flags@),
    {
        if self.end_of_range().is_some() || self.is_datagram() {
            return FetchSubgroupMode::Zero;
        }
        let bits = self.flags() & 0x03;
        if bits == 0 {
            FetchSubgroupMode::Zero
        } else if bits == 1 {
            FetchSubgroupMode::SameAsPrior
        } else if bits == 2 {
            FetchSubgroupMode::PriorPlusOne
        } else {
            FetchSubgroupMode::Present
        }
    }

    /// Whether a Group ID field is on the wire (bit `0x08`, or a marker).
    pub fn has_group_id(&self) -> (r: bool)
        ensures
            r == spec_fetch_has_group_id(self.serialization_flags@),
    {
        self.end_of_range().is_some() || self.flags() & 0x08 != 0
    }

    /// Whether a Subgroup ID field is on the wire.
    pub fn has_subgroup_id(&self) -> (r: bool)
        ensures
            r == spec_fetch_has_subgroup_id(self.serialization_flags@),
    {
        self.subgroup_mode() == FetchSubgroupMode::Present
    }

    /// Whether an Object ID field is on the wire (bit `0x04`, or a marker).
    pub fn has_object_id(&self) -> (r: bool)
        ensures
            r == spec_fetch_has_object_id(self.serialization_flags@),
    {
        self.end_of_range().is_some() || self.flags() & 0x04 != 0
    }

    /// Whether a Publisher Priority byte is on the wire (bit `0x10`).
    pub fn has_priority(&self) -> (r: bool)
        ensures
            r == spec_fetch_has_priority(self.serialization_flags@),
    {
        self.end_of_range().is_none() && self.flags() & 0x10 != 0
    }

    /// Whether an Extensions block is on the wire (bit `0x20`).
    pub fn has_extensions(&self) -> (r: bool)
        ensures
            r == spec_fetch_has_extensions(self.serialization_flags@),
    {
        self.end_of_range().is_none() && self.flags() & 0x20 != 0
    }

    /// Whether these flags read any field off the Object before this one; the
    /// first Object of a stream may not (Section 10.4.4.1).
    pub fn references_prior_object(&self) -> (r: bool)
        ensures
            r == spec_fetch_refs_prior(self.serialization_flags@),
    {
        if self.end_of_range().is_some() {
            return false;
        }
        let mode = self.subgroup_mode();
        !self.has_group_id() || !self.has_object_id() || !self.has_priority() || mode
            == FetchSubgroupMode::SameAsPrior || mode == FetchSubgroupMode::PriorPlusOne
    }

    /// Encode the object's framing, refusing as `InvalidField`, before a byte
    /// is written, flags Table 4 does not assign at or above 128 and a field
    /// whose presence disagrees with the flags. The payload is not written.
    pub fn encode(&self, buf: &mut Vec<u8>) -> (r: Result<(), CodecError>)
        requires
            self.extensions matches Some(x) ==> x@.len() < VARINT_BOUND,
        ensures
            if spec_fetch_shape_ok(self@) {
                r == Ok::<(), CodecError>(()) && final(buf)@ == old(buf)@
                    + spec_encode_fetch_object_header(self@)
            } else {
                r == Err::<(), CodecError>(CodecError::InvalidField) && final(buf)@ == old(buf)@
            },
    {
        let flags = self.flags();
        if flags >= 128 && FetchEndOfRange::from_u64(flags).is_none() {
            return Err(CodecError::InvalidField);
        }
        if self.group_id.is_some() != self.has_group_id() || self.subgroup_id.is_some()
            != self.has_subgroup_id() || self.object_id.is_some() != self.has_object_id()
            || self.publisher_priority.is_some() != self.has_priority() || self.extensions.is_some()
            != self.has_extensions() {
            return Err(CodecError::InvalidField);
        }
        let ghost start = buf@;
        encode_fetch_head(self, buf);
        let ghost mid = buf@;
        encode_fetch_tail(self, buf);
        assert(buf@ =~= start + spec_encode_fetch_object_header(self@));
        Ok(())
    }

    /// Decode one object's framing from the start of `buf`, with the number
    /// of bytes it occupies; the payload follows. Flags at or above 128 that
    /// Table 4 does not assign are `InvalidField`.
    pub fn decode(buf: &[u8]) -> (r: Result<(FetchObjectHeader, usize), CodecError>)
        ensures
            match spec_decode_fetch_object_header(buf@) {
                Ok((h, n)) => (r matches Ok((x, k)) && x@ == h && k == n),
                Err(e) => r == Err::<(FetchObjectHeader, usize), CodecError>(e),
            },
    {
        let (serialization_flags, p0) = read_varint(buf, 0)?;
        let flags = serialization_flags.into_inner();
        if flags >= 128 && FetchEndOfRange::from_u64(flags).is_none() {
            return Err(CodecError::InvalidField);
        }
        let probe = FetchObjectHeader {
            serialization_flags,
            group_id: None,
            subgroup_id: None,
            object_id: None,
            publisher_priority: None,
            extensions: None,
            payload_length: VarInt::from_usize(0),
        };
        let (group_id, p1) = read_opt_field(buf, p0, probe.has_group_id())?;
        let (subgroup_id, p2) = read_opt_field(buf, p1, probe.has_subgroup_id())?;
        let (object_id, p3) = read_opt_field(buf, p2, probe.has_object_id())?;
        let (publisher_priority, p4) = read_opt_u8(buf, p3, probe.has_priority())?;
        let (extensions, p5) = if probe.has_extensions() {
            let (x, q) = read_extensions(true, buf, p4)?;
            (Some(x), q)
        } else {
            (None, p4)
        };
        let (payload_length, p6) = read_varint(buf, p5)?;
        Ok(
            (
                FetchObjectHeader {
                    serialization_flags,
                    group_id,
                    subgroup_id,
                    object_id,
                    publisher_priority,
                    extensions,
                    payload_length,
                },
                p6,
            ),
        )
    }
}

/// An optional integer field is read back as written.
proof fn lemma_opt_field_read(v: Option<u64>, pre: Seq<u8>, s: Seq<u8>)
    requires
        v matches Some(x) ==> x < VARINT_BOUND,
        spec_is_prefix(pre + spec_opt_varint_bytes(v), s),
    ensures
        spec_opt_field_at(s, pre.len() as int, v is Some) == Ok::<(Option<u64>, int), CodecError>(
            (v, (pre + spec_opt_varint_bytes(v)).len() as int),
        ),
{
    match v {
        Some(x) => {
            lemma_varint_encoded(pre, x);
            lemma_varint_at_prefix(pre + spec_opt_varint_bytes(v), s, pre.len() as int);
        },
        None => {
            assert(pre + spec_opt_varint_bytes(v) =~= pre);
        },
    }
}

/// The flags and identifying fields of a header that agrees with its flags
/// are read back as written.
proof fn lemma_fetch_head_read(h: FetchObjectHeaderView, s: Seq<u8>)
    requires
        spec_fetch_shape_ok(h),
        h.serialization_flags < VARINT_BOUND,
        h.group_id matches Some(x) ==> x < VARINT_BOUND,
        h.subgroup_id matches Some(x) ==> x < VARINT_BOUND,
        h.object_id matches Some(x) ==> x < VARINT_BOUND,
        spec_is_prefix(spec_fetch_head_bytes(h), s),
    ensures
        spec_varint_at(s, 0) == Some(
            (h.serialization_flags, spec_varint_encode(h.serialization_flags).len() as int),
        ),
        spec_fetch_ids_at(
            h.serialization_flags,
            s,
            spec_varint_encode(h.serialization_flags).len() as int,
        ) == Ok::<(Option<u64>, Option<u64>, Option<u64>, int), CodecError>(
            (h.group_id, h.subgroup_id, h.object_id, spec_fetch_head_bytes(h).len() as int),
        ),
{
    let a1 = spec_varint_encode(h.serialization_flags);
    let a2 = a1 + spec_opt_varint_bytes(h.group_id);
    let a3 = a2 + spec_opt_varint_bytes(h.subgroup_id);
    let a4 = a3 + spec_opt_varint_bytes(h.object_id);
    lemma_prefix_of_add(a3, spec_opt_varint_bytes(h.object_id));
    lemma_prefix_trans(a3, a4, s);
    lemma_prefix_of_add(a2, spec_opt_varint_bytes(h.subgroup_id));
    lemma_prefix_trans(a2, a3, s);
    lemma_prefix_of_add(a1, spec_opt_varint_bytes(h.group_id));
    lemma_prefix_trans(a1, a2, s);
    lemma_varint_encoded(Seq::empty(), h.serialization_flags);
    assert(Seq::<u8>::empty() + a1 =~= a1);
    lemma_varint_at_prefix(a1, s, 0);
    lemma_opt_field_read(h.group_id, a1, s);
    lemma_opt_field_read(h.subgroup_id, a2, s);
    lemma_opt_field_read(h.object_id, a3, s);
}

/// The priority, extensions and payload length of a header that agrees with
/// its flags are read back as written.
proof fn lemma_fetch_tail_read(h: FetchObjectHeaderView, pre: Seq<u8>, s: Seq<u8>)
    requires
        spec_fetch_shape_ok(h),
        h.extensions matches Some(x) ==> x.len() < VARINT_BOUND,
        h.payload_length < VARINT_BOUND,
        spec_is_prefix(pre + spec_fetch_tail_bytes(h), s),
    ensures
        spec_fetch_tail_at(h.serialization_flags, s, pre.len() as int) == Ok::<
            (Option<u8>, Option<Seq<u8>>, u64, int),
            CodecError,
        >(
            (
                h.publisher_priority,
                h.extensions,
                h.payload_length,
                (pre + spec_fetch_tail_bytes(h)).len() as int,
            ),
        ),
{
    let b1 = pre + spec_opt_u8_bytes(h.publisher_priority);
    let b2 = b1 + spec_opt_extensions_bytes(h.extensions);
    let b3 = b2 + spec_varint_encode(h.payload_length);
    assert(b3 =~= pre + spec_fetch_tail_bytes(h));
    lemma_prefix_of_add(b2, spec_varint_encode(h.payload_length));
    lemma_prefix_trans(b2, b3, s);
    lemma_prefix_of_add(b1, spec_opt_extensions_bytes(h.extensions));
    lemma_prefix_trans(b1, b2, s);
    match h.publisher_priority {
        Some(b) => {
            lemma_u8_encoded(pre, b);
            lemma_u8_at_prefix(b1, s, pre.len() as int);
        },
        None => {
            assert(b1 =~= pre);
        },
    }
    match h.extensions {
        Some(x) => {
            lemma_extensions_encoded(true, b1, x);
            lemma_read_extensions_prefix(true, b2, s, b1.len() as int);
        },
        None => {
            assert(b2 =~= b1);
        },
    }
    lemma_varint_encoded(b2, h.payload_length);
    lemma_varint_at_prefix(b3, s, b2.len() as int);
}

/// A fetch object header that agrees with its own flags is decoded from the
/// bytes it encodes to, whatever follows them: the two are exact inverses.
pub proof fn lemma_fetch_object_header_roundtrip(h: FetchObjectHeaderView, rest: Seq<u8>)
    requires
        spec_fetch_shape_ok(h),
        h.serialization_flags < VARINT_BOUND,
        h.group_id matches Some(x) ==> x < VARINT_BOUND,
        h.subgroup_id matches Some(x) ==> x < VARINT_BOUND,
        h.object_id matches Some(x) ==> x < VARINT_BOUND,
        h.extensions matches Some(x) ==> x.len() < VARINT_BOUND,
        h.payload_length < VARINT_BOUND,
    ensures
        spec_decode_fetch_object_header(spec_encode_fetch_object_header(h) + rest) == Ok::<
            (FetchObjectHeaderView, int),
            CodecError,
        >((h, spec_encode_fetch_object_header(h).len() as int)),
{
    let head = spec_fetch_head_bytes(h);
    let e = spec_encode_fetch_object_header(h);
    let s = e + rest;
    lemma_prefix_of_add(e, rest);
    lemma_prefix_of_add(head, spec_fetch_tail_bytes(h));
    lemma_prefix_trans(head, e, s);
    lemma_fetch_head_read(h, s);
    lemma_fetch_tail_read(h, head, s);
}

// ── Resolving fetch objects ────────────────────────────────

/// One fetch object's Location and priority, every field its flags left off
/// the wire filled in from the object before it.
#[derive(Debug, Clone, Copy, PartialEq, Eq, Structural)]
pub struct FetchObjectLocation {
    /// Resolved absolute Group ID.
    pub group_id: u64,
    /// Resolved absolute Subgroup ID; `None` for a Datagram-forwarded object.
    pub subgroup_id: Option<u64>,
    /// Resolved absolute Object ID.
    pub object_id: u64,
    /// The Publisher Priority in force; `None` when no object on the stream
    /// so far has stated one.
    pub publisher_priority: Option<u8>,
    /// The Table 4 marker this object is, or `None` for an ordinary object.
    pub end_of_range: Option<FetchEndOfRange>,
}

/// What a fetch stream's reader or writer holds of the objects before the
/// next one: the last Group ID, Subgroup ID (none after a Datagram-forwarded
/// object) and Object ID, and the priority in force.
#[derive(Debug, Clone, Copy, PartialEq, Eq, Structural)]
pub struct FetchRunningState {
    pub group_id: Option<u64>,
    pub subgroup_id: Option<u64>,
    pub object_id: Option<u64>,
    pub publisher_priority: Option<u8>,
}

/// A value one past an inherited one, refused as `InvalidField` where it is
/// not a varint.
pub open spec fn spec_next_inherited(p: u64) -> Result<u64, CodecError> {
    if p + 1 < VARINT_BOUND {
        Ok((p + 1) as u64)
    } else {
        Err(CodecError::InvalidField)
    }
}

/// The Group ID an object resolves to after `st`.
pub open spec fn spec_resolve_group(st: FetchRunningState, h: FetchObjectHeaderView) -> Result<u64, CodecError> {
    match h.group_id {
        Some(v) => Ok(v),
        None => match st.group_id {
            Some(g) => Ok(g),
            None => Err(CodecError::InvalidField),
        },
    }
}

/// The Subgroup ID an object resolves to after `st`.
pub open spec fn spec_resolve_subgroup(st: FetchRunningState, h: FetchObjectHeaderView) -> Result<
    Option<u64>,
    CodecError,
> {
    if spec_fetch_is_datagram(h.serialization_flags) {
        Ok(None)
    } else {
        match spec_fetch_subgroup_mode(h.serialization_flags) {
            FetchSubgroupMode::Zero => Ok(Some(0)),
            FetchSubgroupMode::SameAsPrior => match st.subgroup_id {
                Some(p) => Ok(Some(p)),
                None => Err(CodecError::InvalidField),
            },
            FetchSubgroupMode::PriorPlusOne => match st.subgroup_id {
                Some(p) => match spec_next_inherited(p) {
                    Ok(v) => Ok(Some(v)),
                    Err(e) => Err(e),
                },
                None => Err(CodecError::InvalidField),
            },
            FetchSubgroupMode::Present => match h.subgroup_id {
                Some(v) => Ok(Some(v)),
                None => Err(CodecError::InvalidField),
            },
        }
    }
}

/// The Object ID an object resolves to after `st`.
pub open spec fn spec_resolve_object(st: FetchRunningState, h: FetchObjectHeaderView) -> Result<u64, CodecError> {
    match h.object_id {
        Some(v) => Ok(v),
        None => match st.object_id {
            Some(p) => spec_next_inherited(p),
            None => Err(CodecError::InvalidField),
        },
    }
}

/// The priority in force after an object: its own when it states one, else
/// the running one.
pub open spec fn spec_resolve_priority(st: FetchRunningState, h: FetchObjectHeaderView) -> Option<u8> {
    match h.publisher_priority {
        Some(p) => Some(p),
        None => st.publisher_priority,
    }
}

/// What resolving `h` after `st` gives: its Location, and the running state
/// the next object is resolved against.
pub open spec fn spec_resolve(st: FetchRunningState, h: FetchObjectHeaderView) -> Result<
    (FetchObjectLocation, FetchRunningState),
    CodecError,
> {
    match spec_resolve_group(st, h) {
        Err(e) => Err(e),
        Ok(g) => match spec_resolve_subgroup(st, h) {
            Err(e) => Err(e),
            Ok(sg) => match spec_resolve_object(st, h) {
                Err(e) => Err(e),
                Ok(o) => {
                    let prio = spec_resolve_priority(st, h);
                    Ok(
                        (
                            FetchObjectLocation {
                                group_id: g,
                                subgroup_id: sg,
                                object_id: o,
                                publisher_priority: prio,
                                end_of_range: spec_end_of_range(h.serialization_flags),
                            },
                            FetchRunningState {
                                group_id: Some(g),
                                subgroup_id: sg,
                                object_id: Some(o),
                                publisher_priority: prio,
                            },
                        ),
                    )
                },
            },
        },
    }
}

fn next_inherited(p: u64) -> (r: Result<u64, CodecError>)
    ensures
        r == spec_next_inherited(p),
{
    if p >= VARINT_BOUND - 1 {
        return Err(CodecError::InvalidField);
    }
    Ok(p + 1)
}

/// Stateful resolver for the objects on one draft-16 fetch stream: a field
/// on the wire replaces the running value, and a field left off repeats it
/// or steps it by one.
#[derive(Debug, Clone)]
pub struct FetchObjectReader {
    state: FetchRunningState,
}

impl View for FetchObjectReader {
    type V = FetchRunningState;

    closed spec fn view(&self) -> FetchRunningState {
        self.state
    }
}

/// The running state before the first object of a stream.
pub open spec fn spec_fresh_state() -> FetchRunningState {
    FetchRunningState { group_id: None, subgroup_id: None, object_id: None, publisher_priority: None }
}

fn fresh_state() -> (r: FetchRunningState)
    ensures
        r == spec_fresh_state(),
{
    FetchRunningState { group_id: None, subgroup_id: None, object_id: None, publisher_priority: None }
}

impl FetchObjectReader {
    /// A reader positioned before the first object of a fetch stream.
    pub fn new() -> (r: Self)
        ensures
            r@ == spec_fresh_state(),
    {
        FetchObjectReader { state: fresh_state() }
    }

    /// Resolve one object's Location against the object before it and
    /// advance. The first object of a stream leaving out a Group ID or an
    /// Object ID, or naming the prior Subgroup ID, is `InvalidField`, as is
    /// an inherited value one past which is not a varint; an absent priority
    /// is resolved to the running one. On an error the reader is unchanged.
    pub fn resolve(&mut self, header: &FetchObjectHeader) -> (r: Result<FetchObjectLocation, CodecError>)
        ensures
            match spec_resolve(old(self)@, header@) {
                Ok((loc, st)) => r == Ok::<FetchObjectLocation, CodecError>(loc) && final(self)@
                    == st,
                Err(e) => r == Err::<FetchObjectLocation, CodecError>(e) && final(self)@ == old(
                    self,
                )@,
            },
    {
        let group_id = match header.group_id {
            Some(v) => v.into_inner(),
            None => match self.state.group_id {
                Some(g) => g,
                None => return Err(CodecError::InvalidField),
            },
        };
        let subgroup_id = if header.is_datagram() {
            None
        } else {
            match header.subgroup_mode() {
                FetchSubgroupMode::Zero => Some(0),
                FetchSubgroupMode::SameAsPrior => match self.state.subgroup_id {
                    Some(p) => Some(p),
                    None => return Err(CodecError::InvalidField),
                },
                FetchSubgroupMode::PriorPlusOne => match self.state.subgroup_id {
                    Some(p) => Some(next_inherited(p)?),
                    None => return Err(CodecError::InvalidField),
                },
                FetchSubgroupMode::Present => match header.subgroup_id {
                    Some(v) => Some(v.into_inner()),
                    None => return Err(CodecError::InvalidField),
                },
            }
        };
        let object_id = match header.object_id {
            Some(v) => v.into_inner(),
            None => match self.state.object_id {
                Some(p) => next_inherited(p)?,
                None => return Err(CodecError::InvalidField),
            },
        };
        let publisher_priority = match header.publisher_priority {
            Some(p) => Some(p),
            None => self.state.publisher_priority,
        };
        self.state = FetchRunningState {
            group_id: Some(group_id),
            subgroup_id,
            object_id: Some(object_id),
            publisher_priority,
        };
        Ok(
            FetchObjectLocation {
                group_id,
                subgroup_id,
                object_id,
                publisher_priority,
                end_of_range: header.end_of_range(),
            },
        )
    }
}

// ── Re-encoding fetch objects ──────────────────────────────

/// The bits a Subgroup ID mode occupies.
pub open spec fn spec_mode_bits(m: FetchSubgroupMode) -> u64 {
    match m {
        FetchSubgroupMode::Zero => 0,
        FetchSubgroupMode::SameAsPrior => 1,
        FetchSubgroupMode::PriorPlusOne => 2,
        FetchSubgroupMode::Present => 3,
    }
}

/// The Subgroup ID mode bits and explicit field a writer chooses for `o` at
/// `loc` after `st`: a Datagram-forwarded object keeps its own bits and has
/// no field; otherwise the object's own mode where it still names the right
/// number, else the cheapest that does. An ordinary object without a
/// Subgroup ID is `InvalidField`.
pub open spec fn spec_subgroup_field(
    st: FetchRunningState,
    o: FetchObjectHeaderView,
    loc: FetchObjectLocation,
) -> Result<(u64, Option<u64>), CodecError> {
    let f = o.serialization_flags;
    if spec_fetch_is_datagram(f) {
        Ok((f & 0x03, None))
    } else {
        match loc.subgroup_id {
            None => Err(CodecError::InvalidField),
            Some(sg) => {
                let inherits = st.subgroup_id == Some(sg);
                let successor = st.subgroup_id matches Some(p) && p + 1 == sg;
                let kept = match spec_fetch_subgroup_mode(f) {
                    FetchSubgroupMode::Zero => sg == 0,
                    FetchSubgroupMode::SameAsPrior => inherits,
                    FetchSubgroupMode::PriorPlusOne => successor,
                    FetchSubgroupMode::Present => true,
                };
                let mode: u64 = if kept {
                    spec_mode_bits(spec_fetch_subgroup_mode(f))
                } else if sg == 0 {
                    0
                } else if inherits {
                    1
                } else if successor {
                    2
                } else {
                    3
                };
                if mode != 3 {
                    Ok((mode, None))
                } else if sg < VARINT_BOUND {
                    Ok((3, Some(sg)))
                } else {
                    Err(CodecError::VarInt(VarIntError::ValueTooLarge(sg)))
                }
            },
        }
    }
}

/// The priority field a writer gives `o` at `loc` after `st`: the priority
/// in force when the object stated one or the running one differs, else
/// none.
pub open spec fn spec_priority_field(st: FetchRunningState, o: FetchObjectHeaderView, loc: FetchObjectLocation) -> Option<u8> {
    if spec_fetch_has_priority(o.serialization_flags) || st.publisher_priority
        != loc.publisher_priority {
        loc.publisher_priority
    } else {
        None
    }
}

/// A flag word put together from its fields.
pub open spec fn spec_writer_flags(mode: u64, f: u64, g: bool, ob: bool, pb: bool, xb: bool) -> u64 {
    mode | (if f & 0x40 != 0 {
        0x40u64
    } else {
        0
    }) | (if g {
        0x08u64
    } else {
        0
    }) | (if ob {
        0x04u64
    } else {
        0
    }) | (if pb {
        0x10u64
    } else {
        0
    }) | (if xb {
        0x20u64
    } else {
        0
    })
}

/// The header a writer whose running state is `st` produces for the object
/// `o` it read, resolved to `loc`: a marker keeps its flags and states its
/// Group and Object IDs; any other object states each field it stated
/// before, and each it left off that would now say something else. A value
/// that must be written and is not a varint is refused.
pub open spec fn spec_header_for(
    st: FetchRunningState,
    o: FetchObjectHeaderView,
    loc: FetchObjectLocation,
) -> Result<FetchObjectHeaderView, CodecError> {
    let f = o.serialization_flags;
    if spec_end_of_range(f) is Some {
        if loc.group_id >= VARINT_BOUND {
            Err(CodecError::VarInt(VarIntError::ValueTooLarge(loc.group_id)))
        } else if loc.object_id >= VARINT_BOUND {
            Err(CodecError::VarInt(VarIntError::ValueTooLarge(loc.object_id)))
        } else {
            Ok(
                FetchObjectHeaderView {
                    serialization_flags: f,
                    group_id: Some(loc.group_id),
                    subgroup_id: None,
                    object_id: Some(loc.object_id),
                    publisher_priority: None,
                    extensions: None,
                    payload_length: o.payload_length,
                },
            )
        }
    } else {
        let group_off = !spec_fetch_has_group_id(f) && st.group_id == Some(loc.group_id);
        let object_off = !spec_fetch_has_object_id(f) && (st.object_id matches Some(p) && p + 1
            == loc.object_id);
        if !group_off && loc.group_id >= VARINT_BOUND {
            Err(CodecError::VarInt(VarIntError::ValueTooLarge(loc.group_id)))
        } else if !object_off && loc.object_id >= VARINT_BOUND {
            Err(CodecError::VarInt(VarIntError::ValueTooLarge(loc.object_id)))
        } else {
            match spec_subgroup_field(st, o, loc) {
                Err(e) => Err(e),
                Ok((mode, sub)) => {
                    let prio = spec_priority_field(st, o, loc);
                    Ok(
                        FetchObjectHeaderView {
                            serialization_flags: spec_writer_flags(
                                mode,
                                f,
                                !group_off,
                                !object_off,
                                prio is Some,
                                spec_fetch_has_extensions(f),
                            ),
                            group_id: if group_off {
                                None
                            } else {
                                Some(loc.group_id)
                            },
                            subgroup_id: sub,
                            object_id: if object_off {
                                None
                            } else {
                                Some(loc.object_id)
                            },
                            publisher_priority: prio,
                            extensions: o.extensions,
                            payload_length: o.payload_length,
                        },
                    )
                },
            }
        }
    }
}

/// The running state after a writer puts `w` on the wire for `loc`: the
/// same step [`FetchObjectReader::resolve`] takes.
pub open spec fn spec_advance(st: FetchRunningState, w: FetchObjectHeaderView, loc: FetchObjectLocation) -> FetchRunningState {
    FetchRunningState {
        group_id: Some(loc.group_id),
        subgroup_id: loc.subgroup_id,
        object_id: Some(loc.object_id),
        publisher_priority: match w.publisher_priority {
            Some(p) => Some(p),
            None => st.publisher_priority,
        },
    }
}

fn varint_field(v: u64) -> (r: Result<VarInt, CodecError>)
    ensures
        v < VARINT_BOUND ==> (r matches Ok(x) && x@ == v),
        v >= VARINT_BOUND ==> r == Err::<VarInt, CodecError>(
            CodecError::VarInt(VarIntError::ValueTooLarge(v)),
        ),
{
    match VarInt::from_u64(v) {
        Ok(x) => Ok(x),
        Err(e) => Err(CodecError::VarInt(e)),
    }
}

fn clone_extensions(x: &Option<Vec<u8>>) -> (r: Option<Vec<u8>>)
    ensures
        match r {
            Some(y) => x matches Some(z) && y@ == z@,
            None => x is None,
        },
{
    match x {
        Some(z) => {
            let y = z.clone();
            assert(y@ =~= z@);
            Some(y)
        },
        None => None,
    }
}

/// Re-encodes resolved fetch objects onto one fetch stream: the inverse of
/// [`FetchObjectReader`], for a caller writing a stream out of the objects
/// of another, possibly with some removed. An object's own shape is kept
/// wherever it still says the same thing against the new predecessor, so a
/// stream with nothing removed is reproduced byte for byte.
#[derive(Debug, Clone)]
pub struct FetchObjectWriter {
    state: FetchRunningState,
}

impl View for FetchObjectWriter {
    type V = FetchRunningState;

    closed spec fn view(&self) -> FetchRunningState {
        self.state
    }
}

impl FetchObjectWriter {
    /// A writer positioned before the first object of a fetch stream.
    pub fn new() -> (r: Self)
        ensures
            r@ == spec_fresh_state(),
    {
        FetchObjectWriter { state: fresh_state() }
    }

    /// The header that encodes `location` against everything written so
    /// far, starting from the shape `original` arrived in; the writer does
    /// not move.
    pub fn header_for(&self, original: &FetchObjectHeader, location: &FetchObjectLocation) -> (r: Result<FetchObjectHeader, CodecError>)
        ensures
            match spec_header_for(self@, original@, *location) {
                Ok(h) => r matches Ok(x) && x@ == h,
                Err(e) => r == Err::<FetchObjectHeader, CodecError>(e),
            },
    {
        if original.end_of_range().is_some() {
            let group_id = varint_field(location.group_id)?;
            let object_id = varint_field(location.object_id)?;
            return Ok(
                FetchObjectHeader {
                    serialization_flags: original.serialization_flags,
                    group_id: Some(group_id),
                    subgroup_id: None,
                    object_id: Some(object_id),
                    publisher_priority: None,
                    extensions: None,
                    payload_length: original.payload_length,
                },
            );
        }
        let group_off = !original.has_group_id() && self.state.group_id == Some(location.group_id);
        let object_off = !original.has_object_id() && match self.state.object_id {
            Some(p) => p < u64::MAX && p + 1 == location.object_id,
            None => false,
        };
        let group_id = if group_off {
            None
        } else {
            Some(varint_field(location.group_id)?)
        };
        let object_id = if object_off {
            None
        } else {
            Some(varint_field(location.object_id)?)
        };
        let (mode, subgroup_id) = self.subgroup_field(original, location)?;
        let publisher_priority = self.priority_field(original, location);
        let flags = original.flags();
        let d: u64 = if flags & 0x40 != 0 {
            0x40
        } else {
            0
        };
        let g: u64 = if group_id.is_some() {
            0x08
        } else {
            0
        };
        let ob: u64 = if object_id.is_some() {
            0x04
        } else {
            0
        };
        let pb: u64 = if publisher_priority.is_some() {
            0x10
        } else {
            0
        };
        let xb: u64 = if original.has_extensions() {
            0x20
        } else {
            0
        };
        let new_flags = mode | d | g | ob | pb | xb;
        proof {
            lemma_writer_flag_fields(mode, d, g, ob, pb, xb);
        }
        Ok(
            FetchObjectHeader {
                serialization_flags: VarInt::from_u64(new_flags).unwrap(),
                group_id,
                subgroup_id,
                object_id,
                publisher_priority,
                extensions: clone_extensions(&original.extensions),
                payload_length: original.payload_length,
            },
        )
    }

    /// The Subgroup ID mode bits and the explicit field, if one is needed.
    fn subgroup_field(&self, original: &FetchObjectHeader, location: &FetchObjectLocation) -> (r: Result<
        (u64, Option<VarInt>),
        CodecError,
    >)
        ensures
            match spec_subgroup_field(self@, original@, *location) {
                Ok((m, sub)) => r matches Ok((m2, sub2)) && m2 == m && spec_opt_value(sub2) == sub,
                Err(e) => r == Err::<(u64, Option<VarInt>), CodecError>(e),
            },
            r matches Ok((m, _)) ==> m <= 3,
    {
        if original.is_datagram() {
            let f = original.flags();
            let bits = f & 0x03;
            assert(f & 0x03 <= 3) by (bit_vector);
            return Ok((bits, None));
        }
        let subgroup_id = match location.subgroup_id {
            Some(v) => v,
            None => return Err(CodecError::InvalidField),
        };
        let inherits = self.state.subgroup_id == Some(subgroup_id);
        let successor = match self.state.subgroup_id {
            Some(p) => p < u64::MAX && p + 1 == subgroup_id,
            None => false,
        };
        let kept = match original.subgroup_mode() {
            FetchSubgroupMode::Zero => subgroup_id == 0,
            FetchSubgroupMode::SameAsPrior => inherits,
            FetchSubgroupMode::PriorPlusOne => successor,
            FetchSubgroupMode::Present => true,
        };
        let mode: u64 = if kept {
            match original.subgroup_mode() {
                FetchSubgroupMode::Zero => 0,
                FetchSubgroupMode::SameAsPrior => 1,
                FetchSubgroupMode::PriorPlusOne => 2,
                FetchSubgroupMode::Present => 3,
            }
        } else if subgroup_id == 0 {
            0
        } else if inherits {
            1
        } else if successor {
            2
        } else {
            3
        };
        if mode != 3 {
            Ok((mode, None))
        } else {
            Ok((3, Some(varint_field(subgroup_id)?)))
        }
    }

    /// The Publisher Priority field, or `None` when the running one already
    /// says it.
    fn priority_field(&self, original: &FetchObjectHeader, location: &FetchObjectLocation) -> (r: Option<u8>)
        ensures
            r == spec_priority_field(self@, original@, *location),
    {
        if original.has_priority() || self.state.publisher_priority != location.publisher_priority {
            return location.publisher_priority;
        }
        None
    }

    /// Encode `location` against everything written so far and advance; the
    /// payload is the caller's to copy. On an error nothing is written and
    /// the writer is unchanged.
    pub fn write_object_header(
        &mut self,
        original: &FetchObjectHeader,
        location: &FetchObjectLocation,
        out: &mut Vec<u8>,
    ) -> (r: Result<FetchObjectHeader, CodecError>)
        requires
            original.extensions matches Some(x) ==> x@.len() < VARINT_BOUND,
        ensures
            match spec_header_for(old(self)@, original@, *location) {
                Err(e) => r == Err::<FetchObjectHeader, CodecError>(e) && final(out)@ == old(out)@
                    && final(self)@ == old(self)@,
                Ok(h) => if spec_fetch_shape_ok(h) {
                    &&& r matches Ok(x) && x@ == h
                    &&& final(out)@ == old(out)@ + spec_encode_fetch_object_header(h)
                    &&& final(self)@ == spec_advance(old(self)@, h, *location)
                } else {
                    &&& r == Err::<FetchObjectHeader, CodecError>(CodecError::InvalidField)
                    &&& final(out)@ == old(out)@
                    &&& final(self)@ == old(self)@
                },
            },
    {
        let header = self.header_for(original, location)?;
        header.encode(out)?;
        self.advance(&header, location);
        Ok(header)
    }

    /// Record what was written as the predecessor of whatever comes next:
    /// the step [`FetchObjectReader::resolve`] takes, so a caller that
    /// forwards an object's own bytes still advances.
    pub fn advance(&mut self, written: &FetchObjectHeader, location: &FetchObjectLocation)
        ensures
            final(self)@ == spec_advance(old(self)@, written@, *location),
    {
        let publisher_priority = match written.publisher_priority {
            Some(p) => Some(p),
            None => self.state.publisher_priority,
        };
        self.state = FetchRunningState {
            group_id: Some(location.group_id),
            subgroup_id: location.subgroup_id,
            object_id: Some(location.object_id),
            publisher_priority,
        };
    }
}

/// The fields of a flag word put together from one value per field.
proof fn lemma_writer_flag_fields(mode: u64, d: u64, g: u64, ob: u64, pb: u64, xb: u64)
    by (bit_vector)
    requires
        mode <= 3,
        d == 0 || d == 0x40,
        g == 0 || g == 0x08,
        ob == 0 || ob == 0x04,
        pb == 0 || pb == 0x10,
        xb == 0 || xb == 0x20,
    ensures
        (mode | d | g | ob | pb | xb) < 128,
        (mode | d | g | ob | pb | xb) & 0x03 == mode,
        (mode | d | g | ob | pb | xb) & 0x40 == d,
        (mode | d | g | ob | pb | xb) & 0x08 == g,
        (mode | d | g | ob | pb | xb) & 0x04 == ob,
        (mode | d | g | ob | pb | xb) & 0x10 == pb,
        (mode | d | g | ob | pb | xb) & 0x20 == xb,
{
}

/// A flag word is its fields put together.
proof fn lemma_flag_word_split(f: u64)
    by (bit_vector)
    requires
        f < 128,
    ensures
        f == (f & 0x03) | (f & 0x40) | (f & 0x08) | (f & 0x04) | (f & 0x10) | (f & 0x20),
        f & 0x03 <= 3,
        f & 0x40 == 0 || f & 0x40 == 0x40,
        f & 0x08 == 0 || f & 0x08 == 0x08,
        f & 0x04 == 0 || f & 0x04 == 0x04,
        f & 0x10 == 0 || f & 0x10 == 0x10,
        f & 0x20 == 0 || f & 0x20 == 0x20,
{
}

/// A writer whose running state is the one an object was read against, given
/// that object and the Location it resolved to, produces the object's own
/// header: a stream written out with nothing removed is reproduced byte for
/// byte.
pub proof fn lemma_header_for_reproduces(st: FetchRunningState, o: FetchObjectHeaderView)
    requires
        spec_fetch_shape_ok(o),
        o.group_id matches Some(x) ==> x < VARINT_BOUND,
        o.subgroup_id matches Some(x) ==> x < VARINT_BOUND,
        o.object_id matches Some(x) ==> x < VARINT_BOUND,
        spec_resolve(st, o) is Ok,
    ensures
        spec_header_for(st, o, spec_resolve(st, o)->Ok_0.0) == Ok::<
            FetchObjectHeaderView,
            CodecError,
        >(o),
{
    let f = o.serialization_flags;
    let loc = spec_resolve(st, o)->Ok_0.0;
    if spec_end_of_range(f) is None {
        lemma_flag_word_split(f);
        let group_off = !spec_fetch_has_group_id(f) && st.group_id == Some(loc.group_id);
        let object_off = !spec_fetch_has_object_id(f) && (st.object_id matches Some(p) && p + 1
            == loc.object_id);
        assert(group_off == !spec_fetch_has_group_id(f));
        assert(object_off == !spec_fetch_has_object_id(f));
        assert(spec_priority_field(st, o, loc) == o.publisher_priority);
        let (mode, sub) = spec_subgroup_field(st, o, loc)->Ok_0;
        assert(mode == f & 0x03);
        assert(sub == o.subgroup_id);
        assert(spec_writer_flags(
            mode,
            f,
            !group_off,
            !object_off,
            o.publisher_priority is Some,
            spec_fetch_has_extensions(f),
        ) == f);
    }
}

/// What a writer produces for a Location, a reader holding the same running
/// state resolves back to that Location, and both then hold the same running
/// state. The Location is one the object can stand for: a marker's carries
/// the marker, Subgroup ID zero and the running priority, a
/// Datagram-forwarded object's no Subgroup ID, any other object's one; a
/// Location without a priority follows a state without one; and its values
/// are varints.
pub proof fn lemma_writer_reader_agree(
    st: FetchRunningState,
    o: FetchObjectHeaderView,
    loc: FetchObjectLocation,
)
    requires
        loc.end_of_range == spec_end_of_range(o.serialization_flags),
        spec_end_of_range(o.serialization_flags) is Some ==> loc.subgroup_id == Some(0u64)
            && loc.publisher_priority == st.publisher_priority,
        spec_fetch_is_datagram(o.serialization_flags) ==> loc.subgroup_id is None,
        spec_end_of_range(o.serialization_flags) is None && !spec_fetch_is_datagram(
            o.serialization_flags,
        ) ==> loc.subgroup_id is Some,
        spec_end_of_range(o.serialization_flags) is None ==> (o.extensions is Some)
            == spec_fetch_has_extensions(o.serialization_flags),
        loc.publisher_priority is None ==> st.publisher_priority is None,
        loc.group_id < VARINT_BOUND,
        loc.object_id < VARINT_BOUND,
        loc.subgroup_id matches Some(x) ==> x < VARINT_BOUND,
    ensures
        spec_header_for(st, o, loc) is Ok,
        spec_fetch_shape_ok(spec_header_for(st, o, loc)->Ok_0),
        spec_resolve(st, spec_header_for(st, o, loc)->Ok_0) == Ok::<
            (FetchObjectLocation, FetchRunningState),
            CodecError,
        >((loc, spec_advance(st, spec_header_for(st, o, loc)->Ok_0, loc))),
{
    let f = o.serialization_flags;
    let h = spec_header_for(st, o, loc)->Ok_0;
    if spec_end_of_range(f) is None {
        let group_off = !spec_fetch_has_group_id(f) && st.group_id == Some(loc.group_id);
        let object_off = !spec_fetch_has_object_id(f) && (st.object_id matches Some(p) && p + 1
            == loc.object_id);
        let (mode, sub) = spec_subgroup_field(st, o, loc)->Ok_0;
        let prio = spec_priority_field(st, o, loc);
        assert(f & 0x03 <= 3) by (bit_vector);
        assert(mode <= 3);
        let d: u64 = if f & 0x40 != 0 {
            0x40
        } else {
            0
        };
        let g: u64 = if !group_off {
            0x08
        } else {
            0
        };
        let ob: u64 = if !object_off {
            0x04
        } else {
            0
        };
        let pb: u64 = if prio is Some {
            0x10
        } else {
            0
        };
        let xb: u64 = if spec_fetch_has_extensions(f) {
            0x20
        } else {
            0
        };
        lemma_writer_flag_fields(mode, d, g, ob, pb, xb);
        let nf = h.serialization_flags;
        assert(nf == mode | d | g | ob | pb | xb);
        assert(spec_end_of_range(nf) is None);
        assert(spec_fetch_is_datagram(nf) == spec_fetch_is_datagram(f));
        if !spec_fetch_is_datagram(f) {
            let sg = loc.subgroup_id->Some_0;
            assert(spec_fetch_subgroup_mode(nf) == spec_fetch_subgroup_mode(nf));
            if mode == 0 {
                assert(sg == 0);
            }
        }
    }
}

} // verus!
