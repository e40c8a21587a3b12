//! Draft-14 control messages on the wire: each message is its type, a
//! 16-bit payload length and the payload, and each payload is a run of
//! fields whose kinds its type fixes. The reader and the writer are stated
//! against one grammar, [`rd_fields`] and [`enc_fields`] over [`schema`].

use vstd::prelude::*;
use vstd::slice::slice_subrange;
use crate::cursor::{
    cur_capped_bytes, cur_len_bytes, cur_u8, cur_varint, enc_len_bytes, group_cursor,
    lemma_rd_len_bytes, rd_capped_bytes, rd_len_bytes, rd_u8, rd_varint,
};
use crate::draft14::message::{
    check_discriminators, check_full_track_name, check_group_order, check_ranges,
    spec_discriminators_agree, spec_ranges_ok, spec_response_group_order, ClientSetup, ControlMessage,
    Fetch, FetchCancel, FetchError, FetchOk, FetchPayload, FetchType, GoAway, MaxRequestId,
    MessageType, Publish, PublishDone, PublishError, PublishNamespace, PublishNamespaceCancel,
    PublishNamespaceDone, PublishNamespaceError, PublishNamespaceOk, PublishOk, RequestsBlocked,
    ServerSetup, Subscribe, SubscribeError, SubscribeNamespace, SubscribeNamespaceError,
    SubscribeNamespaceOk, SubscribeOk, SubscribeUpdate, TrackStatus, TrackStatusError,
    TrackStatusOk, Unsubscribe, UnsubscribeNamespace,
};
use crate::draft14::params::{
    decode_parameters, decode_setup_parameters, enc_params, encode_parameters, lemma_params_roundtrip,
    rd_params,
};
use crate::draft15::params::{pairs_read_back, spec_kvp_views};
use crate::error::{
    CodecError, KvpError, VarIntError, MAX_FULL_TRACK_NAME_LENGTH, MAX_GOAWAY_URI_LENGTH,
    MAX_MESSAGE_LENGTH, MAX_REASON_PHRASE_LENGTH,
};
use crate::kvp::KeyValuePairView;
use crate::types::{
    enc_namespace, lemma_namespace_roundtrip, ns_fits, ns_valid, ns_view, rd_namespace, spec_field_bytes_len,
    ContentExists, FilterType, Forward, GroupOrder, Location, TrackNamespace,
};
use crate::varint::{spec_varint_encode, VarInt, VARINT_BOUND};
use crate::wire::put_slice;

verus! {

/// What a FETCH asks for, as its fields say it.
pub enum FetchPayloadView {
    Standalone {
        track_namespace: Seq<Seq<u8>>,
        track_name: Seq<u8>,
        start_group: u64,
        start_object: u64,
        end_group: u64,
        end_object: u64,
    },
    Joining { joining_request_id: u64, joining_start: u64 },
}

/// The value of one field of a control message.
pub enum Field {
    /// A variable-length integer.
    Int(u64),
    /// A list of variable-length integers (the supported versions).
    Ints(Seq<u64>),
    /// A run of bytes written with its length.
    Bytes(Seq<u8>),
    /// A run of single bytes written as they are.
    Octets(Seq<u8>),
    /// A Location: a group and an object.
    Loc(u64, u64),
    /// A Track Namespace.
    Ns(Seq<Seq<u8>>),
    /// A list of Key-Value-Pairs.
    Pairs(Seq<KeyValuePairView>),
    /// A response's Group Order and Content Exists bytes, and the largest
    /// Location when there is one.
    Content { order: u8, exists: u8, largest: Option<(u64, u64)> },
    /// A Filter Type and the start Location and end group it selects.
    Filter { filter_type: u64, start: Option<(u64, u64)>, end_group: Option<u64> },
    /// A FETCH's Fetch Type and what it asks for.
    FetchBody { fetch_type: u64, payload: FetchPayloadView },
}

/// A control message: its type and the values of its fields, in wire order.
pub struct ControlMessageView {
    pub message_type: MessageType,
    pub fields: Seq<Field>,
}

/// What a single byte of a run of bytes may hold.
pub enum ByteRule {
    /// Any value.
    Any,
    /// A Group Order in a request: 0x0 to 0x2.
    Order,
    /// A Group Order in a response: 0x1 or 0x2.
    OrderResp,
    /// A Forward flag: 0x0 or 0x1.
    Fwd,
}

/// How a field is written.
pub enum FieldKind {
    /// A variable-length integer.
    Int,
    /// A count of at least one, then that many variable-length integers.
    Versions,
    /// A New Session URI: a length of at most 8,192 bytes and the bytes.
    Uri,
    /// A Reason Phrase: a length of at most 1,024 bytes and the bytes.
    Reason,
    /// A Track Name, held with the namespace before it to the Full Track
    /// Name cap.
    Name,
    /// A Track Namespace of one to 32 fields.
    Ns,
    /// Bytes, as many as there are rules, each held to its rule; all of
    /// them must be there before any is read.
    Octets(Seq<ByteRule>),
    /// A Location.
    Loc,
    /// A response's Group Order, Content Exists and largest Location.
    Content,
    /// A Filter Type and the fields it selects.
    Filter,
    /// Message parameters.
    Params,
    /// Setup parameters.
    SetupParams,
    /// A FETCH's Fetch Type and the fields it selects.
    FetchBody,
}

// ── Wire values of the enumerations ──────────────────────────

/// The wire value of a Group Order.
pub open spec fn spec_order_byte(o: GroupOrder) -> u8 {
    match o {
        GroupOrder::Publisher => 0,
        GroupOrder::Ascending => 1,
        GroupOrder::Descending => 2,
    }
}

/// The wire value of a Forward flag.
pub open spec fn spec_fwd_byte(f: Forward) -> u8 {
    match f {
        Forward::DontForward => 0,
        Forward::Forward => 1,
    }
}

/// The wire value of a Content Exists flag.
pub open spec fn spec_exists_byte(c: ContentExists) -> u8 {
    match c {
        ContentExists::NoLargestLocation => 0,
        ContentExists::HasLargestLocation => 1,
    }
}

/// The wire value of a Filter Type.
pub open spec fn spec_filter_value(f: FilterType) -> u64 {
    match f {
        FilterType::NextGroupStart => 1,
        FilterType::LargestObject => 2,
        FilterType::AbsoluteStart => 3,
        FilterType::AbsoluteRange => 4,
    }
}

pub(crate) fn order_byte(o: GroupOrder) -> (r: u8)
    ensures
        r == spec_order_byte(o),
{
    match o {
        GroupOrder::Publisher => 0,
        GroupOrder::Ascending => 1,
        GroupOrder::Descending => 2,
    }
}

pub(crate) fn fwd_byte(f: Forward) -> (r: u8)
    ensures
        r == spec_fwd_byte(f),
{
    match f {
        Forward::DontForward => 0,
        Forward::Forward => 1,
    }
}

pub(crate) fn exists_byte(c: ContentExists) -> (r: u8)
    ensures
        r == spec_exists_byte(c),
{
    match c {
        ContentExists::NoLargestLocation => 0,
        ContentExists::HasLargestLocation => 1,
    }
}

pub(crate) fn filter_value(f: FilterType) -> (r: u64)
    ensures
        r == spec_filter_value(f),
{
    match f {
        FilterType::NextGroupStart => 1,
        FilterType::LargestObject => 2,
        FilterType::AbsoluteStart => 3,
        FilterType::AbsoluteRange => 4,
    }
}

fn order_of(b: u8) -> (r: GroupOrder)
    requires
        b <= 2,
    ensures
        spec_order_byte(r) == b,
{
    if b == 0 {
        GroupOrder::Publisher
    } else if b == 1 {
        GroupOrder::Ascending
    } else {
        GroupOrder::Descending
    }
}

fn fwd_of(b: u8) -> (r: Forward)
    requires
        b <= 1,
    ensures
        spec_fwd_byte(r) == b,
{
    if b == 0 {
        Forward::DontForward
    } else {
        Forward::Forward
    }
}

fn exists_of(b: u8) -> (r: ContentExists)
    requires
        b <= 1,
    ensures
        spec_exists_byte(r) == b,
{
    if b == 0 {
        ContentExists::NoLargestLocation
    } else {
        ContentExists::HasLargestLocation
    }
}

fn filter_of(v: u64) -> (r: FilterType)
    requires
        1 <= v <= 4,
    ensures
        spec_filter_value(r) == v,
{
    if v == 1 {
        FilterType::NextGroupStart
    } else if v == 2 {
        FilterType::LargestObject
    } else if v == 3 {
        FilterType::AbsoluteStart
    } else {
        FilterType::AbsoluteRange
    }
}

// ── Views of the message fields ──────────────────────────────

/// A Location as a pair of integers.
pub open spec fn loc_view(l: Location) -> (u64, u64) {
    (l.group@, l.object@)
}

/// An optional Location as an optional pair.
pub open spec fn opt_loc_view(l: Option<Location>) -> Option<(u64, u64)> {
    match l {
        Some(x) => Some(loc_view(x)),
        None => None,
    }
}

/// An optional integer as its value.
pub open spec fn opt_int_view(v: Option<VarInt>) -> Option<u64> {
    match v {
        Some(x) => Some(x@),
        None => None,
    }
}

/// A list of integers as their values.
pub open spec fn ints_view(v: Seq<VarInt>) -> Seq<u64> {
    Seq::new(v.len(), |i: int| v[i]@)
}

// ── Reading fields ───────────────────────────────────────────

/// The total length of a namespace's fields.
pub open spec fn ns_bytes_len(fs: Seq<Seq<u8>>) -> nat
    decreases fs.len(),
{
    if fs.len() == 0 {
        0
    } else {
        ns_bytes_len(fs.drop_last()) + fs.last().len()
    }
}

proof fn lemma_ns_bytes_len(v: Seq<Vec<u8>>)
    ensures
        spec_field_bytes_len(v) == ns_bytes_len(ns_view(v)),
    decreases v.len(),
{
    if v.len() > 0 {
        lemma_ns_bytes_len(v.drop_last());
        assert(ns_view(v).drop_last() =~= ns_view(v.drop_last()));
    }
}

/// The namespace a field holds, if it is one.
pub open spec fn ns_of(f: Field) -> Seq<Seq<u8>> {
    match f {
        Field::Ns(fs) => fs,
        _ => Seq::empty(),
    }
}

/// The bytes a field holds, if it holds a run of bytes.
pub open spec fn bytes_of(f: Field) -> Seq<u8> {
    match f {
        Field::Bytes(b) => b,
        _ => Seq::empty(),
    }
}

/// A Track Name after a namespace of fields `fs`.
pub open spec fn rd_name(fs: Seq<Seq<u8>>, s: Seq<u8>) -> Result<(Seq<u8>, Seq<u8>), CodecError> {
    match rd_len_bytes(s) {
        Err(e) => Err(e),
        Ok((b, r)) => if ns_bytes_len(fs) + b.len() > MAX_FULL_TRACK_NAME_LENGTH {
            Err(CodecError::TrackNameTooLong)
        } else {
            Ok((b, r))
        },
    }
}

/// What a byte may not hold under `rule`, if `v` breaks it.
pub open spec fn byte_err(rule: ByteRule, v: u8) -> Option<CodecError> {
    match rule {
        ByteRule::Any => None,
        ByteRule::Order => if v > 2 {
            Some(CodecError::InvalidField)
        } else {
            None
        },
        ByteRule::OrderResp => if v == 0 || v > 2 {
            Some(CodecError::InvalidField)
        } else {
            None
        },
        ByteRule::Fwd => if v > 1 {
            Some(CodecError::InvalidForward(v))
        } else {
            None
        },
    }
}

/// The first rule a run of bytes breaks, in order.
pub open spec fn octets_err(rules: Seq<ByteRule>, b: Seq<u8>) -> Option<CodecError>
    decreases rules.len(),
{
    if rules.len() == 0 {
        None
    } else {
        match byte_err(rules[0], b[0]) {
            Some(e) => Some(e),
            None => octets_err(rules.drop_first(), b.drop_first()),
        }
    }
}

/// As many bytes as `rules` at the front of `s`, each held to its rule.
pub open spec fn rd_octets(rules: Seq<ByteRule>, s: Seq<u8>) -> Result<(Seq<u8>, Seq<u8>), CodecError> {
    if s.len() < rules.len() {
        Err(CodecError::UnexpectedEnd)
    } else {
        match octets_err(rules, s.take(rules.len() as int)) {
            Some(e) => Err(e),
            None => Ok((s.take(rules.len() as int), s.skip(rules.len() as int))),
        }
    }
}

/// A Location at the front of `s`.
pub open spec fn rd_loc(s: Seq<u8>) -> Result<((u64, u64), Seq<u8>), CodecError> {
    match rd_varint(s) {
        Err(e) => Err(e),
        Ok((g, s1)) => match rd_varint(s1) {
            Err(e) => Err(e),
            Ok((o, s2)) => Ok(((g, o), s2)),
        },
    }
}

/// A response's Group Order, Content Exists and largest Location.
pub open spec fn rd_content(s: Seq<u8>) -> Result<(Field, Seq<u8>), CodecError> {
    if s.len() < 2 {
        Err(CodecError::UnexpectedEnd)
    } else if s[0] == 0 || s[0] > 2 {
        Err(CodecError::InvalidField)
    } else if s[1] > 1 {
        Err(CodecError::InvalidContentExists(s[1]))
    } else if s[1] == 1 {
        match rd_loc(s.skip(2)) {
            Err(e) => Err(e),
            Ok((l, r)) => Ok((Field::Content { order: s[0], exists: s[1], largest: Some(l) }, r)),
        }
    } else {
        Ok((Field::Content { order: s[0], exists: s[1], largest: None }, s.skip(2)))
    }
}

/// A Filter Type, then the start Location of an absolute filter and the
/// end group of an absolute range.
pub open spec fn rd_filter(s: Seq<u8>) -> Result<(Field, Seq<u8>), CodecError> {
    match rd_varint(s) {
        Err(e) => Err(e),
        Ok((ft, s1)) => if ft < 1 || ft > 4 {
            Err(CodecError::InvalidFilterType(ft))
        } else if ft == 3 {
            match rd_loc(s1) {
                Err(e) => Err(e),
                Ok((l, s2)) => Ok((Field::Filter { filter_type: ft, start: Some(l), end_group: None }, s2)),
            }
        } else if ft == 4 {
            match rd_loc(s1) {
                Err(e) => Err(e),
                Ok((l, s2)) => match rd_varint(s2) {
                    Err(e) => Err(e),
                    Ok((eg, s3)) => Ok((Field::Filter { filter_type: ft, start: Some(l), end_group: Some(eg) }, s3)),
                },
            }
        } else {
            Ok((Field::Filter { filter_type: ft, start: None, end_group: None }, s1))
        },
    }
}

/// `n` variable-length integers at the front of `s`.
pub open spec fn rd_ints(s: Seq<u8>, n: nat) -> Result<(Seq<u64>, Seq<u8>), CodecError>
    decreases n,
{
    if n == 0 {
        Ok((Seq::empty(), s))
    } else {
        match rd_varint(s) {
            Err(e) => Err(e),
            Ok((v, s1)) => match rd_ints(s1, (n - 1) as nat) {
                Err(e) => Err(e),
                Ok((vs, r)) => Ok((seq![v] + vs, r)),
            },
        }
    }
}

/// A count of at least one and that many versions.
pub open spec fn rd_versions(s: Seq<u8>) -> Result<(Seq<u64>, Seq<u8>), CodecError> {
    match rd_varint(s) {
        Err(e) => Err(e),
        Ok((n, s1)) => if n == 0 {
            Err(CodecError::InvalidField)
        } else {
            rd_ints(s1, n as nat)
        },
    }
}

/// A FETCH's Fetch Type and the fields it selects.
pub open spec fn rd_fetch_body(s: Seq<u8>) -> Result<(Field, Seq<u8>), CodecError> {
    match rd_varint(s) {
        Err(e) => Err(e),
        Ok((t, s1)) => match FetchType::spec_from_u64(t) {
            None => Err(CodecError::InvalidFetchType(t)),
            Some(ft) => if ft == FetchType::Standalone {
                match rd_namespace(s1, 1, false) {
                    Err(e) => Err(e),
                    Ok((fs, s2)) => match rd_name(fs, s2) {
                        Err(e) => Err(e),
                        Ok((name, s3)) => match rd_varint(s3) {
                            Err(e) => Err(e),
                            Ok((sg, s4)) => match rd_varint(s4) {
                                Err(e) => Err(e),
                                Ok((so, s5)) => match rd_varint(s5) {
                                    Err(e) => Err(e),
                                    Ok((eg, s6)) => match rd_varint(s6) {
                                        Err(e) => Err(e),
                                        Ok((eo, s7)) => Ok((
                                            Field::FetchBody {
                                                fetch_type: t,
                                                payload: FetchPayloadView::Standalone {
                                                    track_namespace: fs,
                                                    track_name: name,
                                                    start_group: sg,
                                                    start_object: so,
                                                    end_group: eg,
                                                    end_object: eo,
                                                },
                                            },
                                            s7,
                                        )),
                                    },
                                },
                            },
                        },
                    },
                }
            } else {
                match rd_varint(s1) {
                    Err(e) => Err(e),
                    Ok((jr, s2)) => match rd_varint(s2) {
                        Err(e) => Err(e),
                        Ok((js, s3)) => Ok((
                            Field::FetchBody {
                                fetch_type: t,
                                payload: FetchPayloadView::Joining { joining_request_id: jr, joining_start: js },
                            },
                            s3,
                        )),
                    },
                }
            },
        },
    }
}

/// One field of kind `k` at the front of `s`, after the fields `prior`.
pub open spec fn rd_field(k: FieldKind, prior: Seq<Field>, s: Seq<u8>) -> Result<(Field, Seq<u8>), CodecError> {
    match k {
        FieldKind::Int => match rd_varint(s) {
            Err(e) => Err(e),
            Ok((v, r)) => Ok((Field::Int(v), r)),
        },
        FieldKind::Versions => match rd_versions(s) {
            Err(e) => Err(e),
            Ok((vs, r)) => Ok((Field::Ints(vs), r)),
        },
        FieldKind::Uri => match rd_capped_bytes(s, MAX_GOAWAY_URI_LENGTH as u64, CodecError::GoAwayUriTooLong) {
            Err(e) => Err(e),
            Ok((b, r)) => Ok((Field::Bytes(b), r)),
        },
        FieldKind::Reason => match rd_capped_bytes(s, MAX_REASON_PHRASE_LENGTH as u64, CodecError::ReasonPhraseTooLong) {
            Err(e) => Err(e),
            Ok((b, r)) => Ok((Field::Bytes(b), r)),
        },
        FieldKind::Name => match rd_name(ns_of(prior.last()), s) {
            Err(e) => Err(e),
            Ok((b, r)) => Ok((Field::Bytes(b), r)),
        },
        FieldKind::Ns => match rd_namespace(s, 1, false) {
            Err(e) => Err(e),
            Ok((fs, r)) => Ok((Field::Ns(fs), r)),
        },
        FieldKind::Octets(rules) => match rd_octets(rules, s) {
            Err(e) => Err(e),
            Ok((b, r)) => Ok((Field::Octets(b), r)),
        },
        FieldKind::Loc => match rd_loc(s) {
            Err(e) => Err(e),
            Ok(((g, o), r)) => Ok((Field::Loc(g, o), r)),
        },
        FieldKind::Content => rd_content(s),
        FieldKind::Filter => rd_filter(s),
        FieldKind::Params => match rd_params(s, true) {
            Err(e) => Err(e),
            Ok((ps, r)) => Ok((Field::Pairs(ps), r)),
        },
        FieldKind::SetupParams => match rd_params(s, false) {
            Err(e) => Err(e),
            Ok((ps, r)) => Ok((Field::Pairs(ps), r)),
        },
        FieldKind::FetchBody => rd_fetch_body(s),
    }
}

/// The fields of kinds `kinds` at the front of `s`, one after another.
pub open spec fn rd_fields(kinds: Seq<FieldKind>, s: Seq<u8>) -> Result<(Seq<Field>, Seq<u8>), CodecError>
    decreases kinds.len(),
{
    if kinds.len() == 0 {
        Ok((Seq::empty(), s))
    } else {
        match rd_fields(kinds.drop_last(), s) {
            Err(e) => Err(e),
            Ok((vs, s1)) => match rd_field(kinds.last(), vs, s1) {
                Err(e) => Err(e),
                Ok((v, s2)) => Ok((vs.push(v), s2)),
            },
        }
    }
}

// ── Writing fields ───────────────────────────────────────────

/// A run of bytes with its length, refused with `err` above `max`.
pub open spec fn enc_capped(b: Seq<u8>, max: u64, err: CodecError) -> Result<Seq<u8>, CodecError> {
    if b.len() > max {
        Err(err)
    } else {
        Ok(enc_len_bytes(b))
    }
}

/// A Track Name after a namespace of fields `fs`.
pub open spec fn enc_name(fs: Seq<Seq<u8>>, b: Seq<u8>) -> Result<Seq<u8>, CodecError> {
    if ns_bytes_len(fs) + b.len() > MAX_FULL_TRACK_NAME_LENGTH {
        Err(CodecError::TrackNameTooLong)
    } else {
        Ok(enc_len_bytes(b))
    }
}

/// A namespace held to its rules, then written.
pub open spec fn enc_ns(fs: Seq<Seq<u8>>) -> Result<Seq<u8>, CodecError> {
    if ns_valid(fs, 1, false) {
        Ok(enc_namespace(fs))
    } else {
        Err(CodecError::InvalidField)
    }
}

/// A Location as written.
pub open spec fn enc_loc(l: (u64, u64)) -> Seq<u8> {
    spec_varint_encode(l.0) + spec_varint_encode(l.1)
}

/// An optional Location as written: nothing when there is none.
pub open spec fn enc_opt_loc(l: Option<(u64, u64)>) -> Seq<u8> {
    match l {
        Some(x) => enc_loc(x),
        None => Seq::empty(),
    }
}

/// An optional integer as written: nothing when there is none.
pub open spec fn enc_opt_int(v: Option<u64>) -> Seq<u8> {
    match v {
        Some(x) => spec_varint_encode(x),
        None => Seq::empty(),
    }
}

/// Integers one after another.
pub open spec fn enc_ints(vs: Seq<u64>) -> Seq<u8>
    decreases vs.len(),
{
    if vs.len() == 0 {
        Seq::empty()
    } else {
        spec_varint_encode(vs[0]) + enc_ints(vs.drop_first())
    }
}

/// A FETCH's Fetch Type and the fields its payload holds. A standalone
/// payload is held to the Full Track Name cap before its namespace is held
/// to its rules.
pub open spec fn enc_fetch_body(t: u64, p: FetchPayloadView) -> Result<Seq<u8>, CodecError> {
    match p {
        FetchPayloadView::Standalone { track_namespace, track_name, start_group, start_object, end_group, end_object } => {
            match enc_name(track_namespace, track_name) {
                Err(e) => Err(e),
                Ok(tb) => match enc_ns(track_namespace) {
                    Err(e) => Err(e),
                    Ok(nb) => Ok(spec_varint_encode(t) + (nb + (tb + (spec_varint_encode(start_group)
                        + (spec_varint_encode(start_object) + (spec_varint_encode(end_group)
                        + spec_varint_encode(end_object))))))),
                },
            }
        },
        FetchPayloadView::Joining { joining_request_id, joining_start } => Ok(
            spec_varint_encode(t) + (spec_varint_encode(joining_request_id) + spec_varint_encode(joining_start)),
        ),
    }
}

/// One field of kind `k` holding `v`, after the fields `prior`; a value of
/// another shape than the kind is `InvalidField`. Single bytes, Locations
/// and filters are written as they are held.
pub open spec fn enc_field(k: FieldKind, prior: Seq<Field>, v: Field) -> Result<Seq<u8>, CodecError> {
    match (k, v) {
        (FieldKind::Int, Field::Int(x)) => Ok(spec_varint_encode(x)),
        (FieldKind::Versions, Field::Ints(vs)) => Ok(spec_varint_encode(vs.len() as u64) + enc_ints(vs)),
        (FieldKind::Uri, Field::Bytes(b)) => enc_capped(b, MAX_GOAWAY_URI_LENGTH as u64, CodecError::GoAwayUriTooLong),
        (FieldKind::Reason, Field::Bytes(b)) => enc_capped(b, MAX_REASON_PHRASE_LENGTH as u64, CodecError::ReasonPhraseTooLong),
        (FieldKind::Name, Field::Bytes(b)) => enc_name(ns_of(prior.last()), b),
        (FieldKind::Ns, Field::Ns(fs)) => enc_ns(fs),
        (FieldKind::Octets(_), Field::Octets(b)) => Ok(b),
        (FieldKind::Loc, Field::Loc(g, o)) => Ok(enc_loc((g, o))),
        (FieldKind::Content, Field::Content { order, exists, largest }) => Ok(seq![order, exists] + enc_opt_loc(largest)),
        (FieldKind::Filter, Field::Filter { filter_type, start, end_group }) => Ok(spec_varint_encode(filter_type)
            + (enc_opt_loc(start) + enc_opt_int(end_group))),
        (FieldKind::Params, Field::Pairs(ps)) => enc_params(ps),
        (FieldKind::SetupParams, Field::Pairs(ps)) => enc_params(ps),
        (FieldKind::FetchBody, Field::FetchBody { fetch_type, payload }) => enc_fetch_body(fetch_type, payload),
        _ => Err(CodecError::InvalidField),
    }
}

/// The fields `vs`, of kinds `kinds`, one after another.
pub open spec fn enc_fields(kinds: Seq<FieldKind>, vs: Seq<Field>) -> Result<Seq<u8>, CodecError>
    decreases kinds.len(),
{
    if kinds.len() == 0 {
        Ok(Seq::empty())
    } else {
        match enc_fields(kinds.drop_last(), vs.drop_last()) {
            Err(e) => Err(e),
            Ok(b) => match enc_field(kinds.last(), vs.drop_last(), vs.last()) {
                Err(e) => Err(e),
                Ok(c) => Ok(b + c),
            },
        }
    }
}

/// Whether every length and count a field holds is a variable-length
/// integer, as it is for any value that fits in memory.
pub open spec fn field_fits(f: Field) -> bool {
    match f {
        Field::Bytes(b) => b.len() < VARINT_BOUND,
        Field::Ints(vs) => vs.len() < VARINT_BOUND,
        Field::Ns(fs) => ns_fits(fs),
        Field::Pairs(ps) => ps.len() < VARINT_BOUND,
        Field::FetchBody { payload, .. } => match payload {
            FetchPayloadView::Standalone { track_namespace, track_name, .. } => ns_fits(track_namespace)
                && track_name.len() < VARINT_BOUND,
            _ => true,
        },
        _ => true,
    }
}

/// Whether every field of a message fits.
pub open spec fn fields_fit(fs: Seq<Field>) -> bool {
    forall|i: int| 0 <= i < fs.len() ==> #[trigger] field_fits(fs[i])
}

/// The view of a FETCH's Fetch Type and payload.
pub open spec fn fetch_body_view(t: FetchType, p: FetchPayload) -> Field {
    Field::FetchBody {
        fetch_type: t.spec_value(),
        payload: match p {
            FetchPayload::Standalone { track_namespace, track_name, start_group, start_object, end_group, end_object } =>
                FetchPayloadView::Standalone {
                track_namespace: ns_view(track_namespace.0@),
                track_name: track_name@,
                start_group: start_group@,
                start_object: start_object@,
                end_group: end_group@,
                end_object: end_object@,
            },
            FetchPayload::Joining { joining_request_id, joining_start } => FetchPayloadView::Joining {
                joining_request_id: joining_request_id@,
                joining_start: joining_start@,
            },
        },
    }
}

/// The rules of each run of single bytes a message carries.
pub open spec fn prio_order_fwd() -> Seq<ByteRule> {
    seq![ByteRule::Any, ByteRule::Order, ByteRule::Fwd]
}

pub open spec fn fwd_prio_order_resp() -> Seq<ByteRule> {
    seq![ByteRule::Fwd, ByteRule::Any, ByteRule::OrderResp]
}

pub open spec fn prio_fwd() -> Seq<ByteRule> {
    seq![ByteRule::Any, ByteRule::Fwd]
}

pub open spec fn prio_order() -> Seq<ByteRule> {
    seq![ByteRule::Any, ByteRule::Order]
}

pub open spec fn order_resp_byte() -> Seq<ByteRule> {
    seq![ByteRule::OrderResp, ByteRule::Any]
}

pub open spec fn fwd_only() -> Seq<ByteRule> {
    seq![ByteRule::Fwd]
}

// ── Field readers ────────────────────────────────────────────

/// Read a Track Name at `pos`, held with `ns` to the Full Track Name cap.
pub fn read_track_name(ns: &TrackNamespace, buf: &[u8], pos: usize) -> (r: Result<(Vec<u8>, usize), CodecError>)
    requires
        pos <= buf@.len(),
    ensures
        match rd_name(ns_view(ns.0@), buf@.skip(pos as int)) {
            Ok((b, rest)) => (r matches Ok((x, n)) && x@ == b && pos <= n <= buf@.len() && buf@.skip(n as int) == rest),
            Err(e) => r == Err::<(Vec<u8>, usize), CodecError>(e),
        },
{
    proof {
        lemma_ns_bytes_len(ns.0@);
    }
    let (b, n) = cur_len_bytes(buf, pos)?;
    check_full_track_name(ns, b.as_slice())?;
    Ok((b, n))
}

/// Read a Location at `pos`.
pub fn read_location(buf: &[u8], pos: usize) -> (r: Result<(Location, usize), CodecError>)
    requires
        pos <= buf@.len(),
    ensures
        match rd_loc(buf@.skip(pos as int)) {
            Ok((l, rest)) => (r matches Ok((x, n)) && loc_view(x) == l && pos <= n <= buf@.len()
                && buf@.skip(n as int) == rest),
            Err(e) => r == Err::<(Location, usize), CodecError>(e),
        },
{
    let (group, p1) = cur_varint(buf, pos)?;
    let (object, p2) = cur_varint(buf, p1)?;
    Ok((Location { group, object }, p2))
}

/// Read a response's Group Order, Content Exists and largest Location at
/// `pos`.
pub fn read_content(buf: &[u8], pos: usize) -> (r: Result<((GroupOrder, ContentExists, Option<Location>), usize), CodecError>)
    requires
        pos <= buf@.len(),
    ensures
        match rd_content(buf@.skip(pos as int)) {
            Ok((f, rest)) => (r matches Ok(((o, c, l), n)) && f == (Field::Content {
                order: spec_order_byte(o),
                exists: spec_exists_byte(c),
                largest: opt_loc_view(l),
            }) && pos <= n <= buf@.len() && buf@.skip(n as int) == rest),
            Err(e) => r == Err::<((GroupOrder, ContentExists, Option<Location>), usize), CodecError>(e),
        },
{
    let ghost s = buf@.skip(pos as int);
    if buf.len() - pos < 2 {
        return Err(CodecError::UnexpectedEnd);
    }
    let ob = buf[pos];
    let cb = buf[pos + 1];
    assert(s[0] == ob && s[1] == cb);
    if ob == 0 || ob > 2 {
        return Err(CodecError::InvalidField);
    }
    if cb > 1 {
        return Err(CodecError::InvalidContentExists(cb));
    }
    let order = order_of(ob);
    let exists = exists_of(cb);
    proof {
        assert(s.skip(2) =~= buf@.skip(pos + 2));
    }
    if cb == 1 {
        let (l, n) = read_location(buf, pos + 2)?;
        Ok(((order, exists, Some(l)), n))
    } else {
        Ok(((order, exists, None), pos + 2))
    }
}

/// Read a Filter Type at `pos`, then the start Location of an absolute
/// filter and the end group of an absolute range.
pub fn read_filter(buf: &[u8], pos: usize) -> (r: Result<((FilterType, Option<Location>, Option<VarInt>), usize), CodecError>)
    requires
        pos <= buf@.len(),
    ensures
        match rd_filter(buf@.skip(pos as int)) {
            Ok((f, rest)) => (r matches Ok(((t, l, e), n)) && f == (Field::Filter {
                filter_type: spec_filter_value(t),
                start: opt_loc_view(l),
                end_group: opt_int_view(e),
            }) && pos <= n <= buf@.len() && buf@.skip(n as int) == rest),
            Err(e) => r == Err::<((FilterType, Option<Location>, Option<VarInt>), usize), CodecError>(e),
        },
{
    let (ftv, p1) = cur_varint(buf, pos)?;
    let v = ftv.into_inner();
    if v < 1 || v > 4 {
        return Err(CodecError::InvalidFilterType(v));
    }
    let ft = filter_of(v);
    if v == 3 {
        let (l, p2) = read_location(buf, p1)?;
        Ok(((ft, Some(l), None), p2))
    } else if v == 4 {
        let (l, p2) = read_location(buf, p1)?;
        let (eg, p3) = cur_varint(buf, p2)?;
        Ok(((ft, Some(l), Some(eg)), p3))
    } else {
        Ok(((ft, None, None), p1))
    }
}

/// Read a count of at least one and that many versions at `pos`.
pub fn read_versions(buf: &[u8], pos: usize) -> (r: Result<(Vec<VarInt>, usize), CodecError>)
    requires
        pos <= buf@.len(),
    ensures
        match rd_versions(buf@.skip(pos as int)) {
            Ok((vs, rest)) => (r matches Ok((x, n)) && ints_view(x@) == vs && pos <= n <= buf@.len()
                && buf@.skip(n as int) == rest),
            Err(e) => r == Err::<(Vec<VarInt>, usize), CodecError>(e),
        },
{
    let (count, p1) = cur_varint(buf, pos)?;
    let count = count.into_inner();
    if count == 0 {
        return Err(CodecError::InvalidField);
    }
    let mut out: Vec<VarInt> = Vec::new();
    let mut p = p1;
    let mut i: u64 = 0;
    proof {
        assert(ints_view(out@) =~= Seq::<u64>::empty());
    }
    while i < count
        invariant
            i <= count,
            count > 0,
            p1 <= p <= buf@.len(),
            rd_versions(buf@.skip(pos as int)) == match rd_ints(buf@.skip(p as int), (count - i) as nat) {
                Err(e) => Err::<(Seq<u64>, Seq<u8>), CodecError>(e),
                Ok((vs, rest)) => Ok((ints_view(out@) + vs, rest)),
            },
        decreases count - i,
    {
        let (v, q) = cur_varint(buf, p)?;
        let ghost before = ints_view(out@);
        out.push(v);
        proof {
            assert(ints_view(out@) =~= before.push(v@));
            let r1 = rd_ints(buf@.skip(q as int), (count - i - 1) as nat);
            match r1 {
                Ok((vs, rest)) => {
                    assert(before + (seq![v@] + vs) =~= before.push(v@) + vs);
                },
                Err(_) => {},
            }
        }
        p = q;
        i = i + 1;
    }
    proof {
        assert(ints_view(out@) + Seq::<u64>::empty() =~= ints_view(out@));
    }
    Ok((out, p))
}

/// Read a FETCH's Fetch Type and the fields it selects at `pos`.
pub fn read_fetch_body(buf: &[u8], pos: usize) -> (r: Result<((FetchType, FetchPayload), usize), CodecError>)
    requires
        pos <= buf@.len(),
    ensures
        match rd_fetch_body(buf@.skip(pos as int)) {
            Ok((f, rest)) => (r matches Ok(((t, p), n)) && fetch_body_view(t, p) == f && pos <= n <= buf@.len()
                && buf@.skip(n as int) == rest),
            Err(e) => r == Err::<((FetchType, FetchPayload), usize), CodecError>(e),
        },
{
    let (t, p1) = cur_varint(buf, pos)?;
    let tv = t.into_inner();
    let ft = match FetchType::from_u64(tv) {
        Some(ft) => ft,
        None => return Err(CodecError::InvalidFetchType(tv)),
    };
    match ft {
        FetchType::Standalone => {
            let (track_namespace, p2) = TrackNamespace::decode_at(buf, p1, 1, false)?;
            let (track_name, p3) = read_track_name(&track_namespace, buf, p2)?;
            let (start_group, p4) = cur_varint(buf, p3)?;
            let (start_object, p5) = cur_varint(buf, p4)?;
            let (end_group, p6) = cur_varint(buf, p5)?;
            let (end_object, p7) = cur_varint(buf, p6)?;
            Ok((
                (ft, FetchPayload::Standalone { track_namespace, track_name, start_group, start_object, end_group, end_object }),
                p7,
            ))
        },
        _ => {
            let (joining_request_id, p2) = cur_varint(buf, p1)?;
            let (joining_start, p3) = cur_varint(buf, p2)?;
            Ok(((ft, FetchPayload::Joining { joining_request_id, joining_start }), p3))
        },
    }
}

/// Read a request's Subscriber Priority, Group Order and Forward at `pos`.
pub fn read_prio_order_fwd(buf: &[u8], pos: usize) -> (r: Result<((u8, GroupOrder, Forward), usize), CodecError>)
    requires
        pos <= buf@.len(),
    ensures
        match rd_octets(prio_order_fwd(), buf@.skip(pos as int)) {
            Ok((b, rest)) => (r matches Ok(((x, o, f), n)) && b == seq![x, spec_order_byte(o), spec_fwd_byte(f)]
                && pos <= n <= buf@.len() && buf@.skip(n as int) == rest),
            Err(e) => r == Err::<((u8, GroupOrder, Forward), usize), CodecError>(e),
        },
{
    let ghost s = buf@.skip(pos as int);
    proof {
        reveal_with_fuel(octets_err, 4);
    }
    if buf.len() - pos < 3 {
        return Err(CodecError::UnexpectedEnd);
    }
    let a = buf[pos];
    let b = buf[pos + 1];
    let c = buf[pos + 2];
    proof {
        assert(s.take(3) =~= seq![a, b, c]);
        assert(s.skip(3) =~= buf@.skip(pos + 3));
        assert(seq![a, b, c].drop_first() =~= seq![b, c]);
        assert(seq![b, c].drop_first() =~= seq![c]);
        assert(prio_order_fwd().drop_first() =~= seq![ByteRule::Order, ByteRule::Fwd]);
        assert(seq![ByteRule::Order, ByteRule::Fwd].drop_first() =~= seq![ByteRule::Fwd]);
        assert(seq![ByteRule::Fwd].drop_first() =~= Seq::<ByteRule>::empty());
    }
    if b > 2 {
        return Err(CodecError::InvalidField);
    }
    if c > 1 {
        return Err(CodecError::InvalidForward(c));
    }
    Ok(((a, order_of(b), fwd_of(c)), pos + 3))
}

/// Read a response's Forward, Subscriber Priority and Group Order at `pos`.
pub fn read_fwd_prio_order_resp(buf: &[u8], pos: usize) -> (r: Result<((Forward, u8, GroupOrder), usize), CodecError>)
    requires
        pos <= buf@.len(),
    ensures
        match rd_octets(fwd_prio_order_resp(), buf@.skip(pos as int)) {
            Ok((b, rest)) => (r matches Ok(((f, x, o), n)) && b == seq![spec_fwd_byte(f), x, spec_order_byte(o)]
                && pos <= n <= buf@.len() && buf@.skip(n as int) == rest),
            Err(e) => r == Err::<((Forward, u8, GroupOrder), usize), CodecError>(e),
        },
{
    let ghost s = buf@.skip(pos as int);
    proof {
        reveal_with_fuel(octets_err, 4);
    }
    if buf.len() - pos < 3 {
        return Err(CodecError::UnexpectedEnd);
    }
    let a = buf[pos];
    let b = buf[pos + 1];
    let c = buf[pos + 2];
    proof {
        assert(s.take(3) =~= seq![a, b, c]);
        assert(s.skip(3) =~= buf@.skip(pos + 3));
        assert(seq![a, b, c].drop_first() =~= seq![b, c]);
        assert(seq![b, c].drop_first() =~= seq![c]);
        assert(fwd_prio_order_resp().drop_first() =~= seq![ByteRule::Any, ByteRule::OrderResp]);
        assert(seq![ByteRule::Any, ByteRule::OrderResp].drop_first() =~= seq![ByteRule::OrderResp]);
        assert(seq![ByteRule::OrderResp].drop_first() =~= Seq::<ByteRule>::empty());
    }
    if a > 1 {
        return Err(CodecError::InvalidForward(a));
    }
    if c == 0 || c > 2 {
        return Err(CodecError::InvalidField);
    }
    Ok(((fwd_of(a), b, order_of(c)), pos + 3))
}

/// Read an update's Subscriber Priority and Forward at `pos`.
pub fn read_prio_fwd(buf: &[u8], pos: usize) -> (r: Result<((u8, Forward), usize), CodecError>)
    requires
        pos <= buf@.len(),
    ensures
        match rd_octets(prio_fwd(), buf@.skip(pos as int)) {
            Ok((b, rest)) => (r matches Ok(((x, f), n)) && b == seq![x, spec_fwd_byte(f)]
                && pos <= n <= buf@.len() && buf@.skip(n as int) == rest),
            Err(e) => r == Err::<((u8, Forward), usize), CodecError>(e),
        },
{
    let ghost s = buf@.skip(pos as int);
    proof {
        reveal_with_fuel(octets_err, 3);
    }
    if buf.len() - pos < 2 {
        return Err(CodecError::UnexpectedEnd);
    }
    let a = buf[pos];
    let b = buf[pos + 1];
    proof {
        assert(s.take(2) =~= seq![a, b]);
        assert(s.skip(2) =~= buf@.skip(pos + 2));
        assert(seq![a, b].drop_first() =~= seq![b]);
        assert(prio_fwd().drop_first() =~= seq![ByteRule::Fwd]);
        assert(seq![ByteRule::Fwd].drop_first() =~= Seq::<ByteRule>::empty());
    }
    if b > 1 {
        return Err(CodecError::InvalidForward(b));
    }
    Ok(((a, fwd_of(b)), pos + 2))
}

/// Read a FETCH's Subscriber Priority and Group Order at `pos`.
pub fn read_prio_order(buf: &[u8], pos: usize) -> (r: Result<((u8, GroupOrder), usize), CodecError>)
    requires
        pos <= buf@.len(),
    ensures
        match rd_octets(prio_order(), buf@.skip(pos as int)) {
            Ok((b, rest)) => (r matches Ok(((x, o), n)) && b == seq![x, spec_order_byte(o)]
                && pos <= n <= buf@.len() && buf@.skip(n as int) == rest),
            Err(e) => r == Err::<((u8, GroupOrder), usize), CodecError>(e),
        },
{
    let ghost s = buf@.skip(pos as int);
    proof {
        reveal_with_fuel(octets_err, 3);
    }
    if buf.len() - pos < 2 {
        return Err(CodecError::UnexpectedEnd);
    }
    let a = buf[pos];
    let b = buf[pos + 1];
    proof {
        assert(s.take(2) =~= seq![a, b]);
        assert(s.skip(2) =~= buf@.skip(pos + 2));
        assert(seq![a, b].drop_first() =~= seq![b]);
        assert(prio_order().drop_first() =~= seq![ByteRule::Order]);
        assert(seq![ByteRule::Order].drop_first() =~= Seq::<ByteRule>::empty());
    }
    if b > 2 {
        return Err(CodecError::InvalidField);
    }
    Ok(((a, order_of(b)), pos + 2))
}

/// Read a FETCH_OK's Group Order and End Of Track at `pos`.
pub fn read_order_resp_byte(buf: &[u8], pos: usize) -> (r: Result<((GroupOrder, u8), usize), CodecError>)
    requires
        pos <= buf@.len(),
    ensures
        match rd_octets(order_resp_byte(), buf@.skip(pos as int)) {
            Ok((b, rest)) => (r matches Ok(((o, x), n)) && b == seq![spec_order_byte(o), x]
                && pos <= n <= buf@.len() && buf@.skip(n as int) == rest),
            Err(e) => r == Err::<((GroupOrder, u8), usize), CodecError>(e),
        },
{
    let ghost s = buf@.skip(pos as int);
    proof {
        reveal_with_fuel(octets_err, 3);
    }
    if buf.len() - pos < 2 {
        return Err(CodecError::UnexpectedEnd);
    }
    let a = buf[pos];
    let b = buf[pos + 1];
    proof {
        assert(s.take(2) =~= seq![a, b]);
        assert(s.skip(2) =~= buf@.skip(pos + 2));
        assert(seq![a, b].drop_first() =~= seq![b]);
        assert(order_resp_byte().drop_first() =~= seq![ByteRule::Any]);
        assert(seq![ByteRule::Any].drop_first() =~= Seq::<ByteRule>::empty());
    }
    if a == 0 || a > 2 {
        return Err(CodecError::InvalidField);
    }
    Ok(((order_of(a), b), pos + 2))
}

/// Read a PUBLISH's Forward at `pos`.
pub fn read_forward(buf: &[u8], pos: usize) -> (r: Result<(Forward, usize), CodecError>)
    requires
        pos <= buf@.len(),
    ensures
        match rd_octets(fwd_only(), buf@.skip(pos as int)) {
            Ok((b, rest)) => (r matches Ok((f, n)) && b == seq![spec_fwd_byte(f)]
                && pos <= n <= buf@.len() && buf@.skip(n as int) == rest),
            Err(e) => r == Err::<(Forward, usize), CodecError>(e),
        },
{
    let ghost s = buf@.skip(pos as int);
    proof {
        reveal_with_fuel(octets_err, 2);
    }
    if buf.len() - pos < 1 {
        return Err(CodecError::UnexpectedEnd);
    }
    let a = buf[pos];
    proof {
        assert(s.take(1) =~= seq![a]);
        assert(s.skip(1) =~= buf@.skip(pos + 1));
        assert(seq![a].drop_first() =~= Seq::<u8>::empty());
        assert(fwd_only().drop_first() =~= Seq::<ByteRule>::empty());
    }
    if a > 1 {
        return Err(CodecError::InvalidForward(a));
    }
    Ok((fwd_of(a), pos + 1))
}

// ── Field writers ────────────────────────────────────────────

fn put_varint(x: VarInt, buf: &mut Vec<u8>) -> (r: Result<(), CodecError>)
    ensures
        r == Ok::<(), CodecError>(()),
        final(buf)@ == old(buf)@ + spec_varint_encode(x@),
{
    x.encode(buf);
    Ok(())
}

fn put1(a: u8, buf: &mut Vec<u8>) -> (r: Result<(), CodecError>)
    ensures
        r == Ok::<(), CodecError>(()),
        final(buf)@ == old(buf)@ + seq![a],
{
    buf.push(a);
    assert(buf@ =~= old(buf)@ + seq![a]);
    Ok(())
}

fn put2(a: u8, b: u8, buf: &mut Vec<u8>) -> (r: Result<(), CodecError>)
    ensures
        r == Ok::<(), CodecError>(()),
        final(buf)@ == old(buf)@ + seq![a, b],
{
    buf.push(a);
    buf.push(b);
    assert(buf@ =~= old(buf)@ + seq![a, b]);
    Ok(())
}

fn put3(a: u8, b: u8, c: u8, buf: &mut Vec<u8>) -> (r: Result<(), CodecError>)
    ensures
        r == Ok::<(), CodecError>(()),
        final(buf)@ == old(buf)@ + seq![a, b, c],
{
    buf.push(a);
    buf.push(b);
    buf.push(c);
    assert(buf@ =~= old(buf)@ + seq![a, b, c]);
    Ok(())
}

fn put_capped_bytes(b: &Vec<u8>, max: u64, err: CodecError, buf: &mut Vec<u8>) -> (r: Result<(), CodecError>)
    requires
        b@.len() < VARINT_BOUND,
    ensures
        match enc_capped(b@, max, err) {
            Ok(x) => r == Ok::<(), CodecError>(()) && final(buf)@ == old(buf)@ + x,
            Err(e) => r == Err::<(), CodecError>(e) && final(buf)@ == old(buf)@,
        },
{
    if b.len() as u64 > max {
        return Err(err);
    }
    VarInt::from_usize(b.len()).encode(buf);
    put_slice(buf, b.as_slice());
    assert(buf@ =~= old(buf)@ + enc_len_bytes(b@));
    Ok(())
}

fn put_track_name(ns: &TrackNamespace, b: &Vec<u8>, buf: &mut Vec<u8>) -> (r: Result<(), CodecError>)
    requires
        b@.len() < VARINT_BOUND,
    ensures
        match enc_name(ns_view(ns.0@), b@) {
            Ok(x) => r == Ok::<(), CodecError>(()) && final(buf)@ == old(buf)@ + x,
            Err(e) => r == Err::<(), CodecError>(e) && final(buf)@ == old(buf)@,
        },
{
    proof {
        lemma_ns_bytes_len(ns.0@);
    }
    check_full_track_name(ns, b.as_slice())?;
    VarInt::from_usize(b.len()).encode(buf);
    put_slice(buf, b.as_slice());
    assert(buf@ =~= old(buf)@ + enc_len_bytes(b@));
    Ok(())
}

fn put_namespace(ns: &TrackNamespace, buf: &mut Vec<u8>) -> (r: Result<(), CodecError>)
    requires
        ns_fits(ns_view(ns.0@)),
    ensures
        match enc_ns(ns_view(ns.0@)) {
            Ok(x) => r == Ok::<(), CodecError>(()) && final(buf)@ == old(buf)@ + x,
            Err(e) => r == Err::<(), CodecError>(e) && final(buf)@ == old(buf)@,
        },
{
    ns.validate(1, false)?;
    ns.encode(buf);
    Ok(())
}

fn put_location(l: &Location, buf: &mut Vec<u8>) -> (r: Result<(), CodecError>)
    ensures
        r == Ok::<(), CodecError>(()),
        final(buf)@ == old(buf)@ + enc_loc(loc_view(*l)),
{
    l.group.encode(buf);
    l.object.encode(buf);
    assert(buf@ =~= old(buf)@ + enc_loc(loc_view(*l)));
    Ok(())
}

fn put_content(o: GroupOrder, c: ContentExists, l: &Option<Location>, buf: &mut Vec<u8>) -> (r: Result<(), CodecError>)
    ensures
        r == Ok::<(), CodecError>(()),
        final(buf)@ == old(buf)@ + (seq![spec_order_byte(o), spec_exists_byte(c)] + enc_opt_loc(opt_loc_view(*l))),
{
    let ghost start = buf@;
    put2(order_byte(o), exists_byte(c), buf)?;
    match l {
        Some(x) => {
            put_location(x, buf)?;
        },
        None => {},
    }
    assert(buf@ =~= start + (seq![spec_order_byte(o), spec_exists_byte(c)] + enc_opt_loc(opt_loc_view(*l))));
    Ok(())
}

fn put_filter(t: FilterType, l: &Option<Location>, e: &Option<VarInt>, buf: &mut Vec<u8>) -> (r: Result<(), CodecError>)
    ensures
        r == Ok::<(), CodecError>(()),
        final(buf)@ == old(buf)@ + (spec_varint_encode(spec_filter_value(t)) + (enc_opt_loc(opt_loc_view(*l))
            + enc_opt_int(opt_int_view(*e)))),
{
    let ghost start = buf@;
    VarInt::from_usize(filter_value(t) as usize).encode(buf);
    let ghost b1 = buf@;
    match l {
        Some(x) => {
            put_location(x, buf)?;
        },
        None => {},
    }
    let ghost b2 = buf@;
    match e {
        Some(x) => {
            x.encode(buf);
        },
        None => {},
    }
    assert(b1 =~= start + spec_varint_encode(spec_filter_value(t)));
    assert(b2 =~= b1 + enc_opt_loc(opt_loc_view(*l)));
    assert(buf@ =~= b2 + enc_opt_int(opt_int_view(*e)));
    assert(buf@ =~= start + (spec_varint_encode(spec_filter_value(t)) + (enc_opt_loc(opt_loc_view(*l))
        + enc_opt_int(opt_int_view(*e)))));
    Ok(())
}

proof fn lemma_enc_ints_push(vs: Seq<u64>, v: u64)
    ensures
        enc_ints(vs.push(v)) == enc_ints(vs) + spec_varint_encode(v),
    decreases vs.len(),
{
    if vs.len() == 0 {
        assert(vs.push(v).drop_first() =~= Seq::<u64>::empty());
        assert(enc_ints(Seq::<u64>::empty()) == Seq::<u8>::empty());
        assert(vs.push(v)[0] == v);
        assert(enc_ints(vs.push(v)) =~= spec_varint_encode(v) + Seq::<u8>::empty());
        assert(enc_ints(vs) + spec_varint_encode(v) =~= spec_varint_encode(v));
    } else {
        lemma_enc_ints_push(vs.drop_first(), v);
        assert(vs.push(v).drop_first() =~= vs.drop_first().push(v));
        assert(enc_ints(vs.push(v)) =~= spec_varint_encode(vs[0]) + (enc_ints(vs.drop_first()) + spec_varint_encode(v)));
    }
}

fn put_versions(vs: &Vec<VarInt>, buf: &mut Vec<u8>) -> (r: Result<(), CodecError>)
    requires
        vs@.len() < VARINT_BOUND,
    ensures
        r == Ok::<(), CodecError>(()),
        final(buf)@ == old(buf)@ + (spec_varint_encode(vs@.len() as u64) + enc_ints(ints_view(vs@))),
{
    let ghost start = buf@;
    VarInt::from_usize(vs.len()).encode(buf);
    let ghost b1 = buf@;
    let mut i: usize = 0;
    while i < vs.len()
        invariant
            i <= vs@.len(),
            b1 == start + spec_varint_encode(vs@.len() as u64),
            buf@ == b1 + enc_ints(ints_view(vs@).take(i as int)),
        decreases vs@.len() - i,
    {
        let ghost before = buf@;
        vs[i].encode(buf);
        proof {
            lemma_enc_ints_push(ints_view(vs@).take(i as int), vs@[i as int]@);
            assert(ints_view(vs@).take(i as int).push(vs@[i as int]@) =~= ints_view(vs@).take(i + 1));
        }
        i = i + 1;
    }
    assert(ints_view(vs@).take(vs@.len() as int) =~= ints_view(vs@));
    assert(buf@ =~= start + (spec_varint_encode(vs@.len() as u64) + enc_ints(ints_view(vs@))));
    Ok(())
}

#[verifier::rlimit(80)]
#[verifier::spinoff_prover]
fn put_fetch_body(t: FetchType, p: &FetchPayload, buf: &mut Vec<u8>) -> (r: Result<(), CodecError>)
    requires
        field_fits(fetch_body_view(t, *p)),
    ensures
        match enc_fetch_body(t.spec_value(), fetch_body_view(t, *p)->payload) {
            Ok(x) => r == Ok::<(), CodecError>(()) && final(buf)@ == old(buf)@ + x,
            Err(e) => r == Err::<(), CodecError>(e),
        },
{
    let tv: usize = match t {
        FetchType::Standalone => 1,
        FetchType::RelativeJoining => 2,
        FetchType::AbsoluteJoining => 3,
    };
    let ghost start = buf@;
    match p {
        FetchPayload::Standalone { track_namespace, track_name, start_group, start_object, end_group, end_object } => {
            proof {
                lemma_ns_bytes_len(track_namespace.0@);
            }
            check_full_track_name(track_namespace, track_name.as_slice())?;
            track_namespace.validate(1, false)?;
            VarInt::from_usize(tv).encode(buf);
            let ghost b1 = buf@;
            track_namespace.encode(buf);
            let ghost b2 = buf@;
            put_track_name(track_namespace, track_name, buf)?;
            let ghost b3 = buf@;
            start_group.encode(buf);
            start_object.encode(buf);
            end_group.encode(buf);
            end_object.encode(buf);
            proof {
                assert(buf@ =~= start + (spec_varint_encode(tv as u64) + (b2.skip(b1.len() as int) + (b3.skip(b2.len() as int)
                    + (spec_varint_encode(start_group@) + (spec_varint_encode(start_object@) + (spec_varint_encode(end_group@)
                    + spec_varint_encode(end_object@))))))));
            }
        },
        FetchPayload::Joining { joining_request_id, joining_start } => {
            VarInt::from_usize(tv).encode(buf);
            joining_request_id.encode(buf);
            joining_start.encode(buf);
            proof {
                assert(buf@ =~= start + (spec_varint_encode(tv as u64) + (spec_varint_encode(joining_request_id@)
                    + spec_varint_encode(joining_start@))));
            }
        },
    }
    Ok(())
}

proof fn lemma_rd_fields_push(kinds: Seq<FieldKind>, k: FieldKind, s: Seq<u8>)
    ensures
        rd_fields(kinds.push(k), s) == match rd_fields(kinds, s) {
            Err(e) => Err(e),
            Ok((vs, s1)) => match rd_field(k, vs, s1) {
                Err(e) => Err(e),
                Ok((v, s2)) => Ok((vs.push(v), s2)),
            },
        },
{
    assert(kinds.push(k).drop_last() =~= kinds);
}

/// The fields of each message type, in wire order.
pub open spec fn schema(t: MessageType) -> Seq<FieldKind> {
    match t {
        MessageType::ClientSetup => seq![FieldKind::Versions, FieldKind::SetupParams],
        MessageType::ServerSetup => seq![FieldKind::Int, FieldKind::SetupParams],
        MessageType::GoAway => seq![FieldKind::Uri],
        MessageType::MaxRequestId => seq![FieldKind::Int],
        MessageType::RequestsBlocked => seq![FieldKind::Int],
        MessageType::Subscribe => seq![FieldKind::Int, FieldKind::Ns, FieldKind::Name, FieldKind::Octets(prio_order_fwd()), FieldKind::Filter, FieldKind::Params],
        MessageType::SubscribeOk => seq![FieldKind::Int, FieldKind::Int, FieldKind::Int, FieldKind::Content, FieldKind::Params],
        MessageType::SubscribeError => seq![FieldKind::Int, FieldKind::Int, FieldKind::Reason],
        MessageType::SubscribeUpdate => seq![FieldKind::Int, FieldKind::Int, FieldKind::Loc, FieldKind::Int, FieldKind::Octets(prio_fwd()), FieldKind::Params],
        MessageType::Unsubscribe => seq![FieldKind::Int],
        MessageType::Publish => seq![FieldKind::Int, FieldKind::Ns, FieldKind::Name, FieldKind::Int, FieldKind::Content, FieldKind::Octets(fwd_only()), FieldKind::Params],
        MessageType::PublishOk => seq![FieldKind::Int, FieldKind::Octets(fwd_prio_order_resp()), FieldKind::Filter, FieldKind::Params],
        MessageType::PublishError => seq![FieldKind::Int, FieldKind::Int, FieldKind::Reason],
        MessageType::PublishDone => seq![FieldKind::Int, FieldKind::Int, FieldKind::Int, FieldKind::Reason],
        MessageType::PublishNamespace => seq![FieldKind::Int, FieldKind::Ns, FieldKind::Params],
        MessageType::PublishNamespaceOk => seq![FieldKind::Int],
        MessageType::PublishNamespaceError => seq![FieldKind::Int, FieldKind::Int, FieldKind::Reason],
        MessageType::PublishNamespaceDone => seq![FieldKind::Ns],
        MessageType::PublishNamespaceCancel => seq![FieldKind::Ns, FieldKind::Int, FieldKind::Reason],
        MessageType::SubscribeNamespace => seq![FieldKind::Int, FieldKind::Ns, FieldKind::Params],
        MessageType::SubscribeNamespaceOk => seq![FieldKind::Int],
        MessageType::SubscribeNamespaceError => seq![FieldKind::Int, FieldKind::Int, FieldKind::Reason],
        MessageType::UnsubscribeNamespace => seq![FieldKind::Ns],
        MessageType::Fetch => seq![FieldKind::Int, FieldKind::Octets(prio_order()), FieldKind::FetchBody, FieldKind::Params],
        MessageType::FetchOk => seq![FieldKind::Int, FieldKind::Octets(order_resp_byte()), FieldKind::Loc, FieldKind::Params],
        MessageType::FetchError => seq![FieldKind::Int, FieldKind::Int, FieldKind::Reason],
        MessageType::FetchCancel => seq![FieldKind::Int],
        MessageType::TrackStatus => seq![FieldKind::Int, FieldKind::Ns, FieldKind::Name, FieldKind::Octets(prio_order_fwd()), FieldKind::Filter, FieldKind::Params],
        MessageType::TrackStatusOk => seq![FieldKind::Int, FieldKind::Int, FieldKind::Int, FieldKind::Content, FieldKind::Params],
        MessageType::TrackStatusError => seq![FieldKind::Int, FieldKind::Int, FieldKind::Reason],
    }
}

/// The view of a ClientSetup.
pub open spec fn client_setup_view(m: ClientSetup) -> ControlMessageView {
    ControlMessageView {
        message_type: MessageType::ClientSetup,
        fields: seq![Field::Ints(ints_view(m.supported_versions@)), Field::Pairs(spec_kvp_views(m.parameters@))],
    }
}

/// The view of a ServerSetup.
pub open spec fn server_setup_view(m: ServerSetup) -> ControlMessageView {
    ControlMessageView {
        message_type: MessageType::ServerSetup,
        fields: seq![Field::Int(m.selected_version@), Field::Pairs(spec_kvp_views(m.parameters@))],
    }
}

/// The view of a GoAway.
pub open spec fn go_away_view(m: GoAway) -> ControlMessageView {
    ControlMessageView {
        message_type: MessageType::GoAway,
        fields: seq![Field::Bytes(m.new_session_uri@)],
    }
}

/// The view of a MaxRequestId.
pub open spec fn max_request_id_view(m: MaxRequestId) -> ControlMessageView {
    ControlMessageView {
        message_type: MessageType::MaxRequestId,
        fields: seq![Field::Int(m.request_id@)],
    }
}

/// The view of a RequestsBlocked.
pub open spec fn requests_blocked_view(m: RequestsBlocked) -> ControlMessageView {
    ControlMessageView {
        message_type: MessageType::RequestsBlocked,
        fields: seq![Field::Int(m.maximum_request_id@)],
    }
}

/// The view of a Subscribe.
pub open spec fn subscribe_view(m: Subscribe) -> ControlMessageView {
    ControlMessageView {
        message_type: MessageType::Subscribe,
        fields: seq![Field::Int(m.request_id@), Field::Ns(ns_view(m.track_namespace.0@)), Field::Bytes(m.track_name@), Field::Octets(seq![m.subscriber_priority, spec_order_byte(m.group_order), spec_fwd_byte(m.forward)]), Field::Filter { filter_type: spec_filter_value(m.filter_type), start: opt_loc_view(m.start_location), end_group: opt_int_view(m.end_group) }, Field::Pairs(spec_kvp_views(m.parameters@))],
    }
}

/// The view of a SubscribeOk.
pub open spec fn subscribe_ok_view(m: SubscribeOk) -> ControlMessageView {
    ControlMessageView {
        message_type: MessageType::SubscribeOk,
        fields: seq![Field::Int(m.request_id@), Field::Int(m.track_alias@), Field::Int(m.expires@), Field::Content { order: spec_order_byte(m.group_order), exists: spec_exists_byte(m.content_exists), largest: opt_loc_view(m.largest_location) }, Field::Pairs(spec_kvp_views(m.parameters@))],
    }
}

/// The view of a SubscribeError.
pub open spec fn subscribe_error_view(m: SubscribeError) -> ControlMessageView {
    ControlMessageView {
        message_type: MessageType::SubscribeError,
        fields: seq![Field::Int(m.request_id@), Field::Int(m.error_code@), Field::Bytes(m.reason_phrase@)],
    }
}

/// The view of a SubscribeUpdate.
pub open spec fn subscribe_update_view(m: SubscribeUpdate) -> ControlMessageView {
    ControlMessageView {
        message_type: MessageType::SubscribeUpdate,
        fields: seq![Field::Int(m.request_id@), Field::Int(m.subscription_request_id@), Field::Loc(m.start_location.group@, m.start_location.object@), Field::Int(m.end_group@), Field::Octets(seq![m.subscriber_priority, spec_fwd_byte(m.forward)]), Field::Pairs(spec_kvp_views(m.parameters@))],
    }
}

/// The view of a Unsubscribe.
pub open spec fn unsubscribe_view(m: Unsubscribe) -> ControlMessageView {
    ControlMessageView {
        message_type: MessageType::Unsubscribe,
        fields: seq![Field::Int(m.request_id@)],
    }
}

/// The view of a Publish.
pub open spec fn publish_view(m: Publish) -> ControlMessageView {
    ControlMessageView {
        message_type: MessageType::Publish,
        fields: seq![Field::Int(m.request_id@), Field::Ns(ns_view(m.track_namespace.0@)), Field::Bytes(m.track_name@), Field::Int(m.track_alias@), Field::Content { order: spec_order_byte(m.group_order), exists: spec_exists_byte(m.content_exists), largest: opt_loc_view(m.largest_location) }, Field::Octets(seq![spec_fwd_byte(m.forward)]), Field::Pairs(spec_kvp_views(m.parameters@))],
    }
}

/// The view of a PublishOk.
pub open spec fn publish_ok_view(m: PublishOk) -> ControlMessageView {
    ControlMessageView {
        message_type: MessageType::PublishOk,
        fields: seq![Field::Int(m.request_id@), Field::Octets(seq![spec_fwd_byte(m.forward), m.subscriber_priority, spec_order_byte(m.group_order)]), Field::Filter { filter_type: spec_filter_value(m.filter_type), start: opt_loc_view(m.start_location), end_group: opt_int_view(m.end_group) }, Field::Pairs(spec_kvp_views(m.parameters@))],
    }
}

/// The view of a PublishError.
pub open spec fn publish_error_view(m: PublishError) -> ControlMessageView {
    ControlMessageView {
        message_type: MessageType::PublishError,
        fields: seq![Field::Int(m.request_id@), Field::Int(m.error_code@), Field::Bytes(m.reason_phrase@)],
    }
}

/// The view of a PublishDone.
pub open spec fn publish_done_view(m: PublishDone) -> ControlMessageView {
    ControlMessageView {
        message_type: MessageType::PublishDone,
        fields: seq![Field::Int(m.request_id@), Field::Int(m.status_code@), Field::Int(m.stream_count@), Field::Bytes(m.reason_phrase@)],
    }
}

/// The view of a PublishNamespace.
pub open spec fn publish_namespace_view(m: PublishNamespace) -> ControlMessageView {
    ControlMessageView {
        message_type: MessageType::PublishNamespace,
        fields: seq![Field::Int(m.request_id@), Field::Ns(ns_view(m.track_namespace.0@)), Field::Pairs(spec_kvp_views(m.parameters@))],
    }
}

/// The view of a PublishNamespaceOk.
pub open spec fn publish_namespace_ok_view(m: PublishNamespaceOk) -> ControlMessageView {
    ControlMessageView {
        message_type: MessageType::PublishNamespaceOk,
        fields: seq![Field::Int(m.request_id@)],
    }
}

/// The view of a PublishNamespaceError.
pub open spec fn publish_namespace_error_view(m: PublishNamespaceError) -> ControlMessageView {
    ControlMessageView {
        message_type: MessageType::PublishNamespaceError,
        fields: seq![Field::Int(m.request_id@), Field::Int(m.error_code@), Field::Bytes(m.reason_phrase@)],
    }
}

/// The view of a PublishNamespaceDone.
pub open spec fn publish_namespace_done_view(m: PublishNamespaceDone) -> ControlMessageView {
    ControlMessageView {
        message_type: MessageType::PublishNamespaceDone,
        fields: seq![Field::Ns(ns_view(m.track_namespace.0@))],
    }
}

/// The view of a PublishNamespaceCancel.
pub open spec fn publish_namespace_cancel_view(m: PublishNamespaceCancel) -> ControlMessageView {
    ControlMessageView {
        message_type: MessageType::PublishNamespaceCancel,
        fields: seq![Field::Ns(ns_view(m.track_namespace.0@)), Field::Int(m.error_code@), Field::Bytes(m.reason_phrase@)],
    }
}

/// The view of a SubscribeNamespace.
pub open spec fn subscribe_namespace_view(m: SubscribeNamespace) -> ControlMessageView {
    ControlMessageView {
        message_type: MessageType::SubscribeNamespace,
        fields: seq![Field::Int(m.request_id@), Field::Ns(ns_view(m.track_namespace.0@)), Field::Pairs(spec_kvp_views(m.parameters@))],
    }
}

/// The view of a SubscribeNamespaceOk.
pub open spec fn subscribe_namespace_ok_view(m: SubscribeNamespaceOk) -> ControlMessageView {
    ControlMessageView {
        message_type: MessageType::SubscribeNamespaceOk,
        fields: seq![Field::Int(m.request_id@)],
    }
}

/// The view of a SubscribeNamespaceError.
pub open spec fn subscribe_namespace_error_view(m: SubscribeNamespaceError) -> ControlMessageView {
    ControlMessageView {
        message_type: MessageType::SubscribeNamespaceError,
        fields: seq![Field::Int(m.request_id@), Field::Int(m.error_code@), Field::Bytes(m.reason_phrase@)],
    }
}

/// The view of a UnsubscribeNamespace.
pub open spec fn unsubscribe_namespace_view(m: UnsubscribeNamespace) -> ControlMessageView {
    ControlMessageView {
        message_type: MessageType::UnsubscribeNamespace,
        fields: seq![Field::Ns(ns_view(m.track_namespace_prefix.0@))],
    }
}

/// The view of a Fetch.
pub open spec fn fetch_view(m: Fetch) -> ControlMessageView {
    ControlMessageView {
        message_type: MessageType::Fetch,
        fields: seq![Field::Int(m.request_id@), Field::Octets(seq![m.subscriber_priority, spec_order_byte(m.group_order)]), fetch_body_view(m.fetch_type, m.fetch_payload), Field::Pairs(spec_kvp_views(m.parameters@))],
    }
}

/// The view of a FetchOk.
pub open spec fn fetch_ok_view(m: FetchOk) -> ControlMessageView {
    ControlMessageView {
        message_type: MessageType::FetchOk,
        fields: seq![Field::Int(m.request_id@), Field::Octets(seq![spec_order_byte(m.group_order), m.end_of_track]), Field::Loc(m.end_location.group@, m.end_location.object@), Field::Pairs(spec_kvp_views(m.parameters@))],
    }
}

/// The view of a FetchError.
pub open spec fn fetch_error_view(m: FetchError) -> ControlMessageView {
    ControlMessageView {
        message_type: MessageType::FetchError,
        fields: seq![Field::Int(m.request_id@), Field::Int(m.error_code@), Field::Bytes(m.reason_phrase@)],
    }
}

/// The view of a FetchCancel.
pub open spec fn fetch_cancel_view(m: FetchCancel) -> ControlMessageView {
    ControlMessageView {
        message_type: MessageType::FetchCancel,
        fields: seq![Field::Int(m.request_id@)],
    }
}

/// The view of a TrackStatus.
pub open spec fn track_status_view(m: TrackStatus) -> ControlMessageView {
    ControlMessageView {
        message_type: MessageType::TrackStatus,
        fields: seq![Field::Int(m.request_id@), Field::Ns(ns_view(m.track_namespace.0@)), Field::Bytes(m.track_name@), Field::Octets(seq![m.subscriber_priority, spec_order_byte(m.group_order), spec_fwd_byte(m.forward)]), Field::Filter { filter_type: spec_filter_value(m.filter_type), start: opt_loc_view(m.start_location), end_group: opt_int_view(m.end_group) }, Field::Pairs(spec_kvp_views(m.parameters@))],
    }
}

/// The view of a TrackStatusOk.
pub open spec fn track_status_ok_view(m: TrackStatusOk) -> ControlMessageView {
    ControlMessageView {
        message_type: MessageType::TrackStatusOk,
        fields: seq![Field::Int(m.request_id@), Field::Int(m.track_alias@), Field::Int(m.expires@), Field::Content { order: spec_order_byte(m.group_order), exists: spec_exists_byte(m.content_exists), largest: opt_loc_view(m.largest_location) }, Field::Pairs(spec_kvp_views(m.parameters@))],
    }
}

/// The view of a TrackStatusError.
pub open spec fn track_status_error_view(m: TrackStatusError) -> ControlMessageView {
    ControlMessageView {
        message_type: MessageType::TrackStatusError,
        fields: seq![Field::Int(m.request_id@), Field::Int(m.error_code@), Field::Bytes(m.reason_phrase@)],
    }
}

impl View for ControlMessage {
    type V = ControlMessageView;

    open spec fn view(&self) -> ControlMessageView {
        match self {
            ControlMessage::ClientSetup(m) => client_setup_view(*m),
            ControlMessage::ServerSetup(m) => server_setup_view(*m),
            ControlMessage::GoAway(m) => go_away_view(*m),
            ControlMessage::MaxRequestId(m) => max_request_id_view(*m),
            ControlMessage::RequestsBlocked(m) => requests_blocked_view(*m),
            ControlMessage::Subscribe(m) => subscribe_view(*m),
            ControlMessage::SubscribeOk(m) => subscribe_ok_view(*m),
            ControlMessage::SubscribeError(m) => subscribe_error_view(*m),
            ControlMessage::SubscribeUpdate(m) => subscribe_update_view(*m),
            ControlMessage::Unsubscribe(m) => unsubscribe_view(*m),
            ControlMessage::Publish(m) => publish_view(*m),
            ControlMessage::PublishOk(m) => publish_ok_view(*m),
            ControlMessage::PublishError(m) => publish_error_view(*m),
            ControlMessage::PublishDone(m) => publish_done_view(*m),
            ControlMessage::PublishNamespace(m) => publish_namespace_view(*m),
            ControlMessage::PublishNamespaceOk(m) => publish_namespace_ok_view(*m),
            ControlMessage::PublishNamespaceError(m) => publish_namespace_error_view(*m),
            ControlMessage::PublishNamespaceDone(m) => publish_namespace_done_view(*m),
            ControlMessage::PublishNamespaceCancel(m) => publish_namespace_cancel_view(*m),
            ControlMessage::SubscribeNamespace(m) => subscribe_namespace_view(*m),
            ControlMessage::SubscribeNamespaceOk(m) => subscribe_namespace_ok_view(*m),
            ControlMessage::SubscribeNamespaceError(m) => subscribe_namespace_error_view(*m),
            ControlMessage::UnsubscribeNamespace(m) => unsubscribe_namespace_view(*m),
            ControlMessage::Fetch(m) => fetch_view(*m),
            ControlMessage::FetchOk(m) => fetch_ok_view(*m),
            ControlMessage::FetchError(m) => fetch_error_view(*m),
            ControlMessage::FetchCancel(m) => fetch_cancel_view(*m),
            ControlMessage::TrackStatus(m) => track_status_view(*m),
            ControlMessage::TrackStatusOk(m) => track_status_ok_view(*m),
            ControlMessage::TrackStatusError(m) => track_status_error_view(*m),
        }
    }
}

/// The fields of a ClientSetup, read one after another.
spec fn rd_client_setup(s0: Seq<u8>) -> Result<(Seq<Field>, Seq<u8>), CodecError> {
    match rd_versions(s0) {
        Err(e) => Err(e),
        Ok((x0, s1)) =>
        match rd_params(s1, false) {
            Err(e) => Err(e),
            Ok((x1, s2)) =>
                Ok((Seq::<Field>::empty().push(Field::Ints(x0)).push(Field::Pairs(x1)), s2)),
        }
    }
}

proof fn lemma_rd_client_setup(s: Seq<u8>)
    ensures
        rd_fields(schema(MessageType::ClientSetup), s) == rd_client_setup(s),
{
    reveal_with_fuel(rd_fields, 3);
}

/// The fields of a ServerSetup, read one after another.
spec fn rd_server_setup(s0: Seq<u8>) -> Result<(Seq<Field>, Seq<u8>), CodecError> {
    match rd_varint(s0) {
        Err(e) => Err(e),
        Ok((x0, s1)) =>
        match rd_params(s1, false) {
            Err(e) => Err(e),
            Ok((x1, s2)) =>
                Ok((Seq::<Field>::empty().push(Field::Int(x0)).push(Field::Pairs(x1)), s2)),
        }
    }
}

proof fn lemma_rd_server_setup(s: Seq<u8>)
    ensures
        rd_fields(schema(MessageType::ServerSetup), s) == rd_server_setup(s),
{
    reveal_with_fuel(rd_fields, 3);
}

/// The fields of a GoAway, read one after another.
spec fn rd_go_away(s0: Seq<u8>) -> Result<(Seq<Field>, Seq<u8>), CodecError> {
    match rd_capped_bytes(s0, MAX_GOAWAY_URI_LENGTH as u64, CodecError::GoAwayUriTooLong) {
        Err(e) => Err(e),
        Ok((x0, s1)) =>
            Ok((Seq::<Field>::empty().push(Field::Bytes(x0)), s1)),
    }
}

proof fn lemma_rd_go_away(s: Seq<u8>)
    ensures
        rd_fields(schema(MessageType::GoAway), s) == rd_go_away(s),
{
    reveal_with_fuel(rd_fields, 2);
}

/// The fields of a MaxRequestId, read one after another.
spec fn rd_max_request_id(s0: Seq<u8>) -> Result<(Seq<Field>, Seq<u8>), CodecError> {
    match rd_varint(s0) {
        Err(e) => Err(e),
        Ok((x0, s1)) =>
            Ok((Seq::<Field>::empty().push(Field::Int(x0)), s1)),
    }
}

proof fn lemma_rd_max_request_id(s: Seq<u8>)
    ensures
        rd_fields(schema(MessageType::MaxRequestId), s) == rd_max_request_id(s),
{
    reveal_with_fuel(rd_fields, 2);
}

/// The fields of a RequestsBlocked, read one after another.
spec fn rd_requests_blocked(s0: Seq<u8>) -> Result<(Seq<Field>, Seq<u8>), CodecError> {
    match rd_varint(s0) {
        Err(e) => Err(e),
        Ok((x0, s1)) =>
            Ok((Seq::<Field>::empty().push(Field::Int(x0)), s1)),
    }
}

proof fn lemma_rd_requests_blocked(s: Seq<u8>)
    ensures
        rd_fields(schema(MessageType::RequestsBlocked), s) == rd_requests_blocked(s),
{
    reveal_with_fuel(rd_fields, 2);
}

/// The fields of a Subscribe, read one after another.
spec fn rd_subscribe(s0: Seq<u8>) -> Result<(Seq<Field>, Seq<u8>), CodecError> {
    match rd_varint(s0) {
        Err(e) => Err(e),
        Ok((x0, s1)) =>
        match rd_namespace(s1, 1, false) {
            Err(e) => Err(e),
            Ok((x1, s2)) =>
            match rd_name(x1, s2) {
                Err(e) => Err(e),
                Ok((x2, s3)) =>
                match rd_octets(prio_order_fwd(), s3) {
                    Err(e) => Err(e),
                    Ok((x3, s4)) =>
                    match rd_filter(s4) {
                        Err(e) => Err(e),
                        Ok((x4, s5)) =>
                        match rd_params(s5, true) {
                            Err(e) => Err(e),
                            Ok((x5, s6)) =>
                                Ok((Seq::<Field>::empty().push(Field::Int(x0)).push(Field::Ns(x1)).push(Field::Bytes(x2)).push(Field::Octets(x3)).push(x4).push(Field::Pairs(x5)), s6)),
                        }
                    }
                }
            }
        }
    }
}

#[verifier::rlimit(100)]
#[verifier::spinoff_prover]
proof fn lemma_rd_subscribe(s: Seq<u8>)
    ensures
        rd_fields(schema(MessageType::Subscribe), s) == rd_subscribe(s),
{
    reveal_with_fuel(rd_fields, 7);
}

/// The fields of a SubscribeOk, read one after another.
spec fn rd_subscribe_ok(s0: Seq<u8>) -> Result<(Seq<Field>, Seq<u8>), CodecError> {
    match rd_varint(s0) {
        Err(e) => Err(e),
        Ok((x0, s1)) =>
        match rd_varint(s1) {
            Err(e) => Err(e),
            Ok((x1, s2)) =>
            match rd_varint(s2) {
                Err(e) => Err(e),
                Ok((x2, s3)) =>
                match rd_content(s3) {
                    Err(e) => Err(e),
                    Ok((x3, s4)) =>
                    match rd_params(s4, true) {
                        Err(e) => Err(e),
                        Ok((x4, s5)) =>
                            Ok((Seq::<Field>::empty().push(Field::Int(x0)).push(Field::Int(x1)).push(Field::Int(x2)).push(x3).push(Field::Pairs(x4)), s5)),
                    }
                }
            }
        }
    }
}

#[verifier::rlimit(100)]
#[verifier::spinoff_prover]
proof fn lemma_rd_subscribe_ok(s: Seq<u8>)
    ensures
        rd_fields(schema(MessageType::SubscribeOk), s) == rd_subscribe_ok(s),
{
    reveal_with_fuel(rd_fields, 6);
}

/// The fields of a SubscribeError, read one after another.
spec fn rd_subscribe_error(s0: Seq<u8>) -> Result<(Seq<Field>, Seq<u8>), CodecError> {
    match rd_varint(s0) {
        Err(e) => Err(e),
        Ok((x0, s1)) =>
        match rd_varint(s1) {
            Err(e) => Err(e),
            Ok((x1, s2)) =>
            match rd_capped_bytes(s2, MAX_REASON_PHRASE_LENGTH as u64, CodecError::ReasonPhraseTooLong) {
                Err(e) => Err(e),
                Ok((x2, s3)) =>
                    Ok((Seq::<Field>::empty().push(Field::Int(x0)).push(Field::Int(x1)).push(Field::Bytes(x2)), s3)),
            }
        }
    }
}

proof fn lemma_rd_subscribe_error(s: Seq<u8>)
    ensures
        rd_fields(schema(MessageType::SubscribeError), s) == rd_subscribe_error(s),
{
    reveal_with_fuel(rd_fields, 4);
}

/// The fields of a SubscribeUpdate, read one after another.
spec fn rd_subscribe_update(s0: Seq<u8>) -> Result<(Seq<Field>, Seq<u8>), CodecError> {
    match rd_varint(s0) {
        Err(e) => Err(e),
        Ok((x0, s1)) =>
        match rd_varint(s1) {
            Err(e) => Err(e),
            Ok((x1, s2)) =>
            match rd_loc(s2) {
                Err(e) => Err(e),
                Ok((x2, s3)) =>
                match rd_varint(s3) {
                    Err(e) => Err(e),
                    Ok((x3, s4)) =>
                    match rd_octets(prio_fwd(), s4) {
                        Err(e) => Err(e),
                        Ok((x4, s5)) =>
                        match rd_params(s5, true) {
                            Err(e) => Err(e),
                            Ok((x5, s6)) =>
                                Ok((Seq::<Field>::empty().push(Field::Int(x0)).push(Field::Int(x1)).push(Field::Loc(x2.0, x2.1)).push(Field::Int(x3)).push(Field::Octets(x4)).push(Field::Pairs(x5)), s6)),
                        }
                    }
                }
            }
        }
    }
}

#[verifier::rlimit(100)]
#[verifier::spinoff_prover]
proof fn lemma_rd_subscribe_update(s: Seq<u8>)
    ensures
        rd_fields(schema(MessageType::SubscribeUpdate), s) == rd_subscribe_update(s),
{
    reveal_with_fuel(rd_fields, 7);
}

/// The fields of a Unsubscribe, read one after another.
spec fn rd_unsubscribe(s0: Seq<u8>) -> Result<(Seq<Field>, Seq<u8>), CodecError> {
    match rd_varint(s0) {
        Err(e) => Err(e),
        Ok((x0, s1)) =>
            Ok((Seq::<Field>::empty().push(Field::Int(x0)), s1)),
    }
}

proof fn lemma_rd_unsubscribe(s: Seq<u8>)
    ensures
        rd_fields(schema(MessageType::Unsubscribe), s) == rd_unsubscribe(s),
{
    reveal_with_fuel(rd_fields, 2);
}

/// The fields of a Publish, read one after another.
spec fn rd_publish(s0: Seq<u8>) -> Result<(Seq<Field>, Seq<u8>), CodecError> {
    match rd_varint(s0) {
        Err(e) => Err(e),
        Ok((x0, s1)) =>
        match rd_namespace(s1, 1, false) {
            Err(e) => Err(e),
            Ok((x1, s2)) =>
            match rd_name(x1, s2) {
                Err(e) => Err(e),
                Ok((x2, s3)) =>
                match rd_varint(s3) {
                    Err(e) => Err(e),
                    Ok((x3, s4)) =>
                    match rd_content(s4) {
                        Err(e) => Err(e),
                        Ok((x4, s5)) =>
                        match rd_octets(fwd_only(), s5) {
                            Err(e) => Err(e),
                            Ok((x5, s6)) =>
                            match rd_params(s6, true) {
                                Err(e) => Err(e),
                                Ok((x6, s7)) =>
                                    Ok((Seq::<Field>::empty().push(Field::Int(x0)).push(Field::Ns(x1)).push(Field::Bytes(x2)).push(Field::Int(x3)).push(x4).push(Field::Octets(x5)).push(Field::Pairs(x6)), s7)),
                            }
                        }
                    }
                }
            }
        }
    }
}

#[verifier::rlimit(100)]
#[verifier::spinoff_prover]
proof fn lemma_rd_publish(s: Seq<u8>)
    ensures
        rd_fields(schema(MessageType::Publish), s) == rd_publish(s),
{
    reveal_with_fuel(rd_fields, 8);
}

/// The fields of a PublishOk, read one after another.
spec fn rd_publish_ok(s0: Seq<u8>) -> Result<(Seq<Field>, Seq<u8>), CodecError> {
    match rd_varint(s0) {
        Err(e) => Err(e),
        Ok((x0, s1)) =>
        match rd_octets(fwd_prio_order_resp(), s1) {
            Err(e) => Err(e),
            Ok((x1, s2)) =>
            match rd_filter(s2) {
                Err(e) => Err(e),
                Ok((x2, s3)) =>
                match rd_params(s3, true) {
                    Err(e) => Err(e),
                    Ok((x3, s4)) =>
                        Ok((Seq::<Field>::empty().push(Field::Int(x0)).push(Field::Octets(x1)).push(x2).push(Field::Pairs(x3)), s4)),
                }
            }
        }
    }
}

#[verifier::rlimit(100)]
#[verifier::spinoff_prover]
proof fn lemma_rd_publish_ok(s: Seq<u8>)
    ensures
        rd_fields(schema(MessageType::PublishOk), s) == rd_publish_ok(s),
{
    reveal_with_fuel(rd_fields, 5);
}

/// The fields of a PublishError, read one after another.
spec fn rd_publish_error(s0: Seq<u8>) -> Result<(Seq<Field>, Seq<u8>), CodecError> {
    match rd_varint(s0) {
        Err(e) => Err(e),
        Ok((x0, s1)) =>
        match rd_varint(s1) {
            Err(e) => Err(e),
            Ok((x1, s2)) =>
            match rd_capped_bytes(s2, MAX_REASON_PHRASE_LENGTH as u64, CodecError::ReasonPhraseTooLong) {
                Err(e) => Err(e),
                Ok((x2, s3)) =>
                    Ok((Seq::<Field>::empty().push(Field::Int(x0)).push(Field::Int(x1)).push(Field::Bytes(x2)), s3)),
            }
        }
    }
}

proof fn lemma_rd_publish_error(s: Seq<u8>)
    ensures
        rd_fields(schema(MessageType::PublishError), s) == rd_publish_error(s),
{
    reveal_with_fuel(rd_fields, 4);
}

/// The fields of a PublishDone, read one after another.
spec fn rd_publish_done(s0: Seq<u8>) -> Result<(Seq<Field>, Seq<u8>), CodecError> {
    match rd_varint(s0) {
        Err(e) => Err(e),
        Ok((x0, s1)) =>
        match rd_varint(s1) {
            Err(e) => Err(e),
            Ok((x1, s2)) =>
            match rd_varint(s2) {
                Err(e) => Err(e),
                Ok((x2, s3)) =>
                match rd_capped_bytes(s3, MAX_REASON_PHRASE_LENGTH as u64, CodecError::ReasonPhraseTooLong) {
                    Err(e) => Err(e),
                    Ok((x3, s4)) =>
                        Ok((Seq::<Field>::empty().push(Field::Int(x0)).push(Field::Int(x1)).push(Field::Int(x2)).push(Field::Bytes(x3)), s4)),
                }
            }
        }
    }
}

#[verifier::rlimit(100)]
#[verifier::spinoff_prover]
proof fn lemma_rd_publish_done(s: Seq<u8>)
    ensures
        rd_fields(schema(MessageType::PublishDone), s) == rd_publish_done(s),
{
    reveal_with_fuel(rd_fields, 5);
}

/// The fields of a PublishNamespace, read one after another.
spec fn rd_publish_namespace(s0: Seq<u8>) -> Result<(Seq<Field>, Seq<u8>), CodecError> {
    match rd_varint(s0) {
        Err(e) => Err(e),
        Ok((x0, s1)) =>
        match rd_namespace(s1, 1, false) {
            Err(e) => Err(e),
            Ok((x1, s2)) =>
            match rd_params(s2, true) {
                Err(e) => Err(e),
                Ok((x2, s3)) =>
                    Ok((Seq::<Field>::empty().push(Field::Int(x0)).push(Field::Ns(x1)).push(Field::Pairs(x2)), s3)),
            }
        }
    }
}

proof fn lemma_rd_publish_namespace(s: Seq<u8>)
    ensures
        rd_fields(schema(MessageType::PublishNamespace), s) == rd_publish_namespace(s),
{
    reveal_with_fuel(rd_fields, 4);
}

/// The fields of a PublishNamespaceOk, read one after another.
spec fn rd_publish_namespace_ok(s0: Seq<u8>) -> Result<(Seq<Field>, Seq<u8>), CodecError> {
    match rd_varint(s0) {
        Err(e) => Err(e),
        Ok((x0, s1)) =>
            Ok((Seq::<Field>::empty().push(Field::Int(x0)), s1)),
    }
}

proof fn lemma_rd_publish_namespace_ok(s: Seq<u8>)
    ensures
        rd_fields(schema(MessageType::PublishNamespaceOk), s) == rd_publish_namespace_ok(s),
{
    reveal_with_fuel(rd_fields, 2);
}

/// The fields of a PublishNamespaceError, read one after another.
spec fn rd_publish_namespace_error(s0: Seq<u8>) -> Result<(Seq<Field>, Seq<u8>), CodecError> {
    match rd_varint(s0) {
        Err(e) => Err(e),
        Ok((x0, s1)) =>
        match rd_varint(s1) {
            Err(e) => Err(e),
            Ok((x1, s2)) =>
            match rd_capped_bytes(s2, MAX_REASON_PHRASE_LENGTH as u64, CodecError::ReasonPhraseTooLong) {
                Err(e) => Err(e),
                Ok((x2, s3)) =>
                    Ok((Seq::<Field>::empty().push(Field::Int(x0)).push(Field::Int(x1)).push(Field::Bytes(x2)), s3)),
            }
        }
    }
}

proof fn lemma_rd_publish_namespace_error(s: Seq<u8>)
    ensures
        rd_fields(schema(MessageType::PublishNamespaceError), s) == rd_publish_namespace_error(s),
{
    reveal_with_fuel(rd_fields, 4);
}

/// The fields of a PublishNamespaceDone, read one after another.
spec fn rd_publish_namespace_done(s0: Seq<u8>) -> Result<(Seq<Field>, Seq<u8>), CodecError> {
    match rd_namespace(s0, 1, false) {
        Err(e) => Err(e),
        Ok((x0, s1)) =>
            Ok((Seq::<Field>::empty().push(Field::Ns(x0)), s1)),
    }
}

proof fn lemma_rd_publish_namespace_done(s: Seq<u8>)
    ensures
        rd_fields(schema(MessageType::PublishNamespaceDone), s) == rd_publish_namespace_done(s),
{
    reveal_with_fuel(rd_fields, 2);
}

/// The fields of a PublishNamespaceCancel, read one after another.
spec fn rd_publish_namespace_cancel(s0: Seq<u8>) -> Result<(Seq<Field>, Seq<u8>), CodecError> {
    match rd_namespace(s0, 1, false) {
        Err(e) => Err(e),
        Ok((x0, s1)) =>
        match rd_varint(s1) {
            Err(e) => Err(e),
            Ok((x1, s2)) =>
            match rd_capped_bytes(s2, MAX_REASON_PHRASE_LENGTH as u64, CodecError::ReasonPhraseTooLong) {
                Err(e) => Err(e),
                Ok((x2, s3)) =>
                    Ok((Seq::<Field>::empty().push(Field::Ns(x0)).push(Field::Int(x1)).push(Field::Bytes(x2)), s3)),
            }
        }
    }
}

proof fn lemma_rd_publish_namespace_cancel(s: Seq<u8>)
    ensures
        rd_fields(schema(MessageType::PublishNamespaceCancel), s) == rd_publish_namespace_cancel(s),
{
    reveal_with_fuel(rd_fields, 4);
}

/// The fields of a SubscribeNamespace, read one after another.
spec fn rd_subscribe_namespace(s0: Seq<u8>) -> Result<(Seq<Field>, Seq<u8>), CodecError> {
    match rd_varint(s0) {
        Err(e) => Err(e),
        Ok((x0, s1)) =>
        match rd_namespace(s1, 1, false) {
            Err(e) => Err(e),
            Ok((x1, s2)) =>
            match rd_params(s2, true) {
                Err(e) => Err(e),
                Ok((x2, s3)) =>
                    Ok((Seq::<Field>::empty().push(Field::Int(x0)).push(Field::Ns(x1)).push(Field::Pairs(x2)), s3)),
            }
        }
    }
}

proof fn lemma_rd_subscribe_namespace(s: Seq<u8>)
    ensures
        rd_fields(schema(MessageType::SubscribeNamespace), s) == rd_subscribe_namespace(s),
{
    reveal_with_fuel(rd_fields, 4);
}

/// The fields of a SubscribeNamespaceOk, read one after another.
spec fn rd_subscribe_namespace_ok(s0: Seq<u8>) -> Result<(Seq<Field>, Seq<u8>), CodecError> {
    match rd_varint(s0) {
        Err(e) => Err(e),
        Ok((x0, s1)) =>
            Ok((Seq::<Field>::empty().push(Field::Int(x0)), s1)),
    }
}

proof fn lemma_rd_subscribe_namespace_ok(s: Seq<u8>)
    ensures
        rd_fields(schema(MessageType::SubscribeNamespaceOk), s) == rd_subscribe_namespace_ok(s),
{
    reveal_with_fuel(rd_fields, 2);
}

/// The fields of a SubscribeNamespaceError, read one after another.
spec fn rd_subscribe_namespace_error(s0: Seq<u8>) -> Result<(Seq<Field>, Seq<u8>), CodecError> {
    match rd_varint(s0) {
        Err(e) => Err(e),
        Ok((x0, s1)) =>
        match rd_varint(s1) {
            Err(e) => Err(e),
            Ok((x1, s2)) =>
            match rd_capped_bytes(s2, MAX_REASON_PHRASE_LENGTH as u64, CodecError::ReasonPhraseTooLong) {
                Err(e) => Err(e),
                Ok((x2, s3)) =>
                    Ok((Seq::<Field>::empty().push(Field::Int(x0)).push(Field::Int(x1)).push(Field::Bytes(x2)), s3)),
            }
        }
    }
}

proof fn lemma_rd_subscribe_namespace_error(s: Seq<u8>)
    ensures
        rd_fields(schema(MessageType::SubscribeNamespaceError), s) == rd_subscribe_namespace_error(s),
{
    reveal_with_fuel(rd_fields, 4);
}

/// The fields of a UnsubscribeNamespace, read one after another.
spec fn rd_unsubscribe_namespace(s0: Seq<u8>) -> Result<(Seq<Field>, Seq<u8>), CodecError> {
    match rd_namespace(s0, 1, false) {
        Err(e) => Err(e),
        Ok((x0, s1)) =>
            Ok((Seq::<Field>::empty().push(Field::Ns(x0)), s1)),
    }
}

proof fn lemma_rd_unsubscribe_namespace(s: Seq<u8>)
    ensures
        rd_fields(schema(MessageType::UnsubscribeNamespace), s) == rd_unsubscribe_namespace(s),
{
    reveal_with_fuel(rd_fields, 2);
}

/// The fields of a Fetch, read one after another.
spec fn rd_fetch(s0: Seq<u8>) -> Result<(Seq<Field>, Seq<u8>), CodecError> {
    match rd_varint(s0) {
        Err(e) => Err(e),
        Ok((x0, s1)) =>
        match rd_octets(prio_order(), s1) {
            Err(e) => Err(e),
            Ok((x1, s2)) =>
            match rd_fetch_body(s2) {
                Err(e) => Err(e),
                Ok((x2, s3)) =>
                match rd_params(s3, true) {
                    Err(e) => Err(e),
                    Ok((x3, s4)) =>
                        Ok((Seq::<Field>::empty().push(Field::Int(x0)).push(Field::Octets(x1)).push(x2).push(Field::Pairs(x3)), s4)),
                }
            }
        }
    }
}

#[verifier::rlimit(100)]
#[verifier::spinoff_prover]
proof fn lemma_rd_fetch(s: Seq<u8>)
    ensures
        rd_fields(schema(MessageType::Fetch), s) == rd_fetch(s),
{
    reveal_with_fuel(rd_fields, 5);
}

/// The fields of a FetchOk, read one after another.
spec fn rd_fetch_ok(s0: Seq<u8>) -> Result<(Seq<Field>, Seq<u8>), CodecError> {
    match rd_varint(s0) {
        Err(e) => Err(e),
        Ok((x0, s1)) =>
        match rd_octets(order_resp_byte(), s1) {
            Err(e) => Err(e),
            Ok((x1, s2)) =>
            match rd_loc(s2) {
                Err(e) => Err(e),
                Ok((x2, s3)) =>
                match rd_params(s3, true) {
                    Err(e) => Err(e),
                    Ok((x3, s4)) =>
                        Ok((Seq::<Field>::empty().push(Field::Int(x0)).push(Field::Octets(x1)).push(Field::Loc(x2.0, x2.1)).push(Field::Pairs(x3)), s4)),
                }
            }
        }
    }
}

#[verifier::rlimit(100)]
#[verifier::spinoff_prover]
proof fn lemma_rd_fetch_ok(s: Seq<u8>)
    ensures
        rd_fields(schema(MessageType::FetchOk), s) == rd_fetch_ok(s),
{
    reveal_with_fuel(rd_fields, 5);
}

/// The fields of a FetchError, read one after another.
spec fn rd_fetch_error(s0: Seq<u8>) -> Result<(Seq<Field>, Seq<u8>), CodecError> {
    match rd_varint(s0) {
        Err(e) => Err(e),
        Ok((x0, s1)) =>
        match rd_varint(s1) {
            Err(e) => Err(e),
            Ok((x1, s2)) =>
            match rd_capped_bytes(s2, MAX_REASON_PHRASE_LENGTH as u64, CodecError::ReasonPhraseTooLong) {
                Err(e) => Err(e),
                Ok((x2, s3)) =>
                    Ok((Seq::<Field>::empty().push(Field::Int(x0)).push(Field::Int(x1)).push(Field::Bytes(x2)), s3)),
            }
        }
    }
}

proof fn lemma_rd_fetch_error(s: Seq<u8>)
    ensures
        rd_fields(schema(MessageType::FetchError), s) == rd_fetch_error(s),
{
    reveal_with_fuel(rd_fields, 4);
}

/// The fields of a FetchCancel, read one after another.
spec fn rd_fetch_cancel(s0: Seq<u8>) -> Result<(Seq<Field>, Seq<u8>), CodecError> {
    match rd_varint(s0) {
        Err(e) => Err(e),
        Ok((x0, s1)) =>
            Ok((Seq::<Field>::empty().push(Field::Int(x0)), s1)),
    }
}

proof fn lemma_rd_fetch_cancel(s: Seq<u8>)
    ensures
        rd_fields(schema(MessageType::FetchCancel), s) == rd_fetch_cancel(s),
{
    reveal_with_fuel(rd_fields, 2);
}

/// The fields of a TrackStatus, read one after another.
spec fn rd_track_status(s0: Seq<u8>) -> Result<(Seq<Field>, Seq<u8>), CodecError> {
    match rd_varint(s0) {
        Err(e) => Err(e),
        Ok((x0, s1)) =>
        match rd_namespace(s1, 1, false) {
            Err(e) => Err(e),
            Ok((x1, s2)) =>
            match rd_name(x1, s2) {
                Err(e) => Err(e),
                Ok((x2, s3)) =>
                match rd_octets(prio_order_fwd(), s3) {
                    Err(e) => Err(e),
                    Ok((x3, s4)) =>
                    match rd_filter(s4) {
                        Err(e) => Err(e),
                        Ok((x4, s5)) =>
                        match rd_params(s5, true) {
                            Err(e) => Err(e),
                            Ok((x5, s6)) =>
                                Ok((Seq::<Field>::empty().push(Field::Int(x0)).push(Field::Ns(x1)).push(Field::Bytes(x2)).push(Field::Octets(x3)).push(x4).push(Field::Pairs(x5)), s6)),
                        }
                    }
                }
            }
        }
    }
}

#[verifier::rlimit(100)]
#[verifier::spinoff_prover]
proof fn lemma_rd_track_status(s: Seq<u8>)
    ensures
        rd_fields(schema(MessageType::TrackStatus), s) == rd_track_status(s),
{
    reveal_with_fuel(rd_fields, 7);
}

/// The fields of a TrackStatusOk, read one after another.
spec fn rd_track_status_ok(s0: Seq<u8>) -> Result<(Seq<Field>, Seq<u8>), CodecError> {
    match rd_varint(s0) {
        Err(e) => Err(e),
        Ok((x0, s1)) =>
        match rd_varint(s1) {
            Err(e) => Err(e),
            Ok((x1, s2)) =>
            match rd_varint(s2) {
                Err(e) => Err(e),
                Ok((x2, s3)) =>
                match rd_content(s3) {
                    Err(e) => Err(e),
                    Ok((x3, s4)) =>
                    match rd_params(s4, true) {
                        Err(e) => Err(e),
                        Ok((x4, s5)) =>
                            Ok((Seq::<Field>::empty().push(Field::Int(x0)).push(Field::Int(x1)).push(Field::Int(x2)).push(x3).push(Field::Pairs(x4)), s5)),
                    }
                }
            }
        }
    }
}

#[verifier::rlimit(100)]
#[verifier::spinoff_prover]
proof fn lemma_rd_track_status_ok(s: Seq<u8>)
    ensures
        rd_fields(schema(MessageType::TrackStatusOk), s) == rd_track_status_ok(s),
{
    reveal_with_fuel(rd_fields, 6);
}

/// The fields of a TrackStatusError, read one after another.
spec fn rd_track_status_error(s0: Seq<u8>) -> Result<(Seq<Field>, Seq<u8>), CodecError> {
    match rd_varint(s0) {
        Err(e) => Err(e),
        Ok((x0, s1)) =>
        match rd_varint(s1) {
            Err(e) => Err(e),
            Ok((x1, s2)) =>
            match rd_capped_bytes(s2, MAX_REASON_PHRASE_LENGTH as u64, CodecError::ReasonPhraseTooLong) {
                Err(e) => Err(e),
                Ok((x2, s3)) =>
                    Ok((Seq::<Field>::empty().push(Field::Int(x0)).push(Field::Int(x1)).push(Field::Bytes(x2)), s3)),
            }
        }
    }
}

proof fn lemma_rd_track_status_error(s: Seq<u8>)
    ensures
        rd_fields(schema(MessageType::TrackStatusError), s) == rd_track_status_error(s),
{
    reveal_with_fuel(rd_fields, 4);
}

fn decode_client_setup(buf: &[u8]) -> (r: Result<(ControlMessage, usize), CodecError>)
    ensures
        match rd_fields(schema(MessageType::ClientSetup), buf@) {
            Ok((vs, rest)) => (r matches Ok((m, n)) && m@ == (ControlMessageView { message_type: MessageType::ClientSetup, fields: vs })
                && n <= buf@.len() && buf@.skip(n as int) == rest),
            Err(e) => r == Err::<(ControlMessage, usize), CodecError>(e),
        },
{
    proof {
        lemma_rd_client_setup(buf@);
        assert(buf@.skip(0) =~= buf@);
    }
    let p0: usize = 0;
    let (supported_versions, p1) = read_versions(buf, p0)?;
    let (parameters, p2) = decode_setup_parameters(buf, p1)?;
    let m = ControlMessage::ClientSetup(ClientSetup { supported_versions, parameters });
    proof {
        assert(m@.fields =~= seq![].push(m@.fields[0]).push(m@.fields[1]));
    }
    Ok((m, p2))
}

fn decode_server_setup(buf: &[u8]) -> (r: Result<(ControlMessage, usize), CodecError>)
    ensures
        match rd_fields(schema(MessageType::ServerSetup), buf@) {
            Ok((vs, rest)) => (r matches Ok((m, n)) && m@ == (ControlMessageView { message_type: MessageType::ServerSetup, fields: vs })
                && n <= buf@.len() && buf@.skip(n as int) == rest),
            Err(e) => r == Err::<(ControlMessage, usize), CodecError>(e),
        },
{
    proof {
        lemma_rd_server_setup(buf@);
        assert(buf@.skip(0) =~= buf@);
    }
    let p0: usize = 0;
    let (selected_version, p1) = cur_varint(buf, p0)?;
    let (parameters, p2) = decode_setup_parameters(buf, p1)?;
    let m = ControlMessage::ServerSetup(ServerSetup { selected_version, parameters });
    proof {
        assert(m@.fields =~= seq![].push(m@.fields[0]).push(m@.fields[1]));
    }
    Ok((m, p2))
}

fn decode_go_away(buf: &[u8]) -> (r: Result<(ControlMessage, usize), CodecError>)
    ensures
        match rd_fields(schema(MessageType::GoAway), buf@) {
            Ok((vs, rest)) => (r matches Ok((m, n)) && m@ == (ControlMessageView { message_type: MessageType::GoAway, fields: vs })
                && n <= buf@.len() && buf@.skip(n as int) == rest),
            Err(e) => r == Err::<(ControlMessage, usize), CodecError>(e),
        },
{
    proof {
        lemma_rd_go_away(buf@);
        assert(buf@.skip(0) =~= buf@);
    }
    let p0: usize = 0;
    let (new_session_uri, p1) = cur_capped_bytes(buf, p0, MAX_GOAWAY_URI_LENGTH as u64, CodecError::GoAwayUriTooLong)?;
    let m = ControlMessage::GoAway(GoAway { new_session_uri });
    proof {
        assert(m@.fields =~= seq![].push(m@.fields[0]));
    }
    Ok((m, p1))
}

fn decode_max_request_id(buf: &[u8]) -> (r: Result<(ControlMessage, usize), CodecError>)
    ensures
        match rd_fields(schema(MessageType::MaxRequestId), buf@) {
            Ok((vs, rest)) => (r matches Ok((m, n)) && m@ == (ControlMessageView { message_type: MessageType::MaxRequestId, fields: vs })
                && n <= buf@.len() && buf@.skip(n as int) == rest),
            Err(e) => r == Err::<(ControlMessage, usize), CodecError>(e),
        },
{
    proof {
        lemma_rd_max_request_id(buf@);
        assert(buf@.skip(0) =~= buf@);
    }
    let p0: usize = 0;
    let (request_id, p1) = cur_varint(buf, p0)?;
    let m = ControlMessage::MaxRequestId(MaxRequestId { request_id });
    proof {
        assert(m@.fields =~= seq![].push(m@.fields[0]));
    }
    Ok((m, p1))
}

fn decode_requests_blocked(buf: &[u8]) -> (r: Result<(ControlMessage, usize), CodecError>)
    ensures
        match rd_fields(schema(MessageType::RequestsBlocked), buf@) {
            Ok((vs, rest)) => (r matches Ok((m, n)) && m@ == (ControlMessageView { message_type: MessageType::RequestsBlocked, fields: vs })
                && n <= buf@.len() && buf@.skip(n as int) == rest),
            Err(e) => r == Err::<(ControlMessage, usize), CodecError>(e),
        },
{
    proof {
        lemma_rd_requests_blocked(buf@);
        assert(buf@.skip(0) =~= buf@);
    }
    let p0: usize = 0;
    let (maximum_request_id, p1) = cur_varint(buf, p0)?;
    let m = ControlMessage::RequestsBlocked(RequestsBlocked { maximum_request_id });
    proof {
        assert(m@.fields =~= seq![].push(m@.fields[0]));
    }
    Ok((m, p1))
}

#[verifier::rlimit(100)]
#[verifier::spinoff_prover]
fn decode_subscribe(buf: &[u8]) -> (r: Result<(ControlMessage, usize), CodecError>)
    ensures
        match rd_fields(schema(MessageType::Subscribe), buf@) {
            Ok((vs, rest)) => (r matches Ok((m, n)) && m@ == (ControlMessageView { message_type: MessageType::Subscribe, fields: vs })
                && n <= buf@.len() && buf@.skip(n as int) == rest),
            Err(e) => r == Err::<(ControlMessage, usize), CodecError>(e),
        },
{
    proof {
        lemma_rd_subscribe(buf@);
        assert(buf@.skip(0) =~= buf@);
    }
    let p0: usize = 0;
    let (request_id, p1) = cur_varint(buf, p0)?;
    let (track_namespace, p2) = TrackNamespace::decode_at(buf, p1, 1, false)?;
    let (track_name, p3) = read_track_name(&track_namespace, buf, p2)?;
    let ((subscriber_priority, group_order, forward), p4) = read_prio_order_fwd(buf, p3)?;
    let ((filter_type, start_location, end_group), p5) = read_filter(buf, p4)?;
    let (parameters, p6) = decode_parameters(buf, p5)?;
    let m = ControlMessage::Subscribe(Subscribe { request_id, track_namespace, track_name, subscriber_priority, group_order, forward, filter_type, start_location, end_group, parameters });
    proof {
        assert(m@.fields =~= seq![].push(m@.fields[0]).push(m@.fields[1]).push(m@.fields[2]).push(m@.fields[3]).push(m@.fields[4]).push(m@.fields[5]));
    }
    Ok((m, p6))
}

#[verifier::rlimit(100)]
#[verifier::spinoff_prover]
fn decode_subscribe_ok(buf: &[u8]) -> (r: Result<(ControlMessage, usize), CodecError>)
    ensures
        match rd_fields(schema(MessageType::SubscribeOk), buf@) {
            Ok((vs, rest)) => (r matches Ok((m, n)) && m@ == (ControlMessageView { message_type: MessageType::SubscribeOk, fields: vs })
                && n <= buf@.len() && buf@.skip(n as int) == rest),
            Err(e) => r == Err::<(ControlMessage, usize), CodecError>(e),
        },
{
    proof {
        lemma_rd_subscribe_ok(buf@);
        assert(buf@.skip(0) =~= buf@);
    }
    let p0: usize = 0;
    let (request_id, p1) = cur_varint(buf, p0)?;
    let (track_alias, p2) = cur_varint(buf, p1)?;
    let (expires, p3) = cur_varint(buf, p2)?;
    let ((group_order, content_exists, largest_location), p4) = read_content(buf, p3)?;
    let (parameters, p5) = decode_parameters(buf, p4)?;
    let m = ControlMessage::SubscribeOk(SubscribeOk { request_id, track_alias, expires, group_order, content_exists, largest_location, parameters });
    proof {
        assert(m@.fields =~= seq![].push(m@.fields[0]).push(m@.fields[1]).push(m@.fields[2]).push(m@.fields[3]).push(m@.fields[4]));
    }
    Ok((m, p5))
}

#[verifier::rlimit(80)]
#[verifier::spinoff_prover]
fn decode_subscribe_error(buf: &[u8]) -> (r: Result<(ControlMessage, usize), CodecError>)
    ensures
        match rd_fields(schema(MessageType::SubscribeError), buf@) {
            Ok((vs, rest)) => (r matches Ok((m, n)) && m@ == (ControlMessageView { message_type: MessageType::SubscribeError, fields: vs })
                && n <= buf@.len() && buf@.skip(n as int) == rest),
            Err(e) => r == Err::<(ControlMessage, usize), CodecError>(e),
        },
{
    proof {
        lemma_rd_subscribe_error(buf@);
        assert(buf@.skip(0) =~= buf@);
    }
    let p0: usize = 0;
    let (request_id, p1) = cur_varint(buf, p0)?;
    let (error_code, p2) = cur_varint(buf, p1)?;
    let (reason_phrase, p3) = cur_capped_bytes(buf, p2, MAX_REASON_PHRASE_LENGTH as u64, CodecError::ReasonPhraseTooLong)?;
    let m = ControlMessage::SubscribeError(SubscribeError { request_id, error_code, reason_phrase });
    proof {
        assert(m@.fields =~= seq![].push(m@.fields[0]).push(m@.fields[1]).push(m@.fields[2]));
    }
    Ok((m, p3))
}

#[verifier::rlimit(100)]
#[verifier::spinoff_prover]
fn decode_subscribe_update(buf: &[u8]) -> (r: Result<(ControlMessage, usize), CodecError>)
    ensures
        match rd_fields(schema(MessageType::SubscribeUpdate), buf@) {
            Ok((vs, rest)) => (r matches Ok((m, n)) && m@ == (ControlMessageView { message_type: MessageType::SubscribeUpdate, fields: vs })
                && n <= buf@.len() && buf@.skip(n as int) == rest),
            Err(e) => r == Err::<(ControlMessage, usize), CodecError>(e),
        },
{
    proof {
        lemma_rd_subscribe_update(buf@);
        assert(buf@.skip(0) =~= buf@);
    }
    let p0: usize = 0;
    let (request_id, p1) = cur_varint(buf, p0)?;
    let (subscription_request_id, p2) = cur_varint(buf, p1)?;
    let (start_location, p3) = read_location(buf, p2)?;
    let (end_group, p4) = cur_varint(buf, p3)?;
    let ((subscriber_priority, forward), p5) = read_prio_fwd(buf, p4)?;
    let (parameters, p6) = decode_parameters(buf, p5)?;
    let m = ControlMessage::SubscribeUpdate(SubscribeUpdate { request_id, subscription_request_id, start_location, end_group, subscriber_priority, forward, parameters });
    proof {
        assert(m@.fields =~= seq![].push(m@.fields[0]).push(m@.fields[1]).push(m@.fields[2]).push(m@.fields[3]).push(m@.fields[4]).push(m@.fields[5]));
    }
    Ok((m, p6))
}

fn decode_unsubscribe(buf: &[u8]) -> (r: Result<(ControlMessage, usize), CodecError>)
    ensures
        match rd_fields(schema(MessageType::Unsubscribe), buf@) {
            Ok((vs, rest)) => (r matches Ok((m, n)) && m@ == (ControlMessageView { message_type: MessageType::Unsubscribe, fields: vs })
                && n <= buf@.len() && buf@.skip(n as int) == rest),
            Err(e) => r == Err::<(ControlMessage, usize), CodecError>(e),
        },
{
    proof {
        lemma_rd_unsubscribe(buf@);
        assert(buf@.skip(0) =~= buf@);
    }
    let p0: usize = 0;
    let (request_id, p1) = cur_varint(buf, p0)?;
    let m = ControlMessage::Unsubscribe(Unsubscribe { request_id });
    proof {
        assert(m@.fields =~= seq![].push(m@.fields[0]));
    }
    Ok((m, p1))
}

#[verifier::rlimit(100)]
#[verifier::spinoff_prover]
fn decode_publish(buf: &[u8]) -> (r: Result<(ControlMessage, usize), CodecError>)
    ensures
        match rd_fields(schema(MessageType::Publish), buf@) {
            Ok((vs, rest)) => (r matches Ok((m, n)) && m@ == (ControlMessageView { message_type: MessageType::Publish, fields: vs })
                && n <= buf@.len() && buf@.skip(n as int) == rest),
            Err(e) => r == Err::<(ControlMessage, usize), CodecError>(e),
        },
{
    proof {
        lemma_rd_publish(buf@);
        assert(buf@.skip(0) =~= buf@);
    }
    let p0: usize = 0;
    let (request_id, p1) = cur_varint(buf, p0)?;
    let (track_namespace, p2) = TrackNamespace::decode_at(buf, p1, 1, false)?;
    let (track_name, p3) = read_track_name(&track_namespace, buf, p2)?;
    let (track_alias, p4) = cur_varint(buf, p3)?;
    let ((group_order, content_exists, largest_location), p5) = read_content(buf, p4)?;
    let (forward, p6) = read_forward(buf, p5)?;
    let (parameters, p7) = decode_parameters(buf, p6)?;
    let m = ControlMessage::Publish(Publish { request_id, track_namespace, track_name, track_alias, group_order, content_exists, largest_location, forward, parameters });
    proof {
        assert(m@.fields =~= seq![].push(m@.fields[0]).push(m@.fields[1]).push(m@.fields[2]).push(m@.fields[3]).push(m@.fields[4]).push(m@.fields[5]).push(m@.fields[6]));
    }
    Ok((m, p7))
}

#[verifier::rlimit(80)]
#[verifier::spinoff_prover]
fn decode_publish_ok(buf: &[u8]) -> (r: Result<(ControlMessage, usize), CodecError>)
    ensures
        match rd_fields(schema(MessageType::PublishOk), buf@) {
            Ok((vs, rest)) => (r matches Ok((m, n)) && m@ == (ControlMessageView { message_type: MessageType::PublishOk, fields: vs })
                && n <= buf@.len() && buf@.skip(n as int) == rest),
            Err(e) => r == Err::<(ControlMessage, usize), CodecError>(e),
        },
{
    proof {
        lemma_rd_publish_ok(buf@);
        assert(buf@.skip(0) =~= buf@);
    }
    let p0: usize = 0;
    let (request_id, p1) = cur_varint(buf, p0)?;
    let ((forward, subscriber_priority, group_order), p2) = read_fwd_prio_order_resp(buf, p1)?;
    let ((filter_type, start_location, end_group), p3) = read_filter(buf, p2)?;
    let (parameters, p4) = decode_parameters(buf, p3)?;
    let m = ControlMessage::PublishOk(PublishOk { request_id, forward, subscriber_priority, group_order, filter_type, start_location, end_group, parameters });
    proof {
        assert(m@.fields =~= seq![].push(m@.fields[0]).push(m@.fields[1]).push(m@.fields[2]).push(m@.fields[3]));
    }
    Ok((m, p4))
}

#[verifier::rlimit(80)]
#[verifier::spinoff_prover]
fn decode_publish_error(buf: &[u8]) -> (r: Result<(ControlMessage, usize), CodecError>)
    ensures
        match rd_fields(schema(MessageType::PublishError), buf@) {
            Ok((vs, rest)) => (r matches Ok((m, n)) && m@ == (ControlMessageView { message_type: MessageType::PublishError, fields: vs })
                && n <= buf@.len() && buf@.skip(n as int) == rest),
            Err(e) => r == Err::<(ControlMessage, usize), CodecError>(e),
        },
{
    proof {
        lemma_rd_publish_error(buf@);
        assert(buf@.skip(0) =~= buf@);
    }
    let p0: usize = 0;
    let (request_id, p1) = cur_varint(buf, p0)?;
    let (error_code, p2) = cur_varint(buf, p1)?;
    let (reason_phrase, p3) = cur_capped_bytes(buf, p2, MAX_REASON_PHRASE_LENGTH as u64, CodecError::ReasonPhraseTooLong)?;
    let m = ControlMessage::PublishError(PublishError { request_id, error_code, reason_phrase });
    proof {
        assert(m@.fields =~= seq![].push(m@.fields[0]).push(m@.fields[1]).push(m@.fields[2]));
    }
    Ok((m, p3))
}

#[verifier::rlimit(80)]
#[verifier::spinoff_prover]
fn decode_publish_done(buf: &[u8]) -> (r: Result<(ControlMessage, usize), CodecError>)
    ensures
        match rd_fields(schema(MessageType::PublishDone), buf@) {
            Ok((vs, rest)) => (r matches Ok((m, n)) && m@ == (ControlMessageView { message_type: MessageType::PublishDone, fields: vs })
                && n <= buf@.len() && buf@.skip(n as int) == rest),
            Err(e) => r == Err::<(ControlMessage, usize), CodecError>(e),
        },
{
    proof {
        lemma_rd_publish_done(buf@);
        assert(buf@.skip(0) =~= buf@);
    }
    let p0: usize = 0;
    let (request_id, p1) = cur_varint(buf, p0)?;
    let (status_code, p2) = cur_varint(buf, p1)?;
    let (stream_count, p3) = cur_varint(buf, p2)?;
    let (reason_phrase, p4) = cur_capped_bytes(buf, p3, MAX_REASON_PHRASE_LENGTH as u64, CodecError::ReasonPhraseTooLong)?;
    let m = ControlMessage::PublishDone(PublishDone { request_id, status_code, stream_count, reason_phrase });
    proof {
        assert(m@.fields =~= seq![].push(m@.fields[0]).push(m@.fields[1]).push(m@.fields[2]).push(m@.fields[3]));
    }
    Ok((m, p4))
}

#[verifier::rlimit(80)]
#[verifier::spinoff_prover]
fn decode_publish_namespace(buf: &[u8]) -> (r: Result<(ControlMessage, usize), CodecError>)
    ensures
        match rd_fields(schema(MessageType::PublishNamespace), buf@) {
            Ok((vs, rest)) => (r matches Ok((m, n)) && m@ == (ControlMessageView { message_type: MessageType::PublishNamespace, fields: vs })
                && n <= buf@.len() && buf@.skip(n as int) == rest),
            Err(e) => r == Err::<(ControlMessage, usize), CodecError>(e),
        },
{
    proof {
        lemma_rd_publish_namespace(buf@);
        assert(buf@.skip(0) =~= buf@);
    }
    let p0: usize = 0;
    let (request_id, p1) = cur_varint(buf, p0)?;
    let (track_namespace, p2) = TrackNamespace::decode_at(buf, p1, 1, false)?;
    let (parameters, p3) = decode_parameters(buf, p2)?;
    let m = ControlMessage::PublishNamespace(PublishNamespace { request_id, track_namespace, parameters });
    proof {
        assert(m@.fields =~= seq![].push(m@.fields[0]).push(m@.fields[1]).push(m@.fields[2]));
    }
    Ok((m, p3))
}

fn decode_publish_namespace_ok(buf: &[u8]) -> (r: Result<(ControlMessage, usize), CodecError>)
    ensures
        match rd_fields(schema(MessageType::PublishNamespaceOk), buf@) {
            Ok((vs, rest)) => (r matches Ok((m, n)) && m@ == (ControlMessageView { message_type: MessageType::PublishNamespaceOk, fields: vs })
                && n <= buf@.len() && buf@.skip(n as int) == rest),
            Err(e) => r == Err::<(ControlMessage, usize), CodecError>(e),
        },
{
    proof {
        lemma_rd_publish_namespace_ok(buf@);
        assert(buf@.skip(0) =~= buf@);
    }
    let p0: usize = 0;
    let (request_id, p1) = cur_varint(buf, p0)?;
    let m = ControlMessage::PublishNamespaceOk(PublishNamespaceOk { request_id });
    proof {
        assert(m@.fields =~= seq![].push(m@.fields[0]));
    }
    Ok((m, p1))
}

#[verifier::rlimit(80)]
#[verifier::spinoff_prover]
fn decode_publish_namespace_error(buf: &[u8]) -> (r: Result<(ControlMessage, usize), CodecError>)
    ensures
        match rd_fields(schema(MessageType::PublishNamespaceError), buf@) {
            Ok((vs, rest)) => (r matches Ok((m, n)) && m@ == (ControlMessageView { message_type: MessageType::PublishNamespaceError, fields: vs })
                && n <= buf@.len() && buf@.skip(n as int) == rest),
            Err(e) => r == Err::<(ControlMessage, usize), CodecError>(e),
        },
{
    proof {
        lemma_rd_publish_namespace_error(buf@);
        assert(buf@.skip(0) =~= buf@);
    }
    let p0: usize = 0;
    let (request_id, p1) = cur_varint(buf, p0)?;
    let (error_code, p2) = cur_varint(buf, p1)?;
    let (reason_phrase, p3) = cur_capped_bytes(buf, p2, MAX_REASON_PHRASE_LENGTH as u64, CodecError::ReasonPhraseTooLong)?;
    let m = ControlMessage::PublishNamespaceError(PublishNamespaceError { request_id, error_code, reason_phrase });
    proof {
        assert(m@.fields =~= seq![].push(m@.fields[0]).push(m@.fields[1]).push(m@.fields[2]));
    }
    Ok((m, p3))
}

fn decode_publish_namespace_done(buf: &[u8]) -> (r: Result<(ControlMessage, usize), CodecError>)
    ensures
        match rd_fields(schema(MessageType::PublishNamespaceDone), buf@) {
            Ok((vs, rest)) => (r matches Ok((m, n)) && m@ == (ControlMessageView { message_type: MessageType::PublishNamespaceDone, fields: vs })
                && n <= buf@.len() && buf@.skip(n as int) == rest),
            Err(e) => r == Err::<(ControlMessage, usize), CodecError>(e),
        },
{
    proof {
        lemma_rd_publish_namespace_done(buf@);
        assert(buf@.skip(0) =~= buf@);
    }
    let p0: usize = 0;
    let (track_namespace, p1) = TrackNamespace::decode_at(buf, p0, 1, false)?;
    let m = ControlMessage::PublishNamespaceDone(PublishNamespaceDone { track_namespace });
    proof {
        assert(m@.fields =~= seq![].push(m@.fields[0]));
    }
    Ok((m, p1))
}

#[verifier::rlimit(80)]
#[verifier::spinoff_prover]
fn decode_publish_namespace_cancel(buf: &[u8]) -> (r: Result<(ControlMessage, usize), CodecError>)
    ensures
        match rd_fields(schema(MessageType::PublishNamespaceCancel), buf@) {
            Ok((vs, rest)) => (r matches Ok((m, n)) && m@ == (ControlMessageView { message_type: MessageType::PublishNamespaceCancel, fields: vs })
                && n <= buf@.len() && buf@.skip(n as int) == rest),
            Err(e) => r == Err::<(ControlMessage, usize), CodecError>(e),
        },
{
    proof {
        lemma_rd_publish_namespace_cancel(buf@);
        assert(buf@.skip(0) =~= buf@);
    }
    let p0: usize = 0;
    let (track_namespace, p1) = TrackNamespace::decode_at(buf, p0, 1, false)?;
    let (error_code, p2) = cur_varint(buf, p1)?;
    let (reason_phrase, p3) = cur_capped_bytes(buf, p2, MAX_REASON_PHRASE_LENGTH as u64, CodecError::ReasonPhraseTooLong)?;
    let m = ControlMessage::PublishNamespaceCancel(PublishNamespaceCancel { track_namespace, error_code, reason_phrase });
    proof {
        assert(m@.fields =~= seq![].push(m@.fields[0]).push(m@.fields[1]).push(m@.fields[2]));
    }
    Ok((m, p3))
}

#[verifier::rlimit(80)]
#[verifier::spinoff_prover]
fn decode_subscribe_namespace(buf: &[u8]) -> (r: Result<(ControlMessage, usize), CodecError>)
    ensures
        match rd_fields(schema(MessageType::SubscribeNamespace), buf@) {
            Ok((vs, rest)) => (r matches Ok((m, n)) && m@ == (ControlMessageView { message_type: MessageType::SubscribeNamespace, fields: vs })
                && n <= buf@.len() && buf@.skip(n as int) == rest),
            Err(e) => r == Err::<(ControlMessage, usize), CodecError>(e),
        },
{
    proof {
        lemma_rd_subscribe_namespace(buf@);
        assert(buf@.skip(0) =~= buf@);
    }
    let p0: usize = 0;
    let (request_id, p1) = cur_varint(buf, p0)?;
    let (track_namespace, p2) = TrackNamespace::decode_at(buf, p1, 1, false)?;
    let (parameters, p3) = decode_parameters(buf, p2)?;
    let m = ControlMessage::SubscribeNamespace(SubscribeNamespace { request_id, track_namespace, parameters });
    proof {
        assert(m@.fields =~= seq![].push(m@.fields[0]).push(m@.fields[1]).push(m@.fields[2]));
    }
    Ok((m, p3))
}

fn decode_subscribe_namespace_ok(buf: &[u8]) -> (r: Result<(ControlMessage, usize), CodecError>)
    ensures
        match rd_fields(schema(MessageType::SubscribeNamespaceOk), buf@) {
            Ok((vs, rest)) => (r matches Ok((m, n)) && m@ == (ControlMessageView { message_type: MessageType::SubscribeNamespaceOk, fields: vs })
                && n <= buf@.len() && buf@.skip(n as int) == rest),
            Err(e) => r == Err::<(ControlMessage, usize), CodecError>(e),
        },
{
    proof {
        lemma_rd_subscribe_namespace_ok(buf@);
        assert(buf@.skip(0) =~= buf@);
    }
    let p0: usize = 0;
    let (request_id, p1) = cur_varint(buf, p0)?;
    let m = ControlMessage::SubscribeNamespaceOk(SubscribeNamespaceOk { request_id });
    proof {
        assert(m@.fields =~= seq![].push(m@.fields[0]));
    }
    Ok((m, p1))
}

#[verifier::rlimit(80)]
#[verifier::spinoff_prover]
fn decode_subscribe_namespace_error(buf: &[u8]) -> (r: Result<(ControlMessage, usize), CodecError>)
    ensures
        match rd_fields(schema(MessageType::SubscribeNamespaceError), buf@) {
            Ok((vs, rest)) => (r matches Ok((m, n)) && m@ == (ControlMessageView { message_type: MessageType::SubscribeNamespaceError, fields: vs })
                && n <= buf@.len() && buf@.skip(n as int) == rest),
            Err(e) => r == Err::<(ControlMessage, usize), CodecError>(e),
        },
{
    proof {
        lemma_rd_subscribe_namespace_error(buf@);
        assert(buf@.skip(0) =~= buf@);
    }
    let p0: usize = 0;
    let (request_id, p1) = cur_varint(buf, p0)?;
    let (error_code, p2) = cur_varint(buf, p1)?;
    let (reason_phrase, p3) = cur_capped_bytes(buf, p2, MAX_REASON_PHRASE_LENGTH as u64, CodecError::ReasonPhraseTooLong)?;
    let m = ControlMessage::SubscribeNamespaceError(SubscribeNamespaceError { request_id, error_code, reason_phrase });
    proof {
        assert(m@.fields =~= seq![].push(m@.fields[0]).push(m@.fields[1]).push(m@.fields[2]));
    }
    Ok((m, p3))
}

fn decode_unsubscribe_namespace(buf: &[u8]) -> (r: Result<(ControlMessage, usize), CodecError>)
    ensures
        match rd_fields(schema(MessageType::UnsubscribeNamespace), buf@) {
            Ok((vs, rest)) => (r matches Ok((m, n)) && m@ == (ControlMessageView { message_type: MessageType::UnsubscribeNamespace, fields: vs })
                && n <= buf@.len() && buf@.skip(n as int) == rest),
            Err(e) => r == Err::<(ControlMessage, usize), CodecError>(e),
        },
{
    proof {
        lemma_rd_unsubscribe_namespace(buf@);
        assert(buf@.skip(0) =~= buf@);
    }
    let p0: usize = 0;
    let (track_namespace_prefix, p1) = TrackNamespace::decode_at(buf, p0, 1, false)?;
    let m = ControlMessage::UnsubscribeNamespace(UnsubscribeNamespace { track_namespace_prefix });
    proof {
        assert(m@.fields =~= seq![].push(m@.fields[0]));
    }
    Ok((m, p1))
}

#[verifier::rlimit(80)]
#[verifier::spinoff_prover]
fn decode_fetch(buf: &[u8]) -> (r: Result<(ControlMessage, usize), CodecError>)
    ensures
        match rd_fields(schema(MessageType::Fetch), buf@) {
            Ok((vs, rest)) => (r matches Ok((m, n)) && m@ == (ControlMessageView { message_type: MessageType::Fetch, fields: vs })
                && n <= buf@.len() && buf@.skip(n as int) == rest),
            Err(e) => r == Err::<(ControlMessage, usize), CodecError>(e),
        },
{
    proof {
        lemma_rd_fetch(buf@);
        assert(buf@.skip(0) =~= buf@);
    }
    let p0: usize = 0;
    let (request_id, p1) = cur_varint(buf, p0)?;
    let ((subscriber_priority, group_order), p2) = read_prio_order(buf, p1)?;
    let ((fetch_type, fetch_payload), p3) = read_fetch_body(buf, p2)?;
    let (parameters, p4) = decode_parameters(buf, p3)?;
    let m = ControlMessage::Fetch(Fetch { request_id, subscriber_priority, group_order, fetch_type, fetch_payload, parameters });
    proof {
        assert(m@.fields =~= seq![].push(m@.fields[0]).push(m@.fields[1]).push(m@.fields[2]).push(m@.fields[3]));
    }
    Ok((m, p4))
}

#[verifier::rlimit(80)]
#[verifier::spinoff_prover]
fn decode_fetch_ok(buf: &[u8]) -> (r: Result<(ControlMessage, usize), CodecError>)
    ensures
        match rd_fields(schema(MessageType::FetchOk), buf@) {
            Ok((vs, rest)) => (r matches Ok((m, n)) && m@ == (ControlMessageView { message_type: MessageType::FetchOk, fields: vs })
                && n <= buf@.len() && buf@.skip(n as int) == rest),
            Err(e) => r == Err::<(ControlMessage, usize), CodecError>(e),
        },
{
    proof {
        lemma_rd_fetch_ok(buf@);
        assert(buf@.skip(0) =~= buf@);
    }
    let p0: usize = 0;
    let (request_id, p1) = cur_varint(buf, p0)?;
    let ((group_order, end_of_track), p2) = read_order_resp_byte(buf, p1)?;
    let (end_location, p3) = read_location(buf, p2)?;
    let (parameters, p4) = decode_parameters(buf, p3)?;
    let m = ControlMessage::FetchOk(FetchOk { request_id, group_order, end_of_track, end_location, parameters });
    proof {
        assert(m@.fields =~= seq![].push(m@.fields[0]).push(m@.fields[1]).push(m@.fields[2]).push(m@.fields[3]));
    }
    Ok((m, p4))
}

#[verifier::rlimit(80)]
#[verifier::spinoff_prover]
fn decode_fetch_error(buf: &[u8]) -> (r: Result<(ControlMessage, usize), CodecError>)
    ensures
        match rd_fields(schema(MessageType::FetchError), buf@) {
            Ok((vs, rest)) => (r matches Ok((m, n)) && m@ == (ControlMessageView { message_type: MessageType::FetchError, fields: vs })
                && n <= buf@.len() && buf@.skip(n as int) == rest),
            Err(e) => r == Err::<(ControlMessage, usize), CodecError>(e),
        },
{
    proof {
        lemma_rd_fetch_error(buf@);
        assert(buf@.skip(0) =~= buf@);
    }
    let p0: usize = 0;
    let (request_id, p1) = cur_varint(buf, p0)?;
    let (error_code, p2) = cur_varint(buf, p1)?;
    let (reason_phrase, p3) = cur_capped_bytes(buf, p2, MAX_REASON_PHRASE_LENGTH as u64, CodecError::ReasonPhraseTooLong)?;
    let m = ControlMessage::FetchError(FetchError { request_id, error_code, reason_phrase });
    proof {
        assert(m@.fields =~= seq![].push(m@.fields[0]).push(m@.fields[1]).push(m@.fields[2]));
    }
    Ok((m, p3))
}

fn decode_fetch_cancel(buf: &[u8]) -> (r: Result<(ControlMessage, usize), CodecError>)
    ensures
        match rd_fields(schema(MessageType::FetchCancel), buf@) {
            Ok((vs, rest)) => (r matches Ok((m, n)) && m@ == (ControlMessageView { message_type: MessageType::FetchCancel, fields: vs })
                && n <= buf@.len() && buf@.skip(n as int) == rest),
            Err(e) => r == Err::<(ControlMessage, usize), CodecError>(e),
        },
{
    proof {
        lemma_rd_fetch_cancel(buf@);
        assert(buf@.skip(0) =~= buf@);
    }
    let p0: usize = 0;
    let (request_id, p1) = cur_varint(buf, p0)?;
    let m = ControlMessage::FetchCancel(FetchCancel { request_id });
    proof {
        assert(m@.fields =~= seq![].push(m@.fields[0]));
    }
    Ok((m, p1))
}

#[verifier::rlimit(100)]
#[verifier::spinoff_prover]
fn decode_track_status(buf: &[u8]) -> (r: Result<(ControlMessage, usize), CodecError>)
    ensures
        match rd_fields(schema(MessageType::TrackStatus), buf@) {
            Ok((vs, rest)) => (r matches Ok((m, n)) && m@ == (ControlMessageView { message_type: MessageType::TrackStatus, fields: vs })
                && n <= buf@.len() && buf@.skip(n as int) == rest),
            Err(e) => r == Err::<(ControlMessage, usize), CodecError>(e),
        },
{
    proof {
        lemma_rd_track_status(buf@);
        assert(buf@.skip(0) =~= buf@);
    }
    let p0: usize = 0;
    let (request_id, p1) = cur_varint(buf, p0)?;
    let (track_namespace, p2) = TrackNamespace::decode_at(buf, p1, 1, false)?;
    let (track_name, p3) = read_track_name(&track_namespace, buf, p2)?;
    let ((subscriber_priority, group_order, forward), p4) = read_prio_order_fwd(buf, p3)?;
    let ((filter_type, start_location, end_group), p5) = read_filter(buf, p4)?;
    let (parameters, p6) = decode_parameters(buf, p5)?;
    let m = ControlMessage::TrackStatus(TrackStatus { request_id, track_namespace, track_name, subscriber_priority, group_order, forward, filter_type, start_location, end_group, parameters });
    proof {
        assert(m@.fields =~= seq![].push(m@.fields[0]).push(m@.fields[1]).push(m@.fields[2]).push(m@.fields[3]).push(m@.fields[4]).push(m@.fields[5]));
    }
    Ok((m, p6))
}

#[verifier::rlimit(100)]
#[verifier::spinoff_prover]
fn decode_track_status_ok(buf: &[u8]) -> (r: Result<(ControlMessage, usize), CodecError>)
    ensures
        match rd_fields(schema(MessageType::TrackStatusOk), buf@) {
            Ok((vs, rest)) => (r matches Ok((m, n)) && m@ == (ControlMessageView { message_type: MessageType::TrackStatusOk, fields: vs })
                && n <= buf@.len() && buf@.skip(n as int) == rest),
            Err(e) => r == Err::<(ControlMessage, usize), CodecError>(e),
        },
{
    proof {
        lemma_rd_track_status_ok(buf@);
        assert(buf@.skip(0) =~= buf@);
    }
    let p0: usize = 0;
    let (request_id, p1) = cur_varint(buf, p0)?;
    let (track_alias, p2) = cur_varint(buf, p1)?;
    let (expires, p3) = cur_varint(buf, p2)?;
    let ((group_order, content_exists, largest_location), p4) = read_content(buf, p3)?;
    let (parameters, p5) = decode_parameters(buf, p4)?;
    let m = ControlMessage::TrackStatusOk(TrackStatusOk { request_id, track_alias, expires, group_order, content_exists, largest_location, parameters });
    proof {
        assert(m@.fields =~= seq![].push(m@.fields[0]).push(m@.fields[1]).push(m@.fields[2]).push(m@.fields[3]).push(m@.fields[4]));
    }
    Ok((m, p5))
}

#[verifier::rlimit(80)]
#[verifier::spinoff_prover]
fn decode_track_status_error(buf: &[u8]) -> (r: Result<(ControlMessage, usize), CodecError>)
    ensures
        match rd_fields(schema(MessageType::TrackStatusError), buf@) {
            Ok((vs, rest)) => (r matches Ok((m, n)) && m@ == (ControlMessageView { message_type: MessageType::TrackStatusError, fields: vs })
                && n <= buf@.len() && buf@.skip(n as int) == rest),
            Err(e) => r == Err::<(ControlMessage, usize), CodecError>(e),
        },
{
    proof {
        lemma_rd_track_status_error(buf@);
        assert(buf@.skip(0) =~= buf@);
    }
    let p0: usize = 0;
    let (request_id, p1) = cur_varint(buf, p0)?;
    let (error_code, p2) = cur_varint(buf, p1)?;
    let (reason_phrase, p3) = cur_capped_bytes(buf, p2, MAX_REASON_PHRASE_LENGTH as u64, CodecError::ReasonPhraseTooLong)?;
    let m = ControlMessage::TrackStatusError(TrackStatusError { request_id, error_code, reason_phrase });
    proof {
        assert(m@.fields =~= seq![].push(m@.fields[0]).push(m@.fields[1]).push(m@.fields[2]));
    }
    Ok((m, p3))
}

/// Decode the payload of a message of type `t`: its fields, from the
/// start of `buf`, with the number of bytes they took.
pub fn decode_payload(t: MessageType, buf: &[u8]) -> (r: Result<(ControlMessage, usize), CodecError>)
    ensures
        match rd_fields(schema(t), buf@) {
            Ok((vs, rest)) => (r matches Ok((m, n)) && m@ == (ControlMessageView { message_type: t, fields: vs })
                && n <= buf@.len() && buf@.skip(n as int) == rest),
            Err(e) => r == Err::<(ControlMessage, usize), CodecError>(e),
        },
{
    match t {
        MessageType::ClientSetup => decode_client_setup(buf),
        MessageType::ServerSetup => decode_server_setup(buf),
        MessageType::GoAway => decode_go_away(buf),
        MessageType::MaxRequestId => decode_max_request_id(buf),
        MessageType::RequestsBlocked => decode_requests_blocked(buf),
        MessageType::Subscribe => decode_subscribe(buf),
        MessageType::SubscribeOk => decode_subscribe_ok(buf),
        MessageType::SubscribeError => decode_subscribe_error(buf),
        MessageType::SubscribeUpdate => decode_subscribe_update(buf),
        MessageType::Unsubscribe => decode_unsubscribe(buf),
        MessageType::Publish => decode_publish(buf),
        MessageType::PublishOk => decode_publish_ok(buf),
        MessageType::PublishError => decode_publish_error(buf),
        MessageType::PublishDone => decode_publish_done(buf),
        MessageType::PublishNamespace => decode_publish_namespace(buf),
        MessageType::PublishNamespaceOk => decode_publish_namespace_ok(buf),
        MessageType::PublishNamespaceError => decode_publish_namespace_error(buf),
        MessageType::PublishNamespaceDone => decode_publish_namespace_done(buf),
        MessageType::PublishNamespaceCancel => decode_publish_namespace_cancel(buf),
        MessageType::SubscribeNamespace => decode_subscribe_namespace(buf),
        MessageType::SubscribeNamespaceOk => decode_subscribe_namespace_ok(buf),
        MessageType::SubscribeNamespaceError => decode_subscribe_namespace_error(buf),
        MessageType::UnsubscribeNamespace => decode_unsubscribe_namespace(buf),
        MessageType::Fetch => decode_fetch(buf),
        MessageType::FetchOk => decode_fetch_ok(buf),
        MessageType::FetchError => decode_fetch_error(buf),
        MessageType::FetchCancel => decode_fetch_cancel(buf),
        MessageType::TrackStatus => decode_track_status(buf),
        MessageType::TrackStatusOk => decode_track_status_ok(buf),
        MessageType::TrackStatusError => decode_track_status_error(buf),
    }
}

fn encode_client_setup(msg: &ControlMessage, buf: &mut Vec<u8>) -> (r: Result<(), CodecError>)
    requires
        msg is ClientSetup,
        fields_fit(msg@.fields),
    ensures
        match enc_fields(schema(msg@.message_type), msg@.fields) {
            Ok(b) => r == Ok::<(), CodecError>(()) && final(buf)@ == old(buf)@ + b,
            Err(e) => r == Err::<(), CodecError>(e),
        },
{
    proof {
        reveal_with_fuel(enc_fields, 3);
        assert(field_fits(msg@.fields[0]));
        assert(field_fits(msg@.fields[1]));
    }
    let ghost start = buf@;
    let m = match msg { ControlMessage::ClientSetup(m) => m, _ => { proof { assert(false); } return Err(CodecError::InvalidField); } };
    let ghost b0 = buf@;
    put_versions(&m.supported_versions, buf)?;
    let ghost b1 = buf@;
    encode_parameters(m.parameters.as_slice(), buf)?;
    let ghost b2 = buf@;
    proof {
        assert(b1 =~= b0 + b1.skip(b0.len() as int));
        assert(b2 =~= b1 + b2.skip(b1.len() as int));
        assert(b2 =~= start + ((Seq::<u8>::empty() + b1.skip(b0.len() as int)) + b2.skip(b1.len() as int)));
    }
    Ok(())
}

fn encode_server_setup(msg: &ControlMessage, buf: &mut Vec<u8>) -> (r: Result<(), CodecError>)
    requires
        msg is ServerSetup,
        fields_fit(msg@.fields),
    ensures
        match enc_fields(schema(msg@.message_type), msg@.fields) {
            Ok(b) => r == Ok::<(), CodecError>(()) && final(buf)@ == old(buf)@ + b,
            Err(e) => r == Err::<(), CodecError>(e),
        },
{
    proof {
        reveal_with_fuel(enc_fields, 3);
        assert(field_fits(msg@.fields[0]));
        assert(field_fits(msg@.fields[1]));
    }
    let ghost start = buf@;
    let m = match msg { ControlMessage::ServerSetup(m) => m, _ => { proof { assert(false); } return Err(CodecError::InvalidField); } };
    let ghost b0 = buf@;
    put_varint(m.selected_version, buf)?;
    let ghost b1 = buf@;
    encode_parameters(m.parameters.as_slice(), buf)?;
    let ghost b2 = buf@;
    proof {
        assert(b1 =~= b0 + b1.skip(b0.len() as int));
        assert(b2 =~= b1 + b2.skip(b1.len() as int));
        assert(b2 =~= start + ((Seq::<u8>::empty() + b1.skip(b0.len() as int)) + b2.skip(b1.len() as int)));
    }
    Ok(())
}

fn encode_go_away(msg: &ControlMessage, buf: &mut Vec<u8>) -> (r: Result<(), CodecError>)
    requires
        msg is GoAway,
        fields_fit(msg@.fields),
    ensures
        match enc_fields(schema(msg@.message_type), msg@.fields) {
            Ok(b) => r == Ok::<(), CodecError>(()) && final(buf)@ == old(buf)@ + b,
            Err(e) => r == Err::<(), CodecError>(e),
        },
{
    proof {
        reveal_with_fuel(enc_fields, 2);
        assert(field_fits(msg@.fields[0]));
    }
    let ghost start = buf@;
    let m = match msg { ControlMessage::GoAway(m) => m, _ => { proof { assert(false); } return Err(CodecError::InvalidField); } };
    let ghost b0 = buf@;
    put_capped_bytes(&m.new_session_uri, MAX_GOAWAY_URI_LENGTH as u64, CodecError::GoAwayUriTooLong, buf)?;
    let ghost b1 = buf@;
    proof {
        assert(b1 =~= b0 + b1.skip(b0.len() as int));
        assert(b1 =~= start + (Seq::<u8>::empty() + b1.skip(b0.len() as int)));
    }
    Ok(())
}

fn encode_max_request_id(msg: &ControlMessage, buf: &mut Vec<u8>) -> (r: Result<(), CodecError>)
    requires
        msg is MaxRequestId,
        fields_fit(msg@.fields),
    ensures
        match enc_fields(schema(msg@.message_type), msg@.fields) {
            Ok(b) => r == Ok::<(), CodecError>(()) && final(buf)@ == old(buf)@ + b,
            Err(e) => r == Err::<(), CodecError>(e),
        },
{
    proof {
        reveal_with_fuel(enc_fields, 2);
        assert(field_fits(msg@.fields[0]));
    }
    let ghost start = buf@;
    let m = match msg { ControlMessage::MaxRequestId(m) => m, _ => { proof { assert(false); } return Err(CodecError::InvalidField); } };
    let ghost b0 = buf@;
    put_varint(m.request_id, buf)?;
    let ghost b1 = buf@;
    proof {
        assert(b1 =~= b0 + b1.skip(b0.len() as int));
        assert(b1 =~= start + (Seq::<u8>::empty() + b1.skip(b0.len() as int)));
    }
    Ok(())
}

fn encode_requests_blocked(msg: &ControlMessage, buf: &mut Vec<u8>) -> (r: Result<(), CodecError>)
    requires
        msg is RequestsBlocked,
        fields_fit(msg@.fields),
    ensures
        match enc_fields(schema(msg@.message_type), msg@.fields) {
            Ok(b) => r == Ok::<(), CodecError>(()) && final(buf)@ == old(buf)@ + b,
            Err(e) => r == Err::<(), CodecError>(e),
        },
{
    proof {
        reveal_with_fuel(enc_fields, 2);
        assert(field_fits(msg@.fields[0]));
    }
    let ghost start = buf@;
    let m = match msg { ControlMessage::RequestsBlocked(m) => m, _ => { proof { assert(false); } return Err(CodecError::InvalidField); } };
    let ghost b0 = buf@;
    put_varint(m.maximum_request_id, buf)?;
    let ghost b1 = buf@;
    proof {
        assert(b1 =~= b0 + b1.skip(b0.len() as int));
        assert(b1 =~= start + (Seq::<u8>::empty() + b1.skip(b0.len() as int)));
    }
    Ok(())
}

#[verifier::rlimit(100)]
#[verifier::spinoff_prover]
fn encode_subscribe(msg: &ControlMessage, buf: &mut Vec<u8>) -> (r: Result<(), CodecError>)
    requires
        msg is Subscribe,
        fields_fit(msg@.fields),
    ensures
        match enc_fields(schema(msg@.message_type), msg@.fields) {
            Ok(b) => r == Ok::<(), CodecError>(()) && final(buf)@ == old(buf)@ + b,
            Err(e) => r == Err::<(), CodecError>(e),
        },
{
    proof {
        reveal_with_fuel(enc_fields, 7);
        assert(field_fits(msg@.fields[0]));
        assert(field_fits(msg@.fields[1]));
        assert(field_fits(msg@.fields[2]));
        assert(field_fits(msg@.fields[3]));
        assert(field_fits(msg@.fields[4]));
        assert(field_fits(msg@.fields[5]));
    }
    let ghost start = buf@;
    let m = match msg { ControlMessage::Subscribe(m) => m, _ => { proof { assert(false); } return Err(CodecError::InvalidField); } };
    let ghost b0 = buf@;
    put_varint(m.request_id, buf)?;
    let ghost b1 = buf@;
    put_namespace(&m.track_namespace, buf)?;
    let ghost b2 = buf@;
    put_track_name(&m.track_namespace, &m.track_name, buf)?;
    let ghost b3 = buf@;
    put3(m.subscriber_priority, order_byte(m.group_order), fwd_byte(m.forward), buf)?;
    let ghost b4 = buf@;
    put_filter(m.filter_type, &m.start_location, &m.end_group, buf)?;
    let ghost b5 = buf@;
    encode_parameters(m.parameters.as_slice(), buf)?;
    let ghost b6 = buf@;
    proof {
        assert(b1 =~= b0 + b1.skip(b0.len() as int));
        assert(b2 =~= b1 + b2.skip(b1.len() as int));
        assert(b3 =~= b2 + b3.skip(b2.len() as int));
        assert(b4 =~= b3 + b4.skip(b3.len() as int));
        assert(b5 =~= b4 + b5.skip(b4.len() as int));
        assert(b6 =~= b5 + b6.skip(b5.len() as int));
        assert(b6 =~= start + ((((((Seq::<u8>::empty() + b1.skip(b0.len() as int)) + b2.skip(b1.len() as int)) + b3.skip(b2.len() as int)) + b4.skip(b3.len() as int)) + b5.skip(b4.len() as int)) + b6.skip(b5.len() as int)));
    }
    Ok(())
}

#[verifier::rlimit(100)]
#[verifier::spinoff_prover]
fn encode_subscribe_ok(msg: &ControlMessage, buf: &mut Vec<u8>) -> (r: Result<(), CodecError>)
    requires
        msg is SubscribeOk,
        fields_fit(msg@.fields),
    ensures
        match enc_fields(schema(msg@.message_type), msg@.fields) {
            Ok(b) => r == Ok::<(), CodecError>(()) && final(buf)@ == old(buf)@ + b,
            Err(e) => r == Err::<(), CodecError>(e),
        },
{
    proof {
        reveal_with_fuel(enc_fields, 6);
        assert(field_fits(msg@.fields[0]));
        assert(field_fits(msg@.fields[1]));
        assert(field_fits(msg@.fields[2]));
        assert(field_fits(msg@.fields[3]));
        assert(field_fits(msg@.fields[4]));
    }
    let ghost start = buf@;
    let m = match msg { ControlMessage::SubscribeOk(m) => m, _ => { proof { assert(false); } return Err(CodecError::InvalidField); } };
    let ghost b0 = buf@;
    put_varint(m.request_id, buf)?;
    let ghost b1 = buf@;
    put_varint(m.track_alias, buf)?;
    let ghost b2 = buf@;
    put_varint(m.expires, buf)?;
    let ghost b3 = buf@;
    put_content(m.group_order, m.content_exists, &m.largest_location, buf)?;
    let ghost b4 = buf@;
    encode_parameters(m.parameters.as_slice(), buf)?;
    let ghost b5 = buf@;
    proof {
        assert(b1 =~= b0 + b1.skip(b0.len() as int));
        assert(b2 =~= b1 + b2.skip(b1.len() as int));
        assert(b3 =~= b2 + b3.skip(b2.len() as int));
        assert(b4 =~= b3 + b4.skip(b3.len() as int));
        assert(b5 =~= b4 + b5.skip(b4.len() as int));
        assert(b5 =~= start + (((((Seq::<u8>::empty() + b1.skip(b0.len() as int)) + b2.skip(b1.len() as int)) + b3.skip(b2.len() as int)) + b4.skip(b3.len() as int)) + b5.skip(b4.len() as int)));
    }
    Ok(())
}

fn encode_subscribe_error(msg: &ControlMessage, buf: &mut Vec<u8>) -> (r: Result<(), CodecError>)
    requires
        msg is SubscribeError,
        fields_fit(msg@.fields),
    ensures
        match enc_fields(schema(msg@.message_type), msg@.fields) {
            Ok(b) => r == Ok::<(), CodecError>(()) && final(buf)@ == old(buf)@ + b,
            Err(e) => r == Err::<(), CodecError>(e),
        },
{
    proof {
        reveal_with_fuel(enc_fields, 4);
        assert(field_fits(msg@.fields[0]));
        assert(field_fits(msg@.fields[1]));
        assert(field_fits(msg@.fields[2]));
    }
    let ghost start = buf@;
    let m = match msg { ControlMessage::SubscribeError(m) => m, _ => { proof { assert(false); } return Err(CodecError::InvalidField); } };
    let ghost b0 = buf@;
    put_varint(m.request_id, buf)?;
    let ghost b1 = buf@;
    put_varint(m.error_code, buf)?;
    let ghost b2 = buf@;
    put_capped_bytes(&m.reason_phrase, MAX_REASON_PHRASE_LENGTH as u64, CodecError::ReasonPhraseTooLong, buf)?;
    let ghost b3 = buf@;
    proof {
        assert(b1 =~= b0 + b1.skip(b0.len() as int));
        assert(b2 =~= b1 + b2.skip(b1.len() as int));
        assert(b3 =~= b2 + b3.skip(b2.len() as int));
        assert(b3 =~= start + (((Seq::<u8>::empty() + b1.skip(b0.len() as int)) + b2.skip(b1.len() as int)) + b3.skip(b2.len() as int)));
    }
    Ok(())
}

#[verifier::rlimit(100)]
#[verifier::spinoff_prover]
fn encode_subscribe_update(msg: &ControlMessage, buf: &mut Vec<u8>) -> (r: Result<(), CodecError>)
    requires
        msg is SubscribeUpdate,
        fields_fit(msg@.fields),
    ensures
        match enc_fields(schema(msg@.message_type), msg@.fields) {
            Ok(b) => r == Ok::<(), CodecError>(()) && final(buf)@ == old(buf)@ + b,
            Err(e) => r == Err::<(), CodecError>(e),
        },
{
    proof {
        reveal_with_fuel(enc_fields, 7);
        assert(field_fits(msg@.fields[0]));
        assert(field_fits(msg@.fields[1]));
        assert(field_fits(msg@.fields[2]));
        assert(field_fits(msg@.fields[3]));
        assert(field_fits(msg@.fields[4]));
        assert(field_fits(msg@.fields[5]));
    }
    let ghost start = buf@;
    let m = match msg { ControlMessage::SubscribeUpdate(m) => m, _ => { proof { assert(false); } return Err(CodecError::InvalidField); } };
    let ghost b0 = buf@;
    put_varint(m.request_id, buf)?;
    let ghost b1 = buf@;
    put_varint(m.subscription_request_id, buf)?;
    let ghost b2 = buf@;
    put_location(&m.start_location, buf)?;
    let ghost b3 = buf@;
    put_varint(m.end_group, buf)?;
    let ghost b4 = buf@;
    put2(m.subscriber_priority, fwd_byte(m.forward), buf)?;
    let ghost b5 = buf@;
    encode_parameters(m.parameters.as_slice(), buf)?;
    let ghost b6 = buf@;
    proof {
        assert(b1 =~= b0 + b1.skip(b0.len() as int));
        assert(b2 =~= b1 + b2.skip(b1.len() as int));
        assert(b3 =~= b2 + b3.skip(b2.len() as int));
        assert(b4 =~= b3 + b4.skip(b3.len() as int));
        assert(b5 =~= b4 + b5.skip(b4.len() as int));
        assert(b6 =~= b5 + b6.skip(b5.len() as int));
        assert(b6 =~= start + ((((((Seq::<u8>::empty() + b1.skip(b0.len() as int)) + b2.skip(b1.len() as int)) + b3.skip(b2.len() as int)) + b4.skip(b3.len() as int)) + b5.skip(b4.len() as int)) + b6.skip(b5.len() as int)));
    }
    Ok(())
}

fn encode_unsubscribe(msg: &ControlMessage, buf: &mut Vec<u8>) -> (r: Result<(), CodecError>)
    requires
        msg is Unsubscribe,
        fields_fit(msg@.fields),
    ensures
        match enc_fields(schema(msg@.message_type), msg@.fields) {
            Ok(b) => r == Ok::<(), CodecError>(()) && final(buf)@ == old(buf)@ + b,
            Err(e) => r == Err::<(), CodecError>(e),
        },
{
    proof {
        reveal_with_fuel(enc_fields, 2);
        assert(field_fits(msg@.fields[0]));
    }
    let ghost start = buf@;
    let m = match msg { ControlMessage::Unsubscribe(m) => m, _ => { proof { assert(false); } return Err(CodecError::InvalidField); } };
    let ghost b0 = buf@;
    put_varint(m.request_id, buf)?;
    let ghost b1 = buf@;
    proof {
        assert(b1 =~= b0 + b1.skip(b0.len() as int));
        assert(b1 =~= start + (Seq::<u8>::empty() + b1.skip(b0.len() as int)));
    }
    Ok(())
}

#[verifier::rlimit(100)]
#[verifier::spinoff_prover]
fn encode_publish(msg: &ControlMessage, buf: &mut Vec<u8>) -> (r: Result<(), CodecError>)
    requires
        msg is Publish,
        fields_fit(msg@.fields),
    ensures
        match enc_fields(schema(msg@.message_type), msg@.fields) {
            Ok(b) => r == Ok::<(), CodecError>(()) && final(buf)@ == old(buf)@ + b,
            Err(e) => r == Err::<(), CodecError>(e),
        },
{
    proof {
        reveal_with_fuel(enc_fields, 8);
        assert(field_fits(msg@.fields[0]));
        assert(field_fits(msg@.fields[1]));
        assert(field_fits(msg@.fields[2]));
        assert(field_fits(msg@.fields[3]));
        assert(field_fits(msg@.fields[4]));
        assert(field_fits(msg@.fields[5]));
        assert(field_fits(msg@.fields[6]));
    }
    let ghost start = buf@;
    let m = match msg { ControlMessage::Publish(m) => m, _ => { proof { assert(false); } return Err(CodecError::InvalidField); } };
    let ghost b0 = buf@;
    put_varint(m.request_id, buf)?;
    let ghost b1 = buf@;
    put_namespace(&m.track_namespace, buf)?;
    let ghost b2 = buf@;
    put_track_name(&m.track_namespace, &m.track_name, buf)?;
    let ghost b3 = buf@;
    put_varint(m.track_alias, buf)?;
    let ghost b4 = buf@;
    put_content(m.group_order, m.content_exists, &m.largest_location, buf)?;
    let ghost b5 = buf@;
    put1(fwd_byte(m.forward), buf)?;
    let ghost b6 = buf@;
    encode_parameters(m.parameters.as_slice(), buf)?;
    let ghost b7 = buf@;
    proof {
        assert(b1 =~= b0 + b1.skip(b0.len() as int));
        assert(b2 =~= b1 + b2.skip(b1.len() as int));
        assert(b3 =~= b2 + b3.skip(b2.len() as int));
        assert(b4 =~= b3 + b4.skip(b3.len() as int));
        assert(b5 =~= b4 + b5.skip(b4.len() as int));
        assert(b6 =~= b5 + b6.skip(b5.len() as int));
        assert(b7 =~= b6 + b7.skip(b6.len() as int));
        assert(b7 =~= start + (((((((Seq::<u8>::empty() + b1.skip(b0.len() as int)) + b2.skip(b1.len() as int)) + b3.skip(b2.len() as int)) + b4.skip(b3.len() as int)) + b5.skip(b4.len() as int)) + b6.skip(b5.len() as int)) + b7.skip(b6.len() as int)));
    }
    Ok(())
}

fn encode_publish_ok(msg: &ControlMessage, buf: &mut Vec<u8>) -> (r: Result<(), CodecError>)
    requires
        msg is PublishOk,
        fields_fit(msg@.fields),
    ensures
        match enc_fields(schema(msg@.message_type), msg@.fields) {
            Ok(b) => r == Ok::<(), CodecError>(()) && final(buf)@ == old(buf)@ + b,
            Err(e) => r == Err::<(), CodecError>(e),
        },
{
    proof {
        reveal_with_fuel(enc_fields, 5);
        assert(field_fits(msg@.fields[0]));
        assert(field_fits(msg@.fields[1]));
        assert(field_fits(msg@.fields[2]));
        assert(field_fits(msg@.fields[3]));
    }
    let ghost start = buf@;
    let m = match msg { ControlMessage::PublishOk(m) => m, _ => { proof { assert(false); } return Err(CodecError::InvalidField); } };
    let ghost b0 = buf@;
    put_varint(m.request_id, buf)?;
    let ghost b1 = buf@;
    put3(fwd_byte(m.forward), m.subscriber_priority, order_byte(m.group_order), buf)?;
    let ghost b2 = buf@;
    put_filter(m.filter_type, &m.start_location, &m.end_group, buf)?;
    let ghost b3 = buf@;
    encode_parameters(m.parameters.as_slice(), buf)?;
    let ghost b4 = buf@;
    proof {
        assert(b1 =~= b0 + b1.skip(b0.len() as int));
        assert(b2 =~= b1 + b2.skip(b1.len() as int));
        assert(b3 =~= b2 + b3.skip(b2.len() as int));
        assert(b4 =~= b3 + b4.skip(b3.len() as int));
        assert(b4 =~= start + ((((Seq::<u8>::empty() + b1.skip(b0.len() as int)) + b2.skip(b1.len() as int)) + b3.skip(b2.len() as int)) + b4.skip(b3.len() as int)));
    }
    Ok(())
}

fn encode_publish_error(msg: &ControlMessage, buf: &mut Vec<u8>) -> (r: Result<(), CodecError>)
    requires
        msg is PublishError,
        fields_fit(msg@.fields),
    ensures
        match enc_fields(schema(msg@.message_type), msg@.fields) {
            Ok(b) => r == Ok::<(), CodecError>(()) && final(buf)@ == old(buf)@ + b,
            Err(e) => r == Err::<(), CodecError>(e),
        },
{
    proof {
        reveal_with_fuel(enc_fields, 4);
        assert(field_fits(msg@.fields[0]));
        assert(field_fits(msg@.fields[1]));
        assert(field_fits(msg@.fields[2]));
    }
    let ghost start = buf@;
    let m = match msg { ControlMessage::PublishError(m) => m, _ => { proof { assert(false); } return Err(CodecError::InvalidField); } };
    let ghost b0 = buf@;
    put_varint(m.request_id, buf)?;
    let ghost b1 = buf@;
    put_varint(m.error_code, buf)?;
    let ghost b2 = buf@;
    put_capped_bytes(&m.reason_phrase, MAX_REASON_PHRASE_LENGTH as u64, CodecError::ReasonPhraseTooLong, buf)?;
    let ghost b3 = buf@;
    proof {
        assert(b1 =~= b0 + b1.skip(b0.len() as int));
        assert(b2 =~= b1 + b2.skip(b1.len() as int));
        assert(b3 =~= b2 + b3.skip(b2.len() as int));
        assert(b3 =~= start + (((Seq::<u8>::empty() + b1.skip(b0.len() as int)) + b2.skip(b1.len() as int)) + b3.skip(b2.len() as int)));
    }
    Ok(())
}

fn encode_publish_done(msg: &ControlMessage, buf: &mut Vec<u8>) -> (r: Result<(), CodecError>)
    requires
        msg is PublishDone,
        fields_fit(msg@.fields),
    ensures
        match enc_fields(schema(msg@.message_type), msg@.fields) {
            Ok(b) => r == Ok::<(), CodecError>(()) && final(buf)@ == old(buf)@ + b,
            Err(e) => r == Err::<(), CodecError>(e),
        },
{
    proof {
        reveal_with_fuel(enc_fields, 5);
        assert(field_fits(msg@.fields[0]));
        assert(field_fits(msg@.fields[1]));
        assert(field_fits(msg@.fields[2]));
        assert(field_fits(msg@.fields[3]));
    }
    let ghost start = buf@;
    let m = match msg { ControlMessage::PublishDone(m) => m, _ => { proof { assert(false); } return Err(CodecError::InvalidField); } };
    let ghost b0 = buf@;
    put_varint(m.request_id, buf)?;
    let ghost b1 = buf@;
    put_varint(m.status_code, buf)?;
    let ghost b2 = buf@;
    put_varint(m.stream_count, buf)?;
    let ghost b3 = buf@;
    put_capped_bytes(&m.reason_phrase, MAX_REASON_PHRASE_LENGTH as u64, CodecError::ReasonPhraseTooLong, buf)?;
    let ghost b4 = buf@;
    proof {
        assert(b1 =~= b0 + b1.skip(b0.len() as int));
        assert(b2 =~= b1 + b2.skip(b1.len() as int));
        assert(b3 =~= b2 + b3.skip(b2.len() as int));
        assert(b4 =~= b3 + b4.skip(b3.len() as int));
        assert(b4 =~= start + ((((Seq::<u8>::empty() + b1.skip(b0.len() as int)) + b2.skip(b1.len() as int)) + b3.skip(b2.len() as int)) + b4.skip(b3.len() as int)));
    }
    Ok(())
}

fn encode_publish_namespace(msg: &ControlMessage, buf: &mut Vec<u8>) -> (r: Result<(), CodecError>)
    requires
        msg is PublishNamespace,
        fields_fit(msg@.fields),
    ensures
        match enc_fields(schema(msg@.message_type), msg@.fields) {
            Ok(b) => r == Ok::<(), CodecError>(()) && final(buf)@ == old(buf)@ + b,
            Err(e) => r == Err::<(), CodecError>(e),
        },
{
    proof {
        reveal_with_fuel(enc_fields, 4);
        assert(field_fits(msg@.fields[0]));
        assert(field_fits(msg@.fields[1]));
        assert(field_fits(msg@.fields[2]));
    }
    let ghost start = buf@;
    let m = match msg { ControlMessage::PublishNamespace(m) => m, _ => { proof { assert(false); } return Err(CodecError::InvalidField); } };
    let ghost b0 = buf@;
    put_varint(m.request_id, buf)?;
    let ghost b1 = buf@;
    put_namespace(&m.track_namespace, buf)?;
    let ghost b2 = buf@;
    encode_parameters(m.parameters.as_slice(), buf)?;
    let ghost b3 = buf@;
    proof {
        assert(b1 =~= b0 + b1.skip(b0.len() as int));
        assert(b2 =~= b1 + b2.skip(b1.len() as int));
        assert(b3 =~= b2 + b3.skip(b2.len() as int));
        assert(b3 =~= start + (((Seq::<u8>::empty() + b1.skip(b0.len() as int)) + b2.skip(b1.len() as int)) + b3.skip(b2.len() as int)));
    }
    Ok(())
}

fn encode_publish_namespace_ok(msg: &ControlMessage, buf: &mut Vec<u8>) -> (r: Result<(), CodecError>)
    requires
        msg is PublishNamespaceOk,
        fields_fit(msg@.fields),
    ensures
        match enc_fields(schema(msg@.message_type), msg@.fields) {
            Ok(b) => r == Ok::<(), CodecError>(()) && final(buf)@ == old(buf)@ + b,
            Err(e) => r == Err::<(), CodecError>(e),
        },
{
    proof {
        reveal_with_fuel(enc_fields, 2);
        assert(field_fits(msg@.fields[0]));
    }
    let ghost start = buf@;
    let m = match msg { ControlMessage::PublishNamespaceOk(m) => m, _ => { proof { assert(false); } return Err(CodecError::InvalidField); } };
    let ghost b0 = buf@;
    put_varint(m.request_id, buf)?;
    let ghost b1 = buf@;
    proof {
        assert(b1 =~= b0 + b1.skip(b0.len() as int));
        assert(b1 =~= start + (Seq::<u8>::empty() + b1.skip(b0.len() as int)));
    }
    Ok(())
}

fn encode_publish_namespace_error(msg: &ControlMessage, buf: &mut Vec<u8>) -> (r: Result<(), CodecError>)
    requires
        msg is PublishNamespaceError,
        fields_fit(msg@.fields),
    ensures
        match enc_fields(schema(msg@.message_type), msg@.fields) {
            Ok(b) => r == Ok::<(), CodecError>(()) && final(buf)@ == old(buf)@ + b,
            Err(e) => r == Err::<(), CodecError>(e),
        },
{
    proof {
        reveal_with_fuel(enc_fields, 4);
        assert(field_fits(msg@.fields[0]));
        assert(field_fits(msg@.fields[1]));
        assert(field_fits(msg@.fields[2]));
    }
    let ghost start = buf@;
    let m = match msg { ControlMessage::PublishNamespaceError(m) => m, _ => { proof { assert(false); } return Err(CodecError::InvalidField); } };
    let ghost b0 = buf@;
    put_varint(m.request_id, buf)?;
    let ghost b1 = buf@;
    put_varint(m.error_code, buf)?;
    let ghost b2 = buf@;
    put_capped_bytes(&m.reason_phrase, MAX_REASON_PHRASE_LENGTH as u64, CodecError::ReasonPhraseTooLong, buf)?;
    let ghost b3 = buf@;
    proof {
        assert(b1 =~= b0 + b1.skip(b0.len() as int));
        assert(b2 =~= b1 + b2.skip(b1.len() as int));
        assert(b3 =~= b2 + b3.skip(b2.len() as int));
        assert(b3 =~= start + (((Seq::<u8>::empty() + b1.skip(b0.len() as int)) + b2.skip(b1.len() as int)) + b3.skip(b2.len() as int)));
    }
    Ok(())
}

fn encode_publish_namespace_done(msg: &ControlMessage, buf: &mut Vec<u8>) -> (r: Result<(), CodecError>)
    requires
        msg is PublishNamespaceDone,
        fields_fit(msg@.fields),
    ensures
        match enc_fields(schema(msg@.message_type), msg@.fields) {
            Ok(b) => r == Ok::<(), CodecError>(()) && final(buf)@ == old(buf)@ + b,
            Err(e) => r == Err::<(), CodecError>(e),
        },
{
    proof {
        reveal_with_fuel(enc_fields, 2);
        assert(field_fits(msg@.fields[0]));
    }
    let ghost start = buf@;
    let m = match msg { ControlMessage::PublishNamespaceDone(m) => m, _ => { proof { assert(false); } return Err(CodecError::InvalidField); } };
    let ghost b0 = buf@;
    put_namespace(&m.track_namespace, buf)?;
    let ghost b1 = buf@;
    proof {
        assert(b1 =~= b0 + b1.skip(b0.len() as int));
        assert(b1 =~= start + (Seq::<u8>::empty() + b1.skip(b0.len() as int)));
    }
    Ok(())
}

fn encode_publish_namespace_cancel(msg: &ControlMessage, buf: &mut Vec<u8>) -> (r: Result<(), CodecError>)
    requires
        msg is PublishNamespaceCancel,
        fields_fit(msg@.fields),
    ensures
        match enc_fields(schema(msg@.message_type), msg@.fields) {
            Ok(b) => r == Ok::<(), CodecError>(()) && final(buf)@ == old(buf)@ + b,
            Err(e) => r == Err::<(), CodecError>(e),
        },
{
    proof {
        reveal_with_fuel(enc_fields, 4);
        assert(field_fits(msg@.fields[0]));
        assert(field_fits(msg@.fields[1]));
        assert(field_fits(msg@.fields[2]));
    }
    let ghost start = buf@;
    let m = match msg { ControlMessage::PublishNamespaceCancel(m) => m, _ => { proof { assert(false); } return Err(CodecError::InvalidField); } };
    let ghost b0 = buf@;
    put_namespace(&m.track_namespace, buf)?;
    let ghost b1 = buf@;
    put_varint(m.error_code, buf)?;
    let ghost b2 = buf@;
    put_capped_bytes(&m.reason_phrase, MAX_REASON_PHRASE_LENGTH as u64, CodecError::ReasonPhraseTooLong, buf)?;
    let ghost b3 = buf@;
    proof {
        assert(b1 =~= b0 + b1.skip(b0.len() as int));
        assert(b2 =~= b1 + b2.skip(b1.len() as int));
        assert(b3 =~= b2 + b3.skip(b2.len() as int));
        assert(b3 =~= start + (((Seq::<u8>::empty() + b1.skip(b0.len() as int)) + b2.skip(b1.len() as int)) + b3.skip(b2.len() as int)));
    }
    Ok(())
}

fn encode_subscribe_namespace(msg: &ControlMessage, buf: &mut Vec<u8>) -> (r: Result<(), CodecError>)
    requires
        msg is SubscribeNamespace,
        fields_fit(msg@.fields),
    ensures
        match enc_fields(schema(msg@.message_type), msg@.fields) {
            Ok(b) => r == Ok::<(), CodecError>(()) && final(buf)@ == old(buf)@ + b,
            Err(e) => r == Err::<(), CodecError>(e),
        },
{
    proof {
        reveal_with_fuel(enc_fields, 4);
        assert(field_fits(msg@.fields[0]));
        assert(field_fits(msg@.fields[1]));
        assert(field_fits(msg@.fields[2]));
    }
    let ghost start = buf@;
    let m = match msg { ControlMessage::SubscribeNamespace(m) => m, _ => { proof { assert(false); } return Err(CodecError::InvalidField); } };
    let ghost b0 = buf@;
    put_varint(m.request_id, buf)?;
    let ghost b1 = buf@;
    put_namespace(&m.track_namespace, buf)?;
    let ghost b2 = buf@;
    encode_parameters(m.parameters.as_slice(), buf)?;
    let ghost b3 = buf@;
    proof {
        assert(b1 =~= b0 + b1.skip(b0.len() as int));
        assert(b2 =~= b1 + b2.skip(b1.len() as int));
        assert(b3 =~= b2 + b3.skip(b2.len() as int));
        assert(b3 =~= start + (((Seq::<u8>::empty() + b1.skip(b0.len() as int)) + b2.skip(b1.len() as int)) + b3.skip(b2.len() as int)));
    }
    Ok(())
}

fn encode_subscribe_namespace_ok(msg: &ControlMessage, buf: &mut Vec<u8>) -> (r: Result<(), CodecError>)
    requires
        msg is SubscribeNamespaceOk,
        fields_fit(msg@.fields),
    ensures
        match enc_fields(schema(msg@.message_type), msg@.fields) {
            Ok(b) => r == Ok::<(), CodecError>(()) && final(buf)@ == old(buf)@ + b,
            Err(e) => r == Err::<(), CodecError>(e),
        },
{
    proof {
        reveal_with_fuel(enc_fields, 2);
        assert(field_fits(msg@.fields[0]));
    }
    let ghost start = buf@;
    let m = match msg { ControlMessage::SubscribeNamespaceOk(m) => m, _ => { proof { assert(false); } return Err(CodecError::InvalidField); } };
    let ghost b0 = buf@;
    put_varint(m.request_id, buf)?;
    let ghost b1 = buf@;
    proof {
        assert(b1 =~= b0 + b1.skip(b0.len() as int));
        assert(b1 =~= start + (Seq::<u8>::empty() + b1.skip(b0.len() as int)));
    }
    Ok(())
}

fn encode_subscribe_namespace_error(msg: &ControlMessage, buf: &mut Vec<u8>) -> (r: Result<(), CodecError>)
    requires
        msg is SubscribeNamespaceError,
        fields_fit(msg@.fields),
    ensures
        match enc_fields(schema(msg@.message_type), msg@.fields) {
            Ok(b) => r == Ok::<(), CodecError>(()) && final(buf)@ == old(buf)@ + b,
            Err(e) => r == Err::<(), CodecError>(e),
        },
{
    proof {
        reveal_with_fuel(enc_fields, 4);
        assert(field_fits(msg@.fields[0]));
        assert(field_fits(msg@.fields[1]));
        assert(field_fits(msg@.fields[2]));
    }
    let ghost start = buf@;
    let m = match msg { ControlMessage::SubscribeNamespaceError(m) => m, _ => { proof { assert(false); } return Err(CodecError::InvalidField); } };
    let ghost b0 = buf@;
    put_varint(m.request_id, buf)?;
    let ghost b1 = buf@;
    put_varint(m.error_code, buf)?;
    let ghost b2 = buf@;
    put_capped_bytes(&m.reason_phrase, MAX_REASON_PHRASE_LENGTH as u64, CodecError::ReasonPhraseTooLong, buf)?;
    let ghost b3 = buf@;
    proof {
        assert(b1 =~= b0 + b1.skip(b0.len() as int));
        assert(b2 =~= b1 + b2.skip(b1.len() as int));
        assert(b3 =~= b2 + b3.skip(b2.len() as int));
        assert(b3 =~= start + (((Seq::<u8>::empty() + b1.skip(b0.len() as int)) + b2.skip(b1.len() as int)) + b3.skip(b2.len() as int)));
    }
    Ok(())
}

fn encode_unsubscribe_namespace(msg: &ControlMessage, buf: &mut Vec<u8>) -> (r: Result<(), CodecError>)
    requires
        msg is UnsubscribeNamespace,
        fields_fit(msg@.fields),
    ensures
        match enc_fields(schema(msg@.message_type), msg@.fields) {
            Ok(b) => r == Ok::<(), CodecError>(()) && final(buf)@ == old(buf)@ + b,
            Err(e) => r == Err::<(), CodecError>(e),
        },
{
    proof {
        reveal_with_fuel(enc_fields, 2);
        assert(field_fits(msg@.fields[0]));
    }
    let ghost start = buf@;
    let m = match msg { ControlMessage::UnsubscribeNamespace(m) => m, _ => { proof { assert(false); } return Err(CodecError::InvalidField); } };
    let ghost b0 = buf@;
    put_namespace(&m.track_namespace_prefix, buf)?;
    let ghost b1 = buf@;
    proof {
        assert(b1 =~= b0 + b1.skip(b0.len() as int));
        assert(b1 =~= start + (Seq::<u8>::empty() + b1.skip(b0.len() as int)));
    }
    Ok(())
}

fn encode_fetch(msg: &ControlMessage, buf: &mut Vec<u8>) -> (r: Result<(), CodecError>)
    requires
        msg is Fetch,
        fields_fit(msg@.fields),
    ensures
        match enc_fields(schema(msg@.message_type), msg@.fields) {
            Ok(b) => r == Ok::<(), CodecError>(()) && final(buf)@ == old(buf)@ + b,
            Err(e) => r == Err::<(), CodecError>(e),
        },
{
    proof {
        reveal_with_fuel(enc_fields, 5);
        assert(field_fits(msg@.fields[0]));
        assert(field_fits(msg@.fields[1]));
        assert(field_fits(msg@.fields[2]));
        assert(field_fits(msg@.fields[3]));
    }
    let ghost start = buf@;
    let m = match msg { ControlMessage::Fetch(m) => m, _ => { proof { assert(false); } return Err(CodecError::InvalidField); } };
    let ghost b0 = buf@;
    put_varint(m.request_id, buf)?;
    let ghost b1 = buf@;
    put2(m.subscriber_priority, order_byte(m.group_order), buf)?;
    let ghost b2 = buf@;
    put_fetch_body(m.fetch_type, &m.fetch_payload, buf)?;
    let ghost b3 = buf@;
    encode_parameters(m.parameters.as_slice(), buf)?;
    let ghost b4 = buf@;
    proof {
        assert(b1 =~= b0 + b1.skip(b0.len() as int));
        assert(b2 =~= b1 + b2.skip(b1.len() as int));
        assert(b3 =~= b2 + b3.skip(b2.len() as int));
        assert(b4 =~= b3 + b4.skip(b3.len() as int));
        assert(b4 =~= start + ((((Seq::<u8>::empty() + b1.skip(b0.len() as int)) + b2.skip(b1.len() as int)) + b3.skip(b2.len() as int)) + b4.skip(b3.len() as int)));
    }
    Ok(())
}

fn encode_fetch_ok(msg: &ControlMessage, buf: &mut Vec<u8>) -> (r: Result<(), CodecError>)
    requires
        msg is FetchOk,
        fields_fit(msg@.fields),
    ensures
        match enc_fields(schema(msg@.message_type), msg@.fields) {
            Ok(b) => r == Ok::<(), CodecError>(()) && final(buf)@ == old(buf)@ + b,
            Err(e) => r == Err::<(), CodecError>(e),
        },
{
    proof {
        reveal_with_fuel(enc_fields, 5);
        assert(field_fits(msg@.fields[0]));
        assert(field_fits(msg@.fields[1]));
        assert(field_fits(msg@.fields[2]));
        assert(field_fits(msg@.fields[3]));
    }
    let ghost start = buf@;
    let m = match msg { ControlMessage::FetchOk(m) => m, _ => { proof { assert(false); } return Err(CodecError::InvalidField); } };
    let ghost b0 = buf@;
    put_varint(m.request_id, buf)?;
    let ghost b1 = buf@;
    put2(order_byte(m.group_order), m.end_of_track, buf)?;
    let ghost b2 = buf@;
    put_location(&m.end_location, buf)?;
    let ghost b3 = buf@;
    encode_parameters(m.parameters.as_slice(), buf)?;
    let ghost b4 = buf@;
    proof {
        assert(b1 =~= b0 + b1.skip(b0.len() as int));
        assert(b2 =~= b1 + b2.skip(b1.len() as int));
        assert(b3 =~= b2 + b3.skip(b2.len() as int));
        assert(b4 =~= b3 + b4.skip(b3.len() as int));
        assert(b4 =~= start + ((((Seq::<u8>::empty() + b1.skip(b0.len() as int)) + b2.skip(b1.len() as int)) + b3.skip(b2.len() as int)) + b4.skip(b3.len() as int)));
    }
    Ok(())
}

fn encode_fetch_error(msg: &ControlMessage, buf: &mut Vec<u8>) -> (r: Result<(), CodecError>)
    requires
        msg is FetchError,
        fields_fit(msg@.fields),
    ensures
        match enc_fields(schema(msg@.message_type), msg@.fields) {
            Ok(b) => r == Ok::<(), CodecError>(()) && final(buf)@ == old(buf)@ + b,
            Err(e) => r == Err::<(), CodecError>(e),
        },
{
    proof {
        reveal_with_fuel(enc_fields, 4);
        assert(field_fits(msg@.fields[0]));
        assert(field_fits(msg@.fields[1]));
        assert(field_fits(msg@.fields[2]));
    }
    let ghost start = buf@;
    let m = match msg { ControlMessage::FetchError(m) => m, _ => { proof { assert(false); } return Err(CodecError::InvalidField); } };
    let ghost b0 = buf@;
    put_varint(m.request_id, buf)?;
    let ghost b1 = buf@;
    put_varint(m.error_code, buf)?;
    let ghost b2 = buf@;
    put_capped_bytes(&m.reason_phrase, MAX_REASON_PHRASE_LENGTH as u64, CodecError::ReasonPhraseTooLong, buf)?;
    let ghost b3 = buf@;
    proof {
        assert(b1 =~= b0 + b1.skip(b0.len() as int));
        assert(b2 =~= b1 + b2.skip(b1.len() as int));
        assert(b3 =~= b2 + b3.skip(b2.len() as int));
        assert(b3 =~= start + (((Seq::<u8>::empty() + b1.skip(b0.len() as int)) + b2.skip(b1.len() as int)) + b3.skip(b2.len() as int)));
    }
    Ok(())
}

fn encode_fetch_cancel(msg: &ControlMessage, buf: &mut Vec<u8>) -> (r: Result<(), CodecError>)
    requires
        msg is FetchCancel,
        fields_fit(msg@.fields),
    ensures
        match enc_fields(schema(msg@.message_type), msg@.fields) {
            Ok(b) => r == Ok::<(), CodecError>(()) && final(buf)@ == old(buf)@ + b,
            Err(e) => r == Err::<(), CodecError>(e),
        },
{
    proof {
        reveal_with_fuel(enc_fields, 2);
        assert(field_fits(msg@.fields[0]));
    }
    let ghost start = buf@;
    let m = match msg { ControlMessage::FetchCancel(m) => m, _ => { proof { assert(false); } return Err(CodecError::InvalidField); } };
    let ghost b0 = buf@;
    put_varint(m.request_id, buf)?;
    let ghost b1 = buf@;
    proof {
        assert(b1 =~= b0 + b1.skip(b0.len() as int));
        assert(b1 =~= start + (Seq::<u8>::empty() + b1.skip(b0.len() as int)));
    }
    Ok(())
}

#[verifier::rlimit(100)]
#[verifier::spinoff_prover]
fn encode_track_status(msg: &ControlMessage, buf: &mut Vec<u8>) -> (r: Result<(), CodecError>)
    requires
        msg is TrackStatus,
        fields_fit(msg@.fields),
    ensures
        match enc_fields(schema(msg@.message_type), msg@.fields) {
            Ok(b) => r == Ok::<(), CodecError>(()) && final(buf)@ == old(buf)@ + b,
            Err(e) => r == Err::<(), CodecError>(e),
        },
{
    proof {
        reveal_with_fuel(enc_fields, 7);
        assert(field_fits(msg@.fields[0]));
        assert(field_fits(msg@.fields[1]));
        assert(field_fits(msg@.fields[2]));
        assert(field_fits(msg@.fields[3]));
        assert(field_fits(msg@.fields[4]));
        assert(field_fits(msg@.fields[5]));
    }
    let ghost start = buf@;
    let m = match msg { ControlMessage::TrackStatus(m) => m, _ => { proof { assert(false); } return Err(CodecError::InvalidField); } };
    let ghost b0 = buf@;
    put_varint(m.request_id, buf)?;
    let ghost b1 = buf@;
    put_namespace(&m.track_namespace, buf)?;
    let ghost b2 = buf@;
    put_track_name(&m.track_namespace, &m.track_name, buf)?;
    let ghost b3 = buf@;
    put3(m.subscriber_priority, order_byte(m.group_order), fwd_byte(m.forward), buf)?;
    let ghost b4 = buf@;
    put_filter(m.filter_type, &m.start_location, &m.end_group, buf)?;
    let ghost b5 = buf@;
    encode_parameters(m.parameters.as_slice(), buf)?;
    let ghost b6 = buf@;
    proof {
        assert(b1 =~= b0 + b1.skip(b0.len() as int));
        assert(b2 =~= b1 + b2.skip(b1.len() as int));
        assert(b3 =~= b2 + b3.skip(b2.len() as int));
        assert(b4 =~= b3 + b4.skip(b3.len() as int));
        assert(b5 =~= b4 + b5.skip(b4.len() as int));
        assert(b6 =~= b5 + b6.skip(b5.len() as int));
        assert(b6 =~= start + ((((((Seq::<u8>::empty() + b1.skip(b0.len() as int)) + b2.skip(b1.len() as int)) + b3.skip(b2.len() as int)) + b4.skip(b3.len() as int)) + b5.skip(b4.len() as int)) + b6.skip(b5.len() as int)));
    }
    Ok(())
}

#[verifier::rlimit(100)]
#[verifier::spinoff_prover]
fn encode_track_status_ok(msg: &ControlMessage, buf: &mut Vec<u8>) -> (r: Result<(), CodecError>)
    requires
        msg is TrackStatusOk,
        fields_fit(msg@.fields),
    ensures
        match enc_fields(schema(msg@.message_type), msg@.fields) {
            Ok(b) => r == Ok::<(), CodecError>(()) && final(buf)@ == old(buf)@ + b,
            Err(e) => r == Err::<(), CodecError>(e),
        },
{
    proof {
        reveal_with_fuel(enc_fields, 6);
        assert(field_fits(msg@.fields[0]));
        assert(field_fits(msg@.fields[1]));
        assert(field_fits(msg@.fields[2]));
        assert(field_fits(msg@.fields[3]));
        assert(field_fits(msg@.fields[4]));
    }
    let ghost start = buf@;
    let m = match msg { ControlMessage::TrackStatusOk(m) => m, _ => { proof { assert(false); } return Err(CodecError::InvalidField); } };
    let ghost b0 = buf@;
    put_varint(m.request_id, buf)?;
    let ghost b1 = buf@;
    put_varint(m.track_alias, buf)?;
    let ghost b2 = buf@;
    put_varint(m.expires, buf)?;
    let ghost b3 = buf@;
    put_content(m.group_order, m.content_exists, &m.largest_location, buf)?;
    let ghost b4 = buf@;
    encode_parameters(m.parameters.as_slice(), buf)?;
    let ghost b5 = buf@;
    proof {
        assert(b1 =~= b0 + b1.skip(b0.len() as int));
        assert(b2 =~= b1 + b2.skip(b1.len() as int));
        assert(b3 =~= b2 + b3.skip(b2.len() as int));
        assert(b4 =~= b3 + b4.skip(b3.len() as int));
        assert(b5 =~= b4 + b5.skip(b4.len() as int));
        assert(b5 =~= start + (((((Seq::<u8>::empty() + b1.skip(b0.len() as int)) + b2.skip(b1.len() as int)) + b3.skip(b2.len() as int)) + b4.skip(b3.len() as int)) + b5.skip(b4.len() as int)));
    }
    Ok(())
}

fn encode_track_status_error(msg: &ControlMessage, buf: &mut Vec<u8>) -> (r: Result<(), CodecError>)
    requires
        msg is TrackStatusError,
        fields_fit(msg@.fields),
    ensures
        match enc_fields(schema(msg@.message_type), msg@.fields) {
            Ok(b) => r == Ok::<(), CodecError>(()) && final(buf)@ == old(buf)@ + b,
            Err(e) => r == Err::<(), CodecError>(e),
        },
{
    proof {
        reveal_with_fuel(enc_fields, 4);
        assert(field_fits(msg@.fields[0]));
        assert(field_fits(msg@.fields[1]));
        assert(field_fits(msg@.fields[2]));
    }
    let ghost start = buf@;
    let m = match msg { ControlMessage::TrackStatusError(m) => m, _ => { proof { assert(false); } return Err(CodecError::InvalidField); } };
    let ghost b0 = buf@;
    put_varint(m.request_id, buf)?;
    let ghost b1 = buf@;
    put_varint(m.error_code, buf)?;
    let ghost b2 = buf@;
    put_capped_bytes(&m.reason_phrase, MAX_REASON_PHRASE_LENGTH as u64, CodecError::ReasonPhraseTooLong, buf)?;
    let ghost b3 = buf@;
    proof {
        assert(b1 =~= b0 + b1.skip(b0.len() as int));
        assert(b2 =~= b1 + b2.skip(b1.len() as int));
        assert(b3 =~= b2 + b3.skip(b2.len() as int));
        assert(b3 =~= start + (((Seq::<u8>::empty() + b1.skip(b0.len() as int)) + b2.skip(b1.len() as int)) + b3.skip(b2.len() as int)));
    }
    Ok(())
}

/// Write the fields of `msg`, in wire order, appended to `buf`. A field
/// the writer refuses stops the write part way.
pub fn encode_fields(msg: &ControlMessage, buf: &mut Vec<u8>) -> (r: Result<(), CodecError>)
    requires
        fields_fit(msg@.fields),
    ensures
        match enc_fields(schema(msg@.message_type), msg@.fields) {
            Ok(b) => r == Ok::<(), CodecError>(()) && final(buf)@ == old(buf)@ + b,
            Err(e) => r == Err::<(), CodecError>(e),
        },
{
    match msg {
        ControlMessage::ClientSetup(_) => encode_client_setup(msg, buf),
        ControlMessage::ServerSetup(_) => encode_server_setup(msg, buf),
        ControlMessage::GoAway(_) => encode_go_away(msg, buf),
        ControlMessage::MaxRequestId(_) => encode_max_request_id(msg, buf),
        ControlMessage::RequestsBlocked(_) => encode_requests_blocked(msg, buf),
        ControlMessage::Subscribe(_) => encode_subscribe(msg, buf),
        ControlMessage::SubscribeOk(_) => encode_subscribe_ok(msg, buf),
        ControlMessage::SubscribeError(_) => encode_subscribe_error(msg, buf),
        ControlMessage::SubscribeUpdate(_) => encode_subscribe_update(msg, buf),
        ControlMessage::Unsubscribe(_) => encode_unsubscribe(msg, buf),
        ControlMessage::Publish(_) => encode_publish(msg, buf),
        ControlMessage::PublishOk(_) => encode_publish_ok(msg, buf),
        ControlMessage::PublishError(_) => encode_publish_error(msg, buf),
        ControlMessage::PublishDone(_) => encode_publish_done(msg, buf),
        ControlMessage::PublishNamespace(_) => encode_publish_namespace(msg, buf),
        ControlMessage::PublishNamespaceOk(_) => encode_publish_namespace_ok(msg, buf),
        ControlMessage::PublishNamespaceError(_) => encode_publish_namespace_error(msg, buf),
        ControlMessage::PublishNamespaceDone(_) => encode_publish_namespace_done(msg, buf),
        ControlMessage::PublishNamespaceCancel(_) => encode_publish_namespace_cancel(msg, buf),
        ControlMessage::SubscribeNamespace(_) => encode_subscribe_namespace(msg, buf),
        ControlMessage::SubscribeNamespaceOk(_) => encode_subscribe_namespace_ok(msg, buf),
        ControlMessage::SubscribeNamespaceError(_) => encode_subscribe_namespace_error(msg, buf),
        ControlMessage::UnsubscribeNamespace(_) => encode_unsubscribe_namespace(msg, buf),
        ControlMessage::Fetch(_) => encode_fetch(msg, buf),
        ControlMessage::FetchOk(_) => encode_fetch_ok(msg, buf),
        ControlMessage::FetchError(_) => encode_fetch_error(msg, buf),
        ControlMessage::FetchCancel(_) => encode_fetch_cancel(msg, buf),
        ControlMessage::TrackStatus(_) => encode_track_status(msg, buf),
        ControlMessage::TrackStatusOk(_) => encode_track_status_ok(msg, buf),
        ControlMessage::TrackStatusError(_) => encode_track_status_error(msg, buf),
    }
}

// ── Checks across fields ─────────────────────────────────────

/// What must be settled before any field is written: a SUBSCRIBE,
/// PUBLISH or TRACK_STATUS is held to the Full Track Name cap before its
/// namespace is held to its rules, and a PUBLISH_NAMESPACE_CANCEL's Reason
/// Phrase to its cap before its namespace.
pub open spec fn spec_precheck(m: ControlMessageView) -> Result<(), CodecError> {
    match m.message_type {
        MessageType::Subscribe | MessageType::Publish | MessageType::TrackStatus => if ns_bytes_len(ns_of(m.fields[1]))
            + bytes_of(m.fields[2]).len() > MAX_FULL_TRACK_NAME_LENGTH {
            Err(CodecError::TrackNameTooLong)
        } else {
            Ok(())
        },
        MessageType::PublishNamespaceCancel => if bytes_of(m.fields[2]).len() > MAX_REASON_PHRASE_LENGTH {
            Err(CodecError::ReasonPhraseTooLong)
        } else {
            Ok(())
        },
        _ => Ok(()),
    }
}

fn precheck(msg: &ControlMessage) -> (r: Result<(), CodecError>)
    ensures
        r == spec_precheck(msg@),
{
    match msg {
        ControlMessage::Subscribe(m) => {
            proof {
                lemma_ns_bytes_len(m.track_namespace.0@);
            }
            check_full_track_name(&m.track_namespace, m.track_name.as_slice())
        },
        ControlMessage::Publish(m) => {
            proof {
                lemma_ns_bytes_len(m.track_namespace.0@);
            }
            check_full_track_name(&m.track_namespace, m.track_name.as_slice())
        },
        ControlMessage::TrackStatus(m) => {
            proof {
                lemma_ns_bytes_len(m.track_namespace.0@);
            }
            check_full_track_name(&m.track_namespace, m.track_name.as_slice())
        },
        ControlMessage::PublishNamespaceCancel(m) => {
            if m.reason_phrase.len() > MAX_REASON_PHRASE_LENGTH {
                Err(CodecError::ReasonPhraseTooLong)
            } else {
                Ok(())
            }
        },
        _ => Ok(()),
    }
}

/// What writing a message's payload gives: the checks that come before any
/// field, then its fields.
pub open spec fn spec_encode_payload(m: ControlMessageView) -> Result<Seq<u8>, CodecError> {
    match spec_precheck(m) {
        Err(e) => Err(e),
        Ok(()) => enc_fields(schema(m.message_type), m.fields),
    }
}

/// Encode the payload of `msg`: its fields, in wire order, appended to
/// `buf`. A field the writer refuses stops the write part way.
pub fn encode_payload(msg: &ControlMessage, buf: &mut Vec<u8>) -> (r: Result<(), CodecError>)
    requires
        fields_fit(msg@.fields),
    ensures
        match spec_encode_payload(msg@) {
            Ok(b) => r == Ok::<(), CodecError>(()) && final(buf)@ == old(buf)@ + b,
            Err(e) => r == Err::<(), CodecError>(e),
        },
{
    precheck(msg)?;
    encode_fields(msg, buf)
}

/// The range rule on a message: a SUBSCRIBE's absolute range may not end
/// before its start group, a SUBSCRIBE_UPDATE's End Group is one past the
/// last group or zero for an open end, and a standalone FETCH may not end
/// before it starts.
pub open spec fn spec_check_ranges(m: ControlMessageView) -> Result<(), CodecError> {
    let bad = Err(CodecError::InvalidField);
    match m.message_type {
        MessageType::Subscribe => match m.fields[4] {
            Field::Filter { start: Some((g, _)), end_group: Some(e), .. } => if e >= g {
                Ok(())
            } else {
                bad
            },
            _ => Ok(()),
        },
        MessageType::SubscribeUpdate => match (m.fields[2], m.fields[3]) {
            (Field::Loc(g, _), Field::Int(e)) => if e == 0 || e > g {
                Ok(())
            } else {
                bad
            },
            _ => Ok(()),
        },
        MessageType::Fetch => match m.fields[2] {
            Field::FetchBody { payload: FetchPayloadView::Standalone { start_group, start_object, end_group, end_object, .. }, .. } =>
                if end_group > start_group || (end_group == start_group && (end_object == 0 || end_object > start_object)) {
                Ok(())
            } else {
                bad
            },
            _ => Ok(()),
        },
        _ => Ok(()),
    }
}

/// The discriminator rule on a message: a FETCH's Fetch Type says
/// Standalone exactly when its payload is standalone, a SUBSCRIBE's Filter
/// Type selects exactly the start Location and end group it carries, and
/// a SUBSCRIBE_OK's Content Exists says whether it carries a Location.
pub open spec fn spec_check_discriminators(m: ControlMessageView) -> Result<(), CodecError> {
    let bad = Err(CodecError::InvalidField);
    match m.message_type {
        MessageType::Fetch => match m.fields[2] {
            Field::FetchBody { fetch_type, payload } => if (payload is Standalone) == (fetch_type == 1) {
                Ok(())
            } else {
                bad
            },
            _ => Ok(()),
        },
        MessageType::Subscribe => match m.fields[4] {
            Field::Filter { filter_type, start, end_group } => if ((filter_type == 3 || filter_type == 4)
                == (start is Some)) && ((filter_type == 4) == (end_group is Some)) {
                Ok(())
            } else {
                bad
            },
            _ => Ok(()),
        },
        MessageType::SubscribeOk => match m.fields[3] {
            Field::Content { exists, largest, .. } => if (exists == 1) == (largest is Some) {
                Ok(())
            } else {
                bad
            },
            _ => Ok(()),
        },
        _ => Ok(()),
    }
}

/// The Group Order rule on the responses: SUBSCRIBE_OK, TRACK_STATUS_OK,
/// PUBLISH, PUBLISH_OK and FETCH_OK may not state the publisher's order.
pub open spec fn spec_check_group_order(m: ControlMessageView) -> Result<(), CodecError> {
    let bad = Err(CodecError::InvalidField);
    match m.message_type {
        MessageType::SubscribeOk | MessageType::TrackStatusOk => match m.fields[3] {
            Field::Content { order, .. } => if order == 0 {
                bad
            } else {
                Ok(())
            },
            _ => Ok(()),
        },
        MessageType::Publish => match m.fields[4] {
            Field::Content { order, .. } => if order == 0 {
                bad
            } else {
                Ok(())
            },
            _ => Ok(()),
        },
        MessageType::FetchOk => match m.fields[1] {
            Field::Octets(b) => if b[0] == 0 {
                bad
            } else {
                Ok(())
            },
            _ => Ok(()),
        },
        MessageType::PublishOk => match m.fields[1] {
            Field::Octets(b) => if b[2] == 0 {
                bad
            } else {
                Ok(())
            },
            _ => Ok(()),
        },
        _ => Ok(()),
    }
}

// ── Framing ──────────────────────────────────────────────────

/// Whether an error means the fields wanted bytes past the end.
pub open spec fn ran_out(e: CodecError) -> bool {
    e == CodecError::UnexpectedEnd || e == CodecError::Kvp(KvpError::UnexpectedEnd) || e == CodecError::Kvp(
        KvpError::VarInt(VarIntError::UnexpectedEnd),
    ) || e == CodecError::VarInt(VarIntError::UnexpectedEnd)
}

/// What reading a control message at the front of `s` gives: the message
/// and the bytes it took, or why it is refused. Fields that run past the
/// declared length, or leave some of it unread, are a length mismatch.
pub open spec fn spec_decode_control_message(s: Seq<u8>) -> Result<(ControlMessageView, int), CodecError> {
    match rd_varint(s) {
        Err(e) => Err(e),
        Ok((id, s1)) => match MessageType::spec_from_id(id) {
            None => Err(CodecError::UnknownMessageType(id)),
            Some(t) => match rd_u8(s1) {
                Err(e) => Err(e),
                Ok((hi, s2)) => match rd_u8(s2) {
                    Err(e) => Err(e),
                    Ok((lo, s3)) => {
                        let len = hi * 256 + lo;
                        if s3.len() < len {
                            Err(CodecError::UnexpectedEnd)
                        } else {
                            match rd_fields(schema(t), s3.take(len)) {
                                Err(e) => if ran_out(e) {
                                    Err(CodecError::ControlMessageLengthMismatch {
                                        declared: len as usize,
                                        detail: "its fields ran past the end",
                                    })
                                } else {
                                    Err(e)
                                },
                                Ok((vs, rest)) => {
                                    let m = ControlMessageView { message_type: t, fields: vs };
                                    match spec_check_ranges(m) {
                                        Err(e) => Err(e),
                                        Ok(()) => if rest.len() > 0 {
                                            Err(CodecError::ControlMessageLengthMismatch {
                                                declared: len as usize,
                                                detail: "its fields left bytes unread",
                                            })
                                        } else {
                                            Ok((m, s.len() - s3.len() + len))
                                        },
                                    }
                                },
                            }
                        }
                    },
                },
            },
        },
    }
}

/// What writing `m` gives: its type, its payload's length as 16 bits and
/// its payload, or why it is refused.
pub open spec fn spec_encode_control_message(m: ControlMessageView) -> Result<Seq<u8>, CodecError> {
    match spec_check_discriminators(m) {
        Err(e) => Err(e),
        Ok(()) => match spec_check_group_order(m) {
            Err(e) => Err(e),
            Ok(()) => match spec_check_ranges(m) {
                Err(e) => Err(e),
                Ok(()) => match spec_encode_payload(m) {
                    Err(e) => Err(e),
                    Ok(p) => if p.len() > MAX_MESSAGE_LENGTH {
                        Err(CodecError::MessageTooLong(p.len() as usize))
                    } else {
                        Ok(spec_varint_encode(m.message_type.spec_id()) + (seq![(p.len() / 256) as u8, (p.len() % 256) as u8] + p))
                    },
                },
            },
        },
    }
}

proof fn lemma_ranges_view(m: ControlMessage)
    ensures
        spec_ranges_ok(m) == (spec_check_ranges(m@) is Ok),
{
}

proof fn lemma_checks_view(m: ControlMessage)
    ensures
        spec_discriminators_agree(m) == (spec_check_discriminators(m@) is Ok),
        (spec_response_group_order(m) == Some(GroupOrder::Publisher)) == (spec_check_group_order(m@) is Err),
{
}

impl ControlMessage {
    /// Decode one control message from the start of `buf`, with the number
    /// of bytes it took.
    pub fn decode(buf: &[u8]) -> (r: Result<(ControlMessage, usize), CodecError>)
        ensures
            match spec_decode_control_message(buf@) {
                Ok((m, n)) => (r matches Ok((x, k)) && x@ == m && k == n),
                Err(e) => r == Err::<(ControlMessage, usize), CodecError>(e),
            },
    {
        assert(buf@.skip(0) =~= buf@);
        let (id, p1) = cur_varint(buf, 0)?;
        let t = match MessageType::from_id(id.into_inner()) {
            Some(t) => t,
            None => return Err(CodecError::UnknownMessageType(id.into_inner())),
        };
        let (hi, p2) = cur_u8(buf, p1)?;
        let (lo, p3) = cur_u8(buf, p2)?;
        let len: usize = (hi as usize) * 256 + (lo as usize);
        if buf.len() - p3 < len {
            return Err(CodecError::UnexpectedEnd);
        }
        let payload = slice_subrange(buf, p3, p3 + len);
        proof {
            assert(payload@ =~= buf@.skip(p3 as int).take(len as int));
        }
        match decode_payload(t, payload) {
            Err(e) => {
                let ran = match e {
                    CodecError::UnexpectedEnd => true,
                    CodecError::Kvp(KvpError::UnexpectedEnd) => true,
                    CodecError::Kvp(KvpError::VarInt(VarIntError::UnexpectedEnd)) => true,
                    CodecError::VarInt(VarIntError::UnexpectedEnd) => true,
                    _ => false,
                };
                if ran {
                    return Err(CodecError::ControlMessageLengthMismatch {
                        declared: len,
                        detail: "its fields ran past the end",
                    });
                }
                Err(e)
            },
            Ok((m, n)) => {
                proof {
                    lemma_ranges_view(m);
                }
                check_ranges(&m)?;
                if n != len {
                    return Err(CodecError::ControlMessageLengthMismatch {
                        declared: len,
                        detail: "its fields left bytes unread",
                    });
                }
                proof {
                    assert(payload@.skip(n as int) =~= Seq::<u8>::empty());
                }
                Ok((m, p3 + len))
            },
        }
    }

    /// Encode this message: its type, its payload's length as 16 bits and
    /// its payload. On an error nothing is written.
    pub fn encode(&self, buf: &mut Vec<u8>) -> (r: Result<(), CodecError>)
        requires
            fields_fit(self@.fields),
        ensures
            match spec_encode_control_message(self@) {
                Ok(b) => r == Ok::<(), CodecError>(()) && final(buf)@ == old(buf)@ + b,
                Err(e) => r == Err::<(), CodecError>(e) && final(buf)@ == old(buf)@,
            },
    {
        proof {
            lemma_checks_view(*self);
            lemma_ranges_view(*self);
        }
        check_discriminators(self)?;
        check_group_order(self)?;
        check_ranges(self)?;
        let mut payload: Vec<u8> = Vec::new();
        encode_payload(self, &mut payload)?;
        if payload.len() > MAX_MESSAGE_LENGTH {
            return Err(CodecError::MessageTooLong(payload.len()));
        }
        let t = self.message_type();
        let ghost start = buf@;
        VarInt::from_usize(t.id() as usize).encode(buf);
        let len = payload.len();
        buf.push((len / 256) as u8);
        buf.push((len % 256) as u8);
        put_slice(buf, payload.as_slice());
        proof {
            assert(payload@ =~= Seq::<u8>::empty() + payload@);
            assert(buf@ =~= start + (spec_varint_encode(self@.message_type.spec_id()) + (seq![(len / 256) as u8, (len % 256) as u8] + payload@)));
        }
        Ok(())
    }
}


// ── Reading back what was written ────────────────────────────

/// Whether the reader gives a field of kind `k` back as the writer wrote
/// it: its integers are variable-length integers, its lengths fit, its
/// pairs have the shape their Types' parity gives, its single bytes keep
/// their rules, and every discriminator it carries agrees with the fields
/// beside it.
pub open spec fn field_reads_back(k: FieldKind, v: Field) -> bool {
    &&& field_fits(v)
    &&& match v {
        Field::Int(x) => x < VARINT_BOUND,
        Field::Ints(vs) => 0 < vs.len() && forall|i: int| 0 <= i < vs.len() ==> #[trigger] vs[i] < VARINT_BOUND,
        Field::Pairs(ps) => pairs_read_back(ps),
        Field::Octets(b) => match k {
            FieldKind::Octets(rules) => b.len() == rules.len() && octets_err(rules, b) is None,
            _ => true,
        },
        Field::Loc(g, o) => g < VARINT_BOUND && o < VARINT_BOUND,
        Field::Content { order, exists, largest } => {
            &&& 1 <= order <= 2
            &&& exists <= 1
            &&& (exists == 1) == (largest is Some)
            &&& largest matches Some((g, o)) ==> g < VARINT_BOUND && o < VARINT_BOUND
        },
        Field::Filter { filter_type, start, end_group } => {
            &&& 1 <= filter_type <= 4
            &&& (start is Some) == (filter_type == 3 || filter_type == 4)
            &&& (end_group is Some) == (filter_type == 4)
            &&& start matches Some((g, o)) ==> g < VARINT_BOUND && o < VARINT_BOUND
            &&& end_group matches Some(e) ==> e < VARINT_BOUND
        },
        Field::FetchBody { fetch_type, payload } => {
            &&& FetchType::spec_from_u64(fetch_type) is Some
            &&& (payload is Standalone) == (fetch_type == 1)
            &&& match payload {
                FetchPayloadView::Standalone { start_group, start_object, end_group, end_object, .. } =>
                    start_group < VARINT_BOUND && start_object < VARINT_BOUND && end_group < VARINT_BOUND
                    && end_object < VARINT_BOUND,
                FetchPayloadView::Joining { joining_request_id, joining_start } => joining_request_id
                    < VARINT_BOUND && joining_start < VARINT_BOUND,
            }
        },
        _ => true,
    }
}

proof fn lemma_len_bytes_split(b: Seq<u8>, rest: Seq<u8>)
    ensures
        enc_len_bytes(b) + rest == spec_varint_encode(b.len() as u64) + (b + rest),
{
    assert(enc_len_bytes(b) + rest =~= spec_varint_encode(b.len() as u64) + (b + rest));
}

/// Integers, as written, are read back, whatever follows them.
proof fn lemma_ints_roundtrip(vs: Seq<u64>, rest: Seq<u8>)
    requires
        forall|i: int| 0 <= i < vs.len() ==> #[trigger] vs[i] < VARINT_BOUND,
    ensures
        rd_ints(enc_ints(vs) + rest, vs.len()) == Ok::<(Seq<u64>, Seq<u8>), CodecError>((vs, rest)),
    decreases vs.len(),
{
    broadcast use group_cursor;
    if vs.len() == 0 {
        assert(Seq::<u8>::empty() + rest =~= rest);
        assert(vs =~= Seq::<u64>::empty());
    } else {
        let tail = vs.drop_first();
        assert forall|i: int| 0 <= i < tail.len() implies #[trigger] tail[i] < VARINT_BOUND by {
            assert(tail[i] == vs[i + 1]);
        }
        lemma_ints_roundtrip(tail, rest);
        assert(vs[0] < VARINT_BOUND);
        assert(enc_ints(vs) + rest =~= spec_varint_encode(vs[0]) + (enc_ints(tail) + rest));
        assert(seq![vs[0]] + tail =~= vs);
    }
}

/// A run of single bytes that keeps its rules is read back.
proof fn lemma_octets_roundtrip(rules: Seq<ByteRule>, b: Seq<u8>, rest: Seq<u8>)
    requires
        b.len() == rules.len(),
        octets_err(rules, b) is None,
    ensures
        rd_octets(rules, b + rest) == Ok::<(Seq<u8>, Seq<u8>), CodecError>((b, rest)),
{
    assert((b + rest).take(rules.len() as int) =~= b);
    assert((b + rest).skip(rules.len() as int) =~= rest);
}

/// A FETCH's Fetch Type and payload, as written, are read back.
#[verifier::rlimit(100)]
#[verifier::spinoff_prover]
proof fn lemma_fetch_body_roundtrip(fetch_type: u64, payload: FetchPayloadView, rest: Seq<u8>)
    requires
        enc_fetch_body(fetch_type, payload) is Ok,
        field_reads_back(FieldKind::FetchBody, Field::FetchBody { fetch_type, payload }),
    ensures
        rd_fetch_body(enc_fetch_body(fetch_type, payload)->Ok_0 + rest) == Ok::<(Field, Seq<u8>), CodecError>((Field::FetchBody { fetch_type, payload }, rest)),
{
    broadcast use group_cursor;
    match payload {
        FetchPayloadView::Standalone { track_namespace, track_name, start_group, start_object, end_group, end_object } => {
            let nb = enc_namespace(track_namespace);
            let tb = enc_len_bytes(track_name);
            let y4 = spec_varint_encode(end_object) + rest;
            let y3 = spec_varint_encode(end_group) + y4;
            let y2 = spec_varint_encode(start_object) + y3;
            let y1 = spec_varint_encode(start_group) + y2;
            let x1 = tb + y1;
            let s = spec_varint_encode(fetch_type) + (nb + x1);
            assert(enc_fetch_body(fetch_type, payload)->Ok_0 + rest =~= s);
            assert(rd_varint(s) == Ok::<(u64, Seq<u8>), CodecError>((fetch_type, nb + x1)));
            lemma_namespace_roundtrip(track_namespace, x1, 1, false);
            lemma_rd_len_bytes(track_name, y1);
            assert(rd_name(track_namespace, x1) == Ok::<(Seq<u8>, Seq<u8>), CodecError>((track_name, y1)));
            assert(rd_varint(y1) == Ok::<(u64, Seq<u8>), CodecError>((start_group, y2)));
            assert(rd_varint(y2) == Ok::<(u64, Seq<u8>), CodecError>((start_object, y3)));
            assert(rd_varint(y3) == Ok::<(u64, Seq<u8>), CodecError>((end_group, y4)));
            assert(rd_varint(y4) == Ok::<(u64, Seq<u8>), CodecError>((end_object, rest)));
        },
        FetchPayloadView::Joining { joining_request_id, joining_start } => {
            assert(enc_fetch_body(fetch_type, payload)->Ok_0 + rest =~= spec_varint_encode(fetch_type) + (spec_varint_encode(joining_request_id)
                + (spec_varint_encode(joining_start) + rest)));
        },
    }
}

/// A response's Group Order, Content Exists and Location, as written, are
/// read back.
proof fn lemma_content_roundtrip(order: u8, exists: u8, largest: Option<(u64, u64)>, rest: Seq<u8>)
    requires
        field_reads_back(FieldKind::Content, Field::Content { order, exists, largest }),
    ensures
        rd_content((seq![order, exists] + enc_opt_loc(largest)) + rest) == Ok::<(Field, Seq<u8>), CodecError>(
            (Field::Content { order, exists, largest }, rest),
        ),
{
    broadcast use group_cursor;
    let s = (seq![order, exists] + enc_opt_loc(largest)) + rest;
    assert(s[0] == order && s[1] == exists);
    assert(s.skip(2) =~= enc_opt_loc(largest) + rest);
    match largest {
        Some((g, o)) => {
            assert(enc_opt_loc(largest) + rest =~= spec_varint_encode(g) + (spec_varint_encode(o) + rest));
        },
        None => {
            assert(enc_opt_loc(largest) + rest =~= rest);
        },
    }
}

/// A Filter Type and the fields it selects, as written, are read back.
proof fn lemma_filter_roundtrip(filter_type: u64, start: Option<(u64, u64)>, end_group: Option<u64>, rest: Seq<u8>)
    requires
        field_reads_back(FieldKind::Filter, Field::Filter { filter_type, start, end_group }),
    ensures
        rd_filter((spec_varint_encode(filter_type) + (enc_opt_loc(start) + enc_opt_int(end_group))) + rest)
            == Ok::<(Field, Seq<u8>), CodecError>((Field::Filter { filter_type, start, end_group }, rest)),
{
    broadcast use group_cursor;
    let tail = (enc_opt_loc(start) + enc_opt_int(end_group)) + rest;
    assert((spec_varint_encode(filter_type) + (enc_opt_loc(start) + enc_opt_int(end_group))) + rest
        =~= spec_varint_encode(filter_type) + tail);
    match start {
        Some((g, o)) => match end_group {
            Some(e) => {
                assert(tail =~= spec_varint_encode(g) + (spec_varint_encode(o) + (spec_varint_encode(e) + rest)));
            },
            None => {
                assert(tail =~= spec_varint_encode(g) + (spec_varint_encode(o) + rest));
            },
        },
        None => {
            assert(tail =~= rest);
        },
    }
}

/// A field the writer accepts and the reader gives back is read back as
/// written, whatever follows it.
#[verifier::rlimit(100)]
#[verifier::spinoff_prover]
pub proof fn lemma_field_roundtrip(k: FieldKind, prior: Seq<Field>, v: Field, rest: Seq<u8>)
    requires
        enc_field(k, prior, v) is Ok,
        field_reads_back(k, v),
    ensures
        rd_field(k, prior, enc_field(k, prior, v)->Ok_0 + rest) == Ok::<(Field, Seq<u8>), CodecError>((v, rest)),
{
    broadcast use group_cursor;
    match (k, v) {
        (FieldKind::Versions, Field::Ints(vs)) => {
            lemma_ints_roundtrip(vs, rest);
            assert(enc_field(k, prior, v)->Ok_0 + rest =~= spec_varint_encode(vs.len() as u64) + (enc_ints(vs) + rest));
        },
        (FieldKind::Uri, Field::Bytes(b)) => {
            lemma_len_bytes_split(b, rest);
            assert(rd_capped_bytes(enc_len_bytes(b) + rest, MAX_GOAWAY_URI_LENGTH as u64, CodecError::GoAwayUriTooLong) == Ok::<(Seq<u8>, Seq<u8>), CodecError>((b, rest)));
        },
        (FieldKind::Reason, Field::Bytes(b)) => {
            lemma_len_bytes_split(b, rest);
            assert(rd_capped_bytes(enc_len_bytes(b) + rest, MAX_REASON_PHRASE_LENGTH as u64, CodecError::ReasonPhraseTooLong) == Ok::<(Seq<u8>, Seq<u8>), CodecError>((b, rest)));
        },
        (FieldKind::Name, Field::Bytes(b)) => {
            lemma_len_bytes_split(b, rest);
            assert(rd_len_bytes(enc_len_bytes(b) + rest) == Ok::<(Seq<u8>, Seq<u8>), CodecError>((b, rest)));
        },
        (FieldKind::Ns, Field::Ns(fs)) => lemma_namespace_roundtrip(fs, rest, 1, false),
        (FieldKind::Octets(rules), Field::Octets(b)) => lemma_octets_roundtrip(rules, b, rest),
        (FieldKind::Loc, Field::Loc(g, o)) => {
            assert(enc_loc((g, o)) + rest =~= spec_varint_encode(g) + (spec_varint_encode(o) + rest));
        },
        (FieldKind::Content, Field::Content { order, exists, largest }) => lemma_content_roundtrip(order, exists, largest, rest),
        (FieldKind::Filter, Field::Filter { filter_type, start, end_group }) => lemma_filter_roundtrip(filter_type, start, end_group, rest),
        (FieldKind::Params, Field::Pairs(ps)) => lemma_params_roundtrip(ps, true, rest),
        (FieldKind::SetupParams, Field::Pairs(ps)) => lemma_params_roundtrip(ps, false, rest),
        (FieldKind::FetchBody, Field::FetchBody { fetch_type, payload }) => lemma_fetch_body_roundtrip(fetch_type, payload, rest),
        _ => {},
    }
}

/// Fields the writer accepts and the reader gives back are read back as
/// written, whatever follows them.
pub proof fn lemma_fields_roundtrip(kinds: Seq<FieldKind>, vs: Seq<Field>, rest: Seq<u8>)
    requires
        vs.len() == kinds.len(),
        enc_fields(kinds, vs) is Ok,
        forall|i: int| 0 <= i < kinds.len() ==> field_reads_back(#[trigger] kinds[i], vs[i]),
    ensures
        rd_fields(kinds, enc_fields(kinds, vs)->Ok_0 + rest) == Ok::<(Seq<Field>, Seq<u8>), CodecError>((vs, rest)),
    decreases kinds.len(),
{
    if kinds.len() == 0 {
        assert(vs =~= Seq::<Field>::empty());
        assert(Seq::<u8>::empty() + rest =~= rest);
    } else {
        let ki = kinds.drop_last();
        let vi = vs.drop_last();
        let k = kinds.last();
        let v = vs.last();
        let b = enc_fields(ki, vi)->Ok_0;
        let c = enc_field(k, vi, v)->Ok_0;
        assert(field_reads_back(kinds[kinds.len() - 1], vs[kinds.len() - 1]));
        assert forall|i: int| 0 <= i < ki.len() implies field_reads_back(#[trigger] ki[i], vi[i]) by {
            assert(field_reads_back(kinds[i], vs[i]));
        }
        lemma_fields_roundtrip(ki, vi, c + rest);
        lemma_field_roundtrip(k, vi, v, rest);
        assert(enc_fields(kinds, vs)->Ok_0 + rest =~= b + (c + rest));
        assert(vi.push(v) =~= vs);
    }
}

/// Whether every field of a message reads back.
pub open spec fn message_reads_back(m: ControlMessageView) -> bool {
    &&& m.fields.len() == schema(m.message_type).len()
    &&& forall|i: int| 0 <= i < m.fields.len() ==> field_reads_back(#[trigger] schema(m.message_type)[i], m.fields[i])
}

proof fn lemma_length_bytes(len: nat)
    requires
        len <= 65535,
    ensures
        ((len / 256) as u8) * 256 + ((len % 256) as u8) == len,
{
    assert((len / 256) as u8 == len / 256);
    assert((len % 256) as u8 == len % 256);
}

/// A message the writer accepts, whose fields the reader gives back, is
/// read back as the same message, taking every byte written.
#[verifier::rlimit(100)]
#[verifier::spinoff_prover]
pub proof fn lemma_control_message_roundtrip(m: ControlMessageView, rest: Seq<u8>)
    requires
        spec_encode_control_message(m) is Ok,
        message_reads_back(m),
    ensures
        spec_decode_control_message(spec_encode_control_message(m)->Ok_0 + rest) == Ok::<(ControlMessageView, int), CodecError>(
            (m, spec_encode_control_message(m)->Ok_0.len() as int),
        ),
{
    broadcast use group_cursor;
    let t = m.message_type;
    let p = enc_fields(schema(t), m.fields)->Ok_0;
    let len = p.len();
    assert forall|i: int| 0 <= i < schema(t).len() implies field_reads_back(#[trigger] schema(t)[i], m.fields[i]) by {}
    lemma_fields_roundtrip(schema(t), m.fields, Seq::empty());
    assert(p + Seq::<u8>::empty() =~= p);
    lemma_length_bytes(len);
    let hi = (len / 256) as u8;
    let lo = (len % 256) as u8;
    let e = spec_encode_control_message(m)->Ok_0;
    assert(e + rest =~= spec_varint_encode(t.spec_id()) + (seq![hi] + (seq![lo] + (p + rest))));
    assert(t.spec_id() < VARINT_BOUND);
    assert(MessageType::spec_from_id(t.spec_id()) == Some(t));
    assert((p + rest).take(len as int) =~= p);
    assert(e.len() == spec_varint_encode(t.spec_id()).len() + 2 + len);
}

} // verus!
