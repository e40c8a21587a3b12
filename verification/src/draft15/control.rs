//! Draft-15 control messages on the wire: each message is its type, a
//! 16-bit payload length and the payload, and each payload is a run of
//! fields whose kinds its type fixes. The reader and the writer are stated
//! against one grammar, [`rd_fields`] and [`enc_fields`] over [`schema`].

use vstd::prelude::*;
use vstd::slice::slice_subrange;
use crate::cursor::{
    cur_capped_bytes, cur_len_bytes, cur_u8, cur_varint, enc_len_bytes, group_cursor,
    lemma_rd_len_bytes, rd_capped_bytes, rd_len_bytes, rd_u8, rd_varint,
};
use crate::draft15::message::{
    check_discriminators, check_full_track_name, spec_discriminators_agree, ClientSetup,
    ControlMessage, Fetch, FetchCancel, FetchOk, FetchPayload, FetchType, GoAway, MaxRequestId,
    MessageType, Publish, PublishDone, PublishNamespace, PublishNamespaceCancel,
    PublishNamespaceDone, PublishOk, RequestError, RequestOk, RequestsBlocked, ServerSetup,
    Subscribe, SubscribeNamespace, SubscribeOk, SubscribeUpdate, TrackStatus, Unsubscribe,
    UnsubscribeNamespace,
};
use crate::draft15::params::{
    decode_parameters_in, enc_params, encode_parameters_in, lemma_params_roundtrip, pairs_read_back,
    rd_params, spec_kvp_views,
};
use crate::error::{
    CodecError, KvpError, VarIntError, MAX_FULL_TRACK_NAME_LENGTH, MAX_GOAWAY_URI_LENGTH,
    MAX_MESSAGE_LENGTH, MAX_REASON_PHRASE_LENGTH,
};
use crate::kvp::KeyValuePairView;
use crate::types::{
    enc_namespace, lemma_namespace_roundtrip, ns_fits, ns_valid, ns_view, rd_namespace, spec_field_bytes_len,
    TrackNamespace,
};
use crate::varint::{spec_varint_encode, VarInt, VARINT_BOUND};
use crate::wire::{put_slice, varint_end};

verus! {

/// What a FETCH asks for, as its fields say it.
pub enum FetchPayloadView {
    Standalone {
        track_namespace: Seq<Seq<u8>>,
        track_name: Seq<u8>,
        start_group: u64,
        start_object: u64,
        end_group: u64,
        end_object: u64,
    },
    Joining { joining_request_id: u64, joining_start: u64 },
}

/// The value of one field of a control message.
pub enum Field {
    /// A variable-length integer.
    Int(u64),
    /// A single byte.
    Byte(u8),
    /// A run of bytes written with its length.
    Bytes(Seq<u8>),
    /// A Track Namespace.
    Ns(Seq<Seq<u8>>),
    /// A list of Key-Value-Pairs.
    Pairs(Seq<KeyValuePairView>),
    /// A FETCH's Fetch Type and what it asks for.
    FetchBody { fetch_type: u64, payload: FetchPayloadView },
}

/// A control message: its type and the values of its fields, in wire order.
pub struct ControlMessageView {
    pub message_type: MessageType,
    pub fields: Seq<Field>,
}

/// How a field is written.
pub enum FieldKind {
    /// A variable-length integer.
    Int,
    /// One byte.
    Byte,
    /// A New Session URI: a length of at most 8,192 bytes and the bytes.
    Uri,
    /// A Reason Phrase: a length of at most 1,024 bytes and the bytes.
    Reason,
    /// A Track Name, held with the namespace before it to the Full Track
    /// Name cap.
    Name,
    /// A Track Namespace of one to 32 fields.
    Ns,
    /// Message parameters.
    Params,
    /// Setup parameters.
    SetupParams,
    /// A FETCH's Fetch Type and the fields it selects.
    FetchBody,
}

/// The total length of a namespace's fields.
pub open spec fn ns_bytes_len(fs: Seq<Seq<u8>>) -> nat
    decreases fs.len(),
{
    if fs.len() == 0 {
        0
    } else {
        ns_bytes_len(fs.drop_last()) + fs.last().len()
    }
}

proof fn lemma_ns_bytes_len(v: Seq<Vec<u8>>)
    ensures
        spec_field_bytes_len(v) == ns_bytes_len(ns_view(v)),
    decreases v.len(),
{
    if v.len() > 0 {
        lemma_ns_bytes_len(v.drop_last());
        assert(ns_view(v).drop_last() =~= ns_view(v.drop_last()));
    }
}

/// The namespace a field holds, if it is one.
pub open spec fn ns_of(f: Field) -> Seq<Seq<u8>> {
    match f {
        Field::Ns(fs) => fs,
        _ => Seq::empty(),
    }
}

/// A Track Name after a namespace of fields `fs`.
pub open spec fn rd_name(fs: Seq<Seq<u8>>, s: Seq<u8>) -> Result<(Seq<u8>, Seq<u8>), CodecError> {
    match rd_len_bytes(s) {
        Err(e) => Err(e),
        Ok((b, r)) => if ns_bytes_len(fs) + b.len() > MAX_FULL_TRACK_NAME_LENGTH {
            Err(CodecError::TrackNameTooLong)
        } else {
            Ok((b, r))
        },
    }
}

/// A FETCH's Fetch Type and the fields it selects.
pub open spec fn rd_fetch_body(s: Seq<u8>) -> Result<(Field, Seq<u8>), CodecError> {
    match rd_varint(s) {
        Err(e) => Err(e),
        Ok((t, s1)) => match FetchType::spec_from_u64(t) {
            None => Err(CodecError::InvalidFetchType(t)),
            Some(ft) => if ft == FetchType::Standalone {
                match rd_namespace(s1, 1, false) {
                    Err(e) => Err(e),
                    Ok((fs, s2)) => match rd_name(fs, s2) {
                        Err(e) => Err(e),
                        Ok((name, s3)) => match rd_varint(s3) {
                            Err(e) => Err(e),
                            Ok((sg, s4)) => match rd_varint(s4) {
                                Err(e) => Err(e),
                                Ok((so, s5)) => match rd_varint(s5) {
                                    Err(e) => Err(e),
                                    Ok((eg, s6)) => match rd_varint(s6) {
                                        Err(e) => Err(e),
                                        Ok((eo, s7)) => Ok((
                                            Field::FetchBody {
                                                fetch_type: t,
                                                payload: FetchPayloadView::Standalone {
                                                    track_namespace: fs,
                                                    track_name: name,
                                                    start_group: sg,
                                                    start_object: so,
                                                    end_group: eg,
                                                    end_object: eo,
                                                },
                                            },
                                            s7,
                                        )),
                                    },
                                },
                            },
                        },
                    },
                }
            } else {
                match rd_varint(s1) {
                    Err(e) => Err(e),
                    Ok((jr, s2)) => match rd_varint(s2) {
                        Err(e) => Err(e),
                        Ok((js, s3)) => Ok((
                            Field::FetchBody {
                                fetch_type: t,
                                payload: FetchPayloadView::Joining { joining_request_id: jr, joining_start: js },
                            },
                            s3,
                        )),
                    },
                }
            },
        },
    }
}

/// One field of kind `k` at the front of `s`, after the fields `prior`.
pub open spec fn rd_field(k: FieldKind, prior: Seq<Field>, s: Seq<u8>) -> Result<(Field, Seq<u8>), CodecError> {
    match k {
        FieldKind::Int => match rd_varint(s) {
            Err(e) => Err(e),
            Ok((v, r)) => Ok((Field::Int(v), r)),
        },
        FieldKind::Byte => match rd_u8(s) {
            Err(e) => Err(e),
            Ok((v, r)) => Ok((Field::Byte(v), r)),
        },
        FieldKind::Uri => match rd_capped_bytes(s, MAX_GOAWAY_URI_LENGTH as u64, CodecError::GoAwayUriTooLong) {
            Err(e) => Err(e),
            Ok((b, r)) => Ok((Field::Bytes(b), r)),
        },
        FieldKind::Reason => match rd_capped_bytes(s, MAX_REASON_PHRASE_LENGTH as u64, CodecError::ReasonPhraseTooLong) {
            Err(e) => Err(e),
            Ok((b, r)) => Ok((Field::Bytes(b), r)),
        },
        FieldKind::Name => match rd_name(ns_of(prior.last()), s) {
            Err(e) => Err(e),
            Ok((b, r)) => Ok((Field::Bytes(b), r)),
        },
        FieldKind::Ns => match rd_namespace(s, 1, false) {
            Err(e) => Err(e),
            Ok((fs, r)) => Ok((Field::Ns(fs), r)),
        },
        FieldKind::Params => match rd_params(s, true) {
            Err(e) => Err(e),
            Ok((ps, r)) => Ok((Field::Pairs(ps), r)),
        },
        FieldKind::SetupParams => match rd_params(s, false) {
            Err(e) => Err(e),
            Ok((ps, r)) => Ok((Field::Pairs(ps), r)),
        },
        FieldKind::FetchBody => rd_fetch_body(s),
    }
}

/// The fields of kinds `kinds` at the front of `s`, one after another.
pub open spec fn rd_fields(kinds: Seq<FieldKind>, s: Seq<u8>) -> Result<(Seq<Field>, Seq<u8>), CodecError>
    decreases kinds.len(),
{
    if kinds.len() == 0 {
        Ok((Seq::empty(), s))
    } else {
        match rd_fields(kinds.drop_last(), s) {
            Err(e) => Err(e),
            Ok((vs, s1)) => match rd_field(kinds.last(), vs, s1) {
                Err(e) => Err(e),
                Ok((v, s2)) => Ok((vs.push(v), s2)),
            },
        }
    }
}

// ── Writing fields ───────────────────────────────────────────

/// A run of bytes with its length, refused with `err` above `max`.
pub open spec fn enc_capped(b: Seq<u8>, max: u64, err: CodecError) -> Result<Seq<u8>, CodecError> {
    if b.len() > max {
        Err(err)
    } else {
        Ok(enc_len_bytes(b))
    }
}

/// A Track Name after a namespace of fields `fs`.
pub open spec fn enc_name(fs: Seq<Seq<u8>>, b: Seq<u8>) -> Result<Seq<u8>, CodecError> {
    if ns_bytes_len(fs) + b.len() > MAX_FULL_TRACK_NAME_LENGTH {
        Err(CodecError::TrackNameTooLong)
    } else {
        Ok(enc_len_bytes(b))
    }
}

/// A namespace held to its rules, then written.
pub open spec fn enc_ns(fs: Seq<Seq<u8>>, min_fields: u64) -> Result<Seq<u8>, CodecError> {
    if ns_valid(fs, min_fields, false) {
        Ok(enc_namespace(fs))
    } else {
        Err(CodecError::InvalidField)
    }
}

/// A FETCH's Fetch Type and the fields its payload holds.
pub open spec fn enc_fetch_body(t: u64, p: FetchPayloadView) -> Result<Seq<u8>, CodecError> {
    match p {
        FetchPayloadView::Standalone { track_namespace, track_name, start_group, start_object, end_group, end_object } => {
            match enc_ns(track_namespace, 1) {
                Err(e) => Err(e),
                Ok(nb) => match enc_name(track_namespace, track_name) {
                    Err(e) => Err(e),
                    Ok(tb) => Ok(spec_varint_encode(t) + (nb + (tb + (spec_varint_encode(start_group)
                        + (spec_varint_encode(start_object) + (spec_varint_encode(end_group)
                        + spec_varint_encode(end_object))))))),
                },
            }
        },
        FetchPayloadView::Joining { joining_request_id, joining_start } => Ok(
            spec_varint_encode(t) + (spec_varint_encode(joining_request_id) + spec_varint_encode(joining_start)),
        ),
    }
}

/// One field of kind `k` holding `v`, after the fields `prior`; a value of
/// another shape than the kind is `InvalidField`.
pub open spec fn enc_field(k: FieldKind, prior: Seq<Field>, v: Field) -> Result<Seq<u8>, CodecError> {
    match (k, v) {
        (FieldKind::Int, Field::Int(x)) => Ok(spec_varint_encode(x)),
        (FieldKind::Byte, Field::Byte(b)) => Ok(seq![b]),
        (FieldKind::Uri, Field::Bytes(b)) => enc_capped(b, MAX_GOAWAY_URI_LENGTH as u64, CodecError::GoAwayUriTooLong),
        (FieldKind::Reason, Field::Bytes(b)) => enc_capped(b, MAX_REASON_PHRASE_LENGTH as u64, CodecError::ReasonPhraseTooLong),
        (FieldKind::Name, Field::Bytes(b)) => enc_name(ns_of(prior.last()), b),
        (FieldKind::Ns, Field::Ns(fs)) => enc_ns(fs, 1),
        (FieldKind::Params, Field::Pairs(ps)) => enc_params(ps, true),
        (FieldKind::SetupParams, Field::Pairs(ps)) => enc_params(ps, false),
        (FieldKind::FetchBody, Field::FetchBody { fetch_type, payload }) => enc_fetch_body(fetch_type, payload),
        _ => Err(CodecError::InvalidField),
    }
}

/// The fields `vs`, of kinds `kinds`, one after another.
pub open spec fn enc_fields(kinds: Seq<FieldKind>, vs: Seq<Field>) -> Result<Seq<u8>, CodecError>
    decreases kinds.len(),
{
    if kinds.len() == 0 {
        Ok(Seq::empty())
    } else {
        match enc_fields(kinds.drop_last(), vs.drop_last()) {
            Err(e) => Err(e),
            Ok(b) => match enc_field(kinds.last(), vs.drop_last(), vs.last()) {
                Err(e) => Err(e),
                Ok(c) => Ok(b + c),
            },
        }
    }
}

/// Whether every length and count a field holds is a variable-length
/// integer, as it is for any value that fits in memory.
pub open spec fn field_fits(f: Field) -> bool {
    match f {
        Field::Bytes(b) => b.len() < VARINT_BOUND,
        Field::Ns(fs) => ns_fits(fs),
        Field::Pairs(ps) => ps.len() < VARINT_BOUND,
        Field::FetchBody { payload, .. } => match payload {
            FetchPayloadView::Standalone { track_namespace, track_name, .. } => ns_fits(track_namespace)
                && track_name.len() < VARINT_BOUND,
            _ => true,
        },
        _ => true,
    }
}

/// Whether every field of a message fits.
pub open spec fn fields_fit(fs: Seq<Field>) -> bool {
    forall|i: int| 0 <= i < fs.len() ==> #[trigger] field_fits(fs[i])
}

/// The view of a FETCH's Fetch Type and payload.
pub open spec fn fetch_body_view(t: FetchType, p: FetchPayload) -> Field {
    Field::FetchBody {
        fetch_type: t.spec_value(),
        payload: match p {
            FetchPayload::Standalone { track_namespace, track_name, start_group, start_object, end_group, end_object } =>
                FetchPayloadView::Standalone {
                track_namespace: ns_view(track_namespace.0@),
                track_name: track_name@,
                start_group: start_group@,
                start_object: start_object@,
                end_group: end_group@,
                end_object: end_object@,
            },
            FetchPayload::Joining { joining_request_id, joining_start } => FetchPayloadView::Joining {
                joining_request_id: joining_request_id@,
                joining_start: joining_start@,
            },
        },
    }
}

// ── Field readers and writers ────────────────────────────────

/// Read a Track Name at `pos`, held with `ns` to the Full Track Name cap.
pub fn read_track_name(ns: &TrackNamespace, buf: &[u8], pos: usize) -> (r: Result<(Vec<u8>, usize), CodecError>)
    requires
        pos <= buf@.len(),
    ensures
        match rd_name(ns_view(ns.0@), buf@.skip(pos as int)) {
            Ok((b, rest)) => (r matches Ok((x, n)) && x@ == b && pos <= n <= buf@.len() && buf@.skip(n as int) == rest),
            Err(e) => r == Err::<(Vec<u8>, usize), CodecError>(e),
        },
{
    proof {
        lemma_ns_bytes_len(ns.0@);
    }
    let (b, n) = cur_len_bytes(buf, pos)?;
    check_full_track_name(ns, b.as_slice())?;
    Ok((b, n))
}

/// Read a FETCH's Fetch Type and the fields it selects at `pos`.
pub fn read_fetch_body(buf: &[u8], pos: usize) -> (r: Result<((FetchType, FetchPayload), usize), CodecError>)
    requires
        pos <= buf@.len(),
    ensures
        match rd_fetch_body(buf@.skip(pos as int)) {
            Ok((f, rest)) => (r matches Ok(((t, p), n)) && fetch_body_view(t, p) == f && pos <= n <= buf@.len()
                && buf@.skip(n as int) == rest),
            Err(e) => r == Err::<((FetchType, FetchPayload), usize), CodecError>(e),
        },
{
    let (t, p1) = cur_varint(buf, pos)?;
    let tv = t.into_inner();
    let ft = match FetchType::from_u64(tv) {
        Some(ft) => ft,
        None => return Err(CodecError::InvalidFetchType(tv)),
    };
    match ft {
        FetchType::Standalone => {
            let (track_namespace, p2) = TrackNamespace::decode_at(buf, p1, 1, false)?;
            let (track_name, p3) = read_track_name(&track_namespace, buf, p2)?;
            let (start_group, p4) = cur_varint(buf, p3)?;
            let (start_object, p5) = cur_varint(buf, p4)?;
            let (end_group, p6) = cur_varint(buf, p5)?;
            let (end_object, p7) = cur_varint(buf, p6)?;
            Ok((
                (ft, FetchPayload::Standalone { track_namespace, track_name, start_group, start_object, end_group, end_object }),
                p7,
            ))
        },
        _ => {
            let (joining_request_id, p2) = cur_varint(buf, p1)?;
            let (joining_start, p3) = cur_varint(buf, p2)?;
            Ok(((ft, FetchPayload::Joining { joining_request_id, joining_start }), p3))
        },
    }
}

fn put_varint(x: VarInt, buf: &mut Vec<u8>) -> (r: Result<(), CodecError>)
    ensures
        r == Ok::<(), CodecError>(()),
        final(buf)@ == old(buf)@ + spec_varint_encode(x@),
{
    x.encode(buf);
    Ok(())
}

fn put_u8(b: u8, buf: &mut Vec<u8>) -> (r: Result<(), CodecError>)
    ensures
        r == Ok::<(), CodecError>(()),
        final(buf)@ == old(buf)@ + seq![b],
{
    buf.push(b);
    assert(buf@ =~= old(buf)@ + seq![b]);
    Ok(())
}

fn put_capped_bytes(b: &Vec<u8>, max: u64, err: CodecError, buf: &mut Vec<u8>) -> (r: Result<(), CodecError>)
    requires
        b@.len() < VARINT_BOUND,
    ensures
        match enc_capped(b@, max, err) {
            Ok(x) => r == Ok::<(), CodecError>(()) && final(buf)@ == old(buf)@ + x,
            Err(e) => r == Err::<(), CodecError>(e) && final(buf)@ == old(buf)@,
        },
{
    if b.len() as u64 > max {
        return Err(err);
    }
    VarInt::from_usize(b.len()).encode(buf);
    put_slice(buf, b.as_slice());
    assert(buf@ =~= old(buf)@ + enc_len_bytes(b@));
    Ok(())
}

fn put_track_name(ns: &TrackNamespace, b: &Vec<u8>, buf: &mut Vec<u8>) -> (r: Result<(), CodecError>)
    requires
        b@.len() < VARINT_BOUND,
    ensures
        match enc_name(ns_view(ns.0@), b@) {
            Ok(x) => r == Ok::<(), CodecError>(()) && final(buf)@ == old(buf)@ + x,
            Err(e) => r == Err::<(), CodecError>(e) && final(buf)@ == old(buf)@,
        },
{
    proof {
        lemma_ns_bytes_len(ns.0@);
    }
    check_full_track_name(ns, b.as_slice())?;
    VarInt::from_usize(b.len()).encode(buf);
    put_slice(buf, b.as_slice());
    assert(buf@ =~= old(buf)@ + enc_len_bytes(b@));
    Ok(())
}

fn put_namespace(ns: &TrackNamespace, min_fields: u64, buf: &mut Vec<u8>) -> (r: Result<(), CodecError>)
    requires
        ns_fits(ns_view(ns.0@)),
    ensures
        match enc_ns(ns_view(ns.0@), min_fields) {
            Ok(x) => r == Ok::<(), CodecError>(()) && final(buf)@ == old(buf)@ + x,
            Err(e) => r == Err::<(), CodecError>(e) && final(buf)@ == old(buf)@,
        },
{
    ns.validate(min_fields, false)?;
    ns.encode(buf);
    Ok(())
}

#[verifier::rlimit(80)]
#[verifier::spinoff_prover]
fn put_fetch_body(t: FetchType, p: &FetchPayload, buf: &mut Vec<u8>) -> (r: Result<(), CodecError>)
    requires
        field_fits(fetch_body_view(t, *p)),
    ensures
        match enc_fetch_body(t.spec_value(), fetch_body_view(t, *p)->payload) {
            Ok(x) => r == Ok::<(), CodecError>(()) && final(buf)@ == old(buf)@ + x,
            Err(e) => r == Err::<(), CodecError>(e),
        },
{
    let tv: u64 = match t {
        FetchType::Standalone => 1,
        FetchType::RelativeJoining => 2,
        FetchType::AbsoluteJoining => 3,
    };
    let ghost start = buf@;
    VarInt::from_usize(tv as usize).encode(buf);
    let ghost b1 = buf@;
    match p {
        FetchPayload::Standalone { track_namespace, track_name, start_group, start_object, end_group, end_object } => {
            put_namespace(track_namespace, 1, buf)?;
            let ghost b2 = buf@;
            put_track_name(track_namespace, track_name, buf)?;
            let ghost b3 = buf@;
            start_group.encode(buf);
            start_object.encode(buf);
            end_group.encode(buf);
            end_object.encode(buf);
            proof {
                assert(buf@ =~= start + (spec_varint_encode(tv) + (b2.skip(b1.len() as int) + (b3.skip(b2.len() as int)
                    + (spec_varint_encode(start_group@) + (spec_varint_encode(start_object@) + (spec_varint_encode(end_group@)
                    + spec_varint_encode(end_object@))))))));
            }
        },
        FetchPayload::Joining { joining_request_id, joining_start } => {
            joining_request_id.encode(buf);
            joining_start.encode(buf);
            proof {
                assert(buf@ =~= start + (spec_varint_encode(tv) + (spec_varint_encode(joining_request_id@)
                    + spec_varint_encode(joining_start@))));
            }
        },
    }
    Ok(())
}

/// The fields of each message type, in wire order.
pub open spec fn schema(t: MessageType) -> Seq<FieldKind> {
    match t {
        MessageType::ClientSetup => seq![FieldKind::SetupParams],
        MessageType::ServerSetup => seq![FieldKind::SetupParams],
        MessageType::GoAway => seq![FieldKind::Uri],
        MessageType::MaxRequestId => seq![FieldKind::Int],
        MessageType::RequestsBlocked => seq![FieldKind::Int],
        MessageType::RequestOk => seq![FieldKind::Int, FieldKind::Params],
        MessageType::RequestError => seq![FieldKind::Int, FieldKind::Int, FieldKind::Reason],
        MessageType::Subscribe => seq![FieldKind::Int, FieldKind::Ns, FieldKind::Name, FieldKind::Params],
        MessageType::SubscribeOk => seq![FieldKind::Int, FieldKind::Int, FieldKind::Params],
        MessageType::SubscribeUpdate => seq![FieldKind::Int, FieldKind::Int, FieldKind::Params],
        MessageType::Unsubscribe => seq![FieldKind::Int],
        MessageType::Publish => seq![FieldKind::Int, FieldKind::Ns, FieldKind::Name, FieldKind::Int, FieldKind::Params],
        MessageType::PublishOk => seq![FieldKind::Int, FieldKind::Params],
        MessageType::PublishDone => seq![FieldKind::Int, FieldKind::Int, FieldKind::Int, FieldKind::Reason],
        MessageType::PublishNamespace => seq![FieldKind::Int, FieldKind::Ns, FieldKind::Params],
        MessageType::PublishNamespaceDone => seq![FieldKind::Ns],
        MessageType::PublishNamespaceCancel => seq![FieldKind::Ns, FieldKind::Int, FieldKind::Reason],
        MessageType::SubscribeNamespace => seq![FieldKind::Int, FieldKind::Ns, FieldKind::Params],
        MessageType::UnsubscribeNamespace => seq![FieldKind::Int],
        MessageType::TrackStatus => seq![FieldKind::Int, FieldKind::Ns, FieldKind::Name, FieldKind::Params],
        MessageType::Fetch => seq![FieldKind::Int, FieldKind::FetchBody, FieldKind::Params],
        MessageType::FetchOk => seq![FieldKind::Int, FieldKind::Byte, FieldKind::Int, FieldKind::Int, FieldKind::Params],
        MessageType::FetchCancel => seq![FieldKind::Int],
    }
}

impl View for ControlMessage {
    type V = ControlMessageView;

    open spec fn view(&self) -> ControlMessageView {
        match self {
            ControlMessage::ClientSetup(m) => ControlMessageView {
                message_type: MessageType::ClientSetup,
                fields: seq![Field::Pairs(spec_kvp_views(m.parameters@))],
            },
            ControlMessage::ServerSetup(m) => ControlMessageView {
                message_type: MessageType::ServerSetup,
                fields: seq![Field::Pairs(spec_kvp_views(m.parameters@))],
            },
            ControlMessage::GoAway(m) => ControlMessageView {
                message_type: MessageType::GoAway,
                fields: seq![Field::Bytes(m.new_session_uri@)],
            },
            ControlMessage::MaxRequestId(m) => ControlMessageView {
                message_type: MessageType::MaxRequestId,
                fields: seq![Field::Int(m.request_id@)],
            },
            ControlMessage::RequestsBlocked(m) => ControlMessageView {
                message_type: MessageType::RequestsBlocked,
                fields: seq![Field::Int(m.maximum_request_id@)],
            },
            ControlMessage::RequestOk(m) => ControlMessageView {
                message_type: MessageType::RequestOk,
                fields: seq![Field::Int(m.request_id@), Field::Pairs(spec_kvp_views(m.parameters@))],
            },
            ControlMessage::RequestError(m) => ControlMessageView {
                message_type: MessageType::RequestError,
                fields: seq![Field::Int(m.request_id@), Field::Int(m.error_code@), Field::Bytes(m.reason_phrase@)],
            },
            ControlMessage::Subscribe(m) => ControlMessageView {
                message_type: MessageType::Subscribe,
                fields: seq![Field::Int(m.request_id@), Field::Ns(ns_view(m.track_namespace.0@)), Field::Bytes(m.track_name@), Field::Pairs(spec_kvp_views(m.parameters@))],
            },
            ControlMessage::SubscribeOk(m) => ControlMessageView {
                message_type: MessageType::SubscribeOk,
                fields: seq![Field::Int(m.request_id@), Field::Int(m.track_alias@), Field::Pairs(spec_kvp_views(m.parameters@))],
            },
            ControlMessage::SubscribeUpdate(m) => ControlMessageView {
                message_type: MessageType::SubscribeUpdate,
                fields: seq![Field::Int(m.request_id@), Field::Int(m.subscription_request_id@), Field::Pairs(spec_kvp_views(m.parameters@))],
            },
            ControlMessage::Unsubscribe(m) => ControlMessageView {
                message_type: MessageType::Unsubscribe,
                fields: seq![Field::Int(m.request_id@)],
            },
            ControlMessage::Publish(m) => ControlMessageView {
                message_type: MessageType::Publish,
                fields: seq![Field::Int(m.request_id@), Field::Ns(ns_view(m.track_namespace.0@)), Field::Bytes(m.track_name@), Field::Int(m.track_alias@), Field::Pairs(spec_kvp_views(m.parameters@))],
            },
            ControlMessage::PublishOk(m) => ControlMessageView {
                message_type: MessageType::PublishOk,
                fields: seq![Field::Int(m.request_id@), Field::Pairs(spec_kvp_views(m.parameters@))],
            },
            ControlMessage::PublishDone(m) => ControlMessageView {
                message_type: MessageType::PublishDone,
                fields: seq![Field::Int(m.request_id@), Field::Int(m.status_code@), Field::Int(m.stream_count@), Field::Bytes(m.reason_phrase@)],
            },
            ControlMessage::PublishNamespace(m) => ControlMessageView {
                message_type: MessageType::PublishNamespace,
                fields: seq![Field::Int(m.request_id@), Field::Ns(ns_view(m.track_namespace.0@)), Field::Pairs(spec_kvp_views(m.parameters@))],
            },
            ControlMessage::PublishNamespaceDone(m) => ControlMessageView {
                message_type: MessageType::PublishNamespaceDone,
                fields: seq![Field::Ns(ns_view(m.track_namespace.0@))],
            },
            ControlMessage::PublishNamespaceCancel(m) => ControlMessageView {
                message_type: MessageType::PublishNamespaceCancel,
                fields: seq![Field::Ns(ns_view(m.track_namespace.0@)), Field::Int(m.error_code@), Field::Bytes(m.reason_phrase@)],
            },
            ControlMessage::SubscribeNamespace(m) => ControlMessageView {
                message_type: MessageType::SubscribeNamespace,
                fields: seq![Field::Int(m.request_id@), Field::Ns(ns_view(m.namespace_prefix.0@)), Field::Pairs(spec_kvp_views(m.parameters@))],
            },
            ControlMessage::UnsubscribeNamespace(m) => ControlMessageView {
                message_type: MessageType::UnsubscribeNamespace,
                fields: seq![Field::Int(m.request_id@)],
            },
            ControlMessage::TrackStatus(m) => ControlMessageView {
                message_type: MessageType::TrackStatus,
                fields: seq![Field::Int(m.request_id@), Field::Ns(ns_view(m.track_namespace.0@)), Field::Bytes(m.track_name@), Field::Pairs(spec_kvp_views(m.parameters@))],
            },
            ControlMessage::Fetch(m) => ControlMessageView {
                message_type: MessageType::Fetch,
                fields: seq![Field::Int(m.request_id@), fetch_body_view(m.fetch_type, m.fetch_payload), Field::Pairs(spec_kvp_views(m.parameters@))],
            },
            ControlMessage::FetchOk(m) => ControlMessageView {
                message_type: MessageType::FetchOk,
                fields: seq![Field::Int(m.request_id@), Field::Byte(m.end_of_track), Field::Int(m.end_group@), Field::Int(m.end_object@), Field::Pairs(spec_kvp_views(m.parameters@))],
            },
            ControlMessage::FetchCancel(m) => ControlMessageView {
                message_type: MessageType::FetchCancel,
                fields: seq![Field::Int(m.request_id@)],
            },
        }
    }
}

/// The fields of a ClientSetup, read one after another.
spec fn rd_msg_client_setup(s0: Seq<u8>) -> Result<(Seq<Field>, Seq<u8>), CodecError> {
    match rd_params(s0, false) {
        Err(e) => Err(e),
        Ok((x0, s1)) =>
            Ok((Seq::<Field>::empty().push(Field::Pairs(x0)), s1)),
    }
}

proof fn lemma_rd_msg_client_setup(s: Seq<u8>)
    ensures
        rd_fields(schema(MessageType::ClientSetup), s) == rd_msg_client_setup(s),
{
    reveal_with_fuel(rd_fields, 2);
}

/// The fields of a ServerSetup, read one after another.
spec fn rd_msg_server_setup(s0: Seq<u8>) -> Result<(Seq<Field>, Seq<u8>), CodecError> {
    match rd_params(s0, false) {
        Err(e) => Err(e),
        Ok((x0, s1)) =>
            Ok((Seq::<Field>::empty().push(Field::Pairs(x0)), s1)),
    }
}

proof fn lemma_rd_msg_server_setup(s: Seq<u8>)
    ensures
        rd_fields(schema(MessageType::ServerSetup), s) == rd_msg_server_setup(s),
{
    reveal_with_fuel(rd_fields, 2);
}

/// The fields of a GoAway, read one after another.
spec fn rd_msg_go_away(s0: Seq<u8>) -> Result<(Seq<Field>, Seq<u8>), CodecError> {
    match rd_capped_bytes(s0, MAX_GOAWAY_URI_LENGTH as u64, CodecError::GoAwayUriTooLong) {
        Err(e) => Err(e),
        Ok((x0, s1)) =>
            Ok((Seq::<Field>::empty().push(Field::Bytes(x0)), s1)),
    }
}

proof fn lemma_rd_msg_go_away(s: Seq<u8>)
    ensures
        rd_fields(schema(MessageType::GoAway), s) == rd_msg_go_away(s),
{
    reveal_with_fuel(rd_fields, 2);
}

/// The fields of a MaxRequestId, read one after another.
spec fn rd_msg_max_request_id(s0: Seq<u8>) -> Result<(Seq<Field>, Seq<u8>), CodecError> {
    match rd_varint(s0) {
        Err(e) => Err(e),
        Ok((x0, s1)) =>
            Ok((Seq::<Field>::empty().push(Field::Int(x0)), s1)),
    }
}

proof fn lemma_rd_msg_max_request_id(s: Seq<u8>)
    ensures
        rd_fields(schema(MessageType::MaxRequestId), s) == rd_msg_max_request_id(s),
{
    reveal_with_fuel(rd_fields, 2);
}

/// The fields of a RequestsBlocked, read one after another.
spec fn rd_msg_requests_blocked(s0: Seq<u8>) -> Result<(Seq<Field>, Seq<u8>), CodecError> {
    match rd_varint(s0) {
        Err(e) => Err(e),
        Ok((x0, s1)) =>
            Ok((Seq::<Field>::empty().push(Field::Int(x0)), s1)),
    }
}

proof fn lemma_rd_msg_requests_blocked(s: Seq<u8>)
    ensures
        rd_fields(schema(MessageType::RequestsBlocked), s) == rd_msg_requests_blocked(s),
{
    reveal_with_fuel(rd_fields, 2);
}

/// The fields of a RequestOk, read one after another.
spec fn rd_msg_request_ok(s0: Seq<u8>) -> Result<(Seq<Field>, Seq<u8>), CodecError> {
    match rd_varint(s0) {
        Err(e) => Err(e),
        Ok((x0, s1)) =>
        match rd_params(s1, true) {
            Err(e) => Err(e),
            Ok((x1, s2)) =>
                Ok((Seq::<Field>::empty().push(Field::Int(x0)).push(Field::Pairs(x1)), s2)),
        }
    }
}

proof fn lemma_rd_msg_request_ok(s: Seq<u8>)
    ensures
        rd_fields(schema(MessageType::RequestOk), s) == rd_msg_request_ok(s),
{
    reveal_with_fuel(rd_fields, 3);
}

/// The fields of a RequestError, read one after another.
spec fn rd_msg_request_error(s0: Seq<u8>) -> Result<(Seq<Field>, Seq<u8>), CodecError> {
    match rd_varint(s0) {
        Err(e) => Err(e),
        Ok((x0, s1)) =>
        match rd_varint(s1) {
            Err(e) => Err(e),
            Ok((x1, s2)) =>
            match rd_capped_bytes(s2, MAX_REASON_PHRASE_LENGTH as u64, CodecError::ReasonPhraseTooLong) {
                Err(e) => Err(e),
                Ok((x2, s3)) =>
                    Ok((Seq::<Field>::empty().push(Field::Int(x0)).push(Field::Int(x1)).push(Field::Bytes(x2)), s3)),
            }
        }
    }
}

proof fn lemma_rd_msg_request_error(s: Seq<u8>)
    ensures
        rd_fields(schema(MessageType::RequestError), s) == rd_msg_request_error(s),
{
    reveal_with_fuel(rd_fields, 4);
}

/// The fields of a Subscribe, read one after another.
spec fn rd_msg_subscribe(s0: Seq<u8>) -> Result<(Seq<Field>, Seq<u8>), CodecError> {
    match rd_varint(s0) {
        Err(e) => Err(e),
        Ok((x0, s1)) =>
        match rd_namespace(s1, 1, false) {
            Err(e) => Err(e),
            Ok((x1, s2)) =>
            match rd_name(x1, s2) {
                Err(e) => Err(e),
                Ok((x2, s3)) =>
                match rd_params(s3, true) {
                    Err(e) => Err(e),
                    Ok((x3, s4)) =>
                        Ok((Seq::<Field>::empty().push(Field::Int(x0)).push(Field::Ns(x1)).push(Field::Bytes(x2)).push(Field::Pairs(x3)), s4)),
                }
            }
        }
    }
}

#[verifier::rlimit(100)]
#[verifier::spinoff_prover]
proof fn lemma_rd_msg_subscribe(s: Seq<u8>)
    ensures
        rd_fields(schema(MessageType::Subscribe), s) == rd_msg_subscribe(s),
{
    reveal_with_fuel(rd_fields, 5);
}

/// The fields of a SubscribeOk, read one after another.
spec fn rd_msg_subscribe_ok(s0: Seq<u8>) -> Result<(Seq<Field>, Seq<u8>), CodecError> {
    match rd_varint(s0) {
        Err(e) => Err(e),
        Ok((x0, s1)) =>
        match rd_varint(s1) {
            Err(e) => Err(e),
            Ok((x1, s2)) =>
            match rd_params(s2, true) {
                Err(e) => Err(e),
                Ok((x2, s3)) =>
                    Ok((Seq::<Field>::empty().push(Field::Int(x0)).push(Field::Int(x1)).push(Field::Pairs(x2)), s3)),
            }
        }
    }
}

proof fn lemma_rd_msg_subscribe_ok(s: Seq<u8>)
    ensures
        rd_fields(schema(MessageType::SubscribeOk), s) == rd_msg_subscribe_ok(s),
{
    reveal_with_fuel(rd_fields, 4);
}

/// The fields of a SubscribeUpdate, read one after another.
spec fn rd_msg_subscribe_update(s0: Seq<u8>) -> Result<(Seq<Field>, Seq<u8>), CodecError> {
    match rd_varint(s0) {
        Err(e) => Err(e),
        Ok((x0, s1)) =>
        match rd_varint(s1) {
            Err(e) => Err(e),
            Ok((x1, s2)) =>
            match rd_params(s2, true) {
                Err(e) => Err(e),
                Ok((x2, s3)) =>
                    Ok((Seq::<Field>::empty().push(Field::Int(x0)).push(Field::Int(x1)).push(Field::Pairs(x2)), s3)),
            }
        }
    }
}

proof fn lemma_rd_msg_subscribe_update(s: Seq<u8>)
    ensures
        rd_fields(schema(MessageType::SubscribeUpdate), s) == rd_msg_subscribe_update(s),
{
    reveal_with_fuel(rd_fields, 4);
}

/// The fields of a Unsubscribe, read one after another.
spec fn rd_msg_unsubscribe(s0: Seq<u8>) -> Result<(Seq<Field>, Seq<u8>), CodecError> {
    match rd_varint(s0) {
        Err(e) => Err(e),
        Ok((x0, s1)) =>
            Ok((Seq::<Field>::empty().push(Field::Int(x0)), s1)),
    }
}

proof fn lemma_rd_msg_unsubscribe(s: Seq<u8>)
    ensures
        rd_fields(schema(MessageType::Unsubscribe), s) == rd_msg_unsubscribe(s),
{
    reveal_with_fuel(rd_fields, 2);
}

/// The fields of a Publish, read one after another.
spec fn rd_msg_publish(s0: Seq<u8>) -> Result<(Seq<Field>, Seq<u8>), CodecError> {
    match rd_varint(s0) {
        Err(e) => Err(e),
        Ok((x0, s1)) =>
        match rd_namespace(s1, 1, false) {
            Err(e) => Err(e),
            Ok((x1, s2)) =>
            match rd_name(x1, s2) {
                Err(e) => Err(e),
                Ok((x2, s3)) =>
                match rd_varint(s3) {
                    Err(e) => Err(e),
                    Ok((x3, s4)) =>
                    match rd_params(s4, true) {
                        Err(e) => Err(e),
                        Ok((x4, s5)) =>
                            Ok((Seq::<Field>::empty().push(Field::Int(x0)).push(Field::Ns(x1)).push(Field::Bytes(x2)).push(Field::Int(x3)).push(Field::Pairs(x4)), s5)),
                    }
                }
            }
        }
    }
}

#[verifier::rlimit(100)]
#[verifier::spinoff_prover]
proof fn lemma_rd_msg_publish(s: Seq<u8>)
    ensures
        rd_fields(schema(MessageType::Publish), s) == rd_msg_publish(s),
{
    reveal_with_fuel(rd_fields, 6);
}

/// The fields of a PublishOk, read one after another.
spec fn rd_msg_publish_ok(s0: Seq<u8>) -> Result<(Seq<Field>, Seq<u8>), CodecError> {
    match rd_varint(s0) {
        Err(e) => Err(e),
        Ok((x0, s1)) =>
        match rd_params(s1, true) {
            Err(e) => Err(e),
            Ok((x1, s2)) =>
                Ok((Seq::<Field>::empty().push(Field::Int(x0)).push(Field::Pairs(x1)), s2)),
        }
    }
}

proof fn lemma_rd_msg_publish_ok(s: Seq<u8>)
    ensures
        rd_fields(schema(MessageType::PublishOk), s) == rd_msg_publish_ok(s),
{
    reveal_with_fuel(rd_fields, 3);
}

/// The fields of a PublishDone, read one after another.
spec fn rd_msg_publish_done(s0: Seq<u8>) -> Result<(Seq<Field>, Seq<u8>), CodecError> {
    match rd_varint(s0) {
        Err(e) => Err(e),
        Ok((x0, s1)) =>
        match rd_varint(s1) {
            Err(e) => Err(e),
            Ok((x1, s2)) =>
            match rd_varint(s2) {
                Err(e) => Err(e),
                Ok((x2, s3)) =>
                match rd_capped_bytes(s3, MAX_REASON_PHRASE_LENGTH as u64, CodecError::ReasonPhraseTooLong) {
                    Err(e) => Err(e),
                    Ok((x3, s4)) =>
                        Ok((Seq::<Field>::empty().push(Field::Int(x0)).push(Field::Int(x1)).push(Field::Int(x2)).push(Field::Bytes(x3)), s4)),
                }
            }
        }
    }
}

#[verifier::rlimit(100)]
#[verifier::spinoff_prover]
proof fn lemma_rd_msg_publish_done(s: Seq<u8>)
    ensures
        rd_fields(schema(MessageType::PublishDone), s) == rd_msg_publish_done(s),
{
    reveal_with_fuel(rd_fields, 5);
}

/// The fields of a PublishNamespace, read one after another.
spec fn rd_msg_publish_namespace(s0: Seq<u8>) -> Result<(Seq<Field>, Seq<u8>), CodecError> {
    match rd_varint(s0) {
        Err(e) => Err(e),
        Ok((x0, s1)) =>
        match rd_namespace(s1, 1, false) {
            Err(e) => Err(e),
            Ok((x1, s2)) =>
            match rd_params(s2, true) {
                Err(e) => Err(e),
                Ok((x2, s3)) =>
                    Ok((Seq::<Field>::empty().push(Field::Int(x0)).push(Field::Ns(x1)).push(Field::Pairs(x2)), s3)),
            }
        }
    }
}

proof fn lemma_rd_msg_publish_namespace(s: Seq<u8>)
    ensures
        rd_fields(schema(MessageType::PublishNamespace), s) == rd_msg_publish_namespace(s),
{
    reveal_with_fuel(rd_fields, 4);
}

/// The fields of a PublishNamespaceDone, read one after another.
spec fn rd_msg_publish_namespace_done(s0: Seq<u8>) -> Result<(Seq<Field>, Seq<u8>), CodecError> {
    match rd_namespace(s0, 1, false) {
        Err(e) => Err(e),
        Ok((x0, s1)) =>
            Ok((Seq::<Field>::empty().push(Field::Ns(x0)), s1)),
    }
}

proof fn lemma_rd_msg_publish_namespace_done(s: Seq<u8>)
    ensures
        rd_fields(schema(MessageType::PublishNamespaceDone), s) == rd_msg_publish_namespace_done(s),
{
    reveal_with_fuel(rd_fields, 2);
}

/// The fields of a PublishNamespaceCancel, read one after another.
spec fn rd_msg_publish_namespace_cancel(s0: Seq<u8>) -> Result<(Seq<Field>, Seq<u8>), CodecError> {
    match rd_namespace(s0, 1, false) {
        Err(e) => Err(e),
        Ok((x0, s1)) =>
        match rd_varint(s1) {
            Err(e) => Err(e),
            Ok((x1, s2)) =>
            match rd_capped_bytes(s2, MAX_REASON_PHRASE_LENGTH as u64, CodecError::ReasonPhraseTooLong) {
                Err(e) => Err(e),
                Ok((x2, s3)) =>
                    Ok((Seq::<Field>::empty().push(Field::Ns(x0)).push(Field::Int(x1)).push(Field::Bytes(x2)), s3)),
            }
        }
    }
}

proof fn lemma_rd_msg_publish_namespace_cancel(s: Seq<u8>)
    ensures
        rd_fields(schema(MessageType::PublishNamespaceCancel), s) == rd_msg_publish_namespace_cancel(s),
{
    reveal_with_fuel(rd_fields, 4);
}

/// The fields of a SubscribeNamespace, read one after another.
spec fn rd_msg_subscribe_namespace(s0: Seq<u8>) -> Result<(Seq<Field>, Seq<u8>), CodecError> {
    match rd_varint(s0) {
        Err(e) => Err(e),
        Ok((x0, s1)) =>
        match rd_namespace(s1, 1, false) {
            Err(e) => Err(e),
            Ok((x1, s2)) =>
            match rd_params(s2, true) {
                Err(e) => Err(e),
                Ok((x2, s3)) =>
                    Ok((Seq::<Field>::empty().push(Field::Int(x0)).push(Field::Ns(x1)).push(Field::Pairs(x2)), s3)),
            }
        }
    }
}

proof fn lemma_rd_msg_subscribe_namespace(s: Seq<u8>)
    ensures
        rd_fields(schema(MessageType::SubscribeNamespace), s) == rd_msg_subscribe_namespace(s),
{
    reveal_with_fuel(rd_fields, 4);
}

/// The fields of a UnsubscribeNamespace, read one after another.
spec fn rd_msg_unsubscribe_namespace(s0: Seq<u8>) -> Result<(Seq<Field>, Seq<u8>), CodecError> {
    match rd_varint(s0) {
        Err(e) => Err(e),
        Ok((x0, s1)) =>
            Ok((Seq::<Field>::empty().push(Field::Int(x0)), s1)),
    }
}

proof fn lemma_rd_msg_unsubscribe_namespace(s: Seq<u8>)
    ensures
        rd_fields(schema(MessageType::UnsubscribeNamespace), s) == rd_msg_unsubscribe_namespace(s),
{
    reveal_with_fuel(rd_fields, 2);
}

/// The fields of a TrackStatus, read one after another.
spec fn rd_msg_track_status(s0: Seq<u8>) -> Result<(Seq<Field>, Seq<u8>), CodecError> {
    match rd_varint(s0) {
        Err(e) => Err(e),
        Ok((x0, s1)) =>
        match rd_namespace(s1, 1, false) {
            Err(e) => Err(e),
            Ok((x1, s2)) =>
            match rd_name(x1, s2) {
                Err(e) => Err(e),
                Ok((x2, s3)) =>
                match rd_params(s3, true) {
                    Err(e) => Err(e),
                    Ok((x3, s4)) =>
                        Ok((Seq::<Field>::empty().push(Field::Int(x0)).push(Field::Ns(x1)).push(Field::Bytes(x2)).push(Field::Pairs(x3)), s4)),
                }
            }
        }
    }
}

#[verifier::rlimit(100)]
#[verifier::spinoff_prover]
proof fn lemma_rd_msg_track_status(s: Seq<u8>)
    ensures
        rd_fields(schema(MessageType::TrackStatus), s) == rd_msg_track_status(s),
{
    reveal_with_fuel(rd_fields, 5);
}

/// The fields of a Fetch, read one after another.
spec fn rd_msg_fetch(s0: Seq<u8>) -> Result<(Seq<Field>, Seq<u8>), CodecError> {
    match rd_varint(s0) {
        Err(e) => Err(e),
        Ok((x0, s1)) =>
        match rd_fetch_body(s1) {
            Err(e) => Err(e),
            Ok((x1, s2)) =>
            match rd_params(s2, true) {
                Err(e) => Err(e),
                Ok((x2, s3)) =>
                    Ok((Seq::<Field>::empty().push(Field::Int(x0)).push(x1).push(Field::Pairs(x2)), s3)),
            }
        }
    }
}

proof fn lemma_rd_msg_fetch(s: Seq<u8>)
    ensures
        rd_fields(schema(MessageType::Fetch), s) == rd_msg_fetch(s),
{
    reveal_with_fuel(rd_fields, 4);
}

/// The fields of a FetchOk, read one after another.
spec fn rd_msg_fetch_ok(s0: Seq<u8>) -> Result<(Seq<Field>, Seq<u8>), CodecError> {
    match rd_varint(s0) {
        Err(e) => Err(e),
        Ok((x0, s1)) =>
        match rd_u8(s1) {
            Err(e) => Err(e),
            Ok((x1, s2)) =>
            match rd_varint(s2) {
                Err(e) => Err(e),
                Ok((x2, s3)) =>
                match rd_varint(s3) {
                    Err(e) => Err(e),
                    Ok((x3, s4)) =>
                    match rd_params(s4, true) {
                        Err(e) => Err(e),
                        Ok((x4, s5)) =>
                            Ok((Seq::<Field>::empty().push(Field::Int(x0)).push(Field::Byte(x1)).push(Field::Int(x2)).push(Field::Int(x3)).push(Field::Pairs(x4)), s5)),
                    }
                }
            }
        }
    }
}

#[verifier::rlimit(100)]
#[verifier::spinoff_prover]
proof fn lemma_rd_msg_fetch_ok(s: Seq<u8>)
    ensures
        rd_fields(schema(MessageType::FetchOk), s) == rd_msg_fetch_ok(s),
{
    reveal_with_fuel(rd_fields, 6);
}

/// The fields of a FetchCancel, read one after another.
spec fn rd_msg_fetch_cancel(s0: Seq<u8>) -> Result<(Seq<Field>, Seq<u8>), CodecError> {
    match rd_varint(s0) {
        Err(e) => Err(e),
        Ok((x0, s1)) =>
            Ok((Seq::<Field>::empty().push(Field::Int(x0)), s1)),
    }
}

proof fn lemma_rd_msg_fetch_cancel(s: Seq<u8>)
    ensures
        rd_fields(schema(MessageType::FetchCancel), s) == rd_msg_fetch_cancel(s),
{
    reveal_with_fuel(rd_fields, 2);
}

fn decode_client_setup(buf: &[u8]) -> (r: Result<(ControlMessage, usize), CodecError>)
    ensures
        match rd_fields(schema(MessageType::ClientSetup), buf@) {
            Ok((vs, rest)) => (r matches Ok((m, n)) && m@ == (ControlMessageView { message_type: MessageType::ClientSetup, fields: vs })
                && n <= buf@.len() && buf@.skip(n as int) == rest),
            Err(e) => r == Err::<(ControlMessage, usize), CodecError>(e),
        },
{
    proof {
        lemma_rd_msg_client_setup(buf@);
        assert(buf@.skip(0) =~= buf@);
    }
    let p0: usize = 0;
    let (parameters, p1) = decode_parameters_in(buf, p0, false)?;
    let m = ControlMessage::ClientSetup(ClientSetup { parameters });
    proof {
        assert(m@.fields =~= seq![].push(m@.fields[0]));
    }
    Ok((m, p1))
}

fn decode_server_setup(buf: &[u8]) -> (r: Result<(ControlMessage, usize), CodecError>)
    ensures
        match rd_fields(schema(MessageType::ServerSetup), buf@) {
            Ok((vs, rest)) => (r matches Ok((m, n)) && m@ == (ControlMessageView { message_type: MessageType::ServerSetup, fields: vs })
                && n <= buf@.len() && buf@.skip(n as int) == rest),
            Err(e) => r == Err::<(ControlMessage, usize), CodecError>(e),
        },
{
    proof {
        lemma_rd_msg_server_setup(buf@);
        assert(buf@.skip(0) =~= buf@);
    }
    let p0: usize = 0;
    let (parameters, p1) = decode_parameters_in(buf, p0, false)?;
    let m = ControlMessage::ServerSetup(ServerSetup { parameters });
    proof {
        assert(m@.fields =~= seq![].push(m@.fields[0]));
    }
    Ok((m, p1))
}

fn decode_go_away(buf: &[u8]) -> (r: Result<(ControlMessage, usize), CodecError>)
    ensures
        match rd_fields(schema(MessageType::GoAway), buf@) {
            Ok((vs, rest)) => (r matches Ok((m, n)) && m@ == (ControlMessageView { message_type: MessageType::GoAway, fields: vs })
                && n <= buf@.len() && buf@.skip(n as int) == rest),
            Err(e) => r == Err::<(ControlMessage, usize), CodecError>(e),
        },
{
    proof {
        lemma_rd_msg_go_away(buf@);
        assert(buf@.skip(0) =~= buf@);
    }
    let p0: usize = 0;
    let (new_session_uri, p1) = cur_capped_bytes(buf, p0, MAX_GOAWAY_URI_LENGTH as u64, CodecError::GoAwayUriTooLong)?;
    let m = ControlMessage::GoAway(GoAway { new_session_uri });
    proof {
        assert(m@.fields =~= seq![].push(m@.fields[0]));
    }
    Ok((m, p1))
}

fn decode_max_request_id(buf: &[u8]) -> (r: Result<(ControlMessage, usize), CodecError>)
    ensures
        match rd_fields(schema(MessageType::MaxRequestId), buf@) {
            Ok((vs, rest)) => (r matches Ok((m, n)) && m@ == (ControlMessageView { message_type: MessageType::MaxRequestId, fields: vs })
                && n <= buf@.len() && buf@.skip(n as int) == rest),
            Err(e) => r == Err::<(ControlMessage, usize), CodecError>(e),
        },
{
    proof {
        lemma_rd_msg_max_request_id(buf@);
        assert(buf@.skip(0) =~= buf@);
    }
    let p0: usize = 0;
    let (request_id, p1) = cur_varint(buf, p0)?;
    let m = ControlMessage::MaxRequestId(MaxRequestId { request_id });
    proof {
        assert(m@.fields =~= seq![].push(m@.fields[0]));
    }
    Ok((m, p1))
}

fn decode_requests_blocked(buf: &[u8]) -> (r: Result<(ControlMessage, usize), CodecError>)
    ensures
        match rd_fields(schema(MessageType::RequestsBlocked), buf@) {
            Ok((vs, rest)) => (r matches Ok((m, n)) && m@ == (ControlMessageView { message_type: MessageType::RequestsBlocked, fields: vs })
                && n <= buf@.len() && buf@.skip(n as int) == rest),
            Err(e) => r == Err::<(ControlMessage, usize), CodecError>(e),
        },
{
    proof {
        lemma_rd_msg_requests_blocked(buf@);
        assert(buf@.skip(0) =~= buf@);
    }
    let p0: usize = 0;
    let (maximum_request_id, p1) = cur_varint(buf, p0)?;
    let m = ControlMessage::RequestsBlocked(RequestsBlocked { maximum_request_id });
    proof {
        assert(m@.fields =~= seq![].push(m@.fields[0]));
    }
    Ok((m, p1))
}

fn decode_request_ok(buf: &[u8]) -> (r: Result<(ControlMessage, usize), CodecError>)
    ensures
        match rd_fields(schema(MessageType::RequestOk), buf@) {
            Ok((vs, rest)) => (r matches Ok((m, n)) && m@ == (ControlMessageView { message_type: MessageType::RequestOk, fields: vs })
                && n <= buf@.len() && buf@.skip(n as int) == rest),
            Err(e) => r == Err::<(ControlMessage, usize), CodecError>(e),
        },
{
    proof {
        lemma_rd_msg_request_ok(buf@);
        assert(buf@.skip(0) =~= buf@);
    }
    let p0: usize = 0;
    let (request_id, p1) = cur_varint(buf, p0)?;
    let (parameters, p2) = decode_parameters_in(buf, p1, true)?;
    let m = ControlMessage::RequestOk(RequestOk { request_id, parameters });
    proof {
        assert(m@.fields =~= seq![].push(m@.fields[0]).push(m@.fields[1]));
    }
    Ok((m, p2))
}

#[verifier::rlimit(80)]
#[verifier::spinoff_prover]
fn decode_request_error(buf: &[u8]) -> (r: Result<(ControlMessage, usize), CodecError>)
    ensures
        match rd_fields(schema(MessageType::RequestError), buf@) {
            Ok((vs, rest)) => (r matches Ok((m, n)) && m@ == (ControlMessageView { message_type: MessageType::RequestError, fields: vs })
                && n <= buf@.len() && buf@.skip(n as int) == rest),
            Err(e) => r == Err::<(ControlMessage, usize), CodecError>(e),
        },
{
    proof {
        lemma_rd_msg_request_error(buf@);
        assert(buf@.skip(0) =~= buf@);
    }
    let p0: usize = 0;
    let (request_id, p1) = cur_varint(buf, p0)?;
    let (error_code, p2) = cur_varint(buf, p1)?;
    let (reason_phrase, p3) = cur_capped_bytes(buf, p2, MAX_REASON_PHRASE_LENGTH as u64, CodecError::ReasonPhraseTooLong)?;
    let m = ControlMessage::RequestError(RequestError { request_id, error_code, reason_phrase });
    proof {
        assert(m@.fields =~= seq![].push(m@.fields[0]).push(m@.fields[1]).push(m@.fields[2]));
    }
    Ok((m, p3))
}

#[verifier::rlimit(80)]
#[verifier::spinoff_prover]
fn decode_subscribe(buf: &[u8]) -> (r: Result<(ControlMessage, usize), CodecError>)
    ensures
        match rd_fields(schema(MessageType::Subscribe), buf@) {
            Ok((vs, rest)) => (r matches Ok((m, n)) && m@ == (ControlMessageView { message_type: MessageType::Subscribe, fields: vs })
                && n <= buf@.len() && buf@.skip(n as int) == rest),
            Err(e) => r == Err::<(ControlMessage, usize), CodecError>(e),
        },
{
    proof {
        lemma_rd_msg_subscribe(buf@);
        assert(buf@.skip(0) =~= buf@);
    }
    let p0: usize = 0;
    let (request_id, p1) = cur_varint(buf, p0)?;
    let (track_namespace, p2) = TrackNamespace::decode_at(buf, p1, 1, false)?;
    let (track_name, p3) = read_track_name(&track_namespace, buf, p2)?;
    let (parameters, p4) = decode_parameters_in(buf, p3, true)?;
    let m = ControlMessage::Subscribe(Subscribe { request_id, track_namespace, track_name, parameters });
    proof {
        assert(m@.fields =~= seq![].push(m@.fields[0]).push(m@.fields[1]).push(m@.fields[2]).push(m@.fields[3]));
    }
    Ok((m, p4))
}

#[verifier::rlimit(80)]
#[verifier::spinoff_prover]
fn decode_subscribe_ok(buf: &[u8]) -> (r: Result<(ControlMessage, usize), CodecError>)
    ensures
        match rd_fields(schema(MessageType::SubscribeOk), buf@) {
            Ok((vs, rest)) => (r matches Ok((m, n)) && m@ == (ControlMessageView { message_type: MessageType::SubscribeOk, fields: vs })
                && n <= buf@.len() && buf@.skip(n as int) == rest),
            Err(e) => r == Err::<(ControlMessage, usize), CodecError>(e),
        },
{
    proof {
        lemma_rd_msg_subscribe_ok(buf@);
        assert(buf@.skip(0) =~= buf@);
    }
    let p0: usize = 0;
    let (request_id, p1) = cur_varint(buf, p0)?;
    let (track_alias, p2) = cur_varint(buf, p1)?;
    let (parameters, p3) = decode_parameters_in(buf, p2, true)?;
    let m = ControlMessage::SubscribeOk(SubscribeOk { request_id, track_alias, parameters });
    proof {
        assert(m@.fields =~= seq![].push(m@.fields[0]).push(m@.fields[1]).push(m@.fields[2]));
    }
    Ok((m, p3))
}

#[verifier::rlimit(80)]
#[verifier::spinoff_prover]
fn decode_subscribe_update(buf: &[u8]) -> (r: Result<(ControlMessage, usize), CodecError>)
    ensures
        match rd_fields(schema(MessageType::SubscribeUpdate), buf@) {
            Ok((vs, rest)) => (r matches Ok((m, n)) && m@ == (ControlMessageView { message_type: MessageType::SubscribeUpdate, fields: vs })
                && n <= buf@.len() && buf@.skip(n as int) == rest),
            Err(e) => r == Err::<(ControlMessage, usize), CodecError>(e),
        },
{
    proof {
        lemma_rd_msg_subscribe_update(buf@);
        assert(buf@.skip(0) =~= buf@);
    }
    let p0: usize = 0;
    let (request_id, p1) = cur_varint(buf, p0)?;
    let (subscription_request_id, p2) = cur_varint(buf, p1)?;
    let (parameters, p3) = decode_parameters_in(buf, p2, true)?;
    let m = ControlMessage::SubscribeUpdate(SubscribeUpdate { request_id, subscription_request_id, parameters });
    proof {
        assert(m@.fields =~= seq![].push(m@.fields[0]).push(m@.fields[1]).push(m@.fields[2]));
    }
    Ok((m, p3))
}

fn decode_unsubscribe(buf: &[u8]) -> (r: Result<(ControlMessage, usize), CodecError>)
    ensures
        match rd_fields(schema(MessageType::Unsubscribe), buf@) {
            Ok((vs, rest)) => (r matches Ok((m, n)) && m@ == (ControlMessageView { message_type: MessageType::Unsubscribe, fields: vs })
                && n <= buf@.len() && buf@.skip(n as int) == rest),
            Err(e) => r == Err::<(ControlMessage, usize), CodecError>(e),
        },
{
    proof {
        lemma_rd_msg_unsubscribe(buf@);
        assert(buf@.skip(0) =~= buf@);
    }
    let p0: usize = 0;
    let (request_id, p1) = cur_varint(buf, p0)?;
    let m = ControlMessage::Unsubscribe(Unsubscribe { request_id });
    proof {
        assert(m@.fields =~= seq![].push(m@.fields[0]));
    }
    Ok((m, p1))
}

#[verifier::rlimit(80)]
#[verifier::spinoff_prover]
fn decode_publish(buf: &[u8]) -> (r: Result<(ControlMessage, usize), CodecError>)
    ensures
        match rd_fields(schema(MessageType::Publish), buf@) {
            Ok((vs, rest)) => (r matches Ok((m, n)) && m@ == (ControlMessageView { message_type: MessageType::Publish, fields: vs })
                && n <= buf@.len() && buf@.skip(n as int) == rest),
            Err(e) => r == Err::<(ControlMessage, usize), CodecError>(e),
        },
{
    proof {
        lemma_rd_msg_publish(buf@);
        assert(buf@.skip(0) =~= buf@);
    }
    let p0: usize = 0;
    let (request_id, p1) = cur_varint(buf, p0)?;
    let (track_namespace, p2) = TrackNamespace::decode_at(buf, p1, 1, false)?;
    let (track_name, p3) = read_track_name(&track_namespace, buf, p2)?;
    let (track_alias, p4) = cur_varint(buf, p3)?;
    let (parameters, p5) = decode_parameters_in(buf, p4, true)?;
    let m = ControlMessage::Publish(Publish { request_id, track_namespace, track_name, track_alias, parameters });
    proof {
        assert(m@.fields =~= seq![].push(m@.fields[0]).push(m@.fields[1]).push(m@.fields[2]).push(m@.fields[3]).push(m@.fields[4]));
    }
    Ok((m, p5))
}

fn decode_publish_ok(buf: &[u8]) -> (r: Result<(ControlMessage, usize), CodecError>)
    ensures
        match rd_fields(schema(MessageType::PublishOk), buf@) {
            Ok((vs, rest)) => (r matches Ok((m, n)) && m@ == (ControlMessageView { message_type: MessageType::PublishOk, fields: vs })
                && n <= buf@.len() && buf@.skip(n as int) == rest),
            Err(e) => r == Err::<(ControlMessage, usize), CodecError>(e),
        },
{
    proof {
        lemma_rd_msg_publish_ok(buf@);
        assert(buf@.skip(0) =~= buf@);
    }
    let p0: usize = 0;
    let (request_id, p1) = cur_varint(buf, p0)?;
    let (parameters, p2) = decode_parameters_in(buf, p1, true)?;
    let m = ControlMessage::PublishOk(PublishOk { request_id, parameters });
    proof {
        assert(m@.fields =~= seq![].push(m@.fields[0]).push(m@.fields[1]));
    }
    Ok((m, p2))
}

#[verifier::rlimit(80)]
#[verifier::spinoff_prover]
fn decode_publish_done(buf: &[u8]) -> (r: Result<(ControlMessage, usize), CodecError>)
    ensures
        match rd_fields(schema(MessageType::PublishDone), buf@) {
            Ok((vs, rest)) => (r matches Ok((m, n)) && m@ == (ControlMessageView { message_type: MessageType::PublishDone, fields: vs })
                && n <= buf@.len() && buf@.skip(n as int) == rest),
            Err(e) => r == Err::<(ControlMessage, usize), CodecError>(e),
        },
{
    proof {
        lemma_rd_msg_publish_done(buf@);
        assert(buf@.skip(0) =~= buf@);
    }
    let p0: usize = 0;
    let (request_id, p1) = cur_varint(buf, p0)?;
    let (status_code, p2) = cur_varint(buf, p1)?;
    let (stream_count, p3) = cur_varint(buf, p2)?;
    let (reason_phrase, p4) = cur_capped_bytes(buf, p3, MAX_REASON_PHRASE_LENGTH as u64, CodecError::ReasonPhraseTooLong)?;
    let m = ControlMessage::PublishDone(PublishDone { request_id, status_code, stream_count, reason_phrase });
    proof {
        assert(m@.fields =~= seq![].push(m@.fields[0]).push(m@.fields[1]).push(m@.fields[2]).push(m@.fields[3]));
    }
    Ok((m, p4))
}

#[verifier::rlimit(80)]
#[verifier::spinoff_prover]
fn decode_publish_namespace(buf: &[u8]) -> (r: Result<(ControlMessage, usize), CodecError>)
    ensures
        match rd_fields(schema(MessageType::PublishNamespace), buf@) {
            Ok((vs, rest)) => (r matches Ok((m, n)) && m@ == (ControlMessageView { message_type: MessageType::PublishNamespace, fields: vs })
                && n <= buf@.len() && buf@.skip(n as int) == rest),
            Err(e) => r == Err::<(ControlMessage, usize), CodecError>(e),
        },
{
    proof {
        lemma_rd_msg_publish_namespace(buf@);
        assert(buf@.skip(0) =~= buf@);
    }
    let p0: usize = 0;
    let (request_id, p1) = cur_varint(buf, p0)?;
    let (track_namespace, p2) = TrackNamespace::decode_at(buf, p1, 1, false)?;
    let (parameters, p3) = decode_parameters_in(buf, p2, true)?;
    let m = ControlMessage::PublishNamespace(PublishNamespace { request_id, track_namespace, parameters });
    proof {
        assert(m@.fields =~= seq![].push(m@.fields[0]).push(m@.fields[1]).push(m@.fields[2]));
    }
    Ok((m, p3))
}

fn decode_publish_namespace_done(buf: &[u8]) -> (r: Result<(ControlMessage, usize), CodecError>)
    ensures
        match rd_fields(schema(MessageType::PublishNamespaceDone), buf@) {
            Ok((vs, rest)) => (r matches Ok((m, n)) && m@ == (ControlMessageView { message_type: MessageType::PublishNamespaceDone, fields: vs })
                && n <= buf@.len() && buf@.skip(n as int) == rest),
            Err(e) => r == Err::<(ControlMessage, usize), CodecError>(e),
        },
{
    proof {
        lemma_rd_msg_publish_namespace_done(buf@);
        assert(buf@.skip(0) =~= buf@);
    }
    let p0: usize = 0;
    let (track_namespace, p1) = TrackNamespace::decode_at(buf, p0, 1, false)?;
    let m = ControlMessage::PublishNamespaceDone(PublishNamespaceDone { track_namespace });
    proof {
        assert(m@.fields =~= seq![].push(m@.fields[0]));
    }
    Ok((m, p1))
}

#[verifier::rlimit(80)]
#[verifier::spinoff_prover]
fn decode_publish_namespace_cancel(buf: &[u8]) -> (r: Result<(ControlMessage, usize), CodecError>)
    ensures
        match rd_fields(schema(MessageType::PublishNamespaceCancel), buf@) {
            Ok((vs, rest)) => (r matches Ok((m, n)) && m@ == (ControlMessageView { message_type: MessageType::PublishNamespaceCancel, fields: vs })
                && n <= buf@.len() && buf@.skip(n as int) == rest),
            Err(e) => r == Err::<(ControlMessage, usize), CodecError>(e),
        },
{
    proof {
        lemma_rd_msg_publish_namespace_cancel(buf@);
        assert(buf@.skip(0) =~= buf@);
    }
    let p0: usize = 0;
    let (track_namespace, p1) = TrackNamespace::decode_at(buf, p0, 1, false)?;
    let (error_code, p2) = cur_varint(buf, p1)?;
    let (reason_phrase, p3) = cur_capped_bytes(buf, p2, MAX_REASON_PHRASE_LENGTH as u64, CodecError::ReasonPhraseTooLong)?;
    let m = ControlMessage::PublishNamespaceCancel(PublishNamespaceCancel { track_namespace, error_code, reason_phrase });
    proof {
        assert(m@.fields =~= seq![].push(m@.fields[0]).push(m@.fields[1]).push(m@.fields[2]));
    }
    Ok((m, p3))
}

#[verifier::rlimit(80)]
#[verifier::spinoff_prover]
fn decode_subscribe_namespace(buf: &[u8]) -> (r: Result<(ControlMessage, usize), CodecError>)
    ensures
        match rd_fields(schema(MessageType::SubscribeNamespace), buf@) {
            Ok((vs, rest)) => (r matches Ok((m, n)) && m@ == (ControlMessageView { message_type: MessageType::SubscribeNamespace, fields: vs })
                && n <= buf@.len() && buf@.skip(n as int) == rest),
            Err(e) => r == Err::<(ControlMessage, usize), CodecError>(e),
        },
{
    proof {
        lemma_rd_msg_subscribe_namespace(buf@);
        assert(buf@.skip(0) =~= buf@);
    }
    let p0: usize = 0;
    let (request_id, p1) = cur_varint(buf, p0)?;
    let (namespace_prefix, p2) = TrackNamespace::decode_at(buf, p1, 1, false)?;
    let (parameters, p3) = decode_parameters_in(buf, p2, true)?;
    let m = ControlMessage::SubscribeNamespace(SubscribeNamespace { request_id, namespace_prefix, parameters });
    proof {
        assert(m@.fields =~= seq![].push(m@.fields[0]).push(m@.fields[1]).push(m@.fields[2]));
    }
    Ok((m, p3))
}

fn decode_unsubscribe_namespace(buf: &[u8]) -> (r: Result<(ControlMessage, usize), CodecError>)
    ensures
        match rd_fields(schema(MessageType::UnsubscribeNamespace), buf@) {
            Ok((vs, rest)) => (r matches Ok((m, n)) && m@ == (ControlMessageView { message_type: MessageType::UnsubscribeNamespace, fields: vs })
                && n <= buf@.len() && buf@.skip(n as int) == rest),
            Err(e) => r == Err::<(ControlMessage, usize), CodecError>(e),
        },
{
    proof {
        lemma_rd_msg_unsubscribe_namespace(buf@);
        assert(buf@.skip(0) =~= buf@);
    }
    let p0: usize = 0;
    let (request_id, p1) = cur_varint(buf, p0)?;
    let m = ControlMessage::UnsubscribeNamespace(UnsubscribeNamespace { request_id });
    proof {
        assert(m@.fields =~= seq![].push(m@.fields[0]));
    }
    Ok((m, p1))
}

#[verifier::rlimit(80)]
#[verifier::spinoff_prover]
fn decode_track_status(buf: &[u8]) -> (r: Result<(ControlMessage, usize), CodecError>)
    ensures
        match rd_fields(schema(MessageType::TrackStatus), buf@) {
            Ok((vs, rest)) => (r matches Ok((m, n)) && m@ == (ControlMessageView { message_type: MessageType::TrackStatus, fields: vs })
                && n <= buf@.len() && buf@.skip(n as int) == rest),
            Err(e) => r == Err::<(ControlMessage, usize), CodecError>(e),
        },
{
    proof {
        lemma_rd_msg_track_status(buf@);
        assert(buf@.skip(0) =~= buf@);
    }
    let p0: usize = 0;
    let (request_id, p1) = cur_varint(buf, p0)?;
    let (track_namespace, p2) = TrackNamespace::decode_at(buf, p1, 1, false)?;
    let (track_name, p3) = read_track_name(&track_namespace, buf, p2)?;
    let (parameters, p4) = decode_parameters_in(buf, p3, true)?;
    let m = ControlMessage::TrackStatus(TrackStatus { request_id, track_namespace, track_name, parameters });
    proof {
        assert(m@.fields =~= seq![].push(m@.fields[0]).push(m@.fields[1]).push(m@.fields[2]).push(m@.fields[3]));
    }
    Ok((m, p4))
}

#[verifier::rlimit(80)]
#[verifier::spinoff_prover]
fn decode_fetch(buf: &[u8]) -> (r: Result<(ControlMessage, usize), CodecError>)
    ensures
        match rd_fields(schema(MessageType::Fetch), buf@) {
            Ok((vs, rest)) => (r matches Ok((m, n)) && m@ == (ControlMessageView { message_type: MessageType::Fetch, fields: vs })
                && n <= buf@.len() && buf@.skip(n as int) == rest),
            Err(e) => r == Err::<(ControlMessage, usize), CodecError>(e),
        },
{
    proof {
        lemma_rd_msg_fetch(buf@);
        assert(buf@.skip(0) =~= buf@);
    }
    let p0: usize = 0;
    let (request_id, p1) = cur_varint(buf, p0)?;
    let ((fetch_type, fetch_payload), p2) = read_fetch_body(buf, p1)?;
    let (parameters, p3) = decode_parameters_in(buf, p2, true)?;
    let m = ControlMessage::Fetch(Fetch { request_id, fetch_type, fetch_payload, parameters });
    proof {
        assert(m@.fields =~= seq![].push(m@.fields[0]).push(m@.fields[1]).push(m@.fields[2]));
    }
    Ok((m, p3))
}

#[verifier::rlimit(80)]
#[verifier::spinoff_prover]
fn decode_fetch_ok(buf: &[u8]) -> (r: Result<(ControlMessage, usize), CodecError>)
    ensures
        match rd_fields(schema(MessageType::FetchOk), buf@) {
            Ok((vs, rest)) => (r matches Ok((m, n)) && m@ == (ControlMessageView { message_type: MessageType::FetchOk, fields: vs })
                && n <= buf@.len() && buf@.skip(n as int) == rest),
            Err(e) => r == Err::<(ControlMessage, usize), CodecError>(e),
        },
{
    proof {
        lemma_rd_msg_fetch_ok(buf@);
        assert(buf@.skip(0) =~= buf@);
    }
    let p0: usize = 0;
    let (request_id, p1) = cur_varint(buf, p0)?;
    let (end_of_track, p2) = cur_u8(buf, p1)?;
    let (end_group, p3) = cur_varint(buf, p2)?;
    let (end_object, p4) = cur_varint(buf, p3)?;
    let (parameters, p5) = decode_parameters_in(buf, p4, true)?;
    let m = ControlMessage::FetchOk(FetchOk { request_id, end_of_track, end_group, end_object, parameters });
    proof {
        assert(m@.fields =~= seq![].push(m@.fields[0]).push(m@.fields[1]).push(m@.fields[2]).push(m@.fields[3]).push(m@.fields[4]));
    }
    Ok((m, p5))
}

fn decode_fetch_cancel(buf: &[u8]) -> (r: Result<(ControlMessage, usize), CodecError>)
    ensures
        match rd_fields(schema(MessageType::FetchCancel), buf@) {
            Ok((vs, rest)) => (r matches Ok((m, n)) && m@ == (ControlMessageView { message_type: MessageType::FetchCancel, fields: vs })
                && n <= buf@.len() && buf@.skip(n as int) == rest),
            Err(e) => r == Err::<(ControlMessage, usize), CodecError>(e),
        },
{
    proof {
        lemma_rd_msg_fetch_cancel(buf@);
        assert(buf@.skip(0) =~= buf@);
    }
    let p0: usize = 0;
    let (request_id, p1) = cur_varint(buf, p0)?;
    let m = ControlMessage::FetchCancel(FetchCancel { request_id });
    proof {
        assert(m@.fields =~= seq![].push(m@.fields[0]));
    }
    Ok((m, p1))
}

/// Decode the payload of a message of type `t`: its fields, from the
/// start of `buf`, with the number of bytes they took.
pub fn decode_payload(t: MessageType, buf: &[u8]) -> (r: Result<(ControlMessage, usize), CodecError>)
    ensures
        match rd_fields(schema(t), buf@) {
            Ok((vs, rest)) => (r matches Ok((m, n)) && m@ == (ControlMessageView { message_type: t, fields: vs })
                && n <= buf@.len() && buf@.skip(n as int) == rest),
            Err(e) => r == Err::<(ControlMessage, usize), CodecError>(e),
        },
{
    match t {
        MessageType::ClientSetup => decode_client_setup(buf),
        MessageType::ServerSetup => decode_server_setup(buf),
        MessageType::GoAway => decode_go_away(buf),
        MessageType::MaxRequestId => decode_max_request_id(buf),
        MessageType::RequestsBlocked => decode_requests_blocked(buf),
        MessageType::RequestOk => decode_request_ok(buf),
        MessageType::RequestError => decode_request_error(buf),
        MessageType::Subscribe => decode_subscribe(buf),
        MessageType::SubscribeOk => decode_subscribe_ok(buf),
        MessageType::SubscribeUpdate => decode_subscribe_update(buf),
        MessageType::Unsubscribe => decode_unsubscribe(buf),
        MessageType::Publish => decode_publish(buf),
        MessageType::PublishOk => decode_publish_ok(buf),
        MessageType::PublishDone => decode_publish_done(buf),
        MessageType::PublishNamespace => decode_publish_namespace(buf),
        MessageType::PublishNamespaceDone => decode_publish_namespace_done(buf),
        MessageType::PublishNamespaceCancel => decode_publish_namespace_cancel(buf),
        MessageType::SubscribeNamespace => decode_subscribe_namespace(buf),
        MessageType::UnsubscribeNamespace => decode_unsubscribe_namespace(buf),
        MessageType::TrackStatus => decode_track_status(buf),
        MessageType::Fetch => decode_fetch(buf),
        MessageType::FetchOk => decode_fetch_ok(buf),
        MessageType::FetchCancel => decode_fetch_cancel(buf),
    }
}

fn encode_client_setup(msg: &ControlMessage, buf: &mut Vec<u8>) -> (r: Result<(), CodecError>)
    requires
        msg is ClientSetup,
        fields_fit(msg@.fields),
    ensures
        match enc_fields(schema(msg@.message_type), msg@.fields) {
            Ok(b) => r == Ok::<(), CodecError>(()) && final(buf)@ == old(buf)@ + b,
            Err(e) => r == Err::<(), CodecError>(e),
        },
{
    proof {
        reveal_with_fuel(enc_fields, 2);
        assert(field_fits(msg@.fields[0]));
    }
    let ghost start = buf@;
    let m = match msg { ControlMessage::ClientSetup(m) => m, _ => { proof { assert(false); } return Err(CodecError::InvalidField); } };
    let ghost b0 = buf@;
    encode_parameters_in(m.parameters.as_slice(), false, buf)?;
    let ghost b1 = buf@;
    proof {
        assert(b1 =~= b0 + b1.skip(b0.len() as int));
        assert(b1 =~= start + (Seq::<u8>::empty() + b1.skip(b0.len() as int)));
    }
    Ok(())
}

fn encode_server_setup(msg: &ControlMessage, buf: &mut Vec<u8>) -> (r: Result<(), CodecError>)
    requires
        msg is ServerSetup,
        fields_fit(msg@.fields),
    ensures
        match enc_fields(schema(msg@.message_type), msg@.fields) {
            Ok(b) => r == Ok::<(), CodecError>(()) && final(buf)@ == old(buf)@ + b,
            Err(e) => r == Err::<(), CodecError>(e),
        },
{
    proof {
        reveal_with_fuel(enc_fields, 2);
        assert(field_fits(msg@.fields[0]));
    }
    let ghost start = buf@;
    let m = match msg { ControlMessage::ServerSetup(m) => m, _ => { proof { assert(false); } return Err(CodecError::InvalidField); } };
    let ghost b0 = buf@;
    encode_parameters_in(m.parameters.as_slice(), false, buf)?;
    let ghost b1 = buf@;
    proof {
        assert(b1 =~= b0 + b1.skip(b0.len() as int));
        assert(b1 =~= start + (Seq::<u8>::empty() + b1.skip(b0.len() as int)));
    }
    Ok(())
}

fn encode_go_away(msg: &ControlMessage, buf: &mut Vec<u8>) -> (r: Result<(), CodecError>)
    requires
        msg is GoAway,
        fields_fit(msg@.fields),
    ensures
        match enc_fields(schema(msg@.message_type), msg@.fields) {
            Ok(b) => r == Ok::<(), CodecError>(()) && final(buf)@ == old(buf)@ + b,
            Err(e) => r == Err::<(), CodecError>(e),
        },
{
    proof {
        reveal_with_fuel(enc_fields, 2);
        assert(field_fits(msg@.fields[0]));
    }
    let ghost start = buf@;
    let m = match msg { ControlMessage::GoAway(m) => m, _ => { proof { assert(false); } return Err(CodecError::InvalidField); } };
    let ghost b0 = buf@;
    put_capped_bytes(&m.new_session_uri, MAX_GOAWAY_URI_LENGTH as u64, CodecError::GoAwayUriTooLong, buf)?;
    let ghost b1 = buf@;
    proof {
        assert(b1 =~= b0 + b1.skip(b0.len() as int));
        assert(b1 =~= start + (Seq::<u8>::empty() + b1.skip(b0.len() as int)));
    }
    Ok(())
}

fn encode_max_request_id(msg: &ControlMessage, buf: &mut Vec<u8>) -> (r: Result<(), CodecError>)
    requires
        msg is MaxRequestId,
        fields_fit(msg@.fields),
    ensures
        match enc_fields(schema(msg@.message_type), msg@.fields) {
            Ok(b) => r == Ok::<(), CodecError>(()) && final(buf)@ == old(buf)@ + b,
            Err(e) => r == Err::<(), CodecError>(e),
        },
{
    proof {
        reveal_with_fuel(enc_fields, 2);
        assert(field_fits(msg@.fields[0]));
    }
    let ghost start = buf@;
    let m = match msg { ControlMessage::MaxRequestId(m) => m, _ => { proof { assert(false); } return Err(CodecError::InvalidField); } };
    let ghost b0 = buf@;
    put_varint(m.request_id, buf)?;
    let ghost b1 = buf@;
    proof {
        assert(b1 =~= b0 + b1.skip(b0.len() as int));
        assert(b1 =~= start + (Seq::<u8>::empty() + b1.skip(b0.len() as int)));
    }
    Ok(())
}

fn encode_requests_blocked(msg: &ControlMessage, buf: &mut Vec<u8>) -> (r: Result<(), CodecError>)
    requires
        msg is RequestsBlocked,
        fields_fit(msg@.fields),
    ensures
        match enc_fields(schema(msg@.message_type), msg@.fields) {
            Ok(b) => r == Ok::<(), CodecError>(()) && final(buf)@ == old(buf)@ + b,
            Err(e) => r == Err::<(), CodecError>(e),
        },
{
    proof {
        reveal_with_fuel(enc_fields, 2);
        assert(field_fits(msg@.fields[0]));
    }
    let ghost start = buf@;
    let m = match msg { ControlMessage::RequestsBlocked(m) => m, _ => { proof { assert(false); } return Err(CodecError::InvalidField); } };
    let ghost b0 = buf@;
    put_varint(m.maximum_request_id, buf)?;
    let ghost b1 = buf@;
    proof {
        assert(b1 =~= b0 + b1.skip(b0.len() as int));
        assert(b1 =~= start + (Seq::<u8>::empty() + b1.skip(b0.len() as int)));
    }
    Ok(())
}

fn encode_request_ok(msg: &ControlMessage, buf: &mut Vec<u8>) -> (r: Result<(), CodecError>)
    requires
        msg is RequestOk,
        fields_fit(msg@.fields),
    ensures
        match enc_fields(schema(msg@.message_type), msg@.fields) {
            Ok(b) => r == Ok::<(), CodecError>(()) && final(buf)@ == old(buf)@ + b,
            Err(e) => r == Err::<(), CodecError>(e),
        },
{
    proof {
        reveal_with_fuel(enc_fields, 3);
        assert(field_fits(msg@.fields[0]));
        assert(field_fits(msg@.fields[1]));
    }
    let ghost start = buf@;
    let m = match msg { ControlMessage::RequestOk(m) => m, _ => { proof { assert(false); } return Err(CodecError::InvalidField); } };
    let ghost b0 = buf@;
    put_varint(m.request_id, buf)?;
    let ghost b1 = buf@;
    encode_parameters_in(m.parameters.as_slice(), true, buf)?;
    let ghost b2 = buf@;
    proof {
        assert(b1 =~= b0 + b1.skip(b0.len() as int));
        assert(b2 =~= b1 + b2.skip(b1.len() as int));
        assert(b2 =~= start + ((Seq::<u8>::empty() + b1.skip(b0.len() as int)) + b2.skip(b1.len() as int)));
    }
    Ok(())
}

fn encode_request_error(msg: &ControlMessage, buf: &mut Vec<u8>) -> (r: Result<(), CodecError>)
    requires
        msg is RequestError,
        fields_fit(msg@.fields),
    ensures
        match enc_fields(schema(msg@.message_type), msg@.fields) {
            Ok(b) => r == Ok::<(), CodecError>(()) && final(buf)@ == old(buf)@ + b,
            Err(e) => r == Err::<(), CodecError>(e),
        },
{
    proof {
        reveal_with_fuel(enc_fields, 4);
        assert(field_fits(msg@.fields[0]));
        assert(field_fits(msg@.fields[1]));
        assert(field_fits(msg@.fields[2]));
    }
    let ghost start = buf@;
    let m = match msg { ControlMessage::RequestError(m) => m, _ => { proof { assert(false); } return Err(CodecError::InvalidField); } };
    let ghost b0 = buf@;
    put_varint(m.request_id, buf)?;
    let ghost b1 = buf@;
    put_varint(m.error_code, buf)?;
    let ghost b2 = buf@;
    put_capped_bytes(&m.reason_phrase, MAX_REASON_PHRASE_LENGTH as u64, CodecError::ReasonPhraseTooLong, buf)?;
    let ghost b3 = buf@;
    proof {
        assert(b1 =~= b0 + b1.skip(b0.len() as int));
        assert(b2 =~= b1 + b2.skip(b1.len() as int));
        assert(b3 =~= b2 + b3.skip(b2.len() as int));
        assert(b3 =~= start + (((Seq::<u8>::empty() + b1.skip(b0.len() as int)) + b2.skip(b1.len() as int)) + b3.skip(b2.len() as int)));
    }
    Ok(())
}

fn encode_subscribe(msg: &ControlMessage, buf: &mut Vec<u8>) -> (r: Result<(), CodecError>)
    requires
        msg is Subscribe,
        fields_fit(msg@.fields),
    ensures
        match enc_fields(schema(msg@.message_type), msg@.fields) {
            Ok(b) => r == Ok::<(), CodecError>(()) && final(buf)@ == old(buf)@ + b,
            Err(e) => r == Err::<(), CodecError>(e),
        },
{
    proof {
        reveal_with_fuel(enc_fields, 5);
        assert(field_fits(msg@.fields[0]));
        assert(field_fits(msg@.fields[1]));
        assert(field_fits(msg@.fields[2]));
        assert(field_fits(msg@.fields[3]));
    }
    let ghost start = buf@;
    let m = match msg { ControlMessage::Subscribe(m) => m, _ => { proof { assert(false); } return Err(CodecError::InvalidField); } };
    let ghost b0 = buf@;
    put_varint(m.request_id, buf)?;
    let ghost b1 = buf@;
    put_namespace(&m.track_namespace, 1, buf)?;
    let ghost b2 = buf@;
    put_track_name(&m.track_namespace, &m.track_name, buf)?;
    let ghost b3 = buf@;
    encode_parameters_in(m.parameters.as_slice(), true, buf)?;
    let ghost b4 = buf@;
    proof {
        assert(b1 =~= b0 + b1.skip(b0.len() as int));
        assert(b2 =~= b1 + b2.skip(b1.len() as int));
        assert(b3 =~= b2 + b3.skip(b2.len() as int));
        assert(b4 =~= b3 + b4.skip(b3.len() as int));
        assert(b4 =~= start + ((((Seq::<u8>::empty() + b1.skip(b0.len() as int)) + b2.skip(b1.len() as int)) + b3.skip(b2.len() as int)) + b4.skip(b3.len() as int)));
    }
    Ok(())
}

fn encode_subscribe_ok(msg: &ControlMessage, buf: &mut Vec<u8>) -> (r: Result<(), CodecError>)
    requires
        msg is SubscribeOk,
        fields_fit(msg@.fields),
    ensures
        match enc_fields(schema(msg@.message_type), msg@.fields) {
            Ok(b) => r == Ok::<(), CodecError>(()) && final(buf)@ == old(buf)@ + b,
            Err(e) => r == Err::<(), CodecError>(e),
        },
{
    proof {
        reveal_with_fuel(enc_fields, 4);
        assert(field_fits(msg@.fields[0]));
        assert(field_fits(msg@.fields[1]));
        assert(field_fits(msg@.fields[2]));
    }
    let ghost start = buf@;
    let m = match msg { ControlMessage::SubscribeOk(m) => m, _ => { proof { assert(false); } return Err(CodecError::InvalidField); } };
    let ghost b0 = buf@;
    put_varint(m.request_id, buf)?;
    let ghost b1 = buf@;
    put_varint(m.track_alias, buf)?;
    let ghost b2 = buf@;
    encode_parameters_in(m.parameters.as_slice(), true, buf)?;
    let ghost b3 = buf@;
    proof {
        assert(b1 =~= b0 + b1.skip(b0.len() as int));
        assert(b2 =~= b1 + b2.skip(b1.len() as int));
        assert(b3 =~= b2 + b3.skip(b2.len() as int));
        assert(b3 =~= start + (((Seq::<u8>::empty() + b1.skip(b0.len() as int)) + b2.skip(b1.len() as int)) + b3.skip(b2.len() as int)));
    }
    Ok(())
}

fn encode_subscribe_update(msg: &ControlMessage, buf: &mut Vec<u8>) -> (r: Result<(), CodecError>)
    requires
        msg is SubscribeUpdate,
        fields_fit(msg@.fields),
    ensures
        match enc_fields(schema(msg@.message_type), msg@.fields) {
            Ok(b) => r == Ok::<(), CodecError>(()) && final(buf)@ == old(buf)@ + b,
            Err(e) => r == Err::<(), CodecError>(e),
        },
{
    proof {
        reveal_with_fuel(enc_fields, 4);
        assert(field_fits(msg@.fields[0]));
        assert(field_fits(msg@.fields[1]));
        assert(field_fits(msg@.fields[2]));
    }
    let ghost start = buf@;
    let m = match msg { ControlMessage::SubscribeUpdate(m) => m, _ => { proof { assert(false); } return Err(CodecError::InvalidField); } };
    let ghost b0 = buf@;
    put_varint(m.request_id, buf)?;
    let ghost b1 = buf@;
    put_varint(m.subscription_request_id, buf)?;
    let ghost b2 = buf@;
    encode_parameters_in(m.parameters.as_slice(), true, buf)?;
    let ghost b3 = buf@;
    proof {
        assert(b1 =~= b0 + b1.skip(b0.len() as int));
        assert(b2 =~= b1 + b2.skip(b1.len() as int));
        assert(b3 =~= b2 + b3.skip(b2.len() as int));
        assert(b3 =~= start + (((Seq::<u8>::empty() + b1.skip(b0.len() as int)) + b2.skip(b1.len() as int)) + b3.skip(b2.len() as int)));
    }
    Ok(())
}

fn encode_unsubscribe(msg: &ControlMessage, buf: &mut Vec<u8>) -> (r: Result<(), CodecError>)
    requires
        msg is Unsubscribe,
        fields_fit(msg@.fields),
    ensures
        match enc_fields(schema(msg@.message_type), msg@.fields) {
            Ok(b) => r == Ok::<(), CodecError>(()) && final(buf)@ == old(buf)@ + b,
            Err(e) => r == Err::<(), CodecError>(e),
        },
{
    proof {
        reveal_with_fuel(enc_fields, 2);
        assert(field_fits(msg@.fields[0]));
    }
    let ghost start = buf@;
    let m = match msg { ControlMessage::Unsubscribe(m) => m, _ => { proof { assert(false); } return Err(CodecError::InvalidField); } };
    let ghost b0 = buf@;
    put_varint(m.request_id, buf)?;
    let ghost b1 = buf@;
    proof {
        assert(b1 =~= b0 + b1.skip(b0.len() as int));
        assert(b1 =~= start + (Seq::<u8>::empty() + b1.skip(b0.len() as int)));
    }
    Ok(())
}

fn encode_publish(msg: &ControlMessage, buf: &mut Vec<u8>) -> (r: Result<(), CodecError>)
    requires
        msg is Publish,
        fields_fit(msg@.fields),
    ensures
        match enc_fields(schema(msg@.message_type), msg@.fields) {
            Ok(b) => r == Ok::<(), CodecError>(()) && final(buf)@ == old(buf)@ + b,
            Err(e) => r == Err::<(), CodecError>(e),
        },
{
    proof {
        reveal_with_fuel(enc_fields, 6);
        assert(field_fits(msg@.fields[0]));
        assert(field_fits(msg@.fields[1]));
        assert(field_fits(msg@.fields[2]));
        assert(field_fits(msg@.fields[3]));
        assert(field_fits(msg@.fields[4]));
    }
    let ghost start = buf@;
    let m = match msg { ControlMessage::Publish(m) => m, _ => { proof { assert(false); } return Err(CodecError::InvalidField); } };
    let ghost b0 = buf@;
    put_varint(m.request_id, buf)?;
    let ghost b1 = buf@;
    put_namespace(&m.track_namespace, 1, buf)?;
    let ghost b2 = buf@;
    put_track_name(&m.track_namespace, &m.track_name, buf)?;
    let ghost b3 = buf@;
    put_varint(m.track_alias, buf)?;
    let ghost b4 = buf@;
    encode_parameters_in(m.parameters.as_slice(), true, buf)?;
    let ghost b5 = buf@;
    proof {
        assert(b1 =~= b0 + b1.skip(b0.len() as int));
        assert(b2 =~= b1 + b2.skip(b1.len() as int));
        assert(b3 =~= b2 + b3.skip(b2.len() as int));
        assert(b4 =~= b3 + b4.skip(b3.len() as int));
        assert(b5 =~= b4 + b5.skip(b4.len() as int));
        assert(b5 =~= start + (((((Seq::<u8>::empty() + b1.skip(b0.len() as int)) + b2.skip(b1.len() as int)) + b3.skip(b2.len() as int)) + b4.skip(b3.len() as int)) + b5.skip(b4.len() as int)));
    }
    Ok(())
}

fn encode_publish_ok(msg: &ControlMessage, buf: &mut Vec<u8>) -> (r: Result<(), CodecError>)
    requires
        msg is PublishOk,
        fields_fit(msg@.fields),
    ensures
        match enc_fields(schema(msg@.message_type), msg@.fields) {
            Ok(b) => r == Ok::<(), CodecError>(()) && final(buf)@ == old(buf)@ + b,
            Err(e) => r == Err::<(), CodecError>(e),
        },
{
    proof {
        reveal_with_fuel(enc_fields, 3);
        assert(field_fits(msg@.fields[0]));
        assert(field_fits(msg@.fields[1]));
    }
    let ghost start = buf@;
    let m = match msg { ControlMessage::PublishOk(m) => m, _ => { proof { assert(false); } return Err(CodecError::InvalidField); } };
    let ghost b0 = buf@;
    put_varint(m.request_id, buf)?;
    let ghost b1 = buf@;
    encode_parameters_in(m.parameters.as_slice(), true, buf)?;
    let ghost b2 = buf@;
    proof {
        assert(b1 =~= b0 + b1.skip(b0.len() as int));
        assert(b2 =~= b1 + b2.skip(b1.len() as int));
        assert(b2 =~= start + ((Seq::<u8>::empty() + b1.skip(b0.len() as int)) + b2.skip(b1.len() as int)));
    }
    Ok(())
}

fn encode_publish_done(msg: &ControlMessage, buf: &mut Vec<u8>) -> (r: Result<(), CodecError>)
    requires
        msg is PublishDone,
        fields_fit(msg@.fields),
    ensures
        match enc_fields(schema(msg@.message_type), msg@.fields) {
            Ok(b) => r == Ok::<(), CodecError>(()) && final(buf)@ == old(buf)@ + b,
            Err(e) => r == Err::<(), CodecError>(e),
        },
{
    proof {
        reveal_with_fuel(enc_fields, 5);
        assert(field_fits(msg@.fields[0]));
        assert(field_fits(msg@.fields[1]));
        assert(field_fits(msg@.fields[2]));
        assert(field_fits(msg@.fields[3]));
    }
    let ghost start = buf@;
    let m = match msg { ControlMessage::PublishDone(m) => m, _ => { proof { assert(false); } return Err(CodecError::InvalidField); } };
    let ghost b0 = buf@;
    put_varint(m.request_id, buf)?;
    let ghost b1 = buf@;
    put_varint(m.status_code, buf)?;
    let ghost b2 = buf@;
    put_varint(m.stream_count, buf)?;
    let ghost b3 = buf@;
    put_capped_bytes(&m.reason_phrase, MAX_REASON_PHRASE_LENGTH as u64, CodecError::ReasonPhraseTooLong, buf)?;
    let ghost b4 = buf@;
    proof {
        assert(b1 =~= b0 + b1.skip(b0.len() as int));
        assert(b2 =~= b1 + b2.skip(b1.len() as int));
        assert(b3 =~= b2 + b3.skip(b2.len() as int));
        assert(b4 =~= b3 + b4.skip(b3.len() as int));
        assert(b4 =~= start + ((((Seq::<u8>::empty() + b1.skip(b0.len() as int)) + b2.skip(b1.len() as int)) + b3.skip(b2.len() as int)) + b4.skip(b3.len() as int)));
    }
    Ok(())
}

fn encode_publish_namespace(msg: &ControlMessage, buf: &mut Vec<u8>) -> (r: Result<(), CodecError>)
    requires
        msg is PublishNamespace,
        fields_fit(msg@.fields),
    ensures
        match enc_fields(schema(msg@.message_type), msg@.fields) {
            Ok(b) => r == Ok::<(), CodecError>(()) && final(buf)@ == old(buf)@ + b,
            Err(e) => r == Err::<(), CodecError>(e),
        },
{
    proof {
        reveal_with_fuel(enc_fields, 4);
        assert(field_fits(msg@.fields[0]));
        assert(field_fits(msg@.fields[1]));
        assert(field_fits(msg@.fields[2]));
    }
    let ghost start = buf@;
    let m = match msg { ControlMessage::PublishNamespace(m) => m, _ => { proof { assert(false); } return Err(CodecError::InvalidField); } };
    let ghost b0 = buf@;
    put_varint(m.request_id, buf)?;
    let ghost b1 = buf@;
    put_namespace(&m.track_namespace, 1, buf)?;
    let ghost b2 = buf@;
    encode_parameters_in(m.parameters.as_slice(), true, buf)?;
    let ghost b3 = buf@;
    proof {
        assert(b1 =~= b0 + b1.skip(b0.len() as int));
        assert(b2 =~= b1 + b2.skip(b1.len() as int));
        assert(b3 =~= b2 + b3.skip(b2.len() as int));
        assert(b3 =~= start + (((Seq::<u8>::empty() + b1.skip(b0.len() as int)) + b2.skip(b1.len() as int)) + b3.skip(b2.len() as int)));
    }
    Ok(())
}

fn encode_publish_namespace_done(msg: &ControlMessage, buf: &mut Vec<u8>) -> (r: Result<(), CodecError>)
    requires
        msg is PublishNamespaceDone,
        fields_fit(msg@.fields),
    ensures
        match enc_fields(schema(msg@.message_type), msg@.fields) {
            Ok(b) => r == Ok::<(), CodecError>(()) && final(buf)@ == old(buf)@ + b,
            Err(e) => r == Err::<(), CodecError>(e),
        },
{
    proof {
        reveal_with_fuel(enc_fields, 2);
        assert(field_fits(msg@.fields[0]));
    }
    let ghost start = buf@;
    let m = match msg { ControlMessage::PublishNamespaceDone(m) => m, _ => { proof { assert(false); } return Err(CodecError::InvalidField); } };
    let ghost b0 = buf@;
    put_namespace(&m.track_namespace, 1, buf)?;
    let ghost b1 = buf@;
    proof {
        assert(b1 =~= b0 + b1.skip(b0.len() as int));
        assert(b1 =~= start + (Seq::<u8>::empty() + b1.skip(b0.len() as int)));
    }
    Ok(())
}

fn encode_publish_namespace_cancel(msg: &ControlMessage, buf: &mut Vec<u8>) -> (r: Result<(), CodecError>)
    requires
        msg is PublishNamespaceCancel,
        fields_fit(msg@.fields),
    ensures
        match enc_fields(schema(msg@.message_type), msg@.fields) {
            Ok(b) => r == Ok::<(), CodecError>(()) && final(buf)@ == old(buf)@ + b,
            Err(e) => r == Err::<(), CodecError>(e),
        },
{
    proof {
        reveal_with_fuel(enc_fields, 4);
        assert(field_fits(msg@.fields[0]));
        assert(field_fits(msg@.fields[1]));
        assert(field_fits(msg@.fields[2]));
    }
    let ghost start = buf@;
    let m = match msg { ControlMessage::PublishNamespaceCancel(m) => m, _ => { proof { assert(false); } return Err(CodecError::InvalidField); } };
    let ghost b0 = buf@;
    put_namespace(&m.track_namespace, 1, buf)?;
    let ghost b1 = buf@;
    put_varint(m.error_code, buf)?;
    let ghost b2 = buf@;
    put_capped_bytes(&m.reason_phrase, MAX_REASON_PHRASE_LENGTH as u64, CodecError::ReasonPhraseTooLong, buf)?;
    let ghost b3 = buf@;
    proof {
        assert(b1 =~= b0 + b1.skip(b0.len() as int));
        assert(b2 =~= b1 + b2.skip(b1.len() as int));
        assert(b3 =~= b2 + b3.skip(b2.len() as int));
        assert(b3 =~= start + (((Seq::<u8>::empty() + b1.skip(b0.len() as int)) + b2.skip(b1.len() as int)) + b3.skip(b2.len() as int)));
    }
    Ok(())
}

fn encode_subscribe_namespace(msg: &ControlMessage, buf: &mut Vec<u8>) -> (r: Result<(), CodecError>)
    requires
        msg is SubscribeNamespace,
        fields_fit(msg@.fields),
    ensures
        match enc_fields(schema(msg@.message_type), msg@.fields) {
            Ok(b) => r == Ok::<(), CodecError>(()) && final(buf)@ == old(buf)@ + b,
            Err(e) => r == Err::<(), CodecError>(e),
        },
{
    proof {
        reveal_with_fuel(enc_fields, 4);
        assert(field_fits(msg@.fields[0]));
        assert(field_fits(msg@.fields[1]));
        assert(field_fits(msg@.fields[2]));
    }
    let ghost start = buf@;
    let m = match msg { ControlMessage::SubscribeNamespace(m) => m, _ => { proof { assert(false); } return Err(CodecError::InvalidField); } };
    let ghost b0 = buf@;
    put_varint(m.request_id, buf)?;
    let ghost b1 = buf@;
    put_namespace(&m.namespace_prefix, 1, buf)?;
    let ghost b2 = buf@;
    encode_parameters_in(m.parameters.as_slice(), true, buf)?;
    let ghost b3 = buf@;
    proof {
        assert(b1 =~= b0 + b1.skip(b0.len() as int));
        assert(b2 =~= b1 + b2.skip(b1.len() as int));
        assert(b3 =~= b2 + b3.skip(b2.len() as int));
        assert(b3 =~= start + (((Seq::<u8>::empty() + b1.skip(b0.len() as int)) + b2.skip(b1.len() as int)) + b3.skip(b2.len() as int)));
    }
    Ok(())
}

fn encode_unsubscribe_namespace(msg: &ControlMessage, buf: &mut Vec<u8>) -> (r: Result<(), CodecError>)
    requires
        msg is UnsubscribeNamespace,
        fields_fit(msg@.fields),
    ensures
        match enc_fields(schema(msg@.message_type), msg@.fields) {
            Ok(b) => r == Ok::<(), CodecError>(()) && final(buf)@ == old(buf)@ + b,
            Err(e) => r == Err::<(), CodecError>(e),
        },
{
    proof {
        reveal_with_fuel(enc_fields, 2);
        assert(field_fits(msg@.fields[0]));
    }
    let ghost start = buf@;
    let m = match msg { ControlMessage::UnsubscribeNamespace(m) => m, _ => { proof { assert(false); } return Err(CodecError::InvalidField); } };
    let ghost b0 = buf@;
    put_varint(m.request_id, buf)?;
    let ghost b1 = buf@;
    proof {
        assert(b1 =~= b0 + b1.skip(b0.len() as int));
        assert(b1 =~= start + (Seq::<u8>::empty() + b1.skip(b0.len() as int)));
    }
    Ok(())
}

fn encode_track_status(msg: &ControlMessage, buf: &mut Vec<u8>) -> (r: Result<(), CodecError>)
    requires
        msg is TrackStatus,
        fields_fit(msg@.fields),
    ensures
        match enc_fields(schema(msg@.message_type), msg@.fields) {
            Ok(b) => r == Ok::<(), CodecError>(()) && final(buf)@ == old(buf)@ + b,
            Err(e) => r == Err::<(), CodecError>(e),
        },
{
    proof {
        reveal_with_fuel(enc_fields, 5);
        assert(field_fits(msg@.fields[0]));
        assert(field_fits(msg@.fields[1]));
        assert(field_fits(msg@.fields[2]));
        assert(field_fits(msg@.fields[3]));
    }
    let ghost start = buf@;
    let m = match msg { ControlMessage::TrackStatus(m) => m, _ => { proof { assert(false); } return Err(CodecError::InvalidField); } };
    let ghost b0 = buf@;
    put_varint(m.request_id, buf)?;
    let ghost b1 = buf@;
    put_namespace(&m.track_namespace, 1, buf)?;
    let ghost b2 = buf@;
    put_track_name(&m.track_namespace, &m.track_name, buf)?;
    let ghost b3 = buf@;
    encode_parameters_in(m.parameters.as_slice(), true, buf)?;
    let ghost b4 = buf@;
    proof {
        assert(b1 =~= b0 + b1.skip(b0.len() as int));
        assert(b2 =~= b1 + b2.skip(b1.len() as int));
        assert(b3 =~= b2 + b3.skip(b2.len() as int));
        assert(b4 =~= b3 + b4.skip(b3.len() as int));
        assert(b4 =~= start + ((((Seq::<u8>::empty() + b1.skip(b0.len() as int)) + b2.skip(b1.len() as int)) + b3.skip(b2.len() as int)) + b4.skip(b3.len() as int)));
    }
    Ok(())
}

fn encode_fetch(msg: &ControlMessage, buf: &mut Vec<u8>) -> (r: Result<(), CodecError>)
    requires
        msg is Fetch,
        fields_fit(msg@.fields),
    ensures
        match enc_fields(schema(msg@.message_type), msg@.fields) {
            Ok(b) => r == Ok::<(), CodecError>(()) && final(buf)@ == old(buf)@ + b,
            Err(e) => r == Err::<(), CodecError>(e),
        },
{
    proof {
        reveal_with_fuel(enc_fields, 4);
        assert(field_fits(msg@.fields[0]));
        assert(field_fits(msg@.fields[1]));
        assert(field_fits(msg@.fields[2]));
    }
    let ghost start = buf@;
    let m = match msg { ControlMessage::Fetch(m) => m, _ => { proof { assert(false); } return Err(CodecError::InvalidField); } };
    let ghost b0 = buf@;
    put_varint(m.request_id, buf)?;
    let ghost b1 = buf@;
    put_fetch_body(m.fetch_type, &m.fetch_payload, buf)?;
    let ghost b2 = buf@;
    encode_parameters_in(m.parameters.as_slice(), true, buf)?;
    let ghost b3 = buf@;
    proof {
        assert(b1 =~= b0 + b1.skip(b0.len() as int));
        assert(b2 =~= b1 + b2.skip(b1.len() as int));
        assert(b3 =~= b2 + b3.skip(b2.len() as int));
        assert(b3 =~= start + (((Seq::<u8>::empty() + b1.skip(b0.len() as int)) + b2.skip(b1.len() as int)) + b3.skip(b2.len() as int)));
    }
    Ok(())
}

fn encode_fetch_ok(msg: &ControlMessage, buf: &mut Vec<u8>) -> (r: Result<(), CodecError>)
    requires
        msg is FetchOk,
        fields_fit(msg@.fields),
    ensures
        match enc_fields(schema(msg@.message_type), msg@.fields) {
            Ok(b) => r == Ok::<(), CodecError>(()) && final(buf)@ == old(buf)@ + b,
            Err(e) => r == Err::<(), CodecError>(e),
        },
{
    proof {
        reveal_with_fuel(enc_fields, 6);
        assert(field_fits(msg@.fields[0]));
        assert(field_fits(msg@.fields[1]));
        assert(field_fits(msg@.fields[2]));
        assert(field_fits(msg@.fields[3]));
        assert(field_fits(msg@.fields[4]));
    }
    let ghost start = buf@;
    let m = match msg { ControlMessage::FetchOk(m) => m, _ => { proof { assert(false); } return Err(CodecError::InvalidField); } };
    let ghost b0 = buf@;
    put_varint(m.request_id, buf)?;
    let ghost b1 = buf@;
    put_u8(m.end_of_track, buf)?;
    let ghost b2 = buf@;
    put_varint(m.end_group, buf)?;
    let ghost b3 = buf@;
    put_varint(m.end_object, buf)?;
    let ghost b4 = buf@;
    encode_parameters_in(m.parameters.as_slice(), true, buf)?;
    let ghost b5 = buf@;
    proof {
        assert(b1 =~= b0 + b1.skip(b0.len() as int));
        assert(b2 =~= b1 + b2.skip(b1.len() as int));
        assert(b3 =~= b2 + b3.skip(b2.len() as int));
        assert(b4 =~= b3 + b4.skip(b3.len() as int));
        assert(b5 =~= b4 + b5.skip(b4.len() as int));
        assert(b5 =~= start + (((((Seq::<u8>::empty() + b1.skip(b0.len() as int)) + b2.skip(b1.len() as int)) + b3.skip(b2.len() as int)) + b4.skip(b3.len() as int)) + b5.skip(b4.len() as int)));
    }
    Ok(())
}

fn encode_fetch_cancel(msg: &ControlMessage, buf: &mut Vec<u8>) -> (r: Result<(), CodecError>)
    requires
        msg is FetchCancel,
        fields_fit(msg@.fields),
    ensures
        match enc_fields(schema(msg@.message_type), msg@.fields) {
            Ok(b) => r == Ok::<(), CodecError>(()) && final(buf)@ == old(buf)@ + b,
            Err(e) => r == Err::<(), CodecError>(e),
        },
{
    proof {
        reveal_with_fuel(enc_fields, 2);
        assert(field_fits(msg@.fields[0]));
    }
    let ghost start = buf@;
    let m = match msg { ControlMessage::FetchCancel(m) => m, _ => { proof { assert(false); } return Err(CodecError::InvalidField); } };
    let ghost b0 = buf@;
    put_varint(m.request_id, buf)?;
    let ghost b1 = buf@;
    proof {
        assert(b1 =~= b0 + b1.skip(b0.len() as int));
        assert(b1 =~= start + (Seq::<u8>::empty() + b1.skip(b0.len() as int)));
    }
    Ok(())
}

/// Encode the payload of `msg`: its fields, in wire order, appended to
/// `buf`. A field the writer refuses stops the write part way.
pub fn encode_payload(msg: &ControlMessage, buf: &mut Vec<u8>) -> (r: Result<(), CodecError>)
    requires
        fields_fit(msg@.fields),
    ensures
        match enc_fields(schema(msg@.message_type), msg@.fields) {
            Ok(b) => r == Ok::<(), CodecError>(()) && final(buf)@ == old(buf)@ + b,
            Err(e) => r == Err::<(), CodecError>(e),
        },
{
    match msg {
        ControlMessage::ClientSetup(_) => encode_client_setup(msg, buf),
        ControlMessage::ServerSetup(_) => encode_server_setup(msg, buf),
        ControlMessage::GoAway(_) => encode_go_away(msg, buf),
        ControlMessage::MaxRequestId(_) => encode_max_request_id(msg, buf),
        ControlMessage::RequestsBlocked(_) => encode_requests_blocked(msg, buf),
        ControlMessage::RequestOk(_) => encode_request_ok(msg, buf),
        ControlMessage::RequestError(_) => encode_request_error(msg, buf),
        ControlMessage::Subscribe(_) => encode_subscribe(msg, buf),
        ControlMessage::SubscribeOk(_) => encode_subscribe_ok(msg, buf),
        ControlMessage::SubscribeUpdate(_) => encode_subscribe_update(msg, buf),
        ControlMessage::Unsubscribe(_) => encode_unsubscribe(msg, buf),
        ControlMessage::Publish(_) => encode_publish(msg, buf),
        ControlMessage::PublishOk(_) => encode_publish_ok(msg, buf),
        ControlMessage::PublishDone(_) => encode_publish_done(msg, buf),
        ControlMessage::PublishNamespace(_) => encode_publish_namespace(msg, buf),
        ControlMessage::PublishNamespaceDone(_) => encode_publish_namespace_done(msg, buf),
        ControlMessage::PublishNamespaceCancel(_) => encode_publish_namespace_cancel(msg, buf),
        ControlMessage::SubscribeNamespace(_) => encode_subscribe_namespace(msg, buf),
        ControlMessage::UnsubscribeNamespace(_) => encode_unsubscribe_namespace(msg, buf),
        ControlMessage::TrackStatus(_) => encode_track_status(msg, buf),
        ControlMessage::Fetch(_) => encode_fetch(msg, buf),
        ControlMessage::FetchOk(_) => encode_fetch_ok(msg, buf),
        ControlMessage::FetchCancel(_) => encode_fetch_cancel(msg, buf),
    }
}

// ── Checks across fields ─────────────────────────────────────

/// Whether a range ending at (`eg`, `eo`) ends no earlier than it starts at
/// (`sg`, `so`). The End Object is one past the last Object, and zero asks
/// for the whole End Group.
pub open spec fn spec_location_range_ok(sg: u64, so: u64, eg: u64, eo: u64) -> bool {
    eg > sg || (eg == sg && (eo == 0 || eo > so))
}

/// Refuse a range that ends before it starts.
pub fn check_location_range(sg: u64, so: u64, eg: u64, eo: u64) -> (r: Result<(), CodecError>)
    ensures
        r == (if spec_location_range_ok(sg, so, eg, eo) {
            Ok::<(), CodecError>(())
        } else {
            Err::<(), CodecError>(CodecError::InvalidField)
        }),
{
    if eg > sg || (eg == sg && (eo == 0 || eo > so)) {
        Ok(())
    } else {
        Err(CodecError::InvalidField)
    }
}

/// The range rule on a message: a standalone FETCH may not end before it
/// starts; nothing else on this draft carries a range it can see.
pub open spec fn spec_check_ranges(m: ControlMessageView) -> Result<(), CodecError> {
    if m.message_type == MessageType::Fetch && m.fields.len() == 3 {
        match m.fields[1] {
            Field::FetchBody { payload: FetchPayloadView::Standalone { start_group, start_object, end_group, end_object, .. }, .. } =>
                if spec_location_range_ok(start_group, start_object, end_group, end_object) {
                Ok(())
            } else {
                Err(CodecError::InvalidField)
            },
            _ => Ok(()),
        }
    } else {
        Ok(())
    }
}

/// Refuse a standalone FETCH whose range ends before it starts.
pub fn check_ranges(message: &ControlMessage) -> (r: Result<(), CodecError>)
    ensures
        r == spec_check_ranges(message@),
{
    match message {
        ControlMessage::Fetch(m) => match &m.fetch_payload {
            FetchPayload::Standalone { start_group, start_object, end_group, end_object, .. } => check_location_range(
                start_group.into_inner(),
                start_object.into_inner(),
                end_group.into_inner(),
                end_object.into_inner(),
            ),
            FetchPayload::Joining { .. } => Ok(()),
        },
        _ => Ok(()),
    }
}

/// The discriminator rule on a message: a FETCH's Fetch Type says
/// Standalone exactly when its payload is standalone.
pub open spec fn spec_check_discriminators(m: ControlMessageView) -> Result<(), CodecError> {
    if m.message_type == MessageType::Fetch && m.fields.len() == 3 {
        match m.fields[1] {
            Field::FetchBody { fetch_type, payload } => if (payload is Standalone) == (fetch_type == 1) {
                Ok(())
            } else {
                Err(CodecError::InvalidField)
            },
            _ => Ok(()),
        }
    } else {
        Ok(())
    }
}

// ── Framing ──────────────────────────────────────────────────

/// Whether an error means the fields wanted bytes past the end.
pub open spec fn ran_out(e: CodecError) -> bool {
    e == CodecError::UnexpectedEnd || e == CodecError::Kvp(KvpError::UnexpectedEnd) || e == CodecError::Kvp(
        KvpError::VarInt(VarIntError::UnexpectedEnd),
    ) || e == CodecError::VarInt(VarIntError::UnexpectedEnd)
}

/// What reading a control message at the front of `s` gives: the message
/// and the bytes it took, or why it is refused. Fields that run past the
/// declared length, or leave some of it unread, are a length mismatch.
pub open spec fn spec_decode_control_message(s: Seq<u8>) -> Result<(ControlMessageView, int), CodecError> {
    match rd_varint(s) {
        Err(e) => Err(e),
        Ok((id, s1)) => match MessageType::spec_from_id(id) {
            None => Err(CodecError::UnknownMessageType(id)),
            Some(t) => match rd_u8(s1) {
                Err(e) => Err(e),
                Ok((hi, s2)) => match rd_u8(s2) {
                    Err(e) => Err(e),
                    Ok((lo, s3)) => {
                        let len = hi * 256 + lo;
                        if s3.len() < len {
                            Err(CodecError::UnexpectedEnd)
                        } else {
                            match rd_fields(schema(t), s3.take(len)) {
                                Err(e) => if ran_out(e) {
                                    Err(CodecError::ControlMessageLengthMismatch {
                                        declared: len as usize,
                                        detail: "its fields ran past the end",
                                    })
                                } else {
                                    Err(e)
                                },
                                Ok((vs, rest)) => {
                                    let m = ControlMessageView { message_type: t, fields: vs };
                                    match spec_check_ranges(m) {
                                        Err(e) => Err(e),
                                        Ok(()) => if rest.len() > 0 {
                                            Err(CodecError::ControlMessageLengthMismatch {
                                                declared: len as usize,
                                                detail: "its fields left bytes unread",
                                            })
                                        } else {
                                            Ok((m, s.len() - s3.len() + len))
                                        },
                                    }
                                },
                            }
                        }
                    },
                },
            },
        },
    }
}

/// What writing `m` gives: its type, its payload's length as 16 bits and
/// its payload, or why it is refused.
pub open spec fn spec_encode_control_message(m: ControlMessageView) -> Result<Seq<u8>, CodecError> {
    match spec_check_ranges(m) {
        Err(e) => Err(e),
        Ok(()) => match spec_check_discriminators(m) {
            Err(e) => Err(e),
            Ok(()) => match enc_fields(schema(m.message_type), m.fields) {
                Err(e) => Err(e),
                Ok(p) => if p.len() > MAX_MESSAGE_LENGTH {
                    Err(CodecError::MessageTooLong(p.len() as usize))
                } else {
                    Ok(spec_varint_encode(m.message_type.spec_id()) + (seq![(p.len() / 256) as u8, (p.len() % 256) as u8] + p))
                },
            },
        },
    }
}

impl ControlMessage {
    /// Decode one control message from the start of `buf`, with the number
    /// of bytes it took.
    pub fn decode(buf: &[u8]) -> (r: Result<(ControlMessage, usize), CodecError>)
        ensures
            match spec_decode_control_message(buf@) {
                Ok((m, n)) => (r matches Ok((x, k)) && x@ == m && k == n),
                Err(e) => r == Err::<(ControlMessage, usize), CodecError>(e),
            },
    {
        assert(buf@.skip(0) =~= buf@);
        let (id, p1) = cur_varint(buf, 0)?;
        let t = match MessageType::from_id(id.into_inner()) {
            Some(t) => t,
            None => return Err(CodecError::UnknownMessageType(id.into_inner())),
        };
        let (hi, p2) = cur_u8(buf, p1)?;
        let (lo, p3) = cur_u8(buf, p2)?;
        let len: usize = (hi as usize) * 256 + (lo as usize);
        if buf.len() - p3 < len {
            return Err(CodecError::UnexpectedEnd);
        }
        let payload = slice_subrange(buf, p3, p3 + len);
        proof {
            assert(payload@ =~= buf@.skip(p3 as int).take(len as int));
        }
        match decode_payload(t, payload) {
            Err(e) => {
                let ran = match e {
                    CodecError::UnexpectedEnd => true,
                    CodecError::Kvp(KvpError::UnexpectedEnd) => true,
                    CodecError::Kvp(KvpError::VarInt(VarIntError::UnexpectedEnd)) => true,
                    CodecError::VarInt(VarIntError::UnexpectedEnd) => true,
                    _ => false,
                };
                if ran {
                    return Err(CodecError::ControlMessageLengthMismatch {
                        declared: len,
                        detail: "its fields ran past the end",
                    });
                }
                Err(e)
            },
            Ok((m, n)) => {
                check_ranges(&m)?;
                if n != len {
                    return Err(CodecError::ControlMessageLengthMismatch {
                        declared: len,
                        detail: "its fields left bytes unread",
                    });
                }
                proof {
                    assert(payload@.skip(n as int) =~= Seq::<u8>::empty());
                }
                Ok((m, p3 + len))
            },
        }
    }

    /// Encode this message: its type, its payload's length as 16 bits and
    /// its payload. On an error nothing is written.
    pub fn encode(&self, buf: &mut Vec<u8>) -> (r: Result<(), CodecError>)
        requires
            fields_fit(self@.fields),
        ensures
            match spec_encode_control_message(self@) {
                Ok(b) => r == Ok::<(), CodecError>(()) && final(buf)@ == old(buf)@ + b,
                Err(e) => r == Err::<(), CodecError>(e) && final(buf)@ == old(buf)@,
            },
    {
        check_ranges(self)?;
        let d = check_discriminators(self);
        proof {
            assert(spec_discriminators_agree(*self) == (spec_check_discriminators(self@) is Ok));
        }
        d?;
        let mut payload: Vec<u8> = Vec::new();
        encode_payload(self, &mut payload)?;
        if payload.len() > MAX_MESSAGE_LENGTH {
            return Err(CodecError::MessageTooLong(payload.len()));
        }
        let t = self.message_type();
        let ghost start = buf@;
        VarInt::from_usize(t.id() as usize).encode(buf);
        let len = payload.len();
        buf.push((len / 256) as u8);
        buf.push((len % 256) as u8);
        put_slice(buf, payload.as_slice());
        proof {
            assert(payload@ =~= Seq::<u8>::empty() + payload@);
            assert(buf@ =~= start + (spec_varint_encode(self@.message_type.spec_id()) + (seq![(len / 256) as u8, (len % 256) as u8] + payload@)));
        }
        Ok(())
    }
}

// ── Reading back what was written ────────────────────────────

/// Whether the reader gives a field back as the writer wrote it: its
/// integers are variable-length integers, its lengths fit, its pairs have
/// the shape their Types' parity gives. A FETCH's Fetch Type is assigned and agrees with its
/// payload.
pub open spec fn field_reads_back(k: FieldKind, v: Field) -> bool {
    &&& field_fits(v)
    &&& match v {
        Field::Int(x) => x < VARINT_BOUND,
        Field::Pairs(ps) => pairs_read_back(ps),
        Field::FetchBody { fetch_type, payload } => {
            &&& FetchType::spec_from_u64(fetch_type) is Some
            &&& (payload is Standalone) == (fetch_type == 1)
            &&& match payload {
                FetchPayloadView::Standalone { start_group, start_object, end_group, end_object, .. } =>
                    start_group < VARINT_BOUND && start_object < VARINT_BOUND && end_group < VARINT_BOUND
                    && end_object < VARINT_BOUND,
                FetchPayloadView::Joining { joining_request_id, joining_start } => joining_request_id
                    < VARINT_BOUND && joining_start < VARINT_BOUND,
            }
        },
        _ => true,
    }
}

proof fn lemma_len_bytes_split(b: Seq<u8>, rest: Seq<u8>)
    ensures
        enc_len_bytes(b) + rest == spec_varint_encode(b.len() as u64) + (b + rest),
{
    assert(enc_len_bytes(b) + rest =~= spec_varint_encode(b.len() as u64) + (b + rest));
}

/// A FETCH's Fetch Type and payload, as written, are read back.
#[verifier::rlimit(100)]
#[verifier::spinoff_prover]
proof fn lemma_fetch_body_roundtrip(fetch_type: u64, payload: FetchPayloadView, rest: Seq<u8>)
    requires
        enc_fetch_body(fetch_type, payload) is Ok,
        field_reads_back(FieldKind::FetchBody, Field::FetchBody { fetch_type, payload }),
    ensures
        rd_fetch_body(enc_fetch_body(fetch_type, payload)->Ok_0 + rest) == Ok::<(Field, Seq<u8>), CodecError>((Field::FetchBody { fetch_type, payload }, rest)),
{
    broadcast use group_cursor;
            match payload {
                FetchPayloadView::Standalone { track_namespace, track_name, start_group, start_object, end_group, end_object } => {
                    let nb = enc_namespace(track_namespace);
                    let tb = enc_len_bytes(track_name);
                    let y4 = spec_varint_encode(end_object) + rest;
                    let y3 = spec_varint_encode(end_group) + y4;
                    let y2 = spec_varint_encode(start_object) + y3;
                    let y1 = spec_varint_encode(start_group) + y2;
                    let x1 = tb + y1;
                    let s = spec_varint_encode(fetch_type) + (nb + x1);
                    assert(enc_fetch_body(fetch_type, payload)->Ok_0 + rest =~= s);
                    assert(rd_varint(s) == Ok::<(u64, Seq<u8>), CodecError>((fetch_type, nb + x1)));
                    lemma_namespace_roundtrip(track_namespace, x1, 1, false);
                    lemma_rd_len_bytes(track_name, y1);
                    assert(rd_name(track_namespace, x1) == Ok::<(Seq<u8>, Seq<u8>), CodecError>((track_name, y1)));
                    assert(rd_varint(y1) == Ok::<(u64, Seq<u8>), CodecError>((start_group, y2)));
                    assert(rd_varint(y2) == Ok::<(u64, Seq<u8>), CodecError>((start_object, y3)));
                    assert(rd_varint(y3) == Ok::<(u64, Seq<u8>), CodecError>((end_group, y4)));
                    assert(rd_varint(y4) == Ok::<(u64, Seq<u8>), CodecError>((end_object, rest)));
                },
                FetchPayloadView::Joining { joining_request_id, joining_start } => {
                    assert(enc_fetch_body(fetch_type, payload)->Ok_0 + rest =~= spec_varint_encode(fetch_type) + (spec_varint_encode(joining_request_id)
                        + (spec_varint_encode(joining_start) + rest)));
                },
            }
}

/// A field the writer accepts and the reader gives back is read back as
/// written, whatever follows it.
#[verifier::rlimit(80)]
#[verifier::spinoff_prover]
pub proof fn lemma_field_roundtrip(k: FieldKind, prior: Seq<Field>, v: Field, rest: Seq<u8>)
    requires
        enc_field(k, prior, v) is Ok,
        field_reads_back(k, v),
    ensures
        rd_field(k, prior, enc_field(k, prior, v)->Ok_0 + rest) == Ok::<(Field, Seq<u8>), CodecError>((v, rest)),
{
    broadcast use group_cursor;
    match (k, v) {
        (FieldKind::Uri, Field::Bytes(b)) => {
            lemma_len_bytes_split(b, rest);
            assert(rd_capped_bytes(enc_len_bytes(b) + rest, MAX_GOAWAY_URI_LENGTH as u64, CodecError::GoAwayUriTooLong) == Ok::<(Seq<u8>, Seq<u8>), CodecError>((b, rest)));
        },
        (FieldKind::Reason, Field::Bytes(b)) => {
            lemma_len_bytes_split(b, rest);
            assert(rd_capped_bytes(enc_len_bytes(b) + rest, MAX_REASON_PHRASE_LENGTH as u64, CodecError::ReasonPhraseTooLong) == Ok::<(Seq<u8>, Seq<u8>), CodecError>((b, rest)));
        },
        (FieldKind::Name, Field::Bytes(b)) => {
            lemma_len_bytes_split(b, rest);
            assert(rd_len_bytes(enc_len_bytes(b) + rest) == Ok::<(Seq<u8>, Seq<u8>), CodecError>((b, rest)));
        },
        (FieldKind::Ns, Field::Ns(fs)) => lemma_namespace_roundtrip(fs, rest, 1, false),
        (FieldKind::Params, Field::Pairs(ps)) => lemma_params_roundtrip(ps, true, rest),
        (FieldKind::SetupParams, Field::Pairs(ps)) => lemma_params_roundtrip(ps, false, rest),
        (FieldKind::FetchBody, Field::FetchBody { fetch_type, payload }) => lemma_fetch_body_roundtrip(fetch_type, payload, rest),
        _ => {},
    }
}

/// Fields the writer accepts and the reader gives back are read back as
/// written, whatever follows them.
pub proof fn lemma_fields_roundtrip(kinds: Seq<FieldKind>, vs: Seq<Field>, rest: Seq<u8>)
    requires
        vs.len() == kinds.len(),
        enc_fields(kinds, vs) is Ok,
        forall|i: int| 0 <= i < kinds.len() ==> field_reads_back(#[trigger] kinds[i], vs[i]),
    ensures
        rd_fields(kinds, enc_fields(kinds, vs)->Ok_0 + rest) == Ok::<(Seq<Field>, Seq<u8>), CodecError>((vs, rest)),
    decreases kinds.len(),
{
    if kinds.len() == 0 {
        assert(vs =~= Seq::<Field>::empty());
        assert(Seq::<u8>::empty() + rest =~= rest);
    } else {
        let ki = kinds.drop_last();
        let vi = vs.drop_last();
        let k = kinds.last();
        let v = vs.last();
        let b = enc_fields(ki, vi)->Ok_0;
        let c = enc_field(k, vi, v)->Ok_0;
        assert(field_reads_back(kinds[kinds.len() - 1], vs[kinds.len() - 1]));
        assert forall|i: int| 0 <= i < ki.len() implies field_reads_back(#[trigger] ki[i], vi[i]) by {
            assert(field_reads_back(kinds[i], vs[i]));
        }
        lemma_fields_roundtrip(ki, vi, c + rest);
        lemma_field_roundtrip(k, vi, v, rest);
        assert(enc_fields(kinds, vs)->Ok_0 + rest =~= b + (c + rest));
        assert(vi.push(v) =~= vs);
    }
}

/// Whether every field of a message of type `t` reads back.
pub open spec fn message_reads_back(m: ControlMessageView) -> bool {
    &&& m.fields.len() == schema(m.message_type).len()
    &&& forall|i: int| 0 <= i < m.fields.len() ==> field_reads_back(#[trigger] schema(m.message_type)[i], m.fields[i])
}

proof fn lemma_schema_shape(t: MessageType)
    ensures
        schema(t).len() > 0,
        schema(t).len() <= 6,
{
}

proof fn lemma_length_bytes(len: nat)
    requires
        len <= 65535,
    ensures
        ((len / 256) as u8) * 256 + ((len % 256) as u8) == len,
{
    assert((len / 256) as u8 == len / 256);
    assert((len % 256) as u8 == len % 256);
}

/// A message the writer accepts, whose fields the reader gives back, is
/// read back as the same message, taking every byte written.
pub proof fn lemma_control_message_roundtrip(m: ControlMessageView, rest: Seq<u8>)
    requires
        spec_encode_control_message(m) is Ok,
        message_reads_back(m),
    ensures
        spec_decode_control_message(spec_encode_control_message(m)->Ok_0 + rest) == Ok::<(ControlMessageView, int), CodecError>(
            (m, spec_encode_control_message(m)->Ok_0.len() as int),
        ),
{
    broadcast use group_cursor;
    let t = m.message_type;
    let p = enc_fields(schema(t), m.fields)->Ok_0;
    let len = p.len();
    lemma_schema_shape(t);
    assert forall|i: int| 0 <= i < schema(t).len() implies field_reads_back(#[trigger] schema(t)[i], m.fields[i]) by {}
    lemma_fields_roundtrip(schema(t), m.fields, Seq::empty());
    assert(p + Seq::<u8>::empty() =~= p);
    lemma_length_bytes(len);
    let hi = (len / 256) as u8;
    let lo = (len % 256) as u8;
    let e = spec_encode_control_message(m)->Ok_0;
    assert(e + rest =~= spec_varint_encode(t.spec_id()) + (seq![hi] + (seq![lo] + (p + rest))));
    assert(t.spec_id() < VARINT_BOUND);
    assert(MessageType::spec_from_id(t.spec_id()) == Some(t));
    assert((p + rest).take(len as int) =~= p);
    assert(e.len() == spec_varint_encode(t.spec_id()).len() + 2 + len);
}

} // verus!
