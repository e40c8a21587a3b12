//! Draft-15 control messages: the message types and their wire IDs, the
//! message structures, and the checks a message must pass before it is
//! written.
//!
//! Against draft-14: version negotiation moves to ALPN, so CLIENT_SETUP and
//! SERVER_SETUP carry no versions; REQUEST_OK (0x07) and REQUEST_ERROR (0x05)
//! consolidate the responses; SUBSCRIBE, SUBSCRIBE_OK, PUBLISH and
//! PUBLISH_OK move their fixed fields into parameters. Framing:
//! `type_id(vi) + payload_length(16) + payload`.

use vstd::prelude::*;
use crate::error::{CodecError, MAX_FULL_TRACK_NAME_LENGTH, MAX_REASON_PHRASE_LENGTH};
use crate::kvp::{check_no_repeats, spec_is_repeat, KeyValuePair, KvpValue};
use crate::types::{spec_field_bytes_len, TrackNamespace};
use crate::wire::{read_bytes, read_varint_u64, spec_bytes_at, varint_end};
use crate::varint::{spec_varint_at, VarInt};

verus! {

#[derive(Debug, Clone, Copy, PartialEq, Eq, Structural)]
pub enum MessageType {
    SubscribeUpdate,
    Subscribe,
    SubscribeOk,
    RequestError,
    PublishNamespace,
    RequestOk,
    PublishNamespaceDone,
    Unsubscribe,
    PublishDone,
    PublishNamespaceCancel,
    TrackStatus,
    GoAway,
    SubscribeNamespace,
    UnsubscribeNamespace,
    MaxRequestId,
    Fetch,
    FetchCancel,
    FetchOk,
    RequestsBlocked,
    Publish,
    PublishOk,
    ClientSetup,
    ServerSetup,
}


// ============================================================
// Session Lifecycle Messages
// ============================================================

/// CLIENT_SETUP (0x20). Draft-15: no versions, just parameters.
#[derive(Debug, Clone, PartialEq, Eq)]
pub struct ClientSetup {
    pub parameters: Vec<KeyValuePair>,
}

/// SERVER_SETUP (0x21). Draft-15: no version, just parameters.
#[derive(Debug, Clone, PartialEq, Eq)]
pub struct ServerSetup {
    pub parameters: Vec<KeyValuePair>,
}

#[derive(Debug, Clone, PartialEq, Eq)]
pub struct GoAway {
    pub new_session_uri: Vec<u8>,
}

#[derive(Debug, Clone, PartialEq, Eq)]
pub struct MaxRequestId {
    pub request_id: VarInt,
}

#[derive(Debug, Clone, PartialEq, Eq)]
pub struct RequestsBlocked {
    pub maximum_request_id: VarInt,
}

// ============================================================
// Consolidated Response Messages
// ============================================================

/// REQUEST_OK (0x07). Consolidated OK response for all request types.
#[derive(Debug, Clone, PartialEq, Eq)]
pub struct RequestOk {
    pub request_id: VarInt,
    pub parameters: Vec<KeyValuePair>,
}

/// REQUEST_ERROR (0x05). Consolidated error response for all request types.
#[derive(Debug, Clone, PartialEq, Eq)]
pub struct RequestError {
    pub request_id: VarInt,
    pub error_code: VarInt,
    pub reason_phrase: Vec<u8>,
}

// ============================================================
// Subscribe Messages
// ============================================================

/// SUBSCRIBE (0x03). Simplified: fields moved to parameters.
#[derive(Debug, Clone, PartialEq, Eq)]
pub struct Subscribe {
    pub request_id: VarInt,
    pub track_namespace: TrackNamespace,
    pub track_name: Vec<u8>,
    pub parameters: Vec<KeyValuePair>,
}

/// SUBSCRIBE_OK (0x04). Simplified: most fields moved to parameters.
#[derive(Debug, Clone, PartialEq, Eq)]
pub struct SubscribeOk {
    pub request_id: VarInt,
    pub track_alias: VarInt,
    pub parameters: Vec<KeyValuePair>,
}

/// SUBSCRIBE_UPDATE (0x02). request_id + subscription_request_id + params.
#[derive(Debug, Clone, PartialEq, Eq)]
pub struct SubscribeUpdate {
    pub request_id: VarInt,
    pub subscription_request_id: VarInt,
    pub parameters: Vec<KeyValuePair>,
}

#[derive(Debug, Clone, PartialEq, Eq)]
pub struct Unsubscribe {
    pub request_id: VarInt,
}

// ============================================================
// Publish Messages
// ============================================================

/// PUBLISH (0x1D). Simplified: request_id + ns + name + alias + params.
#[derive(Debug, Clone, PartialEq, Eq)]
pub struct Publish {
    pub request_id: VarInt,
    pub track_namespace: TrackNamespace,
    pub track_name: Vec<u8>,
    pub track_alias: VarInt,
    pub parameters: Vec<KeyValuePair>,
}

/// PUBLISH_OK (0x1E). Simplified: request_id + params.
#[derive(Debug, Clone, PartialEq, Eq)]
pub struct PublishOk {
    pub request_id: VarInt,
    pub parameters: Vec<KeyValuePair>,
}

/// PUBLISH_DONE (0x0B). Replaces SubscribeDone.
#[derive(Debug, Clone, PartialEq, Eq)]
pub struct PublishDone {
    pub request_id: VarInt,
    pub status_code: VarInt,
    pub stream_count: VarInt,
    pub reason_phrase: Vec<u8>,
}

// ============================================================
// Publish Namespace Messages (renamed from Announce)
// ============================================================

/// PUBLISH_NAMESPACE (0x06). request_id + namespace + params.
#[derive(Debug, Clone, PartialEq, Eq)]
pub struct PublishNamespace {
    pub request_id: VarInt,
    pub track_namespace: TrackNamespace,
    pub parameters: Vec<KeyValuePair>,
}

/// PUBLISH_NAMESPACE_DONE (0x09). Just namespace.
#[derive(Debug, Clone, PartialEq, Eq)]
pub struct PublishNamespaceDone {
    pub track_namespace: TrackNamespace,
}

/// PUBLISH_NAMESPACE_CANCEL (0x0C). namespace + error_code + reason.
#[derive(Debug, Clone, PartialEq, Eq)]
pub struct PublishNamespaceCancel {
    pub track_namespace: TrackNamespace,
    pub error_code: VarInt,
    pub reason_phrase: Vec<u8>,
}

// ============================================================
// Subscribe Namespace Messages
// ============================================================

#[derive(Debug, Clone, PartialEq, Eq)]
pub struct SubscribeNamespace {
    pub request_id: VarInt,
    pub namespace_prefix: TrackNamespace,
    pub parameters: Vec<KeyValuePair>,
}

/// UNSUBSCRIBE_NAMESPACE (0x14). Just request_id.
#[derive(Debug, Clone, PartialEq, Eq)]
pub struct UnsubscribeNamespace {
    pub request_id: VarInt,
}

// ============================================================
// Track Status Messages
// ============================================================

/// TRACK_STATUS (0x0D). Same structure as Subscribe.
#[derive(Debug, Clone, PartialEq, Eq)]
pub struct TrackStatus {
    pub request_id: VarInt,
    pub track_namespace: TrackNamespace,
    pub track_name: Vec<u8>,
    pub parameters: Vec<KeyValuePair>,
}

// ============================================================
// Fetch Messages
// ============================================================

#[derive(Debug, Clone, Copy, PartialEq, Eq, Structural)]
pub enum FetchType {
    /// Standalone fetch with explicit track + range.
    Standalone,
    /// Joining fetch using a relative group offset.
    RelativeJoining,
    /// Joining fetch using an absolute group.
    AbsoluteJoining,
}



#[derive(Debug, Clone, PartialEq, Eq)]
pub struct Fetch {
    pub request_id: VarInt,
    pub fetch_type: FetchType,
    pub fetch_payload: FetchPayload,
    pub parameters: Vec<KeyValuePair>,
}

#[derive(Debug, Clone, PartialEq, Eq)]
pub enum FetchPayload {
    Standalone {
        track_namespace: TrackNamespace,
        track_name: Vec<u8>,
        start_group: VarInt,
        start_object: VarInt,
        end_group: VarInt,
        end_object: VarInt,
    },
    Joining {
        joining_request_id: VarInt,
        joining_start: VarInt,
    },
}

#[derive(Debug, Clone, PartialEq, Eq)]
pub struct FetchOk {
    pub request_id: VarInt,
    /// Whether the end of the track has been reached.
    ///
    /// Held as a raw byte rather than an enum: the draft describes 1 and 0 and
    /// says nothing about any other value, where it does call an out-of-range
    /// Group Order or Content Exists a protocol error. Refusing a 2 here would
    /// be this codec's rule and not the draft's.
    pub end_of_track: u8,
    pub end_group: VarInt,
    pub end_object: VarInt,
    pub parameters: Vec<KeyValuePair>,
}

#[derive(Debug, Clone, PartialEq, Eq)]
pub struct FetchCancel {
    pub request_id: VarInt,
}

// ============================================================
// Unified Message Enum
// ============================================================



#[derive(Debug, Clone, PartialEq, Eq)]
pub enum ControlMessage {
    ClientSetup(ClientSetup),
    ServerSetup(ServerSetup),
    GoAway(GoAway),
    MaxRequestId(MaxRequestId),
    RequestsBlocked(RequestsBlocked),
    RequestOk(RequestOk),
    RequestError(RequestError),
    Subscribe(Subscribe),
    SubscribeOk(SubscribeOk),
    SubscribeUpdate(SubscribeUpdate),
    Unsubscribe(Unsubscribe),
    Publish(Publish),
    PublishOk(PublishOk),
    PublishDone(PublishDone),
    PublishNamespace(PublishNamespace),
    PublishNamespaceDone(PublishNamespaceDone),
    PublishNamespaceCancel(PublishNamespaceCancel),
    SubscribeNamespace(SubscribeNamespace),
    UnsubscribeNamespace(UnsubscribeNamespace),
    TrackStatus(TrackStatus),
    Fetch(Fetch),
    FetchOk(FetchOk),
    FetchCancel(FetchCancel),
}

impl MessageType {
    /// The wire ID of a message type.
    pub open spec fn spec_id(self) -> u64 {
        match self {
            MessageType::SubscribeUpdate => 0x02,
            MessageType::Subscribe => 0x03,
            MessageType::SubscribeOk => 0x04,
            MessageType::RequestError => 0x05,
            MessageType::PublishNamespace => 0x06,
            MessageType::RequestOk => 0x07,
            MessageType::PublishNamespaceDone => 0x09,
            MessageType::Unsubscribe => 0x0A,
            MessageType::PublishDone => 0x0B,
            MessageType::PublishNamespaceCancel => 0x0C,
            MessageType::TrackStatus => 0x0D,
            MessageType::GoAway => 0x10,
            MessageType::SubscribeNamespace => 0x11,
            MessageType::UnsubscribeNamespace => 0x14,
            MessageType::MaxRequestId => 0x15,
            MessageType::Fetch => 0x16,
            MessageType::FetchCancel => 0x17,
            MessageType::FetchOk => 0x18,
            MessageType::RequestsBlocked => 0x1A,
            MessageType::Publish => 0x1D,
            MessageType::PublishOk => 0x1E,
            MessageType::ClientSetup => 0x20,
            MessageType::ServerSetup => 0x21,
        }
    }

    /// The message type with wire ID `id`, if the draft assigns it.
    pub open spec fn spec_from_id(id: u64) -> Option<MessageType> {
        if id == 0x02 {
            Some(MessageType::SubscribeUpdate)
        } else if id == 0x03 {
            Some(MessageType::Subscribe)
        } else if id == 0x04 {
            Some(MessageType::SubscribeOk)
        } else if id == 0x05 {
            Some(MessageType::RequestError)
        } else if id == 0x06 {
            Some(MessageType::PublishNamespace)
        } else if id == 0x07 {
            Some(MessageType::RequestOk)
        } else if id == 0x09 {
            Some(MessageType::PublishNamespaceDone)
        } else if id == 0x0A {
            Some(MessageType::Unsubscribe)
        } else if id == 0x0B {
            Some(MessageType::PublishDone)
        } else if id == 0x0C {
            Some(MessageType::PublishNamespaceCancel)
        } else if id == 0x0D {
            Some(MessageType::TrackStatus)
        } else if id == 0x10 {
            Some(MessageType::GoAway)
        } else if id == 0x11 {
            Some(MessageType::SubscribeNamespace)
        } else if id == 0x14 {
            Some(MessageType::UnsubscribeNamespace)
        } else if id == 0x15 {
            Some(MessageType::MaxRequestId)
        } else if id == 0x16 {
            Some(MessageType::Fetch)
        } else if id == 0x17 {
            Some(MessageType::FetchCancel)
        } else if id == 0x18 {
            Some(MessageType::FetchOk)
        } else if id == 0x1A {
            Some(MessageType::RequestsBlocked)
        } else if id == 0x1D {
            Some(MessageType::Publish)
        } else if id == 0x1E {
            Some(MessageType::PublishOk)
        } else if id == 0x20 {
            Some(MessageType::ClientSetup)
        } else if id == 0x21 {
            Some(MessageType::ServerSetup)
        } else {
            None
        }
    }

    /// Look up a message type by its wire ID.
    pub fn from_id(id: u64) -> (r: Option<Self>)
        ensures
            r == Self::spec_from_id(id),
    {
        match id {
            0x02 => Some(MessageType::SubscribeUpdate),
            0x03 => Some(MessageType::Subscribe),
            0x04 => Some(MessageType::SubscribeOk),
            0x05 => Some(MessageType::RequestError),
            0x06 => Some(MessageType::PublishNamespace),
            0x07 => Some(MessageType::RequestOk),
            0x09 => Some(MessageType::PublishNamespaceDone),
            0x0A => Some(MessageType::Unsubscribe),
            0x0B => Some(MessageType::PublishDone),
            0x0C => Some(MessageType::PublishNamespaceCancel),
            0x0D => Some(MessageType::TrackStatus),
            0x10 => Some(MessageType::GoAway),
            0x11 => Some(MessageType::SubscribeNamespace),
            0x14 => Some(MessageType::UnsubscribeNamespace),
            0x15 => Some(MessageType::MaxRequestId),
            0x16 => Some(MessageType::Fetch),
            0x17 => Some(MessageType::FetchCancel),
            0x18 => Some(MessageType::FetchOk),
            0x1A => Some(MessageType::RequestsBlocked),
            0x1D => Some(MessageType::Publish),
            0x1E => Some(MessageType::PublishOk),
            0x20 => Some(MessageType::ClientSetup),
            0x21 => Some(MessageType::ServerSetup),
            _ => None,
        }
    }

    /// Return the wire ID for this message type.
    pub fn id(&self) -> (r: u64)
        ensures
            r == self.spec_id(),
    {
        match self {
            MessageType::SubscribeUpdate => 0x02,
            MessageType::Subscribe => 0x03,
            MessageType::SubscribeOk => 0x04,
            MessageType::RequestError => 0x05,
            MessageType::PublishNamespace => 0x06,
            MessageType::RequestOk => 0x07,
            MessageType::PublishNamespaceDone => 0x09,
            MessageType::Unsubscribe => 0x0A,
            MessageType::PublishDone => 0x0B,
            MessageType::PublishNamespaceCancel => 0x0C,
            MessageType::TrackStatus => 0x0D,
            MessageType::GoAway => 0x10,
            MessageType::SubscribeNamespace => 0x11,
            MessageType::UnsubscribeNamespace => 0x14,
            MessageType::MaxRequestId => 0x15,
            MessageType::Fetch => 0x16,
            MessageType::FetchCancel => 0x17,
            MessageType::FetchOk => 0x18,
            MessageType::RequestsBlocked => 0x1A,
            MessageType::Publish => 0x1D,
            MessageType::PublishOk => 0x1E,
            MessageType::ClientSetup => 0x20,
            MessageType::ServerSetup => 0x21,
        }
    }
}

/// Reading a message type's wire ID back gives that type, and a wire ID
/// that names a type is that type's ID.
pub proof fn lemma_message_type_id(t: MessageType, v: u64)
    ensures
        MessageType::spec_from_id(t.spec_id()) == Some(t),
        MessageType::spec_from_id(v) matches Some(u) ==> u.spec_id() == v,
{
}

impl FetchType {
    /// The wire value of a fetch type.
    pub open spec fn spec_value(self) -> u64 {
        match self {
            FetchType::Standalone => 1,
            FetchType::RelativeJoining => 2,
            FetchType::AbsoluteJoining => 3,
        }
    }

    /// The fetch type with wire value `v`, if the draft assigns it.
    pub open spec fn spec_from_u64(v: u64) -> Option<FetchType> {
        if v == 1 {
            Some(FetchType::Standalone)
        } else if v == 2 {
            Some(FetchType::RelativeJoining)
        } else if v == 3 {
            Some(FetchType::AbsoluteJoining)
        } else {
            None
        }
    }

    /// Convert a raw wire value to a [`FetchType`].
    pub fn from_u64(v: u64) -> (r: Option<Self>)
        ensures
            r == Self::spec_from_u64(v),
    {
        match v {
            1 => Some(FetchType::Standalone),
            2 => Some(FetchType::RelativeJoining),
            3 => Some(FetchType::AbsoluteJoining),
            _ => None,
        }
    }
}

/// A fetch type's wire value is read back as that type.
pub proof fn lemma_fetch_type_value(t: FetchType, v: u64)
    ensures
        FetchType::spec_from_u64(t.spec_value()) == Some(t),
        FetchType::spec_from_u64(v) matches Some(u) ==> u.spec_value() == v,
{
}

impl ControlMessage {
    /// The message type of a message.
    pub open spec fn spec_message_type(&self) -> MessageType {
        match self {
            ControlMessage::ClientSetup(_) => MessageType::ClientSetup,
            ControlMessage::ServerSetup(_) => MessageType::ServerSetup,
            ControlMessage::GoAway(_) => MessageType::GoAway,
            ControlMessage::MaxRequestId(_) => MessageType::MaxRequestId,
            ControlMessage::RequestsBlocked(_) => MessageType::RequestsBlocked,
            ControlMessage::RequestOk(_) => MessageType::RequestOk,
            ControlMessage::RequestError(_) => MessageType::RequestError,
            ControlMessage::Subscribe(_) => MessageType::Subscribe,
            ControlMessage::SubscribeOk(_) => MessageType::SubscribeOk,
            ControlMessage::SubscribeUpdate(_) => MessageType::SubscribeUpdate,
            ControlMessage::Unsubscribe(_) => MessageType::Unsubscribe,
            ControlMessage::Publish(_) => MessageType::Publish,
            ControlMessage::PublishOk(_) => MessageType::PublishOk,
            ControlMessage::PublishDone(_) => MessageType::PublishDone,
            ControlMessage::PublishNamespace(_) => MessageType::PublishNamespace,
            ControlMessage::PublishNamespaceDone(_) => MessageType::PublishNamespaceDone,
            ControlMessage::PublishNamespaceCancel(_) => MessageType::PublishNamespaceCancel,
            ControlMessage::SubscribeNamespace(_) => MessageType::SubscribeNamespace,
            ControlMessage::UnsubscribeNamespace(_) => MessageType::UnsubscribeNamespace,
            ControlMessage::TrackStatus(_) => MessageType::TrackStatus,
            ControlMessage::Fetch(_) => MessageType::Fetch,
            ControlMessage::FetchOk(_) => MessageType::FetchOk,
            ControlMessage::FetchCancel(_) => MessageType::FetchCancel,
        }
    }

    /// Get the message type ID for this message.
    pub fn message_type(&self) -> (r: MessageType)
        ensures
            r == self.spec_message_type(),
    {
        match self {
            ControlMessage::ClientSetup(_) => MessageType::ClientSetup,
            ControlMessage::ServerSetup(_) => MessageType::ServerSetup,
            ControlMessage::GoAway(_) => MessageType::GoAway,
            ControlMessage::MaxRequestId(_) => MessageType::MaxRequestId,
            ControlMessage::RequestsBlocked(_) => MessageType::RequestsBlocked,
            ControlMessage::RequestOk(_) => MessageType::RequestOk,
            ControlMessage::RequestError(_) => MessageType::RequestError,
            ControlMessage::Subscribe(_) => MessageType::Subscribe,
            ControlMessage::SubscribeOk(_) => MessageType::SubscribeOk,
            ControlMessage::SubscribeUpdate(_) => MessageType::SubscribeUpdate,
            ControlMessage::Unsubscribe(_) => MessageType::Unsubscribe,
            ControlMessage::Publish(_) => MessageType::Publish,
            ControlMessage::PublishOk(_) => MessageType::PublishOk,
            ControlMessage::PublishDone(_) => MessageType::PublishDone,
            ControlMessage::PublishNamespace(_) => MessageType::PublishNamespace,
            ControlMessage::PublishNamespaceDone(_) => MessageType::PublishNamespaceDone,
            ControlMessage::PublishNamespaceCancel(_) => MessageType::PublishNamespaceCancel,
            ControlMessage::SubscribeNamespace(_) => MessageType::SubscribeNamespace,
            ControlMessage::UnsubscribeNamespace(_) => MessageType::UnsubscribeNamespace,
            ControlMessage::TrackStatus(_) => MessageType::TrackStatus,
            ControlMessage::Fetch(_) => MessageType::Fetch,
            ControlMessage::FetchOk(_) => MessageType::FetchOk,
            ControlMessage::FetchCancel(_) => MessageType::FetchCancel,
        }
    }
}

// ============================================================
// Checks a message must pass before it is written
// ============================================================

/// Whether a message's discriminators agree with the fields beside them:
/// FETCH's Fetch Type with its payload.
pub open spec fn spec_discriminators_agree(message: ControlMessage) -> bool {
    match message {
        ControlMessage::Fetch(m) => (m.fetch_payload is Standalone) == (m.fetch_type
            == FetchType::Standalone),
        _ => true,
    }
}

/// Refuse a FETCH whose Fetch Type disagrees with its payload: the encoder
/// would write what the body holds and the decoder would read what the type
/// announces.
pub fn check_discriminators(message: &ControlMessage) -> (r: Result<(), CodecError>)
    ensures
        r == (if spec_discriminators_agree(*message) {
            Ok::<(), CodecError>(())
        } else {
            Err::<(), CodecError>(CodecError::InvalidField)
        }),
{
    if let ControlMessage::Fetch(m) = message {
        let body_is_standalone = matches!(m.fetch_payload, FetchPayload::Standalone { .. });
        if body_is_standalone != (m.fetch_type == FetchType::Standalone) {
            return Err(CodecError::InvalidField);
        }
    }
    Ok(())
}

// ============================================================
// Track names and reason phrases
// ============================================================

/// Hold a namespace and a track name to the Full Track Name cap: the sum of
/// the namespace's field lengths and the name's length may not pass
/// [`MAX_FULL_TRACK_NAME_LENGTH`]. Neither field can settle this alone.
pub fn check_full_track_name(namespace: &TrackNamespace, track_name: &[u8]) -> (r: Result<(), CodecError>)
    ensures
        r == (if spec_field_bytes_len(namespace.0@) + track_name@.len() > MAX_FULL_TRACK_NAME_LENGTH {
            Err::<(), CodecError>(CodecError::TrackNameTooLong)
        } else {
            Ok::<(), CodecError>(())
        }),
{
    let total = namespace.field_bytes_len().saturating_add(track_name.len());
    if total > MAX_FULL_TRACK_NAME_LENGTH {
        return Err(CodecError::TrackNameTooLong);
    }
    Ok(())
}

/// Read a Reason Phrase at `pos`: its length, refused above
/// [`MAX_REASON_PHRASE_LENGTH`] before any of its bytes is read, then the
/// bytes, with the position after them.
pub fn read_reason_phrase(buf: &[u8], pos: usize) -> (r: Result<(Vec<u8>, usize), CodecError>)
    ensures
        match spec_varint_at(buf@, pos as int) {
            None => r == Err::<(Vec<u8>, usize), CodecError>(varint_end()),
            Some((len, q)) => if len > MAX_REASON_PHRASE_LENGTH {
                r == Err::<(Vec<u8>, usize), CodecError>(CodecError::ReasonPhraseTooLong)
            } else {
                match spec_bytes_at(buf@, q, len) {
                    None => r == Err::<(Vec<u8>, usize), CodecError>(CodecError::UnexpectedEnd),
                    Some((b, n)) => (r matches Ok((v, m)) && v@ == b && m == n),
                }
            },
        },
{
    let (len, q) = read_varint_u64(buf, pos)?;
    if len > MAX_REASON_PHRASE_LENGTH as u64 {
        return Err(CodecError::ReasonPhraseTooLong);
    }
    read_bytes(buf, q, len)
}

// ============================================================
// Duplicate parameter types
// ============================================================

/// The one parameter type whose own definition lets it repeat:
/// AUTHORIZATION TOKEN (0x03), in both the message and the setup namespace.
pub const REPEATABLE_PARAMETER: u64 = 0x03;

/// Every version-specific parameter type draft-15 names (Section 13.2,
/// Table 10).
pub const KNOWN_VERSION_SPECIFIC_PARAMETERS: [u64; 12] = [
    0x02,
    0x03,
    0x04,
    0x08,
    0x09,
    0x0E,
    0x10,
    0x20,
    0x21,
    0x22,
    0x30,
    0x32,
];

/// Every setup parameter type draft-15 names (Section 9.3.1).
pub const KNOWN_SETUP_PARAMETERS: [u64; 6] = [0x01, 0x02, 0x03, 0x04, 0x05, 0x07];

/// Refuse a parameter list a sender may not put on the wire: any repeated
/// type but [`REPEATABLE_PARAMETER`], known to this codec or not (Section 9.2).
/// The error names the type of the first parameter that repeats an earlier
/// one.
pub fn check_no_duplicate_parameters_sent(parameters: &[KeyValuePair]) -> (r: Result<(), CodecError>)
    ensures
        match r {
            Ok(()) => forall|i: int|
                0 <= i < parameters@.len() ==> !#[trigger] spec_is_repeat(
                    parameters@,
                    i,
                    REPEATABLE_PARAMETER,
                    Seq::empty(),
                    false,
                ),
            Err(e) => exists|i: int|
                0 <= i < parameters@.len() && #[trigger] spec_is_repeat(
                    parameters@,
                    i,
                    REPEATABLE_PARAMETER,
                    Seq::empty(),
                    false,
                ) && (forall|i2: int|
                    0 <= i2 < i ==> !#[trigger] spec_is_repeat(
                        parameters@,
                        i2,
                        REPEATABLE_PARAMETER,
                        Seq::empty(),
                        false,
                    )) && e == CodecError::DuplicateParameter(parameters@[i].key@),
        },
{
    let none: [u64; 0] = [];
    let r = check_no_repeats(parameters, REPEATABLE_PARAMETER, none.as_slice(), false);
    assert(none@ =~= Seq::<u64>::empty());
    r
}

/// Refuse a received parameter list that repeats a type in `known`; a repeat
/// of any other type is carried, since receivers must allow duplicates of
/// unknown parameters (Section 9.2).
pub fn check_no_duplicate_parameters_received(parameters: &[KeyValuePair], known: &[u64]) -> (r: Result<(), CodecError>)
    ensures
        match r {
            Ok(()) => forall|i: int|
                0 <= i < parameters@.len() ==> !#[trigger] spec_is_repeat(
                    parameters@,
                    i,
                    REPEATABLE_PARAMETER,
                    known@,
                    true,
                ),
            Err(e) => exists|i: int|
                0 <= i < parameters@.len() && #[trigger] spec_is_repeat(
                    parameters@,
                    i,
                    REPEATABLE_PARAMETER,
                    known@,
                    true,
                ) && (forall|i2: int|
                    0 <= i2 < i ==> !#[trigger] spec_is_repeat(
                        parameters@,
                        i2,
                        REPEATABLE_PARAMETER,
                        known@,
                        true,
                    )) && e == CodecError::DuplicateParameter(parameters@[i].key@),
        },
{
    check_no_repeats(parameters, REPEATABLE_PARAMETER, known, true)
}

// ============================================================
// Parameter value ranges
// ============================================================

/// Whether a parameter's varint `value` is in the range its type allows:
/// FORWARD (0x10) and DYNAMIC_GROUPS (0x30) at most 1, SUBSCRIBER_PRIORITY
/// (0x20) at most 255, GROUP_ORDER (0x22) Ascending or Descending.
pub open spec fn spec_parameter_value_in_range(key: u64, value: u64) -> bool {
    if key == 0x10 || key == 0x30 {
        value <= 1
    } else if key == 0x20 {
        value <= 255
    } else if key == 0x22 {
        value == 1 || value == 2
    } else {
        true
    }
}

/// Whether a parameter's varint `value` is in the range its type allows.
pub fn parameter_value_in_range(key: u64, value: u64) -> (r: bool)
    ensures
        r == spec_parameter_value_in_range(key, value),
{
    match key {
        0x10 | 0x30 => value <= 1,
        0x20 => value <= 255,
        0x22 => value == 1 || value == 2,
        _ => true,
    }
}

/// Whether the parameter at `i` holds a varint outside the range of its type.
pub open spec fn spec_value_out_of_range(ps: Seq<KeyValuePair>, i: int) -> bool {
    ps[i].value matches KvpValue::Varint(v) && !spec_parameter_value_in_range(ps[i].key@, v@)
}

/// Refuse a parameter whose varint value falls outside the range its type
/// allows, naming the first such parameter's type and value. Byte-string
/// values are not examined.
pub fn check_parameter_value_ranges(parameters: &[KeyValuePair]) -> (r: Result<(), CodecError>)
    ensures
        match r {
            Ok(()) => forall|i: int|
                0 <= i < parameters@.len() ==> !#[trigger] spec_value_out_of_range(parameters@, i),
            Err(e) => exists|i: int|
                0 <= i < parameters@.len() && #[trigger] spec_value_out_of_range(parameters@, i)
                    && (forall|i2: int|
                    0 <= i2 < i ==> !#[trigger] spec_value_out_of_range(parameters@, i2)) && e
                    == CodecError::ParameterValueOutOfRange {
                    key: parameters@[i].key@,
                    value: parameters@[i].value->Varint_0@,
                },
        },
{
    let mut i: usize = 0;
    while i < parameters.len()
        invariant
            i <= parameters@.len(),
            forall|i2: int| 0 <= i2 < i ==> !#[trigger] spec_value_out_of_range(parameters@, i2),
        decreases parameters@.len() - i,
    {
        match &parameters[i].value {
            KvpValue::Varint(value) => {
                let key = parameters[i].key.into_inner();
                let value = value.into_inner();
                if !parameter_value_in_range(key, value) {
                    assert(spec_value_out_of_range(parameters@, i as int));
                    return Err(CodecError::ParameterValueOutOfRange { key, value });
                }
            },
            KvpValue::Bytes(_) => {},
        }
        i = i + 1;
    }
    Ok(())
}

} // verus!
