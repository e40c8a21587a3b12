//! Draft-16 control messages: the message types, their wire IDs and names,
//! the message structures, the checks a message must pass, and the
//! delta-encoded Key-Value-Pairs of this draft.
//!
//! Against draft-15: SUBSCRIBE_UPDATE becomes REQUEST_UPDATE; NAMESPACE
//! (0x08) and NAMESPACE_DONE (0x0E) arrive; UNSUBSCRIBE_NAMESPACE goes;
//! REQUEST_ERROR gains a retry interval; SUBSCRIBE_NAMESPACE gains subscribe
//! options; PUBLISH_NAMESPACE_DONE carries only a request ID. Framing:
//! `type_id(vi) + payload_length(16) + payload`.

use vstd::prelude::*;
use crate::error::{
    CodecError, KvpError, VarIntError, MAX_FULL_TRACK_NAME_LENGTH, MAX_REASON_PHRASE_LENGTH,
};
use crate::kvp::{
    check_no_repeats, slice_contains, spec_is_repeat, KeyValuePair, KeyValuePairView, KvpValue,
    KvpValueView, MAX_KVP_VALUE_LEN,
};
use crate::types::{spec_field_bytes_len, TrackNamespace};
use crate::varint::{spec_varint_at, spec_varint_encode, VarInt, VARINT_BOUND};
use crate::wire::{
    lemma_bytes_at_prefix, lemma_bytes_encoded, lemma_prefix_of_add, lemma_prefix_trans,
    lemma_varint_at_prefix, lemma_varint_encoded, put_slice, read_bytes, read_varint,
    read_varint_u64, spec_bytes_at, varint_end,
};

verus! {

#[derive(Debug, Clone, Copy, PartialEq, Eq, Structural)]
pub enum MessageType {
    RequestUpdate,
    Subscribe,
    SubscribeOk,
    RequestError,
    PublishNamespace,
    RequestOk,
    Namespace,
    PublishNamespaceDone,
    Unsubscribe,
    PublishDone,
    PublishNamespaceCancel,
    TrackStatus,
    NamespaceDone,
    GoAway,
    SubscribeNamespace,
    MaxRequestId,
    Fetch,
    FetchCancel,
    FetchOk,
    RequestsBlocked,
    Publish,
    PublishOk,
    ClientSetup,
    ServerSetup,
}


// ============================================================
// Session Lifecycle Messages
// ============================================================

#[derive(Debug, Clone, PartialEq, Eq)]
pub struct ClientSetup {
    pub parameters: Vec<KeyValuePair>,
}

#[derive(Debug, Clone, PartialEq, Eq)]
pub struct ServerSetup {
    pub parameters: Vec<KeyValuePair>,
}

#[derive(Debug, Clone, PartialEq, Eq)]
pub struct GoAway {
    pub new_session_uri: Vec<u8>,
}

#[derive(Debug, Clone, PartialEq, Eq)]
pub struct MaxRequestId {
    pub request_id: VarInt,
}

#[derive(Debug, Clone, PartialEq, Eq)]
pub struct RequestsBlocked {
    pub maximum_request_id: VarInt,
}

// ============================================================
// Consolidated Response Messages
// ============================================================

#[derive(Debug, Clone, PartialEq, Eq)]
pub struct RequestOk {
    pub request_id: VarInt,
    pub parameters: Vec<KeyValuePair>,
}

/// REQUEST_ERROR (0x05). Draft-16 adds retry_interval field.
#[derive(Debug, Clone, PartialEq, Eq)]
pub struct RequestError {
    pub request_id: VarInt,
    pub error_code: VarInt,
    pub retry_interval: VarInt,
    pub reason_phrase: Vec<u8>,
}

// ============================================================
// Subscribe Messages
// ============================================================

#[derive(Debug, Clone, PartialEq, Eq)]
pub struct Subscribe {
    pub request_id: VarInt,
    pub track_namespace: TrackNamespace,
    pub track_name: Vec<u8>,
    pub parameters: Vec<KeyValuePair>,
}

#[derive(Debug, Clone, PartialEq, Eq)]
pub struct SubscribeOk {
    pub request_id: VarInt,
    pub track_alias: VarInt,
    pub parameters: Vec<KeyValuePair>,
    /// Track extensions: KVPs that follow `parameters` and continue until
    /// the end of the control-message payload. Empty if none.
    pub track_extensions: Vec<KeyValuePair>,
}

/// REQUEST_UPDATE (0x02). Drafts 15 and earlier name this codepoint
/// SUBSCRIBE_UPDATE.
#[derive(Debug, Clone, PartialEq, Eq)]
pub struct RequestUpdate {
    pub request_id: VarInt,
    pub existing_request_id: VarInt,
    pub parameters: Vec<KeyValuePair>,
}

#[derive(Debug, Clone, PartialEq, Eq)]
pub struct Unsubscribe {
    pub request_id: VarInt,
}

// ============================================================
// Publish Messages
// ============================================================

#[derive(Debug, Clone, PartialEq, Eq)]
pub struct Publish {
    pub request_id: VarInt,
    pub track_namespace: TrackNamespace,
    pub track_name: Vec<u8>,
    pub track_alias: VarInt,
    pub parameters: Vec<KeyValuePair>,
    /// Track extensions: KVPs that follow `parameters` and continue until
    /// the end of the control-message payload. Empty if none.
    pub track_extensions: Vec<KeyValuePair>,
}

#[derive(Debug, Clone, PartialEq, Eq)]
pub struct PublishOk {
    pub request_id: VarInt,
    pub parameters: Vec<KeyValuePair>,
}

#[derive(Debug, Clone, PartialEq, Eq)]
pub struct PublishDone {
    pub request_id: VarInt,
    pub status_code: VarInt,
    pub stream_count: VarInt,
    pub reason_phrase: Vec<u8>,
}

// ============================================================
// Publish Namespace Messages
// ============================================================

#[derive(Debug, Clone, PartialEq, Eq)]
pub struct PublishNamespace {
    pub request_id: VarInt,
    pub track_namespace: TrackNamespace,
    pub parameters: Vec<KeyValuePair>,
}

/// PUBLISH_NAMESPACE_DONE (0x09). Draft-16 carries just request_id; draft-15
/// carries the track namespace instead.
#[derive(Debug, Clone, PartialEq, Eq)]
pub struct PublishNamespaceDone {
    pub request_id: VarInt,
}

/// PUBLISH_NAMESPACE_CANCEL (0x0C). Draft-16: request_id + error_code + reason.
#[derive(Debug, Clone, PartialEq, Eq)]
pub struct PublishNamespaceCancel {
    pub request_id: VarInt,
    pub error_code: VarInt,
    pub reason_phrase: Vec<u8>,
}

// ============================================================
// Namespace Messages (new in draft-16)
// ============================================================

/// NAMESPACE (0x08). Carries namespace_suffix.
#[derive(Debug, Clone, PartialEq, Eq)]
pub struct Namespace {
    pub namespace_suffix: TrackNamespace,
}

/// NAMESPACE_DONE (0x0E). Carries namespace_suffix.
#[derive(Debug, Clone, PartialEq, Eq)]
pub struct NamespaceDone {
    pub namespace_suffix: TrackNamespace,
}

// ============================================================
// Subscribe Namespace Messages
// ============================================================

/// SUBSCRIBE_NAMESPACE (0x11). Draft-16: gains subscribe_options varint.
#[derive(Debug, Clone, PartialEq, Eq)]
pub struct SubscribeNamespace {
    pub request_id: VarInt,
    pub namespace_prefix: TrackNamespace,
    pub subscribe_options: VarInt,
    pub parameters: Vec<KeyValuePair>,
}

// ============================================================
// Track Status Messages
// ============================================================

#[derive(Debug, Clone, PartialEq, Eq)]
pub struct TrackStatus {
    pub request_id: VarInt,
    pub track_namespace: TrackNamespace,
    pub track_name: Vec<u8>,
    pub parameters: Vec<KeyValuePair>,
}

// ============================================================
// Fetch Messages
// ============================================================

#[derive(Debug, Clone, Copy, PartialEq, Eq, Structural)]
pub enum FetchType {
    /// Standalone fetch with explicit track + range.
    Standalone,
    /// Joining fetch using a relative group offset.
    RelativeJoining,
    /// Joining fetch using an absolute group.
    AbsoluteJoining,
}



#[derive(Debug, Clone, PartialEq, Eq)]
pub struct Fetch {
    pub request_id: VarInt,
    pub fetch_type: FetchType,
    pub fetch_payload: FetchPayload,
    pub parameters: Vec<KeyValuePair>,
}

#[derive(Debug, Clone, PartialEq, Eq)]
pub enum FetchPayload {
    Standalone {
        track_namespace: TrackNamespace,
        track_name: Vec<u8>,
        start_group: VarInt,
        start_object: VarInt,
        end_group: VarInt,
        end_object: VarInt,
    },
    Joining {
        joining_request_id: VarInt,
        joining_start: VarInt,
    },
}

#[derive(Debug, Clone, PartialEq, Eq)]
pub struct FetchOk {
    pub request_id: VarInt,
    /// Whether the end of the track has been reached.
    ///
    /// Held as a raw byte rather than an enum: the draft describes 1 and 0 and
    /// says nothing about any other value, where it does call an out-of-range
    /// Group Order or Content Exists a protocol error. Refusing a 2 here would
    /// be this codec's rule and not the draft's.
    pub end_of_track: u8,
    pub end_group: VarInt,
    pub end_object: VarInt,
    pub parameters: Vec<KeyValuePair>,
    /// Track extensions: KVPs that follow `parameters` and continue until
    /// the end of the control-message payload. Empty if none.
    pub track_extensions: Vec<KeyValuePair>,
}

#[derive(Debug, Clone, PartialEq, Eq)]
pub struct FetchCancel {
    pub request_id: VarInt,
}

// ============================================================
// Unified Message Enum
// ============================================================



#[derive(Debug, Clone, PartialEq, Eq)]
pub enum ControlMessage {
    ClientSetup(ClientSetup),
    ServerSetup(ServerSetup),
    GoAway(GoAway),
    MaxRequestId(MaxRequestId),
    RequestsBlocked(RequestsBlocked),
    RequestOk(RequestOk),
    RequestError(RequestError),
    Subscribe(Subscribe),
    SubscribeOk(SubscribeOk),
    RequestUpdate(RequestUpdate),
    Unsubscribe(Unsubscribe),
    Publish(Publish),
    PublishOk(PublishOk),
    PublishDone(PublishDone),
    PublishNamespace(PublishNamespace),
    PublishNamespaceDone(PublishNamespaceDone),
    PublishNamespaceCancel(PublishNamespaceCancel),
    Namespace(Namespace),
    NamespaceDone(NamespaceDone),
    SubscribeNamespace(SubscribeNamespace),
    TrackStatus(TrackStatus),
    Fetch(Fetch),
    FetchOk(FetchOk),
    FetchCancel(FetchCancel),
}

impl MessageType {
    /// The wire ID of a message type.
    pub open spec fn spec_id(self) -> u64 {
        match self {
            MessageType::RequestUpdate => 0x02,
            MessageType::Subscribe => 0x03,
            MessageType::SubscribeOk => 0x04,
            MessageType::RequestError => 0x05,
            MessageType::PublishNamespace => 0x06,
            MessageType::RequestOk => 0x07,
            MessageType::Namespace => 0x08,
            MessageType::PublishNamespaceDone => 0x09,
            MessageType::Unsubscribe => 0x0A,
            MessageType::PublishDone => 0x0B,
            MessageType::PublishNamespaceCancel => 0x0C,
            MessageType::TrackStatus => 0x0D,
            MessageType::NamespaceDone => 0x0E,
            MessageType::GoAway => 0x10,
            MessageType::SubscribeNamespace => 0x11,
            MessageType::MaxRequestId => 0x15,
            MessageType::Fetch => 0x16,
            MessageType::FetchCancel => 0x17,
            MessageType::FetchOk => 0x18,
            MessageType::RequestsBlocked => 0x1A,
            MessageType::Publish => 0x1D,
            MessageType::PublishOk => 0x1E,
            MessageType::ClientSetup => 0x20,
            MessageType::ServerSetup => 0x21,
        }
    }

    /// The message type with wire ID `id`, if the draft assigns it.
    pub open spec fn spec_from_id(id: u64) -> Option<MessageType> {
        if id == 0x02 {
            Some(MessageType::RequestUpdate)
        } else if id == 0x03 {
            Some(MessageType::Subscribe)
        } else if id == 0x04 {
            Some(MessageType::SubscribeOk)
        } else if id == 0x05 {
            Some(MessageType::RequestError)
        } else if id == 0x06 {
            Some(MessageType::PublishNamespace)
        } else if id == 0x07 {
            Some(MessageType::RequestOk)
        } else if id == 0x08 {
            Some(MessageType::Namespace)
        } else if id == 0x09 {
            Some(MessageType::PublishNamespaceDone)
        } else if id == 0x0A {
            Some(MessageType::Unsubscribe)
        } else if id == 0x0B {
            Some(MessageType::PublishDone)
        } else if id == 0x0C {
            Some(MessageType::PublishNamespaceCancel)
        } else if id == 0x0D {
            Some(MessageType::TrackStatus)
        } else if id == 0x0E {
            Some(MessageType::NamespaceDone)
        } else if id == 0x10 {
            Some(MessageType::GoAway)
        } else if id == 0x11 {
            Some(MessageType::SubscribeNamespace)
        } else if id == 0x15 {
            Some(MessageType::MaxRequestId)
        } else if id == 0x16 {
            Some(MessageType::Fetch)
        } else if id == 0x17 {
            Some(MessageType::FetchCancel)
        } else if id == 0x18 {
            Some(MessageType::FetchOk)
        } else if id == 0x1A {
            Some(MessageType::RequestsBlocked)
        } else if id == 0x1D {
            Some(MessageType::Publish)
        } else if id == 0x1E {
            Some(MessageType::PublishOk)
        } else if id == 0x20 {
            Some(MessageType::ClientSetup)
        } else if id == 0x21 {
            Some(MessageType::ServerSetup)
        } else {
            None
        }
    }

    /// Look up a message type by its wire ID.
    pub fn from_id(id: u64) -> (r: Option<Self>)
        ensures
            r == Self::spec_from_id(id),
    {
        match id {
            0x02 => Some(MessageType::RequestUpdate),
            0x03 => Some(MessageType::Subscribe),
            0x04 => Some(MessageType::SubscribeOk),
            0x05 => Some(MessageType::RequestError),
            0x06 => Some(MessageType::PublishNamespace),
            0x07 => Some(MessageType::RequestOk),
            0x08 => Some(MessageType::Namespace),
            0x09 => Some(MessageType::PublishNamespaceDone),
            0x0A => Some(MessageType::Unsubscribe),
            0x0B => Some(MessageType::PublishDone),
            0x0C => Some(MessageType::PublishNamespaceCancel),
            0x0D => Some(MessageType::TrackStatus),
            0x0E => Some(MessageType::NamespaceDone),
            0x10 => Some(MessageType::GoAway),
            0x11 => Some(MessageType::SubscribeNamespace),
            0x15 => Some(MessageType::MaxRequestId),
            0x16 => Some(MessageType::Fetch),
            0x17 => Some(MessageType::FetchCancel),
            0x18 => Some(MessageType::FetchOk),
            0x1A => Some(MessageType::RequestsBlocked),
            0x1D => Some(MessageType::Publish),
            0x1E => Some(MessageType::PublishOk),
            0x20 => Some(MessageType::ClientSetup),
            0x21 => Some(MessageType::ServerSetup),
            _ => None,
        }
    }

    /// Return the wire ID for this message type.
    pub fn id(&self) -> (r: u64)
        ensures
            r == self.spec_id(),
    {
        match self {
            MessageType::RequestUpdate => 0x02,
            MessageType::Subscribe => 0x03,
            MessageType::SubscribeOk => 0x04,
            MessageType::RequestError => 0x05,
            MessageType::PublishNamespace => 0x06,
            MessageType::RequestOk => 0x07,
            MessageType::Namespace => 0x08,
            MessageType::PublishNamespaceDone => 0x09,
            MessageType::Unsubscribe => 0x0A,
            MessageType::PublishDone => 0x0B,
            MessageType::PublishNamespaceCancel => 0x0C,
            MessageType::TrackStatus => 0x0D,
            MessageType::NamespaceDone => 0x0E,
            MessageType::GoAway => 0x10,
            MessageType::SubscribeNamespace => 0x11,
            MessageType::MaxRequestId => 0x15,
            MessageType::Fetch => 0x16,
            MessageType::FetchCancel => 0x17,
            MessageType::FetchOk => 0x18,
            MessageType::RequestsBlocked => 0x1A,
            MessageType::Publish => 0x1D,
            MessageType::PublishOk => 0x1E,
            MessageType::ClientSetup => 0x20,
            MessageType::ServerSetup => 0x21,
        }
    }

    /// The message name used in logs and rendered captures.
    pub open spec fn spec_name(self) -> &'static str {
        match self {
            MessageType::RequestUpdate => "request_update",
            MessageType::Subscribe => "subscribe",
            MessageType::SubscribeOk => "subscribe_ok",
            MessageType::RequestError => "request_error",
            MessageType::PublishNamespace => "publish_namespace",
            MessageType::RequestOk => "request_ok",
            MessageType::Namespace => "namespace",
            MessageType::PublishNamespaceDone => "publish_namespace_done",
            MessageType::Unsubscribe => "unsubscribe",
            MessageType::PublishDone => "publish_done",
            MessageType::PublishNamespaceCancel => "publish_namespace_cancel",
            MessageType::TrackStatus => "track_status",
            MessageType::NamespaceDone => "namespace_done",
            MessageType::GoAway => "goaway",
            MessageType::SubscribeNamespace => "subscribe_namespace",
            MessageType::MaxRequestId => "max_request_id",
            MessageType::Fetch => "fetch",
            MessageType::FetchCancel => "fetch_cancel",
            MessageType::FetchOk => "fetch_ok",
            MessageType::RequestsBlocked => "requests_blocked",
            MessageType::Publish => "publish",
            MessageType::PublishOk => "publish_ok",
            MessageType::ClientSetup => "client_setup",
            MessageType::ServerSetup => "server_setup",
        }
    }

    /// The message name used in logs and rendered captures.
    pub fn name(&self) -> (r: &'static str)
        ensures
            r == self.spec_name(),
    {
        match self {
            MessageType::RequestUpdate => "request_update",
            MessageType::Subscribe => "subscribe",
            MessageType::SubscribeOk => "subscribe_ok",
            MessageType::RequestError => "request_error",
            MessageType::PublishNamespace => "publish_namespace",
            MessageType::RequestOk => "request_ok",
            MessageType::Namespace => "namespace",
            MessageType::PublishNamespaceDone => "publish_namespace_done",
            MessageType::Unsubscribe => "unsubscribe",
            MessageType::PublishDone => "publish_done",
            MessageType::PublishNamespaceCancel => "publish_namespace_cancel",
            MessageType::TrackStatus => "track_status",
            MessageType::NamespaceDone => "namespace_done",
            MessageType::GoAway => "goaway",
            MessageType::SubscribeNamespace => "subscribe_namespace",
            MessageType::MaxRequestId => "max_request_id",
            MessageType::Fetch => "fetch",
            MessageType::FetchCancel => "fetch_cancel",
            MessageType::FetchOk => "fetch_ok",
            MessageType::RequestsBlocked => "requests_blocked",
            MessageType::Publish => "publish",
            MessageType::PublishOk => "publish_ok",
            MessageType::ClientSetup => "client_setup",
            MessageType::ServerSetup => "server_setup",
        }
    }
}

/// Reading a message type's wire ID back gives that type, and a wire ID
/// that names a type is that type's ID.
pub proof fn lemma_message_type_id(t: MessageType, v: u64)
    ensures
        MessageType::spec_from_id(t.spec_id()) == Some(t),
        MessageType::spec_from_id(v) matches Some(u) ==> u.spec_id() == v,
{
}

impl FetchType {
    /// The wire value of a fetch type.
    pub open spec fn spec_value(self) -> u64 {
        match self {
            FetchType::Standalone => 1,
            FetchType::RelativeJoining => 2,
            FetchType::AbsoluteJoining => 3,
        }
    }

    /// The fetch type with wire value `v`, if the draft assigns it.
    pub open spec fn spec_from_u64(v: u64) -> Option<FetchType> {
        if v == 1 {
            Some(FetchType::Standalone)
        } else if v == 2 {
            Some(FetchType::RelativeJoining)
        } else if v == 3 {
            Some(FetchType::AbsoluteJoining)
        } else {
            None
        }
    }

    /// Convert a raw wire value to a [`FetchType`].
    pub fn from_u64(v: u64) -> (r: Option<Self>)
        ensures
            r == Self::spec_from_u64(v),
    {
        match v {
            1 => Some(FetchType::Standalone),
            2 => Some(FetchType::RelativeJoining),
            3 => Some(FetchType::AbsoluteJoining),
            _ => None,
        }
    }
}

/// A fetch type's wire value is read back as that type.
pub proof fn lemma_fetch_type_value(t: FetchType, v: u64)
    ensures
        FetchType::spec_from_u64(t.spec_value()) == Some(t),
        FetchType::spec_from_u64(v) matches Some(u) ==> u.spec_value() == v,
{
}

impl ControlMessage {
    /// The message type of a message.
    pub open spec fn spec_message_type(&self) -> MessageType {
        match self {
            ControlMessage::ClientSetup(_) => MessageType::ClientSetup,
            ControlMessage::ServerSetup(_) => MessageType::ServerSetup,
            ControlMessage::GoAway(_) => MessageType::GoAway,
            ControlMessage::MaxRequestId(_) => MessageType::MaxRequestId,
            ControlMessage::RequestsBlocked(_) => MessageType::RequestsBlocked,
            ControlMessage::RequestOk(_) => MessageType::RequestOk,
            ControlMessage::RequestError(_) => MessageType::RequestError,
            ControlMessage::Subscribe(_) => MessageType::Subscribe,
            ControlMessage::SubscribeOk(_) => MessageType::SubscribeOk,
            ControlMessage::RequestUpdate(_) => MessageType::RequestUpdate,
            ControlMessage::Unsubscribe(_) => MessageType::Unsubscribe,
            ControlMessage::Publish(_) => MessageType::Publish,
            ControlMessage::PublishOk(_) => MessageType::PublishOk,
            ControlMessage::PublishDone(_) => MessageType::PublishDone,
            ControlMessage::PublishNamespace(_) => MessageType::PublishNamespace,
            ControlMessage::PublishNamespaceDone(_) => MessageType::PublishNamespaceDone,
            ControlMessage::PublishNamespaceCancel(_) => MessageType::PublishNamespaceCancel,
            ControlMessage::Namespace(_) => MessageType::Namespace,
            ControlMessage::NamespaceDone(_) => MessageType::NamespaceDone,
            ControlMessage::SubscribeNamespace(_) => MessageType::SubscribeNamespace,
            ControlMessage::TrackStatus(_) => MessageType::TrackStatus,
            ControlMessage::Fetch(_) => MessageType::Fetch,
            ControlMessage::FetchOk(_) => MessageType::FetchOk,
            ControlMessage::FetchCancel(_) => MessageType::FetchCancel,
        }
    }

    /// Get the message type ID for this message.
    pub fn message_type(&self) -> (r: MessageType)
        ensures
            r == self.spec_message_type(),
    {
        match self {
            ControlMessage::ClientSetup(_) => MessageType::ClientSetup,
            ControlMessage::ServerSetup(_) => MessageType::ServerSetup,
            ControlMessage::GoAway(_) => MessageType::GoAway,
            ControlMessage::MaxRequestId(_) => MessageType::MaxRequestId,
            ControlMessage::RequestsBlocked(_) => MessageType::RequestsBlocked,
            ControlMessage::RequestOk(_) => MessageType::RequestOk,
            ControlMessage::RequestError(_) => MessageType::RequestError,
            ControlMessage::Subscribe(_) => MessageType::Subscribe,
            ControlMessage::SubscribeOk(_) => MessageType::SubscribeOk,
            ControlMessage::RequestUpdate(_) => MessageType::RequestUpdate,
            ControlMessage::Unsubscribe(_) => MessageType::Unsubscribe,
            ControlMessage::Publish(_) => MessageType::Publish,
            ControlMessage::PublishOk(_) => MessageType::PublishOk,
            ControlMessage::PublishDone(_) => MessageType::PublishDone,
            ControlMessage::PublishNamespace(_) => MessageType::PublishNamespace,
            ControlMessage::PublishNamespaceDone(_) => MessageType::PublishNamespaceDone,
            ControlMessage::PublishNamespaceCancel(_) => MessageType::PublishNamespaceCancel,
            ControlMessage::Namespace(_) => MessageType::Namespace,
            ControlMessage::NamespaceDone(_) => MessageType::NamespaceDone,
            ControlMessage::SubscribeNamespace(_) => MessageType::SubscribeNamespace,
            ControlMessage::TrackStatus(_) => MessageType::TrackStatus,
            ControlMessage::Fetch(_) => MessageType::Fetch,
            ControlMessage::FetchOk(_) => MessageType::FetchOk,
            ControlMessage::FetchCancel(_) => MessageType::FetchCancel,
        }
    }
}

// ============================================================
// Checks a message must pass before it is written
// ============================================================

/// Whether a message's discriminators agree with the fields beside them:
/// FETCH's Fetch Type with its payload.
pub open spec fn spec_discriminators_agree(message: ControlMessage) -> bool {
    match message {
        ControlMessage::Fetch(m) => (m.fetch_payload is Standalone) == (m.fetch_type
            == FetchType::Standalone),
        _ => true,
    }
}

/// Refuse a FETCH whose Fetch Type disagrees with its payload: the encoder
/// would write what the body holds and the decoder would read what the type
/// announces.
pub fn check_discriminators(message: &ControlMessage) -> (r: Result<(), CodecError>)
    ensures
        r == (if spec_discriminators_agree(*message) {
            Ok::<(), CodecError>(())
        } else {
            Err::<(), CodecError>(CodecError::InvalidField)
        }),
{
    if let ControlMessage::Fetch(m) = message {
        let body_is_standalone = matches!(m.fetch_payload, FetchPayload::Standalone { .. });
        if body_is_standalone != (m.fetch_type == FetchType::Standalone) {
            return Err(CodecError::InvalidField);
        }
    }
    Ok(())
}

// ============================================================
// Track names and reason phrases
// ============================================================

/// Hold a namespace and a track name to the Full Track Name cap: the sum of
/// the namespace's field lengths and the name's length may not pass
/// [`MAX_FULL_TRACK_NAME_LENGTH`]. Neither field can settle this alone.
pub fn check_full_track_name(namespace: &TrackNamespace, track_name: &[u8]) -> (r: Result<(), CodecError>)
    ensures
        r == (if spec_field_bytes_len(namespace.0@) + track_name@.len() > MAX_FULL_TRACK_NAME_LENGTH {
            Err::<(), CodecError>(CodecError::TrackNameTooLong)
        } else {
            Ok::<(), CodecError>(())
        }),
{
    let total = namespace.field_bytes_len().saturating_add(track_name.len());
    if total > MAX_FULL_TRACK_NAME_LENGTH {
        return Err(CodecError::TrackNameTooLong);
    }
    Ok(())
}

/// Read a Reason Phrase at `pos`: its length, refused above
/// [`MAX_REASON_PHRASE_LENGTH`] before any of its bytes is read, then the
/// bytes, with the position after them.
pub fn read_reason_phrase(buf: &[u8], pos: usize) -> (r: Result<(Vec<u8>, usize), CodecError>)
    ensures
        match spec_varint_at(buf@, pos as int) {
            None => r == Err::<(Vec<u8>, usize), CodecError>(varint_end()),
            Some((len, q)) => if len > MAX_REASON_PHRASE_LENGTH {
                r == Err::<(Vec<u8>, usize), CodecError>(CodecError::ReasonPhraseTooLong)
            } else {
                match spec_bytes_at(buf@, q, len) {
                    None => r == Err::<(Vec<u8>, usize), CodecError>(CodecError::UnexpectedEnd),
                    Some((b, n)) => (r matches Ok((v, m)) && v@ == b && m == n),
                }
            },
        },
{
    let (len, q) = read_varint_u64(buf, pos)?;
    if len > MAX_REASON_PHRASE_LENGTH as u64 {
        return Err(CodecError::ReasonPhraseTooLong);
    }
    read_bytes(buf, q, len)
}

// ============================================================
// Duplicate parameter types
// ============================================================

/// AUTHORIZATION TOKEN (0x03): the one parameter type whose own definition
/// lets it repeat, in both the message and the setup namespace.
pub const AUTHORIZATION_TOKEN: u64 = 0x03;

/// Every setup parameter type draft-16 names.
pub const KNOWN_SETUP_PARAMETERS: [u64; 6] = [0x01, 0x02, 0x03, 0x04, 0x05, 0x07];

/// Every message parameter type draft-16 names: DELIVERY_TIMEOUT (0x02),
/// AUTHORIZATION_TOKEN (0x03), EXPIRES (0x08), LARGEST_OBJECT (0x09), FORWARD
/// (0x10), SUBSCRIBER_PRIORITY (0x20), SUBSCRIPTION_FILTER (0x21), GROUP_ORDER
/// (0x22) and NEW_GROUP_REQUEST (0x32).
pub const KNOWN_MESSAGE_PARAMETERS: [u64; 9] = [0x02, 0x03, 0x08, 0x09, 0x10, 0x20, 0x21, 0x22, 0x32];

/// Refuse a message parameter whose type draft-16 does not name, naming the
/// first such type.
pub fn check_message_parameters_are_known(parameters: &[KeyValuePair]) -> (r: Result<(), CodecError>)
    ensures
        match r {
            Ok(()) => forall|i: int|
                0 <= i < parameters@.len() ==> KNOWN_MESSAGE_PARAMETERS@.contains(
                    #[trigger] parameters@[i].key@,
                ),
            Err(e) => exists|i: int|
                0 <= i < parameters@.len() && !KNOWN_MESSAGE_PARAMETERS@.contains(
                    #[trigger] parameters@[i].key@,
                ) && (forall|i2: int|
                    0 <= i2 < i ==> KNOWN_MESSAGE_PARAMETERS@.contains(
                        #[trigger] parameters@[i2].key@,
                    )) && e == CodecError::UnknownMessageParameter(parameters@[i].key@),
        },
{
    let known = KNOWN_MESSAGE_PARAMETERS;
    let mut i: usize = 0;
    while i < parameters.len()
        invariant
            i <= parameters@.len(),
            known@ == KNOWN_MESSAGE_PARAMETERS@,
            forall|i2: int|
                0 <= i2 < i ==> KNOWN_MESSAGE_PARAMETERS@.contains(#[trigger] parameters@[i2].key@),
        decreases parameters@.len() - i,
    {
        let key = parameters[i].key.into_inner();
        if !slice_contains(known.as_slice(), key) {
            return Err(CodecError::UnknownMessageParameter(key));
        }
        i = i + 1;
    }
    Ok(())
}

/// Refuse a parameter list a sender may not put on the wire: any repeated
/// type but [`AUTHORIZATION_TOKEN`], known to this codec or not (Section 9.2).
/// The error names the type of the first parameter that repeats an earlier
/// one.
pub fn check_sent_duplicate_parameters(parameters: &[KeyValuePair]) -> (r: Result<(), CodecError>)
    ensures
        match r {
            Ok(()) => forall|i: int|
                0 <= i < parameters@.len() ==> !#[trigger] spec_is_repeat(
                    parameters@,
                    i,
                    AUTHORIZATION_TOKEN,
                    Seq::empty(),
                    false,
                ),
            Err(e) => exists|i: int|
                0 <= i < parameters@.len() && #[trigger] spec_is_repeat(
                    parameters@,
                    i,
                    AUTHORIZATION_TOKEN,
                    Seq::empty(),
                    false,
                ) && (forall|i2: int|
                    0 <= i2 < i ==> !#[trigger] spec_is_repeat(
                        parameters@,
                        i2,
                        AUTHORIZATION_TOKEN,
                        Seq::empty(),
                        false,
                    )) && e == CodecError::DuplicateParameter(parameters@[i].key@),
        },
{
    let none: [u64; 0] = [];
    let r = check_no_repeats(parameters, AUTHORIZATION_TOKEN, none.as_slice(), false);
    assert(none@ =~= Seq::<u64>::empty());
    r
}

/// Refuse a received parameter list that repeats a type in `known`; a repeat
/// of any other type is carried, since receivers must allow duplicates of
/// unknown parameters (Section 9.2).
pub fn check_received_duplicate_parameters(parameters: &[KeyValuePair], known: &[u64]) -> (r: Result<(), CodecError>)
    ensures
        match r {
            Ok(()) => forall|i: int|
                0 <= i < parameters@.len() ==> !#[trigger] spec_is_repeat(
                    parameters@,
                    i,
                    AUTHORIZATION_TOKEN,
                    known@,
                    true,
                ),
            Err(e) => exists|i: int|
                0 <= i < parameters@.len() && #[trigger] spec_is_repeat(
                    parameters@,
                    i,
                    AUTHORIZATION_TOKEN,
                    known@,
                    true,
                ) && (forall|i2: int|
                    0 <= i2 < i ==> !#[trigger] spec_is_repeat(
                        parameters@,
                        i2,
                        AUTHORIZATION_TOKEN,
                        known@,
                        true,
                    )) && e == CodecError::DuplicateParameter(parameters@[i].key@),
        },
{
    check_no_repeats(parameters, AUTHORIZATION_TOKEN, known, true)
}

// ============================================================
// Parameter value ranges
// ============================================================

/// Whether a parameter's varint `value` is in the range its type allows:
/// DELIVERY_TIMEOUT (0x02) above zero, FORWARD (0x10) at most 1,
/// SUBSCRIBER_PRIORITY (0x20) at most 255, GROUP_ORDER (0x22) Ascending or
/// Descending.
pub open spec fn spec_parameter_value_in_range(key: u64, value: u64) -> bool {
    if key == 0x02 {
        value > 0
    } else if key == 0x10 {
        value <= 1
    } else if key == 0x20 {
        value <= 255
    } else if key == 0x22 {
        value == 1 || value == 2
    } else {
        true
    }
}

/// Whether a parameter's varint `value` is in the range its type allows.
pub fn parameter_value_in_range(key: u64, value: u64) -> (r: bool)
    ensures
        r == spec_parameter_value_in_range(key, value),
{
    match key {
        0x02 => value > 0,
        0x10 => value <= 1,
        0x20 => value <= 255,
        0x22 => value == 1 || value == 2,
        _ => true,
    }
}

/// Whether the parameter at `i` holds a varint outside the range of its type.
pub open spec fn spec_value_out_of_range(ps: Seq<KeyValuePair>, i: int) -> bool {
    ps[i].value matches KvpValue::Varint(v) && !spec_parameter_value_in_range(ps[i].key@, v@)
}

/// Refuse a parameter whose varint value falls outside the range its type
/// allows, naming the first such parameter's type and value. Byte-string
/// values are not examined.
pub fn check_parameter_value_ranges(parameters: &[KeyValuePair]) -> (r: Result<(), CodecError>)
    ensures
        match r {
            Ok(()) => forall|i: int|
                0 <= i < parameters@.len() ==> !#[trigger] spec_value_out_of_range(parameters@, i),
            Err(e) => exists|i: int|
                0 <= i < parameters@.len() && #[trigger] spec_value_out_of_range(parameters@, i)
                    && (forall|i2: int|
                    0 <= i2 < i ==> !#[trigger] spec_value_out_of_range(parameters@, i2)) && e
                    == CodecError::ParameterValueOutOfRange {
                    key: parameters@[i].key@,
                    value: parameters@[i].value->Varint_0@,
                },
        },
{
    let mut i: usize = 0;
    while i < parameters.len()
        invariant
            i <= parameters@.len(),
            forall|i2: int| 0 <= i2 < i ==> !#[trigger] spec_value_out_of_range(parameters@, i2),
        decreases parameters@.len() - i,
    {
        match &parameters[i].value {
            KvpValue::Varint(value) => {
                let key = parameters[i].key.into_inner();
                let value = value.into_inner();
                if !parameter_value_in_range(key, value) {
                    assert(spec_value_out_of_range(parameters@, i as int));
                    return Err(CodecError::ParameterValueOutOfRange { key, value });
                }
            },
            KvpValue::Bytes(_) => {},
        }
        i = i + 1;
    }
    Ok(())
}


// ============================================================
// Delta-encoded Key-Value-Pairs (Section 1.4.2)
// ============================================================
//
// Each pair's Type is written as the difference from the previous pair's
// Type, or from 0 for the first pair of a run; the value follows the
// even/odd rule of the resolved Type: a varint under an even Type, a length
// and that many bytes under an odd one.

/// The Type a delta resolves to after `prev`, refused where it runs past the
/// varint range.
pub open spec fn spec_add_delta(prev: u64, delta: u64) -> Result<u64, CodecError> {
    if prev + delta < VARINT_BOUND {
        Ok((prev + delta) as u64)
    } else {
        Err(CodecError::KeyDeltaOverflow(prev, delta))
    }
}

/// The Type a delta resolves to after `prev_key`.
pub fn add_delta(prev_key: u64, delta: u64) -> (r: Result<VarInt, CodecError>)
    ensures
        match spec_add_delta(prev_key, delta) {
            Ok(k) => r matches Ok(x) && x@ == k,
            Err(e) => r == Err::<VarInt, CodecError>(e),
        },
{
    if delta >= VARINT_BOUND || prev_key >= VARINT_BOUND - delta {
        return Err(CodecError::KeyDeltaOverflow(prev_key, delta));
    }
    VarInt::from_u64(prev_key + delta).map_err(|_e| CodecError::KeyDeltaOverflow(prev_key, delta))
}

/// The value of a pair of Type `key`, read at `p`.
pub open spec fn spec_kvp_value_at(key: u64, s: Seq<u8>, p: int) -> Result<(KvpValueView, int), CodecError> {
    if key % 2 == 0 {
        match spec_varint_at(s, p) {
            None => Err(varint_end()),
            Some((v, q)) => Ok((KvpValueView::Varint(v), q)),
        }
    } else {
        match spec_varint_at(s, p) {
            None => Err(varint_end()),
            Some((len, q)) => if len > 0xFFFF {
                Err(CodecError::Kvp(KvpError::ValueTooLong(len as usize)))
            } else {
                match spec_bytes_at(s, q, len) {
                    None => Err(CodecError::UnexpectedEnd),
                    Some((b, r)) => Ok((KvpValueView::Bytes(b), r)),
                }
            },
        }
    }
}

/// What reading one delta-encoded pair at `p` after a pair of Type `prev`
/// gives: the running Type afterwards, which moves as soon as the Type is
/// resolved, and the pair with the position after it.
pub open spec fn spec_decode_delta_pair(prev: u64, s: Seq<u8>, p: int) -> (u64, Result<
    (KeyValuePairView, int),
    CodecError,
>) {
    match spec_varint_at(s, p) {
        None => (prev, Err(varint_end())),
        Some((delta, p1)) => match spec_add_delta(prev, delta) {
            Err(e) => (prev, Err(e)),
            Ok(key) => (
                key,
                match spec_kvp_value_at(key, s, p1) {
                    Err(e) => Err(e),
                    Ok((v, q)) => Ok((KeyValuePairView { key, value: v }, q)),
                },
            ),
        },
    }
}

fn read_kvp_value(key: u64, buf: &[u8], pos: usize) -> (r: Result<(KvpValue, usize), CodecError>)
    ensures
        match spec_kvp_value_at(key, buf@, pos as int) {
            Ok((v, q)) => (r matches Ok((x, n)) && x@ == v && n == q),
            Err(e) => r == Err::<(KvpValue, usize), CodecError>(e),
        },
{
    if key % 2 == 0 {
        let (v, q) = read_varint(buf, pos)?;
        Ok((KvpValue::Varint(v), q))
    } else {
        let (len, q) = read_varint_u64(buf, pos)?;
        if len > 0xFFFF {
            return Err(CodecError::Kvp(KvpError::ValueTooLong(len as usize)));
        }
        let (b, r) = read_bytes(buf, q, len)?;
        Ok((KvpValue::Bytes(b), r))
    }
}

/// Read one delta-encoded pair at `pos` after the pair of Type
/// `*prev_key`, which moves to the pair's Type as soon as it is resolved.
pub fn decode_kvp_delta_pair(prev_key: &mut u64, buf: &[u8], pos: usize) -> (r: Result<
    (KeyValuePair, usize),
    CodecError,
>)
    ensures
        ({
            let (np, res) = spec_decode_delta_pair(*old(prev_key), buf@, pos as int);
            &&& *final(prev_key) == np
            &&& match res {
                Ok((kv, q)) => (r matches Ok((x, n)) && x@ == kv && n == q),
                Err(e) => r == Err::<(KeyValuePair, usize), CodecError>(e),
            }
        }),
{
    let (delta, p1) = read_varint_u64(buf, pos)?;
    let key = add_delta(*prev_key, delta)?;
    let abs_key = key.into_inner();
    *prev_key = abs_key;
    let (value, q) = read_kvp_value(abs_key, buf, p1)?;
    Ok((KeyValuePair { key, value }, q))
}

/// The bytes of a pair's value: a varint, or a length and the bytes.
pub open spec fn spec_encode_kvp_value(v: KvpValueView) -> Seq<u8> {
    match v {
        KvpValueView::Varint(x) => spec_varint_encode(x),
        KvpValueView::Bytes(b) => spec_varint_encode(b.len() as u64) + b,
    }
}

/// Write one pair after the pair of Type `*prev_key` as a delta. A Type
/// below the previous one is `ParametersOutOfOrder`, with nothing written;
/// otherwise the running Type moves to the pair's and the delta is written,
/// and then a byte value longer than 2^16-1 is refused.
pub fn encode_kvp_delta_pair(prev_key: &mut u64, pair: &KeyValuePair, buf: &mut Vec<u8>) -> (r: Result<(), CodecError>)
    ensures
        if pair.key@ < *old(prev_key) {
            &&& r == Err::<(), CodecError>(
                CodecError::ParametersOutOfOrder(*old(prev_key), pair.key@),
            )
            &&& *final(prev_key) == *old(prev_key)
            &&& final(buf)@ == old(buf)@
        } else {
            &&& *final(prev_key) == pair.key@
            &&& match pair.value@ {
                KvpValueView::Bytes(b) if b.len() > 0xFFFF => {
                    &&& r == Err::<(), CodecError>(
                        CodecError::Kvp(KvpError::ValueTooLong(b.len() as usize)),
                    )
                    &&& final(buf)@ == old(buf)@ + spec_varint_encode(
                        (pair.key@ - *old(prev_key)) as u64,
                    )
                },
                _ => {
                    &&& r == Ok::<(), CodecError>(())
                    &&& final(buf)@ == old(buf)@ + spec_varint_encode(
                        (pair.key@ - *old(prev_key)) as u64,
                    ) + spec_encode_kvp_value(pair.value@)
                },
            }
        },
{
    let abs_key = pair.key.into_inner();
    if abs_key < *prev_key {
        return Err(CodecError::ParametersOutOfOrder(*prev_key, abs_key));
    }
    let delta = abs_key - *prev_key;
    *prev_key = abs_key;
    let ghost start = buf@;
    VarInt::from_u64(delta).unwrap().encode(buf);
    let ghost mid = buf@;
    match &pair.value {
        KvpValue::Varint(v) => v.encode(buf),
        KvpValue::Bytes(bytes) => {
            if bytes.len() > MAX_KVP_VALUE_LEN {
                return Err(CodecError::Kvp(KvpError::ValueTooLong(bytes.len())));
            }
            VarInt::from_usize(bytes.len()).encode(buf);
            put_slice(buf, bytes.as_slice());
            assert(buf@ =~= mid + spec_encode_kvp_value(pair.value@));
        },
    }
    Ok(())
}


/// Reading a pair consumes at least one byte.
pub proof fn lemma_delta_pair_advances(prev: u64, s: Seq<u8>, p: int)
    ensures
        spec_decode_delta_pair(prev, s, p).1 matches Ok((_, q)) ==> q > p,
{
}

/// The pairs of a delta-encoded run that fills `s` from `p` to its end,
/// the first resolved against `prev`.
pub open spec fn spec_decode_delta_run(prev: u64, s: Seq<u8>, p: int) -> Result<
    Seq<KeyValuePairView>,
    CodecError,
>
    decreases s.len() - p,
{
    if p < 0 || p >= s.len() {
        Ok(Seq::empty())
    } else {
        let (np, res) = spec_decode_delta_pair(prev, s, p);
        match res {
            Err(e) => Err(e),
            Ok((kv, q)) => {
                proof {
                    lemma_delta_pair_advances(prev, s, p);
                }
                match spec_decode_delta_run(np, s, q) {
                    Err(e) => Err(e),
                    Ok(rest) => Ok(seq![kv] + rest),
                }
            },
        }
    }
}

/// The views of a list of pairs.
pub open spec fn spec_kvp_views(ps: Seq<KeyValuePair>) -> Seq<KeyValuePairView> {
    ps.map_values(|kv: KeyValuePair| kv@)
}

/// Read the delta-encoded pairs that fill `buf` from `pos` to its end, the
/// first resolved against Type 0.
pub fn decode_delta_run(buf: &[u8], pos: usize) -> (r: Result<Vec<KeyValuePair>, CodecError>)
    ensures
        match spec_decode_delta_run(0, buf@, pos as int) {
            Ok(ps) => r matches Ok(v) && spec_kvp_views(v@) == ps,
            Err(e) => r == Err::<Vec<KeyValuePair>, CodecError>(e),
        },
{
    let ghost s = buf@;
    let mut out: Vec<KeyValuePair> = Vec::new();
    let mut prev_key: u64 = 0;
    let mut p = pos;
    while p < buf.len()
        invariant
            s == buf@,
            pos <= p,
            match spec_decode_delta_run(prev_key, s, p as int) {
                Ok(rest) => spec_decode_delta_run(0, s, pos as int) == Ok::<
                    Seq<KeyValuePairView>,
                    CodecError,
                >(spec_kvp_views(out@) + rest),
                Err(e) => spec_decode_delta_run(0, s, pos as int) == Err::<
                    Seq<KeyValuePairView>,
                    CodecError,
                >(e),
            },
        decreases s.len() - p,
    {
        let ghost old_prev = prev_key;
        let ghost old_views = spec_kvp_views(out@);
        let (pair, q) = decode_kvp_delta_pair(&mut prev_key, buf, p)?;
        proof {
            lemma_delta_pair_advances(old_prev, s, p as int);
            let rest = spec_decode_delta_run(prev_key, s, q as int);
            if let Ok(r2) = rest {
                assert(spec_kvp_views(out@.push(pair)) =~= old_views.push(pair@));
                assert(old_views + (seq![pair@] + r2) =~= old_views.push(pair@) + r2);
            }
        }
        out.push(pair);
        p = q;
    }
    proof {
        assert(spec_decode_delta_run(prev_key, s, p as int) == Ok::<
            Seq<KeyValuePairView>,
            CodecError,
        >(Seq::empty()));
        assert(spec_kvp_views(out@) + Seq::<KeyValuePairView>::empty() =~= spec_kvp_views(out@));
    }
    Ok(out)
}


// ============================================================
// Track extensions
// ============================================================

/// The track extension type whose value is itself a run of delta-encoded
/// pairs: IMMUTABLE_EXTENSIONS (0x0B).
pub const IMMUTABLE_EXTENSIONS: u64 = 0x0B;

/// Whether a track extension's varint `value` is in the range its type
/// allows: DELIVERY_TIMEOUT (0x02) above zero,
/// DEFAULT_PUBLISHER_GROUP_ORDER (0x22) Ascending or Descending,
/// DYNAMIC_GROUPS (0x30) at most 1.
pub open spec fn spec_track_extension_value_in_range(key: u64, value: u64) -> bool {
    if key == 0x02 {
        value > 0
    } else if key == 0x22 {
        value == 1 || value == 2
    } else if key == 0x30 {
        value <= 1
    } else {
        true
    }
}

/// Whether a track extension's varint `value` is in the range its type
/// allows.
pub fn track_extension_value_in_range(key: u64, value: u64) -> (r: bool)
    ensures
        r == spec_track_extension_value_in_range(key, value),
{
    match key {
        0x02 => value > 0,
        0x22 => value == 1 || value == 2,
        0x30 => value <= 1,
        _ => true,
    }
}

/// A measure of a list of pairs that a nested run within one of them is
/// below: one per pair, plus the length of each byte value.
pub open spec fn spec_kvp_weight(ps: Seq<KeyValuePairView>) -> nat
    decreases ps.len(),
{
    if ps.len() == 0 {
        0
    } else {
        1 + match ps[0].value {
            KvpValueView::Varint(_) => 0nat,
            KvpValueView::Bytes(b) => b.len(),
        } + spec_kvp_weight(ps.drop_first())
    }
}

/// A pair lies within the bytes it is read from, and spans at least two
/// bytes besides its byte value.
pub proof fn lemma_delta_pair_size(prev: u64, s: Seq<u8>, p: int)
    ensures
        spec_decode_delta_pair(prev, s, p).1 matches Ok((kv, q)) ==> q <= s.len() && q >= p + 2
            + match kv.value {
            KvpValueView::Varint(_) => 0nat,
            KvpValueView::Bytes(b) => b.len(),
        },
{
}

/// The pairs a run decodes to weigh no more than the bytes it spans.
pub proof fn lemma_run_weight(prev: u64, s: Seq<u8>, p: int)
    requires
        0 <= p,
    ensures
        spec_decode_delta_run(prev, s, p) matches Ok(ps) ==> spec_kvp_weight(ps) + p <= s.len()
            || p >= s.len(),
    decreases s.len() - p,
{
    if p < s.len() {
        let (np, res) = spec_decode_delta_pair(prev, s, p);
        if let Ok((kv, q)) = res {
            lemma_delta_pair_advances(prev, s, p);
            lemma_delta_pair_size(prev, s, p);
            lemma_run_weight(np, s, q);
            if let Ok(rest) = spec_decode_delta_run(np, s, q) {
                let ps = seq![kv] + rest;
                assert(spec_decode_delta_run(prev, s, p) == Ok::<
                    Seq<KeyValuePairView>,
                    CodecError,
                >(ps));
                assert(ps.drop_first() =~= rest);
                assert(ps[0] == kv);
                if q >= s.len() {
                    assert(rest =~= Seq::<KeyValuePairView>::empty());
                    assert(spec_kvp_weight(rest) == 0);
                }
                assert(spec_kvp_weight(rest) + q <= s.len());
                assert(spec_kvp_weight(ps) == 1 + match kv.value {
                    KvpValueView::Varint(_) => 0nat,
                    KvpValueView::Bytes(b) => b.len(),
                } + spec_kvp_weight(rest));
            }
        }
    }
}

/// The verdict on a list of track extensions: the first varint value out of
/// its type's range is `TrackPropertyValueOutOfRange`, and the value of an
/// IMMUTABLE_EXTENSIONS pair that reads as a run of pairs is held to the same
/// rule; one that does not read as a run is carried unchecked, as are other
/// byte values.
pub open spec fn spec_check_track_extensions(ps: Seq<KeyValuePairView>) -> Result<(), CodecError>
    decreases spec_kvp_weight(ps),
{
    if ps.len() == 0 {
        Ok(())
    } else {
        let kv = ps[0];
        match kv.value {
            KvpValueView::Varint(v) => if !spec_track_extension_value_in_range(kv.key, v) {
                Err(CodecError::TrackPropertyValueOutOfRange { key: kv.key, value: v })
            } else {
                spec_check_track_extensions(ps.drop_first())
            },
            KvpValueView::Bytes(b) => if kv.key == 0x0B {
                match spec_decode_delta_run(0, b, 0) {
                    Err(_) => spec_check_track_extensions(ps.drop_first()),
                    Ok(nested) => {
                        proof {
                            lemma_run_weight(0, b, 0);
                        }
                        match spec_check_track_extensions(nested) {
                            Err(e) => Err(e),
                            Ok(()) => spec_check_track_extensions(ps.drop_first()),
                        }
                    },
                }
            } else {
                spec_check_track_extensions(ps.drop_first())
            },
        }
    }
}

/// Refuse a list of track extensions holding a varint value outside the
/// range of its type, looking inside IMMUTABLE_EXTENSIONS values that read
/// as runs of pairs.
pub fn check_track_extension_values(extensions: &[KeyValuePair]) -> (r: Result<(), CodecError>)
    ensures
        r == spec_check_track_extensions(spec_kvp_views(extensions@)),
    decreases spec_kvp_weight(spec_kvp_views(extensions@)),
{
    let ghost views = spec_kvp_views(extensions@);
    proof {
        assert(views.skip(0) =~= views);
    }
    let mut i: usize = 0;
    while i < extensions.len()
        invariant
            i <= extensions@.len(),
            views == spec_kvp_views(extensions@),
            spec_check_track_extensions(views) == spec_check_track_extensions(views.skip(i as int)),
            spec_kvp_weight(views.skip(i as int)) <= spec_kvp_weight(views),
        decreases extensions@.len() - i,
    {
        let ghost tail = views.skip(i as int);
        proof {
            assert(tail[0] == extensions@[i as int]@);
            assert(tail.drop_first() =~= views.skip(i + 1));
        }
        let key = extensions[i].key.into_inner();
        match &extensions[i].value {
            KvpValue::Varint(value) => {
                let value = value.into_inner();
                if !track_extension_value_in_range(key, value) {
                    return Err(CodecError::TrackPropertyValueOutOfRange { key, value });
                }
            },
            KvpValue::Bytes(bytes) => {
                if key == IMMUTABLE_EXTENSIONS {
                    match decode_delta_run(bytes.as_slice(), 0) {
                        Ok(nested) => {
                            proof {
                                lemma_run_weight(0, bytes@, 0);
                            }
                            check_track_extension_values(nested.as_slice())?;
                        },
                        Err(_) => {},
                    }
                }
            },
        }
        i = i + 1;
    }
    proof {
        assert(views.skip(i as int) =~= Seq::<KeyValuePairView>::empty());
    }
    Ok(())
}

/// Read the track extensions that fill `buf` from `pos` to its end and hold
/// them to their value ranges.
pub fn decode_track_extensions(buf: &[u8], pos: usize) -> (r: Result<Vec<KeyValuePair>, CodecError>)
    ensures
        match spec_decode_delta_run(0, buf@, pos as int) {
            Ok(ps) => match spec_check_track_extensions(ps) {
                Ok(()) => r matches Ok(v) && spec_kvp_views(v@) == ps,
                Err(e) => r == Err::<Vec<KeyValuePair>, CodecError>(e),
            },
            Err(e) => r == Err::<Vec<KeyValuePair>, CodecError>(e),
        },
{
    let out = decode_delta_run(buf, pos)?;
    check_track_extension_values(out.as_slice())?;
    Ok(out)
}


/// What writing `ps` as a delta-encoded run after a pair of Type `prev`
/// puts on the wire, and the error it stops at, if any: a Type below the one
/// before it stops the run before its pair, and a byte value longer than
/// 2^16-1 stops it after the pair's delta.
pub open spec fn spec_encode_delta_run(prev: u64, ps: Seq<KeyValuePairView>) -> (Seq<u8>, Option<
    CodecError,
>)
    decreases ps.len(),
{
    if ps.len() == 0 {
        (Seq::empty(), None)
    } else {
        let kv = ps[0];
        if kv.key < prev {
            (Seq::empty(), Some(CodecError::ParametersOutOfOrder(prev, kv.key)))
        } else {
            let d = spec_varint_encode((kv.key - prev) as u64);
            match kv.value {
                KvpValueView::Bytes(b) if b.len() > 0xFFFF => (
                    d,
                    Some(CodecError::Kvp(KvpError::ValueTooLong(b.len() as usize))),
                ),
                _ => {
                    let (rest, e) = spec_encode_delta_run(kv.key, ps.drop_first());
                    (d + spec_encode_kvp_value(kv.value) + rest, e)
                },
            }
        }
    }
}

/// Write track extensions as a delta-encoded run, refusing before writing
/// anything a list [`check_track_extension_values`] refuses.
pub fn encode_track_extensions(exts: &[KeyValuePair], buf: &mut Vec<u8>) -> (r: Result<(), CodecError>)
    ensures
        match spec_check_track_extensions(spec_kvp_views(exts@)) {
            Err(e) => r == Err::<(), CodecError>(e) && final(buf)@ == old(buf)@,
            Ok(()) => {
                let (bytes, err) = spec_encode_delta_run(0, spec_kvp_views(exts@));
                &&& final(buf)@ == old(buf)@ + bytes
                &&& r == match err {
                    None => Ok::<(), CodecError>(()),
                    Some(e) => Err::<(), CodecError>(e),
                }
            },
        },
{
    check_track_extension_values(exts)?;
    encode_delta_run(exts, buf)
}

/// Write `exts` as a delta-encoded run, the first Type against 0. Stops at
/// the first pair the run refuses, with what was written before it left in
/// place.
pub fn encode_delta_run(exts: &[KeyValuePair], buf: &mut Vec<u8>) -> (r: Result<(), CodecError>)
    ensures
        ({
            let (bytes, err) = spec_encode_delta_run(0, spec_kvp_views(exts@));
            &&& final(buf)@ == old(buf)@ + bytes
            &&& r == match err {
                None => Ok::<(), CodecError>(()),
                Some(e) => Err::<(), CodecError>(e),
            }
        }),
{
    let ghost views = spec_kvp_views(exts@);
    let ghost start = buf@;
    let ghost mut written: Seq<u8> = Seq::empty();
    let mut prev_key: u64 = 0;
    let mut i: usize = 0;
    proof {
        assert(views.skip(0) =~= views);
    }
    while i < exts.len()
        invariant
            i <= exts@.len(),
            views == spec_kvp_views(exts@),
            start == old(buf)@,
            buf@ == start + written,
            spec_encode_delta_run(0, views).0 == written + spec_encode_delta_run(
                prev_key,
                views.skip(i as int),
            ).0,
            spec_encode_delta_run(0, views).1 == spec_encode_delta_run(
                prev_key,
                views.skip(i as int),
            ).1,
        decreases exts@.len() - i,
    {
        let ghost tail = views.skip(i as int);
        let ghost old_prev = prev_key;
        let ghost before = buf@;
        proof {
            assert(tail[0] == exts@[i as int]@);
            assert(tail.drop_first() =~= views.skip(i + 1));
        }
        let res = encode_kvp_delta_pair(&mut prev_key, &exts[i], buf);
        match res {
            Ok(()) => {
                proof {
                    let d = spec_varint_encode((tail[0].key - old_prev) as u64);
                    let piece = d + spec_encode_kvp_value(tail[0].value);
                    assert(buf@ =~= start + (written + piece));
                    assert(written + spec_encode_delta_run(old_prev, tail).0 =~= (written + piece)
                        + spec_encode_delta_run(prev_key, views.skip(i + 1)).0);
                    written = written + piece;
                }
            },
            Err(e) => {
                proof {
                    if exts@[i as int].key@ >= old_prev {
                        let d = spec_varint_encode((tail[0].key - old_prev) as u64);
                        assert(buf@ =~= start + (written + d));
                        assert(spec_encode_delta_run(old_prev, tail).0 == d);
                        assert(spec_encode_delta_run(old_prev, tail).1 == Some(e));
                        assert(written + d =~= written + spec_encode_delta_run(old_prev, tail).0);
                        assert(buf@ == start + spec_encode_delta_run(0, views).0);
                    } else {
                        assert(spec_encode_delta_run(old_prev, tail).0 =~= Seq::<u8>::empty());
                        assert(spec_encode_delta_run(old_prev, tail).1 == Some(e));
                        assert(buf@ =~= start + written);
                        assert(written =~= written + spec_encode_delta_run(old_prev, tail).0);
                        assert(buf@ == start + spec_encode_delta_run(0, views).0);
                    }
                }
                return Err(e);
            },
        }
        i = i + 1;
    }
    proof {
        assert(views.skip(i as int) =~= Seq::<KeyValuePairView>::empty());
        assert(written + Seq::<u8>::empty() =~= written);
    }
    Ok(())
}

/// Whether `ps` can be written as a delta-encoded run after a pair of Type
/// `prev` and read back as written: Types ascend from `prev` and are
/// varints, each value has the shape its Type's parity gives it, varint
/// values are varints and byte values hold at most 2^16-1 bytes.
pub open spec fn spec_delta_run_encodable(prev: u64, ps: Seq<KeyValuePairView>) -> bool {
    &&& forall|i: int| 0 <= i < ps.len() ==> prev <= #[trigger] ps[i].key < VARINT_BOUND
    &&& forall|i: int, j: int| 0 <= i < j < ps.len() ==> ps[i].key <= ps[j].key
    &&& forall|i: int|
        0 <= i < ps.len() ==> match #[trigger] ps[i].value {
            KvpValueView::Varint(v) => ps[i].key % 2 == 0 && v < VARINT_BOUND,
            KvpValueView::Bytes(b) => ps[i].key % 2 == 1 && b.len() <= 0xFFFF,
        }
}

/// A run of pairs that can be written as a delta-encoded run is written
/// without error and read back as the same pairs, from wherever it starts
/// up to the end of the bytes.
pub proof fn lemma_delta_run_roundtrip(prev: u64, ps: Seq<KeyValuePairView>, pre: Seq<u8>)
    requires
        spec_delta_run_encodable(prev, ps),
    ensures
        spec_encode_delta_run(prev, ps).1 is None,
        spec_decode_delta_run(prev, pre + spec_encode_delta_run(prev, ps).0, pre.len() as int)
            == Ok::<Seq<KeyValuePairView>, CodecError>(ps),
    decreases ps.len(),
{
    if ps.len() == 0 {
        assert(pre + Seq::<u8>::empty() =~= pre);
        assert(ps =~= Seq::<KeyValuePairView>::empty());
    } else {
        let kv = ps[0];
        let rest = ps.drop_first();
        assert forall|i: int| 0 <= i < rest.len() implies kv.key <= #[trigger] rest[i].key
            < VARINT_BOUND by {
            assert(rest[i] == ps[i + 1]);
        }
        assert forall|i: int, j: int| 0 <= i < j < rest.len() implies rest[i].key
            <= rest[j].key by {
            assert(rest[i] == ps[i + 1]);
            assert(rest[j] == ps[j + 1]);
        }
        assert forall|i: int| 0 <= i < rest.len() implies match #[trigger] rest[i].value {
            KvpValueView::Varint(v) => rest[i].key % 2 == 0 && v < VARINT_BOUND,
            KvpValueView::Bytes(b) => rest[i].key % 2 == 1 && b.len() <= 0xFFFF,
        } by {
            assert(rest[i] == ps[i + 1]);
        }
        let d = spec_varint_encode((kv.key - prev) as u64);
        let v = spec_encode_kvp_value(kv.value);
        let a1 = pre + d;
        let a2 = a1 + v;
        lemma_delta_run_roundtrip(kv.key, rest, a2);
        let rb = spec_encode_delta_run(kv.key, rest).0;
        let s = a2 + rb;
        assert(pre + spec_encode_delta_run(prev, ps).0 =~= s);
        lemma_prefix_of_add(a2, rb);
        lemma_prefix_of_add(a1, v);
        lemma_prefix_trans(a1, a2, s);
        lemma_varint_encoded(pre, (kv.key - prev) as u64);
        lemma_varint_at_prefix(a1, s, pre.len() as int);
        assert(spec_add_delta(prev, (kv.key - prev) as u64) == Ok::<u64, CodecError>(kv.key));
        match kv.value {
            KvpValueView::Varint(x) => {
                lemma_varint_encoded(a1, x);
                lemma_varint_at_prefix(a2, s, a1.len() as int);
            },
            KvpValueView::Bytes(b) => {
                let al = a1 + spec_varint_encode(b.len() as u64);
                assert(a2 =~= al + b);
                lemma_prefix_of_add(al, b);
                lemma_prefix_trans(al, a2, s);
                lemma_varint_encoded(a1, b.len() as u64);
                lemma_varint_at_prefix(al, s, a1.len() as int);
                lemma_bytes_encoded(al, b);
                lemma_bytes_at_prefix(a2, s, al.len() as int, b.len() as u64);
            },
        }
        assert(spec_kvp_value_at(kv.key, s, a1.len() as int) == Ok::<
            (KvpValueView, int),
            CodecError,
        >((kv.value, a2.len() as int)));
        assert(spec_decode_delta_pair(prev, s, pre.len() as int) == (
            kv.key,
            Ok::<(KeyValuePairView, int), CodecError>((kv, a2.len() as int)),
        ));
        assert(spec_decode_delta_run(kv.key, s, a2.len() as int) == Ok::<
            Seq<KeyValuePairView>,
            CodecError,
        >(rest));
        lemma_delta_pair_advances(prev, s, pre.len() as int);
        assert(pre.len() < s.len());
        assert(spec_decode_delta_run(prev, s, pre.len() as int) == Ok::<
            Seq<KeyValuePairView>,
            CodecError,
        >(seq![kv] + rest));
        assert(seq![kv] + rest =~= ps);
    }
}

/// Track extensions that pass their value-range check and can be written
/// as a delta-encoded run are written without error and read back as the
/// same extensions.
pub proof fn lemma_track_extensions_roundtrip(ps: Seq<KeyValuePairView>, pre: Seq<u8>)
    requires
        spec_check_track_extensions(ps) is Ok,
        spec_delta_run_encodable(0, ps),
    ensures
        spec_encode_delta_run(0, ps).1 is None,
        spec_decode_delta_run(0, pre + spec_encode_delta_run(0, ps).0, pre.len() as int) == Ok::<
            Seq<KeyValuePairView>,
            CodecError,
        >(ps),
{
    lemma_delta_run_roundtrip(0, ps, pre);
}

} // verus!
