//! Draft-14 control messages: the message types and their wire IDs, the
//! message structures, and the checks a message must pass before it is
//! written.
//!
//! Framing: `type_id(vi) + payload_length(16) + payload`.

use vstd::prelude::*;
use crate::error::{CodecError, MAX_FULL_TRACK_NAME_LENGTH, MAX_REASON_PHRASE_LENGTH};
use crate::kvp::{check_no_repeats, spec_is_repeat, KeyValuePair};
use crate::types::{
    spec_field_bytes_len, ContentExists, FilterType, Forward, GroupOrder, Location, TrackNamespace,
};
use crate::wire::{read_bytes, read_u8, read_varint_u64, spec_bytes_at, spec_u8_at, varint_end};
use crate::varint::{spec_varint_at, VarInt};

verus! {

/// Control message type IDs (draft-14).
#[derive(Debug, Clone, Copy, PartialEq, Eq, Structural)]
pub enum MessageType {
    /// SubscribeUpdate (type 0x02).
    SubscribeUpdate,
    /// Subscribe (type 0x03).
    Subscribe,
    /// SubscribeOk (type 0x04).
    SubscribeOk,
    /// SubscribeError (type 0x05).
    SubscribeError,
    /// PublishNamespace (type 0x06).
    PublishNamespace,
    /// PublishNamespaceOk (type 0x07).
    PublishNamespaceOk,
    /// PublishNamespaceError (type 0x08).
    PublishNamespaceError,
    /// PublishNamespaceDone (type 0x09).
    PublishNamespaceDone,
    /// Unsubscribe (type 0x0A).
    Unsubscribe,
    /// PublishDone (type 0x0B).
    PublishDone,
    /// PublishNamespaceCancel (type 0x0C).
    PublishNamespaceCancel,
    /// TrackStatus (type 0x0D).
    TrackStatus,
    /// TrackStatusOk (type 0x0E).
    TrackStatusOk,
    /// TrackStatusError (type 0x0F).
    TrackStatusError,
    /// GoAway (type 0x10).
    GoAway,
    /// SubscribeNamespace (type 0x11).
    SubscribeNamespace,
    /// SubscribeNamespaceOk (type 0x12).
    SubscribeNamespaceOk,
    /// SubscribeNamespaceError (type 0x13).
    SubscribeNamespaceError,
    /// UnsubscribeNamespace (type 0x14).
    UnsubscribeNamespace,
    /// MaxRequestId (type 0x15).
    MaxRequestId,
    /// Fetch (type 0x16).
    Fetch,
    /// FetchCancel (type 0x17).
    FetchCancel,
    /// FetchOk (type 0x18).
    FetchOk,
    /// FetchError (type 0x19).
    FetchError,
    /// RequestsBlocked (type 0x1A).
    RequestsBlocked,
    /// Publish (type 0x1D).
    Publish,
    /// PublishOk (type 0x1E).
    PublishOk,
    /// PublishError (type 0x1F).
    PublishError,
    /// ClientSetup (type 0x20).
    ClientSetup,
    /// ServerSetup (type 0x21).
    ServerSetup,
}


// ============================================================
// Session Lifecycle Messages
// ============================================================

/// CLIENT_SETUP message (type 0x20).
#[derive(Debug, Clone, PartialEq, Eq)]
pub struct ClientSetup {
    /// List of MoQT versions supported by the client.
    pub supported_versions: Vec<VarInt>,
    /// Setup parameters.
    pub parameters: Vec<KeyValuePair>,
}

/// SERVER_SETUP message (type 0x21).
#[derive(Debug, Clone, PartialEq, Eq)]
pub struct ServerSetup {
    /// The MoQT version selected by the server.
    pub selected_version: VarInt,
    /// Setup parameters.
    pub parameters: Vec<KeyValuePair>,
}

/// GOAWAY message (type 0x10).
#[derive(Debug, Clone, PartialEq, Eq)]
pub struct GoAway {
    /// URI for the new session to connect to.
    pub new_session_uri: Vec<u8>,
}

/// MAX_REQUEST_ID message (type 0x15).
#[derive(Debug, Clone, PartialEq, Eq)]
pub struct MaxRequestId {
    /// The maximum request ID the peer may use.
    pub request_id: VarInt,
}

/// REQUESTS_BLOCKED message (type 0x1A).
#[derive(Debug, Clone, PartialEq, Eq)]
pub struct RequestsBlocked {
    /// The request ID that is currently blocked on.
    pub maximum_request_id: VarInt,
}

// ============================================================
// Subscribe Messages
// ============================================================

/// SUBSCRIBE message (type 0x03).
#[derive(Debug, Clone, PartialEq, Eq)]
pub struct Subscribe {
    /// The request ID for this subscription.
    pub request_id: VarInt,
    /// The track namespace.
    pub track_namespace: TrackNamespace,
    /// The track name within the namespace.
    pub track_name: Vec<u8>,
    /// Subscriber priority for this track.
    pub subscriber_priority: u8,
    /// Requested group delivery order.
    pub group_order: GroupOrder,
    /// Whether to forward data on this subscription.
    pub forward: Forward,
    /// The filter type controlling which objects are delivered.
    pub filter_type: FilterType,
    /// Present only for AbsoluteStart and AbsoluteRange filter types.
    pub start_location: Option<Location>,
    /// Present only for AbsoluteRange filter type.
    pub end_group: Option<VarInt>,
    /// Subscribe parameters.
    pub parameters: Vec<KeyValuePair>,
}

/// SUBSCRIBE_OK message (type 0x04).
#[derive(Debug, Clone, PartialEq, Eq)]
pub struct SubscribeOk {
    /// The request ID this response corresponds to.
    pub request_id: VarInt,
    /// The track alias assigned by the publisher.
    pub track_alias: VarInt,
    /// Subscription expiry in milliseconds (0 = no expiry).
    pub expires: VarInt,
    /// The group delivery order chosen by the publisher.
    pub group_order: GroupOrder,
    /// Whether the largest location is included.
    pub content_exists: ContentExists,
    /// Present only when content_exists == HasLargestLocation.
    pub largest_location: Option<Location>,
    /// Response parameters.
    pub parameters: Vec<KeyValuePair>,
}

/// SUBSCRIBE_ERROR message (type 0x05).
#[derive(Debug, Clone, PartialEq, Eq)]
pub struct SubscribeError {
    /// The request ID this error corresponds to.
    pub request_id: VarInt,
    /// Application-defined error code.
    pub error_code: VarInt,
    /// Human-readable reason phrase.
    pub reason_phrase: Vec<u8>,
}

/// SUBSCRIBE_UPDATE message (type 0x02).
#[derive(Debug, Clone, PartialEq, Eq)]
pub struct SubscribeUpdate {
    /// The request ID for this update message.
    pub request_id: VarInt,
    /// The request ID of the subscription being updated.
    pub subscription_request_id: VarInt,
    /// Updated start location.
    pub start_location: Location,
    /// Updated end group.
    pub end_group: VarInt,
    /// Updated subscriber priority.
    pub subscriber_priority: u8,
    /// Updated forward preference.
    pub forward: Forward,
    /// Updated parameters.
    pub parameters: Vec<KeyValuePair>,
}

/// UNSUBSCRIBE message (type 0x0A).
#[derive(Debug, Clone, PartialEq, Eq)]
pub struct Unsubscribe {
    /// The request ID of the subscription to cancel.
    pub request_id: VarInt,
}

// ============================================================
// Publish Messages
// ============================================================

/// PUBLISH message (type 0x1D).
#[derive(Debug, Clone, PartialEq, Eq)]
pub struct Publish {
    /// Request ID.
    pub request_id: VarInt,
    /// Track namespace.
    pub track_namespace: TrackNamespace,
    /// Track name.
    pub track_name: Vec<u8>,
    /// Track alias assigned by the publisher.
    pub track_alias: VarInt,
    /// Group delivery order.
    pub group_order: GroupOrder,
    /// Whether a largest location is included.
    pub content_exists: ContentExists,
    /// Largest location, present when content_exists == HasLargestLocation.
    pub largest_location: Option<Location>,
    /// Forward preference.
    pub forward: Forward,
    /// Publish parameters.
    pub parameters: Vec<KeyValuePair>,
}

/// PUBLISH_OK message (type 0x1E).
#[derive(Debug, Clone, PartialEq, Eq)]
pub struct PublishOk {
    /// Request ID this response corresponds to.
    pub request_id: VarInt,
    /// Forward preference.
    pub forward: Forward,
    /// Subscriber priority.
    pub subscriber_priority: u8,
    /// Group order.
    pub group_order: GroupOrder,
    /// Filter type.
    pub filter_type: FilterType,
    /// Present only for AbsoluteStart and AbsoluteRange filter types.
    pub start_location: Option<Location>,
    /// Present only for AbsoluteRange filter type.
    pub end_group: Option<VarInt>,
    /// Response parameters.
    pub parameters: Vec<KeyValuePair>,
}

/// PUBLISH_ERROR message (type 0x1F).
#[derive(Debug, Clone, PartialEq, Eq)]
pub struct PublishError {
    /// The request ID this error corresponds to.
    pub request_id: VarInt,
    /// Application-defined error code.
    pub error_code: VarInt,
    /// Human-readable reason phrase.
    pub reason_phrase: Vec<u8>,
}

/// PUBLISH_DONE message (type 0x0B).
#[derive(Debug, Clone, PartialEq, Eq)]
pub struct PublishDone {
    /// Request ID.
    pub request_id: VarInt,
    /// Status code describing why the publish finished.
    pub status_code: VarInt,
    /// Number of data streams used by this publish.
    pub stream_count: VarInt,
    /// Human-readable reason phrase.
    pub reason_phrase: Vec<u8>,
}

// ============================================================
// Publish Namespace Messages
// ============================================================

/// PUBLISH_NAMESPACE message (type 0x06).
#[derive(Debug, Clone, PartialEq, Eq)]
pub struct PublishNamespace {
    /// The request ID for this namespace publish.
    pub request_id: VarInt,
    /// The track namespace to publish.
    pub track_namespace: TrackNamespace,
    /// Publish namespace parameters.
    pub parameters: Vec<KeyValuePair>,
}

/// PUBLISH_NAMESPACE_OK message (type 0x07).
#[derive(Debug, Clone, PartialEq, Eq)]
pub struct PublishNamespaceOk {
    /// The request ID this response corresponds to.
    pub request_id: VarInt,
}

/// PUBLISH_NAMESPACE_ERROR message (type 0x08).
#[derive(Debug, Clone, PartialEq, Eq)]
pub struct PublishNamespaceError {
    /// The request ID this error corresponds to.
    pub request_id: VarInt,
    /// Application-defined error code.
    pub error_code: VarInt,
    /// Human-readable reason phrase.
    pub reason_phrase: Vec<u8>,
}

/// PUBLISH_NAMESPACE_DONE message (type 0x09).
#[derive(Debug, Clone, PartialEq, Eq)]
pub struct PublishNamespaceDone {
    /// Track namespace being finalized.
    pub track_namespace: TrackNamespace,
}

/// PUBLISH_NAMESPACE_CANCEL message (type 0x0C).
#[derive(Debug, Clone, PartialEq, Eq)]
pub struct PublishNamespaceCancel {
    /// Track namespace being cancelled.
    pub track_namespace: TrackNamespace,
    /// Application-defined error code.
    pub error_code: VarInt,
    /// Human-readable reason phrase.
    pub reason_phrase: Vec<u8>,
}

// ============================================================
// Subscribe Namespace Messages
// ============================================================

/// SUBSCRIBE_NAMESPACE message (type 0x11).
#[derive(Debug, Clone, PartialEq, Eq)]
pub struct SubscribeNamespace {
    /// The request ID for this namespace subscription.
    pub request_id: VarInt,
    /// The track namespace to subscribe to.
    pub track_namespace: TrackNamespace,
    /// Subscribe namespace parameters.
    pub parameters: Vec<KeyValuePair>,
}

/// SUBSCRIBE_NAMESPACE_OK message (type 0x12).
#[derive(Debug, Clone, PartialEq, Eq)]
pub struct SubscribeNamespaceOk {
    /// The request ID this response corresponds to.
    pub request_id: VarInt,
}

/// SUBSCRIBE_NAMESPACE_ERROR message (type 0x13).
#[derive(Debug, Clone, PartialEq, Eq)]
pub struct SubscribeNamespaceError {
    /// The request ID this error corresponds to.
    pub request_id: VarInt,
    /// Application-defined error code.
    pub error_code: VarInt,
    /// Human-readable reason phrase.
    pub reason_phrase: Vec<u8>,
}

/// UNSUBSCRIBE_NAMESPACE message (type 0x14).
#[derive(Debug, Clone, PartialEq, Eq)]
pub struct UnsubscribeNamespace {
    /// The namespace prefix of the namespace subscription to cancel.
    pub track_namespace_prefix: TrackNamespace,
}

// ============================================================
// Fetch Messages
// ============================================================

/// FETCH type discriminator (standalone vs joining).
#[derive(Debug, Clone, Copy, PartialEq, Eq, Structural)]
pub enum FetchType {
    /// Standalone fetch with explicit track and range.
    Standalone,
    /// Joining fetch relative to a subscribe request.
    RelativeJoining,
    /// Joining fetch at an absolute group.
    AbsoluteJoining,
}



/// FETCH payload — either a standalone fetch or a joining fetch.
#[derive(Debug, Clone, PartialEq, Eq)]
pub enum FetchPayload {
    /// Standalone fetch.
    Standalone {
        /// Track namespace.
        track_namespace: TrackNamespace,
        /// Track name.
        track_name: Vec<u8>,
        /// Starting group ID.
        start_group: VarInt,
        /// Starting object ID.
        start_object: VarInt,
        /// Ending group ID.
        end_group: VarInt,
        /// Ending object ID.
        end_object: VarInt,
    },
    /// Joining fetch.
    Joining {
        /// The Request ID of the subscription this fetch joins.
        ///
        /// Section 9.16.2 names the field Joining Request ID, as every draft
        /// from 12 on does. Drafts 08 through 11 spelled it Joining Subscribe
        /// ID.
        joining_request_id: VarInt,
        /// Joining start (relative offset or absolute group).
        joining_start: VarInt,
    },
}

/// FETCH message (type 0x16).
#[derive(Debug, Clone, PartialEq, Eq)]
pub struct Fetch {
    /// The request ID for this fetch.
    pub request_id: VarInt,
    /// Subscriber priority.
    pub subscriber_priority: u8,
    /// Requested group order.
    pub group_order: GroupOrder,
    /// Fetch type discriminator.
    pub fetch_type: FetchType,
    /// Variant-specific payload.
    pub fetch_payload: FetchPayload,
    /// Fetch parameters.
    pub parameters: Vec<KeyValuePair>,
}

/// FETCH_OK message (type 0x18).
#[derive(Debug, Clone, PartialEq, Eq)]
pub struct FetchOk {
    /// The request ID this response corresponds to.
    pub request_id: VarInt,
    /// Group order chosen by the publisher.
    pub group_order: GroupOrder,
    /// End-of-track flag. A single byte, per Figure 39.
    pub end_of_track: u8,
    /// End location (largest group / object in the fetch).
    pub end_location: Location,
    /// Response parameters.
    pub parameters: Vec<KeyValuePair>,
}

/// FETCH_ERROR message (type 0x19).
#[derive(Debug, Clone, PartialEq, Eq)]
pub struct FetchError {
    /// The request ID this error corresponds to.
    pub request_id: VarInt,
    /// Application-defined error code.
    pub error_code: VarInt,
    /// Human-readable reason phrase.
    pub reason_phrase: Vec<u8>,
}

/// FETCH_CANCEL message (type 0x17).
#[derive(Debug, Clone, PartialEq, Eq)]
pub struct FetchCancel {
    /// The request ID of the fetch to cancel.
    pub request_id: VarInt,
}

// ============================================================
// Track Status Messages
// ============================================================

/// TRACK_STATUS message (type 0x0D) — subscribe-like request.
#[derive(Debug, Clone, PartialEq, Eq)]
pub struct TrackStatus {
    /// The request ID for this track status query.
    pub request_id: VarInt,
    /// The track namespace to query status for.
    pub track_namespace: TrackNamespace,
    /// The track name within the namespace.
    pub track_name: Vec<u8>,
    /// Subscriber priority.
    pub subscriber_priority: u8,
    /// Requested group order.
    pub group_order: GroupOrder,
    /// Forward preference.
    pub forward: Forward,
    /// Filter type.
    pub filter_type: FilterType,
    /// Present only for AbsoluteStart and AbsoluteRange filter types.
    pub start_location: Option<Location>,
    /// Present only for AbsoluteRange filter type.
    pub end_group: Option<VarInt>,
    /// Track status parameters.
    pub parameters: Vec<KeyValuePair>,
}

/// TRACK_STATUS_OK message (type 0x0E) — subscribe_ok-like response.
#[derive(Debug, Clone, PartialEq, Eq)]
pub struct TrackStatusOk {
    /// The request ID this response corresponds to.
    pub request_id: VarInt,
    /// Track alias.
    pub track_alias: VarInt,
    /// Subscription expiry in milliseconds.
    pub expires: VarInt,
    /// Group order.
    pub group_order: GroupOrder,
    /// Whether content exists / largest location is present.
    pub content_exists: ContentExists,
    /// The largest location, present when content_exists == HasLargestLocation.
    pub largest_location: Option<Location>,
    /// Response parameters.
    pub parameters: Vec<KeyValuePair>,
}

/// TRACK_STATUS_ERROR message (type 0x0F).
#[derive(Debug, Clone, PartialEq, Eq)]
pub struct TrackStatusError {
    /// The request ID this error corresponds to.
    pub request_id: VarInt,
    /// Application-defined error code.
    pub error_code: VarInt,
    /// Human-readable reason phrase.
    pub reason_phrase: Vec<u8>,
}

// ============================================================
// Unified Message Enum
// ============================================================

/// A parsed MoQT control message (draft-14).
#[derive(Debug, Clone, PartialEq, Eq)]
pub enum ControlMessage {
    /// ClientSetup (type 0x20).
    ClientSetup(ClientSetup),
    /// ServerSetup (type 0x21).
    ServerSetup(ServerSetup),
    /// GoAway (type 0x10).
    GoAway(GoAway),
    /// MaxRequestId (type 0x15).
    MaxRequestId(MaxRequestId),
    /// RequestsBlocked (type 0x1A).
    RequestsBlocked(RequestsBlocked),
    /// Subscribe (type 0x03).
    Subscribe(Subscribe),
    /// SubscribeOk (type 0x04).
    SubscribeOk(SubscribeOk),
    /// SubscribeError (type 0x05).
    SubscribeError(SubscribeError),
    /// SubscribeUpdate (type 0x02).
    SubscribeUpdate(SubscribeUpdate),
    /// Unsubscribe (type 0x0A).
    Unsubscribe(Unsubscribe),
    /// Publish (type 0x1D).
    Publish(Publish),
    /// PublishOk (type 0x1E).
    PublishOk(PublishOk),
    /// PublishError (type 0x1F).
    PublishError(PublishError),
    /// PublishDone (type 0x0B).
    PublishDone(PublishDone),
    /// PublishNamespace (type 0x06).
    PublishNamespace(PublishNamespace),
    /// PublishNamespaceOk (type 0x07).
    PublishNamespaceOk(PublishNamespaceOk),
    /// PublishNamespaceError (type 0x08).
    PublishNamespaceError(PublishNamespaceError),
    /// PublishNamespaceDone (type 0x09).
    PublishNamespaceDone(PublishNamespaceDone),
    /// PublishNamespaceCancel (type 0x0C).
    PublishNamespaceCancel(PublishNamespaceCancel),
    /// SubscribeNamespace (type 0x11).
    SubscribeNamespace(SubscribeNamespace),
    /// SubscribeNamespaceOk (type 0x12).
    SubscribeNamespaceOk(SubscribeNamespaceOk),
    /// SubscribeNamespaceError (type 0x13).
    SubscribeNamespaceError(SubscribeNamespaceError),
    /// UnsubscribeNamespace (type 0x14).
    UnsubscribeNamespace(UnsubscribeNamespace),
    /// Fetch (type 0x16).
    Fetch(Fetch),
    /// FetchOk (type 0x18).
    FetchOk(FetchOk),
    /// FetchError (type 0x19).
    FetchError(FetchError),
    /// FetchCancel (type 0x17).
    FetchCancel(FetchCancel),
    /// TrackStatus (type 0x0D).
    TrackStatus(TrackStatus),
    /// TrackStatusOk (type 0x0E).
    TrackStatusOk(TrackStatusOk),
    /// TrackStatusError (type 0x0F).
    TrackStatusError(TrackStatusError),
}

impl MessageType {
    /// The wire ID of a message type.
    pub open spec fn spec_id(self) -> u64 {
        match self {
            MessageType::SubscribeUpdate => 0x02,
            MessageType::Subscribe => 0x03,
            MessageType::SubscribeOk => 0x04,
            MessageType::SubscribeError => 0x05,
            MessageType::PublishNamespace => 0x06,
            MessageType::PublishNamespaceOk => 0x07,
            MessageType::PublishNamespaceError => 0x08,
            MessageType::PublishNamespaceDone => 0x09,
            MessageType::Unsubscribe => 0x0A,
            MessageType::PublishDone => 0x0B,
            MessageType::PublishNamespaceCancel => 0x0C,
            MessageType::TrackStatus => 0x0D,
            MessageType::TrackStatusOk => 0x0E,
            MessageType::TrackStatusError => 0x0F,
            MessageType::GoAway => 0x10,
            MessageType::SubscribeNamespace => 0x11,
            MessageType::SubscribeNamespaceOk => 0x12,
            MessageType::SubscribeNamespaceError => 0x13,
            MessageType::UnsubscribeNamespace => 0x14,
            MessageType::MaxRequestId => 0x15,
            MessageType::Fetch => 0x16,
            MessageType::FetchCancel => 0x17,
            MessageType::FetchOk => 0x18,
            MessageType::FetchError => 0x19,
            MessageType::RequestsBlocked => 0x1A,
            MessageType::Publish => 0x1D,
            MessageType::PublishOk => 0x1E,
            MessageType::PublishError => 0x1F,
            MessageType::ClientSetup => 0x20,
            MessageType::ServerSetup => 0x21,
        }
    }

    /// The message type with wire ID `id`, if the draft assigns it.
    pub open spec fn spec_from_id(id: u64) -> Option<MessageType> {
        if id == 0x02 {
            Some(MessageType::SubscribeUpdate)
        } else if id == 0x03 {
            Some(MessageType::Subscribe)
        } else if id == 0x04 {
            Some(MessageType::SubscribeOk)
        } else if id == 0x05 {
            Some(MessageType::SubscribeError)
        } else if id == 0x06 {
            Some(MessageType::PublishNamespace)
        } else if id == 0x07 {
            Some(MessageType::PublishNamespaceOk)
        } else if id == 0x08 {
            Some(MessageType::PublishNamespaceError)
        } else if id == 0x09 {
            Some(MessageType::PublishNamespaceDone)
        } else if id == 0x0A {
            Some(MessageType::Unsubscribe)
        } else if id == 0x0B {
            Some(MessageType::PublishDone)
        } else if id == 0x0C {
            Some(MessageType::PublishNamespaceCancel)
        } else if id == 0x0D {
            Some(MessageType::TrackStatus)
        } else if id == 0x0E {
            Some(MessageType::TrackStatusOk)
        } else if id == 0x0F {
            Some(MessageType::TrackStatusError)
        } else if id == 0x10 {
            Some(MessageType::GoAway)
        } else if id == 0x11 {
            Some(MessageType::SubscribeNamespace)
        } else if id == 0x12 {
            Some(MessageType::SubscribeNamespaceOk)
        } else if id == 0x13 {
            Some(MessageType::SubscribeNamespaceError)
        } else if id == 0x14 {
            Some(MessageType::UnsubscribeNamespace)
        } else if id == 0x15 {
            Some(MessageType::MaxRequestId)
        } else if id == 0x16 {
            Some(MessageType::Fetch)
        } else if id == 0x17 {
            Some(MessageType::FetchCancel)
        } else if id == 0x18 {
            Some(MessageType::FetchOk)
        } else if id == 0x19 {
            Some(MessageType::FetchError)
        } else if id == 0x1A {
            Some(MessageType::RequestsBlocked)
        } else if id == 0x1D {
            Some(MessageType::Publish)
        } else if id == 0x1E {
            Some(MessageType::PublishOk)
        } else if id == 0x1F {
            Some(MessageType::PublishError)
        } else if id == 0x20 {
            Some(MessageType::ClientSetup)
        } else if id == 0x21 {
            Some(MessageType::ServerSetup)
        } else {
            None
        }
    }

    /// Look up a message type by its wire ID.
    pub fn from_id(id: u64) -> (r: Option<Self>)
        ensures
            r == Self::spec_from_id(id),
    {
        match id {
            0x02 => Some(MessageType::SubscribeUpdate),
            0x03 => Some(MessageType::Subscribe),
            0x04 => Some(MessageType::SubscribeOk),
            0x05 => Some(MessageType::SubscribeError),
            0x06 => Some(MessageType::PublishNamespace),
            0x07 => Some(MessageType::PublishNamespaceOk),
            0x08 => Some(MessageType::PublishNamespaceError),
            0x09 => Some(MessageType::PublishNamespaceDone),
            0x0A => Some(MessageType::Unsubscribe),
            0x0B => Some(MessageType::PublishDone),
            0x0C => Some(MessageType::PublishNamespaceCancel),
            0x0D => Some(MessageType::TrackStatus),
            0x0E => Some(MessageType::TrackStatusOk),
            0x0F => Some(MessageType::TrackStatusError),
            0x10 => Some(MessageType::GoAway),
            0x11 => Some(MessageType::SubscribeNamespace),
            0x12 => Some(MessageType::SubscribeNamespaceOk),
            0x13 => Some(MessageType::SubscribeNamespaceError),
            0x14 => Some(MessageType::UnsubscribeNamespace),
            0x15 => Some(MessageType::MaxRequestId),
            0x16 => Some(MessageType::Fetch),
            0x17 => Some(MessageType::FetchCancel),
            0x18 => Some(MessageType::FetchOk),
            0x19 => Some(MessageType::FetchError),
            0x1A => Some(MessageType::RequestsBlocked),
            0x1D => Some(MessageType::Publish),
            0x1E => Some(MessageType::PublishOk),
            0x1F => Some(MessageType::PublishError),
            0x20 => Some(MessageType::ClientSetup),
            0x21 => Some(MessageType::ServerSetup),
            _ => None,
        }
    }

    /// Return the wire ID for this message type.
    pub fn id(&self) -> (r: u64)
        ensures
            r == self.spec_id(),
    {
        match self {
            MessageType::SubscribeUpdate => 0x02,
            MessageType::Subscribe => 0x03,
            MessageType::SubscribeOk => 0x04,
            MessageType::SubscribeError => 0x05,
            MessageType::PublishNamespace => 0x06,
            MessageType::PublishNamespaceOk => 0x07,
            MessageType::PublishNamespaceError => 0x08,
            MessageType::PublishNamespaceDone => 0x09,
            MessageType::Unsubscribe => 0x0A,
            MessageType::PublishDone => 0x0B,
            MessageType::PublishNamespaceCancel => 0x0C,
            MessageType::TrackStatus => 0x0D,
            MessageType::TrackStatusOk => 0x0E,
            MessageType::TrackStatusError => 0x0F,
            MessageType::GoAway => 0x10,
            MessageType::SubscribeNamespace => 0x11,
            MessageType::SubscribeNamespaceOk => 0x12,
            MessageType::SubscribeNamespaceError => 0x13,
            MessageType::UnsubscribeNamespace => 0x14,
            MessageType::MaxRequestId => 0x15,
            MessageType::Fetch => 0x16,
            MessageType::FetchCancel => 0x17,
            MessageType::FetchOk => 0x18,
            MessageType::FetchError => 0x19,
            MessageType::RequestsBlocked => 0x1A,
            MessageType::Publish => 0x1D,
            MessageType::PublishOk => 0x1E,
            MessageType::PublishError => 0x1F,
            MessageType::ClientSetup => 0x20,
            MessageType::ServerSetup => 0x21,
        }
    }
}

/// Reading a message type's wire ID back gives that type, and a wire ID
/// that names a type is that type's ID.
pub proof fn lemma_message_type_id(t: MessageType, v: u64)
    ensures
        MessageType::spec_from_id(t.spec_id()) == Some(t),
        MessageType::spec_from_id(v) matches Some(u) ==> u.spec_id() == v,
{
}

impl FetchType {
    /// The wire value of a fetch type.
    pub open spec fn spec_value(self) -> u64 {
        match self {
            FetchType::Standalone => 1,
            FetchType::RelativeJoining => 2,
            FetchType::AbsoluteJoining => 3,
        }
    }

    /// The fetch type with wire value `v`, if the draft assigns it.
    pub open spec fn spec_from_u64(v: u64) -> Option<FetchType> {
        if v == 1 {
            Some(FetchType::Standalone)
        } else if v == 2 {
            Some(FetchType::RelativeJoining)
        } else if v == 3 {
            Some(FetchType::AbsoluteJoining)
        } else {
            None
        }
    }

    /// Convert a raw wire value to a [`FetchType`].
    pub fn from_u64(v: u64) -> (r: Option<Self>)
        ensures
            r == Self::spec_from_u64(v),
    {
        match v {
            1 => Some(FetchType::Standalone),
            2 => Some(FetchType::RelativeJoining),
            3 => Some(FetchType::AbsoluteJoining),
            _ => None,
        }
    }
}

/// A fetch type's wire value is read back as that type.
pub proof fn lemma_fetch_type_value(t: FetchType, v: u64)
    ensures
        FetchType::spec_from_u64(t.spec_value()) == Some(t),
        FetchType::spec_from_u64(v) matches Some(u) ==> u.spec_value() == v,
{
}

impl ControlMessage {
    /// The message type of a message.
    pub open spec fn spec_message_type(&self) -> MessageType {
        match self {
            ControlMessage::ClientSetup(_) => MessageType::ClientSetup,
            ControlMessage::ServerSetup(_) => MessageType::ServerSetup,
            ControlMessage::GoAway(_) => MessageType::GoAway,
            ControlMessage::MaxRequestId(_) => MessageType::MaxRequestId,
            ControlMessage::RequestsBlocked(_) => MessageType::RequestsBlocked,
            ControlMessage::Subscribe(_) => MessageType::Subscribe,
            ControlMessage::SubscribeOk(_) => MessageType::SubscribeOk,
            ControlMessage::SubscribeError(_) => MessageType::SubscribeError,
            ControlMessage::SubscribeUpdate(_) => MessageType::SubscribeUpdate,
            ControlMessage::Unsubscribe(_) => MessageType::Unsubscribe,
            ControlMessage::Publish(_) => MessageType::Publish,
            ControlMessage::PublishOk(_) => MessageType::PublishOk,
            ControlMessage::PublishError(_) => MessageType::PublishError,
            ControlMessage::PublishDone(_) => MessageType::PublishDone,
            ControlMessage::PublishNamespace(_) => MessageType::PublishNamespace,
            ControlMessage::PublishNamespaceOk(_) => MessageType::PublishNamespaceOk,
            ControlMessage::PublishNamespaceError(_) => MessageType::PublishNamespaceError,
            ControlMessage::PublishNamespaceDone(_) => MessageType::PublishNamespaceDone,
            ControlMessage::PublishNamespaceCancel(_) => MessageType::PublishNamespaceCancel,
            ControlMessage::SubscribeNamespace(_) => MessageType::SubscribeNamespace,
            ControlMessage::SubscribeNamespaceOk(_) => MessageType::SubscribeNamespaceOk,
            ControlMessage::SubscribeNamespaceError(_) => MessageType::SubscribeNamespaceError,
            ControlMessage::UnsubscribeNamespace(_) => MessageType::UnsubscribeNamespace,
            ControlMessage::Fetch(_) => MessageType::Fetch,
            ControlMessage::FetchOk(_) => MessageType::FetchOk,
            ControlMessage::FetchError(_) => MessageType::FetchError,
            ControlMessage::FetchCancel(_) => MessageType::FetchCancel,
            ControlMessage::TrackStatus(_) => MessageType::TrackStatus,
            ControlMessage::TrackStatusOk(_) => MessageType::TrackStatusOk,
            ControlMessage::TrackStatusError(_) => MessageType::TrackStatusError,
        }
    }

    /// Get the message type ID for this message.
    pub fn message_type(&self) -> (r: MessageType)
        ensures
            r == self.spec_message_type(),
    {
        match self {
            ControlMessage::ClientSetup(_) => MessageType::ClientSetup,
            ControlMessage::ServerSetup(_) => MessageType::ServerSetup,
            ControlMessage::GoAway(_) => MessageType::GoAway,
            ControlMessage::MaxRequestId(_) => MessageType::MaxRequestId,
            ControlMessage::RequestsBlocked(_) => MessageType::RequestsBlocked,
            ControlMessage::Subscribe(_) => MessageType::Subscribe,
            ControlMessage::SubscribeOk(_) => MessageType::SubscribeOk,
            ControlMessage::SubscribeError(_) => MessageType::SubscribeError,
            ControlMessage::SubscribeUpdate(_) => MessageType::SubscribeUpdate,
            ControlMessage::Unsubscribe(_) => MessageType::Unsubscribe,
            ControlMessage::Publish(_) => MessageType::Publish,
            ControlMessage::PublishOk(_) => MessageType::PublishOk,
            ControlMessage::PublishError(_) => MessageType::PublishError,
            ControlMessage::PublishDone(_) => MessageType::PublishDone,
            ControlMessage::PublishNamespace(_) => MessageType::PublishNamespace,
            ControlMessage::PublishNamespaceOk(_) => MessageType::PublishNamespaceOk,
            ControlMessage::PublishNamespaceError(_) => MessageType::PublishNamespaceError,
            ControlMessage::PublishNamespaceDone(_) => MessageType::PublishNamespaceDone,
            ControlMessage::PublishNamespaceCancel(_) => MessageType::PublishNamespaceCancel,
            ControlMessage::SubscribeNamespace(_) => MessageType::SubscribeNamespace,
            ControlMessage::SubscribeNamespaceOk(_) => MessageType::SubscribeNamespaceOk,
            ControlMessage::SubscribeNamespaceError(_) => MessageType::SubscribeNamespaceError,
            ControlMessage::UnsubscribeNamespace(_) => MessageType::UnsubscribeNamespace,
            ControlMessage::Fetch(_) => MessageType::Fetch,
            ControlMessage::FetchOk(_) => MessageType::FetchOk,
            ControlMessage::FetchError(_) => MessageType::FetchError,
            ControlMessage::FetchCancel(_) => MessageType::FetchCancel,
            ControlMessage::TrackStatus(_) => MessageType::TrackStatus,
            ControlMessage::TrackStatusOk(_) => MessageType::TrackStatusOk,
            ControlMessage::TrackStatusError(_) => MessageType::TrackStatusError,
        }
    }
}

// ============================================================
// Checks a message must pass before it is written
// ============================================================

/// The Group Order a response states where the draft forbids 0x0 in it:
/// SUBSCRIBE_OK, TRACK_STATUS_OK, FETCH_OK, PUBLISH and PUBLISH_OK.
pub open spec fn spec_response_group_order(message: ControlMessage) -> Option<GroupOrder> {
    match message {
        ControlMessage::SubscribeOk(m) => Some(m.group_order),
        ControlMessage::TrackStatusOk(m) => Some(m.group_order),
        ControlMessage::FetchOk(m) => Some(m.group_order),
        ControlMessage::Publish(m) => Some(m.group_order),
        ControlMessage::PublishOk(m) => Some(m.group_order),
        _ => None,
    }
}

/// Refuse a Group Order of 0x0 on the messages that forbid it ("Values of
/// 0x0 and those larger than 0x2 are a protocol error"), so that the codec
/// does not write a frame its own reader rejects.
pub fn check_group_order(message: &ControlMessage) -> (r: Result<(), CodecError>)
    ensures
        r == (if spec_response_group_order(*message) == Some(GroupOrder::Publisher) {
            Err::<(), CodecError>(CodecError::InvalidField)
        } else {
            Ok::<(), CodecError>(())
        }),
{
    let order = match message {
        ControlMessage::SubscribeOk(m) => m.group_order,
        ControlMessage::TrackStatusOk(m) => m.group_order,
        ControlMessage::FetchOk(m) => m.group_order,
        ControlMessage::Publish(m) => m.group_order,
        ControlMessage::PublishOk(m) => m.group_order,
        _ => return Ok(()),
    };
    if order == GroupOrder::Publisher {
        return Err(CodecError::InvalidField);
    }
    Ok(())
}

/// Whether a message's discriminators agree with the fields beside them:
/// FETCH's Fetch Type with its payload, SUBSCRIBE's Filter Type with its
/// start Location and end group, SUBSCRIBE_OK's Content Exists with its
/// largest Location.
pub open spec fn spec_discriminators_agree(message: ControlMessage) -> bool {
    match message {
        ControlMessage::Fetch(m) => (m.fetch_payload is Standalone) == (m.fetch_type
            == FetchType::Standalone),
        ControlMessage::Subscribe(m) => ((m.filter_type == FilterType::AbsoluteStart || m.filter_type
            == FilterType::AbsoluteRange) == (m.start_location is Some)) && ((m.filter_type
            == FilterType::AbsoluteRange) == (m.end_group is Some)),
        ControlMessage::SubscribeOk(m) => (m.content_exists == ContentExists::HasLargestLocation)
            == (m.largest_location is Some),
        _ => true,
    }
}

/// Refuse a message whose discriminator disagrees with the fields beside it:
/// the encoder would write what the body holds and the decoder would read
/// what the discriminator announces, so the message would not survive its
/// own round trip.
pub fn check_discriminators(message: &ControlMessage) -> (r: Result<(), CodecError>)
    ensures
        r == (if spec_discriminators_agree(*message) {
            Ok::<(), CodecError>(())
        } else {
            Err::<(), CodecError>(CodecError::InvalidField)
        }),
{
    match message {
        ControlMessage::Fetch(m) => {
            let body_is_standalone = matches!(m.fetch_payload, FetchPayload::Standalone { .. });
            if body_is_standalone != (m.fetch_type == FetchType::Standalone) {
                return Err(CodecError::InvalidField);
            }
        },
        ControlMessage::Subscribe(m) => {
            let wants_start = m.filter_type == FilterType::AbsoluteStart || m.filter_type
                == FilterType::AbsoluteRange;
            if wants_start != m.start_location.is_some() {
                return Err(CodecError::InvalidField);
            }
            if (m.filter_type == FilterType::AbsoluteRange) != m.end_group.is_some() {
                return Err(CodecError::InvalidField);
            }
        },
        ControlMessage::SubscribeOk(m) => {
            let has_location = m.content_exists == ContentExists::HasLargestLocation;
            if has_location != m.largest_location.is_some() {
                return Err(CodecError::InvalidField);
            }
        },
        _ => {},
    }
    Ok(())
}

// ============================================================
// Track names and reason phrases
// ============================================================

/// Hold a namespace and a track name to the Full Track Name cap: the sum of
/// the namespace's field lengths and the name's length may not pass
/// [`MAX_FULL_TRACK_NAME_LENGTH`]. Neither field can settle this alone.
pub fn check_full_track_name(namespace: &TrackNamespace, track_name: &[u8]) -> (r: Result<(), CodecError>)
    ensures
        r == (if spec_field_bytes_len(namespace.0@) + track_name@.len() > MAX_FULL_TRACK_NAME_LENGTH {
            Err::<(), CodecError>(CodecError::TrackNameTooLong)
        } else {
            Ok::<(), CodecError>(())
        }),
{
    let total = namespace.field_bytes_len().saturating_add(track_name.len());
    if total > MAX_FULL_TRACK_NAME_LENGTH {
        return Err(CodecError::TrackNameTooLong);
    }
    Ok(())
}

/// Read a Reason Phrase at `pos`: its length, refused above
/// [`MAX_REASON_PHRASE_LENGTH`] before any of its bytes is read, then the
/// bytes, with the position after them.
pub fn read_reason_phrase(buf: &[u8], pos: usize) -> (r: Result<(Vec<u8>, usize), CodecError>)
    ensures
        match spec_varint_at(buf@, pos as int) {
            None => r == Err::<(Vec<u8>, usize), CodecError>(varint_end()),
            Some((len, q)) => if len > MAX_REASON_PHRASE_LENGTH {
                r == Err::<(Vec<u8>, usize), CodecError>(CodecError::ReasonPhraseTooLong)
            } else {
                match spec_bytes_at(buf@, q, len) {
                    None => r == Err::<(Vec<u8>, usize), CodecError>(CodecError::UnexpectedEnd),
                    Some((b, n)) => (r matches Ok((v, m)) && v@ == b && m == n),
                }
            },
        },
{
    let (len, q) = read_varint_u64(buf, pos)?;
    if len > MAX_REASON_PHRASE_LENGTH as u64 {
        return Err(CodecError::ReasonPhraseTooLong);
    }
    read_bytes(buf, q, len)
}

/// Read the Group Order byte of a response at `pos`. A response states the
/// order it delivers in, so 0x0 (the publisher's order) is refused there,
/// as is any value above 0x2.
pub fn read_group_order_response(buf: &[u8], pos: usize) -> (r: Result<(GroupOrder, usize), CodecError>)
    ensures
        match spec_u8_at(buf@, pos as int) {
            None => r == Err::<(GroupOrder, usize), CodecError>(CodecError::UnexpectedEnd),
            Some((b, q)) => match GroupOrder::spec_from_u8(b) {
                Some(o) => if o == GroupOrder::Publisher {
                    r == Err::<(GroupOrder, usize), CodecError>(CodecError::InvalidField)
                } else {
                    r matches Ok((x, n)) && x == o && n == q
                },
                None => r == Err::<(GroupOrder, usize), CodecError>(CodecError::InvalidField),
            },
        },
{
    let (b, q) = read_u8(buf, pos)?;
    match GroupOrder::from_u8(b) {
        Some(GroupOrder::Publisher) => Err(CodecError::InvalidField),
        Some(order) => Ok((order, q)),
        None => Err(CodecError::InvalidField),
    }
}

// ============================================================
// Duplicate parameter types
// ============================================================

/// The one parameter type whose own definition lets it repeat:
/// AUTHORIZATION TOKEN (0x03), in both the message and the setup namespace.
pub const REPEATABLE_PARAMETER: u64 = 0x03;

/// Every version-specific parameter type draft-14 names (Section 9.2.1).
pub const KNOWN_VERSION_SPECIFIC_PARAMETERS: [u64; 3] = [0x02, 0x03, 0x04];

/// Every setup parameter type draft-14 names (Section 9.3.2).
pub const KNOWN_SETUP_PARAMETERS: [u64; 5] = [0x01, 0x02, 0x03, 0x04, 0x05];

/// Refuse a parameter list a sender may not put on the wire: any repeated
/// type but [`REPEATABLE_PARAMETER`], known to this codec or not (Section
/// 9.2). The error names the type of the first parameter that repeats an
/// earlier one.
pub fn check_no_duplicate_parameters_sent(parameters: &[KeyValuePair]) -> (r: Result<(), CodecError>)
    ensures
        match r {
            Ok(()) => forall|i: int|
                0 <= i < parameters@.len() ==> !#[trigger] spec_is_repeat(
                    parameters@,
                    i,
                    REPEATABLE_PARAMETER,
                    Seq::empty(),
                    false,
                ),
            Err(e) => exists|i: int|
                0 <= i < parameters@.len() && #[trigger] spec_is_repeat(
                    parameters@,
                    i,
                    REPEATABLE_PARAMETER,
                    Seq::empty(),
                    false,
                ) && (forall|i2: int|
                    0 <= i2 < i ==> !#[trigger] spec_is_repeat(
                        parameters@,
                        i2,
                        REPEATABLE_PARAMETER,
                        Seq::empty(),
                        false,
                    )) && e == CodecError::DuplicateParameter(parameters@[i].key@),
        },
{
    let none: [u64; 0] = [];
    let r = check_no_repeats(parameters, REPEATABLE_PARAMETER, none.as_slice(), false);
    assert(none@ =~= Seq::<u64>::empty());
    r
}

/// Refuse a received parameter list that repeats a type in `known`; a repeat
/// of any other type is carried, since receivers must allow duplicates of
/// unknown parameters (Section 9.2).
pub fn check_no_duplicate_parameters_received(parameters: &[KeyValuePair], known: &[u64]) -> (r: Result<(), CodecError>)
    ensures
        match r {
            Ok(()) => forall|i: int|
                0 <= i < parameters@.len() ==> !#[trigger] spec_is_repeat(
                    parameters@,
                    i,
                    REPEATABLE_PARAMETER,
                    known@,
                    true,
                ),
            Err(e) => exists|i: int|
                0 <= i < parameters@.len() && #[trigger] spec_is_repeat(
                    parameters@,
                    i,
                    REPEATABLE_PARAMETER,
                    known@,
                    true,
                ) && (forall|i2: int|
                    0 <= i2 < i ==> !#[trigger] spec_is_repeat(
                        parameters@,
                        i2,
                        REPEATABLE_PARAMETER,
                        known@,
                        true,
                    )) && e == CodecError::DuplicateParameter(parameters@[i].key@),
        },
{
    check_no_repeats(parameters, REPEATABLE_PARAMETER, known, true)
}

// ============================================================
// Range checks
// ============================================================

/// Whether a range whose End Group is inclusive ends no earlier than it
/// starts (SUBSCRIBE's AbsoluteRange filter).
pub open spec fn spec_group_range_ok(start_group: u64, end_group: u64) -> bool {
    end_group >= start_group
}

/// Refuse an inclusive group range that ends before it starts.
pub fn check_group_range(start_group: u64, end_group: u64) -> (r: Result<(), CodecError>)
    ensures
        r == (if spec_group_range_ok(start_group, end_group) {
            Ok::<(), CodecError>(())
        } else {
            Err::<(), CodecError>(CodecError::InvalidField)
        }),
{
    if end_group >= start_group {
        Ok(())
    } else {
        Err(CodecError::InvalidField)
    }
}

/// Whether a range whose End Group is the last group plus one, with zero
/// meaning open ended, ends no earlier than it starts (SUBSCRIBE_UPDATE).
pub open spec fn spec_open_ended_group_range_ok(start_group: u64, end_group: u64) -> bool {
    end_group == 0 || end_group > start_group
}

/// Refuse a SUBSCRIBE_UPDATE range that ends before it starts.
pub fn check_open_ended_group_range(start_group: u64, end_group: u64) -> (r: Result<(), CodecError>)
    ensures
        r == (if spec_open_ended_group_range_ok(start_group, end_group) {
            Ok::<(), CodecError>(())
        } else {
            Err::<(), CodecError>(CodecError::InvalidField)
        }),
{
    if end_group == 0 || end_group > start_group {
        Ok(())
    } else {
        Err(CodecError::InvalidField)
    }
}

/// Whether a FETCH range ending at (`eg`, `eo`) ends no earlier than it
/// starts at (`sg`, `so`). The End Group is inclusive; the End Object is one
/// past the last Object, and zero asks for the whole End Group.
pub open spec fn spec_location_range_ok(sg: u64, so: u64, eg: u64, eo: u64) -> bool {
    eg > sg || (eg == sg && (eo == 0 || eo > so))
}

/// Refuse a FETCH range that ends before it starts.
pub fn check_location_range(sg: u64, so: u64, eg: u64, eo: u64) -> (r: Result<(), CodecError>)
    ensures
        r == (if spec_location_range_ok(sg, so, eg, eo) {
            Ok::<(), CodecError>(())
        } else {
            Err::<(), CodecError>(CodecError::InvalidField)
        }),
{
    if eg > sg || (eg == sg && (eo == 0 || eo > so)) {
        Ok(())
    } else {
        Err(CodecError::InvalidField)
    }
}

/// Whether every range a message carries ends no earlier than it starts:
/// SUBSCRIBE with both a start Location and an End Group, SUBSCRIBE_UPDATE,
/// and a standalone FETCH, each by its own convention.
pub open spec fn spec_ranges_ok(message: ControlMessage) -> bool {
    match message {
        ControlMessage::Subscribe(m) => match (m.start_location, m.end_group) {
            (Some(start), Some(end_group)) => spec_group_range_ok(start.group@, end_group@),
            _ => true,
        },
        ControlMessage::SubscribeUpdate(m) => spec_open_ended_group_range_ok(
            m.start_location.group@,
            m.end_group@,
        ),
        ControlMessage::Fetch(m) => match m.fetch_payload {
            FetchPayload::Standalone { start_group, start_object, end_group, end_object, .. } =>
                spec_location_range_ok(start_group@, start_object@, end_group@, end_object@),
            FetchPayload::Joining { .. } => true,
        },
        _ => true,
    }
}

/// Refuse a request whose range ends before it starts; applied by both the
/// reader and the writer.
pub fn check_ranges(message: &ControlMessage) -> (r: Result<(), CodecError>)
    ensures
        r == (if spec_ranges_ok(*message) {
            Ok::<(), CodecError>(())
        } else {
            Err::<(), CodecError>(CodecError::InvalidField)
        }),
{
    match message {
        ControlMessage::Subscribe(m) => match (&m.start_location, &m.end_group) {
            (Some(start), Some(end_group)) => check_group_range(
                start.group.into_inner(),
                end_group.into_inner(),
            ),
            _ => Ok(()),
        },
        ControlMessage::SubscribeUpdate(m) => check_open_ended_group_range(
            m.start_location.group.into_inner(),
            m.end_group.into_inner(),
        ),
        ControlMessage::Fetch(m) => match &m.fetch_payload {
            FetchPayload::Standalone { start_group, start_object, end_group, end_object, .. } =>
                check_location_range(
                start_group.into_inner(),
                start_object.into_inner(),
                end_group.into_inner(),
                end_object.into_inner(),
            ),
            FetchPayload::Joining { .. } => Ok(()),
        },
        _ => Ok(()),
    }
}

} // verus!
