//! The wire-code registries and range rules of draft-16 stated as laws:
//! each value is written out as the draft assigns it, apart from the code
//! that maps it.

use vstd::prelude::*;
use crate::draft16::message::{FetchType, MessageType};
use crate::draft16::types::ObjectStatus;
use crate::draft16::data_stream::{spec_end_of_range, FetchEndOfRange};
use crate::draft16::error_codes::{DataStreamResetErrorCode, PublishDoneStatusCode, RequestErrorCode, SessionErrorCode};
use crate::draft16::fields::{spec_param_name, ParamTable};
use crate::draft16::control::spec_location_range_ok;
use crate::draft16::data_stream::{spec_datagram_type_valid, spec_subgroup_type_reserved, spec_subgroup_type_valid};
use crate::draft16::data_stream::{spec_fetch_flags_assigned, spec_fetch_has_extensions, spec_fetch_has_group_id, spec_fetch_has_object_id, spec_fetch_has_priority, spec_fetch_has_subgroup_id, spec_fetch_is_datagram, spec_fetch_subgroup_mode, spec_next_object_id, spec_object_id_delta, FetchSubgroupMode};
use crate::draft16::control::ControlMessageView;
use crate::draft16::fields::spec_message_fields;
use crate::fields::FieldValueView;

verus! {

/// The draft-16 control message type IDs: the wire value of every MessageType,
/// the value each one is read back from, and that no other value names one.
pub proof fn lemma_message_type_registry()
    ensures
        MessageType::RequestUpdate.spec_id() == 0x02,
        MessageType::Subscribe.spec_id() == 0x03,
        MessageType::SubscribeOk.spec_id() == 0x04,
        MessageType::RequestError.spec_id() == 0x05,
        MessageType::PublishNamespace.spec_id() == 0x06,
        MessageType::RequestOk.spec_id() == 0x07,
        MessageType::Namespace.spec_id() == 0x08,
        MessageType::PublishNamespaceDone.spec_id() == 0x09,
        MessageType::Unsubscribe.spec_id() == 0x0a,
        MessageType::PublishDone.spec_id() == 0x0b,
        MessageType::PublishNamespaceCancel.spec_id() == 0x0c,
        MessageType::TrackStatus.spec_id() == 0x0d,
        MessageType::NamespaceDone.spec_id() == 0x0e,
        MessageType::GoAway.spec_id() == 0x10,
        MessageType::SubscribeNamespace.spec_id() == 0x11,
        MessageType::MaxRequestId.spec_id() == 0x15,
        MessageType::Fetch.spec_id() == 0x16,
        MessageType::FetchCancel.spec_id() == 0x17,
        MessageType::FetchOk.spec_id() == 0x18,
        MessageType::RequestsBlocked.spec_id() == 0x1a,
        MessageType::Publish.spec_id() == 0x1d,
        MessageType::PublishOk.spec_id() == 0x1e,
        MessageType::ClientSetup.spec_id() == 0x20,
        MessageType::ServerSetup.spec_id() == 0x21,
        MessageType::spec_from_id(0x02) == Some(MessageType::RequestUpdate),
        MessageType::spec_from_id(0x03) == Some(MessageType::Subscribe),
        MessageType::spec_from_id(0x04) == Some(MessageType::SubscribeOk),
        MessageType::spec_from_id(0x05) == Some(MessageType::RequestError),
        MessageType::spec_from_id(0x06) == Some(MessageType::PublishNamespace),
        MessageType::spec_from_id(0x07) == Some(MessageType::RequestOk),
        MessageType::spec_from_id(0x08) == Some(MessageType::Namespace),
        MessageType::spec_from_id(0x09) == Some(MessageType::PublishNamespaceDone),
        MessageType::spec_from_id(0x0a) == Some(MessageType::Unsubscribe),
        MessageType::spec_from_id(0x0b) == Some(MessageType::PublishDone),
        MessageType::spec_from_id(0x0c) == Some(MessageType::PublishNamespaceCancel),
        MessageType::spec_from_id(0x0d) == Some(MessageType::TrackStatus),
        MessageType::spec_from_id(0x0e) == Some(MessageType::NamespaceDone),
        MessageType::spec_from_id(0x10) == Some(MessageType::GoAway),
        MessageType::spec_from_id(0x11) == Some(MessageType::SubscribeNamespace),
        MessageType::spec_from_id(0x15) == Some(MessageType::MaxRequestId),
        MessageType::spec_from_id(0x16) == Some(MessageType::Fetch),
        MessageType::spec_from_id(0x17) == Some(MessageType::FetchCancel),
        MessageType::spec_from_id(0x18) == Some(MessageType::FetchOk),
        MessageType::spec_from_id(0x1a) == Some(MessageType::RequestsBlocked),
        MessageType::spec_from_id(0x1d) == Some(MessageType::Publish),
        MessageType::spec_from_id(0x1e) == Some(MessageType::PublishOk),
        MessageType::spec_from_id(0x20) == Some(MessageType::ClientSetup),
        MessageType::spec_from_id(0x21) == Some(MessageType::ServerSetup),
        forall|v: u64| (#[trigger] MessageType::spec_from_id(v)) is Some ==> (v == 0x02 || v == 0x03 || v == 0x04 || v == 0x05 || v == 0x06 || v == 0x07 || v == 0x08 || v == 0x09 || v == 0x0a || v == 0x0b || v == 0x0c || v == 0x0d || v == 0x0e || v == 0x10 || v == 0x11 || v == 0x15 || v == 0x16 || v == 0x17 || v == 0x18 || v == 0x1a || v == 0x1d || v == 0x1e || v == 0x20 || v == 0x21),
{
}

/// The draft-16 Fetch Types: the wire value of every FetchType,
/// the value each one is read back from, and that no other value names one.
pub proof fn lemma_fetch_type_registry()
    ensures
        FetchType::Standalone.spec_value() == 1,
        FetchType::RelativeJoining.spec_value() == 2,
        FetchType::AbsoluteJoining.spec_value() == 3,
        FetchType::spec_from_u64(1) == Some(FetchType::Standalone),
        FetchType::spec_from_u64(2) == Some(FetchType::RelativeJoining),
        FetchType::spec_from_u64(3) == Some(FetchType::AbsoluteJoining),
        forall|v: u64| (#[trigger] FetchType::spec_from_u64(v)) is Some ==> (v == 1 || v == 2 || v == 3),
{
}

/// The draft-16 Object Status codes: the wire value of every ObjectStatus,
/// the value each one is read back from, and that no other value names one.
pub proof fn lemma_object_status_registry()
    ensures
        ObjectStatus::Normal.spec_code() == 0x00,
        ObjectStatus::EndOfGroup.spec_code() == 0x03,
        ObjectStatus::EndOfTrack.spec_code() == 0x04,
        ObjectStatus::spec_from_code(0x00) == Some(ObjectStatus::Normal),
        ObjectStatus::spec_from_code(0x03) == Some(ObjectStatus::EndOfGroup),
        ObjectStatus::spec_from_code(0x04) == Some(ObjectStatus::EndOfTrack),
        forall|v: u64| (#[trigger] ObjectStatus::spec_from_code(v)) is Some ==> (v == 0x00 || v == 0x03 || v == 0x04),
{
}

/// The draft-16 End of Range markers: the wire value of every FetchEndOfRange,
/// the value each one is read back from, and that no other value names one.
pub proof fn lemma_fetch_end_of_range_registry()
    ensures
        FetchEndOfRange::NonExistent.spec_value() == 0x8c,
        FetchEndOfRange::Unknown.spec_value() == 0x10c,
        spec_end_of_range(0x8c) == Some(FetchEndOfRange::NonExistent),
        spec_end_of_range(0x10c) == Some(FetchEndOfRange::Unknown),
        forall|v: u64| (#[trigger] spec_end_of_range(v)) is Some ==> (v == 0x8c || v == 0x10c),
{
}

/// The draft-16 Session Error Code registry: the wire value of every SessionErrorCode,
/// as the registry assigns it.
pub proof fn lemma_session_error_code_registry()
    ensures
        SessionErrorCode::NoError.spec_code() == 0x0,
        SessionErrorCode::InternalError.spec_code() == 0x1,
        SessionErrorCode::Unauthorized.spec_code() == 0x2,
        SessionErrorCode::ProtocolViolation.spec_code() == 0x3,
        SessionErrorCode::InvalidRequestId.spec_code() == 0x4,
        SessionErrorCode::DuplicateTrackAlias.spec_code() == 0x5,
        SessionErrorCode::KeyValueFormattingError.spec_code() == 0x6,
        SessionErrorCode::TooManyRequests.spec_code() == 0x7,
        SessionErrorCode::InvalidPath.spec_code() == 0x8,
        SessionErrorCode::MalformedPath.spec_code() == 0x9,
        SessionErrorCode::GoawayTimeout.spec_code() == 0x10,
        SessionErrorCode::ControlMessageTimeout.spec_code() == 0x11,
        SessionErrorCode::DataStreamTimeout.spec_code() == 0x12,
        SessionErrorCode::AuthTokenCacheOverflow.spec_code() == 0x13,
        SessionErrorCode::DuplicateAuthTokenAlias.spec_code() == 0x14,
        SessionErrorCode::VersionNegotiationFailed.spec_code() == 0x15,
        SessionErrorCode::MalformedAuthToken.spec_code() == 0x16,
        SessionErrorCode::UnknownAuthTokenAlias.spec_code() == 0x17,
        SessionErrorCode::ExpiredAuthToken.spec_code() == 0x18,
        SessionErrorCode::InvalidAuthority.spec_code() == 0x19,
        SessionErrorCode::MalformedAuthority.spec_code() == 0x1a,
{
}

/// The draft-16 Request Error Code registry: the wire value of every RequestErrorCode,
/// as the registry assigns it.
pub proof fn lemma_request_error_code_registry()
    ensures
        RequestErrorCode::InternalError.spec_code() == 0x0,
        RequestErrorCode::Unauthorized.spec_code() == 0x1,
        RequestErrorCode::Timeout.spec_code() == 0x2,
        RequestErrorCode::NotSupported.spec_code() == 0x3,
        RequestErrorCode::MalformedAuthToken.spec_code() == 0x4,
        RequestErrorCode::ExpiredAuthToken.spec_code() == 0x5,
        RequestErrorCode::DoesNotExist.spec_code() == 0x10,
        RequestErrorCode::InvalidRange.spec_code() == 0x11,
        RequestErrorCode::MalformedTrack.spec_code() == 0x12,
        RequestErrorCode::DuplicateSubscription.spec_code() == 0x19,
        RequestErrorCode::Uninterested.spec_code() == 0x20,
        RequestErrorCode::PrefixOverlap.spec_code() == 0x30,
        RequestErrorCode::InvalidJoiningRequestId.spec_code() == 0x32,
{
}

/// The draft-16 Publish Done Status Code registry: the wire value of every PublishDoneStatusCode,
/// as the registry assigns it.
pub proof fn lemma_publish_done_status_code_registry()
    ensures
        PublishDoneStatusCode::InternalError.spec_code() == 0x0,
        PublishDoneStatusCode::Unauthorized.spec_code() == 0x1,
        PublishDoneStatusCode::TrackEnded.spec_code() == 0x2,
        PublishDoneStatusCode::SubscriptionEnded.spec_code() == 0x3,
        PublishDoneStatusCode::GoingAway.spec_code() == 0x4,
        PublishDoneStatusCode::Expired.spec_code() == 0x5,
        PublishDoneStatusCode::TooFarBehind.spec_code() == 0x6,
        PublishDoneStatusCode::UpdateFailed.spec_code() == 0x8,
        PublishDoneStatusCode::MalformedTrack.spec_code() == 0x12,
{
}

/// The draft-16 Data Stream Reset Error Code registry: the wire value of every DataStreamResetErrorCode,
/// as the registry assigns it.
pub proof fn lemma_data_stream_reset_error_code_registry()
    ensures
        DataStreamResetErrorCode::InternalError.spec_code() == 0x0,
        DataStreamResetErrorCode::Cancelled.spec_code() == 0x1,
        DataStreamResetErrorCode::DeliveryTimeout.spec_code() == 0x2,
        DataStreamResetErrorCode::SessionClosed.spec_code() == 0x3,
        DataStreamResetErrorCode::UnknownObjectStatus.spec_code() == 0x4,
        DataStreamResetErrorCode::MalformedTrack.spec_code() == 0x12,
{
}


/// The draft-16 setup parameter names, and that no other Type has one.
pub proof fn lemma_setup_param_names()
    ensures
        spec_param_name(ParamTable::Setup, 0x01) == Some("path"),
        spec_param_name(ParamTable::Setup, 0x02) == Some("max_request_id"),
        spec_param_name(ParamTable::Setup, 0x03) == Some("authorization_token"),
        spec_param_name(ParamTable::Setup, 0x04) == Some("max_auth_token_cache_size"),
        spec_param_name(ParamTable::Setup, 0x05) == Some("authority"),
        spec_param_name(ParamTable::Setup, 0x07) == Some("moqt_implementation"),
        forall|k: u64| (#[trigger] spec_param_name(ParamTable::Setup, k)) is Some ==> (k == 0x01 || k == 0x02 || k == 0x03 || k == 0x04 || k == 0x05 || k == 0x07),
{
}

/// The draft-16 message parameter names, and that no other Type has one.
pub proof fn lemma_message_param_names()
    ensures
        spec_param_name(ParamTable::Message, 0x02) == Some("delivery_timeout"),
        spec_param_name(ParamTable::Message, 0x03) == Some("authorization_token"),
        spec_param_name(ParamTable::Message, 0x04) == Some("max_cache_duration"),
        spec_param_name(ParamTable::Message, 0x08) == Some("expires"),
        spec_param_name(ParamTable::Message, 0x09) == Some("largest_object"),
        spec_param_name(ParamTable::Message, 0x0e) == Some("publisher_priority"),
        spec_param_name(ParamTable::Message, 0x10) == Some("forward"),
        spec_param_name(ParamTable::Message, 0x20) == Some("subscriber_priority"),
        spec_param_name(ParamTable::Message, 0x21) == Some("subscription_filter"),
        spec_param_name(ParamTable::Message, 0x22) == Some("group_order"),
        spec_param_name(ParamTable::Message, 0x30) == Some("dynamic_groups"),
        spec_param_name(ParamTable::Message, 0x32) == Some("new_group_request"),
        forall|k: u64| (#[trigger] spec_param_name(ParamTable::Message, k)) is Some ==> (k == 0x02 || k == 0x03 || k == 0x04 || k == 0x08 || k == 0x09 || k == 0x0e || k == 0x10 || k == 0x20 || k == 0x21 || k == 0x22 || k == 0x30 || k == 0x32),
{
}

/// The draft-16 track extension names, and that no other Type has one.
pub proof fn lemma_track_extension_names()
    ensures
        spec_param_name(ParamTable::TrackExtension, 0x02) == Some("delivery_timeout"),
        spec_param_name(ParamTable::TrackExtension, 0x04) == Some("max_cache_duration"),
        spec_param_name(ParamTable::TrackExtension, 0x0e) == Some("default_publisher_priority"),
        forall|k: u64| (#[trigger] spec_param_name(ParamTable::TrackExtension, k)) is Some ==> (k == 0x02 || k == 0x04 || k == 0x0e),
{
}

/// A FETCH range is accepted exactly when its end is not before its start.
/// The End Group is inclusive and the End Object is one past the last
/// Object, zero asking for the whole End Group: so the start group itself is
/// always a range, a later end group always is, an earlier one never is, and
/// within the start group an End Object must be zero or past the start.
pub proof fn lemma_fetch_range_rules(sg: u64, so: u64, eg: u64, eo: u64)
    ensures
        spec_location_range_ok(sg, so, sg, 0),
        eo > so ==> spec_location_range_ok(sg, so, sg, eo),
        0 < eo <= so ==> !spec_location_range_ok(sg, so, sg, eo),
        eg > sg ==> spec_location_range_ok(sg, so, eg, eo),
        eg < sg ==> !spec_location_range_ok(sg, so, eg, eo),
{
}
/// The draft-16 message names used in logs and rendered captures.
pub proof fn lemma_message_type_names()
    ensures
        MessageType::RequestUpdate.spec_name() == "request_update",
        MessageType::Subscribe.spec_name() == "subscribe",
        MessageType::SubscribeOk.spec_name() == "subscribe_ok",
        MessageType::RequestError.spec_name() == "request_error",
        MessageType::PublishNamespace.spec_name() == "publish_namespace",
        MessageType::RequestOk.spec_name() == "request_ok",
        MessageType::Namespace.spec_name() == "namespace",
        MessageType::PublishNamespaceDone.spec_name() == "publish_namespace_done",
        MessageType::Unsubscribe.spec_name() == "unsubscribe",
        MessageType::PublishDone.spec_name() == "publish_done",
        MessageType::PublishNamespaceCancel.spec_name() == "publish_namespace_cancel",
        MessageType::TrackStatus.spec_name() == "track_status",
        MessageType::NamespaceDone.spec_name() == "namespace_done",
        MessageType::GoAway.spec_name() == "goaway",
        MessageType::SubscribeNamespace.spec_name() == "subscribe_namespace",
        MessageType::MaxRequestId.spec_name() == "max_request_id",
        MessageType::Fetch.spec_name() == "fetch",
        MessageType::FetchCancel.spec_name() == "fetch_cancel",
        MessageType::FetchOk.spec_name() == "fetch_ok",
        MessageType::RequestsBlocked.spec_name() == "requests_blocked",
        MessageType::Publish.spec_name() == "publish",
        MessageType::PublishOk.spec_name() == "publish_ok",
        MessageType::ClientSetup.spec_name() == "client_setup",
        MessageType::ServerSetup.spec_name() == "server_setup",
{
}

/// The subgroup stream Types draft-16 admits are exactly `0x10..=0x15`,
/// `0x18..=0x1D`, `0x30..=0x35` and `0x38..=0x3D`; the eight Types of the
/// same form with the reserved SUBGROUP_ID_MODE are refused as such.
pub proof fn lemma_subgroup_types(raw: u64)
    ensures
        spec_subgroup_type_valid(raw) <==> (0x10 <= raw <= 0x15 || 0x18 <= raw <= 0x1d || 0x30 <= raw <= 0x35 || 0x38 <= raw <= 0x3d),
        spec_subgroup_type_reserved(raw) <==> (raw == 0x16 || raw == 0x17 || raw == 0x1e || raw == 0x1f || raw == 0x36 || raw == 0x37 || raw == 0x3e || raw == 0x3f),
{
    assert(spec_subgroup_type_valid(raw) <==> (0x10 <= raw <= 0x15 || 0x18 <= raw <= 0x1d || 0x30 <= raw <= 0x35 || 0x38 <= raw <= 0x3d)) by (bit_vector);
    assert(spec_subgroup_type_reserved(raw) <==> (raw == 0x16 || raw == 0x17 || raw == 0x1e || raw == 0x1f || raw == 0x36 || raw == 0x37 || raw == 0x3e || raw == 0x3f)) by (bit_vector);
}

/// The datagram Types draft-16 admits are exactly `0x00..=0x0F` and the
/// status Types `0x20`, `0x21`, `0x24`, `0x25`, `0x28`, `0x29`, `0x2C`,
/// `0x2D`.
pub proof fn lemma_datagram_types(raw: u64)
    ensures
        spec_datagram_type_valid(raw) <==> (raw <= 0x0f || raw == 0x20 || raw == 0x21 || raw == 0x24 || raw == 0x25 || raw == 0x28 || raw == 0x29 || raw == 0x2c || raw == 0x2d),
{
    assert(spec_datagram_type_valid(raw) <==> (raw <= 0x0f || raw == 0x20 || raw == 0x21 || raw == 0x24 || raw == 0x25 || raw == 0x28 || raw == 0x29 || raw == 0x2c || raw == 0x2d)) by (bit_vector);
}

/// Object IDs on a subgroup stream are written as deltas: the first
/// Object's delta is its Object ID, and every later Object ID is the one
/// before it plus the delta plus one, so IDs strictly increase and a delta of
/// zero is the next ID. Writing a delta and reading it back gives the ID, and
/// an ID at or before the one before it has no delta.
pub proof fn lemma_object_id_delta_rules(prev: u64, id: u64, delta: u64)
    ensures
        spec_next_object_id(None, delta) == Some(delta),
        spec_object_id_delta(None, id) == Some(id),
        prev < u64::MAX ==> spec_next_object_id(Some(prev), 0) == Some((prev + 1) as u64),
        spec_next_object_id(Some(prev), delta) matches Some(n) ==> n > prev && n - prev - 1 == delta,
        id > prev ==> (spec_object_id_delta(Some(prev), id) matches Some(d) && spec_next_object_id(Some(prev), d) == Some(id)),
        id <= prev ==> spec_object_id_delta(Some(prev), id) is None,
{
}

/// The draft-16 Serialization Flags of a fetch Object (Section 10.4.4):
/// below 128, bit 0x08 puts a Group ID on the wire, 0x04 an Object ID, 0x10
/// a Publisher Priority, 0x20 Extensions, 0x40 marks a Datagram-forwarded
/// Object, and the two low bits give the Subgroup ID as zero (0), the prior
/// Object's (1), the prior plus one (2) or on the wire (3). Of the values at
/// or above 128 only the two markers 0x8C and 0x10C are assigned; a marker
/// carries a Group ID and an Object ID and nothing else.
pub proof fn lemma_fetch_flags(f: u64)
    ensures
        spec_fetch_flags_assigned(f) <==> (f < 128 || f == 0x8c || f == 0x10c),
        f < 128 ==> {
            &&& spec_fetch_has_group_id(f) == (f & 0x08 != 0)
            &&& spec_fetch_has_object_id(f) == (f & 0x04 != 0)
            &&& spec_fetch_has_priority(f) == (f & 0x10 != 0)
            &&& spec_fetch_has_extensions(f) == (f & 0x20 != 0)
            &&& spec_fetch_is_datagram(f) == (f & 0x40 != 0)
            &&& (f & 0x40 == 0 ==> spec_fetch_subgroup_mode(f) == (if f & 0x03 == 0 {
                FetchSubgroupMode::Zero
            } else if f & 0x03 == 1 {
                FetchSubgroupMode::SameAsPrior
            } else if f & 0x03 == 2 {
                FetchSubgroupMode::PriorPlusOne
            } else {
                FetchSubgroupMode::Present
            }))
            &&& (f & 0x40 != 0 ==> spec_fetch_subgroup_mode(f) == FetchSubgroupMode::Zero)
        },
        (f == 0x8c || f == 0x10c) ==> {
            &&& spec_fetch_has_group_id(f)
            &&& spec_fetch_has_object_id(f)
            &&& !spec_fetch_has_priority(f)
            &&& !spec_fetch_has_extensions(f)
            &&& !spec_fetch_is_datagram(f)
            &&& !spec_fetch_has_subgroup_id(f)
        },
{
}

/// The names of a rendered message's fields, in order.
pub open spec fn field_names(s: Seq<(&'static str, FieldValueView)>) -> Seq<&'static str> {
    s.map_values(|e: (&'static str, FieldValueView)| e.0)
}

/// The names of the fields of a rendered draft-16 message, in order, for
/// every message type whose fields are always all present.
pub proof fn lemma_message_field_names(m: ControlMessageView)
    ensures
        m.message_type == MessageType::ClientSetup ==> field_names(spec_message_fields(m)) == seq!["parameters"],
        m.message_type == MessageType::ServerSetup ==> field_names(spec_message_fields(m)) == seq!["parameters"],
        m.message_type == MessageType::GoAway ==> field_names(spec_message_fields(m)) == seq!["new_session_uri"],
        m.message_type == MessageType::MaxRequestId ==> field_names(spec_message_fields(m)) == seq!["max_request_id"],
        m.message_type == MessageType::RequestsBlocked ==> field_names(spec_message_fields(m)) == seq!["maximum_request_id"],
        m.message_type == MessageType::RequestOk ==> field_names(spec_message_fields(m)) == seq!["request_id", "parameters"],
        m.message_type == MessageType::RequestError ==> field_names(spec_message_fields(m)) == seq!["request_id", "error_code", "retry_interval", "reason_phrase"],
        m.message_type == MessageType::Subscribe ==> field_names(spec_message_fields(m)) == seq!["request_id", "track_namespace", "track_name", "parameters"],
        m.message_type == MessageType::RequestUpdate ==> field_names(spec_message_fields(m)) == seq!["request_id", "existing_request_id", "parameters"],
        m.message_type == MessageType::Unsubscribe ==> field_names(spec_message_fields(m)) == seq!["request_id"],
        m.message_type == MessageType::PublishOk ==> field_names(spec_message_fields(m)) == seq!["request_id", "parameters"],
        m.message_type == MessageType::PublishDone ==> field_names(spec_message_fields(m)) == seq!["request_id", "status_code", "stream_count", "reason_phrase"],
        m.message_type == MessageType::PublishNamespace ==> field_names(spec_message_fields(m)) == seq!["request_id", "track_namespace", "parameters"],
        m.message_type == MessageType::PublishNamespaceDone ==> field_names(spec_message_fields(m)) == seq!["request_id"],
        m.message_type == MessageType::PublishNamespaceCancel ==> field_names(spec_message_fields(m)) == seq!["request_id", "error_code", "reason_phrase"],
        m.message_type == MessageType::Namespace ==> field_names(spec_message_fields(m)) == seq!["namespace_suffix"],
        m.message_type == MessageType::NamespaceDone ==> field_names(spec_message_fields(m)) == seq!["namespace_suffix"],
        m.message_type == MessageType::SubscribeNamespace ==> field_names(spec_message_fields(m)) == seq!["request_id", "namespace_prefix", "subscribe_options", "parameters"],
        m.message_type == MessageType::TrackStatus ==> field_names(spec_message_fields(m)) == seq!["request_id", "track_namespace", "track_name", "parameters"],
        m.message_type == MessageType::FetchCancel ==> field_names(spec_message_fields(m)) == seq!["request_id"],
{
    if m.message_type == MessageType::ClientSetup {
        assert(field_names(spec_message_fields(m)) =~= seq!["parameters"]);
    }
    if m.message_type == MessageType::ServerSetup {
        assert(field_names(spec_message_fields(m)) =~= seq!["parameters"]);
    }
    if m.message_type == MessageType::GoAway {
        assert(field_names(spec_message_fields(m)) =~= seq!["new_session_uri"]);
    }
    if m.message_type == MessageType::MaxRequestId {
        assert(field_names(spec_message_fields(m)) =~= seq!["max_request_id"]);
    }
    if m.message_type == MessageType::RequestsBlocked {
        assert(field_names(spec_message_fields(m)) =~= seq!["maximum_request_id"]);
    }
    if m.message_type == MessageType::RequestOk {
        assert(field_names(spec_message_fields(m)) =~= seq!["request_id", "parameters"]);
    }
    if m.message_type == MessageType::RequestError {
        assert(field_names(spec_message_fields(m)) =~= seq!["request_id", "error_code", "retry_interval", "reason_phrase"]);
    }
    if m.message_type == MessageType::Subscribe {
        assert(field_names(spec_message_fields(m)) =~= seq!["request_id", "track_namespace", "track_name", "parameters"]);
    }
    if m.message_type == MessageType::RequestUpdate {
        assert(field_names(spec_message_fields(m)) =~= seq!["request_id", "existing_request_id", "parameters"]);
    }
    if m.message_type == MessageType::Unsubscribe {
        assert(field_names(spec_message_fields(m)) =~= seq!["request_id"]);
    }
    if m.message_type == MessageType::PublishOk {
        assert(field_names(spec_message_fields(m)) =~= seq!["request_id", "parameters"]);
    }
    if m.message_type == MessageType::PublishDone {
        assert(field_names(spec_message_fields(m)) =~= seq!["request_id", "status_code", "stream_count", "reason_phrase"]);
    }
    if m.message_type == MessageType::PublishNamespace {
        assert(field_names(spec_message_fields(m)) =~= seq!["request_id", "track_namespace", "parameters"]);
    }
    if m.message_type == MessageType::PublishNamespaceDone {
        assert(field_names(spec_message_fields(m)) =~= seq!["request_id"]);
    }
    if m.message_type == MessageType::PublishNamespaceCancel {
        assert(field_names(spec_message_fields(m)) =~= seq!["request_id", "error_code", "reason_phrase"]);
    }
    if m.message_type == MessageType::Namespace {
        assert(field_names(spec_message_fields(m)) =~= seq!["namespace_suffix"]);
    }
    if m.message_type == MessageType::NamespaceDone {
        assert(field_names(spec_message_fields(m)) =~= seq!["namespace_suffix"]);
    }
    if m.message_type == MessageType::SubscribeNamespace {
        assert(field_names(spec_message_fields(m)) =~= seq!["request_id", "namespace_prefix", "subscribe_options", "parameters"]);
    }
    if m.message_type == MessageType::TrackStatus {
        assert(field_names(spec_message_fields(m)) =~= seq!["request_id", "track_namespace", "track_name", "parameters"]);
    }
    if m.message_type == MessageType::FetchCancel {
        assert(field_names(spec_message_fields(m)) =~= seq!["request_id"]);
    }
}

} // verus!
