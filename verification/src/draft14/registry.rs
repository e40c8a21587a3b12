//! The wire-code registries and range rules of draft-14 stated as laws:
//! each value is written out as the draft assigns it, apart from the code
//! that maps it.

use vstd::prelude::*;
use crate::draft14::message::{FetchType, MessageType};
use crate::draft14::types::ObjectStatus;
use crate::draft14::error_codes::{AnnounceErrorCode, DataStreamResetErrorCode, FetchErrorCode, PublishDoneStatusCode, PublishErrorCode, SessionErrorCode, SubscribeErrorCode, SubscribeNamespaceErrorCode};
use crate::draft14::fields::{spec_d14_msg_param_name, spec_d14_setup_param_name};
use crate::draft14::message::{spec_group_range_ok, spec_location_range_ok, spec_open_ended_group_range_ok};
use crate::draft14::control::{spec_exists_byte, spec_filter_value, spec_fwd_byte, spec_order_byte};
use crate::types::{ContentExists, FilterType, Forward, GroupOrder};
use crate::draft14::control::ControlMessageView;
use crate::draft14::fields::spec_message_fields;
use crate::fields::FieldValueView;

verus! {

/// The draft-14 control message type IDs: the wire value of every MessageType,
/// the value each one is read back from, and that no other value names one.
pub proof fn lemma_message_type_registry()
    ensures
        MessageType::SubscribeUpdate.spec_id() == 0x02,
        MessageType::Subscribe.spec_id() == 0x03,
        MessageType::SubscribeOk.spec_id() == 0x04,
        MessageType::SubscribeError.spec_id() == 0x05,
        MessageType::PublishNamespace.spec_id() == 0x06,
        MessageType::PublishNamespaceOk.spec_id() == 0x07,
        MessageType::PublishNamespaceError.spec_id() == 0x08,
        MessageType::PublishNamespaceDone.spec_id() == 0x09,
        MessageType::Unsubscribe.spec_id() == 0x0a,
        MessageType::PublishDone.spec_id() == 0x0b,
        MessageType::PublishNamespaceCancel.spec_id() == 0x0c,
        MessageType::TrackStatus.spec_id() == 0x0d,
        MessageType::TrackStatusOk.spec_id() == 0x0e,
        MessageType::TrackStatusError.spec_id() == 0x0f,
        MessageType::GoAway.spec_id() == 0x10,
        MessageType::SubscribeNamespace.spec_id() == 0x11,
        MessageType::SubscribeNamespaceOk.spec_id() == 0x12,
        MessageType::SubscribeNamespaceError.spec_id() == 0x13,
        MessageType::UnsubscribeNamespace.spec_id() == 0x14,
        MessageType::MaxRequestId.spec_id() == 0x15,
        MessageType::Fetch.spec_id() == 0x16,
        MessageType::FetchCancel.spec_id() == 0x17,
        MessageType::FetchOk.spec_id() == 0x18,
        MessageType::FetchError.spec_id() == 0x19,
        MessageType::RequestsBlocked.spec_id() == 0x1a,
        MessageType::Publish.spec_id() == 0x1d,
        MessageType::PublishOk.spec_id() == 0x1e,
        MessageType::PublishError.spec_id() == 0x1f,
        MessageType::ClientSetup.spec_id() == 0x20,
        MessageType::ServerSetup.spec_id() == 0x21,
        MessageType::spec_from_id(0x02) == Some(MessageType::SubscribeUpdate),
        MessageType::spec_from_id(0x03) == Some(MessageType::Subscribe),
        MessageType::spec_from_id(0x04) == Some(MessageType::SubscribeOk),
        MessageType::spec_from_id(0x05) == Some(MessageType::SubscribeError),
        MessageType::spec_from_id(0x06) == Some(MessageType::PublishNamespace),
        MessageType::spec_from_id(0x07) == Some(MessageType::PublishNamespaceOk),
        MessageType::spec_from_id(0x08) == Some(MessageType::PublishNamespaceError),
        MessageType::spec_from_id(0x09) == Some(MessageType::PublishNamespaceDone),
        MessageType::spec_from_id(0x0a) == Some(MessageType::Unsubscribe),
        MessageType::spec_from_id(0x0b) == Some(MessageType::PublishDone),
        MessageType::spec_from_id(0x0c) == Some(MessageType::PublishNamespaceCancel),
        MessageType::spec_from_id(0x0d) == Some(MessageType::TrackStatus),
        MessageType::spec_from_id(0x0e) == Some(MessageType::TrackStatusOk),
        MessageType::spec_from_id(0x0f) == Some(MessageType::TrackStatusError),
        MessageType::spec_from_id(0x10) == Some(MessageType::GoAway),
        MessageType::spec_from_id(0x11) == Some(MessageType::SubscribeNamespace),
        MessageType::spec_from_id(0x12) == Some(MessageType::SubscribeNamespaceOk),
        MessageType::spec_from_id(0x13) == Some(MessageType::SubscribeNamespaceError),
        MessageType::spec_from_id(0x14) == Some(MessageType::UnsubscribeNamespace),
        MessageType::spec_from_id(0x15) == Some(MessageType::MaxRequestId),
        MessageType::spec_from_id(0x16) == Some(MessageType::Fetch),
        MessageType::spec_from_id(0x17) == Some(MessageType::FetchCancel),
        MessageType::spec_from_id(0x18) == Some(MessageType::FetchOk),
        MessageType::spec_from_id(0x19) == Some(MessageType::FetchError),
        MessageType::spec_from_id(0x1a) == Some(MessageType::RequestsBlocked),
        MessageType::spec_from_id(0x1d) == Some(MessageType::Publish),
        MessageType::spec_from_id(0x1e) == Some(MessageType::PublishOk),
        MessageType::spec_from_id(0x1f) == Some(MessageType::PublishError),
        MessageType::spec_from_id(0x20) == Some(MessageType::ClientSetup),
        MessageType::spec_from_id(0x21) == Some(MessageType::ServerSetup),
        forall|v: u64| (#[trigger] MessageType::spec_from_id(v)) is Some ==> (v == 0x02 || v == 0x03 || v == 0x04 || v == 0x05 || v == 0x06 || v == 0x07 || v == 0x08 || v == 0x09 || v == 0x0a || v == 0x0b || v == 0x0c || v == 0x0d || v == 0x0e || v == 0x0f || v == 0x10 || v == 0x11 || v == 0x12 || v == 0x13 || v == 0x14 || v == 0x15 || v == 0x16 || v == 0x17 || v == 0x18 || v == 0x19 || v == 0x1a || v == 0x1d || v == 0x1e || v == 0x1f || v == 0x20 || v == 0x21),
{
}

/// The draft-14 Fetch Types: the wire value of every FetchType,
/// the value each one is read back from, and that no other value names one.
pub proof fn lemma_fetch_type_registry()
    ensures
        FetchType::Standalone.spec_value() == 1,
        FetchType::RelativeJoining.spec_value() == 2,
        FetchType::AbsoluteJoining.spec_value() == 3,
        FetchType::spec_from_u64(1) == Some(FetchType::Standalone),
        FetchType::spec_from_u64(2) == Some(FetchType::RelativeJoining),
        FetchType::spec_from_u64(3) == Some(FetchType::AbsoluteJoining),
        forall|v: u64| (#[trigger] FetchType::spec_from_u64(v)) is Some ==> (v == 1 || v == 2 || v == 3),
{
}

/// The draft-14 Object Status codes: the wire value of every ObjectStatus,
/// the value each one is read back from, and that no other value names one.
pub proof fn lemma_object_status_registry()
    ensures
        ObjectStatus::Normal.spec_code() == 0x0,
        ObjectStatus::ObjectDoesNotExist.spec_code() == 0x1,
        ObjectStatus::EndOfGroup.spec_code() == 0x3,
        ObjectStatus::EndOfTrack.spec_code() == 0x4,
        ObjectStatus::spec_from_code(0x0) == Some(ObjectStatus::Normal),
        ObjectStatus::spec_from_code(0x1) == Some(ObjectStatus::ObjectDoesNotExist),
        ObjectStatus::spec_from_code(0x3) == Some(ObjectStatus::EndOfGroup),
        ObjectStatus::spec_from_code(0x4) == Some(ObjectStatus::EndOfTrack),
        forall|v: u64| (#[trigger] ObjectStatus::spec_from_code(v)) is Some ==> (v == 0x0 || v == 0x1 || v == 0x3 || v == 0x4),
{
}

/// The draft-14 Session Error Code registry: the wire value of every SessionErrorCode,
/// as the registry assigns it.
pub proof fn lemma_session_error_code_registry()
    ensures
        SessionErrorCode::NoError.spec_code() == 0x0,
        SessionErrorCode::InternalError.spec_code() == 0x1,
        SessionErrorCode::Unauthorized.spec_code() == 0x2,
        SessionErrorCode::ProtocolViolation.spec_code() == 0x3,
        SessionErrorCode::InvalidRequestId.spec_code() == 0x4,
        SessionErrorCode::DuplicateTrackAlias.spec_code() == 0x5,
        SessionErrorCode::KeyValueFormattingError.spec_code() == 0x6,
        SessionErrorCode::TooManyRequests.spec_code() == 0x7,
        SessionErrorCode::InvalidPath.spec_code() == 0x8,
        SessionErrorCode::MalformedPath.spec_code() == 0x9,
        SessionErrorCode::GoawayTimeout.spec_code() == 0x10,
        SessionErrorCode::ControlMessageTimeout.spec_code() == 0x11,
        SessionErrorCode::DataStreamTimeout.spec_code() == 0x12,
        SessionErrorCode::AuthTokenCacheOverflow.spec_code() == 0x13,
        SessionErrorCode::DuplicateAuthTokenAlias.spec_code() == 0x14,
        SessionErrorCode::VersionNegotiationFailed.spec_code() == 0x15,
        SessionErrorCode::MalformedAuthToken.spec_code() == 0x16,
        SessionErrorCode::UnknownAuthTokenAlias.spec_code() == 0x17,
        SessionErrorCode::ExpiredAuthToken.spec_code() == 0x18,
        SessionErrorCode::InvalidAuthority.spec_code() == 0x19,
        SessionErrorCode::MalformedAuthority.spec_code() == 0x1a,
{
}

/// The draft-14 Subscribe Error Code registry: the wire value of every SubscribeErrorCode,
/// as the registry assigns it.
pub proof fn lemma_subscribe_error_code_registry()
    ensures
        SubscribeErrorCode::InternalError.spec_code() == 0x0,
        SubscribeErrorCode::Unauthorized.spec_code() == 0x1,
        SubscribeErrorCode::Timeout.spec_code() == 0x2,
        SubscribeErrorCode::NotSupported.spec_code() == 0x3,
        SubscribeErrorCode::TrackDoesNotExist.spec_code() == 0x4,
        SubscribeErrorCode::InvalidRange.spec_code() == 0x5,
        SubscribeErrorCode::MalformedAuthToken.spec_code() == 0x10,
        SubscribeErrorCode::ExpiredAuthToken.spec_code() == 0x12,
{
}

/// The draft-14 Publish Done Status Code registry: the wire value of every PublishDoneStatusCode,
/// as the registry assigns it.
pub proof fn lemma_publish_done_status_code_registry()
    ensures
        PublishDoneStatusCode::InternalError.spec_code() == 0x0,
        PublishDoneStatusCode::Unauthorized.spec_code() == 0x1,
        PublishDoneStatusCode::TrackEnded.spec_code() == 0x2,
        PublishDoneStatusCode::SubscriptionEnded.spec_code() == 0x3,
        PublishDoneStatusCode::GoingAway.spec_code() == 0x4,
        PublishDoneStatusCode::Expired.spec_code() == 0x5,
        PublishDoneStatusCode::TooFarBehind.spec_code() == 0x6,
        PublishDoneStatusCode::MalformedTrack.spec_code() == 0x7,
{
}

/// The draft-14 Publish Error Code registry: the wire value of every PublishErrorCode,
/// as the registry assigns it.
pub proof fn lemma_publish_error_code_registry()
    ensures
        PublishErrorCode::InternalError.spec_code() == 0x0,
        PublishErrorCode::Unauthorized.spec_code() == 0x1,
        PublishErrorCode::Timeout.spec_code() == 0x2,
        PublishErrorCode::NotSupported.spec_code() == 0x3,
        PublishErrorCode::Uninterested.spec_code() == 0x4,
{
}

/// The draft-14 Fetch Error Code registry: the wire value of every FetchErrorCode,
/// as the registry assigns it.
pub proof fn lemma_fetch_error_code_registry()
    ensures
        FetchErrorCode::InternalError.spec_code() == 0x0,
        FetchErrorCode::Unauthorized.spec_code() == 0x1,
        FetchErrorCode::Timeout.spec_code() == 0x2,
        FetchErrorCode::NotSupported.spec_code() == 0x3,
        FetchErrorCode::TrackDoesNotExist.spec_code() == 0x4,
        FetchErrorCode::InvalidRange.spec_code() == 0x5,
        FetchErrorCode::NoObjects.spec_code() == 0x6,
        FetchErrorCode::InvalidJoiningRequestId.spec_code() == 0x7,
        FetchErrorCode::UnknownStatusInRange.spec_code() == 0x8,
        FetchErrorCode::MalformedTrack.spec_code() == 0x9,
        FetchErrorCode::MalformedAuthToken.spec_code() == 0x10,
        FetchErrorCode::ExpiredAuthToken.spec_code() == 0x12,
{
}

/// The draft-14 Announce Error Code registry: the wire value of every AnnounceErrorCode,
/// as the registry assigns it.
pub proof fn lemma_announce_error_code_registry()
    ensures
        AnnounceErrorCode::InternalError.spec_code() == 0x0,
        AnnounceErrorCode::Unauthorized.spec_code() == 0x1,
        AnnounceErrorCode::Timeout.spec_code() == 0x2,
        AnnounceErrorCode::NotSupported.spec_code() == 0x3,
        AnnounceErrorCode::Uninterested.spec_code() == 0x4,
        AnnounceErrorCode::MalformedAuthToken.spec_code() == 0x10,
        AnnounceErrorCode::ExpiredAuthToken.spec_code() == 0x12,
{
}

/// The draft-14 Subscribe Namespace Error Code registry: the wire value of every SubscribeNamespaceErrorCode,
/// as the registry assigns it.
pub proof fn lemma_subscribe_namespace_error_code_registry()
    ensures
        SubscribeNamespaceErrorCode::InternalError.spec_code() == 0x0,
        SubscribeNamespaceErrorCode::Unauthorized.spec_code() == 0x1,
        SubscribeNamespaceErrorCode::Timeout.spec_code() == 0x2,
        SubscribeNamespaceErrorCode::NotSupported.spec_code() == 0x3,
        SubscribeNamespaceErrorCode::NamespacePrefixUnknown.spec_code() == 0x4,
        SubscribeNamespaceErrorCode::NamespacePrefixOverlap.spec_code() == 0x5,
        SubscribeNamespaceErrorCode::MalformedAuthToken.spec_code() == 0x10,
        SubscribeNamespaceErrorCode::ExpiredAuthToken.spec_code() == 0x12,
{
}

/// The draft-14 Data Stream Reset Error Code registry: the wire value of every DataStreamResetErrorCode,
/// as the registry assigns it.
pub proof fn lemma_data_stream_reset_error_code_registry()
    ensures
        DataStreamResetErrorCode::InternalError.spec_code() == 0x0,
        DataStreamResetErrorCode::Cancelled.spec_code() == 0x1,
        DataStreamResetErrorCode::DeliveryTimeout.spec_code() == 0x2,
        DataStreamResetErrorCode::SessionClosed.spec_code() == 0x3,
{
}


/// The draft-14 setup parameter names, and that no other Type has one.
pub proof fn lemma_setup_param_names()
    ensures
        spec_d14_setup_param_name(0x01) == Some("path"),
        spec_d14_setup_param_name(0x02) == Some("max_request_id"),
        spec_d14_setup_param_name(0x03) == Some("authorization_token"),
        spec_d14_setup_param_name(0x04) == Some("max_auth_token_cache_size"),
        spec_d14_setup_param_name(0x05) == Some("authority"),
        forall|k: u64| (#[trigger] spec_d14_setup_param_name(k)) is Some ==> (k == 0x01 || k == 0x02 || k == 0x03 || k == 0x04 || k == 0x05),
{
}

/// The draft-14 message parameter names, and that no other Type has one.
pub proof fn lemma_message_param_names()
    ensures
        spec_d14_msg_param_name(0x02) == Some("delivery_timeout"),
        spec_d14_msg_param_name(0x03) == Some("authorization_token"),
        spec_d14_msg_param_name(0x04) == Some("max_cache_duration"),
        forall|k: u64| (#[trigger] spec_d14_msg_param_name(k)) is Some ==> (k == 0x02 || k == 0x03 || k == 0x04),
{
}

/// A FETCH range is accepted exactly when its end is not before its start.
/// The End Group is inclusive and the End Object is one past the last
/// Object, zero asking for the whole End Group: so the start group itself is
/// always a range, a later end group always is, an earlier one never is, and
/// within the start group an End Object must be zero or past the start.
pub proof fn lemma_fetch_range_rules(sg: u64, so: u64, eg: u64, eo: u64)
    ensures
        spec_location_range_ok(sg, so, sg, 0),
        eo > so ==> spec_location_range_ok(sg, so, sg, eo),
        0 < eo <= so ==> !spec_location_range_ok(sg, so, sg, eo),
        eg > sg ==> spec_location_range_ok(sg, so, eg, eo),
        eg < sg ==> !spec_location_range_ok(sg, so, eg, eo),
{
}

/// A SUBSCRIBE's absolute range, whose End Group is inclusive, is accepted
/// exactly when it ends in or after its start group.
pub proof fn lemma_subscribe_range_rules(sg: u64, eg: u64)
    ensures
        spec_group_range_ok(sg, sg),
        eg > sg ==> spec_group_range_ok(sg, eg),
        eg < sg ==> !spec_group_range_ok(sg, eg),
{
}

/// A SUBSCRIBE_UPDATE's End Group is one past the last group, zero leaving
/// the end open: zero is always accepted, a later group is, and any other
/// group at or before the start is not.
pub proof fn lemma_subscribe_update_range_rules(sg: u64, eg: u64)
    ensures
        spec_open_ended_group_range_ok(sg, 0),
        eg > sg ==> spec_open_ended_group_range_ok(sg, eg),
        0 < eg <= sg ==> !spec_open_ended_group_range_ok(sg, eg),
{
}

/// The draft-14 wire values of the single-byte and small fields: Group Order
/// 0x0 (publisher's order), 0x1 (ascending), 0x2 (descending); Forward 0x0
/// and 0x1; Content Exists 0x0 and 0x1; Filter Types 0x1 to 0x4 in the
/// order Next Group Start, Largest Object, Absolute Start, Absolute Range.
pub proof fn lemma_field_value_registry()
    ensures
        spec_order_byte(GroupOrder::Publisher) == 0,
        spec_order_byte(GroupOrder::Ascending) == 1,
        spec_order_byte(GroupOrder::Descending) == 2,
        GroupOrder::spec_from_u8(0) == Some(GroupOrder::Publisher),
        GroupOrder::spec_from_u8(1) == Some(GroupOrder::Ascending),
        GroupOrder::spec_from_u8(2) == Some(GroupOrder::Descending),
        forall|v: u8| (#[trigger] GroupOrder::spec_from_u8(v)) is Some ==> v <= 2,
        spec_fwd_byte(Forward::DontForward) == 0,
        spec_fwd_byte(Forward::Forward) == 1,
        spec_exists_byte(ContentExists::NoLargestLocation) == 0,
        spec_exists_byte(ContentExists::HasLargestLocation) == 1,
        spec_filter_value(FilterType::NextGroupStart) == 1,
        spec_filter_value(FilterType::LargestObject) == 2,
        spec_filter_value(FilterType::AbsoluteStart) == 3,
        spec_filter_value(FilterType::AbsoluteRange) == 4,
{
}
/// The names of a rendered message's fields, in order.
pub open spec fn field_names(s: Seq<(&'static str, FieldValueView)>) -> Seq<&'static str> {
    s.map_values(|e: (&'static str, FieldValueView)| e.0)
}

/// The names of the fields of a rendered draft-14 message, in order, for
/// every message type whose fields are always all present.
pub proof fn lemma_message_field_names(m: ControlMessageView)
    ensures
        m.message_type == MessageType::ClientSetup ==> field_names(spec_message_fields(m)) == seq!["supported_versions", "parameters"],
        m.message_type == MessageType::ServerSetup ==> field_names(spec_message_fields(m)) == seq!["selected_version", "parameters"],
        m.message_type == MessageType::GoAway ==> field_names(spec_message_fields(m)) == seq!["new_session_uri"],
        m.message_type == MessageType::MaxRequestId ==> field_names(spec_message_fields(m)) == seq!["request_id"],
        m.message_type == MessageType::RequestsBlocked ==> field_names(spec_message_fields(m)) == seq!["request_id"],
        m.message_type == MessageType::SubscribeError ==> field_names(spec_message_fields(m)) == seq!["request_id", "error_code", "reason_phrase"],
        m.message_type == MessageType::SubscribeUpdate ==> field_names(spec_message_fields(m)) == seq!["request_id", "subscription_request_id", "start_group", "start_object", "end_group", "subscriber_priority", "forward", "parameters"],
        m.message_type == MessageType::Unsubscribe ==> field_names(spec_message_fields(m)) == seq!["request_id"],
        m.message_type == MessageType::PublishError ==> field_names(spec_message_fields(m)) == seq!["request_id", "error_code", "reason_phrase"],
        m.message_type == MessageType::PublishDone ==> field_names(spec_message_fields(m)) == seq!["request_id", "status_code", "stream_count", "reason_phrase"],
        m.message_type == MessageType::PublishNamespace ==> field_names(spec_message_fields(m)) == seq!["request_id", "track_namespace", "parameters"],
        m.message_type == MessageType::PublishNamespaceOk ==> field_names(spec_message_fields(m)) == seq!["request_id"],
        m.message_type == MessageType::PublishNamespaceError ==> field_names(spec_message_fields(m)) == seq!["request_id", "error_code", "reason_phrase"],
        m.message_type == MessageType::PublishNamespaceDone ==> field_names(spec_message_fields(m)) == seq!["track_namespace"],
        m.message_type == MessageType::PublishNamespaceCancel ==> field_names(spec_message_fields(m)) == seq!["track_namespace", "error_code", "reason_phrase"],
        m.message_type == MessageType::SubscribeNamespace ==> field_names(spec_message_fields(m)) == seq!["request_id", "namespace_prefix", "parameters"],
        m.message_type == MessageType::SubscribeNamespaceOk ==> field_names(spec_message_fields(m)) == seq!["request_id"],
        m.message_type == MessageType::SubscribeNamespaceError ==> field_names(spec_message_fields(m)) == seq!["request_id", "error_code", "reason_phrase"],
        m.message_type == MessageType::UnsubscribeNamespace ==> field_names(spec_message_fields(m)) == seq!["track_namespace_prefix"],
        m.message_type == MessageType::FetchOk ==> field_names(spec_message_fields(m)) == seq!["request_id", "group_order", "end_of_track", "end_location", "parameters"],
        m.message_type == MessageType::FetchError ==> field_names(spec_message_fields(m)) == seq!["request_id", "error_code", "reason_phrase"],
        m.message_type == MessageType::FetchCancel ==> field_names(spec_message_fields(m)) == seq!["request_id"],
        m.message_type == MessageType::TrackStatusError ==> field_names(spec_message_fields(m)) == seq!["request_id", "error_code", "reason_phrase"],
{
    if m.message_type == MessageType::ClientSetup {
        assert(field_names(spec_message_fields(m)) =~= seq!["supported_versions", "parameters"]);
    }
    if m.message_type == MessageType::ServerSetup {
        assert(field_names(spec_message_fields(m)) =~= seq!["selected_version", "parameters"]);
    }
    if m.message_type == MessageType::GoAway {
        assert(field_names(spec_message_fields(m)) =~= seq!["new_session_uri"]);
    }
    if m.message_type == MessageType::MaxRequestId {
        assert(field_names(spec_message_fields(m)) =~= seq!["request_id"]);
    }
    if m.message_type == MessageType::RequestsBlocked {
        assert(field_names(spec_message_fields(m)) =~= seq!["request_id"]);
    }
    if m.message_type == MessageType::SubscribeError {
        assert(field_names(spec_message_fields(m)) =~= seq!["request_id", "error_code", "reason_phrase"]);
    }
    if m.message_type == MessageType::SubscribeUpdate {
        assert(field_names(spec_message_fields(m)) =~= seq!["request_id", "subscription_request_id", "start_group", "start_object", "end_group", "subscriber_priority", "forward", "parameters"]);
    }
    if m.message_type == MessageType::Unsubscribe {
        assert(field_names(spec_message_fields(m)) =~= seq!["request_id"]);
    }
    if m.message_type == MessageType::PublishError {
        assert(field_names(spec_message_fields(m)) =~= seq!["request_id", "error_code", "reason_phrase"]);
    }
    if m.message_type == MessageType::PublishDone {
        assert(field_names(spec_message_fields(m)) =~= seq!["request_id", "status_code", "stream_count", "reason_phrase"]);
    }
    if m.message_type == MessageType::PublishNamespace {
        assert(field_names(spec_message_fields(m)) =~= seq!["request_id", "track_namespace", "parameters"]);
    }
    if m.message_type == MessageType::PublishNamespaceOk {
        assert(field_names(spec_message_fields(m)) =~= seq!["request_id"]);
    }
    if m.message_type == MessageType::PublishNamespaceError {
        assert(field_names(spec_message_fields(m)) =~= seq!["request_id", "error_code", "reason_phrase"]);
    }
    if m.message_type == MessageType::PublishNamespaceDone {
        assert(field_names(spec_message_fields(m)) =~= seq!["track_namespace"]);
    }
    if m.message_type == MessageType::PublishNamespaceCancel {
        assert(field_names(spec_message_fields(m)) =~= seq!["track_namespace", "error_code", "reason_phrase"]);
    }
    if m.message_type == MessageType::SubscribeNamespace {
        assert(field_names(spec_message_fields(m)) =~= seq!["request_id", "namespace_prefix", "parameters"]);
    }
    if m.message_type == MessageType::SubscribeNamespaceOk {
        assert(field_names(spec_message_fields(m)) =~= seq!["request_id"]);
    }
    if m.message_type == MessageType::SubscribeNamespaceError {
        assert(field_names(spec_message_fields(m)) =~= seq!["request_id", "error_code", "reason_phrase"]);
    }
    if m.message_type == MessageType::UnsubscribeNamespace {
        assert(field_names(spec_message_fields(m)) =~= seq!["track_namespace_prefix"]);
    }
    if m.message_type == MessageType::FetchOk {
        assert(field_names(spec_message_fields(m)) =~= seq!["request_id", "group_order", "end_of_track", "end_location", "parameters"]);
    }
    if m.message_type == MessageType::FetchError {
        assert(field_names(spec_message_fields(m)) =~= seq!["request_id", "error_code", "reason_phrase"]);
    }
    if m.message_type == MessageType::FetchCancel {
        assert(field_names(spec_message_fields(m)) =~= seq!["request_id"]);
    }
    if m.message_type == MessageType::TrackStatusError {
        assert(field_names(spec_message_fields(m)) =~= seq!["request_id", "error_code", "reason_phrase"]);
    }
}

} // verus!
