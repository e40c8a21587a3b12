//! The wire-code registries and range rules of draft-15 stated as laws:
//! each value is written out as the draft assigns it, apart from the code
//! that maps it.

use vstd::prelude::*;
use crate::draft15::message::{FetchType, MessageType};
use crate::draft15::error_codes::{DataStreamResetErrorCode, PublishDoneStatusCode, RequestErrorCode, SessionErrorCode};
use crate::draft15::types::ObjectStatus;
use crate::draft15::control::spec_location_range_ok;
use crate::draft15::data_stream::{spec_datagram_type_assigned, spec_subgroup_type_assigned};
use crate::draft15::data_stream::{spec_next_object_id, spec_object_id_delta};

verus! {

/// The draft-15 control message type IDs: the wire value of every MessageType,
/// the value each one is read back from, and that no other value names one.
pub proof fn lemma_message_type_registry()
    ensures
        MessageType::SubscribeUpdate.spec_id() == 0x02,
        MessageType::Subscribe.spec_id() == 0x03,
        MessageType::SubscribeOk.spec_id() == 0x04,
        MessageType::RequestError.spec_id() == 0x05,
        MessageType::PublishNamespace.spec_id() == 0x06,
        MessageType::RequestOk.spec_id() == 0x07,
        MessageType::PublishNamespaceDone.spec_id() == 0x09,
        MessageType::Unsubscribe.spec_id() == 0x0a,
        MessageType::PublishDone.spec_id() == 0x0b,
        MessageType::PublishNamespaceCancel.spec_id() == 0x0c,
        MessageType::TrackStatus.spec_id() == 0x0d,
        MessageType::GoAway.spec_id() == 0x10,
        MessageType::SubscribeNamespace.spec_id() == 0x11,
        MessageType::UnsubscribeNamespace.spec_id() == 0x14,
        MessageType::MaxRequestId.spec_id() == 0x15,
        MessageType::Fetch.spec_id() == 0x16,
        MessageType::FetchCancel.spec_id() == 0x17,
        MessageType::FetchOk.spec_id() == 0x18,
        MessageType::RequestsBlocked.spec_id() == 0x1a,
        MessageType::Publish.spec_id() == 0x1d,
        MessageType::PublishOk.spec_id() == 0x1e,
        MessageType::ClientSetup.spec_id() == 0x20,
        MessageType::ServerSetup.spec_id() == 0x21,
        MessageType::spec_from_id(0x02) == Some(MessageType::SubscribeUpdate),
        MessageType::spec_from_id(0x03) == Some(MessageType::Subscribe),
        MessageType::spec_from_id(0x04) == Some(MessageType::SubscribeOk),
        MessageType::spec_from_id(0x05) == Some(MessageType::RequestError),
        MessageType::spec_from_id(0x06) == Some(MessageType::PublishNamespace),
        MessageType::spec_from_id(0x07) == Some(MessageType::RequestOk),
        MessageType::spec_from_id(0x09) == Some(MessageType::PublishNamespaceDone),
        MessageType::spec_from_id(0x0a) == Some(MessageType::Unsubscribe),
        MessageType::spec_from_id(0x0b) == Some(MessageType::PublishDone),
        MessageType::spec_from_id(0x0c) == Some(MessageType::PublishNamespaceCancel),
        MessageType::spec_from_id(0x0d) == Some(MessageType::TrackStatus),
        MessageType::spec_from_id(0x10) == Some(MessageType::GoAway),
        MessageType::spec_from_id(0x11) == Some(MessageType::SubscribeNamespace),
        MessageType::spec_from_id(0x14) == Some(MessageType::UnsubscribeNamespace),
        MessageType::spec_from_id(0x15) == Some(MessageType::MaxRequestId),
        MessageType::spec_from_id(0x16) == Some(MessageType::Fetch),
        MessageType::spec_from_id(0x17) == Some(MessageType::FetchCancel),
        MessageType::spec_from_id(0x18) == Some(MessageType::FetchOk),
        MessageType::spec_from_id(0x1a) == Some(MessageType::RequestsBlocked),
        MessageType::spec_from_id(0x1d) == Some(MessageType::Publish),
        MessageType::spec_from_id(0x1e) == Some(MessageType::PublishOk),
        MessageType::spec_from_id(0x20) == Some(MessageType::ClientSetup),
        MessageType::spec_from_id(0x21) == Some(MessageType::ServerSetup),
        forall|v: u64| (#[trigger] MessageType::spec_from_id(v)) is Some ==> (v == 0x02 || v == 0x03 || v == 0x04 || v == 0x05 || v == 0x06 || v == 0x07 || v == 0x09 || v == 0x0a || v == 0x0b || v == 0x0c || v == 0x0d || v == 0x10 || v == 0x11 || v == 0x14 || v == 0x15 || v == 0x16 || v == 0x17 || v == 0x18 || v == 0x1a || v == 0x1d || v == 0x1e || v == 0x20 || v == 0x21),
{
}

/// The draft-15 Fetch Types: the wire value of every FetchType,
/// the value each one is read back from, and that no other value names one.
pub proof fn lemma_fetch_type_registry()
    ensures
        FetchType::Standalone.spec_value() == 1,
        FetchType::RelativeJoining.spec_value() == 2,
        FetchType::AbsoluteJoining.spec_value() == 3,
        FetchType::spec_from_u64(1) == Some(FetchType::Standalone),
        FetchType::spec_from_u64(2) == Some(FetchType::RelativeJoining),
        FetchType::spec_from_u64(3) == Some(FetchType::AbsoluteJoining),
        forall|v: u64| (#[trigger] FetchType::spec_from_u64(v)) is Some ==> (v == 1 || v == 2 || v == 3),
{
}

/// The draft-15 Session Error Code registry: the wire value of every SessionErrorCode,
/// as the registry assigns it.
pub proof fn lemma_session_error_code_registry()
    ensures
        SessionErrorCode::NoError.spec_code() == 0x0,
        SessionErrorCode::InternalError.spec_code() == 0x1,
        SessionErrorCode::Unauthorized.spec_code() == 0x2,
        SessionErrorCode::ProtocolViolation.spec_code() == 0x3,
        SessionErrorCode::InvalidRequestId.spec_code() == 0x4,
        SessionErrorCode::DuplicateTrackAlias.spec_code() == 0x5,
        SessionErrorCode::KeyValueFormattingError.spec_code() == 0x6,
        SessionErrorCode::TooManyRequests.spec_code() == 0x7,
        SessionErrorCode::InvalidPath.spec_code() == 0x8,
        SessionErrorCode::MalformedPath.spec_code() == 0x9,
        SessionErrorCode::GoawayTimeout.spec_code() == 0x10,
        SessionErrorCode::ControlMessageTimeout.spec_code() == 0x11,
        SessionErrorCode::DataStreamTimeout.spec_code() == 0x12,
        SessionErrorCode::AuthTokenCacheOverflow.spec_code() == 0x13,
        SessionErrorCode::DuplicateAuthTokenAlias.spec_code() == 0x14,
        SessionErrorCode::VersionNegotiationFailed.spec_code() == 0x15,
        SessionErrorCode::MalformedAuthToken.spec_code() == 0x16,
        SessionErrorCode::UnknownAuthTokenAlias.spec_code() == 0x17,
        SessionErrorCode::ExpiredAuthToken.spec_code() == 0x18,
        SessionErrorCode::InvalidAuthority.spec_code() == 0x19,
        SessionErrorCode::MalformedAuthority.spec_code() == 0x1a,
{
}

/// The draft-15 Request Error Code registry: the wire value of every RequestErrorCode,
/// as the registry assigns it.
pub proof fn lemma_request_error_code_registry()
    ensures
        RequestErrorCode::InternalError.spec_code() == 0x0,
        RequestErrorCode::Unauthorized.spec_code() == 0x1,
        RequestErrorCode::Timeout.spec_code() == 0x2,
        RequestErrorCode::NotSupported.spec_code() == 0x3,
        RequestErrorCode::MalformedAuthToken.spec_code() == 0x4,
        RequestErrorCode::ExpiredAuthToken.spec_code() == 0x5,
        RequestErrorCode::DoesNotExist.spec_code() == 0x10,
        RequestErrorCode::InvalidRange.spec_code() == 0x11,
        RequestErrorCode::MalformedTrack.spec_code() == 0x12,
        RequestErrorCode::Uninterested.spec_code() == 0x20,
        RequestErrorCode::PrefixOverlap.spec_code() == 0x30,
        RequestErrorCode::InvalidJoiningRequestId.spec_code() == 0x32,
        RequestErrorCode::UnknownStatusInRange.spec_code() == 0x33,
{
}

/// The draft-15 Publish Done Status Code registry: the wire value of every PublishDoneStatusCode,
/// as the registry assigns it.
pub proof fn lemma_publish_done_status_code_registry()
    ensures
        PublishDoneStatusCode::InternalError.spec_code() == 0x0,
        PublishDoneStatusCode::Unauthorized.spec_code() == 0x1,
        PublishDoneStatusCode::TrackEnded.spec_code() == 0x2,
        PublishDoneStatusCode::SubscriptionEnded.spec_code() == 0x3,
        PublishDoneStatusCode::GoingAway.spec_code() == 0x4,
        PublishDoneStatusCode::Expired.spec_code() == 0x5,
        PublishDoneStatusCode::TooFarBehind.spec_code() == 0x6,
        PublishDoneStatusCode::MalformedTrack.spec_code() == 0x7,
        PublishDoneStatusCode::UpdateFailed.spec_code() == 0x8,
{
}

/// The draft-15 Data Stream Reset Error Code registry: the wire value of every DataStreamResetErrorCode,
/// as the registry assigns it.
pub proof fn lemma_data_stream_reset_error_code_registry()
    ensures
        DataStreamResetErrorCode::InternalError.spec_code() == 0x0,
        DataStreamResetErrorCode::Cancelled.spec_code() == 0x1,
        DataStreamResetErrorCode::DeliveryTimeout.spec_code() == 0x2,
        DataStreamResetErrorCode::SessionClosed.spec_code() == 0x3,
{
}


/// The draft-15 Object Status codes: Normal 0x0, Object Does Not Exist
/// 0x1, End of Group 0x3, End of Track 0x4, and that no other value names one.
pub proof fn lemma_object_status_registry()
    ensures
        ObjectStatus::Normal.spec_code() == 0x0,
        ObjectStatus::ObjectDoesNotExist.spec_code() == 0x1,
        ObjectStatus::EndOfGroup.spec_code() == 0x3,
        ObjectStatus::EndOfTrack.spec_code() == 0x4,
        ObjectStatus::spec_from_code(0x0) == Some(ObjectStatus::Normal),
        ObjectStatus::spec_from_code(0x1) == Some(ObjectStatus::ObjectDoesNotExist),
        ObjectStatus::spec_from_code(0x3) == Some(ObjectStatus::EndOfGroup),
        ObjectStatus::spec_from_code(0x4) == Some(ObjectStatus::EndOfTrack),
        forall|v: u64| (#[trigger] ObjectStatus::spec_from_code(v)) is Some ==> (v == 0x0 || v == 0x1 || v == 0x3 || v == 0x4),
{
}

/// A FETCH range is accepted exactly when its end is not before its start.
/// The End Group is inclusive and the End Object is one past the last
/// Object, zero asking for the whole End Group: so the start group itself is
/// always a range, a later end group always is, an earlier one never is, and
/// within the start group an End Object must be zero or past the start.
pub proof fn lemma_fetch_range_rules(sg: u64, so: u64, eg: u64, eo: u64)
    ensures
        spec_location_range_ok(sg, so, sg, 0),
        eo > so ==> spec_location_range_ok(sg, so, sg, eo),
        0 < eo <= so ==> !spec_location_range_ok(sg, so, sg, eo),
        eg > sg ==> spec_location_range_ok(sg, so, eg, eo),
        eg < sg ==> !spec_location_range_ok(sg, so, eg, eo),
{
}
/// The subgroup stream Types draft-15 assigns are exactly `0x10..=0x15`,
/// `0x18..=0x1D`, `0x30..=0x35` and `0x38..=0x3D`.
pub proof fn lemma_subgroup_types(raw: u64)
    ensures
        spec_subgroup_type_assigned(raw) <==> (0x10 <= raw <= 0x15 || 0x18 <= raw <= 0x1d || 0x30 <= raw <= 0x35 || 0x38 <= raw <= 0x3d),
{
    assert(spec_subgroup_type_assigned(raw) <==> (0x10 <= raw <= 0x15 || 0x18 <= raw <= 0x1d || 0x30 <= raw <= 0x35 || 0x38 <= raw <= 0x3d)) by (bit_vector);
}

/// The datagram Types draft-15 assigns are exactly `0x00..=0x0F` and the
/// status Types `0x20`, `0x21`, `0x24`, `0x25`, `0x28`, `0x29`, `0x2C`,
/// `0x2D`.
pub proof fn lemma_datagram_types(raw: u64)
    ensures
        spec_datagram_type_assigned(raw) <==> (raw <= 0x0f || raw == 0x20 || raw == 0x21 || raw == 0x24 || raw == 0x25 || raw == 0x28 || raw == 0x29 || raw == 0x2c || raw == 0x2d),
{
    assert(spec_datagram_type_assigned(raw) <==> (raw <= 0x0f || raw == 0x20 || raw == 0x21 || raw == 0x24 || raw == 0x25 || raw == 0x28 || raw == 0x29 || raw == 0x2c || raw == 0x2d)) by (bit_vector);
}

/// Object IDs on a subgroup stream are written as deltas: the first
/// Object's delta is its Object ID, and every later Object ID is the one
/// before it plus the delta plus one, so IDs strictly increase and a delta of
/// zero is the next ID. Writing a delta and reading it back gives the ID, and
/// an ID at or before the one before it has no delta.
pub proof fn lemma_object_id_delta_rules(prev: u64, id: u64, delta: u64)
    ensures
        spec_next_object_id(None, delta) == Some(delta),
        spec_object_id_delta(None, id) == Some(id),
        prev < u64::MAX ==> spec_next_object_id(Some(prev), 0) == Some((prev + 1) as u64),
        spec_next_object_id(Some(prev), delta) matches Some(n) ==> n > prev && n - prev - 1 == delta,
        id > prev ==> (spec_object_id_delta(Some(prev), id) matches Some(d) && spec_next_object_id(Some(prev), d) == Some(id)),
        id <= prev ==> spec_object_id_delta(Some(prev), id) is None,
{
}

} // verus!
