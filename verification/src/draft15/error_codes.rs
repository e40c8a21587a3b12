//! Error, status and stream-reset code registries of draft-15.
//!
//! Each registry is an enum whose wire value is given by `spec_code`.
//! `from_u64` answers `None` for every value the registry does not assign.

use vstd::prelude::*;

verus! {

/// The SessionErrorCode registry of draft-15.
#[derive(Debug, Clone, Copy, PartialEq, Eq, Structural)]
pub enum SessionErrorCode {
    /// Wire value 0x0.
    NoError,
    /// Wire value 0x1.
    InternalError,
    /// Wire value 0x2.
    Unauthorized,
    /// Wire value 0x3.
    ProtocolViolation,
    /// Wire value 0x4.
    InvalidRequestId,
    /// Wire value 0x5.
    DuplicateTrackAlias,
    /// Wire value 0x6.
    KeyValueFormattingError,
    /// Wire value 0x7.
    TooManyRequests,
    /// Wire value 0x8.
    InvalidPath,
    /// Wire value 0x9.
    MalformedPath,
    /// Wire value 0x10.
    GoawayTimeout,
    /// Wire value 0x11.
    ControlMessageTimeout,
    /// Wire value 0x12.
    DataStreamTimeout,
    /// Wire value 0x13.
    AuthTokenCacheOverflow,
    /// Wire value 0x14.
    DuplicateAuthTokenAlias,
    /// Wire value 0x15.
    VersionNegotiationFailed,
    /// Wire value 0x16.
    MalformedAuthToken,
    /// Wire value 0x17.
    UnknownAuthTokenAlias,
    /// Wire value 0x18.
    ExpiredAuthToken,
    /// Wire value 0x19.
    InvalidAuthority,
    /// Wire value 0x1A.
    MalformedAuthority,
}

impl SessionErrorCode {

    /// Every value, in registry order.
    pub fn all() -> (r: Vec<SessionErrorCode>)
        ensures
            r@ == seq![SessionErrorCode::NoError, SessionErrorCode::InternalError, SessionErrorCode::Unauthorized, SessionErrorCode::ProtocolViolation, SessionErrorCode::InvalidRequestId, SessionErrorCode::DuplicateTrackAlias, SessionErrorCode::KeyValueFormattingError, SessionErrorCode::TooManyRequests, SessionErrorCode::InvalidPath, SessionErrorCode::MalformedPath, SessionErrorCode::GoawayTimeout, SessionErrorCode::ControlMessageTimeout, SessionErrorCode::DataStreamTimeout, SessionErrorCode::AuthTokenCacheOverflow, SessionErrorCode::DuplicateAuthTokenAlias, SessionErrorCode::VersionNegotiationFailed, SessionErrorCode::MalformedAuthToken, SessionErrorCode::UnknownAuthTokenAlias, SessionErrorCode::ExpiredAuthToken, SessionErrorCode::InvalidAuthority, SessionErrorCode::MalformedAuthority],
    {
        let mut v: Vec<SessionErrorCode> = Vec::new();
        v.push(SessionErrorCode::NoError);
        v.push(SessionErrorCode::InternalError);
        v.push(SessionErrorCode::Unauthorized);
        v.push(SessionErrorCode::ProtocolViolation);
        v.push(SessionErrorCode::InvalidRequestId);
        v.push(SessionErrorCode::DuplicateTrackAlias);
        v.push(SessionErrorCode::KeyValueFormattingError);
        v.push(SessionErrorCode::TooManyRequests);
        v.push(SessionErrorCode::InvalidPath);
        v.push(SessionErrorCode::MalformedPath);
        v.push(SessionErrorCode::GoawayTimeout);
        v.push(SessionErrorCode::ControlMessageTimeout);
        v.push(SessionErrorCode::DataStreamTimeout);
        v.push(SessionErrorCode::AuthTokenCacheOverflow);
        v.push(SessionErrorCode::DuplicateAuthTokenAlias);
        v.push(SessionErrorCode::VersionNegotiationFailed);
        v.push(SessionErrorCode::MalformedAuthToken);
        v.push(SessionErrorCode::UnknownAuthTokenAlias);
        v.push(SessionErrorCode::ExpiredAuthToken);
        v.push(SessionErrorCode::InvalidAuthority);
        v.push(SessionErrorCode::MalformedAuthority);
        assert(v@ =~= seq![SessionErrorCode::NoError, SessionErrorCode::InternalError, SessionErrorCode::Unauthorized, SessionErrorCode::ProtocolViolation, SessionErrorCode::InvalidRequestId, SessionErrorCode::DuplicateTrackAlias, SessionErrorCode::KeyValueFormattingError, SessionErrorCode::TooManyRequests, SessionErrorCode::InvalidPath, SessionErrorCode::MalformedPath, SessionErrorCode::GoawayTimeout, SessionErrorCode::ControlMessageTimeout, SessionErrorCode::DataStreamTimeout, SessionErrorCode::AuthTokenCacheOverflow, SessionErrorCode::DuplicateAuthTokenAlias, SessionErrorCode::VersionNegotiationFailed, SessionErrorCode::MalformedAuthToken, SessionErrorCode::UnknownAuthTokenAlias, SessionErrorCode::ExpiredAuthToken, SessionErrorCode::InvalidAuthority, SessionErrorCode::MalformedAuthority]);
        v
    }
    /// The wire value of this code.
    pub open spec fn spec_code(self) -> u64 {
        match self {
            SessionErrorCode::NoError => 0x0,
            SessionErrorCode::InternalError => 0x1,
            SessionErrorCode::Unauthorized => 0x2,
            SessionErrorCode::ProtocolViolation => 0x3,
            SessionErrorCode::InvalidRequestId => 0x4,
            SessionErrorCode::DuplicateTrackAlias => 0x5,
            SessionErrorCode::KeyValueFormattingError => 0x6,
            SessionErrorCode::TooManyRequests => 0x7,
            SessionErrorCode::InvalidPath => 0x8,
            SessionErrorCode::MalformedPath => 0x9,
            SessionErrorCode::GoawayTimeout => 0x10,
            SessionErrorCode::ControlMessageTimeout => 0x11,
            SessionErrorCode::DataStreamTimeout => 0x12,
            SessionErrorCode::AuthTokenCacheOverflow => 0x13,
            SessionErrorCode::DuplicateAuthTokenAlias => 0x14,
            SessionErrorCode::VersionNegotiationFailed => 0x15,
            SessionErrorCode::MalformedAuthToken => 0x16,
            SessionErrorCode::UnknownAuthTokenAlias => 0x17,
            SessionErrorCode::ExpiredAuthToken => 0x18,
            SessionErrorCode::InvalidAuthority => 0x19,
            SessionErrorCode::MalformedAuthority => 0x1A,
        }
    }

    /// The code with wire value `v`, or `None` when the registry does not assign `v`.
    pub fn from_u64(v: u64) -> (r: Option<Self>)
        ensures
            match r {
                Some(c) => c.spec_code() == v,
                None => forall|c: Self| #[trigger] c.spec_code() != v,
            },
    {
        match v {
            0x0 => Some(SessionErrorCode::NoError),
            0x1 => Some(SessionErrorCode::InternalError),
            0x2 => Some(SessionErrorCode::Unauthorized),
            0x3 => Some(SessionErrorCode::ProtocolViolation),
            0x4 => Some(SessionErrorCode::InvalidRequestId),
            0x5 => Some(SessionErrorCode::DuplicateTrackAlias),
            0x6 => Some(SessionErrorCode::KeyValueFormattingError),
            0x7 => Some(SessionErrorCode::TooManyRequests),
            0x8 => Some(SessionErrorCode::InvalidPath),
            0x9 => Some(SessionErrorCode::MalformedPath),
            0x10 => Some(SessionErrorCode::GoawayTimeout),
            0x11 => Some(SessionErrorCode::ControlMessageTimeout),
            0x12 => Some(SessionErrorCode::DataStreamTimeout),
            0x13 => Some(SessionErrorCode::AuthTokenCacheOverflow),
            0x14 => Some(SessionErrorCode::DuplicateAuthTokenAlias),
            0x15 => Some(SessionErrorCode::VersionNegotiationFailed),
            0x16 => Some(SessionErrorCode::MalformedAuthToken),
            0x17 => Some(SessionErrorCode::UnknownAuthTokenAlias),
            0x18 => Some(SessionErrorCode::ExpiredAuthToken),
            0x19 => Some(SessionErrorCode::InvalidAuthority),
            0x1A => Some(SessionErrorCode::MalformedAuthority),
            _ => None,
        }
    }

    /// The wire value of this code.
    pub fn as_u64(self) -> (r: u64)
        ensures
            r == self.spec_code(),
    {
        match self {
            SessionErrorCode::NoError => 0x0,
            SessionErrorCode::InternalError => 0x1,
            SessionErrorCode::Unauthorized => 0x2,
            SessionErrorCode::ProtocolViolation => 0x3,
            SessionErrorCode::InvalidRequestId => 0x4,
            SessionErrorCode::DuplicateTrackAlias => 0x5,
            SessionErrorCode::KeyValueFormattingError => 0x6,
            SessionErrorCode::TooManyRequests => 0x7,
            SessionErrorCode::InvalidPath => 0x8,
            SessionErrorCode::MalformedPath => 0x9,
            SessionErrorCode::GoawayTimeout => 0x10,
            SessionErrorCode::ControlMessageTimeout => 0x11,
            SessionErrorCode::DataStreamTimeout => 0x12,
            SessionErrorCode::AuthTokenCacheOverflow => 0x13,
            SessionErrorCode::DuplicateAuthTokenAlias => 0x14,
            SessionErrorCode::VersionNegotiationFailed => 0x15,
            SessionErrorCode::MalformedAuthToken => 0x16,
            SessionErrorCode::UnknownAuthTokenAlias => 0x17,
            SessionErrorCode::ExpiredAuthToken => 0x18,
            SessionErrorCode::InvalidAuthority => 0x19,
            SessionErrorCode::MalformedAuthority => 0x1A,
        }
    }

    /// No two codes share a wire value, so reading back the value of a code
    /// gives the code.
    pub proof fn lemma_code_injective(a: SessionErrorCode, b: SessionErrorCode)
        ensures
            a.spec_code() == b.spec_code() ==> a == b,
    {
    }
}

/// The RequestErrorCode registry of draft-15.
#[derive(Debug, Clone, Copy, PartialEq, Eq, Structural)]
pub enum RequestErrorCode {
    /// Wire value 0x0.
    InternalError,
    /// Wire value 0x1.
    Unauthorized,
    /// Wire value 0x2.
    Timeout,
    /// Wire value 0x3.
    NotSupported,
    /// Wire value 0x4.
    MalformedAuthToken,
    /// Wire value 0x5.
    ExpiredAuthToken,
    /// Wire value 0x10.
    DoesNotExist,
    /// Wire value 0x11.
    InvalidRange,
    /// Wire value 0x12.
    MalformedTrack,
    /// Wire value 0x20.
    Uninterested,
    /// Wire value 0x30.
    PrefixOverlap,
    /// Wire value 0x32.
    InvalidJoiningRequestId,
    /// Wire value 0x33.
    UnknownStatusInRange,
}

impl RequestErrorCode {

    /// Every value, in registry order.
    pub fn all() -> (r: Vec<RequestErrorCode>)
        ensures
            r@ == seq![RequestErrorCode::InternalError, RequestErrorCode::Unauthorized, RequestErrorCode::Timeout, RequestErrorCode::NotSupported, RequestErrorCode::MalformedAuthToken, RequestErrorCode::ExpiredAuthToken, RequestErrorCode::DoesNotExist, RequestErrorCode::InvalidRange, RequestErrorCode::MalformedTrack, RequestErrorCode::Uninterested, RequestErrorCode::PrefixOverlap, RequestErrorCode::InvalidJoiningRequestId, RequestErrorCode::UnknownStatusInRange],
    {
        let mut v: Vec<RequestErrorCode> = Vec::new();
        v.push(RequestErrorCode::InternalError);
        v.push(RequestErrorCode::Unauthorized);
        v.push(RequestErrorCode::Timeout);
        v.push(RequestErrorCode::NotSupported);
        v.push(RequestErrorCode::MalformedAuthToken);
        v.push(RequestErrorCode::ExpiredAuthToken);
        v.push(RequestErrorCode::DoesNotExist);
        v.push(RequestErrorCode::InvalidRange);
        v.push(RequestErrorCode::MalformedTrack);
        v.push(RequestErrorCode::Uninterested);
        v.push(RequestErrorCode::PrefixOverlap);
        v.push(RequestErrorCode::InvalidJoiningRequestId);
        v.push(RequestErrorCode::UnknownStatusInRange);
        assert(v@ =~= seq![RequestErrorCode::InternalError, RequestErrorCode::Unauthorized, RequestErrorCode::Timeout, RequestErrorCode::NotSupported, RequestErrorCode::MalformedAuthToken, RequestErrorCode::ExpiredAuthToken, RequestErrorCode::DoesNotExist, RequestErrorCode::InvalidRange, RequestErrorCode::MalformedTrack, RequestErrorCode::Uninterested, RequestErrorCode::PrefixOverlap, RequestErrorCode::InvalidJoiningRequestId, RequestErrorCode::UnknownStatusInRange]);
        v
    }
    /// The wire value of this code.
    pub open spec fn spec_code(self) -> u64 {
        match self {
            RequestErrorCode::InternalError => 0x0,
            RequestErrorCode::Unauthorized => 0x1,
            RequestErrorCode::Timeout => 0x2,
            RequestErrorCode::NotSupported => 0x3,
            RequestErrorCode::MalformedAuthToken => 0x4,
            RequestErrorCode::ExpiredAuthToken => 0x5,
            RequestErrorCode::DoesNotExist => 0x10,
            RequestErrorCode::InvalidRange => 0x11,
            RequestErrorCode::MalformedTrack => 0x12,
            RequestErrorCode::Uninterested => 0x20,
            RequestErrorCode::PrefixOverlap => 0x30,
            RequestErrorCode::InvalidJoiningRequestId => 0x32,
            RequestErrorCode::UnknownStatusInRange => 0x33,
        }
    }

    /// The code with wire value `v`, or `None` when the registry does not assign `v`.
    pub fn from_u64(v: u64) -> (r: Option<Self>)
        ensures
            match r {
                Some(c) => c.spec_code() == v,
                None => forall|c: Self| #[trigger] c.spec_code() != v,
            },
    {
        match v {
            0x0 => Some(RequestErrorCode::InternalError),
            0x1 => Some(RequestErrorCode::Unauthorized),
            0x2 => Some(RequestErrorCode::Timeout),
            0x3 => Some(RequestErrorCode::NotSupported),
            0x4 => Some(RequestErrorCode::MalformedAuthToken),
            0x5 => Some(RequestErrorCode::ExpiredAuthToken),
            0x10 => Some(RequestErrorCode::DoesNotExist),
            0x11 => Some(RequestErrorCode::InvalidRange),
            0x12 => Some(RequestErrorCode::MalformedTrack),
            0x20 => Some(RequestErrorCode::Uninterested),
            0x30 => Some(RequestErrorCode::PrefixOverlap),
            0x32 => Some(RequestErrorCode::InvalidJoiningRequestId),
            0x33 => Some(RequestErrorCode::UnknownStatusInRange),
            _ => None,
        }
    }

    /// The wire value of this code.
    pub fn as_u64(self) -> (r: u64)
        ensures
            r == self.spec_code(),
    {
        match self {
            RequestErrorCode::InternalError => 0x0,
            RequestErrorCode::Unauthorized => 0x1,
            RequestErrorCode::Timeout => 0x2,
            RequestErrorCode::NotSupported => 0x3,
            RequestErrorCode::MalformedAuthToken => 0x4,
            RequestErrorCode::ExpiredAuthToken => 0x5,
            RequestErrorCode::DoesNotExist => 0x10,
            RequestErrorCode::InvalidRange => 0x11,
            RequestErrorCode::MalformedTrack => 0x12,
            RequestErrorCode::Uninterested => 0x20,
            RequestErrorCode::PrefixOverlap => 0x30,
            RequestErrorCode::InvalidJoiningRequestId => 0x32,
            RequestErrorCode::UnknownStatusInRange => 0x33,
        }
    }

    /// No two codes share a wire value, so reading back the value of a code
    /// gives the code.
    pub proof fn lemma_code_injective(a: RequestErrorCode, b: RequestErrorCode)
        ensures
            a.spec_code() == b.spec_code() ==> a == b,
    {
    }
}

/// The PublishDoneStatusCode registry of draft-15.
#[derive(Debug, Clone, Copy, PartialEq, Eq, Structural)]
pub enum PublishDoneStatusCode {
    /// Wire value 0x0.
    InternalError,
    /// Wire value 0x1.
    Unauthorized,
    /// Wire value 0x2.
    TrackEnded,
    /// Wire value 0x3.
    SubscriptionEnded,
    /// Wire value 0x4.
    GoingAway,
    /// Wire value 0x5.
    Expired,
    /// Wire value 0x6.
    TooFarBehind,
    /// Wire value 0x7.
    MalformedTrack,
    /// Wire value 0x8.
    UpdateFailed,
}

impl PublishDoneStatusCode {

    /// Every value, in registry order.
    pub fn all() -> (r: Vec<PublishDoneStatusCode>)
        ensures
            r@ == seq![PublishDoneStatusCode::InternalError, PublishDoneStatusCode::Unauthorized, PublishDoneStatusCode::TrackEnded, PublishDoneStatusCode::SubscriptionEnded, PublishDoneStatusCode::GoingAway, PublishDoneStatusCode::Expired, PublishDoneStatusCode::TooFarBehind, PublishDoneStatusCode::MalformedTrack, PublishDoneStatusCode::UpdateFailed],
    {
        let mut v: Vec<PublishDoneStatusCode> = Vec::new();
        v.push(PublishDoneStatusCode::InternalError);
        v.push(PublishDoneStatusCode::Unauthorized);
        v.push(PublishDoneStatusCode::TrackEnded);
        v.push(PublishDoneStatusCode::SubscriptionEnded);
        v.push(PublishDoneStatusCode::GoingAway);
        v.push(PublishDoneStatusCode::Expired);
        v.push(PublishDoneStatusCode::TooFarBehind);
        v.push(PublishDoneStatusCode::MalformedTrack);
        v.push(PublishDoneStatusCode::UpdateFailed);
        assert(v@ =~= seq![PublishDoneStatusCode::InternalError, PublishDoneStatusCode::Unauthorized, PublishDoneStatusCode::TrackEnded, PublishDoneStatusCode::SubscriptionEnded, PublishDoneStatusCode::GoingAway, PublishDoneStatusCode::Expired, PublishDoneStatusCode::TooFarBehind, PublishDoneStatusCode::MalformedTrack, PublishDoneStatusCode::UpdateFailed]);
        v
    }
    /// The wire value of this code.
    pub open spec fn spec_code(self) -> u64 {
        match self {
            PublishDoneStatusCode::InternalError => 0x0,
            PublishDoneStatusCode::Unauthorized => 0x1,
            PublishDoneStatusCode::TrackEnded => 0x2,
            PublishDoneStatusCode::SubscriptionEnded => 0x3,
            PublishDoneStatusCode::GoingAway => 0x4,
            PublishDoneStatusCode::Expired => 0x5,
            PublishDoneStatusCode::TooFarBehind => 0x6,
            PublishDoneStatusCode::MalformedTrack => 0x7,
            PublishDoneStatusCode::UpdateFailed => 0x8,
        }
    }

    /// The code with wire value `v`, or `None` when the registry does not assign `v`.
    pub fn from_u64(v: u64) -> (r: Option<Self>)
        ensures
            match r {
                Some(c) => c.spec_code() == v,
                None => forall|c: Self| #[trigger] c.spec_code() != v,
            },
    {
        match v {
            0x0 => Some(PublishDoneStatusCode::InternalError),
            0x1 => Some(PublishDoneStatusCode::Unauthorized),
            0x2 => Some(PublishDoneStatusCode::TrackEnded),
            0x3 => Some(PublishDoneStatusCode::SubscriptionEnded),
            0x4 => Some(PublishDoneStatusCode::GoingAway),
            0x5 => Some(PublishDoneStatusCode::Expired),
            0x6 => Some(PublishDoneStatusCode::TooFarBehind),
            0x7 => Some(PublishDoneStatusCode::MalformedTrack),
            0x8 => Some(PublishDoneStatusCode::UpdateFailed),
            _ => None,
        }
    }

    /// The wire value of this code.
    pub fn as_u64(self) -> (r: u64)
        ensures
            r == self.spec_code(),
    {
        match self {
            PublishDoneStatusCode::InternalError => 0x0,
            PublishDoneStatusCode::Unauthorized => 0x1,
            PublishDoneStatusCode::TrackEnded => 0x2,
            PublishDoneStatusCode::SubscriptionEnded => 0x3,
            PublishDoneStatusCode::GoingAway => 0x4,
            PublishDoneStatusCode::Expired => 0x5,
            PublishDoneStatusCode::TooFarBehind => 0x6,
            PublishDoneStatusCode::MalformedTrack => 0x7,
            PublishDoneStatusCode::UpdateFailed => 0x8,
        }
    }

    /// No two codes share a wire value, so reading back the value of a code
    /// gives the code.
    pub proof fn lemma_code_injective(a: PublishDoneStatusCode, b: PublishDoneStatusCode)
        ensures
            a.spec_code() == b.spec_code() ==> a == b,
    {
    }
}

/// The DataStreamResetErrorCode registry of draft-15.
#[derive(Debug, Clone, Copy, PartialEq, Eq, Structural)]
pub enum DataStreamResetErrorCode {
    /// Wire value 0x0.
    InternalError,
    /// Wire value 0x1.
    Cancelled,
    /// Wire value 0x2.
    DeliveryTimeout,
    /// Wire value 0x3.
    SessionClosed,
}

impl DataStreamResetErrorCode {

    /// Every value, in registry order.
    pub fn all() -> (r: Vec<DataStreamResetErrorCode>)
        ensures
            r@ == seq![DataStreamResetErrorCode::InternalError, DataStreamResetErrorCode::Cancelled, DataStreamResetErrorCode::DeliveryTimeout, DataStreamResetErrorCode::SessionClosed],
    {
        let mut v: Vec<DataStreamResetErrorCode> = Vec::new();
        v.push(DataStreamResetErrorCode::InternalError);
        v.push(DataStreamResetErrorCode::Cancelled);
        v.push(DataStreamResetErrorCode::DeliveryTimeout);
        v.push(DataStreamResetErrorCode::SessionClosed);
        assert(v@ =~= seq![DataStreamResetErrorCode::InternalError, DataStreamResetErrorCode::Cancelled, DataStreamResetErrorCode::DeliveryTimeout, DataStreamResetErrorCode::SessionClosed]);
        v
    }
    /// The wire value of this code.
    pub open spec fn spec_code(self) -> u64 {
        match self {
            DataStreamResetErrorCode::InternalError => 0x0,
            DataStreamResetErrorCode::Cancelled => 0x1,
            DataStreamResetErrorCode::DeliveryTimeout => 0x2,
            DataStreamResetErrorCode::SessionClosed => 0x3,
        }
    }

    /// The code with wire value `v`, or `None` when the registry does not assign `v`.
    pub fn from_u64(v: u64) -> (r: Option<Self>)
        ensures
            match r {
                Some(c) => c.spec_code() == v,
                None => forall|c: Self| #[trigger] c.spec_code() != v,
            },
    {
        match v {
            0x0 => Some(DataStreamResetErrorCode::InternalError),
            0x1 => Some(DataStreamResetErrorCode::Cancelled),
            0x2 => Some(DataStreamResetErrorCode::DeliveryTimeout),
            0x3 => Some(DataStreamResetErrorCode::SessionClosed),
            _ => None,
        }
    }

    /// The wire value of this code.
    pub fn as_u64(self) -> (r: u64)
        ensures
            r == self.spec_code(),
    {
        match self {
            DataStreamResetErrorCode::InternalError => 0x0,
            DataStreamResetErrorCode::Cancelled => 0x1,
            DataStreamResetErrorCode::DeliveryTimeout => 0x2,
            DataStreamResetErrorCode::SessionClosed => 0x3,
        }
    }

    /// No two codes share a wire value, so reading back the value of a code
    /// gives the code.
    pub proof fn lemma_code_injective(a: DataStreamResetErrorCode, b: DataStreamResetErrorCode)
        ensures
            a.spec_code() == b.spec_code() ==> a == b,
    {
    }
}

} // verus!
