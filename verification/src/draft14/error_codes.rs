//! Error, status and stream-reset code registries of draft-14.
//!
//! Each registry is an enum whose wire value is given by `spec_code`.
//! `from_u64` answers `None` for every value the registry does not assign.

use vstd::prelude::*;

verus! {

/// The SessionErrorCode registry of draft-14.
#[derive(Debug, Clone, Copy, PartialEq, Eq, Structural)]
pub enum SessionErrorCode {
    /// Wire value 0x0.
    NoError,
    /// Wire value 0x1.
    InternalError,
    /// Wire value 0x2.
    Unauthorized,
    /// Wire value 0x3.
    ProtocolViolation,
    /// Wire value 0x4.
    InvalidRequestId,
    /// Wire value 0x5.
    DuplicateTrackAlias,
    /// Wire value 0x6.
    KeyValueFormattingError,
    /// Wire value 0x7.
    TooManyRequests,
    /// Wire value 0x8.
    InvalidPath,
    /// Wire value 0x9.
    MalformedPath,
    /// Wire value 0x10.
    GoawayTimeout,
    /// Wire value 0x11.
    ControlMessageTimeout,
    /// Wire value 0x12.
    DataStreamTimeout,
    /// Wire value 0x13.
    AuthTokenCacheOverflow,
    /// Wire value 0x14.
    DuplicateAuthTokenAlias,
    /// Wire value 0x15.
    VersionNegotiationFailed,
    /// Wire value 0x16.
    MalformedAuthToken,
    /// Wire value 0x17.
    UnknownAuthTokenAlias,
    /// Wire value 0x18.
    ExpiredAuthToken,
    /// Wire value 0x19.
    InvalidAuthority,
    /// Wire value 0x1A.
    MalformedAuthority,
}

impl SessionErrorCode {

    /// Every value, in registry order.
    pub fn all() -> (r: Vec<SessionErrorCode>)
        ensures
            r@ == seq![SessionErrorCode::NoError, SessionErrorCode::InternalError, SessionErrorCode::Unauthorized, SessionErrorCode::ProtocolViolation, SessionErrorCode::InvalidRequestId, SessionErrorCode::DuplicateTrackAlias, SessionErrorCode::KeyValueFormattingError, SessionErrorCode::TooManyRequests, SessionErrorCode::InvalidPath, SessionErrorCode::MalformedPath, SessionErrorCode::GoawayTimeout, SessionErrorCode::ControlMessageTimeout, SessionErrorCode::DataStreamTimeout, SessionErrorCode::AuthTokenCacheOverflow, SessionErrorCode::DuplicateAuthTokenAlias, SessionErrorCode::VersionNegotiationFailed, SessionErrorCode::MalformedAuthToken, SessionErrorCode::UnknownAuthTokenAlias, SessionErrorCode::ExpiredAuthToken, SessionErrorCode::InvalidAuthority, SessionErrorCode::MalformedAuthority],
    {
        let mut v: Vec<SessionErrorCode> = Vec::new();
        v.push(SessionErrorCode::NoError);
        v.push(SessionErrorCode::InternalError);
        v.push(SessionErrorCode::Unauthorized);
        v.push(SessionErrorCode::ProtocolViolation);
        v.push(SessionErrorCode::InvalidRequestId);
        v.push(SessionErrorCode::DuplicateTrackAlias);
        v.push(SessionErrorCode::KeyValueFormattingError);
        v.push(SessionErrorCode::TooManyRequests);
        v.push(SessionErrorCode::InvalidPath);
        v.push(SessionErrorCode::MalformedPath);
        v.push(SessionErrorCode::GoawayTimeout);
        v.push(SessionErrorCode::ControlMessageTimeout);
        v.push(SessionErrorCode::DataStreamTimeout);
        v.push(SessionErrorCode::AuthTokenCacheOverflow);
        v.push(SessionErrorCode::DuplicateAuthTokenAlias);
        v.push(SessionErrorCode::VersionNegotiationFailed);
        v.push(SessionErrorCode::MalformedAuthToken);
        v.push(SessionErrorCode::UnknownAuthTokenAlias);
        v.push(SessionErrorCode::ExpiredAuthToken);
        v.push(SessionErrorCode::InvalidAuthority);
        v.push(SessionErrorCode::MalformedAuthority);
        assert(v@ =~= seq![SessionErrorCode::NoError, SessionErrorCode::InternalError, SessionErrorCode::Unauthorized, SessionErrorCode::ProtocolViolation, SessionErrorCode::InvalidRequestId, SessionErrorCode::DuplicateTrackAlias, SessionErrorCode::KeyValueFormattingError, SessionErrorCode::TooManyRequests, SessionErrorCode::InvalidPath, SessionErrorCode::MalformedPath, SessionErrorCode::GoawayTimeout, SessionErrorCode::ControlMessageTimeout, SessionErrorCode::DataStreamTimeout, SessionErrorCode::AuthTokenCacheOverflow, SessionErrorCode::DuplicateAuthTokenAlias, SessionErrorCode::VersionNegotiationFailed, SessionErrorCode::MalformedAuthToken, SessionErrorCode::UnknownAuthTokenAlias, SessionErrorCode::ExpiredAuthToken, SessionErrorCode::InvalidAuthority, SessionErrorCode::MalformedAuthority]);
        v
    }
    /// The wire value of this code.
    pub open spec fn spec_code(self) -> u64 {
        match self {
            SessionErrorCode::NoError => 0x0,
            SessionErrorCode::InternalError => 0x1,
            SessionErrorCode::Unauthorized => 0x2,
            SessionErrorCode::ProtocolViolation => 0x3,
            SessionErrorCode::InvalidRequestId => 0x4,
            SessionErrorCode::DuplicateTrackAlias => 0x5,
            SessionErrorCode::KeyValueFormattingError => 0x6,
            SessionErrorCode::TooManyRequests => 0x7,
            SessionErrorCode::InvalidPath => 0x8,
            SessionErrorCode::MalformedPath => 0x9,
            SessionErrorCode::GoawayTimeout => 0x10,
            SessionErrorCode::ControlMessageTimeout => 0x11,
            SessionErrorCode::DataStreamTimeout => 0x12,
            SessionErrorCode::AuthTokenCacheOverflow => 0x13,
            SessionErrorCode::DuplicateAuthTokenAlias => 0x14,
            SessionErrorCode::VersionNegotiationFailed => 0x15,
            SessionErrorCode::MalformedAuthToken => 0x16,
            SessionErrorCode::UnknownAuthTokenAlias => 0x17,
            SessionErrorCode::ExpiredAuthToken => 0x18,
            SessionErrorCode::InvalidAuthority => 0x19,
            SessionErrorCode::MalformedAuthority => 0x1A,
        }
    }

    /// The code with wire value `v`, or `None` when the registry does not assign `v`.
    pub fn from_u64(v: u64) -> (r: Option<Self>)
        ensures
            match r {
                Some(c) => c.spec_code() == v,
                None => forall|c: Self| #[trigger] c.spec_code() != v,
            },
    {
        match v {
            0x0 => Some(SessionErrorCode::NoError),
            0x1 => Some(SessionErrorCode::InternalError),
            0x2 => Some(SessionErrorCode::Unauthorized),
            0x3 => Some(SessionErrorCode::ProtocolViolation),
            0x4 => Some(SessionErrorCode::InvalidRequestId),
            0x5 => Some(SessionErrorCode::DuplicateTrackAlias),
            0x6 => Some(SessionErrorCode::KeyValueFormattingError),
            0x7 => Some(SessionErrorCode::TooManyRequests),
            0x8 => Some(SessionErrorCode::InvalidPath),
            0x9 => Some(SessionErrorCode::MalformedPath),
            0x10 => Some(SessionErrorCode::GoawayTimeout),
            0x11 => Some(SessionErrorCode::ControlMessageTimeout),
            0x12 => Some(SessionErrorCode::DataStreamTimeout),
            0x13 => Some(SessionErrorCode::AuthTokenCacheOverflow),
            0x14 => Some(SessionErrorCode::DuplicateAuthTokenAlias),
            0x15 => Some(SessionErrorCode::VersionNegotiationFailed),
            0x16 => Some(SessionErrorCode::MalformedAuthToken),
            0x17 => Some(SessionErrorCode::UnknownAuthTokenAlias),
            0x18 => Some(SessionErrorCode::ExpiredAuthToken),
            0x19 => Some(SessionErrorCode::InvalidAuthority),
            0x1A => Some(SessionErrorCode::MalformedAuthority),
            _ => None,
        }
    }

    /// The wire value of this code.
    pub fn as_u64(self) -> (r: u64)
        ensures
            r == self.spec_code(),
    {
        match self {
            SessionErrorCode::NoError => 0x0,
            SessionErrorCode::InternalError => 0x1,
            SessionErrorCode::Unauthorized => 0x2,
            SessionErrorCode::ProtocolViolation => 0x3,
            SessionErrorCode::InvalidRequestId => 0x4,
            SessionErrorCode::DuplicateTrackAlias => 0x5,
            SessionErrorCode::KeyValueFormattingError => 0x6,
            SessionErrorCode::TooManyRequests => 0x7,
            SessionErrorCode::InvalidPath => 0x8,
            SessionErrorCode::MalformedPath => 0x9,
            SessionErrorCode::GoawayTimeout => 0x10,
            SessionErrorCode::ControlMessageTimeout => 0x11,
            SessionErrorCode::DataStreamTimeout => 0x12,
            SessionErrorCode::AuthTokenCacheOverflow => 0x13,
            SessionErrorCode::DuplicateAuthTokenAlias => 0x14,
            SessionErrorCode::VersionNegotiationFailed => 0x15,
            SessionErrorCode::MalformedAuthToken => 0x16,
            SessionErrorCode::UnknownAuthTokenAlias => 0x17,
            SessionErrorCode::ExpiredAuthToken => 0x18,
            SessionErrorCode::InvalidAuthority => 0x19,
            SessionErrorCode::MalformedAuthority => 0x1A,
        }
    }

    /// No two codes share a wire value, so reading back the value of a code
    /// gives the code.
    pub proof fn lemma_code_injective(a: SessionErrorCode, b: SessionErrorCode)
        ensures
            a.spec_code() == b.spec_code() ==> a == b,
    {
    }
}

/// The SubscribeErrorCode registry of draft-14.
#[derive(Debug, Clone, Copy, PartialEq, Eq, Structural)]
pub enum SubscribeErrorCode {
    /// Wire value 0x0.
    InternalError,
    /// Wire value 0x1.
    Unauthorized,
    /// Wire value 0x2.
    Timeout,
    /// Wire value 0x3.
    NotSupported,
    /// Wire value 0x4.
    TrackDoesNotExist,
    /// Wire value 0x5.
    InvalidRange,
    /// Wire value 0x10.
    MalformedAuthToken,
    /// Wire value 0x12.
    ExpiredAuthToken,
}

impl SubscribeErrorCode {

    /// Every value, in registry order.
    pub fn all() -> (r: Vec<SubscribeErrorCode>)
        ensures
            r@ == seq![SubscribeErrorCode::InternalError, SubscribeErrorCode::Unauthorized, SubscribeErrorCode::Timeout, SubscribeErrorCode::NotSupported, SubscribeErrorCode::TrackDoesNotExist, SubscribeErrorCode::InvalidRange, SubscribeErrorCode::MalformedAuthToken, SubscribeErrorCode::ExpiredAuthToken],
    {
        let mut v: Vec<SubscribeErrorCode> = Vec::new();
        v.push(SubscribeErrorCode::InternalError);
        v.push(SubscribeErrorCode::Unauthorized);
        v.push(SubscribeErrorCode::Timeout);
        v.push(SubscribeErrorCode::NotSupported);
        v.push(SubscribeErrorCode::TrackDoesNotExist);
        v.push(SubscribeErrorCode::InvalidRange);
        v.push(SubscribeErrorCode::MalformedAuthToken);
        v.push(SubscribeErrorCode::ExpiredAuthToken);
        assert(v@ =~= seq![SubscribeErrorCode::InternalError, SubscribeErrorCode::Unauthorized, SubscribeErrorCode::Timeout, SubscribeErrorCode::NotSupported, SubscribeErrorCode::TrackDoesNotExist, SubscribeErrorCode::InvalidRange, SubscribeErrorCode::MalformedAuthToken, SubscribeErrorCode::ExpiredAuthToken]);
        v
    }
    /// The wire value of this code.
    pub open spec fn spec_code(self) -> u64 {
        match self {
            SubscribeErrorCode::InternalError => 0x0,
            SubscribeErrorCode::Unauthorized => 0x1,
            SubscribeErrorCode::Timeout => 0x2,
            SubscribeErrorCode::NotSupported => 0x3,
            SubscribeErrorCode::TrackDoesNotExist => 0x4,
            SubscribeErrorCode::InvalidRange => 0x5,
            SubscribeErrorCode::MalformedAuthToken => 0x10,
            SubscribeErrorCode::ExpiredAuthToken => 0x12,
        }
    }

    /// The code with wire value `v`, or `None` when the registry does not assign `v`.
    pub fn from_u64(v: u64) -> (r: Option<Self>)
        ensures
            match r {
                Some(c) => c.spec_code() == v,
                None => forall|c: Self| #[trigger] c.spec_code() != v,
            },
    {
        match v {
            0x0 => Some(SubscribeErrorCode::InternalError),
            0x1 => Some(SubscribeErrorCode::Unauthorized),
            0x2 => Some(SubscribeErrorCode::Timeout),
            0x3 => Some(SubscribeErrorCode::NotSupported),
            0x4 => Some(SubscribeErrorCode::TrackDoesNotExist),
            0x5 => Some(SubscribeErrorCode::InvalidRange),
            0x10 => Some(SubscribeErrorCode::MalformedAuthToken),
            0x12 => Some(SubscribeErrorCode::ExpiredAuthToken),
            _ => None,
        }
    }

    /// The wire value of this code.
    pub fn as_u64(self) -> (r: u64)
        ensures
            r == self.spec_code(),
    {
        match self {
            SubscribeErrorCode::InternalError => 0x0,
            SubscribeErrorCode::Unauthorized => 0x1,
            SubscribeErrorCode::Timeout => 0x2,
            SubscribeErrorCode::NotSupported => 0x3,
            SubscribeErrorCode::TrackDoesNotExist => 0x4,
            SubscribeErrorCode::InvalidRange => 0x5,
            SubscribeErrorCode::MalformedAuthToken => 0x10,
            SubscribeErrorCode::ExpiredAuthToken => 0x12,
        }
    }

    /// No two codes share a wire value, so reading back the value of a code
    /// gives the code.
    pub proof fn lemma_code_injective(a: SubscribeErrorCode, b: SubscribeErrorCode)
        ensures
            a.spec_code() == b.spec_code() ==> a == b,
    {
    }
}

/// The PublishDoneStatusCode registry of draft-14.
#[derive(Debug, Clone, Copy, PartialEq, Eq, Structural)]
pub enum PublishDoneStatusCode {
    /// Wire value 0x0.
    InternalError,
    /// Wire value 0x1.
    Unauthorized,
    /// Wire value 0x2.
    TrackEnded,
    /// Wire value 0x3.
    SubscriptionEnded,
    /// Wire value 0x4.
    GoingAway,
    /// Wire value 0x5.
    Expired,
    /// Wire value 0x6.
    TooFarBehind,
    /// Wire value 0x7.
    MalformedTrack,
}

impl PublishDoneStatusCode {

    /// Every value, in registry order.
    pub fn all() -> (r: Vec<PublishDoneStatusCode>)
        ensures
            r@ == seq![PublishDoneStatusCode::InternalError, PublishDoneStatusCode::Unauthorized, PublishDoneStatusCode::TrackEnded, PublishDoneStatusCode::SubscriptionEnded, PublishDoneStatusCode::GoingAway, PublishDoneStatusCode::Expired, PublishDoneStatusCode::TooFarBehind, PublishDoneStatusCode::MalformedTrack],
    {
        let mut v: Vec<PublishDoneStatusCode> = Vec::new();
        v.push(PublishDoneStatusCode::InternalError);
        v.push(PublishDoneStatusCode::Unauthorized);
        v.push(PublishDoneStatusCode::TrackEnded);
        v.push(PublishDoneStatusCode::SubscriptionEnded);
        v.push(PublishDoneStatusCode::GoingAway);
        v.push(PublishDoneStatusCode::Expired);
        v.push(PublishDoneStatusCode::TooFarBehind);
        v.push(PublishDoneStatusCode::MalformedTrack);
        assert(v@ =~= seq![PublishDoneStatusCode::InternalError, PublishDoneStatusCode::Unauthorized, PublishDoneStatusCode::TrackEnded, PublishDoneStatusCode::SubscriptionEnded, PublishDoneStatusCode::GoingAway, PublishDoneStatusCode::Expired, PublishDoneStatusCode::TooFarBehind, PublishDoneStatusCode::MalformedTrack]);
        v
    }
    /// The wire value of this code.
    pub open spec fn spec_code(self) -> u64 {
        match self {
            PublishDoneStatusCode::InternalError => 0x0,
            PublishDoneStatusCode::Unauthorized => 0x1,
            PublishDoneStatusCode::TrackEnded => 0x2,
            PublishDoneStatusCode::SubscriptionEnded => 0x3,
            PublishDoneStatusCode::GoingAway => 0x4,
            PublishDoneStatusCode::Expired => 0x5,
            PublishDoneStatusCode::TooFarBehind => 0x6,
            PublishDoneStatusCode::MalformedTrack => 0x7,
        }
    }

    /// The code with wire value `v`, or `None` when the registry does not assign `v`.
    pub fn from_u64(v: u64) -> (r: Option<Self>)
        ensures
            match r {
                Some(c) => c.spec_code() == v,
                None => forall|c: Self| #[trigger] c.spec_code() != v,
            },
    {
        match v {
            0x0 => Some(PublishDoneStatusCode::InternalError),
            0x1 => Some(PublishDoneStatusCode::Unauthorized),
            0x2 => Some(PublishDoneStatusCode::TrackEnded),
            0x3 => Some(PublishDoneStatusCode::SubscriptionEnded),
            0x4 => Some(PublishDoneStatusCode::GoingAway),
            0x5 => Some(PublishDoneStatusCode::Expired),
            0x6 => Some(PublishDoneStatusCode::TooFarBehind),
            0x7 => Some(PublishDoneStatusCode::MalformedTrack),
            _ => None,
        }
    }

    /// The wire value of this code.
    pub fn as_u64(self) -> (r: u64)
        ensures
            r == self.spec_code(),
    {
        match self {
            PublishDoneStatusCode::InternalError => 0x0,
            PublishDoneStatusCode::Unauthorized => 0x1,
            PublishDoneStatusCode::TrackEnded => 0x2,
            PublishDoneStatusCode::SubscriptionEnded => 0x3,
            PublishDoneStatusCode::GoingAway => 0x4,
            PublishDoneStatusCode::Expired => 0x5,
            PublishDoneStatusCode::TooFarBehind => 0x6,
            PublishDoneStatusCode::MalformedTrack => 0x7,
        }
    }

    /// No two codes share a wire value, so reading back the value of a code
    /// gives the code.
    pub proof fn lemma_code_injective(a: PublishDoneStatusCode, b: PublishDoneStatusCode)
        ensures
            a.spec_code() == b.spec_code() ==> a == b,
    {
    }
}

/// The PublishErrorCode registry of draft-14.
#[derive(Debug, Clone, Copy, PartialEq, Eq, Structural)]
pub enum PublishErrorCode {
    /// Wire value 0x0.
    InternalError,
    /// Wire value 0x1.
    Unauthorized,
    /// Wire value 0x2.
    Timeout,
    /// Wire value 0x3.
    NotSupported,
    /// Wire value 0x4.
    Uninterested,
}

impl PublishErrorCode {

    /// Every value, in registry order.
    pub fn all() -> (r: Vec<PublishErrorCode>)
        ensures
            r@ == seq![PublishErrorCode::InternalError, PublishErrorCode::Unauthorized, PublishErrorCode::Timeout, PublishErrorCode::NotSupported, PublishErrorCode::Uninterested],
    {
        let mut v: Vec<PublishErrorCode> = Vec::new();
        v.push(PublishErrorCode::InternalError);
        v.push(PublishErrorCode::Unauthorized);
        v.push(PublishErrorCode::Timeout);
        v.push(PublishErrorCode::NotSupported);
        v.push(PublishErrorCode::Uninterested);
        assert(v@ =~= seq![PublishErrorCode::InternalError, PublishErrorCode::Unauthorized, PublishErrorCode::Timeout, PublishErrorCode::NotSupported, PublishErrorCode::Uninterested]);
        v
    }
    /// The wire value of this code.
    pub open spec fn spec_code(self) -> u64 {
        match self {
            PublishErrorCode::InternalError => 0x0,
            PublishErrorCode::Unauthorized => 0x1,
            PublishErrorCode::Timeout => 0x2,
            PublishErrorCode::NotSupported => 0x3,
            PublishErrorCode::Uninterested => 0x4,
        }
    }

    /// The code with wire value `v`, or `None` when the registry does not assign `v`.
    pub fn from_u64(v: u64) -> (r: Option<Self>)
        ensures
            match r {
                Some(c) => c.spec_code() == v,
                None => forall|c: Self| #[trigger] c.spec_code() != v,
            },
    {
        match v {
            0x0 => Some(PublishErrorCode::InternalError),
            0x1 => Some(PublishErrorCode::Unauthorized),
            0x2 => Some(PublishErrorCode::Timeout),
            0x3 => Some(PublishErrorCode::NotSupported),
            0x4 => Some(PublishErrorCode::Uninterested),
            _ => None,
        }
    }

    /// The wire value of this code.
    pub fn as_u64(self) -> (r: u64)
        ensures
            r == self.spec_code(),
    {
        match self {
            PublishErrorCode::InternalError => 0x0,
            PublishErrorCode::Unauthorized => 0x1,
            PublishErrorCode::Timeout => 0x2,
            PublishErrorCode::NotSupported => 0x3,
            PublishErrorCode::Uninterested => 0x4,
        }
    }

    /// No two codes share a wire value, so reading back the value of a code
    /// gives the code.
    pub proof fn lemma_code_injective(a: PublishErrorCode, b: PublishErrorCode)
        ensures
            a.spec_code() == b.spec_code() ==> a == b,
    {
    }
}

/// The FetchErrorCode registry of draft-14.
#[derive(Debug, Clone, Copy, PartialEq, Eq, Structural)]
pub enum FetchErrorCode {
    /// Wire value 0x0.
    InternalError,
    /// Wire value 0x1.
    Unauthorized,
    /// Wire value 0x2.
    Timeout,
    /// Wire value 0x3.
    NotSupported,
    /// Wire value 0x4.
    TrackDoesNotExist,
    /// Wire value 0x5.
    InvalidRange,
    /// Wire value 0x6.
    NoObjects,
    /// Wire value 0x7.
    InvalidJoiningRequestId,
    /// Wire value 0x8.
    UnknownStatusInRange,
    /// Wire value 0x9.
    MalformedTrack,
    /// Wire value 0x10.
    MalformedAuthToken,
    /// Wire value 0x12.
    ExpiredAuthToken,
}

impl FetchErrorCode {

    /// Every value, in registry order.
    pub fn all() -> (r: Vec<FetchErrorCode>)
        ensures
            r@ == seq![FetchErrorCode::InternalError, FetchErrorCode::Unauthorized, FetchErrorCode::Timeout, FetchErrorCode::NotSupported, FetchErrorCode::TrackDoesNotExist, FetchErrorCode::InvalidRange, FetchErrorCode::NoObjects, FetchErrorCode::InvalidJoiningRequestId, FetchErrorCode::UnknownStatusInRange, FetchErrorCode::MalformedTrack, FetchErrorCode::MalformedAuthToken, FetchErrorCode::ExpiredAuthToken],
    {
        let mut v: Vec<FetchErrorCode> = Vec::new();
        v.push(FetchErrorCode::InternalError);
        v.push(FetchErrorCode::Unauthorized);
        v.push(FetchErrorCode::Timeout);
        v.push(FetchErrorCode::NotSupported);
        v.push(FetchErrorCode::TrackDoesNotExist);
        v.push(FetchErrorCode::InvalidRange);
        v.push(FetchErrorCode::NoObjects);
        v.push(FetchErrorCode::InvalidJoiningRequestId);
        v.push(FetchErrorCode::UnknownStatusInRange);
        v.push(FetchErrorCode::MalformedTrack);
        v.push(FetchErrorCode::MalformedAuthToken);
        v.push(FetchErrorCode::ExpiredAuthToken);
        assert(v@ =~= seq![FetchErrorCode::InternalError, FetchErrorCode::Unauthorized, FetchErrorCode::Timeout, FetchErrorCode::NotSupported, FetchErrorCode::TrackDoesNotExist, FetchErrorCode::InvalidRange, FetchErrorCode::NoObjects, FetchErrorCode::InvalidJoiningRequestId, FetchErrorCode::UnknownStatusInRange, FetchErrorCode::MalformedTrack, FetchErrorCode::MalformedAuthToken, FetchErrorCode::ExpiredAuthToken]);
        v
    }
    /// The wire value of this code.
    pub open spec fn spec_code(self) -> u64 {
        match self {
            FetchErrorCode::InternalError => 0x0,
            FetchErrorCode::Unauthorized => 0x1,
            FetchErrorCode::Timeout => 0x2,
            FetchErrorCode::NotSupported => 0x3,
            FetchErrorCode::TrackDoesNotExist => 0x4,
            FetchErrorCode::InvalidRange => 0x5,
            FetchErrorCode::NoObjects => 0x6,
            FetchErrorCode::InvalidJoiningRequestId => 0x7,
            FetchErrorCode::UnknownStatusInRange => 0x8,
            FetchErrorCode::MalformedTrack => 0x9,
            FetchErrorCode::MalformedAuthToken => 0x10,
            FetchErrorCode::ExpiredAuthToken => 0x12,
        }
    }

    /// The code with wire value `v`, or `None` when the registry does not assign `v`.
    pub fn from_u64(v: u64) -> (r: Option<Self>)
        ensures
            match r {
                Some(c) => c.spec_code() == v,
                None => forall|c: Self| #[trigger] c.spec_code() != v,
            },
    {
        match v {
            0x0 => Some(FetchErrorCode::InternalError),
            0x1 => Some(FetchErrorCode::Unauthorized),
            0x2 => Some(FetchErrorCode::Timeout),
            0x3 => Some(FetchErrorCode::NotSupported),
            0x4 => Some(FetchErrorCode::TrackDoesNotExist),
            0x5 => Some(FetchErrorCode::InvalidRange),
            0x6 => Some(FetchErrorCode::NoObjects),
            0x7 => Some(FetchErrorCode::InvalidJoiningRequestId),
            0x8 => Some(FetchErrorCode::UnknownStatusInRange),
            0x9 => Some(FetchErrorCode::MalformedTrack),
            0x10 => Some(FetchErrorCode::MalformedAuthToken),
            0x12 => Some(FetchErrorCode::ExpiredAuthToken),
            _ => None,
        }
    }

    /// The wire value of this code.
    pub fn as_u64(self) -> (r: u64)
        ensures
            r == self.spec_code(),
    {
        match self {
            FetchErrorCode::InternalError => 0x0,
            FetchErrorCode::Unauthorized => 0x1,
            FetchErrorCode::Timeout => 0x2,
            FetchErrorCode::NotSupported => 0x3,
            FetchErrorCode::TrackDoesNotExist => 0x4,
            FetchErrorCode::InvalidRange => 0x5,
            FetchErrorCode::NoObjects => 0x6,
            FetchErrorCode::InvalidJoiningRequestId => 0x7,
            FetchErrorCode::UnknownStatusInRange => 0x8,
            FetchErrorCode::MalformedTrack => 0x9,
            FetchErrorCode::MalformedAuthToken => 0x10,
            FetchErrorCode::ExpiredAuthToken => 0x12,
        }
    }

    /// No two codes share a wire value, so reading back the value of a code
    /// gives the code.
    pub proof fn lemma_code_injective(a: FetchErrorCode, b: FetchErrorCode)
        ensures
            a.spec_code() == b.spec_code() ==> a == b,
    {
    }
}

/// The AnnounceErrorCode registry of draft-14.
#[derive(Debug, Clone, Copy, PartialEq, Eq, Structural)]
pub enum AnnounceErrorCode {
    /// Wire value 0x0.
    InternalError,
    /// Wire value 0x1.
    Unauthorized,
    /// Wire value 0x2.
    Timeout,
    /// Wire value 0x3.
    NotSupported,
    /// Wire value 0x4.
    Uninterested,
    /// Wire value 0x10.
    MalformedAuthToken,
    /// Wire value 0x12.
    ExpiredAuthToken,
}

impl AnnounceErrorCode {

    /// Every value, in registry order.
    pub fn all() -> (r: Vec<AnnounceErrorCode>)
        ensures
            r@ == seq![AnnounceErrorCode::InternalError, AnnounceErrorCode::Unauthorized, AnnounceErrorCode::Timeout, AnnounceErrorCode::NotSupported, AnnounceErrorCode::Uninterested, AnnounceErrorCode::MalformedAuthToken, AnnounceErrorCode::ExpiredAuthToken],
    {
        let mut v: Vec<AnnounceErrorCode> = Vec::new();
        v.push(AnnounceErrorCode::InternalError);
        v.push(AnnounceErrorCode::Unauthorized);
        v.push(AnnounceErrorCode::Timeout);
        v.push(AnnounceErrorCode::NotSupported);
        v.push(AnnounceErrorCode::Uninterested);
        v.push(AnnounceErrorCode::MalformedAuthToken);
        v.push(AnnounceErrorCode::ExpiredAuthToken);
        assert(v@ =~= seq![AnnounceErrorCode::InternalError, AnnounceErrorCode::Unauthorized, AnnounceErrorCode::Timeout, AnnounceErrorCode::NotSupported, AnnounceErrorCode::Uninterested, AnnounceErrorCode::MalformedAuthToken, AnnounceErrorCode::ExpiredAuthToken]);
        v
    }
    /// The wire value of this code.
    pub open spec fn spec_code(self) -> u64 {
        match self {
            AnnounceErrorCode::InternalError => 0x0,
            AnnounceErrorCode::Unauthorized => 0x1,
            AnnounceErrorCode::Timeout => 0x2,
            AnnounceErrorCode::NotSupported => 0x3,
            AnnounceErrorCode::Uninterested => 0x4,
            AnnounceErrorCode::MalformedAuthToken => 0x10,
            AnnounceErrorCode::ExpiredAuthToken => 0x12,
        }
    }

    /// The code with wire value `v`, or `None` when the registry does not assign `v`.
    pub fn from_u64(v: u64) -> (r: Option<Self>)
        ensures
            match r {
                Some(c) => c.spec_code() == v,
                None => forall|c: Self| #[trigger] c.spec_code() != v,
            },
    {
        match v {
            0x0 => Some(AnnounceErrorCode::InternalError),
            0x1 => Some(AnnounceErrorCode::Unauthorized),
            0x2 => Some(AnnounceErrorCode::Timeout),
            0x3 => Some(AnnounceErrorCode::NotSupported),
            0x4 => Some(AnnounceErrorCode::Uninterested),
            0x10 => Some(AnnounceErrorCode::MalformedAuthToken),
            0x12 => Some(AnnounceErrorCode::ExpiredAuthToken),
            _ => None,
        }
    }

    /// The wire value of this code.
    pub fn as_u64(self) -> (r: u64)
        ensures
            r == self.spec_code(),
    {
        match self {
            AnnounceErrorCode::InternalError => 0x0,
            AnnounceErrorCode::Unauthorized => 0x1,
            AnnounceErrorCode::Timeout => 0x2,
            AnnounceErrorCode::NotSupported => 0x3,
            AnnounceErrorCode::Uninterested => 0x4,
            AnnounceErrorCode::MalformedAuthToken => 0x10,
            AnnounceErrorCode::ExpiredAuthToken => 0x12,
        }
    }

    /// No two codes share a wire value, so reading back the value of a code
    /// gives the code.
    pub proof fn lemma_code_injective(a: AnnounceErrorCode, b: AnnounceErrorCode)
        ensures
            a.spec_code() == b.spec_code() ==> a == b,
    {
    }
}

/// The SubscribeNamespaceErrorCode registry of draft-14.
#[derive(Debug, Clone, Copy, PartialEq, Eq, Structural)]
pub enum SubscribeNamespaceErrorCode {
    /// Wire value 0x0.
    InternalError,
    /// Wire value 0x1.
    Unauthorized,
    /// Wire value 0x2.
    Timeout,
    /// Wire value 0x3.
    NotSupported,
    /// Wire value 0x4.
    NamespacePrefixUnknown,
    /// Wire value 0x5.
    NamespacePrefixOverlap,
    /// Wire value 0x10.
    MalformedAuthToken,
    /// Wire value 0x12.
    ExpiredAuthToken,
}

impl SubscribeNamespaceErrorCode {

    /// Every value, in registry order.
    pub fn all() -> (r: Vec<SubscribeNamespaceErrorCode>)
        ensures
            r@ == seq![SubscribeNamespaceErrorCode::InternalError, SubscribeNamespaceErrorCode::Unauthorized, SubscribeNamespaceErrorCode::Timeout, SubscribeNamespaceErrorCode::NotSupported, SubscribeNamespaceErrorCode::NamespacePrefixUnknown, SubscribeNamespaceErrorCode::NamespacePrefixOverlap, SubscribeNamespaceErrorCode::MalformedAuthToken, SubscribeNamespaceErrorCode::ExpiredAuthToken],
    {
        let mut v: Vec<SubscribeNamespaceErrorCode> = Vec::new();
        v.push(SubscribeNamespaceErrorCode::InternalError);
        v.push(SubscribeNamespaceErrorCode::Unauthorized);
        v.push(SubscribeNamespaceErrorCode::Timeout);
        v.push(SubscribeNamespaceErrorCode::NotSupported);
        v.push(SubscribeNamespaceErrorCode::NamespacePrefixUnknown);
        v.push(SubscribeNamespaceErrorCode::NamespacePrefixOverlap);
        v.push(SubscribeNamespaceErrorCode::MalformedAuthToken);
        v.push(SubscribeNamespaceErrorCode::ExpiredAuthToken);
        assert(v@ =~= seq![SubscribeNamespaceErrorCode::InternalError, SubscribeNamespaceErrorCode::Unauthorized, SubscribeNamespaceErrorCode::Timeout, SubscribeNamespaceErrorCode::NotSupported, SubscribeNamespaceErrorCode::NamespacePrefixUnknown, SubscribeNamespaceErrorCode::NamespacePrefixOverlap, SubscribeNamespaceErrorCode::MalformedAuthToken, SubscribeNamespaceErrorCode::ExpiredAuthToken]);
        v
    }
    /// The wire value of this code.
    pub open spec fn spec_code(self) -> u64 {
        match self {
            SubscribeNamespaceErrorCode::InternalError => 0x0,
            SubscribeNamespaceErrorCode::Unauthorized => 0x1,
            SubscribeNamespaceErrorCode::Timeout => 0x2,
            SubscribeNamespaceErrorCode::NotSupported => 0x3,
            SubscribeNamespaceErrorCode::NamespacePrefixUnknown => 0x4,
            SubscribeNamespaceErrorCode::NamespacePrefixOverlap => 0x5,
            SubscribeNamespaceErrorCode::MalformedAuthToken => 0x10,
            SubscribeNamespaceErrorCode::ExpiredAuthToken => 0x12,
        }
    }

    /// The code with wire value `v`, or `None` when the registry does not assign `v`.
    pub fn from_u64(v: u64) -> (r: Option<Self>)
        ensures
            match r {
                Some(c) => c.spec_code() == v,
                None => forall|c: Self| #[trigger] c.spec_code() != v,
            },
    {
        match v {
            0x0 => Some(SubscribeNamespaceErrorCode::InternalError),
            0x1 => Some(SubscribeNamespaceErrorCode::Unauthorized),
            0x2 => Some(SubscribeNamespaceErrorCode::Timeout),
            0x3 => Some(SubscribeNamespaceErrorCode::NotSupported),
            0x4 => Some(SubscribeNamespaceErrorCode::NamespacePrefixUnknown),
            0x5 => Some(SubscribeNamespaceErrorCode::NamespacePrefixOverlap),
            0x10 => Some(SubscribeNamespaceErrorCode::MalformedAuthToken),
            0x12 => Some(SubscribeNamespaceErrorCode::ExpiredAuthToken),
            _ => None,
        }
    }

    /// The wire value of this code.
    pub fn as_u64(self) -> (r: u64)
        ensures
            r == self.spec_code(),
    {
        match self {
            SubscribeNamespaceErrorCode::InternalError => 0x0,
            SubscribeNamespaceErrorCode::Unauthorized => 0x1,
            SubscribeNamespaceErrorCode::Timeout => 0x2,
            SubscribeNamespaceErrorCode::NotSupported => 0x3,
            SubscribeNamespaceErrorCode::NamespacePrefixUnknown => 0x4,
            SubscribeNamespaceErrorCode::NamespacePrefixOverlap => 0x5,
            SubscribeNamespaceErrorCode::MalformedAuthToken => 0x10,
            SubscribeNamespaceErrorCode::ExpiredAuthToken => 0x12,
        }
    }

    /// No two codes share a wire value, so reading back the value of a code
    /// gives the code.
    pub proof fn lemma_code_injective(a: SubscribeNamespaceErrorCode, b: SubscribeNamespaceErrorCode)
        ensures
            a.spec_code() == b.spec_code() ==> a == b,
    {
    }
}

/// The DataStreamResetErrorCode registry of draft-14.
#[derive(Debug, Clone, Copy, PartialEq, Eq, Structural)]
pub enum DataStreamResetErrorCode {
    /// Wire value 0x0.
    InternalError,
    /// Wire value 0x1.
    Cancelled,
    /// Wire value 0x2.
    DeliveryTimeout,
    /// Wire value 0x3.
    SessionClosed,
}

impl DataStreamResetErrorCode {

    /// Every value, in registry order.
    pub fn all() -> (r: Vec<DataStreamResetErrorCode>)
        ensures
            r@ == seq![DataStreamResetErrorCode::InternalError, DataStreamResetErrorCode::Cancelled, DataStreamResetErrorCode::DeliveryTimeout, DataStreamResetErrorCode::SessionClosed],
    {
        let mut v: Vec<DataStreamResetErrorCode> = Vec::new();
        v.push(DataStreamResetErrorCode::InternalError);
        v.push(DataStreamResetErrorCode::Cancelled);
        v.push(DataStreamResetErrorCode::DeliveryTimeout);
        v.push(DataStreamResetErrorCode::SessionClosed);
        assert(v@ =~= seq![DataStreamResetErrorCode::InternalError, DataStreamResetErrorCode::Cancelled, DataStreamResetErrorCode::DeliveryTimeout, DataStreamResetErrorCode::SessionClosed]);
        v
    }
    /// The wire value of this code.
    pub open spec fn spec_code(self) -> u64 {
        match self {
            DataStreamResetErrorCode::InternalError => 0x0,
            DataStreamResetErrorCode::Cancelled => 0x1,
            DataStreamResetErrorCode::DeliveryTimeout => 0x2,
            DataStreamResetErrorCode::SessionClosed => 0x3,
        }
    }

    /// The code with wire value `v`, or `None` when the registry does not assign `v`.
    pub fn from_u64(v: u64) -> (r: Option<Self>)
        ensures
            match r {
                Some(c) => c.spec_code() == v,
                None => forall|c: Self| #[trigger] c.spec_code() != v,
            },
    {
        match v {
            0x0 => Some(DataStreamResetErrorCode::InternalError),
            0x1 => Some(DataStreamResetErrorCode::Cancelled),
            0x2 => Some(DataStreamResetErrorCode::DeliveryTimeout),
            0x3 => Some(DataStreamResetErrorCode::SessionClosed),
            _ => None,
        }
    }

    /// The wire value of this code.
    pub fn as_u64(self) -> (r: u64)
        ensures
            r == self.spec_code(),
    {
        match self {
            DataStreamResetErrorCode::InternalError => 0x0,
            DataStreamResetErrorCode::Cancelled => 0x1,
            DataStreamResetErrorCode::DeliveryTimeout => 0x2,
            DataStreamResetErrorCode::SessionClosed => 0x3,
        }
    }

    /// No two codes share a wire value, so reading back the value of a code
    /// gives the code.
    pub proof fn lemma_code_injective(a: DataStreamResetErrorCode, b: DataStreamResetErrorCode)
        ensures
            a.spec_code() == b.spec_code() ==> a == b,
    {
    }
}

} // verus!
