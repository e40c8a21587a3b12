//! Error types shared by every draft.

use vstd::prelude::*;

verus! {

/// The longest Full Track Name a session carries: the fields of its
/// namespace and its name together, 4,096 bytes.
pub const MAX_FULL_TRACK_NAME_LENGTH: usize = 4096;

/// The longest Reason Phrase a message carries, 1,024 bytes.
pub const MAX_REASON_PHRASE_LENGTH: usize = 1024;

/// The longest New Session URI a GOAWAY carries, 8,192 bytes.
pub const MAX_GOAWAY_URI_LENGTH: usize = 8192;

/// The longest control message payload, 65,535 bytes: its length is a
/// 16-bit field.
pub const MAX_MESSAGE_LENGTH: usize = 65535;

/// The caps the drafts set, in bytes: a Full Track Name of 4,096, a Reason
/// Phrase of 1,024, a New Session URI of 8,192, and a control message
/// payload of 65,535, the most a 16-bit length can say.
pub proof fn lemma_limits()
    ensures
        MAX_FULL_TRACK_NAME_LENGTH == 4096,
        MAX_REASON_PHRASE_LENGTH == 1024,
        MAX_GOAWAY_URI_LENGTH == 8192,
        MAX_MESSAGE_LENGTH == 0xFFFF,
{
}

/// Why a variable-length integer could not be read or built.
#[derive(Debug, Clone, Copy, PartialEq, Eq)]
pub enum VarIntError {
    /// The buffer ended before the integer did.
    UnexpectedEnd,
    /// The value does not fit in the 62 bits a variable-length integer holds.
    ValueTooLarge(u64),
}

/// Why a frame could not be decoded or encoded.
#[derive(Debug, Clone, Copy, PartialEq, Eq)]
pub enum CodecError {
    /// The buffer ended before the frame did.
    UnexpectedEnd,
    /// A variable-length integer could not be read or built.
    VarInt(VarIntError),
    /// A field holds a value the wire shape cannot carry or the draft forbids.
    InvalidField,
    /// A unidirectional stream type no table of the draft assigns.
    UnknownStreamType(u64),
    /// A datagram type no table of the draft assigns.
    UnknownDatagramType(u64),
    /// A type value the draft names, but only to reserve or forbid it.
    InvalidTypeValue { raw: u64, detail: &'static str },
    /// Extension headers on an object whose status is Object Does Not Exist,
    /// carrying the declared length of the extension block.
    ExtensionsOnNonExistentObject(usize),
    /// A control message type the draft does not assign.
    UnknownMessageType(u64),
    /// A parameter type repeated in one message where the draft forbids it.
    DuplicateParameter(u64),
    /// A message parameter whose varint value is outside the range its type
    /// allows.
    ParameterValueOutOfRange { key: u64, value: u64 },
    /// A track extension whose varint value is outside the range its type
    /// allows.
    TrackPropertyValueOutOfRange { key: u64, value: u64 },
    /// A message parameter type the draft does not name.
    UnknownMessageParameter(u64),
    /// A delta-encoded Key-Value-Pair type that runs past the varint range:
    /// the previous type, then the delta.
    KeyDeltaOverflow(u64, u64),
    /// A Key-Value-Pair list whose types are not in ascending order: the
    /// previous type, then the one after it.
    ParametersOutOfOrder(u64, u64),
    /// A Key-Value-Pair could not be read or written.
    Kvp(KvpError),
    /// A Full Track Name longer than [`MAX_FULL_TRACK_NAME_LENGTH`].
    TrackNameTooLong,
    /// A Reason Phrase longer than [`MAX_REASON_PHRASE_LENGTH`].
    ReasonPhraseTooLong,
    /// A control message whose fields do not fill its declared length: they
    /// ran past it, or left bytes of it unread.
    ControlMessageLengthMismatch { declared: usize, detail: &'static str },
    /// A GOAWAY New Session URI longer than [`MAX_GOAWAY_URI_LENGTH`].
    GoAwayUriTooLong,
    /// A control message payload longer than [`MAX_MESSAGE_LENGTH`], with its
    /// length.
    MessageTooLong(usize),
    /// A Content Exists byte other than 0x0 and 0x1.
    InvalidContentExists(u8),
    /// A Fetch Type the draft does not assign.
    InvalidFetchType(u64),
    /// A Filter Type the draft does not assign.
    InvalidFilterType(u64),
    /// A Forward byte other than 0x0 and 0x1.
    InvalidForward(u8),
    /// A parameter whose value is not the structure its Type defines: the
    /// Type, and what was wrong with the value.
    KeyValueFormatting { key: u64, detail: &'static str },
    /// A SUBSCRIPTION_FILTER value that is not a Subscription Filter, and what
    /// was wrong with it.
    SubscriptionFilterMalformed { detail: &'static str },
}

/// Why a Key-Value-Pair could not be read or written.
#[derive(Debug, Clone, Copy, PartialEq, Eq)]
pub enum KvpError {
    /// The buffer ended before the pair did.
    UnexpectedEnd,
    /// A variable-length integer in the pair could not be read.
    VarInt(VarIntError),
    /// A value longer than the 2^16-1 bytes a pair may hold.
    ValueTooLong(usize),
}

} // verus!
