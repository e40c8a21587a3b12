//! MoQT wire codec for draft-16.

/// Data streams: subgroup streams, fetch streams and datagrams.
pub mod data_stream;
/// Error, status and stream-reset code registries.
pub mod error_codes;
/// Control messages.
pub mod message;
/// Types specific to this draft's wire values.
pub mod types;
/// Message parameters: reading, checking and writing them.
pub mod params;
/// The control-message codec: framing, per-type payloads and range checks.
pub mod control;
/// Named-field rendering of control messages.
pub mod fields;
/// The wire-code registries and range rules, stated as laws.
pub mod registry;
