//! Wire codec for the MoQ Transport (MoQT) drafts 14, 15 and 16.
//!
//! Every parser here is a function on a byte slice that reports how many
//! bytes it consumed, and every encoder appends to a `Vec<u8>`. Each is
//! stated against a specification of the wire format over `Seq<u8>`.

pub mod varint;
pub mod error;
pub mod wire;
pub mod cursor;
pub mod types;
pub mod kvp;
pub mod fields;
pub mod draft14;
pub mod draft15;
pub mod draft16;
