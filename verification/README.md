# moqtap_codec

A verified wire codec for the Media over QUIC Transport (MoQT) protocol,
drafts 14, 15 and 16, written in Verus.

Each parser is a function on a byte slice that returns the decoded value and
the number of bytes it consumed; each encoder appends to a `Vec<u8>`. Their
contracts state the result exactly against a specification of the wire format
written over `Seq<u8>`, and the laws that tie them together (what a decoder
reads back of what an encoder wrote) are proof functions in the library.

## Layout

- `src/varint.rs`, `src/wire.rs`, `src/cursor.rs`: QUIC variable-length
  integers and the byte-level readers the formats are built from.
- `src/types.rs`, `src/kvp.rs`, `src/error.rs`: track namespaces, key-value
  pairs and the codec's error type.
- `src/fields.rs`: the named-field view of a control message.
- `src/draftNN/`: per draft, the data streams (subgroups, fetch streams,
  datagrams), the code registries, the control messages, the control-message
  codec (`control.rs`, `params.rs`) with its round-trip law, and, for drafts
  14 and 16, the rendering of a message as named fields (`fields.rs`).
- `tests/`: executable tests of the library.
- `app/`: adapters between the slice-based API and `bytes` buffers.
