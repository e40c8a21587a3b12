use moqtap_codec::draft15::data_stream::{
    FetchObjectHeader as Fetch15, FetchObjectReader as Reader15, FetchObjectWriter as Writer15,
    SubgroupIdEncoding,
};
use moqtap_codec::draft15::types::ObjectStatus as Status15;
use moqtap_codec::draft16::data_stream::{
    FetchEndOfRange, FetchObjectHeader as Fetch16, FetchObjectLocation, FetchObjectReader as Reader16,
    FetchObjectWriter as Writer16, FetchSubgroupMode,
};
use moqtap_codec::error::CodecError;
use moqtap_codec::varint::VarInt;

fn vi(v: u64) -> VarInt {
    VarInt::from_u64(v).unwrap()
}

// ── draft-15 ────────────────────────────────────────────────

/// A full object (every field on the wire) followed by one that inherits
/// everything, with a payload length of 3 and then 2.
fn d15_stream() -> Vec<u8> {
    vec![0x1f, 0x05, 0x02, 0x07, 0x09, 0x03, 0x01, 0x02]
}

#[test]
fn d15_reader_resolves_inherited_fields() {
    let bytes = d15_stream();
    let mut reader = Reader15::new();
    let (first, n1) = reader.read_object_header(&bytes).unwrap();
    assert_eq!(n1, 6);
    assert_eq!(first.group_id.into_inner(), 5);
    assert_eq!(first.subgroup_id.into_inner(), 2);
    assert_eq!(first.object_id.into_inner(), 7);
    assert_eq!(first.publisher_priority, 9);
    assert_eq!(first.payload_length.into_inner(), 3);
    assert_eq!(first.object_status, None);
    let (second, n2) = reader.read_object_header(&bytes[n1..]).unwrap();
    assert_eq!(n2, 2);
    assert_eq!(second.serialization_flags, 0x01);
    assert_eq!(second.group_id.into_inner(), 5);
    assert_eq!(second.subgroup_id.into_inner(), 2);
    assert_eq!(second.object_id.into_inner(), 8);
    assert_eq!(second.publisher_priority, 9);
    assert_eq!(second.subgroup_id_encoding(), SubgroupIdEncoding::SameAsPrior);
    assert!(second.references_prior_object());
}

#[test]
fn d15_first_object_may_not_inherit() {
    let mut reader = Reader15::new();
    assert_eq!(reader.read_object_header(&[0x01, 0x02]), Err(CodecError::InvalidField));
    // The reader is unchanged by the refusal: a full object still reads.
    assert!(reader.read_object_header(&d15_stream()).is_ok());
}

#[test]
fn d15_unassigned_flag_bits_are_refused() {
    let mut reader = Reader15::new();
    assert_eq!(reader.read_object_header(&[0x5f, 0, 0, 0, 0, 1]), Err(CodecError::InvalidField));
    assert_eq!(reader.read_object_header(&[0x9f, 0, 0, 0, 0, 1]), Err(CodecError::InvalidField));
    assert_eq!(reader.read_object_header(&[]), Err(CodecError::UnexpectedEnd));
}

#[test]
fn d15_status_object_reads_its_status() {
    // Full object with a zero payload length, then status 0x3 (End of Group).
    let bytes = [0x1c, 0x01, 0x00, 0x80, 0x00, 0x03];
    let mut reader = Reader15::new();
    let (h, n) = reader.read_object_header(&bytes).unwrap();
    assert_eq!(n, 6);
    assert_eq!(h.subgroup_id.into_inner(), 0);
    assert_eq!(h.object_status, Some(Status15::EndOfGroup));
    assert_eq!(h.status(), Status15::EndOfGroup);
    // A status code the draft does not assign is refused.
    let mut reader = Reader15::new();
    assert!(reader.read_object_header(&[0x1c, 0x01, 0x00, 0x80, 0x00, 0x02]).is_err());
}

#[test]
fn d15_reader_writes_back_what_it_read() {
    let bytes = d15_stream();
    let mut reader = Reader15::new();
    let (first, n1) = reader.read_object_header(&bytes).unwrap();
    let (second, _) = reader.read_object_header(&bytes[n1..]).unwrap();
    let mut out = Vec::new();
    let mut echo = Reader15::new();
    echo.write_object_header(&first, &mut out).unwrap();
    echo.write_object_header(&second, &mut out).unwrap();
    assert_eq!(out, bytes);
}

#[test]
fn d15_writer_refuses_an_omitted_field_that_disagrees() {
    let bytes = d15_stream();
    let mut reader = Reader15::new();
    let (first, n1) = reader.read_object_header(&bytes).unwrap();
    let (mut second, _) = reader.read_object_header(&bytes[n1..]).unwrap();
    second.group_id = vi(6);
    let mut echo = Reader15::new();
    let mut out = Vec::new();
    echo.write_object_header(&first, &mut out).unwrap();
    let before = out.clone();
    assert_eq!(echo.write_object_header(&second, &mut out), Err(CodecError::InvalidField));
    assert_eq!(out, before);
}

#[test]
fn d15_writer_reproduces_an_untouched_stream() {
    let bytes = d15_stream();
    let mut reader = Reader15::new();
    let (first, n1) = reader.read_object_header(&bytes).unwrap();
    let (second, _) = reader.read_object_header(&bytes[n1..]).unwrap();
    let mut writer = Writer15::new();
    let mut out = Vec::new();
    let w1 = writer.write_object_header(&first, &mut out).unwrap();
    let w2 = writer.write_object_header(&second, &mut out).unwrap();
    assert_eq!(w1, first);
    assert_eq!(w2, second);
    assert_eq!(out, bytes);
}

#[test]
fn d15_writer_spells_out_what_a_removed_object_supplied() {
    let bytes = d15_stream();
    let mut reader = Reader15::new();
    let (_, n1) = reader.read_object_header(&bytes).unwrap();
    let (second, _) = reader.read_object_header(&bytes[n1..]).unwrap();
    let writer = Writer15::new();
    let h = writer.header_for(&second).unwrap();
    assert_eq!(h.serialization_flags, 0x1f);
    let mut out = Vec::new();
    let mut writer = Writer15::new();
    writer.write_object_header(&second, &mut out).unwrap();
    assert_eq!(out, vec![0x1f, 0x05, 0x02, 0x08, 0x09, 0x02]);
    // And what was written reads back as the same object.
    let mut check = Reader15::new();
    let (back, _) = check.read_object_header(&out).unwrap();
    assert_eq!(back.group_id, second.group_id);
    assert_eq!(back.subgroup_id, second.subgroup_id);
    assert_eq!(back.object_id, second.object_id);
    assert_eq!(back.publisher_priority, second.publisher_priority);
}

#[test]
fn d15_subgroup_encoding_bits() {
    for bits in 0u8..4 {
        assert_eq!(SubgroupIdEncoding::from_flags(0x1c | bits).as_bits(), bits);
    }
    assert!(!SubgroupIdEncoding::Zero.references_prior());
    assert!(SubgroupIdEncoding::SameAsPrior.references_prior());
    assert!(SubgroupIdEncoding::PriorPlusOne.references_prior());
    assert!(!SubgroupIdEncoding::Present.references_prior());
}

#[test]
fn d15_header_encode_refuses_unassigned_bits() {
    let h = Fetch15 {
        serialization_flags: 0x40,
        group_id: vi(1),
        subgroup_id: vi(0),
        object_id: vi(0),
        publisher_priority: 0,
        extension_headers: Vec::new(),
        payload_length: vi(1),
        object_status: None,
    };
    let mut out = Vec::new();
    assert_eq!(h.encode(&mut out), Err(CodecError::InvalidField));
    assert!(out.is_empty());
}

// ── draft-16 ────────────────────────────────────────────────

fn d16_first() -> Vec<u8> {
    vec![0x1f, 0x05, 0x02, 0x07, 0x09, 0x03]
}

#[test]
fn d16_header_decodes_present_fields_only() {
    let (h, n) = Fetch16::decode(&d16_first()).unwrap();
    assert_eq!(n, 6);
    assert_eq!(h.group_id, Some(vi(5)));
    assert_eq!(h.subgroup_id, Some(vi(2)));
    assert_eq!(h.object_id, Some(vi(7)));
    assert_eq!(h.publisher_priority, Some(9));
    assert_eq!(h.extensions, None);
    assert_eq!(h.payload_length, vi(3));
    assert_eq!(h.subgroup_mode(), FetchSubgroupMode::Present);
    assert!(!h.references_prior_object());
    let mut out = Vec::new();
    h.encode(&mut out).unwrap();
    assert_eq!(out, d16_first());
}

#[test]
fn d16_end_of_range_markers() {
    let (h, n) = Fetch16::decode(&[0x40, 0x8c, 0x05, 0x0a, 0x00]).unwrap();
    assert_eq!(n, 5);
    assert_eq!(h.end_of_range(), Some(FetchEndOfRange::NonExistent));
    assert_eq!(h.group_id, Some(vi(5)));
    assert_eq!(h.object_id, Some(vi(10)));
    assert!(!h.has_priority());
    assert!(!h.references_prior_object());
    let (h, _) = Fetch16::decode(&[0x41, 0x0c, 0x05, 0x0a, 0x00]).unwrap();
    assert_eq!(h.end_of_range(), Some(FetchEndOfRange::Unknown));
    assert_eq!(FetchEndOfRange::NonExistent.as_u64(), 0x8c);
    assert_eq!(FetchEndOfRange::Unknown.as_u64(), 0x10c);
    assert_eq!(FetchEndOfRange::from_u64(0x8c), Some(FetchEndOfRange::NonExistent));
    assert_eq!(FetchEndOfRange::from_u64(0x80), None);
    // Any other flags value at or above 128 is refused.
    assert_eq!(Fetch16::decode(&[0x40, 0x80, 0x05, 0x0a, 0x00]), Err(CodecError::InvalidField));
}

#[test]
fn d16_datagram_bit_ignores_subgroup_bits() {
    // Flags 0x5f: datagram, priority, group, object, and low bits 0b11.
    let (h, n) = Fetch16::decode(&[0x40, 0x5f, 0x05, 0x07, 0x09, 0x01]).unwrap();
    assert_eq!(n, 6);
    assert!(h.is_datagram());
    assert_eq!(h.subgroup_mode(), FetchSubgroupMode::Zero);
    assert_eq!(h.subgroup_id, None);
    assert_eq!(h.object_id, Some(vi(7)));
}

#[test]
fn d16_encode_refuses_fields_the_flags_disagree_with() {
    let (mut h, _) = Fetch16::decode(&d16_first()).unwrap();
    h.extensions = Some(vec![1, 2]);
    let mut out = vec![0xaa];
    assert_eq!(h.encode(&mut out), Err(CodecError::InvalidField));
    assert_eq!(out, vec![0xaa]);
}

fn d16_headers() -> Vec<Fetch16> {
    let streams: [&[u8]; 3] = [
        &[0x1f, 0x05, 0x02, 0x07, 0x09, 0x03],
        // Prior subgroup plus one, everything else inherited.
        &[0x02, 0x04],
        // Datagram-forwarded, new group 6, object 0.
        &[0x40, 0x4c, 0x06, 0x00, 0x01],
    ];
    streams.iter().map(|b| Fetch16::decode(b).unwrap().0).collect()
}

#[test]
fn d16_reader_resolves_a_stream() {
    let hs = d16_headers();
    let mut reader = Reader16::new();
    let l1 = reader.resolve(&hs[0]).unwrap();
    assert_eq!(
        l1,
        FetchObjectLocation {
            group_id: 5,
            subgroup_id: Some(2),
            object_id: 7,
            publisher_priority: Some(9),
            end_of_range: None
        }
    );
    let l2 = reader.resolve(&hs[1]).unwrap();
    assert_eq!(
        l2,
        FetchObjectLocation {
            group_id: 5,
            subgroup_id: Some(3),
            object_id: 8,
            publisher_priority: Some(9),
            end_of_range: None
        }
    );
    let l3 = reader.resolve(&hs[2]).unwrap();
    assert_eq!(
        l3,
        FetchObjectLocation {
            group_id: 6,
            subgroup_id: None,
            object_id: 0,
            publisher_priority: Some(9),
            end_of_range: None
        }
    );
    // After a Datagram-forwarded object there is no prior Subgroup ID.
    let (same_subgroup, _) = Fetch16::decode(&[0x01, 0x00]).unwrap();
    assert_eq!(reader.resolve(&same_subgroup), Err(CodecError::InvalidField));
}

#[test]
fn d16_first_object_needs_group_and_object() {
    let (h, _) = Fetch16::decode(&[0x00, 0x00]).unwrap();
    let mut reader = Reader16::new();
    assert_eq!(reader.resolve(&h), Err(CodecError::InvalidField));
    // An absent priority alone is resolvable.
    let (h, _) = Fetch16::decode(&[0x0c, 0x01, 0x02, 0x00]).unwrap();
    assert!(h.references_prior_object());
    let l = reader.resolve(&h).unwrap();
    assert_eq!(l.publisher_priority, None);
    assert_eq!(l.subgroup_id, Some(0));
}

#[test]
fn d16_writer_reproduces_an_untouched_stream() {
    let streams: Vec<u8> = vec![0x1f, 0x05, 0x02, 0x07, 0x09, 0x03, 0x02, 0x04, 0x40, 0x4c, 0x06, 0x00, 0x01];
    let hs = d16_headers();
    let mut reader = Reader16::new();
    let mut writer = Writer16::new();
    let mut out = Vec::new();
    for h in &hs {
        let loc = reader.resolve(h).unwrap();
        let written = writer.write_object_header(h, &loc, &mut out).unwrap();
        assert_eq!(&written, h);
    }
    assert_eq!(out, streams);
}

#[test]
fn d16_writer_spells_out_what_a_removed_object_supplied() {
    let hs = d16_headers();
    let mut reader = Reader16::new();
    reader.resolve(&hs[0]).unwrap();
    let loc2 = reader.resolve(&hs[1]).unwrap();
    let mut writer = Writer16::new();
    let mut out = Vec::new();
    let h = writer.write_object_header(&hs[1], &loc2, &mut out).unwrap();
    assert_eq!(h.serialization_flags, vi(0x1f));
    assert_eq!(out, vec![0x1f, 0x05, 0x03, 0x08, 0x09, 0x04]);
    // Read back on a fresh stream, it lands where it was.
    let (back, _) = Fetch16::decode(&out).unwrap();
    let mut fresh = Reader16::new();
    assert_eq!(fresh.resolve(&back), Ok(loc2));
}

#[test]
fn d16_writer_refuses_a_location_without_subgroup() {
    let hs = d16_headers();
    let loc = FetchObjectLocation {
        group_id: 5,
        subgroup_id: None,
        object_id: 7,
        publisher_priority: Some(9),
        end_of_range: None,
    };
    let mut writer = Writer16::new();
    let mut out = Vec::new();
    assert_eq!(writer.write_object_header(&hs[0], &loc, &mut out), Err(CodecError::InvalidField));
    assert!(out.is_empty());
}
