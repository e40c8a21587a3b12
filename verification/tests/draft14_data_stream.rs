use moqtap_codec::draft14::data_stream::{
    DatagramObject, DatagramType, FetchHeader, FetchObject, SubgroupHeader, SubgroupObject,
    SubgroupObjectReader, SubgroupStreamType,
};
use moqtap_codec::draft14::types::ObjectStatus;
use moqtap_codec::error::CodecError;
use moqtap_codec::varint::VarInt;

fn vi(v: u64) -> VarInt {
    VarInt::from_u64(v).unwrap()
}

// ── SubgroupStreamType flag helpers ─────────────────────

#[test]
fn subgroup_type_0x10_all_off() {
    let t = SubgroupStreamType::from_u8(0x10).unwrap();
    assert!(!t.has_subgroup_id_field());
    assert!(!t.subgroup_id_is_first_object());
    assert!(!t.extensions_present());
    assert!(!t.contains_end_of_group());
}

#[test]
fn subgroup_type_0x15_explicit_with_ext() {
    let t = SubgroupStreamType::from_u8(0x15).unwrap();
    assert!(t.has_subgroup_id_field());
    assert!(!t.subgroup_id_is_first_object());
    assert!(t.extensions_present());
    assert!(!t.contains_end_of_group());
}

#[test]
fn subgroup_type_0x1d_all_on() {
    let t = SubgroupStreamType::from_u8(0x1D).unwrap();
    assert!(t.has_subgroup_id_field());
    assert!(t.extensions_present());
    assert!(t.contains_end_of_group());
}

#[test]
fn subgroup_type_0x12_first_object() {
    let t = SubgroupStreamType::from_u8(0x12).unwrap();
    assert!(!t.has_subgroup_id_field());
    assert!(t.subgroup_id_is_first_object());
    assert!(!t.extensions_present());
}

#[test]
fn subgroup_type_rejects_undefined() {
    for bad in [0x00u8, 0x0F, 0x16, 0x17, 0x1E, 0x1F, 0x20] {
        assert!(SubgroupStreamType::from_u8(bad).is_none(), "0x{bad:02x} should be rejected");
    }
}

#[test]
fn subgroup_type_from_flags_roundtrip() {
    for &f_sg in &[false, true] {
        for &f_first in &[false, true] {
            for &f_ext in &[false, true] {
                for &f_eog in &[false, true] {
                    let t = SubgroupStreamType::from_flags(f_sg, f_first, f_ext, f_eog);
                    assert_eq!(t.has_subgroup_id_field(), f_sg);
                    if !f_sg {
                        assert_eq!(t.subgroup_id_is_first_object(), f_first);
                    }
                    assert_eq!(t.extensions_present(), f_ext);
                    assert_eq!(t.contains_end_of_group(), f_eog);
                }
            }
        }
    }
}

// ── SubgroupHeader round-trip ───────────────────────────

#[test]
fn subgroup_header_roundtrip_0x10() {
    let h = SubgroupHeader {
        stream_type: SubgroupStreamType::from_u8(0x10).unwrap(),
        track_alias: vi(1),
        group_id: vi(0),
        subgroup_id: None,
        publisher_priority: 128,
    };
    let mut buf = Vec::new();
    h.encode(&mut buf);
    assert_eq!(buf[0], 0x10);
    let (decoded, n) = SubgroupHeader::decode(&buf).unwrap();
    assert_eq!(decoded, h);
    assert_eq!(n, buf.len());
}

#[test]
fn subgroup_header_roundtrip_explicit_subgroup() {
    let h = SubgroupHeader {
        stream_type: SubgroupStreamType::from_u8(0x14).unwrap(),
        track_alias: vi(5),
        group_id: vi(10),
        subgroup_id: Some(vi(2)),
        publisher_priority: 64,
    };
    let mut buf = Vec::new();
    h.encode(&mut buf);
    let (decoded, _) = SubgroupHeader::decode(&buf).unwrap();
    assert_eq!(decoded, h);
}

#[test]
fn subgroup_header_decode_rejects_bad_type() {
    let buf = [0x16u8, 0x01, 0x00, 0x80];
    let err = SubgroupHeader::decode(&buf).unwrap_err();
    assert!(
        matches!(err, CodecError::UnknownStreamType(0x16)),
        "an unassigned Type must be named as one, got {err:?}"
    );
}

#[test]
fn subgroup_header_decode_does_not_call_the_fetch_type_unknown() {
    let buf = [0x05u8, 0x01, 0x00, 0x80];
    let err = SubgroupHeader::decode(&buf).unwrap_err();
    assert!(
        matches!(err, CodecError::InvalidField),
        "a fetch stream at the subgroup reader must be refused without naming the \
         unknown-stream-type rule, got {err:?}"
    );
}

// ── Subgroup object reader (delta + extensions) ─────────

fn header_of_type(t: u8) -> SubgroupHeader {
    SubgroupHeader {
        stream_type: SubgroupStreamType::from_u8(t).unwrap(),
        track_alias: vi(1),
        group_id: vi(0),
        subgroup_id: None,
        publisher_priority: 0,
    }
}

#[test]
fn subgroup_reader_delta_sequential_ids() {
    let header = header_of_type(0x10);
    let mut write = SubgroupObjectReader::new(&header);
    let mut buf = Vec::new();
    for i in 0..3u64 {
        let obj = SubgroupObject {
            object_id: vi(i),
            extension_headers: vec![],
            status: None,
            payload: vec![0xAA + i as u8; 4],
        };
        write.write_object(&obj, &mut buf).unwrap();
    }

    let mut read = SubgroupObjectReader::new(&header);
    let mut pos = 0;
    let (o0, n) = read.read_object(&buf[pos..]).unwrap();
    pos += n;
    assert_eq!(o0.object_id.into_inner(), 0);
    assert_eq!(o0.payload, vec![0xAA; 4]);
    let (o1, n) = read.read_object(&buf[pos..]).unwrap();
    pos += n;
    assert_eq!(o1.object_id.into_inner(), 1);
    let (o2, _) = read.read_object(&buf[pos..]).unwrap();
    assert_eq!(o2.object_id.into_inner(), 2);
}

#[test]
fn subgroup_reader_delta_sparse_ids() {
    let header = header_of_type(0x10);
    let mut write = SubgroupObjectReader::new(&header);
    let mut buf = Vec::new();
    for &id in &[5u64, 10, 11] {
        write
            .write_object(
                &SubgroupObject {
                    object_id: vi(id),
                    extension_headers: vec![],
                    status: None,
                    payload: vec![1, 2, 3],
                },
                &mut buf,
            )
            .unwrap();
    }
    let mut read = SubgroupObjectReader::new(&header);
    let mut pos = 0;
    for expected in [5u64, 10, 11] {
        let (o, n) = read.read_object(&buf[pos..]).unwrap();
        pos += n;
        assert_eq!(o.object_id.into_inner(), expected);
    }
}

#[test]
fn subgroup_reader_with_extensions() {
    let header = header_of_type(0x11);
    let mut write = SubgroupObjectReader::new(&header);
    let mut buf = Vec::new();
    write
        .write_object(
            &SubgroupObject {
                object_id: vi(0),
                extension_headers: vec![0x01, 0x02, 0x03],
                status: None,
                payload: vec![0xFF],
            },
            &mut buf,
        )
        .unwrap();
    let mut read = SubgroupObjectReader::new(&header);
    let (o, _) = read.read_object(&buf).unwrap();
    assert_eq!(o.extension_headers, vec![0x01, 0x02, 0x03]);
    assert_eq!(o.payload, vec![0xFF]);
}

#[test]
fn subgroup_reader_status_object() {
    let header = header_of_type(0x10);
    let mut write = SubgroupObjectReader::new(&header);
    let mut buf = Vec::new();
    write
        .write_object(
            &SubgroupObject {
                object_id: vi(7),
                extension_headers: vec![],
                status: Some(ObjectStatus::EndOfGroup),
                payload: vec![],
            },
            &mut buf,
        )
        .unwrap();
    let mut read = SubgroupObjectReader::new(&header);
    let (o, _) = read.read_object(&buf).unwrap();
    assert_eq!(o.object_id.into_inner(), 7);
    assert_eq!(o.status, Some(ObjectStatus::EndOfGroup));
    assert!(o.payload.is_empty());
}

#[test]
fn subgroup_reader_meta_matches_read_object() {
    let header = header_of_type(0x11);
    let mut write = SubgroupObjectReader::new(&header);
    let mut buf = Vec::new();
    for (id, status) in [(0u64, None), (4, Some(ObjectStatus::EndOfGroup)), (9, None)] {
        write
            .write_object(
                &SubgroupObject {
                    object_id: vi(id),
                    extension_headers: vec![0x0A, 0x0B],
                    status,
                    payload: if status.is_some() { vec![] } else { vec![0xEE; 3] },
                },
                &mut buf,
            )
            .unwrap();
    }

    let mut full = SubgroupObjectReader::new(&header);
    let mut meta = SubgroupObjectReader::new(&header);
    let mut full_pos = 0;
    let mut meta_pos = 0;
    for _ in 0..3 {
        let (o, n) = full.read_object(&buf[full_pos..]).unwrap();
        full_pos += n;
        let (m, k) = meta.read_object_meta(&buf[meta_pos..]).unwrap();
        meta_pos += k;
        assert_eq!(m.object_id, o.object_id.into_inner());
        assert_eq!(m.extension_headers_len, o.extension_headers.len() as u64);
        assert_eq!(m.payload_length, o.payload.len() as u64);
        assert_eq!(m.status, o.status.map(|s| s.as_u64()));
        assert_eq!(m.wire_len, k as u64);
        assert_eq!(full_pos, meta_pos);
    }
    assert_eq!(meta_pos, buf.len());
}

#[test]
fn subgroup_reader_meta_short_buffer_is_unexpected_end() {
    let header = header_of_type(0x10);
    let mut write = SubgroupObjectReader::new(&header);
    let mut buf = Vec::new();
    write
        .write_object(
            &SubgroupObject {
                object_id: vi(0),
                extension_headers: vec![],
                status: None,
                payload: vec![1, 2, 3, 4],
            },
            &mut buf,
        )
        .unwrap();

    for cut in 1..buf.len() {
        let mut read = SubgroupObjectReader::new(&header);
        let err = read.read_object_meta(&buf[..cut]).unwrap_err();
        assert!(
            matches!(err, CodecError::UnexpectedEnd | CodecError::VarInt(_)),
            "cut {cut} gave {err:?}"
        );
    }
}

// ── FetchHeader + FetchObject ───────────────────────────

#[test]
fn fetch_header_roundtrip() {
    let h = FetchHeader { request_id: vi(99) };
    let mut buf = Vec::new();
    h.encode(&mut buf);
    assert_eq!(buf[0], 0x05);
    assert_eq!(FetchHeader::decode(&buf).unwrap().0, h);
}

#[test]
fn fetch_header_rejects_wrong_type() {
    let buf = [0x10u8, 0x05];
    assert!(FetchHeader::decode(&buf).is_err());
}

#[test]
fn fetch_object_roundtrip_with_payload() {
    let obj = FetchObject {
        group_id: vi(3),
        subgroup_id: vi(1),
        object_id: vi(7),
        publisher_priority: 200,
        extension_headers: vec![0xAA, 0xBB],
        status: None,
        payload: vec![1, 2, 3, 4],
    };
    let mut buf = Vec::new();
    obj.encode(&mut buf);
    assert_eq!(FetchObject::decode(&buf).unwrap().0, obj);
}

#[test]
fn fetch_object_roundtrip_status() {
    let obj = FetchObject {
        group_id: vi(3),
        subgroup_id: vi(1),
        object_id: vi(8),
        publisher_priority: 200,
        extension_headers: vec![],
        status: Some(ObjectStatus::ObjectDoesNotExist),
        payload: vec![],
    };
    let mut buf = Vec::new();
    obj.encode(&mut buf);
    assert_eq!(FetchObject::decode(&buf).unwrap().0, obj);
}

#[test]
fn fetch_object_meta_matches_decode() {
    for obj in [
        FetchObject {
            group_id: vi(3),
            subgroup_id: vi(1),
            object_id: vi(7),
            publisher_priority: 200,
            extension_headers: vec![0xAA, 0xBB],
            status: None,
            payload: vec![1, 2, 3, 4],
        },
        FetchObject {
            group_id: vi(4),
            subgroup_id: vi(0),
            object_id: vi(8),
            publisher_priority: 1,
            extension_headers: vec![],
            status: Some(ObjectStatus::EndOfTrack),
            payload: vec![],
        },
    ] {
        let mut buf = Vec::new();
        obj.encode(&mut buf);
        let (decoded, n) = FetchObject::decode(&buf).unwrap();
        let (meta, k) = FetchObject::decode_meta(&buf).unwrap();
        assert_eq!(meta.group_id, decoded.group_id.into_inner());
        assert_eq!(meta.subgroup_id, decoded.subgroup_id.into_inner());
        assert_eq!(meta.object_id, decoded.object_id.into_inner());
        assert_eq!(meta.publisher_priority, decoded.publisher_priority);
        assert_eq!(meta.extension_headers_len, decoded.extension_headers.len() as u64);
        assert_eq!(meta.payload_length, decoded.payload.len() as u64);
        assert_eq!(meta.status, decoded.status.map(|s| s.as_u64()));
        assert_eq!(meta.wire_len, buf.len() as u64);
        assert_eq!(k, buf.len());
        assert_eq!(n, k);
    }
}

// ── DatagramType ────────────────────────────────────────

#[test]
fn datagram_type_variants() {
    let t0 = DatagramType::from_u8(0x00).unwrap();
    assert!(t0.object_id_present());
    assert!(!t0.extensions_present());
    assert!(!t0.end_of_group());
    assert!(!t0.is_status());

    let t7 = DatagramType::from_u8(0x07).unwrap();
    assert!(!t7.object_id_present());
    assert!(t7.extensions_present());
    assert!(t7.end_of_group());
    assert!(!t7.is_status());

    let t20 = DatagramType::from_u8(0x20).unwrap();
    assert!(t20.is_status());
    assert!(!t20.extensions_present());
    assert!(t20.object_id_present());

    let t21 = DatagramType::from_u8(0x21).unwrap();
    assert!(t21.is_status());
    assert!(t21.extensions_present());
}

#[test]
fn datagram_type_rejects_undefined() {
    for bad in [0x08u8, 0x10, 0x1F, 0x22, 0x80] {
        assert!(DatagramType::from_u8(bad).is_none(), "0x{bad:02x}");
    }
}

// ── DatagramObject round-trip ───────────────────────────

#[test]
fn datagram_object_0x00_roundtrip() {
    let d = DatagramObject {
        datagram_type: DatagramType::from_u8(0x00).unwrap(),
        track_alias: vi(1),
        group_id: vi(2),
        object_id: vi(3),
        publisher_priority: 100,
        extension_headers: vec![],
        status: None,
        payload: vec![0xDE, 0xAD, 0xBE, 0xEF],
    };
    let mut buf = Vec::new();
    d.encode(&mut buf);
    assert_eq!(DatagramObject::decode(&buf).unwrap().0, d);
}

#[test]
fn datagram_object_0x04_no_object_id() {
    let d = DatagramObject {
        datagram_type: DatagramType::from_u8(0x04).unwrap(),
        track_alias: vi(1),
        group_id: vi(2),
        object_id: vi(0),
        publisher_priority: 100,
        extension_headers: vec![],
        status: None,
        payload: vec![0xAA],
    };
    let mut buf = Vec::new();
    d.encode(&mut buf);
    let (decoded, _) = DatagramObject::decode(&buf).unwrap();
    assert_eq!(decoded, d);
}

#[test]
fn datagram_object_0x21_status_with_extensions() {
    let d = DatagramObject {
        datagram_type: DatagramType::from_u8(0x21).unwrap(),
        track_alias: vi(9),
        group_id: vi(4),
        object_id: vi(11),
        publisher_priority: 50,
        extension_headers: vec![0xCA, 0xFE],
        status: Some(ObjectStatus::EndOfTrack),
        payload: vec![],
    };
    let mut buf = Vec::new();
    d.encode(&mut buf);
    assert_eq!(DatagramObject::decode(&buf).unwrap().0, d);
}

fn datagram(type_byte: u8, status: Option<ObjectStatus>, payload: Vec<u8>) -> DatagramObject {
    DatagramObject {
        datagram_type: DatagramType::from_u8(type_byte).unwrap(),
        track_alias: vi(1),
        group_id: vi(0),
        object_id: vi(0),
        publisher_priority: 128,
        extension_headers: vec![],
        status,
        payload,
    }
}

#[test]
fn encode_checked_refuses_the_field_the_type_byte_cannot_carry() {
    let all = [
        ObjectStatus::Normal,
        ObjectStatus::ObjectDoesNotExist,
        ObjectStatus::EndOfGroup,
        ObjectStatus::EndOfTrack,
    ];
    for &status in &all {
        if status == ObjectStatus::Normal {
            continue;
        }

        let object = datagram(0x00, Some(status), vec![0xDE, 0xAD]);
        let mut refused = Vec::new();
        let result = object.encode_checked(&mut refused);
        assert!(
            matches!(result, Err(CodecError::InvalidField)),
            "encode_checked must refuse {status:?} under a payload type; got {result:?}"
        );
        assert!(refused.is_empty(), "a refused {status:?} datagram still wrote {refused:?}");

        let mut dropped = Vec::new();
        object.encode(&mut dropped);
        let (decoded, _) = DatagramObject::decode(&dropped)
            .unwrap_or_else(|e| panic!("the lossy encoding of {status:?} must parse: {e:?}"));
        assert_eq!(decoded.status, None, "{status:?} is exactly what `encode` loses here");
        assert_eq!(decoded.payload, vec![0xDE, 0xAD]);

        let mut carried = Vec::new();
        datagram(0x20, Some(status), vec![])
            .encode_checked(&mut carried)
            .unwrap_or_else(|e| panic!("encode_checked refused a status-type {status:?}: {e:?}"));
        let (decoded, _) = DatagramObject::decode(&carried).unwrap();
        assert_eq!(decoded.status, Some(status), "{status:?} lost its status");
    }

    let object = datagram(0x20, Some(ObjectStatus::EndOfGroup), vec![0xDE, 0xAD]);
    let mut refused = Vec::new();
    let result = object.encode_checked(&mut refused);
    assert!(
        matches!(result, Err(CodecError::InvalidField)),
        "encode_checked must refuse a payload under a status type; got {result:?}"
    );
    assert!(refused.is_empty(), "a refused datagram still wrote {refused:?}");

    let mut dropped = Vec::new();
    object.encode(&mut dropped);
    let (decoded, _) = DatagramObject::decode(&dropped).unwrap();
    assert!(decoded.payload.is_empty(), "the payload is exactly what `encode` loses here");
    assert_eq!(decoded.status, Some(ObjectStatus::EndOfGroup));

    let mut named = Vec::new();
    datagram(0x00, Some(ObjectStatus::Normal), vec![0xDE, 0xAD])
        .encode_checked(&mut named)
        .unwrap_or_else(|e| {
            panic!("encode_checked refused a Normal status under a payload type: {e:?}")
        });
    let mut unnamed = Vec::new();
    datagram(0x00, None, vec![0xDE, 0xAD]).encode_checked(&mut unnamed).unwrap();
    assert_eq!(named, unnamed, "naming Normal must ask for the bytes leaving it out asks for");
}
