use moqtap_codec::draft15::data_stream::{
    DatagramHeader, SubgroupHeader, SubgroupObject, SubgroupObjectReader, FetchObjectHeader, FetchObjectReader,
};
use moqtap_codec::draft15::types::ObjectStatus;
use moqtap_codec::error::CodecError;
use moqtap_codec::varint::VarInt;

/// Canonically encoded subgroup stream vectors.
const VECTORS: &[&str] = &[
    "100100800004deadbeef",
    "100100800004deadbeef0002cafe",
    "3001000004deadbeef",
    "11010080000004deadbeef",
    "1101008000023c0104deadbeef",
    "100105800004deadbeef000003",
    "10010a800004deadbeef000004",
    "11010080000004deadbeef000002cafe",
    "1101008000023c0204deadbeef00023c0302cafe",
    "1101008000023c010003",
    "120105800004deadbeef",
];

const ALL_STATUSES: &[ObjectStatus] = &[ObjectStatus::Normal, ObjectStatus::ObjectDoesNotExist, ObjectStatus::EndOfGroup, ObjectStatus::EndOfTrack];

fn vi(v: u64) -> VarInt {
    VarInt::from_u64(v).unwrap()
}

fn hex(s: &str) -> Vec<u8> {
    (0..s.len()).step_by(2).map(|i| u8::from_str_radix(&s[i..i + 2], 16).unwrap()).collect()
}

/// Decode a whole subgroup stream: the header, then every object up to the
/// end of the buffer.
fn decode_all(bytes: &[u8]) -> (SubgroupHeader, Vec<SubgroupObject>) {
    let (header, mut pos) =
        SubgroupHeader::decode(bytes).unwrap_or_else(|e| panic!("header decode failed: {e:?}"));
    let mut reader = SubgroupObjectReader::new(&header);
    let mut objects = Vec::new();
    while pos < bytes.len() {
        let (o, n) = reader
            .read_object(&bytes[pos..])
            .unwrap_or_else(|e| panic!("object {} decode failed: {e:?}", objects.len()));
        objects.push(o);
        pos += n;
    }
    (header, objects)
}

fn encode_all(header: &SubgroupHeader, objects: &[SubgroupObject]) -> Vec<u8> {
    let mut buf = Vec::new();
    header.encode(&mut buf);
    let mut writer = SubgroupObjectReader::new(header);
    for o in objects {
        writer.write_object(o, &mut buf).unwrap_or_else(|e| panic!("write failed: {e:?}"));
    }
    buf
}

fn object(id: u64, extensions: Vec<u8>, payload: Vec<u8>) -> SubgroupObject {
    SubgroupObject {
        object_id: vi(id),
        extension_headers: extensions,
        payload_length: vi(payload.len() as u64),
        object_status: None,
        payload,
    }
}

fn plain_header() -> SubgroupHeader {
    SubgroupHeader::decode(&hex("100100800004deadbeef")).unwrap().0
}

fn subgroup_status_body(code: u64) -> Vec<u8> {
    let mut buf = vec![0x00, 0x00];
    VarInt::from_u64(code).unwrap().encode(&mut buf);
    buf
}

fn status_object(status: Option<ObjectStatus>) -> SubgroupObject {
    SubgroupObject {
        object_id: vi(0),
        extension_headers: vec![],
        payload_length: vi(0),
        object_status: status,
        payload: vec![],
    }
}

fn datagram_status_bytes(code: u64) -> Vec<u8> {
    let mut buf = vec![0x20, 0x01, 0x02, 0x03, 0x80];
    VarInt::from_u64(code).unwrap().encode(&mut buf);
    buf
}

fn status_datagram(status: Option<ObjectStatus>) -> DatagramHeader {
    DatagramHeader {
        datagram_type: 0x20,
        track_alias: vi(1),
        group_id: vi(2),
        object_id: vi(3),
        publisher_priority: Some(0x80),
        extension_headers: vec![],
        object_status: status,
    }
}

#[test]
fn two_objects_with_extensions_have_distinct_ids() {
    let bytes = hex("11010080000004deadbeef000002cafe");
    let (header, objects) = decode_all(&bytes);
    assert!(header.has_extensions());
    assert_eq!(objects.len(), 2);
    assert_eq!(objects[0].object_id.into_inner(), 0);
    assert_eq!(objects[1].object_id.into_inner(), 1);
    assert_eq!(objects[0].payload, hex("deadbeef"));
    assert_eq!(objects[1].payload, hex("cafe"));
    assert!(objects.iter().all(|o| o.extension_headers.is_empty()));
}

#[test]
fn deltas_resolve_sparse_ids() {
    let header = plain_header();
    let objects: Vec<_> =
        [3u64, 4, 40].iter().map(|&id| object(id, vec![], vec![0xAA, id as u8])).collect();
    let (_, decoded) = decode_all(&encode_all(&header, &objects));
    let ids: Vec<u64> = decoded.iter().map(|o| o.object_id.into_inner()).collect();
    assert_eq!(ids, vec![3, 4, 40]);
}

#[test]
fn write_rejects_non_increasing_ids() {
    let header = plain_header();
    let mut writer = SubgroupObjectReader::new(&header);
    let mut buf = Vec::new();
    writer.write_object(&object(7, vec![], vec![0x01]), &mut buf).unwrap();
    for id in [7u64, 6, 0] {
        let err = writer.write_object(&object(id, vec![], vec![0x01]), &mut buf).unwrap_err();
        assert!(matches!(err, CodecError::InvalidField), "id {id} gave {err:?}");
    }
}

#[test]
fn eliding_an_object_renumbers_its_successor() {
    let header = plain_header();
    let all: Vec<_> = (0..5u64).map(|id| object(id, vec![], vec![id as u8])).collect();
    for elided in 0..5u64 {
        let kept: Vec<_> =
            all.iter().filter(|o| o.object_id.into_inner() != elided).cloned().collect();
        let (_, decoded) = decode_all(&encode_all(&header, &kept));
        let ids: Vec<u64> = decoded.iter().map(|o| o.object_id.into_inner()).collect();
        let expected: Vec<u64> = (0..5u64).filter(|&i| i != elided).collect();
        assert_eq!(ids, expected, "eliding object {elided}");
    }
}

#[test]
fn extensions_blob_excludes_its_length_prefix() {
    let bytes = hex("1101008000023c0204deadbeef00023c0302cafe");
    let (_, objects) = decode_all(&bytes);
    assert_eq!(objects.len(), 2);
    assert_eq!(objects[0].object_id.into_inner(), 0);
    assert_eq!(objects[1].object_id.into_inner(), 1);
    assert_eq!(objects[0].extension_headers, hex("3c02"));
    assert_eq!(objects[1].extension_headers, hex("3c03"));
    assert_eq!(objects[0].payload, hex("deadbeef"));
    assert_eq!(objects[1].payload, hex("cafe"));
}

#[test]
fn status_object_carries_its_extensions_block() {
    let (_, objects) = decode_all(&hex("1101008000023c010003"));
    assert_eq!(objects.len(), 1);
    assert_eq!(objects[0].extension_headers, hex("3c01"));
    assert_eq!(objects[0].payload_length.into_inner(), 0);
    assert_eq!(objects[0].object_status.map(ObjectStatus::as_u64), Some(3));
    assert!(objects[0].payload.is_empty());
}

#[test]
fn assigned_statuses_round_trip() {
    let header = plain_header();
    for &status in ALL_STATUSES {
        let mut bytes = Vec::new();
        SubgroupObjectReader::new(&header)
            .write_object(&status_object(Some(status)), &mut bytes)
            .unwrap();
        assert_eq!(bytes, subgroup_status_body(status.as_u64()), "{status:?} on the subgroup wire");

        let (decoded, _) = SubgroupObjectReader::new(&header)
            .read_object(&bytes)
            .unwrap_or_else(|e| panic!("{status:?} was written and then refused: {e:?}"));
        assert_eq!(decoded.object_status, Some(status), "{status:?} through read_object");

        let (meta, _) = SubgroupObjectReader::new(&header)
            .read_object_meta(&bytes)
            .unwrap_or_else(|e| panic!("{status:?} was written and then refused: {e:?}"));
        assert_eq!(meta.status, Some(status.as_u64()), "{status:?} through read_object_meta");

        let datagram = status_datagram(Some(status));
        let mut bytes = Vec::new();
        datagram.encode(&mut bytes);
        assert_eq!(bytes, datagram_status_bytes(status.as_u64()), "{status:?} on the datagram wire");
        let (decoded, _) = DatagramHeader::decode(&bytes).unwrap_or_else(|e| {
            panic!("{status:?} datagram was written and then refused: {e:?}")
        });
        assert_eq!(decoded, datagram, "{status:?} datagram round trip");
    }
}

#[test]
fn a_status_datagram_without_a_status_encodes_normal() {
    let mut bytes = Vec::new();
    status_datagram(None).encode(&mut bytes);
    assert_eq!(bytes, datagram_status_bytes(ObjectStatus::Normal.as_u64()));
    let (decoded, _) =
        DatagramHeader::decode(&bytes).unwrap_or_else(|e| panic!("own output refused: {e:?}"));
    assert_eq!(decoded.object_status, Some(ObjectStatus::Normal));
}

#[test]
fn the_wire_accepts_exactly_what_the_type_can_hold() {
    let header = plain_header();
    for code in 0x00u64..=0x3f {
        let assigned = ALL_STATUSES.iter().any(|s| s.as_u64() == code);
        let body = subgroup_status_body(code);

        let read = SubgroupObjectReader::new(&header).read_object(&body);
        assert_eq!(read.is_ok(), assigned, "subgroup read_object on status {code:#x}: {read:?}");

        let meta = SubgroupObjectReader::new(&header).read_object_meta(&body);
        assert_eq!(
            meta.is_ok(),
            assigned,
            "subgroup read_object_meta on status {code:#x}: {meta:?}"
        );

        let datagram = DatagramHeader::decode(&datagram_status_bytes(code));
        assert_eq!(datagram.is_ok(), assigned, "status datagram on status {code:#x}: {datagram:?}");

        if assigned {
            let status = ObjectStatus::from_u64(code).unwrap();
            let mut bytes = Vec::new();
            SubgroupObjectReader::new(&header)
                .write_object(&status_object(Some(status)), &mut bytes)
                .unwrap();
            assert_eq!(bytes, body, "write_object on status {code:#x}");
            let mut bytes = Vec::new();
            status_datagram(Some(status)).encode(&mut bytes);
            assert_eq!(bytes, datagram_status_bytes(code), "datagram encode on status {code:#x}");
        }
    }
}

#[test]
fn vectors_re_encode_byte_identically() {
    for vector in VECTORS {
        let bytes = hex(vector);
        let (header, objects) = decode_all(&bytes);
        assert_eq!(encode_all(&header, &objects), bytes, "[{vector}] re-encode");
    }
}

#[test]
fn meta_matches_read_object() {
    for vector in VECTORS {
        let bytes = hex(vector);
        let (header, start) = SubgroupHeader::decode(&bytes).unwrap();
        let mut full_reader = SubgroupObjectReader::new(&header);
        let mut meta_reader = SubgroupObjectReader::new(&header);
        let mut full_pos = start;
        let mut meta_pos = start;
        while meta_pos < bytes.len() {
            let (object, n) = full_reader.read_object(&bytes[full_pos..]).unwrap();
            full_pos += n;
            let (meta, k) = meta_reader.read_object_meta(&bytes[meta_pos..]).unwrap();
            meta_pos += k;
            assert_eq!(meta.object_id, object.object_id.into_inner(), "[{vector}]");
            assert_eq!(
                meta.extension_headers_len,
                object.extension_headers.len() as u64,
                "[{vector}]"
            );
            assert_eq!(meta.payload_length, object.payload_length.into_inner(), "[{vector}]");
            assert_eq!(meta.status, object.object_status.map(ObjectStatus::as_u64), "[{vector}]");
            assert_eq!(meta.wire_len, k as u64, "[{vector}]");
            assert_eq!(full_pos, meta_pos, "[{vector}]");
        }
    }
}

#[test]
fn short_buffers_report_unexpected_end() {
    let bytes = hex("1101008000023c0204deadbeef00023c0302cafe");
    let (header, objects_start) = SubgroupHeader::decode(&bytes).unwrap();
    for cut in objects_start..bytes.len() {
        let mut reader = SubgroupObjectReader::new(&header);
        let mut meta_reader = SubgroupObjectReader::new(&header);
        let window = &bytes[objects_start..cut];
        let mut pos = 0;
        while pos < window.len() {
            match reader.read_object(&window[pos..]) {
                Ok((_, n)) => pos += n,
                Err(err) => {
                    assert!(
                        matches!(err, CodecError::UnexpectedEnd | CodecError::VarInt(_)),
                        "cut {cut} gave {err:?}"
                    );
                    break;
                }
            }
        }
        let mut pos = 0;
        while pos < window.len() {
            match meta_reader.read_object_meta(&window[pos..]) {
                Ok((_, n)) => pos += n,
                Err(err) => {
                    assert!(
                        matches!(err, CodecError::UnexpectedEnd | CodecError::VarInt(_)),
                        "cut {cut} gave {err:?}"
                    );
                    break;
                }
            }
        }
    }
}

#[test]
fn fetch_objects_report_extensions_beside_a_non_normal_status() {
    let cases: [(&str, bool, &str); 4] = [
        ("3c000000023c010003", false, "a two-byte extension block beside End of Group is the violation"),
        ("1c0000000003", true, "End of Group with no extensions is fine"),
        (
            "3c000000000003",
            true,
            "a present but zero-length block carries nothing, so nothing is beside the status",
        ),
        ("3c000000023c0104", true, "a normal object may carry extensions"),
    ];

    for (vector, permitted, why) in cases {
        let bytes = hex(vector);
        let (header, _) = FetchObjectReader::new()
            .read_object_header(&bytes)
            .unwrap_or_else(|e| panic!("[{vector}] {why}: decode failed with {e:?}"));
        assert_eq!(
            header.extensions_permitted(),
            permitted,
            "[{vector}] {why}: expected {permitted}, got {}",
            header.extensions_permitted(),
        );
    }
}

#[test]
fn fetch_object_status_is_normal_whenever_a_payload_is_declared() {
    let bytes = hex("3c000000023c0104");
    let (header, _) = FetchObjectReader::new().read_object_header(&bytes).unwrap();
    assert_eq!(header.object_status, None, "no status field follows a non-zero length");
    assert_eq!(header.status(), ObjectStatus::Normal);

    let contradictory = FetchObjectHeader { object_status: Some(ObjectStatus::EndOfGroup), ..header };
    assert_eq!(
        contradictory.status(),
        ObjectStatus::Normal,
        "a declared payload wins over a status the wire could not have carried",
    );
    assert!(contradictory.extensions_permitted());
}
