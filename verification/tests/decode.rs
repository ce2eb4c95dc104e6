use std::io::Write;

use osm_pbf::blob::{Blob, BlobDecode, BlobReader, BlobType};
use osm_pbf::delta::decode_deltas;
use osm_pbf::dense::DenseNodeIterator;
use osm_pbf::elements::{Element, ElementId, Node, Relation, Tags, Way};
use osm_pbf::error::OsmPbfError;
use osm_pbf::proto::{
    BlobBody, BlobData, BlobHeaderData, DenseNodesData, NodeData, PrimitiveBlockData,
    RelationData, WayData,
};
use osm_pbf::reader::OsmPbfReader;

// --- wire-format builders -------------------------------------------------

fn varint(mut n: u64) -> Vec<u8> {
    let mut out = Vec::new();
    loop {
        let b = (n & 0x7f) as u8;
        n >>= 7;
        if n == 0 {
            out.push(b);
            return out;
        }
        out.push(b | 0x80);
    }
}

fn field_varint(field: u64, n: u64) -> Vec<u8> {
    let mut out = varint(field << 3);
    out.extend_from_slice(&varint(n));
    out
}

fn field_bytes(field: u64, payload: &[u8]) -> Vec<u8> {
    let mut out = varint((field << 3) | 2);
    out.extend_from_slice(&varint(payload.len() as u64));
    out.extend_from_slice(payload);
    out
}

fn zigzag(v: i64) -> u64 {
    ((v << 1) ^ (v >> 63)) as u64
}

fn packed_sint64(vals: &[i64]) -> Vec<u8> {
    let mut out = Vec::new();
    for v in vals {
        out.extend_from_slice(&varint(zigzag(*v)));
    }
    out
}

fn compress(data: &[u8]) -> Vec<u8> {
    let mut enc = flate2::write::ZlibEncoder::new(Vec::new(), flate2::Compression::default());
    enc.write_all(data).unwrap();
    enc.finish().unwrap()
}

fn blob_header_msg(kind: &str, datasize: usize) -> Vec<u8> {
    let mut out = field_bytes(1, kind.as_bytes());
    out.extend_from_slice(&field_varint(3, datasize as u64));
    out
}

fn frame(kind: &str, body: &[u8]) -> Vec<u8> {
    let header = blob_header_msg(kind, body.len());
    let mut out = (header.len() as u32).to_be_bytes().to_vec();
    out.extend_from_slice(&header);
    out.extend_from_slice(body);
    out
}

fn zlib_body(block_bytes: &[u8]) -> Vec<u8> {
    field_bytes(3, &compress(block_bytes))
}

/// A minimal data block: string table [""], one group with one dense node
/// (id delta 1, lat delta 1, lon delta 1, no tags).
fn one_dense_node_block() -> Vec<u8> {
    let st = field_bytes(1, b"");
    let mut dense = field_bytes(1, &packed_sint64(&[1]));
    dense.extend_from_slice(&field_bytes(8, &packed_sint64(&[1])));
    dense.extend_from_slice(&field_bytes(9, &packed_sint64(&[1])));
    let group = field_bytes(2, &dense);
    let mut block = field_bytes(1, &st);
    block.extend_from_slice(&field_bytes(2, &group));
    block
}

fn stringtable(entries: &[&[u8]]) -> Vec<Vec<u8>> {
    entries.iter().map(|e| e.to_vec()).collect()
}

fn block_with(st: Vec<Vec<u8>>) -> PrimitiveBlockData {
    PrimitiveBlockData {
        stringtable: st,
        primitivegroup: Vec::new(),
        granularity: 100,
        lat_offset: 0,
        lon_offset: 0,
    }
}

// --- delta decoding (running sums) ----------------------------------------

#[test]
fn delta_decode_prefix_sums() {
    let deltas = vec![5i64, -3, 10, 0, -12];
    assert_eq!(decode_deltas(&deltas), vec![5, 2, 12, 12, 0]);
}

#[test]
fn delta_decode_resets_per_way() {
    let st = stringtable(&[b""]);
    let block = block_with(st);
    let way1 = WayData { id: 1, keys: vec![], vals: vec![], refs: vec![3, 4] };
    let way2 = WayData { id: 2, keys: vec![], vals: vec![], refs: vec![10, -1] };
    let w1 = Way::new(&block, &way1).unwrap();
    let w2 = Way::new(&block, &way2).unwrap();
    // each way's running sum restarts at 0
    assert_eq!(w1.nodes, vec![3, 7]);
    assert_eq!(w2.nodes, vec![10, 9]);
}

// --- dense tag segmentation ------------------------------------------------

#[test]
fn dense_tag_segmentation() {
    let entries: Vec<Vec<u8>> = (0..11).map(|i| format!("s{}", i).into_bytes()).collect();
    let block = block_with(entries);
    let dense = DenseNodesData {
        id: vec![1, 1],
        lat: vec![0, 0],
        lon: vec![0, 0],
        keys_vals: vec![5, 10, 0, 7, 2, 3, 4, 0],
    };
    let mut it = DenseNodeIterator::new(&block, &dense);
    let n1 = it.next().unwrap().unwrap();
    let n2 = it.next().unwrap().unwrap();
    assert!(it.next().is_none());
    let t1: Vec<(String, String)> =
        n1.tags.entries.iter().map(|e| (e.key.clone(), e.value.clone())).collect();
    let t2: Vec<(String, String)> =
        n2.tags.entries.iter().map(|e| (e.key.clone(), e.value.clone())).collect();
    assert_eq!(t1, vec![("s5".to_string(), "s10".to_string())]);
    assert_eq!(
        t2,
        vec![
            ("s7".to_string(), "s2".to_string()),
            ("s3".to_string(), "s4".to_string()),
        ]
    );
}

#[test]
fn dense_running_sums_and_alignment() {
    let block = block_with(stringtable(&[b""]));
    // lon array shorter: the batch ends after two steps
    let dense = DenseNodesData {
        id: vec![10, 5, 1],
        lat: vec![1, 1, 1],
        lon: vec![2, 3],
        keys_vals: vec![],
    };
    let mut it = DenseNodeIterator::new(&block, &dense);
    let n1 = it.next().unwrap().unwrap();
    let n2 = it.next().unwrap().unwrap();
    assert!(it.next().is_none());
    assert_eq!(n1.id, 10);
    assert_eq!(n2.id, 15);
    assert_eq!(n1.nano_lon, 200);
    assert_eq!(n2.nano_lon, 500);
}

// --- coordinate reconstruction ---------------------------------------------

#[test]
fn coordinate_reconstruction() {
    let st = stringtable(&[b""]);
    let block = PrimitiveBlockData {
        stringtable: st,
        primitivegroup: Vec::new(),
        granularity: 100,
        lat_offset: 1000,
        lon_offset: 0,
    };
    let tags = Tags { entries: Vec::new() };
    let n = Node::new(&block, 7, 50, 0, tags);
    assert_eq!(n.nano_lat, 6000);
    // nanodegrees to degrees
    assert_eq!(1e-9 * n.nano_lat as f64, 6e-6);
}

// --- oversized header rejection ---------------------------------------------

#[test]
fn oversized_header_rejected() {
    let mut data = 70000u32.to_be_bytes().to_vec();
    data.extend_from_slice(&[0u8; 16]);
    let mut reader = BlobReader::new(data);
    match reader.next() {
        Some(Err(OsmPbfError::OversizedBlobHeader)) => {},
        other => panic!("expected oversized header error, got {:?}", other.is_some()),
    }
    assert!(reader.next().is_none());
}

// --- unsupported codec -------------------------------------------------------

#[test]
fn raw_codec_unsupported() {
    let body = field_bytes(1, &one_dense_node_block());
    let stream = frame("OSMData", &body);
    let mut reader = BlobReader::new(stream);
    let blob = reader.next().unwrap().unwrap();
    assert_eq!(blob.decode().err(), Some(OsmPbfError::UnsupportedCompressionCodec));
}

#[test]
fn other_codec_unsupported() {
    let body = field_bytes(4, b"\x01\x02\x03");
    let stream = frame("OSMData", &body);
    let mut reader = BlobReader::new(stream);
    let blob = reader.next().unwrap().unwrap();
    assert_eq!(blob.decode().err(), Some(OsmPbfError::UnsupportedCompressionCodec));
}

// --- end-to-end stream --------------------------------------------------------

fn two_blob_stream() -> Vec<u8> {
    let mut stream = frame("OSMHeader", &[]);
    let body = zlib_body(&one_dense_node_block());
    stream.extend_from_slice(&frame("OSMData", &body));
    stream
}

#[test]
fn end_to_end_one_node() {
    let mut seen: Vec<i64> = Vec::new();
    let mut reader = OsmPbfReader::new(two_blob_stream());
    let r = reader.for_each(|e| {
        if let Element::Node(n) = e {
            seen.push(n.id);
        } else {
            panic!("unexpected element kind");
        }
    });
    assert!(r.is_ok());
    assert_eq!(seen, vec![1]);
}

// --- round-trip idempotence ----------------------------------------------------

#[test]
fn decoding_twice_is_identical() {
    let stream = two_blob_stream();
    let collect = |bytes: Vec<u8>| -> Vec<(i64, i64, i64)> {
        let mut seen = Vec::new();
        let mut reader = OsmPbfReader::new(bytes);
        reader
            .for_each(|e| {
                if let Element::Node(n) = e {
                    seen.push((n.id, n.nano_lat, n.nano_lon));
                }
            })
            .unwrap();
        seen
    };
    let first = collect(stream.clone());
    let second = collect(stream);
    assert_eq!(first, second);
    assert_eq!(first, vec![(1, 100, 100)]);
}

// --- relation member decode ------------------------------------------------------

#[test]
fn relation_member_decode() {
    let block = block_with(stringtable(&[b"", b"role"]));
    let rel = RelationData {
        id: 9,
        keys: vec![],
        vals: vec![],
        roles_sid: vec![1, 1, 1],
        memids: vec![4, 1, 1],
        types: vec![0, 1, 2],
    };
    let r = Relation::new(&block, &rel).unwrap();
    let members: Vec<ElementId> = r.members.iter().map(|m| m.member).collect();
    assert_eq!(
        members,
        vec![ElementId::Node(4), ElementId::Way(5), ElementId::Relation(6)]
    );
    assert!(r.members.iter().all(|m| m.role == "role"));
}

#[test]
fn relation_member_bad_type() {
    let block = block_with(stringtable(&[b""]));
    let rel = RelationData {
        id: 9,
        keys: vec![],
        vals: vec![],
        roles_sid: vec![0, 0],
        memids: vec![1, 1],
        types: vec![0, 7],
    };
    assert_eq!(
        Relation::new(&block, &rel).err(),
        Some(OsmPbfError::UnrecognizedRelationMemberType)
    );
}

// --- string table and tags -------------------------------------------------------

#[test]
fn stringtable_multibyte_and_errors() {
    let block = block_with(stringtable(&[b"", "caf\u{e9}".as_bytes(), b"\xff\xfe"]));
    assert_eq!(osm_pbf::elements::str_from_stringtable(&block, 1).unwrap(), "caf\u{e9}");
    assert_eq!(
        osm_pbf::elements::str_from_stringtable(&block, 2).err(),
        Some(OsmPbfError::InvalidUtf8InStringTable)
    );
    assert_eq!(
        osm_pbf::elements::str_from_stringtable(&block, 3).err(),
        Some(OsmPbfError::StringTableIndexOutOfRange)
    );
}

#[test]
fn tags_last_write_wins_in_place() {
    let block = block_with(stringtable(&[b"k", b"v1", b"v2", b"other", b"x"]));
    let keys = vec![0u32, 3, 0];
    let vals = vec![1u32, 4, 2];
    let tags = Tags::new(&block, &keys, &vals).unwrap();
    let got: Vec<(String, String)> =
        tags.entries.iter().map(|e| (e.key.clone(), e.value.clone())).collect();
    assert_eq!(
        got,
        vec![
            ("k".to_string(), "v2".to_string()),
            ("other".to_string(), "x".to_string()),
        ]
    );
}

#[test]
fn node_tag_error_propagates() {
    let block = block_with(stringtable(&[b""]));
    let nd = NodeData { id: 1, keys: vec![5], vals: vec![0], lat: 0, lon: 0 };
    assert_eq!(
        Node::from_node(&block, &nd).err(),
        Some(OsmPbfError::StringTableIndexOutOfRange)
    );
}

// --- remaining error variants ------------------------------------------------------

#[test]
fn truncated_length_prefix() {
    let mut reader = BlobReader::new(vec![0u8, 0]);
    match reader.next() {
        Some(Err(OsmPbfError::FramingReadFailure)) => {},
        _ => panic!("expected framing error"),
    }
}

#[test]
fn clean_end_of_input() {
    let mut reader = BlobReader::new(Vec::new());
    assert!(reader.next().is_none());
    assert!(reader.next().is_none());
}

#[test]
fn header_that_does_not_decode() {
    // declared length 1, header bytes = a dangling field key
    let data = vec![0u8, 0, 0, 1, 0x0a];
    let mut reader = BlobReader::new(data);
    match reader.next() {
        Some(Err(OsmPbfError::BlobHeaderDecodeFailure)) => {},
        _ => panic!("expected header decode error"),
    }
}

#[test]
fn body_over_ceiling_rejected() {
    let header = blob_header_msg("OSMData", 33 * 1024 * 1024);
    let mut data = (header.len() as u32).to_be_bytes().to_vec();
    data.extend_from_slice(&header);
    let mut reader = BlobReader::new(data);
    match reader.next() {
        Some(Err(OsmPbfError::BlobBodyDecodeFailure)) => {},
        _ => panic!("expected body decode error"),
    }
}

#[test]
fn missing_payload() {
    let blob = Blob {
        header: BlobHeaderData { kind: "OSMData".to_string(), datasize: 0 },
        blob: BlobBody { data: None },
    };
    assert_eq!(blob.decode().err(), Some(OsmPbfError::MissingBlobPayload));
}

#[test]
fn corrupt_zlib_stream() {
    let blob = Blob {
        header: BlobHeaderData { kind: "OSMData".to_string(), datasize: 4 },
        blob: BlobBody { data: Some(BlobData::Zlib(vec![1, 2, 3, 4])) },
    };
    assert_eq!(blob.decode().err(), Some(OsmPbfError::DecompressionFailure));
}

#[test]
fn schema_decode_failure() {
    // inflates fine, but is not a valid block message
    let blob = Blob {
        header: BlobHeaderData { kind: "OSMData".to_string(), datasize: 0 },
        blob: BlobBody { data: Some(BlobData::Zlib(compress(&[0xff, 0xff]))) },
    };
    assert_eq!(blob.decode().err(), Some(OsmPbfError::SchemaDecodeFailure));
}

// --- blob classification -------------------------------------------------------------

#[test]
fn blob_classification() {
    let mk = |kind: &str| Blob {
        header: BlobHeaderData { kind: kind.to_string(), datasize: 0 },
        blob: BlobBody { data: None },
    };
    assert_eq!(mk("OSMHeader").get_type().as_str(), "OSMHeader");
    assert_eq!(mk("OSMData").get_type().as_str(), "OSMData");
    match mk("Whatever").get_type() {
        BlobType::Unknown(x) => assert_eq!(x, "Whatever"),
        _ => panic!("expected unknown type"),
    }
    match mk("Whatever").decode().unwrap() {
        BlobDecode::Unknown(x) => assert_eq!(x, "Whatever"),
        _ => panic!("unknown blobs pass through"),
    }
}

// --- full wire-level block decode -----------------------------------------------------

#[test]
fn wire_level_block_with_way() {
    // string table ["", "name", "main"], one way with refs deltas [-3, 5]
    let mut st = field_bytes(1, b"");
    st.extend_from_slice(&field_bytes(1, b"name"));
    st.extend_from_slice(&field_bytes(1, b"main"));
    let mut way = field_varint(1, 42);
    way.extend_from_slice(&field_bytes(2, &varint(1)));
    way.extend_from_slice(&field_bytes(3, &varint(2)));
    way.extend_from_slice(&field_bytes(8, &packed_sint64(&[-3, 5])));
    let group = field_bytes(3, &way);
    let mut block = field_bytes(1, &st);
    block.extend_from_slice(&field_bytes(2, &group));
    let stream = frame("OSMData", &zlib_body(&block));

    let mut seen: Vec<(i64, Vec<i64>, Vec<(String, String)>)> = Vec::new();
    let mut reader = OsmPbfReader::new(stream);
    reader
        .for_each(|e| {
            if let Element::Way(w) = e {
                let tags =
                    w.tags.entries.iter().map(|t| (t.key.clone(), t.value.clone())).collect();
                seen.push((w.id, w.nodes.clone(), tags));
            }
        })
        .unwrap();
    assert_eq!(
        seen,
        vec![(42, vec![-3, 2], vec![("name".to_string(), "main".to_string())])]
    );
}

#[test]
fn facade_surfaces_element_error() {
    // a data blob whose dense node's tag key index points past the table
    let st = field_bytes(1, b"");
    let mut dense = field_bytes(1, &packed_sint64(&[1]));
    dense.extend_from_slice(&field_bytes(8, &packed_sint64(&[1])));
    dense.extend_from_slice(&field_bytes(9, &packed_sint64(&[1])));
    let mut kv = Vec::new();
    for v in [9u64, 9, 0] {
        kv.extend_from_slice(&varint(v));
    }
    dense.extend_from_slice(&field_bytes(10, &kv));
    let group = field_bytes(2, &dense);
    let mut block = field_bytes(1, &st);
    block.extend_from_slice(&field_bytes(2, &group));
    let stream = frame("OSMData", &zlib_body(&block));

    let mut reader = OsmPbfReader::new(stream);
    let r = reader.for_each(|_| {});
    assert_eq!(r, Err(OsmPbfError::StringTableIndexOutOfRange));
}
