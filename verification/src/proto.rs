//! The message schemas of the container: each record kind of the format is a
//! plain struct here, together with a specification-level decoder (a fold
//! over the raw field sequence) and an executable parser proved against it.
//! Later occurrences of a scalar field overwrite earlier ones; repeated
//! fields accumulate; a missing required field fails the whole record.
use vstd::prelude::*;

use crate::text::utf8_to_string;
use crate::wire::{
    fields_view, int32_of, int64_of, map_int32, map_sint64, map_uint32, packed_u64s,
    parse_fields, parse_fields_from, seq_int32, seq_sint64, seq_uint32, sint64_of,
    unzigzag, wire_packed_u64s, RawFieldV, WireValue, WireValueV,
};

verus! {

pub open spec fn opt_string_view(o: Option<String>) -> Option<Seq<char>> {
    match o {
        Option::None => Option::None,
        Option::Some(s) => Option::Some(s@),
    }
}

/// View of a table of byte strings.
pub open spec fn bytes_table_view(v: Seq<Vec<u8>>) -> Seq<Seq<u8>> {
    v.map_values(|x: Vec<u8>| x@)
}

// ---------------------------------------------------------------------------
// BlobHeader: the record after each length prefix. Field 1 is the type
// string, field 3 the byte length of the following body; both are required.
// Field 2 (index data) is ignored.
// ---------------------------------------------------------------------------

pub struct BlobHeaderData {
    pub kind: String,
    pub datasize: i32,
}

pub struct BlobHeaderV {
    pub kind: Seq<char>,
    pub datasize: i32,
}

impl View for BlobHeaderData {
    type V = BlobHeaderV;

    open spec fn view(&self) -> BlobHeaderV {
        BlobHeaderV { kind: self.kind@, datasize: self.datasize }
    }
}

pub struct BhAcc {
    pub kind: Option<Seq<char>>,
    pub datasize: Option<i32>,
}

pub open spec fn bh_field(acc: BhAcc, f: RawFieldV) -> Option<BhAcc> {
    if f.field == 1 {
        match f.value {
            WireValueV::Bytes(b) => if vstd::utf8::valid_utf8(b) {
                Some(BhAcc { kind: Some(vstd::utf8::decode_utf8(b)), datasize: acc.datasize })
            } else {
                None
            },
            _ => None,
        }
    } else if f.field == 3 {
        match f.value {
            WireValueV::Varint(n) => Some(BhAcc { kind: acc.kind, datasize: Some(int32_of(n)) }),
            _ => None,
        }
    } else {
        Some(acc)
    }
}

pub open spec fn bh_fold(acc: BhAcc, fs: Seq<RawFieldV>) -> Option<BhAcc>
    decreases fs.len(),
{
    if fs.len() == 0 {
        Some(acc)
    } else {
        match bh_field(acc, fs[0]) {
            None => None,
            Some(a) => bh_fold(a, fs.drop_first()),
        }
    }
}

/// The blob-header record a byte string decodes to, if any.
pub open spec fn blob_header_of(s: Seq<u8>) -> Option<BlobHeaderV> {
    match parse_fields_from(s, 0) {
        None => None,
        Some(fs) => match bh_fold(BhAcc { kind: None, datasize: None }, fs) {
            None => None,
            Some(a) => match (a.kind, a.datasize) {
                (Some(k), Some(d)) => Some(BlobHeaderV { kind: k, datasize: d }),
                _ => None,
            },
        },
    }
}

pub fn parse_blob_header(s: &[u8]) -> (r: Option<BlobHeaderData>)
    ensures
        match blob_header_of(s@) {
            None => r is None,
            Some(h) => r matches Some(v) && v@ == h,
        },
{
    let fields = match parse_fields(s) {
        None => { return None; },
        Some(f) => f,
    };
    let ghost fs: Seq<RawFieldV> = fields_view(fields@);
    let mut kind: Option<String> = None;
    let mut datasize: Option<i32> = None;
    let mut idx: usize = 0;
    proof {
        assert(fs.skip(0) =~= fs);
    }
    while idx < fields.len()
        invariant
            idx <= fields@.len(),
            fs == fields_view(fields@),
            parse_fields_from(s@, 0) == Some(fs),
            bh_fold(BhAcc { kind: None, datasize: None }, fs) == bh_fold(
                BhAcc { kind: opt_string_view(kind), datasize: datasize },
                fs.skip(idx as int),
            ),
        decreases fields@.len() - idx,
    {
        let f = &fields[idx];
        proof {
            assert(fs[idx as int] == fields@[idx as int]@);
            assert(fs.skip(idx as int)[0] == fs[idx as int]);
            assert(fs.skip(idx as int).drop_first() =~= fs.skip(idx as int + 1));
        }
        if f.field == 1 {
            match &f.value {
                WireValue::Bytes(b) => {
                    match utf8_to_string(b.as_slice()) {
                        None => { return None; },
                        Some(st) => { kind = Some(st); },
                    }
                },
                _ => { return None; },
            }
        } else if f.field == 3 {
            match &f.value {
                WireValue::Varint(n) => {
                    let d = #[verifier::truncate] (*n as i32);
                    datasize = Some(d);
                },
                _ => { return None; },
            }
        }
        idx += 1;
    }
    proof {
        assert(fs.skip(fields@.len() as int) =~= Seq::<RawFieldV>::empty());
    }
    match (kind, datasize) {
        (Some(k), Some(d)) => Some(BlobHeaderData { kind: k, datasize: d }),
        _ => None,
    }
}

// ---------------------------------------------------------------------------
// Blob body: at most one payload variant. Field 1 is the uncompressed
// payload, field 3 the zlib-compressed one; fields 4 through 7 are codecs
// this core does not support and are remembered only as such. Field 2, the
// declared raw size, is ignored.
// ---------------------------------------------------------------------------

pub enum BlobData {
    Raw(Vec<u8>),
    Zlib(Vec<u8>),
    OtherCodec,
}

pub enum BlobDataV {
    Raw(Seq<u8>),
    Zlib(Seq<u8>),
    OtherCodec,
}

impl View for BlobData {
    type V = BlobDataV;

    open spec fn view(&self) -> BlobDataV {
        match self {
            BlobData::Raw(b) => BlobDataV::Raw(b@),
            BlobData::Zlib(b) => BlobDataV::Zlib(b@),
            BlobData::OtherCodec => BlobDataV::OtherCodec,
        }
    }
}

pub struct BlobBody {
    pub data: Option<BlobData>,
}

pub struct BlobBodyV {
    pub data: Option<BlobDataV>,
}

impl View for BlobBody {
    type V = BlobBodyV;

    open spec fn view(&self) -> BlobBodyV {
        BlobBodyV { data: opt_blob_data_view(self.data) }
    }
}

pub open spec fn opt_blob_data_view(o: Option<BlobData>) -> Option<BlobDataV> {
    match o {
        Option::None => Option::None,
        Option::Some(d) => Option::Some(d@),
    }
}

pub open spec fn bb_field(acc: Option<BlobDataV>, f: RawFieldV) -> Option<Option<BlobDataV>> {
    if f.field == 1 {
        match f.value {
            WireValueV::Bytes(b) => Some(Some(BlobDataV::Raw(b))),
            _ => None,
        }
    } else if f.field == 3 {
        match f.value {
            WireValueV::Bytes(b) => Some(Some(BlobDataV::Zlib(b))),
            _ => None,
        }
    } else if f.field == 2 {
        match f.value {
            WireValueV::Varint(_) => Some(acc),
            _ => None,
        }
    } else if 4 <= f.field && f.field <= 7 {
        match f.value {
            WireValueV::Bytes(_) => Some(Some(BlobDataV::OtherCodec)),
            _ => None,
        }
    } else {
        Some(acc)
    }
}

pub open spec fn bb_fold(acc: Option<BlobDataV>, fs: Seq<RawFieldV>) -> Option<Option<BlobDataV>>
    decreases fs.len(),
{
    if fs.len() == 0 {
        Some(acc)
    } else {
        match bb_field(acc, fs[0]) {
            None => None,
            Some(a) => bb_fold(a, fs.drop_first()),
        }
    }
}

/// The blob-body record a byte string decodes to, if any.
pub open spec fn blob_body_of(s: Seq<u8>) -> Option<BlobBodyV> {
    match parse_fields_from(s, 0) {
        None => None,
        Some(fs) => match bb_fold(None, fs) {
            None => None,
            Some(d) => Some(BlobBodyV { data: d }),
        },
    }
}

pub fn parse_blob_body(s: &[u8]) -> (r: Option<BlobBody>)
    ensures
        match blob_body_of(s@) {
            None => r is None,
            Some(b) => r matches Some(v) && v@ == b,
        },
{
    let fields = match parse_fields(s) {
        None => { return None; },
        Some(f) => f,
    };
    let ghost fs: Seq<RawFieldV> = fields_view(fields@);
    let mut data: Option<BlobData> = None;
    let mut idx: usize = 0;
    proof {
        assert(fs.skip(0) =~= fs);
    }
    while idx < fields.len()
        invariant
            idx <= fields@.len(),
            fs == fields_view(fields@),
            parse_fields_from(s@, 0) == Some(fs),
            bb_fold(None, fs) == bb_fold(opt_blob_data_view(data), fs.skip(idx as int)),
        decreases fields@.len() - idx,
    {
        let f = &fields[idx];
        proof {
            assert(fs[idx as int] == fields@[idx as int]@);
            assert(fs.skip(idx as int)[0] == fs[idx as int]);
            assert(fs.skip(idx as int).drop_first() =~= fs.skip(idx as int + 1));
        }
        if f.field == 1 {
            match &f.value {
                WireValue::Bytes(b) => { data = Some(BlobData::Raw(b.clone())); },
                _ => { return None; },
            }
        } else if f.field == 3 {
            match &f.value {
                WireValue::Bytes(b) => { data = Some(BlobData::Zlib(b.clone())); },
                _ => { return None; },
            }
        } else if f.field == 2 {
            match &f.value {
                WireValue::Varint(_) => {},
                _ => { return None; },
            }
        } else if 4 <= f.field && f.field <= 7 {
            match &f.value {
                WireValue::Bytes(_) => { data = Some(BlobData::OtherCodec); },
                _ => { return None; },
            }
        }
        idx += 1;
    }
    proof {
        assert(fs.skip(fields@.len() as int) =~= Seq::<RawFieldV>::empty());
    }
    Some(BlobBody { data })
}

// ---------------------------------------------------------------------------
// String table: the block's deduplicated byte strings, field 1 repeated.
// ---------------------------------------------------------------------------

pub open spec fn st_field(acc: Seq<Seq<u8>>, f: RawFieldV) -> Option<Seq<Seq<u8>>> {
    if f.field == 1 {
        match f.value {
            WireValueV::Bytes(b) => Some(acc.push(b)),
            _ => None,
        }
    } else {
        Some(acc)
    }
}

pub open spec fn st_fold(acc: Seq<Seq<u8>>, fs: Seq<RawFieldV>) -> Option<Seq<Seq<u8>>>
    decreases fs.len(),
{
    if fs.len() == 0 {
        Some(acc)
    } else {
        match st_field(acc, fs[0]) {
            None => None,
            Some(a) => st_fold(a, fs.drop_first()),
        }
    }
}

/// The string table a byte string decodes to, if any.
pub open spec fn string_table_of(s: Seq<u8>) -> Option<Seq<Seq<u8>>> {
    match parse_fields_from(s, 0) {
        None => None,
        Some(fs) => st_fold(Seq::empty(), fs),
    }
}

pub fn parse_string_table(s: &[u8]) -> (r: Option<Vec<Vec<u8>>>)
    ensures
        match string_table_of(s@) {
            None => r is None,
            Some(t) => r matches Some(v) && bytes_table_view(v@) == t,
        },
{
    let fields = match parse_fields(s) {
        None => { return None; },
        Some(f) => f,
    };
    let ghost fs: Seq<RawFieldV> = fields_view(fields@);
    let mut table: Vec<Vec<u8>> = Vec::new();
    let mut idx: usize = 0;
    proof {
        assert(fs.skip(0) =~= fs);
        assert(bytes_table_view(table@) =~= Seq::<Seq<u8>>::empty());
    }
    while idx < fields.len()
        invariant
            idx <= fields@.len(),
            fs == fields_view(fields@),
            parse_fields_from(s@, 0) == Some(fs),
            st_fold(Seq::empty(), fs) == st_fold(bytes_table_view(table@), fs.skip(idx as int)),
        decreases fields@.len() - idx,
    {
        let f = &fields[idx];
        proof {
            assert(fs[idx as int] == fields@[idx as int]@);
            assert(fs.skip(idx as int)[0] == fs[idx as int]);
            assert(fs.skip(idx as int).drop_first() =~= fs.skip(idx as int + 1));
        }
        if f.field == 1 {
            match &f.value {
                WireValue::Bytes(b) => {
                    let ghost prev = table@;
                    table.push(b.clone());
                    proof {
                        assert(bytes_table_view(table@) =~= bytes_table_view(prev).push(b@));
                    }
                },
                _ => { return None; },
            }
        }
        idx += 1;
    }
    proof {
        assert(fs.skip(fields@.len() as int) =~= Seq::<RawFieldV>::empty());
    }
    Some(table)
}


// ---------------------------------------------------------------------------
// Node, in the explicit (non-dense) form: absolute sint64 id (1), lat (8)
// and lon (9), with parallel packed-uint32 tag index arrays keys (2) and
// vals (3). The info field and any unknown field are skipped.
// ---------------------------------------------------------------------------

pub struct NodeData {
    pub id: i64,
    pub keys: Vec<u32>,
    pub vals: Vec<u32>,
    pub lat: i64,
    pub lon: i64,
}

pub struct NodeV {
    pub id: i64,
    pub keys: Seq<u32>,
    pub vals: Seq<u32>,
    pub lat: i64,
    pub lon: i64,
}

impl View for NodeData {
    type V = NodeV;

    open spec fn view(&self) -> NodeV {
        NodeV { id: self.id, keys: self.keys@, vals: self.vals@, lat: self.lat, lon: self.lon }
    }
}

pub struct NodeAcc {
    pub id: Option<i64>,
    pub keys: Seq<u32>,
    pub vals: Seq<u32>,
    pub lat: Option<i64>,
    pub lon: Option<i64>,
}

pub open spec fn node_field(acc: NodeAcc, f: RawFieldV) -> Option<NodeAcc> {
    if f.field == 1 {
        match f.value {
            WireValueV::Varint(n) => Some(NodeAcc { id: Some(sint64_of(n)), keys: acc.keys, vals: acc.vals, lat: acc.lat, lon: acc.lon }),
            _ => None,
        }
    } else if f.field == 2 {
        match packed_u64s(f.value) {
            None => None,
            Some(ns) => Some(NodeAcc { id: acc.id, keys: acc.keys + seq_uint32(ns), vals: acc.vals, lat: acc.lat, lon: acc.lon }),
        }
    } else if f.field == 3 {
        match packed_u64s(f.value) {
            None => None,
            Some(ns) => Some(NodeAcc { id: acc.id, keys: acc.keys, vals: acc.vals + seq_uint32(ns), lat: acc.lat, lon: acc.lon }),
        }
    } else if f.field == 8 {
        match f.value {
            WireValueV::Varint(n) => Some(NodeAcc { id: acc.id, keys: acc.keys, vals: acc.vals, lat: Some(sint64_of(n)), lon: acc.lon }),
            _ => None,
        }
    } else if f.field == 9 {
        match f.value {
            WireValueV::Varint(n) => Some(NodeAcc { id: acc.id, keys: acc.keys, vals: acc.vals, lat: acc.lat, lon: Some(sint64_of(n)) }),
            _ => None,
        }
    } else {
        Some(acc)
    }
}

pub open spec fn node_fold(acc: NodeAcc, fs: Seq<RawFieldV>) -> Option<NodeAcc>
    decreases fs.len(),
{
    if fs.len() == 0 {
        Some(acc)
    } else {
        match node_field(acc, fs[0]) {
            None => None,
            Some(a) => node_fold(a, fs.drop_first()),
        }
    }
}

/// The explicit node record a byte string decodes to, if any.
pub open spec fn node_of(s: Seq<u8>) -> Option<NodeV> {
    match parse_fields_from(s, 0) {
        None => None,
        Some(fs) => match node_fold(NodeAcc { id: None, keys: Seq::empty(), vals: Seq::empty(), lat: None, lon: None }, fs) {
            None => None,
            Some(a) => match (a.id, a.lat, a.lon) {
                (Some(id), Some(lat), Some(lon)) => Some(NodeV { id: id, keys: a.keys, vals: a.vals, lat: lat, lon: lon }),
                _ => None,
            },
        },
    }
}

pub fn parse_node(s: &[u8]) -> (r: Option<NodeData>)
    ensures
        match node_of(s@) {
            None => r is None,
            Some(n) => r matches Some(v) && v@ == n,
        },
{
    let fields = match parse_fields(s) {
        None => { return None; },
        Some(f) => f,
    };
    let ghost fs: Seq<RawFieldV> = fields_view(fields@);
    let mut id: Option<i64> = None;
    let mut keys: Vec<u32> = Vec::new();
    let mut vals: Vec<u32> = Vec::new();
    let mut lat: Option<i64> = None;
    let mut lon: Option<i64> = None;
    let mut idx: usize = 0;
    proof {
        assert(fs.skip(0) =~= fs);
        assert(keys@ =~= Seq::<u32>::empty());
        assert(vals@ =~= Seq::<u32>::empty());
    }
    while idx < fields.len()
        invariant
            idx <= fields@.len(),
            fs == fields_view(fields@),
            parse_fields_from(s@, 0) == Some(fs),
            node_fold(NodeAcc { id: None, keys: Seq::empty(), vals: Seq::empty(), lat: None, lon: None }, fs)
                == node_fold(NodeAcc { id: id, keys: keys@, vals: vals@, lat: lat, lon: lon }, fs.skip(idx as int)),
        decreases fields@.len() - idx,
    {
        let f = &fields[idx];
        proof {
            assert(fs[idx as int] == fields@[idx as int]@);
            assert(fs.skip(idx as int)[0] == fs[idx as int]);
            assert(fs.skip(idx as int).drop_first() =~= fs.skip(idx as int + 1));
        }
        if f.field == 1 {
            match &f.value {
                WireValue::Varint(n) => { id = Some(unzigzag(*n)); },
                _ => { return None; },
            }
        } else if f.field == 2 {
            match wire_packed_u64s(&f.value) {
                None => { return None; },
                Some(ns) => {
                    let mut m = map_uint32(&ns);
                    keys.append(&mut m);
                },
            }
        } else if f.field == 3 {
            match wire_packed_u64s(&f.value) {
                None => { return None; },
                Some(ns) => {
                    let mut m = map_uint32(&ns);
                    vals.append(&mut m);
                },
            }
        } else if f.field == 8 {
            match &f.value {
                WireValue::Varint(n) => { lat = Some(unzigzag(*n)); },
                _ => { return None; },
            }
        } else if f.field == 9 {
            match &f.value {
                WireValue::Varint(n) => { lon = Some(unzigzag(*n)); },
                _ => { return None; },
            }
        }
        idx += 1;
    }
    proof {
        assert(fs.skip(fields@.len() as int) =~= Seq::<RawFieldV>::empty());
    }
    match (id, lat, lon) {
        (Some(idv), Some(latv), Some(lonv)) => Some(NodeData { id: idv, keys: keys, vals: vals, lat: latv, lon: lonv }),
        _ => None,
    }
}

// ---------------------------------------------------------------------------
// Way: int64 id (1), tag index arrays keys (2) and vals (3), delta-coded
// packed-sint64 node references refs (8).
// ---------------------------------------------------------------------------

pub struct WayData {
    pub id: i64,
    pub keys: Vec<u32>,
    pub vals: Vec<u32>,
    pub refs: Vec<i64>,
}

pub struct WayV {
    pub id: i64,
    pub keys: Seq<u32>,
    pub vals: Seq<u32>,
    pub refs: Seq<i64>,
}

impl View for WayData {
    type V = WayV;

    open spec fn view(&self) -> WayV {
        WayV { id: self.id, keys: self.keys@, vals: self.vals@, refs: self.refs@ }
    }
}

pub struct WayAcc {
    pub id: Option<i64>,
    pub keys: Seq<u32>,
    pub vals: Seq<u32>,
    pub refs: Seq<i64>,
}

pub open spec fn way_field(acc: WayAcc, f: RawFieldV) -> Option<WayAcc> {
    if f.field == 1 {
        match f.value {
            WireValueV::Varint(n) => Some(WayAcc { id: Some(int64_of(n)), keys: acc.keys, vals: acc.vals, refs: acc.refs }),
            _ => None,
        }
    } else if f.field == 2 {
        match packed_u64s(f.value) {
            None => None,
            Some(ns) => Some(WayAcc { id: acc.id, keys: acc.keys + seq_uint32(ns), vals: acc.vals, refs: acc.refs }),
        }
    } else if f.field == 3 {
        match packed_u64s(f.value) {
            None => None,
            Some(ns) => Some(WayAcc { id: acc.id, keys: acc.keys, vals: acc.vals + seq_uint32(ns), refs: acc.refs }),
        }
    } else if f.field == 8 {
        match packed_u64s(f.value) {
            None => None,
            Some(ns) => Some(WayAcc { id: acc.id, keys: acc.keys, vals: acc.vals, refs: acc.refs + seq_sint64(ns) }),
        }
    } else {
        Some(acc)
    }
}

pub open spec fn way_fold(acc: WayAcc, fs: Seq<RawFieldV>) -> Option<WayAcc>
    decreases fs.len(),
{
    if fs.len() == 0 {
        Some(acc)
    } else {
        match way_field(acc, fs[0]) {
            None => None,
            Some(a) => way_fold(a, fs.drop_first()),
        }
    }
}

/// The way record a byte string decodes to, if any.
pub open spec fn way_of(s: Seq<u8>) -> Option<WayV> {
    match parse_fields_from(s, 0) {
        None => None,
        Some(fs) => match way_fold(WayAcc { id: None, keys: Seq::empty(), vals: Seq::empty(), refs: Seq::empty() }, fs) {
            None => None,
            Some(a) => match a.id {
                Some(id) => Some(WayV { id: id, keys: a.keys, vals: a.vals, refs: a.refs }),
                None => None,
            },
        },
    }
}

pub fn parse_way(s: &[u8]) -> (r: Option<WayData>)
    ensures
        match way_of(s@) {
            None => r is None,
            Some(w) => r matches Some(v) && v@ == w,
        },
{
    let fields = match parse_fields(s) {
        None => { return None; },
        Some(f) => f,
    };
    let ghost fs: Seq<RawFieldV> = fields_view(fields@);
    let mut id: Option<i64> = None;
    let mut keys: Vec<u32> = Vec::new();
    let mut vals: Vec<u32> = Vec::new();
    let mut refs: Vec<i64> = Vec::new();
    let mut idx: usize = 0;
    proof {
        assert(fs.skip(0) =~= fs);
        assert(keys@ =~= Seq::<u32>::empty());
        assert(vals@ =~= Seq::<u32>::empty());
        assert(refs@ =~= Seq::<i64>::empty());
    }
    while idx < fields.len()
        invariant
            idx <= fields@.len(),
            fs == fields_view(fields@),
            parse_fields_from(s@, 0) == Some(fs),
            way_fold(WayAcc { id: None, keys: Seq::empty(), vals: Seq::empty(), refs: Seq::empty() }, fs)
                == way_fold(WayAcc { id: id, keys: keys@, vals: vals@, refs: refs@ }, fs.skip(idx as int)),
        decreases fields@.len() - idx,
    {
        let f = &fields[idx];
        proof {
            assert(fs[idx as int] == fields@[idx as int]@);
            assert(fs.skip(idx as int)[0] == fs[idx as int]);
            assert(fs.skip(idx as int).drop_first() =~= fs.skip(idx as int + 1));
        }
        if f.field == 1 {
            match &f.value {
                WireValue::Varint(n) => {
                    let v = #[verifier::truncate] (*n as i64);
                    id = Some(v);
                },
                _ => { return None; },
            }
        } else if f.field == 2 {
            match wire_packed_u64s(&f.value) {
                None => { return None; },
                Some(ns) => {
                    let mut m = map_uint32(&ns);
                    keys.append(&mut m);
                },
            }
        } else if f.field == 3 {
            match wire_packed_u64s(&f.value) {
                None => { return None; },
                Some(ns) => {
                    let mut m = map_uint32(&ns);
                    vals.append(&mut m);
                },
            }
        } else if f.field == 8 {
            match wire_packed_u64s(&f.value) {
                None => { return None; },
                Some(ns) => {
                    let mut m = map_sint64(&ns);
                    refs.append(&mut m);
                },
            }
        }
        idx += 1;
    }
    proof {
        assert(fs.skip(fields@.len() as int) =~= Seq::<RawFieldV>::empty());
    }
    match id {
        Some(idv) => Some(WayData { id: idv, keys: keys, vals: vals, refs: refs }),
        None => None,
    }
}

// ---------------------------------------------------------------------------
// Relation: int64 id (1), tag index arrays (2, 3), packed-int32 role
// indices (8), delta-coded packed-sint64 member ids (9), packed-int32
// member types (10).
// ---------------------------------------------------------------------------

pub struct RelationData {
    pub id: i64,
    pub keys: Vec<u32>,
    pub vals: Vec<u32>,
    pub roles_sid: Vec<i32>,
    pub memids: Vec<i64>,
    pub types: Vec<i32>,
}

pub struct RelationV {
    pub id: i64,
    pub keys: Seq<u32>,
    pub vals: Seq<u32>,
    pub roles_sid: Seq<i32>,
    pub memids: Seq<i64>,
    pub types: Seq<i32>,
}

impl View for RelationData {
    type V = RelationV;

    open spec fn view(&self) -> RelationV {
        RelationV {
            id: self.id,
            keys: self.keys@,
            vals: self.vals@,
            roles_sid: self.roles_sid@,
            memids: self.memids@,
            types: self.types@,
        }
    }
}

pub struct RelAcc {
    pub id: Option<i64>,
    pub keys: Seq<u32>,
    pub vals: Seq<u32>,
    pub roles_sid: Seq<i32>,
    pub memids: Seq<i64>,
    pub types: Seq<i32>,
}

pub open spec fn rel_field(acc: RelAcc, f: RawFieldV) -> Option<RelAcc> {
    if f.field == 1 {
        match f.value {
            WireValueV::Varint(n) => Some(RelAcc { id: Some(int64_of(n)), keys: acc.keys, vals: acc.vals, roles_sid: acc.roles_sid, memids: acc.memids, types: acc.types }),
            _ => None,
        }
    } else if f.field == 2 {
        match packed_u64s(f.value) {
            None => None,
            Some(ns) => Some(RelAcc { id: acc.id, keys: acc.keys + seq_uint32(ns), vals: acc.vals, roles_sid: acc.roles_sid, memids: acc.memids, types: acc.types }),
        }
    } else if f.field == 3 {
        match packed_u64s(f.value) {
            None => None,
            Some(ns) => Some(RelAcc { id: acc.id, keys: acc.keys, vals: acc.vals + seq_uint32(ns), roles_sid: acc.roles_sid, memids: acc.memids, types: acc.types }),
        }
    } else if f.field == 8 {
        match packed_u64s(f.value) {
            None => None,
            Some(ns) => Some(RelAcc { id: acc.id, keys: acc.keys, vals: acc.vals, roles_sid: acc.roles_sid + seq_int32(ns), memids: acc.memids, types: acc.types }),
        }
    } else if f.field == 9 {
        match packed_u64s(f.value) {
            None => None,
            Some(ns) => Some(RelAcc { id: acc.id, keys: acc.keys, vals: acc.vals, roles_sid: acc.roles_sid, memids: acc.memids + seq_sint64(ns), types: acc.types }),
        }
    } else if f.field == 10 {
        match packed_u64s(f.value) {
            None => None,
            Some(ns) => Some(RelAcc { id: acc.id, keys: acc.keys, vals: acc.vals, roles_sid: acc.roles_sid, memids: acc.memids, types: acc.types + seq_int32(ns) }),
        }
    } else {
        Some(acc)
    }
}

pub open spec fn rel_fold(acc: RelAcc, fs: Seq<RawFieldV>) -> Option<RelAcc>
    decreases fs.len(),
{
    if fs.len() == 0 {
        Some(acc)
    } else {
        match rel_field(acc, fs[0]) {
            None => None,
            Some(a) => rel_fold(a, fs.drop_first()),
        }
    }
}

/// The relation record a byte string decodes to, if any.
pub open spec fn relation_of(s: Seq<u8>) -> Option<RelationV> {
    match parse_fields_from(s, 0) {
        None => None,
        Some(fs) => match rel_fold(RelAcc { id: None, keys: Seq::empty(), vals: Seq::empty(), roles_sid: Seq::empty(), memids: Seq::empty(), types: Seq::empty() }, fs) {
            None => None,
            Some(a) => match a.id {
                Some(id) => Some(RelationV { id: id, keys: a.keys, vals: a.vals, roles_sid: a.roles_sid, memids: a.memids, types: a.types }),
                None => None,
            },
        },
    }
}

pub fn parse_relation(s: &[u8]) -> (r: Option<RelationData>)
    ensures
        match relation_of(s@) {
            None => r is None,
            Some(rv) => r matches Some(v) && v@ == rv,
        },
{
    let fields = match parse_fields(s) {
        None => { return None; },
        Some(f) => f,
    };
    let ghost fs: Seq<RawFieldV> = fields_view(fields@);
    let mut id: Option<i64> = None;
    let mut keys: Vec<u32> = Vec::new();
    let mut vals: Vec<u32> = Vec::new();
    let mut roles_sid: Vec<i32> = Vec::new();
    let mut memids: Vec<i64> = Vec::new();
    let mut types: Vec<i32> = Vec::new();
    let mut idx: usize = 0;
    proof {
        assert(fs.skip(0) =~= fs);
        assert(keys@ =~= Seq::<u32>::empty());
        assert(vals@ =~= Seq::<u32>::empty());
        assert(roles_sid@ =~= Seq::<i32>::empty());
        assert(memids@ =~= Seq::<i64>::empty());
        assert(types@ =~= Seq::<i32>::empty());
    }
    while idx < fields.len()
        invariant
            idx <= fields@.len(),
            fs == fields_view(fields@),
            parse_fields_from(s@, 0) == Some(fs),
            rel_fold(RelAcc { id: None, keys: Seq::empty(), vals: Seq::empty(), roles_sid: Seq::empty(), memids: Seq::empty(), types: Seq::empty() }, fs)
                == rel_fold(RelAcc { id: id, keys: keys@, vals: vals@, roles_sid: roles_sid@, memids: memids@, types: types@ }, fs.skip(idx as int)),
        decreases fields@.len() - idx,
    {
        let f = &fields[idx];
        proof {
            assert(fs[idx as int] == fields@[idx as int]@);
            assert(fs.skip(idx as int)[0] == fs[idx as int]);
            assert(fs.skip(idx as int).drop_first() =~= fs.skip(idx as int + 1));
        }
        if f.field == 1 {
            match &f.value {
                WireValue::Varint(n) => {
                    let v = #[verifier::truncate] (*n as i64);
                    id = Some(v);
                },
                _ => { return None; },
            }
        } else if f.field == 2 {
            match wire_packed_u64s(&f.value) {
                None => { return None; },
                Some(ns) => {
                    let mut m = map_uint32(&ns);
                    keys.append(&mut m);
                },
            }
        } else if f.field == 3 {
            match wire_packed_u64s(&f.value) {
                None => { return None; },
                Some(ns) => {
                    let mut m = map_uint32(&ns);
                    vals.append(&mut m);
                },
            }
        } else if f.field == 8 {
            match wire_packed_u64s(&f.value) {
                None => { return None; },
                Some(ns) => {
                    let mut m = map_int32(&ns);
                    roles_sid.append(&mut m);
                },
            }
        } else if f.field == 9 {
            match wire_packed_u64s(&f.value) {
                None => { return None; },
                Some(ns) => {
                    let mut m = map_sint64(&ns);
                    memids.append(&mut m);
                },
            }
        } else if f.field == 10 {
            match wire_packed_u64s(&f.value) {
                None => { return None; },
                Some(ns) => {
                    let mut m = map_int32(&ns);
                    types.append(&mut m);
                },
            }
        }
        idx += 1;
    }
    proof {
        assert(fs.skip(fields@.len() as int) =~= Seq::<RawFieldV>::empty());
    }
    match id {
        Some(idv) => Some(RelationData { id: idv, keys: keys, vals: vals, roles_sid: roles_sid, memids: memids, types: types }),
        None => None,
    }
}

// ---------------------------------------------------------------------------
// DenseNodes: the columnar batch. All arrays are delta-coded packed sint64
// (id 1, lat 8, lon 9) except keys_vals (10), packed int32. Repeated
// occurrences of the same array concatenate.
// ---------------------------------------------------------------------------

pub struct DenseNodesData {
    pub id: Vec<i64>,
    pub lat: Vec<i64>,
    pub lon: Vec<i64>,
    pub keys_vals: Vec<i32>,
}

pub struct DenseNodesV {
    pub id: Seq<i64>,
    pub lat: Seq<i64>,
    pub lon: Seq<i64>,
    pub keys_vals: Seq<i32>,
}

impl View for DenseNodesData {
    type V = DenseNodesV;

    open spec fn view(&self) -> DenseNodesV {
        DenseNodesV { id: self.id@, lat: self.lat@, lon: self.lon@, keys_vals: self.keys_vals@ }
    }
}

pub open spec fn dense_field(acc: DenseNodesV, f: RawFieldV) -> Option<DenseNodesV> {
    if f.field == 1 {
        match packed_u64s(f.value) {
            None => None,
            Some(ns) => Some(DenseNodesV { id: acc.id + seq_sint64(ns), lat: acc.lat, lon: acc.lon, keys_vals: acc.keys_vals }),
        }
    } else if f.field == 8 {
        match packed_u64s(f.value) {
            None => None,
            Some(ns) => Some(DenseNodesV { id: acc.id, lat: acc.lat + seq_sint64(ns), lon: acc.lon, keys_vals: acc.keys_vals }),
        }
    } else if f.field == 9 {
        match packed_u64s(f.value) {
            None => None,
            Some(ns) => Some(DenseNodesV { id: acc.id, lat: acc.lat, lon: acc.lon + seq_sint64(ns), keys_vals: acc.keys_vals }),
        }
    } else if f.field == 10 {
        match packed_u64s(f.value) {
            None => None,
            Some(ns) => Some(DenseNodesV { id: acc.id, lat: acc.lat, lon: acc.lon, keys_vals: acc.keys_vals + seq_int32(ns) }),
        }
    } else {
        Some(acc)
    }
}

pub open spec fn dense_fold(acc: DenseNodesV, fs: Seq<RawFieldV>) -> Option<DenseNodesV>
    decreases fs.len(),
{
    if fs.len() == 0 {
        Some(acc)
    } else {
        match dense_field(acc, fs[0]) {
            None => None,
            Some(a) => dense_fold(a, fs.drop_first()),
        }
    }
}

/// The dense batch a byte string decodes to, if any.
pub open spec fn dense_of(s: Seq<u8>) -> Option<DenseNodesV> {
    match parse_fields_from(s, 0) {
        None => None,
        Some(fs) => dense_fold(DenseNodesV { id: Seq::empty(), lat: Seq::empty(), lon: Seq::empty(), keys_vals: Seq::empty() }, fs),
    }
}

pub fn parse_dense(s: &[u8]) -> (r: Option<DenseNodesData>)
    ensures
        match dense_of(s@) {
            None => r is None,
            Some(d) => r matches Some(v) && v@ == d,
        },
{
    let fields = match parse_fields(s) {
        None => { return None; },
        Some(f) => f,
    };
    let ghost fs: Seq<RawFieldV> = fields_view(fields@);
    let mut id: Vec<i64> = Vec::new();
    let mut lat: Vec<i64> = Vec::new();
    let mut lon: Vec<i64> = Vec::new();
    let mut keys_vals: Vec<i32> = Vec::new();
    let mut idx: usize = 0;
    proof {
        assert(fs.skip(0) =~= fs);
        assert(id@ =~= Seq::<i64>::empty());
        assert(lat@ =~= Seq::<i64>::empty());
        assert(lon@ =~= Seq::<i64>::empty());
        assert(keys_vals@ =~= Seq::<i32>::empty());
    }
    while idx < fields.len()
        invariant
            idx <= fields@.len(),
            fs == fields_view(fields@),
            parse_fields_from(s@, 0) == Some(fs),
            dense_fold(DenseNodesV { id: Seq::empty(), lat: Seq::empty(), lon: Seq::empty(), keys_vals: Seq::empty() }, fs)
                == dense_fold(DenseNodesV { id: id@, lat: lat@, lon: lon@, keys_vals: keys_vals@ }, fs.skip(idx as int)),
        decreases fields@.len() - idx,
    {
        let f = &fields[idx];
        proof {
            assert(fs[idx as int] == fields@[idx as int]@);
            assert(fs.skip(idx as int)[0] == fs[idx as int]);
            assert(fs.skip(idx as int).drop_first() =~= fs.skip(idx as int + 1));
        }
        if f.field == 1 {
            match wire_packed_u64s(&f.value) {
                None => { return None; },
                Some(ns) => {
                    let mut m = map_sint64(&ns);
                    id.append(&mut m);
                },
            }
        } else if f.field == 8 {
            match wire_packed_u64s(&f.value) {
                None => { return None; },
                Some(ns) => {
                    let mut m = map_sint64(&ns);
                    lat.append(&mut m);
                },
            }
        } else if f.field == 9 {
            match wire_packed_u64s(&f.value) {
                None => { return None; },
                Some(ns) => {
                    let mut m = map_sint64(&ns);
                    lon.append(&mut m);
                },
            }
        } else if f.field == 10 {
            match wire_packed_u64s(&f.value) {
                None => { return None; },
                Some(ns) => {
                    let mut m = map_int32(&ns);
                    keys_vals.append(&mut m);
                },
            }
        }
        idx += 1;
    }
    proof {
        assert(fs.skip(fields@.len() as int) =~= Seq::<RawFieldV>::empty());
    }
    Some(DenseNodesData { id: id, lat: lat, lon: lon, keys_vals: keys_vals })
}


// ---------------------------------------------------------------------------
// PrimitiveGroup: one homogeneous batch. Nodes (1), a dense batch (2),
// ways (3) and relations (4) are all read independently; a repeated dense
// field concatenates its arrays, as merging repeated packed arrays does.
// Changesets (5) and unknown fields are skipped.
// ---------------------------------------------------------------------------

pub struct PrimitiveGroupData {
    pub nodes: Vec<NodeData>,
    pub dense: Option<DenseNodesData>,
    pub ways: Vec<WayData>,
    pub relations: Vec<RelationData>,
}

pub struct GroupV {
    pub nodes: Seq<NodeV>,
    pub dense: Option<DenseNodesV>,
    pub ways: Seq<WayV>,
    pub relations: Seq<RelationV>,
}

pub open spec fn nodes_view(v: Seq<NodeData>) -> Seq<NodeV> {
    v.map_values(|n: NodeData| n@)
}

pub open spec fn ways_view(v: Seq<WayData>) -> Seq<WayV> {
    v.map_values(|w: WayData| w@)
}

pub open spec fn relations_view(v: Seq<RelationData>) -> Seq<RelationV> {
    v.map_values(|r: RelationData| r@)
}

pub open spec fn opt_dense_view(o: Option<DenseNodesData>) -> Option<DenseNodesV> {
    match o {
        Option::None => Option::None,
        Option::Some(d) => Option::Some(d@),
    }
}

impl View for PrimitiveGroupData {
    type V = GroupV;

    open spec fn view(&self) -> GroupV {
        GroupV {
            nodes: nodes_view(self.nodes@),
            dense: opt_dense_view(self.dense),
            ways: ways_view(self.ways@),
            relations: relations_view(self.relations@),
        }
    }
}

/// Concatenate a further dense batch onto an already-present one.
pub open spec fn dense_merge(a: Option<DenseNodesV>, p: DenseNodesV) -> DenseNodesV {
    match a {
        Option::None => p,
        Option::Some(d) => DenseNodesV {
            id: d.id + p.id,
            lat: d.lat + p.lat,
            lon: d.lon + p.lon,
            keys_vals: d.keys_vals + p.keys_vals,
        },
    }
}

pub open spec fn group_field(acc: GroupV, f: RawFieldV) -> Option<GroupV> {
    if f.field == 1 {
        match f.value {
            WireValueV::Bytes(b) => match node_of(b) {
                None => None,
                Some(n) => Some(GroupV { nodes: acc.nodes.push(n), dense: acc.dense, ways: acc.ways, relations: acc.relations }),
            },
            _ => None,
        }
    } else if f.field == 2 {
        match f.value {
            WireValueV::Bytes(b) => match dense_of(b) {
                None => None,
                Some(d) => Some(GroupV { nodes: acc.nodes, dense: Some(dense_merge(acc.dense, d)), ways: acc.ways, relations: acc.relations }),
            },
            _ => None,
        }
    } else if f.field == 3 {
        match f.value {
            WireValueV::Bytes(b) => match way_of(b) {
                None => None,
                Some(w) => Some(GroupV { nodes: acc.nodes, dense: acc.dense, ways: acc.ways.push(w), relations: acc.relations }),
            },
            _ => None,
        }
    } else if f.field == 4 {
        match f.value {
            WireValueV::Bytes(b) => match relation_of(b) {
                None => None,
                Some(r) => Some(GroupV { nodes: acc.nodes, dense: acc.dense, ways: acc.ways, relations: acc.relations.push(r) }),
            },
            _ => None,
        }
    } else {
        Some(acc)
    }
}

pub open spec fn group_fold(acc: GroupV, fs: Seq<RawFieldV>) -> Option<GroupV>
    decreases fs.len(),
{
    if fs.len() == 0 {
        Some(acc)
    } else {
        match group_field(acc, fs[0]) {
            None => None,
            Some(a) => group_fold(a, fs.drop_first()),
        }
    }
}

/// The group record a byte string decodes to, if any.
pub open spec fn group_of(s: Seq<u8>) -> Option<GroupV> {
    match parse_fields_from(s, 0) {
        None => None,
        Some(fs) => group_fold(GroupV { nodes: Seq::empty(), dense: None, ways: Seq::empty(), relations: Seq::empty() }, fs),
    }
}

pub fn parse_group(s: &[u8]) -> (r: Option<PrimitiveGroupData>)
    ensures
        match group_of(s@) {
            None => r is None,
            Some(g) => r matches Some(v) && v@ == g,
        },
{
    let fields = match parse_fields(s) {
        None => { return None; },
        Some(f) => f,
    };
    let ghost fs: Seq<RawFieldV> = fields_view(fields@);
    let mut nodes: Vec<NodeData> = Vec::new();
    let mut dense: Option<DenseNodesData> = None;
    let mut ways: Vec<WayData> = Vec::new();
    let mut relations: Vec<RelationData> = Vec::new();
    let mut idx: usize = 0;
    proof {
        assert(fs.skip(0) =~= fs);
        assert(nodes_view(nodes@) =~= Seq::<NodeV>::empty());
        assert(ways_view(ways@) =~= Seq::<WayV>::empty());
        assert(relations_view(relations@) =~= Seq::<RelationV>::empty());
    }
    while idx < fields.len()
        invariant
            idx <= fields@.len(),
            fs == fields_view(fields@),
            parse_fields_from(s@, 0) == Some(fs),
            group_fold(GroupV { nodes: Seq::empty(), dense: None, ways: Seq::empty(), relations: Seq::empty() }, fs)
                == group_fold(GroupV { nodes: nodes_view(nodes@), dense: opt_dense_view(dense), ways: ways_view(ways@), relations: relations_view(relations@) }, fs.skip(idx as int)),
        decreases fields@.len() - idx,
    {
        let f = &fields[idx];
        proof {
            assert(fs[idx as int] == fields@[idx as int]@);
            assert(fs.skip(idx as int)[0] == fs[idx as int]);
            assert(fs.skip(idx as int).drop_first() =~= fs.skip(idx as int + 1));
        }
        if f.field == 1 {
            match &f.value {
                WireValue::Bytes(b) => {
                    match parse_node(b.as_slice()) {
                        None => { return None; },
                        Some(n) => {
                            let ghost prev = nodes@;
                            nodes.push(n);
                            proof {
                                assert(nodes_view(nodes@) =~= nodes_view(prev).push(n@));
                            }
                        },
                    }
                },
                _ => { return None; },
            }
        } else if f.field == 2 {
            match &f.value {
                WireValue::Bytes(b) => {
                    match parse_dense(b.as_slice()) {
                        None => { return None; },
                        Some(p) => {
                            let ghost prevd = opt_dense_view(dense);
                            let ghost pv = p@;
                            let merged: DenseNodesData = match dense {
                                None => p,
                                Some(d) => {
                                    let mut d2 = d;
                                    let mut p2 = p;
                                    d2.id.append(&mut p2.id);
                                    d2.lat.append(&mut p2.lat);
                                    d2.lon.append(&mut p2.lon);
                                    d2.keys_vals.append(&mut p2.keys_vals);
                                    d2
                                },
                            };
                            proof {
                                assert(merged@ == dense_merge(prevd, pv));
                            }
                            dense = Some(merged);
                        },
                    }
                },
                _ => { return None; },
            }
        } else if f.field == 3 {
            match &f.value {
                WireValue::Bytes(b) => {
                    match parse_way(b.as_slice()) {
                        None => { return None; },
                        Some(w) => {
                            let ghost prev = ways@;
                            ways.push(w);
                            proof {
                                assert(ways_view(ways@) =~= ways_view(prev).push(w@));
                            }
                        },
                    }
                },
                _ => { return None; },
            }
        } else if f.field == 4 {
            match &f.value {
                WireValue::Bytes(b) => {
                    match parse_relation(b.as_slice()) {
                        None => { return None; },
                        Some(rl) => {
                            let ghost prev = relations@;
                            relations.push(rl);
                            proof {
                                assert(relations_view(relations@) =~= relations_view(prev).push(rl@));
                            }
                        },
                    }
                },
                _ => { return None; },
            }
        }
        idx += 1;
    }
    proof {
        assert(fs.skip(fields@.len() as int) =~= Seq::<RawFieldV>::empty());
    }
    Some(PrimitiveGroupData { nodes: nodes, dense: dense, ways: ways, relations: relations })
}

// ---------------------------------------------------------------------------
// PrimitiveBlock: the string table (1, required), the groups (2), and the
// block-scoped coordinate constants: granularity (17, default 100),
// lat_offset (19) and lon_offset (20), both defaulting to 0. Repeated
// string-table fields concatenate; date_granularity (18) and unknown
// fields are skipped.
// ---------------------------------------------------------------------------

pub struct PrimitiveBlockData {
    pub stringtable: Vec<Vec<u8>>,
    pub primitivegroup: Vec<PrimitiveGroupData>,
    pub granularity: i32,
    pub lat_offset: i64,
    pub lon_offset: i64,
}

pub struct BlockV {
    pub stringtable: Seq<Seq<u8>>,
    pub primitivegroup: Seq<GroupV>,
    pub granularity: i32,
    pub lat_offset: i64,
    pub lon_offset: i64,
}

pub open spec fn groups_view(v: Seq<PrimitiveGroupData>) -> Seq<GroupV> {
    v.map_values(|g: PrimitiveGroupData| g@)
}

impl View for PrimitiveBlockData {
    type V = BlockV;

    open spec fn view(&self) -> BlockV {
        BlockV {
            stringtable: bytes_table_view(self.stringtable@),
            primitivegroup: groups_view(self.primitivegroup@),
            granularity: self.granularity,
            lat_offset: self.lat_offset,
            lon_offset: self.lon_offset,
        }
    }
}

pub struct BlockAcc {
    pub stringtable: Option<Seq<Seq<u8>>>,
    pub primitivegroup: Seq<GroupV>,
    pub granularity: Option<i32>,
    pub lat_offset: Option<i64>,
    pub lon_offset: Option<i64>,
}

pub open spec fn block_field(acc: BlockAcc, f: RawFieldV) -> Option<BlockAcc> {
    if f.field == 1 {
        match f.value {
            WireValueV::Bytes(b) => match string_table_of(b) {
                None => None,
                Some(t) => {
                    let merged = match acc.stringtable {
                        Option::None => t,
                        Option::Some(old_t) => old_t + t,
                    };
                    Some(BlockAcc { stringtable: Some(merged), primitivegroup: acc.primitivegroup, granularity: acc.granularity, lat_offset: acc.lat_offset, lon_offset: acc.lon_offset })
                },
            },
            _ => None,
        }
    } else if f.field == 2 {
        match f.value {
            WireValueV::Bytes(b) => match group_of(b) {
                None => None,
                Some(g) => Some(BlockAcc { stringtable: acc.stringtable, primitivegroup: acc.primitivegroup.push(g), granularity: acc.granularity, lat_offset: acc.lat_offset, lon_offset: acc.lon_offset }),
            },
            _ => None,
        }
    } else if f.field == 17 {
        match f.value {
            WireValueV::Varint(n) => Some(BlockAcc { stringtable: acc.stringtable, primitivegroup: acc.primitivegroup, granularity: Some(int32_of(n)), lat_offset: acc.lat_offset, lon_offset: acc.lon_offset }),
            _ => None,
        }
    } else if f.field == 19 {
        match f.value {
            WireValueV::Varint(n) => Some(BlockAcc { stringtable: acc.stringtable, primitivegroup: acc.primitivegroup, granularity: acc.granularity, lat_offset: Some(int64_of(n)), lon_offset: acc.lon_offset }),
            _ => None,
        }
    } else if f.field == 20 {
        match f.value {
            WireValueV::Varint(n) => Some(BlockAcc { stringtable: acc.stringtable, primitivegroup: acc.primitivegroup, granularity: acc.granularity, lat_offset: acc.lat_offset, lon_offset: Some(int64_of(n)) }),
            _ => None,
        }
    } else {
        Some(acc)
    }
}

pub open spec fn block_fold(acc: BlockAcc, fs: Seq<RawFieldV>) -> Option<BlockAcc>
    decreases fs.len(),
{
    if fs.len() == 0 {
        Some(acc)
    } else {
        match block_field(acc, fs[0]) {
            None => None,
            Some(a) => block_fold(a, fs.drop_first()),
        }
    }
}

/// The data block a byte string decodes to, if any: the string table is
/// required, granularity defaults to 100, both offsets to 0.
pub open spec fn primitive_block_of(s: Seq<u8>) -> Option<BlockV> {
    match parse_fields_from(s, 0) {
        None => None,
        Some(fs) => match block_fold(BlockAcc { stringtable: None, primitivegroup: Seq::empty(), granularity: None, lat_offset: None, lon_offset: None }, fs) {
            None => None,
            Some(a) => match a.stringtable {
                Some(st) => Some(BlockV {
                    stringtable: st,
                    primitivegroup: a.primitivegroup,
                    granularity: match a.granularity {
                        Option::None => 100i32,
                        Option::Some(g) => g,
                    },
                    lat_offset: match a.lat_offset {
                        Option::None => 0i64,
                        Option::Some(x) => x,
                    },
                    lon_offset: match a.lon_offset {
                        Option::None => 0i64,
                        Option::Some(x) => x,
                    },
                }),
                None => None,
            },
        },
    }
}

pub open spec fn opt_table_view(o: Option<Vec<Vec<u8>>>) -> Option<Seq<Seq<u8>>> {
    match o {
        Option::None => Option::None,
        Option::Some(t) => Option::Some(bytes_table_view(t@)),
    }
}

pub fn parse_primitive_block(s: &[u8]) -> (r: Option<PrimitiveBlockData>)
    ensures
        match primitive_block_of(s@) {
            None => r is None,
            Some(b) => r matches Some(v) && v@ == b,
        },
{
    let fields = match parse_fields(s) {
        None => { return None; },
        Some(f) => f,
    };
    let ghost fs: Seq<RawFieldV> = fields_view(fields@);
    let mut stringtable: Option<Vec<Vec<u8>>> = None;
    let mut groups: Vec<PrimitiveGroupData> = Vec::new();
    let mut granularity: Option<i32> = None;
    let mut lat_offset: Option<i64> = None;
    let mut lon_offset: Option<i64> = None;
    let mut idx: usize = 0;
    proof {
        assert(fs.skip(0) =~= fs);
        assert(groups_view(groups@) =~= Seq::<GroupV>::empty());
    }
    while idx < fields.len()
        invariant
            idx <= fields@.len(),
            fs == fields_view(fields@),
            parse_fields_from(s@, 0) == Some(fs),
            block_fold(BlockAcc { stringtable: None, primitivegroup: Seq::empty(), granularity: None, lat_offset: None, lon_offset: None }, fs)
                == block_fold(BlockAcc { stringtable: opt_table_view(stringtable), primitivegroup: groups_view(groups@), granularity: granularity, lat_offset: lat_offset, lon_offset: lon_offset }, fs.skip(idx as int)),
        decreases fields@.len() - idx,
    {
        let f = &fields[idx];
        proof {
            assert(fs[idx as int] == fields@[idx as int]@);
            assert(fs.skip(idx as int)[0] == fs[idx as int]);
            assert(fs.skip(idx as int).drop_first() =~= fs.skip(idx as int + 1));
        }
        if f.field == 1 {
            match &f.value {
                WireValue::Bytes(b) => {
                    match parse_string_table(b.as_slice()) {
                        None => { return None; },
                        Some(t) => {
                            let ghost prev = opt_table_view(stringtable);
                            let ghost tv = bytes_table_view(t@);
                            let merged: Vec<Vec<u8>> = match stringtable {
                                None => t,
                                Some(old_t) => {
                                    let mut o2 = old_t;
                                    let mut t2 = t;
                                    o2.append(&mut t2);
                                    o2
                                },
                            };
                            proof {
                                match prev {
                                    Option::None => {
                                        assert(bytes_table_view(merged@) == tv);
                                    },
                                    Option::Some(pv) => {
                                        assert(bytes_table_view(merged@) =~= pv + tv);
                                    },
                                }
                            }
                            stringtable = Some(merged);
                        },
                    }
                },
                _ => { return None; },
            }
        } else if f.field == 2 {
            match &f.value {
                WireValue::Bytes(b) => {
                    match parse_group(b.as_slice()) {
                        None => { return None; },
                        Some(g) => {
                            let ghost prev = groups@;
                            groups.push(g);
                            proof {
                                assert(groups_view(groups@) =~= groups_view(prev).push(g@));
                            }
                        },
                    }
                },
                _ => { return None; },
            }
        } else if f.field == 17 {
            match &f.value {
                WireValue::Varint(n) => {
                    let v = #[verifier::truncate] (*n as i32);
                    granularity = Some(v);
                },
                _ => { return None; },
            }
        } else if f.field == 19 {
            match &f.value {
                WireValue::Varint(n) => {
                    let v = #[verifier::truncate] (*n as i64);
                    lat_offset = Some(v);
                },
                _ => { return None; },
            }
        } else if f.field == 20 {
            match &f.value {
                WireValue::Varint(n) => {
                    let v = #[verifier::truncate] (*n as i64);
                    lon_offset = Some(v);
                },
                _ => { return None; },
            }
        }
        idx += 1;
    }
    proof {
        assert(fs.skip(fields@.len() as int) =~= Seq::<RawFieldV>::empty());
    }
    let st = match stringtable {
        None => { return None; },
        Some(t) => t,
    };
    let g: i32 = match granularity {
        None => 100,
        Some(x) => x,
    };
    let lato: i64 = match lat_offset {
        None => 0,
        Some(x) => x,
    };
    let lono: i64 = match lon_offset {
        None => 0,
        Some(x) => x,
    };
    Some(PrimitiveBlockData { stringtable: st, primitivegroup: groups, granularity: g, lat_offset: lato, lon_offset: lono })
}

} // verus!
