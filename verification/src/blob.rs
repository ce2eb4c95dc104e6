//! Blob layer: framing the byte stream into length-prefixed blobs,
//! classifying each by its declared type string, and decoding a blob's
//! payload — codec selection, decompression, and the schema decode into a
//! header or data block.
use vstd::prelude::*;

use crate::block::{HeaderBlock, PrimitiveBlock};
use crate::error::OsmPbfError;
use crate::proto::{
    blob_body_of, blob_header_of, parse_blob_body, parse_blob_header, primitive_block_of,
    BlobBody, BlobBodyV, BlobData, BlobDataV, BlobHeaderData, BlobHeaderV,
};
use crate::text::str_eq;
use crate::wire::{be32_at, parse_fields, parse_fields_from, read_be32};

verus! {

/// Cap on the declared blob-header length: anything at or over it is
/// rejected before the header is read.
pub const MAX_BLOB_HEADER_SIZE: u32 = 64 * 1024;

/// Ceiling on the declared blob-body length: anything over it is rejected
/// before the body is read, so corrupt input cannot force unbounded
/// allocation.
pub const MAX_BLOB_MESSAGE_SIZE: u64 = 32 * 1024 * 1024;

pub open spec fn is_osm_header_kind(kind: Seq<char>) -> bool {
    kind == "OSMHeader"@
}

pub open spec fn is_osm_data_kind(kind: Seq<char>) -> bool {
    kind == "OSMData"@
}

/// A blob's semantic kind, read off its header's type string; an unknown
/// tag is preserved verbatim.
pub enum BlobType {
    OsmHeader,
    OsmData,
    Unknown(String),
}

impl BlobType {
    pub fn as_str(&self) -> (r: &str)
        ensures
            match self {
                BlobType::OsmHeader => r@ == "OSMHeader"@,
                BlobType::OsmData => r@ == "OSMData"@,
                BlobType::Unknown(x) => r@ == x@,
            },
    {
        match self {
            BlobType::OsmHeader => "OSMHeader",
            BlobType::OsmData => "OSMData",
            BlobType::Unknown(x) => x.as_str(),
        }
    }
}

/// A decoded blob: header metadata, a data block, or an uninterpreted
/// unknown kind.
pub enum BlobDecode {
    OsmHeader(HeaderBlock),
    OsmData(PrimitiveBlock),
    Unknown(String),
}

pub enum BlobDecodeV {
    OsmHeader(Seq<u8>),
    OsmData(crate::proto::BlockV),
    Unknown(Seq<char>),
}

/// Relies on `flate2::read::ZlibDecoder`: inflating a zlib stream is a
/// function of the compressed bytes alone; `zlib_inflate` names its result.
/// The given capacity is only the initial allocation hint.
#[verifier::external_body]
fn inflate(data: &[u8], capacity: usize) -> (r: Option<Vec<u8>>)
    ensures
        r is Some <==> zlib_inflate(data@) is Some,
        r matches Some(v) ==> zlib_inflate(data@) == Some(v@),
{
    let mut out = Vec::with_capacity(capacity);
    let mut dec = flate2::read::ZlibDecoder::new(data);
    match std::io::Read::read_to_end(&mut dec, &mut out) {
        Ok(_) => Some(out),
        Err(_) => None,
    }
}

pub uninterp spec fn zlib_inflate(s: Seq<u8>) -> Option<Seq<u8>>;

/// What a blob body decompresses to: only the zlib variant is supported;
/// a missing payload, a corrupt stream, and any other codec are distinct
/// errors.
pub open spec fn decompressed_of(body: BlobBodyV) -> Result<Seq<u8>, OsmPbfError> {
    match body.data {
        Option::None => Err(OsmPbfError::MissingBlobPayload),
        Option::Some(BlobDataV::Zlib(z)) => match zlib_inflate(z) {
            Option::None => Err(OsmPbfError::DecompressionFailure),
            Option::Some(b) => Ok(b),
        },
        Option::Some(BlobDataV::Raw(_)) => Err(OsmPbfError::UnsupportedCompressionCodec),
        Option::Some(BlobDataV::OtherCodec) => Err(OsmPbfError::UnsupportedCompressionCodec),
    }
}

fn decompress(body: &BlobBody) -> (r: Result<Vec<u8>, OsmPbfError>)
    ensures
        match decompressed_of(body@) {
            Ok(b) => r matches Ok(v) && v@ == b,
            Err(e) => r == Err::<Vec<u8>, OsmPbfError>(e),
        },
{
    match &body.data {
        None => Err(OsmPbfError::MissingBlobPayload),
        Some(BlobData::Zlib(z)) => {
            let cap: usize = if z.len() <= usize::MAX / 2 {
                2 * z.len()
            } else {
                usize::MAX
            };
            match inflate(z.as_slice(), cap) {
                Some(v) => Ok(v),
                None => Err(OsmPbfError::DecompressionFailure),
            }
        },
        Some(BlobData::Raw(_)) => Err(OsmPbfError::UnsupportedCompressionCodec),
        Some(BlobData::OtherCodec) => Err(OsmPbfError::UnsupportedCompressionCodec),
    }
}

/// What decoding a blob yields, as a function of its kind string and body:
/// header and data blobs are decompressed and schema-decoded, unknown
/// kinds pass through untouched.
pub open spec fn blob_decode_of(kind: Seq<char>, body: BlobBodyV) -> Result<
    BlobDecodeV,
    OsmPbfError,
> {
    if is_osm_header_kind(kind) {
        match decompressed_of(body) {
            Err(e) => Err(e),
            Ok(bytes) => match parse_fields_from(bytes, 0) {
                Option::None => Err(OsmPbfError::SchemaDecodeFailure),
                Option::Some(_) => Ok(BlobDecodeV::OsmHeader(bytes)),
            },
        }
    } else if is_osm_data_kind(kind) {
        match decompressed_of(body) {
            Err(e) => Err(e),
            Ok(bytes) => match primitive_block_of(bytes) {
                Option::None => Err(OsmPbfError::SchemaDecodeFailure),
                Option::Some(b) => Ok(BlobDecodeV::OsmData(b)),
            },
        }
    } else {
        Ok(BlobDecodeV::Unknown(kind))
    }
}

/// One framed container entry: its header record and its body record,
/// owned until decoded on demand.
pub struct Blob {
    pub header: BlobHeaderData,
    pub blob: BlobBody,
}

impl Blob {
    /// Classify by the header's type string.
    pub fn get_type(&self) -> (r: BlobType)
        ensures
            is_osm_header_kind(self.header.kind@) ==> r == BlobType::OsmHeader,
            !is_osm_header_kind(self.header.kind@) && is_osm_data_kind(self.header.kind@) ==> r
                == BlobType::OsmData,
            !is_osm_header_kind(self.header.kind@) && !is_osm_data_kind(self.header.kind@) ==> (
            r matches BlobType::Unknown(x) && x@ == self.header.kind@),
    {
        if str_eq(self.header.kind.as_str(), "OSMHeader") {
            BlobType::OsmHeader
        } else if str_eq(self.header.kind.as_str(), "OSMData") {
            BlobType::OsmData
        } else {
            BlobType::Unknown(self.header.kind.as_str().to_owned())
        }
    }

    /// Decode this blob: select the codec, decompress, and decode the
    /// block message.
    pub fn decode(&self) -> (r: Result<BlobDecode, OsmPbfError>)
        ensures
            match blob_decode_of(self.header.kind@, self.blob@) {
                Err(e) => r == Err::<BlobDecode, OsmPbfError>(e),
                Ok(BlobDecodeV::OsmHeader(bytes)) => r matches Ok(BlobDecode::OsmHeader(h))
                    && h.header@ == bytes,
                Ok(BlobDecodeV::OsmData(bv)) => r matches Ok(BlobDecode::OsmData(pb))
                    && pb.block@ == bv,
                Ok(BlobDecodeV::Unknown(k)) => r matches Ok(BlobDecode::Unknown(x)) && x@ == k,
            },
    {
        let t = self.get_type();
        match t {
            BlobType::OsmHeader => {
                let bytes = match decompress(&self.blob) {
                    Ok(b) => b,
                    Err(e) => { return Err(e); },
                };
                match parse_fields(bytes.as_slice()) {
                    None => Err(OsmPbfError::SchemaDecodeFailure),
                    Some(_) => Ok(BlobDecode::OsmHeader(HeaderBlock::new(bytes))),
                }
            },
            BlobType::OsmData => {
                let bytes = match decompress(&self.blob) {
                    Ok(b) => b,
                    Err(e) => { return Err(e); },
                };
                match crate::proto::parse_primitive_block(bytes.as_slice()) {
                    None => Err(OsmPbfError::SchemaDecodeFailure),
                    Some(b) => Ok(BlobDecode::OsmData(PrimitiveBlock::new(b))),
                }
            },
            BlobType::Unknown(x) => Ok(BlobDecode::Unknown(x)),
        }
    }
}

/// One framing step at `pos`: clean end of input, a framing or decode
/// error, or a blob record together with the position after it.
pub open spec fn frame_at(s: Seq<u8>, pos: int) -> Option<Result<(BlobHeaderV, BlobBodyV, int), OsmPbfError>> {
    if pos == s.len() {
        None
    } else if pos + 4 > s.len() {
        Some(Err(OsmPbfError::FramingReadFailure))
    } else {
        let l = be32_at(s, pos) as int;
        if l >= MAX_BLOB_HEADER_SIZE {
            Some(Err(OsmPbfError::OversizedBlobHeader))
        } else if pos + 4 + l > s.len() {
            Some(Err(OsmPbfError::FramingReadFailure))
        } else {
            match blob_header_of(s.subrange(pos + 4, pos + 4 + l)) {
                Option::None => Some(Err(OsmPbfError::BlobHeaderDecodeFailure)),
                Option::Some(h) => {
                    if h.datasize < 0 {
                        Some(Err(OsmPbfError::BlobHeaderDecodeFailure))
                    } else if h.datasize > MAX_BLOB_MESSAGE_SIZE {
                        Some(Err(OsmPbfError::BlobBodyDecodeFailure))
                    } else if pos + 4 + l + h.datasize > s.len() {
                        Some(Err(OsmPbfError::FramingReadFailure))
                    } else {
                        match blob_body_of(s.subrange(pos + 4 + l, pos + 4 + l + h.datasize)) {
                            Option::None => Some(Err(OsmPbfError::BlobBodyDecodeFailure)),
                            Option::Some(b) => Some(
                                Ok((h, b, pos + 4 + l + h.datasize)),
                            ),
                        }
                    }
                },
            }
        }
    }
}

/// Frames an in-memory byte region into successive blobs. The source only
/// needs sequential reads; once an error or the end is seen, every further
/// pull yields nothing.
pub struct BlobReader {
    data: Vec<u8>,
    pos: usize,
    finished: bool,
}

impl BlobReader {
    pub closed spec fn wf(&self) -> bool {
        self.pos <= self.data@.len()
    }

    pub closed spec fn data_of(&self) -> Seq<u8> {
        self.data@
    }

    pub closed spec fn pos_of(&self) -> int {
        self.pos as int
    }

    pub closed spec fn is_finished(&self) -> bool {
        self.finished
    }

    pub fn new(reader: Vec<u8>) -> (r: Self)
        ensures
            r.wf(),
            r.data_of() == reader@,
            r.pos_of() == 0,
            !r.is_finished(),
    {
        BlobReader { data: reader, pos: 0, finished: false }
    }

    pub fn next(&mut self) -> (r: Option<Result<Blob, OsmPbfError>>)
        requires
            old(self).wf(),
        ensures
            final(self).wf(),
            final(self).data_of() == old(self).data_of(),
            old(self).is_finished() ==> r is None && *final(self) == *old(self),
            !old(self).is_finished() ==> match frame_at(old(self).data_of(), old(self).pos_of()) {
                Option::None => r is None && final(self).is_finished(),
                Option::Some(Err(e)) => r == Some(Err::<Blob, OsmPbfError>(e))
                    && final(self).is_finished(),
                Option::Some(Ok(step)) => (r matches Some(br) && br matches Ok(blob)
                    && blob.header@ == step.0 && blob.blob@ == step.1) && final(self).pos_of()
                    == step.2 && !final(self).is_finished(),
            },
    {
        if self.finished {
            return None;
        }
        let n: usize = self.data.len();
        if self.pos == n {
            self.finished = true;
            return None;
        }
        if n - self.pos < 4 {
            self.finished = true;
            return Some(Err(OsmPbfError::FramingReadFailure));
        }
        let l32 = read_be32(self.data.as_slice(), self.pos);
        if l32 >= MAX_BLOB_HEADER_SIZE {
            self.finished = true;
            return Some(Err(OsmPbfError::OversizedBlobHeader));
        }
        let l = l32 as usize;
        let hdr_start = self.pos + 4;
        if n - hdr_start < l {
            self.finished = true;
            return Some(Err(OsmPbfError::FramingReadFailure));
        }
        let hdr_slice = vstd::slice::slice_subrange(self.data.as_slice(), hdr_start, hdr_start + l);
        let h = match parse_blob_header(hdr_slice) {
            None => {
                self.finished = true;
                return Some(Err(OsmPbfError::BlobHeaderDecodeFailure));
            },
            Some(h) => h,
        };
        if h.datasize < 0 {
            self.finished = true;
            return Some(Err(OsmPbfError::BlobHeaderDecodeFailure));
        }
        if h.datasize as u64 > MAX_BLOB_MESSAGE_SIZE {
            self.finished = true;
            return Some(Err(OsmPbfError::BlobBodyDecodeFailure));
        }
        let ds = h.datasize as usize;
        let body_start = hdr_start + l;
        if n - body_start < ds {
            self.finished = true;
            return Some(Err(OsmPbfError::FramingReadFailure));
        }
        let body_slice = vstd::slice::slice_subrange(
            self.data.as_slice(),
            body_start,
            body_start + ds,
        );
        let b = match parse_blob_body(body_slice) {
            None => {
                self.finished = true;
                return Some(Err(OsmPbfError::BlobBodyDecodeFailure));
            },
            Some(b) => b,
        };
        self.pos = body_start + ds;
        Some(Ok(Blob { header: h, blob: b }))
    }
}

} // verus!
