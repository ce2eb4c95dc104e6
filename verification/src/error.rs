//! Error taxonomy of the decoder: one variant per failure kind, so a caller
//! can tell framing problems, codec problems and table-lookup problems apart.
use vstd::prelude::*;

verus! {

/// Everything that can go wrong while framing or decoding a stream. Clean
/// end-of-input and empty collections are not errors and never reach this
/// type.
#[derive(Clone, Copy, Debug, PartialEq, Eq, Structural)]
pub enum OsmPbfError {
    /// The length prefix or a declared byte range runs past the input.
    FramingReadFailure,
    /// A declared blob-header length at or over the 64 KiB cap.
    OversizedBlobHeader,
    /// The blob-header record itself does not decode.
    BlobHeaderDecodeFailure,
    /// The blob body record does not decode, or its declared size is over
    /// the 32 MiB body ceiling.
    BlobBodyDecodeFailure,
    /// A blob with no payload variant at all.
    MissingBlobPayload,
    /// A payload variant other than the zlib-compressed one.
    UnsupportedCompressionCodec,
    /// The decompressed payload is not a well-formed block message.
    SchemaDecodeFailure,
    /// The decompression itself failed on a corrupt zlib stream.
    DecompressionFailure,
    /// A tag or role index at or past the end of the block's string table.
    StringTableIndexOutOfRange,
    /// A string-table entry that is not valid UTF-8.
    InvalidUtf8InStringTable,
    /// A relation member whose type value names no element kind.
    UnrecognizedRelationMemberType,
}

impl OsmPbfError {
    /// A short description, in place of a `Display` implementation.
    pub fn message(&self) -> (r: &'static str)
    {
        match self {
            OsmPbfError::FramingReadFailure => "framing read failure",
            OsmPbfError::OversizedBlobHeader => "oversized blob header",
            OsmPbfError::BlobHeaderDecodeFailure => "blob header decode failure",
            OsmPbfError::BlobBodyDecodeFailure => "blob body decode failure",
            OsmPbfError::MissingBlobPayload => "missing blob payload",
            OsmPbfError::UnsupportedCompressionCodec => "unsupported compression codec",
            OsmPbfError::SchemaDecodeFailure => "schema decode failure",
            OsmPbfError::DecompressionFailure => "decompression failure",
            OsmPbfError::StringTableIndexOutOfRange => "string table index out of range",
            OsmPbfError::InvalidUtf8InStringTable => "invalid utf-8 in string table",
            OsmPbfError::UnrecognizedRelationMemberType => "unrecognized relation member type",
        }
    }
}

pub type Result<T> = core::result::Result<T, OsmPbfError>;

} // verus!
