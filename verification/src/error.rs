use vstd::prelude::*;

verus! {

/// Why a read from a byte source failed.
#[derive(Clone, Copy, Debug, PartialEq, Eq, Structural)]
pub enum ReadError {
    /// The source ran out before the read was complete.
    UnexpectedEof,
    /// The bytes that were read are not UTF-8 text.
    InvalidUtf8,
}

/// What went wrong while a PNG stream was parsed, decoded or reconstructed.
#[derive(Clone, Copy, Debug, PartialEq, Eq, Structural)]
pub enum ErrorKind {
    /// The stream does not open with the PNG signature.
    SignatureMismatch,
    /// The stream ends inside a chunk, or the image data ends inside a row.
    UnexpectedEndOfStream,
    /// A field holds a value outside its domain, or a chunk of fixed layout
    /// has the wrong payload length.
    InvalidFieldValue,
    /// Reconstruction was asked for without a decodable header chunk.
    MissingRequiredChunk,
    /// The compressed image data is corrupt, or inflates beyond what the
    /// header declares.
    DecompressionFailure,
    /// A row starts with a filter-type byte greater than four.
    UnknownFilterType,
    /// The header asks for Adam7 interlacing, which is not reconstructed.
    UnsupportedInterlace,
}

/// An error together with the place it was found at.
///
/// `chunk_type` is the tag of the chunk at fault, where there is one.
/// `offset` is a byte offset: into the stream for container and metadata
/// errors, into the inflated image data for row errors.
#[derive(Clone, Copy, Debug, PartialEq, Eq)]
pub struct PngError {
    pub kind: ErrorKind,
    pub chunk_type: Option<[u8; 4]>,
    pub offset: usize,
}

} // verus!
