use crate::crc::{crc32, lemma_crc32_detects_byte_change, spec_crc32};
use crate::easy_br::{rest, EasyRead};
use crate::endian::{lemma_be_bytes_round_trip, spec_be_bytes, spec_u32_be, u32_be};
use crate::error::{ErrorKind, PngError};
use vstd::prelude::*;

verus! {

/// Tag of the image header chunk.
pub const IHDR: [u8; 4] = [0x49, 0x48, 0x44, 0x52];

/// Tag of the palette chunk.
pub const PLTE: [u8; 4] = [0x50, 0x4C, 0x54, 0x45];

/// Tag of the transparency chunk.
pub const TRNS: [u8; 4] = [0x74, 0x52, 0x4E, 0x53];

/// Tag of the physical pixel dimensions chunk.
pub const PHYS: [u8; 4] = [0x70, 0x48, 0x59, 0x73];

/// Tag of the standard colour space chunk.
pub const SRGB: [u8; 4] = [0x73, 0x52, 0x47, 0x42];

/// Tag of the gamma chunk.
pub const GAMA: [u8; 4] = [0x67, 0x41, 0x4D, 0x41];

/// Tag of an image data chunk.
pub const IDAT: [u8; 4] = [0x49, 0x44, 0x41, 0x54];

/// Tag of the chunk that closes the stream.
pub const IEND: [u8; 4] = [0x49, 0x45, 0x4E, 0x44];

/// The tag that the first four bytes of `s` spell.
pub open spec fn spec_tag(s: Seq<u8>) -> [u8; 4]
    recommends
        s.len() >= 4,
{
    [s[0], s[1], s[2], s[3]]
}

/// Whether two tags are the same four bytes.
pub fn same_tag(a: &[u8; 4], b: &[u8; 4]) -> (r: bool)
    ensures
        r == (*a == *b),
{
    let r = a[0] == b[0] && a[1] == b[1] && a[2] == b[2] && a[3] == b[3];
    assert(r == (*a =~= *b));
    r
}

/// One record of the container: a tagged, length-prefixed, checksummed
/// payload, and the offset in the stream at which its length field stood.
#[derive(Clone, Debug, PartialEq, Eq)]
pub struct Chunk {
    pub length: u32,
    pub chunk_type: [u8; 4],
    pub payload: Vec<u8>,
    pub crc: u32,
    pub offset: usize,
}

/// A chunk as a mathematical value.
pub struct ChunkView {
    pub length: u32,
    pub chunk_type: [u8; 4],
    pub payload: Seq<u8>,
    pub crc: u32,
    pub offset: usize,
}

impl View for Chunk {
    type V = ChunkView;

    open spec fn view(&self) -> ChunkView {
        ChunkView {
            length: self.length,
            chunk_type: self.chunk_type,
            payload: self.payload@,
            crc: self.crc,
            offset: self.offset,
        }
    }
}

impl ChunkView {
    /// The stored length is the length of the payload.
    pub open spec fn wf(self) -> bool {
        self.length == self.payload.len()
    }

    /// The stored checksum is the CRC-32 of tag and payload.
    pub open spec fn checksum_valid(self) -> bool {
        self.crc == spec_crc32(self.chunk_type@, self.payload)
    }

    /// The same chunk with byte `i` of its payload replaced by `b`.
    pub open spec fn with_payload_byte(self, i: int, b: u8) -> ChunkView {
        ChunkView { payload: self.payload.update(i, b), ..self }
    }
}

/// What stands in `s` at offset `pos`, where a chunk is expected.
///
/// Fewer than eight bytes cannot hold a chunk header: there is no chunk. A
/// header whose declared payload and checksum do not fit into what is left is
/// a truncation, reported with the chunk's tag and offset. Otherwise the
/// chunk is the header's length and tag, that many bytes of payload, and the
/// checksum behind them.
#[verifier::opaque]
pub open spec fn spec_chunk_at(s: Seq<u8>, pos: int) -> Option<Result<ChunkView, PngError>>
    recommends
        0 <= pos <= s.len(),
{
    let left = s.skip(pos);
    if s.len() - pos < 8 {
        None
    } else {
        let length = spec_u32_be(left);
        let tag = spec_tag(left.skip(4));
        if s.len() - pos - 8 < length + 4 {
            Some(
                Err(
                    PngError {
                        kind: ErrorKind::UnexpectedEndOfStream,
                        chunk_type: Some(tag),
                        offset: pos as usize,
                    },
                ),
            )
        } else {
            Some(
                Ok(
                    ChunkView {
                        length,
                        chunk_type: tag,
                        payload: left.subrange(8, 8 + length),
                        crc: spec_u32_be(left.skip(8 + length)),
                        offset: pos as usize,
                    },
                ),
            )
        }
    }
}

/// The bytes that a chunk takes in a stream: its length, its tag, its payload
/// and its checksum.
pub open spec fn spec_chunk_bytes(c: ChunkView) -> Seq<u8> {
    spec_be_bytes(c.length) + c.chunk_type@ + c.payload + spec_be_bytes(c.crc)
}

/// Where the bytes of a well-formed chunk stand in a stream, at the offset
/// that the chunk records, that chunk is read from them.
pub proof fn lemma_chunk_at_its_bytes(prefix: Seq<u8>, c: ChunkView, tail: Seq<u8>)
    requires
        c.wf(),
        c.offset == prefix.len(),
    ensures
        spec_chunk_at(prefix + spec_chunk_bytes(c) + tail, prefix.len() as int) == Some(
            Ok::<ChunkView, PngError>(c),
        ),
{
    reveal(spec_chunk_at);
    let s = prefix + spec_chunk_bytes(c) + tail;
    let left = s.skip(prefix.len() as int);
    let after_length = c.chunk_type@ + c.payload + spec_be_bytes(c.crc) + tail;
    assert(left =~= spec_be_bytes(c.length) + after_length);
    lemma_be_bytes_round_trip(c.length, after_length);
    assert(spec_tag(left.skip(4)) =~= c.chunk_type);
    assert(left.subrange(8, 8 + c.length) =~= c.payload);
    assert(left.skip(8 + c.length) =~= spec_be_bytes(c.crc) + tail);
    lemma_be_bytes_round_trip(c.crc, tail);
}

/// A chunk whose checksum is valid loses that validity when any single byte
/// of its payload is changed.
pub proof fn lemma_checksum_detects_byte_change(c: ChunkView, i: int, b: u8)
    requires
        c.checksum_valid(),
        0 <= i < c.payload.len(),
        c.payload[i] != b,
    ensures
        !c.with_payload_byte(i, b).checksum_valid(),
{
    lemma_crc32_detects_byte_change(c.chunk_type@, c.payload, i, b);
}

impl Chunk {
    /// Recomputes the CRC-32 of tag and payload and compares it with the
    /// stored one.
    pub fn validate_checksum(&self) -> (r: bool)
        ensures
            r == self@.checksum_valid(),
    {
        crc32(&self.chunk_type, self.payload.as_slice()) == self.crc
    }

    /// Reads the chunk that stands where `reader` stands.
    ///
    /// Gives `None`, without moving, where fewer than eight bytes are left.
    /// Gives the truncation error, without moving, where the declared payload
    /// and the checksum do not fit into what is left. Otherwise gives the
    /// chunk and stands behind it.
    pub fn read<R: EasyRead>(reader: &mut R) -> (r: Option<Result<Chunk, PngError>>)
        ensures
            final(reader).source() == old(reader).source(),
            match r {
                None => spec_chunk_at(old(reader).source(), old(reader).position() as int)
                    is None && final(reader).position() == old(reader).position(),
                Some(Err(e)) => spec_chunk_at(old(reader).source(), old(reader).position() as int)
                    == Some(Err::<ChunkView, PngError>(e))
                    && final(reader).position() == old(reader).position(),
                Some(Ok(c)) => spec_chunk_at(old(reader).source(), old(reader).position() as int)
                    == Some(Ok::<ChunkView, PngError>(c@))
                    && c@.wf()
                    && final(reader).position() == old(reader).position() + 12 + c@.length
                    && final(reader).position() <= old(reader).source().len(),
            },
    {
        proof {
            reveal(spec_chunk_at);
        }
        let pos = reader.stream_position();
        let ghost src = reader.source();
        let ghost left = src.skip(pos as int);
        let head = match reader.read_bytes(8) {
            Ok(head) => head,
            Err(_) => {
                return None;
            },
        };
        assert(rest(src, pos) =~= left);
        let length = u32_be(head.as_slice());
        let chunk_type = [head[4], head[5], head[6], head[7]];
        assert(chunk_type =~= spec_tag(left.skip(4)));
        assert(rest(src, (pos + 8) as usize) =~= left.skip(8));
        let payload = match reader.read_bytes(length as usize) {
            Ok(payload) => payload,
            Err(_) => {
                reader.seek(pos);
                return Some(
                    Err(
                        PngError {
                            kind: ErrorKind::UnexpectedEndOfStream,
                            chunk_type: Some(chunk_type),
                            offset: pos,
                        },
                    ),
                );
            },
        };
        assert(payload@ =~= left.subrange(8, 8 + length));
        assert(rest(src, (pos + 8 + length) as usize) =~= left.skip(8 + length));
        let crc = match reader.read_u32_be() {
            Ok(crc) => crc,
            Err(_) => {
                reader.seek(pos);
                return Some(
                    Err(
                        PngError {
                            kind: ErrorKind::UnexpectedEndOfStream,
                            chunk_type: Some(chunk_type),
                            offset: pos,
                        },
                    ),
                );
            },
        };
        Some(Ok(Chunk { length, chunk_type, payload, crc, offset: pos }))
    }

    /// Whether the chunk carries the tag `tag`.
    pub fn has_type(&self, tag: &[u8; 4]) -> (r: bool)
        ensures
            r == (self@.chunk_type == *tag),
    {
        same_tag(&self.chunk_type, tag)
    }
}

} // verus!
