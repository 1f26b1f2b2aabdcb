use crate::chunk::{
    spec_chunk_at, Chunk, ChunkView, GAMA, IEND, IHDR, PHYS, PLTE, SRGB, TRNS,
};
use crate::easy_br::{ByteCursor, EasyRead};
use crate::error::{ErrorKind, PngError};
use crate::metadata::{
    ColorSpace, ColorType, Gamma, ImageHeader, Palette, PhysicalDimensions, Rgb, Transparency,
    TransparencyView,
};
use vstd::prelude::*;

verus! {

/// The eight bytes that open every PNG stream.
pub const SIGNATURE: [u8; 8] = [0x89, 0x50, 0x4E, 0x47, 0x0D, 0x0A, 0x1A, 0x0A];

/// A parsed stream: its chunks in the order in which they stood, and the
/// bytes behind the last of them: whatever follows the closing chunk, or a
/// tail too short to hold a chunk header.
#[derive(Clone, Debug, PartialEq, Eq)]
pub struct Png {
    pub chunks: Vec<Chunk>,
    pub extra_bytes: Vec<u8>,
}

/// A parsed stream as a mathematical value.
pub struct PngView {
    pub chunks: Seq<ChunkView>,
    pub extra_bytes: Seq<u8>,
}

/// The views of a sequence of chunks, in order.
pub open spec fn chunk_views(chunks: Seq<Chunk>) -> Seq<ChunkView> {
    Seq::new(chunks.len(), |i: int| chunks[i]@)
}

impl View for Png {
    type V = PngView;

    open spec fn view(&self) -> PngView {
        PngView { chunks: chunk_views(self.chunks@), extra_bytes: self.extra_bytes@ }
    }
}

/// `r` with the chunks `front` put before its own.
pub open spec fn prepend(front: Seq<ChunkView>, r: Result<PngView, PngError>) -> Result<
    PngView,
    PngError,
> {
    match r {
        Ok(p) => Ok(PngView { chunks: front + p.chunks, extra_bytes: p.extra_bytes }),
        Err(e) => Err(e),
    }
}

/// What the chunk records of `s` from offset `pos` on parse to.
///
/// The parse takes chunk after chunk and ends behind the closing chunk, or
/// where fewer than eight bytes are left. Whatever stands from there on
/// becomes the extra bytes (none at a clean end). A chunk cut short before
/// that ends the parse with its truncation error.
pub open spec fn spec_parse_chunks(s: Seq<u8>, pos: int) -> Result<PngView, PngError>
    recommends
        0 <= pos <= s.len(),
    decreases s.len() - pos,
    via spec_parse_chunks_ends
{
    match spec_chunk_at(s, pos) {
        None => Ok(PngView { chunks: Seq::empty(), extra_bytes: s.skip(pos) }),
        Some(Err(e)) => Err(e),
        Some(Ok(c)) => if c.chunk_type == IEND {
            Ok(PngView { chunks: seq![c], extra_bytes: s.skip(pos + 12 + c.length) })
        } else {
            prepend(seq![c], spec_parse_chunks(s, pos + 12 + c.length))
        },
    }
}

/// A chunk that is read lies within the stream, so each step of the parse
/// leaves less of it.
#[via_fn]
proof fn spec_parse_chunks_ends(s: Seq<u8>, pos: int) {
    reveal(spec_chunk_at);
}

/// What the stream `s` parses to when read from offset `start`: a signature
/// mismatch unless the next eight bytes are the signature, else the chunks
/// that follow it.
pub open spec fn spec_parse(s: Seq<u8>, start: int) -> Result<PngView, PngError>
    recommends
        0 <= start,
{
    if s.len() - start < 8 || s.subrange(start, start + 8) != SIGNATURE@ {
        Err(
            PngError {
                kind: ErrorKind::SignatureMismatch,
                chunk_type: None,
                offset: start as usize,
            },
        )
    } else {
        spec_parse_chunks(s, start + 8)
    }
}

/// The first chunk of `chunks` that carries the tag `tag`.
pub open spec fn first_tagged(chunks: Seq<ChunkView>, tag: [u8; 4]) -> Option<ChunkView>
    decreases chunks.len(),
{
    if chunks.len() == 0 {
        None
    } else if chunks[0].chunk_type == tag {
        Some(chunks[0])
    } else {
        first_tagged(chunks.drop_first(), tag)
    }
}

/// `first_tagged` is the chunk at `k` as soon as no chunk before `k` carries
/// the tag and `k` is the end of the sequence or the place of one that does.
pub proof fn lemma_first_tagged(chunks: Seq<ChunkView>, tag: [u8; 4], k: int)
    requires
        0 <= k <= chunks.len(),
        forall|j: int| 0 <= j < k ==> chunks[j].chunk_type != tag,
        k == chunks.len() || chunks[k].chunk_type == tag,
    ensures
        first_tagged(chunks, tag) == if k == chunks.len() {
            None
        } else {
            Some(chunks[k])
        },
    decreases k,
{
    if k > 0 {
        let tail = chunks.drop_first();
        assert forall|j: int| 0 <= j < k - 1 implies tail[j].chunk_type != tag by {
            assert(tail[j] == chunks[j + 1]);
        }
        lemma_first_tagged(tail, tag, k - 1);
    }
}

impl PngView {
    /// Every chunk records the length that its payload has.
    pub open spec fn wf(self) -> bool {
        forall|i: int| 0 <= i < self.chunks.len() ==> (#[trigger] self.chunks[i]).wf()
    }

    /// No chunk but the first carries the header tag.
    pub open spec fn header_first(self) -> bool {
        forall|i: int| 0 < i < self.chunks.len() ==> self.chunks[i].chunk_type != IHDR
    }

    /// A palette stands where the colour type needs one, and none where the
    /// colour type forbids it: needed for palette images, forbidden for
    /// greyscale with or without alpha.
    pub open spec fn palette_fits(self, color_type: ColorType) -> bool {
        let present = first_tagged(self.chunks, PLTE) is Some;
        match color_type {
            ColorType::Palette => present,
            ColorType::Grayscale | ColorType::GrayscaleAlpha => !present,
            _ => true,
        }
    }

    /// The header: absent where no chunk carries its tag, else what the first
    /// such chunk decodes to.
    pub open spec fn ihdr(self) -> Result<Option<ImageHeader>, PngError> {
        match first_tagged(self.chunks, IHDR) {
            None => Ok(None),
            Some(c) => match ImageHeader::spec_decode(c) {
                Ok(h) => Ok(Some(h)),
                Err(e) => Err(e),
            },
        }
    }

    /// The palette: absent where no chunk carries its tag, else what the
    /// first such chunk decodes to.
    pub open spec fn plte(self) -> Result<Option<Seq<Rgb>>, PngError> {
        match first_tagged(self.chunks, PLTE) {
            None => Ok(None),
            Some(c) => match Palette::spec_decode(c) {
                Ok(p) => Ok(Some(p)),
                Err(e) => Err(e),
            },
        }
    }

    /// The transparency of an image of the given colour type: absent where no
    /// chunk carries its tag, else what the first such chunk decodes to.
    pub open spec fn trns(self, color_type: ColorType) -> Result<
        Option<TransparencyView>,
        PngError,
    > {
        match first_tagged(self.chunks, TRNS) {
            None => Ok(None),
            Some(c) => match Transparency::spec_decode(c, color_type) {
                Ok(t) => Ok(Some(t)),
                Err(e) => Err(e),
            },
        }
    }

    /// The physical pixel dimensions: absent where no chunk carries their
    /// tag, else what the first such chunk decodes to.
    pub open spec fn phys(self) -> Result<Option<PhysicalDimensions>, PngError> {
        match first_tagged(self.chunks, PHYS) {
            None => Ok(None),
            Some(c) => match PhysicalDimensions::spec_decode(c) {
                Ok(d) => Ok(Some(d)),
                Err(e) => Err(e),
            },
        }
    }

    /// The rendering intent: absent where no chunk carries its tag, else what
    /// the first such chunk decodes to.
    pub open spec fn srgb(self) -> Result<Option<ColorSpace>, PngError> {
        match first_tagged(self.chunks, SRGB) {
            None => Ok(None),
            Some(c) => match ColorSpace::spec_decode(c) {
                Ok(s) => Ok(Some(s)),
                Err(e) => Err(e),
            },
        }
    }

    /// The gamma: absent where no chunk carries its tag, else what the first
    /// such chunk decodes to.
    pub open spec fn gama(self) -> Result<Option<Gamma>, PngError> {
        match first_tagged(self.chunks, GAMA) {
            None => Ok(None),
            Some(c) => match Gamma::spec_decode(c) {
                Ok(g) => Ok(Some(g)),
                Err(e) => Err(e),
            },
        }
    }
}

/// Whether `bytes` are the signature.
fn is_signature(bytes: &Vec<u8>) -> (r: bool)
    requires
        bytes.len() == 8,
    ensures
        r == (bytes@ == SIGNATURE@),
{
    let r = bytes[0] == 0x89 && bytes[1] == 0x50 && bytes[2] == 0x4E && bytes[3] == 0x47
        && bytes[4] == 0x0D && bytes[5] == 0x0A && bytes[6] == 0x1A && bytes[7] == 0x0A;
    assert(r == (bytes@ =~= SIGNATURE@));
    r
}

impl Png {
    /// Parses a stream from where `reader` stands.
    ///
    /// On success the reader stands at the end of its source; on failure it
    /// stands where it stood before.
    pub fn parse<R: EasyRead>(reader: &mut R) -> (r: Result<Png, PngError>)
        ensures
            final(reader).source() == old(reader).source(),
            match r {
                Ok(p) => spec_parse(old(reader).source(), old(reader).position() as int) == Ok::<
                    PngView,
                    PngError,
                >(p@) && p@.wf() && final(reader).position() == old(reader).source().len(),
                Err(e) => spec_parse(old(reader).source(), old(reader).position() as int) == Err::<
                    PngView,
                    PngError,
                >(e) && final(reader).position() == old(reader).position(),
            },
    {
        let start = reader.stream_position();
        let ghost src = reader.source();
        let magic = match reader.read_bytes(8) {
            Ok(magic) => magic,
            Err(_) => {
                return Err(
                    PngError {
                        kind: ErrorKind::SignatureMismatch,
                        chunk_type: None,
                        offset: start,
                    },
                );
            },
        };
        assert(magic@ =~= src.subrange(start as int, start + 8));
        if !is_signature(&magic) {
            reader.seek(start);
            return Err(
                PngError { kind: ErrorKind::SignatureMismatch, chunk_type: None, offset: start },
            );
        }
        let mut chunks: Vec<Chunk> = Vec::new();
        loop
            invariant
                src == old(reader).source(),
                reader.source() == src,
                start == old(reader).position(),
                start + 8 <= reader.position() <= src.len(),
                forall|i: int| 0 <= i < chunks@.len() ==> (#[trigger] chunks@[i])@.wf(),
                spec_parse(src, start as int) == prepend(
                    chunk_views(chunks@),
                    spec_parse_chunks(src, reader.position() as int),
                ),
            decreases src.len() - reader.position(),
        {
            let ghost pos = reader.position() as int;
            let ghost front = chunk_views(chunks@);
            match Chunk::read(reader) {
                None => {
                    let extra_bytes = reader.read_to_end();
                    let png = Png { chunks, extra_bytes };
                    assert(png@.chunks =~= front + Seq::<ChunkView>::empty());
                    assert(png@.extra_bytes =~= src.skip(pos));
                    return Ok(png);
                },
                Some(Err(e)) => {
                    reader.seek(start);
                    return Err(e);
                },
                Some(Ok(chunk)) => {
                    let last = chunk.has_type(&IEND);
                    proof {
                        assert(chunk_views(chunks@.push(chunk)) =~= front + seq![chunk@]);
                        if !last {
                            let tail = spec_parse_chunks(src, pos + 12 + chunk@.length);
                            assert(spec_parse_chunks(src, pos) == prepend(seq![chunk@], tail));
                            match tail {
                                Ok(p) => {
                                    assert(front + (seq![chunk@] + p.chunks) =~= (front + seq![
                                        chunk@,
                                    ]) + p.chunks);
                                },
                                Err(_) => {},
                            }
                        }
                    }
                    chunks.push(chunk);
                    if last {
                        let ghost behind = reader.position() as int;
                        let extra_bytes = reader.read_to_end();
                        let png = Png { chunks, extra_bytes };
                        assert(png@.extra_bytes =~= src.skip(behind));
                        return Ok(png);
                    }
                },
            }
        }
    }

    /// The index of the first chunk that carries the tag `tag`.
    pub fn find_chunk(&self, tag: &[u8; 4]) -> (r: Option<usize>)
        ensures
            match r {
                Some(i) => i < self.chunks@.len() && self@.chunks[i as int].chunk_type == *tag
                    && first_tagged(self@.chunks, *tag) == Some(self.chunks@[i as int]@)
                    && forall|j: int| 0 <= j < i ==> self@.chunks[j].chunk_type != *tag,
                None => first_tagged(self@.chunks, *tag) is None
                    && forall|j: int|
                    0 <= j < self@.chunks.len() ==> self@.chunks[j].chunk_type != *tag,
            },
    {
        let mut i: usize = 0;
        while i < self.chunks.len()
            invariant
                i <= self.chunks@.len(),
                forall|j: int| 0 <= j < i ==> self@.chunks[j].chunk_type != *tag,
            decreases self.chunks.len() - i,
        {
            if self.chunks[i].has_type(tag) {
                proof {
                    lemma_first_tagged(self@.chunks, *tag, i as int);
                }
                return Some(i);
            }
            i += 1;
        }
        proof {
            lemma_first_tagged(self@.chunks, *tag, i as int);
        }
        None
    }

    /// Whether no chunk but the first carries the header tag.
    pub fn header_is_first(&self) -> (r: bool)
        ensures
            r == self@.header_first(),
    {
        let mut i: usize = 1;
        while i < self.chunks.len()
            invariant
                1 <= i,
                forall|j: int| 0 < j < i && j < self@.chunks.len() ==> self@.chunks[j].chunk_type
                    != IHDR,
            decreases self.chunks.len() - i,
        {
            if self.chunks[i].has_type(&IHDR) {
                assert(self@.chunks[i as int].chunk_type == IHDR);
                return false;
            }
            i += 1;
        }
        true
    }

    /// Whether a palette stands where an image of the given colour type
    /// needs one, and none where it forbids one.
    pub fn palette_fits(&self, color_type: ColorType) -> (r: bool)
        ensures
            r == self@.palette_fits(color_type),
    {
        let present = self.find_chunk(&PLTE).is_some();
        match color_type {
            ColorType::Palette => present,
            ColorType::Grayscale | ColorType::GrayscaleAlpha => !present,
            _ => true,
        }
    }

    /// Decodes the header, if the stream holds one.
    pub fn ihdr(&self) -> (r: Result<Option<ImageHeader>, PngError>)
        ensures
            r == self@.ihdr(),
    {
        match self.find_chunk(&IHDR) {
            None => Ok(None),
            Some(i) => match ImageHeader::decode(&self.chunks[i]) {
                Ok(h) => Ok(Some(h)),
                Err(e) => Err(e),
            },
        }
    }

    /// Decodes the palette, if the stream holds one.
    pub fn plte(&self) -> (r: Result<Option<Palette>, PngError>)
        ensures
            match r {
                Ok(Some(p)) => self@.plte() == Ok::<Option<Seq<Rgb>>, PngError>(Some(p@)),
                Ok(None) => self@.plte() == Ok::<Option<Seq<Rgb>>, PngError>(None),
                Err(e) => self@.plte() == Err::<Option<Seq<Rgb>>, PngError>(e),
            },
    {
        match self.find_chunk(&PLTE) {
            None => Ok(None),
            Some(i) => match Palette::decode(&self.chunks[i]) {
                Ok(p) => Ok(Some(p)),
                Err(e) => Err(e),
            },
        }
    }

    /// Decodes the transparency chunk, if the stream holds one, for an image
    /// of the given colour type.
    pub fn trns(&self, color_type: ColorType) -> (r: Result<Option<Transparency>, PngError>)
        ensures
            match r {
                Ok(Some(t)) => self@.trns(color_type) == Ok::<Option<TransparencyView>, PngError>(
                    Some(t@),
                ),
                Ok(None) => self@.trns(color_type) == Ok::<Option<TransparencyView>, PngError>(
                    None,
                ),
                Err(e) => self@.trns(color_type) == Err::<Option<TransparencyView>, PngError>(e),
            },
    {
        match self.find_chunk(&TRNS) {
            None => Ok(None),
            Some(i) => match Transparency::decode(&self.chunks[i], color_type) {
                Ok(t) => Ok(Some(t)),
                Err(e) => Err(e),
            },
        }
    }

    /// Decodes the physical pixel dimensions, if the stream holds them.
    pub fn phys(&self) -> (r: Result<Option<PhysicalDimensions>, PngError>)
        ensures
            r == self@.phys(),
    {
        match self.find_chunk(&PHYS) {
            None => Ok(None),
            Some(i) => match PhysicalDimensions::decode(&self.chunks[i]) {
                Ok(d) => Ok(Some(d)),
                Err(e) => Err(e),
            },
        }
    }

    /// Decodes the rendering intent, if the stream holds one.
    pub fn srgb(&self) -> (r: Result<Option<ColorSpace>, PngError>)
        ensures
            r == self@.srgb(),
    {
        match self.find_chunk(&SRGB) {
            None => Ok(None),
            Some(i) => match ColorSpace::decode(&self.chunks[i]) {
                Ok(s) => Ok(Some(s)),
                Err(e) => Err(e),
            },
        }
    }

    /// Decodes the gamma, if the stream holds one.
    pub fn gama(&self) -> (r: Result<Option<Gamma>, PngError>)
        ensures
            r == self@.gama(),
    {
        match self.find_chunk(&GAMA) {
            None => Ok(None),
            Some(i) => match Gamma::decode(&self.chunks[i]) {
                Ok(g) => Ok(Some(g)),
                Err(e) => Err(e),
            },
        }
    }
}

/// Parses a stream held in memory, from its first byte.
pub fn parse_bytes(data: Vec<u8>) -> (r: Result<Png, PngError>)
    ensures
        match r {
            Ok(p) => spec_parse(data@, 0) == Ok::<PngView, PngError>(p@) && p@.wf(),
            Err(e) => spec_parse(data@, 0) == Err::<PngView, PngError>(e),
        },
{
    let mut reader = ByteCursor::new(data);
    Png::parse(&mut reader)
}

} // verus!
