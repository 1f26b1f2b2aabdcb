use crate::chunk::{Chunk, ChunkView};
use crate::endian::{
    lemma_be_bytes_round_trip, spec_be_bytes, spec_u16_be, spec_u32_be, u16_be, u32_be,
};
use crate::error::{ErrorKind, PngError};
use vstd::prelude::*;
use vstd::slice::slice_subrange;

verus! {

/// The error that a chunk with a payload of the wrong length, or with a field
/// outside its domain, is reported with.
pub open spec fn invalid_field(c: ChunkView) -> PngError {
    PngError {
        kind: ErrorKind::InvalidFieldValue,
        chunk_type: Some(c.chunk_type),
        offset: c.offset,
    }
}

/// Builds the error `invalid_field` of a chunk.
fn invalid_field_of(chunk: &Chunk) -> (e: PngError)
    ensures
        e == invalid_field(chunk@),
{
    PngError {
        kind: ErrorKind::InvalidFieldValue,
        chunk_type: Some(chunk.chunk_type),
        offset: chunk.offset,
    }
}

/// How the samples of a pixel are to be read.
#[derive(Clone, Copy, Debug, PartialEq, Eq, Structural)]
pub enum ColorType {
    Grayscale,
    RGB,
    Palette,
    GrayscaleAlpha,
    RGBA,
}

impl ColorType {
    /// The colour type that the header byte `b` stands for.
    pub open spec fn spec_from_byte(b: u8) -> Option<ColorType> {
        if b == 0 {
            Some(ColorType::Grayscale)
        } else if b == 2 {
            Some(ColorType::RGB)
        } else if b == 3 {
            Some(ColorType::Palette)
        } else if b == 4 {
            Some(ColorType::GrayscaleAlpha)
        } else if b == 6 {
            Some(ColorType::RGBA)
        } else {
            None
        }
    }

    /// The header byte that stands for this colour type.
    pub open spec fn spec_to_byte(self) -> u8 {
        match self {
            ColorType::Grayscale => 0,
            ColorType::RGB => 2,
            ColorType::Palette => 3,
            ColorType::GrayscaleAlpha => 4,
            ColorType::RGBA => 6,
        }
    }

    /// The number of samples that make up one pixel.
    pub open spec fn spec_channels(self) -> u8 {
        match self {
            ColorType::Grayscale => 1,
            ColorType::RGB => 3,
            ColorType::Palette => 1,
            ColorType::GrayscaleAlpha => 2,
            ColorType::RGBA => 4,
        }
    }

    /// Whether a sample of this colour type may have `depth` bits.
    pub open spec fn spec_allows_depth(self, depth: u8) -> bool {
        match self {
            ColorType::Grayscale => depth == 1 || depth == 2 || depth == 4 || depth == 8 || depth
                == 16,
            ColorType::Palette => depth == 1 || depth == 2 || depth == 4 || depth == 8,
            _ => depth == 8 || depth == 16,
        }
    }

    /// Decodes the colour type byte of a header.
    pub fn from_byte(b: u8) -> (r: Option<ColorType>)
        ensures
            r == Self::spec_from_byte(b),
    {
        if b == 0 {
            Some(ColorType::Grayscale)
        } else if b == 2 {
            Some(ColorType::RGB)
        } else if b == 3 {
            Some(ColorType::Palette)
        } else if b == 4 {
            Some(ColorType::GrayscaleAlpha)
        } else if b == 6 {
            Some(ColorType::RGBA)
        } else {
            None
        }
    }

    /// The number of samples that make up one pixel.
    pub fn channels(self) -> (r: u8)
        ensures
            r == self.spec_channels(),
    {
        match self {
            ColorType::Grayscale => 1,
            ColorType::RGB => 3,
            ColorType::Palette => 1,
            ColorType::GrayscaleAlpha => 2,
            ColorType::RGBA => 4,
        }
    }

    /// Whether a sample of this colour type may have `depth` bits.
    pub fn allows_depth(self, depth: u8) -> (r: bool)
        ensures
            r == self.spec_allows_depth(depth),
    {
        match self {
            ColorType::Grayscale => depth == 1 || depth == 2 || depth == 4 || depth == 8 || depth
                == 16,
            ColorType::Palette => depth == 1 || depth == 2 || depth == 4 || depth == 8,
            _ => depth == 8 || depth == 16,
        }
    }
}

/// The decoded header chunk.
#[derive(Clone, Copy, Debug, PartialEq, Eq, Structural)]
pub struct ImageHeader {
    pub width: u32,
    pub height: u32,
    pub bit_depth: u8,
    pub color_type: ColorType,
    pub compression_method: u8,
    pub filter_method: u8,
    pub interlace_method: u8,
}

impl ImageHeader {
    /// The header obeys the format: a bit depth that its colour type allows,
    /// compression and filter method zero, interlace method zero or one.
    pub open spec fn valid(self) -> bool {
        &&& self.color_type.spec_allows_depth(self.bit_depth)
        &&& self.compression_method == 0
        &&& self.filter_method == 0
        &&& self.interlace_method <= 1
    }

    /// What the payload of a header chunk decodes to: thirteen bytes, laid out
    /// as width, height (four bytes each, most significant first), bit depth,
    /// colour type, compression, filter and interlace method.
    pub open spec fn spec_decode(c: ChunkView) -> Result<ImageHeader, PngError> {
        let p = c.payload;
        if p.len() != 13 {
            Err(invalid_field(c))
        } else {
            match ColorType::spec_from_byte(p[9]) {
                None => Err(invalid_field(c)),
                Some(color_type) => {
                    let h = ImageHeader {
                        width: spec_u32_be(p),
                        height: spec_u32_be(p.skip(4)),
                        bit_depth: p[8],
                        color_type,
                        compression_method: p[10],
                        filter_method: p[11],
                        interlace_method: p[12],
                    };
                    if h.valid() {
                        Ok(h)
                    } else {
                        Err(invalid_field(c))
                    }
                },
            }
        }
    }

    /// The payload that spells this header.
    pub open spec fn spec_encode(self) -> Seq<u8> {
        spec_be_bytes(self.width) + spec_be_bytes(self.height) + seq![
            self.bit_depth,
            self.color_type.spec_to_byte(),
            self.compression_method,
            self.filter_method,
            self.interlace_method,
        ]
    }

    /// Decoding undoes encoding: a chunk whose payload spells a valid header
    /// decodes to that header.
    pub proof fn lemma_decode_of_encode(self, c: ChunkView)
        requires
            self.valid(),
            c.payload == self.spec_encode(),
        ensures
            Self::spec_decode(c) == Ok::<ImageHeader, PngError>(self),
    {
        let p = c.payload;
        let fields = seq![
            self.bit_depth,
            self.color_type.spec_to_byte(),
            self.compression_method,
            self.filter_method,
            self.interlace_method,
        ];
        assert(p =~= spec_be_bytes(self.width) + (spec_be_bytes(self.height) + fields));
        lemma_be_bytes_round_trip(self.width, spec_be_bytes(self.height) + fields);
        assert(p.skip(4) =~= spec_be_bytes(self.height) + fields);
        lemma_be_bytes_round_trip(self.height, fields);
        assert(p[8] == fields[0] && p[9] == fields[1] && p[10] == fields[2] && p[11] == fields[3]
            && p[12] == fields[4]);
    }

    /// Decodes the payload of a header chunk.
    pub fn decode(chunk: &Chunk) -> (r: Result<ImageHeader, PngError>)
        ensures
            r == Self::spec_decode(chunk@),
    {
        let p = chunk.payload.as_slice();
        if p.len() != 13 {
            return Err(invalid_field_of(chunk));
        }
        let color_type = match ColorType::from_byte(p[9]) {
            Some(color_type) => color_type,
            None => {
                return Err(invalid_field_of(chunk));
            },
        };
        let bit_depth = p[8];
        if !color_type.allows_depth(bit_depth) || p[10] != 0 || p[11] != 0 || p[12] > 1 {
            return Err(invalid_field_of(chunk));
        }
        let tail = slice_subrange(p, 4, p.len());
        assert(tail@ =~= chunk@.payload.skip(4));
        Ok(
            ImageHeader {
                width: u32_be(p),
                height: u32_be(tail),
                bit_depth,
                color_type,
                compression_method: p[10],
                filter_method: p[11],
                interlace_method: p[12],
            },
        )
    }

    /// The number of bytes that one pixel takes, at least one.
    pub open spec fn spec_pixel_bytes(self) -> nat {
        let bits = self.bit_depth as nat * self.color_type.spec_channels() as nat;
        if bits <= 8 {
            1
        } else {
            (bits + 7) / 8
        }
    }

    /// The number of bytes that the samples of one row take: the bits of a
    /// row, rounded up to whole bytes.
    pub open spec fn spec_row_bytes(self) -> nat {
        (self.bit_depth as nat * self.color_type.spec_channels() as nat * self.width as nat + 7)
            / 8
    }

    /// The length of the inflated image data: for each row one filter-type
    /// byte and the bytes of its samples.
    pub open spec fn spec_data_len(self) -> nat {
        self.height as nat * (self.spec_row_bytes() + 1)
    }

    /// The number of bytes that one pixel takes, at least one.
    pub fn pixel_bytes(&self) -> (r: usize)
        ensures
            r == self.spec_pixel_bytes(),
            1 <= r <= 128,
    {
        let channels = self.color_type.channels();
        assert(self.bit_depth * channels <= 1020) by (nonlinear_arith)
            requires
                self.bit_depth <= 255,
                channels <= 4,
        ;
        let bits: u16 = self.bit_depth as u16 * channels as u16;
        if bits <= 8 {
            1
        } else {
            ((bits + 7) / 8) as usize
        }
    }

    /// The number of bytes that the samples of one row take.
    pub fn row_bytes(&self) -> (r: u64)
        ensures
            r == self.spec_row_bytes(),
            r < 0x100_0000_0000,
    {
        let channels = self.color_type.channels();
        assert(self.bit_depth * channels <= 1020) by (nonlinear_arith)
            requires
                self.bit_depth <= 255,
                channels <= 4,
        ;
        let per_pixel: u64 = self.bit_depth as u64 * channels as u64;
        assert(per_pixel * self.width <= 1020 * 0xFFFF_FFFF) by (nonlinear_arith)
            requires
                per_pixel <= 1020,
                self.width <= 0xFFFF_FFFF,
        ;
        (per_pixel * self.width as u64 + 7) / 8
    }

    /// The length of the inflated image data.
    pub fn data_len(&self) -> (r: u128)
        ensures
            r == self.spec_data_len(),
    {
        let row: u128 = self.row_bytes() as u128 + 1;
        assert(self.height * row <= 0xFFFF_FFFF * 0x100_0000_0000) by (nonlinear_arith)
            requires
                row <= 0x100_0000_0000,
                self.height <= 0xFFFF_FFFF,
        ;
        self.height as u128 * row
    }
}

/// One palette entry.
#[derive(Clone, Copy, Debug, PartialEq, Eq, Structural)]
pub struct Rgb {
    pub red: u8,
    pub green: u8,
    pub blue: u8,
}

/// The decoded palette chunk: its entries in order.
#[derive(Clone, Debug, PartialEq, Eq)]
pub struct Palette {
    pub entries: Vec<Rgb>,
}

impl View for Palette {
    type V = Seq<Rgb>;

    open spec fn view(&self) -> Seq<Rgb> {
        self.entries@
    }
}

impl Palette {
    /// What the payload of a palette chunk decodes to: one entry for every
    /// three bytes. A payload that is not made of whole triples is refused.
    pub open spec fn spec_decode(c: ChunkView) -> Result<Seq<Rgb>, PngError> {
        let p = c.payload;
        if p.len() % 3 != 0 {
            Err(invalid_field(c))
        } else {
            Ok(
                Seq::new(
                    p.len() / 3,
                    |i: int| Rgb { red: p[3 * i], green: p[3 * i + 1], blue: p[3 * i + 2] },
                ),
            )
        }
    }

    /// Decodes the payload of a palette chunk.
    pub fn decode(chunk: &Chunk) -> (r: Result<Palette, PngError>)
        ensures
            match r {
                Ok(p) => Self::spec_decode(chunk@) == Ok::<Seq<Rgb>, PngError>(p@),
                Err(e) => Self::spec_decode(chunk@) == Err::<Seq<Rgb>, PngError>(e),
            },
    {
        let p = chunk.payload.as_slice();
        if p.len() % 3 != 0 {
            return Err(invalid_field_of(chunk));
        }
        let count = p.len() / 3;
        assert(p@.len() == 3 * count);
        let mut entries: Vec<Rgb> = Vec::new();
        let mut i: usize = 0;
        while i < count
            invariant
                i <= count,
                p@.len() == 3 * count,
                p@.len() <= usize::MAX,
                p@ == chunk@.payload,
                entries@.len() == i,
                forall|j: int|
                    0 <= j < i ==> entries@[j] == (Rgb {
                        red: p@[3 * j],
                        green: p@[3 * j + 1],
                        blue: p@[3 * j + 2],
                    }),
            decreases count - i,
        {
            entries.push(Rgb { red: p[3 * i], green: p[3 * i + 1], blue: p[3 * i + 2] });
            i += 1;
        }
        let palette = Palette { entries };
        assert(Self::spec_decode(chunk@).unwrap() =~= palette@);
        Ok(palette)
    }
}

/// The decoded transparency chunk.
#[derive(Clone, Debug, PartialEq, Eq)]
pub enum Transparency {
    /// The grey level that is fully transparent.
    Grayscale(u16),
    /// The red, green and blue samples of the colour that is fully
    /// transparent.
    RGB(u16, u16, u16),
    /// One alpha value for each of the first palette entries.
    Palette(Vec<u8>),
}

/// A transparency chunk as a mathematical value.
pub enum TransparencyView {
    Grayscale(u16),
    RGB(u16, u16, u16),
    Palette(Seq<u8>),
}

impl View for Transparency {
    type V = TransparencyView;

    open spec fn view(&self) -> TransparencyView {
        match self {
            Transparency::Grayscale(level) => TransparencyView::Grayscale(*level),
            Transparency::RGB(red, green, blue) => TransparencyView::RGB(*red, *green, *blue),
            Transparency::Palette(alpha) => TransparencyView::Palette(alpha@),
        }
    }
}

impl Transparency {
    /// What the payload of a transparency chunk decodes to in an image of the
    /// given colour type: one two-byte sample for greyscale, three for RGB
    /// (most significant byte first), any number of alpha bytes for a palette.
    /// The colour types with an alpha channel admit no such chunk.
    pub open spec fn spec_decode(c: ChunkView, color_type: ColorType) -> Result<
        TransparencyView,
        PngError,
    > {
        let p = c.payload;
        match color_type {
            ColorType::Grayscale => if p.len() == 2 {
                Ok(TransparencyView::Grayscale(spec_u16_be(p)))
            } else {
                Err(invalid_field(c))
            },
            ColorType::RGB => if p.len() == 6 {
                Ok(
                    TransparencyView::RGB(
                        spec_u16_be(p),
                        spec_u16_be(p.skip(2)),
                        spec_u16_be(p.skip(4)),
                    ),
                )
            } else {
                Err(invalid_field(c))
            },
            ColorType::Palette => Ok(TransparencyView::Palette(p)),
            _ => Err(invalid_field(c)),
        }
    }

    /// Decodes the payload of a transparency chunk for an image of the given
    /// colour type.
    pub fn decode(chunk: &Chunk, color_type: ColorType) -> (r: Result<Transparency, PngError>)
        ensures
            match r {
                Ok(t) => Self::spec_decode(chunk@, color_type) == Ok::<TransparencyView, PngError>(
                    t@,
                ),
                Err(e) => Self::spec_decode(chunk@, color_type) == Err::<
                    TransparencyView,
                    PngError,
                >(e),
            },
    {
        let p = chunk.payload.as_slice();
        match color_type {
            ColorType::Grayscale => {
                if p.len() == 2 {
                    Ok(Transparency::Grayscale(u16_be(p)))
                } else {
                    Err(invalid_field_of(chunk))
                }
            },
            ColorType::RGB => {
                if p.len() == 6 {
                    let green = slice_subrange(p, 2, p.len());
                    let blue = slice_subrange(p, 4, p.len());
                    assert(green@ =~= chunk@.payload.skip(2));
                    assert(blue@ =~= chunk@.payload.skip(4));
                    Ok(Transparency::RGB(u16_be(p), u16_be(green), u16_be(blue)))
                } else {
                    Err(invalid_field_of(chunk))
                }
            },
            ColorType::Palette => {
                let mut alpha: Vec<u8> = Vec::new();
                let mut i: usize = 0;
                while i < p.len()
                    invariant
                        i <= p@.len(),
                        alpha@ == p@.take(i as int),
                    decreases p.len() - i,
                {
                    alpha.push(p[i]);
                    assert(alpha@ =~= p@.take(i + 1));
                    i += 1;
                }
                assert(alpha@ =~= p@);
                Ok(Transparency::Palette(alpha))
            },
            _ => Err(invalid_field_of(chunk)),
        }
    }
}

/// The unit that a physical pixel size is given in.
#[derive(Clone, Copy, Debug, PartialEq, Eq, Structural)]
pub enum Unit {
    Unknown,
    Meter,
}

/// The decoded physical pixel dimensions chunk.
#[derive(Clone, Copy, Debug, PartialEq, Eq, Structural)]
pub struct PhysicalDimensions {
    pub pixels_per_unit_x: u32,
    pub pixels_per_unit_y: u32,
    pub unit: Unit,
}

impl PhysicalDimensions {
    /// What the payload of a physical dimensions chunk decodes to: nine
    /// bytes, two four-byte numbers (most significant byte first) and a unit
    /// byte that is zero or one.
    pub open spec fn spec_decode(c: ChunkView) -> Result<PhysicalDimensions, PngError> {
        let p = c.payload;
        if p.len() != 9 || p[8] > 1 {
            Err(invalid_field(c))
        } else {
            Ok(
                PhysicalDimensions {
                    pixels_per_unit_x: spec_u32_be(p),
                    pixels_per_unit_y: spec_u32_be(p.skip(4)),
                    unit: if p[8] == 0 {
                        Unit::Unknown
                    } else {
                        Unit::Meter
                    },
                },
            )
        }
    }

    /// Decodes the payload of a physical dimensions chunk.
    pub fn decode(chunk: &Chunk) -> (r: Result<PhysicalDimensions, PngError>)
        ensures
            r == Self::spec_decode(chunk@),
    {
        let p = chunk.payload.as_slice();
        if p.len() != 9 || p[8] > 1 {
            return Err(invalid_field_of(chunk));
        }
        let tail = slice_subrange(p, 4, p.len());
        assert(tail@ =~= chunk@.payload.skip(4));
        Ok(
            PhysicalDimensions {
                pixels_per_unit_x: u32_be(p),
                pixels_per_unit_y: u32_be(tail),
                unit: if p[8] == 0 {
                    Unit::Unknown
                } else {
                    Unit::Meter
                },
            },
        )
    }
}

/// The decoded standard colour space chunk: its rendering intent.
#[derive(Clone, Copy, Debug, PartialEq, Eq, Structural)]
pub enum ColorSpace {
    Perceptual,
    RelativeColorimetric,
    Saturation,
    AbsoluteColorimetric,
}

impl ColorSpace {
    /// What the payload of a standard colour space chunk decodes to: one byte
    /// from zero to three.
    pub open spec fn spec_decode(c: ChunkView) -> Result<ColorSpace, PngError> {
        let p = c.payload;
        if p.len() != 1 || p[0] > 3 {
            Err(invalid_field(c))
        } else if p[0] == 0 {
            Ok(ColorSpace::Perceptual)
        } else if p[0] == 1 {
            Ok(ColorSpace::RelativeColorimetric)
        } else if p[0] == 2 {
            Ok(ColorSpace::Saturation)
        } else {
            Ok(ColorSpace::AbsoluteColorimetric)
        }
    }

    /// Decodes the payload of a standard colour space chunk.
    pub fn decode(chunk: &Chunk) -> (r: Result<ColorSpace, PngError>)
        ensures
            r == Self::spec_decode(chunk@),
    {
        let p = chunk.payload.as_slice();
        if p.len() != 1 || p[0] > 3 {
            Err(invalid_field_of(chunk))
        } else if p[0] == 0 {
            Ok(ColorSpace::Perceptual)
        } else if p[0] == 1 {
            Ok(ColorSpace::RelativeColorimetric)
        } else if p[0] == 2 {
            Ok(ColorSpace::Saturation)
        } else {
            Ok(ColorSpace::AbsoluteColorimetric)
        }
    }
}

/// The decoded gamma chunk: the image gamma times 100000.
#[derive(Clone, Copy, Debug, PartialEq, Eq, Structural)]
pub struct Gamma {
    pub value: u32,
}

impl Gamma {
    /// What the payload of a gamma chunk decodes to: four bytes, one number,
    /// most significant byte first.
    pub open spec fn spec_decode(c: ChunkView) -> Result<Gamma, PngError> {
        let p = c.payload;
        if p.len() != 4 {
            Err(invalid_field(c))
        } else {
            Ok(Gamma { value: spec_u32_be(p) })
        }
    }

    /// Decodes the payload of a gamma chunk.
    pub fn decode(chunk: &Chunk) -> (r: Result<Gamma, PngError>)
        ensures
            r == Self::spec_decode(chunk@),
    {
        let p = chunk.payload.as_slice();
        if p.len() != 4 {
            Err(invalid_field_of(chunk))
        } else {
            Ok(Gamma { value: u32_be(p) })
        }
    }
}

} // verus!
