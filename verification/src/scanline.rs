use crate::chunk::{ChunkView, IDAT, IHDR};
use crate::error::{ErrorKind, PngError};
use crate::filter::{spec_unfilter_row, unfilter_row, FilterType};
use crate::inflate::{inflate_zlib, zlib_inflate};
use crate::metadata::ImageHeader;
use crate::png::{Png, PngView};
use vstd::prelude::*;
use vstd::slice::slice_subrange;

verus! {

/// The views of a sequence of rows, in order.
pub open spec fn row_views(rows: Seq<Vec<u8>>) -> Seq<Seq<u8>> {
    Seq::new(rows.len(), |i: int| rows[i]@)
}

/// There is one row for each row of the image, and each has the length that
/// the header gives a row.
pub open spec fn shaped(rows: Seq<Vec<u8>>, h: ImageHeader) -> bool {
    &&& rows.len() == h.height
    &&& forall|j: int| 0 <= j < rows.len() ==> (#[trigger] rows[j])@.len() == h.spec_row_bytes()
}

/// The first of the rows `0 .. n` of `raw` whose filter-type byte names no
/// filter, where a row and its filter-type byte take `stride` bytes.
pub open spec fn first_bad_row(raw: Seq<u8>, stride: nat, n: nat) -> Option<nat>
    decreases n,
{
    if n == 0 {
        None
    } else {
        match first_bad_row(raw, stride, (n - 1) as nat) {
            Some(k) => Some(k),
            None => if FilterType::spec_from_byte(raw[(n - 1) * stride]) is None {
                Some((n - 1) as nat)
            } else {
                None
            },
        }
    }
}

/// The raw rows `0 .. n` of the inflated image data `raw`.
///
/// Row `k` stands at `k * (row_bytes + 1)`: its filter-type byte, then
/// `row_bytes` filtered bytes. It is unfiltered against the raw row `k - 1`,
/// the first row against nothing.
pub open spec fn spec_rows(raw: Seq<u8>, row_bytes: nat, bpp: nat, n: nat) -> Seq<Seq<u8>>
    decreases n,
{
    if n == 0 {
        Seq::empty()
    } else {
        let above = spec_rows(raw, row_bytes, bpp, (n - 1) as nat);
        let at = (n - 1) * (row_bytes + 1);
        let prev = if n == 1 {
            Seq::empty()
        } else {
            above.last()
        };
        above.push(
            spec_unfilter_row(
                FilterType::spec_from_byte(raw[at]).unwrap(),
                raw.subrange(at + 1, at + 1 + row_bytes),
                prev,
                bpp,
            ),
        )
    }
}

/// The error of a kind about the image data, at an offset into the inflated
/// data.
pub open spec fn data_error(kind: ErrorKind, offset: usize) -> PngError {
    PngError { kind, chunk_type: Some(IDAT), offset }
}

/// The error that an interlaced image is refused with.
pub open spec fn interlace_refused() -> PngError {
    PngError { kind: ErrorKind::UnsupportedInterlace, chunk_type: Some(IHDR), offset: 0 }
}

/// The rows that the inflated image data `raw` holds for an image with the
/// header `h`.
///
/// An interlaced image is refused. Data shorter than `h.spec_data_len()` ends
/// inside a row; bytes beyond that length are ignored. The first row whose
/// filter-type byte names no filter is reported with the offset of that byte.
pub open spec fn spec_reconstruct(h: ImageHeader, raw: Seq<u8>) -> Result<Seq<Seq<u8>>, PngError> {
    if h.interlace_method != 0 {
        Err(interlace_refused())
    } else if raw.len() < h.spec_data_len() {
        Err(data_error(ErrorKind::UnexpectedEndOfStream, raw.len() as usize))
    } else {
        match first_bad_row(raw, h.spec_row_bytes() + 1, h.height as nat) {
            Some(k) => Err(
                data_error(ErrorKind::UnknownFilterType, (k * (h.spec_row_bytes() + 1)) as usize),
            ),
            None => Ok(spec_rows(raw, h.spec_row_bytes(), h.spec_pixel_bytes(), h.height as nat)),
        }
    }
}

/// A row that is the first bad one among those up to it is the first bad one
/// among any larger number of rows.
pub proof fn lemma_first_bad_row_stays(raw: Seq<u8>, stride: nat, k: nat, n: nat)
    requires
        k < n,
        first_bad_row(raw, stride, k) is None,
        FilterType::spec_from_byte(raw[(k * stride) as int]) is None,
    ensures
        first_bad_row(raw, stride, n) == Some(k),
    decreases n,
{
    if n > k + 1 {
        lemma_first_bad_row_stays(raw, stride, k, (n - 1) as nat);
    }
}

/// Row `k` of `n` rows of `stride` bytes each ends within `n * stride`.
proof fn lemma_row_within(k: nat, n: nat, stride: nat)
    requires
        k < n,
    ensures
        k * stride + stride <= n * stride,
        (k + 1) * stride == k * stride + stride,
{
    assert(k * stride + stride <= n * stride) by (nonlinear_arith)
        requires
            k + 1 <= n,
    ;
    assert((k + 1) * stride == k * stride + stride) by (nonlinear_arith);
}

/// Splits inflated image data into rows and reverses the filter of each, in
/// order.
pub fn reconstruct_scanlines(header: &ImageHeader, raw: &[u8]) -> (r: Result<
    Vec<Vec<u8>>,
    PngError,
>)
    ensures
        match r {
            Ok(rows) => spec_reconstruct(*header, raw@) == Ok::<Seq<Seq<u8>>, PngError>(
                row_views(rows@),
            ) && shaped(rows@, *header),
            Err(e) => spec_reconstruct(*header, raw@) == Err::<Seq<Seq<u8>>, PngError>(e),
        },
{
    if header.interlace_method != 0 {
        return Err(
            PngError { kind: ErrorKind::UnsupportedInterlace, chunk_type: Some(IHDR), offset: 0 },
        );
    }
    let total = header.data_len();
    if (raw.len() as u128) < total {
        return Err(
            PngError {
                kind: ErrorKind::UnexpectedEndOfStream,
                chunk_type: Some(IDAT),
                offset: raw.len(),
            },
        );
    }
    let mut rows: Vec<Vec<u8>> = Vec::new();
    if header.height == 0 {
        assert(row_views(rows@) =~= Seq::<Seq<u8>>::empty());
        return Ok(rows);
    }
    let height = header.height as usize;
    let ghost wide = header.spec_row_bytes();
    proof {
        lemma_row_within(0, height as nat, wide + 1);
    }
    let row_bytes = header.row_bytes() as usize;
    let bpp = header.pixel_bytes();
    let first: Vec<u8> = Vec::new();
    let mut at: usize = 0;
    let mut n: usize = 0;
    while n < height
        invariant
            n <= height,
            height == header.height,
            header.interlace_method == 0,
            row_bytes == wide,
            wide == header.spec_row_bytes(),
            bpp == header.spec_pixel_bytes(),
            height * (wide + 1) <= raw@.len(),
            at == n * (wide + 1),
            first@.len() == 0,
            rows@.len() == n,
            forall|j: int| 0 <= j < rows@.len() ==> (#[trigger] rows@[j])@.len() == wide,
            first_bad_row(raw@, wide + 1, n as nat) is None,
            row_views(rows@) == spec_rows(raw@, wide, bpp as nat, n as nat),
        decreases height - n,
    {
        proof {
            lemma_row_within(n as nat, height as nat, wide + 1);
        }
        let filter = match FilterType::from_byte(raw[at]) {
            Some(filter) => filter,
            None => {
                proof {
                    lemma_first_bad_row_stays(raw@, wide + 1, n as nat, height as nat);
                }
                return Err(
                    PngError {
                        kind: ErrorKind::UnknownFilterType,
                        chunk_type: Some(IDAT),
                        offset: at,
                    },
                );
            },
        };
        let line = slice_subrange(raw, at + 1, at + 1 + row_bytes);
        let row = if n == 0 {
            unfilter_row(filter, line, first.as_slice(), bpp)
        } else {
            unfilter_row(filter, line, rows[n - 1].as_slice(), bpp)
        };
        proof {
            let above = row_views(rows@);
            assert(first@ =~= Seq::<u8>::empty());
            if n > 0 {
                assert(above.last() == rows@[n - 1]@);
            }
            assert(row_views(rows@.push(row)) =~= above.push(row@));
        }
        rows.push(row);
        at += row_bytes + 1;
        n += 1;
    }
    Ok(rows)
}

/// The payloads of the image data chunks of `chunks`, joined in order.
pub open spec fn spec_image_data(chunks: Seq<ChunkView>) -> Seq<u8>
    decreases chunks.len(),
{
    if chunks.len() == 0 {
        Seq::empty()
    } else if chunks.last().chunk_type == IDAT {
        spec_image_data(chunks.drop_last()) + chunks.last().payload
    } else {
        spec_image_data(chunks.drop_last())
    }
}

/// The most that the image data of an image with the header `h` may inflate
/// to: the length that the header declares, as far as the machine can count.
pub open spec fn spec_inflate_limit(h: ImageHeader) -> usize {
    if h.spec_data_len() <= usize::MAX {
        h.spec_data_len() as usize
    } else {
        usize::MAX
    }
}

impl PngView {
    /// The raw rows of the image.
    ///
    /// Without a header that decodes there is nothing to go by, and an
    /// interlaced image is refused. The image data is inflated with its
    /// output capped at what the header declares, and then split into rows.
    pub open spec fn scanlines(self) -> Result<Seq<Seq<u8>>, PngError> {
        match self.ihdr() {
            Ok(Some(h)) => if h.interlace_method != 0 {
                Err(interlace_refused())
            } else {
                match zlib_inflate(spec_image_data(self.chunks), spec_inflate_limit(h)) {
                    Some(raw) => spec_reconstruct(h, raw),
                    None => Err(data_error(ErrorKind::DecompressionFailure, 0)),
                }
            },
            _ => Err(
                PngError {
                    kind: ErrorKind::MissingRequiredChunk,
                    chunk_type: Some(IHDR),
                    offset: 0,
                },
            ),
        }
    }
}

impl Png {
    /// The payloads of the image data chunks, joined in the order in which
    /// they stand.
    pub fn image_data(&self) -> (r: Vec<u8>)
        ensures
            r@ == spec_image_data(self@.chunks),
    {
        let mut data: Vec<u8> = Vec::new();
        let mut i: usize = 0;
        while i < self.chunks.len()
            invariant
                i <= self.chunks@.len(),
                data@ == spec_image_data(self@.chunks.take(i as int)),
            decreases self.chunks.len() - i,
        {
            proof {
                assert(self@.chunks.take(i + 1).drop_last() =~= self@.chunks.take(i as int));
            }
            if self.chunks[i].has_type(&IDAT) {
                let payload = &self.chunks[i].payload;
                let ghost before = data@;
                let mut j: usize = 0;
                while j < payload.len()
                    invariant
                        j <= payload@.len(),
                        data@ == before + payload@.take(j as int),
                    decreases payload.len() - j,
                {
                    data.push(payload[j]);
                    assert(data@ =~= before + payload@.take(j + 1));
                    j += 1;
                }
                assert(payload@.take(j as int) =~= payload@);
            }
            i += 1;
        }
        assert(self@.chunks.take(i as int) =~= self@.chunks);
        data
    }

    /// Reconstructs the raw rows of the image from its header and its image
    /// data chunks.
    pub fn get_scanlines(&self) -> (r: Result<Vec<Vec<u8>>, PngError>)
        ensures
            match r {
                Ok(rows) => self@.scanlines() == Ok::<Seq<Seq<u8>>, PngError>(row_views(rows@))
                    && self@.ihdr() is Ok
                    && self@.ihdr().unwrap() is Some
                    && shaped(rows@, self@.ihdr().unwrap().unwrap()),
                Err(e) => self@.scanlines() == Err::<Seq<Seq<u8>>, PngError>(e),
            },
    {
        let header = match self.ihdr() {
            Ok(Some(header)) => header,
            _ => {
                return Err(
                    PngError {
                        kind: ErrorKind::MissingRequiredChunk,
                        chunk_type: Some(IHDR),
                        offset: 0,
                    },
                );
            },
        };
        if header.interlace_method != 0 {
            return Err(
                PngError {
                    kind: ErrorKind::UnsupportedInterlace,
                    chunk_type: Some(IHDR),
                    offset: 0,
                },
            );
        }
        let total = header.data_len();
        let limit: usize = if total <= usize::MAX as u128 {
            total as usize
        } else {
            usize::MAX
        };
        let data = self.image_data();
        match inflate_zlib(data.as_slice(), limit) {
            Some(raw) => reconstruct_scanlines(&header, raw.as_slice()),
            None => Err(
                PngError {
                    kind: ErrorKind::DecompressionFailure,
                    chunk_type: Some(IDAT),
                    offset: 0,
                },
            ),
        }
    }
}

} // verus!
