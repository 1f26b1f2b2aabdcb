use crate::chunk::{
    lemma_chunk_at_its_bytes, spec_chunk_at, spec_chunk_bytes, spec_tag, ChunkView, IDAT, IEND,
    IHDR,
};
use crate::error::{ErrorKind, PngError};
use crate::metadata::ImageHeader;
use crate::png::{prepend, spec_parse, spec_parse_chunks, PngView, SIGNATURE};
use vstd::prelude::*;

verus! {

/// The bytes that a sequence of chunks takes in a stream.
pub open spec fn spec_chunks_bytes(chunks: Seq<ChunkView>) -> Seq<u8>
    decreases chunks.len(),
{
    if chunks.len() == 0 {
        Seq::empty()
    } else {
        spec_chunk_bytes(chunks[0]) + spec_chunks_bytes(chunks.drop_first())
    }
}

/// The chunks are well formed and record the offsets at which they stand
/// when the first of them stands at `pos` and each follows the one before.
pub open spec fn laid_out(chunks: Seq<ChunkView>, pos: int) -> bool
    decreases chunks.len(),
{
    chunks.len() == 0 || (chunks[0].wf() && chunks[0].offset == pos && laid_out(
        chunks.drop_first(),
        pos + 12 + chunks[0].length,
    ))
}

/// No chunk but the last is a closing chunk.
pub open spec fn closes_last(chunks: Seq<ChunkView>) -> bool {
    forall|i: int| 0 <= i < chunks.len() - 1 ==> chunks[i].chunk_type != IEND
}

/// The trailing bytes `extra` can stand behind `chunks` without being taken
/// for a chunk: they are fewer than eight, or follow a closing chunk.
pub open spec fn trails(chunks: Seq<ChunkView>, extra: Seq<u8>) -> bool {
    extra.len() < 8 || (chunks.len() > 0 && chunks.last().chunk_type == IEND)
}

/// The bytes of a stream: the signature, the chunks, and what trails them.
pub open spec fn spec_stream(chunks: Seq<ChunkView>, extra: Seq<u8>) -> Seq<u8> {
    SIGNATURE@ + spec_chunks_bytes(chunks) + extra
}

/// A stream that does not open with the signature is refused as such,
/// whatever follows.
pub proof fn lemma_wrong_signature(s: Seq<u8>)
    requires
        s.len() < 8 || s.subrange(0, 8) != SIGNATURE@,
    ensures
        spec_parse(s, 0) == Err::<PngView, PngError>(
            PngError { kind: ErrorKind::SignatureMismatch, chunk_type: None, offset: 0 },
        ),
{
}

/// Two ways to bracket the pieces of a stream.
proof fn lemma_regroup(prefix: Seq<u8>, head: Seq<u8>, others: Seq<u8>, extra: Seq<u8>)
    ensures
        prefix + (head + others) + extra == prefix + head + (others + extra),
        prefix + (head + others) + extra == (prefix + head) + others + extra,
{
    assert(prefix + (head + others) + extra =~= prefix + head + (others + extra));
    assert(prefix + (head + others) + extra =~= (prefix + head) + others + extra);
}

/// Where a chunk other than the closing one stands at `pos`, the parse from
/// `pos` is that chunk and then the parse from behind it.
proof fn lemma_parse_step(s: Seq<u8>, pos: int, c: ChunkView)
    requires
        spec_chunk_at(s, pos) == Some(Ok::<ChunkView, PngError>(c)),
        c.chunk_type != IEND,
    ensures
        spec_parse_chunks(s, pos) == prepend(
            seq![c],
            spec_parse_chunks(s, pos + 12 + c.length),
        ),
{
}

/// Where the closing chunk stands at `pos`, the parse from `pos` is that
/// chunk, and all that follows it is extra.
proof fn lemma_parse_close(s: Seq<u8>, pos: int, c: ChunkView)
    requires
        spec_chunk_at(s, pos) == Some(Ok::<ChunkView, PngError>(c)),
        c.chunk_type == IEND,
    ensures
        spec_parse_chunks(s, pos) == Ok::<PngView, PngError>(
            PngView { chunks: seq![c], extra_bytes: s.skip(pos + 12 + c.length) },
        ),
{
}

/// Where fewer than eight bytes are left at `pos`, the parse from `pos` is
/// no chunk and those bytes.
proof fn lemma_parse_end(s: Seq<u8>, pos: int)
    requires
        0 <= pos <= s.len(),
        s.len() - pos < 8,
    ensures
        spec_parse_chunks(s, pos) == Ok::<PngView, PngError>(
            PngView { chunks: Seq::empty(), extra_bytes: s.skip(pos) },
        ),
{
    reveal(spec_chunk_at);
}

/// The bytes of a chunk are twelve more than its payload.
proof fn lemma_chunk_bytes_len(c: ChunkView)
    ensures
        spec_chunk_bytes(c).len() == 12 + c.payload.len(),
{
    assert(c.chunk_type@.len() == 4);
}

/// Behind any prefix, fewer than eight bytes parse to no chunk and
/// themselves.
proof fn lemma_parse_no_chunks(prefix: Seq<u8>, extra: Seq<u8>)
    requires
        extra.len() < 8,
    ensures
        spec_parse_chunks(
            prefix + spec_chunks_bytes(Seq::empty()) + extra,
            prefix.len() as int,
        ) == Ok::<PngView, PngError>(PngView { chunks: Seq::empty(), extra_bytes: extra }),
{
    let s = prefix + spec_chunks_bytes(Seq::empty()) + extra;
    assert(s.skip(prefix.len() as int) =~= extra);
    lemma_parse_end(s, prefix.len() as int);
}

/// Behind any prefix, a closing chunk and whatever follows it parse to that
/// chunk and what follows.
proof fn lemma_parse_closing_chunk(prefix: Seq<u8>, c: ChunkView, extra: Seq<u8>)
    requires
        c.wf(),
        c.offset == prefix.len(),
        c.chunk_type == IEND,
    ensures
        spec_parse_chunks(prefix + spec_chunks_bytes(seq![c]) + extra, prefix.len() as int) == Ok::<
            PngView,
            PngError,
        >(PngView { chunks: seq![c], extra_bytes: extra }),
{
    let head = spec_chunk_bytes(c);
    let s = prefix + spec_chunks_bytes(seq![c]) + extra;
    assert(spec_chunks_bytes(seq![c].drop_first()) =~= Seq::<u8>::empty());
    assert(spec_chunks_bytes(seq![c]) =~= head);
    lemma_chunk_at_its_bytes(prefix, c, extra);
    lemma_chunk_bytes_len(c);
    assert(s.skip(prefix.len() + 12 + c.length) =~= extra);
    lemma_parse_close(s, prefix.len() as int, c);
}

/// A parse that begins with the chunk `c` and goes on with `others` is the
/// parse to `c` followed by `others`.
proof fn lemma_prepend_one(
    c: ChunkView,
    others: Seq<ChunkView>,
    extra: Seq<u8>,
    chunks: Seq<ChunkView>,
)
    requires
        chunks.len() > 0,
        c == chunks[0],
        others == chunks.drop_first(),
    ensures
        prepend(seq![c], Ok(PngView { chunks: others, extra_bytes: extra })) == Ok::<
            PngView,
            PngError,
        >(PngView { chunks, extra_bytes: extra }),
{
    assert(seq![c] + others =~= chunks);
}

/// Chunks written out one after the other, behind any prefix, with the
/// closing chunk nowhere but at the end and with trailing bytes that cannot
/// be taken for a chunk, parse to themselves and those bytes.
pub proof fn lemma_parse_chunks_of_bytes(prefix: Seq<u8>, chunks: Seq<ChunkView>, extra: Seq<u8>)
    requires
        laid_out(chunks, prefix.len() as int),
        closes_last(chunks),
        trails(chunks, extra),
    ensures
        spec_parse_chunks(prefix + spec_chunks_bytes(chunks) + extra, prefix.len() as int) == Ok::<
            PngView,
            PngError,
        >(PngView { chunks, extra_bytes: extra }),
    decreases chunks.len(),
{
    let s = prefix + spec_chunks_bytes(chunks) + extra;
    let pos = prefix.len() as int;
    if chunks.len() == 0 {
        assert(chunks =~= Seq::<ChunkView>::empty());
        lemma_parse_no_chunks(prefix, extra);
    } else if chunks[0].chunk_type == IEND {
        assert(chunks =~= seq![chunks[0]]);
        lemma_parse_closing_chunk(prefix, chunks[0], extra);
    } else {
        let c = chunks[0];
        let others = chunks.drop_first();
        let head = spec_chunk_bytes(c);
        let tail = spec_chunks_bytes(others) + extra;
        let longer = prefix + head;
        lemma_regroup(prefix, head, spec_chunks_bytes(others), extra);
        lemma_chunk_at_its_bytes(prefix, c, tail);
        lemma_chunk_bytes_len(c);
        assert(closes_last(others)) by {
            assert forall|i: int| 0 <= i < others.len() - 1 implies others[i].chunk_type
                != IEND by {
                assert(others[i] == chunks[i + 1]);
            }
        }
        assert(trails(others, extra)) by {
            if extra.len() >= 8 {
                assert(others.last() == chunks.last());
            }
        }
        lemma_parse_chunks_of_bytes(longer, others, extra);
        lemma_parse_step(s, pos, c);
        lemma_prepend_one(c, others, extra, chunks);
    }
}

/// Parsing undoes writing: a stream made of the signature, chunks that record
/// their own offsets and close with the last of them at most, and trailing
/// bytes that cannot be taken for a chunk parses to exactly those chunks and
/// those bytes.
pub proof fn lemma_parse_of_stream(chunks: Seq<ChunkView>, extra: Seq<u8>)
    requires
        laid_out(chunks, 8),
        closes_last(chunks),
        trails(chunks, extra),
    ensures
        spec_parse(spec_stream(chunks, extra), 0) == Ok::<PngView, PngError>(
            PngView { chunks, extra_bytes: extra },
        ),
{
    let s = spec_stream(chunks, extra);
    assert(s.subrange(0, 8) =~= SIGNATURE@);
    lemma_parse_chunks_of_bytes(SIGNATURE@, chunks, extra);
}

/// The smallest stream of an image: a header chunk, one image data chunk and
/// the closing chunk, with any checksums.
pub open spec fn spec_minimal_chunks(
    h: ImageHeader,
    data: Seq<u8>,
    header_crc: u32,
    data_crc: u32,
    end_crc: u32,
) -> Seq<ChunkView> {
    seq![
        ChunkView {
            length: 13,
            chunk_type: IHDR,
            payload: h.spec_encode(),
            crc: header_crc,
            offset: 8,
        },
        ChunkView {
            length: data.len() as u32,
            chunk_type: IDAT,
            payload: data,
            crc: data_crc,
            offset: 33,
        },
        ChunkView {
            length: 0,
            chunk_type: IEND,
            payload: Seq::empty(),
            crc: end_crc,
            offset: (45 + data.len()) as usize,
        },
    ]
}

/// A stream built from a valid header, one image data chunk and the closing
/// chunk parses to those three chunks, and the header read back from them is
/// the header that was written: width, height, bit depth, colour type and the
/// rest.
pub proof fn lemma_minimal_stream_round_trip(
    h: ImageHeader,
    data: Seq<u8>,
    header_crc: u32,
    data_crc: u32,
    end_crc: u32,
)
    requires
        h.valid(),
        data.len() <= u32::MAX,
        57 + data.len() <= usize::MAX,
    ensures
        ({
            let chunks = spec_minimal_chunks(h, data, header_crc, data_crc, end_crc);
            let parsed = PngView { chunks, extra_bytes: Seq::empty() };
            spec_parse(spec_stream(chunks, Seq::empty()), 0) == Ok::<PngView, PngError>(parsed)
                && parsed.ihdr() == Ok::<Option<ImageHeader>, PngError>(Some(h))
        }),
{
    let chunks = spec_minimal_chunks(h, data, header_crc, data_crc, end_crc);
    assert(IHDR[1] != IEND[1] && IDAT[1] != IEND[1]);
    let after_header = chunks.drop_first();
    let after_data = after_header.drop_first();
    assert(laid_out(after_data.drop_first(), 57 + data.len() as int));
    assert(laid_out(after_data, 45 + data.len() as int));
    assert(laid_out(after_header, 33));
    assert(laid_out(chunks, 8));
    lemma_parse_of_stream(chunks, Seq::empty());
    h.lemma_decode_of_encode(chunks[0]);
}

/// Every chunk that a parse gives is well formed, stands at or behind the
/// place where the parse began, and lies within the stream.
pub proof fn lemma_parsed_chunk_in_place(s: Seq<u8>, pos: int, i: int)
    requires
        0 <= pos,
        s.len() <= usize::MAX,
        spec_parse_chunks(s, pos) is Ok,
        0 <= i < spec_parse_chunks(s, pos).unwrap().chunks.len(),
    ensures
        ({
            let c = spec_parse_chunks(s, pos).unwrap().chunks[i];
            c.wf() && pos <= c.offset && c.offset + 12 + c.length <= s.len()
        }),
    decreases s.len() - pos,
{
    reveal(spec_chunk_at);
    let first = spec_chunk_at(s, pos).unwrap().unwrap();
    assert(first.payload.len() == first.length);
    if first.chunk_type != IEND {
        lemma_parse_step(s, pos, first);
        if i > 0 {
            lemma_parsed_chunk_in_place(s, pos + 12 + first.length, i - 1);
        }
    }
}

/// A chunk that stands whole within the first `m` bytes of a stream is read
/// from those bytes as from the whole stream.
proof fn lemma_chunk_at_of_prefix(s: Seq<u8>, pos: int, m: int)
    requires
        0 <= pos,
        spec_chunk_at(s, pos) is Some,
        spec_chunk_at(s, pos).unwrap() is Ok,
        pos + 12 + spec_chunk_at(s, pos).unwrap().unwrap().length <= m <= s.len(),
    ensures
        spec_chunk_at(s.take(m), pos) == spec_chunk_at(s, pos),
{
    reveal(spec_chunk_at);
    let c = spec_chunk_at(s, pos).unwrap().unwrap();
    let left = s.skip(pos);
    let cut = s.take(m).skip(pos);
    assert(cut[0] == left[0] && cut[1] == left[1] && cut[2] == left[2] && cut[3] == left[3]);
    assert(spec_tag(cut.skip(4)) =~= spec_tag(left.skip(4)));
    assert(cut.subrange(8, 8 + c.length) =~= left.subrange(8, 8 + c.length));
    let a = cut.skip(8 + c.length);
    let b = left.skip(8 + c.length);
    assert(a[0] == b[0] && a[1] == b[1] && a[2] == b[2] && a[3] == b[3]);
}

/// Cutting a stream of chunks anywhere inside the payload or the checksum of
/// one of them turns the parse into a truncation error that names that chunk
/// and its offset.
pub proof fn lemma_cut_inside_chunk(s: Seq<u8>, pos: int, i: int, m: int)
    requires
        0 <= pos,
        s.len() <= usize::MAX,
        spec_parse_chunks(s, pos) is Ok,
        0 <= i < spec_parse_chunks(s, pos).unwrap().chunks.len(),
        ({
            let c = spec_parse_chunks(s, pos).unwrap().chunks[i];
            c.offset + 8 <= m < c.offset + 12 + c.length
        }),
    ensures
        ({
            let c = spec_parse_chunks(s, pos).unwrap().chunks[i];
            spec_parse_chunks(s.take(m), pos) == Err::<PngView, PngError>(
                PngError {
                    kind: ErrorKind::UnexpectedEndOfStream,
                    chunk_type: Some(c.chunk_type),
                    offset: c.offset,
                },
            )
        }),
    decreases s.len() - pos,
{
    reveal(spec_chunk_at);
    let first = spec_chunk_at(s, pos).unwrap().unwrap();
    let next = pos + 12 + first.length;
    lemma_parsed_chunk_in_place(s, pos, i);
    let t = s.take(m);
    if i == 0 {
        let left = s.skip(pos);
        let cut = t.skip(pos);
        assert(cut[0] == left[0] && cut[1] == left[1] && cut[2] == left[2] && cut[3] == left[3]);
        assert(spec_tag(cut.skip(4)) =~= spec_tag(left.skip(4)));
    } else {
        lemma_parse_step(s, pos, first);
        lemma_parsed_chunk_in_place(s, next, i - 1);
        lemma_chunk_at_of_prefix(s, pos, m);
        lemma_parse_step(t, pos, first);
        lemma_cut_inside_chunk(s, next, i - 1, m);
    }
}

/// A stream that parses, cut anywhere inside the payload or the checksum of
/// one of its chunks, no longer does: the parse ends with a truncation error
/// that names that chunk and its offset.
pub proof fn lemma_truncated_stream(s: Seq<u8>, i: int, m: int)
    requires
        s.len() <= usize::MAX,
        spec_parse(s, 0) is Ok,
        0 <= i < spec_parse(s, 0).unwrap().chunks.len(),
        ({
            let c = spec_parse(s, 0).unwrap().chunks[i];
            c.offset + 8 <= m < c.offset + 12 + c.length
        }),
    ensures
        ({
            let c = spec_parse(s, 0).unwrap().chunks[i];
            spec_parse(s.take(m), 0) == Err::<PngView, PngError>(
                PngError {
                    kind: ErrorKind::UnexpectedEndOfStream,
                    chunk_type: Some(c.chunk_type),
                    offset: c.offset,
                },
            )
        }),
{
    lemma_parsed_chunk_in_place(s, 8, i);
    lemma_cut_inside_chunk(s, 8, i, m);
    assert(s.take(m).subrange(0, 8) =~= s.subrange(0, 8));
}

} // verus!
