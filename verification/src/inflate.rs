use vstd::prelude::*;

verus! {

/// What the zlib stream `data` inflates to when the output may take at most
/// `limit` bytes, or `None` where the stream is corrupt, is cut short or
/// holds more than that.
pub uninterp spec fn zlib_inflate(data: Seq<u8>, limit: usize) -> Option<Seq<u8>>;

/// Calls `miniz_oxide::inflate::decompress_to_vec_zlib_with_limit`, which
/// inflates a whole zlib stream into a vector that it never grows beyond the
/// limit, and fails on corrupt or truncated input and on output that does not
/// fit. The result depends on the two arguments only.
#[verifier::external_body]
pub(crate) fn inflate_zlib(data: &[u8], limit: usize) -> (r: Option<Vec<u8>>)
    ensures
        match r {
            Some(v) => zlib_inflate(data@, limit) == Some(v@),
            None => zlib_inflate(data@, limit) is None,
        },
{
    miniz_oxide::inflate::decompress_to_vec_zlib_with_limit(data, limit).ok()
}

} // verus!
