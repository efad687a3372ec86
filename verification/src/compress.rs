//! Compression of stream data.

use vstd::prelude::*;

verus! {

/// The zlib stream into which `miniz_oxide` compresses `data` at the
/// compression level `level`.
pub uninterp spec fn zlib_stream(data: Seq<u8>, level: u8) -> Seq<u8>;

/// Calls `miniz_oxide::deflate::compress_to_vec_zlib`. The contract gives its
/// result a name and claims nothing else of it: the function reads nothing
/// but its two arguments, and it returns for all of them.
#[verifier::external_body]
fn compress_to_vec_zlib(data: &[u8], level: u8) -> (r: Vec<u8>)
    ensures
        r@ == zlib_stream(data@, level),
{
    miniz_oxide::deflate::compress_to_vec_zlib(data, level)
}

/// The compression level of every stream of a document.
pub const DEFLATE_LEVEL: u8 = 6;

/// The compressed form in which stream data is embedded.
pub open spec fn deflated(data: Seq<u8>) -> Seq<u8> {
    zlib_stream(data, DEFLATE_LEVEL)
}

/// Compresses stream data with the DEFLATE algorithm, in a zlib wrapper.
pub fn deflate(data: &[u8]) -> (r: Vec<u8>)
    ensures
        r@ == deflated(data@),
{
    compress_to_vec_zlib(data, DEFLATE_LEVEL)
}

} // verus!
