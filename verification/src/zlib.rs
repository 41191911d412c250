//! The decompression primitive at the boundary of this crate: a zlib stream
//! sits at the front of every entry's payload, and its decompressed form and
//! byte length are discovered by the decompressor, not declared in the
//! archive.

use vstd::prelude::*;

verus! {

/// Whether one complete, well-formed zlib stream sits at the front of `s`.
/// A function of `s` alone.
pub uninterp spec fn zlib_valid(s: Seq<u8>) -> bool;

/// The decompressed contents of the zlib stream at the front of `s`.
pub uninterp spec fn zlib_inflated(s: Seq<u8>) -> Seq<u8>;

/// How many leading bytes of `s` that zlib stream occupies.
pub uninterp spec fn zlib_consumed(s: Seq<u8>) -> nat;

/// Relies on miniz_oxide's `inflate::core::decompress`: fed the bytes of `d`
/// from `start` on and an output buffer of exactly `size` bytes, it reports
/// `Done` having written `size` bytes exactly when a whole zlib stream sits
/// at `start` and inflates to exactly `size` bytes; it also reports how many
/// input bytes that stream occupied, which cannot exceed what it was fed.
#[verifier::external_body]
pub fn inflate(d: &Vec<u8>, start: usize, size: usize) -> (r: Option<(Vec<u8>, usize)>)
    requires
        start <= d@.len(),
    ensures
        match r {
            Some(p) => zlib_valid(d@.skip(start as int)) && p.0@ == zlib_inflated(
                d@.skip(start as int),
            ) && p.0@.len() == size && p.1 as nat == zlib_consumed(d@.skip(start as int))
                && p.1 <= d@.len() - start,
            None => !(zlib_valid(d@.skip(start as int)) && zlib_inflated(
                d@.skip(start as int),
            ).len() == size),
        },
{
    let flags = miniz_oxide::inflate::core::inflate_flags::TINFL_FLAG_PARSE_ZLIB_HEADER
        | miniz_oxide::inflate::core::inflate_flags::TINFL_FLAG_USING_NON_WRAPPING_OUTPUT_BUF;
    let mut state = miniz_oxide::inflate::core::DecompressorOxide::new();
    let mut out = vec![0u8; size];
    let (status, used, written) =
        miniz_oxide::inflate::core::decompress(&mut state, &d[start..], &mut out, 0, flags);
    match status {
        miniz_oxide::inflate::TINFLStatus::Done if written == size => Some((out, used)),
        _ => None,
    }
}

} // verus!
