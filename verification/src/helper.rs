use vstd::prelude::*;
use flate2::write::ZlibEncoder;
use flate2::Compression;
use std::io::Write;

verus! {

/// The zlib stream that compressing `input` at `level` gives.
pub uninterp spec fn zlib_stream(input: Seq<u8>, level: u32) -> Seq<u8>;

/// The compression level of every stream this library writes.
pub const COMPRESSION_LEVEL: u32 = 1;

/// `flate2::write::ZlibEncoder`, made with `Compression::new(level)` over an
/// empty vector, given the whole input by `write_all` and closed by `finish`:
/// the bytes of the finished stream. Writing into a vector does not fail.
#[verifier::external_body]
fn zlib_compress(input: &[u8], level: u32) -> (r: Vec<u8>)
    requires
        level <= 9,
    ensures
        r@ == zlib_stream(input@, level),
{
    let mut encoder = ZlibEncoder::new(Vec::new(), Compression::new(level));
    let written = encoder.write_all(input);
    match (written, encoder.finish()) {
        (Ok(()), Ok(stream)) => stream,
        _ => Vec::new(),
    }
}

/// The four bytes of `v`, least significant first.
pub open spec fn length_bytes(v: u32) -> Seq<u8> {
    seq![(v % 256) as u8, ((v / 256) % 256) as u8, ((v / 65536) % 256) as u8, (v / 16777216) as u8]
}

/// A compressed stream behind the length of what it was made from. The length
/// is cut to 32 bits and written least significant byte first.
pub open spec fn length_prefixed(uncompressed_length: nat, stream: Seq<u8>) -> Seq<u8> {
    length_bytes(uncompressed_length as u32) + stream
}

/// Puts the length of the uncompressed data before its compressed stream.
pub fn with_length_prefix(uncompressed_length: usize, stream: &[u8]) -> (r: Vec<u8>)
    ensures
        r@ == length_prefixed(uncompressed_length as nat, stream@),
{
    let length: u32 = #[verifier::truncate]
    (uncompressed_length as u32);
    let mut output: Vec<u8> = Vec::with_capacity(4);
    output.push((length % 256) as u8);
    output.push(((length / 256) % 256) as u8);
    output.push(((length / 65536) % 256) as u8);
    output.push((length / 16777216) as u8);
    output.extend_from_slice(stream);
    assert(output@ =~= length_prefixed(uncompressed_length as nat, stream@));
    output
}

/// Compresses `input` into a zlib stream and puts the length of `input` before
/// it.
pub fn compress_in_zlib_format(input: &[u8]) -> (r: Vec<u8>)
    ensures
        r@ == length_prefixed(input@.len(), zlib_stream(input@, COMPRESSION_LEVEL)),
{
    let stream = zlib_compress(input, COMPRESSION_LEVEL);
    with_length_prefix(input.len(), stream.as_slice())
}

} // verus!
