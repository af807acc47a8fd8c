use vstd::prelude::*;

verus! {

/// The bytes that raw-deflate decoding yields for `payload` before
/// the stream ends or its first malformed unit is hit. Decoding is
/// deterministic: the same payload always yields the same bytes.
pub uninterp spec fn inflate_of(payload: Seq<u8>) -> Seq<u8>;

/// Relies on flate2::read::DeflateDecoder, read to its end over an
/// in-memory slice. Reading from a slice cannot fail, so the only
/// errors the decoder can report are the two truncation signatures,
/// InvalidInput ("corrupt deflate stream") and UnexpectedEof
/// ("incomplete deflate stream") — the expected mark of a capture cut
/// off mid-write, and never fatal here. Bytes delivered by earlier,
/// successful reads stay in the output buffer; the failing read's own
/// partial output is discarded, so `inflate_of` denotes exactly what
/// this combination delivers, which is a deterministic function of
/// the payload bytes alone.
#[verifier::external_body]
pub(crate) fn inflate(payload: &Vec<u8>) -> (out: Vec<u8>)
    ensures
        out@ == inflate_of(payload@),
{
    let mut decoder = flate2::read::DeflateDecoder::new(payload.as_slice());
    let mut out: Vec<u8> = Vec::new();
    let _ = std::io::Read::read_to_end(&mut decoder, &mut out);
    out
}

} // verus!
