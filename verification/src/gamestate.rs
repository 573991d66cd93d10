//! Saved emulator states, which are stored gzip-compressed.

use vstd::prelude::*;

verus! {

/// `std::io::Error`, which the decoder reports its failures with.
#[verifier::external_type_specification]
#[verifier::external_body]
pub struct ExIoError(std::io::Error);

/// What `flate2::read::GzDecoder` decodes the bytes to when read to its
/// end, or nothing where it reports an error.
pub uninterp spec fn gunzipped(compressed: Seq<u8>) -> Option<Seq<u8>>;

/// Reads a `flate2::read::GzDecoder` over the bytes to its end with
/// `Read::read_to_end`.
///
/// The decoder reads one gzip member from a slice in memory, so what it
/// gives depends on the bytes alone.
#[verifier::external_body]
fn gunzip(compressed: &[u8]) -> (result: Result<Vec<u8>, std::io::Error>)
    ensures
        match result {
            Ok(data) => gunzipped(compressed@) == Some(data@),
            Err(_) => gunzipped(compressed@) is None,
        },
{
    let mut decoder = flate2::read::GzDecoder::new(compressed);
    let mut data = Vec::new();
    std::io::Read::read_to_end(&mut decoder, &mut data).map(|_| data)
}

/// The bytes are not a gzip stream that decodes to its end.
#[derive(Clone, Copy, Debug, PartialEq, Eq, Structural)]
pub struct CorruptState;

/// An emulator state, uncompressed, as the emulator restores it.
#[derive(Debug)]
pub struct GameState {
    pub buffer: Vec<u8>,
}

impl GameState {
    /// Decodes a saved state from the gzip-compressed bytes of its file.
    pub fn new(compressed: &[u8]) -> (result: Result<GameState, CorruptState>)
        ensures
            match result {
                Ok(state) => gunzipped(compressed@) == Some(state.buffer@),
                Err(_) => gunzipped(compressed@) is None,
            },
    {
        match gunzip(compressed) {
            Ok(buffer) => Ok(GameState { buffer }),
            Err(_) => Err(CorruptState),
        }
    }
}

} // verus!
