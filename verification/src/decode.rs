//! Decompression of frame payloads.

use vstd::prelude::*;

verus! {

/// Compressed frames as the byte sequences they hold.
pub open spec fn payloads(frames: Seq<Vec<u8>>) -> Seq<Seq<u8>> {
    frames.map_values(|frame: Vec<u8>| frame@)
}

/// What zstd makes of a payload: the decompressed bytes, or the text of its
/// error where the payload does not decompress.
pub uninterp spec fn zstd_decoded(payload: Seq<u8>) -> Result<Seq<u8>, Seq<char>>;

/// Calls `zstd::decode_all` on the bytes of the payload, which decompresses
/// them as its streaming decoder does and fails where they are not in the
/// zstd frame format. A failure is handed on as the text that its error
/// displays. Nothing here is proved: the contract takes the outcome to depend
/// on the payload alone, gives it a name, and says no more of it.
#[verifier::external_body]
pub(crate) fn decode_payload(payload: &Vec<u8>) -> (r: Result<Vec<u8>, String>)
    ensures
        match r {
            Ok(bytes) => zstd_decoded(payload@) == Ok::<Seq<u8>, Seq<char>>(bytes@),
            Err(message) => zstd_decoded(payload@) == Err::<Seq<u8>, Seq<char>>(message@),
        },
{
    match zstd::decode_all(payload.as_slice()) {
        Ok(bytes) => Ok(bytes),
        Err(error) => Err(error.to_string()),
    }
}

} // verus!
