//! Saving a preview picture that the user interface sends as base64 text.
use base64::{engine::general_purpose, Engine};
use vstd::prelude::*;
use vstd::string::*;

verus! {

/// The file, in the home directory, that a preview is saved to.
pub const SCREENSHOT_FILE_NAME: &'static str = "fluyer_preview.png";

/// Name for what the base64 crate's `STANDARD` engine gives for
/// `Engine::decode(text)`: the decoded bytes, or the text of its
/// `DecodeError`.
pub uninterp spec fn base64_decoded(text: Seq<char>) -> Result<Seq<u8>, Seq<char>>;

/// Decodes base64 text with the standard alphabet and padding
/// (`general_purpose::STANDARD.decode`). Trusted: the result is
/// `base64_decoded(text)`, an error as its `Display` text.
#[verifier::external_body]
fn base64_decode(text: &str) -> (r: Result<Vec<u8>, String>)
    ensures
        match r {
            Ok(b) => base64_decoded(text@) == Ok::<Seq<u8>, Seq<char>>(b@),
            Err(e) => base64_decoded(text@) == Err::<Seq<u8>, Seq<char>>(e@),
        },
{
    match general_purpose::STANDARD.decode(text) {
        Ok(b) => Ok(b),
        Err(e) => Err(e.to_string()),
    }
}

/// What a decode's outcome becomes: the bytes, or an error that says the
/// base64 text could not be decoded and why.
pub fn decode_outcome(decoded: Result<Vec<u8>, String>) -> (r: Result<Vec<u8>, String>)
    ensures
        match decoded {
            Ok(b) => r matches Ok(v) && v@ == b@,
            Err(e) => r matches Err(m) && m@ == "Failed to decode base64: "@ + e@,
        },
{
    match decoded {
        Ok(b) => Ok(b),
        Err(e) => {
            let mut m = String::from_str("Failed to decode base64: ");
            m.append(e.as_str());
            Err(m)
        },
    }
}

/// The picture to save from the interface's base64 text.
pub fn screenshot_data(base64_data: &str) -> (r: Result<Vec<u8>, String>)
    ensures
        match base64_decoded(base64_data@) {
            Ok(b) => r matches Ok(v) && v@ == b,
            Err(e) => r matches Err(m) && m@ == "Failed to decode base64: "@ + e,
        },
{
    decode_outcome(base64_decode(base64_data))
}

} // verus!
