//! Adapters for the external codec tools.
//!
//! Each adapter holds the configured path of one tool and prepares the exact
//! argument list of its invocation; spawning the process and collecting its
//! output happen outside the library, which then interprets the outcome
//! through the adapter's error constructors.

pub mod ffmpeg;
pub mod vgmstream;
pub mod wwise;

use vstd::prelude::*;

verus! {

/// What the lossy UTF-8 decoding of a byte sequence reads as.
pub uninterp spec fn lossy_utf8(bytes: Seq<u8>) -> Seq<char>;

/// Relies on String::from_utf8_lossy: the result depends on the bytes alone;
/// invalid sequences come out as replacement characters, and no bytes means
/// no characters.
#[verifier::external_body]
pub(crate) fn utf8_lossy(bytes: &[u8]) -> (r: String)
    ensures
        r@ == lossy_utf8(bytes@),
        bytes@.len() == 0 ==> r@.len() == 0,
{
    String::from_utf8_lossy(bytes).to_string()
}

} // verus!
