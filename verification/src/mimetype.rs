//! Mime type inference: the content type of a blob is guessed from the
//! extension of the path supplied at upload, with `application/octet-stream`
//! as the fallback for unknown or absent extensions.

use vstd::prelude::*;

verus! {

/// The mime type text that the `mime_guess` crate infers for a path, with
/// its `application/octet-stream` fallback: a function of the path text
/// alone.
pub uninterp spec fn mime_guess_of(path: Seq<char>) -> Seq<char>;

/// Relies on mime_guess's `from_path(..).first_or_octet_stream()`: the guess
/// is looked up in a fixed extension table, so it depends on the path text
/// alone; it always produces a value.
#[verifier::external_body]
pub(crate) fn guess_mime_type(path: &str) -> (r: String)
    ensures
        r@ == mime_guess_of(path@),
{
    mime_guess::from_path(path).first_or_octet_stream().to_string()
}

} // verus!
