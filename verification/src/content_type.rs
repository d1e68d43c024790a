//! The content type of a file, guessed from its name.
use vstd::prelude::*;

use crate::path::{extension, extension_of};

verus! {

/// The first media type that `mime_guess` lists for the extension `ext`, as text, and
/// `application/octet-stream` where it lists none.
pub uninterp spec fn media_type_for(ext: Seq<char>) -> Seq<char>;

/// The content type of the file at `path`: it depends on the extension alone.
pub open spec fn content_type_of(path: Seq<char>) -> Seq<char> {
    match extension_of(path) {
        Some(ext) => media_type_for(ext),
        None => "application/octet-stream"@,
    }
}

/// Calls `mime_guess::from_ext` and, on the guess, `first_or_octet_stream`.
///
/// Believed: the text of the media type is a function of `ext` alone, since the crate looks
/// the extension up in a table that is fixed when it is compiled; and the empty extension,
/// which the crate gives no guess for, yields the default type.
#[verifier::external_body]
fn guess_media_type(ext: &str) -> (media_type: String)
    ensures
        media_type@ == media_type_for(ext@),
        ext@.len() == 0 ==> media_type@ == "application/octet-stream"@,
{
    mime_guess::from_ext(ext).first_or_octet_stream().to_string()
}

/// The content type to serve the file at `path` with.
pub fn content_type(path: &str) -> (media_type: String)
    ensures
        media_type@ == content_type_of(path@),
        forall|ext: Seq<char>|
            extension_of(path@) == Some(ext) ==> media_type@ == #[trigger] media_type_for(ext),
        extension_of(path@) is None ==> media_type@ == "application/octet-stream"@,
{
    match extension(path) {
        Some(ext) => guess_media_type(ext),
        None => {
            proof {
                reveal_strlit("");
            }
            guess_media_type("")
        },
    }
}

} // verus!
