//! The files of the web interface.

use vstd::prelude::*;

use crate::text::{starts_with, text_of, to_chars, trim_start_char, without_leading};

verus! {

/// What is served where no file has the path that was asked for.
pub const INDEX: &'static str = "index.html";

/// The media type that `mime_guess::from_path` and `first_or_octet_stream` give a path.
pub uninterp spec fn media_type(path: Seq<char>) -> Seq<char>;

/// `mime_guess::from_path` and `MimeGuess::first_or_octet_stream`: the media type for a path, as
/// text. It depends on the path alone; no file is looked at.
#[verifier::external_body]
fn guess_media_type(path: &str) -> (r: String)
    ensures
        r@ == media_type(path@),
{
    mime_guess::from_path(path).first_or_octet_stream().to_string()
}

/// The name of the file that a request path asks for: the path without leading slashes.
pub fn asset_name(path: &str) -> (r: String)
    ensures
        r@ == without_leading(path@, '/'),
{
    let chars = to_chars(path);
    let name = trim_start_char(chars.as_slice(), '/');
    let text = text_of(name.as_slice(), 0, name.len());
    assert(text@ =~= name@);
    text
}

/// What is answered to a request for a file.
#[derive(Debug)]
pub enum StaticAnswer {
    /// The file with that name.
    File {
        /// Its name.
        name: String,
        /// Its media type.
        media_type: String,
    },
    /// The start page, which does its own routing.
    Index,
    /// There is no such file.
    NotFound,
}

/// What is answered to a request for a file, by whether there is one and whether there is a start
/// page. Only paths under `static/` have to name a file.
pub fn serve_static(path: &str, file_exists: bool, index_exists: bool) -> (r: StaticAnswer)
    ensures
        ({
            let asked = without_leading(path@, '/');
            if file_exists {
                r matches StaticAnswer::File { name, media_type: kind } && name@ == asked && kind@
                    == media_type(asked)
            } else if "static/"@.is_prefix_of(asked) || !index_exists {
                r == StaticAnswer::NotFound
            } else {
                r == StaticAnswer::Index
            }
        }),
{
    let name = asset_name(path);
    // Try to serve the exact path
    if file_exists {
        let media_type = guess_media_type(name.as_str());
        return StaticAnswer::File { name, media_type };
    }
    // For paths starting with "static/", return 404 if not found

    let chars = to_chars(name.as_str());
    let prefix = to_chars("static/");
    if starts_with(chars.as_slice(), prefix.as_slice()) {
        return StaticAnswer::NotFound;
    }
    // Otherwise, serve the start page (SPA routing)

    if index_exists {
        StaticAnswer::Index
    } else {
        StaticAnswer::NotFound
    }
}

} // verus!
