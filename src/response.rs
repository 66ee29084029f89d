//! Responses for served files: status, content type and body.
use vstd::prelude::*;

verus! {

/// The status of a file that was found.
pub const STATUS_OK: u16 = 200;

/// The status of a file that was not found.
pub const STATUS_NOT_FOUND: u16 = 404;

/// An HTTP response for a served file.
pub struct Reply {
    pub status: u16,
    pub content_type: Option<String>,
    pub body: Vec<u8>,
}

/// The MIME type that `mime_guess` gives for a path, by its extension,
/// with `text/plain` where it knows none.
pub uninterp spec fn mime_of(path: Seq<char>) -> Seq<char>;

/// Relies on mime_guess::from_path and MimeGuess::first_or_text_plain: the
/// MIME type for the path's extension, from a fixed table.
#[verifier::external_body]
fn guess_mime(path: &str) -> (r: String)
    ensures
        r@ == mime_of(path@),
{
    mime_guess::from_path(path).first_or_text_plain().as_ref().to_string()
}

/// The reply for a file of the given MIME type: status 200 with its bytes
/// and the type where there are bytes, else status 404 with an empty body
/// and no type.
pub fn static_response(mime_type: String, response_bytes: Option<Vec<u8>>) -> (r: Reply)
    ensures
        response_bytes matches Some(b) ==> r.status == STATUS_OK && r.content_type == Some(
            mime_type,
        ) && r.body@ == b@,
        response_bytes is None ==> r.status == STATUS_NOT_FOUND && r.content_type is None
            && r.body@.len() == 0,
{
    match response_bytes {
        Some(content) => Reply { status: STATUS_OK, content_type: Some(mime_type), body: content },
        None => Reply { status: STATUS_NOT_FOUND, content_type: None, body: Vec::new() },
    }
}

/// The reply for the file at `path`, given its bytes where it could be read:
/// the type is guessed from the path alone.
pub fn serve_static(path: &str, contents: Option<Vec<u8>>) -> (r: Reply)
    ensures
        contents matches Some(b) ==> r.status == STATUS_OK && r.content_type is Some
            && r.content_type.unwrap()@ == mime_of(path@) && r.body@ == b@,
        contents is None ==> r.status == STATUS_NOT_FOUND && r.content_type is None
            && r.body@.len() == 0,
{
    let mime_type = guess_mime(path);
    static_response(mime_type, contents)
}

} // verus!
