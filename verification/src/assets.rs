//! The pages that the server hands out.

use crate::text::skip_leading;
use vstd::prelude::*;

verus! {

pub const OK: u16 = 200;

pub const NOT_FOUND: u16 = 404;

/// A page that a browser asks for.
#[derive(Debug)]
pub enum Page {
    Index,
    /// The terminal of a token.
    Terminal(String),
    /// Any other path, as the request has it.
    Path(String),
}

/// The file that holds a page: the terminal is the index page whatever its token, and the name of
/// any other file is its path without the slashes in front.
pub open spec fn file_of(page: Page) -> Seq<char> {
    match page {
        Page::Index => "index.html"@,
        Page::Terminal(_) => "index.html"@,
        Page::Path(path) => crate::text::strip_front(path@, '/'),
    }
}

pub fn asset_path(page: &Page) -> (path: String)
    ensures
        path@ == file_of(*page),
{
    match page {
        Page::Index => "index.html".to_owned(),
        Page::Terminal(_) => "index.html".to_owned(),
        Page::Path(path) => skip_leading(path.as_str(), '/').to_owned(),
    }
}

/// The media type that the extension of a path stands for, `application/octet-stream` where it
/// stands for none: what `mime_guess::from_path` followed by `first_or_octet_stream` gives.
pub uninterp spec fn media_type(path: Seq<char>) -> Seq<char>;

/// Every platform takes such a path apart in the same way: no backslash, no drive, no network
/// share.
pub open spec fn is_portable(path: Seq<char>) -> bool {
    &&& !path.contains('\\')
    &&& !path.contains(':')
    &&& !(path.len() >= 2 && path[0] == '/' && path[1] == '/')
}

/// Calls `mime_guess::from_path` and, on its result, `first_or_octet_stream` and `to_string`. The
/// answer depends on the path alone, through the extension that `std::path::Path` finds in it; a
/// path without a dot has no extension. What is an extension in a path that is not portable
/// differs between platforms, and nothing is claimed of it.
#[verifier::external_body]
fn guess_media_type(path: &str) -> (media: String)
    ensures
        is_portable(path@) ==> media@ == media_type(path@),
        !path@.contains('.') ==> media@ == "application/octet-stream"@,
{
    mime_guess::from_path(path).first_or_octet_stream().to_string()
}

/// The answer to a request for a file.
#[derive(Debug)]
pub enum FileReply {
    Found { content_type: String, body: Vec<u8> },
    Missing,
}

impl FileReply {
    /// The HTTP status of the answer.
    pub fn status(&self) -> (status: u16)
        ensures
            status == match self {
                FileReply::Found { .. } => OK,
                FileReply::Missing => NOT_FOUND,
            },
    {
        match self {
            FileReply::Found { .. } => OK,
            FileReply::Missing => NOT_FOUND,
        }
    }
}

/// The answer that hands out a file, given its media type.
pub fn found(content: Vec<u8>, media: String) -> (reply: FileReply)
    ensures
        reply == (FileReply::Found { content_type: media, body: content }),
{
    FileReply::Found { content_type: media, body: content }
}

/// The answer for a path, given what the file of that name holds, if there is one.
pub fn serve_file(path: &str, asset: Option<Vec<u8>>) -> (reply: FileReply)
    ensures
        match asset {
            Some(content) => reply matches FileReply::Found { content_type, body } && body
                == content && (is_portable(path@) ==> content_type@ == media_type(path@)) && (
            !path@.contains('.') ==> content_type@ == "application/octet-stream"@),
            None => reply is Missing,
        },
{
    match asset {
        Some(content) => found(content, guess_media_type(path)),
        None => FileReply::Missing,
    }
}

/// The index page and the terminal of every token are the same file; every other file is named by
/// the end of its path that follows the slashes in front.
pub proof fn files_of_pages(page: &Page, path: String)
    requires
        call_ensures(asset_path, (page,), path),
    ensures
        page is Index || page is Terminal ==> path@ == "index.html"@,
        page matches Page::Path(p) ==> {
            &&& path@.len() <= p@.len()
            &&& path@ == p@.subrange(p@.len() - path@.len(), p@.len() as int)
            &&& forall|i: int| 0 <= i < p@.len() - path@.len() ==> (#[trigger] p@[i]) == '/'
            &&& path@.len() > 0 ==> path@[0] != '/'
        },
{
    if let Page::Path(p) = *page {
        crate::text::stripping_keeps_the_rest(p@, '/');
        assert(path@ =~= p@.subrange(p@.len() - path@.len(), p@.len() as int));
    }
}

/// A file that exists is handed out whole with status 200 and the media type of its path, and one
/// that does not is answered with 404.
pub proof fn files_are_served_whole(
    path: &str,
    asset: Option<Vec<u8>>,
    reply: FileReply,
    status: u16,
)
    requires
        call_ensures(serve_file, (path, asset), reply),
        call_ensures(FileReply::status, (&reply,), status),
    ensures
        asset is None <==> reply is Missing,
        asset is None <==> status == 404,
        asset is Some <==> status == 200,
        asset matches Some(content) ==> {
            &&& reply matches FileReply::Found { content_type, body }
            &&& body@ == content@
            &&& (forall|i: int| 0 <= i < path@.len() ==> (#[trigger] path@[i]) != '.')
                ==> content_type@ == "application/octet-stream"@
            &&& (forall|i: int|
                0 <= i < path@.len() ==> (#[trigger] path@[i]) != '\\' && path@[i] != ':') && !(
            path@.len() >= 2 && path@[0] == '/' && path@[1] == '/') ==> content_type@ == media_type(
                path@,
            )
        },
{
}

/// A reply hands out the content and the media type that it was made with.
pub proof fn reply_holds_the_file(content: Vec<u8>, media: String, reply: FileReply)
    requires
        call_ensures(found, (content, media), reply),
    ensures
        reply matches FileReply::Found { content_type, body } && content_type@ == media@ && body@
            == content@,
{
}

} // verus!
