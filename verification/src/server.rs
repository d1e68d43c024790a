//! How a request is answered, one piece of file system work at a time.
use vstd::prelude::*;
use vstd::utf8::encode_utf8;

use crate::content_type::{content_type, content_type_of};
use crate::location::{below, climbs, components, path_below};
use crate::path::{has_html_extension, is_html, requested_path, without_leading_slashes};
use crate::response::{
    file_answer, not_found_answer, page_answer, read_error_answer, Response, ResponseView,
    Status,
};

verus! {

/// What has to happen next for a request to be answered.
pub enum Exchange {
    /// Look whether `path` is a file. `fallback` is the path to look at next if it is not.
    CheckFile { path: String, fallback: Option<String> },
    /// Read the file at `path` as text.
    ReadText { path: String },
    /// Read the bytes of the file at `path`.
    ReadBytes { path: String },
    /// Send the answer: nothing is left to do.
    Respond { response: Response },
}

/// A stage of an exchange as a mathematical value.
#[verifier::ext_equal]
pub enum ExchangeView {
    CheckFile { path: Seq<char>, fallback: Option<Seq<char>> },
    ReadText { path: Seq<char> },
    ReadBytes { path: Seq<char> },
    Respond { response: ResponseView },
}

/// The text in an optional string.
pub open spec fn text_of(text: Option<String>) -> Option<Seq<char>> {
    match text {
        Some(t) => Some(t@),
        None => None,
    }
}

impl View for Exchange {
    type V = ExchangeView;

    open spec fn view(&self) -> ExchangeView {
        match *self {
            Exchange::CheckFile { path, fallback } => ExchangeView::CheckFile {
                path: path@,
                fallback: text_of(fallback),
            },
            Exchange::ReadText { path } => ExchangeView::ReadText { path: path@ },
            Exchange::ReadBytes { path } => ExchangeView::ReadBytes { path: path@ },
            Exchange::Respond { response } => ExchangeView::Respond { response: response@ },
        }
    }
}

/// The first stage of a request: the requested path is looked at, and then, if one is set,
/// the entry file of the application. Both lie in the root directory: a request that leads out
/// of it finds nothing, and an entry file that does is none.
pub open spec fn first_stage(
    root: Seq<char>,
    uri_path: Seq<char>,
    spa_entry: Option<Seq<char>>,
) -> ExchangeView {
    match below(root, uri_path) {
        Some(path) => ExchangeView::CheckFile {
            path,
            fallback: match spa_entry {
                Some(entry) => below(root, entry),
                None => None,
            },
        },
        None => ExchangeView::Respond { response: not_found_answer() },
    }
}

/// The stage after `path` was looked at.
pub open spec fn after_check(
    path: Seq<char>,
    fallback: Option<Seq<char>>,
    is_file: bool,
) -> ExchangeView {
    if is_file {
        ExchangeView::ReadText { path }
    } else {
        match fallback {
            Some(entry) => ExchangeView::CheckFile { path: entry, fallback: None },
            None => ExchangeView::Respond { response: not_found_answer() },
        }
    }
}

/// The stage after the file at `path` was read as text.
pub open spec fn after_text(
    path: Seq<char>,
    read: Result<Seq<char>, Seq<char>>,
    script: Seq<char>,
) -> ExchangeView {
    if has_html_extension(path) {
        match read {
            Ok(text) => ExchangeView::Respond { response: page_answer(text, script) },
            Err(error) => ExchangeView::Respond { response: read_error_answer(error) },
        }
    } else {
        ExchangeView::ReadBytes { path }
    }
}

/// The answer after the bytes of the file at `path` were read.
pub open spec fn after_bytes(
    path: Seq<char>,
    read: Result<Seq<u8>, Seq<char>>,
) -> ResponseView {
    match read {
        Ok(bytes) => file_answer(content_type_of(path), bytes),
        Err(error) => read_error_answer(error),
    }
}

/// The outcome of reading a text, as a mathematical value.
pub open spec fn text_read(read: Result<String, String>) -> Result<Seq<char>, Seq<char>> {
    match read {
        Ok(text) => Ok(text@),
        Err(error) => Err(error@),
    }
}

/// The outcome of reading bytes, as a mathematical value.
pub open spec fn bytes_read(read: Result<Vec<u8>, String>) -> Result<Seq<u8>, Seq<char>> {
    match read {
        Ok(bytes) => Ok(bytes@),
        Err(error) => Err(error@),
    }
}

/// Takes up a request for `uri_path`. `spa_entry` is the entry file of a single page
/// application in the directory `root`: it is served where the request names no file. A request
/// that leads out of that directory is answered at once: it finds nothing.
pub fn accept_request(root: &str, uri_path: &str, spa_entry: Option<&str>) -> (next: Exchange)
    ensures
        next@ == first_stage(
            root@,
            uri_path@,
            match spa_entry {
                Some(entry) => Some(entry@),
                None => None,
            },
        ),
        climbs(components(without_leading_slashes(uri_path@))) ==> (next matches Exchange::Respond {
            response,
        } && response.status == Status::NotFound),
        !climbs(components(without_leading_slashes(uri_path@))) ==> (next matches Exchange::CheckFile {
            path,
            fallback,
        } && path@ == requested_path(root@, uri_path@) && match spa_entry {
            Some(entry) => text_of(fallback) == below(root@, entry@),
            None => fallback is None,
        }),
{
    match path_below(root, uri_path) {
        Some(path) => {
            let fallback = match spa_entry {
                Some(entry) => path_below(root, entry),
                None => None,
            };
            Exchange::CheckFile { path, fallback }
        },
        None => Exchange::Respond { response: Response::not_found() },
    }
}

/// Goes on after a look at `path`: a file is read; otherwise the fallback, where there is
/// one, is looked at, and the answer is that nothing was found where there is none.
pub fn spa_file_handler(path: String, fallback: Option<String>, is_file: bool) -> (next: Exchange)
    ensures
        next@ == after_check(path@, text_of(fallback), is_file),
        is_file ==> next == (Exchange::ReadText { path }),
        !is_file ==> match fallback {
            Some(entry) => next == (Exchange::CheckFile { path: entry, fallback: None }),
            None => next matches Exchange::Respond { response } && response.status
                == Status::NotFound && response.content_type is None && response.body@
                == encode_utf8("File not found"@),
        },
{
    if is_file {
        Exchange::ReadText { path }
    } else {
        match fallback {
            Some(entry) => Exchange::CheckFile { path: entry, fallback: None },
            None => Exchange::Respond { response: Response::not_found() },
        }
    }
}

/// Goes on after the file at `path` was read as text. The answer to an HTML file is its text
/// with the script behind it. The bytes of any other file have to be read, whether or not they
/// are text. `read` holds the error's text where reading failed.
pub fn serve_file(path: String, read: Result<String, String>, ws_script: &str) -> (next: Exchange)
    ensures
        next@ == after_text(path@, text_read(read), ws_script@),
        !has_html_extension(path@) ==> next == (Exchange::ReadBytes { path }),
        has_html_extension(path@) ==> (next matches Exchange::Respond { response } && match read {
            Ok(text) => {
                &&& response.status == Status::Success
                &&& response.content_type matches Some(media_type)
                &&& media_type@ == "text/html; charset=utf-8"@
                &&& response.body@ == encode_utf8(text@ + ws_script@)
            },
            Err(error) => {
                &&& response.status == Status::InternalServerError
                &&& response.content_type is None
                &&& response.body@ == encode_utf8("Error reading file: "@ + error@)
            },
        }),
{
    if is_html(path.as_str()) {
        match read {
            Ok(content) => Exchange::Respond { response: Response::page(content, ws_script) },
            Err(error) => Exchange::Respond { response: Response::read_error(error.as_str()) },
        }
    } else {
        Exchange::ReadBytes { path }
    }
}

/// Answers with the bytes of the file at `path`, under the content type that its name
/// suggests. `read` holds the error's text where reading failed.
pub fn serve_static_file(path: &str, read: Result<Vec<u8>, String>) -> (response: Response)
    ensures
        response@ == after_bytes(path@, bytes_read(read)),
        match read {
            Ok(bytes) => {
                &&& response.status == Status::Success
                &&& response.content_type matches Some(media_type)
                &&& media_type@ == content_type_of(path@)
                &&& response.body == bytes
            },
            Err(error) => {
                &&& response.status == Status::InternalServerError
                &&& response.content_type is None
                &&& response.body@ == encode_utf8("Error reading file: "@ + error@)
            },
        },
{
    match read {
        Ok(bytes) => Response::file(content_type(path), bytes),
        Err(error) => Response::read_error(error.as_str()),
    }
}

} // verus!
