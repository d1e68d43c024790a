//! The server's answers: a status, a content type and a body.
use vstd::prelude::*;
use vstd::utf8::encode_utf8;

verus! {

/// The content type of a page that the reload script was added to.
pub const HTML_CONTENT_TYPE: &'static str = "text/html; charset=utf-8";

/// The body of the answer to a request that names no file.
pub const NOT_FOUND_BODY: &'static str = "File not found";

/// What the body starts with where a file could not be read.
pub const READ_ERROR_PREFIX: &'static str = "Error reading file: ";

/// The statuses that the server answers with.
#[derive(Clone, Copy, Debug, PartialEq, Eq, Structural)]
pub enum Status {
    Success,
    NotFound,
    InternalServerError,
}

impl Status {
    /// The number of the status in HTTP.
    pub open spec fn number(self) -> u16 {
        match self {
            Status::Success => 200,
            Status::NotFound => 404,
            Status::InternalServerError => 500,
        }
    }

    /// The number of the status in HTTP.
    pub fn code(self) -> (code: u16)
        ensures
            code == self.number(),
            self is Success <==> code == 200,
            self is NotFound <==> code == 404,
            self is InternalServerError <==> code == 500,
    {
        match self {
            Status::Success => 200,
            Status::NotFound => 404,
            Status::InternalServerError => 500,
        }
    }
}

/// An answer. Without a content type the header is left out.
#[derive(Debug, PartialEq, Eq)]
pub struct Response {
    pub status: Status,
    pub content_type: Option<String>,
    pub body: Vec<u8>,
}

/// An answer as a mathematical value.
#[verifier::ext_equal]
pub struct ResponseView {
    pub status: Status,
    pub content_type: Option<Seq<char>>,
    pub body: Seq<u8>,
}

impl View for Response {
    type V = ResponseView;

    open spec fn view(&self) -> ResponseView {
        ResponseView {
            status: self.status,
            content_type: match self.content_type {
                Some(text) => Some(text@),
                None => None,
            },
            body: self.body@,
        }
    }
}

/// The answer that holds the file content `body` under the type `content_type`.
pub open spec fn file_answer(content_type: Seq<char>, body: Seq<u8>) -> ResponseView {
    ResponseView { status: Status::Success, content_type: Some(content_type), body }
}

/// The answer with an HTML page: its text, and the script behind it.
pub open spec fn page_answer(page: Seq<char>, script: Seq<char>) -> ResponseView {
    file_answer(HTML_CONTENT_TYPE@, encode_utf8(page + script))
}

/// The answer to a request that names no file.
pub open spec fn not_found_answer() -> ResponseView {
    ResponseView {
        status: Status::NotFound,
        content_type: None,
        body: encode_utf8(NOT_FOUND_BODY@),
    }
}

/// The answer where reading a file failed with `error`.
pub open spec fn read_error_answer(error: Seq<char>) -> ResponseView {
    ResponseView {
        status: Status::InternalServerError,
        content_type: None,
        body: encode_utf8(READ_ERROR_PREFIX@ + error),
    }
}

impl Response {
    /// Answers with the content of a file.
    pub fn file(content_type: String, body: Vec<u8>) -> (response: Response)
        ensures
            response@ == file_answer(content_type@, body@),
            response.status == Status::Success,
            response.content_type == Some(content_type),
            response.body == body,
    {
        Response { status: Status::Success, content_type: Some(content_type), body }
    }

    /// Answers with an HTML page, with `script` appended to it.
    pub fn page(page: String, script: &str) -> (response: Response)
        ensures
            response@ == page_answer(page@, script@),
            response.status == Status::Success,
            response.content_type matches Some(media_type) && media_type@
                == "text/html; charset=utf-8"@,
            response.body@ == encode_utf8(page@ + script@),
    {
        let mut text = page;
        text.append(script);
        Response::file(HTML_CONTENT_TYPE.to_owned(), text.as_str().as_bytes_vec())
    }

    /// Answers that there is no such file.
    pub fn not_found() -> (response: Response)
        ensures
            response@ == not_found_answer(),
            response.status == Status::NotFound,
            response.content_type is None,
            response.body@ == encode_utf8("File not found"@),
    {
        Response {
            status: Status::NotFound,
            content_type: None,
            body: NOT_FOUND_BODY.as_bytes_vec(),
        }
    }

    /// Answers that a file could not be read, and why.
    pub fn read_error(error: &str) -> (response: Response)
        ensures
            response@ == read_error_answer(error@),
            response.status == Status::InternalServerError,
            response.content_type is None,
            response.body@ == encode_utf8("Error reading file: "@ + error@),
    {
        let mut text = READ_ERROR_PREFIX.to_owned();
        text.append(error);
        Response {
            status: Status::InternalServerError,
            content_type: None,
            body: text.as_str().as_bytes_vec(),
        }
    }
}

} // verus!
