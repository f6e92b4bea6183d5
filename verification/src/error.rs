use vstd::prelude::*;
use vstd::string::*;
use vstd::slice::slice_to_vec;
use crate::response::{ContentType, Response};

verus! {

/// The statuses a failed request can carry.
#[derive(Clone, Copy, Debug, PartialEq, Eq, Structural)]
pub enum Status {
    /// 404: a fixture or credential file is missing.
    NotFound,
    /// 403: oversized body, wrong content type, or an escape from the working directory.
    Forbidden,
    /// 500: every other failure.
    InternalServerError,
}

/// Where a failure that the handlers did not anticipate came from.
#[derive(Clone, Copy, Debug, PartialEq, Eq, Structural)]
pub enum FailureSource {
    /// An I/O error, which is taken to mean that a file is missing.
    Io,
    /// Anything else: a decoding error, invalid text, a transport error.
    Other,
}

/// The status line of `code` as `http::StatusCode` displays it: for `code`
/// outside 100..=999 `StatusCode::from_u16` fails and the result is `None`;
/// for the three codes this library uses, the result is the number, a space
/// and the canonical reason phrase from the crate's table.
#[verifier::external_body]
fn canonical_status_line(code: u16) -> (r: Option<String>)
    ensures
        r.is_some() <==> 100 <= code <= 999,
        code == 403 ==> r.is_some() && r.unwrap()@ == "403 Forbidden"@,
        code == 404 ==> r.is_some() && r.unwrap()@ == "404 Not Found"@,
        code == 500 ==> r.is_some() && r.unwrap()@ == "500 Internal Server Error"@,
{
    match ntex::http::StatusCode::from_u16(code) {
        Ok(status) => Some(status.to_string()),
        Err(_) => None,
    }
}

impl Status {
    /// The numeric HTTP status.
    pub open spec fn spec_code(self) -> u16 {
        match self {
            Status::NotFound => 404,
            Status::Forbidden => 403,
            Status::InternalServerError => 500,
        }
    }

    /// The numeric HTTP status.
    #[verifier::when_used_as_spec(spec_code)]
    pub fn code(self) -> (r: u16)
        ensures
            r == self.spec_code(),
    {
        match self {
            Status::NotFound => 404,
            Status::Forbidden => 403,
            Status::InternalServerError => 500,
        }
    }

    /// The status line: the number, a space and the reason phrase.
    pub open spec fn spec_line(self) -> Seq<char> {
        match self {
            Status::NotFound => "404 Not Found"@,
            Status::Forbidden => "403 Forbidden"@,
            Status::InternalServerError => "500 Internal Server Error"@,
        }
    }

    /// The status line: the number, a space and the reason phrase.
    pub fn line(self) -> (r: String)
        ensures
            r@ == self.spec_line(),
    {
        canonical_status_line(self.code()).unwrap()
    }
}

/// The text of an error as it is shown to the client.
pub open spec fn error_text(desc: Seq<char>) -> Seq<char> {
    "Error: "@ + desc
}

/// The HTML page sent for an error with the given status line and description.
pub open spec fn error_page(status_line: Seq<char>, desc: Seq<char>) -> Seq<char> {
    "<html>\ndy>\n<center><h1>"@ + status_line + "</h1></center>\n<hr><center>"@ + error_text(desc)
        + "</center>\n</body>\n</html>"@
}

/// A failed request: an HTTP status and a description for the error page.
#[derive(Debug)]
pub struct ObtError {
    desc: String,
    status_code: Status,
}

impl ObtError {
    /// The status this error is answered with.
    pub closed spec fn status(&self) -> Status {
        self.status_code
    }

    /// The description this error carries.
    pub closed spec fn description(&self) -> Seq<char> {
        self.desc@
    }

    /// An error with the given status and description.
    pub fn new(status_code: Status, desc: &str) -> (r: Self)
        ensures
            r.status() == status_code,
            r.description() == desc@,
    {
        ObtError { desc: desc.to_owned(), status_code }
    }

    /// The error for a failure that no handler anticipated: a missing file
    /// where it came from I/O, an internal error otherwise. The description
    /// is the failure's own message.
    pub fn from_failure(source: FailureSource, desc: &str) -> (r: Self)
        ensures
            r.status() == (match source {
                FailureSource::Io => Status::NotFound,
                FailureSource::Other => Status::InternalServerError,
            }),
            r.description() == desc@,
    {
        let status_code = match source {
            FailureSource::Io => Status::NotFound,
            FailureSource::Other => Status::InternalServerError,
        };
        ObtError { desc: desc.to_owned(), status_code }
    }

    /// The status this error is answered with.
    pub fn status_code(&self) -> (r: Status)
        ensures
            r == self.status(),
    {
        self.status_code
    }

    /// The description this error carries.
    pub fn desc(&self) -> (r: &str)
        ensures
            r@ == self.description(),
    {
        self.desc.as_str()
    }

    /// The error as text: `Error: ` and the description.
    pub fn to_text(&self) -> (r: String)
        ensures
            r@ == error_text(self.description()),
    {
        let mut text = "Error: ".to_owned();
        text.append(self.desc.as_str());
        text
    }

    /// The answer for this error: its status, and a small HTML page that
    /// shows the status line and the error text.
    pub fn error_response(&self) -> (r: Response)
        ensures
            r.status == self.status().spec_code(),
            r.content_type == ContentType::Html,
            r.body@ == vstd::utf8::encode_utf8(
                error_page(self.status().spec_line(), self.description()),
            ),
    {
        let mut page = "<html>\ndy>\n<center><h1>".to_owned();
        let line = self.status_code.line();
        page.append(line.as_str());
        page.append("</h1></center>\n<hr><center>");
        let text = self.to_text();
        page.append(text.as_str());
        page.append("</center>\n</body>\n</html>");
        let body = slice_to_vec(page.as_str().as_bytes());
        Response { status: self.status_code.code(), content_type: ContentType::Html, body }
    }
}

} // verus!
