use vstd::prelude::*;

verus! {

/// Media type of a response body.
#[derive(Clone, Copy, Debug, PartialEq, Eq, Structural)]
pub enum ContentType {
    /// Text fixtures, after placeholder substitution.
    Json,
    /// Fixtures that were stored base64-wrapped, and the synchronisation result.
    MsgPack,
    /// Error pages.
    Html,
    /// The empty liveness answer.
    PlainText,
}

impl ContentType {
    /// The header value, as a sequence of characters.
    pub open spec fn spec_as_str(self) -> Seq<char> {
        match self {
            ContentType::Json => "application/json"@,
            ContentType::MsgPack => "application/msgpack"@,
            ContentType::Html => "text/html; charset=utf-8"@,
            ContentType::PlainText => "text/plain; charset=utf-8"@,
        }
    }

    /// The value to send in the `content-type` header.
    pub fn as_str(self) -> (r: &'static str)
        ensures
            r@ == self.spec_as_str(),
    {
        match self {
            ContentType::Json => "application/json",
            ContentType::MsgPack => "application/msgpack",
            ContentType::Html => "text/html; charset=utf-8",
            ContentType::PlainText => "text/plain; charset=utf-8",
        }
    }
}

/// What a handler hands to the transport: a status, a media type and the body bytes.
#[derive(Debug)]
pub struct Response {
    pub status: u16,
    pub content_type: ContentType,
    pub body: Vec<u8>,
}

impl Response {
    /// A `200 OK` answer with the given media type and body.
    pub fn ok(content_type: ContentType, body: Vec<u8>) -> (r: Response)
        ensures
            r.status == 200,
            r.content_type == content_type,
            r.body@ == body@,
    {
        Response { status: 200, content_type, body }
    }
}

} // verus!
