use obt_server::error::{FailureSource, ObtError, Status};
use obt_server::response::{ContentType, Response};

#[test]
fn status_codes_are_the_http_numbers() {
    assert_eq!(Status::NotFound.code(), 404);
    assert_eq!(Status::Forbidden.code(), 403);
    assert_eq!(Status::InternalServerError.code(), 500);
}

#[test]
fn status_lines_carry_the_canonical_reason() {
    assert_eq!(Status::NotFound.line(), "404 Not Found");
    assert_eq!(Status::Forbidden.line(), "403 Forbidden");
    assert_eq!(Status::InternalServerError.line(), "500 Internal Server Error");
}

#[test]
fn new_keeps_status_and_description() {
    let e = ObtError::new(Status::Forbidden, "request body overflow");
    assert_eq!(e.status_code(), Status::Forbidden);
    assert_eq!(e.desc(), "request body overflow");
}

#[test]
fn io_failures_become_not_found() {
    let e = ObtError::from_failure(FailureSource::Io, "No such file or directory (os error 2)");
    assert_eq!(e.status_code(), Status::NotFound);
    assert_eq!(e.desc(), "No such file or directory (os error 2)");
}

#[test]
fn other_failures_become_internal_errors() {
    let e = ObtError::from_failure(FailureSource::Other, "Invalid padding");
    assert_eq!(e.status_code(), Status::InternalServerError);
    assert_eq!(e.desc(), "Invalid padding");
}

#[test]
fn error_text_has_the_prefix() {
    let e = ObtError::new(Status::NotFound, "missing");
    assert_eq!(e.to_text(), "Error: missing");
    let empty = ObtError::new(Status::NotFound, "");
    assert_eq!(empty.to_text(), "Error: ");
}

#[test]
fn error_page_for_a_missing_file() {
    let r = ObtError::new(Status::NotFound, "missing").error_response();
    assert_eq!(r.status, 404);
    assert_eq!(r.content_type, ContentType::Html);
    assert_eq!(
        r.body,
        b"<html>\ndy>\n<center><h1>404 Not Found</h1></center>\n<hr><center>Error: missing</center>\n</body>\n</html>"
            .to_vec()
    );
}

#[test]
fn error_page_for_a_refused_request() {
    let r = ObtError::new(Status::Forbidden, "Request wrong content type").error_response();
    assert_eq!(r.status, 403);
    assert_eq!(
        String::from_utf8(r.body).unwrap(),
        "<html>\ndy>\n<center><h1>403 Forbidden</h1></center>\n<hr><center>Error: Request wrong content type</center>\n</body>\n</html>"
    );
}

#[test]
fn error_page_for_an_internal_error_with_non_ascii_text() {
    let r = ObtError::new(Status::InternalServerError, "d\u{e9}cod\u{e9} {desc}").error_response();
    assert_eq!(r.status, 500);
    assert_eq!(
        String::from_utf8(r.body).unwrap(),
        "<html>\ndy>\n<center><h1>500 Internal Server Error</h1></center>\n<hr><center>Error: d\u{e9}cod\u{e9} {desc}</center>\n</body>\n</html>"
    );
}

#[test]
fn content_types_have_their_header_values() {
    assert_eq!(ContentType::Json.as_str(), "application/json");
    assert_eq!(ContentType::MsgPack.as_str(), "application/msgpack");
    assert_eq!(ContentType::Html.as_str(), "text/html; charset=utf-8");
    assert_eq!(ContentType::PlainText.as_str(), "text/plain; charset=utf-8");
}

#[test]
fn ok_response_has_status_200() {
    let r = Response::ok(ContentType::Json, b"{}".to_vec());
    assert_eq!(r.status, 200);
    assert_eq!(r.content_type, ContentType::Json);
    assert_eq!(r.body, b"{}".to_vec());
}
