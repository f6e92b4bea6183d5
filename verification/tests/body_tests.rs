use obt_server::body::{check_content_type, collect, decode_failure, BodyBuffer, MAX_SIZE};
use obt_server::error::Status;

const MSGPACK: &[u8] = b"application/msgpack";

#[test]
fn the_limit_is_256_kib() {
    assert_eq!(MAX_SIZE, 262_144);
}

#[test]
fn body_of_exactly_the_limit_is_accepted() {
    let chunks = vec![vec![7u8; MAX_SIZE]];
    let body = collect(Some(MSGPACK), &chunks).unwrap();
    assert_eq!(body.len(), MAX_SIZE);
    assert!(body.iter().all(|b| *b == 7));
}

#[test]
fn body_one_byte_over_the_limit_is_refused() {
    let chunks = vec![vec![7u8; MAX_SIZE + 1]];
    let e = collect(Some(MSGPACK), &chunks).unwrap_err();
    assert_eq!(e.status_code(), Status::Forbidden);
    assert_eq!(e.status_code().code(), 403);
    assert_eq!(e.desc(), "request body overflow");
}

#[test]
fn limit_counts_all_chunks_together() {
    let at_limit = vec![vec![1u8; MAX_SIZE - 10], vec![2u8; 4], vec![], vec![3u8; 6]];
    assert_eq!(collect(Some(MSGPACK), &at_limit).unwrap().len(), MAX_SIZE);
    let over = vec![vec![1u8; MAX_SIZE - 10], vec![2u8; 4], vec![3u8; 7]];
    let e = collect(Some(MSGPACK), &over).unwrap_err();
    assert_eq!(e.status_code(), Status::Forbidden);
    let over_then_small = vec![vec![1u8; MAX_SIZE], vec![2u8; 1], vec![]];
    assert!(collect(Some(MSGPACK), &over_then_small).is_err());
}

#[test]
fn chunks_are_joined_in_order() {
    let chunks = vec![b"ab".to_vec(), b"".to_vec(), b"cde".to_vec(), b"f".to_vec()];
    assert_eq!(collect(Some(MSGPACK), &chunks).unwrap(), b"abcdef".to_vec());
    assert_eq!(collect(Some(MSGPACK), &Vec::new()).unwrap(), Vec::<u8>::new());
}

#[test]
fn wrong_content_type_is_refused_whatever_the_body() {
    for declared in ["application/json", "application/msgpack; charset=utf-8", "", "APPLICATION/MSGPACK", "application/msgpac"] {
        let valid_body = vec![vec![0x80u8]];
        let e = collect(Some(declared.as_bytes()), &valid_body).unwrap_err();
        assert_eq!(e.status_code(), Status::Forbidden);
        assert_eq!(e.desc(), "Request wrong content type");
        let e = collect(Some(declared.as_bytes()), &Vec::new()).unwrap_err();
        assert_eq!(e.status_code(), Status::Forbidden);
    }
}

#[test]
fn wrong_content_type_wins_over_overflow() {
    let chunks = vec![vec![0u8; MAX_SIZE + 1]];
    let e = collect(Some(b"text/plain"), &chunks).unwrap_err();
    assert_eq!(e.desc(), "Request wrong content type");
}

#[test]
fn absent_content_type_is_taken() {
    assert!(check_content_type(None).is_ok());
    assert!(check_content_type(Some(MSGPACK)).is_ok());
    assert_eq!(collect(None, &vec![b"x".to_vec()]).unwrap(), b"x".to_vec());
}

#[test]
fn buffer_refuses_the_chunk_that_would_overflow_and_keeps_the_rest() {
    let mut buffer = BodyBuffer::new();
    assert_eq!(buffer.len(), 0);
    assert!(buffer.push(&vec![1u8; MAX_SIZE - 1]).is_ok());
    assert_eq!(buffer.len(), MAX_SIZE - 1);
    let e = buffer.push(&[2u8, 2]).unwrap_err();
    assert_eq!(e.status_code(), Status::Forbidden);
    assert_eq!(e.desc(), "request body overflow");
    assert_eq!(buffer.len(), MAX_SIZE - 1);
    assert!(buffer.push(&[3u8]).is_ok());
    assert!(buffer.push(&[]).is_ok());
    assert!(buffer.push(&[4u8]).is_err());
    let bytes = buffer.into_bytes();
    assert_eq!(bytes.len(), MAX_SIZE);
    assert_eq!(bytes[MAX_SIZE - 1], 3);
    assert_eq!(bytes[0], 1);
}

#[test]
fn decode_failure_embeds_the_decoder_message() {
    let e = decode_failure("invalid type: integer `1`, expected struct SaveSlots");
    assert_eq!(e.status_code(), Status::InternalServerError);
    assert_eq!(e.status_code().code(), 500);
    assert_eq!(
        e.desc(),
        "Cannot deserialize message: invalid type: integer `1`, expected struct SaveSlots"
    );
}
