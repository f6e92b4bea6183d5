use obt_server::error::Status;
use obt_server::fixture::{decimal_digits, placeholder, render, render_with, substitute, Param};
use obt_server::response::ContentType;
use obt_server::text::{append_bytes, bytes_eq, copy_range, matches_at};

fn param(name: &str, value: &str) -> Param {
    Param { name: name.as_bytes().to_vec(), value: value.as_bytes().to_vec() }
}

#[test]
fn every_occurrence_of_a_placeholder_is_replaced() {
    assert_eq!(substitute(b"a{x}b{x}c", &vec![param("x", "12")]), b"a12b12c".to_vec());
    assert_eq!(substitute(b"{x}{x}", &vec![param("x", "")]), b"".to_vec());
    assert_eq!(substitute(b"{x}", &vec![param("x", "{x}{x}")]), b"{x}{x}".to_vec());
}

#[test]
fn text_without_the_placeholder_stays() {
    let params = vec![param("x", "12")];
    assert_eq!(substitute(b"no placeholder", &params), b"no placeholder".to_vec());
    assert_eq!(substitute(b"", &params), b"".to_vec());
    assert_eq!(substitute(b"{x", &params), b"{x".to_vec());
    assert_eq!(substitute(b"x}", &params), b"x}".to_vec());
    assert_eq!(substitute(b"{X}", &params), b"{X}".to_vec());
}

#[test]
fn substitution_reads_from_the_left_without_overlap() {
    assert_eq!(substitute(b"{{x}x}", &vec![param("x", "")]), b"{x}".to_vec());
    assert_eq!(substitute(b"{{x}}", &vec![param("x", "x")]), b"{x}".to_vec());
    assert_eq!(substitute(b"{a}{a", &vec![param("a", "1")]), b"1{a".to_vec());
}

#[test]
fn substitution_of_one_parameter_agrees_with_std_on_text() {
    let cases = [
        ("{\"lang\":\"{language}\",\"again\":\"{language}\"}", "language", "zh-hans"),
        ("{country}{country}{country}", "country", "JP"),
        ("x{language", "language", "en"),
        ("caf\u{e9} {language} \u{4e2d}\u{6587}", "language", "fran\u{e7}ais"),
    ];
    for (text, name, value) in cases {
        assert_eq!(
            substitute(text.as_bytes(), &vec![param(name, value)]),
            text.replace(&format!("{{{}}}", name), value).into_bytes()
        );
    }
}

#[test]
fn values_are_put_in_verbatim() {
    let params = vec![param("country", "{language}"), param("language", "en")];
    assert_eq!(substitute(b"{country}/{language}", &params), b"{language}/en".to_vec());
    let swapped = vec![param("language", "en"), param("country", "{language}")];
    assert_eq!(substitute(b"{country}/{language}", &swapped), b"{language}/en".to_vec());
    let chained = vec![param("a", "{b}"), param("b", "done")];
    assert_eq!(substitute(b"{a}", &chained), b"{b}".to_vec());
    assert_eq!(substitute(b"{a}{b}", &chained), b"{b}done".to_vec());
}

#[test]
fn first_parameter_of_a_name_wins() {
    let params = vec![param("x", "first"), param("x", "second")];
    assert_eq!(substitute(b"{x} {x}", &params), b"first first".to_vec());
}

#[test]
fn byte_helpers_do_what_they_say() {
    let mut out = b"ab".to_vec();
    append_bytes(&mut out, b"cd");
    assert_eq!(out, b"abcd".to_vec());
    assert_eq!(copy_range(b"abcdef", 2, 4), b"cd".to_vec());
    assert_eq!(copy_range(b"abcdef", 3, 3), b"".to_vec());
    assert!(bytes_eq(b"abc", b"abc"));
    assert!(!bytes_eq(b"abc", b"abd"));
    assert!(!bytes_eq(b"abc", b"ab"));
    assert!(matches_at(b"hello", 2, b"llo"));
    assert!(!matches_at(b"hello", 3, b"llo"));
    assert!(matches_at(b"hello", 5, b""));
}

#[test]
fn placeholder_is_the_name_in_braces() {
    assert_eq!(placeholder(b"language"), b"{language}".to_vec());
    assert_eq!(placeholder(b""), b"{}".to_vec());
}

#[test]
fn substitute_fills_every_parameter() {
    let params = vec![param("country", "JP"), param("language", "ja")];
    assert_eq!(
        substitute(b"/{country}/{language}/{country}", &params),
        b"/JP/ja/JP".to_vec()
    );
    assert_eq!(substitute(b"{a}", &Vec::new()), b"{a}".to_vec());
}

#[test]
fn decimal_digits_of_edge_values() {
    assert_eq!(decimal_digits(0), b"0".to_vec());
    assert_eq!(decimal_digits(7), b"7".to_vec());
    assert_eq!(decimal_digits(10), b"10".to_vec());
    assert_eq!(decimal_digits(1_000_000), b"1000000".to_vec());
    assert_eq!(decimal_digits(u32::MAX), b"4294967295".to_vec());
}

#[test]
fn decimal_digits_read_back() {
    for n in [0u32, 1, 9, 10, 99, 100, 12345, 4_000_000_000, u32::MAX] {
        let text = String::from_utf8(decimal_digits(n)).unwrap();
        assert_eq!(text, n.to_string());
        assert_eq!(text.parse::<u32>().unwrap(), n);
    }
}

#[test]
fn base64_fixture_is_served_as_msgpack() {
    let r = render(b"aGVsbG8=", &Vec::new()).unwrap();
    assert_eq!(r.status, 200);
    assert_eq!(r.content_type, ContentType::MsgPack);
    assert_eq!(r.body, b"hello".to_vec());
}

#[test]
fn base64_fixture_ignores_parameters() {
    let r = render(b"gqFhAQ==", &vec![param("a", "zz")]).unwrap();
    assert_eq!(r.content_type, ContentType::MsgPack);
    assert_eq!(r.body, vec![0x82, 0xa1, 0x61, 0x01]);
}

#[test]
fn text_that_is_valid_base64_is_served_decoded() {
    let r = render(b"abcd", &Vec::new()).unwrap();
    assert_eq!(r.content_type, ContentType::MsgPack);
    assert_eq!(r.body, vec![0x69, 0xb7, 0x1d]);
    let empty = render(b"", &Vec::new()).unwrap();
    assert_eq!(empty.content_type, ContentType::MsgPack);
    assert_eq!(empty.body, Vec::<u8>::new());
}

#[test]
fn text_fixture_is_served_as_json_with_substitution() {
    let contents = b"{\"lang\": \"{language}\", \"again\": \"{language}\"}";
    let r = render(contents, &vec![param("language", "zh-hans")]).unwrap();
    assert_eq!(r.status, 200);
    assert_eq!(r.content_type, ContentType::Json);
    assert_eq!(r.body, b"{\"lang\": \"zh-hans\", \"again\": \"zh-hans\"}".to_vec());
}

#[test]
fn text_fixture_without_parameters_is_served_verbatim() {
    let contents = b"{\"keep\": \"{language}\"}\n";
    let r = render(contents, &Vec::new()).unwrap();
    assert_eq!(r.content_type, ContentType::Json);
    assert_eq!(r.body, contents.to_vec());
}

#[test]
fn rendering_twice_gives_the_same_bytes() {
    let contents = b"{\"c\": \"{country}\"}";
    let first = render(contents, &vec![param("country", "DE")]).unwrap();
    let second = render(contents, &vec![param("country", "DE")]).unwrap();
    assert_eq!(first.body, second.body);
    assert_eq!(first.content_type, second.content_type);
}

#[test]
fn fixture_that_is_neither_base64_nor_text_fails() {
    let contents = [0xffu8, 0xfe, 0x00];
    let e = render(&contents, &Vec::new()).unwrap_err();
    assert_eq!(e.status_code(), Status::InternalServerError);
    assert_eq!(e.desc(), "invalid utf-8 sequence of 1 bytes from index 0");
    assert_eq!(e.desc(), std::str::from_utf8(&contents).unwrap_err().to_string());
}

#[test]
fn truncated_text_fails_with_the_decoder_message() {
    let contents = [b'{', 0xe2, 0x82];
    let e = render(&contents, &Vec::new()).unwrap_err();
    assert_eq!(e.status_code(), Status::InternalServerError);
    assert_eq!(e.desc(), "incomplete utf-8 byte sequence from index 1");
}

#[test]
fn render_with_follows_the_given_outcomes() {
    let params = vec![param("x", "1")];
    let decoded = render_with(b"{x}", &params, Some(vec![1, 2, 3]), None).unwrap();
    assert_eq!(decoded.content_type, ContentType::MsgPack);
    assert_eq!(decoded.body, vec![1, 2, 3]);
    let text = render_with(b"{x}", &params, None, None).unwrap();
    assert_eq!(text.content_type, ContentType::Json);
    assert_eq!(text.body, b"1".to_vec());
    let failed = render_with(b"{x}", &params, None, Some("bad text".to_string())).unwrap_err();
    assert_eq!(failed.status_code(), Status::InternalServerError);
    assert_eq!(failed.desc(), "bad text");
    let both = render_with(b"{x}", &params, Some(vec![9]), Some("bad text".to_string())).unwrap();
    assert_eq!(both.body, vec![9]);
}

#[test]
fn documents_fixture_keeps_a_placeholder_that_came_in_as_a_value() {
    let params = vec![param("country", "{language}"), param("language", "en")];
    let r = render(b"{country}/{language}", &params).unwrap();
    assert_eq!(r.status, 200);
    assert_eq!(r.content_type, ContentType::Json);
    assert_eq!(r.body, b"{language}/en".to_vec());
}
