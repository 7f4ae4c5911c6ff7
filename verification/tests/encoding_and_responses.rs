use flate2::read::GzDecoder;
use mini_httpd::encoding::{allows_gzip, compress, names_gzip, Compressed};
use mini_httpd::headers::Headers;
use mini_httpd::response::{append, ContentType, Response, Status};
use std::io::Read;

fn gunzip(stream: &[u8]) -> Vec<u8> {
    let mut out = Vec::new();
    GzDecoder::new(stream).read_to_end(&mut out).unwrap();
    out
}

fn stream_of(data: &[u8]) -> Vec<u8> {
    match compress(data) {
        Compressed::Stream(stream) => stream,
        other => panic!("the encoder did not deliver: {other:?}"),
    }
}

#[test]
fn gzip_is_named_as_a_whole_entry() {
    assert!(names_gzip(b"gzip"));
    assert!(names_gzip(b"deflate, gzip"));
    assert!(names_gzip(b"gzip, deflate"));
    assert!(names_gzip(b"br,gzip,deflate"));
    assert!(names_gzip(b"invalid-encoding-1, gzip, invalid-encoding-2"));
}

#[test]
fn white_space_round_an_entry_does_not_count() {
    assert!(names_gzip(b"  gzip  "));
    assert!(names_gzip(b"deflate ,\tgzip\t, br"));
    assert!(names_gzip(b"gzip\r\n"));
}

#[test]
fn gzip_inside_a_longer_entry_does_not_count() {
    assert!(!names_gzip(b"gzipped"));
    assert!(!names_gzip(b"x-gzip"));
    assert!(!names_gzip(b"gzip;q=1.0"));
    assert!(!names_gzip(b"g zip"));
    assert!(!names_gzip(b"gzip gzip"));
    assert!(!names_gzip(b"deflate, xgzip, gzipx"));
}

#[test]
fn gzip_in_capitals_does_not_count() {
    assert!(!names_gzip(b"GZIP"));
    assert!(!names_gzip(b"Gzip"));
}

#[test]
fn lists_without_gzip() {
    assert!(!names_gzip(b""));
    assert!(!names_gzip(b","));
    assert!(!names_gzip(b"deflate"));
    assert!(!names_gzip(b"deflate, br"));
    assert!(!names_gzip(b"invalid-encoding"));
}

#[test]
fn empty_entries_are_harmless() {
    assert!(names_gzip(b",gzip"));
    assert!(names_gzip(b"gzip,"));
    assert!(names_gzip(b",,gzip,,"));
    assert!(!names_gzip(b",,,"));
}

#[test]
fn request_allows_gzip_by_its_accept_encoding_field() {
    let mut headers = Headers::new();
    assert!(!allows_gzip(&headers));
    headers.add_line(b"Accept: gzip\r\n");
    assert!(!allows_gzip(&headers));
    headers.add_line(b"Accept-Encoding: deflate, gzip\r\n");
    assert!(allows_gzip(&headers));
    headers.add_line(b"accept-encoding: deflate\r\n");
    assert!(!allows_gzip(&headers));
}

#[test]
fn compressed_payload_decompresses_to_itself() {
    for data in [&b""[..], b"a", b"abc", b"hello hello hello hello hello", &[0u8; 1000][..], b"\x00\xff\x1f\x8b"] {
        assert_eq!(gunzip(&stream_of(data)), data);
    }
    let long: Vec<u8> = (0..100_000u32).map(|i| (i * 31 % 251) as u8).collect();
    assert_eq!(gunzip(&stream_of(&long)), long);
}

#[test]
fn compressed_payload_is_a_gzip_stream_and_not_the_payload() {
    let data = b"abc";
    let stream = stream_of(data);
    assert_ne!(stream, data.to_vec());
    assert_eq!(&stream[..3], &[0x1f, 0x8b, 0x08]);
    // No time stamp and no system are written, so the stream is the same
    // wherever it is made.
    assert_eq!(&stream[3..8], &[0, 0, 0, 0, 0]);
    assert_eq!(stream[9], 255);
    // The trailer ends in the length of the data.
    assert_eq!(&stream[stream.len() - 4..], &[3, 0, 0, 0]);
}

#[test]
fn encoder_delivers_on_every_payload_tried() {
    for len in [0usize, 1, 2, 31, 32, 1023, 1024, 32 * 1024, 32 * 1024 + 1, 300_000] {
        let data: Vec<u8> = (0..len).map(|i| (i * 7 % 256) as u8).collect();
        assert!(matches!(compress(&data), Compressed::Stream(_)), "{len}");
    }
}

#[test]
fn same_payload_gives_the_same_stream() {
    assert_eq!(stream_of(b"repeat me"), stream_of(b"repeat me"));
    assert_ne!(stream_of(b"repeat me"), stream_of(b"repeat you"));
}

#[test]
fn status_codes_and_reasons() {
    assert_eq!(Status::Okay.code(), 200);
    assert_eq!(Status::Created.code(), 201);
    assert_eq!(Status::BadRequest.code(), 400);
    assert_eq!(Status::NotFound.code(), 404);
    assert_eq!(Status::InternalServerError.code(), 500);
    assert_eq!(Status::Okay.reason(), b"OK");
    assert_eq!(Status::Created.reason(), b"Created");
    assert_eq!(Status::BadRequest.reason(), b"Bad Request");
    assert_eq!(Status::NotFound.reason(), b"Not Found");
    assert_eq!(Status::InternalServerError.reason(), b"Internal Server Error");
}

#[test]
fn content_type_names() {
    assert_eq!(ContentType::TextPlain.name(), b"text/plain");
    assert_eq!(ContentType::OctetStream.name(), b"application/octet-stream");
}

#[test]
fn bare_responses_on_the_wire() {
    assert_eq!(Response::bare(Status::Okay).to_bytes(), b"HTTP/1.1 200 OK\r\nContent-Length: 0\r\n\r\n".to_vec());
    assert_eq!(Response::bare(Status::Created).to_bytes(), b"HTTP/1.1 201 Created\r\nContent-Length: 0\r\n\r\n".to_vec());
    assert_eq!(Response::bare(Status::BadRequest).to_bytes(), b"HTTP/1.1 400 Bad Request\r\nContent-Length: 0\r\n\r\n".to_vec());
    assert_eq!(Response::bare(Status::NotFound).to_bytes(), b"HTTP/1.1 404 Not Found\r\nContent-Length: 0\r\n\r\n".to_vec());
    assert_eq!(
        Response::bare(Status::InternalServerError).to_bytes(),
        b"HTTP/1.1 500 Internal Server Error\r\nContent-Length: 0\r\n\r\n".to_vec()
    );
}

#[test]
fn text_response_on_the_wire() {
    let response = Response::text(b"abc".to_vec());
    assert_eq!(response.status, Status::Okay);
    assert_eq!(response.content_type, Some(ContentType::TextPlain));
    assert!(!response.gzip);
    assert_eq!(response.content_length(), 3);
    assert_eq!(response.head(), b"HTTP/1.1 200 OK\r\nContent-Type: text/plain\r\nContent-Length: 3\r\n\r\n".to_vec());
    assert_eq!(response.to_bytes(), b"HTTP/1.1 200 OK\r\nContent-Type: text/plain\r\nContent-Length: 3\r\n\r\nabc".to_vec());
}

#[test]
fn gzipped_response_announces_encoding_before_length() {
    let response = Response::gzipped_text(vec![1, 2, 3, 4, 5, 6, 7, 8, 9, 10, 11, 12]);
    assert!(response.gzip);
    assert_eq!(
        response.head(),
        b"HTTP/1.1 200 OK\r\nContent-Type: text/plain\r\nContent-Encoding: gzip\r\nContent-Length: 12\r\n\r\n".to_vec()
    );
}

#[test]
fn file_response_on_the_wire() {
    let response = Response::file(b"\x00\x01binary\xff".to_vec());
    assert_eq!(response.content_type, Some(ContentType::OctetStream));
    assert_eq!(
        response.to_bytes(),
        b"HTTP/1.1 200 OK\r\nContent-Type: application/octet-stream\r\nContent-Length: 9\r\n\r\n\x00\x01binary\xff".to_vec()
    );
}

#[test]
fn content_length_follows_the_body() {
    let mut response = Response::text(Vec::new());
    assert_eq!(response.content_length(), 0);
    assert!(response.to_bytes().ends_with(b"Content-Length: 0\r\n\r\n"));
    response.body = vec![b'x'; 1234];
    assert_eq!(response.content_length(), 1234);
    let head = response.head();
    assert!(head.ends_with(b"Content-Length: 1234\r\n\r\n"));
    assert_eq!(response.to_bytes().len(), head.len() + 1234);
}

#[test]
fn append_adds_at_the_end() {
    let mut out = b"ab".to_vec();
    append(&mut out, b"cd");
    append(&mut out, b"");
    append(&mut out, b"e");
    assert_eq!(out, b"abcde".to_vec());
}
