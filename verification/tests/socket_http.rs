use akasha::socket_http::{
    generate_socket_request, generate_socket_response, parse_framing, ReadStep, ResponseReader,
    RequestHeader, SocketError, SocketRequest, visible_ascii, response_parts, HeadParse,
};

fn header(name: &str, value: &[u8]) -> RequestHeader {
    RequestHeader { name: name.to_string(), value: value.to_vec() }
}

fn request(headers: Vec<RequestHeader>, body: Option<&[u8]>) -> SocketRequest {
    SocketRequest {
        method: "PUT".to_string(),
        path: "/proxies/GLOBAL".to_string(),
        query: None,
        headers,
        body: body.map(|b| b.to_vec()),
    }
}

#[test]
fn request_adds_content_length_after_content_type() {
    let req = request(vec![header("content-type", b"application/json")], Some(b"{\"name\":\"a\"}"));
    assert_eq!(
        generate_socket_request(&req),
        "PUT /proxies/GLOBAL HTTP/1.1\r\ncontent-type: application/json\r\ncontent-length: 12\r\n\r\n{\"name\":\"a\"}"
    );
}

#[test]
fn request_keeps_given_content_length() {
    let req = request(
        vec![header("content-type", b"text/plain"), header("content-length", b"2")],
        Some(b"hi"),
    );
    assert_eq!(
        generate_socket_request(&req),
        "PUT /proxies/GLOBAL HTTP/1.1\r\ncontent-type: text/plain\r\ncontent-length: 2\r\n\r\nhi"
    );
}

#[test]
fn request_with_query_and_no_body() {
    let mut req = request(vec![header("accept", b"*/*")], None);
    req.method = "GET".to_string();
    req.path = "/group/a/delay".to_string();
    req.query = Some("url=x&timeout=5000".to_string());
    assert_eq!(
        generate_socket_request(&req),
        "GET /group/a/delay?url=x&timeout=5000 HTTP/1.1\r\naccept: */*\r\n\r\n"
    );
}

#[test]
fn request_skips_values_that_are_not_visible_ascii() {
    let req = request(vec![header("x-name", "caf\u{e9}".as_bytes()), header("x-ok", b"a\tb")], None);
    assert_eq!(generate_socket_request(&req), "PUT /proxies/GLOBAL HTTP/1.1\r\nx-ok: a\tb\r\n\r\n");
}

#[test]
fn request_body_is_decoded_lossily_and_measured_in_bytes() {
    let req = request(vec![header("content-type", b"text/plain")], Some(&[0x61, 0xff, 0xc3, 0xa9]));
    let raw = generate_socket_request(&req);
    assert_eq!(raw, "PUT /proxies/GLOBAL HTTP/1.1\r\ncontent-type: text/plain\r\ncontent-length: 6\r\n\r\na\u{fffd}\u{e9}");
}

#[test]
fn framing_reads_length_and_chunking() {
    assert_eq!(parse_framing("HTTP/1.1 200 OK\r\nContent-Length: 12\r\n\r\n"), Ok((Some(12), false)));
    assert_eq!(parse_framing("HTTP/1.1 200 OK\r\nTransfer-Encoding: chunked\r\n\r\n"), Ok((None, true)));
    assert_eq!(parse_framing("HTTP/1.1 204 No Content\r\n\r\n"), Ok((None, false)));
    assert_eq!(
        parse_framing("HTTP/1.1 200 OK\r\ncontent-length: 1\r\nCONTENT-LENGTH:   7 \r\n\r\n"),
        Ok((Some(7), false))
    );
    assert!(parse_framing("HTTP/1.1 200 OK\r\nContent-Length: x\r\n\r\n").is_err());
}

fn feed_head(reader: &mut ResponseReader, head: &[&str]) {
    for line in head {
        assert_eq!(reader.next_step(), ReadStep::Line);
        reader.on_header_line(line, false);
    }
}

#[test]
fn reader_fixed_length_body() {
    let mut r = ResponseReader::new();
    feed_head(&mut r, &["HTTP/1.1 200 OK\r\n", "Content-Length: 5\r\n", "\r\n"]);
    assert_eq!(r.next_step(), ReadStep::Exact(5));
    r.on_bytes(b"hello");
    assert_eq!(r.next_step(), ReadStep::Done);
    assert_eq!(r.header(), "HTTP/1.1 200 OK\r\nContent-Length: 5\r\n\r\n");
    assert_eq!(r.body(), "hello");
}

#[test]
fn reader_chunked_body() {
    let mut r = ResponseReader::new();
    feed_head(&mut r, &["HTTP/1.1 200 OK\r\n", "Transfer-Encoding: chunked\r\n", "\r\n"]);
    assert_eq!(r.next_step(), ReadStep::Line);
    r.on_chunk_size_line("5\r\n");
    assert_eq!(r.next_step(), ReadStep::Exact(5));
    r.on_bytes(b"hello");
    r.on_chunk_trailer_line();
    r.on_chunk_size_line("\r\n");
    assert_eq!(r.next_step(), ReadStep::Line);
    r.on_chunk_size_line("A\r\n");
    assert_eq!(r.next_step(), ReadStep::Exact(10));
    r.on_bytes(b", world!!!");
    r.on_chunk_trailer_line();
    r.on_chunk_size_line("0\r\n");
    r.on_chunk_end_line();
    assert_eq!(r.next_step(), ReadStep::Done);
    assert_eq!(r.body(), "hello, world!!!");
}

#[test]
fn reader_without_length_has_empty_body() {
    let mut r = ResponseReader::new();
    feed_head(&mut r, &["HTTP/1.1 204 No Content\r\n", "\r\n"]);
    assert_eq!(r.next_step(), ReadStep::Done);
    assert_eq!(r.body(), "");
}

#[test]
fn reader_reports_no_response() {
    let mut r = ResponseReader::new();
    r.on_header_line("", true);
    assert_eq!(r.next_step(), ReadStep::Fail);
    match r.take_error() {
        Some(SocketError::HttpParseError(m)) => assert_eq!(m, "no response"),
        _ => panic!("expected an HTTP parse error"),
    }
}

#[test]
fn reader_reports_bad_chunk_size() {
    let mut r = ResponseReader::new();
    feed_head(&mut r, &["HTTP/1.1 200 OK\r\n", "transfer-encoding: chunked\r\n", "\r\n"]);
    r.on_chunk_size_line("zz\r\n");
    assert_eq!(r.next_step(), ReadStep::Fail);
    match r.take_error() {
        Some(SocketError::HttpParseError(m)) => {
            assert_eq!(m, "Failed to parse chunk size: invalid digit found in string")
        }
        _ => panic!("expected an HTTP parse error"),
    }
}

#[test]
fn reader_reports_bad_content_length() {
    let mut r = ResponseReader::new();
    feed_head(&mut r, &["HTTP/1.1 200 OK\r\n", "Content-Length: 99999999999999999999999\r\n", "\r\n"]);
    assert_eq!(r.next_step(), ReadStep::Fail);
    assert!(matches!(r.take_error(), Some(SocketError::ParseInt(_))));
}

#[test]
fn reader_rejects_chunks_that_are_not_utf8() {
    let mut r = ResponseReader::new();
    feed_head(&mut r, &["HTTP/1.1 200 OK\r\n", "Transfer-Encoding: chunked\r\n", "\r\n"]);
    r.on_chunk_size_line("1\r\n");
    r.on_bytes(&[0xff]);
    r.on_chunk_trailer_line();
    r.on_chunk_size_line("0\r\n");
    r.on_chunk_end_line();
    assert_eq!(r.next_step(), ReadStep::Fail);
    assert!(matches!(r.take_error(), Some(SocketError::Utf8)));
}

#[test]
fn response_parts_from_complete_head() {
    let parts = generate_socket_response(
        "HTTP/1.1 200 OK\r\nContent-Type: application/json\r\nContent-Length: 2\r\n\r\n",
        "{}",
    );
    match parts {
        Ok(p) => {
            assert_eq!(p.status, 200);
            assert_eq!(
                p.headers,
                vec![
                    ("Content-Type".to_string(), "application/json".to_string()),
                    ("Content-Length".to_string(), "2".to_string())
                ]
            );
            assert_eq!(p.body, "{}");
        }
        Err(_) => panic!("expected a response"),
    }
}

#[test]
fn response_partial_head() {
    match generate_socket_response("HTTP/1.1 200 OK\r\nContent-", "") {
        Err(SocketError::HttpParseError(m)) => assert_eq!(m, "Partial response, need more data"),
        _ => panic!("expected a partial response"),
    }
}

#[test]
fn response_invalid_head() {
    match generate_socket_response("HTTX/1.1 200 OK\r\n\r\n", "") {
        Err(SocketError::HttpParseError(m)) => assert_eq!(m, "Failed to parse response: invalid HTTP version"),
        _ => panic!("expected an invalid response"),
    }
}

#[test]
fn response_with_too_many_headers() {
    let mut head = String::from("HTTP/1.1 200 OK\r\n");
    for i in 0..17 {
        head.push_str(&format!("x-h{i}: v\r\n"));
    }
    head.push_str("\r\n");
    match generate_socket_response(&head, "") {
        Err(SocketError::HttpParseError(m)) => assert_eq!(m, "Failed to parse response: too many headers"),
        _ => panic!("expected too many headers"),
    }
}

#[test]
fn header_values_that_read_as_strings() {
    assert!(visible_ascii(&b"upload=1; download=2\tok".to_vec()));
    assert!(visible_ascii(&Vec::new()));
    assert!(!visible_ascii(&vec![b'a', 0x7f]));
    assert!(!visible_ascii(&vec![b'a', b'\n']));
    assert!(!visible_ascii(&"caf\u{e9}".as_bytes().to_vec()));
}

#[test]
fn reader_error_is_taken_once() {
    let mut r = ResponseReader::new();
    assert!(r.take_error().is_none());
    r.on_header_line("", true);
    assert!(r.take_error().is_some());
    assert!(r.take_error().is_none());
    assert_eq!(r.next_step(), ReadStep::Fail);
}

#[test]
fn response_parts_from_parsed_heads() {
    let parts = response_parts(
        HeadParse::Complete(None, vec![("x".to_string(), b"ok".to_vec()), ("y".to_string(), vec![0xff])]),
        "body",
    )
    .ok()
    .unwrap();
    assert_eq!(parts.status, 400);
    assert_eq!(parts.headers, vec![("x".to_string(), "ok".to_string()), ("y".to_string(), String::new())]);
    assert_eq!(parts.body, "body");
    match response_parts(HeadParse::Partial, "") {
        Err(SocketError::HttpParseError(m)) => assert_eq!(m, "Partial response, need more data"),
        _ => panic!("expected an error"),
    }
    match response_parts(HeadParse::Invalid("bad".to_string()), "") {
        Err(SocketError::HttpParseError(m)) => assert_eq!(m, "Failed to parse response: bad"),
        _ => panic!("expected an error"),
    }
}
