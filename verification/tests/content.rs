use http_response::{
    decode_body, json_outcome, json_parse_failure, json_read_failure, parse_json, ErrorKind,
    IoError, IoErrorKind, Read, Response, Stream, Unit,
};

fn from_bytes(head: &str, body: &[u8]) -> Response {
    let mut wire = head.as_bytes().to_vec();
    wire.extend_from_slice(body);
    Response::do_from_stream(Stream::from_vec(wire), None).unwrap()
}

#[test]
fn a_constructed_response_gives_back_what_it_was_made_of() {
    let resp = Response::new(401, "Authorization Required", "Please log in").unwrap();
    assert_eq!(resp.status(), 401);
    assert_eq!(resp.status_text(), "Authorization Required");
    assert_eq!(resp.http_version(), "HTTP/1.1");
    assert_eq!(resp.get_url(), "");
    assert!(resp.headers_names().is_empty());
    assert_eq!(resp.into_string().unwrap(), "Please log in\n");
}

#[test]
fn a_constructed_response_has_the_documented_wire_form() {
    let made = Response::new(200, "OK", "body").unwrap();
    let parsed = "HTTP/1.1 200 OK\r\n\r\nbody\n".parse::<Response>().unwrap();
    assert_eq!(made.status(), parsed.status());
    assert_eq!(made.status_text(), parsed.status_text());
    assert_eq!(made.into_string().unwrap(), parsed.into_string().unwrap());
}

#[test]
fn a_response_cannot_be_constructed_with_a_bad_status() {
    assert_eq!(Response::new(99, "Low", "").unwrap_err().kind(), ErrorKind::BadStatus);
    assert_eq!(Response::new(0, "Zero", "").unwrap_err().kind(), ErrorKind::BadStatus);
    assert_eq!(Response::new(1000, "High", "").unwrap_err().kind(), ErrorKind::BadStatus);
    assert_eq!(Response::new(65535, "High", "").unwrap_err().kind(), ErrorKind::BadStatus);
    assert_eq!(Response::new(200, "\u{dc}ber", "").unwrap_err().kind(), ErrorKind::BadStatus);
    assert!(Response::new(100, "", "").is_ok());
    assert!(Response::new(999, "", "").is_ok());
}

#[test]
fn a_status_text_with_a_line_break_breaks_the_construction() {
    let e = Response::new(200, "O\nK", "").unwrap_err();
    assert_eq!(e.kind(), ErrorKind::Io);
    assert_eq!(e.source.unwrap().kind(), IoErrorKind::InvalidInput);
    let resp = Response::new(200, "OK\r\nX-Added: yes", "").unwrap();
    assert_eq!(resp.status_text(), "OK");
    assert_eq!(resp.header("x-added"), Some("yes"));
}

#[test]
fn the_body_is_decoded_in_its_character_set() {
    let resp = from_bytes(
        "HTTP/1.1 200 OK\r\nContent-Type: text/plain; charset=iso-8859-1\r\n\r\n",
        b"caf\xe9",
    );
    assert_eq!(resp.into_string().unwrap(), "caf\u{e9}");
    let resp = from_bytes(
        "HTTP/1.1 200 OK\r\nContent-Type: text/plain; charset=utf-16le\r\n\r\n",
        b"h\0i\0",
    );
    assert_eq!(resp.into_string().unwrap(), "hi");
}

#[test]
fn the_body_is_utf8_where_no_known_character_set_is_named() {
    let resp = from_bytes("HTTP/1.1 200 OK\r\n\r\n", "caf\u{e9}".as_bytes());
    assert_eq!(resp.into_string().unwrap(), "caf\u{e9}");
    let resp = from_bytes(
        "HTTP/1.1 200 OK\r\nContent-Type: text/plain; charset=klingon\r\n\r\n",
        "caf\u{e9}".as_bytes(),
    );
    assert_eq!(resp.into_string().unwrap(), "caf\u{e9}");
}

#[test]
fn bytes_that_do_not_decode_are_replaced() {
    let resp = from_bytes("HTTP/1.1 200 OK\r\n\r\n", b"a\xffb");
    assert_eq!(resp.into_string().unwrap(), "a\u{fffd}b");
}

#[test]
fn decode_body_knows_labels_in_any_case_and_falls_back_to_utf8() {
    assert_eq!(decode_body("latin1", b"\xe9"), "\u{e9}");
    assert_eq!(decode_body(" ISO-8859-2 ", b"\xb1"), "\u{105}");
    assert_eq!(decode_body("utf-8", b"\xc3\xa9"), "\u{e9}");
    assert_eq!(decode_body("", b"\xc3\xa9"), "\u{e9}");
    assert_eq!(decode_body("no such charset", b"\xc3\xa9"), "\u{e9}");
    assert_eq!(decode_body("utf-8", b"\xef\xbb\xbfbom"), "bom");
    assert_eq!(decode_body("utf-8", b""), "");
}

#[test]
fn json_is_read_from_any_framing() {
    let resp = from_bytes(
        "HTTP/1.1 200 OK\r\nContent-Length: 7\r\n\r\n",
        b"[1,2,3]trailing",
    );
    let v = resp.into_json().unwrap();
    assert_eq!(v, serde_json::Value::from(vec![1, 2, 3]));
    let resp = from_bytes(
        "HTTP/1.1 200 OK\r\nTransfer-Encoding: chunked\r\n\r\n",
        b"4\r\ntrue\r\n0\r\n\r\n",
    );
    assert_eq!(resp.into_json().unwrap(), serde_json::Value::Bool(true));
}

#[test]
fn a_body_that_is_not_json_is_a_data_error() {
    let resp = from_bytes("HTTP/1.1 200 OK\r\n\r\n", b"{\"hello\":");
    let e = resp.into_json().unwrap_err();
    assert_eq!(e.kind(), IoErrorKind::InvalidData);
    assert!(e.message().starts_with("Failed to read JSON: "));
    assert!(e.message().len() > "Failed to read JSON: ".len());
    let resp = from_bytes("HTTP/1.1 200 OK\r\n\r\n", b"");
    assert_eq!(resp.into_json().unwrap_err().kind(), IoErrorKind::InvalidData);
    let resp = from_bytes("HTTP/1.1 200 OK\r\n\r\n", b"1 2");
    assert_eq!(resp.into_json().unwrap_err().kind(), IoErrorKind::InvalidData);
}

#[test]
fn a_body_that_cannot_be_read_is_a_json_data_error() {
    let resp = from_bytes("HTTP/1.1 200 OK\r\nContent-Length: 9\r\n\r\n", b"[1]");
    let e = resp.into_json().unwrap_err();
    assert_eq!(e.kind(), IoErrorKind::InvalidData);
    assert_eq!(
        e.message(),
        "Failed to read JSON: response body closed before all bytes were read"
    );
}

fn response_with_deadline(wire: &[u8], deadline: u64) -> Response {
    let unit = Unit::new("GET", "http://example.com/".parse().unwrap(), None, Some(deadline));
    Response::do_from_stream_at(Stream::from_vec(wire.to_vec()), Some(unit), 0).unwrap()
}

#[test]
fn a_timeout_stays_a_timeout_when_json_is_read() {
    let e = json_read_failure(IoError::new(IoErrorKind::TimedOut, "timed out reading response"));
    assert_eq!(e.kind(), IoErrorKind::TimedOut);
    assert_eq!(e.message(), "timed out reading response");

    let wire = b"HTTP/1.1 200 OK\r\nContent-Length: 2\r\n\r\n[]";
    let e = response_with_deadline(wire, 50).into_json_at(50).unwrap_err();
    assert_eq!(e.kind(), IoErrorKind::TimedOut);
    assert_eq!(e.message(), "timed out reading response");
    assert!(response_with_deadline(wire, 50).into_json_at(49).is_ok());
    let e = response_with_deadline(wire, 1).into_json().unwrap_err();
    assert_eq!(e.kind(), IoErrorKind::TimedOut);
}

#[test]
fn a_deadline_that_passes_after_the_head_times_the_body_out() {
    let resp = response_with_deadline(b"HTTP/1.1 200 OK\r\n\r\nbody", 50);
    assert_eq!(resp.status(), 200);
    let e = resp.into_string_at(51).unwrap_err();
    assert_eq!(e.kind(), IoErrorKind::TimedOut);
    let resp = response_with_deadline(b"HTTP/1.1 200 OK\r\n\r\nbody", 50);
    assert_eq!(resp.into_string_at(49).unwrap(), "body");

    let resp = response_with_deadline(
        b"HTTP/1.1 200 OK\r\nTransfer-Encoding: chunked\r\n\r\n2\r\nhi\r\n0\r\n\r\n",
        50,
    );
    let mut reader = resp.into_reader();
    let mut buf = [0u8; 1];
    assert_eq!(reader.read_at(&mut buf, 10).unwrap(), 1);
    assert_eq!(reader.read_at(&mut buf, 50).unwrap_err().kind(), IoErrorKind::TimedOut);
    assert!(reader.take_returned().is_none());
    assert_eq!(reader.read_at(&mut buf, 20).unwrap(), 1);
    assert_eq!(&buf, b"i");
    assert_eq!(reader.read_at(&mut buf, 20).unwrap(), 0);
    assert!(reader.take_returned().is_some());
}

#[test]
fn a_body_of_length_zero_ends_whatever_the_deadline() {
    let resp = response_with_deadline(b"HTTP/1.1 204 No Content\r\n\r\nignored", 50);
    assert_eq!(resp.into_string_at(1000).unwrap(), "");
    let resp = response_with_deadline(b"HTTP/1.1 200 OK\r\nContent-Length: 0\r\n\r\n", 50);
    let mut reader = resp.into_reader();
    let mut buf = [0u8; 4];
    assert_eq!(reader.read_at(&mut buf, 1000).unwrap(), 0);
    assert!(reader.take_returned().is_some());
}

#[test]
fn a_chunk_fault_is_a_json_data_error_with_the_decoders_message() {
    let resp = from_bytes(
        "HTTP/1.1 200 OK\r\nTransfer-Encoding: chunked\r\n\r\n",
        b"2\r\n[]\r\nnot a chunk",
    );
    let e = resp.into_json().unwrap_err();
    assert_eq!(e.kind(), IoErrorKind::InvalidData);
    assert_eq!(e.message(), "Failed to read JSON: Error while decoding chunks");
    let resp = from_bytes(
        "HTTP/1.1 200 OK\r\nTransfer-Encoding: chunked\r\n\r\n",
        b"2\r\n[]\r\nnot a chunk",
    );
    let e = resp.into_string().unwrap_err();
    assert_eq!(e.kind(), IoErrorKind::InvalidInput);
    assert_eq!(e.message(), "Error while decoding chunks");
}

#[test]
fn a_refused_timeout_is_a_json_data_error_with_its_message() {
    let unit = Unit::new("GET", "http://example.com/".parse().unwrap(), Some(0), None);
    let resp =
        Response::do_from_stream(Stream::from_vec(b"HTTP/1.1 200 OK\r\n\r\n[]".to_vec()), Some(unit))
            .unwrap();
    let e = resp.into_json().unwrap_err();
    assert_eq!(e.kind(), IoErrorKind::InvalidData);
    assert_eq!(e.message(), "Failed to read JSON: cannot set a 0 duration timeout");
}

#[test]
fn other_read_failures_become_json_data_errors() {
    for kind in [
        IoErrorKind::UnexpectedEof,
        IoErrorKind::InvalidInput,
        IoErrorKind::InvalidData,
    ] {
        let e = json_read_failure(IoError::new(kind, "why"));
        assert_eq!(e.kind(), IoErrorKind::InvalidData);
        assert_eq!(e.message(), "Failed to read JSON: why");
    }
}

#[test]
fn json_failures_carry_the_message() {
    let e = json_parse_failure("expected value at line 1 column 1");
    assert_eq!(e.kind(), IoErrorKind::InvalidData);
    assert_eq!(e.message(), "Failed to read JSON: expected value at line 1 column 1");
    let e = json_outcome(Err("nope".to_string())).unwrap_err();
    assert_eq!(e.message(), "Failed to read JSON: nope");
    let v = json_outcome(Ok(serde_json::Value::Null)).unwrap();
    assert_eq!(v, serde_json::Value::Null);
}

#[test]
fn parse_json_reads_values() {
    assert_eq!(parse_json(b"null").unwrap(), serde_json::Value::Null);
    assert_eq!(parse_json(b" \"a\" ").unwrap(), serde_json::Value::from("a"));
    let e = parse_json(b"nul").unwrap_err();
    assert_eq!(e.kind(), IoErrorKind::InvalidData);
}

#[test]
fn io_errors_can_be_copied() {
    let e = IoError::new(IoErrorKind::InvalidInput, "message");
    let copy = e.duplicate();
    assert_eq!(copy.kind(), e.kind());
    assert_eq!(copy.message(), e.message());
    assert_eq!(ErrorKind::BadStatus.new().message, None);
    assert_eq!(ErrorKind::BadStatus.msg("m").message.as_deref(), Some("m"));
}

#[test]
fn the_json_value_is_the_one_that_the_body_stands_for() {
    let bodies: [&[u8]; 5] = [b"null", b"[1,2,3]", b"{\"a\":{\"b\":[true,false]}}", b"\"text\"", b"-1.5e3"];
    for body in bodies {
        let expected: serde_json::Value = serde_json::from_slice(body).unwrap();
        assert_eq!(parse_json(body).unwrap(), expected);
        let resp = from_bytes("HTTP/1.1 200 OK\r\n\r\n", body);
        assert_eq!(resp.into_json().unwrap(), expected);
    }
    assert_ne!(parse_json(b"1").unwrap(), parse_json(b"2").unwrap());
}
