use http_response::chunked::decode;
use http_response::{
    clock_reading, read_next_line_at, read_to_end_at, read_header_block_at, read_to_end, select_body_plan, time_until_deadline, BodyPlan, BodyReader, ChunkedRead,
    DeadlineStream, ErrorKind, ErrorReader, Framed, Framing, IoError, IoErrorKind, LimitedRead,
    PoolReturnRead, Read, Response, Stream, Unit,
};

fn unit(method: &str, timeout_read: Option<u64>, deadline: Option<u64>) -> Unit {
    Unit::new(method, "http://example.com/".parse().unwrap(), timeout_read, deadline)
}

fn response(wire: &str, unit: Option<Unit>) -> Response {
    Response::do_from_stream(Stream::from_vec(wire.as_bytes().to_vec()), unit).unwrap()
}

fn stream(bytes: &[u8]) -> DeadlineStream {
    DeadlineStream::new(Stream::from_vec(bytes.to_vec()), None)
}

fn plan(framing: Framing, pool_return: bool) -> BodyPlan {
    BodyPlan { framing, pool_return }
}

#[test]
fn a_response_without_body_has_length_zero() {
    let p = select_body_plan("HTTP/1.1", 200, true, None, None, Some("10"));
    assert_eq!(p, plan(Framing::Limited(0), true));
    let p = select_body_plan("HTTP/1.1", 204, false, None, Some("chunked"), None);
    assert_eq!(p, plan(Framing::Limited(0), true));
    let p = select_body_plan("HTTP/1.1", 304, false, None, None, None);
    assert_eq!(p, plan(Framing::Limited(0), true));
}

#[test]
fn a_response_without_body_on_a_closing_connection_is_not_pooled() {
    let p = select_body_plan("HTTP/1.0", 200, true, None, None, None);
    assert_eq!(p, plan(Framing::Limited(0), false));
    let p = select_body_plan("HTTP/1.1", 304, false, Some("close"), None, Some("3"));
    assert_eq!(p, plan(Framing::Limited(0), false));
}

#[test]
fn a_closing_connection_is_read_until_it_closes() {
    let p = select_body_plan("HTTP/1.0", 200, false, None, None, Some("10"));
    assert_eq!(p, plan(Framing::UntilClose, false));
    let p = select_body_plan("HTTP/1.1", 200, false, Some("Close"), None, Some("10"));
    assert_eq!(p, plan(Framing::UntilClose, false));
    let p = select_body_plan("HTTP/1.1", 200, false, Some("close"), Some("chunked"), None);
    assert_eq!(p, plan(Framing::UntilClose, false));
    let p = select_body_plan("HTTP/1.0", 200, false, Some("keep-alive"), None, Some("10"));
    assert_eq!(p, plan(Framing::UntilClose, false));
}

#[test]
fn only_the_word_close_closes() {
    let p = select_body_plan("HTTP/1.1", 200, false, Some("keep-alive"), None, Some("10"));
    assert_eq!(p, plan(Framing::Limited(10), true));
    let p = select_body_plan("HTTP/1.1", 200, false, Some("close, te"), None, Some("10"));
    assert_eq!(p, plan(Framing::Limited(10), true));
}

#[test]
fn any_transfer_encoding_means_chunks() {
    let p = select_body_plan("HTTP/1.1", 200, false, None, Some("chunked"), Some("10"));
    assert_eq!(p, plan(Framing::Chunked, true));
    let p = select_body_plan("HTTP/1.1", 200, false, None, Some("gzip"), None);
    assert_eq!(p, plan(Framing::Chunked, true));
    let p = select_body_plan("HTTP/1.1", 200, false, None, Some(""), Some("10"));
    assert_eq!(p, plan(Framing::Limited(10), true));
}

#[test]
fn a_content_length_limits_the_body() {
    let p = select_body_plan("HTTP/1.1", 200, false, None, None, Some("0"));
    assert_eq!(p, plan(Framing::Limited(0), true));
    let p = select_body_plan("HTTP/1.1", 200, false, None, None, Some("1234"));
    assert_eq!(p, plan(Framing::Limited(1234), true));
}

#[test]
fn without_a_length_the_body_is_read_until_the_stream_closes() {
    let p = select_body_plan("HTTP/1.1", 200, false, None, None, None);
    assert_eq!(p, plan(Framing::UntilClose, false));
    let p = select_body_plan("HTTP/1.1", 200, false, None, None, Some("ten"));
    assert_eq!(p, plan(Framing::UntilClose, false));
    let p = select_body_plan("HTTP/1.1", 200, false, None, None, Some("-1"));
    assert_eq!(p, plan(Framing::UntilClose, false));
    let p = select_body_plan("HTTP/1.1", 200, false, None, None, Some(""));
    assert_eq!(p, plan(Framing::UntilClose, false));
}

#[test]
fn the_reader_follows_the_plan() {
    let r = response("HTTP/1.1 200 OK\r\nTransfer-Encoding: chunked\r\n\r\n0\r\n\r\n", None);
    assert!(matches!(r.into_reader(), BodyReader::Chunked(_)));
    let r = response("HTTP/1.1 200 OK\r\nContent-Length: 2\r\n\r\nhi", None);
    assert!(matches!(r.into_reader(), BodyReader::Limited(_)));
    let r = response("HTTP/1.1 200 OK\r\n\r\nhi", None);
    assert!(matches!(r.into_reader(), BodyReader::Unbounded(_)));
    let r = response("HTTP/1.1 200 OK\r\n\r\nhi", Some(unit("GET", Some(0), None)));
    assert!(matches!(r.into_reader(), BodyReader::Failed(_)));
}

#[test]
fn a_limited_body_stops_at_its_length() {
    let r = response("HTTP/1.1 200 OK\r\nContent-Length: 5\r\n\r\nhello world", None);
    assert_eq!(r.into_string().unwrap(), "hello");
}

#[test]
fn a_truncated_body_is_a_data_error() {
    let r = response("HTTP/1.1 200 OK\r\nContent-Length: 10\r\n\r\nabc", None);
    let e = r.into_string().unwrap_err();
    assert_eq!(e.kind(), IoErrorKind::InvalidData);
    assert_eq!(e.message(), "response body closed before all bytes were read");
}

#[test]
fn a_truncated_body_delivers_what_there_is_and_then_fails() {
    let mut lr = LimitedRead::new(stream(b"abc"), 10);
    let mut buf = [0u8; 2];
    assert_eq!(lr.read(&mut buf).unwrap(), 2);
    assert_eq!(&buf, b"ab");
    assert_eq!(lr.read(&mut buf).unwrap(), 1);
    assert_eq!(&buf, b"cb");
    assert_eq!(lr.read(&mut buf).unwrap_err().kind(), IoErrorKind::InvalidData);
    assert_eq!(lr.read(&mut buf).unwrap_err().kind(), IoErrorKind::InvalidData);
    assert_eq!(&buf, b"cb");
}

#[test]
fn short_read_keeps_the_bytes_that_came() {
    let mut lr = LimitedRead::new(stream(&[b'a'; 3]), 10);
    let mut buf = vec![0; 4];
    let e = lr.read_to_end(&mut buf).unwrap_err();
    assert_eq!(e.kind(), IoErrorKind::InvalidData);
    assert_eq!(buf, vec![0, 0, 0, 0, b'a', b'a', b'a']);
}

#[test]
fn a_limited_reader_delivers_at_most_the_buffer_and_at_most_the_limit() {
    let mut lr = LimitedRead::new(stream(b"0123456789"), 7);
    let mut buf = [0u8; 4];
    assert_eq!(lr.read(&mut buf).unwrap(), 4);
    assert_eq!(&buf, b"0123");
    assert_eq!(lr.read(&mut buf).unwrap(), 3);
    assert_eq!(&buf, b"4563");
    assert_eq!(lr.read(&mut buf).unwrap(), 0);
    assert_eq!(lr.read(&mut buf).unwrap(), 0);
    let rest: Stream = lr.into();
    assert_eq!(rest.fill_buf(), b"789");
}

#[test]
fn a_limited_reader_of_exactly_the_stream_ends_cleanly() {
    let mut lr = LimitedRead::new(stream(b"abc"), 3);
    let mut out = Vec::new();
    assert_eq!(lr.read_to_end(&mut out).unwrap(), 3);
    assert_eq!(out, b"abc");
    let mut empty = LimitedRead::new(stream(b""), 0);
    assert_eq!(empty.read_to_end(&mut out).unwrap(), 0);
    assert_eq!(out, b"abc");
}

#[test]
fn an_empty_buffer_reads_nothing() {
    let mut lr = LimitedRead::new(stream(b"abc"), 3);
    let mut none = [0u8; 0];
    assert_eq!(lr.read(&mut none).unwrap(), 0);
    let mut out = Vec::new();
    assert_eq!(lr.read_to_end(&mut out).unwrap(), 3);
    let mut lr = LimitedRead::new(stream(b""), 3);
    assert_eq!(lr.read(&mut none).unwrap_err().kind(), IoErrorKind::InvalidData);
}

#[test]
fn a_long_body_is_read_in_pieces() {
    let body: Vec<u8> = (0..20_000u32).map(|i| (i % 251) as u8).collect();
    let mut wire = format!("HTTP/1.1 200 OK\r\nContent-Length: {}\r\n\r\n", body.len()).into_bytes();
    wire.extend_from_slice(&body);
    wire.extend_from_slice(b"trailing");
    let r = Response::do_from_stream(Stream::from_vec(wire), None).unwrap();
    let mut reader = r.into_reader();
    let mut out = Vec::new();
    assert_eq!(reader.read_to_end(&mut out).unwrap(), 20_000);
    assert_eq!(out, body);
}

#[test]
fn an_unbounded_body_is_everything_that_follows_the_head() {
    let r = response("HTTP/1.1 200 OK\r\n\r\nline one\r\nline two", None);
    assert_eq!(r.into_string().unwrap(), "line one\r\nline two");
    let r = response("HTTP/1.0 200 OK\r\nContent-Length: 2\r\n\r\nhello", None);
    assert_eq!(r.into_string().unwrap(), "hello");
    let r = response("HTTP/1.1 200 OK\r\nConnection: close\r\nContent-Length: 2\r\n\r\nhello", None);
    assert_eq!(r.into_string().unwrap(), "hello");
}

#[test]
fn a_head_request_has_no_body() {
    let r = response(
        "HTTP/1.1 200 OK\r\nContent-Length: 5\r\n\r\nhello",
        Some(unit("HEAD", None, None)),
    );
    assert_eq!(r.into_string().unwrap(), "");
    let r = response(
        "HTTP/1.1 200 OK\r\nContent-Length: 5\r\n\r\nhello",
        Some(unit("head", None, None)),
    );
    assert_eq!(r.into_string().unwrap(), "");
    let r = response(
        "HTTP/1.1 200 OK\r\nContent-Length: 5\r\n\r\nhello",
        Some(unit("GET", None, None)),
    );
    assert_eq!(r.into_string().unwrap(), "hello");
    assert!(unit("HeAd", None, None).is_head());
    assert!(!unit("HEADER", None, None).is_head());
}

#[test]
fn statuses_204_and_304_have_no_body() {
    let r = response("HTTP/1.1 204 No Content\r\nContent-Length: 5\r\n\r\nhello", None);
    assert_eq!(r.into_string().unwrap(), "");
    let r = response("HTTP/1.1 304 Not Modified\r\nTransfer-Encoding: chunked\r\n\r\nhello", None);
    assert_eq!(r.into_string().unwrap(), "");
    let r = response("HTTP/1.0 204 No Content\r\n\r\nhello", None);
    assert_eq!(r.into_string().unwrap(), "");
}

#[test]
fn chunks_win_over_a_content_length() {
    let r = response(
        "HTTP/1.1 200 OK\r\nContent-Length: 3\r\nTransfer-Encoding: chunked\r\n\r\n5\r\nhello\r\n0\r\n\r\n",
        None,
    );
    assert_eq!(r.into_string().unwrap(), "hello");
}

#[test]
fn a_chunked_body_is_decoded_piece_by_piece() {
    let source = stream(b"3\r\nhel\r\nb;ext=1\r\nlo world!!!\r\n0\r\n\r\nnext");
    let mut reader = ChunkedRead::new(source);
    let mut buf = [0u8; 5];
    assert_eq!(reader.read(&mut buf).unwrap(), 5);
    assert_eq!(&buf, b"hello");
    assert_eq!(reader.read(&mut buf).unwrap(), 5);
    assert_eq!(&buf, b" worl");
    assert_eq!(reader.read(&mut buf).unwrap(), 4);
    assert_eq!(&buf[..4], b"d!!!");
    assert_eq!(reader.read(&mut buf).unwrap(), 0);
    assert_eq!(reader.into_stream().fill_buf(), b"next");
}

#[test]
fn a_chunked_body_that_does_not_decode_fails_after_what_decoded() {
    let mut reader = ChunkedRead::new(stream(b"3\r\nhel\r\nzz\r\nlo"));
    let mut out = Vec::new();
    let e = read_to_end(&mut reader, &mut out).unwrap_err();
    assert_eq!(e.kind(), IoErrorKind::InvalidInput);
    assert_eq!(out, b"hel");
    let mut buf = [0u8; 4];
    assert_eq!(reader.read(&mut buf).unwrap_err().kind(), IoErrorKind::InvalidInput);

    let r = response("HTTP/1.1 200 OK\r\nTransfer-Encoding: chunked\r\n\r\nnot chunks", None);
    assert_eq!(r.into_string().unwrap_err().kind(), IoErrorKind::InvalidInput);
}

#[test]
fn a_decoded_body_is_served_as_it_is_given() {
    let mut reader = ChunkedRead::decoded(stream(b"rest"), b"payload".to_vec(), None);
    let mut out = Vec::new();
    assert_eq!(read_to_end(&mut reader, &mut out).unwrap(), 7);
    assert_eq!(out, b"payload");
    assert_eq!(reader.into_stream().fill_buf(), b"rest");

    let mut reader =
        ChunkedRead::decoded(stream(b""), b"pay".to_vec(), Some("broken".to_string()));
    let mut out = Vec::new();
    let e = read_to_end(&mut reader, &mut out).unwrap_err();
    assert_eq!(e.kind(), IoErrorKind::InvalidInput);
    assert_eq!(e.message(), "broken");
    assert_eq!(out, b"pay");
}

#[test]
fn a_timeout_that_cannot_be_installed_is_reported_by_every_read() {
    let r = response(
        "HTTP/1.1 200 OK\r\nContent-Length: 5\r\n\r\nhello",
        Some(unit("GET", Some(0), None)),
    );
    let mut reader = r.into_reader();
    let mut buf = [0u8; 8];
    assert_eq!(reader.read(&mut buf).unwrap_err().kind(), IoErrorKind::InvalidInput);
    assert_eq!(reader.read(&mut buf).unwrap_err().kind(), IoErrorKind::InvalidInput);
    assert!(reader.take_returned().is_none());

    let r = response("HTTP/1.1 200 OK\r\n\r\nhello", Some(unit("GET", Some(0), None)));
    assert_eq!(r.into_string().unwrap_err().kind(), IoErrorKind::InvalidInput);
    let r = response("HTTP/1.1 200 OK\r\n\r\nhello", Some(unit("GET", Some(1), None)));
    assert_eq!(r.into_string().unwrap(), "hello");
}

#[test]
fn the_stream_refuses_a_timeout_of_zero() {
    let s = Stream::from_vec(Vec::new());
    assert!(s.set_read_timeout(None).is_ok());
    assert!(s.set_read_timeout(Some(30_000)).is_ok());
    assert_eq!(s.set_read_timeout(Some(0)).unwrap_err().kind(), IoErrorKind::InvalidInput);
}

#[test]
fn the_error_reader_repeats_its_error() {
    let mut reader = ErrorReader(IoError::new(IoErrorKind::TimedOut, "too late"));
    let mut buf = [7u8; 3];
    for _ in 0..3 {
        let e = reader.read(&mut buf).unwrap_err();
        assert_eq!(e.kind(), IoErrorKind::TimedOut);
        assert_eq!(e.message(), "too late");
    }
    assert_eq!(buf, [7u8; 3]);
    let mut none = [0u8; 0];
    assert!(reader.read(&mut none).is_err());
}

#[test]
fn the_connection_is_handed_back_once_at_the_clean_end() {
    let r = response(
        "HTTP/1.1 200 OK\r\nContent-Length: 5\r\n\r\nhellonext",
        Some(unit("GET", None, None)),
    );
    let mut reader = r.into_reader();
    let mut buf = [0u8; 5];
    assert_eq!(reader.read(&mut buf).unwrap(), 5);
    assert!(reader.take_returned().is_none());
    let mut none = [0u8; 0];
    assert_eq!(reader.read(&mut none).unwrap(), 0);
    assert!(reader.take_returned().is_none());
    assert_eq!(reader.read(&mut buf).unwrap(), 0);
    let (owner, connection) = reader.take_returned().unwrap();
    assert_eq!(owner.url.as_str(), "http://example.com/");
    assert_eq!(connection.fill_buf(), b"next");
    assert!(reader.take_returned().is_none());
    assert_eq!(reader.read(&mut buf).unwrap(), 0);
    assert!(reader.take_returned().is_none());
}

#[test]
fn a_chunked_connection_is_handed_back_behind_its_last_chunk() {
    let r = response(
        "HTTP/1.1 200 OK\r\nTransfer-Encoding: chunked\r\n\r\n2\r\nhi\r\n0\r\n\r\nnext",
        Some(unit("GET", None, None)),
    );
    let mut reader = r.into_reader();
    let mut out = Vec::new();
    assert_eq!(reader.read_to_end(&mut out).unwrap(), 2);
    assert_eq!(out, b"hi");
    let (_, connection) = reader.take_returned().unwrap();
    assert_eq!(connection.fill_buf(), b"next");
}

#[test]
fn a_connection_is_not_handed_back_without_a_request() {
    let r = response("HTTP/1.1 200 OK\r\nContent-Length: 2\r\n\r\nhi", None);
    let mut reader = r.into_reader();
    let mut out = Vec::new();
    assert_eq!(reader.read_to_end(&mut out).unwrap(), 2);
    assert!(reader.take_returned().is_none());
}

#[test]
fn a_connection_that_closes_is_not_handed_back() {
    let wires = [
        "HTTP/1.1 200 OK\r\n\r\nhi",
        "HTTP/1.0 200 OK\r\nContent-Length: 2\r\n\r\nhi",
        "HTTP/1.1 200 OK\r\nConnection: close\r\nContent-Length: 2\r\n\r\nhi",
        "HTTP/1.1 204 No Content\r\nConnection: close\r\n\r\n",
    ];
    for wire in wires {
        let r = response(wire, Some(unit("GET", None, None)));
        let mut reader = r.into_reader();
        let mut out = Vec::new();
        reader.read_to_end(&mut out).unwrap();
        assert!(reader.take_returned().is_none());
    }
    let r = response("HTTP/1.1 204 No Content\r\n\r\n", Some(unit("GET", None, None)));
    let mut reader = r.into_reader();
    let mut out = Vec::new();
    reader.read_to_end(&mut out).unwrap();
    assert!(reader.take_returned().is_some());
}

#[test]
fn a_truncated_body_does_not_hand_the_connection_back() {
    let r = response(
        "HTTP/1.1 200 OK\r\nContent-Length: 9\r\n\r\nhi",
        Some(unit("GET", None, None)),
    );
    let mut reader = r.into_reader();
    let mut out = Vec::new();
    assert!(reader.read_to_end(&mut out).is_err());
    assert!(reader.take_returned().is_none());
}

#[test]
fn a_pooled_reader_can_be_built_by_hand() {
    let mut pooled = PoolReturnRead::new(
        Some(unit("GET", None, None)),
        LimitedRead::new(stream(b"abcdef"), 3),
    );
    let mut out = Vec::new();
    assert_eq!(read_to_end(&mut pooled, &mut out).unwrap(), 3);
    assert_eq!(out, b"abc");
    let (_, connection) = pooled.take_returned().unwrap();
    assert_eq!(connection.fill_buf(), b"def");
}

#[test]
fn time_until_deadline_is_the_difference() {
    assert_eq!(time_until_deadline(10, 3).unwrap(), 7);
    assert_eq!(time_until_deadline(u64::MAX, 0).unwrap(), u64::MAX);
    assert_eq!(time_until_deadline(1, 0).unwrap(), 1);
}

#[test]
fn at_the_deadline_and_after_it_the_read_times_out() {
    assert_eq!(time_until_deadline(5, 5).unwrap_err().kind(), IoErrorKind::TimedOut);
    assert_eq!(time_until_deadline(5, 9).unwrap_err().kind(), IoErrorKind::TimedOut);
    assert_eq!(time_until_deadline(0, 0).unwrap_err().kind(), IoErrorKind::TimedOut);
}

#[test]
fn a_deadline_that_has_passed_times_the_head_out() {
    let e = Response::do_from_stream(
        Stream::from_vec(b"HTTP/1.1 200 OK\r\n\r\nhi".to_vec()),
        Some(unit("GET", None, Some(1))),
    )
    .unwrap_err();
    assert_eq!(e.kind(), ErrorKind::Io);
    assert_eq!(e.source.unwrap().kind(), IoErrorKind::TimedOut);
}

#[test]
fn a_deadline_that_has_passed_times_the_body_out() {
    let mut reader = DeadlineStream::new(Stream::from_vec(b"hi".to_vec()), Some(1));
    let mut buf = [0u8; 2];
    assert_eq!(reader.read(&mut buf).unwrap_err().kind(), IoErrorKind::TimedOut);
    assert_eq!(reader.read_line().unwrap_err().kind(), IoErrorKind::TimedOut);
    assert_eq!(reader.into_stream().fill_buf(), b"hi");

    let mut limited = LimitedRead::new(DeadlineStream::new(Stream::from_vec(b"hi".to_vec()), Some(1)), 2);
    assert_eq!(limited.read(&mut buf).unwrap_err().kind(), IoErrorKind::TimedOut);
    let mut chunked = ChunkedRead::new(DeadlineStream::new(Stream::from_vec(b"0\r\n\r\n".to_vec()), Some(1)));
    assert_eq!(chunked.read(&mut buf).unwrap_err().kind(), IoErrorKind::TimedOut);
}

#[test]
fn a_deadline_far_away_changes_nothing() {
    let r = response(
        "HTTP/1.1 200 OK\r\nContent-Length: 2\r\n\r\nhi",
        Some(unit("GET", Some(5_000), Some(u64::MAX))),
    );
    assert_eq!(r.into_string().unwrap(), "hi");
}

#[test]
fn the_stream_reads_lines_and_bytes() {
    let mut s = Stream::from_vec(b"one\r\ntwo\nthree".to_vec());
    assert_eq!(s.available(), 14);
    assert_eq!(s.read_line(), b"one\r\n");
    assert_eq!(s.read_line(), b"two\n");
    assert_eq!(s.fill_buf(), b"three");
    s.consume(2);
    let mut buf = [0u8; 8];
    assert_eq!(s.read(&mut buf), 3);
    assert_eq!(&buf[..3], b"ree");
    assert_eq!(s.read(&mut buf), 0);
    assert_eq!(s.read_line(), b"");
    assert_eq!(s.available(), 0);
}

#[test]
fn the_stream_records_what_is_written() {
    let mut s = Stream::from_vec(b"HTTP/1.1 200 OK\r\n\r\n".to_vec());
    assert_eq!(s.to_write_vec(), b"");
    s.write_all(b"GET / HTTP/1.1\r\n");
    s.write_all(b"\r\n");
    assert_eq!(s.to_write_vec(), b"GET / HTTP/1.1\r\n\r\n");
    let r = Response::do_from_stream(s, None).unwrap();
    assert_eq!(r.to_write_vec(), b"GET / HTTP/1.1\r\n\r\n");
}

#[test]
fn a_deadline_of_zero_allows_no_read() {
    let mut reader = DeadlineStream::new(Stream::from_vec(b"line\r\nrest".to_vec()), Some(0));
    let mut buf = [0u8; 4];
    assert_eq!(reader.check_deadline().unwrap_err().kind(), IoErrorKind::TimedOut);
    let e = reader.read(&mut buf).unwrap_err();
    assert_eq!(e.kind(), IoErrorKind::TimedOut);
    assert_eq!(e.message(), "timed out reading response");
    assert_eq!(reader.read_line().unwrap_err().kind(), IoErrorKind::TimedOut);
    assert_eq!(buf, [0u8; 4]);
    assert_eq!(reader.into_stream().fill_buf(), b"line\r\nrest");

    let mut free = DeadlineStream::new(Stream::from_vec(b"line\r\nrest".to_vec()), None);
    assert!(free.check_deadline().is_ok());
    assert_eq!(free.read_line().unwrap(), b"line\r\n");
    assert_eq!(free.read(&mut buf).unwrap(), 4);
    assert_eq!(&buf, b"rest");
}

#[test]
fn a_clock_reading_is_the_time_in_milliseconds() {
    assert_eq!(clock_reading(None), 0);
    assert_eq!(clock_reading(Some(0)), 0);
    assert_eq!(clock_reading(Some(1_700_000_000_123)), 1_700_000_000_123);
    assert_eq!(clock_reading(Some(u64::MAX as u128)), u64::MAX);
    assert_eq!(clock_reading(Some(u64::MAX as u128 + 1)), u64::MAX);
    assert_eq!(clock_reading(Some(u128::MAX)), u64::MAX);
}

#[test]
fn a_read_at_a_time_is_decided_by_the_deadline() {
    let mut reader = DeadlineStream::new(Stream::from_vec(b"abcdef".to_vec()), Some(10));
    let mut buf = [0u8; 2];
    assert_eq!(reader.read_at(&mut buf, 9).unwrap(), 2);
    assert_eq!(&buf, b"ab");
    let e = reader.read_at(&mut buf, 10).unwrap_err();
    assert_eq!(e.kind(), IoErrorKind::TimedOut);
    assert_eq!(e.message(), "timed out reading response");
    assert_eq!(&buf, b"ab");
    assert_eq!(reader.read_at(&mut buf, 11).unwrap_err().kind(), IoErrorKind::TimedOut);
    assert_eq!(reader.read_at(&mut buf, 0).unwrap(), 2);
    assert_eq!(&buf, b"cd");
    assert!(reader.check_deadline_at(9).is_ok());
    assert!(reader.check_deadline_at(10).is_err());
    assert_eq!(reader.read_line_at(10).unwrap_err().kind(), IoErrorKind::TimedOut);
    assert_eq!(reader.read_line_at(3).unwrap(), b"ef");
    let mut free = DeadlineStream::new(Stream::from_vec(b"x".to_vec()), None);
    assert_eq!(free.read_at(&mut buf, u64::MAX).unwrap(), 1);
}

#[test]
fn a_limited_reader_at_its_limit_reports_the_end_whatever_the_deadline() {
    let mut lr = LimitedRead::new(
        DeadlineStream::new(Stream::from_vec(b"abcdef".to_vec()), Some(10)),
        2,
    );
    let mut buf = [0u8; 4];
    assert_eq!(lr.read_at(&mut buf, 100).unwrap_err().kind(), IoErrorKind::TimedOut);
    assert_eq!(lr.read_at(&mut buf, 5).unwrap(), 2);
    assert_eq!(lr.read_at(&mut buf, 100).unwrap(), 0);
    assert_eq!(lr.read_at(&mut buf, 5).unwrap(), 0);
    assert_eq!(&buf, b"ab\0\0");
    assert_eq!(lr.into_stream().fill_buf(), b"cdef");
    let mut none = LimitedRead::new(DeadlineStream::new(Stream::from_vec(Vec::new()), Some(0)), 0);
    assert_eq!(none.read(&mut buf).unwrap(), 0);
}

#[test]
fn a_truncated_body_under_a_deadline_is_a_data_error_before_it_and_a_timeout_after() {
    let make = || {
        LimitedRead::new(DeadlineStream::new(Stream::from_vec(b"abc".to_vec()), Some(10)), 5)
    };
    let mut out = Vec::new();
    let e = make().read_to_end_at(&mut out, 9).unwrap_err();
    assert_eq!(e.kind(), IoErrorKind::InvalidData);
    assert_eq!(e.message(), "response body closed before all bytes were read");
    assert_eq!(out, b"abc");
    let mut out = Vec::new();
    let e = make().read_to_end_at(&mut out, 10).unwrap_err();
    assert_eq!(e.kind(), IoErrorKind::TimedOut);
    assert!(out.is_empty());
    let mut lr = make();
    let mut buf = [0u8; 8];
    assert_eq!(lr.read_at(&mut buf, 1).unwrap(), 3);
    assert_eq!(lr.read_at(&mut buf, 1).unwrap_err().kind(), IoErrorKind::InvalidData);
    assert_eq!(lr.read_at(&mut buf, 2).unwrap_err().kind(), IoErrorKind::InvalidData);
}

#[test]
fn reading_to_the_end_at_a_time_hands_the_connection_back() {
    let r = Response::do_from_stream_at(
        Stream::from_vec(b"HTTP/1.1 200 OK\r\nContent-Length: 3\r\n\r\nabcrest".to_vec()),
        Some(unit("GET", None, Some(10))),
        0,
    )
    .unwrap();
    let mut reader = r.into_reader();
    let mut out = Vec::new();
    assert_eq!(reader.read_to_end_at(&mut out, 10).unwrap_err().kind(), IoErrorKind::TimedOut);
    assert!(reader.take_returned().is_none());
    assert_eq!(reader.read_to_end_at(&mut out, 9).unwrap(), 3);
    assert_eq!(out, b"abc");
    let (_, connection) = reader.take_returned().unwrap();
    assert_eq!(connection.fill_buf(), b"rest");
    assert_eq!(read_to_end_at(&mut reader, &mut out, 9).unwrap(), 0);
    assert!(reader.take_returned().is_none());
}

#[test]
fn the_head_is_read_at_a_time() {
    let wire = b"HTTP/1.1 200 OK\r\nA: b\r\n\r\nbody".to_vec();
    let ok = Response::do_from_stream_at(
        Stream::from_vec(wire.clone()),
        Some(unit("GET", None, Some(10))),
        9,
    )
    .unwrap();
    assert_eq!(ok.header("a"), Some("b"));
    let e = Response::do_from_stream_at(
        Stream::from_vec(wire.clone()),
        Some(unit("GET", None, Some(10))),
        10,
    )
    .unwrap_err();
    assert_eq!(e.kind(), ErrorKind::Io);
    assert_eq!(e.source.unwrap().message(), "timed out reading response");
    assert!(Response::do_from_stream_at(Stream::from_vec(wire), None, u64::MAX).is_ok());

    let mut lines = DeadlineStream::new(Stream::from_vec(b"one\r\nA: b\r\n\r\nx".to_vec()), Some(10));
    assert_eq!(read_next_line_at(&mut lines, 10).unwrap_err().kind(), IoErrorKind::TimedOut);
    assert_eq!(read_next_line_at(&mut lines, 9).unwrap(), "one");
    assert_eq!(read_header_block_at(&mut lines, 10).unwrap_err().kind(), IoErrorKind::TimedOut);
    let headers = read_header_block_at(&mut lines, 9).unwrap();
    assert_eq!(headers.len(), 1);
    assert_eq!(headers[0].value(), "b");
    assert_eq!(lines.buffered(), b"x");
}

#[test]
fn chunks_are_decoded_one_read_each() {
    let d = decode(b"3\r\nhel\r\nb\r\nlo world!!!\r\n0\r\n\r\nnext");
    assert_eq!(d.payload, b"hello world!!!");
    assert_eq!(d.unread, 4);
    assert_eq!(d.fault, None);

    let d = decode(b"0\r\n\r\n");
    assert!(d.payload.is_empty());
    assert_eq!(d.unread, 0);
    assert_eq!(d.fault, None);

    let d = decode(b"");
    assert!(d.payload.is_empty());
    assert_eq!(d.fault.as_deref(), Some("Error while decoding chunks"));

    let d = decode(b"2\r\nhi\r\n3\r\nabcXX");
    assert_eq!(d.payload, b"hi");
    assert_eq!(d.fault.as_deref(), Some("Error while decoding chunks"));

    let d = decode(b"5\r\nab");
    assert_eq!(d.payload, b"ab");
    assert_eq!(d.unread, 0);
    assert_eq!(d.fault, None);
}

#[test]
fn a_limited_reader_limits_any_reader() {
    let inner = ChunkedRead::new(stream(b"6\r\nabcdef\r\n0\r\n\r\nnext"));
    let mut lr = LimitedRead::new(inner, 4);
    let mut out = Vec::new();
    assert_eq!(lr.read_to_end_at(&mut out, 0).unwrap(), 4);
    assert_eq!(out, b"abcd");

    let inner = LimitedRead::new(stream(b"abcdef"), 3);
    let mut lr = LimitedRead::new(inner, 5);
    let mut out = Vec::new();
    let e = lr.read_to_end_at(&mut out, 0).unwrap_err();
    assert_eq!(e.kind(), IoErrorKind::InvalidData);
    assert_eq!(out, b"abc");
}

#[test]
fn a_limited_reader_hands_on_the_error_underneath() {
    let inner = ChunkedRead::decoded(stream(b""), b"ab".to_vec(), Some("broken".to_string()));
    let mut lr = LimitedRead::new(inner, 5);
    let mut out = Vec::new();
    let e = lr.read_to_end_at(&mut out, 0).unwrap_err();
    assert_eq!(e.kind(), IoErrorKind::InvalidInput);
    assert_eq!(e.message(), "broken");
    assert_eq!(out, b"ab");

    let inner = ChunkedRead::decoded(stream(b""), b"ab".to_vec(), Some("broken".to_string()));
    let mut lr = LimitedRead::new(inner, 2);
    let mut out = Vec::new();
    assert_eq!(lr.read_to_end_at(&mut out, 0).unwrap(), 2);
}

#[test]
fn a_reader_knows_when_nothing_is_pending() {
    let mut s = stream(b"ab");
    assert!(!s.is_at_end());
    let mut buf = [0u8; 2];
    s.read_at(&mut buf, 0).unwrap();
    assert!(s.is_at_end());

    let mut lr = LimitedRead::new(stream(b"abc"), 2);
    assert!(!lr.is_at_end());
    lr.read_at(&mut buf, 0).unwrap();
    assert!(lr.is_at_end());
    assert!(LimitedRead::new(stream(b""), 2).is_at_end());
    assert!(LimitedRead::new(stream(b"abc"), 0).is_at_end());

    assert!(ErrorReader(IoError::new(IoErrorKind::TimedOut, "late")).is_at_end());
    assert!(ChunkedRead::new(stream(b"0\r\n\r\n")).is_at_end());
    assert!(!ChunkedRead::new(stream(b"1\r\na\r\n0\r\n\r\n")).is_at_end());

    let r = response("HTTP/1.1 200 OK\r\nContent-Length: 1\r\n\r\nx", None);
    let mut reader = r.into_reader();
    assert!(!reader.is_at_end());
    let mut out = Vec::new();
    reader.read_to_end(&mut out).unwrap();
    assert!(reader.is_at_end());
}
