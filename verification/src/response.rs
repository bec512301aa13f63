//! The response: status, headers, history, and the body that is still on
//! the stream.

use std::sync::Arc;
use vstd::prelude::*;
use vstd::string::*;
use vstd::utf8::{decode_utf8, encode_utf8};
use serde_json::Value;
use url::Url;
use crate::body::{planned_supply, select_body_plan, BodyFacts, BodyReader, Framing};
use crate::charset::{
    charset_from_content_type, charset_of, decodable, decode_body, plain_utf8, text_in_charset,
    text_of, DEFAULT_CHARACTER_SET, DEFAULT_CONTENT_TYPE,
};
use crate::error::{Error, ErrorKind, ErrorView, Fault, IoError, IoErrorKind};
use crate::head::{header_block, next_line, read_header_block_at, read_next_line_at, views};
use crate::header::{Header, HeaderView};
use crate::json::{
    json_read_fault, json_read_failure, parse_json, parsed_as_json,
};
use crate::pool::ErrorReader;
use crate::read::{Framed, Read, Supply};
use crate::status_line::{
    parse_status_line, status_code_of, well_formed_status_line, ResponseStatusIndex,
};
use crate::stream::{
    expired, line_len, now_millis, refused_timeout_fault, timeout_fault, DeadlineStream, Stream,
};
use crate::text::{
    decimal, decimal_text, eq_ignoring_ascii_case, find_char, lowercased, to_ascii_lowercase, trim,
    trimmed,
};
use crate::unit::{url_as_str, url_clone, url_text, Unit};
use crate::wire::wire_form;

verus! {

/// The values of the headers with the given name, in their order. The case
/// of ASCII letters in names does not count.
pub open spec fn values_of(headers: Seq<HeaderView>, name: Seq<char>) -> Seq<Seq<char>>
    decreases headers.len(),
{
    if headers.len() == 0 {
        Seq::empty()
    } else {
        let before = values_of(headers.drop_last(), name);
        if eq_ignoring_ascii_case(headers.last().name, name) {
            before.push(headers.last().value)
        } else {
            before
        }
    }
}

/// The value of the first header with the given name.
pub open spec fn first_value(headers: Seq<HeaderView>, name: Seq<char>) -> Option<Seq<char>> {
    let values = values_of(headers, name);
    if values.len() > 0 {
        Some(values[0])
    } else {
        None
    }
}

/// The values found in the first `k` headers start the values found in all.
pub proof fn lemma_values_prefix(headers: Seq<HeaderView>, name: Seq<char>, k: int)
    requires
        0 <= k <= headers.len(),
    ensures
        values_of(headers.take(k), name).len() <= values_of(headers, name).len(),
        values_of(headers, name).take(values_of(headers.take(k), name).len() as int) == values_of(
            headers.take(k),
            name,
        ),
    decreases headers.len() - k,
{
    if k == headers.len() {
        assert(headers.take(k) =~= headers);
        assert(values_of(headers, name).take(values_of(headers, name).len() as int) =~= values_of(
            headers,
            name,
        ));
    } else {
        let shorter = headers.drop_last();
        assert(shorter.take(k) =~= headers.take(k));
        lemma_values_prefix(shorter, name, k);
        let some = values_of(headers.take(k), name);
        assert(values_of(headers, name).take(some.len() as int) =~= values_of(shorter, name).take(
            some.len() as int,
        ));
    }
}

/// The content type that a `Content-Type` header gives: what precedes the
/// first `;`, and `text/plain` where there is no such header.
pub open spec fn content_type_of(header: Option<Seq<char>>) -> Seq<char> {
    match header {
        Some(value) => match value.index_of_first(';') {
            Some(semi) => value.take(semi),
            None => value,
        },
        None => DEFAULT_CONTENT_TYPE@,
    }
}

/// The views of a list of texts.
pub open spec fn texts(values: Seq<&str>) -> Seq<Seq<char>> {
    values.map_values(|value: &str| value@)
}

/// The views of a list of owned texts.
pub open spec fn owned_texts(values: Seq<String>) -> Seq<Seq<char>> {
    values.map_values(|value: String| value@)
}

/// The names of a list of headers, in lower case.
pub open spec fn lower_names(headers: Seq<HeaderView>) -> Seq<Seq<char>> {
    headers.map_values(|header: HeaderView| lowercased(header.name))
}

/// The head of a response as it stands on the wire: the status line, the
/// headers that were accepted, and the number of bytes that the head takes.
pub struct Head {
    pub status_line: Seq<char>,
    pub headers: Seq<HeaderView>,
    pub length: int,
}

/// Why bytes do not start with the head of a response.
pub enum HeadFailure {
    /// The status line is malformed.
    BadStatus,
    /// A line could not be read.
    Io(Fault),
}

/// The head that `bytes` start with: a well-formed status line and a header
/// block.
pub open spec fn parse_head(bytes: Seq<u8>) -> Result<Head, HeadFailure> {
    match next_line(bytes) {
        Err(kind) => Err(HeadFailure::Io(kind)),
        Ok(status_line) => {
            if !well_formed_status_line(status_line) {
                Err(HeadFailure::BadStatus)
            } else {
                match header_block(bytes.skip(line_len(bytes))) {
                    Err(kind) => Err(HeadFailure::Io(kind)),
                    Ok(block) => Ok(
                        Head {
                            status_line,
                            headers: block.headers,
                            length: line_len(bytes) + block.length,
                        },
                    ),
                }
            }
        },
    }
}

/// Whether an error reports the given failure.
pub open spec fn reports(e: ErrorView, failure: HeadFailure) -> bool {
    match failure {
        HeadFailure::BadStatus => e.kind == ErrorKind::BadStatus,
        HeadFailure::Io(fault) => e.kind == ErrorKind::Io && e.source == Some(fault),
    }
}

/// Whether an error reports that the deadline of the request has passed.
pub open spec fn reports_timeout(e: ErrorView) -> bool {
    reports(e, HeadFailure::Io(timeout_fault()))
}

/// The deadline of a request, if there is a request and it has one.
pub open spec fn deadline_of(unit: Option<Unit>) -> Option<u64> {
    match unit {
        Some(unit) => unit.deadline,
        None => None,
    }
}

/// A response, as it stands when its head has been read and its body has
/// not.
///
/// The status and the headers can be inspected at will. The body is read
/// once, by one of [`Response::into_reader`], [`Response::into_string`] and
/// [`Response::into_json`], which consume the response.
#[derive(Debug)]
pub struct Response {
    url: Option<Url>,
    status_line: String,
    index: ResponseStatusIndex,
    status: u16,
    headers: Vec<Header>,
    unit: Option<Unit>,
    stream: Stream,
    // If this response resulted from a redirect, the response that
    // redirected.
    previous: Option<Arc<Response>>,
}

impl Response {
    /// The status line is well formed, and the stored offsets and code are
    /// those of the status line.
    #[verifier::type_invariant]
    pub closed spec fn well_formed(&self) -> bool {
        &&& well_formed_status_line(self.status_line@)
        &&& self.index.http_version == 8
        &&& self.index.response_code == 11
        &&& self.status == status_code_of(self.status_line@)
    }

    /// The URL that the response is attributed to.
    pub closed spec fn origin(&self) -> Option<Url> {
        self.url
    }

    /// The text of the URL that the response is attributed to; empty where
    /// there is no URL.
    pub open spec fn origin_text(&self) -> Seq<char> {
        match self.origin() {
            Some(url) => url_text(url),
            None => Seq::empty(),
        }
    }

    /// The status line, as it was received.
    pub closed spec fn status_line(&self) -> Seq<char> {
        self.status_line@
    }

    /// The status code.
    pub closed spec fn code(&self) -> u16 {
        self.status
    }

    /// The headers, in the order in which they were received.
    pub closed spec fn header_list(&self) -> Seq<HeaderView> {
        views(self.headers@)
    }

    /// The request that the response answers.
    pub closed spec fn request(&self) -> Option<Unit> {
        self.unit
    }

    /// The stream that holds the body.
    pub closed spec fn body_stream(&self) -> Stream {
        self.stream
    }

    /// The response that redirected to this one.
    pub closed spec fn predecessor(&self) -> Option<Response> {
        match self.previous {
            Some(previous) => Some(*previous),
            None => None,
        }
    }

    /// The responses that led to this one, the most recent first.
    pub closed spec fn history_seq(&self) -> Seq<Response>
        decreases self,
    {
        match self.previous {
            Some(previous) => seq![*previous] + previous.history_seq(),
            None => Seq::empty(),
        }
    }

    /// The response carries the given head.
    pub open spec fn has_head(&self, head: Head) -> bool {
        &&& self.status_line() == head.status_line
        &&& self.code() == status_code_of(head.status_line)
        &&& self.header_list() == head.headers
    }

    /// What reading a response from `bytes` gives: the response that carries
    /// the head that the bytes start with and holds the bytes after it, or
    /// the error that says why there is no such head. A request with a
    /// deadline may time out instead.
    pub open spec fn read_from(
        bytes: Seq<u8>,
        written: Seq<u8>,
        unit: Option<Unit>,
        r: Result<Response, Error>,
    ) -> bool {
        match r {
            Ok(response) => {
                &&& parse_head(bytes) matches Ok(head)
                &&& response.has_head(head)
                &&& 0 <= head.length <= bytes.len()
                &&& response.body_stream().remaining() == bytes.skip(head.length)
                &&& response.body_stream().written() == written
                &&& response.request() == unit
                &&& response.well_formed()
            },
            Err(e) => {
                ||| reports_timeout(e@) && deadline_of(unit) is Some
                ||| parse_head(bytes) matches Err(failure) && reports(e@, failure)
            },
        }
    }

    /// What reading a response from `bytes` at the time `now` gives: after
    /// the deadline of the request the timeout; else the response that
    /// carries the head that the bytes start with and holds the bytes after
    /// it, or the error that says why there is no such head.
    pub open spec fn read_from_at(
        bytes: Seq<u8>,
        written: Seq<u8>,
        unit: Option<Unit>,
        now: u64,
        r: Result<Response, Error>,
    ) -> bool {
        if expired(deadline_of(unit), now) {
            r matches Err(e) && e@ == (ErrorView {
                kind: ErrorKind::Io,
                message: None,
                source: Some(timeout_fault()),
            })
        } else {
            match parse_head(bytes) {
                Ok(head) => {
                    &&& r matches Ok(response)
                    &&& response.has_head(head)
                    &&& 0 <= head.length <= bytes.len()
                    &&& response.body_stream().remaining() == bytes.skip(head.length)
                    &&& response.body_stream().written() == written
                    &&& response.request() == unit
                    &&& response.well_formed()
                },
                Err(failure) => r matches Err(e) && reports(e@, failure),
            }
        }
    }

    /// A response that was read from a stream is attributed to no URL and
    /// has no history.
    pub open spec fn stands_alone(&self) -> bool {
        &&& self.origin() is None
        &&& self.origin_text() == Seq::<char>::empty()
        &&& self.predecessor() is None
        &&& self.history_seq() == Seq::<Response>::empty()
    }

    /// Reads a response from a stream at the time `now`: the status line,
    /// then the headers up to the empty line. The body stays on the stream.
    pub fn do_from_stream_at(stream: Stream, unit: Option<Unit>, now: u64) -> (r: Result<
        Response,
        Error,
    >)
        ensures
            Self::read_from_at(stream.remaining(), stream.written(), unit, now, r),
            r matches Ok(response) ==> response.stands_alone(),
    {
        let deadline = match &unit {
            Some(unit) => unit.deadline,
            None => None,
        };
        let mut stream = DeadlineStream::new(stream, deadline);
        let ghost bytes = stream.remaining();
        let status_line = match read_next_line_at(&mut stream, now) {
            Err(e) => {
                return Err(Error::from_io(e));
            },
            Ok(line) => line,
        };
        let (index, status) = match parse_status_line(status_line.as_str()) {
            Err(e) => {
                return Err(e);
            },
            Ok(parsed) => parsed,
        };
        let headers = match read_header_block_at(&mut stream, now) {
            Err(e) => {
                return Err(Error::from_io(e));
            },
            Ok(headers) => headers,
        };
        assert(stream.remaining() =~= bytes.skip(parse_head(bytes)->Ok_0.length));
        Ok(
            Response {
                url: None,
                status_line,
                index,
                status,
                headers,
                unit,
                stream: stream.into_stream(),
                previous: None,
            },
        )
    }

    /// Reads a response from a stream: the status line, then the headers up
    /// to the empty line. The body stays on the stream. The clock is read
    /// once, and the reading is the one of that time.
    pub fn do_from_stream(stream: Stream, unit: Option<Unit>) -> (r: Result<Response, Error>)
        ensures
            exists|now: u64| #[trigger]
                Self::read_from_at(stream.remaining(), stream.written(), unit, now, r),
            Self::read_from(stream.remaining(), stream.written(), unit, r),
            r matches Ok(response) ==> response.stands_alone(),
    {
        let now = now_millis();
        let r = Self::do_from_stream_at(stream, unit, now);
        assert(Self::read_from_at(stream.remaining(), stream.written(), unit, now, r));
        r
    }

    /// The response is attributed to the URL of `unit`, and `previous` is
    /// its predecessor.
    pub open spec fn follows(&self, unit: Unit, previous: Option<Arc<Response>>) -> bool {
        &&& self.origin() == Some(unit.url)
        &&& self.predecessor() == match previous {
            Some(previous) => Some(*previous),
            None => None,
        }
        &&& self.history_seq() == match previous {
            Some(previous) => seq![*previous] + previous.history_seq(),
            None => Seq::empty(),
        }
    }

    /// Reads the response to a request at the time `now`. `previous` is the
    /// response that redirected to the request, if one did.
    pub fn do_from_request_at(
        unit: Unit,
        stream: Stream,
        previous: Option<Arc<Response>>,
        now: u64,
    ) -> (r: Result<Response, Error>)
        ensures
            Self::read_from_at(stream.remaining(), stream.written(), Some(unit), now, r),
            r matches Ok(response) ==> response.follows(unit, previous),
    {
        let url = url_clone(&unit.url);
        let mut response = match Response::do_from_stream_at(stream, Some(unit), now) {
            Err(e) => {
                return Err(e);
            },
            Ok(response) => response,
        };
        proof {
            use_type_invariant(&response);
        }
        response.previous = previous;
        response.url = Some(url);
        Ok(response)
    }

    /// Reads the response to a request. `previous` is the response that
    /// redirected to the request, if one did. The clock is read once, and
    /// the reading is the one of that time.
    pub fn do_from_request(unit: Unit, stream: Stream, previous: Option<Arc<Response>>) -> (r:
        Result<Response, Error>)
        ensures
            exists|now: u64| #[trigger]
                Self::read_from_at(stream.remaining(), stream.written(), Some(unit), now, r),
            Self::read_from(stream.remaining(), stream.written(), Some(unit), r),
            r matches Ok(response) ==> response.follows(unit, previous),
    {
        let now = now_millis();
        let r = Self::do_from_request_at(unit, stream, previous, now);
        assert(Self::read_from_at(stream.remaining(), stream.written(), Some(unit), now, r));
        r
    }

    /// The URL we ended up at. This can differ from the URL of the request
    /// when redirects were followed. A response that is attributed to no URL
    /// gives the empty text.
    pub fn get_url(&self) -> (r: &str)
        ensures
            r@ == self.origin_text(),
            self.origin() is None ==> r@.len() == 0,
    {
        match &self.url {
            Some(url) => url_as_str(url),
            None => {
                proof {
                    reveal_strlit("");
                }
                ""
            },
        }
    }

    /// The HTTP version: `HTTP/1.1`.
    pub fn http_version(&self) -> (r: &str)
        ensures
            r@ == self.status_line().take(8),
    {
        proof {
            use_type_invariant(self);
        }
        self.status_line.as_str().substring_ascii(0, self.index.http_version)
    }

    /// The status as a number: `200`.
    pub fn status(&self) -> (r: u16)
        ensures
            r == self.code(),
            100 <= r <= 999,
    {
        proof {
            use_type_invariant(self);
        }
        self.status
    }

    /// The status text: `OK`.
    pub fn status_text(&self) -> (r: &str)
        ensures
            r@ == trimmed(self.status_line().skip(12)),
    {
        proof {
            use_type_invariant(self);
        }
        let line = self.status_line.as_str();
        let length = line.unicode_len();
        trim(line.substring_ascii(self.index.response_code + 1, length))
    }

    /// The value of the first header with the given name, if there is one.
    pub fn header(&self, name: &str) -> (r: Option<&str>)
        ensures
            text_of(r) == first_value(self.header_list(), name@),
    {
        let ghost headers = self.header_list();
        let mut i: usize = 0;
        while i < self.headers.len()
            invariant
                i <= self.headers@.len(),
                headers == views(self.headers@),
                values_of(headers.take(i as int), name@).len() == 0,
            decreases self.headers@.len() - i,
        {
            proof {
                assert(headers.take(i + 1).drop_last() =~= headers.take(i as int));
                assert(headers.take(i + 1).last() == self.headers@[i as int]@);
            }
            if self.headers[i].is_name(name) {
                proof {
                    let found = values_of(headers.take(i + 1), name@);
                    assert(found.len() == 1);
                    assert(found[0] == self.headers@[i as int]@.value);
                    lemma_values_prefix(headers, name@, i + 1);
                    assert(values_of(headers, name@).take(1)[0] == found[0]);
                }
                return Some(self.headers[i].value());
            }
            i = i + 1;
        }
        assert(headers.take(i as int) =~= headers);
        None
    }

    /// A list of the header names in this response, in lower case.
    pub fn headers_names(&self) -> (r: Vec<String>)
        ensures
            owned_texts(r@) == lower_names(self.header_list()),
    {
        let ghost headers = self.header_list();
        let mut names: Vec<String> = Vec::new();
        let mut i: usize = 0;
        while i < self.headers.len()
            invariant
                i <= self.headers@.len(),
                headers == views(self.headers@),
                names@.len() == i,
                owned_texts(names@) == lower_names(headers.take(i as int)),
            decreases self.headers@.len() - i,
        {
            let ghost before = names@;
            names.push(to_ascii_lowercase(self.headers[i].name()));
            proof {
                assert(headers[i as int] == self.headers@[i as int]@);
                assert forall|j: int| 0 <= j < i + 1 implies owned_texts(names@)[j] == lower_names(
                    headers.take(i + 1),
                )[j] by {
                    if j < i {
                        assert(owned_texts(before)[j] == lower_names(headers.take(i as int))[j]);
                    }
                }
                assert(owned_texts(names@) =~= lower_names(headers.take(i + 1)));
            }
            i = i + 1;
        }
        assert(headers.take(i as int) =~= headers);
        names
    }

    /// Tells if the response has the named header.
    pub fn has(&self, name: &str) -> (r: bool)
        ensures
            r == first_value(self.header_list(), name@) is Some,
    {
        self.header(name).is_some()
    }

    /// The values of all headers with the given name, in their order.
    pub fn all(&self, name: &str) -> (r: Vec<&str>)
        ensures
            texts(r@) == values_of(self.header_list(), name@),
    {
        let ghost headers = self.header_list();
        let mut values: Vec<&str> = Vec::new();
        let mut i: usize = 0;
        while i < self.headers.len()
            invariant
                i <= self.headers@.len(),
                headers == views(self.headers@),
                texts(values@) == values_of(headers.take(i as int), name@),
            decreases self.headers@.len() - i,
        {
            proof {
                assert(headers.take(i + 1).drop_last() =~= headers.take(i as int));
                assert(headers.take(i + 1).last() == self.headers@[i as int]@);
            }
            if self.headers[i].is_name(name) {
                values.push(self.headers[i].value());
            }
            assert(texts(values@) =~= values_of(headers.take(i + 1), name@));
            i = i + 1;
        }
        assert(headers.take(i as int) =~= headers);
        values
    }

    /// The content type of the response, as a mathematical value.
    pub open spec fn content_type_text(&self) -> Seq<char> {
        content_type_of(first_value(self.header_list(), "content-type"@))
    }

    /// The character set of the response, as a mathematical value.
    pub open spec fn charset_text(&self) -> Seq<char> {
        charset_of(first_value(self.header_list(), "content-type"@))
    }

    /// The content type part of the `Content-Type` header, without the
    /// character set: `text/html` for `text/html; charset=ISO-8859-1`.
    pub fn content_type(&self) -> (r: &str)
        ensures
            r@ == self.content_type_text(),
    {
        match self.header("content-type") {
            Some(value) => match find_char(value, ';') {
                Some(semi) => value.substring_char(0, semi),
                None => value,
            },
            None => DEFAULT_CONTENT_TYPE,
        }
    }

    /// The character set part of the `Content-Type` header: `ISO-8859-1` for
    /// `text/html; charset=ISO-8859-1`.
    pub fn charset(&self) -> (r: &str)
        ensures
            r@ == self.charset_text(),
    {
        charset_from_content_type(self.header("content-type"))
    }

    /// The bytes that were written to the stream of the response.
    pub fn to_write_vec(self) -> (r: Vec<u8>)
        ensures
            r@ == self.body_stream().written(),
    {
        self.stream.to_write_vec()
    }

    /// Attributes the response to a URL. The text that
    /// [`Response::get_url`] gives from now on is the text of that URL.
    pub fn set_url(&mut self, url: Url)
        ensures
            final(self).origin() == Some(url),
            final(self).origin_text() == url_text(url),
            final(self).unchanged_but_links(old(self)),
            final(self).predecessor() == old(self).predecessor(),
            final(self).history_seq() == old(self).history_seq(),
    {
        proof {
            use_type_invariant(&*self);
        }
        self.url = Some(url);
    }

    /// Names the response that redirected to this one.
    pub fn set_previous(&mut self, previous: Arc<Response>)
        ensures
            final(self).predecessor() == Some(*previous),
            final(self).history_seq() == seq![*previous] + previous.history_seq(),
            final(self).unchanged_but_links(old(self)),
            final(self).origin() == old(self).origin(),
            final(self).origin_text() == old(self).origin_text(),
    {
        proof {
            use_type_invariant(&*self);
        }
        self.previous = Some(previous);
    }

    /// The two responses agree in all but their URL and their predecessor.
    pub open spec fn unchanged_but_links(&self, other: &Response) -> bool {
        &&& self.status_line() == other.status_line()
        &&& self.code() == other.code()
        &&& self.header_list() == other.header_list()
        &&& self.request() == other.request()
        &&& self.body_stream() == other.body_stream()
    }
}

impl Response {
    /// What the response says of its body.
    pub open spec fn body_facts(&self) -> BodyFacts {
        BodyFacts {
            version: self.status_line().take(8),
            status: self.code(),
            is_head: match self.request() {
                Some(unit) => unit.head(),
                None => false,
            },
            connection: first_value(self.header_list(), "connection"@),
            transfer_encoding: first_value(self.header_list(), "transfer-encoding"@),
            content_length: first_value(self.header_list(), "content-length"@),
        }
    }

    /// The read timeout of the request is one that the stream refuses: zero.
    pub open spec fn timeout_refused(&self) -> bool {
        match self.request() {
            Some(unit) => unit.timeout_read == Some(0u64),
            None => false,
        }
    }

    /// The body of the response: the state of the reader that
    /// [`Response::into_reader`] makes.
    ///
    /// The reader carries out the plan for the body on the stream of the
    /// response, under the deadline of the request. Where the read timeout
    /// could not be installed there is no body, only that error.
    pub open spec fn body(&self) -> Supply {
        if self.timeout_refused() {
            Supply {
                pending: Seq::empty(),
                ending: Some(refused_timeout_fault()),
                deadline: None,
                rest: Seq::empty(),
                sent: Seq::empty(),
                owner: None,
                returned: None,
            }
        } else {
            planned_supply(
                self.body_facts().plan(),
                self.body_stream().remaining(),
                self.body_stream().written(),
                deadline_of(self.request()),
                self.request(),
            )
        }
    }

    /// Turns this response into a reader of the body.
    ///
    /// 1. A response that cannot have a body (it answers `HEAD`, or its
    ///    status is 204 or 304) has a body of length zero.
    /// 2. On a connection that closes (`HTTP/1.0`, or `Connection: close`)
    ///    the reader reads until the stream ends.
    /// 3. With a `Transfer-Encoding` the reader decodes chunks, and any
    ///    `Content-Length` is ignored.
    /// 4. With a `Content-Length` the reader is limited to that length,
    ///    however many bytes the server sends.
    /// 5. Else the reader reads until the stream ends.
    ///
    /// The stream is put under the deadline of the request. No error is
    /// reported yet: if the read timeout of the request cannot be installed,
    /// the reader reports that error on every read. The connection is
    /// handed back for reuse only after a chunked or limited body on a
    /// connection that does not close.
    pub fn into_reader(self) -> (r: BodyReader)
        ensures
            r.supply() == self.body(),
            match r {
                BodyReader::Failed(e) => self.timeout_refused() && e.0@ == refused_timeout_fault(),
                BodyReader::Chunked(p) => !self.timeout_refused() && self.body_facts().plan().framing
                    == Framing::Chunked,
                BodyReader::Limited(p) => !self.timeout_refused() && self.body_facts().plan().framing
                    is Limited,
                BodyReader::Unbounded(s) => !self.timeout_refused()
                    && self.body_facts().plan().framing == Framing::UntilClose,
            },
            !self.timeout_refused() ==> r.stands_on(
                self.body_stream(),
                deadline_of(self.request()),
            ),
    {
        let is_head = match &self.unit {
            Some(unit) => unit.is_head(),
            None => false,
        };
        let plan = select_body_plan(
            self.http_version(),
            self.status,
            is_head,
            self.header("connection"),
            self.header("transfer-encoding"),
            self.header("content-length"),
        );
        let Response { stream, unit, .. } = self;
        let deadline = match &unit {
            Some(unit) => {
                if let Err(e) = stream.set_read_timeout(unit.timeout_read) {
                    return BodyReader::Failed(ErrorReader(e));
                }
                unit.deadline
            },
            None => None,
        };
        let stream = DeadlineStream::new(stream, deadline);
        BodyReader::new(plan, stream, unit)
    }

    /// The error of a body that is too long for the decoder.
    pub open spec fn too_long_fault() -> Fault {
        Fault { kind: IoErrorKind::InvalidData, message: "response body is too long to decode"@ }
    }

    /// What reading the body as text at the time `now` gives: after the
    /// deadline the timeout; for a body that cannot be read to its end the
    /// error of its ending; for a body that is too long for the decoder a
    /// data error; else the text of the whole body in the character set of
    /// the response. A body in `utf-8` that is valid UTF-8 without a byte
    /// order mark is its own text.
    pub open spec fn read_as_text_at(&self, now: u64, r: Result<String, IoError>) -> bool {
        let body = self.body();
        if expired(body.deadline, now) {
            r matches Err(e) && e@ == timeout_fault()
        } else {
            match body.ending {
                Some(fault) => r matches Err(e) && e@ == fault,
                None => {
                    if !decodable(body.pending) {
                        r matches Err(e) && e@ == Self::too_long_fault()
                    } else {
                        &&& r matches Ok(text)
                        &&& text@ == text_in_charset(self.charset_text(), body.pending)
                        &&& self.charset_text() == DEFAULT_CHARACTER_SET@ && plain_utf8(
                            body.pending,
                        ) ==> text@ == decode_utf8(body.pending)
                    }
                },
            }
        }
    }

    /// Turns this response into the text of its body at the time `now`, in
    /// the character set that the `Content-Type` header names, and in UTF-8
    /// where it names none or one that is not known.
    ///
    /// The whole body is read into memory first. A body that cannot be read
    /// to its end gives the read error. A body of more than a sixteenth of
    /// the address space is not handed to the decoder: it gives
    /// `InvalidData`.
    pub fn into_string_at(self, now: u64) -> (r: Result<String, IoError>)
        ensures
            self.read_as_text_at(now, r),
    {
        let label = self.charset().to_owned();
        let mut reader = self.into_reader();
        let mut body: Vec<u8> = Vec::new();
        if let Err(e) = reader.read_to_end_at(&mut body, now) {
            return Err(e);
        }
        assert(body@ =~= self.body().pending);
        if body.len() > usize::MAX / 16 {
            return Err(
                IoError::new(IoErrorKind::InvalidData, "response body is too long to decode"),
            );
        }
        Ok(decode_body(label.as_str(), body.as_slice()))
    }

    /// Turns this response into the text of its body, as
    /// [`Response::into_string_at`] does at the time that the clock shows.
    pub fn into_string(self) -> (r: Result<String, IoError>)
        ensures
            exists|now: u64| #[trigger] self.read_as_text_at(now, r),
    {
        let now = now_millis();
        let r = self.into_string_at(now);
        assert(self.read_as_text_at(now, r));
        r
    }

    /// What reading the body as JSON at the time `now` gives: after the
    /// deadline the timeout; for a body that cannot be read to its end, what
    /// [`json_read_fault`] makes of the error of its ending; for a body that
    /// the parser rejects, a data error that carries the parser's message;
    /// else the value that the body stands for.
    pub open spec fn read_as_json_at(&self, now: u64, r: Result<Value, IoError>) -> bool {
        let body = self.body();
        if expired(body.deadline, now) {
            r matches Err(e) && e@ == timeout_fault()
        } else {
            match body.ending {
                Some(fault) => r matches Err(e) && e@ == json_read_fault(fault),
                None => parsed_as_json(body.pending, r),
            }
        }
    }

    /// Reads the body of this response as JSON at the time `now`.
    ///
    /// The whole body is read, then parsed. A read that times out gives the
    /// timeout; any other failure, of the read or of the parser, gives an
    /// `InvalidData` error whose message is `Failed to read JSON: ` and the
    /// message of the failure.
    pub fn into_json_at(self, now: u64) -> (r: Result<Value, IoError>)
        ensures
            self.read_as_json_at(now, r),
    {
        let mut reader = self.into_reader();
        let mut body: Vec<u8> = Vec::new();
        if let Err(e) = reader.read_to_end_at(&mut body, now) {
            return Err(json_read_failure(e));
        }
        assert(body@ =~= self.body().pending);
        parse_json(body.as_slice())
    }

    /// Reads the body of this response as JSON, as
    /// [`Response::into_json_at`] does at the time that the clock shows.
    pub fn into_json(self) -> (r: Result<Value, IoError>)
        ensures
            exists|now: u64| #[trigger] self.read_as_json_at(now, r),
    {
        let now = now_millis();
        let r = self.into_json_at(now);
        assert(self.read_as_json_at(now, r));
        r
    }

    /// The redirect history of this response: the responses that led to it,
    /// starting with the one before it. A response that was not redirected
    /// has an empty history.
    pub fn history(&self) -> (h: Hist<'_>)
        ensures
            h.remaining() == self.history_seq(),
    {
        Hist::new(
            match &self.previous {
                Some(previous) => Some(&**previous),
                None => None,
            },
        )
    }
}

/// The redirect history of a response, walked backwards: from the most
/// recent response to the first.
#[derive(Debug)]
pub struct Hist<'a> {
    response: Option<&'a Response>,
}

impl<'a> Hist<'a> {
    /// A walk that starts with the given response.
    fn new(response: Option<&'a Response>) -> (h: Hist<'a>)
        ensures
            h.remaining() == match response {
                Some(r) => seq![*r] + r.history_seq(),
                None => Seq::empty(),
            },
    {
        Hist { response }
    }

    /// The responses that are still to come, in order.
    pub closed spec fn remaining(&self) -> Seq<Response> {
        match self.response {
            Some(r) => seq![*r] + r.history_seq(),
            None => Seq::empty(),
        }
    }

    /// The next response of the history, if there is one.
    pub fn next(&mut self) -> (r: Option<&'a Response>)
        ensures
            match r {
                Some(response) => {
                    &&& old(self).remaining().len() > 0
                    &&& *response == old(self).remaining()[0]
                    &&& final(self).remaining() == old(self).remaining().drop_first()
                },
                None => old(self).remaining().len() == 0 && final(self).remaining() == old(
                    self,
                ).remaining(),
            },
    {
        let response = match self.response {
            None => {
                return None;
            },
            Some(response) => response,
        };
        self.response = match &response.previous {
            Some(previous) => Some(&**previous),
            None => None,
        };
        assert(self.remaining() =~= old(self).remaining().drop_first());
        Some(response)
    }

    /// The number of responses that are still to come.
    pub fn count(self) -> (n: usize)
        ensures
            n == self.remaining().len(),
    {
        self.to_vec().len()
    }

    /// All responses of the history that are still to come, in order.
    pub fn to_vec(self) -> (v: Vec<&'a Response>)
        ensures
            v@.len() == self.remaining().len(),
            forall|i: int| 0 <= i < v@.len() ==> *v@[i] == self.remaining()[i],
    {
        let mut rest = self;
        let mut found: Vec<&'a Response> = Vec::new();
        loop
            invariant
                found@.len() + rest.remaining().len() == self.remaining().len(),
                forall|i: int| 0 <= i < found@.len() ==> *found@[i] == self.remaining()[i],
                rest.remaining() == self.remaining().skip(found@.len() as int),
            decreases rest.remaining().len(),
        {
            let ghost before = rest.remaining();
            match rest.next() {
                None => {
                    return found;
                },
                Some(response) => {
                    found.push(response);
                    assert(rest.remaining() =~= self.remaining().skip(found@.len() as int));
                },
            }
        }
    }
}

/// A response without a `Content-Type` header has the content type
/// `text/plain` and the character set `utf-8`; one whose `Content-Type` has
/// no parameter has that value as its content type, and `utf-8` as well.
pub proof fn content_type_defaults(response: Response)
    ensures
        first_value(response.header_list(), "content-type"@) is None ==> {
            &&& response.content_type_text() == DEFAULT_CONTENT_TYPE@
            &&& response.charset_text() == DEFAULT_CHARACTER_SET@
        },
        first_value(response.header_list(), "content-type"@) matches Some(value) ==> (
        !value.contains(';') ==> response.content_type_text() == value && response.charset_text()
            == DEFAULT_CHARACTER_SET@),
{
    if let Some(value) = first_value(response.header_list(), "content-type"@) {
        value.index_of_first_ensures(';');
    }
}

/// A chain of three responses, each the predecessor of the next, has the
/// history that its links spell out: the last response has the two before it
/// as its history, the nearer one first, and the first response has none.
pub proof fn history_of_a_chain(first: Response, second: Response, third: Response)
    requires
        first.predecessor() is None,
        second.predecessor() == Some(first),
        third.predecessor() == Some(second),
    ensures
        third.history_seq() == seq![second, first],
        second.history_seq() == seq![first],
        first.history_seq() == Seq::<Response>::empty(),
{
    assert(first.history_seq() =~= Seq::<Response>::empty());
    assert(second.history_seq() =~= seq![first] + first.history_seq());
    assert(second.history_seq() =~= seq![first]);
    assert(third.history_seq() =~= seq![second] + second.history_seq());
    assert(third.history_seq() =~= seq![second, first]);
}

/// The history of a response is its predecessor followed by the history of
/// the predecessor, and empty where there is no predecessor.
pub proof fn history_unfolds(response: Response)
    ensures
        response.history_seq() == match response.predecessor() {
            Some(previous) => seq![previous] + previous.history_seq(),
            None => Seq::<Response>::empty(),
        },
{
}

/// Asking a response for its history twice gives two walks with the same
/// contents: both start with the predecessor of the response, if it has
/// one, and go on with the history of the predecessor.
pub proof fn history_repeats(response: Response, one: Hist, other: Hist)
    requires
        one.remaining() == response.history_seq(),
        other.remaining() == response.history_seq(),
    ensures
        one.remaining() == other.remaining(),
        one.remaining() == match response.predecessor() {
            Some(previous) => seq![previous] + previous.history_seq(),
            None => Seq::<Response>::empty(),
        },
{
    history_unfolds(response);
}

impl Response {
    /// Constructs a response with a status, a status text and a body, by
    /// reading it from its wire form. This is useful in tests.
    ///
    /// The wire form goes through the same parser as any response, so a
    /// status outside 100 to 999, or a status text that is not ASCII, gives
    /// `BadStatus`.
    pub fn new(status: u16, status_text: &str, body: &str) -> (r: Result<Response, Error>)
        ensures
            Self::read_from(
                encode_utf8(wire_form(status, status_text@, body@)),
                Seq::empty(),
                None,
                r,
            ),
            r matches Ok(response) ==> response.stands_alone(),
    {
        let mut wire = String::from_str("HTTP/1.1 ");
        wire.append(decimal_text(status).as_str());
        wire.append(" ");
        wire.append(status_text);
        wire.append("\r\n\r\n");
        wire.append(body);
        wire.append("\n");
        Response::do_from_stream(Stream::from_vec(wire.as_str().as_bytes_vec()), None)
    }

    /// A short description of the response, such as
    /// `Response[status: 200, status_text: OK]`.
    pub fn describe(&self) -> (r: String)
        ensures
            r@ == "Response[status: "@ + decimal(self.code() as nat) + ", status_text: "@ + trimmed(
                self.status_line().skip(12),
            ) + "]"@,
    {
        let mut text = String::from_str("Response[status: ");
        text.append(decimal_text(self.status()).as_str());
        text.append(", status_text: ");
        text.append(self.status_text());
        text.append("]");
        text
    }
}

impl std::str::FromStr for Response {
    type Err = Error;

    /// Reads a response from its wire form.
    fn from_str(s: &str) -> (r: Result<Response, Error>)
        ensures
            Response::read_from(encode_utf8(s@), Seq::empty(), None, r),
            r matches Ok(response) ==> response.stands_alone(),
    {
        Response::do_from_stream(Stream::from_vec(s.as_bytes_vec()), None)
    }
}

} // verus!
