//! The wire form of a response that is constructed from its parts, and the
//! proof that reading it gives the parts back.

use vstd::prelude::*;
use vstd::string::*;
use vstd::utf8::{decode_utf8, encode_utf8, is_ascii_chars, valid_utf8};
use crate::charset::{decodable, has_utf8_bom};
use crate::error::{Error, Fault, IoError};
use crate::head::{ends_with_crlf, header_block, next_line, Block};
use crate::header::HeaderView;
use crate::read::Supply;
use crate::response::{parse_head, Head, HeadFailure, Response};
use crate::status_line::{
    lines_of_the_grammar_are_well_formed, status_line_of, well_formed_status_line,
};
use crate::stream::{line_len, CR, LF};
use crate::text::{decimal, is_whitespace, lemma_ascii_char_byte, trim_start, trimmed};

verus! {

/// The status line of a constructed response.
pub open spec fn constructed_status_line(status: u16, status_text: Seq<char>) -> Seq<char> {
    "HTTP/1.1 "@ + decimal(status as nat) + " "@ + status_text
}

/// The wire form of a response without headers: the status line, an empty
/// line, and the body followed by a line feed.
pub open spec fn wire_form(status: u16, status_text: Seq<char>, body: Seq<char>) -> Seq<char> {
    constructed_status_line(status, status_text) + "\r\n\r\n"@ + body + "\n"@
}

/// The encoding of a text in two parts is the encoding of the parts.
pub proof fn lemma_encode_concat(a: Seq<char>, b: Seq<char>)
    ensures
        encode_utf8(a + b) == encode_utf8(a) + encode_utf8(b),
    decreases a.len(),
{
    if a.len() == 0 {
        assert(a + b =~= b);
        assert(encode_utf8(a) + encode_utf8(b) =~= encode_utf8(b));
    } else {
        assert((a + b).drop_first() =~= a.drop_first() + b);
        lemma_encode_concat(a.drop_first(), b);
        assert(encode_utf8(a + b) =~= encode_utf8(a) + encode_utf8(b));
    }
}

/// The encoding of ASCII text holds a byte for each character, and holds a
/// line feed only where the text holds one.
pub proof fn lemma_encode_ascii(text: Seq<char>)
    requires
        is_ascii_chars(text),
    ensures
        encode_utf8(text).len() == text.len(),
        forall|i: int|
            0 <= i < text.len() ==> (#[trigger] encode_utf8(text)[i] == LF <==> text[i] == '\n'),
        forall|i: int|
            0 <= i < text.len() ==> (#[trigger] encode_utf8(text)[i] == CR <==> text[i] == '\r'),
{
    vstd::utf8::is_ascii_chars_encode_utf8(text);
    assert forall|i: int| 0 <= i < text.len() implies (#[trigger] encode_utf8(text)[i] == LF
        <==> text[i] == '\n') && (encode_utf8(text)[i] == CR <==> text[i] == '\r') by {
        lemma_ascii_char_byte(text[i]);
        assert(encode_utf8(text)[i] == text[i] as u8);
    }
}

/// Where the first line feed of `bytes` stands at `index`, the first line
/// is that long and one more.
pub proof fn lemma_line_len(bytes: Seq<u8>, index: int)
    requires
        0 <= index < bytes.len(),
        bytes[index] == LF,
        forall|j: int| 0 <= j < index ==> bytes[j] != LF,
    ensures
        line_len(bytes) == index + 1,
{
    bytes.index_of_first_ensures(LF);
    assert(bytes.contains(LF));
}

/// A line of text that holds no line feed, followed by CRLF, is read as
/// that text, whatever follows.
pub proof fn lemma_next_line(text: Seq<char>, rest: Seq<u8>)
    requires
        is_ascii_chars(text),
        !text.contains('\n'),
    ensures
        next_line(encode_utf8(text) + seq![CR, LF] + rest) == Ok::<Seq<char>, Fault>(text),
        line_len(encode_utf8(text) + seq![CR, LF] + rest) == text.len() + 2,
        (encode_utf8(text) + seq![CR, LF] + rest).skip(text.len() as int + 2) == rest,
{
    broadcast use vstd::utf8::group_utf8_lib;

    let encoded = encode_utf8(text);
    let bytes = encoded + seq![CR, LF] + rest;
    let n = text.len() as int;
    lemma_encode_ascii(text);
    assert forall|j: int| 0 <= j < n + 1 implies bytes[j] != LF by {
        if j < n {
            assert(bytes[j] == encoded[j]);
            assert(text[j] != '\n');
        }
    }
    assert(bytes[n + 1] == LF);
    lemma_line_len(bytes, n + 1);
    let raw = bytes.take(n + 2);
    let ending: Seq<char> = seq!['\r', '\n'];
    assert(is_ascii_chars(ending));
    lemma_encode_ascii(ending);
    vstd::utf8::is_ascii_chars_encode_utf8(ending);
    assert(encode_utf8(ending) =~= seq![CR, LF]) by {
        lemma_ascii_char_byte('\r');
        lemma_ascii_char_byte('\n');
        assert(encode_utf8(ending)[0] == ending[0] as u8);
        assert(encode_utf8(ending)[1] == ending[1] as u8);
    }
    lemma_encode_concat(text, ending);
    assert(raw =~= encode_utf8(text + ending));
    assert(valid_utf8(raw));
    assert(ends_with_crlf(raw));
    assert(raw.take(raw.len() - 2) =~= encoded);
    assert(decode_utf8(encoded) == text);
    assert(bytes.skip(n + 2) =~= rest);
}

/// Whitespace in front of a text is trimmed with the text.
pub proof fn lemma_trimmed_after_space(text: Seq<char>)
    ensures
        trimmed(seq![' '] + text) == trimmed(text),
{
    let padded = seq![' '] + text;
    assert(is_whitespace(padded[0]));
    assert(padded.drop_first() =~= text);
    assert(trim_start(padded) == 1 + trim_start(text));
    lemma_trim_start_bound(text);
    assert(padded.skip(trim_start(padded)) =~= text.skip(trim_start(text)));
}

/// The leading whitespace of a text is part of the text.
pub proof fn lemma_trim_start_bound(text: Seq<char>)
    ensures
        0 <= trim_start(text) <= text.len(),
    decreases text.len(),
{
    if text.len() > 0 && is_whitespace(text[0]) {
        lemma_trim_start_bound(text.drop_first());
    }
}

/// The bytes of `head`, an empty line and `tail`.
pub proof fn lemma_wire_bytes(head: Seq<char>, tail: Seq<char>)
    ensures
        encode_utf8(head + "\r\n\r\n"@ + tail) == encode_utf8(head) + seq![CR, LF] + (seq![CR, LF]
            + encode_utf8(tail)),
{
    reveal_strlit("\r\n\r\n");
    let crlf: Seq<char> = seq!['\r', '\n'];
    assert(head + "\r\n\r\n"@ + tail =~= head + (crlf + (crlf + tail)));
    lemma_encode_concat(head, crlf + (crlf + tail));
    lemma_encode_concat(crlf, crlf + tail);
    lemma_encode_concat(crlf, tail);
    assert(is_ascii_chars(crlf));
    vstd::utf8::is_ascii_chars_encode_utf8(crlf);
    assert(encode_utf8(crlf) =~= seq![CR, LF]) by {
        lemma_ascii_char_byte('\r');
        lemma_ascii_char_byte('\n');
        assert(encode_utf8(crlf)[0] == crlf[0] as u8);
        assert(encode_utf8(crlf)[1] == crlf[1] as u8);
    }
    assert(encode_utf8(head) + (seq![CR, LF] + (seq![CR, LF] + encode_utf8(tail))) =~= encode_utf8(
        head,
    ) + seq![CR, LF] + (seq![CR, LF] + encode_utf8(tail)));
}

/// A well-formed status line, an empty line and a body are read as a head
/// without headers, and the body is what follows the head.
pub proof fn lemma_head_without_headers(line: Seq<char>, body: Seq<u8>)
    requires
        well_formed_status_line(line),
        !line.contains('\n'),
    ensures
        parse_head(encode_utf8(line) + seq![CR, LF] + (seq![CR, LF] + body)) == Ok::<
            Head,
            HeadFailure,
        >(Head { status_line: line, headers: Seq::empty(), length: line.len() as int + 4 }),
        (encode_utf8(line) + seq![CR, LF] + (seq![CR, LF] + body)).skip(line.len() as int + 4)
            == body,
{
    let after_status = seq![CR, LF] + body;
    let bytes = encode_utf8(line) + seq![CR, LF] + after_status;
    let n = line.len() as int;
    lemma_encode_ascii(line);
    lemma_next_line(line, after_status);
    let empty_line: Seq<char> = Seq::empty();
    assert(encode_utf8(empty_line) =~= Seq::<u8>::empty());
    assert(after_status =~= encode_utf8(empty_line) + seq![CR, LF] + body);
    assert(!empty_line.contains('\n'));
    lemma_next_line(empty_line, body);
    assert(header_block(after_status) == Ok::<Block, Fault>(
        Block { headers: Seq::empty(), length: 2 },
    ));
    assert(bytes.skip(n + 2).skip(2) =~= bytes.skip(n + 4));
}

/// The status line of a constructed response is a line of the grammar, and
/// holds no line feed unless the status text does.
pub proof fn lemma_constructed_status_line(status: u16, status_text: Seq<char>)
    requires
        100 <= status <= 999,
        is_ascii_chars(status_text),
        !status_text.contains('\n'),
    ensures
        constructed_status_line(status, status_text) == status_line_of(
            '1',
            '1',
            status,
            status_text,
        ),
        !constructed_status_line(status, status_text).contains('\n'),
        constructed_status_line(status, status_text).take(8) == "HTTP/1.1"@,
        constructed_status_line(status, status_text).take(8) != "HTTP/1.0"@,
{
    reveal_strlit("HTTP/1.1 ");
    reveal_strlit("HTTP/1.1");
    reveal_strlit("HTTP/1.0");
    reveal_strlit(" ");
    let line = constructed_status_line(status, status_text);
    assert(line =~= status_line_of('1', '1', status, status_text));
    lines_of_the_grammar_are_well_formed('1', '1', status, status_text);
    crate::status_line::lemma_three_digits(status);
    let digits = decimal(status as nat);
    assert forall|i: int| 0 <= i < line.len() implies line[i] != '\n' by {
        if i >= 13 {
            assert(line[i] == status_text[i - 13]);
        } else if 9 <= i < 12 {
            assert(line[i] == digits[i - 9]);
        }
    }
    assert(line.take(8) =~= "HTTP/1.1"@);
    assert(line.take(8)[7] != "HTTP/1.0"@[7]);
}

/// The body that is all of a stream on which nothing was written, without a
/// deadline and without a pool.
pub open spec fn unbounded(bytes: Seq<u8>) -> Supply {
    Supply {
        pending: bytes,
        ending: None,
        deadline: None,
        rest: Seq::empty(),
        sent: Seq::empty(),
        owner: None,
        returned: None,
    }
}

/// What reading the wire form of a constructed response gives, for a
/// status from 100 to 999 and a status text that is ASCII and holds no line
/// feed.
pub open spec fn gives_back(
    response: Response,
    status: u16,
    status_text: Seq<char>,
    body: Seq<char>,
) -> bool {
    &&& response.code() == status
    &&& response.status_line() == constructed_status_line(status, status_text)
    &&& response.status_line().take(8) == "HTTP/1.1"@
    &&& trimmed(response.status_line().skip(12)) == trimmed(status_text)
    &&& response.header_list() == Seq::<HeaderView>::empty()
    &&& response.request() is None
    &&& response.body_stream().remaining() == encode_utf8(body + "\n"@)
    &&& status != 204 && status != 304 ==> response.body() == unbounded(
        encode_utf8(body + "\n"@),
    )
}

/// Constructing a response and reading it back reproduces the parts: the
/// status is the status given, the status text is the text given (trimmed,
/// as every status text is), there are no headers, and the body is the
/// body given, followed by a line feed. The statuses 204 and 304 keep the
/// bytes of the body on the stream but deliver no body.
pub proof fn construction_round_trip(
    status: u16,
    status_text: Seq<char>,
    body: Seq<char>,
    r: Result<Response, Error>,
)
    requires
        100 <= status <= 999,
        is_ascii_chars(status_text),
        !status_text.contains('\n'),
        Response::read_from(
            encode_utf8(wire_form(status, status_text, body)),
            Seq::empty(),
            None,
            r,
        ),
    ensures
        r matches Ok(response) && gives_back(response, status, status_text, body),
{
    let line = constructed_status_line(status, status_text);
    let tail = body + "\n"@;
    let bytes = encode_utf8(wire_form(status, status_text, body));
    lemma_constructed_status_line(status, status_text);
    lines_of_the_grammar_are_well_formed('1', '1', status, status_text);
    assert(wire_form(status, status_text, body) =~= line + "\r\n\r\n"@ + tail);
    lemma_wire_bytes(line, tail);
    lemma_head_without_headers(line, encode_utf8(tail));
    lemma_trimmed_after_space(status_text);
    let response = r->Ok_0;
    assert(r is Ok);
    assert(response.header_list() == Seq::<HeaderView>::empty());
    lemma_no_headers_no_values(response, status);
}

/// The body of a constructed response reads back as text: it is the body
/// that was given, followed by a line feed. This holds unless the status
/// says that there is no body, and for bodies that the decoder takes as they
/// are: not too long, and not starting with a byte order mark.
pub proof fn constructed_body_reads_back(
    response: Response,
    status: u16,
    status_text: Seq<char>,
    body: Seq<char>,
    now: u64,
    text: Result<String, IoError>,
)
    requires
        gives_back(response, status, status_text, body),
        status != 204 && status != 304,
        decodable(encode_utf8(body + "\n"@)),
        !has_utf8_bom(encode_utf8(body + "\n"@)),
        response.read_as_text_at(now, text),
    ensures
        text matches Ok(read) && read@ == body + "\n"@,
{
    broadcast use vstd::utf8::group_utf8_lib;

    let bytes = encode_utf8(body + "\n"@);
    assert(response.body().pending == bytes);
    assert(valid_utf8(bytes));
    assert(decode_utf8(bytes) == body + "\n"@);
    assert(crate::response::first_value(response.header_list(), "content-type"@) is None);
}

/// A response without headers that answers no request has the body that
/// its stream holds, unless its status says that it has none.
pub proof fn lemma_no_headers_no_values(response: Response, status: u16)
    requires
        response.header_list() == Seq::<HeaderView>::empty(),
        response.request() is None,
        response.code() == status,
        response.status_line().take(8) != "HTTP/1.0"@,
    ensures
        response.body_stream().written() == Seq::<u8>::empty() && status != 204 && status != 304
            ==> response.body() == unbounded(response.body_stream().remaining()),
{
}

} // verus!
