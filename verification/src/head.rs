//! The head of a response on the wire: lines that end with CRLF, up to an
//! empty line.

use vstd::prelude::*;
use vstd::string::*;
use vstd::utf8::{decode_utf8, valid_utf8};
use crate::error::{Fault, IoError, IoErrorKind};
use crate::header::{header_of, Header, HeaderView};
use crate::stream::{expired, line_len, now_millis, timeout_fault, DeadlineStream, CR, LF};
use crate::text::str_from_utf8;

verus! {

/// Whether a line ends with a carriage return and a line feed.
pub open spec fn ends_with_crlf(raw: Seq<u8>) -> bool {
    raw.len() >= 2 && raw[raw.len() - 2] == CR && raw[raw.len() - 1] == LF
}

/// The error of a stream that ends where a line is expected.
pub open spec fn end_of_stream_fault() -> Fault {
    Fault { kind: IoErrorKind::UnexpectedEof, message: "Unexpected EOF"@ }
}

/// The error of a line that is not UTF-8.
pub open spec fn not_utf8_fault() -> Fault {
    Fault { kind: IoErrorKind::InvalidData, message: "stream did not contain valid UTF-8"@ }
}

/// The error of a line that does not end with CRLF; it quotes the line.
pub open spec fn unterminated_fault(line: Seq<char>) -> Fault {
    Fault { kind: IoErrorKind::InvalidInput, message: "Header field didn't end with \\r: "@ + line }
}

/// The text of the first line of `bytes`, without its terminator.
///
/// There is no line at the end of the stream (`UnexpectedEof`); a line must
/// be valid UTF-8 (`InvalidData`) and end with CRLF (`InvalidInput`).
pub open spec fn next_line(bytes: Seq<u8>) -> Result<Seq<char>, Fault> {
    let raw = bytes.take(line_len(bytes));
    if raw.len() == 0 {
        Err(end_of_stream_fault())
    } else if !valid_utf8(raw) {
        Err(not_utf8_fault())
    } else if !ends_with_crlf(raw) {
        Err(unterminated_fault(decode_utf8(raw)))
    } else {
        Ok(decode_utf8(raw.take(raw.len() - 2)))
    }
}

/// What reading the next line at the time `now` gives: after the deadline
/// the timeout, and nothing is consumed; else the line is taken off the
/// stream, whether or not it is accepted, and the result is its text or
/// the error that [`next_line`] names.
pub open spec fn line_read_at(
    before: &DeadlineStream,
    after: &DeadlineStream,
    now: u64,
    r: Result<String, IoError>,
) -> bool {
    &&& after.deadline() == before.deadline()
    &&& after.stream().written() == before.stream().written()
    &&& if expired(before.deadline(), now) {
        r matches Err(e) && e@ == timeout_fault() && after.remaining() == before.remaining()
    } else {
        &&& after.remaining() == before.remaining().skip(line_len(before.remaining()))
        &&& match next_line(before.remaining()) {
            Ok(line) => r matches Ok(text) && text@ == line,
            Err(fault) => r matches Err(e) && e@ == fault,
        }
    }
}

/// Reads the next line of a response head at the time `now` and strips its
/// terminator.
pub fn read_next_line_at(reader: &mut DeadlineStream, now: u64) -> (r: Result<String, IoError>)
    ensures
        line_read_at(old(reader), final(reader), now, r),
        0 <= line_len(old(reader).remaining()) <= old(reader).remaining().len(),
{
    broadcast use vstd::utf8::group_utf8_lib;

    let raw = match reader.read_line_at(now) {
        Err(e) => {
            return Err(e);
        },
        Ok(raw) => raw,
    };
    let n = raw.len();
    if n == 0 {
        return Err(IoError::new(IoErrorKind::UnexpectedEof, "Unexpected EOF"));
    }
    let text = match str_from_utf8(raw.as_slice()) {
        None => {
            return Err(
                IoError::new(IoErrorKind::InvalidData, "stream did not contain valid UTF-8"),
            );
        },
        Some(text) => text,
    };
    if n < 2 || raw[n - 2] != CR || raw[n - 1] != LF {
        let mut message = String::from_str("Header field didn't end with \\r: ");
        message.append(text);
        return Err(IoError { kind: IoErrorKind::InvalidInput, message });
    }
    proof {
        vstd::utf8::is_char_boundary_iff_not_is_continuation_byte(raw@, n - 2);
    }
    let (line, _) = text.split_at(n - 2);
    assert(line.spec_bytes() == raw@.take(n - 2));
    Ok(line.to_owned())
}

/// Reads the next line of a response head and strips its terminator. The
/// clock is read once, and the reading is the one of that time.
pub fn read_next_line(reader: &mut DeadlineStream) -> (r: Result<String, IoError>)
    ensures
        exists|now: u64| #[trigger] line_read_at(old(reader), final(reader), now, r),
{
    let now = now_millis();
    let r = read_next_line_at(reader, now);
    assert(line_read_at(old(reader), reader, now, r));
    r
}

/// The headers of a header block and the number of bytes that the block
/// takes, its empty line included.
pub struct Block {
    pub headers: Seq<HeaderView>,
    pub length: int,
}

/// The header block that `bytes` start with: lines up to an empty line. A
/// line that stands for no header is left out. The first line that cannot
/// be read decides the error.
pub open spec fn header_block(bytes: Seq<u8>) -> Result<Block, Fault>
    decreases bytes.len(),
{
    let n = line_len(bytes);
    match next_line(bytes) {
        Err(kind) => Err(kind),
        Ok(line) => {
            if line.len() == 0 {
                Ok(Block { headers: Seq::empty(), length: n })
            } else if 0 < n <= bytes.len() {
                match header_block(bytes.skip(n)) {
                    Err(kind) => Err(kind),
                    Ok(rest) => Ok(
                        Block {
                            headers: accepted(line) + rest.headers,
                            length: n + rest.length,
                        },
                    ),
                }
            } else {
                Err(end_of_stream_fault())
            }
        },
    }
}

/// The header that a line contributes to a block: one, or none.
pub open spec fn accepted(line: Seq<char>) -> Seq<HeaderView> {
    match header_of(line) {
        Some(header) => seq![header],
        None => Seq::empty(),
    }
}

/// The values of a list of headers.
pub open spec fn views(headers: Seq<Header>) -> Seq<HeaderView> {
    headers.map_values(|h: Header| h@)
}

/// A block that follows `used` bytes in which `before` was found.
pub open spec fn continued(before: Seq<HeaderView>, used: int, rest: Result<Block, Fault>)
    -> Result<Block, Fault> {
    match rest {
        Err(kind) => Err(kind),
        Ok(block) => Ok(
            Block { headers: before + block.headers, length: used + block.length },
        ),
    }
}

/// What reading a header block at the time `now` gives: after the deadline
/// the timeout, and nothing is consumed; else the headers of the block that
/// the stream starts with, and the stream stands behind the block, or the
/// error of the first line that cannot be read.
pub open spec fn block_read_at(
    before: &DeadlineStream,
    after: &DeadlineStream,
    now: u64,
    r: Result<Vec<Header>, IoError>,
) -> bool {
    &&& after.deadline() == before.deadline()
    &&& after.stream().written() == before.stream().written()
    &&& if expired(before.deadline(), now) {
        r matches Err(e) && e@ == timeout_fault() && after.remaining() == before.remaining()
    } else {
        match header_block(before.remaining()) {
            Ok(block) => {
                &&& r matches Ok(headers)
                &&& views(headers@) == block.headers
                &&& 0 <= block.length <= before.remaining().len()
                &&& after.remaining() == before.remaining().skip(block.length)
            },
            Err(fault) => r matches Err(e) && e@ == fault,
        }
    }
}

/// Reads a header block at the time `now`: line by line up to the empty
/// line. Lines that do not parse as a header are skipped.
pub fn read_header_block_at(reader: &mut DeadlineStream, now: u64) -> (r: Result<
    Vec<Header>,
    IoError,
>)
    ensures
        block_read_at(old(reader), final(reader), now, r),
{
    let mut headers: Vec<Header> = Vec::new();
    let ghost all = reader.remaining();
    let ghost mut used: int = 0;
    assert(all.skip(0) =~= all);
    assert(views(headers@) =~= Seq::<HeaderView>::empty());
    loop
        invariant
            reader.deadline() == old(reader).deadline(),
            reader.stream().written() == old(reader).stream().written(),
            all == old(reader).remaining(),
            0 <= used <= all.len(),
            reader.remaining() == all.skip(used),
            header_block(all) == continued(views(headers@), used, header_block(all.skip(used))),
            used > 0 ==> !expired(reader.deadline(), now),
        decreases all.len() - used,
    {
        let ghost rest = reader.remaining();
        let ghost n = line_len(rest);
        let ghost before = views(headers@);
        let line = match read_next_line_at(reader, now) {
            Err(e) => {
                assert(all.skip(0) =~= all);
                return Err(e);
            },
            Ok(line) => line,
        };
        assert(all.skip(used).skip(n) =~= all.skip(used + n));
        assert(rest.take(n).len() >= 2);
        if line.as_str().is_empty() {
            assert(before + Seq::<HeaderView>::empty() =~= before);
            return Ok(headers);
        }
        match Header::parse(line.as_str()) {
            Ok(header) => {
                headers.push(header);
                assert(views(headers@) =~= before + accepted(line@));
            },
            Err(_) => {
                assert(views(headers@) =~= before + accepted(line@));
            },
        }
        proof {
            let tail = header_block(rest.skip(n));
            if let Ok(block) = tail {
                assert((before + accepted(line@)) + block.headers =~= before + (accepted(line@)
                    + block.headers));
            }
            used = used + n;
        }
    }
}

/// Reads a header block: line by line up to the empty line. The clock is
/// read once, and the reading is the one of that time.
pub fn read_header_block(reader: &mut DeadlineStream) -> (r: Result<Vec<Header>, IoError>)
    ensures
        exists|now: u64| #[trigger] block_read_at(old(reader), final(reader), now, r),
{
    let now = now_millis();
    let r = read_header_block_at(reader, now);
    assert(block_read_at(old(reader), reader, now, r));
    r
}

} // verus!
