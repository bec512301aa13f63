//! The status line: the first line of a response, such as `HTTP/1.1 200 OK`.

use vstd::prelude::*;
use vstd::string::*;
use vstd::utf8::is_ascii_chars;
use crate::error::{Error, ErrorKind, ErrorView};
use crate::text::{
    decimal, digit_char, digit_value, is_digit, lemma_ascii_char_byte, lemma_digit_char, NINE, SPACE,
    ZERO,
};

verus! {

/// Where a status line splits: the length of the version, and the length of
/// the version and the status code together. In `HTTP/1.1 200 OK` these are
/// 8 and 11; the version is the first 8 characters, and the status text is
/// what follows character 11, trimmed.
#[derive(Debug, Clone, Copy, PartialEq, Eq, Structural)]
pub struct ResponseStatusIndex {
    pub http_version: usize,
    pub response_code: usize,
}

/// The byte of the letter `H`.
const UPPER_H: u8 = 72;

/// The byte of the letter `T`.
const UPPER_T: u8 = 84;

/// The byte of the letter `P`.
const UPPER_P: u8 = 80;

/// The byte of the slash.
const SLASH: u8 = 47;

/// A status line is well formed when it is ASCII and reads
/// `HTTP/<digit><any character but a space><digit>`, a space, a code of three
/// digits from 100 to 999, a space, and a reason phrase, which may be empty
/// and may itself hold spaces.
pub open spec fn well_formed_status_line(line: Seq<char>) -> bool {
    &&& is_ascii_chars(line)
    &&& line.len() >= 13
    &&& line[0] == 'H'
    &&& line[1] == 'T'
    &&& line[2] == 'T'
    &&& line[3] == 'P'
    &&& line[4] == '/'
    &&& is_digit(line[5])
    &&& line[6] != ' '
    &&& is_digit(line[7])
    &&& line[8] == ' '
    &&& is_digit(line[9])
    &&& line[9] != '0'
    &&& is_digit(line[10])
    &&& is_digit(line[11])
    &&& line[12] == ' '
}

/// What is wrong with a status line that is not well formed, where the
/// parser has words for it: the line is not ASCII; it has no two spaces to
/// split it into three tokens; its first token does not start with `HTTP/`,
/// is not eight characters long, or has no digits where the version numbers
/// stand; its second token is not three characters long. A second token of
/// three characters that is no code from 100 to 999 gets no words.
pub open spec fn status_line_complaint(line: Seq<char>) -> Option<Seq<char>> {
    if !is_ascii_chars(line) {
        Some("Status line not ASCII"@)
    } else {
        match line.index_of_first(' ') {
            None => Some("Wrong number of tokens in status line"@),
            Some(first) => match line.skip(first + 1).index_of_first(' ') {
                None => Some("Wrong number of tokens in status line"@),
                Some(gap) => {
                    if !(first >= 5 && line[0] == 'H' && line[1] == 'T' && line[2] == 'T' && line[3]
                        == 'P' && line[4] == '/') {
                        Some("HTTP version did not start with HTTP/"@)
                    } else if first != 8 {
                        Some("HTTP version was wrong length"@)
                    } else if !is_digit(line[5]) || !is_digit(line[7]) {
                        Some("HTTP version did not match format"@)
                    } else if gap != 3 {
                        Some("Status code was wrong length"@)
                    } else {
                        None
                    }
                },
            },
        }
    }
}

/// The error of a status line that is not well formed.
pub open spec fn bad_status(line: Seq<char>) -> ErrorView {
    ErrorView { kind: ErrorKind::BadStatus, message: status_line_complaint(line), source: None }
}

/// The status code that a well-formed status line carries.
pub open spec fn status_code_of(line: Seq<char>) -> int {
    100 * digit_value(line[9]) + 10 * digit_value(line[10]) + digit_value(line[11])
}

/// Parses a status line whose line terminator has been stripped.
///
/// A well-formed line gives the offsets of its two splits and its code; the
/// version is `line[0..http_version]` and holds no space, and the status
/// text is what follows `line[0..response_code + 1]`, trimmed. Any other
/// line is a `BadStatus` error, with the words of
/// [`status_line_complaint`].
#[verifier::loop_isolation(false)]
pub fn parse_status_line(line: &str) -> (r: Result<(ResponseStatusIndex, u16), Error>)
    ensures
        match r {
            Ok((index, status)) => {
                &&& well_formed_status_line(line@)
                &&& index.http_version == 8
                &&& index.response_code == 11
                &&& status == status_code_of(line@)
                &&& 100 <= status <= 999
                &&& line@[index.http_version as int] == ' '
                &&& forall|i: int| 0 <= i < index.http_version ==> line@[i] != ' '
            },
            Err(e) => !well_formed_status_line(line@) && e@ == bad_status(line@),
        },
{
    if !line.is_ascii() {
        return Err(ErrorKind::BadStatus.msg("Status line not ASCII"));
    }
    broadcast use vstd::string::is_ascii_spec_bytes;

    let bytes = line.as_bytes();
    let n = bytes.len();
    assert(n == line@.len());
    assert forall|i: int|
        #![trigger bytes@[i]]
        #![trigger line@[i]]
        0 <= i < n implies bytes@[i] == line@[i] as u8 && bytes@[i] as char == line@[i] by {
        lemma_ascii_char_byte(line@[i]);
    }
    // The first two spaces delimit the version and the code.
    let mut first: usize = 0;
    while first < n && bytes[first] != SPACE
        invariant
            first <= n,
            n == bytes@.len(),
            forall|i: int| 0 <= i < first ==> bytes@[i] != SPACE,
        decreases n - first,
    {
        first = first + 1;
    }
    proof {
        line@.index_of_first_ensures(' ');
        if first < n {
            assert(line@[first as int] == ' ');
            assert(line@.contains(' '));
        }
    }
    if first >= n {
        return Err(ErrorKind::BadStatus.msg("Wrong number of tokens in status line"));
    }
    assert(line@.index_of_first(' ') == Some(first as int));
    let ghost tail = line@.skip(first + 1);
    let mut second: usize = first + 1;
    while second < n && bytes[second] != SPACE
        invariant
            first < second <= n,
            n == bytes@.len(),
            forall|i: int| first < i < second ==> bytes@[i] != SPACE,
        decreases n - second,
    {
        second = second + 1;
    }
    proof {
        tail.index_of_first_ensures(' ');
        assert forall|j: int| 0 <= j < second - first - 1 implies tail[j] != ' ' by {
            assert(tail[j] == line@[first + 1 + j]);
        }
        if second < n {
            assert(tail[second - first - 1] == line@[second as int]);
            assert(tail.contains(' '));
        } else {
            assert forall|j: int| 0 <= j < tail.len() implies tail[j] != ' ' by {
                assert(tail[j] == line@[first + 1 + j]);
            }
        }
    }
    if second >= n {
        return Err(ErrorKind::BadStatus.msg("Wrong number of tokens in status line"));
    }
    assert(tail.index_of_first(' ') == Some(second - first - 1));
    if first < 5 || bytes[0] != UPPER_H || bytes[1] != UPPER_T || bytes[2] != UPPER_T || bytes[3]
        != UPPER_P || bytes[4] != SLASH {
        return Err(ErrorKind::BadStatus.msg("HTTP version did not start with HTTP/"));
    }
    if first != 8 {
        return Err(ErrorKind::BadStatus.msg("HTTP version was wrong length"));
    }
    if !is_digit_byte(bytes[5]) || !is_digit_byte(bytes[7]) {
        return Err(ErrorKind::BadStatus.msg("HTTP version did not match format"));
    }
    if second - first != 4 {
        return Err(ErrorKind::BadStatus.msg("Status code was wrong length"));
    }
    if !is_digit_byte(bytes[9]) || !is_digit_byte(bytes[10]) || !is_digit_byte(bytes[11])
        || bytes[9] == ZERO {
        return Err(ErrorKind::BadStatus.new());
    }
    let hundreds = (bytes[9] - ZERO) as u16;
    let tens = (bytes[10] - ZERO) as u16;
    let ones = (bytes[11] - ZERO) as u16;
    let status: u16 = 100 * hundreds + 10 * tens + ones;
    Ok((ResponseStatusIndex { http_version: first, response_code: second - 1 }, status))
}

/// The status line that is written as `HTTP/`, a digit, a dot, a digit, a
/// space, a code in decimal, a space and a reason phrase.
pub open spec fn status_line_of(major: char, minor: char, code: u16, reason: Seq<char>) -> Seq<
    char,
> {
    seq!['H', 'T', 'T', 'P', '/', major, '.', minor, ' '] + decimal(code as nat) + seq![' ']
        + reason
}

/// Every line of the form `HTTP/x.y <code> <reason>`, with a code of three
/// digits, is well formed; its code is the code that was written, and its
/// first eight characters are the version `HTTP/x.y`. With the contract of
/// [`parse_status_line`], the parser returns that code and the offset at
/// which that version ends.
pub proof fn lines_of_the_grammar_are_well_formed(
    major: char,
    minor: char,
    code: u16,
    reason: Seq<char>,
)
    requires
        is_digit(major),
        is_digit(minor),
        100 <= code <= 999,
        is_ascii_chars(reason),
    ensures
        well_formed_status_line(status_line_of(major, minor, code, reason)),
        status_code_of(status_line_of(major, minor, code, reason)) == code,
        status_line_of(major, minor, code, reason).take(8) == seq![
            'H',
            'T',
            'T',
            'P',
            '/',
            major,
            '.',
            minor,
        ],
        status_line_of(major, minor, code, reason).skip(12) == seq![' '] + reason,
{
    let line = status_line_of(major, minor, code, reason);
    lemma_three_digits(code);
    let digits = decimal(code as nat);
    assert(line.len() == 13 + reason.len());
    assert(line[9] == digits[0]);
    assert(line[10] == digits[1]);
    assert(line[11] == digits[2]);
    assert(line[12] == ' ');
    assert forall|i: int| 0 <= i < line.len() implies '\0' <= #[trigger] line[i] <= '\u{7f}' by {
        if i >= 13 {
            assert(line[i] == reason[i - 13]);
        }
    }
    assert(line.take(8) =~= seq!['H', 'T', 'T', 'P', '/', major, '.', minor]);
    assert(line.skip(12) =~= seq![' '] + reason);
}

/// A number from 100 to 999 is written with three digits, the first of
/// which is not zero.
pub proof fn lemma_three_digits(code: u16)
    requires
        100 <= code <= 999,
    ensures
        decimal(code as nat).len() == 3,
        is_digit(decimal(code as nat)[0]),
        is_digit(decimal(code as nat)[1]),
        is_digit(decimal(code as nat)[2]),
        decimal(code as nat)[0] != '0',
        100 * digit_value(decimal(code as nat)[0]) + 10 * digit_value(decimal(code as nat)[1])
            + digit_value(decimal(code as nat)[2]) == code,
{
    reveal_with_fuel(decimal, 3);
    let n = code as nat;
    let hundreds = (n / 100) as int;
    let tens = ((n / 10) % 10) as int;
    let ones = (n % 10) as int;
    assert(n / 10 / 10 == n / 100);
    assert(decimal(n) =~= seq![digit_char(hundreds), digit_char(tens), digit_char(ones)]);
    lemma_digit_char(hundreds);
    lemma_digit_char(tens);
    lemma_digit_char(ones);
}

/// Whether a byte is an ASCII decimal digit.
fn is_digit_byte(b: u8) -> (r: bool)
    ensures
        r == (ZERO <= b <= NINE),
{
    b >= ZERO && b <= NINE
}

} // verus!
