//! One header field of a response: a name and a value.

use vstd::prelude::*;
use vstd::std_specs::iter::IteratorSpec;
use vstd::string::*;
use crate::error::{Error, ErrorKind, ErrorView};
use crate::text::{eq_ignore_ascii_case, eq_ignoring_ascii_case, find_char, trim, trimmed};

verus! {

/// A character that a header name may hold: a letter, a digit, or one of
/// ``!#$%&'*+-.^_`|~``.
pub open spec fn is_token_char(c: char) -> bool {
    ||| 'a' <= c <= 'z'
    ||| 'A' <= c <= 'Z'
    ||| '0' <= c <= '9'
    ||| c == '!'
    ||| c == '#'
    ||| c == '$'
    ||| c == '%'
    ||| c == '&'
    ||| c == '\''
    ||| c == '*'
    ||| c == '+'
    ||| c == '-'
    ||| c == '.'
    ||| c == '^'
    ||| c == '_'
    ||| c == '`'
    ||| c == '|'
    ||| c == '~'
}

/// A character that a header value may hold: a visible ASCII character, a
/// space or a tab.
pub open spec fn is_field_char(c: char) -> bool {
    c == ' ' || c == '\t' || '!' <= c <= '~'
}

/// A header name is one or more token characters.
pub open spec fn valid_name(name: Seq<char>) -> bool {
    name.len() > 0 && forall|i: int| 0 <= i < name.len() ==> is_token_char(#[trigger] name[i])
}

/// A header value holds field characters only.
pub open spec fn valid_value(value: Seq<char>) -> bool {
    forall|i: int| 0 <= i < value.len() ==> is_field_char(#[trigger] value[i])
}

/// The mathematical value of a [`Header`].
pub struct HeaderView {
    pub name: Seq<char>,
    pub value: Seq<char>,
}

/// The header that a line stands for: the name is what precedes the first
/// colon, the value is what follows it, trimmed. A line without a colon, with
/// an invalid name or with an invalid value stands for none.
pub open spec fn header_of(line: Seq<char>) -> Option<HeaderView> {
    match line.index_of_first(':') {
        None => None,
        Some(colon) => {
            let name = line.take(colon);
            let value = trimmed(line.skip(colon + 1));
            if valid_name(name) && valid_value(value) {
                Some(HeaderView { name, value })
            } else {
                None
            }
        },
    }
}

/// A line that is written as a valid name, a colon and a value stands for
/// the header of that name whose value is the value written, trimmed,
/// provided that this is a valid value.
pub proof fn header_line_stands_for_its_parts(name: Seq<char>, value: Seq<char>)
    requires
        valid_name(name),
        valid_value(trimmed(value)),
    ensures
        header_of(name + seq![':'] + value) == Some(HeaderView { name, value: trimmed(value) }),
{
    let line = name + seq![':'] + value;
    let colon = name.len() as int;
    line.index_of_first_ensures(':');
    assert(line[colon] == ':');
    assert(line.contains(':'));
    assert forall|j: int| 0 <= j < colon implies line[j] != ':' by {
        assert(line[j] == name[j]);
        assert(is_token_char(name[j]));
    }
    assert(line.index_of_first(':') == Some(colon));
    assert(line.take(colon) =~= name);
    assert(line.skip(colon + 1) =~= value);
}

/// What is wrong with a line that stands for no header.
pub open spec fn header_complaint(line: Seq<char>) -> Seq<char> {
    match line.index_of_first(':') {
        None => "no colon in header"@,
        Some(colon) => if !valid_name(line.take(colon)) {
            "invalid header name"@
        } else {
            "invalid header value"@
        },
    }
}

/// The error of a line that stands for no header.
pub open spec fn bad_header(line: Seq<char>) -> ErrorView {
    ErrorView { kind: ErrorKind::BadHeader, message: Some(header_complaint(line)), source: None }
}

/// A header field.
#[derive(Debug)]
pub struct Header {
    name: String,
    value: String,
}

impl View for Header {
    type V = HeaderView;

    closed spec fn view(&self) -> HeaderView {
        HeaderView { name: self.name@, value: self.value@ }
    }
}

/// Whether a character may stand in a header name.
fn is_token(c: char) -> (r: bool)
    ensures
        r == is_token_char(c),
{
    ('a' <= c && c <= 'z') || ('A' <= c && c <= 'Z') || ('0' <= c && c <= '9') || c == '!' || c
        == '#' || c == '$' || c == '%' || c == '&' || c == '\'' || c == '*' || c == '+' || c == '-'
        || c == '.' || c == '^' || c == '_' || c == '`' || c == '|' || c == '~'
}

/// Whether a character may stand in a header value.
fn is_field(c: char) -> (r: bool)
    ensures
        r == is_field_char(c),
{
    c == ' ' || c == '\t' || ('!' <= c && c <= '~')
}

/// Whether a text is a valid header name.
fn check_name(name: &str) -> (r: bool)
    ensures
        r == valid_name(name@),
{
    broadcast use vstd::string::group_string_axioms;

    let n = name.unicode_len();
    if n == 0 {
        return false;
    }
    let mut it = name.chars();
    let mut i: usize = 0;
    while i < n
        invariant
            i <= n,
            n == name@.len(),
            it.obeys_prophetic_iter_laws(),
            it.remaining() == name@.skip(i as int),
            forall|j: int| 0 <= j < i ==> is_token_char(#[trigger] name@[j]),
        decreases n - i,
    {
        let next = it.next();
        if let Some(c) = next {
            if !is_token(c) {
                return false;
            }
        }
        i = i + 1;
    }
    true
}

/// Whether a text is a valid header value.
fn check_value(value: &str) -> (r: bool)
    ensures
        r == valid_value(value@),
{
    broadcast use vstd::string::group_string_axioms;

    let n = value.unicode_len();
    let mut it = value.chars();
    let mut i: usize = 0;
    while i < n
        invariant
            i <= n,
            n == value@.len(),
            it.obeys_prophetic_iter_laws(),
            it.remaining() == value@.skip(i as int),
            forall|j: int| 0 <= j < i ==> is_field_char(#[trigger] value@[j]),
        decreases n - i,
    {
        let next = it.next();
        if let Some(c) = next {
            if !is_field(c) {
                return false;
            }
        }
        i = i + 1;
    }
    true
}

impl Header {
    /// A header holds a valid name and a valid value.
    #[verifier::type_invariant]
    pub closed spec fn well_formed(&self) -> bool {
        valid_name(self.name@) && valid_value(self.value@)
    }

    /// Parses one header line, without its line terminator.
    pub fn parse(line: &str) -> (r: Result<Header, Error>)
        ensures
            match r {
                Ok(header) => header_of(line@) == Some(header@) && header.well_formed(),
                Err(e) => header_of(line@) is None && e@ == bad_header(line@),
            },
    {
        let colon = match find_char(line, ':') {
            Some(colon) => colon,
            None => {
                return Err(ErrorKind::BadHeader.msg("no colon in header"));
            },
        };
        let n = line.unicode_len();
        let name = line.substring_char(0, colon);
        let value = trim(line.substring_char(colon + 1, n));
        assert(name@ == line@.take(colon as int));
        if !check_name(name) {
            return Err(ErrorKind::BadHeader.msg("invalid header name"));
        }
        if !check_value(value) {
            return Err(ErrorKind::BadHeader.msg("invalid header value"));
        }
        Ok(Header { name: name.to_owned(), value: value.to_owned() })
    }

    /// The name of the header, as it was received.
    pub fn name(&self) -> (r: &str)
        ensures
            r@ == self@.name,
    {
        self.name.as_str()
    }

    /// The value of the header, without surrounding whitespace.
    pub fn value(&self) -> (r: &str)
        ensures
            r@ == self@.value,
    {
        self.value.as_str()
    }

    /// Whether the header has the given name; the case of ASCII letters does
    /// not count.
    pub fn is_name(&self, other: &str) -> (r: bool)
        ensures
            r == eq_ignoring_ascii_case(self@.name, other@),
    {
        eq_ignore_ascii_case(self.name.as_str(), other)
    }
}

impl std::str::FromStr for Header {
    type Err = Error;

    /// Parses one header line, as [`Header::parse`] does.
    fn from_str(s: &str) -> (r: Result<Header, Error>)
        ensures
            match r {
                Ok(header) => header_of(s@) == Some(header@),
                Err(e) => header_of(s@) is None && e@ == bad_header(s@),
            },
    {
        Header::parse(s)
    }
}

} // verus!
