//! Character and text notions that the parsers share: digits, whitespace,
//! trimming, comparison without regard to ASCII case, and decimal numbers.

use vstd::prelude::*;
use vstd::std_specs::iter::IteratorSpec;
use vstd::string::*;
use vstd::utf8::valid_utf8;

verus! {

/// The byte of the ASCII space.
pub const SPACE: u8 = 32;

/// The byte of the ASCII digit zero.
pub const ZERO: u8 = 48;

/// The byte of the ASCII digit nine.
pub const NINE: u8 = 57;

/// An ASCII decimal digit.
pub open spec fn is_digit(c: char) -> bool {
    '0' <= c <= '9'
}

/// The number that an ASCII decimal digit stands for.
pub open spec fn digit_value(c: char) -> int {
    c as u32 - '0' as u32
}

/// An ASCII character and its byte stand for each other.
pub proof fn lemma_ascii_char_byte(c: char)
    requires
        '\0' <= c <= '\u{7f}',
    ensures
        (c as u8) as char == c,
        (c as u8) < 128,
        (c as u8) as u32 == c as u32,
{
}

/// The characters that Unicode gives the property `White_Space`.
pub open spec fn is_whitespace(c: char) -> bool {
    let u = c as u32;
    ||| 0x09 <= u <= 0x0D
    ||| u == 0x20
    ||| u == 0x85
    ||| u == 0xA0
    ||| u == 0x1680
    ||| 0x2000 <= u <= 0x200A
    ||| u == 0x2028
    ||| u == 0x2029
    ||| u == 0x202F
    ||| u == 0x205F
    ||| u == 0x3000
}

/// Whether a character is whitespace.
pub fn is_whitespace_char(c: char) -> (r: bool)
    ensures
        r == is_whitespace(c),
{
    let u: u32 = c as u32;
    (0x09 <= u && u <= 0x0D) || u == 0x20 || u == 0x85 || u == 0xA0 || u == 0x1680 || (0x2000 <= u
        && u <= 0x200A) || u == 0x2028 || u == 0x2029 || u == 0x202F || u == 0x205F || u == 0x3000
}

/// How many characters of whitespace a text starts with.
pub open spec fn trim_start(s: Seq<char>) -> int
    decreases s.len(),
{
    if s.len() > 0 && is_whitespace(s[0]) {
        1 + trim_start(s.drop_first())
    } else {
        0
    }
}

/// Where the trailing whitespace of a text starts.
pub open spec fn trim_end(s: Seq<char>) -> int
    decreases s.len(),
{
    if s.len() > 0 && is_whitespace(s.last()) {
        trim_end(s.drop_last())
    } else {
        s.len() as int
    }
}

/// A text without its leading and trailing whitespace.
pub open spec fn trimmed(s: Seq<char>) -> Seq<char> {
    let t = s.skip(trim_start(s));
    t.take(trim_end(t))
}

/// The leading whitespace ends at the first character that is none.
proof fn lemma_trim_start(s: Seq<char>, a: int)
    requires
        0 <= a <= s.len(),
        forall|j: int| 0 <= j < a ==> is_whitespace(#[trigger] s[j]),
        a == s.len() || !is_whitespace(s[a]),
    ensures
        trim_start(s) == a,
    decreases a,
{
    if a > 0 {
        let t = s.drop_first();
        assert forall|j: int| 0 <= j < a - 1 implies is_whitespace(#[trigger] t[j]) by {
            assert(t[j] == s[j + 1]);
        }
        lemma_trim_start(t, a - 1);
    }
}

/// The trailing whitespace starts behind the last character that is none.
proof fn lemma_trim_end(s: Seq<char>, e: int)
    requires
        0 <= e <= s.len(),
        forall|j: int| e <= j < s.len() ==> is_whitespace(#[trigger] s[j]),
        e == 0 || !is_whitespace(s[e - 1]),
    ensures
        trim_end(s) == e,
    decreases s.len() - e,
{
    if e < s.len() {
        let t = s.drop_last();
        assert forall|j: int| e <= j < t.len() implies is_whitespace(#[trigger] t[j]) by {
            assert(t[j] == s[j]);
        }
        lemma_trim_end(t, e);
    }
}

/// The trimmed text is the range between the first and the last character
/// that is not whitespace.
pub proof fn lemma_trimmed(s: Seq<char>, a: int, b: int)
    requires
        0 <= a <= b <= s.len(),
        forall|j: int| 0 <= j < a ==> is_whitespace(#[trigger] s[j]),
        forall|j: int| b <= j < s.len() ==> is_whitespace(#[trigger] s[j]),
        a < b ==> !is_whitespace(s[a]) && !is_whitespace(s[b - 1]),
    ensures
        trimmed(s) == s.subrange(a, b),
{
    if a < b {
        lemma_trim_start(s, a);
        let t = s.skip(a);
        assert forall|j: int| b - a <= j < t.len() implies is_whitespace(#[trigger] t[j]) by {
            assert(t[j] == s[j + a]);
        }
        lemma_trim_end(t, b - a);
        assert(t.take(b - a) =~= s.subrange(a, b));
    } else {
        assert forall|j: int| 0 <= j < s.len() implies is_whitespace(#[trigger] s[j]) by {
            if j < a {
            } else {
            }
        }
        lemma_trim_start(s, s.len() as int);
        let t = s.skip(s.len() as int);
        assert(t.len() == 0);
        assert(t.take(trim_end(t)) =~= s.subrange(a, b));
    }
}

/// Removes leading and trailing whitespace.
pub fn trim(s: &str) -> (r: &str)
    ensures
        r@ == trimmed(s@),
{
    broadcast use vstd::string::group_string_axioms;

    let n = s.unicode_len();
    let mut it = s.chars();
    let mut i: usize = 0;
    let mut start: usize = 0;
    let mut end: usize = 0;
    while i < n
        invariant
            i <= n,
            n == s@.len(),
            it.obeys_prophetic_iter_laws(),
            it.remaining() == s@.skip(i as int),
            start <= end <= i,
            forall|j: int| 0 <= j < start ==> is_whitespace(#[trigger] s@[j]),
            forall|j: int| end <= j < i ==> is_whitespace(#[trigger] s@[j]),
            start < end ==> !is_whitespace(s@[start as int]) && !is_whitespace(s@[end - 1]),
            start == end ==> start == i || start == 0,
            start == end ==> forall|j: int| 0 <= j < i ==> is_whitespace(#[trigger] s@[j]),
        decreases n - i,
    {
        let next = it.next();
        if let Some(c) = next {
            if !is_whitespace_char(c) {
                if start == end {
                    start = i;
                }
                end = i + 1;
            } else if start == end {
                start = i + 1;
                end = i + 1;
            }
        }
        i = i + 1;
    }
    proof {
        lemma_trimmed(s@, start as int, end as int);
    }
    s.substring_char(start, end)
}

/// The lower-case form of an ASCII letter; any other character itself.
pub open spec fn ascii_lower(c: char) -> char {
    if 'A' <= c <= 'Z' {
        ((c as u32 + 32) as u32) as char
    } else {
        c
    }
}

/// A text with its ASCII letters in lower case.
pub open spec fn lowercased(s: Seq<char>) -> Seq<char> {
    Seq::new(s.len(), |i: int| ascii_lower(s[i]))
}

/// Two texts are equal but for the case of their ASCII letters.
pub open spec fn eq_ignoring_ascii_case(a: Seq<char>, b: Seq<char>) -> bool {
    lowercased(a) == lowercased(b)
}

/// The code of the lower-case form of a character.
fn lower_code(c: char) -> (u: u32)
    ensures
        u == ascii_lower(c) as u32,
{
    let u: u32 = c as u32;
    if 65 <= u && u <= 90 {
        u + 32
    } else {
        u
    }
}

/// Compares two texts without regard to the case of ASCII letters.
pub fn eq_ignore_ascii_case(a: &str, b: &str) -> (r: bool)
    ensures
        r == eq_ignoring_ascii_case(a@, b@),
{
    broadcast use vstd::string::group_string_axioms;

    let n = a.unicode_len();
    if b.unicode_len() != n {
        assert(lowercased(a@).len() != lowercased(b@).len());
        return false;
    }
    let mut left = a.chars();
    let mut right = b.chars();
    let mut i: usize = 0;
    while i < n
        invariant
            i <= n,
            n == a@.len(),
            n == b@.len(),
            left.obeys_prophetic_iter_laws(),
            right.obeys_prophetic_iter_laws(),
            left.remaining() == a@.skip(i as int),
            right.remaining() == b@.skip(i as int),
            forall|j: int| 0 <= j < i ==> ascii_lower(#[trigger] a@[j]) == ascii_lower(b@[j]),
        decreases n - i,
    {
        let x = left.next();
        let y = right.next();
        if let (Some(c), Some(d)) = (x, y) {
            if lower_code(c) != lower_code(d) {
                assert(lowercased(a@)[i as int] != lowercased(b@)[i as int]);
                return false;
            }
        }
        i = i + 1;
    }
    assert(lowercased(a@) =~= lowercased(b@));
    true
}

/// The index of the first occurrence of a character, counted in characters.
pub fn find_char(s: &str, needle: char) -> (r: Option<usize>)
    ensures
        match r {
            Some(i) => s@.index_of_first(needle) == Some(i as int) && i < s@.len(),
            None => s@.index_of_first(needle) is None,
        },
{
    broadcast use vstd::string::group_string_axioms;

    let n = s.unicode_len();
    let mut it = s.chars();
    let mut i: usize = 0;
    while i < n
        invariant
            i <= n,
            n == s@.len(),
            it.obeys_prophetic_iter_laws(),
            it.remaining() == s@.skip(i as int),
            forall|j: int| 0 <= j < i ==> s@[j] != needle,
        decreases n - i,
    {
        let next = it.next();
        if let Some(c) = next {
            if c == needle {
                proof {
                    s@.index_of_first_ensures(needle);
                }
                return Some(i);
            }
        }
        i = i + 1;
    }
    proof {
        s@.index_of_first_ensures(needle);
    }
    None
}

/// The number that a sequence of decimal digits stands for.
pub open spec fn digits_value(s: Seq<char>) -> int
    decreases s.len(),
{
    if s.len() == 0 {
        0
    } else {
        digits_value(s.drop_last()) * 10 + digit_value(s.last())
    }
}

/// Every character is a decimal digit.
pub open spec fn all_digits(s: Seq<char>) -> bool {
    forall|i: int| 0 <= i < s.len() ==> is_digit(#[trigger] s[i])
}

/// A decimal number without its optional leading `+`.
pub open spec fn unsigned_part(s: Seq<char>) -> Seq<char> {
    if s.len() > 0 && s[0] == '+' {
        s.drop_first()
    } else {
        s
    }
}

/// The number that a text stands for, if it is an optional `+` and then one
/// or more decimal digits whose value fits a `usize`.
pub open spec fn usize_of(s: Seq<char>) -> Option<usize> {
    let d = unsigned_part(s);
    if d.len() > 0 && all_digits(d) && digits_value(d) <= usize::MAX {
        Some(digits_value(d) as usize)
    } else {
        None
    }
}

/// The first digits of a number stand for no more than the number.
proof fn lemma_digits_prefix(d: Seq<char>, k: int)
    requires
        all_digits(d),
        0 <= k <= d.len(),
    ensures
        0 <= digits_value(d.take(k)) <= digits_value(d),
    decreases d.len() - k,
{
    if k == d.len() {
        assert(d.take(k) =~= d);
        lemma_digits_nonnegative(d);
    } else {
        let e = d.drop_last();
        assert(e.take(k) =~= d.take(k));
        assert(is_digit(d.last()));
        lemma_digits_prefix(e, k);
    }
}

/// Digits stand for a number that is not negative.
proof fn lemma_digits_nonnegative(d: Seq<char>)
    requires
        all_digits(d),
    ensures
        0 <= digits_value(d),
    decreases d.len(),
{
    if d.len() > 0 {
        assert(is_digit(d.last()));
        lemma_digits_nonnegative(d.drop_last());
    }
}

/// Reads a decimal number.
pub fn parse_usize(s: &str) -> (r: Option<usize>)
    ensures
        r == usize_of(s@),
{
    broadcast use vstd::string::group_string_axioms;

    let n = s.unicode_len();
    let mut it = s.chars();
    let mut i: usize = 0;
    let mut first: usize = 0;
    let mut value: usize = 0;
    let ghost d = unsigned_part(s@);
    while i < n
        invariant
            i <= n,
            n == s@.len(),
            d == unsigned_part(s@),
            it.obeys_prophetic_iter_laws(),
            it.remaining() == s@.skip(i as int),
            first <= i,
            first == 0 || first == 1,
            first == 1 <==> i > 0 && s@[0] == '+',
            all_digits(s@.subrange(first as int, i as int)),
            value == digits_value(s@.subrange(first as int, i as int)),
        decreases n - i,
    {
        let next = it.next();
        if let Some(c) = next {
            if i == 0 && c == '+' {
                first = 1;
                assert(s@.subrange(1, 1) =~= Seq::<char>::empty());
            } else if '0' <= c && c <= '9' {
                let digit: usize = (c as u32 - 48) as usize;
                let ghost before = s@.subrange(first as int, i as int);
                let ghost after = s@.subrange(first as int, i + 1);
                proof {
                    assert(after.drop_last() =~= before);
                    assert(after.last() == c);
                    assert(d.take(after.len() as int) =~= after);
                }
                if value > (usize::MAX - digit) / 10 {
                    proof {
                        if all_digits(d) {
                            lemma_digits_prefix(d, after.len() as int);
                        }
                    }
                    return None;
                }
                value = value * 10 + digit;
            } else {
                assert(!is_digit(d[i - first]));
                return None;
            }
        }
        i = i + 1;
    }
    assert(s@.subrange(first as int, n as int) =~= d);
    if i == first {
        None
    } else {
        Some(value)
    }
}

/// The character of a decimal digit.
pub open spec fn digit_char(d: int) -> char {
    (('0' as u32 + d) as u32) as char
}

/// The character of a digit is that digit.
pub proof fn lemma_digit_char(d: int)
    requires
        0 <= d <= 9,
    ensures
        is_digit(digit_char(d)),
        digit_value(digit_char(d)) == d,
        digit_char(d) == '0' <==> d == 0,
        '\0' <= digit_char(d) <= '\u{7f}',
{
}

/// The decimal form of a number, without leading zeros.
pub open spec fn decimal(n: nat) -> Seq<char>
    decreases n,
{
    if n < 10 {
        seq![digit_char(n as int)]
    } else {
        decimal(n / 10).push(digit_char((n % 10) as int))
    }
}

/// The text of one decimal digit.
fn digit_text(d: u16) -> (r: &'static str)
    requires
        d < 10,
    ensures
        r@ == seq![digit_char(d as int)],
{
    let text = match d {
        0 => "0",
        1 => "1",
        2 => "2",
        3 => "3",
        4 => "4",
        5 => "5",
        6 => "6",
        7 => "7",
        8 => "8",
        _ => "9",
    };
    proof {
        reveal_strlit("0");
        reveal_strlit("1");
        reveal_strlit("2");
        reveal_strlit("3");
        reveal_strlit("4");
        reveal_strlit("5");
        reveal_strlit("6");
        reveal_strlit("7");
        reveal_strlit("8");
        reveal_strlit("9");
        assert(text@ =~= seq![digit_char(d as int)]);
    }
    text
}

/// Writes a number in decimal.
pub fn decimal_text(n: u16) -> (r: String)
    ensures
        r@ == decimal(n as nat),
    decreases n,
{
    if n < 10 {
        String::from_str(digit_text(n))
    } else {
        let mut text = decimal_text(n / 10);
        text.append(digit_text(n % 10));
        assert(text@ =~= decimal(n as nat));
        text
    }
}

/// `std::str::from_utf8` accepts exactly the byte sequences that are valid
/// UTF-8, and the text it returns has those bytes as its encoding.
#[verifier::external_body]
pub(crate) fn str_from_utf8(bytes: &[u8]) -> (r: Option<&str>)
    ensures
        r is Some <==> valid_utf8(bytes@),
        r matches Some(s) ==> s.spec_bytes() == bytes@,
{
    std::str::from_utf8(bytes).ok()
}

/// `str::to_ascii_lowercase` maps the ASCII letters `A` to `Z` to `a` to `z`
/// and leaves every other character as it is.
#[verifier::external_body]
pub(crate) fn to_ascii_lowercase(s: &str) -> (r: String)
    ensures
        r@ == lowercased(s@),
{
    s.to_ascii_lowercase()
}

} // verus!
