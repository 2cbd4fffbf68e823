//! Text as a sequence of characters: classes of characters, quoting, and
//! conversions.

use vstd::prelude::*;

verus! {

// ---------------------------------------------------------------------------
// Trusted items: parts of std's text support that vstd does not specify.
// ---------------------------------------------------------------------------

/// `String::push` appends the given character to the end of the string.
pub assume_specification[ String::push ](s: &mut String, ch: char)
    ensures
        final(s)@ == old(s)@.push(ch),
;

/// What `char::is_alphanumeric` answers for a character: the Unicode
/// properties `Alphabetic` and `Numeric` as std's tables hold them.
pub uninterp spec fn unicode_alphanumeric(c: char) -> bool;

/// `char::is_alphanumeric`: the Unicode answer is taken as it comes; within
/// ASCII it is exactly the letters and the digits.
#[verifier::external_body]
fn char_is_alphanumeric(c: char) -> (r: bool)
    ensures
        r == unicode_alphanumeric(c),
        c as u32 <= 0x7f ==> r == ascii_alphanumeric(c),
{
    c.is_alphanumeric()
}

/// What `{:?}` makes of a string: quoted, with std's choice of escapes.
pub uninterp spec fn debug_quoted(s: Seq<char>) -> Seq<char>;

/// Formatting with `{:?}`: a string of printable ASCII without double quotes
/// and backslashes comes out between double quotes as it is; of other strings
/// only that the result is a function of the characters is claimed.
#[verifier::external_body]
fn format_debug(s: &str) -> (r: String)
    ensures
        r@ == debug_quoted(s@),
        needs_no_escape(s@) ==> r@ == seq!['"'] + s@ + seq!['"'],
{
    format!("{:?}", s)
}

// ---------------------------------------------------------------------------
// Single characters.
// ---------------------------------------------------------------------------

/// The Unicode property `White_Space`.
pub open spec fn whitespace(c: char) -> bool {
    ||| 0x09 <= c as u32 <= 0x0d
    ||| c as u32 == 0x20
    ||| c as u32 == 0x85
    ||| c as u32 == 0xa0
    ||| c as u32 == 0x1680
    ||| 0x2000 <= c as u32 <= 0x200a
    ||| c as u32 == 0x2028
    ||| c as u32 == 0x2029
    ||| c as u32 == 0x202f
    ||| c as u32 == 0x205f
    ||| c as u32 == 0x3000
}

/// Of ASCII the tabulators, the line feed, the form feed, the carriage return and
/// the space are white space, and nothing else; beyond it the no-break space and
/// the ideographic space are, among others.
pub proof fn white_space_of_ascii(c: char)
    ensures
        c as u32 <= 0x7f ==> (whitespace(c) <==> c == '\t' || c == '\n' || c == '\u{b}' || c
            == '\u{c}' || c == '\r' || c == ' '),
        c == '\u{a0}' || c == '\u{3000}' || c == '\u{2003}' ==> whitespace(c),
        ascii_alphanumeric(c) ==> !whitespace(c),
{
}

/// Whether a character is white space.
pub fn is_whitespace(c: char) -> (r: bool)
    ensures
        r == whitespace(c),
{
    let u: u32 = c as u32;
    (0x09 <= u && u <= 0x0d) || u == 0x20 || u == 0x85 || u == 0xa0 || u == 0x1680 || (0x2000 <= u
        && u <= 0x200a) || u == 0x2028 || u == 0x2029 || u == 0x202f || u == 0x205f || u == 0x3000
}

/// An ASCII letter or digit.
pub open spec fn ascii_alphanumeric(c: char) -> bool {
    ||| 'a' <= c <= 'z'
    ||| 'A' <= c <= 'Z'
    ||| '0' <= c <= '9'
}

/// A letter or a digit of any script.
pub open spec fn alphanumeric(c: char) -> bool {
    if c as u32 <= 0x7f {
        ascii_alphanumeric(c)
    } else {
        unicode_alphanumeric(c)
    }
}

/// Whether a character is a letter or a digit of any script.
pub fn is_alphanumeric(c: char) -> (r: bool)
    ensures
        r == alphanumeric(c),
{
    char_is_alphanumeric(c)
}

/// The lower-case form of an ASCII letter; every other character as it is.
pub open spec fn lower(c: char) -> char {
    if 'A' <= c <= 'Z' {
        (c as u32 + 32) as char
    } else {
        c
    }
}

/// A text with its ASCII letters in lower case.
pub open spec fn lowered(s: Seq<char>) -> Seq<char> {
    Seq::new(s.len(), |i: int| lower(s[i]))
}

/// Capital ASCII letters become their small counterparts, everything else stays,
/// and lowering texts one by one is lowering them together.
pub proof fn lowering_changes_only_capitals(k: int, c: char, a: Seq<char>, b: Seq<char>)
    ensures
        0 <= k < 26 ==> lower((0x41 + k) as char) == (0x61 + k) as char,
        !(0x41 <= c as int <= 0x5a) ==> lower(c) == c,
        lowered(a + b) == lowered(a) + lowered(b),
        lowered(lowered(a)) == lowered(a),
        lowered(a).len() == a.len(),
{
    assert(lowered(a + b) =~= lowered(a) + lowered(b));
    assert(lowered(lowered(a)) =~= lowered(a));
}

fn lower_char(c: char) -> (r: char)
    ensures
        r == lower(c),
{
    if 'A' <= c && c <= 'Z' {
        let b: u8 = c as u8;
        (b + 32u8) as char
    } else {
        c
    }
}

// ---------------------------------------------------------------------------
// Quoting.
// ---------------------------------------------------------------------------

/// Printable ASCII without double quotes and backslashes.
pub open spec fn needs_no_escape(s: Seq<char>) -> bool {
    forall|i: int|
        0 <= i < s.len() ==> ' ' <= #[trigger] s[i] <= '~' && s[i] != '"' && s[i] != '\\'
}

/// A text between double quotes, with what needs it escaped.
pub open spec fn quoted(s: Seq<char>) -> Seq<char> {
    if needs_no_escape(s) {
        seq!['"'] + s + seq!['"']
    } else {
        debug_quoted(s)
    }
}

/// A text of letters, digits and spaces of ASCII stands between double quotes as it
/// is; and within ASCII what is a letter or a digit is no matter of any table.
pub proof fn plain_text_is_quoted_as_it_is(s: Seq<char>, c: char)
    requires
        forall|i: int| 0 <= i < s.len() ==> ascii_alphanumeric(#[trigger] s[i]) || s[i] == ' ',
    ensures
        quoted(s) == seq!['"'] + s + seq!['"'],
        c as u32 <= 0x7f ==> (alphanumeric(c) <==> ascii_alphanumeric(c)),
{
}

/// The text between double quotes, with what needs it escaped.
pub fn quote(s: &str) -> (r: String)
    ensures
        r@ == quoted(s@),
{
    format_debug(s)
}

// ---------------------------------------------------------------------------
// Conversions.
// ---------------------------------------------------------------------------

/// The characters of a string.
pub fn chars_of(s: &str) -> (r: Vec<char>)
    ensures
        r@ == s@,
{
    let mut v: Vec<char> = Vec::new();
    for c in it: s.chars()
        invariant
            it.seq() == s@,
            v@ == s@.take(it.index() as int),
    {
        v.push(c);
    }
    v
}

/// Whether two strings hold the same text.
pub fn same_text(a: &str, b: &str) -> (r: bool)
    ensures
        r == (a@ == b@),
{
    a.to_owned() == b.to_owned()
}

/// The text with its ASCII letters in lower case.
pub fn to_ascii_lowercase(s: &str) -> (r: String)
    ensures
        r@ == lowered(s@),
{
    let mut out = String::new();
    for c in it: s.chars()
        invariant
            it.seq() == s@,
            out@ == lowered(s@).take(it.index() as int),
    {
        out.push(lower_char(c));
    }
    out
}

} // verus!
