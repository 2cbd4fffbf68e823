//! File URIs.

use vstd::prelude::*;
use vstd::utf8::{
    encode_scalar, encode_utf8, encode_utf8_decode_utf8, encode_utf8_valid_utf8, is_ascii_chars,
    is_ascii_chars_encode_utf8, last_continuation_byte, leading_byte_width_1, leading_byte_width_2,
    leading_byte_width_3, leading_byte_width_4, second_last_continuation_byte,
    third_last_continuation_byte,
};

use crate::bytes::{from_utf8_lossy, utf8_text};
use crate::number::{digit_char, digit_value};
use crate::scan::{affixes_come_off, after_prefix, strip_prefix};

verus! {

// ---------------------------------------------------------------------------
// Model.
// ---------------------------------------------------------------------------

/// The byte that two characters after a percent sign stand for: two hexadecimal
/// digits, or a plus sign and one.
pub open spec fn escaped_byte(first: u8, second: u8) -> Option<u8> {
    let high = digit_value(first as char);
    let low = digit_value(second as char);
    if low >= 16 {
        None
    } else if first == 0x2bu8 {
        Some(low as u8)
    } else if high < 16 {
        Some((high * 16 + low) as u8)
    } else {
        None
    }
}

/// Bytes with their percent escapes resolved. A percent sign that starts no
/// escape stands for itself.
pub open spec fn percent_decoded(b: Seq<u8>) -> Seq<u8>
    decreases b.len(),
{
    if b.len() == 0 {
        seq![]
    } else if b[0] == 0x25u8 && b.len() > 2 && escaped_byte(b[1], b[2]) is Some {
        seq![escaped_byte(b[1], b[2])->0] + percent_decoded(b.skip(3))
    } else {
        seq![b[0]] + percent_decoded(b.skip(1))
    }
}

/// A text with a percent escape for each of the given bytes.
pub open spec fn percent_encoded(b: Seq<u8>) -> Seq<char>
    decreases b.len(),
{
    if b.len() == 0 {
        seq![]
    } else {
        seq!['%', digit_char(b[0] as int / 16), digit_char(b[0] as int % 16)] + percent_encoded(
            b.skip(1),
        )
    }
}

/// The text of a percent-encoded text.
pub open spec fn decoded_text(s: Seq<char>) -> Seq<char> {
    utf8_text(percent_decoded(encode_utf8(s)))
}

// ---------------------------------------------------------------------------
// Laws.
// ---------------------------------------------------------------------------

/// Bytes without percent signs stay as they are.
pub proof fn plain_bytes_are_kept(b: Seq<u8>)
    requires
        !b.contains(0x25u8),
    ensures
        percent_decoded(b) == b,
    decreases b.len(),
{
    if b.len() == 0 {
        assert(b =~= seq![]);
    } else {
        assert(b[0] != 0x25u8);
        assert forall|i: int| 0 <= i < b.skip(1).len() implies b.skip(1)[i] != 0x25u8 by {
            assert(b.skip(1)[i] == b[i + 1]);
        }
        plain_bytes_are_kept(b.skip(1));
        assert(seq![b[0]] + b.skip(1) =~= b);
    }
}

proof fn lemma_no_percent_byte(c: char)
    requires
        c != '%',
    ensures
        !encode_scalar(c as u32).contains(0x25u8),
{
    let v = c as u32;
    let w1 = leading_byte_width_1(v);
    let w2 = leading_byte_width_2(v);
    let w3 = leading_byte_width_3(v);
    let w4 = leading_byte_width_4(v);
    let c1 = last_continuation_byte(v);
    let c2 = second_last_continuation_byte(v);
    let c3 = third_last_continuation_byte(v);
    assert(v <= 0x7f ==> (v & 0x7F) as u8 == v) by (bit_vector);
    assert((0xC0 | ((v >> 6) & 0x1F) as u8) >= 0x80u8) by (bit_vector);
    assert((0xE0 | ((v >> 12) & 0x0F) as u8) >= 0x80u8) by (bit_vector);
    assert((0xF0 | ((v >> 18) & 0x7) as u8) >= 0x80u8) by (bit_vector);
    assert((0x80 | (v & 0x3F) as u8) >= 0x80u8) by (bit_vector);
    assert((0x80 | ((v >> 6) & 0x3F) as u8) >= 0x80u8) by (bit_vector);
    assert((0x80 | ((v >> 12) & 0x3F) as u8) >= 0x80u8) by (bit_vector);
    assert(w2 >= 0x80 && w3 >= 0x80 && w4 >= 0x80 && c1 >= 0x80 && c2 >= 0x80 && c3 >= 0x80);
}

proof fn lemma_no_percent_bytes(s: Seq<char>)
    requires
        !s.contains('%'),
    ensures
        !encode_utf8(s).contains(0x25u8),
    decreases s.len(),
{
    if s.len() > 0 {
        let rest = s.drop_first();
        assert(s[0] != '%');
        assert forall|i: int| 0 <= i < rest.len() implies rest[i] != '%' by {
            assert(rest[i] == s[i + 1]);
        }
        lemma_no_percent_bytes(rest);
        lemma_no_percent_byte(s[0]);
        let front = encode_scalar(s[0] as u32);
        let back = encode_utf8(rest);
        assert forall|i: int| 0 <= i < encode_utf8(s).len() implies encode_utf8(s)[i]
            != 0x25u8 by {
            if i < front.len() {
                assert(front.contains(front[i]));
            } else {
                assert(back.contains(back[i - front.len()]));
            }
        }
    }
}

/// A text without percent signs stays as it is.
pub proof fn plain_text_is_kept(s: Seq<char>)
    requires
        !s.contains('%'),
    ensures
        decoded_text(s) == s,
{
    lemma_no_percent_bytes(s);
    plain_bytes_are_kept(encode_utf8(s));
    encode_utf8_valid_utf8(s);
    encode_utf8_decode_utf8(s);
}

/// Whatever bytes are escaped, resolving the escapes gives them back.
pub proof fn escapes_decode_back(b: Seq<u8>)
    ensures
        percent_decoded(encode_utf8(percent_encoded(b))) == b,
    decreases b.len(),
{
    lemma_escapes_are_ascii(b);
    let e = encode_utf8(percent_encoded(b));
    if b.len() == 0 {
        assert(b =~= seq![]);
        assert(e =~= seq![]);
    } else {
        escapes_decode_back(b.skip(1));
        lemma_escapes_are_ascii(b.skip(1));
        lemma_digit(b[0] as int / 16);
        lemma_digit(b[0] as int % 16);
        assert(e.skip(3) =~= encode_utf8(percent_encoded(b.skip(1))));
        assert(escaped_byte(e[1], e[2]) == Some(b[0]));
        assert(seq![b[0]] + b.skip(1) =~= b);
    }
}

/// The first percent sign and two hexadecimal digits, in either case, stand for
/// one byte, and so do a plus sign and one digit; what precedes them is kept, and what follows is resolved in turn. A
/// percent sign that is not followed by two characters stands for itself, and so
/// does one that is followed by something else than digits.
pub proof fn first_escape_is_resolved(a: Seq<u8>, high: u8, low: u8, b: Seq<u8>)
    requires
        !a.contains(0x25u8),
    ensures
        ({
            let h = digit_value(high as char);
            let l = digit_value(low as char);
            &&& h < 16 && l < 16 ==> percent_decoded(a + seq![0x25u8, high, low] + b) == a + seq![
                (h * 16 + l) as u8,
            ] + percent_decoded(b)
            &&& high == 0x2bu8 && l < 16 ==> percent_decoded(a + seq![0x25u8, high, low] + b) == a
                + seq![l as u8] + percent_decoded(b)
            &&& l >= 16 || (h >= 16 && high != 0x2bu8) ==> percent_decoded(
                a + seq![0x25u8, high, low] + b,
            ) == a + seq![0x25u8] + percent_decoded(seq![high, low] + b)
            &&& percent_decoded(a + seq![0x25u8]) == a + seq![0x25u8]
            &&& high != 0x25u8 ==> percent_decoded(a + seq![0x25u8, high]) == a + seq![
                0x25u8,
                high,
            ]
        }),
    decreases a.len(),
{
    let s = a + seq![0x25u8, high, low] + b;
    let t = a + seq![0x25u8];
    let u = a + seq![0x25u8, high];
    if a.len() == 0 {
        reveal_with_fuel(percent_decoded, 3);
        assert(s.skip(3) =~= b);
        assert(s.skip(1) =~= seq![high, low] + b);
        assert(s[0] == 0x25u8 && s[1] == high && s[2] == low);
        assert(t.skip(1) =~= seq![]);
        assert(t[0] == 0x25u8);
        assert(u.skip(1) =~= seq![high]);
        assert(u.skip(1).skip(1) =~= seq![]);
        assert(u[0] == 0x25u8);
        let h = digit_value(high as char);
        let l = digit_value(low as char);
        assert(a + seq![(h * 16 + l) as u8] =~= seq![(h * 16 + l) as u8]);
        assert(a + seq![l as u8] =~= seq![l as u8]);
        assert(a + seq![0x25u8] =~= seq![0x25u8]);
        assert(seq![high] + percent_decoded(seq![]) =~= seq![high]);
        assert(seq![0x25u8] + seq![high] =~= seq![0x25u8, high]);
    } else {
        let rest = a.skip(1);
        assert(a[0] != 0x25u8);
        assert forall|i: int| 0 <= i < rest.len() implies rest[i] != 0x25u8 by {
            assert(rest[i] == a[i + 1]);
        }
        first_escape_is_resolved(rest, high, low, b);
        assert(s.skip(1) =~= rest + seq![0x25u8, high, low] + b);
        assert(t.skip(1) =~= rest + seq![0x25u8]);
        assert(u.skip(1) =~= rest + seq![0x25u8, high]);
        assert(a =~= seq![a[0]] + rest);
        let h = digit_value(high as char);
        let l = digit_value(low as char);
        let x = seq![(h * 16 + l) as u8] + percent_decoded(b);
        let y = seq![0x25u8] + percent_decoded(seq![high, low] + b);
        assert(rest + seq![(h * 16 + l) as u8] + percent_decoded(b) =~= rest + x);
        assert(a + seq![(h * 16 + l) as u8] + percent_decoded(b) =~= seq![a[0]] + (rest + x));
        let z = seq![l as u8] + percent_decoded(b);
        assert(rest + seq![l as u8] + percent_decoded(b) =~= rest + z);
        assert(a + seq![l as u8] + percent_decoded(b) =~= seq![a[0]] + (rest + z));
        assert(rest + seq![0x25u8] + percent_decoded(seq![high, low] + b) =~= rest + y);
        assert(a + seq![0x25u8] + percent_decoded(seq![high, low] + b) =~= seq![a[0]] + (rest + y));
        assert(a + seq![0x25u8] =~= seq![a[0]] + (rest + seq![0x25u8]));
        assert(a + seq![0x25u8, high] =~= seq![a[0]] + (rest + seq![0x25u8, high]));
    }
}

/// A URI has a path exactly where it starts with `file://`; and what follows is
/// the path as it is, where it holds no percent sign.
pub proof fn only_file_uris_have_paths(uri: Seq<char>, path: Seq<char>)
    ensures
        uri_path("file://"@ + path) is Some,
        !path.contains('%') ==> uri_path("file://"@ + path) == Some(path),
        uri_path(uri) is Some ==> exists|rest: Seq<char>| uri == #[trigger] ("file://"@ + rest),
{
    affixes_come_off("file://"@, path);
    if !path.contains('%') {
        plain_text_is_kept(path);
    }
    if uri_path(uri) is Some {
        let n = "file://"@.len() as int;
        assert(uri =~= "file://"@ + uri.skip(n));
    }
}

/// Every path can be written as a file URI that is read back as that path.
pub proof fn every_path_has_a_uri(path: Seq<char>)
    ensures
        uri_path("file://"@ + percent_encoded(encode_utf8(path))) == Some(path),
{
    let escaped = percent_encoded(encode_utf8(path));
    let uri = "file://"@ + escaped;
    assert(uri.subrange(0, "file://"@.len() as int) =~= "file://"@);
    assert(uri.skip("file://"@.len() as int) =~= escaped);
    escapes_decode_back(encode_utf8(path));
    encode_utf8_valid_utf8(path);
    encode_utf8_decode_utf8(path);
}

proof fn lemma_digit(d: int)
    requires
        0 <= d < 16,
    ensures
        digit_value((digit_char(d) as u8) as char) == d,
        digit_char(d) as u8 != 0x2bu8,
{
}

proof fn lemma_escapes_are_ascii(b: Seq<u8>)
    ensures
        is_ascii_chars(percent_encoded(b)),
        encode_utf8(percent_encoded(b)) =~= Seq::new(
            percent_encoded(b).len(),
            |i: int| percent_encoded(b)[i] as u8,
        ),
    decreases b.len(),
{
    let e = percent_encoded(b);
    if b.len() > 0 {
        lemma_escapes_are_ascii(b.skip(1));
        let rest = percent_encoded(b.skip(1));
        assert forall|i: int| 0 <= i < e.len() implies '\0' <= #[trigger] e[i] <= '\u{7f}' by {
            if i >= 3 {
                assert(e[i] == rest[i - 3]);
            }
        }
    }
    is_ascii_chars_encode_utf8(e);
}

// ---------------------------------------------------------------------------
// Code.
// ---------------------------------------------------------------------------

fn hex_digit(b: u8) -> (r: u8)
    ensures
        r == digit_value(b as char),
{
    if 0x30 <= b && b <= 0x39 {
        b - 0x30
    } else if 0x61 <= b && b <= 0x66 {
        b - 0x57
    } else if 0x41 <= b && b <= 0x46 {
        b - 0x37
    } else {
        16
    }
}

fn unescape(first: u8, second: u8) -> (r: Option<u8>)
    ensures
        r == escaped_byte(first, second),
{
    let high: u8 = hex_digit(first);
    let low: u8 = hex_digit(second);
    if low >= 16 {
        None
    } else if first == 0x2b {
        Some(low)
    } else if high < 16 {
        Some(high * 16 + low)
    } else {
        None
    }
}

/// Resolves the percent escapes of a text.
pub fn percent_decode(value: &str) -> (r: String)
    ensures
        r@ == decoded_text(value@),
{
    let bytes = value.as_bytes();
    let n: usize = bytes.len();
    let mut decoded: Vec<u8> = Vec::new();
    let mut i: usize = 0;
    let ghost all = encode_utf8(value@);
    assert(all.skip(0) =~= all);
    assert(decoded@ + percent_decoded(all) =~= percent_decoded(all));
    while i < n
        invariant
            i <= n,
            n == bytes@.len(),
            bytes@ == all,
            decoded@ + percent_decoded(all.skip(i as int)) == percent_decoded(all),
        decreases n - i,
    {
        let ghost rest = all.skip(i as int);
        let ghost before = decoded@;
        assert(rest.skip(1) =~= all.skip(i + 1));
        let escape: Option<u8> = if bytes[i] == 0x25 && n - i > 2 {
            assert(rest.skip(3) =~= all.skip(i + 3));
            unescape(bytes[i + 1], bytes[i + 2])
        } else {
            None
        };
        match escape {
            Some(byte) => {
                decoded.push(byte);
                i += 3;
            },
            None => {
                decoded.push(bytes[i]);
                i += 1;
            },
        }
        assert(decoded@ + percent_decoded(all.skip(i as int)) =~= before + percent_decoded(rest));
    }
    assert(all.skip(n as int) =~= seq![]);
    assert(decoded@ =~= percent_decoded(all));
    from_utf8_lossy(decoded.as_slice())
}

/// The path of a file URI.
pub open spec fn uri_path(uri: Seq<char>) -> Option<Seq<char>> {
    match after_prefix(uri, "file://"@) {
        Some(rest) => Some(decoded_text(rest)),
        None => None,
    }
}

/// The path of a file URI; none where the URI is of another kind.
pub fn path_of_uri(uri: &str) -> (r: Option<String>)
    ensures
        r is Some <==> uri_path(uri@) is Some,
        r is Some ==> Some(r->0@) == uri_path(uri@),
{
    match strip_prefix(uri, "file://") {
        Some(rest) => Some(percent_decode(rest)),
        None => None,
    }
}

} // verus!
