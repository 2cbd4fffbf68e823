//! Bytes that come from outside as text.

use vstd::prelude::*;
use vstd::utf8::{
    decode_utf8, encode_scalar, encode_utf8, last_continuation_byte, leading_byte_width_1,
    leading_byte_width_2, leading_byte_width_3, leading_byte_width_4,
    second_last_continuation_byte, third_last_continuation_byte, valid_utf8,
};

use crate::scan::{fields, lemma_position_is};

verus! {

/// What `String::from_utf8_lossy` makes of bytes: invalid UTF-8 is replaced by
/// U+FFFD as std chooses to.
pub uninterp spec fn lossy_utf8(bytes: Seq<u8>) -> Seq<char>;

/// `String::from_utf8_lossy`: valid UTF-8 comes out decoded; of other input
/// only that the result is a function of the bytes is claimed.
#[verifier::external_body]
fn string_from_utf8_lossy(bytes: &[u8]) -> (r: String)
    ensures
        r@ == lossy_utf8(bytes@),
        valid_utf8(bytes@) ==> r@ == decode_utf8(bytes@),
{
    String::from_utf8_lossy(bytes).into_owned()
}

/// `str::from_utf8`: succeeds on valid UTF-8 and no other input, and then
/// decodes it.
#[verifier::external_body]
pub(crate) fn from_utf8(bytes: &[u8]) -> (r: Option<String>)
    ensures
        r is Some <==> valid_utf8(bytes@),
        r is Some ==> r->0@ == decode_utf8(bytes@),
{
    match std::str::from_utf8(bytes) {
        Ok(text) => Some(text.to_string()),
        Err(_) => None,
    }
}

/// The text that bytes stand for: decoded where they are UTF-8, and else with
/// replacement characters.
pub open spec fn utf8_text(bytes: Seq<u8>) -> Seq<char> {
    if valid_utf8(bytes) {
        decode_utf8(bytes)
    } else {
        lossy_utf8(bytes)
    }
}

/// A byte of ASCII stands in the encoding of a text only where its character
/// stands in the text.
pub proof fn ascii_bytes_come_from_their_characters(s: Seq<char>, b: u8)
    requires
        b < 0x80,
        !s.contains(b as char),
    ensures
        !encode_utf8(s).contains(b),
    decreases s.len(),
{
    if s.len() > 0 {
        let rest = s.drop_first();
        assert(s[0] != b as char);
        assert forall|i: int| 0 <= i < rest.len() implies rest[i] != b as char by {
            assert(rest[i] == s[i + 1]);
        }
        ascii_bytes_come_from_their_characters(rest, b);
        lemma_no_ascii_byte(s[0], b);
        let front = encode_scalar(s[0] as u32);
        let back = encode_utf8(rest);
        assert forall|i: int| 0 <= i < encode_utf8(s).len() implies encode_utf8(s)[i] != b by {
            if i < front.len() {
                assert(front.contains(front[i]));
            } else {
                assert(back.contains(back[i - front.len()]));
            }
        }
    }
}

proof fn lemma_no_ascii_byte(c: char, b: u8)
    requires
        b < 0x80,
        c != b as char,
    ensures
        !encode_scalar(c as u32).contains(b),
{
    let v = c as u32;
    let w1 = leading_byte_width_1(v);
    let w2 = leading_byte_width_2(v);
    let w3 = leading_byte_width_3(v);
    let w4 = leading_byte_width_4(v);
    let c1 = last_continuation_byte(v);
    let c2 = second_last_continuation_byte(v);
    let c3 = third_last_continuation_byte(v);
    assert(v <= 0x7f ==> (v & 0x7F) as u8 == v) by (bit_vector);
    assert((0xC0 | ((v >> 6) & 0x1F) as u8) >= 0x80u8) by (bit_vector);
    assert((0xE0 | ((v >> 12) & 0x0F) as u8) >= 0x80u8) by (bit_vector);
    assert((0xF0 | ((v >> 18) & 0x7) as u8) >= 0x80u8) by (bit_vector);
    assert((0x80 | (v & 0x3F) as u8) >= 0x80u8) by (bit_vector);
    assert((0x80 | ((v >> 6) & 0x3F) as u8) >= 0x80u8) by (bit_vector);
    assert((0x80 | ((v >> 12) & 0x3F) as u8) >= 0x80u8) by (bit_vector);
    assert(w2 >= 0x80 && w3 >= 0x80 && w4 >= 0x80 && c1 >= 0x80 && c2 >= 0x80 && c3 >= 0x80);
}

/// The text that bytes stand for.
pub fn from_utf8_lossy(bytes: &[u8]) -> (r: String)
    ensures
        r@ == utf8_text(bytes@),
{
    string_from_utf8_lossy(bytes)
}

/// The contents of a sequence of byte strings.
pub open spec fn byte_strings(v: Seq<Vec<u8>>) -> Seq<Seq<u8>> {
    Seq::new(v.len(), |i: int| v[i]@)
}

/// The bytes of a slice.
pub fn bytes_of(s: &[u8]) -> (r: Vec<u8>)
    ensures
        r@ == s@,
{
    let mut out: Vec<u8> = Vec::new();
    push_bytes(&mut out, s);
    assert(out@ =~= s@);
    out
}

/// Appends the bytes of a slice.
pub fn push_bytes(out: &mut Vec<u8>, s: &[u8])
    ensures
        final(out)@ == old(out)@ + s@,
{
    let n: usize = s.len();
    let mut i: usize = 0;
    while i < n
        invariant
            i <= n,
            n == s@.len(),
            out@ == old(out)@ + s@.take(i as int),
        decreases n - i,
    {
        out.push(s[i]);
        assert(s@.take(i + 1) =~= s@.take(i as int).push(s@[i as int]));
        i += 1;
    }
    assert(s@.take(n as int) =~= s@);
}

/// Whether two slices hold the same bytes.
pub fn same_bytes(a: &[u8], b: &[u8]) -> (r: bool)
    ensures
        r == (a@ == b@),
{
    let n: usize = a.len();
    if n != b.len() {
        return false;
    }
    let mut i: usize = 0;
    while i < n
        invariant
            i <= n,
            n == a@.len(),
            n == b@.len(),
            forall|j: int| 0 <= j < i ==> a@[j] == b@[j],
        decreases n - i,
    {
        if a[i] != b[i] {
            return false;
        }
        i += 1;
    }
    assert(a@ =~= b@);
    true
}

/// The pieces of `bytes` between the occurrences of `sep`.
pub fn split_bytes(bytes: &[u8], sep: u8) -> (r: Vec<Vec<u8>>)
    ensures
        byte_strings(r@) == fields(bytes@, sep),
{
    let n: usize = bytes.len();
    let mut out: Vec<Vec<u8>> = Vec::new();
    let mut start: usize = 0;
    let mut i: usize = 0;
    assert(bytes@.skip(0) =~= bytes@);
    assert(byte_strings(out@) + fields(bytes@, sep) =~= fields(bytes@, sep));
    while i < n
        invariant
            start <= i <= n,
            n == bytes@.len(),
            forall|j: int| start <= j < i ==> bytes@[j] != sep,
            byte_strings(out@) + fields(bytes@.skip(start as int), sep) == fields(bytes@, sep),
        decreases n - i,
    {
        if bytes[i] == sep {
            let ghost rest = bytes@.skip(start as int);
            let ghost before = out@;
            let piece = bytes_of(&bytes[start..i]);
            proof {
                lemma_position_is(rest, sep, i - start);
                assert(rest.take(i - start) =~= piece@);
                assert(rest.skip(i - start + 1) =~= bytes@.skip(i + 1));
            }
            out.push(piece);
            proof {
                assert(byte_strings(out@) =~= byte_strings(before).push(piece@));
                assert(byte_strings(out@) + fields(bytes@.skip(i + 1), sep) =~= byte_strings(before)
                    + fields(rest, sep));
            }
            start = i + 1;
        }
        i += 1;
    }
    let ghost rest = bytes@.skip(start as int);
    let ghost before = out@;
    let piece = bytes_of(&bytes[start..n]);
    proof {
        lemma_position_is(rest, sep, n - start);
        assert(piece@ =~= rest);
    }
    out.push(piece);
    assert(byte_strings(out@) =~= byte_strings(before) + fields(rest, sep));
    out
}

} // verus!
