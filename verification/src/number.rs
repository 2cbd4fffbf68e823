//! Numbers as text: positional numerals, their values, and how they are written.

use vstd::prelude::*;

use crate::text::{ascii_alphanumeric, chars_of};

verus! {

// ---------------------------------------------------------------------------
// Numerals and their values.
// ---------------------------------------------------------------------------

/// The value of a digit character; 16 for a character that is no hexadecimal
/// digit.
pub open spec fn digit_value(c: char) -> int {
    if '0' <= c <= '9' {
        c as int - '0' as int
    } else if 'a' <= c <= 'f' {
        c as int - 'a' as int + 10
    } else if 'A' <= c <= 'F' {
        c as int - 'A' as int + 10
    } else {
        16
    }
}

/// One or more digits of the given radix.
pub open spec fn is_numeral(s: Seq<char>, radix: int) -> bool {
    s.len() > 0 && forall|i: int| 0 <= i < s.len() ==> digit_value(#[trigger] s[i]) < radix
}

/// The number that a numeral stands for, its first digit the most significant.
pub open spec fn numeral_value(s: Seq<char>, radix: int) -> int
    decreases s.len(),
{
    if s.len() == 0 {
        0
    } else {
        numeral_value(s.drop_last(), radix) * radix + digit_value(s.last())
    }
}

/// The non-negative number, at most `max`, that a numeral with an optional plus
/// sign stands for.
pub open spec fn unsigned_value(s: Seq<char>, radix: int, max: int) -> Option<int> {
    let digits = if s.len() > 0 && s[0] == '+' {
        s.skip(1)
    } else {
        s
    };
    if is_numeral(digits, radix) && numeral_value(digits, radix) <= max {
        Some(numeral_value(digits, radix))
    } else {
        None
    }
}

/// The number that a decimal numeral with an optional sign stands for, where it
/// fits 32 bits.
pub open spec fn i32_value(s: Seq<char>) -> Option<int> {
    if s.len() > 0 && s[0] == '-' {
        if is_numeral(s.skip(1), 10) && numeral_value(s.skip(1), 10) <= 0x8000_0000 {
            Some(-numeral_value(s.skip(1), 10))
        } else {
            None
        }
    } else {
        unsigned_value(s, 10, 0x7fff_ffff)
    }
}

/// The decimal numeral `s` as a number of 32 bits.
pub open spec fn u32_value(s: Seq<char>) -> Option<int> {
    unsigned_value(s, 10, 0xffff_ffff)
}

/// The hexadecimal numeral `s` as a number of 64 bits.
pub open spec fn hex_u64_value(s: Seq<char>) -> Option<int> {
    unsigned_value(s, 16, 0xffff_ffff_ffff_ffff)
}

/// The digit character of a value, in lower case.
pub open spec fn digit_char(d: int) -> char {
    if d < 10 {
        (d + '0' as int) as char
    } else {
        (d - 10 + 'a' as int) as char
    }
}

/// The shortest numeral of a number.
pub open spec fn digits_of(n: nat, radix: nat) -> Seq<char>
    decreases n,
{
    if n < radix || radix < 2 {
        seq![digit_char(n as int)]
    } else {
        proof {
            lemma_quotient(n as int, radix as int);
        }
        digits_of(n / radix, radix).push(digit_char((n % radix) as int))
    }
}

/// A number in decimal.
pub open spec fn decimal(n: nat) -> Seq<char> {
    digits_of(n, 10)
}

/// A number in lower-case hexadecimal.
pub open spec fn hexadecimal(n: nat) -> Seq<char> {
    digits_of(n, 16)
}

// ---------------------------------------------------------------------------
// Facts.
// ---------------------------------------------------------------------------

/// Dividing a number by a radix makes it smaller.
pub proof fn lemma_quotient(n: int, radix: int)
    requires
        2 <= radix <= n,
    ensures
        0 <= n / radix < n,
        n == (n / radix) * radix + n % radix,
        0 <= n % radix < radix,
{
    assert(0 <= n / radix < n && n == (n / radix) * radix + n % radix && 0 <= n % radix < radix)
        by (nonlinear_arith)
        requires
            2 <= radix <= n,
    ;
}

proof fn lemma_value_nonnegative(s: Seq<char>, radix: int)
    requires
        radix >= 0,
    ensures
        numeral_value(s, radix) >= 0,
    decreases s.len(),
{
    if s.len() > 0 {
        lemma_value_nonnegative(s.drop_last(), radix);
        let v = numeral_value(s.drop_last(), radix);
        assert(v * radix >= 0) by (nonlinear_arith)
            requires
                v >= 0,
                radix >= 0,
        ;
    }
}

/// A longer numeral stands for a number at least as large as its front.
proof fn lemma_value_of_front(s: Seq<char>, i: int, radix: int)
    requires
        0 <= i <= s.len(),
        radix >= 1,
    ensures
        numeral_value(s.take(i), radix) <= numeral_value(s, radix),
    decreases s.len(),
{
    if i == s.len() {
        assert(s.take(i) =~= s);
    } else {
        lemma_value_of_front(s.drop_last(), i, radix);
        assert(s.drop_last().take(i) =~= s.take(i));
        lemma_value_nonnegative(s.drop_last(), radix);
        let v = numeral_value(s.drop_last(), radix);
        assert(v * radix >= v) by (nonlinear_arith)
            requires
                v >= 0,
                radix >= 1,
        ;
    }
}

/// Reading back the numeral of a number gives the number.
pub proof fn digits_denote_their_number(n: nat, radix: nat)
    requires
        2 <= radix <= 16,
    ensures
        is_numeral(digits_of(n, radix), radix as int),
        numeral_value(digits_of(n, radix), radix as int) == n,
        forall|i: int|
            0 <= i < digits_of(n, radix).len() ==> ascii_alphanumeric(
                #[trigger] digits_of(n, radix)[i],
            ),
    decreases n,
{
    let s = digits_of(n, radix);
    if n < radix {
        assert(s.drop_last() =~= Seq::<char>::empty());
        assert(numeral_value(s.drop_last(), radix as int) * radix == 0) by (nonlinear_arith)
            requires
                numeral_value(s.drop_last(), radix as int) == 0,
        ;
    } else {
        lemma_quotient(n as int, radix as int);
        digits_denote_their_number(n / radix, radix);
        assert(s.drop_last() =~= digits_of(n / radix, radix));
        assert forall|i: int| 0 <= i < s.len() implies digit_value(#[trigger] s[i]) < radix
            && ascii_alphanumeric(s[i]) by {
            if i < s.len() - 1 {
                assert(s[i] == digits_of(n / radix, radix)[i]);
            }
        }
    }
}

/// A number with its sign, in decimal.
pub open spec fn signed_decimal(v: int) -> Seq<char> {
    if v < 0 {
        seq!['-'] + decimal((-v) as nat)
    } else {
        decimal(v as nat)
    }
}

/// Every number that fits is read back from how it is written.
pub proof fn written_numbers_are_read_back(n: nat, v: int)
    ensures
        n <= u32::MAX ==> u32_value(decimal(n)) == Some(n as int),
        n <= u64::MAX ==> hex_u64_value(hexadecimal(n)) == Some(n as int),
        i32::MIN <= v <= i32::MAX ==> i32_value(signed_decimal(v)) == Some(v),
{
    digits_denote_their_number(n, 10);
    digits_denote_their_number(n, 16);
    assert(ascii_alphanumeric(decimal(n)[0]));
    assert(ascii_alphanumeric(hexadecimal(n)[0]));
    if v < 0 {
        let m = (-v) as nat;
        digits_denote_their_number(m, 10);
        assert(signed_decimal(v).skip(1) =~= decimal(m));
    } else {
        digits_denote_their_number(v as nat, 10);
        assert(ascii_alphanumeric(decimal(v as nat)[0]));
    }
}

/// Zeros at the front of a numeral change nothing.
pub proof fn leading_zeros_change_nothing(s: Seq<char>, radix: int)
    ensures
        numeral_value(seq!['0'] + s, radix) == numeral_value(s, radix),
    decreases s.len(),
{
    let z = seq!['0'] + s;
    if s.len() == 0 {
        assert(z.drop_last() =~= seq![]);
        assert(numeral_value(z.drop_last(), radix) * radix == 0) by (nonlinear_arith)
            requires
                numeral_value(z.drop_last(), radix) == 0,
        ;
    } else {
        leading_zeros_change_nothing(s.drop_last(), radix);
        assert(z.drop_last() =~= seq!['0'] + s.drop_last());
        assert(z.last() == s.last());
    }
}

/// Capital and small hexadecimal digits count the same, and nothing but digits
/// and the letters from `a` to `f` is one.
pub proof fn hexadecimal_digits_count_in_both_cases(d: int)
    requires
        0 <= d,
    ensures
        d <= 9 ==> digit_value((0x30 + d) as char) == d,
        d <= 5 ==> digit_value((0x41 + d) as char) == 10 + d,
        d <= 5 ==> digit_value((0x61 + d) as char) == 10 + d,
        forall|c: char|
            #[trigger] digit_value(c) < 16 ==> (0x30 <= c as int <= 0x39) || (0x41 <= c as int
                <= 0x46) || (0x61 <= c as int <= 0x66),
{
}

// ---------------------------------------------------------------------------
// Reading.
// ---------------------------------------------------------------------------

fn digit(c: char) -> (r: u64)
    ensures
        r == digit_value(c),
{
    let u: u32 = c as u32;
    if '0' <= c && c <= '9' {
        (u - 48) as u64
    } else if 'a' <= c && c <= 'f' {
        (u - 87) as u64
    } else if 'A' <= c && c <= 'F' {
        (u - 55) as u64
    } else {
        16
    }
}

/// The value of a numeral, where it fits 64 bits.
fn parse_numeral(v: &[char], radix: u64) -> (r: Option<u64>)
    requires
        2 <= radix <= 16,
    ensures
        r is Some <==> is_numeral(v@, radix as int) && numeral_value(v@, radix as int) <= u64::MAX,
        r is Some ==> r->0 == numeral_value(v@, radix as int),
{
    let n: usize = v.len();
    if n == 0 {
        return None;
    }
    let mut value: u64 = 0;
    let mut i: usize = 0;
    while i < n
        invariant
            i <= n,
            n == v@.len(),
            2 <= radix <= 16,
            value == numeral_value(v@.take(i as int), radix as int),
            forall|j: int| 0 <= j < i ==> digit_value(#[trigger] v@[j]) < radix,
        decreases n - i,
    {
        let d: u64 = digit(v[i]);
        if d >= radix {
            assert(!is_numeral(v@, radix as int));
            return None;
        }
        proof {
            assert(v@.take(i + 1).drop_last() =~= v@.take(i as int));
            lemma_value_of_front(v@, i + 1, radix as int);
        }
        match value.checked_mul(radix) {
            None => {
                return None;
            },
            Some(shifted) => match shifted.checked_add(d) {
                None => {
                    return None;
                },
                Some(next) => {
                    value = next;
                },
            },
        }
        i += 1;
    }
    assert(v@.take(n as int) =~= v@);
    Some(value)
}

fn parse_unsigned(v: &[char], radix: u64) -> (r: Option<u64>)
    requires
        2 <= radix <= 16,
    ensures
        r is Some <==> unsigned_value(v@, radix as int, u64::MAX as int) is Some,
        r is Some ==> Some(r->0 as int) == unsigned_value(v@, radix as int, u64::MAX as int),
{
    let n: usize = v.len();
    if n > 0 && v[0] == '+' {
        let rest = &v[1..n];
        assert(rest@ =~= v@.skip(1));
        parse_numeral(rest, radix)
    } else {
        parse_numeral(v, radix)
    }
}

/// Reads a decimal number of 32 bits.
pub fn parse_u32(s: &str) -> (r: Option<u32>)
    ensures
        r is Some <==> u32_value(s@) is Some,
        r is Some ==> Some(r->0 as int) == u32_value(s@),
{
    let v = chars_of(s);
    match parse_unsigned(v.as_slice(), 10) {
        Some(n) => if n <= 0xffff_ffff {
            Some(n as u32)
        } else {
            None
        },
        None => None,
    }
}

/// Reads a signed decimal number of 32 bits.
pub fn parse_i32(s: &str) -> (r: Option<i32>)
    ensures
        r is Some <==> i32_value(s@) is Some,
        r is Some ==> Some(r->0 as int) == i32_value(s@),
{
    let v = chars_of(s);
    let n: usize = v.len();
    if n > 0 && v[0] == '-' {
        let rest = &v[1..n];
        assert(rest@ =~= v@.skip(1));
        match parse_numeral(rest, 10) {
            Some(m) => if m <= 0x8000_0000 {
                Some((-(m as i64)) as i32)
            } else {
                None
            },
            None => None,
        }
    } else {
        match parse_unsigned(v.as_slice(), 10) {
            Some(m) => if m <= 0x7fff_ffff {
                Some(m as i32)
            } else {
                None
            },
            None => None,
        }
    }
}

/// Reads a hexadecimal number of 64 bits.
pub fn parse_hex_u64(s: &str) -> (r: Option<u64>)
    ensures
        r is Some <==> hex_u64_value(s@) is Some,
        r is Some ==> Some(r->0 as int) == hex_u64_value(s@),
{
    let v = chars_of(s);
    parse_unsigned(v.as_slice(), 16)
}

// ---------------------------------------------------------------------------
// Writing.
// ---------------------------------------------------------------------------

fn char_of_digit(d: u8) -> (r: char)
    requires
        d < 16,
    ensures
        r == digit_char(d as int),
{
    if d < 10 {
        (d + 48u8) as char
    } else {
        (d + 87u8) as char
    }
}

fn push_digits(n: u128, radix: u128, out: &mut String)
    requires
        2 <= radix <= 16,
    ensures
        final(out)@ == old(out)@ + digits_of(n as nat, radix as nat),
    decreases n,
{
    if n < radix {
        out.push(char_of_digit(n as u8));
    } else {
        proof {
            lemma_quotient(n as int, radix as int);
        }
        push_digits(n / radix, radix, out);
        out.push(char_of_digit((n % radix) as u8));
    }
}

/// Writes a number in decimal.
pub fn to_decimal(n: u128) -> (r: String)
    ensures
        r@ == decimal(n as nat),
{
    let mut out = String::new();
    push_digits(n, 10, &mut out);
    assert(out@ =~= decimal(n as nat));
    out
}

/// Writes a number in lower-case hexadecimal.
pub fn to_hexadecimal(n: u64) -> (r: String)
    ensures
        r@ == hexadecimal(n as nat),
{
    let mut out = String::new();
    push_digits(n as u128, 16, &mut out);
    assert(out@ =~= hexadecimal(n as nat));
    out
}

} // verus!
