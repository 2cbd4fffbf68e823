//! Bytes as base64 text.

use base64::{engine::general_purpose::STANDARD, Engine};
use vstd::prelude::*;

verus! {

/// The character of a value of six bits.
pub open spec fn base64_char(v: int) -> char {
    if v < 26 {
        ('A' as int + v) as char
    } else if v < 52 {
        ('a' as int + (v - 26)) as char
    } else if v < 62 {
        ('0' as int + (v - 52)) as char
    } else if v == 62 {
        '+'
    } else {
        '/'
    }
}

/// Base64 with padding: each three bytes as four characters of six bits, and
/// what is left at the end filled up with equals signs.
pub open spec fn base64_of(b: Seq<u8>) -> Seq<char>
    decreases b.len(),
{
    if b.len() == 0 {
        seq![]
    } else if b.len() == 1 {
        seq![base64_char(b[0] as int / 4), base64_char(b[0] as int % 4 * 16), '=', '=']
    } else if b.len() == 2 {
        seq![
            base64_char(b[0] as int / 4),
            base64_char(b[0] as int % 4 * 16 + b[1] as int / 16),
            base64_char(b[1] as int % 16 * 4),
            '=',
        ]
    } else {
        seq![
            base64_char(b[0] as int / 4),
            base64_char(b[0] as int % 4 * 16 + b[1] as int / 16),
            base64_char(b[1] as int % 16 * 4 + b[2] as int / 64),
            base64_char(b[2] as int % 64),
        ] + base64_of(b.skip(3))
    }
}

/// The text of `n` bytes is short enough to be held in memory.
pub open spec fn fits_base64(n: int) -> bool {
    (n + 2) / 3 * 4 <= isize::MAX
}

/// `Engine::encode` of base64's `STANDARD` engine: the text of the bytes in the
/// standard alphabet, with padding. A text that no allocation can hold makes it
/// panic, so inputs of such a length are left out.
#[verifier::external_body]
pub(crate) fn base64_encode(bytes: &[u8]) -> (r: String)
    requires
        fits_base64(bytes@.len() as int),
    ensures
        r@ == base64_of(bytes@),
{
    STANDARD.encode(bytes)
}

proof fn lemma_base64_char(v: int, w: int)
    requires
        0 <= v < 64,
        0 <= w < 64,
        base64_char(v) == base64_char(w),
    ensures
        v == w,
{
}

proof fn lemma_base64_not_padding(v: int)
    requires
        0 <= v < 64,
    ensures
        base64_char(v) != '=',
{
}

proof fn lemma_base64_front(b: Seq<u8>)
    requires
        b.len() > 0,
    ensures
        base64_of(b).len() >= 4,
        base64_of(b)[0] == base64_char(b[0] as int / 4),
        base64_of(b)[1] == base64_char(
            b[0] as int % 4 * 16 + (if b.len() > 1 {
                b[1] as int / 16
            } else {
                0
            }),
        ),
        base64_of(b)[2] == (if b.len() > 1 {
            base64_char(
                b[1] as int % 16 * 4 + (if b.len() > 2 {
                    b[2] as int / 64
                } else {
                    0
                }),
            )
        } else {
            '='
        }),
        base64_of(b)[3] == (if b.len() > 2 {
            base64_char(b[2] as int % 64)
        } else {
            '='
        }),
        b.len() > 2 ==> base64_of(b).skip(4) =~= base64_of(b.skip(3)),
        b.len() <= 2 ==> base64_of(b).len() == 4,
{
}

/// A base64 text stands for one sequence of bytes only: nothing is lost.
pub proof fn base64_loses_nothing(a: Seq<u8>, b: Seq<u8>)
    requires
        base64_of(a) == base64_of(b),
    ensures
        a == b,
    decreases a.len(),
{
    if a.len() == 0 {
        if b.len() > 0 {
            lemma_base64_front(b);
        }
        assert(a =~= b);
    } else if b.len() == 0 {
        lemma_base64_front(a);
    } else {
        lemma_base64_front(a);
        lemma_base64_front(b);
        let a1 = if a.len() > 1 {
            a[1] as int
        } else {
            0
        };
        let b1 = if b.len() > 1 {
            b[1] as int
        } else {
            0
        };
        let a2 = if a.len() > 2 {
            a[2] as int
        } else {
            0
        };
        let b2 = if b.len() > 2 {
            b[2] as int
        } else {
            0
        };
        lemma_base64_char(a[0] as int / 4, b[0] as int / 4);
        lemma_base64_char(a[0] as int % 4 * 16 + a1 / 16, b[0] as int % 4 * 16 + b1 / 16);
        assert(a[0] == b[0]);
        assert(a1 / 16 == b1 / 16);
        if a.len() > 1 {
            lemma_base64_not_padding(a1 % 16 * 4 + a2 / 64);
        }
        if b.len() > 1 {
            lemma_base64_not_padding(b1 % 16 * 4 + b2 / 64);
        }
        assert(a.len() > 1 <==> b.len() > 1);
        if a.len() > 1 {
            lemma_base64_char(a1 % 16 * 4 + a2 / 64, b1 % 16 * 4 + b2 / 64);
            assert(a[1] == b[1]);
            assert(a2 / 64 == b2 / 64);
        }
        if a.len() > 2 {
            lemma_base64_not_padding(a2 % 64);
        }
        if b.len() > 2 {
            lemma_base64_not_padding(b2 % 64);
        }
        assert(a.len() > 2 <==> b.len() > 2);
        if a.len() > 2 {
            lemma_base64_char(a2 % 64, b2 % 64);
            assert(a[2] == b[2]);
            base64_loses_nothing(a.skip(3), b.skip(3));
            assert(a =~= seq![a[0], a[1], a[2]] + a.skip(3));
            assert(b =~= seq![b[0], b[1], b[2]] + b.skip(3));
        } else {
            assert(a =~= b);
        }
    }
}

} // verus!
