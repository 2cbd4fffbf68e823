//! Pictures in PNG format, and the names of the files that hold them.

use vstd::prelude::*;
use vstd::utf8::encode_utf8;

use crate::bytes::same_bytes;
use crate::number::{decimal, digits_denote_their_number, to_decimal};
use crate::paths::{join_path, path_in};
use crate::scan::{lemma_position_is, position};
use crate::text::{ascii_alphanumeric, chars_of};

verus! {

/// The bytes that every PNG file starts with.
pub const PNG_SIGNATURE: [u8; 8] = [0x89, 0x50, 0x4e, 0x47, 0x0d, 0x0a, 0x1a, 0x0a];

/// The name of the chunk with the size of the picture.
pub const IHDR: [u8; 4] = [0x49, 0x48, 0x44, 0x52];

// ---------------------------------------------------------------------------
// The size of a picture.
// ---------------------------------------------------------------------------

/// The number in the four bytes at index `i`, the most significant first.
pub open spec fn big_endian(b: Seq<u8>, i: int) -> int {
    b[i] * 0x1000000 + b[i + 1] * 0x10000 + b[i + 2] * 0x100 + b[i + 3]
}

/// The bytes start as a PNG file does.
pub open spec fn starts_png(b: Seq<u8>) -> bool {
    &&& b.len() >= 24
    &&& b.take(8) == PNG_SIGNATURE@
    &&& b.subrange(12, 16) == IHDR@
}

/// What is wrong with a picture.
#[derive(Debug, Clone, Copy, PartialEq, Eq, Structural)]
pub enum PngFault {
    /// It is no PNG file.
    NotPng,
    /// One of its sides is zero.
    NoExtent { width: u32, height: u32 },
}

/// The width and the height of a picture, or what is wrong with it.
pub open spec fn picture_size(b: Seq<u8>) -> Result<(u32, u32), PngFault> {
    if !starts_png(b) {
        Err(PngFault::NotPng)
    } else {
        let width = big_endian(b, 16) as u32;
        let height = big_endian(b, 20) as u32;
        if width == 0 || height == 0 {
            Err(PngFault::NoExtent { width, height })
        } else {
            Ok((width, height))
        }
    }
}

/// The four bytes of a number, the most significant first.
pub open spec fn four_bytes(n: u32) -> Seq<u8> {
    seq![
        (n / 0x1000000) as u8,
        (n / 0x10000 % 0x100) as u8,
        (n / 0x100 % 0x100) as u8,
        (n % 0x100) as u8,
    ]
}

/// A PNG file of the given extent: the signature, the length and the name of its
/// first chunk, the two sides, and whatever comes then.
pub open spec fn png_file(length: Seq<u8>, width: u32, height: u32, tail: Seq<u8>) -> Seq<u8> {
    seq![0x89u8, 0x50u8, 0x4eu8, 0x47u8, 0x0du8, 0x0au8, 0x1au8, 0x0au8] + length + seq![
        0x49u8,
        0x48u8,
        0x44u8,
        0x52u8,
    ] + four_bytes(width) + four_bytes(height) + tail
}

/// The extent that is written into a PNG file is the one that is read out of it,
/// whatever follows; and where a side is zero, that is what is wrong with it.
pub proof fn extent_is_read_back(length: Seq<u8>, width: u32, height: u32, tail: Seq<u8>)
    requires
        length.len() == 4,
    ensures
        width > 0 && height > 0 ==> picture_size(png_file(length, width, height, tail)) == Ok::<
            (u32, u32),
            PngFault,
        >((width, height)),
        width == 0 || height == 0 ==> picture_size(png_file(length, width, height, tail)) == Err::<
            (u32, u32),
            PngFault,
        >(PngFault::NoExtent { width, height }),
{
    let b = png_file(length, width, height, tail);
    assert(b.take(8) =~= PNG_SIGNATURE@);
    assert(b.subrange(12, 16) =~= IHDR@);
    assert(b.subrange(16, 20) =~= four_bytes(width));
    assert(b.subrange(20, 24) =~= four_bytes(height));
    lemma_big_endian(b, 16, width);
    lemma_big_endian(b, 20, height);
}

/// Only a PNG file has an extent: what is measured is the signature, four bytes,
/// the name of the first chunk, two sides that are not zero, and a tail.
pub proof fn only_a_png_file_has_an_extent(b: Seq<u8>)
    ensures
        picture_size(b) is Ok <==> exists|
            length: Seq<u8>,
            width: u32,
            height: u32,
            tail: Seq<u8>,
        |
            length.len() == 4 && width > 0 && height > 0 && b == #[trigger] png_file(
                length,
                width,
                height,
                tail,
            ),
        picture_size(b) == Err::<(u32, u32), PngFault>(PngFault::NotPng) <==> !(exists|
            length: Seq<u8>,
            width: u32,
            height: u32,
            tail: Seq<u8>,
        |
            length.len() == 4 && b == #[trigger] png_file(length, width, height, tail)),
{
    if starts_png(b) {
        lemma_png_file(b);
    }
    if exists|length: Seq<u8>, width: u32, height: u32, tail: Seq<u8>|
        length.len() == 4 && b == #[trigger] png_file(length, width, height, tail) {
        let (length, width, height, tail) = choose|
            length: Seq<u8>,
            width: u32,
            height: u32,
            tail: Seq<u8>,
        |
            length.len() == 4 && b == #[trigger] png_file(length, width, height, tail);
        extent_is_read_back(length, width, height, tail);
        if picture_size(b) is Ok {
            assert(width > 0 && height > 0);
        }
    }
    if exists|length: Seq<u8>, width: u32, height: u32, tail: Seq<u8>|
        length.len() == 4 && width > 0 && height > 0 && b == #[trigger] png_file(
            length,
            width,
            height,
            tail,
        ) {
        let (length, width, height, tail) = choose|
            length: Seq<u8>,
            width: u32,
            height: u32,
            tail: Seq<u8>,
        |
            length.len() == 4 && width > 0 && height > 0 && b == #[trigger] png_file(
                length,
                width,
                height,
                tail,
            );
        extent_is_read_back(length, width, height, tail);
    }
}

proof fn lemma_png_file(b: Seq<u8>)
    requires
        starts_png(b),
    ensures
        b == png_file(
            b.subrange(8, 12),
            big_endian(b, 16) as u32,
            big_endian(b, 20) as u32,
            b.skip(24),
        ),
{
    lemma_four_bytes(b, 16);
    lemma_four_bytes(b, 20);
    let signature = seq![0x89u8, 0x50u8, 0x4eu8, 0x47u8, 0x0du8, 0x0au8, 0x1au8, 0x0au8];
    let chunk = seq![0x49u8, 0x48u8, 0x44u8, 0x52u8];
    assert(signature =~= PNG_SIGNATURE@);
    assert(chunk =~= IHDR@);
    assert(b =~= b.take(8) + b.subrange(8, 12) + b.subrange(12, 16) + b.subrange(16, 20)
        + b.subrange(20, 24) + b.skip(24));
}

proof fn lemma_four_bytes(b: Seq<u8>, i: int)
    requires
        0 <= i,
        i + 4 <= b.len(),
    ensures
        four_bytes(big_endian(b, i) as u32) == b.subrange(i, i + 4),
{
    let n = big_endian(b, i) as u32;
    lemma_digits(n, b[i], b[i + 1], b[i + 2], b[i + 3]);
    assert(four_bytes(n) =~= b.subrange(i, i + 4));
}

proof fn lemma_digits(n: u32, a: u8, b: u8, c: u8, d: u8)
    requires
        n == a * 0x1000000 + b * 0x10000 + c * 0x100 + d,
    ensures
        (n / 0x1000000) as u8 == a,
        (n / 0x10000 % 0x100) as u8 == b,
        (n / 0x100 % 0x100) as u8 == c,
        (n % 0x100) as u8 == d,
{
    let n = n as int;
    assert(n / 0x100 == a * 0x10000 + b * 0x100 + c);
    assert(n / 0x10000 == a * 0x100 + b);
    assert(n / 0x1000000 == a as int);
}

proof fn lemma_big_endian(b: Seq<u8>, i: int, n: u32)
    requires
        0 <= i,
        i + 4 <= b.len(),
        b.subrange(i, i + 4) == four_bytes(n),
    ensures
        big_endian(b, i) == n,
{
    let s = b.subrange(i, i + 4);
    assert(b[i] == s[0] && b[i + 1] == s[1] && b[i + 2] == s[2] && b[i + 3] == s[3]);
    assert(n / 0x1000000 < 0x100);
}

fn read_big_endian(b: &[u8], i: usize) -> (r: u32)
    requires
        i + 4 <= b@.len(),
    ensures
        r == big_endian(b@, i as int),
{
    b[i] as u32 * 0x1000000 + b[i + 1] as u32 * 0x10000 + b[i + 2] as u32 * 0x100 + b[i + 3] as u32
}

/// The width and the height of a picture.
pub fn png_dimensions(bytes: &[u8]) -> (r: Result<(u32, u32), PngFault>)
    ensures
        r == picture_size(bytes@),
{
    if bytes.len() < 24 {
        return Err(PngFault::NotPng);
    }
    let signature = &bytes[0..8];
    let chunk = &bytes[12..16];
    assert(signature@ =~= bytes@.take(8));
    assert(chunk@ =~= bytes@.subrange(12, 16));
    if !same_bytes(signature, &PNG_SIGNATURE) || !same_bytes(chunk, &IHDR) {
        return Err(PngFault::NotPng);
    }
    let width: u32 = read_big_endian(bytes, 16);
    let height: u32 = read_big_endian(bytes, 20);
    if width == 0 || height == 0 {
        Err(PngFault::NoExtent { width, height })
    } else {
        Ok((width, height))
    }
}

// ---------------------------------------------------------------------------
// Names.
// ---------------------------------------------------------------------------

/// What tells one process at one moment from every other.
pub open spec fn suffix_text(pid: int, nanos: int) -> Seq<char> {
    decimal(pid as nat) + "-"@ + decimal(nanos as nat)
}

/// A text with underscores in place of hyphens.
pub open spec fn underscored(s: Seq<char>) -> Seq<char> {
    Seq::new(
        s.len(),
        |i: int|
            if s[i] == '-' {
                '_'
            } else {
                s[i]
            },
    )
}

/// The token of a request to a portal.
pub open spec fn token_text(pid: int, nanos: int) -> Seq<char> {
    "codex_"@ + underscored(suffix_text(pid, nanos))
}

/// The name of the file that a picture from the given source goes to.
pub open spec fn picture_name(source: Seq<char>, pid: int, nanos: int) -> Seq<char> {
    "codex-computer-use-"@ + source + "-"@ + suffix_text(pid, nanos) + ".png"@
}

/// A character that a portal takes in a token.
pub open spec fn portal_safe(c: char) -> bool {
    ascii_alphanumeric(c) || c == '_'
}

/// A token starts with `codex_` and holds nothing but what a portal takes.
pub proof fn token_is_portal_safe(pid: nat, nanos: nat)
    ensures
        token_text(pid as int, nanos as int).take(6) == "codex_"@,
        forall|i: int|
            0 <= i < token_text(pid as int, nanos as int).len() ==> portal_safe(
                #[trigger] token_text(pid as int, nanos as int)[i],
            ),
{
    reveal_strlit("codex_");
    reveal_strlit("-");
    digits_denote_their_number(pid, 10);
    digits_denote_their_number(nanos, 10);
    let suffix = suffix_text(pid as int, nanos as int);
    let token = token_text(pid as int, nanos as int);
    assert(token.take(6) =~= "codex_"@);
    assert forall|i: int| 0 <= i < token.len() implies portal_safe(#[trigger] token[i]) by {
        if i >= 6 {
            let j = i - 6;
            assert(token[i] == underscored(suffix)[j]);
            let n = decimal(pid).len();
            if j < n {
                assert(suffix[j] == decimal(pid)[j]);
            } else if j == n {
                assert(suffix[j] == '-');
            } else {
                assert(suffix[j] == decimal(nanos)[j - n - 1]);
            }
        }
    }
}

/// The token of a request tells the process and the moment with underscores, and
/// the name of a file tells its source, the process and the moment with hyphens.
pub proof fn names_tell_process_and_moment(source: Seq<char>, pid: nat, nanos: nat)
    ensures
        token_text(pid as int, nanos as int) == "codex_"@ + decimal(pid) + "_"@ + decimal(nanos),
        picture_name(source, pid as int, nanos as int) == "codex-computer-use-"@ + source + "-"@
            + decimal(pid) + "-"@ + decimal(nanos) + ".png"@,
{
    reveal_strlit("-");
    reveal_strlit("_");
    digits_denote_their_number(pid, 10);
    digits_denote_their_number(nanos, 10);
    let suffix = suffix_text(pid as int, nanos as int);
    let plain = decimal(pid) + "_"@ + decimal(nanos);
    let n = decimal(pid).len() as int;
    assert forall|i: int| 0 <= i < suffix.len() implies underscored(suffix)[i] == plain[i] by {
        if i < n {
            assert(suffix[i] == decimal(pid)[i]);
            assert(ascii_alphanumeric(decimal(pid)[i]));
        } else if i > n {
            assert(suffix[i] == decimal(nanos)[i - n - 1]);
            assert(ascii_alphanumeric(decimal(nanos)[i - n - 1]));
        }
    }
    assert(underscored(suffix) =~= plain);
    assert("codex_"@ + plain =~= "codex_"@ + decimal(pid) + "_"@ + decimal(nanos));
    assert("codex-computer-use-"@ + source + "-"@ + suffix + ".png"@ =~= "codex-computer-use-"@
        + source + "-"@ + decimal(pid) + "-"@ + decimal(nanos) + ".png"@);
}

/// Two suffixes are the same only where process and moment are.
pub proof fn suffix_tells_process_and_moment(pid: nat, nanos: nat, pid2: nat, nanos2: nat)
    requires
        suffix_text(pid as int, nanos as int) == suffix_text(pid2 as int, nanos2 as int),
    ensures
        pid == pid2,
        nanos == nanos2,
{
    lemma_suffix_parts(pid, nanos);
    lemma_suffix_parts(pid2, nanos2);
    digits_denote_their_number(pid, 10);
    digits_denote_their_number(pid2, 10);
    digits_denote_their_number(nanos, 10);
    digits_denote_their_number(nanos2, 10);
}

proof fn lemma_suffix_parts(pid: nat, nanos: nat)
    ensures
        position(suffix_text(pid as int, nanos as int), '-') == decimal(pid).len(),
        suffix_text(pid as int, nanos as int).take(decimal(pid).len() as int) == decimal(pid),
        suffix_text(pid as int, nanos as int).skip(decimal(pid).len() as int + 1) == decimal(nanos),
{
    reveal_strlit("-");
    digits_denote_their_number(pid, 10);
    let s = suffix_text(pid as int, nanos as int);
    let n = decimal(pid).len() as int;
    assert forall|j: int| 0 <= j < n implies s[j] != '-' by {
        assert(s[j] == decimal(pid)[j]);
    }
    lemma_position_is(s, '-', n);
    assert(s.take(n) =~= decimal(pid));
    assert(s.skip(n + 1) =~= decimal(nanos));
}

/// What tells the process with the given id at the given moment from every
/// other; the moment is counted in nanoseconds since 1970.
pub fn unique_suffix(pid: u32, nanos: u128) -> (r: String)
    ensures
        r@ == suffix_text(pid as int, nanos as int),
{
    to_decimal(pid as u128).concat("-").concat(to_decimal(nanos).as_str())
}

/// The token of a request to a portal.
pub fn request_token(pid: u32, nanos: u128) -> (r: String)
    ensures
        r@ == token_text(pid as int, nanos as int),
{
    let suffix = unique_suffix(pid, nanos);
    let v = chars_of(suffix.as_str());
    let n: usize = v.len();
    let mut out = "codex_".to_owned();
    let mut i: usize = 0;
    assert(underscored(suffix@).take(0) =~= seq![]);
    assert(out@ =~= "codex_"@ + underscored(suffix@).take(0));
    while i < n
        invariant
            i <= n,
            n == v@.len(),
            v@ == suffix@,
            out@ == "codex_"@ + underscored(suffix@).take(i as int),
        decreases n - i,
    {
        let c = v[i];
        let safe = if c == '-' {
            '_'
        } else {
            c
        };
        out.push(safe);
        assert(underscored(suffix@).take(i + 1) =~= underscored(suffix@).take(i as int).push(safe));
        i += 1;
    }
    assert(underscored(suffix@).take(n as int) =~= underscored(suffix@));
    out
}

/// The path of the file that a picture from the given source goes to.
pub fn temp_png_path(temp_dir: &[u8], source: &str, pid: u32, nanos: u128) -> (r: Vec<u8>)
    ensures
        r@ == path_in(temp_dir@, encode_utf8(picture_name(source@, pid as int, nanos as int))),
{
    let name = "codex-computer-use-".to_owned().concat(source).concat("-").concat(
        unique_suffix(pid, nanos).as_str(),
    ).concat(".png");
    join_path(temp_dir, name.as_str())
}

} // verus!
