//! Searching, trimming and splitting of text.

use vstd::prelude::*;

use crate::text::{chars_of, is_whitespace, whitespace};

verus! {

// ---------------------------------------------------------------------------
// Vocabulary.
// ---------------------------------------------------------------------------

/// The index of the first `x` in `s`, or the length of `s` where there is none.
pub open spec fn position<T>(s: Seq<T>, x: T) -> int
    decreases s.len(),
{
    if s.len() == 0 || s[0] == x {
        0
    } else {
        1 + position(s.skip(1), x)
    }
}

/// The pieces of `s` between the occurrences of `sep`, empty ones included.
pub open spec fn fields<T>(s: Seq<T>, sep: T) -> Seq<Seq<T>>
    decreases s.len(),
{
    proof {
        lemma_position(s, sep);
    }
    let i = position(s, sep);
    if i == s.len() {
        seq![s]
    } else {
        seq![s.take(i)] + fields(s.skip(i + 1), sep)
    }
}

/// `s` without the white space at its front.
pub open spec fn trim_start(s: Seq<char>) -> Seq<char>
    decreases s.len(),
{
    if s.len() > 0 && whitespace(s[0]) {
        trim_start(s.skip(1))
    } else {
        s
    }
}

/// `s` without the white space at its back.
pub open spec fn trim_end(s: Seq<char>) -> Seq<char>
    decreases s.len(),
{
    if s.len() > 0 && whitespace(s.last()) {
        trim_end(s.drop_last())
    } else {
        s
    }
}

/// `s` without the white space at its two ends.
pub open spec fn trimmed(s: Seq<char>) -> Seq<char> {
    trim_end(trim_start(s))
}

/// Nothing but white space.
pub open spec fn blank(s: Seq<char>) -> bool {
    forall|i: int| 0 <= i < s.len() ==> whitespace(#[trigger] s[i])
}

/// `p` stands in `s` at index `i`.
pub open spec fn occurs_at<T>(s: Seq<T>, p: Seq<T>, i: int) -> bool {
    &&& 0 <= i
    &&& i + p.len() <= s.len()
    &&& s.subrange(i, i + p.len()) =~= p
}

/// `p` stands somewhere in `s`.
pub open spec fn has_text(s: Seq<char>, p: Seq<char>) -> bool {
    exists|i: int| #[trigger] occurs_at(s, p, i)
}

/// `s` starts with `p`.
pub open spec fn has_prefix<T>(s: Seq<T>, p: Seq<T>) -> bool {
    occurs_at(s, p, 0)
}

/// `s` ends with `p`.
pub open spec fn has_suffix<T>(s: Seq<T>, p: Seq<T>) -> bool {
    occurs_at(s, p, s.len() - p.len())
}

/// What follows the prefix `p` in `s`.
pub open spec fn after_prefix(s: Seq<char>, p: Seq<char>) -> Option<Seq<char>> {
    if has_prefix(s, p) {
        Some(s.skip(p.len() as int))
    } else {
        None
    }
}

/// What precedes the suffix `p` in `s`.
pub open spec fn before_suffix(s: Seq<char>, p: Seq<char>) -> Option<Seq<char>> {
    if has_suffix(s, p) {
        Some(s.take(s.len() - p.len()))
    } else {
        None
    }
}

/// A line without the carriage return that may precede its line feed.
pub open spec fn without_cr(s: Seq<char>) -> Seq<char> {
    if s.len() > 0 && s.last() == '\r' {
        s.drop_last()
    } else {
        s
    }
}

/// The lines of a text: each ends with `\n`, with `\r\n`, or with the text.
pub open spec fn lines_of(s: Seq<char>) -> Seq<Seq<char>>
    decreases s.len(),
{
    proof {
        lemma_position(s, '\n');
    }
    let i = position(s, '\n');
    if s.len() == 0 {
        seq![]
    } else if i == s.len() {
        seq![s]
    } else {
        seq![without_cr(s.take(i))] + lines_of(s.skip(i + 1))
    }
}

/// How many characters precede the first white space of `s`.
pub open spec fn word_len(s: Seq<char>) -> int
    decreases s.len(),
{
    if s.len() == 0 || whitespace(s[0]) {
        0
    } else {
        1 + word_len(s.skip(1))
    }
}

/// The words of a text: its maximal runs without white space.
pub open spec fn words_of(s: Seq<char>) -> Seq<Seq<char>>
    decreases s.len(),
{
    proof {
        lemma_trim_start(s);
    }
    let t = trim_start(s);
    if t.len() == 0 {
        seq![]
    } else {
        seq![t.take(word_len(t))] + words_of(t.skip(word_len(t)))
    }
}

/// The pieces of `parts` with `sep` between neighbours.
pub open spec fn joined<T>(parts: Seq<Seq<T>>, sep: Seq<T>) -> Seq<T>
    decreases parts.len(),
{
    if parts.len() == 0 {
        seq![]
    } else if parts.len() == 1 {
        parts[0]
    } else {
        joined(parts.drop_last(), sep) + sep + parts.last()
    }
}

/// The texts of a sequence of string slices.
pub open spec fn slices(v: Seq<&str>) -> Seq<Seq<char>> {
    Seq::new(v.len(), |i: int| v[i]@)
}

/// The texts of a sequence of strings.
pub open spec fn strings(v: Seq<String>) -> Seq<Seq<char>> {
    Seq::new(v.len(), |i: int| v[i]@)
}

// ---------------------------------------------------------------------------
// Facts about the vocabulary.
// ---------------------------------------------------------------------------

/// `position` lies within the sequence, finds an `x`, and finds the first one.
pub proof fn lemma_position<T>(s: Seq<T>, x: T)
    ensures
        0 <= position(s, x) <= s.len(),
        position(s, x) < s.len() ==> s[position(s, x)] == x,
        forall|j: int| 0 <= j < position(s, x) ==> s[j] != x,
    decreases s.len(),
{
    if s.len() > 0 && s[0] != x {
        lemma_position(s.skip(1), x);
        assert forall|j: int| 0 <= j < position(s, x) implies s[j] != x by {
            if j > 0 {
                assert(s[j] == s.skip(1)[j - 1]);
            }
        }
    }
}

/// An index with an `x` and none before it is the position of `x`.
pub proof fn lemma_position_is<T>(s: Seq<T>, x: T, i: int)
    requires
        0 <= i <= s.len(),
        i < s.len() ==> s[i] == x,
        forall|j: int| 0 <= j < i ==> s[j] != x,
    ensures
        position(s, x) == i,
{
    lemma_position(s, x);
}

/// What trimming the front leaves is a suffix that starts with no white space.
pub proof fn lemma_trim_start(s: Seq<char>)
    ensures
        trim_start(s).len() <= s.len(),
        trim_start(s) == s.skip(s.len() - trim_start(s).len()),
        trim_start(s).len() > 0 ==> !whitespace(trim_start(s)[0]),
        forall|j: int| 0 <= j < s.len() - trim_start(s).len() ==> whitespace(#[trigger] s[j]),
        0 <= word_len(trim_start(s)) <= trim_start(s).len(),
        trim_start(s).len() > 0 ==> word_len(trim_start(s)) > 0,
    decreases s.len(),
{
    lemma_word_len(trim_start(s));
    if s.len() > 0 && whitespace(s[0]) {
        lemma_trim_start(s.skip(1));
        let n = s.len() - trim_start(s).len();
        assert(s.skip(1).skip(n - 1) =~= s.skip(n));
        assert forall|j: int| 0 <= j < n implies whitespace(#[trigger] s[j]) by {
            if j > 0 {
                assert(s[j] == s.skip(1)[j - 1]);
            }
        }
    } else {
        assert(s.skip(0) =~= s);
    }
}

/// `word_len` lies within the text.
pub proof fn lemma_word_len(s: Seq<char>)
    ensures
        0 <= word_len(s) <= s.len(),
        word_len(s) < s.len() ==> whitespace(s[word_len(s)]),
        forall|j: int| 0 <= j < word_len(s) ==> !whitespace(#[trigger] s[j]),
        s.len() > 0 && !whitespace(s[0]) ==> word_len(s) > 0,
    decreases s.len(),
{
    if s.len() > 0 && !whitespace(s[0]) {
        lemma_word_len(s.skip(1));
        assert forall|j: int| 0 <= j < word_len(s) implies !whitespace(#[trigger] s[j]) by {
            if j > 0 {
                assert(s[j] == s.skip(1)[j - 1]);
            }
        }
    }
}

proof fn lemma_word_len_is(s: Seq<char>, n: int)
    requires
        0 <= n <= s.len(),
        n < s.len() ==> whitespace(s[n]),
        forall|j: int| 0 <= j < n ==> !whitespace(#[trigger] s[j]),
    ensures
        word_len(s) == n,
{
    lemma_word_len(s);
    let w = word_len(s);
    if w < n {
        assert(!whitespace(s[w]));
    }
    if n < w {
        assert(!whitespace(s[n]));
    }
}

proof fn lemma_words_after_space(s: Seq<char>)
    requires
        s.len() > 0,
        whitespace(s[0]),
    ensures
        words_of(s) == words_of(s.skip(1)),
{
    assert(trim_start(s) == trim_start(s.skip(1)));
}

proof fn lemma_words_after_word(s: Seq<char>, n: int)
    requires
        0 < n <= s.len(),
        n < s.len() ==> whitespace(s[n]),
        forall|j: int| 0 <= j < n ==> !whitespace(#[trigger] s[j]),
    ensures
        words_of(s) == seq![s.take(n)] + words_of(s.skip(n)),
{
    lemma_word_len_is(s, n);
    assert(!whitespace(s[0]));
    assert(trim_start(s) == s);
}

// ---------------------------------------------------------------------------
// Laws.
// ---------------------------------------------------------------------------

/// A text stands in another wherever something may precede and follow it, and
/// nowhere else.
pub proof fn text_is_found_anywhere(s: Seq<char>, a: Seq<char>, p: Seq<char>, b: Seq<char>)
    ensures
        has_text(a + p + b, p),
        has_text(s, p) <==> exists|front: Seq<char>, back: Seq<char>|
            s == #[trigger] (front + p + back),
{
    let whole = a + p + b;
    assert(whole.subrange(a.len() as int, (a.len() + p.len()) as int) =~= p);
    assert(occurs_at(whole, p, a.len() as int));
    if has_text(s, p) {
        let i = choose|i: int| #[trigger] occurs_at(s, p, i);
        let front = s.take(i);
        let back = s.skip(i + p.len());
        assert(s.subrange(i, i + p.len()) =~= p);
        assert(s =~= front + p + back);
    }
    if exists|front: Seq<char>, back: Seq<char>| s == #[trigger] (front + p + back) {
        let (front, back) = choose|front: Seq<char>, back: Seq<char>|
            s == #[trigger] (front + p + back);
        assert(s.subrange(front.len() as int, (front.len() + p.len()) as int) =~= p);
        assert(occurs_at(s, p, front.len() as int));
    }
}

/// A prefix is what a text starts with, and what follows it is the rest; a
/// suffix is what it ends with, and what precedes it is the rest.
pub proof fn affixes_come_off(a: Seq<char>, b: Seq<char>)
    ensures
        after_prefix(a + b, a) == Some(b),
        before_suffix(a + b, b) == Some(a),
{
    assert((a + b).subrange(0, a.len() as int) =~= a);
    assert((a + b).skip(a.len() as int) =~= b);
    let n = (a + b).len() as int;
    assert((a + b).subrange(n - b.len(), n) =~= b);
    assert((a + b).take(n - b.len()) =~= a);
}

/// Trimming takes the white space off both ends and leaves the rest.
pub proof fn trimming_leaves_the_text(a: Seq<char>, t: Seq<char>, b: Seq<char>)
    requires
        blank(a),
        blank(b),
        t.len() > 0 ==> !whitespace(t[0]) && !whitespace(t.last()),
    ensures
        trimmed(a + t + b) == t,
{
    if t.len() > 0 {
        lemma_trim_blank_front(a, t + b);
        assert(a + t + b =~= a + (t + b));
        assert((t + b)[0] == t[0]);
        lemma_trim_blank_back(t, b);
    } else {
        assert(a + t + b =~= a + b);
        assert(blank(a + b)) by {
            assert forall|i: int| 0 <= i < (a + b).len() implies whitespace(
                #[trigger] (a + b)[i],
            ) by {
                if i < a.len() {
                    assert(whitespace(a[i]));
                } else {
                    assert(whitespace(b[i - a.len()]));
                }
            }
        }
        lemma_trim_blank_front(a + b, t);
        assert(a + b + t =~= a + b);
        assert(trim_start(a + b) =~= t);
    }
}

proof fn lemma_trim_blank_front(a: Seq<char>, t: Seq<char>)
    requires
        blank(a),
        t.len() > 0 ==> !whitespace(t[0]),
    ensures
        trim_start(a + t) == t,
    decreases a.len(),
{
    if a.len() == 0 {
        assert(a + t =~= t);
    } else {
        let rest = a.skip(1);
        assert(whitespace(a[0]));
        assert forall|i: int| 0 <= i < rest.len() implies whitespace(#[trigger] rest[i]) by {
            assert(whitespace(a[i + 1]));
        }
        lemma_trim_blank_front(rest, t);
        assert((a + t).skip(1) =~= rest + t);
    }
}

proof fn lemma_trim_blank_back(t: Seq<char>, b: Seq<char>)
    requires
        blank(b),
        t.len() > 0 ==> !whitespace(t.last()),
    ensures
        trim_end(t + b) == t,
    decreases b.len(),
{
    if b.len() == 0 {
        assert(t + b =~= t);
    } else {
        let rest = b.drop_last();
        assert(whitespace(b[b.len() - 1]));
        assert forall|i: int| 0 <= i < rest.len() implies whitespace(#[trigger] rest[i]) by {
            assert(whitespace(b[i]));
        }
        lemma_trim_blank_back(t, rest);
        assert((t + b).drop_last() =~= t + rest);
    }
}

/// Nothing but white space is lost in trimming, and none is left at the ends.
pub proof fn trimming_takes_only_white_space(s: Seq<char>)
    ensures
        exists|a: Seq<char>, b: Seq<char>|
            blank(a) && blank(b) && s == #[trigger] (a + trimmed(s) + b),
        trimmed(s).len() > 0 ==> !whitespace(trimmed(s)[0]) && !whitespace(trimmed(s).last()),
        trimmed(trimmed(s)) == trimmed(s),
{
    lemma_trim_start(s);
    let t = trim_start(s);
    lemma_trim_end(t);
    let r = trim_end(t);
    let a = s.take(s.len() - t.len());
    let b = t.skip(r.len() as int);
    assert forall|i: int| 0 <= i < b.len() implies whitespace(#[trigger] b[i]) by {
        assert(whitespace(t[r.len() + i]));
    }
    assert forall|i: int| 0 <= i < a.len() implies whitespace(#[trigger] a[i]) by {
        assert(whitespace(s[i]));
    }
    assert(s =~= a + r + b);
    assert(blank(a) && blank(b) && s == a + trimmed(s) + b);
    assert(seq![] + r + seq![] =~= r);
    trimming_leaves_the_text(seq![], r, seq![]);
}

proof fn lemma_trim_end(s: Seq<char>)
    ensures
        trim_end(s).len() <= s.len(),
        trim_end(s) == s.take(trim_end(s).len() as int),
        trim_end(s).len() > 0 ==> !whitespace(trim_end(s).last()) && trim_end(s)[0] == s[0],
        forall|j: int| trim_end(s).len() <= j < s.len() ==> whitespace(#[trigger] s[j]),
    decreases s.len(),
{
    if s.len() > 0 && whitespace(s.last()) {
        let front = s.drop_last();
        lemma_trim_end(front);
        assert(front.take(trim_end(s).len() as int) =~= s.take(trim_end(s).len() as int));
        assert forall|j: int| trim_end(s).len() <= j < s.len() implies whitespace(
            #[trigger] s[j],
        ) by {
            if j < front.len() {
                assert(whitespace(front[j]));
            }
        }
    } else {
        assert(s.take(s.len() as int) =~= s);
    }
}

/// A word: some text without white space.
pub open spec fn is_word(s: Seq<char>) -> bool {
    s.len() > 0 && forall|i: int| 0 <= i < s.len() ==> !whitespace(#[trigger] s[i])
}

/// Words with a space between neighbours are read back as they were.
pub proof fn words_survive_joining(words: Seq<Seq<char>>)
    requires
        forall|i: int| 0 <= i < words.len() ==> is_word(#[trigger] words[i]),
    ensures
        words_of(joined(words, " "@)) == words,
    decreases words.len(),
{
    reveal_strlit(" ");
    if words.len() == 0 {
        assert(words =~= seq![]);
    } else {
        let first = words[0];
        let rest = words.skip(1);
        assert(is_word(first));
        assert forall|i: int| 0 <= i < rest.len() implies is_word(#[trigger] rest[i]) by {
            assert(is_word(words[i + 1]));
        }
        words_survive_joining(rest);
        lemma_joined_front(words, " "@);
        let text = joined(words, " "@);
        let n = first.len() as int;
        assert(text.take(n) =~= first);
        assert forall|j: int| 0 <= j < n implies !whitespace(#[trigger] text[j]) by {
            assert(text[j] == first[j]);
        }
        lemma_words_after_word(text, n);
        if rest.len() == 0 {
            assert(text.skip(n) =~= seq![]);
            assert(words_of(text.skip(n)) =~= seq![]);
        } else {
            assert(text.skip(n) =~= " "@ + joined(rest, " "@));
            lemma_words_after_space(text.skip(n));
            assert(text.skip(n).skip(1) =~= joined(rest, " "@));
        }
        assert(seq![first] + rest =~= words);
    }
}

/// What is joined starts with its first part.
proof fn lemma_joined_front<T>(parts: Seq<Seq<T>>, sep: Seq<T>)
    requires
        parts.len() > 0,
    ensures
        joined(parts, sep) == (if parts.len() == 1 {
            parts[0]
        } else {
            parts[0] + sep + joined(parts.skip(1), sep)
        }),
    decreases parts.len(),
{
    if parts.len() > 1 {
        let front = parts.drop_last();
        let rest = parts.skip(1);
        lemma_joined_front(front, sep);
        if parts.len() == 2 {
            assert(joined(front, sep) == parts[0]);
            assert(joined(rest, sep) == parts[1]);
        } else {
            assert(front.skip(1) =~= rest.drop_last());
            assert(joined(rest, sep) == joined(rest.drop_last(), sep) + sep + rest.last());
            assert(joined(parts, sep) =~= parts[0] + sep + joined(rest, sep));
        }
    }
}

/// Pieces with a separator between neighbours are read back as they were.
pub proof fn fields_survive_joining<T>(parts: Seq<Seq<T>>, sep: T)
    requires
        parts.len() > 0,
        forall|i: int| 0 <= i < parts.len() ==> !(#[trigger] parts[i]).contains(sep),
    ensures
        fields(joined(parts, seq![sep]), sep) == parts,
    decreases parts.len(),
{
    let text = joined(parts, seq![sep]);
    let first = parts[0];
    let rest = parts.skip(1);
    lemma_joined_front(parts, seq![sep]);
    assert(!parts[0].contains(sep));
    assert forall|j: int| 0 <= j < first.len() implies text[j] != sep by {
        assert(text[j] == first[j]);
        assert(first.contains(first[j]));
    }
    lemma_position_is(text, sep, first.len() as int);
    if parts.len() == 1 {
        assert(parts =~= seq![first]);
    } else {
        assert forall|i: int| 0 <= i < rest.len() implies !(#[trigger] rest[i]).contains(
            sep,
        ) by {
            assert(!parts[i + 1].contains(sep));
        }
        fields_survive_joining(rest, sep);
        assert(text.take(first.len() as int) =~= first);
        assert(text.skip(first.len() as int + 1) =~= joined(rest, seq![sep]));
        assert(seq![first] + rest =~= parts);
    }
}

/// The lines of a text, each ended by a line feed.
pub open spec fn ended_lines(ls: Seq<Seq<char>>) -> Seq<char>
    decreases ls.len(),
{
    if ls.len() == 0 {
        seq![]
    } else {
        ls[0] + seq!['\n'] + ended_lines(ls.skip(1))
    }
}

/// The first line feed ends the first line, and takes a carriage return before it
/// along; what follows are the other lines. A text without line feeds is one line,
/// unless it is empty.
pub proof fn line_feeds_end_lines(line: Seq<char>, rest: Seq<char>)
    requires
        !line.contains('\n'),
    ensures
        lines_of(line + seq!['\r', '\n'] + rest) == seq![line] + lines_of(rest),
        !(line.len() > 0 && line.last() == '\r') ==> lines_of(line + seq!['\n'] + rest) == seq![line]
            + lines_of(rest),
        line.len() > 0 ==> lines_of(line) == seq![line],
        lines_of(seq![]) == Seq::<Seq<char>>::empty(),
{
    let s = line + seq!['\r', '\n'] + rest;
    let t = line + seq!['\n'] + rest;
    let n = line.len() as int;
    assert forall|j: int| 0 <= j < n implies line[j] != '\n' by {
        assert(line.contains(line[j]));
    }
    assert forall|j: int| 0 <= j < n + 1 implies s[j] != '\n' by {
        if j < n {
            assert(s[j] == line[j]);
        }
    }
    lemma_position_is(s, '\n', n + 1);
    assert(s.take(n + 1).drop_last() =~= line);
    assert(s.take(n + 1).last() == '\r');
    assert(s.skip(n + 2) =~= rest);
    assert forall|j: int| 0 <= j < n implies t[j] != '\n' by {
        assert(t[j] == line[j]);
    }
    lemma_position_is(t, '\n', n);
    assert(t.take(n) =~= line);
    assert(t.skip(n + 1) =~= rest);
    lemma_position_is(line, '\n', n);
}

/// Pieces with a separator between them are the pieces of both sides.
pub proof fn fields_of_both_sides<T>(a: Seq<T>, sep: T, b: Seq<T>)
    ensures
        fields(a + seq![sep] + b, sep) == fields(a, sep) + fields(b, sep),
    decreases a.len(),
{
    let whole = a + seq![sep] + b;
    lemma_position(a, sep);
    let i = position(a, sep);
    assert forall|j: int| 0 <= j < i implies whole[j] != sep by {
        assert(whole[j] == a[j]);
    }
    lemma_position_is(whole, sep, i);
    if i == a.len() {
        assert(whole.take(i) =~= a);
        assert(whole.skip(i + 1) =~= b);
    } else {
        let rest = a.skip(i + 1);
        fields_of_both_sides(rest, sep, b);
        assert(whole.take(i) =~= a.take(i));
        assert(whole.skip(i + 1) =~= rest + seq![sep] + b);
        assert(fields(whole, sep) =~= seq![a.take(i)] + (fields(rest, sep) + fields(b, sep)));
    }
}

/// Lines that are ended by line feeds are read back as they were.
pub proof fn lines_survive(ls: Seq<Seq<char>>)
    requires
        forall|i: int|
            0 <= i < ls.len() ==> !(#[trigger] ls[i]).contains('\n') && (ls[i].len() > 0
                ==> ls[i].last() != '\r'),
    ensures
        lines_of(ended_lines(ls)) == ls,
    decreases ls.len(),
{
    if ls.len() == 0 {
        assert(ls =~= seq![]);
    } else {
        let text = ended_lines(ls);
        let first = ls[0];
        let rest = ls.skip(1);
        assert(!ls[0].contains('\n'));
        assert forall|i: int| 0 <= i < rest.len() implies !(#[trigger] rest[i]).contains('\n') && (
        rest[i].len() > 0 ==> rest[i].last() != '\r') by {
            assert(!ls[i + 1].contains('\n'));
        }
        lines_survive(rest);
        assert forall|j: int| 0 <= j < first.len() implies text[j] != '\n' by {
            assert(text[j] == first[j]);
            assert(first.contains(first[j]));
        }
        lemma_position_is(text, '\n', first.len() as int);
        assert(text.take(first.len() as int) =~= first);
        assert(text.skip(first.len() as int + 1) =~= ended_lines(rest));
        assert(seq![first] + rest =~= ls);
    }
}

// ---------------------------------------------------------------------------
// Executable scanning.
// ---------------------------------------------------------------------------

/// The text without the white space at its two ends.
pub fn trim(s: &str) -> (r: &str)
    ensures
        r@ == trimmed(s@),
{
    let v = chars_of(s);
    let n: usize = v.len();
    let mut a: usize = 0;
    assert(s@.skip(0) =~= s@);
    while a < n && is_whitespace(v[a])
        invariant
            a <= n,
            n == v@.len(),
            v@ == s@,
            trim_start(s@) == trim_start(s@.skip(a as int)),
        decreases n - a,
    {
        assert(s@.skip(a as int).skip(1) =~= s@.skip(a + 1));
        a += 1;
    }
    let mut b: usize = n;
    assert(s@.subrange(a as int, b as int) =~= s@.skip(a as int));
    while b > a && is_whitespace(v[b - 1])
        invariant
            a <= b <= n,
            n == v@.len(),
            v@ == s@,
            trimmed(s@) == trim_end(s@.subrange(a as int, b as int)),
        decreases b,
    {
        assert(s@.subrange(a as int, b as int).drop_last() =~= s@.subrange(a as int, b - 1));
        b -= 1;
    }
    s.substring_char(a, b)
}

/// Whether a text is nothing but white space.
pub fn is_blank(s: &str) -> (r: bool)
    ensures
        r == blank(s@),
{
    let v = chars_of(s);
    let mut i: usize = 0;
    while i < v.len()
        invariant
            i <= v@.len(),
            v@ == s@,
            blank(s@.take(i as int)),
        decreases v.len() - i,
    {
        if !is_whitespace(v[i]) {
            assert(!whitespace(s@[i as int]));
            return false;
        }
        assert forall|j: int| 0 <= j < i + 1 implies whitespace(#[trigger] s@.take(i + 1)[j]) by {
            if j < i {
                assert(whitespace(s@.take(i as int)[j]));
            }
        }
        i += 1;
    }
    assert(s@.take(i as int) =~= s@);
    true
}

/// Whether `p` stands in `v` at index `i`.
pub fn occurs_here(v: &[char], p: &[char], i: usize) -> (r: bool)
    ensures
        r == occurs_at(v@, p@, i as int),
{
    let n: usize = v.len();
    let m: usize = p.len();
    if m > n || i > n - m {
        return false;
    }
    let mut k: usize = 0;
    while k < m
        invariant
            k <= m,
            m == p@.len(),
            n == v@.len(),
            i + m <= n,
            forall|j: int| 0 <= j < k ==> v@[i + j] == #[trigger] p@[j],
        decreases m - k,
    {
        if v[i + k] != p[k] {
            assert(v@.subrange(i as int, i + m)[k as int] != p@[k as int]);
            return false;
        }
        k += 1;
    }
    true
}

/// The index of the first occurrence of `p` in `s`, counted in characters.
pub fn find(s: &str, p: &str) -> (r: Option<usize>)
    ensures
        r is Some <==> has_text(s@, p@),
        r is Some ==> occurs_at(s@, p@, r->0 as int),
        r is Some ==> forall|j: int| 0 <= j < r->0 ==> !occurs_at(s@, p@, j),
{
    let v = chars_of(s);
    let q = chars_of(p);
    let n: usize = v.len();
    let mut i: usize = 0;
    while i < n
        invariant
            i <= n,
            n == v@.len(),
            v@ == s@,
            q@ == p@,
            forall|j: int| 0 <= j < i ==> !occurs_at(s@, p@, j),
        decreases n - i,
    {
        if occurs_here(v.as_slice(), q.as_slice(), i) {
            return Some(i);
        }
        i += 1;
    }
    if occurs_here(v.as_slice(), q.as_slice(), n) {
        return Some(n);
    }
    None
}

/// Whether `p` stands somewhere in `s`.
pub fn contains(s: &str, p: &str) -> (r: bool)
    ensures
        r == has_text(s@, p@),
{
    find(s, p).is_some()
}

/// Whether `s` starts with `p`.
pub fn starts_with(s: &str, p: &str) -> (r: bool)
    ensures
        r == has_prefix(s@, p@),
{
    let v = chars_of(s);
    let q = chars_of(p);
    occurs_here(v.as_slice(), q.as_slice(), 0)
}

/// What follows the prefix `p` in `s`, where `s` starts with it.
pub fn strip_prefix<'a>(s: &'a str, p: &str) -> (r: Option<&'a str>)
    ensures
        r is Some <==> has_prefix(s@, p@),
        r is Some ==> Some(r->0@) == after_prefix(s@, p@),
{
    let v = chars_of(s);
    let q = chars_of(p);
    if occurs_here(v.as_slice(), q.as_slice(), 0) {
        let n: usize = v.len();
        let m: usize = q.len();
        let rest = s.substring_char(m, n);
        assert(rest@ =~= s@.skip(m as int));
        Some(rest)
    } else {
        None
    }
}

/// What precedes the suffix `p` in `s`, where `s` ends with it.
pub fn strip_suffix<'a>(s: &'a str, p: &str) -> (r: Option<&'a str>)
    ensures
        r is Some <==> has_suffix(s@, p@),
        r is Some ==> Some(r->0@) == before_suffix(s@, p@),
{
    let v = chars_of(s);
    let q = chars_of(p);
    let n: usize = v.len();
    let m: usize = q.len();
    if m <= n && occurs_here(v.as_slice(), q.as_slice(), n - m) {
        let rest = s.substring_char(0, n - m);
        assert(rest@ =~= s@.take(n - m));
        Some(rest)
    } else {
        None
    }
}

/// The pieces of `s` between the occurrences of `sep`.
pub fn split_on<'a>(s: &'a str, sep: char) -> (r: Vec<&'a str>)
    ensures
        slices(r@) == fields(s@, sep),
{
    let v = chars_of(s);
    let n: usize = v.len();
    let mut out: Vec<&'a str> = Vec::new();
    let mut start: usize = 0;
    let mut i: usize = 0;
    assert(s@.skip(0) =~= s@);
    assert(slices(out@) + fields(s@, sep) =~= fields(s@, sep));
    while i < n
        invariant
            start <= i <= n,
            n == v@.len(),
            v@ == s@,
            forall|j: int| start <= j < i ==> s@[j] != sep,
            slices(out@) + fields(s@.skip(start as int), sep) == fields(s@, sep),
        decreases n - i,
    {
        if v[i] == sep {
            let ghost rest = s@.skip(start as int);
            let piece = s.substring_char(start, i);
            proof {
                lemma_position_is(rest, sep, i - start);
                assert(rest.take(i - start) =~= piece@);
                assert(rest.skip(i - start + 1) =~= s@.skip(i + 1));
            }
            let ghost before = out@;
            out.push(piece);
            proof {
                assert(slices(out@) =~= slices(before).push(piece@));
                assert(slices(out@) + fields(s@.skip(i + 1), sep) =~= slices(before) + fields(
                    rest,
                    sep,
                ));
            }
            start = i + 1;
        }
        i += 1;
    }
    let ghost rest = s@.skip(start as int);
    let piece = s.substring_char(start, n);
    proof {
        lemma_position_is(rest, sep, n - start);
        assert(piece@ =~= rest);
    }
    let ghost before = out@;
    out.push(piece);
    assert(slices(out@) =~= slices(before) + fields(rest, sep));
    out
}

/// The lines of a text.
pub fn lines<'a>(s: &'a str) -> (r: Vec<&'a str>)
    ensures
        slices(r@) == lines_of(s@),
{
    let v = chars_of(s);
    let n: usize = v.len();
    let mut out: Vec<&'a str> = Vec::new();
    let mut start: usize = 0;
    let mut i: usize = 0;
    assert(s@.skip(0) =~= s@);
    assert(slices(out@) + lines_of(s@) =~= lines_of(s@));
    while i < n
        invariant
            start <= i <= n,
            n == v@.len(),
            v@ == s@,
            forall|j: int| start <= j < i ==> s@[j] != '\n',
            slices(out@) + lines_of(s@.skip(start as int)) == lines_of(s@),
        decreases n - i,
    {
        if v[i] == '\n' {
            let ghost rest = s@.skip(start as int);
            let end: usize = if start < i && v[i - 1] == '\r' {
                i - 1
            } else {
                i
            };
            let piece = s.substring_char(start, end);
            proof {
                lemma_position_is(rest, '\n', i - start);
                assert(rest.take(i - start) =~= s@.subrange(start as int, i as int));
                assert(without_cr(rest.take(i - start)) =~= piece@);
                assert(rest.skip(i - start + 1) =~= s@.skip(i + 1));
            }
            let ghost before = out@;
            out.push(piece);
            proof {
                assert(slices(out@) =~= slices(before).push(piece@));
                assert(slices(out@) + lines_of(s@.skip(i + 1)) =~= slices(before) + lines_of(rest));
            }
            start = i + 1;
        }
        i += 1;
    }
    let ghost rest = s@.skip(start as int);
    if start < n {
        let piece = s.substring_char(start, n);
        proof {
            lemma_position_is(rest, '\n', n - start);
            assert(piece@ =~= rest);
        }
        let ghost before = out@;
        out.push(piece);
        assert(slices(out@) =~= slices(before) + lines_of(rest));
    } else {
        proof {
            lemma_position_is(rest, '\n', 0);
            assert(slices(out@) + lines_of(rest) =~= slices(out@));
        }
    }
    out
}

/// The words of a text.
pub fn split_whitespace<'a>(s: &'a str) -> (r: Vec<&'a str>)
    ensures
        slices(r@) == words_of(s@),
{
    let v = chars_of(s);
    let n: usize = v.len();
    let mut out: Vec<&'a str> = Vec::new();
    let mut i: usize = 0;
    assert(s@.skip(0) =~= s@);
    assert(slices(out@) + words_of(s@) =~= words_of(s@));
    while i < n
        invariant
            i <= n,
            n == v@.len(),
            v@ == s@,
            slices(out@) + words_of(s@.skip(i as int)) == words_of(s@),
        decreases n - i,
    {
        let ghost rest = s@.skip(i as int);
        if is_whitespace(v[i]) {
            proof {
                assert(rest.skip(1) =~= s@.skip(i + 1));
                lemma_words_after_space(rest);
            }
            i += 1;
        } else {
            let start: usize = i;
            while i < n && !is_whitespace(v[i])
                invariant
                    start <= i <= n,
                    n == v@.len(),
                    v@ == s@,
                    forall|j: int| start <= j < i ==> !whitespace(#[trigger] s@[j]),
                ensures
                    i < n ==> whitespace(s@[i as int]),
                    start < n && !whitespace(s@[start as int]) ==> start < i,
                decreases n - i,
            {
                i += 1;
            }
            let piece = s.substring_char(start, i);
            proof {
                assert forall|j: int| 0 <= j < i - start implies !whitespace(#[trigger] rest[j]) by {
                    assert(rest[j] == s@[start + j]);
                }
                lemma_words_after_word(rest, i - start);
                assert(rest.take(i - start) =~= piece@);
                assert(rest.skip(i - start) =~= s@.skip(i as int));
            }
            let ghost before = out@;
            out.push(piece);
            proof {
                assert(slices(out@) =~= slices(before).push(piece@));
                assert(slices(out@) + words_of(s@.skip(i as int)) =~= slices(before) + words_of(
                    rest,
                ));
            }
        }
    }
    proof {
        let rest = s@.skip(i as int);
        lemma_trim_start(rest);
        assert(slices(out@) + words_of(rest) =~= slices(out@));
    }
    out
}

/// The texts of `parts` with `sep` between neighbours.
pub fn join(parts: &[&str], sep: &str) -> (r: String)
    ensures
        r@ == joined(slices(parts@), sep@),
{
    let n: usize = parts.len();
    let mut out = String::new();
    let mut i: usize = 0;
    while i < n
        invariant
            i <= n,
            n == parts@.len(),
            out@ == joined(slices(parts@).take(i as int), sep@),
        decreases n - i,
    {
        if i > 0 {
            out.append(sep);
        }
        out.append(parts[i]);
        proof {
            let all = slices(parts@);
            assert(all.take(i + 1).drop_last() =~= all.take(i as int));
            if i == 0 {
                assert(all.take(0) =~= Seq::<Seq<char>>::empty());
            }
        }
        i += 1;
    }
    assert(slices(parts@).take(n as int) =~= slices(parts@));
    out
}

} // verus!
