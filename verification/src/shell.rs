//! The command lines of desktop files: field codes, words, and names that can
//! be run as they are.

use vstd::prelude::*;

use crate::scan::{joined, strings};
use crate::text::{alphanumeric, chars_of, is_alphanumeric};

verus! {

// ---------------------------------------------------------------------------
// Field codes.
// ---------------------------------------------------------------------------

/// A letter that stands for a file, a URL, an icon and the like after a percent
/// sign.
pub open spec fn field_code(c: char) -> bool {
    ||| c == 'u'
    ||| c == 'U'
    ||| c == 'f'
    ||| c == 'F'
    ||| c == 'i'
    ||| c == 'c'
    ||| c == 'k'
    ||| c == 'd'
    ||| c == 'D'
    ||| c == 'n'
    ||| c == 'N'
    ||| c == 'v'
    ||| c == 'm'
}

/// A command line without its field codes. A doubled percent sign stands for
/// one; a percent sign before anything else stays as it is.
pub open spec fn without_field_codes(s: Seq<char>) -> Seq<char>
    decreases s.len(),
{
    if s.len() == 0 {
        seq![]
    } else if s[0] == '%' && s.len() > 1 && s[1] == '%' {
        seq!['%'] + without_field_codes(s.skip(2))
    } else if s[0] == '%' && s.len() > 1 && field_code(s[1]) {
        without_field_codes(s.skip(2))
    } else {
        seq![s[0]] + without_field_codes(s.skip(1))
    }
}

/// A command line without percent signs is kept as it is.
pub proof fn plain_command_line_is_kept(s: Seq<char>)
    requires
        !s.contains('%'),
    ensures
        without_field_codes(s) == s,
    decreases s.len(),
{
    if s.len() > 0 {
        assert(s[0] != '%');
        assert forall|i: int| 0 <= i < s.skip(1).len() implies s.skip(1)[i] != '%' by {
            assert(s.skip(1)[i] == s[i + 1]);
        }
        plain_command_line_is_kept(s.skip(1));
        assert(seq![s[0]] + s.skip(1) =~= s);
    } else {
        assert(s =~= seq![]);
    }
}

/// What follows the first percent sign decides what becomes of it: one of the
/// letters `u U f F i c k d D n N v m` goes with it, another percent sign leaves
/// one, and before anything else it stays. What precedes it is kept.
pub proof fn first_percent_sign_is_resolved(a: Seq<char>, c: char, b: Seq<char>)
    requires
        !a.contains('%'),
    ensures
        c == 'u' || c == 'U' || c == 'f' || c == 'F' || c == 'i' || c == 'c' || c == 'k' || c == 'd'
            || c == 'D' || c == 'n' || c == 'N' || c == 'v' || c == 'm' ==> without_field_codes(
            a + seq!['%', c] + b,
        ) == a + without_field_codes(b),
        c == '%' ==> without_field_codes(a + seq!['%', c] + b) == a + seq!['%']
            + without_field_codes(b),
        !(c == 'u' || c == 'U' || c == 'f' || c == 'F' || c == 'i' || c == 'c' || c == 'k' || c
            == 'd' || c == 'D' || c == 'n' || c == 'N' || c == 'v' || c == 'm' || c == '%')
            ==> without_field_codes(a + seq!['%', c] + b) == a + seq!['%', c]
            + without_field_codes(b),
        without_field_codes(a + seq!['%']) == a + seq!['%'],
    decreases a.len(),
{
    let s = a + seq!['%', c] + b;
    let t = a + seq!['%'];
    if a.len() == 0 {
        reveal_with_fuel(without_field_codes, 3);
        assert(s.skip(2) =~= b);
        assert(s.skip(1) =~= seq![c] + b);
        assert((seq![c] + b).skip(1) =~= b);
        assert(t.skip(1) =~= seq![]);
        assert(a + without_field_codes(b) =~= without_field_codes(b));
        assert(a + seq!['%'] + without_field_codes(b) =~= seq!['%'] + without_field_codes(b));
        assert(a + seq!['%', c] + without_field_codes(b) =~= seq!['%'] + (seq![c]
            + without_field_codes(b)));
        assert(t =~= seq!['%']);
        assert(seq!['%'] + without_field_codes(seq![]) =~= seq!['%']);
    } else {
        let rest = a.skip(1);
        assert(a.contains(a[0]));
        assert forall|i: int| 0 <= i < rest.len() implies rest[i] != '%' by {
            assert(a.contains(a[i + 1]));
        }
        first_percent_sign_is_resolved(rest, c, b);
        assert(s.skip(1) =~= rest + seq!['%', c] + b);
        assert(t.skip(1) =~= rest + seq!['%']);
        assert(seq![a[0]] + (rest + without_field_codes(b)) =~= a + without_field_codes(b));
        assert(seq![a[0]] + (rest + seq!['%'] + without_field_codes(b)) =~= a + seq!['%']
            + without_field_codes(b));
        assert(seq![a[0]] + (rest + seq!['%', c] + without_field_codes(b)) =~= a + seq!['%', c]
            + without_field_codes(b));
        assert(seq![a[0]] + (rest + seq!['%']) =~= a + seq!['%']);
    }
}

fn is_field_code(c: char) -> (r: bool)
    ensures
        r == field_code(c),
{
    c == 'u' || c == 'U' || c == 'f' || c == 'F' || c == 'i' || c == 'c' || c == 'k' || c == 'd'
        || c == 'D' || c == 'n' || c == 'N' || c == 'v' || c == 'm'
}

/// Takes the field codes out of a command line.
pub fn strip_field_codes(exec: &str) -> (r: String)
    ensures
        r@ == without_field_codes(exec@),
{
    let v = chars_of(exec);
    let n: usize = v.len();
    let mut out = String::new();
    let mut i: usize = 0;
    assert(exec@.skip(0) =~= exec@);
    assert(out@ + without_field_codes(exec@) =~= without_field_codes(exec@));
    while i < n
        invariant
            i <= n,
            n == v@.len(),
            v@ == exec@,
            out@ + without_field_codes(exec@.skip(i as int)) == without_field_codes(exec@),
        decreases n - i,
    {
        let ghost rest = exec@.skip(i as int);
        let ghost before = out@;
        assert(rest.skip(1) =~= exec@.skip(i + 1));
        if v[i] == '%' && n - i > 1 && v[i + 1] == '%' {
            assert(rest.skip(2) =~= exec@.skip(i + 2));
            out.push('%');
            i += 2;
        } else if v[i] == '%' && n - i > 1 && is_field_code(v[i + 1]) {
            assert(rest.skip(2) =~= exec@.skip(i + 2));
            i += 2;
        } else {
            out.push(v[i]);
            i += 1;
        }
        assert(out@ + without_field_codes(exec@.skip(i as int)) =~= before + without_field_codes(
            rest,
        ));
    }
    assert(exec@.skip(n as int) =~= seq![]);
    assert(out@ + without_field_codes(exec@.skip(n as int)) =~= out@);
    out
}

// ---------------------------------------------------------------------------
// Words.
// ---------------------------------------------------------------------------

/// Where a reader of a command line stands: the words behind it, the word at
/// hand, and how the next character is to be taken.
pub struct SplitState {
    pub args: Seq<Seq<char>>,
    pub current: Seq<char>,
    pub in_single: bool,
    pub in_double: bool,
    pub escape: bool,
}

/// A reader at the front of a command line.
pub open spec fn split_start() -> SplitState {
    SplitState { args: seq![], current: seq![], in_single: false, in_double: false, escape: false }
}

/// A reader after one more character. A backslash outside single quotes makes
/// the next character stand for itself; quotes keep white space in a word.
pub open spec fn split_step(s: SplitState, c: char) -> SplitState {
    if s.escape {
        SplitState { current: s.current.push(c), escape: false, ..s }
    } else if c == '\\' && !s.in_single {
        SplitState { escape: true, ..s }
    } else if c == '\'' && !s.in_double {
        SplitState { in_single: !s.in_single, ..s }
    } else if c == '"' && !s.in_single {
        SplitState { in_double: !s.in_double, ..s }
    } else if (c == ' ' || c == '\t') && !s.in_single && !s.in_double {
        if s.current.len() > 0 {
            SplitState { args: s.args.push(s.current), current: seq![], ..s }
        } else {
            s
        }
    } else {
        SplitState { current: s.current.push(c), ..s }
    }
}

/// A reader after each of the given characters in turn.
pub open spec fn split_run(s: SplitState, text: Seq<char>) -> SplitState
    decreases text.len(),
{
    if text.len() == 0 {
        s
    } else {
        split_step(split_run(s, text.drop_last()), text.last())
    }
}

/// The words that a reader has when the command line ends.
pub open spec fn words_read(s: SplitState) -> Seq<Seq<char>> {
    if s.current.len() > 0 {
        s.args.push(s.current)
    } else {
        s.args
    }
}

/// The words of a command line.
pub open spec fn shell_words(text: Seq<char>) -> Seq<Seq<char>> {
    words_read(split_run(split_start(), text))
}

/// A character that means nothing special in a command line.
pub open spec fn plain(c: char) -> bool {
    c != '\\' && c != '\'' && c != '"' && c != ' ' && c != '\t'
}

/// No word of a command line is empty.
pub proof fn words_are_never_empty(text: Seq<char>)
    ensures
        forall|i: int| 0 <= i < shell_words(text).len() ==> (#[trigger] shell_words(text)[i]).len() > 0,
{
    lemma_read_words_are_not_empty(text);
}

proof fn lemma_read_words_are_not_empty(text: Seq<char>)
    ensures
        forall|i: int|
            0 <= i < split_run(split_start(), text).args.len() ==> (
            #[trigger] split_run(split_start(), text).args[i]).len() > 0,
    decreases text.len(),
{
    if text.len() > 0 {
        lemma_read_words_are_not_empty(text.drop_last());
        let behind = split_run(split_start(), text.drop_last());
        let s = split_run(split_start(), text);
        assert forall|i: int| 0 <= i < s.args.len() implies (#[trigger] s.args[i]).len() > 0 by {
            if i < behind.args.len() {
                assert(s.args[i] == behind.args[i]);
            }
        }
    }
}

proof fn lemma_run_in_two(s: SplitState, a: Seq<char>, b: Seq<char>)
    ensures
        split_run(s, a + b) == split_run(split_run(s, a), b),
    decreases b.len(),
{
    if b.len() == 0 {
        assert(a + b =~= a);
    } else {
        lemma_run_in_two(s, a, b.drop_last());
        assert((a + b).drop_last() =~= a + b.drop_last());
        assert((a + b).last() == b.last());
    }
}

proof fn lemma_run_over_plain(s: SplitState, word: Seq<char>)
    requires
        !s.escape,
        !s.in_single,
        !s.in_double,
        forall|i: int| 0 <= i < word.len() ==> plain(#[trigger] word[i]),
    ensures
        split_run(s, word) == (SplitState { current: s.current + word, ..s }),
    decreases word.len(),
{
    if word.len() == 0 {
        assert(s.current + word =~= s.current);
    } else {
        let front = word.drop_last();
        assert forall|i: int| 0 <= i < front.len() implies plain(#[trigger] front[i]) by {
            assert(front[i] == word[i]);
        }
        lemma_run_over_plain(s, front);
        assert(plain(word[word.len() - 1]));
        assert((s.current + front).push(word.last()) =~= s.current + word);
    }
}

/// Words without special characters, with a space between neighbours, come out
/// as they went in.
pub proof fn plain_words_are_kept(words: Seq<Seq<char>>)
    requires
        forall|i: int| 0 <= i < words.len() ==> (#[trigger] words[i]).len() > 0,
        forall|i: int, j: int|
            0 <= i < words.len() && 0 <= j < words[i].len() ==> plain(#[trigger] words[i][j]),
    ensures
        shell_words(joined(words, " "@)) == words,
{
    if words.len() == 0 {
        assert(words =~= seq![]);
    } else {
        lemma_run_over_words(words);
        assert(words.drop_last().push(words.last()) =~= words);
        assert(words[words.len() - 1].len() > 0);
    }
}

proof fn lemma_run_over_words(words: Seq<Seq<char>>)
    requires
        words.len() > 0,
        forall|i: int| 0 <= i < words.len() ==> (#[trigger] words[i]).len() > 0,
        forall|i: int, j: int|
            0 <= i < words.len() && 0 <= j < words[i].len() ==> plain(#[trigger] words[i][j]),
    ensures
        split_run(split_start(), joined(words, " "@)) == (SplitState {
            args: words.drop_last(),
            current: words.last(),
            in_single: false,
            in_double: false,
            escape: false,
        }),
    decreases words.len(),
{
    reveal_strlit(" ");
    let last = words.last();
    assert forall|j: int| 0 <= j < last.len() implies plain(#[trigger] last[j]) by {
        assert(plain(words[words.len() - 1][j]));
    }
    if words.len() == 1 {
        lemma_run_over_plain(split_start(), last);
        assert(split_start().current + last =~= last);
        assert(words.drop_last() =~= seq![]);
    } else {
        let front = words.drop_last();
        assert forall|i: int| 0 <= i < front.len() implies (#[trigger] front[i]).len() > 0 by {
            assert(front[i] == words[i]);
        }
        assert forall|i: int, j: int| 0 <= i < front.len() && 0 <= j < front[i].len() implies plain(
            #[trigger] front[i][j],
        ) by {
            assert(plain(words[i][j]));
        }
        lemma_run_over_words(front);
        let text = joined(front, " "@);
        let behind = split_run(split_start(), text);
        lemma_run_in_two(split_start(), text, " "@);
        lemma_run_in_two(split_start(), text + " "@, last);
        assert(" "@.drop_last() =~= seq![]);
        assert(front[front.len() - 1].len() > 0);
        let spaced = split_run(behind, " "@);
        assert(spaced == split_step(behind, ' ')) by {
            reveal_with_fuel(split_run, 2);
        }
        assert(front.drop_last().push(front.last()) =~= front);
        assert(spaced.args =~= front);
        lemma_run_over_plain(spaced, last);
        assert(spaced.current + last =~= last);
    }
}

/// A word between single quotes comes out as it went in, whatever it holds but
/// single quotes.
pub proof fn single_quotes_protect(word: Seq<char>)
    requires
        word.len() > 0,
        !word.contains('\''),
    ensures
        shell_words(seq!['\''] + word + seq!['\'']) == seq![word],
{
    let quote = seq!['\''];
    lemma_run_in_two(split_start(), quote + word, quote);
    lemma_run_in_two(split_start(), quote, word);
    reveal_with_fuel(split_run, 2);
    assert(quote.drop_last() =~= seq![]);
    let opened = split_run(split_start(), quote);
    assert(opened == split_step(split_start(), '\''));
    lemma_run_in_single_quotes(opened, word);
    assert(opened.current + word =~= word);
    let inside = split_run(opened, word);
    assert(split_run(inside, quote) == split_step(inside, '\''));
    assert(seq![].push(word) =~= seq![word]);
}

/// Two quotes with nothing between them are no word.
pub proof fn nothing_between_quotes_is_no_word()
    ensures
        shell_words(seq!['\'', '\'']).len() == 0,
        shell_words(seq!['"', '"']).len() == 0,
        shell_words(seq![]).len() == 0,
{
    reveal_with_fuel(split_run, 3);
    assert(seq!['\'', '\''].drop_last() =~= seq!['\'']);
    assert(seq!['\''].drop_last() =~= seq![]);
    assert(seq!['"', '"'].drop_last() =~= seq!['"']);
    assert(seq!['"'].drop_last() =~= seq![]);
}

proof fn lemma_run_in_single_quotes(s: SplitState, word: Seq<char>)
    requires
        s.in_single,
        !s.in_double,
        !s.escape,
        !word.contains('\''),
    ensures
        split_run(s, word) == (SplitState { current: s.current + word, ..s }),
    decreases word.len(),
{
    if word.len() == 0 {
        assert(s.current + word =~= s.current);
    } else {
        let front = word.drop_last();
        assert forall|i: int| 0 <= i < front.len() implies front[i] != '\'' by {
            assert(front[i] == word[i]);
        }
        lemma_run_in_single_quotes(s, front);
        assert(word[word.len() - 1] != '\'');
        assert((s.current + front).push(word.last()) =~= s.current + word);
    }
}

proof fn lemma_run_one(s: SplitState, c: char)
    ensures
        split_run(s, seq![c]) == split_step(s, c),
{
    reveal_with_fuel(split_run, 2);
    assert(seq![c].drop_last() =~= seq![]);
}

proof fn lemma_run_in_double_quotes(s: SplitState, word: Seq<char>)
    requires
        s.in_double,
        !s.in_single,
        !s.escape,
        !word.contains('"'),
        !word.contains('\\'),
    ensures
        split_run(s, word) == (SplitState { current: s.current + word, ..s }),
    decreases word.len(),
{
    if word.len() == 0 {
        assert(s.current + word =~= s.current);
    } else {
        let front = word.drop_last();
        assert forall|i: int| 0 <= i < front.len() implies front[i] != '"' && front[i]
            != '\\' by {
            assert(word.contains(word[i]));
        }
        lemma_run_in_double_quotes(s, front);
        assert(word.contains(word[word.len() - 1]));
        assert((s.current + front).push(word.last()) =~= s.current + word);
    }
}

/// Quotes, single or double, keep whatever stands between them in the word that
/// they stand in, white space included, and go away themselves. Within double
/// quotes that holds but for backslashes.
pub proof fn quotes_stay_within_a_word(a: Seq<char>, w: Seq<char>, b: Seq<char>)
    requires
        forall|i: int| 0 <= i < a.len() ==> plain(#[trigger] a[i]),
        forall|i: int| 0 <= i < b.len() ==> plain(#[trigger] b[i]),
        (a + w + b).len() > 0,
    ensures
        !w.contains('\'') ==> shell_words(a + seq!['\''] + w + seq!['\''] + b) == seq![a + w + b],
        !w.contains('"') && !w.contains('\\') ==> shell_words(
            a + seq!['"'] + w + seq!['"'] + b,
        ) == seq![a + w + b],
{
    lemma_run_over_plain(split_start(), a);
    let s1 = split_run(split_start(), a);
    assert(s1.current =~= a);
    if !w.contains('\'') {
        let q = seq!['\''];
        lemma_run_in_two(split_start(), a + q + w + q, b);
        lemma_run_in_two(split_start(), a + q + w, q);
        lemma_run_in_two(split_start(), a + q, w);
        lemma_run_in_two(split_start(), a, q);
        lemma_run_one(s1, '\'');
        let s2 = split_step(s1, '\'');
        lemma_run_in_single_quotes(s2, w);
        let s3 = split_run(s2, w);
        lemma_run_one(s3, '\'');
        let s4 = split_step(s3, '\'');
        lemma_run_over_plain(s4, b);
        assert(split_run(s4, b).current =~= a + w + b);
        assert(seq![].push(a + w + b) =~= seq![a + w + b]);
    }
    if !w.contains('"') && !w.contains('\\') {
        let q = seq!['"'];
        lemma_run_in_two(split_start(), a + q + w + q, b);
        lemma_run_in_two(split_start(), a + q + w, q);
        lemma_run_in_two(split_start(), a + q, w);
        lemma_run_in_two(split_start(), a, q);
        lemma_run_one(s1, '"');
        let s2 = split_step(s1, '"');
        lemma_run_in_double_quotes(s2, w);
        let s3 = split_run(s2, w);
        lemma_run_one(s3, '"');
        let s4 = split_step(s3, '"');
        lemma_run_over_plain(s4, b);
        assert(split_run(s4, b).current =~= a + w + b);
        assert(seq![].push(a + w + b) =~= seq![a + w + b]);
    }
}

/// A text with a backslash before each character.
pub open spec fn backslashed(s: Seq<char>) -> Seq<char>
    decreases s.len(),
{
    if s.len() == 0 {
        seq![]
    } else {
        backslashed(s.drop_last()) + seq!['\\', s.last()]
    }
}

/// A backslash makes whatever follows it stand for itself, also within double
/// quotes.
pub proof fn backslashes_protect(word: Seq<char>)
    requires
        word.len() > 0,
    ensures
        shell_words(backslashed(word)) == seq![word],
        shell_words(seq!['"'] + backslashed(word) + seq!['"']) == seq![word],
{
    lemma_run_over_backslashed(split_start(), word);
    assert(split_start().current + word =~= word);
    assert(seq![].push(word) =~= seq![word]);
    let q = seq!['"'];
    lemma_run_in_two(split_start(), q + backslashed(word), q);
    lemma_run_in_two(split_start(), q, backslashed(word));
    lemma_run_one(split_start(), '"');
    let s1 = split_step(split_start(), '"');
    lemma_run_over_backslashed(s1, word);
    assert(s1.current + word =~= word);
    lemma_run_one(split_run(s1, backslashed(word)), '"');
}

proof fn lemma_run_over_backslashed(s: SplitState, word: Seq<char>)
    requires
        !s.in_single,
        !s.escape,
    ensures
        split_run(s, backslashed(word)) == (SplitState { current: s.current + word, ..s }),
    decreases word.len(),
{
    if word.len() == 0 {
        assert(s.current + word =~= s.current);
    } else {
        let front = word.drop_last();
        lemma_run_over_backslashed(s, front);
        let behind = split_run(s, backslashed(front));
        lemma_run_in_two(s, backslashed(front), seq!['\\', word.last()]);
        let pair = seq!['\\', word.last()];
        assert(pair =~= seq!['\\'] + seq![word.last()]);
        lemma_run_in_two(behind, seq!['\\'], seq![word.last()]);
        lemma_run_one(behind, '\\');
        lemma_run_one(split_step(behind, '\\'), word.last());
        assert((s.current + front).push(word.last()) =~= s.current + word);
    }
}

/// Spaces and tabs, however many, separate words and belong to none.
pub proof fn white_space_separates_words(a: Seq<char>, gap: Seq<char>, b: Seq<char>)
    requires
        a.len() > 0,
        b.len() > 0,
        gap.len() > 0,
        forall|i: int| 0 <= i < a.len() ==> plain(#[trigger] a[i]),
        forall|i: int| 0 <= i < b.len() ==> plain(#[trigger] b[i]),
        forall|i: int| 0 <= i < gap.len() ==> #[trigger] gap[i] == ' ' || gap[i] == '\t',
    ensures
        shell_words(a + gap + b) == seq![a, b],
        shell_words(gap + a + gap) == seq![a],
{
    lemma_run_over_plain(split_start(), a);
    let s1 = split_run(split_start(), a);
    assert(s1.current =~= a);
    lemma_run_over_gap(s1, gap);
    lemma_run_in_two(split_start(), a + gap, b);
    lemma_run_in_two(split_start(), a, gap);
    let s2 = split_run(s1, gap);
    lemma_run_over_plain(s2, b);
    assert(s2.current + b =~= b);
    assert(seq![a].push(b) =~= seq![a, b]);
    assert(s1.args.push(a) =~= seq![a]);
    lemma_run_over_gap(split_start(), gap);
    assert(split_run(split_start(), gap) == split_start());
    lemma_run_in_two(split_start(), gap + a, gap);
    lemma_run_in_two(split_start(), gap, a);
}

proof fn lemma_run_over_gap(s: SplitState, gap: Seq<char>)
    requires
        !s.escape,
        !s.in_single,
        !s.in_double,
        gap.len() > 0,
        forall|i: int| 0 <= i < gap.len() ==> #[trigger] gap[i] == ' ' || gap[i] == '\t',
    ensures
        split_run(s, gap) == (if s.current.len() > 0 {
            SplitState { args: s.args.push(s.current), current: seq![], ..s }
        } else {
            s
        }),
    decreases gap.len(),
{
    let front = gap.drop_last();
    assert(gap[gap.len() - 1] == ' ' || gap[gap.len() - 1] == '\t');
    if front.len() == 0 {
        assert(gap =~= seq![gap.last()]);
        lemma_run_one(s, gap.last());
    } else {
        assert forall|i: int| 0 <= i < front.len() implies #[trigger] front[i] == ' ' || front[i]
            == '\t' by {
            assert(gap[i] == ' ' || gap[i] == '\t');
        }
        lemma_run_over_gap(s, front);
    }
}

/// Splits a command line into its words: single and double quotes and
/// backslashes are understood, variables and patterns are not expanded.
pub fn shell_split(s: &str) -> (r: Vec<String>)
    ensures
        strings(r@) == shell_words(s@),
{
    let v = chars_of(s);
    let n: usize = v.len();
    let mut args: Vec<String> = Vec::new();
    let mut current = String::new();
    let mut in_single = false;
    let mut in_double = false;
    let mut escape = false;
    let mut i: usize = 0;
    assert(strings(args@) =~= seq![]);
    while i < n
        invariant
            i <= n,
            n == v@.len(),
            v@ == s@,
            split_run(split_start(), s@.take(i as int)) == (SplitState {
                args: strings(args@),
                current: current@,
                in_single,
                in_double,
                escape,
            }),
        decreases n - i,
    {
        assert(s@.take(i + 1).drop_last() =~= s@.take(i as int));
        assert(s@.take(i + 1).last() == s@[i as int]);
        let c = v[i];
        if escape {
            current.push(c);
            escape = false;
        } else if c == '\\' && !in_single {
            escape = true;
        } else if c == '\'' && !in_double {
            in_single = !in_single;
        } else if c == '"' && !in_single {
            in_double = !in_double;
        } else if (c == ' ' || c == '\t') && !in_single && !in_double {
            if !current.as_str().is_empty() {
                let ghost before = args@;
                let ghost word = current@;
                args.push(current);
                current = String::new();
                assert(strings(args@) =~= strings(before).push(word));
            }
        } else {
            current.push(c);
        }
        i += 1;
    }
    assert(s@.take(n as int) =~= s@);
    if !current.as_str().is_empty() {
        let ghost before = args@;
        let ghost word = current@;
        args.push(current);
        assert(strings(args@) =~= strings(before).push(word));
    }
    args
}

// ---------------------------------------------------------------------------
// Names that can be run.
// ---------------------------------------------------------------------------

/// A character that the name of a command may hold.
pub open spec fn command_char(c: char) -> bool {
    alphanumeric(c) || c == '-' || c == '_' || c == '.'
}

/// A text that may be the name of a command: letters, digits, and a few marks.
pub open spec fn command_name(s: Seq<char>) -> bool {
    s.len() > 0 && forall|i: int| 0 <= i < s.len() ==> command_char(#[trigger] s[i])
}

/// Of ASCII, exactly letters, digits, `-`, `_` and `.` may stand in the name of a
/// command, so no path and nothing with white space is one; every part of a name
/// may be a name.
pub proof fn names_of_commands_hold_no_more(a: Seq<char>, c: char, b: Seq<char>)
    ensures
        c as int <= 0x7f ==> (command_name(seq![c]) <==> ('a' <= c <= 'z') || ('A' <= c <= 'Z') || (
        '0' <= c <= '9') || c == '-' || c == '_' || c == '.'),
        command_name(a + seq![c] + b) ==> command_name(seq![c]),
        command_name(a) && command_name(b) ==> command_name(a + b),
        !command_name(seq![]),
{
    assert(seq![c][0] == c);
    if command_name(a + seq![c] + b) {
        assert((a + seq![c] + b)[a.len() as int] == c);
        assert(command_char((a + seq![c] + b)[a.len() as int]));
    }
    if command_name(a) && command_name(b) {
        assert forall|i: int| 0 <= i < (a + b).len() implies command_char(#[trigger] (a + b)[i]) by {
            if i < a.len() {
                assert(command_char(a[i]));
            } else {
                assert(command_char(b[i - a.len()]));
            }
        }
    }
}

/// Whether a text may be the name of a command.
pub fn looks_like_command(s: &str) -> (r: bool)
    ensures
        r == command_name(s@),
{
    let v = chars_of(s);
    let n: usize = v.len();
    let mut i: usize = 0;
    while i < n
        invariant
            i <= n,
            n == v@.len(),
            v@ == s@,
            forall|j: int| 0 <= j < i ==> command_char(#[trigger] s@[j]),
        decreases n - i,
    {
        let c = v[i];
        if !(is_alphanumeric(c) || c == '-' || c == '_' || c == '.') {
            assert(!command_char(s@[i as int]));
            return false;
        }
        i += 1;
    }
    n > 0
}

} // verus!
