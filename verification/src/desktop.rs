//! Desktop files: what they say, which application a query means, and which
//! applications are installed.

use vstd::prelude::*;
use vstd::utf8::{
    decode_utf8, encode_utf8, encode_utf8_decode_utf8, encode_utf8_first_scalar,
    encode_utf8_valid_utf8, valid_utf8,
};

use crate::bytes::{bytes_of, from_utf8, from_utf8_lossy, push_bytes, same_bytes, utf8_text};
use crate::order::{order_is_strict, order_is_total, order_is_transitive, precedes, text_precedes};
use crate::paths::path_in;
use crate::scan::{
    affixes_come_off, after_prefix, before_suffix, contains, has_prefix, has_suffix, has_text,
    lines, lines_of, slices, starts_with, strip_prefix, strip_suffix, text_is_found_anywhere, trim,
    trimmed,
};
use crate::session::optional_text;
use crate::text::{lowered, same_text, to_ascii_lowercase};

verus! {

// ---------------------------------------------------------------------------
// What a desktop file says.
// ---------------------------------------------------------------------------

/// What a desktop file says of its application.
#[derive(Debug)]
pub struct DesktopInfo {
    pub name: Option<String>,
    pub command_line: Option<String>,
    pub app_type: Option<String>,
    pub has_exec: bool,
    pub no_display: bool,
    pub comment: Option<String>,
}

/// That, as a mathematical value.
pub struct DesktopText {
    pub name: Option<Seq<char>>,
    pub command_line: Option<Seq<char>>,
    pub app_type: Option<Seq<char>>,
    pub has_exec: bool,
    pub no_display: bool,
    pub comment: Option<Seq<char>>,
}

impl View for DesktopInfo {
    type V = DesktopText;

    open spec fn view(&self) -> DesktopText {
        DesktopText {
            name: optional_text(self.name),
            command_line: optional_text(self.command_line),
            app_type: optional_text(self.app_type),
            has_exec: self.has_exec,
            no_display: self.no_display,
            comment: optional_text(self.comment),
        }
    }
}

/// The lines end within a desktop entry: the last line that opens a section
/// opens that one.
pub open spec fn in_entry(ls: Seq<Seq<char>>) -> bool
    decreases ls.len(),
{
    if ls.len() == 0 {
        false
    } else if has_prefix(trimmed(ls.last()), "["@) {
        trimmed(ls.last()) == "[Desktop Entry]"@
    } else {
        in_entry(ls.drop_last())
    }
}

/// A line that says something.
pub open spec fn telling(line: Seq<char>) -> bool {
    !has_prefix(line, "["@) && !has_prefix(line, "#"@) && line.len() > 0
}

/// The lines of the desktop entry that say something, without the white space
/// around them.
pub open spec fn entry_lines(ls: Seq<Seq<char>>) -> Seq<Seq<char>>
    decreases ls.len(),
{
    if ls.len() == 0 {
        seq![]
    } else if in_entry(ls.drop_last()) && telling(trimmed(ls.last())) {
        entry_lines(ls.drop_last()).push(trimmed(ls.last()))
    } else {
        entry_lines(ls.drop_last())
    }
}

/// What follows `key` in the first line that starts with it.
pub open spec fn first_value(ls: Seq<Seq<char>>, key: Seq<char>) -> Option<Seq<char>>
    decreases ls.len(),
{
    if ls.len() == 0 {
        None
    } else if first_value(ls.drop_last(), key) is Some {
        first_value(ls.drop_last(), key)
    } else {
        after_prefix(ls.last(), key)
    }
}

/// What follows `key` in the last line that starts with it.
pub open spec fn last_value(ls: Seq<Seq<char>>, key: Seq<char>) -> Option<Seq<char>>
    decreases ls.len(),
{
    if ls.len() == 0 {
        None
    } else if after_prefix(ls.last(), key) is Some {
        after_prefix(ls.last(), key)
    } else {
        last_value(ls.drop_last(), key)
    }
}

/// What the lines of a desktop entry say.
pub open spec fn told(ls: Seq<Seq<char>>) -> DesktopText {
    DesktopText {
        name: first_value(ls, "Name="@),
        command_line: last_value(ls, "Exec="@),
        app_type: last_value(ls, "Type="@),
        has_exec: last_value(ls, "Exec="@) is Some,
        no_display: ls.contains("NoDisplay=true"@) || ls.contains("Hidden=true"@),
        comment: first_value(ls, "Comment="@),
    }
}

/// What a desktop file with the given content says.
pub open spec fn desktop_text(content: Seq<char>) -> DesktopText {
    told(entry_lines(lines_of(content)))
}

/// What is said once a line has been added.
proof fn lemma_told_push(ls: Seq<Seq<char>>, line: Seq<char>)
    ensures
        told(ls.push(line)) == (DesktopText {
            name: if told(ls).name is Some {
                told(ls).name
            } else {
                after_prefix(line, "Name="@)
            },
            command_line: if has_prefix(line, "Exec="@) {
                after_prefix(line, "Exec="@)
            } else {
                told(ls).command_line
            },
            app_type: if has_prefix(line, "Type="@) {
                after_prefix(line, "Type="@)
            } else {
                told(ls).app_type
            },
            has_exec: told(ls).has_exec || has_prefix(line, "Exec="@),
            no_display: told(ls).no_display || line == "NoDisplay=true"@ || line
                == "Hidden=true"@,
            comment: if told(ls).comment is Some {
                told(ls).comment
            } else {
                after_prefix(line, "Comment="@)
            },
        }),
{
    let all = ls.push(line);
    assert(all.drop_last() =~= ls);
    assert forall|t: Seq<char>| all.contains(t) <==> ls.contains(t) || line == t by {
        if ls.contains(t) {
            let i = choose|i: int| 0 <= i < ls.len() && ls[i] == t;
            assert(all[i] == t);
        }
        if line == t {
            assert(all[ls.len() as int] == t);
        }
    }
}

/// The line at index `i` belongs to the desktop entry and says something: the
/// last section that was opened before it is the desktop entry, and it neither
/// opens a section, nor is a comment, nor empty.
pub open spec fn entry_line(ls: Seq<Seq<char>>, i: int) -> bool {
    &&& 0 <= i < ls.len()
    &&& exists|s: int|
        #![trigger trimmed(ls[s])]
        0 <= s < i && trimmed(ls[s]) == "[Desktop Entry]"@ && forall|k: int|
            s < k < i ==> !has_prefix(trimmed(#[trigger] ls[k]), "["@)
    &&& trimmed(ls[i]).len() > 0
    &&& !has_prefix(trimmed(ls[i]), "["@)
    &&& !has_prefix(trimmed(ls[i]), "#"@)
}

proof fn lemma_in_entry(ls: Seq<Seq<char>>)
    ensures
        in_entry(ls) <==> exists|s: int|
            #![trigger trimmed(ls[s])]
            0 <= s < ls.len() && trimmed(ls[s]) == "[Desktop Entry]"@ && forall|k: int|
                s < k < ls.len() ==> !has_prefix(trimmed(#[trigger] ls[k]), "["@),
    decreases ls.len(),
{
    reveal_strlit("[");
    reveal_strlit("[Desktop Entry]");
    assert("[Desktop Entry]"@.subrange(0, 1) =~= "["@);
    if ls.len() > 0 {
        let front = ls.drop_last();
        let n = ls.len() - 1;
        lemma_in_entry(front);
        assert(ls.last() == ls[n]);
        if has_prefix(trimmed(ls[n]), "["@) {
            if trimmed(ls[n]) == "[Desktop Entry]"@ {
                assert(0 <= n < ls.len());
            }
        } else {
            if in_entry(front) {
                let s = choose|s: int|
                    #![trigger trimmed(front[s])]
                    0 <= s < front.len() && trimmed(front[s]) == "[Desktop Entry]"@ && forall|
                        k: int,
                    |
                        s < k < front.len() ==> !has_prefix(trimmed(#[trigger] front[k]), "["@);
                assert(trimmed(ls[s]) == "[Desktop Entry]"@);
                assert forall|k: int| s < k < ls.len() implies !has_prefix(
                    trimmed(#[trigger] ls[k]),
                    "["@,
                ) by {
                    if k < n {
                        assert(front[k] == ls[k]);
                    }
                }
            }
            if exists|s: int|
                #![trigger trimmed(ls[s])]
                0 <= s < ls.len() && trimmed(ls[s]) == "[Desktop Entry]"@ && forall|k: int|
                    s < k < ls.len() ==> !has_prefix(trimmed(#[trigger] ls[k]), "["@) {
                let s = choose|s: int|
                    #![trigger trimmed(ls[s])]
                    0 <= s < ls.len() && trimmed(ls[s]) == "[Desktop Entry]"@ && forall|k: int|
                        s < k < ls.len() ==> !has_prefix(trimmed(#[trigger] ls[k]), "["@);
                assert(s < n);
                assert(trimmed(front[s]) == "[Desktop Entry]"@);
                assert forall|k: int| s < k < front.len() implies !has_prefix(
                    trimmed(#[trigger] front[k]),
                    "["@,
                ) by {
                    assert(front[k] == ls[k]);
                }
            }
        }
    }
}

proof fn lemma_entry_line_of_front(ls: Seq<Seq<char>>, i: int)
    requires
        0 <= i < ls.len() - 1,
    ensures
        entry_line(ls, i) <==> entry_line(ls.drop_last(), i),
{
    let front = ls.drop_last();
    assert(front[i] == ls[i]);
    if entry_line(ls, i) {
        let s = choose|s: int|
            #![trigger trimmed(ls[s])]
            0 <= s < i && trimmed(ls[s]) == "[Desktop Entry]"@ && forall|k: int|
                s < k < i ==> !has_prefix(trimmed(#[trigger] ls[k]), "["@);
        assert(trimmed(front[s]) == "[Desktop Entry]"@);
        assert forall|k: int| s < k < i implies !has_prefix(trimmed(#[trigger] front[k]), "["@) by {
            assert(front[k] == ls[k]);
        }
    }
    if entry_line(front, i) {
        let s = choose|s: int|
            #![trigger trimmed(front[s])]
            0 <= s < i && trimmed(front[s]) == "[Desktop Entry]"@ && forall|k: int|
                s < k < i ==> !has_prefix(trimmed(#[trigger] front[k]), "["@);
        assert(trimmed(ls[s]) == "[Desktop Entry]"@);
        assert forall|k: int| s < k < i implies !has_prefix(trimmed(#[trigger] ls[k]), "["@) by {
            assert(front[k] == ls[k]);
        }
    }
}

proof fn lemma_last_entry_line(ls: Seq<Seq<char>>)
    requires
        ls.len() > 0,
    ensures
        entry_line(ls, ls.len() - 1) <==> in_entry(ls.drop_last()) && telling(trimmed(ls.last())),
{
    let front = ls.drop_last();
    let n = ls.len() - 1;
    lemma_in_entry(front);
    if in_entry(front) {
        let s = choose|s: int|
            #![trigger trimmed(front[s])]
            0 <= s < front.len() && trimmed(front[s]) == "[Desktop Entry]"@ && forall|k: int|
                s < k < front.len() ==> !has_prefix(trimmed(#[trigger] front[k]), "["@);
        assert(trimmed(ls[s]) == "[Desktop Entry]"@);
        assert forall|k: int| s < k < n implies !has_prefix(trimmed(#[trigger] ls[k]), "["@) by {
            assert(front[k] == ls[k]);
        }
    }
    if entry_line(ls, n) {
        let s = choose|s: int|
            #![trigger trimmed(ls[s])]
            0 <= s < n && trimmed(ls[s]) == "[Desktop Entry]"@ && forall|k: int|
                s < k < n ==> !has_prefix(trimmed(#[trigger] ls[k]), "["@);
        assert(trimmed(front[s]) == "[Desktop Entry]"@);
        assert forall|k: int| s < k < front.len() implies !has_prefix(
            trimmed(#[trigger] front[k]),
            "["@,
        ) by {
            assert(front[k] == ls[k]);
        }
    }
}

/// No line of the entry starts with `key`.
pub open spec fn key_is_missing(ls: Seq<Seq<char>>, key: Seq<char>) -> bool {
    forall|j: int| #[trigger] entry_line(ls, j) ==> !has_prefix(trimmed(ls[j]), key)
}

proof fn lemma_key_is_missing(ls: Seq<Seq<char>>, key: Seq<char>)
    requires
        key_is_missing(ls, key),
    ensures
        first_value(entry_lines(ls), key) is None,
        last_value(entry_lines(ls), key) is None,
    decreases ls.len(),
{
    if ls.len() > 0 {
        let front = ls.drop_last();
        lemma_missing_in_front(ls, key);
        lemma_key_is_missing(front, key);
        lemma_last_entry_line(ls);
        if in_entry(front) && telling(trimmed(ls.last())) {
            let all = entry_lines(front).push(trimmed(ls.last()));
            assert(all.drop_last() =~= entry_lines(front));
            assert(entry_line(ls, ls.len() - 1));
        }
    }
}

proof fn lemma_missing_in_front(ls: Seq<Seq<char>>, key: Seq<char>)
    requires
        ls.len() > 0,
        key_is_missing(ls, key),
    ensures
        key_is_missing(ls.drop_last(), key),
{
    let front = ls.drop_last();
    assert forall|j: int| #[trigger] entry_line(front, j) implies !has_prefix(
        trimmed(front[j]),
        key,
    ) by {
        lemma_entry_line_of_front(ls, j);
        assert(entry_line(ls, j));
    }
}

proof fn lemma_first_value_in_entry(ls: Seq<Seq<char>>, key: Seq<char>, i: int)
    requires
        entry_line(ls, i),
        has_prefix(trimmed(ls[i]), key),
        forall|j: int| j < i && #[trigger] entry_line(ls, j) ==> !has_prefix(trimmed(ls[j]), key),
    ensures
        first_value(entry_lines(ls), key) == after_prefix(trimmed(ls[i]), key),
    decreases ls.len(),
{
    let front = ls.drop_last();
    lemma_last_entry_line(ls);
    let all = entry_lines(front).push(trimmed(ls.last()));
    assert(all.drop_last() =~= entry_lines(front));
    if i == ls.len() - 1 {
        assert forall|j: int| #[trigger] entry_line(front, j) implies !has_prefix(
            trimmed(front[j]),
            key,
        ) by {
            lemma_entry_line_of_front(ls, j);
            assert(entry_line(ls, j));
        }
        lemma_key_is_missing(front, key);
    } else {
        lemma_entry_line_of_front(ls, i);
        assert forall|j: int| j < i && #[trigger] entry_line(front, j) implies !has_prefix(
            trimmed(front[j]),
            key,
        ) by {
            lemma_entry_line_of_front(ls, j);
            assert(entry_line(ls, j));
        }
        lemma_first_value_in_entry(front, key, i);
    }
}

proof fn lemma_last_value_in_entry(ls: Seq<Seq<char>>, key: Seq<char>, i: int)
    requires
        entry_line(ls, i),
        has_prefix(trimmed(ls[i]), key),
        forall|j: int| i < j && #[trigger] entry_line(ls, j) ==> !has_prefix(trimmed(ls[j]), key),
    ensures
        last_value(entry_lines(ls), key) == after_prefix(trimmed(ls[i]), key),
    decreases ls.len(),
{
    let front = ls.drop_last();
    lemma_last_entry_line(ls);
    let all = entry_lines(front).push(trimmed(ls.last()));
    assert(all.drop_last() =~= entry_lines(front));
    if i < ls.len() - 1 {
        lemma_entry_line_of_front(ls, i);
        assert forall|j: int| i < j && #[trigger] entry_line(front, j) implies !has_prefix(
            trimmed(front[j]),
            key,
        ) by {
            lemma_entry_line_of_front(ls, j);
            assert(entry_line(ls, j));
        }
        lemma_last_value_in_entry(front, key, i);
        if entry_line(ls, ls.len() - 1) {
            assert(!has_prefix(trimmed(ls[ls.len() - 1]), key));
        }
    }
}

proof fn lemma_entry_contains(ls: Seq<Seq<char>>, t: Seq<char>)
    ensures
        entry_lines(ls).contains(t) <==> exists|i: int|
            #[trigger] entry_line(ls, i) && trimmed(ls[i]) == t,
    decreases ls.len(),
{
    if ls.len() > 0 {
        let front = ls.drop_last();
        let n = ls.len() - 1;
        lemma_entry_contains(front, t);
        lemma_last_entry_line(ls);
        let before = entry_lines(front);
        let all = entry_lines(ls);
        if before.contains(t) {
            let k = choose|k: int| 0 <= k < before.len() && before[k] == t;
            assert(all[k] == t);
        }
        if entry_line(ls, n) && trimmed(ls[n]) == t {
            assert(all[before.len() as int] == t);
        }
        if all.contains(t) {
            let k = choose|k: int| 0 <= k < all.len() && all[k] == t;
            if k < before.len() {
                assert(before[k] == t);
                let i = choose|i: int| #[trigger] entry_line(front, i) && trimmed(front[i]) == t;
                lemma_entry_line_of_front(ls, i);
                assert(entry_line(ls, i) && trimmed(ls[i]) == t);
            } else {
                assert(entry_line(ls, n) && trimmed(ls[n]) == t);
            }
        }
        if exists|i: int| #[trigger] entry_line(ls, i) && trimmed(ls[i]) == t {
            let i = choose|i: int| #[trigger] entry_line(ls, i) && trimmed(ls[i]) == t;
            if i < n {
                lemma_entry_line_of_front(ls, i);
                assert(entry_line(front, i) && trimmed(front[i]) == t);
            }
        }
    }
}

/// Of the lines of the desktop entry the first with a name tells the name, and
/// the first with a comment the comment; without such a line there is none.
/// Lines of other sections tell nothing.
pub proof fn first_name_and_comment_count(content: Seq<char>, i: int, v: Seq<char>)
    ensures
        ({
            let ls = lines_of(content);
            &&& entry_line(ls, i) && trimmed(ls[i]) == "Name="@ + v && (forall|j: int|
                j < i && #[trigger] entry_line(ls, j) ==> !has_prefix(trimmed(ls[j]), "Name="@))
                ==> desktop_text(content).name == Some(v)
            &&& key_is_missing(ls, "Name="@) ==> desktop_text(content).name is None
            &&& entry_line(ls, i) && trimmed(ls[i]) == "Comment="@ + v && (forall|j: int|
                j < i && #[trigger] entry_line(ls, j) ==> !has_prefix(
                    trimmed(ls[j]),
                    "Comment="@,
                )) ==> desktop_text(content).comment == Some(v)
            &&& key_is_missing(ls, "Comment="@) ==> desktop_text(content).comment is None
        }),
{
    let ls = lines_of(content);
    affixes_come_off("Name="@, v);
    affixes_come_off("Comment="@, v);
    if entry_line(ls, i) && trimmed(ls[i]) == "Name="@ + v && (forall|j: int|
        j < i && #[trigger] entry_line(ls, j) ==> !has_prefix(trimmed(ls[j]), "Name="@)) {
        lemma_first_value_in_entry(ls, "Name="@, i);
    }
    if entry_line(ls, i) && trimmed(ls[i]) == "Comment="@ + v && (forall|j: int|
        j < i && #[trigger] entry_line(ls, j) ==> !has_prefix(trimmed(ls[j]), "Comment="@)) {
        lemma_first_value_in_entry(ls, "Comment="@, i);
    }
    if key_is_missing(ls, "Name="@) {
        lemma_key_is_missing(ls, "Name="@);
    }
    if key_is_missing(ls, "Comment="@) {
        lemma_key_is_missing(ls, "Comment="@);
    }
}

/// Of the lines of the desktop entry the last with a command line tells it, and
/// the last with a type the type; without such a line there is none.
pub proof fn last_command_line_and_type_count(content: Seq<char>, i: int, v: Seq<char>)
    ensures
        ({
            let ls = lines_of(content);
            &&& entry_line(ls, i) && trimmed(ls[i]) == "Exec="@ + v && (forall|j: int|
                i < j && #[trigger] entry_line(ls, j) ==> !has_prefix(trimmed(ls[j]), "Exec="@))
                ==> desktop_text(content).command_line == Some(v) && desktop_text(content).has_exec
            &&& key_is_missing(ls, "Exec="@) ==> desktop_text(content).command_line is None
                && !desktop_text(content).has_exec
            &&& entry_line(ls, i) && trimmed(ls[i]) == "Type="@ + v && (forall|j: int|
                i < j && #[trigger] entry_line(ls, j) ==> !has_prefix(trimmed(ls[j]), "Type="@))
                ==> desktop_text(content).app_type == Some(v)
            &&& key_is_missing(ls, "Type="@) ==> desktop_text(content).app_type is None
        }),
{
    let ls = lines_of(content);
    affixes_come_off("Exec="@, v);
    affixes_come_off("Type="@, v);
    if entry_line(ls, i) && trimmed(ls[i]) == "Exec="@ + v && (forall|j: int|
        i < j && #[trigger] entry_line(ls, j) ==> !has_prefix(trimmed(ls[j]), "Exec="@)) {
        lemma_last_value_in_entry(ls, "Exec="@, i);
    }
    if entry_line(ls, i) && trimmed(ls[i]) == "Type="@ + v && (forall|j: int|
        i < j && #[trigger] entry_line(ls, j) ==> !has_prefix(trimmed(ls[j]), "Type="@)) {
        lemma_last_value_in_entry(ls, "Type="@, i);
    }
    if key_is_missing(ls, "Exec="@) {
        lemma_key_is_missing(ls, "Exec="@);
    }
    if key_is_missing(ls, "Type="@) {
        lemma_key_is_missing(ls, "Type="@);
    }
}

/// An application is hidden exactly where a line of the desktop entry says so,
/// in one of two ways.
pub proof fn hidden_where_a_line_says_so(content: Seq<char>)
    ensures
        desktop_text(content).no_display <==> exists|i: int|
            #[trigger] entry_line(lines_of(content), i) && (trimmed(lines_of(content)[i])
                == "NoDisplay=true"@ || trimmed(lines_of(content)[i]) == "Hidden=true"@),
{
    let ls = lines_of(content);
    lemma_entry_contains(ls, "NoDisplay=true"@);
    lemma_entry_contains(ls, "Hidden=true"@);
    if entry_lines(ls).contains("NoDisplay=true"@) {
        let i = choose|i: int|
            #[trigger] entry_line(ls, i) && trimmed(ls[i]) == "NoDisplay=true"@;
        assert(entry_line(ls, i));
    }
    if entry_lines(ls).contains("Hidden=true"@) {
        let i = choose|i: int| #[trigger] entry_line(ls, i) && trimmed(ls[i]) == "Hidden=true"@;
        assert(entry_line(ls, i));
    }
}

/// Reads a desktop file.
pub fn parse_desktop_info(content: &str) -> (r: DesktopInfo)
    ensures
        r@ == desktop_text(content@),
{
    let all = lines(content);
    let n: usize = all.len();
    let mut in_section = false;
    let mut info = DesktopInfo {
        name: None,
        command_line: None,
        app_type: None,
        has_exec: false,
        no_display: false,
        comment: None,
    };
    let mut i: usize = 0;
    assert(info@ == told(entry_lines(slices(all@).take(0))));
    while i < n
        invariant
            i <= n,
            n == all@.len(),
            slices(all@) == lines_of(content@),
            in_section == in_entry(slices(all@).take(i as int)),
            info@ == told(entry_lines(slices(all@).take(i as int))),
        decreases n - i,
    {
        let ghost behind = slices(all@).take(i as int);
        let ghost next = slices(all@).take(i + 1);
        assert(next.drop_last() =~= behind);
        assert(next.last() == all@[i as int]@);
        let line = trim(all[i]);
        if starts_with(line, "[") {
            in_section = same_text(line, "[Desktop Entry]");
        } else if in_section && !starts_with(line, "#") && !line.is_empty() {
            proof {
                lemma_told_push(entry_lines(behind), line@);
            }
            if info.name.is_none() {
                if let Some(value) = strip_prefix(line, "Name=") {
                    info.name = Some(value.to_owned());
                }
            }
            if info.comment.is_none() {
                if let Some(value) = strip_prefix(line, "Comment=") {
                    info.comment = Some(value.to_owned());
                }
            }
            if let Some(value) = strip_prefix(line, "Exec=") {
                info.command_line = Some(value.to_owned());
                info.has_exec = true;
            }
            if let Some(value) = strip_prefix(line, "Type=") {
                info.app_type = Some(value.to_owned());
            }
            if same_text(line, "NoDisplay=true") || same_text(line, "Hidden=true") {
                info.no_display = true;
            }
        }
        i += 1;
    }
    assert(slices(all@).take(n as int) =~= slices(all@));
    info
}

// ---------------------------------------------------------------------------
// Files and the applications behind them.
// ---------------------------------------------------------------------------

/// A file in one of the searched directories.
#[derive(Debug)]
pub struct DesktopFile {
    pub dir: Vec<u8>,
    pub file_name: Vec<u8>,
    /// What the file holds; none where it cannot be read as text.
    pub content: Option<String>,
}

/// The path of a file.
pub open spec fn file_path(file: DesktopFile) -> Seq<u8> {
    path_in(file.dir@, file.file_name@)
}

/// The name of a desktop file without its extension. What only consists of the
/// extension is no desktop file.
pub open spec fn desktop_stem(file_name: Seq<u8>) -> Option<Seq<u8>> {
    let extension = encode_utf8(".desktop"@);
    if file_name.len() > extension.len() && has_suffix(file_name, extension) {
        Some(file_name.take(file_name.len() - extension.len()))
    } else {
        None
    }
}

/// An application as a mathematical value.
pub struct AppText {
    pub stem: Seq<char>,
    pub name: Seq<char>,
    pub comment: Option<Seq<char>>,
}

/// An application that is shown to the user.
pub open spec fn shown(info: DesktopText) -> bool {
    info.has_exec && info.app_type == Some("Application"@) && !info.no_display
}

/// The application of a file. A file that is no desktop file, that cannot be
/// read, or whose application is not shown, has none.
pub open spec fn app_of(file: DesktopFile) -> Option<AppText> {
    match (desktop_stem(file.file_name@), file.content) {
        (Some(stem), Some(content)) => {
            let info = desktop_text(content@);
            if valid_utf8(stem) && shown(info) {
                Some(
                    AppText {
                        stem: decode_utf8(stem),
                        name: match info.name {
                            Some(name) => name,
                            None => decode_utf8(stem),
                        },
                        comment: info.comment,
                    },
                )
            } else {
                None
            }
        },
        _ => None,
    }
}

/// The path of a file.
pub fn path_of(file: &DesktopFile) -> (r: Vec<u8>)
    ensures
        r@ == file_path(*file),
{
    let n: usize = file.dir.len();
    let mut out = bytes_of(file.dir.as_slice());
    if n > 0 && file.dir[n - 1] != 0x2f {
        out.push(0x2f);
    }
    push_bytes(&mut out, file.file_name.as_slice());
    assert(out@ =~= file_path(*file));
    out
}

/// Whether a file is worth reading: it has the extension of desktop files.
pub fn is_desktop_file(file_name: &[u8]) -> (r: bool)
    ensures
        r == (desktop_stem(file_name@) is Some),
{
    stem_of(file_name).is_some()
}

fn stem_of(file_name: &[u8]) -> (r: Option<Vec<u8>>)
    ensures
        r is Some <==> desktop_stem(file_name@) is Some,
        r is Some ==> Some(r->0@) == desktop_stem(file_name@),
{
    let extension = ".desktop".as_bytes();
    let n: usize = file_name.len();
    let m: usize = extension.len();
    if n <= m {
        return None;
    }
    let tail = &file_name[n - m..n];
    assert(tail@ =~= file_name@.subrange(n - m, n as int));
    if same_bytes(tail, extension) {
        let stem = bytes_of(&file_name[0..n - m]);
        assert(stem@ =~= file_name@.take(n - m));
        Some(stem)
    } else {
        None
    }
}

/// An application that was found.
#[derive(Debug)]
pub struct FoundApp {
    pub stem: String,
    pub name: String,
    pub comment: Option<String>,
    pub path: Vec<u8>,
}

impl View for FoundApp {
    type V = AppText;

    open spec fn view(&self) -> AppText {
        AppText { stem: self.stem@, name: self.name@, comment: optional_text(self.comment) }
    }
}

/// The application of a file.
pub fn read_app(file: &DesktopFile) -> (r: Option<FoundApp>)
    ensures
        r is Some <==> app_of(*file) is Some,
        r is Some ==> Some(r->0@) == app_of(*file) && r->0.path@ == file_path(*file),
{
    let stem_bytes = match stem_of(file.file_name.as_slice()) {
        Some(stem) => stem,
        None => {
            return None;
        },
    };
    let stem = match from_utf8(stem_bytes.as_slice()) {
        Some(stem) => stem,
        None => {
            return None;
        },
    };
    let content = match &file.content {
        Some(content) => content,
        None => {
            return None;
        },
    };
    let info = parse_desktop_info(content.as_str());
    let application = match &info.app_type {
        Some(kind) => same_text(kind.as_str(), "Application"),
        None => false,
    };
    if !(info.has_exec && application && !info.no_display) {
        return None;
    }
    let DesktopInfo { name, command_line, app_type, has_exec, no_display, comment } = info;
    let name = match name {
        Some(name) => name,
        None => stem.clone(),
    };
    Some(FoundApp { stem, name, comment, path: path_of(file) })
}

// ---------------------------------------------------------------------------
// Finding an application.
// ---------------------------------------------------------------------------

/// A query without the extension that it may have.
pub open spec fn query_stem(query: Seq<char>) -> Seq<char> {
    match before_suffix(query, ".desktop"@) {
        Some(stem) => stem,
        None => query,
    }
}

/// How well an application answers a query, the best first: by its exact stem,
/// by its exact name, by a part of its name, by a part of its stem. Capital and
/// small letters are the same.
pub open spec fn priority(query: Seq<char>, app: AppText) -> Option<int> {
    if lowered(app.stem) == lowered(query_stem(query)) {
        Some(0int)
    } else if lowered(app.name) == lowered(query) {
        Some(1int)
    } else if has_text(lowered(app.name), lowered(query)) {
        Some(2int)
    } else if has_text(lowered(app.stem), lowered(query_stem(query))) {
        Some(3int)
    } else {
        None
    }
}

/// How well the application of a file answers a query.
pub open spec fn file_priority(query: Seq<char>, file: DesktopFile) -> Option<int> {
    match app_of(file) {
        Some(app) => priority(query, app),
        None => None,
    }
}

/// The file at index `i` answers a query best: no other answers it better, and
/// none before it as well.
pub open spec fn answers_best(query: Seq<char>, files: Seq<DesktopFile>, i: int) -> bool {
    &&& 0 <= i < files.len()
    &&& file_priority(query, files[i]) is Some
    &&& forall|j: int|
        #![trigger files[j]]
        0 <= j < files.len() && file_priority(query, files[j]) is Some ==> file_priority(
            query,
            files[i],
        )->0 <= file_priority(query, files[j])->0 && (j < i ==> file_priority(query, files[i])->0
            < file_priority(query, files[j])->0)
}

/// At most one file answers a query best.
pub proof fn best_answer_is_unique(query: Seq<char>, files: Seq<DesktopFile>, i: int, j: int)
    requires
        answers_best(query, files, i),
        answers_best(query, files, j),
    ensures
        i == j,
{
    assert(file_priority(query, files[i]) is Some);
    assert(file_priority(query, files[j]) is Some);
}

/// A file whose stem is the query is found before every file whose stem is not.
pub proof fn exact_stem_wins(query: Seq<char>, files: Seq<DesktopFile>, i: int, j: int)
    requires
        answers_best(query, files, i),
        0 <= j < files.len(),
        app_of(files[j]) is Some,
        lowered(app_of(files[j])->0.stem) == lowered(query_stem(query)),
    ensures
        lowered(app_of(files[i])->0.stem) == lowered(query_stem(query)),
        i <= j,
{
    assert(file_priority(query, files[j]) == Some(0int));
}

/// A desktop file is a file with something before the extension `.desktop`, and
/// its stem is what stands there; it has an application exactly where the stem
/// is text, the file can be read, and its entry is a shown application with a
/// command line. The application is known by its stem and by its name, or where
/// it has none by the stem alone.
pub proof fn desktop_file_has_its_application(file: DesktopFile, stem: Seq<char>)
    requires
        stem.len() > 0,
        file.file_name@ == encode_utf8(stem) + encode_utf8(".desktop"@),
    ensures
        file.content is None ==> app_of(file) is None,
        file.content matches Some(content) ==> {
            let info = desktop_text(content@);
            &&& app_of(file) is Some <==> info.has_exec && info.app_type == Some("Application"@)
                && !info.no_display
            &&& app_of(file) is Some ==> app_of(file)->0.stem == stem
            &&& app_of(file) is Some && info.name is Some ==> Some(app_of(file)->0.name)
                == info.name
            &&& app_of(file) is Some && info.name is None ==> app_of(file)->0.name == stem
            &&& app_of(file) is Some ==> app_of(file)->0.comment == info.comment
        },
{
    let extension = encode_utf8(".desktop"@);
    let name = file.file_name@;
    let bytes = encode_utf8(stem);
    encode_utf8_valid_utf8(stem);
    encode_utf8_decode_utf8(stem);
    encode_utf8_first_scalar(stem);
    let n = name.len() as int;
    assert(bytes.len() > 0);
    assert(name.subrange(n - extension.len(), n) =~= extension);
    assert(name.take(n - extension.len()) =~= bytes);
}

/// A file whose name does not end in `.desktop`, or is no more than that, has no
/// application.
pub proof fn other_files_have_no_application(file: DesktopFile)
    ensures
        app_of(file) is Some ==> exists|stem: Seq<u8>|
            stem.len() > 0 && file.file_name@ == #[trigger] (stem + encode_utf8(".desktop"@)),
        file.file_name@ == encode_utf8(".desktop"@) ==> app_of(file) is None,
{
    if app_of(file) is Some {
        let extension = encode_utf8(".desktop"@);
        let name = file.file_name@;
        let n = name.len() - extension.len();
        assert(name.subrange(n, name.len() as int) =~= extension);
        assert(name =~= name.take(n) + extension);
    }
}

/// How well an application answers: the better the lower. An exact stem is best,
/// with or without the extension in the query; then an exact name; then a name
/// with the query somewhere in it; then a stem with it. Case does not matter,
/// and what has the query in neither does not answer.
pub proof fn answers_are_ranked(query: Seq<char>, app: AppText, a: Seq<char>, b: Seq<char>)
    ensures
        lowered(app.stem) == lowered(query_stem(query)) ==> priority(query, app) == Some(0int),
        lowered(app.name) == lowered(query) ==> priority(query, app) is Some && priority(
            query,
            app,
        )->0 <= 1,
        lowered(app.name) == a + lowered(query) + b ==> priority(query, app) is Some && priority(
            query,
            app,
        )->0 <= 2,
        lowered(app.stem) == a + lowered(query_stem(query)) + b ==> priority(query, app) is Some,
        priority(query, app) is Some ==> has_text(lowered(app.name), lowered(query)) || has_text(
            lowered(app.stem),
            lowered(query_stem(query)),
        ),
        priority(query, app) is Some && priority(query, app)->0 <= 2 ==> lowered(app.stem)
            == lowered(query_stem(query)) || has_text(lowered(app.name), lowered(query)),
        priority(query, app) is Some && priority(query, app)->0 <= 1 ==> lowered(app.stem)
            == lowered(query_stem(query)) || lowered(app.name) == lowered(query),
        priority(query, app) is Some && priority(query, app)->0 <= 0 ==> lowered(app.stem)
            == lowered(query_stem(query)),
        query_stem(query + ".desktop"@) == query,
{
    text_is_found_anywhere(lowered(app.name), a, lowered(query), b);
    text_is_found_anywhere(lowered(app.stem), a, lowered(query_stem(query)), b);
    text_is_found_anywhere(lowered(app.name), seq![], lowered(query), seq![]);
    text_is_found_anywhere(lowered(app.stem), seq![], lowered(query_stem(query)), seq![]);
    assert(seq![] + lowered(query) + seq![] =~= lowered(query));
    assert(seq![] + lowered(query_stem(query)) + seq![] =~= lowered(query_stem(query)));
    affixes_come_off(query, ".desktop"@);
}

proof fn lemma_best_exists(query: Seq<char>, files: Seq<DesktopFile>, i: int)
    requires
        0 <= i < files.len(),
        file_priority(query, files[i]) is Some,
    ensures
        exists|j: int| answers_best(query, files, j),
    decreases files.len(),
{
    let front = files.drop_last();
    let n = files.len() - 1;
    assert forall|k: int| 0 <= k < front.len() implies front[k] == files[k] by {}
    if exists|k: int| 0 <= k < n && file_priority(query, #[trigger] front[k]) is Some {
        let k = choose|k: int| 0 <= k < n && file_priority(query, #[trigger] front[k]) is Some;
        lemma_best_exists(query, front, k);
        let j = choose|j: int| answers_best(query, front, j);
        if file_priority(query, files[n]) is Some && file_priority(query, files[n])->0
            < file_priority(query, files[j])->0 {
            assert forall|m: int|
                #![trigger files[m]]
                0 <= m < files.len() && file_priority(query, files[m]) is Some implies file_priority(
                query,
                files[n],
            )->0 <= file_priority(query, files[m])->0 && (m < n ==> file_priority(
                query,
                files[n],
            )->0 < file_priority(query, files[m])->0) by {
                if m < n {
                    assert(front[m] == files[m]);
                }
            }
            assert(answers_best(query, files, n));
        } else {
            assert forall|m: int|
                #![trigger files[m]]
                0 <= m < files.len() && file_priority(query, files[m]) is Some implies file_priority(
                query,
                files[j],
            )->0 <= file_priority(query, files[m])->0 && (m < j ==> file_priority(
                query,
                files[j],
            )->0 < file_priority(query, files[m])->0) by {
                if m < n {
                    assert(front[m] == files[m]);
                }
            }
            assert(answers_best(query, files, j));
        }
    } else {
        assert forall|m: int| 0 <= m < n implies file_priority(query, #[trigger] files[m]) is None by {
            assert(front[m] == files[m]);
        }
        assert(i == n);
        assert(answers_best(query, files, n));
    }
}

proof fn lemma_no_answer_no_text(query: Seq<char>, files: Seq<DesktopFile>)
    requires
        forall|j: int|
            #![trigger files[j]]
            0 <= j < files.len() ==> file_priority(query, files[j]) is None,
    ensures
        forall|j: int|
            #![trigger files[j]]
            0 <= j < files.len() && app_of(files[j]) is Some ==> !has_text(
                lowered(app_of(files[j])->0.name),
                lowered(query),
            ) && !has_text(lowered(app_of(files[j])->0.stem), lowered(query_stem(query))),
{
    assert forall|j: int|
        #![trigger files[j]]
        0 <= j < files.len() && app_of(files[j]) is Some implies !has_text(
        lowered(app_of(files[j])->0.name),
        lowered(query),
    ) && !has_text(lowered(app_of(files[j])->0.stem), lowered(query_stem(query))) by {
        let app = app_of(files[j])->0;
        let name = lowered(app.name);
        let stem = lowered(app.stem);
        let p = lowered(query);
        let q = lowered(query_stem(query));
        if has_text(name, p) {
            text_is_found_anywhere(name, seq![], p, seq![]);
            let (a, b) = choose|front: Seq<char>, back: Seq<char>|
                name == #[trigger] (front + p + back);
            answers_are_ranked(query, app, a, b);
        }
        if has_text(stem, q) {
            text_is_found_anywhere(stem, seq![], q, seq![]);
            let (a, b) = choose|front: Seq<char>, back: Seq<char>|
                stem == #[trigger] (front + q + back);
            answers_are_ranked(query, app, a, b);
        }
    }
}

/// An application whose stem is the query, in any case and with or without the
/// extension, is found before all others.
pub proof fn exact_stem_goes_first(query: Seq<char>, files: Seq<DesktopFile>, i: int)
    requires
        0 <= i < files.len(),
        app_of(files[i]) is Some,
        lowered(app_of(files[i])->0.stem) == lowered(query_stem(query)),
    ensures
        exists|j: int| answers_best(query, files, j),
        forall|j: int| #[trigger]
            answers_best(query, files, j) ==> j <= i && lowered(app_of(files[j])->0.stem)
                == lowered(query_stem(query)),
{
    answers_are_ranked(query, app_of(files[i])->0, seq![], seq![]);
    lemma_best_exists(query, files, i);
    assert forall|j: int| #[trigger] answers_best(query, files, j) implies j <= i && lowered(
        app_of(files[j])->0.stem,
    ) == lowered(query_stem(query)) by {
        answers_are_ranked(query, app_of(files[j])->0, seq![], seq![]);
        assert(file_priority(query, files[i]) is Some);
    }
}

/// An application whose name has the query somewhere in it, in any case, is
/// enough for something to be found; and what is found then has the query for
/// its stem or in its name, so that no match by a part of a stem alone goes
/// before it.
pub proof fn part_of_a_name_is_found(
    query: Seq<char>,
    files: Seq<DesktopFile>,
    i: int,
    a: Seq<char>,
    b: Seq<char>,
)
    requires
        0 <= i < files.len(),
        app_of(files[i]) is Some,
        lowered(app_of(files[i])->0.name) == a + lowered(query) + b,
    ensures
        exists|j: int| answers_best(query, files, j),
        forall|j: int| #[trigger]
            answers_best(query, files, j) ==> lowered(app_of(files[j])->0.stem) == lowered(
                query_stem(query),
            ) || has_text(lowered(app_of(files[j])->0.name), lowered(query)),
{
    answers_are_ranked(query, app_of(files[i])->0, a, b);
    lemma_best_exists(query, files, i);
    assert forall|j: int| #[trigger] answers_best(query, files, j) implies lowered(
        app_of(files[j])->0.stem,
    ) == lowered(query_stem(query)) || has_text(
        lowered(app_of(files[j])->0.name),
        lowered(query),
    ) by {
        answers_are_ranked(query, app_of(files[j])->0, a, b);
        assert(file_priority(query, files[i]) is Some);
    }
}

/// An application whose name is the query, in any case, is found before all that
/// only have the query in their names or stems.
pub proof fn exact_name_goes_before_a_part(query: Seq<char>, files: Seq<DesktopFile>, i: int)
    requires
        0 <= i < files.len(),
        app_of(files[i]) is Some,
        lowered(app_of(files[i])->0.name) == lowered(query),
    ensures
        exists|j: int| answers_best(query, files, j),
        forall|j: int| #[trigger]
            answers_best(query, files, j) ==> lowered(app_of(files[j])->0.stem) == lowered(
                query_stem(query),
            ) || lowered(app_of(files[j])->0.name) == lowered(query),
{
    answers_are_ranked(query, app_of(files[i])->0, seq![], seq![]);
    lemma_best_exists(query, files, i);
    assert forall|j: int| #[trigger] answers_best(query, files, j) implies lowered(
        app_of(files[j])->0.stem,
    ) == lowered(query_stem(query)) || lowered(app_of(files[j])->0.name) == lowered(query) by {
        answers_are_ranked(query, app_of(files[j])->0, seq![], seq![]);
        assert(file_priority(query, files[i]) is Some);
    }
}

/// An application whose stem has the query somewhere in it, in any case and with
/// or without the extension, is enough for something to be found.
pub proof fn part_of_a_stem_is_found(
    query: Seq<char>,
    files: Seq<DesktopFile>,
    i: int,
    a: Seq<char>,
    b: Seq<char>,
)
    requires
        0 <= i < files.len(),
        app_of(files[i]) is Some,
    ensures
        lowered(app_of(files[i])->0.stem) == a + lowered(query_stem(query)) + b ==> exists|j: int|
            answers_best(query, files, j),
{
    answers_are_ranked(query, app_of(files[i])->0, a, b);
    if lowered(app_of(files[i])->0.stem) == a + lowered(query_stem(query)) + b {
        lemma_best_exists(query, files, i);
    }
}

/// What is found is a shown application that has the query in its name or in its
/// stem; and of two with the same stem and name the first is found.
pub proof fn what_is_found_answers(query: Seq<char>, files: Seq<DesktopFile>, i: int, j: int)
    requires
        answers_best(query, files, i),
    ensures
        app_of(files[i]) is Some,
        has_text(lowered(app_of(files[i])->0.name), lowered(query)) || has_text(
            lowered(app_of(files[i])->0.stem),
            lowered(query_stem(query)),
        ),
        0 <= j < i && app_of(files[j]) is Some ==> app_of(files[j])->0.stem != app_of(
            files[i],
        )->0.stem || app_of(files[j])->0.name != app_of(files[i])->0.name,
{
    answers_are_ranked(query, app_of(files[i])->0, seq![], seq![]);
    if 0 <= j < i && app_of(files[j]) is Some && app_of(files[j])->0.stem == app_of(
        files[i],
    )->0.stem && app_of(files[j])->0.name == app_of(files[i])->0.name {
        assert(priority(query, app_of(files[j])->0) == priority(query, app_of(files[i])->0));
        assert(file_priority(query, files[j]) is Some);
    }
}

fn priority_of(query: &str, app: &FoundApp) -> (r: Option<u8>)
    ensures
        r is Some <==> priority(query@, app@) is Some,
        r is Some ==> Some(r->0 as int) == priority(query@, app@),
{
    let stem = match strip_suffix(query, ".desktop") {
        Some(stem) => stem,
        None => query,
    };
    let query_lower = to_ascii_lowercase(query);
    let query_stem_lower = to_ascii_lowercase(stem);
    let stem_lower = to_ascii_lowercase(app.stem.as_str());
    let name_lower = to_ascii_lowercase(app.name.as_str());
    if same_text(stem_lower.as_str(), query_stem_lower.as_str()) {
        Some(0)
    } else if same_text(name_lower.as_str(), query_lower.as_str()) {
        Some(1)
    } else if contains(name_lower.as_str(), query_lower.as_str()) {
        Some(2)
    } else if contains(stem_lower.as_str(), query_stem_lower.as_str()) {
        Some(3)
    } else {
        None
    }
}

/// The application that answers a query best; `files` are the files of the
/// searched directories, in the order of the search.
pub fn find_desktop_file(query: &str, files: &Vec<DesktopFile>) -> (r: Option<FoundApp>)
    ensures
        r is None ==> forall|j: int|
            #![trigger files@[j]]
            0 <= j < files@.len() ==> file_priority(query@, files@[j]) is None,
        r is None ==> forall|j: int|
            #![trigger files@[j]]
            0 <= j < files@.len() && app_of(files@[j]) is Some ==> !has_text(
                lowered(app_of(files@[j])->0.name),
                lowered(query@),
            ) && !has_text(lowered(app_of(files@[j])->0.stem), lowered(query_stem(query@))),
        r matches Some(app) ==> exists|i: int| #[trigger]
            answers_best(query@, files@, i) && Some(app@) == app_of(files@[i]) && app.path@
                == file_path(files@[i]),
{
    let n: usize = files.len();
    let mut best: Option<FoundApp> = None;
    let mut best_priority: u8 = 0;
    let ghost mut at: int = 0;
    let mut i: usize = 0;
    assert(files@.take(0).len() == 0);
    while i < n
        invariant
            i <= n,
            n == files@.len(),
            best is None ==> forall|j: int|
                #![trigger files@[j]]
                0 <= j < i ==> file_priority(query@, files@[j]) is None,
            best matches Some(app) ==> {
                &&& 0 <= at < i
                &&& file_priority(query@, files@[at]) == Some(best_priority as int)
                &&& Some(app@) == app_of(files@[at])
                &&& app.path@ == file_path(files@[at])
                &&& forall|j: int|
                    #![trigger files@[j]]
                    0 <= j < i && file_priority(query@, files@[j]) is Some ==> best_priority
                        <= file_priority(query@, files@[j])->0 && (j < at ==> best_priority
                        < file_priority(query@, files@[j])->0)
            },
        decreases n - i,
    {
        let ghost here = files@[i as int];
        if let Some(app) = read_app(&files[i]) {
            if let Some(found) = priority_of(query, &app) {
                assert(file_priority(query@, here) == Some(found as int));
                if best.is_none() || found < best_priority {
                    best = Some(app);
                    best_priority = found;
                    proof {
                        at = i as int;
                    }
                }
            }
        }
        i += 1;
    }
    assert(best is Some ==> answers_best(query@, files@, at));
    proof {
        if best is None {
            lemma_no_answer_no_text(query@, files@);
        }
    }
    best
}

// ---------------------------------------------------------------------------
// Listing the applications.
// ---------------------------------------------------------------------------

/// An installed application.
#[derive(Debug, Clone)]
pub struct InstalledApp {
    pub name: String,
    pub desktop_file: String,
    pub comment: Option<String>,
}

/// That, as a mathematical value.
pub struct InstalledText {
    pub name: Seq<char>,
    pub desktop_file: Seq<char>,
    pub comment: Option<Seq<char>>,
}

impl View for InstalledApp {
    type V = InstalledText;

    open spec fn view(&self) -> InstalledText {
        InstalledText {
            name: self.name@,
            desktop_file: self.desktop_file@,
            comment: optional_text(self.comment),
        }
    }
}

/// The values of a sequence of applications.
pub open spec fn installed_texts(v: Seq<InstalledApp>) -> Seq<InstalledText> {
    Seq::new(v.len(), |i: int| v[i]@)
}

/// One of the applications has the given name.
pub open spec fn named(apps: Seq<InstalledText>, name: Seq<char>) -> bool {
    exists|i: int| 0 <= i < apps.len() && (#[trigger] apps[i]).name == name
}

/// The applications of the files, of several with one name the first.
pub open spec fn distinct_apps(files: Seq<DesktopFile>) -> Seq<InstalledText>
    decreases files.len(),
{
    if files.len() == 0 {
        seq![]
    } else {
        let before = distinct_apps(files.drop_last());
        match app_of(files.last()) {
            Some(app) => if named(before, app.name) {
                before
            } else {
                before.push(
                    InstalledText {
                        name: app.name,
                        desktop_file: utf8_text(file_path(files.last())),
                        comment: app.comment,
                    },
                )
            },
            None => before,
        }
    }
}

/// What the applications are sorted by.
pub open spec fn sort_key(app: InstalledText) -> Seq<char> {
    lowered(app.name)
}

/// Where an application goes in a sorted list: behind all that do not come
/// after it.
pub open spec fn place(sorted: Seq<InstalledText>, app: InstalledText) -> int
    decreases sorted.len(),
{
    if sorted.len() == 0 || !precedes(sort_key(app), sort_key(sorted.last())) {
        sorted.len() as int
    } else {
        place(sorted.drop_last(), app)
    }
}

/// The applications sorted by their names; those with the same letters keep
/// their order.
pub open spec fn sorted_apps(apps: Seq<InstalledText>) -> Seq<InstalledText>
    decreases apps.len(),
{
    if apps.len() == 0 {
        seq![]
    } else {
        let before = sorted_apps(apps.drop_last());
        before.insert(place(before, apps.last()), apps.last())
    }
}

/// The list is in the order of the names.
pub open spec fn in_order(apps: Seq<InstalledText>) -> bool {
    forall|i: int, j: int|
        0 <= i < j < apps.len() ==> !precedes(
            sort_key(#[trigger] apps[j]),
            sort_key(#[trigger] apps[i]),
        )
}

proof fn lemma_place(sorted: Seq<InstalledText>, app: InstalledText)
    ensures
        0 <= place(sorted, app) <= sorted.len(),
        place(sorted, app) > 0 ==> !precedes(
            sort_key(app),
            sort_key(sorted[place(sorted, app) - 1]),
        ),
        forall|i: int|
            place(sorted, app) <= i < sorted.len() ==> precedes(
                sort_key(app),
                sort_key(#[trigger] sorted[i]),
            ),
    decreases sorted.len(),
{
    if sorted.len() > 0 && precedes(sort_key(app), sort_key(sorted.last())) {
        let front = sorted.drop_last();
        lemma_place(front, app);
        let p = place(sorted, app);
        if p > 0 {
            assert(front[p - 1] == sorted[p - 1]);
        }
        assert forall|i: int| p <= i < sorted.len() implies precedes(
            sort_key(app),
            sort_key(#[trigger] sorted[i]),
        ) by {
            if i < front.len() {
                assert(front[i] == sorted[i]);
            }
        }
    }
}

proof fn lemma_not_preceding_is_transitive(a: Seq<char>, b: Seq<char>, c: Seq<char>)
    requires
        !precedes(b, a),
        !precedes(c, b),
    ensures
        !precedes(c, a),
{
    if precedes(c, a) {
        order_is_total(a, b);
        if a != b {
            order_is_transitive(c, a, b);
        }
    }
}

proof fn lemma_insertion_keeps_order(sorted: Seq<InstalledText>, app: InstalledText)
    requires
        in_order(sorted),
    ensures
        in_order(sorted.insert(place(sorted, app), app)),
{
    lemma_place(sorted, app);
    let p = place(sorted, app);
    let all = sorted.insert(p, app);
    assert forall|i: int, j: int| 0 <= i < j < all.len() implies !precedes(
        sort_key(#[trigger] all[j]),
        sort_key(#[trigger] all[i]),
    ) by {
        if i < p && j == p {
            if i < p - 1 {
                assert(!precedes(sort_key(sorted[p - 1]), sort_key(sorted[i])));
                lemma_not_preceding_is_transitive(
                    sort_key(sorted[i]),
                    sort_key(sorted[p - 1]),
                    sort_key(app),
                );
            }
        } else if i == p {
            assert(all[j] == sorted[j - 1]);
            order_is_strict(sort_key(app), sort_key(all[j]));
        } else {
            let a = if i < p {
                i
            } else {
                i - 1
            };
            let b = if j < p {
                j
            } else {
                j - 1
            };
            assert(all[i] == sorted[a]);
            assert(all[j] == sorted[b]);
        }
    }
}

/// The listed applications are in the order of their names.
pub proof fn listed_apps_are_in_order(apps: Seq<InstalledText>)
    ensures
        in_order(sorted_apps(apps)),
    decreases apps.len(),
{
    if apps.len() > 0 {
        listed_apps_are_in_order(apps.drop_last());
        lemma_insertion_keeps_order(sorted_apps(apps.drop_last()), apps.last());
    }
}

/// The listed applications are sorted by the small letters of their names.
pub proof fn apps_are_sorted_by_small_letters(apps: Seq<InstalledText>, i: int, j: int)
    requires
        0 <= i < j < sorted_apps(apps).len(),
    ensures
        !precedes(lowered(sorted_apps(apps)[j].name), lowered(sorted_apps(apps)[i].name)),
{
    listed_apps_are_in_order(apps);
    assert(!precedes(sort_key(sorted_apps(apps)[j]), sort_key(sorted_apps(apps)[i])));
}

/// Sorting neither adds an application nor loses one.
pub proof fn sorting_keeps_the_apps(apps: Seq<InstalledText>)
    ensures
        sorted_apps(apps).to_multiset() == apps.to_multiset(),
        sorted_apps(apps).len() == apps.len(),
    decreases apps.len(),
{
    broadcast use vstd::seq_lib::group_to_multiset_ensures;

    if apps.len() > 0 {
        let front = apps.drop_last();
        sorting_keeps_the_apps(front);
        let before = sorted_apps(front);
        let p = place(before, apps.last());
        lemma_place(before, apps.last());
        let left = before.take(p);
        let right = before.skip(p);
        assert(before =~= left + right);
        assert(before.insert(p, apps.last()) =~= left.push(apps.last()) + right);
        vstd::seq_lib::lemma_multiset_commutative(left, right);
        vstd::seq_lib::lemma_multiset_commutative(left.push(apps.last()), right);
        assert(left.push(apps.last()).to_multiset() =~= left.to_multiset().insert(apps.last()));
        assert(apps =~= front.push(apps.last()));
        assert(apps.to_multiset() =~= front.to_multiset().insert(apps.last()));
        assert(sorted_apps(apps).to_multiset() =~= apps.to_multiset());
    } else {
        assert(sorted_apps(apps) =~= apps);
    }
}

/// The applications of a list with one sort key.
pub open spec fn with_key(apps: Seq<InstalledText>, key: Seq<char>) -> Seq<InstalledText>
    decreases apps.len(),
{
    if apps.len() == 0 {
        seq![]
    } else if sort_key(apps.last()) == key {
        with_key(apps.drop_last(), key).push(apps.last())
    } else {
        with_key(apps.drop_last(), key)
    }
}

proof fn lemma_with_key_split(a: Seq<InstalledText>, b: Seq<InstalledText>, key: Seq<char>)
    ensures
        with_key(a + b, key) == with_key(a, key) + with_key(b, key),
    decreases b.len(),
{
    if b.len() == 0 {
        assert(a + b =~= a);
        assert(with_key(a, key) + with_key(b, key) =~= with_key(a, key));
    } else {
        lemma_with_key_split(a, b.drop_last(), key);
        assert((a + b).drop_last() =~= a + b.drop_last());
        assert((a + b).last() == b.last());
        assert(with_key(a + b, key) =~= with_key(a, key) + with_key(b, key));
    }
}

proof fn lemma_none_with_key(apps: Seq<InstalledText>, key: Seq<char>)
    requires
        forall|i: int| 0 <= i < apps.len() ==> sort_key(#[trigger] apps[i]) != key,
    ensures
        with_key(apps, key) == Seq::<InstalledText>::empty(),
    decreases apps.len(),
{
    if apps.len() > 0 {
        let front = apps.drop_last();
        assert forall|i: int| 0 <= i < front.len() implies sort_key(#[trigger] front[i]) != key by {
            assert(front[i] == apps[i]);
        }
        assert(sort_key(apps[apps.len() - 1]) != key);
        lemma_none_with_key(front, key);
    }
}

/// Applications whose names differ in capital and small letters only keep the
/// order in which they were found.
pub proof fn sorting_is_stable(apps: Seq<InstalledText>, key: Seq<char>)
    ensures
        with_key(sorted_apps(apps), key) == with_key(apps, key),
    decreases apps.len(),
{
    if apps.len() > 0 {
        let front = apps.drop_last();
        let app = apps.last();
        sorting_is_stable(front, key);
        let before = sorted_apps(front);
        let p = place(before, app);
        lemma_place(before, app);
        let left = before.take(p);
        let right = before.skip(p);
        assert(before =~= left + right);
        assert(before.insert(p, app) =~= left.push(app) + right);
        lemma_with_key_split(left, right, key);
        lemma_with_key_split(left.push(app), right, key);
        assert(left.push(app).drop_last() =~= left);
        if sort_key(app) == key {
            assert forall|i: int| 0 <= i < right.len() implies sort_key(#[trigger] right[i])
                != key by {
                assert(right[i] == before[p + i]);
                order_is_strict(key, key);
            }
            lemma_none_with_key(right, key);
            assert(with_key(left, key) + with_key(right, key) =~= with_key(left, key));
            assert(with_key(left.push(app), key) + with_key(right, key) =~= with_key(
                left,
                key,
            ).push(app));
        }
    }
}

/// No name is listed twice.
pub proof fn names_are_listed_once(files: Seq<DesktopFile>, i: int, j: int)
    requires
        0 <= i < j < distinct_apps(files).len(),
    ensures
        distinct_apps(files)[i].name != distinct_apps(files)[j].name,
    decreases files.len(),
{
    if files.len() > 0 {
        let before = distinct_apps(files.drop_last());
        if j < before.len() {
            names_are_listed_once(files.drop_last(), i, j);
        } else {
            assert(distinct_apps(files)[i] == before[i]);
        }
    }
}

/// No application that is shown is left out of the list.
pub proof fn every_name_is_listed(files: Seq<DesktopFile>, i: int)
    requires
        0 <= i < files.len(),
        app_of(files[i]) is Some,
    ensures
        named(distinct_apps(files), app_of(files[i])->0.name),
    decreases files.len(),
{
    let front = files.drop_last();
    let before = distinct_apps(front);
    let all = distinct_apps(files);
    if i < front.len() {
        every_name_is_listed(front, i);
        let k = choose|k: int|
            0 <= k < before.len() && (#[trigger] before[k]).name == app_of(files[i])->0.name;
        assert(all[k] == before[k]);
    } else if all.len() > before.len() {
        assert(all[before.len() as int].name == app_of(files[i])->0.name);
    }
}

/// Of several files with one name the first is listed, so that the user's own
/// files go before those of the system.
pub proof fn first_file_of_a_name_is_listed(files: Seq<DesktopFile>, i: int)
    requires
        0 <= i < files.len(),
        app_of(files[i]) is Some,
        forall|j: int|
            0 <= j < i && app_of(#[trigger] files[j]) is Some ==> app_of(files[j])->0.name
                != app_of(files[i])->0.name,
    ensures
        distinct_apps(files).contains(
            InstalledText {
                name: app_of(files[i])->0.name,
                desktop_file: utf8_text(file_path(files[i])),
                comment: app_of(files[i])->0.comment,
            },
        ),
    decreases files.len(),
{
    let front = files.drop_last();
    let before = distinct_apps(front);
    let all = distinct_apps(files);
    let app = InstalledText {
        name: app_of(files[i])->0.name,
        desktop_file: utf8_text(file_path(files[i])),
        comment: app_of(files[i])->0.comment,
    };
    if i < front.len() {
        assert forall|j: int| 0 <= j < i && app_of(#[trigger] front[j]) is Some implies app_of(
            front[j],
        )->0.name != app_of(front[i])->0.name by {
            assert(front[j] == files[j]);
        }
        first_file_of_a_name_is_listed(front, i);
        let k = choose|k: int| 0 <= k < before.len() && before[k] == app;
        assert(all[k] == app);
    } else {
        if named(before, app.name) {
            let k = choose|k: int| 0 <= k < before.len() && (#[trigger] before[k]).name == app.name;
            lemma_listed_apps_have_a_file(front, k);
            let j = choose|j: int|
                0 <= j < front.len() && app_of(#[trigger] front[j]) is Some && app_of(
                    front[j],
                )->0.name == before[k].name;
            assert(front[j] == files[j]);
        }
        assert(all[before.len() as int] == app);
    }
}

proof fn lemma_listed_apps_have_a_file(files: Seq<DesktopFile>, k: int)
    requires
        0 <= k < distinct_apps(files).len(),
    ensures
        exists|j: int|
            0 <= j < files.len() && app_of(#[trigger] files[j]) is Some && app_of(
                files[j],
            )->0.name == distinct_apps(files)[k].name,
    decreases files.len(),
{
    if files.len() > 0 {
        let front = files.drop_last();
        let before = distinct_apps(front);
        if k < before.len() {
            lemma_listed_apps_have_a_file(front, k);
            let j = choose|j: int|
                0 <= j < front.len() && app_of(#[trigger] front[j]) is Some && app_of(
                    front[j],
                )->0.name == before[k].name;
            assert(files[j] == front[j]);
        } else {
            assert(app_of(files[files.len() - 1]) is Some);
        }
    }
}

fn is_named(apps: &Vec<InstalledApp>, name: &str) -> (r: bool)
    ensures
        r == named(installed_texts(apps@), name@),
{
    let n: usize = apps.len();
    let mut i: usize = 0;
    while i < n
        invariant
            i <= n,
            n == apps@.len(),
            forall|j: int| 0 <= j < i ==> (#[trigger] installed_texts(apps@)[j]).name != name@,
        decreases n - i,
    {
        if same_text(apps[i].name.as_str(), name) {
            assert(installed_texts(apps@)[i as int].name == name@);
            return true;
        }
        i += 1;
    }
    false
}

fn insert_sorted(sorted: &mut Vec<InstalledApp>, app: InstalledApp)
    ensures
        installed_texts(final(sorted)@) == installed_texts(old(sorted)@).insert(
            place(installed_texts(old(sorted)@), app@),
            app@,
        ),
{
    let ghost texts = installed_texts(sorted@);
    let ghost a = app@;
    let key = to_ascii_lowercase(app.name.as_str());
    let mut i: usize = sorted.len();
    assert(texts.take(i as int) =~= texts);
    while i > 0 && text_precedes(
        key.as_str(),
        to_ascii_lowercase(sorted[i - 1].name.as_str()).as_str(),
    )
        invariant
            i <= sorted@.len(),
            texts == installed_texts(sorted@),
            sorted@ == old(sorted)@,
            key@ == sort_key(a),
            place(texts, a) == place(texts.take(i as int), a),
        ensures
            i == 0 || !precedes(sort_key(a), sort_key(texts[i - 1])),
        decreases i,
    {
        assert(texts.take(i as int).drop_last() =~= texts.take(i - 1));
        assert(texts.take(i as int).last() == texts[i - 1]);
        i -= 1;
    }
    if i > 0 {
        assert(texts.take(i as int).last() == texts[i - 1]);
    }
    assert(place(texts, a) == i);
    sorted.insert(i, app);
    assert(installed_texts(sorted@) =~= texts.insert(i as int, a));
}

/// The installed applications, sorted by their names; `files` are the files of
/// the searched directories, in the order of the search.
pub fn list_installed_apps(files: &Vec<DesktopFile>) -> (r: Vec<InstalledApp>)
    ensures
        installed_texts(r@) == sorted_apps(distinct_apps(files@)),
{
    let n: usize = files.len();
    let mut apps: Vec<InstalledApp> = Vec::new();
    let mut i: usize = 0;
    assert(installed_texts(apps@) =~= distinct_apps(files@.take(0)));
    while i < n
        invariant
            i <= n,
            n == files@.len(),
            installed_texts(apps@) == distinct_apps(files@.take(i as int)),
        decreases n - i,
    {
        proof {
            assert(files@.take(i + 1).drop_last() =~= files@.take(i as int));
            assert(files@.take(i + 1).last() == files@[i as int]);
        }
        let ghost before = apps@;
        if let Some(app) = read_app(&files[i]) {
            if !is_named(&apps, app.name.as_str()) {
                let FoundApp { stem, name, comment, path } = app;
                let desktop_file = from_utf8_lossy(path.as_slice());
                let installed = InstalledApp { name, desktop_file, comment };
                let ghost t = installed@;
                apps.push(installed);
                assert(installed_texts(apps@) =~= installed_texts(before).push(t));
            }
        }
        i += 1;
    }
    assert(files@.take(n as int) =~= files@);
    let ghost found = installed_texts(apps@);
    let mut sorted: Vec<InstalledApp> = Vec::new();
    let ghost mut done: int = 0;
    assert(installed_texts(sorted@) =~= sorted_apps(found.take(0)));
    assert(found.skip(0) =~= found);
    while apps.len() > 0
        invariant
            0 <= done <= found.len(),
            installed_texts(apps@) == found.skip(done),
            installed_texts(sorted@) == sorted_apps(found.take(done)),
        decreases apps.len(),
    {
        let ghost left = apps@;
        assert(installed_texts(left).len() == found.len() - done);
        let app = apps.remove(0);
        proof {
            assert(installed_texts(left)[0] == found[done]);
            assert(installed_texts(apps@) =~= installed_texts(left).skip(1));
            assert(found.skip(done).skip(1) =~= found.skip(done + 1));
            assert(found.take(done + 1).drop_last() =~= found.take(done));
            assert(found.take(done + 1).last() == app@);
            done = done + 1;
        }
        insert_sorted(&mut sorted, app);
    }
    assert(installed_texts(apps@).len() == 0);
    assert(found.take(done) =~= found);
    sorted
}

} // verus!
