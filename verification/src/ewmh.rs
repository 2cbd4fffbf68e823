//! The window backend of X11 window managers that follow the EWMH conventions,
//! by way of `wmctrl`.

use vstd::prelude::*;
use vstd::utf8::{encode_utf8, encode_utf8_decode_utf8, encode_utf8_valid_utf8};

use crate::bytes::{from_utf8_lossy, utf8_text};
use crate::command::{
    command_spec, written, written_text, CommandOutcome, CommandOutput, CommandSpec, CommandText,
};
use crate::number::{
    decimal, digit_value, digits_denote_their_number, digits_of, hex_u64_value, hexadecimal,
    i32_value, is_numeral, parse_hex_u64, parse_i32, parse_u32, signed_decimal, to_hexadecimal,
    u32_value, written_numbers_are_read_back,
};
use crate::scan::{
    affixes_come_off, after_prefix, find, has_prefix, has_text, is_word, join, joined, lines,
    lines_of, occurs_at, slices, split_whitespace, strip_prefix, trim, trimmed,
    trimming_leaves_the_text, words_of, words_survive_joining,
};
use crate::session::optional_text;
use crate::text::{ascii_alphanumeric, chars_of, whitespace};
use crate::windowing::{BackendProbe, WindowBounds, WindowInfo, WindowText};

verus! {

/// The id of this backend.
pub const EWMH_BACKEND: &'static str = "ewmh";

// ---------------------------------------------------------------------------
// The probe.
// ---------------------------------------------------------------------------

/// A command of `wmctrl`.
pub open spec fn wmctrl(args: Seq<Seq<char>>) -> CommandText {
    CommandText { program: "wmctrl"@, args, session_bus: false }
}

/// The command that the backend is probed with.
pub fn probe_command() -> (r: CommandSpec)
    ensures
        r@ == wmctrl(seq!["-l"@]),
{
    let args = ["-l"];
    assert(slices(args@) =~= seq!["-l"@]);
    command_spec("wmctrl", &args, false)
}

/// The backend can be used: its probe succeeded.
pub open spec fn probe_works(outcome: CommandOutcome) -> bool {
    outcome matches CommandOutcome::Exited(output) && output.success
}

/// What the probe says.
pub open spec fn probe_words(outcome: CommandOutcome) -> Seq<char> {
    match outcome {
        CommandOutcome::NotStarted(reason) => "wmctrl not installed or not in PATH: "@ + reason@,
        CommandOutcome::Exited(output) => if output.success {
            "wmctrl -l succeeded; ICCCM/EWMH window listing is available"@
        } else if written(output.stderr@).len() == 0 {
            "wmctrl -l exited with "@ + output.status@
        } else {
            written(output.stderr@)
        },
    }
}

/// The probe says that windows can be listed exactly where it succeeded; else it
/// says what the command wrote on its standard error, or where that is nothing how
/// it ended, or why it could not be started.
pub proof fn probe_says_what_came_of_it(
    output: CommandOutput,
    errors: Seq<char>,
    reason: String,
)
    requires
        errors.len() > 0 ==> !whitespace(errors[0]) && !whitespace(errors.last()),
        output.stderr@ == encode_utf8(errors),
    ensures
        output.success ==> probe_words(CommandOutcome::Exited(output))
            == "wmctrl -l succeeded; ICCCM/EWMH window listing is available"@,
        !output.success && errors.len() > 0 ==> probe_words(CommandOutcome::Exited(output))
            == errors,
        !output.success && errors.len() == 0 ==> probe_words(CommandOutcome::Exited(output))
            == "wmctrl -l exited with "@ + output.status@,
        probe_words(CommandOutcome::NotStarted(reason)) == "wmctrl not installed or not in PATH: "@
            + reason@,
{
    encode_utf8_valid_utf8(errors);
    encode_utf8_decode_utf8(errors);
    trimming_leaves_the_text(seq![], errors, seq![]);
    assert(seq![] + errors + seq![] =~= errors);
}

fn probe_text(outcome: &CommandOutcome) -> (r: String)
    ensures
        r@ == probe_words(*outcome),
{
    match outcome {
        CommandOutcome::NotStarted(reason) => "wmctrl not installed or not in PATH: ".to_owned().concat(
        reason.as_str()),
        CommandOutcome::Exited(output) => {
            if output.success {
                return "wmctrl -l succeeded; ICCCM/EWMH window listing is available".to_owned();
            }
            let stderr = written_text(&output.stderr);
            if stderr.as_str().is_empty() {
                "wmctrl -l exited with ".to_owned().concat(output.status.as_str())
            } else {
                stderr
            }
        },
    }
}

/// What the probe of the backend amounts to: it can do everything or nothing.
pub fn probe(outcome: &CommandOutcome) -> (r: BackendProbe)
    ensures
        r.id@ == EWMH_BACKEND@,
        r.ok == probe_works(*outcome),
        r.can_list_windows == r.ok,
        r.can_focus_apps == r.ok,
        r.can_focus_windows == r.ok,
        r.detail@ == probe_words(*outcome),
{
    let ok = match outcome {
        CommandOutcome::Exited(output) => output.success,
        CommandOutcome::NotStarted(_) => false,
    };
    BackendProbe {
        id: EWMH_BACKEND,
        ok,
        can_list_windows: ok,
        can_focus_apps: ok,
        can_focus_windows: ok,
        detail: probe_text(outcome),
    }
}

// ---------------------------------------------------------------------------
// The lines of `wmctrl -lGpx`.
// ---------------------------------------------------------------------------

/// A text where it is not empty.
pub open spec fn unless_empty(s: Seq<char>) -> Option<Seq<char>> {
    if s.len() == 0 {
        None
    } else {
        Some(s)
    }
}

/// The index of the last dot, or -1 where there is none.
pub open spec fn last_dot(s: Seq<char>) -> int
    decreases s.len(),
{
    if s.len() == 0 {
        -1
    } else if s.last() == '.' {
        s.len() - 1
    } else {
        last_dot(s.drop_last())
    }
}

/// The name of the application and its class in a field `name.Class`. Where
/// there is no dot the field is both.
pub open spec fn class_parts(s: Seq<char>) -> (Option<Seq<char>>, Option<Seq<char>>) {
    let i = last_dot(s);
    if i < 0 {
        (unless_empty(s), unless_empty(s))
    } else {
        (unless_empty(s.take(i)), unless_empty(s.skip(i + 1)))
    }
}

/// The number of a window, written with `0x` before it.
pub open spec fn window_number(s: Seq<char>) -> Option<int> {
    match after_prefix(s, "0x"@) {
        Some(digits) => hex_u64_value(digits),
        None => None,
    }
}

/// A number of 32 bits, where it is one and not the one that means nothing.
pub open spec fn signed_unless(s: Seq<char>, nothing: int) -> Option<i32> {
    match i32_value(s) {
        Some(v) => if v == nothing {
            None
        } else {
            Some(v as i32)
        },
        None => None,
    }
}

/// A number of 32 bits, where it is one.
pub open spec fn signed(s: Seq<char>) -> Option<i32> {
    match i32_value(s) {
        Some(v) => Some(v as i32),
        None => None,
    }
}

/// A process id, where it is one; zero means that there is none.
pub open spec fn process_id(s: Seq<char>) -> Option<u32> {
    match u32_value(s) {
        Some(v) => if v == 0 {
            None
        } else {
            Some(v as u32)
        },
        None => None,
    }
}

/// The window that a line tells: number, desktop, process, place, size, class,
/// and title. Without a number, a size and a class there is none; desktop -1 is
/// all desktops.
pub open spec fn window_in_line(line: Seq<char>, focused_id: Option<u64>) -> Option<WindowText> {
    let t = words_of(line);
    if t.len() < 8 || window_number(t[0]) is None || u32_value(t[5]) is None || u32_value(
        t[6],
    ) is None {
        None
    } else {
        let id = window_number(t[0])->0 as u64;
        Some(
            WindowText {
                window_id: id,
                title: unless_empty(joined(t.skip(8), " "@)),
                app_id: class_parts(t[7]).0,
                wm_class: class_parts(t[7]).1,
                pid: process_id(t[2]),
                bounds: Some(
                    WindowBounds {
                        x: signed(t[3]),
                        y: signed(t[4]),
                        width: u32_value(t[5])->0 as u32,
                        height: u32_value(t[6])->0 as u32,
                    },
                ),
                workspace: signed_unless(t[1], -1),
                focused: focused_id == Some(id),
                hidden: false,
                client_type: Some("x11"@),
                backend: EWMH_BACKEND@,
                terminal: None,
            },
        )
    }
}

/// The windows that the lines tell, in their order.
pub open spec fn windows_in_lines(ls: Seq<Seq<char>>, focused_id: Option<u64>) -> Seq<WindowText>
    decreases ls.len(),
{
    if ls.len() == 0 {
        seq![]
    } else {
        let before = windows_in_lines(ls.drop_last(), focused_id);
        match window_in_line(trimmed(ls.last()), focused_id) {
            Some(window) => before.push(window),
            None => before,
        }
    }
}

/// The values of a sequence of windows.
pub open spec fn window_texts(v: Seq<WindowInfo>) -> Seq<WindowText> {
    Seq::new(v.len(), |i: int| v[i]@)
}

/// A listed window has the focus exactly where it is the active window.
pub proof fn only_the_active_window_is_focused(
    ls: Seq<Seq<char>>,
    focused_id: Option<u64>,
    i: int,
)
    requires
        0 <= i < windows_in_lines(ls, focused_id).len(),
    ensures
        windows_in_lines(ls, focused_id)[i].focused <==> focused_id == Some(
            windows_in_lines(ls, focused_id)[i].window_id,
        ),
    decreases ls.len(),
{
    if ls.len() > 0 {
        let before = windows_in_lines(ls.drop_last(), focused_id);
        if i < before.len() {
            only_the_active_window_is_focused(ls.drop_last(), focused_id, i);
        }
    }
}

/// The parts of a class are what stands before and behind its last dot; without
/// a dot the whole is both. An empty part is none.
pub proof fn class_is_split_at_its_last_dot(name: Seq<char>, class: Seq<char>)
    requires
        !class.contains('.'),
    ensures
        name.len() > 0 && class.len() > 0 ==> class_parts(name + seq!['.'] + class) == (
            Some(name),
            Some(class),
        ),
        name.len() == 0 && class.len() > 0 ==> class_parts(name + seq!['.'] + class) == (
            None::<Seq<char>>,
            Some(class),
        ),
        name.len() > 0 && class.len() == 0 ==> class_parts(name + seq!['.'] + class) == (
            Some(name),
            None::<Seq<char>>,
        ),
        class.len() > 0 ==> class_parts(class) == (Some(class), Some(class)),
{
    let s = name + seq!['.'] + class;
    lemma_last_dot(name + seq!['.'], class);
    assert((name + seq!['.']).last() == '.');
    assert(s.take(name.len() as int) =~= name);
    assert(s.skip(name.len() as int + 1) =~= class);
    lemma_last_dot(seq![], class);
    assert(seq![] + class =~= class);
}

proof fn lemma_last_dot(front: Seq<char>, back: Seq<char>)
    requires
        !back.contains('.'),
    ensures
        last_dot(front + back) == last_dot(front),
    decreases back.len(),
{
    if back.len() == 0 {
        assert(front + back =~= front);
    } else {
        let rest = back.drop_last();
        assert(back.contains(back.last()));
        assert forall|i: int| 0 <= i < rest.len() implies rest[i] != '.' by {
            assert(back.contains(back[i]));
        }
        lemma_last_dot(front, rest);
        assert((front + back).drop_last() =~= front + rest);
        assert((front + back).last() == back.last());
    }
}

/// What `wmctrl -lGpx` prints of a window: its number, desktop, process, place,
/// size and class, and the words of its title.
pub open spec fn printed_window(
    id: u64,
    desktop: i32,
    pid: u32,
    x: i32,
    y: i32,
    width: u32,
    height: u32,
    class: Seq<char>,
    title: Seq<Seq<char>>,
) -> Seq<Seq<char>> {
    seq![
        "0x"@ + hexadecimal(id as nat),
        signed_decimal(desktop as int),
        decimal(pid as nat),
        signed_decimal(x as int),
        signed_decimal(y as int),
        decimal(width as nat),
        decimal(height as nat),
        class,
    ] + title
}

proof fn lemma_digits_are_a_word(n: nat, radix: nat)
    requires
        2 <= radix <= 16,
    ensures
        is_word(digits_of(n, radix)),
{
    digits_denote_their_number(n, radix);
    let d = digits_of(n, radix);
    assert forall|i: int| 0 <= i < d.len() implies !whitespace(#[trigger] d[i]) by {
        assert(ascii_alphanumeric(d[i]));
    }
}

proof fn lemma_signed_is_a_word(v: int)
    ensures
        is_word(signed_decimal(v)),
{
    if v < 0 {
        let m = (-v) as nat;
        lemma_digits_are_a_word(m, 10);
        let d = signed_decimal(v);
        assert forall|i: int| 0 <= i < d.len() implies !whitespace(#[trigger] d[i]) by {
            if i > 0 {
                assert(d[i] == decimal(m)[i - 1]);
            }
        }
    } else {
        lemma_digits_are_a_word(v as nat, 10);
    }
}

/// Whatever window is printed is read back as that window: each field from its
/// own column, desktop -1 as no desktop, process 0 as no process, the title from
/// all the words behind the class, and the focus where the number is that of the
/// active window.
pub proof fn printed_window_is_read_back(
    id: u64,
    desktop: i32,
    pid: u32,
    x: i32,
    y: i32,
    width: u32,
    height: u32,
    class: Seq<char>,
    title: Seq<Seq<char>>,
    focused_id: Option<u64>,
)
    requires
        is_word(class),
        forall|i: int| 0 <= i < title.len() ==> is_word(#[trigger] title[i]),
    ensures
        ({
            let line = joined(
                printed_window(id, desktop, pid, x, y, width, height, class, title),
                " "@,
            );
            let window = window_in_line(line, focused_id);
            &&& window is Some
            &&& window->0.window_id == id
            &&& window->0.workspace == (if desktop == -1 {
                None
            } else {
                Some(desktop)
            })
            &&& window->0.pid == (if pid == 0 {
                None
            } else {
                Some(pid)
            })
            &&& window->0.bounds == Some(WindowBounds { x: Some(x), y: Some(y), width, height })
            &&& window->0.app_id == class_parts(class).0
            &&& window->0.wm_class == class_parts(class).1
            &&& title.len() == 0 ==> window->0.title is None
            &&& title.len() > 0 ==> window->0.title == Some(joined(title, " "@))
            &&& window->0.focused <==> focused_id == Some(id)
            &&& !window->0.hidden
            &&& window->0.backend == "ewmh"@
            &&& window->0.client_type == Some("x11"@)
            &&& window->0.terminal is None
        }),
{
    reveal_strlit("0x");
    let words = printed_window(id, desktop, pid, x, y, width, height, class, title);
    lemma_digits_are_a_word(id as nat, 16);
    lemma_digits_are_a_word(pid as nat, 10);
    lemma_digits_are_a_word(width as nat, 10);
    lemma_digits_are_a_word(height as nat, 10);
    lemma_signed_is_a_word(desktop as int);
    lemma_signed_is_a_word(x as int);
    lemma_signed_is_a_word(y as int);
    assert(is_word("0x"@ + hexadecimal(id as nat))) by {
        let d = hexadecimal(id as nat);
        let t = "0x"@ + d;
        assert forall|i: int| 0 <= i < t.len() implies !whitespace(#[trigger] t[i]) by {
            if i >= 2 {
                assert(t[i] == d[i - 2]);
            }
        }
    }
    assert forall|i: int| 0 <= i < words.len() implies is_word(#[trigger] words[i]) by {
        if i >= 8 {
            assert(words[i] == title[i - 8]);
        }
    }
    words_survive_joining(words);
    written_numbers_are_read_back(id as nat, desktop as int);
    written_numbers_are_read_back(pid as nat, x as int);
    written_numbers_are_read_back(width as nat, y as int);
    written_numbers_are_read_back(height as nat, 0);
    affixes_come_off("0x"@, hexadecimal(id as nat));
    assert(words.skip(8) =~= title);
    if title.len() > 0 {
        lemma_joined_words_are_some(title);
    }
}

proof fn lemma_joined_words_are_some(words: Seq<Seq<char>>)
    requires
        words.len() > 0,
        forall|i: int| 0 <= i < words.len() ==> is_word(#[trigger] words[i]),
    ensures
        joined(words, " "@).len() > 0,
{
    assert(is_word(words[words.len() - 1]));
}

/// The windows of a listing are those of its lines, one after the other: lines
/// tell the same whatever lines stand before or behind them.
pub proof fn each_line_tells_its_own_window(
    a: Seq<Seq<char>>,
    b: Seq<Seq<char>>,
    focused_id: Option<u64>,
)
    ensures
        windows_in_lines(a + b, focused_id) == windows_in_lines(a, focused_id) + windows_in_lines(
            b,
            focused_id,
        ),
        b.len() == 1 && window_in_line(trimmed(b[0]), focused_id) is Some ==> windows_in_lines(
            b,
            focused_id,
        ) == seq![window_in_line(trimmed(b[0]), focused_id)->0],
    decreases b.len(),
{
    if b.len() == 0 {
        assert(a + b =~= a);
        assert(windows_in_lines(a, focused_id) + windows_in_lines(b, focused_id)
            =~= windows_in_lines(a, focused_id));
    } else {
        let front = b.drop_last();
        each_line_tells_its_own_window(a, front, focused_id);
        assert((a + b).drop_last() =~= a + front);
        assert((a + b).last() == b.last());
        assert(windows_in_lines(a + b, focused_id) =~= windows_in_lines(a, focused_id)
            + windows_in_lines(b, focused_id));
        if b.len() == 1 {
            assert(front =~= seq![]);
            reveal_with_fuel(windows_in_lines, 2);
        }
    }
}

/// A text where it is not empty.
pub fn non_empty(s: String) -> (r: Option<String>)
    ensures
        optional_text(r) == unless_empty(s@),
{
    if s.as_str().is_empty() {
        None
    } else {
        Some(s)
    }
}

fn split_class(s: &str) -> (r: (Option<String>, Option<String>))
    ensures
        optional_text(r.0) == class_parts(s@).0,
        optional_text(r.1) == class_parts(s@).1,
{
    let v = chars_of(s);
    let n: usize = v.len();
    let mut i: usize = n;
    assert(s@.take(n as int) =~= s@);
    while i > 0 && v[i - 1] != '.'
        invariant
            i <= n,
            n == v@.len(),
            v@ == s@,
            last_dot(s@) == last_dot(s@.take(i as int)),
        ensures
            i > 0 ==> s@[i - 1] == '.',
        decreases i,
    {
        assert(s@.take(i as int).drop_last() =~= s@.take(i - 1));
        i -= 1;
    }
    if i == 0 {
        assert(last_dot(s@) < 0);
        (non_empty(s.to_owned()), non_empty(s.to_owned()))
    } else {
        assert(last_dot(s@) == i - 1);
        let name = s.substring_char(0, i - 1);
        let class = s.substring_char(i, n);
        assert(name@ =~= s@.take(i - 1));
        assert(class@ =~= s@.skip(i as int));
        (non_empty(name.to_owned()), non_empty(class.to_owned()))
    }
}

/// Reads one line of `wmctrl -lGpx`.
pub fn parse_wmctrl_line(line: &str, focused_id: Option<u64>) -> (r: Option<WindowInfo>)
    ensures
        r is Some <==> window_in_line(line@, focused_id) is Some,
        r is Some ==> Some(r->0@) == window_in_line(line@, focused_id),
{
    let tokens = split_whitespace(line);
    let n: usize = tokens.len();
    let ghost t = words_of(line@);
    assert(slices(tokens@) == t);
    if n < 8 {
        return None;
    }
    assert(tokens@[0]@ == t[0]);
    assert(tokens@[1]@ == t[1]);
    assert(tokens@[2]@ == t[2]);
    assert(tokens@[3]@ == t[3]);
    assert(tokens@[4]@ == t[4]);
    assert(tokens@[5]@ == t[5]);
    assert(tokens@[6]@ == t[6]);
    assert(tokens@[7]@ == t[7]);
    let window_id: u64 = match strip_prefix(tokens[0], "0x") {
        Some(hex) => match parse_hex_u64(hex) {
            Some(id) => id,
            None => {
                return None;
            },
        },
        None => {
            return None;
        },
    };
    let workspace: Option<i32> = match parse_i32(tokens[1]) {
        Some(desktop) => if desktop == -1 {
            None
        } else {
            Some(desktop)
        },
        None => None,
    };
    let pid: Option<u32> = match parse_u32(tokens[2]) {
        Some(pid) => if pid == 0 {
            None
        } else {
            Some(pid)
        },
        None => None,
    };
    let x: Option<i32> = parse_i32(tokens[3]);
    let y: Option<i32> = parse_i32(tokens[4]);
    let width: u32 = match parse_u32(tokens[5]) {
        Some(width) => width,
        None => {
            return None;
        },
    };
    let height: u32 = match parse_u32(tokens[6]) {
        Some(height) => height,
        None => {
            return None;
        },
    };
    let (app_id, wm_class) = split_class(tokens[7]);
    let rest = &tokens.as_slice()[8..n];
    assert(slices(rest@) =~= t.skip(8));
    let title = non_empty(join(rest, " "));
    let focused = match focused_id {
        Some(id) => id == window_id,
        None => false,
    };
    Some(
        WindowInfo {
            window_id,
            title,
            app_id,
            wm_class,
            pid,
            bounds: Some(WindowBounds { x, y, width, height }),
            workspace,
            focused,
            hidden: false,
            client_type: Some("x11".to_owned()),
            backend: EWMH_BACKEND.to_owned(),
            terminal: None,
        },
    )
}

/// Reads the output of `wmctrl -lGpx`.
pub fn parse_wmctrl_output(text: &str, focused_id: Option<u64>) -> (r: Vec<WindowInfo>)
    ensures
        window_texts(r@) == windows_in_lines(lines_of(text@), focused_id),
{
    let all = lines(text);
    let n: usize = all.len();
    let mut windows: Vec<WindowInfo> = Vec::new();
    let mut i: usize = 0;
    assert(window_texts(windows@) =~= windows_in_lines(slices(all@).take(0), focused_id));
    while i < n
        invariant
            i <= n,
            n == all@.len(),
            slices(all@) == lines_of(text@),
            window_texts(windows@) == windows_in_lines(slices(all@).take(i as int), focused_id),
        decreases n - i,
    {
        let ghost behind = slices(all@).take(i as int);
        let ghost next = slices(all@).take(i + 1);
        assert(next.drop_last() =~= behind);
        assert(next.last() == all@[i as int]@);
        if let Some(window) = parse_wmctrl_line(trim(all[i]), focused_id) {
            let ghost before = windows@;
            let ghost w = window@;
            windows.push(window);
            assert(window_texts(windows@) =~= window_texts(before).push(w));
        }
        i += 1;
    }
    assert(slices(all@).take(n as int) =~= slices(all@));
    windows
}

// ---------------------------------------------------------------------------
// Listing windows.
// ---------------------------------------------------------------------------

/// The command that lists the windows.
pub fn list_command() -> (r: CommandSpec)
    ensures
        r@ == wmctrl(seq!["-lGpx"@]),
{
    let args = ["-lGpx"];
    assert(slices(args@) =~= seq!["-lGpx"@]);
    command_spec("wmctrl", &args, false)
}

/// What went wrong with a command of `wmctrl`.
#[derive(Debug)]
pub struct WmctrlError {
    /// What went wrong, in words.
    pub what: String,
    /// What is behind it, where there is something.
    pub cause: Option<String>,
}

/// That, as a mathematical value.
pub struct WmctrlFault {
    pub what: Seq<char>,
    pub cause: Option<Seq<char>>,
}

impl View for WmctrlError {
    type V = WmctrlFault;

    open spec fn view(&self) -> WmctrlFault {
        WmctrlFault { what: self.what@, cause: optional_text(self.cause) }
    }
}

/// What is wrong with the outcome of a command of `wmctrl`; none where it
/// succeeded.
pub open spec fn wmctrl_fault(command: Seq<char>, outcome: CommandOutcome) -> Option<WmctrlFault> {
    match outcome {
        CommandOutcome::NotStarted(reason) => Some(
            WmctrlFault { what: "failed to run "@ + command, cause: Some(reason@) },
        ),
        CommandOutcome::Exited(output) => if output.success {
            None
        } else {
            Some(
                WmctrlFault {
                    what: command + " failed: "@ + written(output.stderr@),
                    cause: None,
                },
            )
        },
    }
}

fn fault_of_wmctrl(command: &str, outcome: &CommandOutcome) -> (r: Option<WmctrlError>)
    ensures
        r is Some <==> wmctrl_fault(command@, *outcome) is Some,
        r is Some ==> Some(r->0@) == wmctrl_fault(command@, *outcome),
{
    match outcome {
        CommandOutcome::NotStarted(reason) => Some(
            WmctrlError {
                what: "failed to run ".to_owned().concat(command),
                cause: Some(reason.clone()),
            },
        ),
        CommandOutcome::Exited(output) => if output.success {
            None
        } else {
            Some(
                WmctrlError {
                    what: command.to_owned().concat(" failed: ").concat(
                        written_text(&output.stderr).as_str(),
                    ),
                    cause: None,
                },
            )
        },
    }
}

/// The windows that `wmctrl -lGpx` listed, or what went wrong; `focused_id` is
/// the window that has the focus.
pub fn list_windows(outcome: &CommandOutcome, focused_id: Option<u64>) -> (r: Result<
    Vec<WindowInfo>,
    WmctrlError,
>)
    ensures
        r is Ok <==> probe_works(*outcome),
        r matches Ok(windows) ==> window_texts(windows@) == windows_in_lines(
            lines_of(utf8_text(outcome->Exited_0.stdout@)),
            focused_id,
        ),
        r matches Err(error) ==> Some(error@) == wmctrl_fault("wmctrl -lGpx"@, *outcome),
{
    match fault_of_wmctrl("wmctrl -lGpx", outcome) {
        Some(error) => Err(error),
        None => match outcome {
            CommandOutcome::Exited(output) => {
                let text = from_utf8_lossy(output.stdout.as_slice());
                Ok(parse_wmctrl_output(text.as_str(), focused_id))
            },
            CommandOutcome::NotStarted(_) => Ok(Vec::new()),
        },
    }
}

/// A command of `wmctrl` is without a fault exactly where it was started and ended
/// with success, and so is the probe; the fault names the command.
pub proof fn only_success_is_without_fault(
    command: Seq<char>,
    outcome: CommandOutcome,
    reason: String,
)
    ensures
        wmctrl_fault(command, outcome) is None <==> outcome is Exited && outcome->Exited_0.success,
        probe_works(outcome) <==> outcome is Exited && outcome->Exited_0.success,
        wmctrl_fault(command, CommandOutcome::NotStarted(reason)) == Some(
            WmctrlFault { what: "failed to run "@ + command, cause: Some(reason@) },
        ),
{
}

/// A line tells a window only where it has eight words, the first of them a number
/// behind `0x`, and the sixth and seventh a width and a height.
pub proof fn a_window_needs_a_number_and_a_size(
    words: Seq<Seq<char>>,
    focused_id: Option<u64>,
    width: u32,
    height: u32,
    id: u64,
)
    requires
        words.len() > 0,
        forall|i: int| 0 <= i < words.len() ==> is_word(#[trigger] words[i]),
    ensures
        words.len() < 8 ==> window_in_line(joined(words, " "@), focused_id) is None,
        words.len() >= 8 && !has_prefix(words[0], "0x"@) ==> window_in_line(
            joined(words, " "@),
            focused_id,
        ) is None,
        words.len() >= 8 && (u32_value(words[5]) is None || u32_value(words[6]) is None)
            ==> window_in_line(joined(words, " "@), focused_id) is None,
        words.len() >= 8 && words[0] == "0x"@ + hexadecimal(id as nat) && words[5] == decimal(
            width as nat,
        ) && words[6] == decimal(height as nat) ==> {
            let window = window_in_line(joined(words, " "@), focused_id);
            &&& window is Some
            &&& window->0.window_id == id
            &&& window->0.bounds is Some
            &&& window->0.bounds->0.width == width
            &&& window->0.bounds->0.height == height
            &&& window->0.focused <==> focused_id == Some(id)
        },
{
    words_survive_joining(words);
    window_id_survives(id);
    written_numbers_are_read_back(width as nat, 0);
    written_numbers_are_read_back(height as nat, 0);
}

// ---------------------------------------------------------------------------
// Activating a window.
// ---------------------------------------------------------------------------

/// The number of a window as `wmctrl` takes it.
pub open spec fn window_id_text(window_id: nat) -> Seq<char> {
    "0x"@ + hexadecimal(window_id)
}

/// The number of a window that is activated is read back as that window when
/// windows are listed.
pub proof fn window_id_survives(window_id: u64)
    ensures
        window_number(window_id_text(window_id as nat)) == Some(window_id as int),
{
    reveal_strlit("0x");
    let digits = hexadecimal(window_id as nat);
    let text = window_id_text(window_id as nat);
    digits_denote_their_number(window_id as nat, 16);
    assert(text.subrange(0, 2) =~= "0x"@);
    assert(text.skip(2) =~= digits);
    assert(is_numeral(digits, 16));
    assert(digits[0] != '+');
}

fn window_id_string(window_id: u64) -> (r: String)
    ensures
        r@ == window_id_text(window_id as nat),
{
    "0x".to_owned().concat(to_hexadecimal(window_id).as_str())
}

/// The command that activates a window.
pub fn activate_window(window_id: u64) -> (r: CommandSpec)
    ensures
        r@ == wmctrl(seq!["-i"@, "-a"@, window_id_text(window_id as nat)]),
{
    let id = window_id_string(window_id);
    let args = ["-i", "-a", id.as_str()];
    assert(slices(args@) =~= seq!["-i"@, "-a"@, id@]);
    command_spec("wmctrl", &args, false)
}

/// What came of activating a window.
pub fn window_activated(window_id: u64, outcome: &CommandOutcome) -> (r: Result<(), WmctrlError>)
    ensures
        r is Ok <==> probe_works(*outcome),
        r matches Err(error) ==> Some(error@) == wmctrl_fault(
            "wmctrl -i -a "@ + window_id_text(window_id as nat),
            *outcome,
        ),
{
    let command = "wmctrl -i -a ".to_owned().concat(window_id_string(window_id).as_str());
    match fault_of_wmctrl(command.as_str(), outcome) {
        Some(error) => Err(error),
        None => Ok(()),
    }
}

// ---------------------------------------------------------------------------
// The active window.
// ---------------------------------------------------------------------------

/// The command that asks for the active window.
pub fn active_window_command() -> (r: CommandSpec)
    ensures
        r@ == (CommandText {
            program: "xprop"@,
            args: seq!["-root"@, "_NET_ACTIVE_WINDOW"@],
            session_bus: false,
        }),
{
    let args = ["-root", "_NET_ACTIVE_WINDOW"];
    assert(slices(args@) =~= seq!["-root"@, "_NET_ACTIVE_WINDOW"@]);
    command_spec("xprop", &args, false)
}

/// `p` first stands in `s` at index `i`.
pub open spec fn first_at(s: Seq<char>, p: Seq<char>, i: int) -> bool {
    occurs_at(s, p, i) && forall|j: int| 0 <= j < i ==> !occurs_at(s, p, j)
}

/// A hexadecimal digit.
pub open spec fn hex_digit(c: char) -> bool {
    ('0' <= c <= '9') || ('a' <= c <= 'f') || ('A' <= c <= 'F')
}

/// How many characters precede the first that is no hexadecimal digit.
pub open spec fn hex_run(s: Seq<char>) -> int
    decreases s.len(),
{
    if s.len() == 0 || !hex_digit(s[0]) {
        0
    } else {
        1 + hex_run(s.skip(1))
    }
}

/// The number after the first `0x` of a text.
pub open spec fn first_hex_number(s: Seq<char>) -> Option<int> {
    if has_text(s, "0x"@) {
        let i = choose|i: int| first_at(s, "0x"@, i);
        let rest = s.skip(i + 2);
        hex_u64_value(rest.take(hex_run(rest)))
    } else {
        None
    }
}

/// The active window that `xprop` printed.
pub open spec fn printed_active_window(outcome: CommandOutcome) -> Option<int> {
    match outcome {
        CommandOutcome::Exited(output) => if output.success {
            first_hex_number(utf8_text(output.stdout@))
        } else {
            None
        },
        CommandOutcome::NotStarted(_) => None,
    }
}

/// The active window is told only by a command that succeeded, and only by a
/// number behind `0x`.
pub proof fn active_window_needs_success(output: CommandOutput, reason: String, said: Seq<char>)
    requires
        output.stdout@ == encode_utf8(said),
    ensures
        printed_active_window(CommandOutcome::NotStarted(reason)) is None,
        !output.success ==> printed_active_window(CommandOutcome::Exited(output)) is None,
        !has_text(said, "0x"@) ==> printed_active_window(CommandOutcome::Exited(output)) is None,
        output.success ==> printed_active_window(CommandOutcome::Exited(output))
            == first_hex_number(said),
{
    encode_utf8_valid_utf8(said);
    encode_utf8_decode_utf8(said);
}

/// What is printed of the active window is read back as that window: the number
/// behind the first `0x`, up to what is no hexadecimal digit any more.
pub proof fn printed_active_window_is_read_back(id: u64, before: Seq<char>, after: Seq<char>)
    requires
        !has_text(before, "0x"@),
        after.len() > 0 ==> !('0' <= after[0] <= '9') && !('a' <= after[0] <= 'f') && !('A'
            <= after[0] <= 'F'),
    ensures
        first_hex_number(before + "0x"@ + hexadecimal(id as nat) + after) == Some(id as int),
{
    reveal_strlit("0x");
    let digits = hexadecimal(id as nat);
    let s = before + "0x"@ + digits + after;
    let k = before.len() as int;
    assert(s.subrange(k, k + 2) =~= "0x"@);
    assert(occurs_at(s, "0x"@, k));
    assert forall|j: int| 0 <= j < k implies !occurs_at(s, "0x"@, j) by {
        if occurs_at(s, "0x"@, j) {
            assert(s.subrange(j, j + 2)[0] == '0' && s.subrange(j, j + 2)[1] == 'x');
            assert(s[k] == '0');
            assert(j + 1 < k);
            assert(before.subrange(j, j + 2) =~= "0x"@);
            assert(occurs_at(before, "0x"@, j));
        }
    }
    assert(first_at(s, "0x"@, k));
    let i = choose|i: int| first_at(s, "0x"@, i);
    assert(i == k);
    let rest = s.skip(k + 2);
    assert(rest =~= digits + after);
    digits_denote_their_number(id as nat, 16);
    assert forall|j: int| 0 <= j < digits.len() implies hex_digit(#[trigger] digits[j]) by {
        assert(digit_value(digits[j]) < 16);
    }
    lemma_hex_run(digits, after);
    assert(rest.take(digits.len() as int) =~= digits);
    written_numbers_are_read_back(id as nat, 0);
}

proof fn lemma_hex_run(digits: Seq<char>, after: Seq<char>)
    requires
        forall|j: int| 0 <= j < digits.len() ==> hex_digit(#[trigger] digits[j]),
        after.len() > 0 ==> !hex_digit(after[0]),
    ensures
        hex_run(digits + after) == digits.len(),
    decreases digits.len(),
{
    let all = digits + after;
    if digits.len() == 0 {
        assert(all =~= after);
    } else {
        let rest = digits.skip(1);
        assert(hex_digit(digits[0]));
        assert forall|j: int| 0 <= j < rest.len() implies hex_digit(#[trigger] rest[j]) by {
            assert(hex_digit(digits[j + 1]));
        }
        lemma_hex_run(rest, after);
        assert(all.skip(1) =~= rest + after);
    }
}

/// The window that is printed as active, and no other, has the focus in the
/// listing.
pub proof fn active_window_has_the_focus(
    id: u64,
    before: Seq<char>,
    after: Seq<char>,
    ls: Seq<Seq<char>>,
    i: int,
)
    requires
        !has_text(before, "0x"@),
        after.len() > 0 ==> !('0' <= after[0] <= '9') && !('a' <= after[0] <= 'f') && !('A'
            <= after[0] <= 'F'),
        0 <= i < windows_in_lines(
            ls,
            Some(first_hex_number(before + "0x"@ + hexadecimal(id as nat) + after)->0 as u64),
        ).len(),
    ensures
        ({
            let windows = windows_in_lines(
                ls,
                Some(first_hex_number(before + "0x"@ + hexadecimal(id as nat) + after)->0 as u64),
            );
            windows[i].focused <==> windows[i].window_id == id
        }),
{
    printed_active_window_is_read_back(id, before, after);
    only_the_active_window_is_focused(ls, Some(id), i);
}

fn read_first_hex_number(s: &str) -> (r: Option<u64>)
    ensures
        r is Some <==> first_hex_number(s@) is Some,
        r is Some ==> Some(r->0 as int) == first_hex_number(s@),
{
    proof {
        reveal_strlit("0x");
    }
    let start: usize = match find(s, "0x") {
        Some(i) => i,
        None => {
            return None;
        },
    };
    proof {
        assert(first_at(s@, "0x"@, start as int));
        let i = choose|i: int| first_at(s@, "0x"@, i);
        assert(first_at(s@, "0x"@, i));
        assert(i == start);
    }
    let v = chars_of(s);
    let n: usize = v.len();
    let from: usize = start + 2;
    let ghost rest = s@.skip(from as int);
    let mut end: usize = from;
    assert(rest.skip(0) =~= rest);
    while end < n && (('0' <= v[end] && v[end] <= '9') || ('a' <= v[end] && v[end] <= 'f') || ('A'
        <= v[end] && v[end] <= 'F'))
        invariant
            from <= end <= n,
            n == v@.len(),
            v@ == s@,
            rest == s@.skip(from as int),
            hex_run(rest) == end - from + hex_run(rest.skip(end - from)),
        ensures
            end < n ==> !hex_digit(s@[end as int]),
        decreases n - end,
    {
        assert(rest.skip(end - from)[0] == s@[end as int]);
        assert(rest.skip(end - from).skip(1) =~= rest.skip(end + 1 - from));
        end += 1;
    }
    proof {
        let tail = rest.skip(end - from);
        if end < n {
            assert(tail[0] == s@[end as int]);
        }
        assert(hex_run(tail) == 0);
    }
    let digits = s.substring_char(from, end);
    assert(digits@ =~= rest.take(end - from));
    parse_hex_u64(digits)
}

/// The active window that `xprop` printed, for example
/// `_NET_ACTIVE_WINDOW(WINDOW): window id # 0x7800020`.
pub fn active_window_id(outcome: &CommandOutcome) -> (r: Option<u64>)
    ensures
        r is Some <==> printed_active_window(*outcome) is Some,
        r is Some ==> Some(r->0 as int) == printed_active_window(*outcome),
{
    match outcome {
        CommandOutcome::Exited(output) => {
            if !output.success {
                return None;
            }
            let text = from_utf8_lossy(output.stdout.as_slice());
            read_first_hex_number(text.as_str())
        },
        CommandOutcome::NotStarted(_) => None,
    }
}

} // verus!
