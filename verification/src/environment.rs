//! Process environments: how they are read, and how the desktop's settings are
//! carried over into an environment that lacks them.

use vstd::prelude::*;
use vstd::utf8::{
    decode_utf8, encode_utf8, encode_utf8_decode_utf8, encode_utf8_valid_utf8, valid_utf8,
};

use crate::bytes::{ascii_bytes_come_from_their_characters, from_utf8};
use crate::scan::{
    blank, fields, fields_survive_joining, is_blank, joined, lemma_position_is, position,
};
use crate::text::whitespace;
use crate::text_map::TextMap;

verus! {

/// The variables that tell a program which desktop session it belongs to.
pub const DESKTOP_ENV_KEYS: [&'static str; 11] = [
    "DBUS_SESSION_BUS_ADDRESS",
    "DESKTOP_SESSION",
    "DISPLAY",
    "HYPRLAND_INSTANCE_SIGNATURE",
    "XAUTHORITY",
    "YDOTOOL_SOCKET",
    "XDG_SESSION_DESKTOP",
    "WAYLAND_DISPLAY",
    "XDG_CURRENT_DESKTOP",
    "XDG_RUNTIME_DIR",
    "XDG_SESSION_TYPE",
];

// ---------------------------------------------------------------------------
// Model.
// ---------------------------------------------------------------------------

/// Variables and their values.
pub type Variables = Map<Seq<char>, Seq<char>>;

/// The texts of an environment's values.
pub open spec fn variables(env: &TextMap<String>) -> Variables {
    Map::new(|k: Seq<char>| env@.dom().contains(k), |k: Seq<char>| env@[k]@)
}

/// The variables of each of several environments.
pub open spec fn variables_of(envs: Seq<TextMap<String>>) -> Seq<Variables> {
    Seq::new(envs.len(), |i: int| variables(&envs[i]))
}

/// The value of a variable that is set to more than white space.
pub open spec fn setting(env: Variables, key: Seq<char>) -> Option<Seq<char>> {
    if env.dom().contains(key) && !blank(env[key]) {
        Some(env[key])
    } else {
        None
    }
}

/// The variable that one `KEY=value` entry defines. An entry without `=`, or
/// with a key or a value that is not UTF-8, defines none.
pub open spec fn definition(entry: Seq<u8>) -> Option<(Seq<char>, Seq<char>)> {
    let i = position(entry, 0x3du8);
    if i < entry.len() && valid_utf8(entry.take(i)) && valid_utf8(entry.skip(i + 1)) {
        Some((defined_key(entry), defined_value(entry)))
    } else {
        None
    }
}

/// The variable of an entry that defines one.
pub open spec fn defined_key(entry: Seq<u8>) -> Seq<char> {
    decode_utf8(entry.take(position(entry, 0x3du8)))
}

/// The value of an entry that defines a variable.
pub open spec fn defined_value(entry: Seq<u8>) -> Seq<char> {
    decode_utf8(entry.skip(position(entry, 0x3du8) + 1))
}

/// The variables that a list of entries defines, a later entry over an earlier.
pub open spec fn defined(entries: Seq<Seq<u8>>) -> Variables
    decreases entries.len(),
{
    if entries.len() == 0 {
        Map::empty()
    } else {
        match definition(entries.last()) {
            Some((key, value)) => defined(entries.drop_last()).insert(key, value),
            None => defined(entries.drop_last()),
        }
    }
}

/// One of the first `n` desktop variables.
pub open spec fn desktop_key_among(key: Seq<char>, n: int) -> bool {
    exists|i: int| 0 <= i < n && #[trigger] DESKTOP_ENV_KEYS@[i]@ == key
}

/// One of the desktop variables.
pub open spec fn desktop_key(key: Seq<char>) -> bool {
    desktop_key_among(key, 11)
}

/// `env` lacks a setting that `source` has.
pub open spec fn fills(env: Variables, source: Variables, key: Seq<char>) -> bool {
    setting(env, key) is None && setting(source, key) is Some
}

/// `env` with the settings that it lacks taken from `source`, for the first `n`
/// desktop variables.
pub open spec fn hydrated_among(env: Variables, source: Variables, n: int) -> Variables {
    Map::new(
        |k: Seq<char>| env.dom().contains(k) || (desktop_key_among(k, n) && fills(env, source, k)),
        |k: Seq<char>|
            if desktop_key_among(k, n) && fills(env, source, k) {
                source[k]
            } else {
                env[k]
            },
    )
}

/// `env` with the desktop settings that it lacks taken from `source`.
pub open spec fn hydrated(env: Variables, source: Variables) -> Variables {
    hydrated_among(env, source, 11)
}

/// `env` with the desktop settings that it lacks taken from the sources in turn.
pub open spec fn hydrated_from(env: Variables, sources: Seq<Variables>) -> Variables
    decreases sources.len(),
{
    if sources.len() == 0 {
        env
    } else {
        hydrated(hydrated_from(env, sources.drop_last()), sources.last())
    }
}

/// The setting of a variable in the first of the environments that has one.
pub open spec fn first_setting(envs: Seq<Variables>, key: Seq<char>) -> Option<Seq<char>>
    decreases envs.len(),
{
    if envs.len() == 0 {
        None
    } else if setting(envs[0], key) is Some {
        setting(envs[0], key)
    } else {
        first_setting(envs.skip(1), key)
    }
}

/// An environment shows a graphical display: its `DISPLAY`, or where it has
/// none its `WAYLAND_DISPLAY`, is more than white space.
pub open spec fn shows_display(env: Variables) -> bool {
    if env.dom().contains("DISPLAY"@) {
        !blank(env["DISPLAY"@])
    } else {
        setting(env, "WAYLAND_DISPLAY"@) is Some
    }
}

// ---------------------------------------------------------------------------
// Laws.
// ---------------------------------------------------------------------------

/// Of several entries for one variable the last one counts.
pub proof fn last_definition_counts(entries: Seq<Seq<u8>>, i: int)
    requires
        0 <= i < entries.len(),
        definition(entries[i]) is Some,
        forall|j: int|
            i < j < entries.len() && definition(#[trigger] entries[j]) is Some ==> defined_key(
                entries[j],
            ) != defined_key(entries[i]),
    ensures
        defined(entries).dom().contains(defined_key(entries[i])),
        defined(entries)[defined_key(entries[i])] == defined_value(entries[i]),
    decreases entries.len(),
{
    if i < entries.len() - 1 {
        let front = entries.drop_last();
        assert(front[i] == entries[i]);
        assert forall|j: int|
            i < j < front.len() && definition(#[trigger] front[j]) is Some implies defined_key(
            front[j],
        ) != defined_key(front[i]) by {
            assert(front[j] == entries[j]);
        }
        last_definition_counts(front, i);
        assert(entries.last() == entries[entries.len() - 1]);
    }
}

/// No variable comes from anywhere but an entry.
pub proof fn only_definitions_count(entries: Seq<Seq<u8>>, key: Seq<char>)
    requires
        defined(entries).dom().contains(key),
    ensures
        exists|i: int|
            0 <= i < entries.len() && definition(#[trigger] entries[i]) == Some(
                (key, defined(entries)[key]),
            ),
    decreases entries.len(),
{
    if entries.len() > 0 {
        let front = entries.drop_last();
        let last = entries.len() - 1;
        if definition(entries[last]) is Some && defined_key(entries[last]) == key {
            assert(definition(entries[last]) == Some((key, defined(entries)[key])));
        } else {
            only_definitions_count(front, key);
            let i = choose|i: int|
                0 <= i < front.len() && definition(#[trigger] front[i]) == Some(
                    (key, defined(front)[key]),
                );
            assert(entries[i] == front[i]);
        }
    }
}

/// A setting that an environment has is never replaced, and what is not a
/// desktop variable is left alone.
pub proof fn hydration_keeps_settings(env: Variables, sources: Seq<Variables>, key: Seq<char>)
    ensures
        setting(env, key) is Some ==> setting(hydrated_from(env, sources), key) == setting(env, key),
        !desktop_key(key) ==> hydrated_from(env, sources).dom().contains(key)
            == env.dom().contains(key),
        !desktop_key(key) && env.dom().contains(key) ==> hydrated_from(env, sources)[key]
            == env[key],
    decreases sources.len(),
{
    if sources.len() > 0 {
        hydration_keeps_settings(env, sources.drop_last(), key);
    }
}

/// A desktop variable ends up with the setting of the first environment that
/// has one, the hydrated environment itself before all sources.
pub proof fn first_source_wins(env: Variables, sources: Seq<Variables>, key: Seq<char>)
    requires
        desktop_key(key),
    ensures
        setting(hydrated_from(env, sources), key) == first_setting(seq![env] + sources, key),
    decreases sources.len(),
{
    if sources.len() == 0 {
        let all = seq![env] + sources;
        reveal_with_fuel(first_setting, 2);
        assert(all =~= seq![env]);
        assert(all.skip(1) =~= Seq::<Variables>::empty());
    } else {
        let front = sources.drop_last();
        first_source_wins(env, front, key);
        assert(seq![env] + sources =~= (seq![env] + front).push(sources.last()));
        lemma_first_setting_push(seq![env] + front, sources.last(), key);
    }
}

proof fn lemma_first_setting_push(envs: Seq<Variables>, last: Variables, key: Seq<char>)
    ensures
        first_setting(envs.push(last), key) == (if first_setting(envs, key) is Some {
            first_setting(envs, key)
        } else {
            setting(last, key)
        }),
    decreases envs.len(),
{
    let all = envs.push(last);
    if envs.len() == 0 {
        assert(all.skip(1) =~= Seq::<Variables>::empty());
    } else {
        assert(all.skip(1) =~= envs.skip(1).push(last));
        lemma_first_setting_push(envs.skip(1), last, key);
    }
}

/// A variable and its value are read back from the entry that is written for
/// them; the value may hold further equals signs.
pub proof fn written_definition_is_read_back(key: Seq<char>, value: Seq<char>)
    requires
        !key.contains('='),
    ensures
        definition(encode_utf8(key) + seq![0x3du8] + encode_utf8(value)) == Some((key, value)),
{
    let entry = encode_utf8(key) + seq![0x3du8] + encode_utf8(value);
    let n = encode_utf8(key).len() as int;
    ascii_bytes_come_from_their_characters(key, 0x3du8);
    assert forall|j: int| 0 <= j < n implies entry[j] != 0x3du8 by {
        assert(entry[j] == encode_utf8(key)[j]);
        assert(encode_utf8(key).contains(encode_utf8(key)[j]));
    }
    lemma_position_is(entry, 0x3du8, n);
    assert(entry.take(n) =~= encode_utf8(key));
    assert(entry.skip(n + 1) =~= encode_utf8(value));
    encode_utf8_valid_utf8(key);
    encode_utf8_decode_utf8(key);
    encode_utf8_valid_utf8(value);
    encode_utf8_decode_utf8(value);
}

/// What is written for a variable among entries with a separator between them is
/// read back, where it is the last for that variable, whatever the other entries
/// are.
pub proof fn written_environment_is_read_back(
    entries: Seq<Seq<u8>>,
    sep: u8,
    i: int,
    key: Seq<char>,
    value: Seq<char>,
)
    requires
        0 <= i < entries.len(),
        forall|j: int| 0 <= j < entries.len() ==> !(#[trigger] entries[j]).contains(sep),
        !key.contains('='),
        entries[i] == encode_utf8(key) + seq![0x3du8] + encode_utf8(value),
        forall|j: int|
            i < j < entries.len() && definition(#[trigger] entries[j]) is Some ==> defined_key(
                entries[j],
            ) != key,
    ensures
        ({
            let env = defined(fields(joined(entries, seq![sep]), sep));
            env.dom().contains(key) && env[key] == value
        }),
{
    fields_survive_joining(entries, sep);
    written_definition_is_read_back(key, value);
    last_definition_counts(entries, i);
}

/// An entry without an equals sign defines nothing.
pub proof fn entry_without_a_value_defines_nothing(entry: Seq<u8>)
    requires
        !entry.contains(0x3du8),
    ensures
        definition(entry) is None,
{
    lemma_position_is(entry, 0x3du8, entry.len() as int);
}

/// A value counts as a setting exactly where it holds more than white space.
pub proof fn blank_values_are_no_settings(
    env: Variables,
    key: Seq<char>,
    value: Seq<char>,
    i: int,
)
    ensures
        0 <= i < value.len() && !whitespace(value[i]) ==> setting(env.insert(key, value), key)
            == Some(value),
        blank(value) ==> setting(env.insert(key, value), key) is None,
        setting(env.remove(key), key) is None,
{
}

/// A desktop variable that an environment lacks is taken from the nearest source
/// that has it, and from no other.
pub proof fn nearest_source_counts(
    env: Variables,
    sources: Seq<Variables>,
    key: Seq<char>,
    i: int,
)
    requires
        desktop_key(key),
        setting(env, key) is None,
        0 <= i < sources.len(),
        setting(sources[i], key) is Some,
        forall|j: int| 0 <= j < i ==> setting(#[trigger] sources[j], key) is None,
    ensures
        setting(hydrated_from(env, sources), key) == setting(sources[i], key),
{
    first_source_wins(env, sources, key);
    let all = seq![env] + sources;
    assert forall|j: int| 0 <= j < i + 1 implies setting(#[trigger] all[j], key) is None by {
        if j > 0 {
            assert(all[j] == sources[j - 1]);
        }
    }
    assert(all[i + 1] == sources[i]);
    lemma_first_setting_at(all, key, i + 1);
}

proof fn lemma_first_setting_at(envs: Seq<Variables>, key: Seq<char>, i: int)
    requires
        0 <= i < envs.len(),
        setting(envs[i], key) is Some,
        forall|j: int| 0 <= j < i ==> setting(#[trigger] envs[j], key) is None,
    ensures
        first_setting(envs, key) == setting(envs[i], key),
    decreases i,
{
    if i > 0 {
        let rest = envs.skip(1);
        assert(setting(envs[0], key) is None);
        assert forall|j: int| 0 <= j < i - 1 implies setting(#[trigger] rest[j], key) is None by {
            assert(rest[j] == envs[j + 1]);
        }
        assert(rest[i - 1] == envs[i]);
        lemma_first_setting_at(rest, key, i - 1);
    }
}

/// These are the variables that are carried over.
pub proof fn desktop_variables_are_carried_over()
    ensures
        desktop_key("DBUS_SESSION_BUS_ADDRESS"@),
        desktop_key("DESKTOP_SESSION"@),
        desktop_key("DISPLAY"@),
        desktop_key("HYPRLAND_INSTANCE_SIGNATURE"@),
        desktop_key("XAUTHORITY"@),
        desktop_key("YDOTOOL_SOCKET"@),
        desktop_key("XDG_SESSION_DESKTOP"@),
        desktop_key("WAYLAND_DISPLAY"@),
        desktop_key("XDG_CURRENT_DESKTOP"@),
        desktop_key("XDG_RUNTIME_DIR"@),
        desktop_key("XDG_SESSION_TYPE"@),
{
    assert(DESKTOP_ENV_KEYS@[0]@ == "DBUS_SESSION_BUS_ADDRESS"@);
    assert(DESKTOP_ENV_KEYS@[1]@ == "DESKTOP_SESSION"@);
    assert(DESKTOP_ENV_KEYS@[2]@ == "DISPLAY"@);
    assert(DESKTOP_ENV_KEYS@[3]@ == "HYPRLAND_INSTANCE_SIGNATURE"@);
    assert(DESKTOP_ENV_KEYS@[4]@ == "XAUTHORITY"@);
    assert(DESKTOP_ENV_KEYS@[5]@ == "YDOTOOL_SOCKET"@);
    assert(DESKTOP_ENV_KEYS@[6]@ == "XDG_SESSION_DESKTOP"@);
    assert(DESKTOP_ENV_KEYS@[7]@ == "WAYLAND_DISPLAY"@);
    assert(DESKTOP_ENV_KEYS@[8]@ == "XDG_CURRENT_DESKTOP"@);
    assert(DESKTOP_ENV_KEYS@[9]@ == "XDG_RUNTIME_DIR"@);
    assert(DESKTOP_ENV_KEYS@[10]@ == "XDG_SESSION_TYPE"@);
}

/// No other variable is carried over.
pub proof fn no_other_variable_is_carried_over(key: Seq<char>)
    requires
        desktop_key(key),
    ensures
        key == "DBUS_SESSION_BUS_ADDRESS"@ || key == "DESKTOP_SESSION"@ || key == "DISPLAY"@ || key
            == "HYPRLAND_INSTANCE_SIGNATURE"@ || key == "XAUTHORITY"@ || key == "YDOTOOL_SOCKET"@
            || key == "XDG_SESSION_DESKTOP"@ || key == "WAYLAND_DISPLAY"@ || key
            == "XDG_CURRENT_DESKTOP"@ || key == "XDG_RUNTIME_DIR"@ || key == "XDG_SESSION_TYPE"@,
{
    let i = choose|i: int| 0 <= i < 11 && #[trigger] DESKTOP_ENV_KEYS@[i]@ == key;
    assert(0 <= i < 11);
    assert(i == 0 || i == 1 || i == 2 || i == 3 || i == 4 || i == 5 || i == 6 || i == 7 || i == 8
        || i == 9 || i == 10);
}

/// Either of the two displays is enough to show one; where X11's is there, but
/// only white space, the other does not count; and without both there is none.
pub proof fn either_display_is_enough(env: Variables)
    ensures
        setting(env, "DISPLAY"@) is Some ==> shows_display(env),
        !env.dom().contains("DISPLAY"@) && setting(env, "WAYLAND_DISPLAY"@) is Some
            ==> shows_display(env),
        setting(env, "DISPLAY"@) is None && setting(env, "WAYLAND_DISPLAY"@) is None
            ==> !shows_display(env),
        env.dom().contains("DISPLAY"@) && blank(env["DISPLAY"@]) ==> !shows_display(env),
{
}

/// An environment that has every desktop setting takes nothing over.
proof fn lemma_complete_is_kept(env: Variables, sources: Seq<Variables>)
    requires
        forall|k: Seq<char>| #[trigger] desktop_key(k) ==> setting(env, k) is Some,
    ensures
        hydrated_from(env, sources) == env,
    decreases sources.len(),
{
    if sources.len() > 0 {
        lemma_complete_is_kept(env, sources.drop_last());
        assert forall|k: Seq<char>| !(#[trigger] desktop_key_among(k, 11) && fills(
            env,
            sources.last(),
            k,
        )) by {
            assert(desktop_key(k) == desktop_key_among(k, 11));
        }
        assert(hydrated(env, sources.last()) =~= env);
    }
}

proof fn lemma_hydrated_from_split(env: Variables, sources: Seq<Variables>, n: int)
    requires
        0 <= n <= sources.len(),
    ensures
        hydrated_from(env, sources) == hydrated_from(
            hydrated_from(env, sources.take(n)),
            sources.skip(n),
        ),
    decreases sources.len(),
{
    if n == sources.len() {
        assert(sources.take(n) =~= sources);
        assert(sources.skip(n) =~= Seq::<Variables>::empty());
    } else {
        lemma_hydrated_from_split(env, sources.drop_last(), n);
        assert(sources.drop_last().take(n) =~= sources.take(n));
        assert(sources.skip(n).drop_last() =~= sources.drop_last().skip(n));
        assert(sources.skip(n).last() == sources.last());
    }
}

// ---------------------------------------------------------------------------
// Reading.
// ---------------------------------------------------------------------------

/// Adds the variable that an entry defines.
fn add_entry(env: &mut TextMap<String>, entry: &[u8])
    ensures
        variables(final(env)) == (match definition(entry@) {
            Some((key, value)) => variables(old(env)).insert(key, value),
            None => variables(old(env)),
        }),
{
    let n: usize = entry.len();
    let mut i: usize = 0;
    while i < n && entry[i] != 0x3d
        invariant
            i <= n,
            n == entry@.len(),
            forall|j: int| 0 <= j < i ==> entry@[j] != 0x3du8,
        decreases n - i,
    {
        i += 1;
    }
    proof {
        lemma_position_is(entry@, 0x3du8, i as int);
    }
    if i < n {
        let key_bytes = &entry[0..i];
        let value_bytes = &entry[i + 1..n];
        assert(key_bytes@ =~= entry@.take(i as int));
        assert(value_bytes@ =~= entry@.skip(i + 1));
        match (from_utf8(key_bytes), from_utf8(value_bytes)) {
            (Some(key), Some(value)) => {
                let ghost k = key@;
                let ghost v = value@;
                env.insert(key, value);
                assert(variables(env) =~= variables(old(env)).insert(k, v));
            },
            _ => {},
        }
    }
}

/// The variables that the entries of `bytes` define, `sep` ending each entry.
fn parse_entries(bytes: &[u8], sep: u8) -> (r: TextMap<String>)
    ensures
        variables(&r) == defined(fields(bytes@, sep)),
{
    let n: usize = bytes.len();
    let mut env: TextMap<String> = TextMap::new();
    let mut start: usize = 0;
    let mut i: usize = 0;
    let ghost mut done: Seq<Seq<u8>> = seq![];
    assert(bytes@.skip(0) =~= bytes@);
    assert(done + fields(bytes@, sep) =~= fields(bytes@, sep));
    assert(variables(&env) =~= defined(done));
    while i < n
        invariant
            start <= i <= n,
            n == bytes@.len(),
            forall|j: int| start <= j < i ==> bytes@[j] != sep,
            done + fields(bytes@.skip(start as int), sep) == fields(bytes@, sep),
            variables(&env) == defined(done),
        decreases n - i,
    {
        if bytes[i] == sep {
            let ghost rest = bytes@.skip(start as int);
            let entry = &bytes[start..i];
            add_entry(&mut env, entry);
            proof {
                lemma_position_is(rest, sep, i - start);
                assert(rest.take(i - start) =~= entry@);
                assert(rest.skip(i - start + 1) =~= bytes@.skip(i + 1));
                let more = done.push(entry@);
                assert(more + fields(bytes@.skip(i + 1), sep) =~= done + fields(rest, sep));
                assert(more.drop_last() =~= done);
                done = more;
            }
            start = i + 1;
        }
        i += 1;
    }
    let ghost rest = bytes@.skip(start as int);
    let entry = &bytes[start..n];
    add_entry(&mut env, entry);
    proof {
        lemma_position_is(rest, sep, n - start);
        assert(entry@ =~= rest);
        let more = done.push(entry@);
        assert(more =~= done + fields(rest, sep));
        assert(more.drop_last() =~= done);
    }
    env
}

/// Reads the entries of `/proc/<pid>/environ`, each ended by a zero byte.
pub fn parse_environ(bytes: &[u8]) -> (r: TextMap<String>)
    ensures
        variables(&r) == defined(fields(bytes@, 0u8)),
{
    parse_entries(bytes, 0)
}

/// Reads the lines of `systemctl --user show-environment`.
pub fn parse_line_environment(bytes: &[u8]) -> (r: TextMap<String>)
    ensures
        variables(&r) == defined(fields(bytes@, 0x0au8)),
{
    parse_entries(bytes, 0x0a)
}

/// The value of a variable that is set to more than white space.
pub fn env_var(env: &TextMap<String>, key: &str) -> (r: Option<String>)
    ensures
        r is Some <==> setting(variables(env), key@) is Some,
        r is Some ==> Some(r->0@) == setting(variables(env), key@),
{
    match env.get(key) {
        Some(value) => if is_blank(value.as_str()) {
            None
        } else {
            Some(value.clone())
        },
        None => None,
    }
}

/// Whether an environment shows a graphical display.
pub fn process_env_has_graphical_display(env: &TextMap<String>) -> (r: bool)
    ensures
        r == shows_display(variables(env)),
{
    match env.get("DISPLAY") {
        Some(value) => !is_blank(value.as_str()),
        None => env_var(env, "WAYLAND_DISPLAY").is_some(),
    }
}

// ---------------------------------------------------------------------------
// Hydration.
// ---------------------------------------------------------------------------

/// Takes the desktop settings that `env` lacks over from a process's
/// environment.
pub fn hydrate_desktop_env_from_map(env: &mut TextMap<String>, process_env: &TextMap<String>)
    ensures
        variables(final(env)) == hydrated(variables(old(env)), variables(process_env)),
{
    let ghost start = variables(env);
    let ghost source = variables(process_env);
    let mut i: usize = 0;
    assert(start =~= hydrated_among(start, source, 0));
    while i < 11
        invariant
            i <= 11,
            source == variables(process_env),
            variables(env) == hydrated_among(start, source, i as int),
        decreases 11 - i,
    {
        let key = DESKTOP_ENV_KEYS[i];
        let ghost before = variables(env);
        assert(forall|k: Seq<char>|
            desktop_key_among(k, i + 1) <==> desktop_key_among(k, i as int) || k == key@) by {
            assert forall|k: Seq<char>|
                desktop_key_among(k, i as int) || k == key@ implies desktop_key_among(k, i + 1) by {
                if k == key@ {
                    assert(DESKTOP_ENV_KEYS@[i as int]@ == k);
                } else {
                    let j = choose|j: int| 0 <= j < i && #[trigger] DESKTOP_ENV_KEYS@[j]@ == k;
                    assert(DESKTOP_ENV_KEYS@[j]@ == k);
                }
            }
        }
        if env_var(env, key).is_none() {
            if let Some(value) = env_var(process_env, key) {
                let ghost v = value@;
                env.insert(key.to_owned(), value);
                assert(variables(env) =~= before.insert(key@, v));
            }
        }
        assert(variables(env) =~= hydrated_among(start, source, i + 1));
        i += 1;
    }
}

/// Whether an environment has every desktop setting.
fn is_complete(env: &TextMap<String>) -> (r: bool)
    ensures
        r == (forall|k: Seq<char>| #[trigger] desktop_key(k) ==> setting(variables(env), k) is Some),
{
    let mut i: usize = 0;
    while i < 11
        invariant
            i <= 11,
            forall|j: int|
                0 <= j < i ==> setting(
                    variables(env),
                    #[trigger] DESKTOP_ENV_KEYS@[j]@,
                ) is Some,
        decreases 11 - i,
    {
        if env_var(env, DESKTOP_ENV_KEYS[i]).is_none() {
            assert(desktop_key(DESKTOP_ENV_KEYS@[i as int]@));
            return false;
        }
        i += 1;
    }
    true
}

/// Takes the desktop settings that `env` lacks over from the environments of
/// the processes above it, the nearest first.
pub fn hydrate_desktop_env_from_process_tree(
    env: &mut TextMap<String>,
    environments: &Vec<TextMap<String>>,
)
    ensures
        variables(final(env)) == hydrated_from(variables(old(env)), variables_of(environments@)),
{
    let ghost start = variables(env);
    let ghost sources = variables_of(environments@);
    let n: usize = environments.len();
    let mut i: usize = 0;
    assert(sources.take(0) =~= Seq::<Variables>::empty());
    while i < n
        invariant
            i <= n,
            n == environments@.len(),
            sources == variables_of(environments@),
            start == variables(old(env)),
            variables(env) == hydrated_from(start, sources.take(i as int)),
        decreases n - i,
    {
        hydrate_desktop_env_from_map(env, &environments[i]);
        proof {
            assert(sources.take(i + 1).drop_last() =~= sources.take(i as int));
            assert(sources.take(i + 1).last() == variables(&environments@[i as int]));
        }
        i += 1;
        if is_complete(env) {
            proof {
                lemma_hydrated_from_split(start, sources, i as int);
                lemma_complete_is_kept(variables(env), sources.skip(i as int));
            }
            return;
        }
    }
    assert(sources.take(n as int) =~= sources);
}

} // verus!
