//! Where the user's session lives: its runtime directory and its message bus.

use vstd::prelude::*;
use vstd::utf8::{encode_utf8, encode_utf8_decode_utf8, encode_utf8_valid_utf8};

use crate::command::{
    command_spec, written, written_text, CommandOutcome, CommandOutput, CommandSpec, CommandText,
};
use crate::environment::{
    defined, defined_key, definition, desktop_key, desktop_key_among, env_var, hydrate_desktop_env_from_map,
    hydrate_desktop_env_from_process_tree, hydrated, hydrated_from, hydration_keeps_settings,
    parse_line_environment, setting, variables, variables_of, written_environment_is_read_back,
    Variables, DESKTOP_ENV_KEYS,
};
use crate::scan::{blank, fields, joined, slices, trimming_leaves_the_text};
use crate::text::{chars_of, whitespace};
use crate::text_map::{is_key, TextMap};

verus! {

// ---------------------------------------------------------------------------
// Model.
// ---------------------------------------------------------------------------

/// The text of an optional string.
pub open spec fn optional_text(s: Option<String>) -> Option<Seq<char>> {
    match s {
        Some(text) => Some(text@),
        None => None,
    }
}

/// A relative path below a directory.
pub open spec fn below(dir: Seq<char>, leaf: Seq<char>) -> Seq<char> {
    if dir.len() == 0 || dir.last() == '/' {
        dir + leaf
    } else {
        dir + "/"@ + leaf
    }
}

/// The user id that `id -u` printed.
pub open spec fn printed_user_id(outcome: CommandOutcome) -> Option<Seq<char>> {
    match outcome {
        CommandOutcome::Exited(output) => if output.success && written(output.stdout@).len() > 0 {
            Some(written(output.stdout@))
        } else {
            None
        },
        CommandOutcome::NotStarted(_) => None,
    }
}

/// The runtime directory: the one that is set, or else the user's usual one.
pub open spec fn runtime_dir(env: Variables, user_id: Option<Seq<char>>) -> Option<Seq<char>> {
    match setting(env, "XDG_RUNTIME_DIR"@) {
        Some(dir) => Some(dir),
        None => match user_id {
            Some(uid) => Some("/run/user/"@ + uid),
            None => None,
        },
    }
}

/// The socket of the message bus in the runtime directory.
pub open spec fn bus_socket(env: Variables, user_id: Option<Seq<char>>) -> Option<Seq<char>> {
    match runtime_dir(env, user_id) {
        Some(dir) => Some(below(dir, "bus"@)),
        None => None,
    }
}

/// The bus address of a socket.
pub open spec fn address_of(socket: Seq<char>) -> Seq<char> {
    "unix:path="@ + socket
}

/// The address of the session bus: the one that is set, or else that of the
/// socket in the runtime directory, where it exists.
pub open spec fn bus_address(
    env: Variables,
    user_id: Option<Seq<char>>,
    socket_exists: bool,
) -> Option<Seq<char>> {
    match setting(env, "DBUS_SESSION_BUS_ADDRESS"@) {
        Some(address) => Some(address),
        None => match bus_socket(env, user_id) {
            Some(socket) => if socket_exists {
                Some(address_of(socket))
            } else {
                None
            },
            None => None,
        },
    }
}

// ---------------------------------------------------------------------------
// Looking up.
// ---------------------------------------------------------------------------

/// A relative path below a directory.
pub fn path_below(dir: &str, leaf: &str) -> (r: String)
    ensures
        r@ == below(dir@, leaf@),
{
    let v = chars_of(dir);
    let n: usize = v.len();
    if n == 0 || v[n - 1] == '/' {
        dir.to_owned().concat(leaf)
    } else {
        dir.to_owned().concat("/").concat(leaf)
    }
}

/// The command that prints the user's id.
pub fn user_id_command() -> (r: CommandSpec)
    ensures
        r@ == (CommandText { program: "id"@, args: seq!["-u"@], session_bus: false }),
{
    let r = command_spec("id", &["-u"], false);
    assert(r@.args =~= seq!["-u"@]);
    r
}

/// The user id that `id -u` printed.
pub fn user_id(outcome: &CommandOutcome) -> (r: Option<String>)
    ensures
        optional_text(r) == printed_user_id(*outcome),
{
    match outcome {
        CommandOutcome::Exited(output) => {
            if !output.success {
                return None;
            }
            let id = written_text(&output.stdout);
            if id.as_str().is_empty() {
                None
            } else {
                Some(id)
            }
        },
        CommandOutcome::NotStarted(_) => None,
    }
}

/// The runtime directory of the user's session.
pub fn xdg_runtime_dir(env: &TextMap<String>, user_id: &Option<String>) -> (r: Option<String>)
    ensures
        optional_text(r) == runtime_dir(variables(env), optional_text(*user_id)),
{
    match env_var(env, "XDG_RUNTIME_DIR") {
        Some(dir) => Some(dir),
        None => match user_id {
            Some(uid) => Some("/run/user/".to_owned().concat(uid.as_str())),
            None => None,
        },
    }
}

/// The socket whose existence decides whether the bus address can be told from
/// the runtime directory.
pub fn session_bus_socket(env: &TextMap<String>, user_id: &Option<String>) -> (r: Option<String>)
    ensures
        optional_text(r) == bus_socket(variables(env), optional_text(*user_id)),
{
    match xdg_runtime_dir(env, user_id) {
        Some(dir) => Some(path_below(dir.as_str(), "bus")),
        None => None,
    }
}

/// The address of the session bus, told whether `session_bus_socket` exists.
pub fn dbus_session_address(
    env: &TextMap<String>,
    user_id: &Option<String>,
    socket_exists: bool,
) -> (r: Option<String>)
    ensures
        optional_text(r) == bus_address(variables(env), optional_text(*user_id), socket_exists),
{
    match env_var(env, "DBUS_SESSION_BUS_ADDRESS") {
        Some(address) => Some(address),
        None => match session_bus_socket(env, user_id) {
            Some(socket) => if socket_exists {
                Some("unix:path=".to_owned().concat(socket.as_str()))
            } else {
                None
            },
            None => None,
        },
    }
}

/// The variables that a command gets so that it finds the session bus.
pub open spec fn bus_variables(
    env: Variables,
    user_id: Option<Seq<char>>,
    socket_exists: bool,
) -> Variables {
    let with_address = match bus_address(env, user_id, socket_exists) {
        Some(address) => Map::empty().insert("DBUS_SESSION_BUS_ADDRESS"@, address),
        None => Map::empty(),
    };
    match runtime_dir(env, user_id) {
        Some(dir) => with_address.insert("XDG_RUNTIME_DIR"@, dir),
        None => with_address,
    }
}

/// Sets a variable.
fn set_variable(env: &mut TextMap<String>, key: &str, value: String)
    ensures
        variables(final(env)) == variables(old(env)).insert(key@, value@),
{
    let ghost text = value@;
    env.insert(key.to_owned(), value);
    assert(variables(env) =~= variables(old(env)).insert(key@, text));
}

/// An environment with the same variables.
fn same_variables(env: &TextMap<String>) -> (r: TextMap<String>)
    ensures
        variables(&r) == variables(env),
{
    let mut out: TextMap<String> = TextMap::new();
    let n: usize = env.len();
    let mut i: usize = 0;
    assert(variables(&out).dom() =~= Set::empty());
    while i < n
        invariant
            i <= n,
            n == env.listing().len(),
            forall|k: Seq<char>| #[trigger]
                variables(&out).dom().contains(k) <==> is_key(env.listing().take(i as int), k),
            forall|k: Seq<char>| #[trigger]
                variables(&out).dom().contains(k) ==> variables(&out)[k] == variables(env)[k],
        decreases n - i,
    {
        let entry = env.entry(i);
        let ghost before = env.listing().take(i as int);
        let ghost after = env.listing().take(i + 1);
        proof {
            assert(after =~= before.push(*entry));
            assert forall|k: Seq<char>|
                is_key(after, k) <==> is_key(before, k) || k == entry.key@ by {
                assert(after[i as int].key@ == entry.key@);
                if is_key(before, k) {
                    let j = choose|j: int| 0 <= j < before.len() && #[trigger] before[j].key@ == k;
                    assert(after[j].key@ == k);
                }
                if is_key(after, k) && k != entry.key@ {
                    let j = choose|j: int| 0 <= j < after.len() && #[trigger] after[j].key@ == k;
                    assert(before[j].key@ == k);
                }
            }
        }
        set_variable(&mut out, entry.key.as_str(), entry.value.clone());
        i += 1;
    }
    assert(env.listing().take(n as int) =~= env.listing());
    assert(variables(&out) =~= variables(env));
    out
}

/// The variables that a command gets so that it finds the session bus.
pub fn session_bus_variables(
    env: &TextMap<String>,
    user_id: &Option<String>,
    socket_exists: bool,
) -> (r: TextMap<String>)
    ensures
        variables(&r) == bus_variables(variables(env), optional_text(*user_id), socket_exists),
{
    let mut out: TextMap<String> = TextMap::new();
    assert(variables(&out) =~= Map::empty());
    if let Some(address) = dbus_session_address(env, user_id, socket_exists) {
        set_variable(&mut out, "DBUS_SESSION_BUS_ADDRESS", address);
    }
    if let Some(dir) = xdg_runtime_dir(env, user_id) {
        set_variable(&mut out, "XDG_RUNTIME_DIR", dir);
    }
    out
}

// ---------------------------------------------------------------------------
// The settings of the systemd user manager.
// ---------------------------------------------------------------------------

/// The command that prints the environment of the systemd user manager.
pub open spec fn systemd_command() -> CommandText {
    CommandText {
        program: "systemctl"@,
        args: seq!["--user"@, "show-environment"@],
        session_bus: false,
    }
}

/// The command that prints the environment of the systemd user manager.
pub fn systemd_environment_command() -> (r: CommandSpec)
    ensures
        r@ == systemd_command(),
{
    let args = ["--user", "show-environment"];
    assert(slices(args@) =~= seq!["--user"@, "show-environment"@]);
    command_spec("systemctl", &args, false)
}

/// `env` with the desktop settings that it lacks taken from what that command
/// printed, where it succeeded.
pub open spec fn hydrated_from_systemd(env: Variables, outcome: CommandOutcome) -> Variables {
    match outcome {
        CommandOutcome::Exited(output) => if output.success {
            hydrated(env, defined(fields(output.stdout@, 0x0au8)))
        } else {
            env
        },
        CommandOutcome::NotStarted(_) => env,
    }
}

/// Takes the desktop settings that `env` lacks over from the systemd user
/// manager.
pub fn hydrate_desktop_env_from_systemd_user(env: &mut TextMap<String>, outcome: &CommandOutcome)
    ensures
        variables(final(env)) == hydrated_from_systemd(variables(old(env)), *outcome),
{
    if let CommandOutcome::Exited(output) = outcome {
        if output.success {
            let source = parse_line_environment(output.stdout.as_slice());
            hydrate_desktop_env_from_map(env, &source);
        }
    }
}

// ---------------------------------------------------------------------------
// Hydration as a mathematical value.
// ---------------------------------------------------------------------------

/// What the hydration waits for.
#[derive(Debug, Clone, Copy, PartialEq, Eq, Structural)]
pub enum HydrationStage {
    /// What the systemd user manager's environment is.
    Systemd,
    /// Whether the user's usual runtime directory exists.
    RuntimeDir,
    /// Whether the bus socket exists.
    BusSocket,
    Finished,
}

/// A hydration: the environment as far as it is hydrated, and what comes next.
pub struct HydrationState {
    pub env: Variables,
    pub user_id: Option<Seq<char>>,
    pub stage: HydrationStage,
}

/// What a hydration asks for.
pub enum HydrationRequestText {
    /// To run a command in an environment.
    Run { env: Variables, command: CommandText },
    /// Whether a path exists.
    Exists(Seq<char>),
    Nothing,
}

/// What a hydration is told.
#[derive(Debug)]
pub enum HydrationAnswer {
    /// What came of the command.
    Ran(CommandOutcome),
    /// Whether the path exists.
    Exists(bool),
}

/// The hydration at the point where the runtime directory is settled.
pub open spec fn at_bus_socket(env: Variables, user_id: Option<Seq<char>>) -> HydrationState {
    HydrationState {
        env,
        user_id,
        stage: if setting(env, "DBUS_SESSION_BUS_ADDRESS"@) is None && bus_socket(
            env,
            user_id,
        ) is Some {
            HydrationStage::BusSocket
        } else {
            HydrationStage::Finished
        },
    }
}

/// The hydration at the point where the desktop settings are settled.
pub open spec fn at_runtime_dir(env: Variables, user_id: Option<Seq<char>>) -> HydrationState {
    if setting(env, "XDG_RUNTIME_DIR"@) is None && user_id is Some {
        HydrationState { env, user_id, stage: HydrationStage::RuntimeDir }
    } else {
        at_bus_socket(env, user_id)
    }
}

/// The hydration at its start: the desktop settings of the processes above are
/// taken over before anything is asked for.
pub open spec fn hydration_start(
    env: Variables,
    process_envs: Seq<Variables>,
    user_id: Option<Seq<char>>,
) -> HydrationState {
    HydrationState {
        env: hydrated_from(env, process_envs),
        user_id,
        stage: HydrationStage::Systemd,
    }
}

/// What a hydration asks for. The systemd user manager is asked in the
/// environment as it is hydrated by then, so that it can be found.
pub open spec fn hydration_request(s: HydrationState) -> HydrationRequestText {
    match s.stage {
        HydrationStage::Systemd => HydrationRequestText::Run {
            env: s.env,
            command: systemd_command(),
        },
        HydrationStage::RuntimeDir => match runtime_dir(s.env, s.user_id) {
            Some(dir) => HydrationRequestText::Exists(dir),
            None => HydrationRequestText::Nothing,
        },
        HydrationStage::BusSocket => match bus_socket(s.env, s.user_id) {
            Some(socket) => HydrationRequestText::Exists(socket),
            None => HydrationRequestText::Nothing,
        },
        HydrationStage::Finished => HydrationRequestText::Nothing,
    }
}

/// A hydration after an answer. An answer to something else leaves it as it is.
pub open spec fn hydration_step(s: HydrationState, answer: HydrationAnswer) -> HydrationState {
    match (s.stage, answer) {
        (HydrationStage::Systemd, HydrationAnswer::Ran(outcome)) => at_runtime_dir(
            hydrated_from_systemd(s.env, outcome),
            s.user_id,
        ),
        (HydrationStage::RuntimeDir, HydrationAnswer::Exists(found)) => at_bus_socket(
            if found && runtime_dir(s.env, s.user_id) is Some {
                s.env.insert("XDG_RUNTIME_DIR"@, runtime_dir(s.env, s.user_id)->0)
            } else {
                s.env
            },
            s.user_id,
        ),
        (HydrationStage::BusSocket, HydrationAnswer::Exists(found)) => HydrationState {
            env: if found && bus_socket(s.env, s.user_id) is Some {
                s.env.insert(
                    "DBUS_SESSION_BUS_ADDRESS"@,
                    address_of(bus_socket(s.env, s.user_id)->0),
                )
            } else {
                s.env
            },
            user_id: s.user_id,
            stage: HydrationStage::Finished,
        },
        _ => s,
    }
}

/// A hydration after each of the given answers in turn.
pub open spec fn hydration_run(
    s: HydrationState,
    answers: Seq<HydrationAnswer>,
) -> HydrationState
    decreases answers.len(),
{
    if answers.len() == 0 {
        s
    } else {
        hydration_step(hydration_run(s, answers.drop_last()), answers.last())
    }
}

// ---------------------------------------------------------------------------
// Laws.
// ---------------------------------------------------------------------------

/// A hydration waits only for what can be asked for.
pub open spec fn hydration_sound(s: HydrationState) -> bool {
    match s.stage {
        HydrationStage::Systemd => true,
        HydrationStage::RuntimeDir => setting(s.env, "XDG_RUNTIME_DIR"@) is None
            && s.user_id is Some,
        HydrationStage::BusSocket => setting(s.env, "DBUS_SESSION_BUS_ADDRESS"@) is None
            && bus_socket(s.env, s.user_id) is Some,
        HydrationStage::Finished => true,
    }
}

/// Every hydration waits only for what can be asked for.
pub proof fn hydration_stays_sound(
    env: Variables,
    process_envs: Seq<Variables>,
    user_id: Option<Seq<char>>,
    answers: Seq<HydrationAnswer>,
)
    ensures
        hydration_sound(hydration_run(hydration_start(env, process_envs, user_id), answers)),
    decreases answers.len(),
{
    if answers.len() > 0 {
        hydration_stays_sound(env, process_envs, user_id, answers.drop_last());
    }
}

/// An answer is to what was asked for.
pub open spec fn answers_hydration(
    request: HydrationRequestText,
    answer: HydrationAnswer,
) -> bool {
    match request {
        HydrationRequestText::Run { .. } => answer is Ran,
        HydrationRequestText::Exists(_) => answer is Exists,
        HydrationRequestText::Nothing => false,
    }
}

/// How many answers a hydration waits for at most.
pub open spec fn hydration_rank(s: HydrationState) -> int {
    match s.stage {
        HydrationStage::Systemd => 3,
        HydrationStage::RuntimeDir => 2,
        HydrationStage::BusSocket => 1,
        HydrationStage::Finished => 0,
    }
}

/// A hydration asks for something until it is finished, and every answer to
/// what it asks for brings it closer to its end: after three at most it is
/// there.
pub proof fn hydration_ends(s: HydrationState, answer: HydrationAnswer)
    requires
        hydration_sound(s),
    ensures
        0 <= hydration_rank(s) <= 3,
        hydration_request(s) == HydrationRequestText::Nothing <==> s.stage is Finished,
        answers_hydration(hydration_request(s), answer) ==> 0 <= hydration_rank(
            hydration_step(s, answer),
        ) < hydration_rank(s),
        !answers_hydration(hydration_request(s), answer) ==> hydration_step(s, answer) == s,
{
}

/// The systemd user manager is asked in an environment that has the desktop
/// settings of the processes above already, and nothing is asked for before.
pub proof fn systemd_is_asked_in_the_hydrated_environment(
    env: Variables,
    process_envs: Seq<Variables>,
    user_id: Option<Seq<char>>,
    answers: Seq<HydrationAnswer>,
)
    ensures
        hydration_request(hydration_start(env, process_envs, user_id)) == (
        HydrationRequestText::Run {
            env: hydrated_from(env, process_envs),
            command: systemd_command(),
        }),
        hydration_run(
            hydration_start(env, process_envs, user_id),
            answers,
        ).stage is Systemd ==> hydration_run(
            hydration_start(env, process_envs, user_id),
            answers,
        ) == hydration_start(env, process_envs, user_id),
    decreases answers.len(),
{
    if answers.len() > 0 {
        systemd_is_asked_in_the_hydrated_environment(
            env,
            process_envs,
            user_id,
            answers.drop_last(),
        );
    }
}

proof fn lemma_session_keys()
    ensures
        desktop_key("XDG_RUNTIME_DIR"@),
        desktop_key("DBUS_SESSION_BUS_ADDRESS"@),
{
    assert(DESKTOP_ENV_KEYS@[9]@ == "XDG_RUNTIME_DIR"@);
    assert(DESKTOP_ENV_KEYS@[0]@ == "DBUS_SESSION_BUS_ADDRESS"@);
}

/// A setting that an environment has is never replaced, whatever is found, and
/// what is not a desktop variable is left alone.
pub proof fn hydration_changes_only_what_is_missing(
    env: Variables,
    process_envs: Seq<Variables>,
    user_id: Option<Seq<char>>,
    answers: Seq<HydrationAnswer>,
    key: Seq<char>,
)
    ensures
        setting(env, key) is Some ==> setting(
            hydration_run(hydration_start(env, process_envs, user_id), answers).env,
            key,
        ) == setting(env, key),
        !desktop_key(key) ==> setting(
            hydration_run(hydration_start(env, process_envs, user_id), answers).env,
            key,
        ) == setting(env, key),
    decreases answers.len(),
{
    lemma_session_keys();
    if answers.len() == 0 {
        hydration_keeps_settings(env, process_envs, key);
    } else {
        let front = answers.drop_last();
        hydration_changes_only_what_is_missing(env, process_envs, user_id, front, key);
        hydration_stays_sound(env, process_envs, user_id, front);
    }
}

/// A runtime directory that is set counts as it is; else it is the user's usual
/// one, which their number names. The bus is in it.
pub proof fn runtime_dir_is_set_or_usual(
    env: Variables,
    user_id: Option<Seq<char>>,
    dir: Seq<char>,
    uid: Seq<char>,
)
    ensures
        setting(env, "XDG_RUNTIME_DIR"@) == Some(dir) ==> runtime_dir(env, user_id) == Some(dir),
        setting(env, "XDG_RUNTIME_DIR"@) is None ==> runtime_dir(env, Some(uid)) == Some(
            "/run/user/"@ + uid,
        ),
        setting(env, "XDG_RUNTIME_DIR"@) is None ==> runtime_dir(env, None) is None,
        dir.len() > 0 && dir.last() != '/' && runtime_dir(env, user_id) == Some(dir) ==> bus_socket(
            env,
            user_id,
        ) == Some(dir + "/bus"@),
        dir.len() > 0 && dir.last() == '/' && runtime_dir(env, user_id) == Some(dir) ==> bus_socket(
            env,
            user_id,
        ) == Some(dir + "bus"@),
{
    reveal_strlit("/");
    reveal_strlit("bus");
    reveal_strlit("/bus");
    assert(dir + "/"@ + "bus"@ =~= dir + "/bus"@);
}

/// An address that is set counts as it is; else it is told from the socket in the
/// runtime directory, but only where that exists.
pub proof fn bus_address_is_set_or_told(
    env: Variables,
    user_id: Option<Seq<char>>,
    address: Seq<char>,
    dir: Seq<char>,
    socket_exists: bool,
)
    requires
        dir.len() > 0,
        dir.last() != '/',
    ensures
        setting(env, "DBUS_SESSION_BUS_ADDRESS"@) == Some(address) ==> bus_address(
            env,
            user_id,
            socket_exists,
        ) == Some(address),
        setting(env, "DBUS_SESSION_BUS_ADDRESS"@) is None && setting(env, "XDG_RUNTIME_DIR"@)
            == Some(dir) ==> bus_address(env, user_id, true) == Some(
            "unix:path="@ + dir + "/bus"@,
        ),
        setting(env, "DBUS_SESSION_BUS_ADDRESS"@) is None ==> bus_address(
            env,
            user_id,
            false,
        ) is None,
{
    runtime_dir_is_set_or_usual(env, user_id, dir, seq![]);
    assert("unix:path="@ + (dir + "/bus"@) =~= "unix:path="@ + dir + "/bus"@);
}

/// A command that has to find the bus is told its address and the runtime
/// directory, as far as they are known, and nothing else.
pub proof fn commands_are_told_where_the_bus_is(
    env: Variables,
    user_id: Option<Seq<char>>,
    socket_exists: bool,
    key: Seq<char>,
)
    ensures
        ({
            let told = bus_variables(env, user_id, socket_exists);
            let address = "DBUS_SESSION_BUS_ADDRESS"@;
            let dir = "XDG_RUNTIME_DIR"@;
            &&& bus_address(env, user_id, socket_exists) matches Some(value) ==> told.dom().contains(
                address,
            ) && told[address] == value
            &&& runtime_dir(env, user_id) matches Some(value) ==> told.dom().contains(dir)
                && told[dir] == value
            &&& told.dom().contains(key) ==> key == address || key == dir
        }),
{
    reveal_strlit("DBUS_SESSION_BUS_ADDRESS");
    reveal_strlit("XDG_RUNTIME_DIR");
    assert("DBUS_SESSION_BUS_ADDRESS"@[0] != "XDG_RUNTIME_DIR"@[0]);
}

/// The number of the user is what `id -u` printed, without the white space around
/// it, where it succeeded and printed something.
pub proof fn printed_number_is_read_back(
    output: CommandOutput,
    before: Seq<char>,
    uid: Seq<char>,
    after: Seq<char>,
    reason: String,
)
    requires
        blank(before),
        blank(after),
        uid.len() > 0 ==> !whitespace(uid[0]) && !whitespace(uid.last()),
        output.stdout@ == encode_utf8(before + uid + after),
    ensures
        output.success && uid.len() > 0 ==> printed_user_id(CommandOutcome::Exited(output)) == Some(
            uid,
        ),
        !output.success || uid.len() == 0 ==> printed_user_id(
            CommandOutcome::Exited(output),
        ) is None,
        printed_user_id(CommandOutcome::NotStarted(reason)) is None,
{
    encode_utf8_valid_utf8(before + uid + after);
    encode_utf8_decode_utf8(before + uid + after);
    trimming_leaves_the_text(before, uid, after);
}

/// A desktop variable that an environment lacks is taken from the line that the
/// systemd user manager printed for it, where it succeeded; one that the
/// environment has is kept.
pub proof fn settings_of_systemd_fill_the_gaps(
    env: Variables,
    output: CommandOutput,
    entries: Seq<Seq<u8>>,
    i: int,
    key: Seq<char>,
    value: Seq<char>,
    k: int,
)
    requires
        desktop_key(key),
        !key.contains('='),
        0 <= k < value.len(),
        !whitespace(value[k]),
        0 <= i < entries.len(),
        forall|j: int| 0 <= j < entries.len() ==> !(#[trigger] entries[j]).contains(0x0au8),
        entries[i] == encode_utf8(key) + seq![0x3du8] + encode_utf8(value),
        forall|j: int|
            i < j < entries.len() && definition(#[trigger] entries[j]) is Some ==> defined_key(
                entries[j],
            ) != key,
        output.stdout@ == joined(entries, seq![0x0au8]),
    ensures
        ({
            let after = hydrated_from_systemd(env, CommandOutcome::Exited(output));
            &&& output.success && setting(env, key) is None ==> setting(after, key) == Some(value)
            &&& setting(env, key) is Some ==> setting(after, key) == setting(env, key)
            &&& !output.success ==> after == env
        }),
{
    written_environment_is_read_back(entries, 0x0au8, i, key, value);
    let source = defined(fields(output.stdout@, 0x0au8));
    assert(!blank(value));
    assert(setting(source, key) == Some(value));
    assert(desktop_key_among(key, 11));
}

/// Once systemd has answered, whatever is still missing is asked for, and nothing
/// else: the runtime directory where none is set and the user is known, and then
/// the bus where no address is set and it is known where to look.
pub proof fn missing_whereabouts_are_asked_for(
    s: HydrationState,
    outcome: CommandOutcome,
    found: bool,
)
    ensures
        s.stage is Systemd ==> {
            let after = hydration_step(s, HydrationAnswer::Ran(outcome));
            let no_dir = setting(after.env, "XDG_RUNTIME_DIR"@) is None;
            let no_address = setting(after.env, "DBUS_SESSION_BUS_ADDRESS"@) is None;
            &&& no_dir && s.user_id is Some ==> after.stage is RuntimeDir
            &&& !no_dir && no_address ==> after.stage is BusSocket
            &&& !no_dir && !no_address ==> after.stage is Finished
            &&& no_dir && s.user_id is None ==> after.stage is Finished
        },
        s.stage is RuntimeDir && s.user_id is Some ==> {
            let after = hydration_step(s, HydrationAnswer::Exists(found));
            let no_address = setting(after.env, "DBUS_SESSION_BUS_ADDRESS"@) is None;
            &&& no_address ==> after.stage is BusSocket
            &&& !no_address ==> after.stage is Finished
        },
{
}

/// The user's usual runtime directory is asked for where none is set, and taken
/// where it exists; then the bus in the runtime directory is asked for where no
/// address is set, and its address taken where it exists.
pub proof fn whereabouts_are_taken_where_they_exist(
    s: HydrationState,
    uid: Seq<char>,
    dir: Seq<char>,
)
    requires
        dir.len() > 0,
        dir.last() != '/',
    ensures
        s.stage is RuntimeDir && setting(s.env, "XDG_RUNTIME_DIR"@) is None && s.user_id == Some(uid)
            ==> {
            let after = hydration_step(s, HydrationAnswer::Exists(true));
            &&& hydration_request(s) == HydrationRequestText::Exists("/run/user/"@ + uid)
            &&& after.env.dom().contains("XDG_RUNTIME_DIR"@)
            &&& after.env["XDG_RUNTIME_DIR"@] == "/run/user/"@ + uid
        },
        s.stage is BusSocket && setting(s.env, "XDG_RUNTIME_DIR"@) == Some(dir) ==> {
            let after = hydration_step(s, HydrationAnswer::Exists(true));
            &&& hydration_request(s) == HydrationRequestText::Exists(dir + "/bus"@)
            &&& after.stage is Finished
            &&& after.env.dom().contains("DBUS_SESSION_BUS_ADDRESS"@)
            &&& after.env["DBUS_SESSION_BUS_ADDRESS"@] == "unix:path="@ + dir + "/bus"@
        },
{
    runtime_dir_is_set_or_usual(s.env, s.user_id, dir, uid);
    assert("unix:path="@ + (dir + "/bus"@) =~= "unix:path="@ + dir + "/bus"@);
}

/// The whereabouts of the session change no variable but the runtime directory
/// and the bus address.
pub proof fn whereabouts_change_only_the_session(
    s: HydrationState,
    found: bool,
    key: Seq<char>,
)
    requires
        key != "XDG_RUNTIME_DIR"@,
        key != "DBUS_SESSION_BUS_ADDRESS"@,
    ensures
        setting(hydration_step(s, HydrationAnswer::Exists(found)).env, key) == setting(s.env, key),
{
}

/// A path that does not exist changes nothing.
pub proof fn nothing_found_changes_nothing(s: HydrationState)
    ensures
        hydration_step(s, HydrationAnswer::Exists(false)).env == s.env,
{
}

// ---------------------------------------------------------------------------
// Hydration in code.
// ---------------------------------------------------------------------------

/// What a hydration asks for.
#[derive(Debug)]
pub enum HydrationRequest {
    /// To run a command in an environment.
    Run { environment: TextMap<String>, command: CommandSpec },
    /// Whether a path exists.
    Exists(String),
    Nothing,
}

impl View for HydrationRequest {
    type V = HydrationRequestText;

    open spec fn view(&self) -> HydrationRequestText {
        match *self {
            HydrationRequest::Run { environment, command } => HydrationRequestText::Run {
                env: variables(&environment),
                command: command@,
            },
            HydrationRequest::Exists(path) => HydrationRequestText::Exists(path@),
            HydrationRequest::Nothing => HydrationRequestText::Nothing,
        }
    }
}

/// The hydration of an environment with the desktop's settings and the
/// whereabouts of the session.
#[derive(Debug)]
pub struct SessionHydration {
    env: TextMap<String>,
    user_id: Option<String>,
    stage: HydrationStage,
}

impl View for SessionHydration {
    type V = HydrationState;

    closed spec fn view(&self) -> HydrationState {
        HydrationState {
            env: variables(&self.env),
            user_id: optional_text(self.user_id),
            stage: self.stage,
        }
    }
}

/// Starts the hydration of an environment: with the desktop settings of the
/// processes above, then with those of the systemd user manager, then with the
/// whereabouts of the session, for the last two of which the result asks.
pub fn hydrate_session_bus_env(
    env: TextMap<String>,
    process_envs: &Vec<TextMap<String>>,
    user_id: Option<String>,
) -> (r: SessionHydration)
    ensures
        r@ == hydration_start(
            variables(&env),
            variables_of(process_envs@),
            optional_text(user_id),
        ),
{
    let mut env = env;
    hydrate_desktop_env_from_process_tree(&mut env, process_envs);
    SessionHydration { env, user_id, stage: HydrationStage::Systemd }
}

impl SessionHydration {
    fn settled_runtime_dir(env: TextMap<String>, user_id: Option<String>) -> (r: Self)
        ensures
            r@ == at_bus_socket(variables(&env), optional_text(user_id)),
    {
        let stage = if env_var(&env, "DBUS_SESSION_BUS_ADDRESS").is_none() && session_bus_socket(
            &env,
            &user_id,
        ).is_some() {
            HydrationStage::BusSocket
        } else {
            HydrationStage::Finished
        };
        SessionHydration { env, user_id, stage }
    }

    fn settled_settings(env: TextMap<String>, user_id: Option<String>) -> (r: Self)
        ensures
            r@ == at_runtime_dir(variables(&env), optional_text(user_id)),
    {
        if env_var(&env, "XDG_RUNTIME_DIR").is_none() && user_id.is_some() {
            SessionHydration { env, user_id, stage: HydrationStage::RuntimeDir }
        } else {
            Self::settled_runtime_dir(env, user_id)
        }
    }

    /// What the hydration asks for.
    pub fn request(&self) -> (r: HydrationRequest)
        ensures
            r@ == hydration_request(self@),
    {
        match self.stage {
            HydrationStage::Systemd => HydrationRequest::Run {
                environment: same_variables(&self.env),
                command: systemd_environment_command(),
            },
            HydrationStage::RuntimeDir => match xdg_runtime_dir(&self.env, &self.user_id) {
                Some(dir) => HydrationRequest::Exists(dir),
                None => HydrationRequest::Nothing,
            },
            HydrationStage::BusSocket => match session_bus_socket(&self.env, &self.user_id) {
                Some(socket) => HydrationRequest::Exists(socket),
                None => HydrationRequest::Nothing,
            },
            HydrationStage::Finished => HydrationRequest::Nothing,
        }
    }

    /// The hydration after an answer.
    pub fn answer(self, answer: &HydrationAnswer) -> (r: Self)
        ensures
            r@ == hydration_step(self@, *answer),
    {
        let SessionHydration { mut env, user_id, stage } = self;
        match (stage, answer) {
            (HydrationStage::Systemd, HydrationAnswer::Ran(outcome)) => {
                hydrate_desktop_env_from_systemd_user(&mut env, outcome);
                Self::settled_settings(env, user_id)
            },
            (HydrationStage::RuntimeDir, HydrationAnswer::Exists(found)) => {
                if *found {
                    if let Some(dir) = xdg_runtime_dir(&env, &user_id) {
                        set_variable(&mut env, "XDG_RUNTIME_DIR", dir);
                    }
                }
                Self::settled_runtime_dir(env, user_id)
            },
            (HydrationStage::BusSocket, HydrationAnswer::Exists(found)) => {
                if *found {
                    if let Some(socket) = session_bus_socket(&env, &user_id) {
                        let address = "unix:path=".to_owned().concat(socket.as_str());
                        set_variable(&mut env, "DBUS_SESSION_BUS_ADDRESS", address);
                    }
                }
                SessionHydration { env, user_id, stage: HydrationStage::Finished }
            },
            (stage, _) => SessionHydration { env, user_id, stage },
        }
    }

    /// The environment as far as it is hydrated.
    pub fn environment(self) -> (r: TextMap<String>)
        ensures
            variables(&r) == self@.env,
    {
        self.env
    }
}

} // verus!
