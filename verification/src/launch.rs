//! Launching an application: by its desktop file, or as a plain command.

use vstd::prelude::*;
use vstd::utf8::valid_utf8;

use crate::bytes::{bytes_of, from_utf8_lossy, utf8_text};
use crate::command::{command_spec, CommandSpec, CommandText};
use crate::desktop::{
    answers_best, app_of, best_answer_is_unique, desktop_text, file_path, find_desktop_file,
    parse_desktop_info, part_of_a_name_is_found, query_stem, what_is_found_answers, AppText,
    DesktopFile, FoundApp,
};
use crate::paths::{optional_bytes, resolve, resolved, resolved_paths_are_absolute, rooted};
use crate::scan::{
    blank, has_text, joined, slices, strings, trim, trimmed, trimming_leaves_the_text,
};
use crate::session::optional_text;
use crate::shell::{
    command_name, first_percent_sign_is_resolved, looks_like_command,
    nothing_between_quotes_is_no_word, plain, plain_command_line_is_kept, plain_words_are_kept,
    shell_split, shell_words, strip_field_codes, without_field_codes,
};
use crate::text::{lowered, quote, quoted, whitespace};

verus! {

// ---------------------------------------------------------------------------
// Results.
// ---------------------------------------------------------------------------

/// What came of launching an application.
#[derive(Debug, Clone)]
pub struct LaunchAppResult {
    pub ok: bool,
    /// The name of the application that was matched.
    pub app_name: Option<String>,
    /// The absolute path of the desktop file that was matched and used.
    pub desktop_file: Option<String>,
    /// The launch command that was invoked.
    pub launch_command: Option<String>,
    pub message: String,
}

/// That, as a mathematical value.
pub struct LaunchText {
    pub ok: bool,
    pub app_name: Option<Seq<char>>,
    pub desktop_file: Option<Seq<char>>,
    pub launch_command: Option<Seq<char>>,
    pub message: Seq<char>,
}

impl View for LaunchAppResult {
    type V = LaunchText;

    open spec fn view(&self) -> LaunchText {
        LaunchText {
            ok: self.ok,
            app_name: optional_text(self.app_name),
            desktop_file: optional_text(self.desktop_file),
            launch_command: optional_text(self.launch_command),
            message: self.message@,
        }
    }
}

/// The result for a query without text.
pub open spec fn nothing_asked() -> LaunchText {
    LaunchText {
        ok: false,
        app_name: None,
        desktop_file: None,
        launch_command: None,
        message: "app_name must not be empty."@,
    }
}

/// The result for an application that was launched.
pub open spec fn launched(name: Seq<char>, path: Seq<u8>, command: Seq<char>) -> LaunchText {
    LaunchText {
        ok: true,
        app_name: Some(name),
        desktop_file: Some(utf8_text(path)),
        launch_command: Some(command),
        message: "Launched "@ + name + "."@,
    }
}

/// The result for an application that was found and could not be launched.
pub open spec fn not_launched(name: Seq<char>, path: Seq<u8>, error: Seq<char>) -> LaunchText {
    LaunchText {
        ok: false,
        app_name: Some(name),
        desktop_file: Some(utf8_text(path)),
        launch_command: None,
        message: "Found .desktop file but all launch methods failed: "@ + error,
    }
}

/// The result for a query that was run as a command.
pub open spec fn launched_directly(query: Seq<char>) -> LaunchText {
    LaunchText {
        ok: true,
        app_name: Some(query),
        desktop_file: None,
        launch_command: Some(query),
        message: "No .desktop file found for "@ + quoted(query)
            + "; launched as a direct command."@,
    }
}

/// The result for a query that nothing answers.
pub open spec fn not_found(query: Seq<char>) -> LaunchText {
    LaunchText {
        ok: false,
        app_name: None,
        desktop_file: None,
        launch_command: None,
        message: "No installed application found matching "@ + quoted(query)
            + ". Pass a desktop-file stem (e.g. \"firefox\"), an app Name (e.g. \"Firefox\"), or a reverse-DNS id (e.g. \"org.mozilla.firefox\"). Use list_apps to see currently open apps."@,
    }
}

fn nothing_asked_result() -> (r: LaunchAppResult)
    ensures
        r@ == nothing_asked(),
{
    LaunchAppResult {
        ok: false,
        app_name: None,
        desktop_file: None,
        launch_command: None,
        message: "app_name must not be empty.".to_owned(),
    }
}

/// An application to be launched.
#[derive(Debug)]
struct Target {
    app: FoundApp,
    /// The path of its desktop file as results tell it.
    told_path: Vec<u8>,
}

fn launched_result(target: Target, command: String) -> (r: LaunchAppResult)
    ensures
        r@ == launched(target.app@.name, target.told_path@, command@),
{
    let message = "Launched ".to_owned().concat(target.app.name.as_str()).concat(".");
    let desktop_file = from_utf8_lossy(target.told_path.as_slice());
    LaunchAppResult {
        ok: true,
        app_name: Some(target.app.name),
        desktop_file: Some(desktop_file),
        launch_command: Some(command),
        message,
    }
}

fn not_launched_result(target: Target, error: &str) -> (r: LaunchAppResult)
    ensures
        r@ == not_launched(target.app@.name, target.told_path@, error@),
{
    let message = "Found .desktop file but all launch methods failed: ".to_owned().concat(error);
    let desktop_file = from_utf8_lossy(target.told_path.as_slice());
    LaunchAppResult {
        ok: false,
        app_name: Some(target.app.name),
        desktop_file: Some(desktop_file),
        launch_command: None,
        message,
    }
}

fn launched_directly_result(query: String) -> (r: LaunchAppResult)
    ensures
        r@ == launched_directly(query@),
{
    let message = "No .desktop file found for ".to_owned().concat(
        quote(query.as_str()).as_str(),
    ).concat("; launched as a direct command.");
    LaunchAppResult {
        ok: true,
        app_name: Some(query.clone()),
        desktop_file: None,
        launch_command: Some(query),
        message,
    }
}

fn not_found_result(query: &str) -> (r: LaunchAppResult)
    ensures
        r@ == not_found(query@),
{
    let message = "No installed application found matching ".to_owned().concat(
        quote(query).as_str(),
    ).concat(
        ". Pass a desktop-file stem (e.g. \"firefox\"), an app Name (e.g. \"Firefox\"), or a reverse-DNS id (e.g. \"org.mozilla.firefox\"). Use list_apps to see currently open apps.",
    );
    LaunchAppResult {
        ok: false,
        app_name: None,
        desktop_file: None,
        launch_command: None,
        message,
    }
}

// ---------------------------------------------------------------------------
// The launch methods.
// ---------------------------------------------------------------------------

/// What came of running a launcher to its end.
#[derive(Debug)]
pub enum LauncherOutcome {
    /// It could not be started, and why.
    NotStarted(String),
    /// It was started, but how it ended could not be learned, and why.
    Lost(String),
    Exited { success: bool, status: String },
}

/// The launch command where a launcher succeeded, or else what is wrong.
/// `tool` is what the launcher is called, and `what` what it was run for.
pub open spec fn launcher_result(
    tool: Seq<char>,
    what: Seq<char>,
    argument: Seq<char>,
    outcome: LauncherOutcome,
) -> Result<Seq<char>, Seq<char>> {
    match outcome {
        LauncherOutcome::NotStarted(reason) => Err(tool + " not available: "@ + reason@),
        LauncherOutcome::Lost(reason) => Err(what + " wait failed: "@ + reason@),
        LauncherOutcome::Exited { success, status } => if success {
            Ok(what + " "@ + argument)
        } else {
            Err(what + " "@ + argument + " exited with "@ + status@)
        },
    }
}

fn launcher_text(
    tool: &str,
    what: &str,
    argument: &str,
    outcome: &LauncherOutcome,
) -> (r: Result<String, String>)
    ensures
        r is Ok <==> launcher_result(tool@, what@, argument@, *outcome) is Ok,
        r matches Ok(text) ==> Ok::<Seq<char>, Seq<char>>(text@) == launcher_result(
            tool@,
            what@,
            argument@,
            *outcome,
        ),
        r matches Err(text) ==> Err::<Seq<char>, Seq<char>>(text@) == launcher_result(
            tool@,
            what@,
            argument@,
            *outcome,
        ),
{
    match outcome {
        LauncherOutcome::NotStarted(reason) => Err(
            tool.to_owned().concat(" not available: ").concat(reason.as_str()),
        ),
        LauncherOutcome::Lost(reason) => Err(
            what.to_owned().concat(" wait failed: ").concat(reason.as_str()),
        ),
        LauncherOutcome::Exited { success, status } => if *success {
            Ok(what.to_owned().concat(" ").concat(argument))
        } else {
            Err(
                what.to_owned().concat(" ").concat(argument).concat(" exited with ").concat(
                    status.as_str(),
                ),
            )
        },
    }
}

/// What came of `gtk-launch`, which finds desktop files by their stem.
pub open spec fn gtk_result(
    stem: Seq<char>,
    outcome: LauncherOutcome,
) -> Result<Seq<char>, Seq<char>> {
    launcher_result("gtk-launch"@, "gtk-launch"@, stem, outcome)
}

/// What came of `gio open`, which is given the path of the desktop file.
pub open spec fn gio_result(
    path: Seq<char>,
    outcome: LauncherOutcome,
) -> Result<Seq<char>, Seq<char>> {
    launcher_result("gio"@, "gio open"@, path, outcome)
}

/// What came of `gtk-launch`.
pub fn try_gtk_launch(stem: &str, outcome: &LauncherOutcome) -> (r: Result<String, String>)
    ensures
        r is Ok <==> gtk_result(stem@, *outcome) is Ok,
        r matches Ok(text) ==> Ok::<Seq<char>, Seq<char>>(text@) == gtk_result(stem@, *outcome),
        r matches Err(text) ==> Err::<Seq<char>, Seq<char>>(text@) == gtk_result(stem@, *outcome),
{
    launcher_text("gtk-launch", "gtk-launch", stem, outcome)
}

/// What came of `gio open`.
pub fn try_gio_open(path: &str, outcome: &LauncherOutcome) -> (r: Result<String, String>)
    ensures
        r is Ok <==> gio_result(path@, *outcome) is Ok,
        r matches Ok(text) ==> Ok::<Seq<char>, Seq<char>>(text@) == gio_result(path@, *outcome),
        r matches Err(text) ==> Err::<Seq<char>, Seq<char>>(text@) == gio_result(path@, *outcome),
{
    launcher_text("gio", "gio open", path, outcome)
}

/// A command line that is ready to be started.
#[derive(Debug)]
pub struct ExecLine {
    /// The command line without field codes.
    pub text: String,
    /// Its words, the program first.
    pub argv: Vec<String>,
}

/// That, as a mathematical value.
pub struct ExecText {
    pub text: Seq<char>,
    pub argv: Seq<Seq<char>>,
}

impl View for ExecLine {
    type V = ExecText;

    open spec fn view(&self) -> ExecText {
        ExecText { text: self.text@, argv: strings(self.argv@) }
    }
}

/// The command line of a desktop file with the given content, ready to be
/// started; or what is wrong with it.
pub open spec fn exec_result(
    path: Seq<char>,
    content: Option<Seq<char>>,
) -> Result<ExecText, Seq<char>> {
    match content {
        None => Err("could not parse "@ + path),
        Some(text) => match desktop_text(text).command_line {
            None => Err("no Exec= in "@ + path),
            Some(line) => {
                let clean = trimmed(without_field_codes(line));
                if clean.len() == 0 {
                    Err("Exec= in "@ + path + " is empty after stripping field codes"@)
                } else if shell_words(clean).len() == 0 {
                    Err("empty argv after parsing Exec="@)
                } else {
                    Ok(ExecText { text: clean, argv: shell_words(clean) })
                }
            },
        },
    }
}

/// The command line of a desktop file, ready to be started; or what is wrong
/// with it.
pub fn try_exec_from_desktop(path: &str, content: Option<&str>) -> (r: Result<ExecLine, String>)
    ensures
        r is Ok <==> exec_result(
            path@,
            match content {
                Some(text) => Some(text@),
                None => None,
            },
        ) is Ok,
        r matches Ok(line) ==> Ok::<ExecText, Seq<char>>(line@) == exec_result(
            path@,
            match content {
                Some(text) => Some(text@),
                None => None,
            },
        ),
        r matches Err(words) ==> Err::<ExecText, Seq<char>>(words@) == exec_result(
            path@,
            match content {
                Some(text) => Some(text@),
                None => None,
            },
        ),
{
    let content = match content {
        Some(text) => text,
        None => {
            return Err("could not parse ".to_owned().concat(path));
        },
    };
    let info = parse_desktop_info(content);
    let line = match info.command_line {
        Some(line) => line,
        None => {
            return Err("no Exec= in ".to_owned().concat(path));
        },
    };
    let stripped = strip_field_codes(line.as_str());
    let clean = trim(stripped.as_str());
    if clean.is_empty() {
        return Err(
            "Exec= in ".to_owned().concat(path).concat(" is empty after stripping field codes"),
        );
    }
    let argv = shell_split(clean);
    assert(strings(argv@).len() == argv@.len());
    if argv.len() == 0 {
        return Err("empty argv after parsing Exec=".to_owned());
    }
    Ok(ExecLine { text: clean.to_owned(), argv })
}

/// The command with the given words, the program first.
pub open spec fn command_of(argv: Seq<Seq<char>>) -> CommandText {
    CommandText { program: argv[0], args: argv.skip(1), session_bus: false }
}

fn command_of_argv(argv: &Vec<String>) -> (r: CommandSpec)
    requires
        argv@.len() > 0,
    ensures
        r@ == command_of(strings(argv@)),
{
    let n: usize = argv.len();
    let mut args: Vec<&str> = Vec::new();
    let mut i: usize = 1;
    assert(slices(args@) =~= strings(argv@).subrange(1, 1));
    while i < n
        invariant
            1 <= i <= n,
            n == argv@.len(),
            slices(args@) == strings(argv@).subrange(1, i as int),
        decreases n - i,
    {
        let ghost before = args@;
        args.push(argv[i].as_str());
        assert(slices(args@) =~= slices(before).push(argv@[i as int]@));
        assert(strings(argv@).subrange(1, i + 1) =~= strings(argv@).subrange(1, i as int).push(
            argv@[i as int]@,
        ));
        i += 1;
    }
    assert(slices(args@) =~= strings(argv@).skip(1));
    command_spec(argv[0].as_str(), args.as_slice(), false)
}

// ---------------------------------------------------------------------------
// A launch as a mathematical value.
// ---------------------------------------------------------------------------

/// An application to be launched: the path of its desktop file as it was found,
/// and as results tell it.
pub struct TargetText {
    pub app: AppText,
    pub path: Seq<u8>,
    pub told_path: Seq<u8>,
}

impl View for Target {
    type V = TargetText;

    closed spec fn view(&self) -> TargetText {
        TargetText { app: self.app@, path: self.app.path@, told_path: self.told_path@ }
    }
}

/// How far a launch has come. The methods are tried in the order of the stages:
/// `gtk-launch`, `gio open`, and the command line of the desktop file.
pub enum LaunchState {
    Gtk(TargetText),
    Gio(TargetText),
    /// The desktop file has to be read again.
    Reading(TargetText),
    Starting(TargetText, ExecText),
    /// The query has to be run as a command.
    Direct(Seq<char>),
    Settled(LaunchText),
}

/// What a launch asks for.
pub enum LaunchRequestText {
    /// To run a launcher to its end.
    RunToEnd(CommandText),
    /// To read a file.
    Read(Seq<u8>),
    /// To start a command and leave it running.
    Start(CommandText),
    Nothing,
}

/// What a launch is told.
#[derive(Debug)]
pub enum LaunchAnswer {
    Ended(LauncherOutcome),
    /// The content of the file; none where it cannot be read as text.
    Content(Option<String>),
    /// Whether the command was started, or why not.
    Started(Result<(), String>),
}

/// The start of a launch. The path of the desktop file is told as it is meant in
/// the given working directory.
pub open spec fn launch_start(
    query: Seq<char>,
    files: Seq<DesktopFile>,
    working_dir: Option<Seq<u8>>,
) -> LaunchState {
    let q = trimmed(query);
    if q.len() == 0 {
        LaunchState::Settled(nothing_asked())
    } else if exists|i: int| answers_best(q, files, i) {
        let i = choose|i: int| answers_best(q, files, i);
        LaunchState::Gtk(
            TargetText {
                app: app_of(files[i])->0,
                path: file_path(files[i]),
                told_path: resolved(file_path(files[i]), working_dir),
            },
        )
    } else if command_name(q) {
        LaunchState::Direct(q)
    } else {
        LaunchState::Settled(not_found(q))
    }
}

/// What a launch asks for.
pub open spec fn launch_request(s: LaunchState) -> LaunchRequestText {
    match s {
        LaunchState::Gtk(target) => LaunchRequestText::RunToEnd(
            CommandText {
                program: "gtk-launch"@,
                args: seq![target.app.stem],
                session_bus: false,
            },
        ),
        LaunchState::Gio(target) => LaunchRequestText::RunToEnd(
            CommandText {
                program: "gio"@,
                args: seq!["open"@, utf8_text(target.path)],
                session_bus: false,
            },
        ),
        LaunchState::Reading(target) => LaunchRequestText::Read(target.path),
        LaunchState::Starting(_, line) => LaunchRequestText::Start(command_of(line.argv)),
        LaunchState::Direct(query) => LaunchRequestText::Start(
            CommandText { program: query, args: seq![], session_bus: false },
        ),
        LaunchState::Settled(_) => LaunchRequestText::Nothing,
    }
}

/// The result for a target that was launched.
pub open spec fn success(target: TargetText, command: Seq<char>) -> LaunchState {
    LaunchState::Settled(launched(target.app.name, target.told_path, command))
}

/// The result for a target that could not be launched.
pub open spec fn failure(target: TargetText, error: Seq<char>) -> LaunchState {
    LaunchState::Settled(not_launched(target.app.name, target.told_path, error))
}

/// A launch after an answer. An answer to something else leaves it as it is.
pub open spec fn launch_step(s: LaunchState, answer: LaunchAnswer) -> LaunchState {
    match (s, answer) {
        (LaunchState::Gtk(target), LaunchAnswer::Ended(outcome)) => match gtk_result(
            target.app.stem,
            outcome,
        ) {
            Ok(command) => success(target, command),
            Err(_) => LaunchState::Gio(target),
        },
        (LaunchState::Gio(target), LaunchAnswer::Ended(outcome)) => match gio_result(
            utf8_text(target.path),
            outcome,
        ) {
            Ok(command) => success(target, command),
            Err(_) => LaunchState::Reading(target),
        },
        (LaunchState::Reading(target), LaunchAnswer::Content(content)) => match exec_result(
            utf8_text(target.path),
            optional_text(content),
        ) {
            Ok(line) => LaunchState::Starting(target, line),
            Err(error) => failure(target, error),
        },
        (LaunchState::Starting(target, line), LaunchAnswer::Started(started)) => match started {
            Ok(_) => success(target, line.text),
            Err(reason) => failure(target, "failed to spawn "@ + line.text + ": "@ + reason@),
        },
        (LaunchState::Direct(query), LaunchAnswer::Started(started)) => LaunchState::Settled(
            match started {
                Ok(_) => launched_directly(query),
                Err(_) => not_found(query),
            },
        ),
        _ => s,
    }
}

/// A launch after each of the given answers in turn.
pub open spec fn launch_run(s: LaunchState, answers: Seq<LaunchAnswer>) -> LaunchState
    decreases answers.len(),
{
    if answers.len() == 0 {
        s
    } else {
        launch_step(launch_run(s, answers.drop_last()), answers.last())
    }
}

// ---------------------------------------------------------------------------
// Laws.
// ---------------------------------------------------------------------------

/// A launch is about the given target, whatever has come of it so far.
pub open spec fn is_about(s: LaunchState, target: TargetText) -> bool {
    match s {
        LaunchState::Gtk(t) => t == target,
        LaunchState::Gio(t) => t == target,
        LaunchState::Reading(t) => t == target,
        LaunchState::Starting(t, _) => t == target,
        LaunchState::Direct(_) => false,
        LaunchState::Settled(t) => t.app_name == Some(target.app.name) && t.desktop_file == Some(
            utf8_text(target.told_path),
        ),
    }
}

/// Once an application has been found, every result names it and its file,
/// whichever method succeeds, and also where none does.
pub proof fn found_app_is_named(target: TargetText, answers: Seq<LaunchAnswer>)
    ensures
        is_about(launch_run(LaunchState::Gtk(target), answers), target),
    decreases answers.len(),
{
    if answers.len() > 0 {
        found_app_is_named(target, answers.drop_last());
    }
}

/// A result of the launch tells no path of a desktop file but an absolute one.
pub open spec fn tells_absolute_path(s: LaunchState) -> bool {
    match s {
        LaunchState::Gtk(target) => rooted(target.told_path),
        LaunchState::Gio(target) => rooted(target.told_path),
        LaunchState::Reading(target) => rooted(target.told_path),
        LaunchState::Starting(target, _) => rooted(target.told_path),
        LaunchState::Direct(_) => true,
        LaunchState::Settled(t) => t.desktop_file matches Some(text) ==> exists|path: Seq<u8>|
            rooted(path) && text == #[trigger] utf8_text(path),
    }
}

/// In an absolute working directory, every result tells the absolute path of
/// the desktop file that it tells, also where the file was found by a relative
/// one.
pub proof fn desktop_file_is_absolute(
    query: Seq<char>,
    files: Seq<DesktopFile>,
    working_dir: Seq<u8>,
    answers: Seq<LaunchAnswer>,
)
    requires
        rooted(working_dir),
    ensures
        tells_absolute_path(launch_run(launch_start(query, files, Some(working_dir)), answers)),
    decreases answers.len(),
{
    if answers.len() > 0 {
        desktop_file_is_absolute(query, files, working_dir, answers.drop_last());
    } else {
        let i = choose|i: int| answers_best(trimmed(query), files, i);
        resolved_paths_are_absolute(file_path(files[i]), Some(working_dir));
    }
}

/// The text of an absolute path that is UTF-8 starts with a slash.
pub proof fn absolute_path_starts_with_a_slash(path: Seq<u8>)
    requires
        rooted(path),
        valid_utf8(path),
    ensures
        utf8_text(path).len() > 0,
        utf8_text(path)[0] == '/',
{
    assert(0x2fu8 & 0x7F == 0x2fu8) by (bit_vector);
}

/// A result is a success exactly where it tells the command that was run.
pub open spec fn consistent(s: LaunchState) -> bool {
    s matches LaunchState::Settled(t) ==> (t.ok <==> t.launch_command is Some)
}

/// Every result is a success exactly where it tells the command that was run.
pub proof fn success_tells_its_command(
    query: Seq<char>,
    files: Seq<DesktopFile>,
    working_dir: Option<Seq<u8>>,
    answers: Seq<LaunchAnswer>,
)
    ensures
        consistent(launch_run(launch_start(query, files, working_dir), answers)),
    decreases answers.len(),
{
    if answers.len() > 0 {
        success_tells_its_command(query, files, working_dir, answers.drop_last());
    }
}

/// The order in which the stages follow each other.
pub open spec fn launch_rank(s: LaunchState) -> int {
    match s {
        LaunchState::Gtk(_) => 4,
        LaunchState::Gio(_) => 3,
        LaunchState::Reading(_) => 2,
        LaunchState::Starting(_, _) => 1,
        LaunchState::Direct(_) => 1,
        LaunchState::Settled(_) => 0,
    }
}

/// An answer is to what was asked for.
pub open spec fn answers_launch(request: LaunchRequestText, answer: LaunchAnswer) -> bool {
    match request {
        LaunchRequestText::RunToEnd(_) => answer is Ended,
        LaunchRequestText::Read(_) => answer is Content,
        LaunchRequestText::Start(_) => answer is Started,
        LaunchRequestText::Nothing => false,
    }
}

/// A launch asks for something until it is settled, and every answer to what it
/// asks for brings it closer to its end.
pub proof fn launch_ends(s: LaunchState, answer: LaunchAnswer)
    ensures
        launch_request(s) == LaunchRequestText::Nothing <==> s is Settled,
        answers_launch(launch_request(s), answer) ==> 0 <= launch_rank(launch_step(s, answer))
            < launch_rank(s),
        !answers_launch(launch_request(s), answer) ==> launch_step(s, answer) == s,
{
}

/// A query that an application answers is launched by the desktop file of the one
/// that answers it best. Where the name of any application has the query in it,
/// in any case and without the white space around it, there is one, and it has
/// the query for its stem or in its name.
pub proof fn part_of_a_name_is_launched(
    query: Seq<char>,
    files: Seq<DesktopFile>,
    working_dir: Option<Seq<u8>>,
    i: int,
    a: Seq<char>,
    b: Seq<char>,
)
    requires
        trimmed(query).len() > 0,
        0 <= i < files.len(),
        app_of(files[i]) is Some,
        lowered(app_of(files[i])->0.name) == a + lowered(trimmed(query)) + b,
    ensures
        ({
            let start = launch_start(query, files, working_dir);
            &&& start is Gtk
            &&& lowered(start->Gtk_0.app.stem) == lowered(query_stem(trimmed(query))) || has_text(
                lowered(start->Gtk_0.app.name),
                lowered(trimmed(query)),
            )
        }),
{
    part_of_a_name_is_found(trimmed(query), files, i, a, b);
    let j = choose|j: int| answers_best(trimmed(query), files, j);
    assert(answers_best(trimmed(query), files, j));
}

/// The target of a launch is the application in the file that answers best, with
/// the path of that file.
pub proof fn best_answer_is_launched(
    query: Seq<char>,
    files: Seq<DesktopFile>,
    working_dir: Option<Seq<u8>>,
    i: int,
)
    requires
        trimmed(query).len() > 0,
        answers_best(trimmed(query), files, i),
    ensures
        launch_start(query, files, working_dir) is Gtk,
        launch_start(query, files, working_dir)->Gtk_0.app == app_of(files[i])->0,
        launch_start(query, files, working_dir)->Gtk_0.path == file_path(files[i]),
{
    let j = choose|j: int| answers_best(trimmed(query), files, j);
    best_answer_is_unique(trimmed(query), files, i, j);
}

/// White space around a query changes nothing, and a query of white space alone
/// asks for nothing.
pub proof fn white_space_around_a_query_is_ignored(
    before: Seq<char>,
    query: Seq<char>,
    after: Seq<char>,
    files: Seq<DesktopFile>,
    working_dir: Option<Seq<u8>>,
)
    requires
        blank(before),
        blank(after),
        query.len() > 0 ==> !whitespace(query[0]) && !whitespace(query.last()),
    ensures
        launch_start(before + query + after, files, working_dir) == launch_start(
            query,
            files,
            working_dir,
        ),
        query.len() == 0 ==> launch_request(launch_start(query, files, working_dir))
            == LaunchRequestText::Nothing,
        query.len() == 0 ==> !launch_start(query, files, working_dir)->Settled_0.ok,
{
    trimming_leaves_the_text(before, query, after);
    trimming_leaves_the_text(seq![], query, seq![]);
    assert(seq![] + query + seq![] =~= query);
}

/// The three methods follow each other: `gtk-launch` with the stem, `gio open`
/// with the path, and the command line of the file. The one that succeeds ends
/// the launch, and its command is told; one that fails in whatever way is
/// followed by the next.
pub proof fn launch_methods_follow_each_other(
    target: TargetText,
    outcome: LauncherOutcome,
    line: ExecText,
    reason: String,
)
    ensures
        ({
            let works = outcome matches LauncherOutcome::Exited { success, status } && success;
            let gtk = LaunchState::Gtk(target);
            let gio = LaunchState::Gio(target);
            let starting = LaunchState::Starting(target, line);
            let after_gtk = launch_step(gtk, LaunchAnswer::Ended(outcome));
            let after_gio = launch_step(gio, LaunchAnswer::Ended(outcome));
            let started = launch_step(starting, LaunchAnswer::Started(Ok(())));
            let not_started = launch_step(starting, LaunchAnswer::Started(Err(reason)));
            &&& launch_request(gtk) == LaunchRequestText::RunToEnd(
                CommandText {
                    program: "gtk-launch"@,
                    args: seq![target.app.stem],
                    session_bus: false,
                },
            )
            &&& launch_request(gio) == LaunchRequestText::RunToEnd(
                CommandText {
                    program: "gio"@,
                    args: seq!["open"@, utf8_text(target.path)],
                    session_bus: false,
                },
            )
            &&& works ==> after_gtk is Settled && after_gtk->Settled_0.ok
                && after_gtk->Settled_0.launch_command == Some(
                "gtk-launch "@ + target.app.stem,
            )
            &&& !works ==> after_gtk == gio
            &&& works ==> after_gio is Settled && after_gio->Settled_0.ok
                && after_gio->Settled_0.launch_command == Some(
                "gio open "@ + utf8_text(target.path),
            )
            &&& !works ==> after_gio == LaunchState::Reading(target)
            &&& launch_request(after_gio) == (if works {
                LaunchRequestText::Nothing
            } else {
                LaunchRequestText::Read(target.path)
            })
            &&& started is Settled && started->Settled_0.ok && started->Settled_0.launch_command
                == Some(line.text)
            &&& not_started is Settled && !not_started->Settled_0.ok
            &&& not_started->Settled_0.message
                == "Found .desktop file but all launch methods failed: failed to spawn "@
                + line.text + ": "@ + reason@
        }),
{
    reveal_strlit(" ");
    reveal_strlit("gtk-launch");
    reveal_strlit("gtk-launch ");
    reveal_strlit("gio open");
    reveal_strlit("gio open ");
    reveal_strlit("failed to spawn ");
    reveal_strlit("Found .desktop file but all launch methods failed: ");
    reveal_strlit("Found .desktop file but all launch methods failed: failed to spawn ");
    assert("gtk-launch"@ + " "@ =~= "gtk-launch "@);
    assert("gio open"@ + " "@ =~= "gio open "@);
    assert("Found .desktop file but all launch methods failed: "@ + ("failed to spawn "@ + line.text
        + ": "@ + reason@)
        =~= "Found .desktop file but all launch methods failed: failed to spawn "@ + line.text
        + ": "@ + reason@);
}

/// A command line of plain words is started word for word, the first as the
/// program and the others as its arguments, also where a field code follows them.
pub proof fn command_line_is_started_word_for_word(
    target: TargetText,
    content: String,
    words: Seq<Seq<char>>,
    code: char,
)
    requires
        words.len() > 0,
        forall|i: int| 0 <= i < words.len() ==> (#[trigger] words[i]).len() > 0,
        forall|i: int, j: int|
            0 <= i < words.len() && 0 <= j < words[i].len() ==> plain(#[trigger] words[i][j])
                && words[i][j] != '%' && !whitespace(words[i][j]),
        code == 'u' || code == 'U' || code == 'f' || code == 'F',
        desktop_text(content@).command_line == Some(joined(words, " "@)) || desktop_text(
            content@,
        ).command_line == Some(joined(words, " "@) + seq![' ', '%', code]),
    ensures
        ({
            let read = launch_step(
                LaunchState::Reading(target),
                LaunchAnswer::Content(Some(content)),
            );
            &&& launch_request(read) == LaunchRequestText::Start(
                CommandText { program: words[0], args: words.skip(1), session_bus: false },
            )
            &&& read is Starting && read->Starting_1.text == joined(words, " "@)
        }),
{
    let line = joined(words, " "@);
    lemma_line_of_words(words);
    plain_words_are_kept(words);
    plain_command_line_is_kept(line);
    let blank_text = seq![' '];
    trimming_leaves_the_text(seq![], line, seq![]);
    assert(seq![] + line + seq![] =~= line);
    trimming_leaves_the_text(seq![], line, blank_text);
    assert(seq![] + line + blank_text =~= line + blank_text);
    assert(!(line + blank_text).contains('%')) by {
        assert forall|i: int| 0 <= i < (line + blank_text).len() implies (line + blank_text)[i]
            != '%' by {
            if i < line.len() {
                assert((line + blank_text)[i] == line[i]);
            }
        }
    }
    first_percent_sign_is_resolved(line + blank_text, code, seq![]);
    assert(line + blank_text + seq!['%', code] + seq![] =~= line + seq![' ', '%', code]);
    assert(without_field_codes(seq![]) =~= seq![]);
    assert(line + blank_text + seq![] =~= line + blank_text);
}

/// A desktop file that cannot be read, one without a command line, and one whose
/// command line says nothing, by itself, without its field code, or between its
/// quotes, cannot be launched, and nothing is started for it.
pub proof fn empty_command_line_starts_nothing(
    target: TargetText,
    content: String,
    line: Seq<char>,
    code: char,
)
    requires
        code == 'u' || code == 'U' || code == 'f' || code == 'F',
        line.len() == 0 || line == seq!['%', code] || line == seq!['\'', '\''],
        desktop_text(content@).command_line == Some(line) || desktop_text(
            content@,
        ).command_line is None,
    ensures
        ({
            let read = launch_step(
                LaunchState::Reading(target),
                LaunchAnswer::Content(Some(content)),
            );
            let unread = launch_step(LaunchState::Reading(target), LaunchAnswer::Content(None));
            &&& launch_request(read) == LaunchRequestText::Nothing
            &&& read is Settled && !read->Settled_0.ok
            &&& launch_request(unread) == LaunchRequestText::Nothing
            &&& unread is Settled && !unread->Settled_0.ok
        }),
{
    let none: Seq<char> = seq![];
    assert(without_field_codes(none) =~= none);
    trimming_leaves_the_text(none, none, none);
    assert(none + none + none =~= none);
    first_percent_sign_is_resolved(none, code, none);
    assert(none + seq!['%', code] + none =~= seq!['%', code]);
    assert(none + none =~= none);
    let quotes = seq!['\'', '\''];
    plain_command_line_is_kept(quotes);
    trimming_leaves_the_text(none, quotes, none);
    assert(none + quotes + none =~= quotes);
    nothing_between_quotes_is_no_word();
    if line.len() == 0 {
        assert(line =~= none);
    }
}

proof fn lemma_line_of_words(words: Seq<Seq<char>>)
    requires
        words.len() > 0,
        forall|i: int| 0 <= i < words.len() ==> (#[trigger] words[i]).len() > 0,
        forall|i: int, j: int|
            0 <= i < words.len() && 0 <= j < words[i].len() ==> plain(#[trigger] words[i][j])
                && words[i][j] != '%' && !whitespace(words[i][j]),
    ensures
        joined(words, " "@).len() > 0,
        !joined(words, " "@).contains('%'),
        !whitespace(joined(words, " "@)[0]),
        !whitespace(joined(words, " "@).last()),
    decreases words.len(),
{
    reveal_strlit(" ");
    let line = joined(words, " "@);
    let n = words.len() - 1;
    let last = words[n];
    assert(last.len() > 0);
    assert(plain(words[n][0]) && plain(words[n][last.len() - 1]));
    assert forall|j: int| 0 <= j < last.len() implies last[j] != '%' by {
        assert(plain(words[n][j]));
    }
    if words.len() > 1 {
        let front = words.drop_last();
        assert forall|i: int| 0 <= i < front.len() implies (#[trigger] front[i]).len() > 0 by {
            assert(words[i].len() > 0);
        }
        assert forall|i: int, j: int| 0 <= i < front.len() && 0 <= j < front[i].len() implies plain(
            #[trigger] front[i][j],
        ) && front[i][j] != '%' && !whitespace(front[i][j]) by {
            assert(plain(words[i][j]));
        }
        lemma_line_of_words(front);
        let before = joined(front, " "@);
        assert(line[0] == before[0]);
        assert(line.last() == last.last());
        assert forall|i: int| 0 <= i < line.len() implies line[i] != '%' by {
            if i < before.len() {
                assert(line[i] == before[i]);
            } else if i > before.len() {
                assert(line[i] == last[i - before.len() - 1]);
            }
        }
    } else {
        assert(line =~= last);
    }
}

/// Where no application answers, a query that may be the name of a command is
/// started as it is, without arguments; a start that fails is told as nothing
/// found, and so is every other query, for which nothing is started.
pub proof fn unknown_command_is_started(
    query: Seq<char>,
    files: Seq<DesktopFile>,
    working_dir: Option<Seq<u8>>,
    reason: String,
)
    requires
        trimmed(query) == query,
        query.len() > 0,
        forall|j: int|
            #![trigger files[j]]
            0 <= j < files.len() && app_of(files[j]) is Some ==> !has_text(
                lowered(app_of(files[j])->0.name),
                lowered(query),
            ) && !has_text(lowered(app_of(files[j])->0.stem), lowered(query_stem(query))),
    ensures
        ({
            let start = launch_start(query, files, working_dir);
            let started = launch_step(start, LaunchAnswer::Started(Ok(())));
            let failed = launch_step(start, LaunchAnswer::Started(Err(reason)));
            &&& command_name(query) ==> launch_request(start) == LaunchRequestText::Start(
                CommandText { program: query, args: seq![], session_bus: false },
            )
            &&& command_name(query) ==> started is Settled && started->Settled_0.ok
                && started->Settled_0.launch_command == Some(query)
                && started->Settled_0.desktop_file is None
            &&& command_name(query) ==> failed is Settled && !failed->Settled_0.ok
                && failed->Settled_0.launch_command is None
            &&& !command_name(query) ==> launch_request(start) == LaunchRequestText::Nothing
                && !start->Settled_0.ok
        }),
{
    if exists|i: int| answers_best(query, files, i) {
        let i = choose|i: int| answers_best(query, files, i);
        what_is_found_answers(query, files, i, i);
        assert(app_of(files[i]) is Some);
    }
}

// ---------------------------------------------------------------------------
// A launch in code.
// ---------------------------------------------------------------------------

#[derive(Debug)]
enum LaunchStage {
    Gtk(Target),
    Gio(Target),
    Reading(Target),
    Starting(Target, ExecLine),
    Direct(String),
    Settled(LaunchAppResult),
}

/// The work of launching an application.
#[derive(Debug)]
pub struct Launch {
    stage: LaunchStage,
}

/// What a launch asks for.
#[derive(Debug)]
pub enum LaunchRequest {
    /// To run a launcher to its end.
    RunToEnd(CommandSpec),
    /// To read a file.
    Read(Vec<u8>),
    /// To start a command and leave it running.
    Start(CommandSpec),
    Nothing,
}

impl View for LaunchRequest {
    type V = LaunchRequestText;

    open spec fn view(&self) -> LaunchRequestText {
        match *self {
            LaunchRequest::RunToEnd(command) => LaunchRequestText::RunToEnd(command@),
            LaunchRequest::Read(path) => LaunchRequestText::Read(path@),
            LaunchRequest::Start(command) => LaunchRequestText::Start(command@),
            LaunchRequest::Nothing => LaunchRequestText::Nothing,
        }
    }
}

impl View for Launch {
    type V = LaunchState;

    closed spec fn view(&self) -> LaunchState {
        match self.stage {
            LaunchStage::Gtk(target) => LaunchState::Gtk(target@),
            LaunchStage::Gio(target) => LaunchState::Gio(target@),
            LaunchStage::Reading(target) => LaunchState::Reading(target@),
            LaunchStage::Starting(target, line) => LaunchState::Starting(target@, line@),
            LaunchStage::Direct(query) => LaunchState::Direct(query@),
            LaunchStage::Settled(result) => LaunchState::Settled(result@),
        }
    }
}

/// Starts the work of launching the application that answers a query best;
/// `files` are the files of the searched directories, in the order of the
/// search, and relative ones lie in `working_dir`.
pub fn launch_app(
    query: &str,
    files: &Vec<DesktopFile>,
    working_dir: Option<&[u8]>,
) -> (r: Launch)
    ensures
        r@ == launch_start(query@, files@, optional_bytes(working_dir)),
{
    let query = trim(query);
    if query.is_empty() {
        return Launch { stage: LaunchStage::Settled(nothing_asked_result()) };
    }
    match find_desktop_file(query, files) {
        Some(app) => {
            proof {
                let i = choose|i: int| #[trigger]
                    answers_best(query@, files@, i) && Some(app@) == app_of(files@[i]) && app.path@
                        == file_path(files@[i]);
                let j = choose|j: int| answers_best(query@, files@, j);
                best_answer_is_unique(query@, files@, i, j);
            }
            let told_path = resolve(app.path.as_slice(), working_dir);
            Launch { stage: LaunchStage::Gtk(Target { app, told_path }) }
        },
        None => {
            assert(forall|i: int| !answers_best(query@, files@, i));
            if looks_like_command(query) {
                Launch { stage: LaunchStage::Direct(query.to_owned()) }
            } else {
                Launch { stage: LaunchStage::Settled(not_found_result(query)) }
            }
        },
    }
}

impl Launch {
    #[verifier::type_invariant]
    spec fn can_start(self) -> bool {
        self.stage matches LaunchStage::Starting(_, line) ==> line.argv@.len() > 0
    }

    /// What the launch asks for.
    pub fn request(&self) -> (r: LaunchRequest)
        ensures
            r@ == launch_request(self@),
    {
        proof {
            use_type_invariant(self);
        }
        match &self.stage {
            LaunchStage::Gtk(target) => {
                let args = [target.app.stem.as_str()];
                assert(slices(args@) =~= seq![target.app.stem@]);
                LaunchRequest::RunToEnd(command_spec("gtk-launch", &args, false))
            },
            LaunchStage::Gio(target) => {
                let path = from_utf8_lossy(target.app.path.as_slice());
                let args = ["open", path.as_str()];
                assert(slices(args@) =~= seq!["open"@, path@]);
                LaunchRequest::RunToEnd(command_spec("gio", &args, false))
            },
            LaunchStage::Reading(target) => LaunchRequest::Read(bytes_of(target.app.path.as_slice())),
            LaunchStage::Starting(_, line) => LaunchRequest::Start(command_of_argv(&line.argv)),
            LaunchStage::Direct(query) => {
                let args: [&str; 0] = [];
                assert(slices(args@) =~= seq![]);
                LaunchRequest::Start(command_spec(query.as_str(), &args, false))
            },
            LaunchStage::Settled(_) => LaunchRequest::Nothing,
        }
    }

    /// The launch after an answer.
    pub fn answer(self, answer: &LaunchAnswer) -> (r: Self)
        ensures
            r@ == launch_step(self@, *answer),
    {
        proof {
            use_type_invariant(&self);
        }
        let Launch { stage } = self;
        let stage = match (stage, answer) {
            (LaunchStage::Gtk(target), LaunchAnswer::Ended(outcome)) => {
                match try_gtk_launch(target.app.stem.as_str(), outcome) {
                    Ok(command) => LaunchStage::Settled(launched_result(target, command)),
                    Err(_) => LaunchStage::Gio(target),
                }
            },
            (LaunchStage::Gio(target), LaunchAnswer::Ended(outcome)) => {
                let path = from_utf8_lossy(target.app.path.as_slice());
                match try_gio_open(path.as_str(), outcome) {
                    Ok(command) => LaunchStage::Settled(launched_result(target, command)),
                    Err(_) => LaunchStage::Reading(target),
                }
            },
            (LaunchStage::Reading(target), LaunchAnswer::Content(content)) => {
                let path = from_utf8_lossy(target.app.path.as_slice());
                let text = match content {
                    Some(text) => Some(text.as_str()),
                    None => None,
                };
                match try_exec_from_desktop(path.as_str(), text) {
                    Ok(line) => {
                        assert(line@.argv.len() == line.argv@.len());
                        LaunchStage::Starting(target, line)
                    },
                    Err(error) => LaunchStage::Settled(not_launched_result(target, error.as_str())),
                }
            },
            (LaunchStage::Starting(target, line), LaunchAnswer::Started(started)) => match started {
                Ok(_) => LaunchStage::Settled(launched_result(target, line.text)),
                Err(reason) => {
                    let error = "failed to spawn ".to_owned().concat(line.text.as_str()).concat(
                        ": ",
                    ).concat(reason.as_str());
                    LaunchStage::Settled(not_launched_result(target, error.as_str()))
                },
            },
            (LaunchStage::Direct(query), LaunchAnswer::Started(started)) => match started {
                Ok(_) => LaunchStage::Settled(launched_directly_result(query)),
                Err(_) => LaunchStage::Settled(not_found_result(query.as_str())),
            },
            (stage, _) => stage,
        };
        Launch { stage }
    }

    /// What came of the launch.
    pub fn result(self) -> (r: Option<LaunchAppResult>)
        ensures
            r is Some <==> self@ is Settled,
            r is Some ==> self@ == LaunchState::Settled(r->0@),
    {
        match self.stage {
            LaunchStage::Settled(result) => Some(result),
            _ => None,
        }
    }
}

} // verus!
