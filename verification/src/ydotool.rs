//! Setting ydotool up: access to the input device, and its daemon.

use vstd::prelude::*;
use vstd::utf8::{encode_utf8, encode_utf8_decode_utf8, encode_utf8_valid_utf8};

use crate::bytes::{from_utf8_lossy, utf8_text};
use crate::check::{broken, works, Check, Finding};
use crate::command::{
    command_spec, written, written_text, CommandOutcome, CommandOutput, CommandSpec, CommandText,
};
use crate::report::{DoctorReport, InputReport, YdotoolSetupReport};
use crate::scan::{
    blank, contains, has_text, join, joined, slices, text_is_found_anywhere,
    trimming_leaves_the_text,
};
use crate::text::whitespace;

verus! {

/// The file with the rule that gives the `input` group access to the device.
pub const UDEV_RULE_PATH: &'static str = "/etc/udev/rules.d/70-uinput.rules";

/// The rule itself.
pub const UDEV_RULE: &'static str = "KERNEL==\"uinput\", GROUP=\"input\", MODE=\"0660\"";

pub const RULE_NOT_NEEDED: &'static str =
    "/dev/uinput is already accessible; udev rule not needed";

pub const ALREADY_MEMBER: &'static str = "user is already in the input group";

pub const RELOAD_SKIPPED: &'static str =
    "udev reload skipped (/dev/uinput already accessible or udev rule not written)";

pub const NOT_INSTALLED: &'static str =
    "ydotool is not installed; install it (e.g. sudo pacman -S ydotool) then call setup_ydotool again";

pub const ALREADY_RUNNING: &'static str = "ydotoold is already running with a connectable socket";

pub const INSTALL_FIRST: &'static str = "Install ydotool first, then call setup_ydotool again.";

pub const LOG_IN_AGAIN: &'static str =
    "Log out and back in for the new input group membership to take effect.";

pub const START_BY_HAND: &'static str =
    "ydotoold service could not be started; run: systemctl --user enable --now ydotoold";

pub const SETUP_COMPLETE: &'static str =
    "ydotool setup complete: /dev/uinput or a connectable ydotoold socket is now available.";

pub const SETUP_INCOMPLETE: &'static str =
    "Setup steps ran but input is still not available; check udev_rule, udev_reload, and ydotoold_service details.";

// ---------------------------------------------------------------------------
// Single steps.
// ---------------------------------------------------------------------------

/// The words for a command that ended without success.
pub open spec fn failure_words(what: Seq<char>, output: CommandOutput) -> Seq<char> {
    what + " failed ("@ + output.status@ + "): "@ + written(output.stderr@)
}

fn failure_text(what: &str, output: &CommandOutput) -> (r: String)
    ensures
        r@ == failure_words(what@, *output),
{
    let stderr = written_text(&output.stderr);
    what.to_owned().concat(" failed (").concat(output.status.as_str()).concat("): ").concat(
        stderr.as_str(),
    )
}

/// A file to be written with the rights of the administrator: a command, and
/// what it is to be given on its standard input.
#[derive(Debug)]
pub struct FileWrite {
    pub command: CommandSpec,
    pub input: String,
}

/// What came of running a command with something on its standard input.
#[derive(Debug)]
pub enum PipedOutcome {
    Exited(CommandOutput),
    /// The command could not be started, and why.
    NotStarted(String),
    /// The command was started, but how it ended could not be learned, and why.
    Lost(String),
}

/// The command that copies its standard input to a file as the administrator.
pub open spec fn tee_command(path: Seq<char>) -> CommandText {
    CommandText { program: "pkexec"@, args: seq!["tee"@, path], session_bus: false }
}

/// What the attempt to write a file amounts to.
pub open spec fn write_finding(path: Seq<char>, outcome: PipedOutcome) -> Finding {
    match outcome {
        PipedOutcome::NotStarted(reason) => broken("pkexec not available: "@ + reason@),
        PipedOutcome::Exited(output) => if output.success {
            works("wrote "@ + path)
        } else {
            broken(failure_words("pkexec tee "@ + path, output))
        },
        PipedOutcome::Lost(reason) => broken("pkexec tee "@ + path + ": "@ + reason@),
    }
}

/// How a file is written with the rights of the administrator: the content and
/// a line feed go to the standard input of the command.
pub fn file_write(path: &str, content: &str) -> (r: FileWrite)
    ensures
        r.command@ == tee_command(path@),
        r.input@ == content@ + "\n"@,
{
    let args = ["tee", path];
    assert(slices(args@) =~= seq!["tee"@, path@]);
    FileWrite {
        command: command_spec("pkexec", &args, false),
        input: content.to_owned().concat("\n"),
    }
}

/// The check that the attempt to write a file gives.
pub fn write_file_with_pkexec(path: &str, outcome: &PipedOutcome) -> (r: Check)
    ensures
        r@ == write_finding(path@, *outcome),
{
    match outcome {
        PipedOutcome::NotStarted(reason) => Check::fail(
            "pkexec not available: ".to_owned().concat(reason.as_str()).as_str(),
        ),
        PipedOutcome::Exited(output) => if output.success {
            Check::ok("wrote ".to_owned().concat(path).as_str())
        } else {
            let what = "pkexec tee ".to_owned().concat(path);
            Check::fail(failure_text(what.as_str(), output).as_str())
        },
        PipedOutcome::Lost(reason) => Check::fail(
            "pkexec tee ".to_owned().concat(path).concat(": ").concat(reason.as_str()).as_str(),
        ),
    }
}

/// The command that lists the user's groups.
pub open spec fn groups_command() -> CommandText {
    CommandText { program: "id"@, args: seq![], session_bus: false }
}

/// What `id` printed names the `input` group.
pub open spec fn names_input_group(outcome: CommandOutcome) -> bool {
    match outcome {
        CommandOutcome::Exited(output) => has_text(utf8_text(output.stdout@), "(input)"@),
        CommandOutcome::NotStarted(_) => false,
    }
}

/// Whether `id` says that the user is in the `input` group.
pub fn user_in_input_group(outcome: &CommandOutcome) -> (r: bool)
    ensures
        r == names_input_group(*outcome),
{
    match outcome {
        CommandOutcome::Exited(output) => {
            let text = from_utf8_lossy(output.stdout.as_slice());
            contains(text.as_str(), "(input)")
        },
        CommandOutcome::NotStarted(_) => false,
    }
}

/// The command that starts the daemon's service.
pub open spec fn service_command() -> CommandText {
    CommandText {
        program: "systemctl"@,
        args: seq!["--user"@, "enable"@, "--now"@, "ydotoold"@],
        session_bus: false,
    }
}

/// What the attempt to start the service amounts to.
pub open spec fn service_finding(outcome: CommandOutcome) -> Finding {
    match outcome {
        CommandOutcome::NotStarted(reason) => broken("systemctl not available: "@ + reason@),
        CommandOutcome::Exited(output) => if output.success {
            works("ydotoold user service enabled and started"@)
        } else {
            broken(failure_words("systemctl --user enable --now ydotoold"@, output))
        },
    }
}

/// The check that the attempt to start the service gives.
pub fn enable_ydotoold_service(outcome: &CommandOutcome) -> (r: Check)
    ensures
        r@ == service_finding(*outcome),
{
    match outcome {
        CommandOutcome::NotStarted(reason) => Check::fail(
            "systemctl not available: ".to_owned().concat(reason.as_str()).as_str(),
        ),
        CommandOutcome::Exited(output) => if output.success {
            Check::ok("ydotoold user service enabled and started")
        } else {
            Check::fail(failure_text("systemctl --user enable --now ydotoold", output).as_str())
        },
    }
}

// ---------------------------------------------------------------------------
// Joining the group.
// ---------------------------------------------------------------------------

/// The work of adding the user to the `input` group.
#[derive(Debug)]
pub enum GroupJoin {
    /// The user's name has to be asked for.
    AskName,
    /// The user of the given name has to be added.
    Add(String),
    Settled(Check),
}

/// That work as a mathematical value.
pub enum JoinState {
    AskName,
    Add(Seq<char>),
    Settled(Finding),
}

impl View for GroupJoin {
    type V = JoinState;

    open spec fn view(&self) -> JoinState {
        match *self {
            GroupJoin::AskName => JoinState::AskName,
            GroupJoin::Add(name) => JoinState::Add(name@),
            GroupJoin::Settled(check) => JoinState::Settled(check@),
        }
    }
}

/// The command that the work asks for.
pub open spec fn join_command(s: JoinState) -> Option<CommandText> {
    match s {
        JoinState::AskName => Some(
            CommandText { program: "id"@, args: seq!["-un"@], session_bus: false },
        ),
        JoinState::Add(name) => Some(
            CommandText {
                program: "pkexec"@,
                args: seq!["usermod"@, "-aG"@, "input"@, name],
                session_bus: false,
            },
        ),
        JoinState::Settled(_) => None,
    }
}

/// The work after that command.
pub open spec fn join_step(s: JoinState, outcome: CommandOutcome) -> JoinState {
    match s {
        JoinState::AskName => match outcome {
            CommandOutcome::Exited(output) => if !output.success {
                JoinState::Settled(broken("could not determine current username via id -un"@))
            } else if written(output.stdout@).len() == 0 {
                JoinState::Settled(broken("id -un returned an empty username"@))
            } else {
                JoinState::Add(written(output.stdout@))
            },
            CommandOutcome::NotStarted(_) => JoinState::Settled(
                broken("could not determine current username via id -un"@),
            ),
        },
        JoinState::Add(name) => JoinState::Settled(
            match outcome {
                CommandOutcome::Exited(output) => if output.success {
                    works(added_words(name))
                } else {
                    broken(failure_words("pkexec usermod -aG input "@ + name, output))
                },
                CommandOutcome::NotStarted(reason) => broken("pkexec not available: "@ + reason@),
            },
        ),
        JoinState::Settled(_) => s,
    }
}

/// Starts the work of adding the user to the `input` group.
pub fn add_user_to_input_group() -> (r: GroupJoin)
    ensures
        r@ == JoinState::AskName,
{
    GroupJoin::AskName
}

impl GroupJoin {
    /// The command to be run next; none once the work is settled.
    pub fn command(&self) -> (r: Option<CommandSpec>)
        ensures
            r is Some <==> join_command(self@) is Some,
            r is Some ==> Some(r->0@) == join_command(self@),
    {
        match self {
            GroupJoin::AskName => {
                let args = ["-un"];
                assert(slices(args@) =~= seq!["-un"@]);
                Some(command_spec("id", &args, false))
            },
            GroupJoin::Add(name) => {
                let args = ["usermod", "-aG", "input", name.as_str()];
                assert(slices(args@) =~= seq!["usermod"@, "-aG"@, "input"@, name@]);
                Some(command_spec("pkexec", &args, false))
            },
            GroupJoin::Settled(_) => None,
        }
    }

    /// The work after its next command had the given outcome.
    pub fn record(self, outcome: &CommandOutcome) -> (r: Self)
        ensures
            r@ == join_step(self@, *outcome),
    {
        match self {
            GroupJoin::AskName => match outcome {
                CommandOutcome::Exited(output) => {
                    if !output.success {
                        return GroupJoin::Settled(
                            Check::fail("could not determine current username via id -un"),
                        );
                    }
                    let name = written_text(&output.stdout);
                    if name.as_str().is_empty() {
                        GroupJoin::Settled(Check::fail("id -un returned an empty username"))
                    } else {
                        GroupJoin::Add(name)
                    }
                },
                CommandOutcome::NotStarted(_) => GroupJoin::Settled(
                    Check::fail("could not determine current username via id -un"),
                ),
            },
            GroupJoin::Add(name) => GroupJoin::Settled(
                match outcome {
                    CommandOutcome::Exited(output) => if output.success {
                        Check::ok(
                            "added ".to_owned().concat(name.as_str()).concat(
                                " to the input group",
                            ).as_str(),
                        )
                    } else {
                        let what = "pkexec usermod -aG input ".to_owned().concat(name.as_str());
                        Check::fail(failure_text(what.as_str(), output).as_str())
                    },
                    CommandOutcome::NotStarted(reason) => Check::fail(
                        "pkexec not available: ".to_owned().concat(reason.as_str()).as_str(),
                    ),
                },
            ),
            GroupJoin::Settled(check) => GroupJoin::Settled(check),
        }
    }
}

// ---------------------------------------------------------------------------
// Reloading the rules.
// ---------------------------------------------------------------------------

/// The work of making udev apply its rules.
#[derive(Debug)]
pub enum UdevReload {
    /// The rules have to be read again.
    Reload,
    /// They have to be applied to the devices that are there.
    Trigger,
    Settled(Check),
}

/// That work as a mathematical value.
pub enum ReloadState {
    Reload,
    Trigger,
    Settled(Finding),
}

impl View for UdevReload {
    type V = ReloadState;

    open spec fn view(&self) -> ReloadState {
        match *self {
            UdevReload::Reload => ReloadState::Reload,
            UdevReload::Trigger => ReloadState::Trigger,
            UdevReload::Settled(check) => ReloadState::Settled(check@),
        }
    }
}

/// The command that the work asks for.
pub open spec fn reload_command(s: ReloadState) -> Option<CommandText> {
    match s {
        ReloadState::Reload => Some(
            CommandText {
                program: "pkexec"@,
                args: seq!["udevadm"@, "control"@, "--reload-rules"@],
                session_bus: false,
            },
        ),
        ReloadState::Trigger => Some(
            CommandText {
                program: "pkexec"@,
                args: seq!["udevadm"@, "trigger"@, "--subsystem-match=misc"@],
                session_bus: false,
            },
        ),
        ReloadState::Settled(_) => None,
    }
}

/// The work after that command.
pub open spec fn reload_step(s: ReloadState, outcome: CommandOutcome) -> ReloadState {
    match s {
        ReloadState::Reload => match outcome {
            CommandOutcome::Exited(output) => if output.success {
                ReloadState::Trigger
            } else {
                ReloadState::Settled(
                    broken(failure_words("udevadm control --reload-rules"@, output)),
                )
            },
            CommandOutcome::NotStarted(reason) => ReloadState::Settled(
                broken("pkexec udevadm control: "@ + reason@),
            ),
        },
        ReloadState::Trigger => ReloadState::Settled(
            match outcome {
                CommandOutcome::Exited(output) => if output.success {
                    works("udev rules reloaded and misc subsystem triggered"@)
                } else {
                    broken(failure_words("udevadm trigger --subsystem-match=misc"@, output))
                },
                CommandOutcome::NotStarted(reason) => broken(
                    "pkexec udevadm trigger: "@ + reason@,
                ),
            },
        ),
        ReloadState::Settled(_) => s,
    }
}

/// Starts the work of making udev apply its rules.
pub fn reload_udev_rules() -> (r: UdevReload)
    ensures
        r@ == ReloadState::Reload,
{
    UdevReload::Reload
}

impl UdevReload {
    /// The command to be run next; none once the work is settled.
    pub fn command(&self) -> (r: Option<CommandSpec>)
        ensures
            r is Some <==> reload_command(self@) is Some,
            r is Some ==> Some(r->0@) == reload_command(self@),
    {
        match self {
            UdevReload::Reload => {
                let args = ["udevadm", "control", "--reload-rules"];
                assert(slices(args@) =~= seq!["udevadm"@, "control"@, "--reload-rules"@]);
                Some(command_spec("pkexec", &args, false))
            },
            UdevReload::Trigger => {
                let args = ["udevadm", "trigger", "--subsystem-match=misc"];
                assert(slices(args@) =~= seq!["udevadm"@, "trigger"@, "--subsystem-match=misc"@]);
                Some(command_spec("pkexec", &args, false))
            },
            UdevReload::Settled(_) => None,
        }
    }

    /// The work after its next command had the given outcome.
    pub fn record(self, outcome: &CommandOutcome) -> (r: Self)
        ensures
            r@ == reload_step(self@, *outcome),
    {
        match self {
            UdevReload::Reload => match outcome {
                CommandOutcome::Exited(output) => if output.success {
                    UdevReload::Trigger
                } else {
                    UdevReload::Settled(
                        Check::fail(
                            failure_text("udevadm control --reload-rules", output).as_str(),
                        ),
                    )
                },
                CommandOutcome::NotStarted(reason) => UdevReload::Settled(
                    Check::fail(
                        "pkexec udevadm control: ".to_owned().concat(reason.as_str()).as_str(),
                    ),
                ),
            },
            UdevReload::Trigger => UdevReload::Settled(
                match outcome {
                    CommandOutcome::Exited(output) => if output.success {
                        Check::ok("udev rules reloaded and misc subsystem triggered")
                    } else {
                        Check::fail(
                            failure_text("udevadm trigger --subsystem-match=misc", output).as_str(),
                        )
                    },
                    CommandOutcome::NotStarted(reason) => Check::fail(
                        "pkexec udevadm trigger: ".to_owned().concat(reason.as_str()).as_str(),
                    ),
                },
            ),
            UdevReload::Settled(check) => UdevReload::Settled(check),
        }
    }
}

// ---------------------------------------------------------------------------
// The whole setup.
// ---------------------------------------------------------------------------

/// What the setup asks for.
#[derive(Debug)]
pub enum SetupRequest {
    /// Whether there is something at the path.
    PathExists(String),
    /// To write a file.
    Write(FileWrite),
    /// To run a command.
    Run(CommandSpec),
    /// Nothing more.
    Nothing,
}

/// A request as a mathematical value.
pub enum RequestText {
    PathExists(Seq<char>),
    Write(CommandText, Seq<char>),
    Run(CommandText),
    Nothing,
}

impl View for SetupRequest {
    type V = RequestText;

    open spec fn view(&self) -> RequestText {
        match *self {
            SetupRequest::PathExists(path) => RequestText::PathExists(path@),
            SetupRequest::Write(write) => RequestText::Write(write.command@, write.input@),
            SetupRequest::Run(command) => RequestText::Run(command@),
            SetupRequest::Nothing => RequestText::Nothing,
        }
    }
}

/// What the setup is told.
#[derive(Debug)]
pub enum SetupAnswer {
    PathExists(bool),
    Write(PipedOutcome),
    Run(CommandOutcome),
}

/// How far the setup has come.
#[derive(Debug)]
enum SetupStage {
    RuleQuestion,
    RuleWrite,
    GroupQuestion { rule: Check },
    Joining { rule: Check, join: GroupJoin },
    Reloading { rule: Check, was_member: bool, group: Check, work: UdevReload },
    Service { rule: Check, was_member: bool, group: Check, reload: Check },
    Finished { rule: Check, was_member: bool, group: Check, reload: Check, service: Check },
}

/// The setup as a mathematical value: the stage that it has reached, with what
/// was found on the way.
pub enum SetupState {
    RuleQuestion,
    RuleWrite,
    GroupQuestion { rule: Finding },
    Joining { rule: Finding, join: JoinState },
    Reloading { rule: Finding, was_member: bool, group: Finding, work: ReloadState },
    Service { rule: Finding, was_member: bool, group: Finding, reload: Finding },
    Finished {
        rule: Finding,
        was_member: bool,
        group: Finding,
        reload: Finding,
        service: Finding,
    },
}

/// The start: the rule is of interest where the device is not accessible.
pub open spec fn setup_start(input: InputReport) -> SetupState {
    if input.uinput.ok {
        SetupState::GroupQuestion { rule: works(RULE_NOT_NEEDED@) }
    } else {
        SetupState::RuleQuestion
    }
}

/// The setup once udev has been seen to.
pub open spec fn toward_service(
    input: InputReport,
    rule: Finding,
    was_member: bool,
    group: Finding,
    reload: Finding,
) -> SetupState {
    if !input.ydotool.ok {
        SetupState::Finished { rule, was_member, group, reload, service: broken(NOT_INSTALLED@) }
    } else if input.ydotoold.ok && input.ydotool_socket.ok {
        SetupState::Finished { rule, was_member, group, reload, service: works(ALREADY_RUNNING@) }
    } else {
        SetupState::Service { rule, was_member, group, reload }
    }
}

/// The setup once the group has been seen to.
pub open spec fn toward_reload(
    input: InputReport,
    rule: Finding,
    was_member: bool,
    group: Finding,
) -> SetupState {
    if !input.uinput.ok && rule.ok {
        SetupState::Reloading { rule, was_member, group, work: ReloadState::Reload }
    } else {
        toward_service(input, rule, was_member, group, works(RELOAD_SKIPPED@))
    }
}

/// What the setup asks for.
pub open spec fn setup_request(s: SetupState) -> RequestText {
    match s {
        SetupState::RuleQuestion => RequestText::PathExists(UDEV_RULE_PATH@),
        SetupState::RuleWrite => RequestText::Write(
            tee_command(UDEV_RULE_PATH@),
            UDEV_RULE@ + "\n"@,
        ),
        SetupState::GroupQuestion { rule } => RequestText::Run(groups_command()),
        SetupState::Joining { rule, join } => match join_command(join) {
            Some(command) => RequestText::Run(command),
            None => RequestText::Nothing,
        },
        SetupState::Reloading { rule, was_member, group, work } => match reload_command(work) {
            Some(command) => RequestText::Run(command),
            None => RequestText::Nothing,
        },
        SetupState::Service { rule, was_member, group, reload } => RequestText::Run(
            service_command(),
        ),
        SetupState::Finished { .. } => RequestText::Nothing,
    }
}

/// The setup after an answer. An answer to something else leaves it as it is.
pub open spec fn setup_step(input: InputReport, s: SetupState, answer: SetupAnswer) -> SetupState {
    match (s, answer) {
        (SetupState::RuleQuestion, SetupAnswer::PathExists(exists_there)) => if exists_there {
            SetupState::GroupQuestion { rule: works(UDEV_RULE_PATH@ + " already exists"@) }
        } else {
            SetupState::RuleWrite
        },
        (SetupState::RuleWrite, SetupAnswer::Write(outcome)) => SetupState::GroupQuestion {
            rule: write_finding(UDEV_RULE_PATH@, outcome),
        },
        (SetupState::GroupQuestion { rule }, SetupAnswer::Run(outcome)) => if names_input_group(
            outcome,
        ) {
            toward_reload(input, rule, true, works(ALREADY_MEMBER@))
        } else {
            SetupState::Joining { rule, join: JoinState::AskName }
        },
        (SetupState::Joining { rule, join }, SetupAnswer::Run(outcome)) => match join_step(
            join,
            outcome,
        ) {
            JoinState::Settled(group) => toward_reload(input, rule, false, group),
            more => SetupState::Joining { rule, join: more },
        },
        (
            SetupState::Reloading { rule, was_member, group, work },
            SetupAnswer::Run(outcome),
        ) => match reload_step(work, outcome) {
            ReloadState::Settled(found) => toward_service(input, rule, was_member, group, found),
            more => SetupState::Reloading { rule, was_member, group, work: more },
        },
        (
            SetupState::Service { rule, was_member, group, reload },
            SetupAnswer::Run(outcome),
        ) => SetupState::Finished {
            rule,
            was_member,
            group,
            reload,
            service: service_finding(outcome),
        },
        _ => s,
    }
}

/// The setup after each of the given answers in turn.
pub open spec fn setup_run(
    input: InputReport,
    s: SetupState,
    answers: Seq<SetupAnswer>,
) -> SetupState
    decreases answers.len(),
{
    if answers.len() == 0 {
        s
    } else {
        setup_step(input, setup_run(input, s, answers.drop_last()), answers.last())
    }
}

// ---------------------------------------------------------------------------
// Laws of the setup.
// ---------------------------------------------------------------------------

/// The words for a user who was added to the group.
pub open spec fn added_words(name: Seq<char>) -> Seq<char> {
    "added "@ + name + " to the input group"@
}

/// A user was added to the group.
pub open spec fn newly_joined(group: Finding) -> bool {
    exists|name: Seq<char>| group == works(#[trigger] added_words(name))
}

/// What is known of the group once it has been seen to: a member was there
/// already, and who was not is reported as one only where they were added.
pub open spec fn group_sound(was_member: bool, group: Finding) -> bool {
    &&& was_member ==> group == works(ALREADY_MEMBER@)
    &&& !was_member && group.ok ==> newly_joined(group)
}

/// What is true of a setup at every stage: udev is touched only where the
/// device is not accessible, and reloaded only where the rule is in place;
/// a member of the group is not added to it again.
pub open spec fn setup_sound(input: InputReport, s: SetupState) -> bool {
    match s {
        SetupState::RuleQuestion => !input.uinput.ok,
        SetupState::RuleWrite => !input.uinput.ok,
        SetupState::GroupQuestion { rule } => input.uinput.ok ==> rule == works(RULE_NOT_NEEDED@),
        SetupState::Joining { rule, join } => {
            &&& input.uinput.ok ==> rule == works(RULE_NOT_NEEDED@)
            &&& !(join is Settled)
        },
        SetupState::Reloading { rule, was_member, group, work } => {
            &&& !input.uinput.ok
            &&& rule.ok
            &&& group_sound(was_member, group)
            &&& !(work is Settled)
        },
        SetupState::Service { rule, was_member, group, reload } => {
            &&& input.uinput.ok ==> rule == works(RULE_NOT_NEEDED@)
            &&& input.uinput.ok || !rule.ok ==> reload == works(RELOAD_SKIPPED@)
            &&& group_sound(was_member, group)
            &&& input.ydotool.ok
            &&& !(input.ydotoold.ok && input.ydotool_socket.ok)
        },
        SetupState::Finished { rule, was_member, group, reload, service } => {
            &&& input.uinput.ok ==> rule == works(RULE_NOT_NEEDED@)
            &&& input.uinput.ok || !rule.ok ==> reload == works(RELOAD_SKIPPED@)
            &&& group_sound(was_member, group)
            &&& !input.ydotool.ok ==> service == broken(NOT_INSTALLED@)
            &&& input.ydotool.ok && input.ydotoold.ok && input.ydotool_socket.ok ==> service
                == works(ALREADY_RUNNING@)
        },
    }
}

/// Whatever the answers are, a setup stays sound.
pub proof fn setup_stays_sound(input: InputReport, answers: Seq<SetupAnswer>)
    ensures
        setup_sound(input, setup_run(input, setup_start(input), answers)),
    decreases answers.len(),
{
    if answers.len() > 0 {
        setup_stays_sound(input, answers.drop_last());
    }
}

/// The rule is not written, and udev not reloaded, where the device was
/// accessible to begin with.
pub proof fn accessible_device_is_left_alone(input: InputReport, answers: Seq<SetupAnswer>)
    requires
        input.uinput.ok,
    ensures
        !(setup_run(input, setup_start(input), answers) is RuleQuestion),
        !(setup_run(input, setup_start(input), answers) is RuleWrite),
        !(setup_run(input, setup_start(input), answers) is Reloading),
{
    setup_stays_sound(input, answers);
}

/// The user is asked to log in again exactly where the setup added them to the
/// group.
pub proof fn relogin_is_for_new_members(input: InputReport, answers: Seq<SetupAnswer>)
    requires
        setup_run(input, setup_start(input), answers) is Finished,
    ensures
        ({
            let s = setup_run(input, setup_start(input), answers);
            (!s->Finished_was_member && s->Finished_group.ok) <==> newly_joined(s->Finished_group)
        }),
{
    setup_stays_sound(input, answers);
    let s = setup_run(input, setup_start(input), answers);
    reveal_strlit("added ");
    reveal_strlit("user is already in the input group");
    if newly_joined(s->Finished_group) {
        let name = choose|name: Seq<char>| s->Finished_group == works(#[trigger] added_words(name));
        assert(added_words(name)[0] == 'a');
        assert(ALREADY_MEMBER@[0] == 'u');
    }
}

/// The order in which the stages follow each other.
pub open spec fn setup_rank(s: SetupState) -> int {
    match s {
        SetupState::RuleQuestion => 8,
        SetupState::RuleWrite => 7,
        SetupState::GroupQuestion { .. } => 6,
        SetupState::Joining { rule, join } => if join is AskName {
            5
        } else {
            4
        },
        SetupState::Reloading { rule, was_member, group, work } => if work is Reload {
            3
        } else {
            2
        },
        SetupState::Service { .. } => 1,
        SetupState::Finished { .. } => 0,
    }
}

/// An answer is to what was asked for.
pub open spec fn answers_request(request: RequestText, answer: SetupAnswer) -> bool {
    match request {
        RequestText::PathExists(_) => answer is PathExists,
        RequestText::Write(_, _) => answer is Write,
        RequestText::Run(_) => answer is Run,
        RequestText::Nothing => false,
    }
}

/// The setup asks for something until it is finished, and every answer to what
/// it asks for brings it closer to its end.
pub proof fn setup_ends(input: InputReport, s: SetupState, answer: SetupAnswer)
    requires
        setup_sound(input, s),
    ensures
        setup_request(s) == RequestText::Nothing <==> s is Finished,
        answers_request(setup_request(s), answer) ==> 0 <= setup_rank(setup_step(input, s, answer))
            < setup_rank(s),
        !answers_request(setup_request(s), answer) ==> setup_step(input, s, answer) == s,
{
}

/// A user whom `id` puts into the `input` group, wherever in its words, is not
/// added to it; everyone else is, by the name that `id -un` prints.
pub proof fn only_others_are_added(
    input: InputReport,
    rule: Finding,
    output: CommandOutput,
    a: Seq<char>,
    b: Seq<char>,
    named: CommandOutput,
    before: Seq<char>,
    name: Seq<char>,
    after: Seq<char>,
)
    requires
        named.success,
        blank(before),
        blank(after),
        name.len() > 0,
        !whitespace(name[0]),
        !whitespace(name.last()),
        named.stdout@ == encode_utf8(before + name + after),
    ensures
        ({
            let asked = SetupState::GroupQuestion { rule };
            let told = setup_step(
                input,
                asked,
                SetupAnswer::Run(CommandOutcome::Exited(output)),
            );
            let joining = setup_step(
                input,
                told,
                SetupAnswer::Run(CommandOutcome::Exited(named)),
            );
            let words = a + "(input)"@ + b;
            &&& setup_request(asked) == RequestText::Run(
                CommandText { program: "id"@, args: seq![], session_bus: false },
            )
            &&& output.stdout@ == encode_utf8(words) ==> !(told is Joining) && !(
            told is GroupQuestion)
            &&& output.stdout@ == encode_utf8(a) && !has_text(a, "(input)"@) ==> {
                &&& setup_request(told) == RequestText::Run(
                    CommandText { program: "id"@, args: seq!["-un"@], session_bus: false },
                )
                &&& setup_request(joining) == RequestText::Run(
                    CommandText {
                        program: "pkexec"@,
                        args: seq!["usermod"@, "-aG"@, "input"@, name],
                        session_bus: false,
                    },
                )
            }
        }),
{
    let words = a + "(input)"@ + b;
    encode_utf8_valid_utf8(words);
    encode_utf8_decode_utf8(words);
    encode_utf8_valid_utf8(a);
    encode_utf8_decode_utf8(a);
    text_is_found_anywhere(words, a, "(input)"@, b);
    encode_utf8_valid_utf8(before + name + after);
    encode_utf8_decode_utf8(before + name + after);
    trimming_leaves_the_text(before, name, after);
}

/// The rule is asked for only where the device is not accessible. It is written,
/// as one line, only where it is not there yet; and where the writing fails in
/// whatever way it does not count as being there.
pub proof fn rule_is_written_where_it_is_missing(input: InputReport, outcome: PipedOutcome)
    ensures
        input.uinput.ok ==> setup_start(input) is GroupQuestion && setup_start(
            input,
        )->GroupQuestion_rule.ok,
        !input.uinput.ok ==> {
            let start = setup_start(input);
            let there = setup_step(input, start, SetupAnswer::PathExists(true));
            let missing = setup_step(input, start, SetupAnswer::PathExists(false));
            let written = setup_step(input, missing, SetupAnswer::Write(outcome));
            &&& setup_request(start) == RequestText::PathExists(
                "/etc/udev/rules.d/70-uinput.rules"@,
            )
            &&& there is GroupQuestion && there->GroupQuestion_rule.ok
            &&& setup_request(missing) == RequestText::Write(
                CommandText {
                    program: "pkexec"@,
                    args: seq!["tee"@, "/etc/udev/rules.d/70-uinput.rules"@],
                    session_bus: false,
                },
                "KERNEL==\"uinput\", GROUP=\"input\", MODE=\"0660\""@ + "\n"@,
            )
            &&& written is GroupQuestion
            &&& written->GroupQuestion_rule.ok <==> outcome is Exited && outcome->Exited_0.success
        },
{
}

/// Once the group is seen to, udev reads its rules again where the device is not
/// accessible and the rule is in place, and then applies them; the second step
/// comes only where the first succeeded, and a failure of either is told.
pub proof fn rules_are_read_and_then_applied(
    input: InputReport,
    rule: Finding,
    was_member: bool,
    group: Finding,
    outcome: CommandOutcome,
    second: CommandOutcome,
)
    ensures
        !input.uinput.ok && rule.ok ==> {
            let works = outcome is Exited && outcome->Exited_0.success;
            let start = toward_reload(input, rule, was_member, group);
            let next = setup_step(input, start, SetupAnswer::Run(outcome));
            &&& setup_request(start) == RequestText::Run(
                CommandText {
                    program: "pkexec"@,
                    args: seq!["udevadm"@, "control"@, "--reload-rules"@],
                    session_bus: false,
                },
            )
            &&& works ==> setup_request(next) == RequestText::Run(
                CommandText {
                    program: "pkexec"@,
                    args: seq!["udevadm"@, "trigger"@, "--subsystem-match=misc"@],
                    session_bus: false,
                },
            )
            &&& !works ==> !(next is Reloading)
            &&& !works ==> reload_step(ReloadState::Reload, outcome) is Settled && !reload_step(
                ReloadState::Reload,
                outcome,
            )->Settled_0.ok
        },
        reload_step(ReloadState::Trigger, second) is Settled,
        reload_step(ReloadState::Trigger, second)->Settled_0.ok <==> second is Exited
            && second->Exited_0.success,
        input.uinput.ok || !rule.ok ==> !(toward_reload(input, rule, was_member, group)
            is Reloading),
{
}

/// The service is started where ydotool is installed and its daemon cannot be
/// reached; it counts as working where the start succeeded. Where ydotool is
/// missing nothing is started, and where the daemon can be reached neither.
pub proof fn service_is_started_where_it_is_needed(
    input: InputReport,
    rule: Finding,
    was_member: bool,
    group: Finding,
    reload: Finding,
    outcome: CommandOutcome,
)
    ensures
        ({
            let s = toward_service(input, rule, was_member, group, reload);
            let done = setup_step(input, s, SetupAnswer::Run(outcome));
            let running = input.ydotoold.ok && input.ydotool_socket.ok;
            &&& input.ydotool.ok && !running ==> setup_request(s) == RequestText::Run(
                CommandText {
                    program: "systemctl"@,
                    args: seq!["--user"@, "enable"@, "--now"@, "ydotoold"@],
                    session_bus: false,
                },
            )
            &&& input.ydotool.ok && !running ==> done is Finished && (done->service.ok <==> outcome
                is Exited && outcome->Exited_0.success)
            &&& input.ydotool.ok && running ==> s is Finished && s->service.ok
            &&& !input.ydotool.ok ==> s is Finished && !s->service.ok
        }),
{
}

/// A user counts as added exactly where the command that adds them succeeded; and
/// where `id -un` fails, or prints nothing, nobody is added.
pub proof fn joining_is_told_truly(
    name: Seq<char>,
    outcome: CommandOutcome,
    nameless: CommandOutput,
    gap: Seq<char>,
)
    requires
        blank(gap),
        nameless.stdout@ == encode_utf8(gap),
    ensures
        join_step(JoinState::AskName, CommandOutcome::Exited(nameless)) is Settled,
        !join_step(JoinState::AskName, CommandOutcome::Exited(nameless))->Settled_0.ok,
        join_step(JoinState::Add(name), outcome) is Settled,
        join_step(JoinState::Add(name), outcome)->Settled_0.ok <==> outcome is Exited
            && outcome->Exited_0.success,
        !(outcome is Exited && outcome->Exited_0.success) ==> join_step(JoinState::AskName, outcome)
            is Settled && !join_step(JoinState::AskName, outcome)->Settled_0.ok,
{
    encode_utf8_valid_utf8(gap);
    encode_utf8_decode_utf8(gap);
    trimming_leaves_the_text(gap, seq![], seq![]);
    assert(gap + Seq::<char>::empty() + Seq::<char>::empty() =~= gap);
}

/// The message asks to install what is missing before anything else; then it
/// lists what is left to do, the new login before the service; and only where
/// nothing is left it tells whether input works, through the device or through
/// the daemon and its socket.
pub proof fn message_tells_what_is_left(
    after: InputReport,
    service_ok: bool,
    requires_relogin: bool,
)
    ensures
        setup_message(after, service_ok, false, requires_relogin)
            == "Install ydotool first, then call setup_ydotool again."@,
        setup_message(after, false, true, true) == LOG_IN_AGAIN@ + " "@ + START_BY_HAND@,
        setup_message(after, true, true, true) == LOG_IN_AGAIN@,
        setup_message(after, false, true, false) == START_BY_HAND@,
        after.uinput.ok || (after.ydotoold.ok && after.ydotool_socket.ok) ==> setup_message(
            after,
            true,
            true,
            false,
        ) == SETUP_COMPLETE@,
        !after.uinput.ok && !(after.ydotoold.ok && after.ydotool_socket.ok) ==> setup_message(
            after,
            true,
            true,
            false,
        ) == SETUP_INCOMPLETE@,
{
    let none: Seq<Seq<char>> = seq![];
    reveal_with_fuel(joined, 3);
    assert(left_to_do(false, true) =~= seq![LOG_IN_AGAIN@, START_BY_HAND@]);
    assert(left_to_do(false, true).drop_last() =~= seq![LOG_IN_AGAIN@]);
    assert(left_to_do(true, true) =~= seq![LOG_IN_AGAIN@]);
    assert(left_to_do(false, false) =~= seq![START_BY_HAND@]);
    assert(left_to_do(true, false) =~= none);
}

// ---------------------------------------------------------------------------
// The setup in code.
// ---------------------------------------------------------------------------

/// The work of setting ydotool up.
#[derive(Debug)]
pub struct YdotoolSetup {
    before: DoctorReport,
    stage: SetupStage,
}

impl View for YdotoolSetup {
    type V = SetupState;

    closed spec fn view(&self) -> SetupState {
        match self.stage {
            SetupStage::RuleQuestion => SetupState::RuleQuestion,
            SetupStage::RuleWrite => SetupState::RuleWrite,
            SetupStage::GroupQuestion { rule } => SetupState::GroupQuestion { rule: rule@ },
            SetupStage::Joining { rule, join } => SetupState::Joining { rule: rule@, join: join@ },
            SetupStage::Reloading { rule, was_member, group, work } => SetupState::Reloading {
                rule: rule@,
                was_member,
                group: group@,
                work: work@,
            },
            SetupStage::Service { rule, was_member, group, reload } => SetupState::Service {
                rule: rule@,
                was_member,
                group: group@,
                reload: reload@,
            },
            SetupStage::Finished { rule, was_member, group, reload, service } =>
                SetupState::Finished {
                    rule: rule@,
                    was_member,
                    group: group@,
                    reload: reload@,
                    service: service@,
                },
        }
    }
}

/// Starts the work of setting ydotool up, from what the doctor found before.
pub fn setup_ydotool_report(before: DoctorReport) -> (r: YdotoolSetup)
    ensures
        r.found_before() == before,
        r@ == setup_start(before.input),
{
    let stage = if before.input.uinput.ok {
        SetupStage::GroupQuestion { rule: Check::ok(RULE_NOT_NEEDED) }
    } else {
        SetupStage::RuleQuestion
    };
    YdotoolSetup { before, stage }
}

impl YdotoolSetup {
    /// What the doctor found before the setup.
    pub closed spec fn found_before(&self) -> DoctorReport {
        self.before
    }

    fn at_service(
        before: DoctorReport,
        rule: Check,
        was_member: bool,
        group: Check,
        reload: Check,
    ) -> (r: Self)
        ensures
            r.found_before() == before,
            r@ == toward_service(before.input, rule@, was_member, group@, reload@),
    {
        let stage = if !before.input.ydotool.ok {
            let service = Check::fail(NOT_INSTALLED);
            SetupStage::Finished { rule, was_member, group, reload, service }
        } else if before.input.ydotoold.ok && before.input.ydotool_socket.ok {
            let service = Check::ok(ALREADY_RUNNING);
            SetupStage::Finished { rule, was_member, group, reload, service }
        } else {
            SetupStage::Service { rule, was_member, group, reload }
        };
        YdotoolSetup { before, stage }
    }

    fn at_reload(before: DoctorReport, rule: Check, was_member: bool, group: Check) -> (r: Self)
        ensures
            r.found_before() == before,
            r@ == toward_reload(before.input, rule@, was_member, group@),
    {
        if !before.input.uinput.ok && rule.ok {
            let work = reload_udev_rules();
            YdotoolSetup {
                before,
                stage: SetupStage::Reloading { rule, was_member, group, work },
            }
        } else {
            Self::at_service(before, rule, was_member, group, Check::ok(RELOAD_SKIPPED))
        }
    }

    /// What the setup asks for.
    pub fn request(&self) -> (r: SetupRequest)
        ensures
            r@ == setup_request(self@),
    {
        match &self.stage {
            SetupStage::RuleQuestion => SetupRequest::PathExists(UDEV_RULE_PATH.to_owned()),
            SetupStage::RuleWrite => SetupRequest::Write(file_write(UDEV_RULE_PATH, UDEV_RULE)),
            SetupStage::GroupQuestion { .. } => {
                let args: [&str; 0] = [];
                assert(slices(args@) =~= seq![]);
                SetupRequest::Run(command_spec("id", &args, false))
            },
            SetupStage::Joining { join, .. } => match join.command() {
                Some(command) => SetupRequest::Run(command),
                None => SetupRequest::Nothing,
            },
            SetupStage::Reloading { work, .. } => match work.command() {
                Some(command) => SetupRequest::Run(command),
                None => SetupRequest::Nothing,
            },
            SetupStage::Service { .. } => {
                let args = ["--user", "enable", "--now", "ydotoold"];
                assert(slices(args@) =~= seq!["--user"@, "enable"@, "--now"@, "ydotoold"@]);
                SetupRequest::Run(command_spec("systemctl", &args, false))
            },
            SetupStage::Finished { .. } => SetupRequest::Nothing,
        }
    }

    /// The setup after an answer.
    pub fn answer(self, answer: &SetupAnswer) -> (r: Self)
        ensures
            r.found_before() == self.found_before(),
            r@ == setup_step(self.found_before().input, self@, *answer),
    {
        let YdotoolSetup { before, stage } = self;
        match (stage, answer) {
            (SetupStage::RuleQuestion, SetupAnswer::PathExists(exists_there)) => {
                let stage = if *exists_there {
                    let words = UDEV_RULE_PATH.to_owned().concat(" already exists");
                    SetupStage::GroupQuestion { rule: Check::ok(words.as_str()) }
                } else {
                    SetupStage::RuleWrite
                };
                YdotoolSetup { before, stage }
            },
            (SetupStage::RuleWrite, SetupAnswer::Write(outcome)) => {
                let rule = write_file_with_pkexec(UDEV_RULE_PATH, outcome);
                YdotoolSetup { before, stage: SetupStage::GroupQuestion { rule } }
            },
            (SetupStage::GroupQuestion { rule }, SetupAnswer::Run(outcome)) => {
                if user_in_input_group(outcome) {
                    Self::at_reload(before, rule, true, Check::ok(ALREADY_MEMBER))
                } else {
                    let join = add_user_to_input_group();
                    YdotoolSetup { before, stage: SetupStage::Joining { rule, join } }
                }
            },
            (SetupStage::Joining { rule, join }, SetupAnswer::Run(outcome)) => {
                match join.record(outcome) {
                    GroupJoin::Settled(group) => Self::at_reload(before, rule, false, group),
                    more => YdotoolSetup {
                        before,
                        stage: SetupStage::Joining { rule, join: more },
                    },
                }
            },
            (
                SetupStage::Reloading { rule, was_member, group, work },
                SetupAnswer::Run(outcome),
            ) => match work.record(outcome) {
                UdevReload::Settled(found) => Self::at_service(
                    before,
                    rule,
                    was_member,
                    group,
                    found,
                ),
                more => YdotoolSetup {
                    before,
                    stage: SetupStage::Reloading { rule, was_member, group, work: more },
                },
            },
            (
                SetupStage::Service { rule, was_member, group, reload },
                SetupAnswer::Run(outcome),
            ) => {
                let service = enable_ydotoold_service(outcome);
                YdotoolSetup {
                    before,
                    stage: SetupStage::Finished { rule, was_member, group, reload, service },
                }
            },
            (stage, _) => YdotoolSetup { before, stage },
        }
    }

    /// The report on a finished setup, with what the doctor found after it.
    pub fn report(self, after: DoctorReport) -> (r: Option<YdotoolSetupReport>)
        ensures
            r is Some <==> self@ is Finished,
            r matches Some(report) ==> {
                &&& report.before == self.found_before()
                &&& report.after == after
                &&& report.ydotool_installed == self.found_before().input.ydotool.ok
                &&& report.udev_rule@ == self@->Finished_rule
                &&& report.group_membership@ == self@->Finished_group
                &&& report.udev_reload@ == self@->Finished_reload
                &&& report.ydotoold_service@ == self@->service
                &&& report.requires_relogin == (!self@->Finished_was_member
                    && self@->Finished_group.ok)
                &&& report.message@ == setup_message(
                    after.input,
                    report.ydotoold_service.ok,
                    report.ydotool_installed,
                    report.requires_relogin,
                )
            },
    {
        let YdotoolSetup { before, stage } = self;
        match stage {
            SetupStage::Finished { rule, was_member, group, reload, service } => {
                let installed = before.input.ydotool.ok;
                let requires_relogin = !was_member && group.ok;
                let message = ydotool_setup_message(&after, &service, installed, requires_relogin);
                Some(
                    YdotoolSetupReport {
                        before,
                        ydotool_installed: installed,
                        udev_rule: rule,
                        group_membership: group,
                        udev_reload: reload,
                        ydotoold_service: service,
                        after,
                        requires_relogin,
                        message,
                    },
                )
            },
            _ => None,
        }
    }
}

// ---------------------------------------------------------------------------
// The message.
// ---------------------------------------------------------------------------

/// Input works: through the device, or through the daemon and its socket.
pub open spec fn input_works(input: InputReport) -> bool {
    input.uinput.ok || (input.ydotoold.ok && input.ydotool_socket.ok)
}

/// What is left for the user to do.
pub open spec fn left_to_do(service_ok: bool, requires_relogin: bool) -> Seq<Seq<char>> {
    (if requires_relogin {
        seq![LOG_IN_AGAIN@]
    } else {
        seq![]
    }) + (if !service_ok {
        seq![START_BY_HAND@]
    } else {
        seq![]
    })
}

/// The message on a finished setup.
pub open spec fn setup_message(
    after: InputReport,
    service_ok: bool,
    installed: bool,
    requires_relogin: bool,
) -> Seq<char> {
    if !installed {
        INSTALL_FIRST@
    } else if left_to_do(service_ok, requires_relogin).len() > 0 {
        joined(left_to_do(service_ok, requires_relogin), " "@)
    } else if input_works(after) {
        SETUP_COMPLETE@
    } else {
        SETUP_INCOMPLETE@
    }
}

/// The message on a finished setup.
pub fn ydotool_setup_message(
    after: &DoctorReport,
    ydotoold_service: &Check,
    ydotool_installed: bool,
    requires_relogin: bool,
) -> (r: String)
    ensures
        r@ == setup_message(
            after.input,
            ydotoold_service.ok,
            ydotool_installed,
            requires_relogin,
        ),
{
    if !ydotool_installed {
        return INSTALL_FIRST.to_owned();
    }
    let mut parts: Vec<&str> = Vec::new();
    if requires_relogin {
        parts.push(LOG_IN_AGAIN);
    }
    if !ydotoold_service.ok {
        parts.push(START_BY_HAND);
    }
    assert(slices(parts@) =~= left_to_do(ydotoold_service.ok, requires_relogin));
    if parts.len() > 0 {
        join(parts.as_slice(), " ")
    } else if after.input.uinput.ok || (after.input.ydotoold.ok && after.input.ydotool_socket.ok) {
        SETUP_COMPLETE.to_owned()
    } else {
        SETUP_INCOMPLETE.to_owned()
    }
}

} // verus!
