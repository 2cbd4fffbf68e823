//! Commands to be run, what came of running them, and probes that try several
//! commands in turn.

use vstd::prelude::*;
use vstd::utf8::{encode_utf8, encode_utf8_decode_utf8, encode_utf8_valid_utf8};

use crate::bytes::{from_utf8_lossy, utf8_text};
use crate::check::{broken, findings, works, Check, Finding};
use crate::scan::{blank, slices, strings, trim, trimmed, trimming_leaves_the_text};
use crate::text::whitespace;

verus! {

// ---------------------------------------------------------------------------
// One command.
// ---------------------------------------------------------------------------

/// A command to be run.
#[derive(Debug)]
pub struct CommandSpec {
    pub program: String,
    pub args: Vec<String>,
    /// Whether the command is to be told where the session bus is.
    pub session_bus: bool,
}

/// A command as a mathematical value.
pub struct CommandText {
    pub program: Seq<char>,
    pub args: Seq<Seq<char>>,
    pub session_bus: bool,
}

impl View for CommandSpec {
    type V = CommandText;

    open spec fn view(&self) -> CommandText {
        CommandText {
            program: self.program@,
            args: strings(self.args@),
            session_bus: self.session_bus,
        }
    }
}

/// What a command left behind when it ended.
#[derive(Debug)]
pub struct CommandOutput {
    pub success: bool,
    /// How the command ended, in words.
    pub status: String,
    pub stdout: Vec<u8>,
    pub stderr: Vec<u8>,
}

/// What came of running a command.
#[derive(Debug)]
pub enum CommandOutcome {
    Exited(CommandOutput),
    /// The command could not be started, and why.
    NotStarted(String),
}

/// What a command wrote, as text without the white space around it.
pub open spec fn written(bytes: Seq<u8>) -> Seq<char> {
    trimmed(utf8_text(bytes))
}

/// What the outcome of a command says about the thing that it was run for.
pub open spec fn outcome_finding(outcome: CommandOutcome) -> Finding {
    match outcome {
        CommandOutcome::NotStarted(reason) => broken(reason@),
        CommandOutcome::Exited(output) => {
            let stdout = written(output.stdout@);
            let stderr = written(output.stderr@);
            if output.success {
                works(
                    if stdout.len() == 0 {
                        "ok"@
                    } else {
                        stdout
                    },
                )
            } else {
                broken(
                    if stderr.len() > 0 {
                        stderr
                    } else if stdout.len() > 0 {
                        stdout
                    } else {
                        "exit status "@ + output.status@
                    },
                )
            }
        },
    }
}

/// A command works exactly where it was started and ended with success. Where it
/// works its words are what it printed, without the white space around it, or
/// `ok` where it printed nothing.
pub proof fn success_is_told_with_what_was_printed(
    output: CommandOutput,
    before: Seq<char>,
    said: Seq<char>,
    after: Seq<char>,
)
    requires
        output.success,
        blank(before),
        blank(after),
        said.len() > 0 ==> !whitespace(said[0]) && !whitespace(said.last()),
        output.stdout@ == encode_utf8(before + said + after),
    ensures
        outcome_finding(CommandOutcome::Exited(output)).ok,
        said.len() > 0 ==> outcome_finding(CommandOutcome::Exited(output)).detail == said,
        said.len() == 0 ==> outcome_finding(CommandOutcome::Exited(output)).detail == "ok"@,
{
    encode_utf8_valid_utf8(before + said + after);
    encode_utf8_decode_utf8(before + said + after);
    trimming_leaves_the_text(before, said, after);
}

/// A command that ended without success does not work. Its words are what it
/// wrote on its standard error, or where there is nothing what it printed, or
/// where there is nothing either how it ended. One that could not be started does
/// not work for the reason that is given.
pub proof fn failure_is_told_with_the_error_first(
    output: CommandOutput,
    errors: Seq<char>,
    said: Seq<char>,
    reason: String,
)
    requires
        !output.success,
        errors.len() > 0 ==> !whitespace(errors[0]) && !whitespace(errors.last()),
        said.len() > 0 ==> !whitespace(said[0]) && !whitespace(said.last()),
        output.stderr@ == encode_utf8(errors),
        output.stdout@ == encode_utf8(said),
    ensures
        !outcome_finding(CommandOutcome::Exited(output)).ok,
        errors.len() > 0 ==> outcome_finding(CommandOutcome::Exited(output)).detail == errors,
        errors.len() == 0 && said.len() > 0 ==> outcome_finding(
            CommandOutcome::Exited(output),
        ).detail == said,
        errors.len() == 0 && said.len() == 0 ==> outcome_finding(
            CommandOutcome::Exited(output),
        ).detail == "exit status "@ + output.status@,
        !outcome_finding(CommandOutcome::NotStarted(reason)).ok,
        outcome_finding(CommandOutcome::NotStarted(reason)).detail == reason@,
{
    encode_utf8_valid_utf8(errors);
    encode_utf8_decode_utf8(errors);
    encode_utf8_valid_utf8(said);
    encode_utf8_decode_utf8(said);
    trimming_leaves_the_text(seq![], errors, seq![]);
    trimming_leaves_the_text(seq![], said, seq![]);
    assert(seq![] + errors + seq![] =~= errors);
    assert(seq![] + said + seq![] =~= said);
}

/// The command with the given program and arguments.
pub fn command_spec(program: &str, args: &[&str], session_bus: bool) -> (r: CommandSpec)
    ensures
        r@ == (CommandText { program: program@, args: slices(args@), session_bus }),
{
    let n: usize = args.len();
    let mut list: Vec<String> = Vec::new();
    let mut i: usize = 0;
    while i < n
        invariant
            i <= n,
            n == args@.len(),
            strings(list@) == slices(args@).take(i as int),
        decreases n - i,
    {
        let ghost before = list@;
        list.push(args[i].to_owned());
        assert(strings(list@) =~= strings(before).push(args@[i as int]@));
        assert(slices(args@).take(i + 1) =~= slices(args@).take(i as int).push(args@[i as int]@));
        i += 1;
    }
    assert(strings(list@) =~= slices(args@));
    CommandSpec { program: program.to_owned(), args: list, session_bus }
}

/// What a command wrote, as text without the white space around it.
pub fn written_text(bytes: &Vec<u8>) -> (r: String)
    ensures
        r@ == written(bytes@),
{
    let text = from_utf8_lossy(bytes.as_slice());
    trim(text.as_str()).to_owned()
}

/// The check that the outcome of a command gives.
pub fn run_command(outcome: &CommandOutcome) -> (r: Check)
    ensures
        r@ == outcome_finding(*outcome),
{
    match outcome {
        CommandOutcome::NotStarted(reason) => Check::fail(reason.as_str()),
        CommandOutcome::Exited(output) => {
            let stdout = written_text(&output.stdout);
            if output.success {
                if stdout.as_str().is_empty() {
                    Check::ok("ok")
                } else {
                    Check::ok(stdout.as_str())
                }
            } else {
                let stderr = written_text(&output.stderr);
                if !stderr.as_str().is_empty() {
                    Check::fail(stderr.as_str())
                } else if !stdout.as_str().is_empty() {
                    Check::fail(stdout.as_str())
                } else {
                    let detail = "exit status ".to_owned().concat(output.status.as_str());
                    Check::fail(detail.as_str())
                }
            }
        },
    }
}

// ---------------------------------------------------------------------------
// Probes.
// ---------------------------------------------------------------------------

/// A question that several commands can answer: they are run in turn until one
/// succeeds.
#[derive(Debug)]
pub struct Probe {
    commands: Vec<CommandSpec>,
    exhausted: Option<String>,
    verdict: Option<Check>,
}

/// A probe as a mathematical value.
pub enum ProbeState {
    /// The commands still to be run, and what to say in place of the last
    /// command's words where all of them fail.
    Running { remaining: Seq<CommandText>, exhausted: Option<Seq<char>> },
    Settled(Finding),
}

/// The texts of a sequence of commands.
pub open spec fn command_texts(v: Seq<CommandSpec>) -> Seq<CommandText> {
    Seq::new(v.len(), |i: int| v[i]@)
}

/// A probe that has all of the given commands ahead of it.
pub open spec fn fresh_probe(
    commands: Seq<CommandText>,
    exhausted: Option<Seq<char>>,
) -> ProbeState {
    ProbeState::Running { remaining: commands, exhausted }
}

/// A probe that runs one command.
pub open spec fn single_probe(
    program: Seq<char>,
    args: Seq<Seq<char>>,
    session_bus: bool,
) -> ProbeState {
    fresh_probe(seq![CommandText { program, args, session_bus }], None)
}

/// A probe after the first of its commands gave the finding `f`: success
/// settles it, and so does the failure of its last command.
pub open spec fn probe_step(state: ProbeState, f: Finding) -> ProbeState {
    match state {
        ProbeState::Settled(_) => state,
        ProbeState::Running { remaining, exhausted } => if f.ok {
            ProbeState::Settled(f)
        } else if remaining.len() > 1 {
            ProbeState::Running { remaining: remaining.skip(1), exhausted }
        } else {
            ProbeState::Settled(
                match exhausted {
                    Some(words) => broken(words),
                    None => f,
                },
            )
        },
    }
}

/// A probe after each of the given findings in turn.
pub open spec fn probe_run(state: ProbeState, fs: Seq<Finding>) -> ProbeState
    decreases fs.len(),
{
    if fs.len() == 0 {
        state
    } else {
        probe_step(probe_run(state, fs.drop_last()), fs.last())
    }
}

/// The first command that succeeds settles a probe, with its own words.
pub proof fn first_success_settles(
    commands: Seq<CommandText>,
    exhausted: Option<Seq<char>>,
    fs: Seq<Finding>,
)
    requires
        0 < fs.len() <= commands.len(),
        fs.last().ok,
        forall|i: int| 0 <= i < fs.len() - 1 ==> !(#[trigger] fs[i]).ok,
    ensures
        probe_run(fresh_probe(commands, exhausted), fs) == ProbeState::Settled(fs.last()),
{
    lemma_failures_move_on(commands, exhausted, fs.drop_last());
}

/// A probe whose commands all fail is settled as failed: with the words set
/// aside for that, or else with those of its last command.
pub proof fn failures_exhaust_a_probe(
    commands: Seq<CommandText>,
    exhausted: Option<Seq<char>>,
    fs: Seq<Finding>,
)
    requires
        0 < fs.len() == commands.len(),
        forall|i: int| 0 <= i < fs.len() ==> !(#[trigger] fs[i]).ok,
    ensures
        probe_run(fresh_probe(commands, exhausted), fs) == ProbeState::Settled(
            match exhausted {
                Some(words) => broken(words),
                None => fs.last(),
            },
        ),
{
    lemma_failures_move_on(commands, exhausted, fs.drop_last());
    assert(!fs[fs.len() - 1].ok);
}

proof fn lemma_failures_move_on(
    commands: Seq<CommandText>,
    exhausted: Option<Seq<char>>,
    fs: Seq<Finding>,
)
    requires
        fs.len() < commands.len(),
        forall|i: int| 0 <= i < fs.len() ==> !(#[trigger] fs[i]).ok,
    ensures
        probe_run(fresh_probe(commands, exhausted), fs) == fresh_probe(
            commands.skip(fs.len() as int),
            exhausted,
        ),
    decreases fs.len(),
{
    if fs.len() == 0 {
        assert(commands.skip(0) =~= commands);
    } else {
        let front = fs.drop_last();
        assert forall|i: int| 0 <= i < front.len() implies !(#[trigger] front[i]).ok by {
            assert(front[i] == fs[i]);
        }
        lemma_failures_move_on(commands, exhausted, front);
        assert(!fs[fs.len() - 1].ok);
        assert(commands.skip(front.len() as int).skip(1) =~= commands.skip(fs.len() as int));
    }
}

impl View for Probe {
    type V = ProbeState;

    closed spec fn view(&self) -> ProbeState {
        match self.verdict {
            Some(check) => ProbeState::Settled(check@),
            None => ProbeState::Running {
                remaining: command_texts(self.commands@),
                exhausted: match self.exhausted {
                    Some(words) => Some(words@),
                    None => None,
                },
            },
        }
    }
}

impl Probe {
    #[verifier::type_invariant]
    spec fn can_go_on(self) -> bool {
        self.verdict is None ==> self.commands@.len() > 0
    }

    /// A probe that settles on the last command's failure where all fail.
    pub fn of(commands: Vec<CommandSpec>) -> (r: Self)
        requires
            commands@.len() > 0,
        ensures
            r@ == fresh_probe(command_texts(commands@), None),
    {
        Probe { commands, exhausted: None, verdict: None }
    }

    /// A probe with words of its own for the case that all commands fail.
    pub fn of_or_else(commands: Vec<CommandSpec>, exhausted: &str) -> (r: Self)
        requires
            commands@.len() > 0,
        ensures
            r@ == fresh_probe(command_texts(commands@), Some(exhausted@)),
    {
        Probe { commands, exhausted: Some(exhausted.to_owned()), verdict: None }
    }

    /// The command to be run next; none once the probe is settled.
    pub fn command(&self) -> (r: Option<&CommandSpec>)
        ensures
            r is None <==> self@ is Settled,
            r is Some ==> self@->remaining.len() > 0 && r->0@ == self@->remaining[0],
    {
        proof {
            use_type_invariant(self);
        }
        match self.verdict {
            Some(_) => None,
            None => Some(&self.commands[0]),
        }
    }

    /// The probe after its next command had the given outcome.
    pub fn record(self, outcome: &CommandOutcome) -> (r: Self)
        ensures
            r@ == probe_step(self@, outcome_finding(*outcome)),
    {
        proof {
            use_type_invariant(&self);
        }
        let Probe { mut commands, exhausted, verdict } = self;
        if verdict.is_some() {
            return Probe { commands, exhausted, verdict };
        }
        let check = run_command(outcome);
        if check.ok {
            return Probe { commands, exhausted, verdict: Some(check) };
        }
        if commands.len() > 1 {
            let ghost before = commands@;
            let tried = commands.remove(0);
            assert(command_texts(commands@) =~= command_texts(before).skip(1));
            Probe { commands, exhausted, verdict: None }
        } else {
            let verdict = match &exhausted {
                Some(words) => Check::fail(words.as_str()),
                None => check,
            };
            Probe { commands, exhausted, verdict: Some(verdict) }
        }
    }

    /// What the probe was settled with.
    pub fn verdict(&self) -> (r: Option<&Check>)
        ensures
            r is Some <==> self@ is Settled,
            r is Some ==> self@ == ProbeState::Settled(r->0@),
    {
        self.verdict.as_ref()
    }
}

// ---------------------------------------------------------------------------
// Surveys.
// ---------------------------------------------------------------------------

/// Several probes that are settled one after the other.
#[derive(Debug)]
pub struct Survey {
    probes: Vec<Probe>,
    checks: Vec<Check>,
}

/// A survey as a mathematical value: the probes ahead of it, and the findings
/// of those behind it.
pub struct SurveyState {
    pub pending: Seq<ProbeState>,
    pub found: Seq<Finding>,
}

/// The states of a sequence of probes.
pub open spec fn probe_states(v: Seq<Probe>) -> Seq<ProbeState> {
    Seq::new(v.len(), |i: int| v[i]@)
}

/// A survey after the next command of its first probe gave the finding `f`.
pub open spec fn survey_step(s: SurveyState, f: Finding) -> SurveyState {
    if s.pending.len() == 0 {
        s
    } else {
        match probe_step(s.pending[0], f) {
            ProbeState::Settled(verdict) => SurveyState {
                pending: s.pending.skip(1),
                found: s.found.push(verdict),
            },
            running => SurveyState { pending: s.pending.update(0, running), found: s.found },
        }
    }
}

/// A survey after each of the given findings in turn.
pub open spec fn survey_run(s: SurveyState, fs: Seq<Finding>) -> SurveyState
    decreases fs.len(),
{
    if fs.len() == 0 {
        s
    } else {
        survey_step(survey_run(s, fs.drop_last()), fs.last())
    }
}

/// A survey finds one thing for each of its probes: none is skipped, and none
/// is reported twice.
pub proof fn survey_answers_every_probe(s: SurveyState, fs: Seq<Finding>)
    ensures
        survey_run(s, fs).pending.len() + survey_run(s, fs).found.len() == s.pending.len()
            + s.found.len(),
    decreases fs.len(),
{
    if fs.len() > 0 {
        survey_answers_every_probe(s, fs.drop_last());
    }
}

/// A survey settles its probes one after the other, and reports of each the
/// verdict that the probe comes to on the findings of its own commands.
pub proof fn survey_reports_the_verdict(s: SurveyState, fs: Seq<Finding>)
    requires
        s.pending.len() > 0,
        fs.len() > 0,
        probe_run(s.pending[0], fs.drop_last()) is Running,
        probe_run(s.pending[0], fs) is Settled,
    ensures
        survey_run(s, fs) == (SurveyState {
            pending: s.pending.skip(1),
            found: s.found.push(probe_run(s.pending[0], fs)->Settled_0),
        }),
{
    let front = fs.drop_last();
    lemma_survey_stays_at_probe(s, front);
    let now = survey_run(s, front);
    assert(now.pending.skip(1) =~= s.pending.skip(1));
}

proof fn lemma_survey_stays_at_probe(s: SurveyState, fs: Seq<Finding>)
    requires
        s.pending.len() > 0,
        probe_run(s.pending[0], fs) is Running,
    ensures
        survey_run(s, fs) == (SurveyState {
            pending: s.pending.update(0, probe_run(s.pending[0], fs)),
            found: s.found,
        }),
    decreases fs.len(),
{
    if fs.len() == 0 {
        assert(s.pending.update(0, s.pending[0]) =~= s.pending);
    } else {
        let front = fs.drop_last();
        assert(probe_run(s.pending[0], front) is Running);
        lemma_survey_stays_at_probe(s, front);
        assert(s.pending.update(0, probe_run(s.pending[0], front)).update(
            0,
            probe_run(s.pending[0], fs),
        ) =~= s.pending.update(0, probe_run(s.pending[0], fs)));
    }
}

impl View for Survey {
    type V = SurveyState;

    closed spec fn view(&self) -> SurveyState {
        SurveyState { pending: probe_states(self.probes@), found: findings(self.checks@) }
    }
}

impl Survey {
    #[verifier::type_invariant]
    spec fn probes_run(self) -> bool {
        forall|i: int| 0 <= i < self.probes@.len() ==> !((#[trigger] self.probes@[i])@ is Settled)
    }

    /// A survey of the given probes.
    pub fn of(probes: Vec<Probe>) -> (r: Self)
        requires
            forall|i: int| 0 <= i < probes@.len() ==> !((#[trigger] probes@[i])@ is Settled),
        ensures
            r@ == (SurveyState { pending: probe_states(probes@), found: seq![] }),
    {
        let r = Survey { probes, checks: Vec::new() };
        assert(r@.found =~= seq![]);
        r
    }

    /// The command to be run next; none once every probe is settled.
    pub fn command(&self) -> (r: Option<&CommandSpec>)
        ensures
            r is None <==> self@.pending.len() == 0,
            r is Some ==> self@.pending[0] is Running && self@.pending[0]->remaining.len() > 0
                && r->0@ == self@.pending[0]->remaining[0],
    {
        proof {
            use_type_invariant(self);
        }
        if self.probes.len() == 0 {
            None
        } else {
            self.probes[0].command()
        }
    }

    /// The survey after its next command had the given outcome.
    pub fn record(self, outcome: &CommandOutcome) -> (r: Self)
        ensures
            r@ == survey_step(self@, outcome_finding(*outcome)),
    {
        proof {
            use_type_invariant(&self);
        }
        let Survey { mut probes, mut checks } = self;
        if probes.len() == 0 {
            return Survey { probes, checks };
        }
        let ghost before = probes@;
        let ghost found = checks@;
        let first = probes.remove(0);
        let next = first.record(outcome);
        let settled: Option<Check> = match next.verdict() {
            Some(check) => Some(check.clone()),
            None => None,
        };
        match settled {
            Some(check) => {
                checks.push(check);
                assert(probe_states(probes@) =~= probe_states(before).skip(1));
                assert(findings(checks@) =~= findings(found).push(check@));
            },
            None => {
                probes.insert(0, next);
                assert(probes@ =~= before.update(0, next));
                assert(probe_states(probes@) =~= probe_states(before).update(0, next@));
            },
        }
        Survey { probes, checks }
    }

    /// The checks of the probes that are settled, in the order of the probes.
    pub fn checks(self) -> (r: Vec<Check>)
        ensures
            findings(r@) == self@.found,
    {
        self.checks
    }
}

} // verus!
