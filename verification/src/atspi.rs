//! Turning accessibility on: the methods that are tried, and in which order.

use vstd::prelude::*;

use crate::check::{broken, findings, Check, Finding};
use crate::command::{
    command_spec, command_texts, fresh_probe, outcome_finding, probe_step, single_probe,
    CommandOutcome, CommandSpec, Probe, ProbeState,
};
use crate::environment::{env_var, setting, variables, Variables};
use crate::probes::{command_check_with_session_bus, on_bus};
use crate::scan::{contains, has_text, slices, text_is_found_anywhere};
use crate::text::{lowered, to_ascii_lowercase};
use crate::text_map::TextMap;

verus! {

/// What is said where neither KDE tool works.
pub const KDE_TOOLS_FAILED: &'static str =
    "kwriteconfig6 and kwriteconfig5 both unavailable or failed; is ydotool / kde-cli-tools installed?";

/// The families of desktops that are told apart by how accessibility is set.
#[derive(Debug, Clone, Copy, PartialEq, Eq, Structural)]
pub enum DesktopFamily {
    Kde,
    Xfce,
    /// GNOME, COSMIC, and every desktop that is not known.
    Gnome,
}

// ---------------------------------------------------------------------------
// Model.
// ---------------------------------------------------------------------------

/// What the desktop calls itself, in lower case.
pub open spec fn desktop_name(env: Variables) -> Seq<char> {
    lowered(
        match setting(env, "XDG_CURRENT_DESKTOP"@) {
            Some(name) => name,
            None => match setting(env, "DESKTOP_SESSION"@) {
                Some(name) => name,
                None => seq![],
            },
        },
    )
}

/// The family of the desktop.
pub open spec fn family_of(env: Variables) -> DesktopFamily {
    let name = desktop_name(env);
    if has_text(name, "kde"@) || has_text(name, "plasma"@) {
        DesktopFamily::Kde
    } else if has_text(name, "xfce"@) {
        DesktopFamily::Xfce
    } else {
        DesktopFamily::Gnome
    }
}

/// The setting of GNOME.
pub open spec fn gnome_probe() -> ProbeState {
    single_probe(
        "gsettings"@,
        seq![
            "set"@,
            "org.gnome.desktop.interface"@,
            "toolkit-accessibility"@,
            "true"@,
        ],
        true,
    )
}

/// The arguments of the KDE tools.
pub open spec fn kde_args() -> Seq<Seq<char>> {
    seq![
        "--file"@,
        "kdeglobals"@,
        "--group"@,
        "Accessibility"@,
        "--key"@,
        "ScreenReaderEnabled"@,
        "true"@,
    ]
}

/// The setting of KDE: the tool of KDE 6, then that of KDE 5.
pub open spec fn kde_probe() -> ProbeState {
    fresh_probe(
        seq![on_bus("kwriteconfig6"@, kde_args()), on_bus("kwriteconfig5"@, kde_args())],
        Some(KDE_TOOLS_FAILED@),
    )
}

/// The setting of XFCE: first as if it existed, then creating it.
pub open spec fn xfce_probe() -> ProbeState {
    fresh_probe(
        seq![
            on_bus(
                "xfconf-query"@,
                seq![
                    "--channel"@,
                    "xfce4-session"@,
                    "--property"@,
                    "/general/StartAssistiveTechnologies"@,
                    "--set"@,
                    "true"@,
                ],
            ),
            on_bus(
                "xfconf-query"@,
                seq![
                    "--channel"@,
                    "xfce4-session"@,
                    "--property"@,
                    "/general/StartAssistiveTechnologies"@,
                    "--create"@,
                    "--type"@,
                    "bool"@,
                    "--set"@,
                    "true"@,
                ],
            ),
        ],
        None,
    )
}

/// The setting of a family of desktops.
pub open spec fn family_probe(family: DesktopFamily) -> ProbeState {
    match family {
        DesktopFamily::Kde => kde_probe(),
        DesktopFamily::Xfce => xfce_probe(),
        DesktopFamily::Gnome => gnome_probe(),
    }
}

/// The methods in their order: the switch on the bus, the systemd service, the
/// setting of the desktop at hand, and then those of all desktops.
pub open spec fn method(family: DesktopFamily, n: int) -> ProbeState {
    if n == 0 {
        single_probe(
            "busctl"@,
            seq![
                "--user"@,
                "set-property"@,
                "org.a11y.Bus"@,
                "/org/a11y/bus"@,
                "org.a11y.Status"@,
                "IsEnabled"@,
                "b"@,
                "true"@,
            ],
            true,
        )
    } else if n == 1 {
        single_probe(
            "systemctl"@,
            seq!["--user"@, "enable"@, "--now"@, "at-spi-dbus-bus"@],
            true,
        )
    } else if n == 2 {
        family_probe(family)
    } else if n == 3 {
        gnome_probe()
    } else if n == 4 {
        kde_probe()
    } else {
        xfce_probe()
    }
}

/// The words for the case that every method failed.
pub open spec fn all_failed(done: Seq<Finding>) -> Seq<char> {
    "All AT-SPI enable methods failed. busctl: "@ + done[0].detail + "; systemctl: "@
        + done[1].detail + "; "@ + done[2].detail
}

/// What the findings of the methods so far amount to. Each of the first three
/// methods ends the work where it succeeds; the last three are all run, and the
/// first of them that succeeded counts.
pub open spec fn conclusion(done: Seq<Finding>) -> Option<Finding> {
    if done.len() == 0 {
        None
    } else if done.len() <= 3 {
        if done.last().ok {
            Some(done.last())
        } else {
            None
        }
    } else if done.len() < 6 {
        None
    } else if done[3].ok {
        Some(done[3])
    } else if done[4].ok {
        Some(done[4])
    } else if done[5].ok {
        Some(done[5])
    } else {
        Some(broken(all_failed(done)))
    }
}

/// The work as a mathematical value.
pub enum EnableState {
    /// The findings of the methods behind, and the method at hand.
    Trying { family: DesktopFamily, done: Seq<Finding>, probe: ProbeState },
    Settled(Finding),
}

/// The work with the given findings behind it.
pub open spec fn trying(family: DesktopFamily, done: Seq<Finding>) -> EnableState {
    match conclusion(done) {
        Some(f) => EnableState::Settled(f),
        None => EnableState::Trying { family, done, probe: method(family, done.len() as int) },
    }
}

/// The work after the next command gave the finding `f`.
pub open spec fn enable_step(s: EnableState, f: Finding) -> EnableState {
    match s {
        EnableState::Settled(_) => s,
        EnableState::Trying { family, done, probe } => match probe_step(probe, f) {
            ProbeState::Settled(verdict) => trying(family, done.push(verdict)),
            running => EnableState::Trying { family, done, probe: running },
        },
    }
}

/// The work after each of the given findings in turn.
pub open spec fn enable_run(s: EnableState, fs: Seq<Finding>) -> EnableState
    decreases fs.len(),
{
    if fs.len() == 0 {
        s
    } else {
        enable_step(enable_run(s, fs.drop_last()), fs.last())
    }
}

// ---------------------------------------------------------------------------
// Laws.
// ---------------------------------------------------------------------------

/// While the work goes on none of the first three methods has succeeded, and
/// the method at hand still has a command to run.
pub open spec fn sound(s: EnableState) -> bool {
    match s {
        EnableState::Settled(_) => true,
        EnableState::Trying { family, done, probe } => {
            &&& done.len() < 6
            &&& probe is Running
            &&& probe->remaining.len() > 0
            &&& forall|i: int| 0 <= i < done.len() && i < 3 ==> !(#[trigger] done[i]).ok
        },
    }
}

/// Every step of the work keeps it sound, from its start on.
pub proof fn work_stays_sound(family: DesktopFamily, fs: Seq<Finding>)
    ensures
        sound(enable_run(trying(family, seq![]), fs)),
    decreases fs.len(),
{
    if fs.len() > 0 {
        work_stays_sound(family, fs.drop_last());
        let s = enable_run(trying(family, seq![]), fs.drop_last());
        lemma_step_stays_sound(s, fs.last());
    }
}

proof fn lemma_step_stays_sound(s: EnableState, f: Finding)
    requires
        sound(s),
    ensures
        sound(enable_step(s, f)),
{
    match s {
        EnableState::Settled(_) => {},
        EnableState::Trying { family, done, probe } => match probe_step(probe, f) {
            ProbeState::Settled(verdict) => {
                let next = done.push(verdict);
                if conclusion(next) is None {
                    assert forall|i: int| 0 <= i < next.len() && i < 3 implies !(
                    #[trigger] next[i]).ok by {
                        if i < done.len() {
                            assert(next[i] == done[i]);
                        } else {
                            assert(next.last() == next[i]);
                        }
                    }
                }
            },
            running => {},
        },
    }
}

/// One of the findings is a success.
pub open spec fn any_ok(fs: Seq<Finding>) -> bool {
    exists|i: int| 0 <= i < fs.len() && (#[trigger] fs[i]).ok
}

proof fn lemma_any_ok_push(fs: Seq<Finding>, f: Finding)
    ensures
        any_ok(fs.push(f)) <==> any_ok(fs) || f.ok,
{
    let all = fs.push(f);
    if any_ok(fs) {
        let i = choose|i: int| 0 <= i < fs.len() && (#[trigger] fs[i]).ok;
        assert(all[i].ok);
    }
    if f.ok {
        assert(all[fs.len() as int].ok);
    }
    if any_ok(all) {
        let i = choose|i: int| 0 <= i < all.len() && (#[trigger] all[i]).ok;
        if i < fs.len() {
            assert(fs[i].ok);
        }
    }
}

proof fn lemma_success_is_kept(family: DesktopFamily, fs: Seq<Finding>)
    requires
        enable_run(trying(family, seq![]), fs) is Trying,
    ensures
        any_ok(enable_run(trying(family, seq![]), fs)->done) == any_ok(fs),
    decreases fs.len(),
{
    if fs.len() > 0 {
        let front = fs.drop_last();
        assert(fs =~= front.push(fs.last()));
        lemma_success_is_kept(family, front);
        work_stays_sound(family, front);
        let s = enable_run(trying(family, seq![]), front);
        lemma_any_ok_push(front, fs.last());
        match probe_step(s->probe, fs.last()) {
            ProbeState::Settled(verdict) => {
                lemma_any_ok_push(s->done, verdict);
            },
            running => {},
        }
    }
}

/// The work is reported as done exactly where a command that it ran succeeded.
pub proof fn success_is_reported(family: DesktopFamily, fs: Seq<Finding>)
    requires
        fs.len() > 0,
        enable_run(trying(family, seq![]), fs.drop_last()) is Trying,
        enable_run(trying(family, seq![]), fs) is Settled,
    ensures
        enable_run(trying(family, seq![]), fs)->Settled_0.ok == any_ok(fs),
{
    let front = fs.drop_last();
    assert(fs =~= front.push(fs.last()));
    lemma_success_is_kept(family, front);
    work_stays_sound(family, front);
    lemma_any_ok_push(front, fs.last());
    let s = enable_run(trying(family, seq![]), front);
    let done = s->done;
    match probe_step(s->probe, fs.last()) {
        ProbeState::Settled(verdict) => {
            let all = done.push(verdict);
            lemma_any_ok_push(done, verdict);
            if conclusion(all)->0.ok {
                if all.len() > 3 {
                    assert(all[3].ok || all[4].ok || all[5].ok);
                }
            } else {
                assert forall|i: int| 0 <= i < all.len() implies !(#[trigger] all[i]).ok by {
                    if i < done.len() {
                        assert(all[i] == done[i]);
                    }
                }
            }
        },
        running => {},
    }
}

/// A desktop is known by its name, wherever in it the word stands and in whatever
/// case it is written: `kde` or `plasma` before `xfce`, and all others are taken
/// for GNOME. `DESKTOP_SESSION` counts only where `XDG_CURRENT_DESKTOP` is missing.
pub proof fn family_is_known_by_its_name(
    env: Variables,
    name: Seq<char>,
    a: Seq<char>,
    b: Seq<char>,
)
    requires
        setting(env, "XDG_CURRENT_DESKTOP"@) == Some(name) || (setting(env, "XDG_CURRENT_DESKTOP"@)
            is None && setting(env, "DESKTOP_SESSION"@) == Some(name)),
    ensures
        lowered(name) == a + "kde"@ + b ==> family_of(env) is Kde,
        lowered(name) == a + "plasma"@ + b ==> family_of(env) is Kde,
        lowered(name) == a + "xfce"@ + b && !has_text(lowered(name), "kde"@) && !has_text(
            lowered(name),
            "plasma"@,
        ) ==> family_of(env) is Xfce,
        family_of(env) is Kde ==> has_text(lowered(name), "kde"@) || has_text(
            lowered(name),
            "plasma"@,
        ),
        family_of(env) is Xfce ==> has_text(lowered(name), "xfce"@),
{
    text_is_found_anywhere(lowered(name), a, "kde"@, b);
    text_is_found_anywhere(lowered(name), a, "plasma"@, b);
    text_is_found_anywhere(lowered(name), a, "xfce"@, b);
}

/// A desktop without a name is taken for GNOME.
pub proof fn nameless_desktop_is_taken_for_gnome(env: Variables)
    requires
        setting(env, "XDG_CURRENT_DESKTOP"@) is None,
        setting(env, "DESKTOP_SESSION"@) is None,
    ensures
        family_of(env) is Gnome,
{
    reveal_strlit("kde");
    reveal_strlit("plasma");
    reveal_strlit("xfce");
    assert(desktop_name(env).len() == 0);
}

/// The switch on the bus comes first and the systemd service second; then comes
/// the setting of the desktop at hand, with the command that the desktop has for
/// it.
pub proof fn own_desktop_comes_before_the_others(family: DesktopFamily)
    ensures
        method(family, 0)->remaining[0].program == "busctl"@,
        method(family, 1)->remaining[0].program == "systemctl"@,
        method(DesktopFamily::Gnome, 2)->remaining[0].program == "gsettings"@,
        method(DesktopFamily::Kde, 2)->remaining[0].program == "kwriteconfig6"@,
        method(DesktopFamily::Kde, 2)->remaining[1].program == "kwriteconfig5"@,
        method(DesktopFamily::Xfce, 2)->remaining[0].program == "xfconf-query"@,
        method(family, 3) == method(DesktopFamily::Gnome, 2),
        method(family, 4) == method(DesktopFamily::Kde, 2),
        method(family, 5) == method(DesktopFamily::Xfce, 2),
        forall|n: int, i: int|
            0 <= n < 6 && 0 <= i < (#[trigger] method(family, n))->remaining.len() ==> (
            #[trigger] method(family, n)->remaining[i]).session_bus,
{
}

/// The first of the first three methods that succeeds is the one that counts, and
/// no other is tried.
pub proof fn first_success_counts(done: Seq<Finding>)
    requires
        0 < done.len() <= 3,
        done.last().ok,
    ensures
        conclusion(done) == Some(done.last()),
{
}

/// While none of the first three has succeeded the work goes on, and it goes on
/// until all methods are through; of the last three the first that succeeded
/// counts, and where none did the words of the first three are told.
pub proof fn fallbacks_count_in_their_order(done: Seq<Finding>, i: int)
    requires
        done.len() <= 6,
        forall|k: int| 0 <= k < done.len() && k < 3 ==> !(#[trigger] done[k]).ok,
    ensures
        done.len() < 6 ==> conclusion(done) is None,
        done.len() == 6 && 3 <= i < 6 && done[i].ok && (forall|k: int|
            3 <= k < i ==> !(#[trigger] done[k]).ok) ==> conclusion(done) == Some(done[i]),
        done.len() == 6 && (forall|k: int| 3 <= k < 6 ==> !(#[trigger] done[k]).ok) ==> {
            let verdict = conclusion(done)->0;
            &&& conclusion(done) is Some
            &&& !verdict.ok
            &&& verdict.detail == "All AT-SPI enable methods failed. busctl: "@ + done[0].detail
                + "; systemctl: "@ + done[1].detail + "; "@ + done[2].detail
        },
{
    if 0 < done.len() <= 3 {
        assert(!done[done.len() - 1].ok);
    }
}

/// How many commands are ahead at most.
pub open spec fn commands_ahead(s: EnableState) -> int {
    match s {
        EnableState::Settled(_) => 0,
        EnableState::Trying { family, done, probe } => (6 - done.len()) * 3 + match probe {
            ProbeState::Running { remaining, .. } => remaining.len() as int,
            ProbeState::Settled(_) => 0,
        },
    }
}

/// The work ends: every outcome brings it closer to its end.
pub proof fn work_ends(s: EnableState, f: Finding)
    requires
        sound(s),
        s is Trying,
    ensures
        0 <= commands_ahead(enable_step(s, f)) < commands_ahead(s),
{
    lemma_step_stays_sound(s, f);
}

// ---------------------------------------------------------------------------
// The methods.
// ---------------------------------------------------------------------------

/// The setting of GNOME.
pub fn enable_atspi_gnome() -> (r: Probe)
    ensures
        r@ == gnome_probe(),
{
    let args = ["set", "org.gnome.desktop.interface", "toolkit-accessibility", "true"];
    assert(slices(args@) =~= seq![
        "set"@,
        "org.gnome.desktop.interface"@,
        "toolkit-accessibility"@,
        "true"@,
    ]);
    command_check_with_session_bus("gsettings", &args)
}

/// The setting of KDE.
pub fn enable_atspi_kde() -> (r: Probe)
    ensures
        r@ == kde_probe(),
{
    let args = [
        "--file",
        "kdeglobals",
        "--group",
        "Accessibility",
        "--key",
        "ScreenReaderEnabled",
        "true",
    ];
    assert(slices(args@) =~= kde_args());
    let mut commands: Vec<CommandSpec> = Vec::new();
    commands.push(command_spec("kwriteconfig6", &args, true));
    commands.push(command_spec("kwriteconfig5", &args, true));
    assert(command_texts(commands@) =~= seq![
        on_bus("kwriteconfig6"@, kde_args()),
        on_bus("kwriteconfig5"@, kde_args()),
    ]);
    Probe::of_or_else(commands, KDE_TOOLS_FAILED)
}

/// The setting of XFCE.
pub fn enable_atspi_xfce() -> (r: Probe)
    ensures
        r@ == xfce_probe(),
{
    let set = [
        "--channel",
        "xfce4-session",
        "--property",
        "/general/StartAssistiveTechnologies",
        "--set",
        "true",
    ];
    let create = [
        "--channel",
        "xfce4-session",
        "--property",
        "/general/StartAssistiveTechnologies",
        "--create",
        "--type",
        "bool",
        "--set",
        "true",
    ];
    assert(slices(set@) =~= seq![
        "--channel"@,
        "xfce4-session"@,
        "--property"@,
        "/general/StartAssistiveTechnologies"@,
        "--set"@,
        "true"@,
    ]);
    assert(slices(create@) =~= seq![
        "--channel"@,
        "xfce4-session"@,
        "--property"@,
        "/general/StartAssistiveTechnologies"@,
        "--create"@,
        "--type"@,
        "bool"@,
        "--set"@,
        "true"@,
    ]);
    let mut commands: Vec<CommandSpec> = Vec::new();
    commands.push(command_spec("xfconf-query", &set, true));
    commands.push(command_spec("xfconf-query", &create, true));
    assert(command_texts(commands@) =~= xfce_probe()->remaining);
    Probe::of(commands)
}

fn method_probe(family: DesktopFamily, n: usize) -> (r: Probe)
    ensures
        r@ == method(family, n as int),
{
    if n == 0 {
        let args = [
            "--user",
            "set-property",
            "org.a11y.Bus",
            "/org/a11y/bus",
            "org.a11y.Status",
            "IsEnabled",
            "b",
            "true",
        ];
        assert(slices(args@) =~= seq![
            "--user"@,
            "set-property"@,
            "org.a11y.Bus"@,
            "/org/a11y/bus"@,
            "org.a11y.Status"@,
            "IsEnabled"@,
            "b"@,
            "true"@,
        ]);
        command_check_with_session_bus("busctl", &args)
    } else if n == 1 {
        let args = ["--user", "enable", "--now", "at-spi-dbus-bus"];
        assert(slices(args@) =~= seq!["--user"@, "enable"@, "--now"@, "at-spi-dbus-bus"@]);
        command_check_with_session_bus("systemctl", &args)
    } else if n == 2 {
        match family {
            DesktopFamily::Kde => enable_atspi_kde(),
            DesktopFamily::Xfce => enable_atspi_xfce(),
            DesktopFamily::Gnome => enable_atspi_gnome(),
        }
    } else if n == 3 {
        enable_atspi_gnome()
    } else if n == 4 {
        enable_atspi_kde()
    } else {
        enable_atspi_xfce()
    }
}

// ---------------------------------------------------------------------------
// The work.
// ---------------------------------------------------------------------------

/// The work of turning accessibility on, which asks for commands to be run.
#[derive(Debug)]
pub struct AtspiEnable {
    family: DesktopFamily,
    done: Vec<Check>,
    probe: Probe,
    verdict: Option<Check>,
}

impl View for AtspiEnable {
    type V = EnableState;

    closed spec fn view(&self) -> EnableState {
        match self.verdict {
            Some(check) => EnableState::Settled(check@),
            None => EnableState::Trying {
                family: self.family,
                done: findings(self.done@),
                probe: self.probe@,
            },
        }
    }
}

impl AtspiEnable {
    #[verifier::type_invariant]
    spec fn can_go_on(self) -> bool {
        self.verdict is None ==> self.done@.len() < 6 && self.probe@ is Running
    }

    fn with(family: DesktopFamily, done: Vec<Check>, probe: Probe) -> (r: Self)
        requires
            done@.len() <= 6,
        ensures
            r@ == trying(family, findings(done@)),
    {
        let n: usize = done.len();
        let verdict: Option<Check> = if n == 0 {
            None
        } else if n <= 3 {
            if done[n - 1].ok {
                Some(done[n - 1].clone())
            } else {
                None
            }
        } else if n < 6 {
            None
        } else if done[3].ok {
            Some(done[3].clone())
        } else if done[4].ok {
            Some(done[4].clone())
        } else if done[5].ok {
            Some(done[5].clone())
        } else {
            let detail = "All AT-SPI enable methods failed. busctl: ".to_owned().concat(
                done[0].detail.as_str(),
            ).concat("; systemctl: ").concat(done[1].detail.as_str()).concat("; ").concat(
                done[2].detail.as_str(),
            );
            Some(Check::fail(detail.as_str()))
        };
        match verdict {
            Some(check) => AtspiEnable { family, done, probe, verdict: Some(check) },
            None => {
                let probe = method_probe(family, n);
                AtspiEnable { family, done, probe, verdict: None }
            },
        }
    }

    /// The command to be run next; none once the work is settled.
    pub fn command(&self) -> (r: Option<&CommandSpec>)
        ensures
            r is None <==> self@ is Settled,
            r is Some ==> self@->probe->remaining.len() > 0 && r->0@ == self@->probe->remaining[0],
    {
        proof {
            use_type_invariant(self);
        }
        match self.verdict {
            Some(_) => None,
            None => self.probe.command(),
        }
    }

    /// The work after its next command had the given outcome.
    pub fn record(self, outcome: &CommandOutcome) -> (r: Self)
        ensures
            r@ == enable_step(self@, outcome_finding(*outcome)),
    {
        proof {
            use_type_invariant(&self);
        }
        let AtspiEnable { family, mut done, probe, verdict } = self;
        if verdict.is_some() {
            return AtspiEnable { family, done, probe, verdict };
        }
        let probe = probe.record(outcome);
        let settled: Option<Check> = match probe.verdict() {
            Some(check) => Some(check.clone()),
            None => None,
        };
        match settled {
            Some(check) => {
                let ghost before = done@;
                done.push(check);
                assert(findings(done@) =~= findings(before).push(check@));
                Self::with(family, done, probe)
            },
            None => AtspiEnable { family, done, probe, verdict: None },
        }
    }

    /// How the work ended.
    pub fn verdict(&self) -> (r: Option<&Check>)
        ensures
            r is Some <==> self@ is Settled,
            r is Some ==> self@ == EnableState::Settled(r->0@),
    {
        self.verdict.as_ref()
    }
}

/// The family of the desktop that an environment belongs to.
pub fn desktop_family(env: &TextMap<String>) -> (r: DesktopFamily)
    ensures
        r == family_of(variables(env)),
{
    let name = match env_var(env, "XDG_CURRENT_DESKTOP") {
        Some(name) => name,
        None => match env_var(env, "DESKTOP_SESSION") {
            Some(name) => name,
            None => String::new(),
        },
    };
    let name = to_ascii_lowercase(name.as_str());
    if contains(name.as_str(), "kde") || contains(name.as_str(), "plasma") {
        DesktopFamily::Kde
    } else if contains(name.as_str(), "xfce") {
        DesktopFamily::Xfce
    } else {
        DesktopFamily::Gnome
    }
}

/// Starts the work of turning accessibility on.
pub fn enable_atspi(env: &TextMap<String>) -> (r: AtspiEnable)
    ensures
        r@ == trying(family_of(variables(env)), seq![]),
{
    let family = desktop_family(env);
    let done: Vec<Check> = Vec::new();
    assert(findings(done@) =~= seq![]);
    AtspiEnable::with(family, done, method_probe(family, 0))
}

} // verus!
