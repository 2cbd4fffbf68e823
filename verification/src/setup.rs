//! Setting accessibility up.

use vstd::prelude::*;

use crate::atspi::{enable_atspi, enable_step, family_of, trying, AtspiEnable, EnableState};
use crate::check::{works, Check};
use crate::command::{outcome_finding, CommandOutcome, CommandSpec};
use crate::environment::variables;
use crate::readiness::{can_build_accessibility_tree, tree_readable};
use crate::report::{DoctorReport, SetupReport};
use crate::text_map::TextMap;

verus! {

pub const ALREADY_ENABLED: &'static str = "AT-SPI accessibility is already enabled";

pub const NEWLY_READY: &'static str =
    "AT-SPI accessibility is enabled. Restart already-running target apps if their AT-SPI tree is still empty.";

pub const STILL_READY: &'static str = "AT-SPI accessibility is ready.";

pub const NOT_READY: &'static str =
    "Could not enable AT-SPI accessibility automatically. Check accessibility_command.detail for the attempted commands. On GNOME: gsettings set org.gnome.desktop.interface toolkit-accessibility true. On KDE/Plasma: kwriteconfig6 --file kdeglobals --group Accessibility --key ScreenReaderEnabled true (then log out and back in). On XFCE: xfconf-query --channel xfce4-session --property /general/StartAssistiveTechnologies --set true (then log out and back in).";

/// The message on a finished setup.
pub open spec fn accessibility_message(before_ready: bool, after_ready: bool) -> Seq<char> {
    if !after_ready {
        NOT_READY@
    } else if before_ready {
        STILL_READY@
    } else {
        NEWLY_READY@
    }
}

/// A setup after which the tree cannot be read says so, whatever was the case
/// before; one after which it can tells whether that is new, for then running
/// applications may have to be restarted.
pub proof fn message_tells_what_changed(before_ready: bool, after_ready: bool)
    ensures
        !after_ready ==> accessibility_message(before_ready, after_ready) == NOT_READY@,
        after_ready && !before_ready ==> accessibility_message(before_ready, after_ready)
            == "AT-SPI accessibility is enabled. Restart already-running target apps if their AT-SPI tree is still empty."@,
        after_ready && before_ready ==> accessibility_message(before_ready, after_ready)
            == "AT-SPI accessibility is ready."@,
{
}

/// The work of setting accessibility up.
#[derive(Debug)]
pub struct AccessibilitySetup {
    before: DoctorReport,
    work: AccessibilityWork,
}

#[derive(Debug)]
enum AccessibilityWork {
    /// There is nothing to do.
    Idle(Check),
    Enabling(AtspiEnable),
}

impl View for AccessibilitySetup {
    type V = EnableState;

    closed spec fn view(&self) -> EnableState {
        match self.work {
            AccessibilityWork::Idle(check) => EnableState::Settled(check@),
            AccessibilityWork::Enabling(work) => work@,
        }
    }
}

/// Starts the work of setting accessibility up, from what the doctor found
/// before: where the tree can already be read no command is run.
pub fn setup_accessibility_report(
    before: DoctorReport,
    env: &TextMap<String>,
) -> (r: AccessibilitySetup)
    ensures
        r.found_before() == before,
        r@ == (if tree_readable(before.accessibility) {
            EnableState::Settled(works(ALREADY_ENABLED@))
        } else {
            trying(family_of(variables(env)), seq![])
        }),
{
    let work = if can_build_accessibility_tree(&before.accessibility) {
        AccessibilityWork::Idle(Check::ok(ALREADY_ENABLED))
    } else {
        AccessibilityWork::Enabling(enable_atspi(env))
    };
    AccessibilitySetup { before, work }
}

impl AccessibilitySetup {
    /// What the doctor found before the setup.
    pub closed spec fn found_before(&self) -> DoctorReport {
        self.before
    }

    /// The command to be run next; none once the work is settled.
    pub fn command(&self) -> (r: Option<&CommandSpec>)
        ensures
            r is None <==> self@ is Settled,
            r is Some ==> self@->probe->remaining.len() > 0 && r->0@ == self@->probe->remaining[0],
    {
        match &self.work {
            AccessibilityWork::Idle(_) => None,
            AccessibilityWork::Enabling(work) => work.command(),
        }
    }

    /// The work after its next command had the given outcome.
    pub fn record(self, outcome: &CommandOutcome) -> (r: Self)
        ensures
            r.found_before() == self.found_before(),
            r@ == enable_step(self@, outcome_finding(*outcome)),
    {
        let AccessibilitySetup { before, work } = self;
        let work = match work {
            AccessibilityWork::Idle(check) => AccessibilityWork::Idle(check),
            AccessibilityWork::Enabling(work) => AccessibilityWork::Enabling(work.record(outcome)),
        };
        AccessibilitySetup { before, work }
    }

    /// The report on a finished setup, with what the doctor found after it.
    pub fn report(self, after: DoctorReport) -> (r: Option<SetupReport>)
        ensures
            r is Some <==> self@ is Settled,
            r matches Some(report) ==> {
                let before_ready = self.found_before().readiness.can_build_accessibility_tree;
                let after_ready = after.readiness.can_build_accessibility_tree;
                &&& report.before == self.found_before()
                &&& report.after == after
                &&& EnableState::Settled(report.accessibility_command@) == self@
                &&& report.changed_accessibility == (!before_ready && after_ready)
                &&& report.requires_target_app_restart == report.changed_accessibility
                &&& report.message@ == accessibility_message(before_ready, after_ready)
            },
    {
        let AccessibilitySetup { before, work } = self;
        let settled: Option<Check> = match &work {
            AccessibilityWork::Idle(check) => Some(check.clone()),
            AccessibilityWork::Enabling(work) => match work.verdict() {
                Some(check) => Some(check.clone()),
                None => None,
            },
        };
        match settled {
            None => None,
            Some(accessibility_command) => {
                let before_ready = before.readiness.can_build_accessibility_tree;
                let after_ready = after.readiness.can_build_accessibility_tree;
                let changed = !before_ready && after_ready;
                let message = if after_ready {
                    if changed {
                        NEWLY_READY
                    } else {
                        STILL_READY
                    }
                } else {
                    NOT_READY
                };
                Some(
                    SetupReport {
                        before,
                        accessibility_command,
                        after,
                        changed_accessibility: changed,
                        requires_target_app_restart: changed,
                        message: message.to_owned(),
                    },
                )
            },
        }
    }
}

} // verus!
