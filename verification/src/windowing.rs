//! What the window backends can do together.

use vstd::prelude::*;

use crate::check::{broken, Check, Finding};
use crate::readiness::{cosmic_wayland, is_cosmic_wayland_platform};
use crate::report::{PlatformReport, WindowingReport};
use crate::session::optional_text;
use crate::text::same_text;
use crate::text_map::TextMap;

verus! {

pub const COSMIC_NOTE: &'static str =
    "A COSMIC Wayland window backend is available for list_windows, focused_window, and targeted input verification.";

pub const KWIN_NOTE: &'static str =
    "A KWin/Plasma window backend is available for list_windows, focused_window, and targeted input verification.";

pub const HYPRLAND_NOTE: &'static str =
    "A Hyprland window backend is available for list_windows, focused_window, and targeted input verification.";

pub const GNOME_NOTE: &'static str =
    "A GNOME window listing backend is available for list_windows, focused_window, and targeted input verification.";

pub const NO_BACKEND_NOTE: &'static str =
    "Window listing is unavailable or denied. Computer Use can still use screenshots, AT-SPI, and global ydotool input, but targeted window input cannot be verified. On GNOME, run setup_window_targeting to install the optional GNOME Shell extension backend. On COSMIC, ensure the bundled COSMIC helper is present and can connect to the session. On KDE/Plasma, ensure KWin exposes org.kde.KWin scripting on the session bus. On Hyprland, ensure hyprctl is available in the session.";

/// What a window backend said when it was probed.
#[derive(Debug, Clone)]
pub struct BackendProbe {
    pub id: &'static str,
    pub ok: bool,
    pub can_list_windows: bool,
    pub can_focus_apps: bool,
    pub can_focus_windows: bool,
    pub detail: String,
}

/// Where a window is and how large it is.
#[derive(Debug, Clone, Copy, PartialEq, Eq)]
pub struct WindowBounds {
    pub x: Option<i32>,
    pub y: Option<i32>,
    pub width: u32,
    pub height: u32,
}

/// A window.
#[derive(Debug, Clone)]
pub struct WindowInfo {
    pub window_id: u64,
    pub title: Option<String>,
    pub app_id: Option<String>,
    pub wm_class: Option<String>,
    pub pid: Option<u32>,
    pub bounds: Option<WindowBounds>,
    pub workspace: Option<i32>,
    pub focused: bool,
    pub hidden: bool,
    pub client_type: Option<String>,
    pub backend: String,
    pub terminal: Option<String>,
}

/// A window as a mathematical value.
pub struct WindowText {
    pub window_id: u64,
    pub title: Option<Seq<char>>,
    pub app_id: Option<Seq<char>>,
    pub wm_class: Option<Seq<char>>,
    pub pid: Option<u32>,
    pub bounds: Option<WindowBounds>,
    pub workspace: Option<i32>,
    pub focused: bool,
    pub hidden: bool,
    pub client_type: Option<Seq<char>>,
    pub backend: Seq<char>,
    pub terminal: Option<Seq<char>>,
}

impl View for WindowInfo {
    type V = WindowText;

    open spec fn view(&self) -> WindowText {
        WindowText {
            window_id: self.window_id,
            title: optional_text(self.title),
            app_id: optional_text(self.app_id),
            wm_class: optional_text(self.wm_class),
            pid: self.pid,
            bounds: self.bounds,
            workspace: self.workspace,
            focused: self.focused,
            hidden: self.hidden,
            client_type: optional_text(self.client_type),
            backend: self.backend@,
            terminal: optional_text(self.terminal),
        }
    }
}

/// The ids of the backends that the report speaks of by name.
#[derive(Debug, Clone, Copy)]
pub struct WindowBackendIds {
    pub gnome_shell_introspect: &'static str,
    pub gnome_shell_extension: &'static str,
    pub cosmic_wayland: &'static str,
    pub kwin: &'static str,
    pub hyprland: &'static str,
}

// ---------------------------------------------------------------------------
// Model.
// ---------------------------------------------------------------------------

/// What a backend's probe found.
pub open spec fn probe_finding(p: BackendProbe) -> Finding {
    Finding { ok: p.ok, detail: p.detail@ }
}

/// What the first probe of a backend found.
pub open spec fn backend_finding(probes: Seq<BackendProbe>, id: Seq<char>) -> Finding
    decreases probes.len(),
{
    if probes.len() == 0 {
        broken("backend probe did not run"@)
    } else if probes[0].id@ == id {
        probe_finding(probes[0])
    } else {
        backend_finding(probes.skip(1), id)
    }
}

/// What the probes found, by backend; of several for one backend the last.
pub open spec fn findings_by_backend(probes: Seq<BackendProbe>) -> Map<Seq<char>, Finding>
    decreases probes.len(),
{
    if probes.len() == 0 {
        Map::empty()
    } else {
        findings_by_backend(probes.drop_last()).insert(
            probes.last().id@,
            probe_finding(probes.last()),
        )
    }
}

/// The findings of a map of checks.
pub open spec fn checked(m: &TextMap<Check>) -> Map<Seq<char>, Finding> {
    Map::new(|k: Seq<char>| m@.dom().contains(k), |k: Seq<char>| m@[k]@)
}

/// One of the backends can list windows.
pub open spec fn any_lists(probes: Seq<BackendProbe>) -> bool {
    exists|i: int| 0 <= i < probes.len() && (#[trigger] probes[i]).can_list_windows
}

/// One of the backends can focus applications.
pub open spec fn any_focuses_apps(probes: Seq<BackendProbe>) -> bool {
    exists|i: int| 0 <= i < probes.len() && (#[trigger] probes[i]).can_focus_apps
}

/// One of the backends can focus windows.
pub open spec fn any_focuses_windows(probes: Seq<BackendProbe>) -> bool {
    exists|i: int| 0 <= i < probes.len() && (#[trigger] probes[i]).can_focus_windows
}

/// The note on what can be done with windows.
pub open spec fn windowing_note(
    lists: bool,
    cosmic: bool,
    kwin: bool,
    hyprland: bool,
) -> Seq<char> {
    if !lists {
        NO_BACKEND_NOTE@
    } else if cosmic {
        COSMIC_NOTE@
    } else if kwin {
        KWIN_NOTE@
    } else if hyprland {
        HYPRLAND_NOTE@
    } else {
        GNOME_NOTE@
    }
}

// ---------------------------------------------------------------------------
// Laws.
// ---------------------------------------------------------------------------

/// The first probe of a backend is the one that counts for it, whatever the
/// probes of other backends found; a backend without a probe does not work.
pub proof fn first_probe_of_a_backend_counts(probes: Seq<BackendProbe>, id: Seq<char>, i: int)
    ensures
        0 <= i < probes.len() && probes[i].id@ == id && (forall|j: int|
            0 <= j < i ==> (#[trigger] probes[j]).id@ != id) ==> backend_finding(probes, id).ok
            == probes[i].ok && backend_finding(probes, id).detail == probes[i].detail@,
        (forall|j: int| 0 <= j < probes.len() ==> (#[trigger] probes[j]).id@ != id)
            ==> !backend_finding(probes, id).ok,
    decreases probes.len(),
{
    if probes.len() > 0 {
        let rest = probes.skip(1);
        first_probe_of_a_backend_counts(rest, id, i - 1);
        if probes[0].id@ != id {
            if 0 <= i < probes.len() && probes[i].id@ == id && (forall|j: int|
                0 <= j < i ==> (#[trigger] probes[j]).id@ != id) {
                assert(i > 0);
                assert(rest[i - 1] == probes[i]);
                assert forall|j: int| 0 <= j < i - 1 implies (#[trigger] rest[j]).id@ != id by {
                    assert(rest[j] == probes[j + 1]);
                }
            }
            if forall|j: int| 0 <= j < probes.len() ==> (#[trigger] probes[j]).id@ != id {
                assert forall|j: int| 0 <= j < rest.len() implies (#[trigger] rest[j]).id@
                    != id by {
                    assert(rest[j] == probes[j + 1]);
                }
            }
        } else if 0 <= i < probes.len() && (forall|j: int|
            0 <= j < i ==> (#[trigger] probes[j]).id@ != id) {
            if i > 0 {
                assert(probes[0].id@ != id);
            }
        }
    }
}

/// Every backend that was probed is listed, with what its last probe found, and
/// no other.
pub proof fn every_probe_is_listed(probes: Seq<BackendProbe>, i: int, id: Seq<char>)
    ensures
        0 <= i < probes.len() ==> findings_by_backend(probes).dom().contains(probes[i].id@),
        0 <= i < probes.len() && (forall|j: int|
            i < j < probes.len() ==> (#[trigger] probes[j]).id@ != probes[i].id@)
            ==> findings_by_backend(probes)[probes[i].id@].ok == probes[i].ok
            && findings_by_backend(probes)[probes[i].id@].detail == probes[i].detail@,
        (forall|j: int| 0 <= j < probes.len() ==> (#[trigger] probes[j]).id@ != id)
            ==> !findings_by_backend(probes).dom().contains(id),
    decreases probes.len(),
{
    if probes.len() > 0 {
        let front = probes.drop_last();
        let n = probes.len() - 1;
        every_probe_is_listed(front, i, id);
        if 0 <= i < n {
            assert(front[i] == probes[i]);
            if forall|j: int| i < j < probes.len() ==> (#[trigger] probes[j]).id@ != probes[i].id@ {
                assert(probes[n].id@ != probes[i].id@);
                assert forall|j: int| i < j < front.len() implies (#[trigger] front[j]).id@
                    != front[i].id@ by {
                    assert(front[j] == probes[j]);
                }
            }
        }
        if forall|j: int| 0 <= j < probes.len() ==> (#[trigger] probes[j]).id@ != id {
            assert(probes[n].id@ != id);
            assert forall|j: int| 0 <= j < front.len() implies (#[trigger] front[j]).id@ != id by {
                assert(front[j] == probes[j]);
            }
        }
    }
}

/// What one backend can do can be done, wherever among the probes it stands; and
/// what none can do cannot.
pub proof fn one_backend_is_enough(
    before: Seq<BackendProbe>,
    probe: BackendProbe,
    after: Seq<BackendProbe>,
)
    ensures
        ({
            let all = before + seq![probe] + after;
            &&& any_lists(all) <==> any_lists(before) || probe.can_list_windows || any_lists(after)
            &&& any_focuses_apps(all) <==> any_focuses_apps(before) || probe.can_focus_apps
                || any_focuses_apps(after)
            &&& any_focuses_windows(all) <==> any_focuses_windows(before)
                || probe.can_focus_windows || any_focuses_windows(after)
        }),
        !any_lists(seq![]),
        !any_focuses_apps(seq![]),
        !any_focuses_windows(seq![]),
{
    let all = before + seq![probe] + after;
    let n = before.len() as int;
    assert forall|i: int| 0 <= i < before.len() implies #[trigger] before[i] == all[i] by {}
    assert forall|i: int| 0 <= i < after.len() implies #[trigger] after[i] == all[i + n + 1] by {}
    assert(all[n] == probe);
    assert forall|i: int| 0 <= i < all.len() implies #[trigger] all[i] == (if i < n {
        before[i]
    } else if i == n {
        probe
    } else {
        after[i - n - 1]
    }) by {}
}

/// Where no backend lists windows the note says what to do; else it names one that
/// works, COSMIC's before KWin's, KWin's before Hyprland's, and GNOME's where none
/// of these does.
pub proof fn note_names_a_backend_that_works(cosmic: bool, kwin: bool, hyprland: bool)
    ensures
        windowing_note(false, cosmic, kwin, hyprland) == NO_BACKEND_NOTE@,
        cosmic ==> windowing_note(true, cosmic, kwin, hyprland) == COSMIC_NOTE@,
        !cosmic && kwin ==> windowing_note(true, cosmic, kwin, hyprland) == KWIN_NOTE@,
        !cosmic && !kwin && hyprland ==> windowing_note(true, cosmic, kwin, hyprland)
            == HYPRLAND_NOTE@,
        !cosmic && !kwin && !hyprland ==> windowing_note(true, cosmic, kwin, hyprland)
            == GNOME_NOTE@,
{
}

// ---------------------------------------------------------------------------
// Code.
// ---------------------------------------------------------------------------

/// The check that a backend's probe gives.
pub fn check_from_backend_probe(probe: &BackendProbe) -> (r: Check)
    ensures
        r@ == probe_finding(*probe),
{
    if probe.ok {
        Check::ok(probe.detail.as_str())
    } else {
        Check::fail(probe.detail.as_str())
    }
}

/// The check that the first probe of a backend gives.
pub fn backend_check(probes: &Vec<BackendProbe>, id: &str) -> (r: Check)
    ensures
        r@ == backend_finding(probes@, id@),
{
    let n: usize = probes.len();
    let mut i: usize = 0;
    assert(probes@.skip(0) =~= probes@);
    while i < n
        invariant
            i <= n,
            n == probes@.len(),
            backend_finding(probes@, id@) == backend_finding(probes@.skip(i as int), id@),
        decreases n - i,
    {
        let ghost rest = probes@.skip(i as int);
        assert(rest[0] == probes@[i as int]);
        assert(rest.skip(1) =~= probes@.skip(i + 1));
        if same_text(probes[i].id, id) {
            return check_from_backend_probe(&probes[i]);
        }
        i += 1;
    }
    Check::fail("backend probe did not run")
}

fn checks_by_backend(probes: &Vec<BackendProbe>) -> (r: TextMap<Check>)
    ensures
        checked(&r) == findings_by_backend(probes@),
{
    let n: usize = probes.len();
    let mut backends: TextMap<Check> = TextMap::new();
    let mut i: usize = 0;
    assert(checked(&backends) =~= findings_by_backend(probes@.take(0)));
    while i < n
        invariant
            i <= n,
            n == probes@.len(),
            checked(&backends) == findings_by_backend(probes@.take(i as int)),
        decreases n - i,
    {
        let ghost before = checked(&backends);
        let check = check_from_backend_probe(&probes[i]);
        let ghost f = check@;
        backends.insert(probes[i].id.to_owned(), check);
        proof {
            assert(checked(&backends) =~= before.insert(probes@[i as int].id@, f));
            assert(probes@.take(i + 1).drop_last() =~= probes@.take(i as int));
            assert(probes@.take(i + 1).last() == probes@[i as int]);
        }
        i += 1;
    }
    assert(probes@.take(n as int) =~= probes@);
    backends
}

/// Derives what can be done with windows from the probes of the backends.
pub fn windowing_report(
    platform: &PlatformReport,
    ids: &WindowBackendIds,
    probes: &Vec<BackendProbe>,
) -> (r: WindowingReport)
    ensures
        r.gnome_shell_introspect@ == backend_finding(probes@, ids.gnome_shell_introspect@),
        r.codex_gnome_shell_extension@ == backend_finding(probes@, ids.gnome_shell_extension@),
        r.cosmic_helper@ == backend_finding(probes@, ids.cosmic_wayland@),
        r.kwin@ == backend_finding(probes@, ids.kwin@),
        r.hyprland@ == backend_finding(probes@, ids.hyprland@),
        checked(&r.backends) == findings_by_backend(probes@),
        r.can_list_windows == any_lists(probes@),
        r.can_focus_apps == any_focuses_apps(probes@),
        r.can_focus_windows == any_focuses_windows(probes@),
        r.note@ == windowing_note(
            any_lists(probes@),
            backend_finding(probes@, ids.cosmic_wayland@).ok && cosmic_wayland(*platform),
            backend_finding(probes@, ids.kwin@).ok,
            backend_finding(probes@, ids.hyprland@).ok,
        ),
{
    let gnome_shell_introspect = backend_check(probes, ids.gnome_shell_introspect);
    let codex_gnome_shell_extension = backend_check(probes, ids.gnome_shell_extension);
    let cosmic_helper = backend_check(probes, ids.cosmic_wayland);
    let kwin = backend_check(probes, ids.kwin);
    let hyprland = backend_check(probes, ids.hyprland);
    let backends = checks_by_backend(probes);

    let mut lists = false;
    let mut focuses_apps = false;
    let mut focuses_windows = false;
    let n: usize = probes.len();
    let mut i: usize = 0;
    while i < n
        invariant
            i <= n,
            n == probes@.len(),
            lists == exists|j: int| 0 <= j < i && (#[trigger] probes@[j]).can_list_windows,
            focuses_apps == exists|j: int| 0 <= j < i && (#[trigger] probes@[j]).can_focus_apps,
            focuses_windows == exists|j: int|
                0 <= j < i && (#[trigger] probes@[j]).can_focus_windows,
        decreases n - i,
    {
        let ghost here = probes@[i as int];
        lists = lists || probes[i].can_list_windows;
        focuses_apps = focuses_apps || probes[i].can_focus_apps;
        focuses_windows = focuses_windows || probes[i].can_focus_windows;
        i += 1;
    }

    let note = if !lists {
        NO_BACKEND_NOTE
    } else if cosmic_helper.ok && is_cosmic_wayland_platform(platform) {
        COSMIC_NOTE
    } else if kwin.ok {
        KWIN_NOTE
    } else if hyprland.ok {
        HYPRLAND_NOTE
    } else {
        GNOME_NOTE
    };

    WindowingReport {
        gnome_shell_introspect,
        codex_gnome_shell_extension,
        cosmic_helper,
        kwin,
        hyprland,
        backends,
        can_list_windows: lists,
        can_focus_apps: focuses_apps,
        can_focus_windows: focuses_windows,
        note: note.to_owned(),
    }
}

} // verus!
