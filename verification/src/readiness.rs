//! What a machine is ready for, what stands in the way, and what to do next.

use vstd::prelude::*;

use crate::capability::{input_backends, lemma_contains_append, listed};
use crate::check::{Check, Finding};
use crate::report::{
    AccessibilityReport, InputReport, PlatformReport, PortalReport, ReadinessReport,
    WindowingReport,
};
use crate::scan::{contains, has_text, join, joined, slices, strings, text_is_found_anywhere};
use crate::session::optional_text;
use crate::text::{lowered, lowering_changes_only_capitals, same_text, to_ascii_lowercase};

verus! {

pub const NO_ACCESSIBILITY: &'static str =
    "AT-SPI accessibility is disabled; enable org.a11y.Status IsEnabled or org.gnome.desktop.interface toolkit-accessibility for tree extraction.";

pub const NO_COSMIC_WINDOWS: &'static str =
    "COSMIC Wayland window introspection is unavailable; targeted window focus and verification will be disabled.";

pub const NO_WINDOWS: &'static str =
    "Window introspection is unavailable; targeted window focus and verification will be disabled.";

pub const NO_EXACT_FOCUS: &'static str =
    "Exact window activation is unavailable; app-level focus may work, but window_id/title/terminal-targeted input cannot be verified.";

pub const NO_INPUT: &'static str =
    "Development input is unavailable; enable read/write /dev/uinput, XDG RemoteDesktop portal input, or ydotool with a connectable ydotoold socket.";

pub const ENABLE_ACCESSIBILITY: &'static str =
    "Run setup_accessibility to enable AT-SPI accessibility before element-aware actions.";

pub const ENABLE_WINDOWS: &'static str =
    "Enable a supported window backend before using targeted keyboard input: ";

pub const ENABLE_EXACT_FOCUS: &'static str =
    "Enable an exact-focus window backend before using window_id, title, or terminal-targeted input.";

pub const ENABLE_INPUT: &'static str =
    "Enable a supported input backend: grant read/write /dev/uinput, enable the XDG RemoteDesktop portal, or start ydotoold with a socket accessible to this desktop user.";

pub const READY: &'static str =
    "Computer Use is ready: AT-SPI tree support, window targeting, and a Linux input backend are available.";

// ---------------------------------------------------------------------------
// Model.
// ---------------------------------------------------------------------------

/// A check that passed with a detail that says true.
pub open spec fn says_true(f: Finding) -> bool {
    f.ok && has_text(lowered(f.detail), "true"@)
}

/// The accessibility tree can be read: its bus is there and it is turned on.
pub open spec fn tree_readable(a: AccessibilityReport) -> bool {
    a.at_spi_bus.ok && (says_true(a.at_spi_enabled@) || says_true(a.toolkit_accessibility@))
}

/// Input can be sent: through the device, through the portal, or through
/// ydotool with its daemon and a socket that it listens on.
pub open spec fn input_sendable(portals: PortalReport, input: InputReport) -> bool {
    ||| input.uinput.ok
    ||| portals.remote_desktop.ok
    ||| input.ydotool.ok && input.ydotoold.ok && input.ydotool_socket.ok
}

/// The session is COSMIC on Wayland.
pub open spec fn cosmic_wayland(p: PlatformReport) -> bool {
    &&& p.xdg_current_desktop is Some
    &&& has_text(lowered(p.xdg_current_desktop->0@), "cosmic"@)
    &&& optional_text(p.xdg_session_type) == Some("wayland"@)
}

/// What stands in the way.
pub open spec fn blockers_of(
    platform: PlatformReport,
    portals: PortalReport,
    accessibility: AccessibilityReport,
    windowing: WindowingReport,
    input: InputReport,
) -> Seq<Seq<char>> {
    listed(!tree_readable(accessibility), NO_ACCESSIBILITY@) + listed(
        !windowing.can_list_windows,
        if cosmic_wayland(platform) {
            NO_COSMIC_WINDOWS@
        } else {
            NO_WINDOWS@
        },
    ) + listed(
        windowing.can_list_windows && !windowing.can_focus_windows,
        NO_EXACT_FOCUS@,
    ) + listed(!input_sendable(portals, input), NO_INPUT@)
}

/// What to do next: the first thing that is missing, or nothing.
pub open spec fn next_step(
    portals: PortalReport,
    accessibility: AccessibilityReport,
    windowing: WindowingReport,
    input: InputReport,
    missing_hints: Seq<Seq<char>>,
) -> Seq<char> {
    if !tree_readable(accessibility) {
        ENABLE_ACCESSIBILITY@
    } else if !windowing.can_list_windows {
        ENABLE_WINDOWS@ + joined(missing_hints, " "@)
    } else if !windowing.can_focus_windows {
        ENABLE_EXACT_FOCUS@
    } else if !input_sendable(portals, input) {
        ENABLE_INPUT@
    } else {
        READY@
    }
}

/// The report says what the other reports amount to.
pub open spec fn tells_readiness(
    r: ReadinessReport,
    platform: PlatformReport,
    portals: PortalReport,
    accessibility: AccessibilityReport,
    windowing: WindowingReport,
    input: InputReport,
    missing_hints: Seq<Seq<char>>,
) -> bool {
    &&& r.can_register_mcp_tools
    &&& r.can_build_accessibility_tree == tree_readable(accessibility)
    &&& r.can_query_windows == windowing.can_list_windows
    &&& r.can_focus_apps == windowing.can_focus_apps
    &&& r.can_focus_windows == windowing.can_focus_windows
    &&& r.can_send_development_input == input_sendable(portals, input)
    &&& r.recommended_next_step@ == next_step(
        portals,
        accessibility,
        windowing,
        input,
        missing_hints,
    )
    &&& strings(r.blockers@) == blockers_of(platform, portals, accessibility, windowing, input)
}

// ---------------------------------------------------------------------------
// Laws.
// ---------------------------------------------------------------------------

/// Nothing stands in the way exactly where the tree can be read, windows can be
/// listed and focused, and input can be sent; and only then is the machine
/// called ready.
pub proof fn ready_when_nothing_blocks(
    platform: PlatformReport,
    portals: PortalReport,
    accessibility: AccessibilityReport,
    windowing: WindowingReport,
    input: InputReport,
    missing_hints: Seq<Seq<char>>,
)
    ensures
        blockers_of(platform, portals, accessibility, windowing, input).len() == 0 <==> (
        tree_readable(accessibility) && windowing.can_list_windows && windowing.can_focus_windows
            && input_sendable(portals, input)),
        blockers_of(platform, portals, accessibility, windowing, input).len() == 0 <==> next_step(
            portals,
            accessibility,
            windowing,
            input,
            missing_hints,
        ) == READY@,
{
    reveal_strlit(
        "Run setup_accessibility to enable AT-SPI accessibility before element-aware actions.",
    );
    reveal_strlit("Enable a supported window backend before using targeted keyboard input: ");
    reveal_strlit(
        "Enable an exact-focus window backend before using window_id, title, or terminal-targeted input.",
    );
    reveal_strlit(
        "Enable a supported input backend: grant read/write /dev/uinput, enable the XDG RemoteDesktop portal, or start ydotoold with a socket accessible to this desktop user.",
    );
    reveal_strlit(
        "Computer Use is ready: AT-SPI tree support, window targeting, and a Linux input backend are available.",
    );
    assert(READY@[0] == 'C');
    assert(ENABLE_ACCESSIBILITY@[0] == 'R');
    assert((ENABLE_WINDOWS@ + joined(missing_hints, " "@))[0] == 'E');
    assert(ENABLE_EXACT_FOCUS@[0] == 'E');
    assert(ENABLE_INPUT@[0] == 'E');
}

/// A check that passed says true wherever in its detail the word stands, and in
/// whatever case it is written; a check that failed, or that holds no such word,
/// does not.
pub proof fn the_word_true_may_stand_anywhere(
    f: Finding,
    a: Seq<char>,
    word: Seq<char>,
    b: Seq<char>,
)
    requires
        lowered(word) == "true"@,
    ensures
        f.ok && f.detail == a + word + b ==> says_true(f),
        !f.ok ==> !says_true(f),
        says_true(f) ==> exists|front: Seq<char>, back: Seq<char>|
            lowered(f.detail) == #[trigger] (front + "true"@ + back),
{
    lowering_changes_only_capitals(0, 'a', a + word, b);
    lowering_changes_only_capitals(0, 'a', a, word);
    text_is_found_anywhere(lowered(f.detail), lowered(a), "true"@, lowered(b));
}

/// The accessibility tree can be read where its bus is there and one of the two
/// switches passed with the word true somewhere in what it said, in any case;
/// without the bus it cannot, nor where neither switch says so.
pub proof fn either_switch_makes_the_tree_readable(
    r: AccessibilityReport,
    a: Seq<char>,
    word: Seq<char>,
    b: Seq<char>,
)
    requires
        lowered(word) == "true"@,
    ensures
        r.at_spi_bus.ok && r.at_spi_enabled.ok && r.at_spi_enabled.detail@ == a + word + b
            ==> tree_readable(r),
        r.at_spi_bus.ok && r.toolkit_accessibility.ok && r.toolkit_accessibility.detail@ == a + word
            + b ==> tree_readable(r),
        !r.at_spi_bus.ok ==> !tree_readable(r),
        !r.at_spi_enabled.ok && !r.toolkit_accessibility.ok ==> !tree_readable(r),
        tree_readable(r) ==> has_text(lowered(r.at_spi_enabled.detail@), "true"@) || has_text(
            lowered(r.toolkit_accessibility.detail@),
            "true"@,
        ),
{
    the_word_true_may_stand_anywhere(r.at_spi_enabled@, a, word, b);
    the_word_true_may_stand_anywhere(r.toolkit_accessibility@, a, word, b);
}

/// One way to send input is enough: the device, the portal, or ydotool together
/// with its daemon and socket. Of ydotool all three parts are needed.
pub proof fn one_way_to_send_input_is_enough(portals: PortalReport, input: InputReport)
    ensures
        input.uinput.ok ==> input_sendable(portals, input),
        portals.remote_desktop.ok ==> input_sendable(portals, input),
        input.ydotool.ok && input.ydotoold.ok && input.ydotool_socket.ok ==> input_sendable(
            portals,
            input,
        ),
        !input.uinput.ok && !portals.remote_desktop.ok && !(input.ydotool.ok && input.ydotoold.ok
            && input.ydotool_socket.ok) ==> !input_sendable(portals, input),
{
}

/// A session is COSMIC on Wayland where its desktop's name holds `cosmic`
/// somewhere, in any case, and its type is `wayland`; no other session is.
pub proof fn cosmic_is_known_by_its_name(
    p: PlatformReport,
    a: Seq<char>,
    word: Seq<char>,
    b: Seq<char>,
)
    requires
        lowered(word) == "cosmic"@,
    ensures
        optional_text(p.xdg_current_desktop) == Some(a + word + b) && optional_text(
            p.xdg_session_type,
        ) == Some("wayland"@) ==> cosmic_wayland(p),
        optional_text(p.xdg_session_type) != Some("wayland"@) ==> !cosmic_wayland(p),
        p.xdg_current_desktop is None ==> !cosmic_wayland(p),
        cosmic_wayland(p) ==> has_text(lowered(p.xdg_current_desktop->0@), "cosmic"@),
{
    lowering_changes_only_capitals(0, 'a', a + word, b);
    lowering_changes_only_capitals(0, 'a', a, word);
    text_is_found_anywhere(lowered(a + word + b), lowered(a), "cosmic"@, lowered(b));
}

/// Everything that is missing is among the blockers, and nothing that is there:
/// the tree, the listing of windows, the exact focus where windows can be listed
/// at all, and the input.
pub proof fn every_lack_is_a_blocker(
    platform: PlatformReport,
    portals: PortalReport,
    accessibility: AccessibilityReport,
    windowing: WindowingReport,
    input: InputReport,
)
    ensures
        ({
            let blockers = blockers_of(platform, portals, accessibility, windowing, input);
            &&& blockers.contains(NO_ACCESSIBILITY@) <==> !tree_readable(accessibility)
            &&& blockers.contains(NO_INPUT@) <==> !input_sendable(portals, input)
            &&& blockers.contains(NO_COSMIC_WINDOWS@) <==> !windowing.can_list_windows
                && cosmic_wayland(platform)
            &&& blockers.contains(NO_WINDOWS@) <==> !windowing.can_list_windows
                && !cosmic_wayland(platform)
            &&& blockers.contains(NO_EXACT_FOCUS@) <==> windowing.can_list_windows
                && !windowing.can_focus_windows
        }),
{
    reveal_strlit(
        "AT-SPI accessibility is disabled; enable org.a11y.Status IsEnabled or org.gnome.desktop.interface toolkit-accessibility for tree extraction.",
    );
    reveal_strlit(
        "COSMIC Wayland window introspection is unavailable; targeted window focus and verification will be disabled.",
    );
    reveal_strlit(
        "Window introspection is unavailable; targeted window focus and verification will be disabled.",
    );
    reveal_strlit(
        "Exact window activation is unavailable; app-level focus may work, but window_id/title/terminal-targeted input cannot be verified.",
    );
    reveal_strlit(
        "Development input is unavailable; enable read/write /dev/uinput, XDG RemoteDesktop portal input, or ydotool with a connectable ydotoold socket.",
    );
    assert(NO_ACCESSIBILITY@[0] == 'A');
    assert(NO_COSMIC_WINDOWS@[0] == 'C');
    assert(NO_WINDOWS@[0] == 'W');
    assert(NO_EXACT_FOCUS@[0] == 'E');
    assert(NO_INPUT@[0] == 'D');
    let b1 = listed(!tree_readable(accessibility), NO_ACCESSIBILITY@);
    let b2 = listed(
        !windowing.can_list_windows,
        if cosmic_wayland(platform) {
            NO_COSMIC_WINDOWS@
        } else {
            NO_WINDOWS@
        },
    );
    let b3 = listed(windowing.can_list_windows && !windowing.can_focus_windows, NO_EXACT_FOCUS@);
    let b4 = listed(!input_sendable(portals, input), NO_INPUT@);
    assert forall|x: Seq<char>| (b1 + b2 + b3 + b4).contains(x) <==> b1.contains(x) || b2.contains(x)
        || b3.contains(x) || b4.contains(x) by {
        lemma_contains_append(b1 + b2 + b3, b4, x);
        lemma_contains_append(b1 + b2, b3, x);
        lemma_contains_append(b1, b2, x);
    }
    assert(b1.contains(NO_ACCESSIBILITY@) <==> !tree_readable(accessibility)) by {
        if !tree_readable(accessibility) {
            assert(b1[0] == NO_ACCESSIBILITY@);
        }
    }
    assert(b4.contains(NO_INPUT@) <==> !input_sendable(portals, input)) by {
        if !input_sendable(portals, input) {
            assert(b4[0] == NO_INPUT@);
        }
    }
    if !windowing.can_list_windows {
        assert(b2.contains(b2[0]));
    }
    if windowing.can_list_windows && !windowing.can_focus_windows {
        assert(b3.contains(b3[0]));
    }
}

/// What to do next is about the first thing that is missing: the tree, then the
/// windows with the hints on the backends, then the exact focus, then the input.
pub proof fn first_lack_comes_first(
    portals: PortalReport,
    accessibility: AccessibilityReport,
    windowing: WindowingReport,
    input: InputReport,
    missing_hints: Seq<Seq<char>>,
)
    ensures
        ({
            let step = next_step(portals, accessibility, windowing, input, missing_hints);
            let tree = tree_readable(accessibility);
            &&& !tree ==> step == ENABLE_ACCESSIBILITY@
            &&& tree && !windowing.can_list_windows ==> step == ENABLE_WINDOWS@ + joined(
                missing_hints,
                " "@,
            )
            &&& tree && windowing.can_list_windows && !windowing.can_focus_windows ==> step
                == ENABLE_EXACT_FOCUS@
            &&& tree && windowing.can_list_windows && windowing.can_focus_windows
                && !input_sendable(portals, input) ==> step == ENABLE_INPUT@
        }),
{
}

/// A report's parts agree with each other and with what was found: the machine
/// is called ready exactly where it can do all four things, each thing that it
/// cannot do is among the blockers, and what is said of windows is what the
/// window backends said.
pub proof fn readiness_agrees_with_itself(
    r: ReadinessReport,
    platform: PlatformReport,
    portals: PortalReport,
    accessibility: AccessibilityReport,
    windowing: WindowingReport,
    input: InputReport,
    missing_hints: Seq<Seq<char>>,
)
    requires
        tells_readiness(r, platform, portals, accessibility, windowing, input, missing_hints),
    ensures
        r.recommended_next_step@ == READY@ <==> r.can_build_accessibility_tree
            && r.can_query_windows && r.can_focus_windows && r.can_send_development_input,
        r.blockers@.len() == 0 <==> r.recommended_next_step@ == READY@,
        strings(r.blockers@).contains(NO_ACCESSIBILITY@) <==> !r.can_build_accessibility_tree,
        strings(r.blockers@).contains(NO_INPUT@) <==> !r.can_send_development_input,
        strings(r.blockers@).contains(NO_EXACT_FOCUS@) <==> r.can_query_windows
            && !r.can_focus_windows,
        r.can_query_windows <==> windowing.can_list_windows,
        r.can_focus_apps <==> windowing.can_focus_apps,
        r.can_focus_windows <==> windowing.can_focus_windows,
        r.can_register_mcp_tools,
{
    ready_when_nothing_blocks(
        platform,
        portals,
        accessibility,
        windowing,
        input,
        missing_hints,
    );
    every_lack_is_a_blocker(platform, portals, accessibility, windowing, input);
    assert(strings(r.blockers@).len() == r.blockers@.len());
}

/// Where input can be sent, there is a backend for it.
pub proof fn sendable_input_has_a_backend(portals: PortalReport, input: InputReport)
    requires
        input_sendable(portals, input),
    ensures
        input_backends(portals, input).len() > 0,
{
}

// ---------------------------------------------------------------------------
// Code.
// ---------------------------------------------------------------------------

/// Whether a check passed with a detail that says true.
pub fn check_detail_contains_true(check: &Check) -> (r: bool)
    ensures
        r == says_true(check@),
{
    check.ok && contains(to_ascii_lowercase(check.detail.as_str()).as_str(), "true")
}

/// Whether the accessibility tree can be read.
pub fn can_build_accessibility_tree(accessibility: &AccessibilityReport) -> (r: bool)
    ensures
        r == tree_readable(*accessibility),
{
    accessibility.at_spi_bus.ok && (check_detail_contains_true(&accessibility.at_spi_enabled)
        || check_detail_contains_true(&accessibility.toolkit_accessibility))
}

/// Whether input can be sent.
pub fn can_send_development_input(portals: &PortalReport, input: &InputReport) -> (r: bool)
    ensures
        r == input_sendable(*portals, *input),
{
    input.uinput.ok || portals.remote_desktop.ok || (input.ydotool.ok && input.ydotoold.ok
        && input.ydotool_socket.ok)
}

/// Whether the session is COSMIC on Wayland.
pub fn is_cosmic_wayland_platform(platform: &PlatformReport) -> (r: bool)
    ensures
        r == cosmic_wayland(*platform),
{
    let cosmic = match &platform.xdg_current_desktop {
        Some(desktop) => contains(to_ascii_lowercase(desktop.as_str()).as_str(), "cosmic"),
        None => false,
    };
    let wayland = match &platform.xdg_session_type {
        Some(session) => same_text(session.as_str(), "wayland"),
        None => false,
    };
    cosmic && wayland
}

/// Derives what the machine is ready for. `missing_hints` says for each window
/// backend what it lacks where it is absent.
pub fn readiness_report(
    platform: &PlatformReport,
    portals: &PortalReport,
    accessibility: &AccessibilityReport,
    windowing: &WindowingReport,
    input: &InputReport,
    missing_hints: &Vec<&str>,
) -> (r: ReadinessReport)
    ensures
        tells_readiness(
            r,
            *platform,
            *portals,
            *accessibility,
            *windowing,
            *input,
            slices(missing_hints@),
        ),
{
    let mut blockers: Vec<String> = Vec::new();
    let tree = can_build_accessibility_tree(accessibility);
    let windows = windowing.can_list_windows;
    let focus_windows = windowing.can_focus_windows;
    let send_input = can_send_development_input(portals, input);

    if !tree {
        blockers.push(NO_ACCESSIBILITY.to_owned());
    }
    if !windows {
        blockers.push(
            if is_cosmic_wayland_platform(platform) {
                NO_COSMIC_WINDOWS.to_owned()
            } else {
                NO_WINDOWS.to_owned()
            },
        );
    }
    if windows && !focus_windows {
        blockers.push(NO_EXACT_FOCUS.to_owned());
    }
    if !send_input {
        blockers.push(NO_INPUT.to_owned());
    }
    assert(strings(blockers@) =~= blockers_of(
        *platform,
        *portals,
        *accessibility,
        *windowing,
        *input,
    ));

    let recommended_next_step = if !tree {
        ENABLE_ACCESSIBILITY.to_owned()
    } else if !windows {
        ENABLE_WINDOWS.to_owned().concat(join(missing_hints.as_slice(), " ").as_str())
    } else if !focus_windows {
        ENABLE_EXACT_FOCUS.to_owned()
    } else if !send_input {
        ENABLE_INPUT.to_owned()
    } else {
        READY.to_owned()
    };

    ReadinessReport {
        can_register_mcp_tools: true,
        can_build_accessibility_tree: tree,
        can_query_windows: windows,
        can_focus_apps: windowing.can_focus_apps,
        can_focus_windows: focus_windows,
        can_send_development_input: send_input,
        recommended_next_step,
        blockers,
    }
}

} // verus!
