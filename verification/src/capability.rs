//! Which interchangeable backends an environment supports.

use vstd::prelude::*;

use crate::report::{
    AccessibilityReport, CapabilityMap, InputReport, PlatformReport, PortalReport,
    PreferredBackends, WindowingReport,
};
use crate::scan::strings;
use crate::session::optional_text;

verus! {

/// A name where it applies.
pub open spec fn listed(applies: bool, name: Seq<char>) -> Seq<Seq<char>> {
    if applies {
        seq![name]
    } else {
        seq![]
    }
}

/// The first of several names.
pub open spec fn first_of(names: Seq<Seq<char>>) -> Option<Seq<char>> {
    if names.len() > 0 {
        Some(names[0])
    } else {
        None
    }
}

/// The input backends, best first: the absolute pointer, the portal, ydotool.
pub open spec fn input_backends(portals: PortalReport, input: InputReport) -> Seq<Seq<char>> {
    listed(input.uinput.ok, "abs_pointer"@) + listed(portals.remote_desktop.ok, "portal"@) + listed(
        input.ydotool_socket.ok,
        "ydotool"@,
    )
}

/// The screen capture backends, best first.
pub open spec fn screenshot_backends(
    platform: PlatformReport,
    portals: PortalReport,
) -> Seq<Seq<char>> {
    listed(platform.gnome_shell_version.ok, "gnome_shell"@) + listed(
        portals.screenshot.ok,
        "portal"@,
    )
}

/// The window backends, best first.
pub open spec fn window_backends(windowing: WindowingReport) -> Seq<Seq<char>> {
    listed(windowing.codex_gnome_shell_extension.ok, "gnome_shell_extension"@) + listed(
        windowing.gnome_shell_introspect.ok,
        "gnome_introspect"@,
    ) + listed(windowing.kwin.ok, "kwin"@) + listed(windowing.hyprland.ok, "hyprland"@) + listed(
        windowing.cosmic_helper.ok,
        "cosmic"@,
    )
}

/// The accessibility backends.
pub open spec fn accessibility_backends(accessibility: AccessibilityReport) -> Seq<Seq<char>> {
    listed(accessibility.at_spi_enabled.ok || accessibility.toolkit_accessibility.ok, "at_spi"@)
}

/// The isolation contexts: the shared session always, and a headless GNOME
/// session where the shell is installed.
pub open spec fn isolation_contexts(platform: PlatformReport) -> Seq<Seq<char>> {
    seq!["shared"@] + listed(platform.gnome_shell_version.ok, "headless_gnome"@)
}

/// The map says what the reports say.
pub open spec fn maps_capabilities(
    map: CapabilityMap,
    platform: PlatformReport,
    portals: PortalReport,
    accessibility: AccessibilityReport,
    windowing: WindowingReport,
    input: InputReport,
) -> bool {
    &&& strings(map.input@) == input_backends(portals, input)
    &&& strings(map.screenshot@) == screenshot_backends(platform, portals)
    &&& strings(map.window_control@) == window_backends(windowing)
    &&& strings(map.accessibility@) == accessibility_backends(accessibility)
    &&& strings(map.isolation@) == isolation_contexts(platform)
    &&& optional_text(map.preferred.input) == first_of(strings(map.input@))
    &&& optional_text(map.preferred.screenshot) == first_of(strings(map.screenshot@))
    &&& optional_text(map.preferred.window_control) == first_of(strings(map.window_control@))
}

// ---------------------------------------------------------------------------
// Laws.
// ---------------------------------------------------------------------------

/// What is in one of two lists is in both together.
pub proof fn lemma_contains_append(a: Seq<Seq<char>>, b: Seq<Seq<char>>, x: Seq<char>)
    ensures
        (a + b).contains(x) <==> a.contains(x) || b.contains(x),
{
    if a.contains(x) {
        let i = choose|i: int| 0 <= i < a.len() && a[i] == x;
        assert((a + b)[i] == x);
    }
    if b.contains(x) {
        let i = choose|i: int| 0 <= i < b.len() && b[i] == x;
        assert((a + b)[a.len() + i] == x);
    }
    if (a + b).contains(x) {
        let i = choose|i: int| 0 <= i < (a + b).len() && (a + b)[i] == x;
        if i < a.len() {
            assert(a[i] == x);
        } else {
            assert(b[i - a.len()] == x);
        }
    }
}

proof fn lemma_listed(applies: bool, name: Seq<char>, x: Seq<char>)
    ensures
        listed(applies, name).contains(x) <==> applies && x == name,
{
    if applies {
        assert(listed(applies, name)[0] == name);
    }
}

/// Each input backend is listed exactly where its own check passed, and the
/// preferred one is the absolute pointer before the portal before ydotool.
pub proof fn input_backends_follow_their_checks(portals: PortalReport, input: InputReport)
    ensures
        ({
            let names = input_backends(portals, input);
            &&& names.contains("abs_pointer"@) <==> input.uinput.ok
            &&& names.contains("portal"@) <==> portals.remote_desktop.ok
            &&& names.contains("ydotool"@) <==> input.ydotool_socket.ok
            &&& input.uinput.ok ==> first_of(names) == Some("abs_pointer"@)
            &&& !input.uinput.ok && portals.remote_desktop.ok ==> first_of(names) == Some(
                "portal"@,
            )
            &&& !input.uinput.ok && !portals.remote_desktop.ok && input.ydotool_socket.ok
                ==> first_of(names) == Some("ydotool"@)
            &&& !input.uinput.ok && !portals.remote_desktop.ok && !input.ydotool_socket.ok
                ==> first_of(names) is None
        }),
{
    reveal_strlit("abs_pointer");
    reveal_strlit("portal");
    reveal_strlit("ydotool");
    let a = listed(input.uinput.ok, "abs_pointer"@);
    let b = listed(portals.remote_desktop.ok, "portal"@);
    let c = listed(input.ydotool_socket.ok, "ydotool"@);
    assert("abs_pointer"@[0] == 'a' && "portal"@[0] == 'p' && "ydotool"@[0] == 'y');
    assert forall|x: Seq<char>| (a + b + c).contains(x) <==> (input.uinput.ok && x
        == "abs_pointer"@) || (portals.remote_desktop.ok && x == "portal"@) || (
    input.ydotool_socket.ok && x == "ydotool"@) by {
        lemma_contains_append(a + b, c, x);
        lemma_contains_append(a, b, x);
        lemma_listed(input.uinput.ok, "abs_pointer"@, x);
        lemma_listed(portals.remote_desktop.ok, "portal"@, x);
        lemma_listed(input.ydotool_socket.ok, "ydotool"@, x);
    }
}

/// Each screen capture backend is listed exactly where its own check passed, and
/// GNOME Shell is preferred to the portal.
pub proof fn screenshot_backends_follow_their_checks(
    platform: PlatformReport,
    portals: PortalReport,
)
    ensures
        ({
            let names = screenshot_backends(platform, portals);
            &&& names.contains("gnome_shell"@) <==> platform.gnome_shell_version.ok
            &&& names.contains("portal"@) <==> portals.screenshot.ok
            &&& platform.gnome_shell_version.ok ==> first_of(names) == Some("gnome_shell"@)
            &&& !platform.gnome_shell_version.ok && portals.screenshot.ok ==> first_of(names)
                == Some("portal"@)
            &&& !platform.gnome_shell_version.ok && !portals.screenshot.ok ==> first_of(
                names,
            ) is None
        }),
{
    reveal_strlit("gnome_shell");
    reveal_strlit("portal");
    assert("gnome_shell"@[0] == 'g' && "portal"@[0] == 'p');
    let a = listed(platform.gnome_shell_version.ok, "gnome_shell"@);
    let b = listed(portals.screenshot.ok, "portal"@);
    lemma_contains_append(a, b, "gnome_shell"@);
    lemma_contains_append(a, b, "portal"@);
    lemma_listed(platform.gnome_shell_version.ok, "gnome_shell"@, "gnome_shell"@);
    lemma_listed(platform.gnome_shell_version.ok, "gnome_shell"@, "portal"@);
    lemma_listed(portals.screenshot.ok, "portal"@, "gnome_shell"@);
    lemma_listed(portals.screenshot.ok, "portal"@, "portal"@);
}

/// Each window backend is listed exactly where its own check passed, and of two
/// the better one comes first: the GNOME Shell extension, introspection, KWin,
/// Hyprland, COSMIC.
pub proof fn window_backends_follow_their_checks(w: WindowingReport)
    ensures
        ({
            let names = window_backends(w);
            &&& names.contains("gnome_shell_extension"@) <==> w.codex_gnome_shell_extension.ok
            &&& names.contains("gnome_introspect"@) <==> w.gnome_shell_introspect.ok
            &&& names.contains("kwin"@) <==> w.kwin.ok
            &&& names.contains("hyprland"@) <==> w.hyprland.ok
            &&& names.contains("cosmic"@) <==> w.cosmic_helper.ok
            &&& first_of(names) == (if w.codex_gnome_shell_extension.ok {
                Some("gnome_shell_extension"@)
            } else if w.gnome_shell_introspect.ok {
                Some("gnome_introspect"@)
            } else if w.kwin.ok {
                Some("kwin"@)
            } else if w.hyprland.ok {
                Some("hyprland"@)
            } else if w.cosmic_helper.ok {
                Some("cosmic"@)
            } else {
                None
            })
        }),
{
    reveal_strlit("gnome_shell_extension");
    reveal_strlit("gnome_introspect");
    reveal_strlit("kwin");
    reveal_strlit("hyprland");
    reveal_strlit("cosmic");
    assert("gnome_shell_extension"@.len() == 21 && "gnome_introspect"@.len() == 16 && "kwin"@.len()
        == 4 && "hyprland"@.len() == 8 && "cosmic"@.len() == 6);
    let a = listed(w.codex_gnome_shell_extension.ok, "gnome_shell_extension"@);
    let b = listed(w.gnome_shell_introspect.ok, "gnome_introspect"@);
    let c = listed(w.kwin.ok, "kwin"@);
    let d = listed(w.hyprland.ok, "hyprland"@);
    let e = listed(w.cosmic_helper.ok, "cosmic"@);
    assert forall|x: Seq<char>| (a + b + c + d + e).contains(x) <==> (
    w.codex_gnome_shell_extension.ok && x == "gnome_shell_extension"@) || (
    w.gnome_shell_introspect.ok && x == "gnome_introspect"@) || (w.kwin.ok && x == "kwin"@) || (
    w.hyprland.ok && x == "hyprland"@) || (w.cosmic_helper.ok && x == "cosmic"@) by {
        lemma_contains_append(a + b + c + d, e, x);
        lemma_contains_append(a + b + c, d, x);
        lemma_contains_append(a + b, c, x);
        lemma_contains_append(a, b, x);
        lemma_listed(w.codex_gnome_shell_extension.ok, "gnome_shell_extension"@, x);
        lemma_listed(w.gnome_shell_introspect.ok, "gnome_introspect"@, x);
        lemma_listed(w.kwin.ok, "kwin"@, x);
        lemma_listed(w.hyprland.ok, "hyprland"@, x);
        lemma_listed(w.cosmic_helper.ok, "cosmic"@, x);
    }
}

/// The accessibility backend is there where one of its two checks passed, and
/// the isolation contexts are the shared session always and a headless one with
/// GNOME Shell.
pub proof fn other_backends_follow_their_checks(a: AccessibilityReport, p: PlatformReport)
    ensures
        accessibility_backends(a).contains("at_spi"@) <==> a.at_spi_enabled.ok
            || a.toolkit_accessibility.ok,
        isolation_contexts(p).contains("shared"@),
        isolation_contexts(p).contains("headless_gnome"@) <==> p.gnome_shell_version.ok,
{
    reveal_strlit("shared");
    reveal_strlit("headless_gnome");
    assert("shared"@[0] == 's' && "headless_gnome"@[0] == 'h');
    lemma_listed(a.at_spi_enabled.ok || a.toolkit_accessibility.ok, "at_spi"@, "at_spi"@);
    assert(isolation_contexts(p)[0] == "shared"@);
    lemma_contains_append(
        seq!["shared"@],
        listed(p.gnome_shell_version.ok, "headless_gnome"@),
        "headless_gnome"@,
    );
    lemma_listed(p.gnome_shell_version.ok, "headless_gnome"@, "headless_gnome"@);
}

/// What is preferred in a map is the first that it lists, and where it lists
/// nothing there is no preference; what it lists under each layer are the backends
/// of that layer.
pub proof fn preferred_backends_are_listed_first(
    map: CapabilityMap,
    platform: PlatformReport,
    portals: PortalReport,
    accessibility: AccessibilityReport,
    windowing: WindowingReport,
    input: InputReport,
)
    requires
        maps_capabilities(map, platform, portals, accessibility, windowing, input),
    ensures
        map.input@.len() > 0 ==> map.preferred.input is Some && map.preferred.input->0@
            == map.input@[0]@,
        map.input@.len() == 0 ==> map.preferred.input is None,
        map.screenshot@.len() > 0 ==> map.preferred.screenshot is Some
            && map.preferred.screenshot->0@ == map.screenshot@[0]@,
        map.screenshot@.len() == 0 ==> map.preferred.screenshot is None,
        map.window_control@.len() > 0 ==> map.preferred.window_control is Some
            && map.preferred.window_control->0@ == map.window_control@[0]@,
        map.window_control@.len() == 0 ==> map.preferred.window_control is None,
        map.input@.len() == input_backends(portals, input).len(),
        map.screenshot@.len() == screenshot_backends(platform, portals).len(),
        map.window_control@.len() == window_backends(windowing).len(),
        strings(map.input@) == input_backends(portals, input),
        strings(map.screenshot@) == screenshot_backends(platform, portals),
        strings(map.window_control@) == window_backends(windowing),
        strings(map.accessibility@) == accessibility_backends(accessibility),
        strings(map.isolation@) == isolation_contexts(platform),
{
    assert(strings(map.input@).len() == map.input@.len());
    assert(strings(map.screenshot@).len() == map.screenshot@.len());
    assert(strings(map.window_control@).len() == map.window_control@.len());
}

fn list_if(names: &mut Vec<String>, applies: bool, name: &str)
    ensures
        strings(final(names)@) == strings(old(names)@) + listed(applies, name@),
{
    if applies {
        names.push(name.to_owned());
    }
    assert(strings(names@) =~= strings(old(names)@) + listed(applies, name@));
}

fn first_name(names: &Vec<String>) -> (r: Option<String>)
    ensures
        optional_text(r) == first_of(strings(names@)),
{
    if names.len() > 0 {
        Some(names[0].clone())
    } else {
        None
    }
}

/// Derives the backends of each layer from the individual checks. The lists are
/// ordered best first.
pub fn capability_map(
    platform: &PlatformReport,
    portals: &PortalReport,
    accessibility: &AccessibilityReport,
    windowing: &WindowingReport,
    input: &InputReport,
) -> (r: CapabilityMap)
    ensures
        maps_capabilities(r, *platform, *portals, *accessibility, *windowing, *input),
{
    let mut inputs: Vec<String> = Vec::new();
    list_if(&mut inputs, input.uinput.ok, "abs_pointer");
    list_if(&mut inputs, portals.remote_desktop.ok, "portal");
    list_if(&mut inputs, input.ydotool_socket.ok, "ydotool");
    assert(strings(inputs@) =~= input_backends(*portals, *input));

    let mut screenshots: Vec<String> = Vec::new();
    list_if(&mut screenshots, platform.gnome_shell_version.ok, "gnome_shell");
    list_if(&mut screenshots, portals.screenshot.ok, "portal");
    assert(strings(screenshots@) =~= screenshot_backends(*platform, *portals));

    let mut windows: Vec<String> = Vec::new();
    list_if(&mut windows, windowing.codex_gnome_shell_extension.ok, "gnome_shell_extension");
    list_if(&mut windows, windowing.gnome_shell_introspect.ok, "gnome_introspect");
    list_if(&mut windows, windowing.kwin.ok, "kwin");
    list_if(&mut windows, windowing.hyprland.ok, "hyprland");
    list_if(&mut windows, windowing.cosmic_helper.ok, "cosmic");
    assert(strings(windows@) =~= window_backends(*windowing));

    let mut elements: Vec<String> = Vec::new();
    list_if(
        &mut elements,
        accessibility.at_spi_enabled.ok || accessibility.toolkit_accessibility.ok,
        "at_spi",
    );
    assert(strings(elements@) =~= accessibility_backends(*accessibility));

    let mut isolation: Vec<String> = Vec::new();
    list_if(&mut isolation, true, "shared");
    list_if(&mut isolation, platform.gnome_shell_version.ok, "headless_gnome");
    assert(strings(isolation@) =~= isolation_contexts(*platform));

    let preferred = PreferredBackends {
        input: first_name(&inputs),
        screenshot: first_name(&screenshots),
        window_control: first_name(&windows),
    };
    CapabilityMap {
        input: inputs,
        screenshot: screenshots,
        window_control: windows,
        accessibility: elements,
        isolation,
        preferred,
    }
}

} // verus!
