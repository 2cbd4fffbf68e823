//! The doctor's report, put together from what was found.

use vstd::prelude::*;

use crate::capability::{capability_map, maps_capabilities};
use crate::check::Check;
use crate::command::{probe_states, single_probe, Probe, ProbeState, Survey, SurveyState};
use crate::environment::{env_var, setting, variables};
use crate::probes::{
    atspi_bus_address_check, atspi_bus_probe, atspi_status_probe, atspi_status_property_check,
    bus_name_check, bus_name_probe, command_check, command_check_with_session_bus,
    command_path_check, portal_interface_check, portal_interface_probe, process_check,
};
use crate::readiness::{readiness_report, tells_readiness};
use crate::report::{
    AccessibilityReport, DoctorReport, InputReport, PlatformReport, PortalReport, WindowingReport,
};
use crate::scan::slices;
use crate::session::{
    bus_address, dbus_session_address, optional_text, runtime_dir, xdg_runtime_dir,
};
use crate::text_map::TextMap;

verus! {

// ---------------------------------------------------------------------------
// Platform.
// ---------------------------------------------------------------------------

/// The probe for the version of GNOME Shell.
pub fn gnome_shell_version_check() -> (r: Probe)
    ensures
        r@ == single_probe("gnome-shell"@, seq!["--version"@], false),
{
    let args = ["--version"];
    assert(slices(args@) =~= seq!["--version"@]);
    command_check("gnome-shell", &args)
}

/// Puts the report on the platform together.
pub fn platform_report(
    os: &str,
    arch: &str,
    env: &TextMap<String>,
    user_id: &Option<String>,
    bus_socket_exists: bool,
    gnome_shell_version: Check,
) -> (r: PlatformReport)
    ensures
        r.os@ == os@,
        r.arch@ == arch@,
        optional_text(r.desktop_session) == setting(variables(env), "DESKTOP_SESSION"@),
        optional_text(r.xdg_session_type) == setting(variables(env), "XDG_SESSION_TYPE"@),
        optional_text(r.xdg_current_desktop) == setting(variables(env), "XDG_CURRENT_DESKTOP"@),
        optional_text(r.wayland_display) == setting(variables(env), "WAYLAND_DISPLAY"@),
        optional_text(r.display) == setting(variables(env), "DISPLAY"@),
        optional_text(r.xauthority) == setting(variables(env), "XAUTHORITY"@),
        optional_text(r.dbus_session_bus_address) == bus_address(
            variables(env),
            optional_text(*user_id),
            bus_socket_exists,
        ),
        optional_text(r.xdg_runtime_dir) == runtime_dir(variables(env), optional_text(*user_id)),
        r.gnome_shell_version == gnome_shell_version,
{
    PlatformReport {
        os: os.to_owned(),
        arch: arch.to_owned(),
        desktop_session: env_var(env, "DESKTOP_SESSION"),
        xdg_session_type: env_var(env, "XDG_SESSION_TYPE"),
        xdg_current_desktop: env_var(env, "XDG_CURRENT_DESKTOP"),
        wayland_display: env_var(env, "WAYLAND_DISPLAY"),
        display: env_var(env, "DISPLAY"),
        xauthority: env_var(env, "XAUTHORITY"),
        dbus_session_bus_address: dbus_session_address(env, user_id, bus_socket_exists),
        xdg_runtime_dir: xdg_runtime_dir(env, user_id),
        gnome_shell_version,
    }
}

// ---------------------------------------------------------------------------
// Portals.
// ---------------------------------------------------------------------------

/// The probes of the portals, in the order of the report's fields.
pub open spec fn portal_probes() -> Seq<ProbeState> {
    seq![
        bus_name_probe("org.freedesktop.portal.Desktop"@),
        portal_interface_probe("org.freedesktop.portal.RemoteDesktop"@),
        portal_interface_probe("org.freedesktop.portal.ScreenCast"@),
        portal_interface_probe("org.freedesktop.portal.Screenshot"@),
        portal_interface_probe("org.freedesktop.portal.InputCapture"@),
        bus_name_probe("org.gnome.Mutter.RemoteDesktop"@),
        bus_name_probe("org.gnome.Mutter.ScreenCast"@),
    ]
}

/// What each check of the portals is about: the portal itself, the interfaces that
/// it may offer, and what GNOME has in their place.
pub proof fn portals_are_probed_by_name()
    ensures
        portal_probes().len() == 7,
        portal_probes()[0]->remaining[0].args.last() == "org.freedesktop.portal.Desktop"@,
        portal_probes()[1]->remaining[0].args.last() == "org.freedesktop.portal.RemoteDesktop"@,
        portal_probes()[2]->remaining[0].args.last() == "org.freedesktop.portal.ScreenCast"@,
        portal_probes()[3]->remaining[0].args.last() == "org.freedesktop.portal.Screenshot"@,
        portal_probes()[4]->remaining[0].args.last() == "org.freedesktop.portal.InputCapture"@,
        portal_probes()[5]->remaining[0].args.last() == "org.gnome.Mutter.RemoteDesktop"@,
        portal_probes()[6]->remaining[0].args.last() == "org.gnome.Mutter.ScreenCast"@,
{
}

/// The survey of the portals.
pub fn portal_survey() -> (r: Survey)
    ensures
        r@ == (SurveyState { pending: portal_probes(), found: seq![] }),
{
    let mut probes: Vec<Probe> = Vec::new();
    probes.push(bus_name_check("org.freedesktop.portal.Desktop"));
    probes.push(portal_interface_check("org.freedesktop.portal.RemoteDesktop"));
    probes.push(portal_interface_check("org.freedesktop.portal.ScreenCast"));
    probes.push(portal_interface_check("org.freedesktop.portal.Screenshot"));
    probes.push(portal_interface_check("org.freedesktop.portal.InputCapture"));
    probes.push(bus_name_check("org.gnome.Mutter.RemoteDesktop"));
    probes.push(bus_name_check("org.gnome.Mutter.ScreenCast"));
    assert(probe_states(probes@) =~= portal_probes());
    Survey::of(probes)
}

/// Puts the report on the portals together from the checks of their survey;
/// none where there is not one check for each probe.
pub fn portal_report(checks: &Vec<Check>) -> (r: Option<PortalReport>)
    ensures
        r is Some <==> checks@.len() == portal_probes().len(),
        r matches Some(report) ==> {
            &&& report.desktop_portal == checks@[0]
            &&& report.remote_desktop == checks@[1]
            &&& report.screencast == checks@[2]
            &&& report.screenshot == checks@[3]
            &&& report.input_capture == checks@[4]
            &&& report.mutter_remote_desktop == checks@[5]
            &&& report.mutter_screencast == checks@[6]
        },
{
    if checks.len() != 7 {
        return None;
    }
    Some(
        PortalReport {
            desktop_portal: checks[0].clone(),
            remote_desktop: checks[1].clone(),
            screencast: checks[2].clone(),
            screenshot: checks[3].clone(),
            input_capture: checks[4].clone(),
            mutter_remote_desktop: checks[5].clone(),
            mutter_screencast: checks[6].clone(),
        },
    )
}

// ---------------------------------------------------------------------------
// Accessibility.
// ---------------------------------------------------------------------------

/// The probes of accessibility, in the order of the report's fields.
pub open spec fn accessibility_probes() -> Seq<ProbeState> {
    seq![
        atspi_bus_probe(),
        single_probe(
            "gsettings"@,
            seq!["get"@, "org.gnome.desktop.interface"@, "toolkit-accessibility"@],
            true,
        ),
        atspi_status_probe("IsEnabled"@),
        atspi_status_probe("ScreenReaderEnabled"@),
    ]
}

/// What each check of accessibility is about: the bus, the setting of GNOME, and the
/// two switches of the accessibility status.
pub proof fn accessibility_is_probed_by_name()
    ensures
        accessibility_probes().len() == 4,
        accessibility_probes()[0] == atspi_bus_probe(),
        accessibility_probes()[1]->remaining[0].program == "gsettings"@,
        accessibility_probes()[1]->remaining[0].args.last() == "toolkit-accessibility"@,
        accessibility_probes()[2]->remaining[0].args.last() == "IsEnabled"@,
        accessibility_probes()[3]->remaining[0].args.last() == "ScreenReaderEnabled"@,
{
}

/// The survey of accessibility.
pub fn accessibility_survey() -> (r: Survey)
    ensures
        r@ == (SurveyState { pending: accessibility_probes(), found: seq![] }),
{
    let args = ["get", "org.gnome.desktop.interface", "toolkit-accessibility"];
    assert(slices(args@) =~= seq![
        "get"@,
        "org.gnome.desktop.interface"@,
        "toolkit-accessibility"@,
    ]);
    let mut probes: Vec<Probe> = Vec::new();
    probes.push(atspi_bus_address_check());
    probes.push(command_check_with_session_bus("gsettings", &args));
    probes.push(atspi_status_property_check("IsEnabled"));
    probes.push(atspi_status_property_check("ScreenReaderEnabled"));
    assert(probe_states(probes@) =~= accessibility_probes());
    Survey::of(probes)
}

/// Puts the report on accessibility together from the checks of its survey;
/// none where there is not one check for each probe.
pub fn accessibility_report(checks: &Vec<Check>) -> (r: Option<AccessibilityReport>)
    ensures
        r is Some <==> checks@.len() == accessibility_probes().len(),
        r matches Some(report) ==> {
            &&& report.at_spi_bus == checks@[0]
            &&& report.toolkit_accessibility == checks@[1]
            &&& report.at_spi_enabled == checks@[2]
            &&& report.screen_reader_enabled == checks@[3]
        },
{
    if checks.len() != 4 {
        return None;
    }
    Some(
        AccessibilityReport {
            at_spi_bus: checks[0].clone(),
            toolkit_accessibility: checks[1].clone(),
            at_spi_enabled: checks[2].clone(),
            screen_reader_enabled: checks[3].clone(),
        },
    )
}

// ---------------------------------------------------------------------------
// Input.
// ---------------------------------------------------------------------------

/// The probes of ydotool: whether it is installed, and whether its daemon runs.
pub open spec fn input_probes() -> Seq<ProbeState> {
    seq![
        single_probe("sh"@, seq!["-c"@, "command -v "@ + "ydotool"@], false),
        single_probe("pgrep"@, seq!["-a"@, "ydotoold"@], false),
    ]
}

/// The survey of ydotool.
pub fn input_survey() -> (r: Survey)
    ensures
        r@ == (SurveyState { pending: input_probes(), found: seq![] }),
{
    let mut probes: Vec<Probe> = Vec::new();
    probes.push(command_path_check("ydotool"));
    probes.push(process_check("ydotoold"));
    assert(probe_states(probes@) =~= input_probes());
    Survey::of(probes)
}

/// Puts the report on input together from the checks of its survey, the check
/// of the daemon's socket and that of the input device; none where there is not
/// one check for each probe.
pub fn input_report(checks: &Vec<Check>, ydotool_socket: Check, uinput: Check) -> (r: Option<
    InputReport,
>)
    ensures
        r is Some <==> checks@.len() == input_probes().len(),
        r matches Some(report) ==> {
            &&& report.ydotool == checks@[0]
            &&& report.ydotoold == checks@[1]
            &&& report.ydotool_socket == ydotool_socket
            &&& report.uinput == uinput
        },
{
    if checks.len() != 2 {
        return None;
    }
    Some(
        InputReport {
            ydotool: checks[0].clone(),
            ydotoold: checks[1].clone(),
            ydotool_socket,
            uinput,
        },
    )
}

// ---------------------------------------------------------------------------
// The whole report.
// ---------------------------------------------------------------------------

/// What a report concludes follows from what it found.
pub open spec fn conclusive(report: DoctorReport, missing_hints: Seq<Seq<char>>) -> bool {
    &&& tells_readiness(
        report.readiness,
        report.platform,
        report.portals,
        report.accessibility,
        report.windowing,
        report.input,
        missing_hints,
    )
    &&& maps_capabilities(
        report.capabilities,
        report.platform,
        report.portals,
        report.accessibility,
        report.windowing,
        report.input,
    )
}

/// Puts the doctor's report together: what was found, what it amounts to, and
/// which backends it leaves.
pub fn doctor_report(
    platform: PlatformReport,
    portals: PortalReport,
    accessibility: AccessibilityReport,
    windowing: WindowingReport,
    input: InputReport,
    missing_hints: &Vec<&str>,
) -> (r: DoctorReport)
    ensures
        r.platform == platform,
        r.portals == portals,
        r.accessibility == accessibility,
        r.windowing == windowing,
        r.input == input,
        conclusive(r, slices(missing_hints@)),
{
    let readiness = readiness_report(
        &platform,
        &portals,
        &accessibility,
        &windowing,
        &input,
        missing_hints,
    );
    let capabilities = capability_map(&platform, &portals, &accessibility, &windowing, &input);
    DoctorReport { platform, portals, accessibility, windowing, input, readiness, capabilities }
}

} // verus!
