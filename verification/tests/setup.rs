use computer_use_linux::atspi::{
    desktop_family, enable_atspi, enable_atspi_gnome, enable_atspi_kde, enable_atspi_xfce,
    DesktopFamily,
};
use computer_use_linux::capability::capability_map;
use computer_use_linux::check::Check;
use computer_use_linux::command::{
    command_spec, run_command, CommandOutcome, CommandOutput, CommandSpec, Probe, Survey,
};
use computer_use_linux::doctor::{
    accessibility_report, accessibility_survey, doctor_report, gnome_shell_version_check,
    input_report, input_survey, platform_report, portal_report, portal_survey,
};
use computer_use_linux::probes::{
    atspi_bus_address_check, atspi_status_property_check, bus_name_check, command_path_check,
    gdbus_call_check, portal_interface_check, process_check,
};
use computer_use_linux::readiness::{is_cosmic_wayland_platform, READY};
use computer_use_linux::report::{
    AccessibilityReport, DoctorReport, InputReport, PlatformReport, PortalReport, WindowingReport,
};
use computer_use_linux::setup::setup_accessibility_report;
use computer_use_linux::text_map::TextMap;
use computer_use_linux::windowing::{
    backend_check, check_from_backend_probe, windowing_report, BackendProbe, WindowBackendIds,
};
use computer_use_linux::ydotool::{
    add_user_to_input_group, enable_ydotoold_service, reload_udev_rules, setup_ydotool_report,
    user_in_input_group, write_file_with_pkexec, ydotool_setup_message, GroupJoin, PipedOutcome,
    SetupAnswer, SetupRequest, UdevReload, YdotoolSetup,
};

fn exited(success: bool, stdout: &str, stderr: &str) -> CommandOutcome {
    CommandOutcome::Exited(CommandOutput {
        success,
        status: if success {
            "exit status: 0".to_string()
        } else {
            "exit status: 1".to_string()
        },
        stdout: stdout.as_bytes().to_vec(),
        stderr: stderr.as_bytes().to_vec(),
    })
}

fn good(stdout: &str) -> CommandOutcome {
    exited(true, stdout, "")
}

fn bad(stderr: &str) -> CommandOutcome {
    exited(false, "", stderr)
}

fn absent() -> CommandOutcome {
    CommandOutcome::NotStarted("No such file".to_string())
}

fn line(command: &CommandSpec) -> String {
    let mut words = vec![command.program.as_str()];
    words.extend(command.args.iter().map(String::as_str));
    words.join(" ")
}

fn variables(entries: &[(&str, &str)]) -> TextMap<String> {
    let mut map = TextMap::new();
    for (key, value) in entries {
        map.insert(key.to_string(), value.to_string());
    }
    map
}

// Commands, probes, surveys.

#[test]
fn outcome_of_a_command_is_summed_up() {
    let detail = |outcome: &CommandOutcome| {
        let check = run_command(outcome);
        (check.ok, check.detail)
    };
    assert_eq!(detail(&good(" fine \n")), (true, "fine".to_string()));
    assert_eq!(detail(&good("\n")), (true, "ok".to_string()));
    assert_eq!(
        detail(&exited(false, "out", " err ")),
        (false, "err".to_string())
    );
    assert_eq!(
        detail(&exited(false, "out\n", " ")),
        (false, "out".to_string())
    );
    assert_eq!(
        detail(&exited(false, "", "")),
        (false, "exit status exit status: 1".to_string())
    );
    assert_eq!(detail(&absent()), (false, "No such file".to_string()));
}

#[test]
fn first_success_settles_a_probe() {
    let probe = Probe::of_or_else(
        vec![
            command_spec("a", &[], false),
            command_spec("b", &["x"], true),
        ],
        "neither",
    );
    assert_eq!(line(probe.command().unwrap()), "a");
    let probe = probe.record(&bad("no"));
    assert_eq!(line(probe.command().unwrap()), "b x");
    assert!(probe.command().unwrap().session_bus);
    let probe = probe.record(&good("yes"));
    assert!(probe.command().is_none());
    assert_eq!(probe.verdict().unwrap().detail, "yes");
}

#[test]
fn failures_exhaust_a_probe() {
    let commands = || vec![command_spec("a", &[], false), command_spec("b", &[], false)];
    let worded = Probe::of_or_else(commands(), "neither")
        .record(&bad("1"))
        .record(&bad("2"));
    assert_eq!(worded.verdict().unwrap().detail, "neither");
    let plain = Probe::of(commands()).record(&bad("1")).record(&bad("2"));
    assert_eq!(plain.verdict().unwrap().detail, "2");
    assert!(!plain.verdict().unwrap().ok);
}

#[test]
fn survey_answers_every_probe() {
    let survey = Survey::of(vec![
        Probe::of(vec![
            command_spec("a", &[], false),
            command_spec("b", &[], false),
        ]),
        Probe::of(vec![command_spec("c", &[], false)]),
    ]);
    assert_eq!(line(survey.command().unwrap()), "a");
    let survey = survey.record(&bad("1"));
    assert_eq!(line(survey.command().unwrap()), "b");
    let survey = survey.record(&good("2"));
    assert_eq!(line(survey.command().unwrap()), "c");
    let survey = survey.record(&bad("3"));
    assert!(survey.command().is_none());
    let checks = survey.checks();
    assert_eq!(checks.len(), 2);
    assert_eq!((checks[0].ok, checks[0].detail.as_str()), (true, "2"));
    assert_eq!((checks[1].ok, checks[1].detail.as_str()), (false, "3"));
}

#[test]
fn probes_run_their_commands() {
    let first = |probe: &Probe| line(probe.command().unwrap());
    assert_eq!(first(&command_path_check("tool")), "sh -c command -v tool");
    assert_eq!(first(&process_check("daemon")), "pgrep -a daemon");
    assert_eq!(first(&bus_name_check("org.x")), "busctl --user status org.x");
    assert!(bus_name_check("org.x").command().unwrap().session_bus);
    assert_eq!(
        first(&portal_interface_check("org.y")),
        "busctl --user introspect org.freedesktop.portal.Desktop /org/freedesktop/portal/desktop org.y"
    );
    let bus = atspi_bus_address_check();
    assert_eq!(
        first(&bus),
        "busctl --user call org.a11y.Bus /org/a11y/bus org.a11y.Bus GetAddress"
    );
    assert_eq!(
        first(&bus.record(&absent())),
        "gdbus call --session --dest org.a11y.Bus --object-path /org/a11y/bus --method org.a11y.Bus.GetAddress"
    );
    let status = atspi_status_property_check("IsEnabled").record(&absent());
    assert_eq!(
        first(&status),
        "gdbus call --session --dest org.a11y.Bus --object-path /org/a11y/bus \
         --method org.freedesktop.DBus.Properties.Get org.a11y.Status IsEnabled"
    );
    assert_eq!(
        line(&gdbus_call_check("d", "/o", "m", &["1", "2"])),
        "gdbus call --session --dest d --object-path /o --method m 1 2"
    );
    assert_eq!(first(&gnome_shell_version_check()), "gnome-shell --version");
}

// Reports.

fn run(mut survey: Survey, outcome: &CommandOutcome) -> Vec<Check> {
    while survey.command().is_some() {
        survey = survey.record(outcome);
    }
    survey.checks()
}

fn platform(desktop: &str, session: &str, gnome: bool) -> PlatformReport {
    platform_report(
        "linux",
        "x86_64",
        &variables(&[
            ("XDG_CURRENT_DESKTOP", desktop),
            ("XDG_SESSION_TYPE", session),
            ("DISPLAY", ":0"),
        ]),
        &Some("1000".to_string()),
        true,
        if gnome {
            Check::ok("GNOME Shell 46")
        } else {
            Check::fail("absent")
        },
    )
}

fn ids() -> WindowBackendIds {
    WindowBackendIds {
        gnome_shell_introspect: "introspect",
        gnome_shell_extension: "extension",
        cosmic_wayland: "cosmic",
        kwin: "kwin",
        hyprland: "hyprland",
    }
}

fn backend(id: &'static str, ok: bool) -> BackendProbe {
    BackendProbe {
        id,
        ok,
        can_list_windows: ok,
        can_focus_apps: ok,
        can_focus_windows: ok,
        detail: format!("{id} {ok}"),
    }
}

fn windows(ok: bool) -> WindowingReport {
    windowing_report(
        &platform("GNOME", "wayland", true),
        &ids(),
        &vec![backend("kwin", ok)],
    )
}

fn doctor(tree: bool, uinput: bool, daemon: bool, installed: bool) -> DoctorReport {
    let check = |ok| {
        if ok {
            Check::ok("true")
        } else {
            Check::fail("no")
        }
    };
    doctor_report(
        platform("GNOME", "wayland", true),
        portal_report(&run(portal_survey(), &bad("no"))).unwrap(),
        AccessibilityReport {
            at_spi_bus: Check::ok("bus"),
            toolkit_accessibility: Check::fail("no"),
            at_spi_enabled: check(tree),
            screen_reader_enabled: Check::fail("no"),
        },
        windows(true),
        InputReport {
            ydotool: check(installed),
            ydotoold: check(daemon),
            ydotool_socket: check(daemon),
            uinput: check(uinput),
        },
        &vec![],
    )
}

#[test]
fn platform_is_told_from_the_environment() {
    let report = platform("COSMIC", "wayland", false);
    assert_eq!(report.os, "linux");
    assert_eq!(report.arch, "x86_64");
    assert_eq!(report.display.as_deref(), Some(":0"));
    assert_eq!(report.desktop_session, None);
    assert_eq!(
        report.dbus_session_bus_address.as_deref(),
        Some("unix:path=/run/user/1000/bus")
    );
    assert_eq!(report.xdg_runtime_dir.as_deref(), Some("/run/user/1000"));
    assert!(is_cosmic_wayland_platform(&report));
    assert!(is_cosmic_wayland_platform(&platform("pop:Cosmic", "wayland", false)));
    assert!(!is_cosmic_wayland_platform(&platform("COSMIC", "x11", false)));
    assert!(!is_cosmic_wayland_platform(&platform("GNOME", "wayland", true)));
}

#[test]
fn surveys_fill_the_reports() {
    let portals = portal_report(&run(portal_survey(), &good("found"))).unwrap();
    assert_eq!(portals.desktop_portal.detail, "found");
    assert!(portals.mutter_screencast.ok);
    let access = accessibility_report(&run(accessibility_survey(), &bad("gone"))).unwrap();
    assert!(!access.at_spi_bus.ok);
    assert_eq!(access.screen_reader_enabled.detail, "gone");
    let input = input_report(
        &run(input_survey(), &good("/usr/bin/ydotool")),
        Check::fail("socket"),
        Check::ok("device"),
    )
    .unwrap();
    assert_eq!(input.ydotool.detail, "/usr/bin/ydotool");
    assert!(input.ydotoold.ok && !input.ydotool_socket.ok && input.uinput.ok);
    assert!(portal_report(&vec![]).is_none());
    assert!(accessibility_report(&vec![Check::ok("")]).is_none());
    assert!(input_report(&vec![], Check::ok(""), Check::ok("")).is_none());
}

#[test]
fn surveys_ask_in_the_order_of_the_fields() {
    let mut survey = portal_survey();
    let mut asked = Vec::new();
    while let Some(command) = survey.command() {
        asked.push(command.args.last().unwrap().clone());
        survey = survey.record(&good(""));
    }
    assert_eq!(
        asked,
        vec![
            "org.freedesktop.portal.Desktop",
            "org.freedesktop.portal.RemoteDesktop",
            "org.freedesktop.portal.ScreenCast",
            "org.freedesktop.portal.Screenshot",
            "org.freedesktop.portal.InputCapture",
            "org.gnome.Mutter.RemoteDesktop",
            "org.gnome.Mutter.ScreenCast",
        ]
    );
}

#[test]
fn window_backends_are_summed_up() {
    let probes = vec![
        backend("kwin", true),
        backend("introspect", false),
        backend("kwin", false),
        backend("cosmic", true),
    ];
    assert_eq!(check_from_backend_probe(&probes[1]).detail, "introspect false");
    assert!(backend_check(&probes, "kwin").ok);
    assert_eq!(
        backend_check(&probes, "hyprland").detail,
        "backend probe did not run"
    );
    let gnome = platform("GNOME", "wayland", true);
    let report = windowing_report(&gnome, &ids(), &probes);
    assert!(report.kwin.ok && report.cosmic_helper.ok && !report.hyprland.ok);
    assert_eq!(report.backends.len(), 3);
    assert_eq!(report.backends.get("kwin").unwrap().detail, "kwin false");
    assert!(report.can_list_windows && report.can_focus_apps && report.can_focus_windows);
    assert!(report.note.starts_with("A KWin/Plasma window backend"));

    let note = |platform: &PlatformReport, probes| {
        windowing_report(platform, &ids(), &probes).note
    };
    let cosmic = platform("COSMIC", "wayland", false);
    assert!(note(&cosmic, probes).starts_with("A COSMIC Wayland window backend"));
    assert!(note(&gnome, vec![backend("hyprland", true)]).starts_with("A Hyprland window"));
    assert!(note(&gnome, vec![backend("extension", true)]).starts_with("A GNOME window listing"));
    assert!(note(&gnome, vec![]).starts_with("Window listing is unavailable or denied."));
}

#[test]
fn capabilities_follow_from_the_reports() {
    let input = |socket, uinput| InputReport {
        ydotool: Check::fail(""),
        ydotoold: Check::fail(""),
        ydotool_socket: socket,
        uinput,
    };
    let portals = |outcome: &CommandOutcome| -> PortalReport {
        portal_report(&run(portal_survey(), outcome)).unwrap()
    };
    let access = accessibility_report(&run(accessibility_survey(), &good(""))).unwrap();
    let map = capability_map(
        &platform("GNOME", "wayland", true),
        &portals(&good("")),
        &access,
        &windows(true),
        &input(Check::ok(""), Check::ok("")),
    );
    assert_eq!(map.input, vec!["abs_pointer", "portal", "ydotool"]);
    assert_eq!(map.screenshot, vec!["gnome_shell", "portal"]);
    assert_eq!(map.window_control, vec!["kwin"]);
    assert_eq!(map.accessibility, vec!["at_spi"]);
    assert_eq!(map.isolation, vec!["shared", "headless_gnome"]);
    assert_eq!(map.preferred.input.as_deref(), Some("abs_pointer"));
    assert_eq!(map.preferred.screenshot.as_deref(), Some("gnome_shell"));
    assert_eq!(map.preferred.window_control.as_deref(), Some("kwin"));

    let access = accessibility_report(&run(accessibility_survey(), &bad(""))).unwrap();
    let map = capability_map(
        &platform("KDE", "x11", false),
        &portals(&bad("")),
        &access,
        &windows(false),
        &input(Check::fail(""), Check::fail("")),
    );
    assert!(map.input.is_empty() && map.screenshot.is_empty() && map.window_control.is_empty());
    assert!(map.accessibility.is_empty());
    assert_eq!(map.isolation, vec!["shared"]);
    assert_eq!(map.preferred.input, None);
}

#[test]
fn doctor_calls_a_complete_machine_ready() {
    let report = doctor(true, true, false, false);
    assert_eq!(report.readiness.recommended_next_step, READY);
    assert!(report.readiness.blockers.is_empty());
    assert_eq!(report.capabilities.preferred.input.as_deref(), Some("abs_pointer"));
    let report = doctor(false, false, false, false);
    assert_eq!(report.readiness.blockers.len(), 2);
}

// Accessibility.

#[test]
fn desktop_family_is_told_by_name() {
    let family = |entries: &[(&str, &str)]| desktop_family(&variables(entries));
    assert_eq!(family(&[("XDG_CURRENT_DESKTOP", "KDE")]), DesktopFamily::Kde);
    assert_eq!(family(&[("DESKTOP_SESSION", "plasmax11")]), DesktopFamily::Kde);
    assert_eq!(family(&[("XDG_CURRENT_DESKTOP", "XFCE")]), DesktopFamily::Xfce);
    assert_eq!(
        family(&[("XDG_CURRENT_DESKTOP", "GNOME"), ("DESKTOP_SESSION", "xfce")]),
        DesktopFamily::Gnome
    );
    assert_eq!(family(&[]), DesktopFamily::Gnome);
}

#[test]
fn desktop_settings_use_their_tools() {
    let first = |probe: &Probe| line(probe.command().unwrap());
    assert_eq!(
        first(&enable_atspi_gnome()),
        "gsettings set org.gnome.desktop.interface toolkit-accessibility true"
    );
    let kde = enable_atspi_kde();
    assert!(first(&kde).starts_with("kwriteconfig6 --file kdeglobals"));
    let kde = kde.record(&absent());
    assert!(first(&kde).starts_with("kwriteconfig5 --file kdeglobals"));
    assert!(kde.record(&absent()).verdict().unwrap().detail.starts_with("kwriteconfig6 and"));
    let xfce = enable_atspi_xfce();
    assert!(first(&xfce).ends_with("--set true"));
    assert!(first(&xfce.record(&bad("missing"))).contains("--create --type bool"));
}

#[test]
fn every_method_is_tried_in_order() {
    let mut work = enable_atspi(&variables(&[("XDG_CURRENT_DESKTOP", "KDE")]));
    let mut programs = Vec::new();
    while let Some(command) = work.command() {
        programs.push(command.program.clone());
        let words = format!("{} failed", command.program);
        work = work.record(&bad(&words));
    }
    assert_eq!(
        programs,
        vec![
            "busctl",
            "systemctl",
            "kwriteconfig6",
            "kwriteconfig5",
            "gsettings",
            "kwriteconfig6",
            "kwriteconfig5",
            "xfconf-query",
            "xfconf-query",
        ]
    );
    let verdict = work.verdict().unwrap();
    assert!(!verdict.ok);
    assert_eq!(
        verdict.detail,
        "All AT-SPI enable methods failed. busctl: busctl failed; systemctl: systemctl failed; \
         kwriteconfig6 and kwriteconfig5 both unavailable or failed; is ydotool / kde-cli-tools installed?"
    );
}

#[test]
fn success_of_a_method_is_reported() {
    let work = enable_atspi(&variables(&[])).record(&bad("1")).record(&good("started"));
    assert!(work.command().is_none());
    assert_eq!(work.verdict().unwrap().detail, "started");
}

#[test]
fn readable_tree_needs_no_setup() {
    let setup = setup_accessibility_report(doctor(true, true, false, false), &variables(&[]));
    assert!(setup.command().is_none());
    let report = setup.report(doctor(true, true, false, false)).unwrap();
    assert!(report.accessibility_command.ok);
    assert_eq!(
        report.accessibility_command.detail,
        "AT-SPI accessibility is already enabled"
    );
    assert!(!report.changed_accessibility && !report.requires_target_app_restart);
    assert_eq!(report.message, "AT-SPI accessibility is ready.");
}

#[test]
fn setup_tells_whether_accessibility_changed() {
    let start = || setup_accessibility_report(doctor(false, true, false, false), &variables(&[]));
    let setup = start();
    assert_eq!(setup.command().unwrap().program, "busctl");
    assert!(start().report(doctor(true, true, false, false)).is_none());
    let report = setup
        .record(&good(""))
        .report(doctor(true, true, false, false))
        .unwrap();
    assert!(report.changed_accessibility && report.requires_target_app_restart);
    assert!(report.message.starts_with("AT-SPI accessibility is enabled. Restart"));
    let report = start()
        .record(&good(""))
        .report(doctor(false, true, false, false))
        .unwrap();
    assert!(!report.changed_accessibility);
    assert!(report.message.starts_with("Could not enable AT-SPI accessibility automatically."));
}

// ydotool.

fn request(setup: &YdotoolSetup) -> String {
    match setup.request() {
        SetupRequest::PathExists(path) => format!("exists {path}"),
        SetupRequest::Write(write) => format!("{} <{}>", line(&write.command), write.input),
        SetupRequest::Run(command) => line(&command),
        SetupRequest::Nothing => "nothing".to_string(),
    }
}

fn ran(outcome: CommandOutcome) -> SetupAnswer {
    SetupAnswer::Run(outcome)
}

#[test]
fn whole_setup_is_walked_through() {
    let setup = setup_ydotool_report(doctor(true, false, false, true));
    assert_eq!(request(&setup), "exists /etc/udev/rules.d/70-uinput.rules");
    let setup = setup.answer(&SetupAnswer::PathExists(false));
    assert_eq!(
        request(&setup),
        "pkexec tee /etc/udev/rules.d/70-uinput.rules \
         <KERNEL==\"uinput\", GROUP=\"input\", MODE=\"0660\"\n>"
    );
    let wrote = PipedOutcome::Exited(CommandOutput {
        success: true,
        status: String::new(),
        stdout: Vec::new(),
        stderr: Vec::new(),
    });
    let setup = setup.answer(&SetupAnswer::Write(wrote));
    assert_eq!(request(&setup), "id");
    let setup = setup.answer(&ran(good("uid=1000(u) groups=1000(u)")));
    assert_eq!(request(&setup), "id -un");
    let setup = setup.answer(&ran(good("u\n")));
    assert_eq!(request(&setup), "pkexec usermod -aG input u");
    let setup = setup.answer(&ran(good("")));
    assert_eq!(request(&setup), "pkexec udevadm control --reload-rules");
    let setup = setup.answer(&ran(good("")));
    assert_eq!(request(&setup), "pkexec udevadm trigger --subsystem-match=misc");
    let setup = setup.answer(&ran(good("")));
    assert_eq!(request(&setup), "systemctl --user enable --now ydotoold");
    let setup = setup.answer(&ran(good("")));
    assert_eq!(request(&setup), "nothing");
    let report = setup.report(doctor(true, true, true, true)).unwrap();
    assert!(report.ydotool_installed);
    assert_eq!(
        report.udev_rule.detail,
        "wrote /etc/udev/rules.d/70-uinput.rules"
    );
    assert_eq!(report.group_membership.detail, "added u to the input group");
    assert_eq!(
        report.udev_reload.detail,
        "udev rules reloaded and misc subsystem triggered"
    );
    assert_eq!(
        report.ydotoold_service.detail,
        "ydotoold user service enabled and started"
    );
    assert!(report.requires_relogin);
    assert_eq!(
        report.message,
        "Log out and back in for the new input group membership to take effect."
    );
}

#[test]
fn accessible_device_is_left_alone() {
    let setup = setup_ydotool_report(doctor(true, true, true, true));
    assert_eq!(request(&setup), "id");
    let setup = setup.answer(&ran(good("groups=995(input)")));
    assert_eq!(request(&setup), "nothing");
    let report = setup.report(doctor(true, true, true, true)).unwrap();
    assert_eq!(
        report.udev_rule.detail,
        "/dev/uinput is already accessible; udev rule not needed"
    );
    assert_eq!(
        report.group_membership.detail,
        "user is already in the input group"
    );
    assert!(report.udev_reload.detail.starts_with("udev reload skipped"));
    assert_eq!(
        report.ydotoold_service.detail,
        "ydotoold is already running with a connectable socket"
    );
    assert!(!report.requires_relogin);
    assert!(report.message.starts_with("ydotool setup complete"));
}

#[test]
fn missing_ydotool_ends_the_setup() {
    let setup = setup_ydotool_report(doctor(true, false, false, false))
        .answer(&SetupAnswer::PathExists(true));
    let setup = setup.answer(&ran(absent()));
    assert_eq!(request(&setup), "id -un");
    let setup = setup.answer(&ran(bad("")));
    assert_eq!(request(&setup), "pkexec udevadm control --reload-rules");
    let setup = setup.answer(&ran(absent()));
    let report = setup.report(doctor(true, false, false, false)).unwrap();
    assert!(!report.ydotool_installed);
    assert_eq!(
        report.udev_rule.detail,
        "/etc/udev/rules.d/70-uinput.rules already exists"
    );
    assert_eq!(
        report.group_membership.detail,
        "could not determine current username via id -un"
    );
    assert_eq!(report.udev_reload.detail, "pkexec udevadm control: No such file");
    assert!(report.ydotoold_service.detail.starts_with("ydotool is not installed"));
    assert!(!report.requires_relogin);
    assert_eq!(
        report.message,
        "Install ydotool first, then call setup_ydotool again."
    );
}

#[test]
fn refused_rule_is_not_reloaded() {
    let setup = setup_ydotool_report(doctor(true, false, false, true))
        .answer(&SetupAnswer::PathExists(false))
        .answer(&SetupAnswer::Write(PipedOutcome::NotStarted("gone".to_string())))
        .answer(&ran(good("(input)")));
    assert_eq!(request(&setup), "systemctl --user enable --now ydotoold");
    let unasked = setup.answer(&SetupAnswer::PathExists(true));
    assert_eq!(request(&unasked), "systemctl --user enable --now ydotoold");
    let report = unasked
        .answer(&ran(absent()))
        .report(doctor(true, false, false, true))
        .unwrap();
    assert_eq!(report.udev_rule.detail, "pkexec not available: gone");
    assert_eq!(
        report.ydotoold_service.detail,
        "systemctl not available: No such file"
    );
    assert!(report.message.starts_with("ydotoold service could not be started"));
}

#[test]
fn steps_tell_what_went_wrong() {
    let failed = |stderr: &str| {
        PipedOutcome::Exited(CommandOutput {
            success: false,
            status: "exit status: 126".to_string(),
            stdout: Vec::new(),
            stderr: stderr.as_bytes().to_vec(),
        })
    };
    assert_eq!(
        write_file_with_pkexec("/f", &failed(" dismissed\n")).detail,
        "pkexec tee /f failed (exit status: 126): dismissed"
    );
    assert_eq!(
        write_file_with_pkexec("/f", &PipedOutcome::Lost("killed".to_string())).detail,
        "pkexec tee /f: killed"
    );
    assert_eq!(
        enable_ydotoold_service(&bad("no unit")).detail,
        "systemctl --user enable --now ydotoold failed (exit status: 1): no unit"
    );
    assert!(user_in_input_group(&exited(false, "x(input)y", "")));
    assert!(!user_in_input_group(&good("(inputs)")));

    let settled = |join: GroupJoin| match join {
        GroupJoin::Settled(check) => check.detail,
        other => panic!("{other:?}"),
    };
    assert_eq!(
        settled(add_user_to_input_group().record(&good(" \n"))),
        "id -un returned an empty username"
    );
    assert_eq!(
        settled(add_user_to_input_group().record(&good("u")).record(&bad("denied"))),
        "pkexec usermod -aG input u failed (exit status: 1): denied"
    );
    assert_eq!(
        settled(add_user_to_input_group().record(&good("u")).record(&absent())),
        "pkexec not available: No such file"
    );

    let reloaded = |reload: UdevReload| match reload {
        UdevReload::Settled(check) => check.detail,
        other => panic!("{other:?}"),
    };
    assert_eq!(
        reloaded(reload_udev_rules().record(&bad("x"))),
        "udevadm control --reload-rules failed (exit status: 1): x"
    );
    assert_eq!(
        reloaded(reload_udev_rules().record(&good("")).record(&bad("y"))),
        "udevadm trigger --subsystem-match=misc failed (exit status: 1): y"
    );
    assert_eq!(
        reloaded(reload_udev_rules().record(&good("")).record(&absent())),
        "pkexec udevadm trigger: No such file"
    );
}

#[test]
fn message_lists_what_is_left_to_do() {
    let after = doctor(true, false, false, true);
    assert_eq!(
        ydotool_setup_message(&after, &Check::fail(""), true, true),
        "Log out and back in for the new input group membership to take effect. \
         ydotoold service could not be started; run: systemctl --user enable --now ydotoold"
    );
    assert!(ydotool_setup_message(&after, &Check::ok(""), true, false)
        .starts_with("Setup steps ran but input is still not available"));
}
