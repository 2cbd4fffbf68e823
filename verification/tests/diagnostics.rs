use computer_use_linux::check::Check;
use computer_use_linux::environment::{
    parse_environ, parse_line_environment, process_env_has_graphical_display, DESKTOP_ENV_KEYS,
};
use computer_use_linux::process::parse_parent_pid;
use computer_use_linux::readiness::{can_build_accessibility_tree, readiness_report};
use computer_use_linux::report::{
    AccessibilityReport, InputReport, PlatformReport, PortalReport, WindowingReport,
};
use computer_use_linux::socket::{socket_connect_check, SocketAttempt};
use computer_use_linux::text_map::TextMap;

fn platform_report() -> PlatformReport {
    PlatformReport {
        os: "linux".to_string(),
        arch: "x86_64".to_string(),
        desktop_session: None,
        xdg_session_type: Some("wayland".to_string()),
        xdg_current_desktop: Some("GNOME".to_string()),
        wayland_display: Some("wayland-0".to_string()),
        display: Some(":0".to_string()),
        xauthority: Some("/run/user/1000/Xauthority".to_string()),
        dbus_session_bus_address: Some("unix:path=/run/user/1000/bus".to_string()),
        xdg_runtime_dir: Some("/run/user/1000".to_string()),
        gnome_shell_version: Check::ok("GNOME Shell 46.0"),
    }
}

fn portal_report(remote_desktop: Check) -> PortalReport {
    PortalReport {
        desktop_portal: Check::ok("ok"),
        remote_desktop,
        screencast: Check::fail("missing"),
        screenshot: Check::fail("missing"),
        input_capture: Check::fail("missing"),
        mutter_remote_desktop: Check::fail("missing"),
        mutter_screencast: Check::fail("missing"),
    }
}

fn accessibility_report(at_spi_bus: Check, toolkit_accessibility: Check) -> AccessibilityReport {
    AccessibilityReport {
        at_spi_bus,
        toolkit_accessibility,
        at_spi_enabled: Check::fail("(<false>,)"),
        screen_reader_enabled: Check::fail("(<false>,)"),
    }
}

fn windowing_report(can_list_windows: bool, can_focus_windows: bool) -> WindowingReport {
    WindowingReport {
        gnome_shell_introspect: if can_list_windows {
            Check::ok("ok")
        } else {
            Check::fail("denied")
        },
        codex_gnome_shell_extension: if can_focus_windows {
            Check::ok("ok")
        } else {
            Check::fail("missing")
        },
        cosmic_helper: Check::fail("missing"),
        kwin: Check::fail("not a KWin session"),
        hyprland: Check::fail("not a Hyprland session"),
        backends: TextMap::new(),
        can_list_windows,
        can_focus_apps: true,
        can_focus_windows,
        note: String::new(),
    }
}

fn input_report(can_send_input: bool) -> InputReport {
    let check = if can_send_input {
        Check::ok("ok")
    } else {
        Check::fail("missing")
    };
    input_report_parts(check.clone(), check.clone(), check.clone(), check)
}

fn input_report_parts(
    ydotool: Check,
    ydotoold: Check,
    ydotool_socket: Check,
    uinput: Check,
) -> InputReport {
    InputReport {
        ydotool,
        ydotoold,
        ydotool_socket,
        uinput,
    }
}

fn variables(entries: &[(&str, &str)]) -> TextMap<String> {
    let mut map = TextMap::new();
    for (key, value) in entries {
        map.insert(key.to_string(), value.to_string());
    }
    map
}

#[test]
fn accessibility_tree_requires_reachable_at_spi_bus() {
    let report = accessibility_report(Check::fail("permission denied"), Check::ok("true"));

    assert!(!can_build_accessibility_tree(&report));
}

#[test]
fn accessibility_tree_is_ready_when_bus_and_toolkit_are_ready() {
    let report = accessibility_report(
        Check::ok("('unix:path=/run/user/1000/at-spi/bus',)"),
        Check::ok("true"),
    );

    assert!(can_build_accessibility_tree(&report));
}

#[test]
fn parses_parent_pid_from_proc_status() {
    let status = "Name:\ttest\nPid:\t42\nPPid:\t7\n";

    assert_eq!(parse_parent_pid(status), Some(7));
}

#[test]
fn parses_nul_separated_process_environment() {
    let environment = parse_environ(
        b"DISPLAY=:0\0WAYLAND_DISPLAY=wayland-0\0EMPTY=\0NO_EQUALS\0XDG_SESSION_TYPE=wayland\0",
    );

    assert_eq!(environment.get("DISPLAY").map(String::as_str), Some(":0"));
    assert_eq!(
        environment.get("WAYLAND_DISPLAY").map(String::as_str),
        Some("wayland-0")
    );
    assert_eq!(environment.get("EMPTY").map(String::as_str), Some(""));
    assert!(!environment.contains_key("NO_EQUALS"));
}

#[test]
fn parses_systemd_show_environment_output() {
    let environment = parse_line_environment(
        b"DISPLAY=:0\nHYPRLAND_INSTANCE_SIGNATURE=abc\nNO_EQUALS\nYDOTOOL_SOCKET=/run/ydotoold/socket\n",
    );

    assert_eq!(environment.get("DISPLAY").map(String::as_str), Some(":0"));
    assert_eq!(
        environment
            .get("HYPRLAND_INSTANCE_SIGNATURE")
            .map(String::as_str),
        Some("abc")
    );
    assert_eq!(
        environment.get("YDOTOOL_SOCKET").map(String::as_str),
        Some("/run/ydotoold/socket")
    );
    assert!(!environment.contains_key("NO_EQUALS"));
}

#[test]
fn desktop_env_hydration_includes_xauthority() {
    assert!(DESKTOP_ENV_KEYS.contains(&"XAUTHORITY"));
}

#[test]
fn graphical_process_env_requires_display() {
    let with_display = variables(&[("DISPLAY", ":0")]);
    let with_wayland = variables(&[("WAYLAND_DISPLAY", "wayland-0")]);
    let without_display = variables(&[("XAUTHORITY", "/tmp/xauth")]);

    assert!(process_env_has_graphical_display(&with_display));
    assert!(process_env_has_graphical_display(&with_wayland));
    assert!(!process_env_has_graphical_display(&without_display));
}

#[test]
fn graphical_process_env_prefers_display_over_wayland() {
    let blank_display = variables(&[("DISPLAY", " "), ("WAYLAND_DISPLAY", "wayland-0")]);

    assert!(!process_env_has_graphical_display(&blank_display));
}

#[test]
fn readiness_requires_exact_window_focus_for_targeted_input() {
    let platform = platform_report();
    let accessibility = accessibility_report(Check::ok("bus"), Check::ok("true"));
    let windowing = windowing_report(true, false);
    let input = input_report(true);

    let readiness = readiness_report(
        &platform,
        &portal_report(Check::fail("missing")),
        &accessibility,
        &windowing,
        &input,
        &vec![],
    );

    assert!(readiness.can_query_windows);
    assert!(!readiness.can_focus_windows);
    assert!(readiness
        .recommended_next_step
        .contains("exact-focus window backend"));
    assert!(readiness
        .blockers
        .iter()
        .any(|blocker| blocker.contains("Exact window activation")));
}

#[test]
fn readiness_treats_kwin_as_full_window_backend() {
    let platform = platform_report();
    let accessibility = accessibility_report(Check::ok("bus"), Check::ok("true"));
    let mut windowing = windowing_report(false, false);
    windowing.kwin = Check::ok("KWin scripting is available");
    windowing.can_list_windows = true;
    windowing.can_focus_apps = true;
    windowing.can_focus_windows = true;
    let input = input_report(true);

    let readiness = readiness_report(
        &platform,
        &portal_report(Check::fail("missing")),
        &accessibility,
        &windowing,
        &input,
        &vec![],
    );

    assert!(readiness.can_query_windows);
    assert!(readiness.can_focus_apps);
    assert!(readiness.can_focus_windows);
    assert!(readiness.blockers.is_empty());
}

#[test]
fn readiness_message_mentions_generic_window_targeting() {
    let platform = platform_report();
    let accessibility = accessibility_report(Check::ok("bus"), Check::ok("true"));
    let windowing = windowing_report(true, true);
    let input = input_report(true);

    let readiness = readiness_report(
        &platform,
        &portal_report(Check::fail("missing")),
        &accessibility,
        &windowing,
        &input,
        &vec![],
    );

    assert!(readiness.blockers.is_empty());
    assert!(readiness
        .recommended_next_step
        .contains("AT-SPI tree support"));
    assert!(readiness.recommended_next_step.contains("window targeting"));
    assert!(!readiness
        .recommended_next_step
        .contains("GNOME window targeting"));
}

#[test]
fn readiness_accepts_connectable_ydotool_socket_without_direct_uinput_access() {
    let platform = platform_report();
    let accessibility = accessibility_report(Check::ok("bus"), Check::ok("true"));
    let windowing = windowing_report(true, true);
    let input = input_report_parts(
        Check::ok("ydotool"),
        Check::ok("ydotoold"),
        Check::ok("connectable: /tmp/.ydotool_socket"),
        Check::fail("/dev/uinput: Permission denied"),
    );

    let readiness = readiness_report(
        &platform,
        &portal_report(Check::fail("missing")),
        &accessibility,
        &windowing,
        &input,
        &vec![],
    );

    assert!(readiness.can_send_development_input);
    assert!(readiness.blockers.is_empty());
}

#[test]
fn readiness_accepts_direct_uinput_without_connectable_ydotool_socket() {
    let platform = platform_report();
    let accessibility = accessibility_report(Check::ok("bus"), Check::ok("true"));
    let windowing = windowing_report(true, true);
    let input = input_report_parts(
        Check::ok("ydotool"),
        Check::fail("ydotoold not running"),
        Check::fail("no connectable ydotool socket"),
        Check::ok("read/write: /dev/uinput"),
    );

    let readiness = readiness_report(
        &platform,
        &portal_report(Check::fail("missing")),
        &accessibility,
        &windowing,
        &input,
        &vec![],
    );

    assert!(readiness.can_send_development_input);
    assert!(readiness.blockers.is_empty());
}

#[test]
fn readiness_accepts_remote_desktop_portal_without_local_input_backend() {
    let platform = platform_report();
    let accessibility = accessibility_report(Check::ok("bus"), Check::ok("true"));
    let windowing = windowing_report(true, true);
    let input = input_report_parts(
        Check::fail("missing ydotool"),
        Check::fail("ydotoold not running"),
        Check::fail("no connectable ydotool socket"),
        Check::fail("/dev/uinput: Permission denied"),
    );

    let readiness = readiness_report(
        &platform,
        &portal_report(Check::ok("org.freedesktop.portal.RemoteDesktop")),
        &accessibility,
        &windowing,
        &input,
        &vec![],
    );

    assert!(readiness.can_send_development_input);
    assert!(readiness.blockers.is_empty());
}

#[test]
fn readiness_rejects_inaccessible_ydotool_paths() {
    let platform = platform_report();
    let accessibility = accessibility_report(Check::ok("bus"), Check::ok("true"));
    let windowing = windowing_report(true, true);
    let input = input_report_parts(
        Check::ok("ydotool"),
        Check::ok("ydotoold"),
        Check::fail("/tmp/.ydotool_socket: Permission denied"),
        Check::fail("/dev/uinput: Permission denied"),
    );

    let readiness = readiness_report(
        &platform,
        &portal_report(Check::fail("missing")),
        &accessibility,
        &windowing,
        &input,
        &vec![],
    );

    assert!(!readiness.can_send_development_input);
    assert!(readiness
        .recommended_next_step
        .contains("Enable a supported input backend"));
    assert!(readiness
        .blockers
        .iter()
        .any(|blocker| blocker.contains("Development input is unavailable")));
}

#[test]
fn ydotool_socket_check_requires_a_connectable_socket() {
    let check = socket_connect_check("/tmp/ydotool.sock", &SocketAttempt::Stream);
    assert!(check.ok, "{check:?}");
    assert_eq!(check.detail, "connectable: /tmp/ydotool.sock");

    let missing = socket_connect_check("/tmp/ydotool.sock", &SocketAttempt::Missing);
    assert!(!missing.ok);
    assert_eq!(missing.detail, "missing: /tmp/ydotool.sock");
}

#[test]
fn ydotool_socket_check_accepts_datagram_socket() {
    let check = socket_connect_check("/tmp/ydotool.sock", &SocketAttempt::Datagram);

    assert!(check.ok, "{check:?}");
}

#[test]
fn readiness_reports_cosmic_window_blocker_on_cosmic() {
    let mut platform = platform_report();
    platform.xdg_current_desktop = Some("COSMIC".to_string());
    let accessibility = accessibility_report(Check::ok("bus"), Check::ok("true"));
    let windowing = windowing_report(false, false);
    let input = input_report(true);

    let readiness = readiness_report(
        &platform,
        &portal_report(Check::fail("missing")),
        &accessibility,
        &windowing,
        &input,
        &vec![],
    );

    assert!(readiness
        .blockers
        .iter()
        .any(|blocker| blocker.contains("COSMIC Wayland window introspection")));
}

#[test]
fn missing_window_backend_names_the_hints() {
    let readiness = readiness_report(
        &platform_report(),
        &portal_report(Check::fail("missing")),
        &accessibility_report(Check::ok("bus"), Check::ok("TRUE")),
        &windowing_report(false, false),
        &input_report(true),
        &vec!["Install one.", "Or another."],
    );

    assert_eq!(
        readiness.recommended_next_step,
        "Enable a supported window backend before using targeted keyboard input: Install one. Or another."
    );
    assert_eq!(readiness.blockers.len(), 1);
}

#[test]
fn disabled_accessibility_comes_first() {
    let readiness = readiness_report(
        &platform_report(),
        &portal_report(Check::fail("missing")),
        &accessibility_report(Check::ok("bus"), Check::ok("false")),
        &windowing_report(false, false),
        &input_report(false),
        &vec![],
    );

    assert!(readiness
        .recommended_next_step
        .starts_with("Run setup_accessibility"));
    assert_eq!(readiness.blockers.len(), 3);
    assert!(readiness.can_register_mcp_tools);
}
