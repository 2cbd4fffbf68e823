use computer_use_linux::command::{CommandOutcome, CommandOutput};
use computer_use_linux::ewmh::{
    activate_window, active_window_command, active_window_id, list_command, list_windows,
    non_empty, parse_wmctrl_line, parse_wmctrl_output, probe, probe_command, window_activated,
    EWMH_BACKEND,
};

#[test]
fn parse_wmctrl_line_extracts_all_fields() {
    let line =
        "0x07800020  0 12345     0     0  1920 1080 firefox.Firefox  Firefox - Mozilla Firefox";
    let w = parse_wmctrl_line(line, Some(0x07800020)).expect("should parse");
    assert_eq!(w.window_id, 0x07800020);
    assert_eq!(w.pid, Some(12345));
    assert_eq!(w.wm_class.as_deref(), Some("Firefox"));
    assert_eq!(w.app_id.as_deref(), Some("firefox"));
    assert_eq!(w.title.as_deref(), Some("Firefox - Mozilla Firefox"));
    assert_eq!(w.bounds.as_ref().map(|b| b.width), Some(1920));
    assert_eq!(w.bounds.as_ref().map(|b| b.height), Some(1080));
    assert!(w.focused);
    assert_eq!(w.client_type.as_deref(), Some("x11"));
}

#[test]
fn parse_wmctrl_line_marks_unfocused_when_id_differs() {
    let line = "0x07800021  0 12345     0     0   800  600 openbox.Openbox  Desktop";
    let w = parse_wmctrl_line(line, Some(0x07800020)).expect("should parse");
    assert!(!w.focused);
}

#[test]
fn parse_wmctrl_line_treats_desktop_minus1_as_no_workspace() {
    let line = "0x07800020  -1     0     0     0   400  300 panel.Panel  Desktop Panel";
    let w = parse_wmctrl_line(line, None).expect("should parse");
    assert_eq!(w.workspace, None);
}

#[test]
fn parse_wmctrl_line_handles_no_dot_in_wm_class() {
    let line = "0x00000001  0     0     0     0   100  100 Openbox  some window";
    let w = parse_wmctrl_line(line, None).expect("should parse");
    assert_eq!(w.wm_class.as_deref(), Some("Openbox"));
    assert_eq!(w.app_id.as_deref(), Some("Openbox"));
}

#[test]
fn parse_wmctrl_line_rejects_short_lines() {
    assert!(parse_wmctrl_line("0x00000001  0 12345", None).is_none());
}

#[test]
fn parse_wmctrl_line_handles_missing_title() {
    // 8 tokens exactly — no title column
    let line = "0x00000001  0     0     0     0   800  600 xterm.XTerm";
    let w = parse_wmctrl_line(line, None).expect("should parse");
    assert!(w.title.is_none());
}

#[test]
fn parse_wmctrl_output_skips_empty_lines() {
    let output = "\n0x07800020  0 12345     0     0  1920 1080 firefox.Firefox  Firefox\n\n";
    let windows = parse_wmctrl_output(output, None);
    assert_eq!(windows.len(), 1);
}

#[test]
fn parse_wmctrl_output_marks_focused_window() {
    let output = "0x00000001  0     0     0     0   800  600 xterm.XTerm  xterm\n\
                  0x00000002  0     0   800     0   800  600 nvim.nvim    nvim\n";
    let windows = parse_wmctrl_output(output, Some(0x00000002));
    assert!(!windows[0].focused);
    assert!(windows[1].focused);
}

fn exited(success: bool, status: &str, stdout: &[u8], stderr: &[u8]) -> CommandOutcome {
    CommandOutcome::Exited(CommandOutput {
        success,
        status: status.to_string(),
        stdout: stdout.to_vec(),
        stderr: stderr.to_vec(),
    })
}

#[test]
fn line_details_are_read_one_by_one() {
    let w = parse_wmctrl_line("0xff 3 0 -8 +9 10 20 a.b.C t  u", None).unwrap();
    assert_eq!(w.window_id, 255);
    assert_eq!(w.workspace, Some(3));
    assert_eq!(w.pid, None);
    let bounds = w.bounds.unwrap();
    assert_eq!((bounds.x, bounds.y), (Some(-8), Some(9)));
    assert_eq!(w.app_id.as_deref(), Some("a.b"));
    assert_eq!(w.wm_class.as_deref(), Some("C"));
    assert_eq!(w.title.as_deref(), Some("t u"));
    assert_eq!(w.backend, EWMH_BACKEND);
    assert!(!w.hidden);
    assert!(w.terminal.is_none());

    let odd = parse_wmctrl_line("0x1 x y left top 10 20 .", None).unwrap();
    assert_eq!(odd.workspace, None);
    assert_eq!(odd.bounds.unwrap().x, None);
    assert_eq!(odd.app_id, None);
    assert_eq!(odd.wm_class, None);

    assert!(parse_wmctrl_line("1 0 0 0 0 10 20 a.A", None).is_none());
    assert!(parse_wmctrl_line("0x1 0 0 0 0 -10 20 a.A", None).is_none());
    assert!(parse_wmctrl_line("0x1 0 0 0 0 10 4294967296 a.A", None).is_none());
    assert!(parse_wmctrl_line("", None).is_none());
}

#[test]
fn probe_can_do_everything_or_nothing() {
    let fine = probe(&exited(true, "exit status: 0", b"", b""));
    assert!(fine.ok && fine.can_list_windows && fine.can_focus_apps && fine.can_focus_windows);
    assert_eq!(fine.id, "ewmh");
    assert_eq!(
        fine.detail,
        "wmctrl -l succeeded; ICCCM/EWMH window listing is available"
    );

    let silent = probe(&exited(false, "exit status: 1", b"", b" \n"));
    assert!(!silent.ok && !silent.can_list_windows);
    assert_eq!(silent.detail, "wmctrl -l exited with exit status: 1");

    let loud = probe(&exited(false, "exit status: 1", b"", b"Cannot open display.\n"));
    assert_eq!(loud.detail, "Cannot open display.");

    let absent = probe(&CommandOutcome::NotStarted("No such file".to_string()));
    assert_eq!(
        absent.detail,
        "wmctrl not installed or not in PATH: No such file"
    );
}

#[test]
fn commands_are_those_of_the_tools() {
    assert_eq!(probe_command().args, vec!["-l"]);
    assert_eq!(list_command().args, vec!["-lGpx"]);
    assert_eq!(active_window_command().program, "xprop");
    assert_eq!(
        active_window_command().args,
        vec!["-root", "_NET_ACTIVE_WINDOW"]
    );
    let activate = activate_window(0x7800020);
    assert_eq!(activate.program, "wmctrl");
    assert_eq!(activate.args, vec!["-i", "-a", "0x7800020"]);
}

#[test]
fn activated_window_is_read_back_when_listed() {
    let id = activate_window(u64::MAX).args[2].clone();
    assert_eq!(id, "0xffffffffffffffff");
    let line = format!("{id} 0 0 0 0 1 1 a.A");
    assert_eq!(parse_wmctrl_line(&line, None).unwrap().window_id, u64::MAX);
}

#[test]
fn activation_tells_what_went_wrong() {
    assert!(window_activated(16, &exited(true, "exit status: 0", b"", b"")).is_ok());
    let failed =
        window_activated(16, &exited(false, "exit status: 1", b"", b" gone \n")).unwrap_err();
    assert_eq!(failed.what, "wmctrl -i -a 0x10 failed: gone");
    assert_eq!(failed.cause, None);
    let absent =
        window_activated(16, &CommandOutcome::NotStarted("absent".to_string())).unwrap_err();
    assert_eq!(absent.what, "failed to run wmctrl -i -a 0x10");
    assert_eq!(absent.cause.as_deref(), Some("absent"));
}

#[test]
fn windows_are_listed_or_the_failure_is_told() {
    let listing = exited(
        true,
        "exit status: 0",
        b"0x1 0 0 0 0 1 1 a.A one\n0x2 0 0 0 0 1 1 b.B two\n",
        b"",
    );
    let windows = list_windows(&listing, Some(1)).unwrap();
    assert_eq!(windows.len(), 2);
    assert!(windows[0].focused && !windows[1].focused);
    let failed = list_windows(&exited(false, "exit status: 1", b"", b"no"), None).unwrap_err();
    assert_eq!(failed.what, "wmctrl -lGpx failed: no");
    assert_eq!(failed.cause, None);
    let absent =
        list_windows(&CommandOutcome::NotStarted("absent".to_string()), None).unwrap_err();
    assert_eq!(absent.what, "failed to run wmctrl -lGpx");
    assert_eq!(absent.cause.as_deref(), Some("absent"));
}

#[test]
fn active_window_is_the_first_hexadecimal_number() {
    let printed = exited(
        true,
        "exit status: 0",
        b"_NET_ACTIVE_WINDOW(WINDOW): window id # 0x7800020, 0x0\n",
        b"",
    );
    assert_eq!(active_window_id(&printed), Some(0x7800020));
    assert_eq!(
        active_window_id(&exited(true, "exit status: 0", b"not found.", b"")),
        None
    );
    assert_eq!(
        active_window_id(&exited(true, "exit status: 0", b"# 0x!", b"")),
        None
    );
    assert_eq!(
        active_window_id(&exited(false, "exit status: 1", b"# 0x1", b"")),
        None
    );
    assert_eq!(
        active_window_id(&CommandOutcome::NotStarted(String::new())),
        None
    );
}

#[test]
fn empty_text_is_no_text() {
    assert_eq!(non_empty(String::new()), None);
    assert_eq!(non_empty("a".to_string()), Some("a".to_string()));
}
