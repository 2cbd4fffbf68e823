use computer_use_linux::command::{CommandOutcome, CommandOutput};
use computer_use_linux::png::{
    png_dimensions, request_token, temp_png_path, unique_suffix, PngFault,
};
use computer_use_linux::screenshot::{
    bus_error, capture_screenshot, capture_with_gnome_shell, capture_with_portal,
    capture_with_spectacle, capture_with_x11, file_uri_to_path, portal_request,
    portal_response_matches_path, read_png_as_capture, read_png_as_capture_inner,
    wait_for_portal_response, Backend, BusStep, FileRead, PortalEvent, PortalStep, ScreenshotCapture, ScreenshotCleanup, ScreenshotError, Shot, ShotAnswer,
    ShotRequest, UriReply,
};
use computer_use_linux::uri::percent_decode;
use std::path::PathBuf;

fn valid_png(width: u32, height: u32) -> Vec<u8> {
    let mut png = Vec::new();
    png.extend_from_slice(b"\x89PNG\r\n\x1a\n");
    png.extend_from_slice(&13_u32.to_be_bytes());
    png.extend_from_slice(b"IHDR");
    png.extend_from_slice(&width.to_be_bytes());
    png.extend_from_slice(&height.to_be_bytes());
    png.extend_from_slice(&[8, 6, 0, 0, 0]);
    png
}

fn read(bytes: &[u8]) -> FileRead {
    FileRead::Bytes(bytes.to_vec())
}

fn exited(success: bool, status: &str, stderr: &[u8]) -> CommandOutcome {
    CommandOutcome::Exited(CommandOutput {
        success,
        status: status.to_string(),
        stdout: Vec::new(),
        stderr: stderr.to_vec(),
    })
}

fn ran(success: bool) -> ShotAnswer {
    ShotAnswer::Ran(exited(success, "exit status: 1", b""))
}

fn end(shot: Shot) -> (Result<ScreenshotCapture, ScreenshotError>, Option<Vec<u8>>) {
    shot.finish().expect("settled")
}

#[test]
fn decodes_file_uri_percent_escapes() {
    assert_eq!(
        PathBuf::from(file_uri_to_path("file:///tmp/Codex%20Screenshot.png").unwrap()),
        PathBuf::from("/tmp/Codex Screenshot.png")
    );
}

#[test]
fn request_token_is_portal_safe() {
    let token = request_token(4711, 1_700_000_000_123_456_789);
    assert!(token.starts_with("codex_"));
    assert!(token.chars().all(|c| c.is_ascii_alphanumeric() || c == '_'));
    assert_eq!(token, "codex_4711_1700000000123456789");
}

#[test]
fn reads_png_dimensions_from_ihdr() {
    let png = valid_png(3840, 1080);

    assert_eq!(png_dimensions(&png).unwrap(), (3840, 1080));
}

#[test]
fn portal_capture_preserves_valid_returned_path() {
    let (capture, deleted) = read_png_as_capture(
        "/tmp/portal.png",
        "xdg-desktop-portal",
        ScreenshotCleanup::Preserve,
        &read(&valid_png(1, 1)),
    );

    assert_eq!(capture.unwrap().source, "xdg-desktop-portal");
    assert!(deleted.is_none());
}

#[test]
fn portal_capture_preserves_invalid_returned_path() {
    let (capture, deleted) = read_png_as_capture(
        "/tmp/portal.png",
        "xdg-desktop-portal",
        ScreenshotCleanup::Preserve,
        &read(b""),
    );

    assert!(capture
        .unwrap_err()
        .message()
        .contains("screenshot file was empty"));
    assert!(deleted.is_none());
}

#[test]
fn gnome_capture_deletes_backend_temp_path_on_success() {
    let (capture, deleted) = read_png_as_capture(
        "/tmp/gnome.png",
        "gnome-shell",
        ScreenshotCleanup::DeletePath(b"/tmp/gnome.png".to_vec()),
        &read(&valid_png(1, 1)),
    );

    assert_eq!(capture.unwrap().source, "gnome-shell");
    assert_eq!(deleted.unwrap(), b"/tmp/gnome.png".to_vec());
}

#[test]
fn gnome_capture_deletes_backend_temp_path_on_parse_failure() {
    let (capture, deleted) = read_png_as_capture(
        "/tmp/gnome.png",
        "gnome-shell",
        ScreenshotCleanup::DeletePath(b"/tmp/gnome.png".to_vec()),
        &read(b""),
    );

    assert!(capture
        .unwrap_err()
        .message()
        .contains("screenshot file was empty"));
    assert_eq!(deleted.unwrap(), b"/tmp/gnome.png".to_vec());
}

#[test]
fn gnome_failure_cleanup_removes_requested_temp_path() {
    let refused = capture_with_gnome_shell(b"/tmp/g.png")
        .answer(&ShotAnswer::Called(Ok((false, "/tmp/g.png".to_string()))));
    let (result, deleted) = end(refused);
    assert_eq!(
        result.unwrap_err().message(),
        "GNOME Shell reported screenshot failure"
    );
    assert_eq!(deleted.unwrap(), b"/tmp/g.png".to_vec());

    let failed = capture_with_gnome_shell(b"/tmp/g.png")
        .answer(&ShotAnswer::Called(Err("no such interface".to_string())));
    let (result, deleted) = end(failed);
    assert_eq!(
        result.unwrap_err().message(),
        "GNOME Shell Screenshot call failed: no such interface"
    );
    assert_eq!(deleted.unwrap(), b"/tmp/g.png".to_vec());
}

#[test]
fn gnome_deletes_requested_temp_path_and_preserves_unexpected_returned_path() {
    let shot = capture_with_gnome_shell(b"/tmp/requested.png");
    match shot.request() {
        ShotRequest::Call {
            include_cursor,
            flash,
            filename,
        } => {
            assert!(!include_cursor && !flash);
            assert_eq!(filename, "/tmp/requested.png");
        }
        other => panic!("{other:?}"),
    }
    let shot = shot.answer(&ShotAnswer::Called(Ok((true, "/tmp/returned.png".to_string()))));
    match shot.request() {
        ShotRequest::Read(path) => assert_eq!(path, "/tmp/returned.png"),
        other => panic!("{other:?}"),
    }
    let (result, deleted) = end(shot.answer(&ShotAnswer::Read(read(&valid_png(1, 1)))));
    assert_eq!(result.unwrap().source, "gnome-shell");
    assert_eq!(deleted.unwrap(), b"/tmp/requested.png".to_vec());
}

#[test]
fn x11_scrot_source_label_propagates_from_valid_png() {
    let capture =
        read_png_as_capture_inner("/tmp/p.png", "x11-scrot", &read(&valid_png(1920, 1080)))
            .unwrap();

    assert_eq!(capture.source, "x11-scrot");
    assert_eq!(capture.width, 1920);
    assert_eq!(capture.height, 1080);
}

#[test]
fn x11_maim_source_label_propagates_from_valid_png() {
    let capture =
        read_png_as_capture_inner("/tmp/p.png", "x11-maim", &read(&valid_png(2560, 1440)))
            .unwrap();

    assert_eq!(capture.source, "x11-maim");
    assert_eq!(capture.width, 2560);
    assert_eq!(capture.height, 1440);
}

#[test]
fn capture_with_x11_fails_gracefully_without_display() {
    let (result, deleted) = end(capture_with_x11(false, b"/tmp/x.png"));
    let message = result.unwrap_err().message();
    assert!(message.contains("DISPLAY"), "{message}");
    assert_eq!(message, "DISPLAY not set, not an X11 session");
    assert!(deleted.is_none());
}

#[test]
fn spectacle_source_label_propagates_from_valid_png() {
    let capture =
        read_png_as_capture_inner("/tmp/p.png", "spectacle", &read(&valid_png(2560, 1440)))
            .unwrap();

    assert_eq!(capture.source, "spectacle");
    assert_eq!(capture.width, 2560);
    assert_eq!(capture.height, 1440);
}

#[test]
fn spectacle_empty_output_file_returns_error() {
    let err = read_png_as_capture_inner("/tmp/p.png", "spectacle", &read(b"")).unwrap_err();

    assert!(err.message().contains("screenshot file was empty"));
    assert_eq!(err.message(), "screenshot file was empty: /tmp/p.png");
}

#[test]
fn spectacle_corrupt_output_file_returns_error() {
    let err =
        read_png_as_capture_inner("/tmp/p.png", "spectacle", &read(b"not a png")).unwrap_err();

    assert!(err.message().contains("not a valid PNG"));
}

#[test]
fn capture_with_spectacle_fails_gracefully_when_not_installed() {
    let shot = capture_with_spectacle(b"/tmp/s.png");
    let (result, deleted) = end(shot.answer(&ShotAnswer::Ran(CommandOutcome::NotStarted(
        "No such file or directory".to_string(),
    ))));
    let message = result.unwrap_err().message();
    assert!(message.contains("spectacle"), "{message}");
    assert_eq!(
        message,
        "spectacle is not installed or could not be run: No such file or directory"
    );
    assert_eq!(deleted.unwrap(), b"/tmp/s.png".to_vec());
}

// Pictures and their text.

#[test]
fn data_url_holds_the_bytes_in_base64() {
    let png = valid_png(2, 3);
    let capture = read_png_as_capture_inner("/p", "s", &read(&png)).unwrap();
    assert_eq!(capture.mime_type, "image/png");
    assert_eq!(
        capture.data_url,
        "data:image/png;base64,iVBORw0KGgoAAAANSUhEUgAAAAIAAAADCAYAAAA="
    );
    let mut longer = png.clone();
    longer.push(0xfb);
    let capture = read_png_as_capture_inner("/p", "s", &read(&longer)).unwrap();
    assert!(capture.data_url.ends_with("CAYAAAD7"));
    longer.push(0xff);
    let capture = read_png_as_capture_inner("/p", "s", &read(&longer)).unwrap();
    assert!(capture.data_url.ends_with("CAYAAAD7/w=="));
}

#[test]
fn pictures_without_extent_are_refused() {
    assert_eq!(
        png_dimensions(&valid_png(0, 7)),
        Err(PngFault::NoExtent {
            width: 0,
            height: 7
        })
    );
    assert_eq!(
        read_png_as_capture_inner("/p", "s", &read(&valid_png(9, 0)))
            .unwrap_err()
            .message(),
        "screenshot PNG had invalid dimensions 9x0"
    );
    assert_eq!(png_dimensions(&valid_png(1, 1)[..23]), Err(PngFault::NotPng));
    let mut wrong = valid_png(1, 1);
    wrong[0] = 0;
    assert_eq!(png_dimensions(&wrong), Err(PngFault::NotPng));
    let mut wrong = valid_png(1, 1);
    wrong[12] = 0;
    assert_eq!(png_dimensions(&wrong), Err(PngFault::NotPng));
    assert_eq!(
        png_dimensions(&valid_png(0x0102_0304, u32::MAX)),
        Ok((0x0102_0304, u32::MAX))
    );
}

#[test]
fn unreadable_file_tells_why() {
    let failed = FileRead::Failed("Permission denied".to_string());
    assert_eq!(
        read_png_as_capture_inner("/p", "s", &failed)
            .unwrap_err()
            .message(),
        "failed to read screenshot file /p: Permission denied"
    );
}

// Names.

#[test]
fn suffix_tells_process_and_moment() {
    assert_eq!(unique_suffix(7, 0), "7-0");
    assert_eq!(unique_suffix(u32::MAX, 10), "4294967295-10");
    assert_ne!(unique_suffix(1, 12), unique_suffix(11, 2));
    assert_eq!(
        temp_png_path(b"/tmp", "x11", 5, 6),
        b"/tmp/codex-computer-use-x11-5-6.png".to_vec()
    );
    assert_eq!(
        temp_png_path(b"/tmp/", "x11", 5, 6),
        b"/tmp/codex-computer-use-x11-5-6.png".to_vec()
    );
}

#[test]
fn percent_escapes_are_resolved() {
    assert_eq!(percent_decode("plain/path"), "plain/path");
    assert_eq!(percent_decode("%2Fa%2fb"), "/a/b");
    assert_eq!(percent_decode("100%"), "100%");
    assert_eq!(percent_decode("%4"), "%4");
    assert_eq!(percent_decode("%zz%41"), "%zzA");
    assert_eq!(percent_decode("%+5"), "\u{5}");
    assert_eq!(percent_decode("%C3%A9"), "é");
    assert_eq!(percent_decode("é%20é"), "é é");
    assert_eq!(percent_decode("%ff"), "\u{fffd}");
    assert_eq!(
        file_uri_to_path("https://example.org/a.png")
            .unwrap_err()
            .message(),
        "unsupported screenshot uri: https://example.org/a.png"
    );
}

// Backends.

#[test]
fn tools_are_run_with_their_arguments() {
    let command = |shot: &Shot| match shot.request() {
        ShotRequest::Run(command) => command,
        other => panic!("{other:?}"),
    };
    let spectacle = command(&capture_with_spectacle(b"/t/s.png"));
    assert_eq!(spectacle.program, "spectacle");
    assert_eq!(
        spectacle.args,
        vec![
            "--background",
            "--nonotify",
            "--fullscreen",
            "--output",
            "/t/s.png"
        ]
    );
    let x11 = capture_with_x11(true, b"/t/x.png");
    let scrot = command(&x11);
    assert_eq!(scrot.program, "scrot");
    assert_eq!(scrot.args, vec!["--silent", "/t/x.png"]);
    let maim = command(&x11.answer(&ran(false)));
    assert_eq!(maim.program, "maim");
    assert_eq!(maim.args, vec!["/t/x.png"]);
}

#[test]
fn second_tool_decides_after_the_first_failed() {
    let shot = capture_with_x11(true, b"/t/x.png")
        .answer(&ran(true))
        .answer(&ShotAnswer::Read(read(b"broken")))
        .answer(&ran(true))
        .answer(&ShotAnswer::Read(read(&valid_png(3, 4))));
    let (result, deleted) = end(shot);
    let capture = result.unwrap();
    assert_eq!(capture.source, "x11-maim");
    assert_eq!((capture.width, capture.height), (3, 4));
    assert_eq!(deleted.unwrap(), b"/t/x.png".to_vec());

    let shot = capture_with_x11(true, b"/t/x.png")
        .answer(&ran(false))
        .answer(&ShotAnswer::Ran(exited(false, "exit status: 3", b" no X \n")));
    assert_eq!(
        end(shot).0.unwrap_err().message(),
        "maim exited with exit status: 3: no X"
    );
    let shot = capture_with_spectacle(b"/t/s.png").answer(&ran(false));
    assert_eq!(
        end(shot).0.unwrap_err().message(),
        "spectacle exited with exit status: 1: no output"
    );
}

#[test]
fn paths_have_to_be_text() {
    let (result, deleted) = end(capture_with_gnome_shell(b"/t/\xff.png"));
    assert_eq!(
        result.unwrap_err().message(),
        "temporary screenshot path is not valid UTF-8"
    );
    assert!(deleted.is_none());
    let (result, deleted) = end(capture_with_x11(true, b"/t/\xff.png"));
    assert!(matches!(result.unwrap_err(), ScreenshotError::PathNotUtf8));
    assert!(deleted.is_some());
}

#[test]
fn portal_response_leads_to_a_file() {
    let uri = UriReply::Text("file:///home/a%20b.png".to_string());
    let shot = capture_with_portal(0, uri);
    match shot.request() {
        ShotRequest::Read(path) => assert_eq!(path, "/home/a b.png"),
        other => panic!("{other:?}"),
    }
    let (result, deleted) = end(shot.answer(&ShotAnswer::Read(read(&valid_png(1, 1)))));
    assert_eq!(result.unwrap().source, "xdg-desktop-portal");
    assert!(deleted.is_none());

    let message = |code, uri| end(capture_with_portal(code, uri)).0.unwrap_err().message();
    assert_eq!(
        message(2, UriReply::Missing),
        "XDG portal screenshot was denied or cancelled with response code 2"
    );
    assert_eq!(
        message(0, UriReply::Missing),
        "XDG portal screenshot response did not include a uri"
    );
    assert_eq!(
        message(0, UriReply::Text("ftp://x".to_string())),
        "unsupported screenshot uri: ftp://x"
    );
    assert_eq!(
        message(0, UriReply::NotText("incorrect type".to_string())),
        "XDG portal screenshot uri was not a string: incorrect type"
    );
    assert_eq!(
        message(0, UriReply::NotCopied("too many files".to_string())),
        "failed to clone XDG portal screenshot uri: too many files"
    );
}

#[test]
fn portal_is_asked_without_a_dialog() {
    let request = portal_request(4711, 99);
    assert_eq!(request.parent_window, "");
    assert_eq!(request.handle_token, "codex_4711_99");
    assert!(!request.interactive);
    assert_eq!(request.wait_seconds, 20);
}

#[test]
fn errors_on_the_bus_tell_their_step() {
    let message = |step| bus_error(step, "gone".to_string()).message();
    assert_eq!(
        message(BusStep::Connect),
        "failed to connect to session bus: gone"
    );
    assert_eq!(
        message(BusStep::FindGnomeShell),
        "failed to create GNOME Shell screenshot proxy: gone"
    );
    assert_eq!(
        message(BusStep::Subscribe),
        "failed to subscribe to XDG portal screenshot responses: gone"
    );
    assert_eq!(
        message(BusStep::FindPortal),
        "failed to create XDG portal screenshot proxy: gone"
    );
    assert_eq!(
        message(BusStep::CallPortal),
        "XDG portal Screenshot call failed: gone"
    );
    assert_eq!(
        message(BusStep::AwaitResponse),
        "timed out waiting for XDG portal screenshot response: gone"
    );
    assert_eq!(
        message(BusStep::DecodeResponse),
        "failed to decode XDG portal screenshot response: gone"
    );
}

#[test]
fn files_are_labelled_with_their_backend() {
    assert_eq!(Backend::GnomeShell.label(), Some("gnome-shell"));
    assert_eq!(Backend::Spectacle.label(), Some("spectacle"));
    assert_eq!(Backend::X11.label(), Some("x11"));
    assert_eq!(Backend::Portal.label(), None);
}

#[test]
fn only_the_response_to_the_request_is_taken() {
    assert!(portal_response_matches_path(Some("/r/1"), "/r/1"));
    assert!(!portal_response_matches_path(Some("/r/2"), "/r/1"));
    assert!(!portal_response_matches_path(None, "/r/1"));
    let step = |event| wait_for_portal_response(&event, "/r/1");
    assert!(matches!(
        step(PortalEvent::Response(Some("/r/1".to_string()))),
        PortalStep::Take
    ));
    assert!(matches!(
        step(PortalEvent::Response(Some("/r/2".to_string()))),
        PortalStep::Skip
    ));
    assert!(matches!(step(PortalEvent::Response(None)), PortalStep::Skip));
    match step(PortalEvent::Ended) {
        PortalStep::Fail(error) => assert_eq!(
            error.message(),
            "XDG portal screenshot response stream ended"
        ),
        other => panic!("{other:?}"),
    }
    match step(PortalEvent::Failed("lost".to_string())) {
        PortalStep::Fail(error) => assert_eq!(
            error.message(),
            "XDG portal screenshot response stream failed: lost"
        ),
        other => panic!("{other:?}"),
    }
}

#[test]
fn answers_to_other_questions_change_nothing() {
    let shot = capture_with_spectacle(b"/t/s.png").answer(&ShotAnswer::Read(read(b"")));
    assert!(matches!(shot.request(), ShotRequest::Run(_)));
    assert!(shot.finish().is_none());
}

fn bus(what: &str) -> Result<ScreenshotCapture, ScreenshotError> {
    Err(ScreenshotError::Bus {
        what: what.to_string(),
        cause: None,
    })
}

#[test]
fn backends_are_tried_in_order() {
    let session = capture_screenshot();
    assert_eq!(session.backend(), Some(Backend::GnomeShell));
    let session = session.record(bus("a"));
    assert_eq!(session.backend(), Some(Backend::Spectacle));
    let session = session.record(bus("b"));
    assert_eq!(session.backend(), Some(Backend::X11));
    let session = session.record(bus("c"));
    assert_eq!(session.backend(), Some(Backend::Portal));
    let session = session.record(bus("d"));
    assert_eq!(session.backend(), None);
    assert_eq!(
        session.result().unwrap().unwrap_err().message(),
        "GNOME Shell screenshot failed: a; spectacle screenshot failed: b; \
         X11 screenshot failed: c; XDG portal screenshot failed: d"
    );
}

#[test]
fn first_picture_ends_the_work() {
    let capture = read_png_as_capture_inner("/p", "spectacle", &read(&valid_png(1, 1)));
    let session = capture_screenshot().record(bus("a")).record(capture);
    assert_eq!(session.backend(), None);
    assert_eq!(session.result().unwrap().unwrap().source, "spectacle");
}
