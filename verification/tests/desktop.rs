use computer_use_linux::desktop::{
    find_desktop_file, is_desktop_file, list_installed_apps, parse_desktop_info, path_of,
    DesktopFile,
};
use computer_use_linux::launch::{
    launch_app, try_exec_from_desktop, try_gio_open, try_gtk_launch, Launch, LaunchAnswer,
    LaunchAppResult, LaunchRequest, LauncherOutcome,
};
use computer_use_linux::shell::{looks_like_command, shell_split, strip_field_codes};

const WORKING_DIR: Option<&[u8]> = Some(b"/work");

#[test]
fn strip_field_codes_removes_substitution_tokens() {
    assert_eq!(strip_field_codes("firefox %u"), "firefox ");
    assert_eq!(
        strip_field_codes("app --file=%F --icon %i"),
        "app --file= --icon "
    );
    assert_eq!(strip_field_codes("echo %%"), "echo %");
}

#[test]
fn strip_field_codes_preserves_unknown_codes() {
    assert_eq!(strip_field_codes("app %z"), "app %z");
}

#[test]
fn shell_split_handles_plain_args() {
    assert_eq!(
        shell_split("firefox --new-window"),
        vec!["firefox", "--new-window"]
    );
}

#[test]
fn shell_split_handles_quoted_args() {
    assert_eq!(
        shell_split(r#"env "MY VAR=1" firefox"#),
        vec!["env", "MY VAR=1", "firefox"]
    );
}

#[test]
fn shell_split_handles_single_quotes() {
    assert_eq!(
        shell_split("sh -c 'echo hello'"),
        vec!["sh", "-c", "echo hello"]
    );
}

#[test]
fn shell_split_handles_backslash_escape() {
    assert_eq!(
        shell_split(r"app --arg=hello\ world"),
        vec!["app", "--arg=hello world"]
    );
}

#[test]
fn looks_like_command_accepts_simple_names() {
    assert!(looks_like_command("firefox"));
    assert!(looks_like_command("org.gnome.Nautilus"));
    assert!(looks_like_command("code-oss"));
}

#[test]
fn looks_like_command_rejects_paths_and_spaces() {
    assert!(!looks_like_command("/usr/bin/firefox"));
    assert!(!looks_like_command("my app"));
    assert!(!looks_like_command(""));
}

#[test]
fn launch_app_returns_error_for_empty_query() {
    let result = launch_app("", &vec![], WORKING_DIR).result().unwrap();
    assert!(!result.ok);
    assert!(result.message.contains("empty"));
}

#[test]
fn launch_app_returns_not_found_for_unknown_app() {
    let launch = launch_app("this-app-does-not-exist-xyzzy-12345", &vec![], WORKING_DIR);
    match launch.request() {
        LaunchRequest::Start(command) => {
            assert_eq!(command.program, "this-app-does-not-exist-xyzzy-12345");
            assert!(command.args.is_empty());
        }
        other => panic!("{other:?}"),
    }
    let result = launch
        .answer(&LaunchAnswer::Started(Err("No such file".to_string())))
        .result()
        .unwrap();
    assert!(!result.ok);
    assert!(result.desktop_file.is_none());
    assert_eq!(
        result.message,
        "No installed application found matching \"this-app-does-not-exist-xyzzy-12345\". \
         Pass a desktop-file stem (e.g. \"firefox\"), an app Name (e.g. \"Firefox\"), \
         or a reverse-DNS id (e.g. \"org.mozilla.firefox\"). \
         Use list_apps to see currently open apps."
    );
}

// Command lines.

#[test]
fn command_line_edge_cases() {
    assert_eq!(strip_field_codes("100%"), "100%");
    assert_eq!(strip_field_codes("%%u"), "%u");
    assert_eq!(strip_field_codes("%u%U%f%F%i%c%k%d%D%n%N%v%m"), "");
    assert_eq!(strip_field_codes("plain words"), "plain words");

    assert_eq!(shell_split("  a\t b  "), vec!["a", "b"]);
    assert_eq!(shell_split("''"), Vec::<String>::new());
    assert_eq!(shell_split("\"it's\""), vec!["it's"]);
    assert_eq!(shell_split(r"'a\b' c\'d"), vec![r"a\b", "c'd"]);
    assert_eq!(shell_split("'any \"thing\" \\ else'"), vec!["any \"thing\" \\ else"]);
    assert_eq!(shell_split("trailing\\"), vec!["trailing"]);
    assert_eq!(shell_split("'open quote"), vec!["open quote"]);

    assert!(looks_like_command("größe"));
    assert!(!looks_like_command("a;b"));
}

// Desktop files.

const FIREFOX: &str = "# comment\n[Desktop Entry]\nType=Application\nName=Firefox\nName[de]=Feuerfuchs\nName=Second\nComment=Browse the web\nExec=firefox-old\nExec=firefox %u\n\n[Desktop Action new]\nName=New Window\nExec=firefox --new\n";

fn file(dir: &str, name: &str, content: &str) -> DesktopFile {
    DesktopFile {
        dir: dir.as_bytes().to_vec(),
        file_name: name.as_bytes().to_vec(),
        content: Some(content.to_string()),
    }
}

fn app(name: &str) -> String {
    format!("[Desktop Entry]\nType=Application\nName={name}\nExec=run\n")
}

#[test]
fn desktop_entry_is_read() {
    let info = parse_desktop_info(FIREFOX);
    assert_eq!(info.name.as_deref(), Some("Firefox"));
    assert_eq!(info.comment.as_deref(), Some("Browse the web"));
    assert_eq!(info.command_line.as_deref(), Some("firefox %u"));
    assert_eq!(info.app_type.as_deref(), Some("Application"));
    assert!(info.has_exec);
    assert!(!info.no_display);

    let hidden = parse_desktop_info("[Desktop Entry]\r\n  NoDisplay=true  \r\n");
    assert!(hidden.no_display);
    assert!(!hidden.has_exec);
    assert!(parse_desktop_info("[Desktop Entry]\nHidden=true").no_display);
    assert!(!parse_desktop_info("Hidden=true").no_display);
    assert!(!parse_desktop_info("[Desktop Entry]\nHidden=true1").no_display);
}

#[test]
fn only_desktop_files_are_read() {
    assert!(is_desktop_file(b"firefox.desktop"));
    assert!(is_desktop_file(b"a.b.desktop"));
    assert!(!is_desktop_file(b".desktop"));
    assert!(!is_desktop_file(b"firefox.desktop~"));
    assert!(!is_desktop_file(b"desktop"));
}

#[test]
fn path_joins_directory_and_name() {
    assert_eq!(path_of(&file("/a", "b.desktop", "")), b"/a/b.desktop".to_vec());
    assert_eq!(path_of(&file("/a/", "b.desktop", "")), b"/a/b.desktop".to_vec());
}

#[test]
fn best_match_is_found() {
    let files = vec![
        file("/d", "editor.desktop", &app("Text Editor")),
        file("/d", "org.text.desktop", &app("Other")),
        file("/d", "second.desktop", &app("Text")),
        file("/d", "text.desktop", &app("Zed")),
        file("/d", "hidden.desktop", "[Desktop Entry]\nType=Application\nName=Gone\nExec=x\nHidden=true\n"),
        file("/d", "link.desktop", "[Desktop Entry]\nType=Link\nName=Linked\nExec=x\n"),
        file("/d", "notes.txt", &app("Notes")),
    ];
    let found = |query: &str| find_desktop_file(query, &files).map(|app| app.name);
    assert_eq!(found("TEXT").as_deref(), Some("Zed"));
    assert_eq!(found("text.desktop").as_deref(), Some("Zed"));
    assert_eq!(found("zed").as_deref(), Some("Zed"));
    assert_eq!(found("edit").as_deref(), Some("Text Editor"));
    assert_eq!(found("org.t").as_deref(), Some("Other"));
    assert_eq!(found("gone"), None);
    assert_eq!(found("linked"), None);
    assert_eq!(found("notes"), None);
    let zed = find_desktop_file("text", &files).unwrap();
    assert_eq!(zed.stem, "text");
    assert_eq!(zed.path, b"/d/text.desktop".to_vec());
}

#[test]
fn exact_name_comes_before_a_part_of_a_name() {
    let files = vec![
        file("/d", "one.desktop", &app("Text Editor")),
        file("/d", "two.desktop", &app("text")),
        file("/d", "three.desktop", &app("Text")),
    ];
    assert_eq!(find_desktop_file("Text", &files).unwrap().stem, "two");
}

#[test]
fn nameless_apps_go_by_their_stem() {
    let files = vec![file("/d", "tool.desktop", "[Desktop Entry]\nType=Application\nExec=tool\n")];
    assert_eq!(find_desktop_file("tool", &files).unwrap().name, "tool");
    assert_eq!(list_installed_apps(&files)[0].name, "tool");
}

#[test]
fn unreadable_files_and_names_are_passed_over() {
    let unreadable = DesktopFile {
        dir: b"/d".to_vec(),
        file_name: b"a.desktop".to_vec(),
        content: None,
    };
    let not_text = DesktopFile {
        dir: b"/d".to_vec(),
        file_name: b"\xff.desktop".to_vec(),
        content: Some(app("A")),
    };
    assert!(find_desktop_file("a", &vec![unreadable, not_text]).is_none());
}

#[test]
fn apps_are_listed_once_and_in_order() {
    let files = vec![
        file("/home", "b.desktop", &app("beta")),
        file("/home", "z.desktop", &app("Zulu")),
        file("/usr", "b2.desktop", &app("beta")),
        file("/usr", "a.desktop", &app("Alpha")),
        file("/usr", "b3.desktop", &app("Beta")),
    ];
    let apps = list_installed_apps(&files);
    let names: Vec<&str> = apps.iter().map(|a| a.name.as_str()).collect();
    assert_eq!(names, vec!["Alpha", "beta", "Beta", "Zulu"]);
    assert_eq!(apps[1].desktop_file, "/home/b.desktop");
    assert_eq!(apps[0].comment, None);
    let firefox = list_installed_apps(&vec![file("/d", "firefox.desktop", FIREFOX)]);
    assert_eq!(firefox[0].comment.as_deref(), Some("Browse the web"));
    let relative = list_installed_apps(&vec![file("share", "firefox.desktop", FIREFOX)]);
    assert_eq!(relative[0].desktop_file, "share/firefox.desktop");
}

// Launching.

fn ended(success: bool) -> LaunchAnswer {
    LaunchAnswer::Ended(LauncherOutcome::Exited {
        success,
        status: "exit status: 1".to_string(),
    })
}

fn firefox() -> Launch {
    launch_app(
        "  Firefox ",
        &vec![file("/apps", "firefox.desktop", FIREFOX)],
        WORKING_DIR,
    )
}

fn settled(launch: Launch) -> LaunchAppResult {
    launch.result().expect("settled")
}

#[test]
fn gtk_launch_is_tried_first() {
    let launch = firefox();
    match launch.request() {
        LaunchRequest::RunToEnd(command) => {
            assert_eq!(command.program, "gtk-launch");
            assert_eq!(command.args, vec!["firefox"]);
        }
        other => panic!("{other:?}"),
    }
    let result = settled(launch.answer(&ended(true)));
    assert!(result.ok);
    assert_eq!(result.app_name.as_deref(), Some("Firefox"));
    assert_eq!(result.desktop_file.as_deref(), Some("/apps/firefox.desktop"));
    assert_eq!(result.launch_command.as_deref(), Some("gtk-launch firefox"));
    assert_eq!(result.message, "Launched Firefox.");
}

#[test]
fn results_tell_the_absolute_path_of_a_file_that_was_found_by_a_relative_one() {
    let start = |working_dir| {
        launch_app(
            "Firefox",
            &vec![file("share", "firefox.desktop", FIREFOX)],
            working_dir,
        )
    };
    let launched = settled(start(WORKING_DIR).answer(&ended(true)));
    assert_eq!(
        launched.desktop_file.as_deref(),
        Some("/work/share/firefox.desktop")
    );

    let gio = start(WORKING_DIR).answer(&ended(false));
    match gio.request() {
        LaunchRequest::RunToEnd(command) => {
            assert_eq!(command.args, vec!["open", "share/firefox.desktop"]);
        }
        other => panic!("{other:?}"),
    }
    let reading = gio.answer(&ended(false));
    match reading.request() {
        LaunchRequest::Read(path) => assert_eq!(path, b"share/firefox.desktop".to_vec()),
        other => panic!("{other:?}"),
    }
    let failed = settled(reading.answer(&LaunchAnswer::Content(None)));
    assert_eq!(
        failed.desktop_file.as_deref(),
        Some("/work/share/firefox.desktop")
    );
    assert_eq!(
        failed.message,
        "Found .desktop file but all launch methods failed: could not parse share/firefox.desktop"
    );

    let unknown = settled(start(None).answer(&ended(true)));
    assert_eq!(
        unknown.desktop_file.as_deref(),
        Some("share/firefox.desktop")
    );
}

#[test]
fn gio_open_is_tried_next() {
    let launch = firefox().answer(&LaunchAnswer::Ended(LauncherOutcome::NotStarted(
        "absent".to_string(),
    )));
    match launch.request() {
        LaunchRequest::RunToEnd(command) => {
            assert_eq!(command.program, "gio");
            assert_eq!(command.args, vec!["open", "/apps/firefox.desktop"]);
        }
        other => panic!("{other:?}"),
    }
    let result = settled(launch.answer(&ended(true)));
    assert_eq!(
        result.launch_command.as_deref(),
        Some("gio open /apps/firefox.desktop")
    );
}

#[test]
fn command_line_is_started_last() {
    let launch = firefox().answer(&ended(false)).answer(&ended(false));
    match launch.request() {
        LaunchRequest::Read(path) => assert_eq!(path, b"/apps/firefox.desktop".to_vec()),
        other => panic!("{other:?}"),
    }
    let content = "[Desktop Entry]\nExec=env \"A B\" firefox %u\n".to_string();
    let launch = launch.answer(&LaunchAnswer::Content(Some(content)));
    match launch.request() {
        LaunchRequest::Start(command) => {
            assert_eq!(command.program, "env");
            assert_eq!(command.args, vec!["A B", "firefox"]);
        }
        other => panic!("{other:?}"),
    }
    let result = settled(launch.answer(&LaunchAnswer::Started(Ok(()))));
    assert!(result.ok);
    assert_eq!(
        result.launch_command.as_deref(),
        Some("env \"A B\" firefox")
    );
}

#[test]
fn failed_launch_names_the_app_and_the_last_fault() {
    let reading = || firefox().answer(&ended(false)).answer(&ended(false));
    let fail = |launch: Launch| {
        let result = settled(launch);
        assert!(!result.ok);
        assert_eq!(result.app_name.as_deref(), Some("Firefox"));
        assert_eq!(result.launch_command, None);
        result
            .message
            .strip_prefix("Found .desktop file but all launch methods failed: ")
            .unwrap()
            .to_string()
    };
    let content = |text: &str| LaunchAnswer::Content(Some(text.to_string()));
    assert_eq!(
        fail(reading().answer(&LaunchAnswer::Content(None))),
        "could not parse /apps/firefox.desktop"
    );
    assert_eq!(
        fail(reading().answer(&content("[Desktop Entry]\nName=x\n"))),
        "no Exec= in /apps/firefox.desktop"
    );
    assert_eq!(
        fail(reading().answer(&content("[Desktop Entry]\nExec= %u \n"))),
        "Exec= in /apps/firefox.desktop is empty after stripping field codes"
    );
    assert_eq!(
        fail(reading().answer(&content("[Desktop Entry]\nExec=''\n"))),
        "empty argv after parsing Exec="
    );
    let starting = reading().answer(&content("[Desktop Entry]\nExec=nope %u\n"));
    assert_eq!(
        fail(starting.answer(&LaunchAnswer::Started(Err("absent".to_string())))),
        "failed to spawn nope: absent"
    );
}

#[test]
fn answers_to_something_else_are_ignored() {
    let launch = firefox().answer(&LaunchAnswer::Started(Ok(())));
    assert!(matches!(launch.request(), LaunchRequest::RunToEnd(_)));
    let done = firefox().answer(&ended(true)).answer(&ended(false));
    assert!(matches!(done.request(), LaunchRequest::Nothing));
    assert!(settled(done).ok);
}

#[test]
fn query_can_be_run_as_a_command() {
    let result =
        settled(launch_app("tool", &vec![], WORKING_DIR).answer(&LaunchAnswer::Started(Ok(()))));
    assert!(result.ok);
    assert_eq!(result.app_name.as_deref(), Some("tool"));
    assert_eq!(result.desktop_file, None);
    assert_eq!(
        result.message,
        "No .desktop file found for \"tool\"; launched as a direct command."
    );
    let spaced = launch_app("two words", &vec![], WORKING_DIR).result().unwrap();
    assert!(spaced.message.contains("\"two words\""));
}

#[test]
fn launchers_tell_what_went_wrong() {
    let outcome = |success| LauncherOutcome::Exited {
        success,
        status: "exit status: 2".to_string(),
    };
    assert_eq!(try_gtk_launch("a", &outcome(true)).unwrap(), "gtk-launch a");
    assert_eq!(
        try_gtk_launch("a", &outcome(false)).unwrap_err(),
        "gtk-launch a exited with exit status: 2"
    );
    assert_eq!(
        try_gtk_launch("a", &LauncherOutcome::NotStarted("x".to_string())).unwrap_err(),
        "gtk-launch not available: x"
    );
    assert_eq!(
        try_gtk_launch("a", &LauncherOutcome::Lost("x".to_string())).unwrap_err(),
        "gtk-launch wait failed: x"
    );
    assert_eq!(
        try_gio_open("/p", &LauncherOutcome::NotStarted("x".to_string())).unwrap_err(),
        "gio not available: x"
    );
    assert_eq!(
        try_gio_open("/p", &LauncherOutcome::Lost("x".to_string())).unwrap_err(),
        "gio open wait failed: x"
    );
    assert_eq!(
        try_gio_open("/p", &outcome(false)).unwrap_err(),
        "gio open /p exited with exit status: 2"
    );
}

#[test]
fn command_line_of_a_desktop_file_is_made_ready() {
    let line = try_exec_from_desktop("/p", Some("[Desktop Entry]\nExec=a 'b c' %F\n")).unwrap();
    assert_eq!(line.text, "a 'b c'");
    assert_eq!(line.argv, vec!["a", "b c"]);
}
