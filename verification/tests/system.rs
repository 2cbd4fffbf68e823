use computer_use_linux::command::{CommandOutcome, CommandOutput};
use computer_use_linux::environment::{
    env_var, hydrate_desktop_env_from_map, hydrate_desktop_env_from_process_tree, parse_environ,
    parse_line_environment,
};
use computer_use_linux::paths::{
    desktop_search_dirs, hydrate_common_command_path, is_same_path, COMMON_COMMAND_DIRS,
};
use computer_use_linux::process::{
    desktop_process_environments, parse_parent_pid, process_owner_matches_current_user, WalkStage,
};
use computer_use_linux::session::{
    dbus_session_address, hydrate_desktop_env_from_systemd_user, hydrate_session_bus_env,
    session_bus_socket, session_bus_variables, systemd_environment_command, user_id,
    user_id_command, xdg_runtime_dir, HydrationAnswer, HydrationRequest, SessionHydration,
};
use computer_use_linux::socket::{
    read_write_path_check, socket_connect_result, ydotool_socket_candidates, ydotool_socket_check,
    PathAccess, SocketAttempt,
};
use computer_use_linux::text_map::TextMap;

fn variables(entries: &[(&str, &str)]) -> TextMap<String> {
    let mut map = TextMap::new();
    for (key, value) in entries {
        map.insert(key.to_string(), value.to_string());
    }
    map
}

fn value<'a>(env: &'a TextMap<String>, key: &str) -> Option<&'a str> {
    env.get(key).map(String::as_str)
}

fn exited(success: bool, stdout: &[u8]) -> CommandOutcome {
    CommandOutcome::Exited(CommandOutput {
        success,
        status: "exit status: 0".to_string(),
        stdout: stdout.to_vec(),
        stderr: Vec::new(),
    })
}

// Environments.

#[test]
fn last_definition_of_a_variable_counts() {
    let env = parse_environ(b"A=1\0A=2\0=empty\0B=x=y\0\xff=1\0C=\xff");
    assert_eq!(value(&env, "A"), Some("2"));
    assert_eq!(value(&env, ""), Some("empty"));
    assert_eq!(value(&env, "B"), Some("x=y"));
    assert_eq!(env.len(), 3);
    assert_eq!(parse_line_environment(b"").len(), 0);
}

#[test]
fn blank_variables_are_not_set() {
    let env = variables(&[("A", "x"), ("B", " \t"), ("C", "")]);
    assert_eq!(env_var(&env, "A").as_deref(), Some("x"));
    assert_eq!(env_var(&env, "B"), None);
    assert_eq!(env_var(&env, "C"), None);
    assert_eq!(env_var(&env, "D"), None);
}

#[test]
fn hydration_fills_only_what_is_missing() {
    let mut env = variables(&[("DISPLAY", ":0"), ("XAUTHORITY", " ")]);
    hydrate_desktop_env_from_map(
        &mut env,
        &variables(&[
            ("DISPLAY", ":9"),
            ("XAUTHORITY", "/x"),
            ("WAYLAND_DISPLAY", " "),
            ("HOME", "/root"),
        ]),
    );
    assert_eq!(value(&env, "DISPLAY"), Some(":0"));
    assert_eq!(value(&env, "XAUTHORITY"), Some("/x"));
    assert_eq!(value(&env, "WAYLAND_DISPLAY"), None);
    assert_eq!(value(&env, "HOME"), None);
}

#[test]
fn nearest_process_wins() {
    let mut env = variables(&[]);
    hydrate_desktop_env_from_process_tree(
        &mut env,
        &vec![
            variables(&[("DISPLAY", ":1")]),
            variables(&[("DISPLAY", ":2"), ("YDOTOOL_SOCKET", "/s")]),
        ],
    );
    assert_eq!(value(&env, "DISPLAY"), Some(":1"));
    assert_eq!(value(&env, "YDOTOOL_SOCKET"), Some("/s"));
}

#[test]
fn systemd_environment_is_taken_only_on_success() {
    let command = systemd_environment_command();
    assert_eq!(command.program, "systemctl");
    assert_eq!(command.args, vec!["--user", "show-environment"]);
    let mut env = variables(&[]);
    hydrate_desktop_env_from_systemd_user(&mut env, &exited(false, b"DISPLAY=:1\n"));
    hydrate_desktop_env_from_systemd_user(&mut env, &CommandOutcome::NotStarted(String::new()));
    assert_eq!(env.len(), 0);
    hydrate_desktop_env_from_systemd_user(&mut env, &exited(true, b"DISPLAY=:1\nX=2\n"));
    assert_eq!(value(&env, "DISPLAY"), Some(":1"));
    assert_eq!(env.len(), 1);
}

// The session.

#[test]
fn user_id_is_what_the_command_printed() {
    assert_eq!(user_id_command().program, "id");
    assert_eq!(user_id_command().args, vec!["-u"]);
    assert_eq!(user_id(&exited(true, b" 1000\n")).as_deref(), Some("1000"));
    assert_eq!(user_id(&exited(true, b"\n")), None);
    assert_eq!(user_id(&exited(false, b"1000\n")), None);
    assert_eq!(user_id(&CommandOutcome::NotStarted(String::new())), None);
}

#[test]
fn runtime_directory_and_bus_address() {
    let uid = Some("1000".to_string());
    let bare = variables(&[]);
    assert_eq!(
        xdg_runtime_dir(&bare, &uid).as_deref(),
        Some("/run/user/1000")
    );
    assert_eq!(xdg_runtime_dir(&bare, &None), None);
    assert_eq!(
        session_bus_socket(&bare, &uid).as_deref(),
        Some("/run/user/1000/bus")
    );
    assert_eq!(
        dbus_session_address(&bare, &uid, true).as_deref(),
        Some("unix:path=/run/user/1000/bus")
    );
    assert_eq!(dbus_session_address(&bare, &uid, false), None);
    let set = variables(&[("XDG_RUNTIME_DIR", "/r/"), ("DBUS_SESSION_BUS_ADDRESS", "tcp:x")]);
    assert_eq!(xdg_runtime_dir(&set, &uid).as_deref(), Some("/r/"));
    assert_eq!(session_bus_socket(&set, &uid).as_deref(), Some("/r/bus"));
    assert_eq!(
        dbus_session_address(&set, &uid, false).as_deref(),
        Some("tcp:x")
    );
    let given = session_bus_variables(&bare, &uid, true);
    assert_eq!(
        value(&given, "DBUS_SESSION_BUS_ADDRESS"),
        Some("unix:path=/run/user/1000/bus")
    );
    assert_eq!(value(&given, "XDG_RUNTIME_DIR"), Some("/run/user/1000"));
    assert_eq!(session_bus_variables(&bare, &None, false).len(), 0);
}

fn asked_path(hydration: &SessionHydration) -> Option<String> {
    match hydration.request() {
        HydrationRequest::Exists(path) => Some(path),
        HydrationRequest::Run { .. } | HydrationRequest::Nothing => None,
    }
}

#[test]
fn session_is_hydrated_by_what_exists() {
    let hydration = hydrate_session_bus_env(
        variables(&[]),
        &vec![variables(&[("DISPLAY", ":1")])],
        Some("7".to_string()),
    )
    .answer(&HydrationAnswer::Ran(exited(
        true,
        b"DISPLAY=:2\nXDG_SESSION_TYPE=x11\n",
    )));
    assert_eq!(asked_path(&hydration).as_deref(), Some("/run/user/7"));
    let hydration = hydration.answer(&HydrationAnswer::Exists(true));
    assert_eq!(asked_path(&hydration).as_deref(), Some("/run/user/7/bus"));
    let hydration = hydration.answer(&HydrationAnswer::Exists(true));
    assert!(matches!(hydration.request(), HydrationRequest::Nothing));
    let env = hydration
        .answer(&HydrationAnswer::Exists(false))
        .environment();
    assert_eq!(value(&env, "DISPLAY"), Some(":1"));
    assert_eq!(value(&env, "XDG_SESSION_TYPE"), Some("x11"));
    assert_eq!(value(&env, "XDG_RUNTIME_DIR"), Some("/run/user/7"));
    assert_eq!(
        value(&env, "DBUS_SESSION_BUS_ADDRESS"),
        Some("unix:path=/run/user/7/bus")
    );

    let absent = hydrate_session_bus_env(variables(&[]), &vec![], Some("7".to_string()))
        .answer(&HydrationAnswer::Ran(CommandOutcome::NotStarted(
            String::new(),
        )))
        .answer(&HydrationAnswer::Exists(false))
        .answer(&HydrationAnswer::Exists(false));
    assert!(matches!(absent.request(), HydrationRequest::Nothing));
    assert_eq!(absent.environment().len(), 0);

    let set = hydrate_session_bus_env(
        variables(&[("XDG_RUNTIME_DIR", "/r"), ("DBUS_SESSION_BUS_ADDRESS", "a")]),
        &vec![],
        None,
    )
    .answer(&HydrationAnswer::Ran(exited(false, b"")));
    assert!(matches!(set.request(), HydrationRequest::Nothing));
}

#[test]
fn systemd_is_asked_where_the_processes_say_it_is() {
    let hydration = hydrate_session_bus_env(
        variables(&[("HOME", "/home/me")]),
        &vec![variables(&[
            ("XDG_RUNTIME_DIR", "/run/user/7"),
            ("HOME", "/root"),
        ])],
        Some("7".to_string()),
    );
    match hydration.request() {
        HydrationRequest::Run {
            environment,
            command,
        } => {
            assert_eq!(value(&environment, "XDG_RUNTIME_DIR"), Some("/run/user/7"));
            assert_eq!(value(&environment, "HOME"), Some("/home/me"));
            assert_eq!(environment.len(), 2);
            assert_eq!(command.program, "systemctl");
            assert_eq!(command.args, vec!["--user", "show-environment"]);
            assert!(!command.session_bus);
        }
        other => panic!("{other:?}"),
    }
    // What was not asked for changes nothing.
    let hydration = hydration.answer(&HydrationAnswer::Exists(true));
    assert!(matches!(
        hydration.request(),
        HydrationRequest::Run { .. }
    ));
}

// Processes.

#[test]
fn parent_is_the_first_that_is_named() {
    assert_eq!(parse_parent_pid("PPid: x\nPPid:\t12 \nPPid: 13"), Some(12));
    assert_eq!(parse_parent_pid("Pid: 1"), None);
    assert_eq!(parse_parent_pid(" PPid: 1"), None);
}

#[test]
fn owner_has_to_be_the_user() {
    let uid = |text: &str| Some(text.to_string());
    assert!(process_owner_matches_current_user(&uid("1000"), Some(1000)));
    assert!(!process_owner_matches_current_user(&uid("1000"), Some(0)));
    assert!(!process_owner_matches_current_user(&uid("1000"), None));
    assert!(!process_owner_matches_current_user(&uid("root"), Some(0)));
    assert!(!process_owner_matches_current_user(&None, Some(0)));
}

#[test]
fn walk_goes_up_to_the_first_process() {
    let walk = desktop_process_environments();
    assert_eq!(walk.stage(), WalkStage::OwnStatus);
    let walk = walk.status(Some("PPid:\t20\n"));
    assert_eq!(walk.stage(), WalkStage::Environ(20));
    let walk = walk.environ(Some(b"DISPLAY=:1\0"));
    assert_eq!(walk.stage(), WalkStage::Status(20));
    let walk = walk.status(Some("PPid:\t1\n"));
    assert_eq!(walk.stage(), WalkStage::InitOwner);
    let walk = walk.owner(&Some("0".to_string()), Some(0));
    assert_eq!(walk.stage(), WalkStage::InitEnviron);
    let walk = walk.environ(Some(b"HOME=/\0"));
    assert_eq!(walk.stage(), WalkStage::Finished);
    let found = walk.environments();
    assert_eq!(found.len(), 1);
    assert_eq!(value(&found[0], "DISPLAY"), Some(":1"));
}

#[test]
fn walk_is_bounded_and_ends() {
    let mut walk = desktop_process_environments();
    let mut visited = 0;
    loop {
        walk = match walk.stage() {
            WalkStage::OwnStatus | WalkStage::Status(_) => walk.status(Some("PPid: 99")),
            WalkStage::Environ(pid) => {
                assert_eq!(pid, 99);
                visited += 1;
                walk.environ(Some(b"A=1"))
            }
            WalkStage::InitOwner => walk.owner(&None, None),
            WalkStage::InitEnviron => walk.environ(None),
            WalkStage::Finished => break,
        };
    }
    assert_eq!(visited, 8);
    assert_eq!(walk.environments().len(), 8);
}

// Sockets and devices.

#[test]
fn socket_candidates_come_in_order() {
    let env = variables(&[("YDOTOOL_SOCKET", "/s"), ("XDG_RUNTIME_DIR", "/r")]);
    assert_eq!(
        ydotool_socket_candidates(&env, &None),
        vec!["/s", "/r/.ydotool_socket", "/tmp/.ydotool_socket"]
    );
    assert_eq!(
        ydotool_socket_candidates(&variables(&[]), &None),
        vec!["/tmp/.ydotool_socket"]
    );
}

#[test]
fn first_connectable_socket_is_reported() {
    let env = variables(&[("YDOTOOL_SOCKET", "/s")]);
    let search = ydotool_socket_check(&env, &None).record(&SocketAttempt::Missing);
    assert_eq!(
        search.candidate().map(String::as_str),
        Some("/tmp/.ydotool_socket")
    );
    let search = search.record(&SocketAttempt::Datagram);
    assert!(search.candidate().is_none());
    let check = search.verdict().unwrap();
    assert!(check.ok);
    assert_eq!(check.detail, "connectable: /tmp/.ydotool_socket");
}

#[test]
fn faults_of_all_sockets_are_reported() {
    let env = variables(&[("YDOTOOL_SOCKET", "/s")]);
    let search = ydotool_socket_check(&env, &None)
        .record(&SocketAttempt::Missing)
        .record(&SocketAttempt::Refused {
            stream_error: "wrong type".to_string(),
            datagram_error: "denied".to_string(),
        });
    let check = search.verdict().unwrap();
    assert!(!check.ok);
    assert_eq!(
        check.detail,
        "no connectable ydotool socket (missing: /s; \
         /tmp/.ydotool_socket: stream: wrong type; datagram: denied)"
    );
    assert!(socket_connect_result("/s", &SocketAttempt::Stream).is_ok());
    assert_eq!(
        socket_connect_result("/s", &SocketAttempt::Missing).unwrap_err(),
        "missing: /s"
    );
}

#[test]
fn device_has_to_be_read_and_written() {
    let detail = |access| read_write_path_check("/dev/uinput", &access).detail;
    assert_eq!(detail(PathAccess::Missing), "missing: /dev/uinput");
    assert_eq!(detail(PathAccess::Opened), "read/write: /dev/uinput");
    assert_eq!(
        detail(PathAccess::Refused("denied".to_string())),
        "/dev/uinput: denied"
    );
    assert!(read_write_path_check("/d", &PathAccess::Opened).ok);
    assert!(!read_write_path_check("/d", &PathAccess::Missing).ok);
}

// Paths.

#[test]
fn paths_are_the_same_as_std_has_it() {
    let paths = [
        "", "/", ".", "./", "./a", "a", "a/", "a/.", "a//b", "a/b", "a/./b", "/a", "//a", "/a/.",
        "/./a", "..", "a/..", "./.", "../a", "/..",
    ];
    for a in paths {
        for b in paths {
            assert_eq!(
                is_same_path(a.as_bytes(), b.as_bytes()),
                std::path::Path::new(a) == std::path::Path::new(b),
                "{a} {b}"
            );
        }
    }
}

#[test]
fn common_directories_are_added_once() {
    let complete = |path: Option<&str>, present: [bool; 4]| {
        String::from_utf8(hydrate_common_command_path(
            path.map(str::as_bytes),
            &present,
        ))
        .unwrap()
    };
    assert_eq!(COMMON_COMMAND_DIRS.len(), 4);
    assert_eq!(
        complete(Some("/x:/usr/bin/"), [true, false, true, true]),
        "/x:/usr/bin/:/run/current-system/sw/bin:/bin"
    );
    let once = complete(Some("/x::/y"), [false, true, true, false]);
    assert_eq!(once, "/x::/y:/usr/local/bin:/usr/bin");
    assert_eq!(complete(Some(&once), [false, true, true, false]), once);
    assert_eq!(complete(None, [false; 4]), "");
    assert_eq!(complete(None, [false, false, false, true]), "/bin");
    assert_eq!(complete(Some(""), [false, false, false, true]), ":/bin");
}

#[test]
fn desktop_directories_are_searched_once() {
    let dirs = |home: Option<&str>, data: Option<&str>| {
        desktop_search_dirs(home.map(str::as_bytes), data)
            .into_iter()
            .map(|dir| String::from_utf8(dir).unwrap())
            .collect::<Vec<_>>()
    };
    assert_eq!(
        dirs(Some("/home/u"), None),
        vec![
            "/home/u/.local/share/applications",
            "/home/u/.local/share/flatpak/exports/share/applications",
            "/usr/local/share/applications",
            "/usr/share/applications",
            "/var/lib/flatpak/exports/share/applications",
        ]
    );
    assert_eq!(
        dirs(
            None,
            Some("/a::/a/:/var/lib/flatpak/exports/share:relative")
        ),
        vec![
            "/a/applications",
            "/var/lib/flatpak/exports/share/applications",
            "relative/applications",
        ]
    );
    assert_eq!(
        dirs(None, Some("")),
        vec!["/var/lib/flatpak/exports/share/applications"]
    );
    assert_eq!(
        dirs(Some(""), Some("here:/here:./here:/")),
        vec![
            ".local/share/applications",
            ".local/share/flatpak/exports/share/applications",
            "here/applications",
            "/here/applications",
            "./here/applications",
            "/applications",
            "/var/lib/flatpak/exports/share/applications",
        ]
    );
}
