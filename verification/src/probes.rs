//! The probes of the doctor: which commands tell what about the desktop.

use vstd::prelude::*;

use crate::command::{
    command_spec, command_texts, fresh_probe, single_probe, CommandSpec, CommandText, Probe,
    ProbeState,
};
use crate::scan::slices;

verus! {

// ---------------------------------------------------------------------------
// Model.
// ---------------------------------------------------------------------------

/// A command that is told where the session bus is.
pub open spec fn on_bus(program: Seq<char>, args: Seq<Seq<char>>) -> CommandText {
    CommandText { program, args, session_bus: true }
}

/// The probe whether a name is owned on the session bus.
pub open spec fn bus_name_probe(name: Seq<char>) -> ProbeState {
    single_probe("busctl"@, seq!["--user"@, "status"@, name], true)
}

/// The probe whether the desktop portal offers an interface.
pub open spec fn portal_interface_probe(interface: Seq<char>) -> ProbeState {
    single_probe(
        "busctl"@,
        seq![
            "--user"@,
            "introspect"@,
            "org.freedesktop.portal.Desktop"@,
            "/org/freedesktop/portal/desktop"@,
            interface,
        ],
        true,
    )
}

/// The `gdbus` command that calls a method.
pub open spec fn gdbus_command(
    destination: Seq<char>,
    object_path: Seq<char>,
    method: Seq<char>,
    args: Seq<Seq<char>>,
) -> CommandText {
    on_bus(
        "gdbus"@,
        seq![
            "call"@,
            "--session"@,
            "--dest"@,
            destination,
            "--object-path"@,
            object_path,
            "--method"@,
            method,
        ] + args,
    )
}

/// The probe for the address of the accessibility bus.
pub open spec fn atspi_bus_probe() -> ProbeState {
    fresh_probe(
        seq![
            on_bus(
                "busctl"@,
                seq![
                    "--user"@,
                    "call"@,
                    "org.a11y.Bus"@,
                    "/org/a11y/bus"@,
                    "org.a11y.Bus"@,
                    "GetAddress"@,
                ],
            ),
            gdbus_command(
                "org.a11y.Bus"@,
                "/org/a11y/bus"@,
                "org.a11y.Bus.GetAddress"@,
                seq![],
            ),
        ],
        None,
    )
}

/// The probe for a property of the accessibility status.
pub open spec fn atspi_status_probe(property: Seq<char>) -> ProbeState {
    fresh_probe(
        seq![
            on_bus(
                "busctl"@,
                seq![
                    "--user"@,
                    "get-property"@,
                    "org.a11y.Bus"@,
                    "/org/a11y/bus"@,
                    "org.a11y.Status"@,
                    property,
                ],
            ),
            gdbus_command(
                "org.a11y.Bus"@,
                "/org/a11y/bus"@,
                "org.freedesktop.DBus.Properties.Get"@,
                seq!["org.a11y.Status"@, property],
            ),
        ],
        None,
    )
}

// ---------------------------------------------------------------------------
// Laws.
// ---------------------------------------------------------------------------

/// A probe asks for what it is given: a name, an interface, or a property, which is
/// the last word of each of its commands. All of them are told where the session
/// bus is; the accessibility bus is asked with `busctl` first, and with `gdbus`
/// where that fails.
pub proof fn probes_ask_for_what_they_are_given(x: Seq<char>, i: int)
    ensures
        bus_name_probe(x)->remaining.len() == 1,
        bus_name_probe(x)->remaining[0].program == "busctl"@,
        bus_name_probe(x)->remaining[0].args.last() == x,
        bus_name_probe(x)->remaining[0].session_bus,
        portal_interface_probe(x)->remaining.len() == 1,
        portal_interface_probe(x)->remaining[0].program == "busctl"@,
        portal_interface_probe(x)->remaining[0].args.last() == x,
        portal_interface_probe(x)->remaining[0].session_bus,
        atspi_status_probe(x)->remaining.len() == 2,
        atspi_status_probe(x)->remaining[0].program == "busctl"@,
        atspi_status_probe(x)->remaining[1].program == "gdbus"@,
        0 <= i < 2 ==> atspi_status_probe(x)->remaining[i].args.last() == x
            && atspi_status_probe(x)->remaining[i].session_bus,
        atspi_status_probe(x)->Running_exhausted is None,
        atspi_bus_probe()->remaining.len() == 2,
        atspi_bus_probe()->remaining[0].program == "busctl"@,
        atspi_bus_probe()->remaining[1].program == "gdbus"@,
        0 <= i < 2 ==> atspi_bus_probe()->remaining[i].session_bus,
{
}

/// A call with `gdbus` names its destination, its object and its method, each
/// behind its own option, and ends with the arguments of the method.
pub proof fn calls_name_their_method(
    destination: Seq<char>,
    object_path: Seq<char>,
    method: Seq<char>,
    args: Seq<Seq<char>>,
)
    ensures
        ({
            let command = gdbus_command(destination, object_path, method, args);
            &&& command.program == "gdbus"@
            &&& command.args.len() == 8 + args.len()
            &&& command.args[2] == "--dest"@ && command.args[3] == destination
            &&& command.args[4] == "--object-path"@ && command.args[5] == object_path
            &&& command.args[6] == "--method"@ && command.args[7] == method
            &&& command.args.skip(8) == args
        }),
{
    assert(gdbus_command(destination, object_path, method, args).args.skip(8) =~= args);
}

// ---------------------------------------------------------------------------
// Probes.
// ---------------------------------------------------------------------------

/// The probe that runs one command.
pub fn command_check(program: &str, args: &[&str]) -> (r: Probe)
    ensures
        r@ == single_probe(program@, slices(args@), false),
{
    let mut commands: Vec<CommandSpec> = Vec::new();
    commands.push(command_spec(program, args, false));
    assert(command_texts(commands@) =~= seq![
        CommandText { program: program@, args: slices(args@), session_bus: false },
    ]);
    Probe::of(commands)
}

/// The probe that runs one command with the session bus at hand.
pub fn command_check_with_session_bus(program: &str, args: &[&str]) -> (r: Probe)
    ensures
        r@ == single_probe(program@, slices(args@), true),
{
    let mut commands: Vec<CommandSpec> = Vec::new();
    commands.push(command_spec(program, args, true));
    assert(command_texts(commands@) =~= seq![
        CommandText { program: program@, args: slices(args@), session_bus: true },
    ]);
    Probe::of(commands)
}

/// The probe whether a command is installed.
pub fn command_path_check(command: &str) -> (r: Probe)
    ensures
        r@ == single_probe("sh"@, seq!["-c"@, "command -v "@ + command@], false),
{
    let script = "command -v ".to_owned().concat(command);
    let args = ["-c", script.as_str()];
    assert(slices(args@) =~= seq!["-c"@, "command -v "@ + command@]);
    command_check("sh", &args)
}

/// The probe whether a process runs.
pub fn process_check(process_name: &str) -> (r: Probe)
    ensures
        r@ == single_probe("pgrep"@, seq!["-a"@, process_name@], false),
{
    let args = ["-a", process_name];
    assert(slices(args@) =~= seq!["-a"@, process_name@]);
    command_check("pgrep", &args)
}

/// The probe whether a name is owned on the session bus.
pub fn bus_name_check(name: &str) -> (r: Probe)
    ensures
        r@ == bus_name_probe(name@),
{
    let args = ["--user", "status", name];
    assert(slices(args@) =~= seq!["--user"@, "status"@, name@]);
    command_check_with_session_bus("busctl", &args)
}

/// The probe whether the desktop portal offers an interface.
pub fn portal_interface_check(interface: &str) -> (r: Probe)
    ensures
        r@ == portal_interface_probe(interface@),
{
    let args = [
        "--user",
        "introspect",
        "org.freedesktop.portal.Desktop",
        "/org/freedesktop/portal/desktop",
        interface,
    ];
    assert(slices(args@) =~= seq![
        "--user"@,
        "introspect"@,
        "org.freedesktop.portal.Desktop"@,
        "/org/freedesktop/portal/desktop"@,
        interface@,
    ]);
    command_check_with_session_bus("busctl", &args)
}

/// The `gdbus` command that calls a method.
pub fn gdbus_call_check(destination: &str, object_path: &str, method: &str, args: &[&str]) -> (r:
    CommandSpec)
    ensures
        r@ == gdbus_command(destination@, object_path@, method@, slices(args@)),
{
    let fixed = [
        "call",
        "--session",
        "--dest",
        destination,
        "--object-path",
        object_path,
        "--method",
        method,
    ];
    let n: usize = args.len();
    let mut command_args: Vec<&str> = Vec::new();
    let mut i: usize = 0;
    while i < 8
        invariant
            i <= 8,
            fixed@.len() == 8,
            command_args@ == fixed@.take(i as int),
        decreases 8 - i,
    {
        command_args.push(fixed[i]);
        i += 1;
    }
    i = 0;
    assert(command_args@ =~= fixed@ + args@.take(0));
    while i < n
        invariant
            i <= n,
            n == args@.len(),
            command_args@ == fixed@ + args@.take(i as int),
        decreases n - i,
    {
        command_args.push(args[i]);
        assert(command_args@ =~= fixed@ + args@.take(i + 1));
        i += 1;
    }
    assert(slices(command_args@) =~= seq![
        "call"@,
        "--session"@,
        "--dest"@,
        destination@,
        "--object-path"@,
        object_path@,
        "--method"@,
        method@,
    ] + slices(args@));
    command_spec("gdbus", command_args.as_slice(), true)
}

fn first_of_two(first: CommandSpec, second: CommandSpec) -> (r: Probe)
    ensures
        r@ == fresh_probe(seq![first@, second@], None),
{
    let mut commands: Vec<CommandSpec> = Vec::new();
    commands.push(first);
    commands.push(second);
    assert(command_texts(commands@) =~= seq![first@, second@]);
    Probe::of(commands)
}

/// The probe for the address of the accessibility bus.
pub fn atspi_bus_address_check() -> (r: Probe)
    ensures
        r@ == atspi_bus_probe(),
{
    let args = [
        "--user",
        "call",
        "org.a11y.Bus",
        "/org/a11y/bus",
        "org.a11y.Bus",
        "GetAddress",
    ];
    let none: [&str; 0] = [];
    assert(slices(args@) =~= seq![
        "--user"@,
        "call"@,
        "org.a11y.Bus"@,
        "/org/a11y/bus"@,
        "org.a11y.Bus"@,
        "GetAddress"@,
    ]);
    assert(slices(none@) =~= seq![]);
    first_of_two(
        command_spec("busctl", &args, true),
        gdbus_call_check("org.a11y.Bus", "/org/a11y/bus", "org.a11y.Bus.GetAddress", &none),
    )
}

/// The probe for a property of the accessibility status.
pub fn atspi_status_property_check(property: &str) -> (r: Probe)
    ensures
        r@ == atspi_status_probe(property@),
{
    let args = [
        "--user",
        "get-property",
        "org.a11y.Bus",
        "/org/a11y/bus",
        "org.a11y.Status",
        property,
    ];
    let more = ["org.a11y.Status", property];
    assert(slices(args@) =~= seq![
        "--user"@,
        "get-property"@,
        "org.a11y.Bus"@,
        "/org/a11y/bus"@,
        "org.a11y.Status"@,
        property@,
    ]);
    assert(slices(more@) =~= seq!["org.a11y.Status"@, property@]);
    first_of_two(
        command_spec("busctl", &args, true),
        gdbus_call_check(
            "org.a11y.Bus",
            "/org/a11y/bus",
            "org.freedesktop.DBus.Properties.Get",
            &more,
        ),
    )
}

} // verus!
