//! Taking a picture of the screen: the backends, what each of them asks for, and
//! what comes of it.

use vstd::prelude::*;
use vstd::utf8::{
    decode_utf8, encode_utf8, encode_utf8_decode_utf8, encode_utf8_valid_utf8, valid_utf8,
};

use crate::base64_text::{base64_encode, base64_loses_nothing, base64_of, fits_base64};
use crate::bytes::{bytes_of, from_utf8, utf8_text};
use crate::capability::screenshot_backends;
use crate::command::{
    command_spec, written, written_text, CommandOutcome, CommandOutput, CommandSpec, CommandText,
};
use crate::number::{decimal, to_decimal};
use crate::png::{
    extent_is_read_back, picture_size, png_dimensions, png_file, request_token, starts_png,
    token_text, PngFault,
};
use crate::report::{PlatformReport, PortalReport};
use crate::scan::{slices, trimmed};
use crate::session::optional_text;
use crate::text::same_text;
use crate::uri::{path_of_uri, uri_path};

verus! {

/// GNOME Shell's service for pictures, and its interface.
pub const GNOME_SHELL_SCREENSHOT: &'static str = "org.gnome.Shell.Screenshot";

/// The path of that service.
pub const GNOME_SHELL_SCREENSHOT_PATH: &'static str = "/org/gnome/Shell/Screenshot";

/// The desktop portal.
pub const PORTAL: &'static str = "org.freedesktop.portal.Desktop";

/// Its path.
pub const PORTAL_PATH: &'static str = "/org/freedesktop/portal/desktop";

/// Its interface for pictures.
pub const PORTAL_SCREENSHOT: &'static str = "org.freedesktop.portal.Screenshot";

/// The method that takes a picture, of both.
pub const SCREENSHOT_METHOD: &'static str = "Screenshot";

/// The interface under which the portal answers a request.
pub const PORTAL_REQUEST_INTERFACE: &'static str = "org.freedesktop.portal.Request";

/// The signal with which it answers.
pub const PORTAL_RESPONSE_SIGNAL: &'static str = "Response";

/// The paths of all requests lie below this one.
pub const PORTAL_REQUEST_PATH_NAMESPACE: &'static str = "/org/freedesktop/portal/desktop/request";

/// How long the portal's response is waited for, in seconds.
pub const PORTAL_WAIT_SECONDS: u64 = 20;

// ---------------------------------------------------------------------------
// Pictures.
// ---------------------------------------------------------------------------

/// A picture of the screen.
#[derive(Debug, Clone)]
pub struct ScreenshotCapture {
    pub mime_type: String,
    pub data_url: String,
    pub source: String,
    pub width: u32,
    pub height: u32,
}

/// That, as a mathematical value.
pub struct CaptureText {
    pub mime_type: Seq<char>,
    pub data_url: Seq<char>,
    pub source: Seq<char>,
    pub width: u32,
    pub height: u32,
}

impl View for ScreenshotCapture {
    type V = CaptureText;

    open spec fn view(&self) -> CaptureText {
        CaptureText {
            mime_type: self.mime_type@,
            data_url: self.data_url@,
            source: self.source@,
            width: self.width,
            height: self.height,
        }
    }
}

// ---------------------------------------------------------------------------
// Errors.
// ---------------------------------------------------------------------------

/// Why there is no picture.
#[derive(Debug)]
pub enum ScreenshotError {
    /// The path of the file for the picture is not UTF-8.
    PathNotUtf8,
    /// A tool could not be run.
    ToolNotRun { tool: String, reason: String },
    /// A tool failed.
    ToolFailed { tool: String, status: String, stderr: String },
    /// There is no X11 session.
    NoDisplay,
    /// The file with the picture cannot be read.
    Unreadable { path: String, reason: String },
    /// The file with the picture is empty.
    Empty { path: String },
    /// The file holds no picture that can be used.
    BadPicture(PngFault),
    /// GNOME Shell said that it failed.
    GnomeFailed,
    /// The portal refused.
    Denied { code: u32 },
    /// The portal did not say where the picture is.
    NoUri,
    /// The portal named a place that is no file.
    UnsupportedUri { uri: String },
    /// Something on the message bus went wrong, with the cause where there is
    /// one.
    Bus { what: String, cause: Option<String> },
    /// Every backend failed.
    AllFailed { gnome: String, spectacle: String, x11: String, portal: String },
}

/// That, as a mathematical value.
pub enum Fault {
    PathNotUtf8,
    ToolNotRun { tool: Seq<char>, reason: Seq<char> },
    ToolFailed { tool: Seq<char>, status: Seq<char>, stderr: Seq<char> },
    NoDisplay,
    Unreadable { path: Seq<char>, reason: Seq<char> },
    Empty { path: Seq<char> },
    BadPicture(PngFault),
    GnomeFailed,
    Denied { code: u32 },
    NoUri,
    UnsupportedUri { uri: Seq<char> },
    Bus { what: Seq<char>, cause: Option<Seq<char>> },
    AllFailed { gnome: Seq<char>, spectacle: Seq<char>, x11: Seq<char>, portal: Seq<char> },
}

impl View for ScreenshotError {
    type V = Fault;

    open spec fn view(&self) -> Fault {
        match *self {
            ScreenshotError::PathNotUtf8 => Fault::PathNotUtf8,
            ScreenshotError::ToolNotRun { tool, reason } => Fault::ToolNotRun {
                tool: tool@,
                reason: reason@,
            },
            ScreenshotError::ToolFailed { tool, status, stderr } => Fault::ToolFailed {
                tool: tool@,
                status: status@,
                stderr: stderr@,
            },
            ScreenshotError::NoDisplay => Fault::NoDisplay,
            ScreenshotError::Unreadable { path, reason } => Fault::Unreadable {
                path: path@,
                reason: reason@,
            },
            ScreenshotError::Empty { path } => Fault::Empty { path: path@ },
            ScreenshotError::BadPicture(fault) => Fault::BadPicture(fault),
            ScreenshotError::GnomeFailed => Fault::GnomeFailed,
            ScreenshotError::Denied { code } => Fault::Denied { code },
            ScreenshotError::NoUri => Fault::NoUri,
            ScreenshotError::UnsupportedUri { uri } => Fault::UnsupportedUri { uri: uri@ },
            ScreenshotError::Bus { what, cause } => Fault::Bus {
                what: what@,
                cause: optional_text(cause),
            },
            ScreenshotError::AllFailed { gnome, spectacle, x11, portal } => Fault::AllFailed {
                gnome: gnome@,
                spectacle: spectacle@,
                x11: x11@,
                portal: portal@,
            },
        }
    }
}

/// An error in words.
pub open spec fn fault_words(f: Fault) -> Seq<char> {
    match f {
        Fault::PathNotUtf8 => "temporary screenshot path is not valid UTF-8"@,
        Fault::ToolNotRun { tool, reason } => tool + " is not installed or could not be run: "@
            + reason,
        Fault::ToolFailed { tool, status, stderr } => tool + " exited with "@ + status + ": "@ + (
        if stderr.len() == 0 {
            "no output"@
        } else {
            stderr
        }),
        Fault::NoDisplay => "DISPLAY not set, not an X11 session"@,
        Fault::Unreadable { path, reason } => "failed to read screenshot file "@ + path + ": "@
            + reason,
        Fault::Empty { path } => "screenshot file was empty: "@ + path,
        Fault::BadPicture(PngFault::NotPng) => "screenshot file was not a valid PNG"@,
        Fault::BadPicture(PngFault::NoExtent { width, height }) =>
            "screenshot PNG had invalid dimensions "@ + decimal(width as nat) + "x"@ + decimal(
            height as nat,
        ),
        Fault::GnomeFailed => "GNOME Shell reported screenshot failure"@,
        Fault::Denied { code } =>
            "XDG portal screenshot was denied or cancelled with response code "@ + decimal(
            code as nat,
        ),
        Fault::NoUri => "XDG portal screenshot response did not include a uri"@,
        Fault::UnsupportedUri { uri } => "unsupported screenshot uri: "@ + uri,
        Fault::Bus { what, cause } => match cause {
            Some(words) => what + ": "@ + words,
            None => what,
        },
        Fault::AllFailed { gnome, spectacle, x11, portal } => "GNOME Shell screenshot failed: "@
            + gnome + "; spectacle screenshot failed: "@ + spectacle
            + "; X11 screenshot failed: "@ + x11 + "; XDG portal screenshot failed: "@ + portal,
    }
}

impl ScreenshotError {
    /// The error in words, with the causes behind it.
    pub fn message(&self) -> (r: String)
        ensures
            r@ == fault_words(self@),
    {
        match self {
            ScreenshotError::PathNotUtf8 =>
                "temporary screenshot path is not valid UTF-8".to_owned(),
            ScreenshotError::ToolNotRun { tool, reason } => tool.as_str().to_owned().concat(
                " is not installed or could not be run: ",
            ).concat(reason.as_str()),
            ScreenshotError::ToolFailed { tool, status, stderr } => {
                let said = if stderr.as_str().is_empty() {
                    "no output"
                } else {
                    stderr.as_str()
                };
                tool.as_str().to_owned().concat(" exited with ").concat(status.as_str()).concat(
                    ": ",
                ).concat(said)
            },
            ScreenshotError::NoDisplay => "DISPLAY not set, not an X11 session".to_owned(),
            ScreenshotError::Unreadable { path, reason } =>
                "failed to read screenshot file ".to_owned().concat(path.as_str()).concat(
                ": ",
            ).concat(reason.as_str()),
            ScreenshotError::Empty { path } => "screenshot file was empty: ".to_owned().concat(
                path.as_str(),
            ),
            ScreenshotError::BadPicture(fault) => match fault {
                PngFault::NotPng => "screenshot file was not a valid PNG".to_owned(),
                PngFault::NoExtent { width, height } =>
                    "screenshot PNG had invalid dimensions ".to_owned().concat(
                    to_decimal(*width as u128).as_str(),
                ).concat("x").concat(to_decimal(*height as u128).as_str()),
            },
            ScreenshotError::GnomeFailed => "GNOME Shell reported screenshot failure".to_owned(),
            ScreenshotError::Denied { code } =>
                "XDG portal screenshot was denied or cancelled with response code ".to_owned().concat(
            to_decimal(*code as u128).as_str()),
            ScreenshotError::NoUri =>
                "XDG portal screenshot response did not include a uri".to_owned(),
            ScreenshotError::UnsupportedUri { uri } =>
                "unsupported screenshot uri: ".to_owned().concat(uri.as_str()),
            ScreenshotError::Bus { what, cause } => match cause {
                Some(words) => what.as_str().to_owned().concat(": ").concat(words.as_str()),
                None => what.clone(),
            },
            ScreenshotError::AllFailed { gnome, spectacle, x11, portal } =>
                "GNOME Shell screenshot failed: ".to_owned().concat(gnome.as_str()).concat(
                "; spectacle screenshot failed: ",
            ).concat(spectacle.as_str()).concat("; X11 screenshot failed: ").concat(
                x11.as_str(),
            ).concat("; XDG portal screenshot failed: ").concat(portal.as_str()),
        }
    }
}

/// A step on the message bus that can go wrong.
#[derive(Debug, Clone, Copy, PartialEq, Eq, Structural)]
pub enum BusStep {
    /// Connecting to the session bus.
    Connect,
    /// Finding GNOME Shell.
    FindGnomeShell,
    /// Calling GNOME Shell.
    CallGnomeShell,
    /// Subscribing to the portal's responses.
    Subscribe,
    /// Finding the portal.
    FindPortal,
    /// Calling the portal.
    CallPortal,
    /// Waiting for the portal's response no longer than is allowed.
    AwaitResponse,
    /// Receiving the next response.
    ReceiveResponse,
    /// Reading the portal's response.
    DecodeResponse,
    /// Taking the URI out of the response.
    CopyUri,
    /// Reading the URI as text.
    ReadUri,
}

/// What is said where a step goes wrong.
pub open spec fn step_words(step: BusStep) -> Seq<char> {
    match step {
        BusStep::Connect => "failed to connect to session bus"@,
        BusStep::FindGnomeShell => "failed to create GNOME Shell screenshot proxy"@,
        BusStep::CallGnomeShell => "GNOME Shell Screenshot call failed"@,
        BusStep::Subscribe => "failed to subscribe to XDG portal screenshot responses"@,
        BusStep::FindPortal => "failed to create XDG portal screenshot proxy"@,
        BusStep::CallPortal => "XDG portal Screenshot call failed"@,
        BusStep::AwaitResponse => "timed out waiting for XDG portal screenshot response"@,
        BusStep::ReceiveResponse => "XDG portal screenshot response stream failed"@,
        BusStep::DecodeResponse => "failed to decode XDG portal screenshot response"@,
        BusStep::CopyUri => "failed to clone XDG portal screenshot uri"@,
        BusStep::ReadUri => "XDG portal screenshot uri was not a string"@,
    }
}

/// The error of a step.
pub open spec fn step_fault(step: BusStep, cause: Seq<char>) -> Fault {
    Fault::Bus { what: step_words(step), cause: Some(cause) }
}

/// The error of a step on the message bus, with the cause behind it.
pub fn bus_error(step: BusStep, cause: String) -> (r: ScreenshotError)
    ensures
        r@ == step_fault(step, cause@),
{
    let what = match step {
        BusStep::Connect => "failed to connect to session bus",
        BusStep::FindGnomeShell => "failed to create GNOME Shell screenshot proxy",
        BusStep::CallGnomeShell => "GNOME Shell Screenshot call failed",
        BusStep::Subscribe => "failed to subscribe to XDG portal screenshot responses",
        BusStep::FindPortal => "failed to create XDG portal screenshot proxy",
        BusStep::CallPortal => "XDG portal Screenshot call failed",
        BusStep::AwaitResponse => "timed out waiting for XDG portal screenshot response",
        BusStep::ReceiveResponse => "XDG portal screenshot response stream failed",
        BusStep::DecodeResponse => "failed to decode XDG portal screenshot response",
        BusStep::CopyUri => "failed to clone XDG portal screenshot uri",
        BusStep::ReadUri => "XDG portal screenshot uri was not a string",
    };
    ScreenshotError::Bus { what: what.to_owned(), cause: Some(cause) }
}

/// What came of taking a picture, as a mathematical value.
pub type Outcome = Result<CaptureText, Fault>;

/// What came of taking a picture, as a mathematical value.
pub open spec fn outcome_of(r: Result<ScreenshotCapture, ScreenshotError>) -> Outcome {
    match r {
        Ok(capture) => Ok(capture@),
        Err(error) => Err(error@),
    }
}

// ---------------------------------------------------------------------------
// Reading a picture.
// ---------------------------------------------------------------------------

/// What came of reading a file.
#[derive(Debug)]
pub enum FileRead {
    Bytes(Vec<u8>),
    /// The file could not be read, and why.
    Failed(String),
}

/// A file is small enough for its base64 text to be held in memory.
pub open spec fn readable_size(read: FileRead) -> bool {
    read matches FileRead::Bytes(bytes) ==> fits_base64(bytes@.len() as int)
}

/// The picture in a file, or why there is none.
pub open spec fn picture_in(path: Seq<char>, source: Seq<char>, read: FileRead) -> Outcome {
    match read {
        FileRead::Failed(reason) => Err(Fault::Unreadable { path, reason: reason@ }),
        FileRead::Bytes(bytes) => if bytes@.len() == 0 {
            Err(Fault::Empty { path })
        } else {
            match picture_size(bytes@) {
                Err(fault) => Err(Fault::BadPicture(fault)),
                Ok((width, height)) => Ok(
                    CaptureText {
                        mime_type: "image/png"@,
                        data_url: "data:image/png;base64,"@ + base64_of(bytes@),
                        source,
                        width,
                        height,
                    },
                ),
            }
        },
    }
}

/// Makes a picture of what a file holds.
pub fn read_png_as_capture_inner(path: &str, source: &str, read: &FileRead) -> (r: Result<
    ScreenshotCapture,
    ScreenshotError,
>)
    requires
        readable_size(*read),
    ensures
        outcome_of(r) == picture_in(path@, source@, *read),
{
    match read {
        FileRead::Failed(reason) => Err(
            ScreenshotError::Unreadable { path: path.to_owned(), reason: reason.clone() },
        ),
        FileRead::Bytes(bytes) => {
            if bytes.len() == 0 {
                return Err(ScreenshotError::Empty { path: path.to_owned() });
            }
            match png_dimensions(bytes.as_slice()) {
                Err(fault) => Err(ScreenshotError::BadPicture(fault)),
                Ok((width, height)) => {
                    let encoded = base64_encode(bytes.as_slice());
                    Ok(
                        ScreenshotCapture {
                            mime_type: "image/png".to_owned(),
                            data_url: "data:image/png;base64,".to_owned().concat(encoded.as_str()),
                            source: source.to_owned(),
                            width,
                            height,
                        },
                    )
                },
            }
        },
    }
}

/// The text of a picture tells every byte of its file.
pub proof fn picture_tells_its_bytes(
    path: Seq<char>,
    source: Seq<char>,
    a: Vec<u8>,
    b: Vec<u8>,
)
    requires
        picture_in(path, source, FileRead::Bytes(a)) is Ok,
        picture_in(path, source, FileRead::Bytes(b)) is Ok,
        picture_in(path, source, FileRead::Bytes(a))->Ok_0.data_url == picture_in(
            path,
            source,
            FileRead::Bytes(b),
        )->Ok_0.data_url,
    ensures
        a@ == b@,
{
    let head = "data:image/png;base64,"@;
    let n = head.len() as int;
    assert((head + base64_of(a@)).skip(n) =~= base64_of(a@));
    assert((head + base64_of(b@)).skip(n) =~= base64_of(b@));
    base64_loses_nothing(a@, b@);
}

/// What is to be done with a file once a backend is through.
#[derive(Debug)]
pub enum ScreenshotCleanup {
    /// The file at the path is to be deleted.
    DeletePath(Vec<u8>),
    Preserve,
}

/// The path of the file to be deleted.
pub open spec fn deleted_path(cleanup: ScreenshotCleanup) -> Option<Seq<u8>> {
    match cleanup {
        ScreenshotCleanup::DeletePath(path) => Some(path@),
        ScreenshotCleanup::Preserve => None,
    }
}

/// Makes a picture of what a file holds, and tells which file is to be deleted
/// then, whatever came of it.
pub fn read_png_as_capture(
    path: &str,
    source: &str,
    cleanup: ScreenshotCleanup,
    read: &FileRead,
) -> (r: (Result<ScreenshotCapture, ScreenshotError>, Option<Vec<u8>>))
    requires
        readable_size(*read),
    ensures
        outcome_of(r.0) == picture_in(path@, source@, *read),
        r.1 is Some <==> cleanup is DeletePath,
        r.1 is Some ==> Some(r.1->0@) == deleted_path(cleanup),
{
    let result = read_png_as_capture_inner(path, source, read);
    let deleted: Option<Vec<u8>> = match cleanup {
        ScreenshotCleanup::DeletePath(path) => Some(path),
        ScreenshotCleanup::Preserve => None,
    };
    (result, deleted)
}

// ---------------------------------------------------------------------------
// The tools.
// ---------------------------------------------------------------------------

/// A tool that writes a picture of the screen to a file.
#[derive(Debug, Clone, Copy, PartialEq, Eq, Structural)]
pub enum Tool {
    Spectacle,
    Scrot,
    Maim,
}

/// The program of a tool.
pub open spec fn program_of(tool: Tool) -> Seq<char> {
    match tool {
        Tool::Spectacle => "spectacle"@,
        Tool::Scrot => "scrot"@,
        Tool::Maim => "maim"@,
    }
}

/// The command that makes a tool write to the given file.
pub open spec fn tool_command(tool: Tool, filename: Seq<char>) -> CommandText {
    CommandText {
        program: program_of(tool),
        args: match tool {
            Tool::Spectacle => seq![
                "--background"@,
                "--nonotify"@,
                "--fullscreen"@,
                "--output"@,
                filename,
            ],
            Tool::Scrot => seq!["--silent"@, filename],
            Tool::Maim => seq![filename],
        },
        session_bus: false,
    }
}

/// What a picture of a tool is labelled with.
pub open spec fn tool_source(tool: Tool) -> Seq<char> {
    match tool {
        Tool::Spectacle => "spectacle"@,
        Tool::Scrot => "x11-scrot"@,
        Tool::Maim => "x11-maim"@,
    }
}

/// What is wrong with the run of a tool; none where the picture can be read.
pub open spec fn tool_fault(tool: Tool, outcome: CommandOutcome) -> Option<Fault> {
    match outcome {
        CommandOutcome::NotStarted(reason) => Some(
            Fault::ToolNotRun { tool: program_of(tool), reason: reason@ },
        ),
        CommandOutcome::Exited(output) => if output.success {
            None
        } else {
            Some(
                Fault::ToolFailed {
                    tool: program_of(tool),
                    status: output.status@,
                    stderr: written(output.stderr@),
                },
            )
        },
    }
}

fn program_name(tool: Tool) -> (r: &'static str)
    ensures
        r@ == program_of(tool),
{
    match tool {
        Tool::Spectacle => "spectacle",
        Tool::Scrot => "scrot",
        Tool::Maim => "maim",
    }
}

fn source_name(tool: Tool) -> (r: &'static str)
    ensures
        r@ == tool_source(tool),
{
    match tool {
        Tool::Spectacle => "spectacle",
        Tool::Scrot => "x11-scrot",
        Tool::Maim => "x11-maim",
    }
}

fn command_of_tool(tool: Tool, filename: &str) -> (r: CommandSpec)
    ensures
        r@ == tool_command(tool, filename@),
{
    match tool {
        Tool::Spectacle => {
            let args = ["--background", "--nonotify", "--fullscreen", "--output", filename];
            assert(slices(args@) =~= seq![
                "--background"@,
                "--nonotify"@,
                "--fullscreen"@,
                "--output"@,
                filename@,
            ]);
            command_spec("spectacle", &args, false)
        },
        Tool::Scrot => {
            let args = ["--silent", filename];
            assert(slices(args@) =~= seq!["--silent"@, filename@]);
            command_spec("scrot", &args, false)
        },
        Tool::Maim => {
            let args = [filename];
            assert(slices(args@) =~= seq![filename@]);
            command_spec("maim", &args, false)
        },
    }
}

fn fault_of_tool(tool: Tool, outcome: &CommandOutcome) -> (r: Option<ScreenshotError>)
    ensures
        r is Some <==> tool_fault(tool, *outcome) is Some,
        r is Some ==> Some(r->0@) == tool_fault(tool, *outcome),
{
    match outcome {
        CommandOutcome::NotStarted(reason) => Some(
            ScreenshotError::ToolNotRun {
                tool: program_name(tool).to_owned(),
                reason: reason.clone(),
            },
        ),
        CommandOutcome::Exited(output) => if output.success {
            None
        } else {
            Some(
                ScreenshotError::ToolFailed {
                    tool: program_name(tool).to_owned(),
                    status: output.status.clone(),
                    stderr: written_text(&output.stderr),
                },
            )
        },
    }
}

// ---------------------------------------------------------------------------
// One backend as a mathematical value.
// ---------------------------------------------------------------------------

/// How far a backend has come.
pub enum ShotState {
    /// GNOME Shell has to be asked to write to the file.
    Calling { filename: Seq<char> },
    /// A tool has to be run, and where it fails those that are left.
    Running { tool: Tool, rest: Seq<Tool>, filename: Seq<char> },
    /// The picture has to be read; where it is none the tools that are left
    /// have to be run.
    Reading { path: Seq<char>, source: Seq<char>, rest: Seq<Tool> },
    Settled(Outcome),
}

/// What a backend asks for.
pub enum ShotRequestText {
    Call { include_cursor: bool, flash: bool, filename: Seq<char> },
    Run(CommandText),
    Read(Seq<char>),
    Nothing,
}

/// What a backend is told.
#[derive(Debug)]
pub enum ShotAnswer {
    /// What GNOME Shell said: whether it succeeded, and the file that it wrote
    /// to; or why the call failed.
    Called(Result<(bool, String), String>),
    Ran(CommandOutcome),
    Read(FileRead),
}

/// A file that is read is small enough for its base64 text.
pub open spec fn answer_fits(answer: ShotAnswer) -> bool {
    answer matches ShotAnswer::Read(read) ==> readable_size(read)
}

/// The backend with the given fault: on to the tools that are left, or the end.
pub open spec fn after_fault(rest: Seq<Tool>, filename: Seq<char>, fault: Fault) -> ShotState {
    if rest.len() > 0 {
        ShotState::Running { tool: rest[0], rest: rest.skip(1), filename }
    } else {
        ShotState::Settled(Err(fault))
    }
}

/// A backend that runs tools on the file at the given path.
pub open spec fn tools_start(path: Seq<u8>, tool: Tool, rest: Seq<Tool>) -> ShotState {
    if valid_utf8(path) {
        ShotState::Running { tool, rest, filename: decode_utf8(path) }
    } else {
        ShotState::Settled(Err(Fault::PathNotUtf8))
    }
}

/// GNOME Shell with the file at the given path.
pub open spec fn gnome_start(path: Seq<u8>) -> ShotState {
    if valid_utf8(path) {
        ShotState::Calling { filename: decode_utf8(path) }
    } else {
        ShotState::Settled(Err(Fault::PathNotUtf8))
    }
}

/// The X11 tools with the file at the given path.
pub open spec fn x11_start(display_set: bool, path: Seq<u8>) -> ShotState {
    if display_set {
        tools_start(path, Tool::Scrot, seq![Tool::Maim])
    } else {
        ShotState::Settled(Err(Fault::NoDisplay))
    }
}

/// What the portal said of where the picture is.
#[derive(Debug)]
pub enum UriReply {
    Missing,
    Text(String),
    /// It could not be taken out of the response, and why.
    NotCopied(String),
    /// It was no text, and why not.
    NotText(String),
}

/// The portal with the given response.
pub open spec fn portal_start(code: u32, uri: UriReply) -> ShotState {
    if code != 0 {
        ShotState::Settled(Err(Fault::Denied { code }))
    } else {
        match uri {
            UriReply::Missing => ShotState::Settled(Err(Fault::NoUri)),
            UriReply::NotCopied(reason) => ShotState::Settled(
                Err(step_fault(BusStep::CopyUri, reason@)),
            ),
            UriReply::NotText(reason) => ShotState::Settled(
                Err(step_fault(BusStep::ReadUri, reason@)),
            ),
            UriReply::Text(text) => match uri_path(text@) {
                Some(path) => ShotState::Reading {
                    path,
                    source: "xdg-desktop-portal"@,
                    rest: seq![],
                },
                None => ShotState::Settled(Err(Fault::UnsupportedUri { uri: text@ })),
            },
        }
    }
}

/// What a backend asks for.
pub open spec fn shot_request(s: ShotState) -> ShotRequestText {
    match s {
        ShotState::Calling { filename } => ShotRequestText::Call {
            include_cursor: false,
            flash: false,
            filename,
        },
        ShotState::Running { tool, rest, filename } => ShotRequestText::Run(
            tool_command(tool, filename),
        ),
        ShotState::Reading { path, source, rest } => ShotRequestText::Read(path),
        ShotState::Settled(_) => ShotRequestText::Nothing,
    }
}

/// A backend after an answer. An answer to something else leaves it as it is.
pub open spec fn shot_step(s: ShotState, answer: ShotAnswer) -> ShotState {
    match (s, answer) {
        (ShotState::Calling { filename }, ShotAnswer::Called(reply)) => match reply {
            Err(reason) => ShotState::Settled(Err(step_fault(BusStep::CallGnomeShell, reason@))),
            Ok((success, used)) => if success {
                ShotState::Reading { path: used@, source: "gnome-shell"@, rest: seq![] }
            } else {
                ShotState::Settled(Err(Fault::GnomeFailed))
            },
        },
        (
            ShotState::Running { tool, rest, filename },
            ShotAnswer::Ran(outcome),
        ) => match tool_fault(tool, outcome) {
            None => ShotState::Reading { path: filename, source: tool_source(tool), rest },
            Some(fault) => after_fault(rest, filename, fault),
        },
        (ShotState::Reading { path, source, rest }, ShotAnswer::Read(read)) => match picture_in(
            path,
            source,
            read,
        ) {
            Ok(capture) => ShotState::Settled(Ok(capture)),
            Err(fault) => after_fault(rest, path, fault),
        },
        _ => s,
    }
}

/// A backend after each of the given answers in turn.
pub open spec fn shot_run(s: ShotState, answers: Seq<ShotAnswer>) -> ShotState
    decreases answers.len(),
{
    if answers.len() == 0 {
        s
    } else {
        shot_step(shot_run(s, answers.drop_last()), answers.last())
    }
}

// ---------------------------------------------------------------------------
// Laws of a backend.
// ---------------------------------------------------------------------------

/// How many answers a backend waits for at most.
pub open spec fn shot_rank(s: ShotState) -> int {
    match s {
        ShotState::Calling { .. } => 2,
        ShotState::Running { tool, rest, filename } => 2 * (rest.len() as int) + 2,
        ShotState::Reading { path, source, rest } => 2 * (rest.len() as int) + 1,
        ShotState::Settled(_) => 0,
    }
}

/// An answer is to what was asked for.
pub open spec fn answers_shot(request: ShotRequestText, answer: ShotAnswer) -> bool {
    match request {
        ShotRequestText::Call { .. } => answer is Called,
        ShotRequestText::Run(_) => answer is Ran,
        ShotRequestText::Read(_) => answer is Read,
        ShotRequestText::Nothing => false,
    }
}

/// A backend asks for something until it is settled, and every answer to what
/// it asks for brings it closer to its end.
pub proof fn backend_ends(s: ShotState, answer: ShotAnswer)
    ensures
        shot_request(s) == ShotRequestText::Nothing <==> s is Settled,
        answers_shot(shot_request(s), answer) ==> 0 <= shot_rank(shot_step(s, answer)) < shot_rank(
            s,
        ),
        !answers_shot(shot_request(s), answer) ==> shot_step(s, answer) == s,
{
}

/// A picture that a backend took is labelled with one of its sources, and is a
/// PNG picture with an extent.
pub open spec fn sound_picture(s: ShotState) -> bool {
    s matches ShotState::Settled(Ok(capture)) ==> {
        &&& capture.mime_type == "image/png"@
        &&& capture.width > 0
        &&& capture.height > 0
    }
}

/// Every picture that comes of a backend is a PNG picture with an extent.
pub proof fn pictures_have_an_extent(s: ShotState, answers: Seq<ShotAnswer>)
    requires
        sound_picture(s),
    ensures
        sound_picture(shot_run(s, answers)),
    decreases answers.len(),
{
    if answers.len() > 0 {
        pictures_have_an_extent(s, answers.drop_last());
    }
}

/// Where `scrot` fails in whatever way, `maim` decides alone: its picture is
/// taken, and its fault is the one that is reported.
pub proof fn second_tool_decides(path: Seq<u8>, first: CommandOutcome, second: CommandOutcome)
    requires
        valid_utf8(path),
        tool_fault(Tool::Scrot, first) is Some,
    ensures
        shot_step(
            shot_step(x11_start(true, path), ShotAnswer::Ran(first)),
            ShotAnswer::Ran(second),
        ) == (match tool_fault(Tool::Maim, second) {
            None => ShotState::Reading {
                path: decode_utf8(path),
                source: "x11-maim"@,
                rest: seq![],
            },
            Some(fault) => ShotState::Settled(Err(fault)),
        }),
{
    assert(seq![Tool::Maim].skip(1) =~= seq![]);
}

/// A good picture ends the backend at once, whatever tools are left: it is taken
/// as it is, with the label of the tool and the extent in the file.
pub proof fn good_picture_is_taken(
    path: Seq<char>,
    source: Seq<char>,
    rest: Seq<Tool>,
    length: Seq<u8>,
    width: u32,
    height: u32,
    tail: Seq<u8>,
    file: Vec<u8>,
)
    requires
        length.len() == 4,
        width > 0,
        height > 0,
        file@ == png_file(length, width, height, tail),
    ensures
        shot_step(
            ShotState::Reading { path, source, rest },
            ShotAnswer::Read(FileRead::Bytes(file)),
        ) == ShotState::Settled(
            Ok(
                CaptureText {
                    mime_type: "image/png"@,
                    data_url: "data:image/png;base64,"@ + base64_of(file@),
                    source,
                    width,
                    height,
                },
            ),
        ),
{
    extent_is_read_back(length, width, height, tail);
}

/// The backend is settled with a picture exactly where the file that is read is
/// one; every other file brings the next tool, to write to the same file, or the
/// end where none is left.
pub proof fn only_a_bad_picture_brings_the_next_tool(
    path: Seq<char>,
    source: Seq<char>,
    rest: Seq<Tool>,
    read: FileRead,
)
    ensures
        ({
            let after = shot_step(ShotState::Reading { path, source, rest }, ShotAnswer::Read(read));
            let good = read is Bytes && picture_size(read->Bytes_0@) is Ok;
            &&& good ==> after is Settled && after->Settled_0 == picture_in(path, source, read)
                && after->Settled_0 is Ok
            &&& good ==> after->Settled_0->Ok_0.source == source
            &&& !good && rest.len() > 0 ==> after == (ShotState::Running {
                tool: rest[0],
                rest: rest.skip(1),
                filename: path,
            })
            &&& !good && rest.len() == 0 ==> after is Settled && after->Settled_0 is Err
        }),
{
    if read is Bytes && read->Bytes_0@.len() == 0 {
        assert(!starts_png(read->Bytes_0@));
    }
}

/// `scrot` is asked for first, on the file at the given path. Where it succeeds
/// the file is read, and where that is a picture the work is done: it is labelled
/// with `scrot`, and no other tool is asked for.
pub proof fn scrot_is_enough(
    name: Seq<char>,
    output: CommandOutput,
    length: Seq<u8>,
    width: u32,
    height: u32,
    tail: Seq<u8>,
    file: Vec<u8>,
)
    requires
        output.success,
        length.len() == 4,
        width > 0,
        height > 0,
        file@ == png_file(length, width, height, tail),
    ensures
        ({
            let start = x11_start(true, encode_utf8(name));
            let ran = shot_step(start, ShotAnswer::Ran(CommandOutcome::Exited(output)));
            let read = shot_step(ran, ShotAnswer::Read(FileRead::Bytes(file)));
            &&& shot_request(start) == ShotRequestText::Run(
                CommandText {
                    program: "scrot"@,
                    args: seq!["--silent"@, name],
                    session_bus: false,
                },
            )
            &&& shot_request(ran) == ShotRequestText::Read(name)
            &&& shot_request(read) == ShotRequestText::Nothing
            &&& read is Settled && read->Settled_0 is Ok
            &&& read->Settled_0->Ok_0.source == "x11-scrot"@
            &&& read->Settled_0->Ok_0.width == width
            &&& read->Settled_0->Ok_0.height == height
        }),
{
    encode_utf8_valid_utf8(name);
    encode_utf8_decode_utf8(name);
    extent_is_read_back(length, width, height, tail);
}

/// Where `scrot` could not be started, or failed, or wrote no picture, `maim` is
/// asked for on the same file; where it succeeds with a picture that is taken, and
/// labelled with `maim`; and where it fails there is no other tool.
pub proof fn maim_stands_in_for_scrot(
    name: Seq<char>,
    first: CommandOutcome,
    bad: FileRead,
    second: CommandOutcome,
    length: Seq<u8>,
    width: u32,
    height: u32,
    tail: Seq<u8>,
    file: Vec<u8>,
)
    requires
        bad is Bytes ==> picture_size(bad->Bytes_0@) is Err,
        length.len() == 4,
        width > 0,
        height > 0,
        file@ == png_file(length, width, height, tail),
    ensures
        ({
            let scrot_ran = shot_step(x11_start(true, encode_utf8(name)), ShotAnswer::Ran(first));
            let scrot_works = first is Exited && first->Exited_0.success;
            let left = if scrot_works {
                shot_step(scrot_ran, ShotAnswer::Read(bad))
            } else {
                scrot_ran
            };
            let maim_ran = shot_step(left, ShotAnswer::Ran(second));
            let maim_works = second is Exited && second->Exited_0.success;
            let good = shot_step(maim_ran, ShotAnswer::Read(FileRead::Bytes(file)));
            let spoilt = shot_step(maim_ran, ShotAnswer::Read(bad));
            &&& shot_request(left) == ShotRequestText::Run(
                CommandText { program: "maim"@, args: seq![name], session_bus: false },
            )
            &&& maim_works ==> shot_request(maim_ran) == ShotRequestText::Read(name)
            &&& maim_works ==> good is Settled && good->Settled_0 is Ok
                && good->Settled_0->Ok_0.source == "x11-maim"@
            &&& maim_works ==> spoilt is Settled && spoilt->Settled_0 is Err
            &&& !maim_works ==> maim_ran is Settled && maim_ran->Settled_0 is Err
        }),
{
    encode_utf8_valid_utf8(name);
    encode_utf8_decode_utf8(name);
    extent_is_read_back(length, width, height, tail);
    assert(seq![Tool::Maim].skip(1) =~= seq![]);
    only_a_bad_picture_brings_the_next_tool(name, "x11-scrot"@, seq![Tool::Maim], bad);
    only_a_bad_picture_brings_the_next_tool(name, "x11-maim"@, seq![], bad);
}

/// Without a display no tool is run, and the fault says so.
pub proof fn no_display_no_tool(path: Seq<u8>)
    ensures
        x11_start(false, path) == ShotState::Settled(Err(Fault::NoDisplay)),
{
}

/// `spectacle` writes the whole screen to the file in the background, without a
/// notification; its picture is labelled with it, and there is no tool after it.
pub proof fn spectacle_stands_alone(
    name: Seq<char>,
    outcome: CommandOutcome,
    bad: FileRead,
    length: Seq<u8>,
    width: u32,
    height: u32,
    tail: Seq<u8>,
    file: Vec<u8>,
)
    requires
        bad is Bytes ==> picture_size(bad->Bytes_0@) is Err,
        length.len() == 4,
        width > 0,
        height > 0,
        file@ == png_file(length, width, height, tail),
    ensures
        ({
            let start = tools_start(encode_utf8(name), Tool::Spectacle, seq![]);
            let ran = shot_step(start, ShotAnswer::Ran(outcome));
            let works = outcome is Exited && outcome->Exited_0.success;
            let good = shot_step(ran, ShotAnswer::Read(FileRead::Bytes(file)));
            let spoilt = shot_step(ran, ShotAnswer::Read(bad));
            &&& shot_request(start) == ShotRequestText::Run(
                CommandText {
                    program: "spectacle"@,
                    args: seq![
                        "--background"@,
                        "--nonotify"@,
                        "--fullscreen"@,
                        "--output"@,
                        name,
                    ],
                    session_bus: false,
                },
            )
            &&& works ==> shot_request(ran) == ShotRequestText::Read(name)
            &&& works ==> good is Settled && good->Settled_0 is Ok
                && good->Settled_0->Ok_0.source == "spectacle"@
            &&& works ==> spoilt is Settled && spoilt->Settled_0 is Err
            &&& !works ==> ran is Settled && ran->Settled_0 is Err
        }),
{
    encode_utf8_valid_utf8(name);
    encode_utf8_decode_utf8(name);
    extent_is_read_back(length, width, height, tail);
    only_a_bad_picture_brings_the_next_tool(name, "spectacle"@, seq![], bad);
}

/// GNOME Shell is asked for a picture without the pointer and without a flash,
/// and the file that it says it used is the one that is read; its picture is
/// labelled with it. A call that fails, or that says it failed, is the end.
pub proof fn gnome_shell_names_its_file(
    name: Seq<char>,
    success: bool,
    used: String,
    reason: String,
    length: Seq<u8>,
    width: u32,
    height: u32,
    tail: Seq<u8>,
    file: Vec<u8>,
)
    requires
        length.len() == 4,
        width > 0,
        height > 0,
        file@ == png_file(length, width, height, tail),
    ensures
        ({
            let start = gnome_start(encode_utf8(name));
            let called = shot_step(start, ShotAnswer::Called(Ok((success, used))));
            let failed = shot_step(start, ShotAnswer::Called(Err(reason)));
            let good = shot_step(called, ShotAnswer::Read(FileRead::Bytes(file)));
            &&& shot_request(start) == (ShotRequestText::Call {
                include_cursor: false,
                flash: false,
                filename: name,
            })
            &&& success ==> shot_request(called) == ShotRequestText::Read(used@)
            &&& success ==> good is Settled && good->Settled_0 is Ok
                && good->Settled_0->Ok_0.source == "gnome-shell"@
            &&& !success ==> called == ShotState::Settled(Err(Fault::GnomeFailed))
            &&& failed == ShotState::Settled(
                Err(
                    Fault::Bus {
                        what: "GNOME Shell Screenshot call failed"@,
                        cause: Some(reason@),
                    },
                ),
            )
        }),
{
    encode_utf8_valid_utf8(name);
    encode_utf8_decode_utf8(name);
    extent_is_read_back(length, width, height, tail);
}

/// The portal's picture is read where the portal agreed, with the code zero, and
/// named a file by its URI; every other code is told as a refusal.
pub proof fn portal_names_its_file(
    code: u32,
    uri: UriReply,
    text: String,
    path: Seq<char>,
    length: Seq<u8>,
    width: u32,
    height: u32,
    tail: Seq<u8>,
    file: Vec<u8>,
)
    requires
        uri_path(text@) == Some(path),
        length.len() == 4,
        width > 0,
        height > 0,
        file@ == png_file(length, width, height, tail),
    ensures
        ({
            let start = portal_start(0, UriReply::Text(text));
            let good = shot_step(start, ShotAnswer::Read(FileRead::Bytes(file)));
            &&& shot_request(start) == ShotRequestText::Read(path)
            &&& good is Settled && good->Settled_0 is Ok && good->Settled_0->Ok_0.source
                == "xdg-desktop-portal"@
            &&& code != 0 ==> portal_start(code, uri) == ShotState::Settled(
                Err(Fault::Denied { code }),
            )
            &&& portal_start(0, UriReply::Missing) == ShotState::Settled(Err(Fault::NoUri))
            &&& uri is Text && uri_path(uri->Text_0@) is None ==> portal_start(0, uri)
                == ShotState::Settled(Err(Fault::UnsupportedUri { uri: uri->Text_0@ }))
        }),
{
    extent_is_read_back(length, width, height, tail);
}

/// A tool that could not be started is told with the reason, and one that failed
/// with its status and the words that it left.
pub proof fn faults_of_tools_tell_the_tool(reason: String, output: CommandOutput, tool: Tool)
    requires
        !output.success,
    ensures
        ({
            let name = match tool {
                Tool::Spectacle => "spectacle"@,
                Tool::Scrot => "scrot"@,
                Tool::Maim => "maim"@,
            };
            let said = trimmed(utf8_text(output.stderr@));
            let failed = tool_fault(tool, CommandOutcome::Exited(output));
            let missing = tool_fault(tool, CommandOutcome::NotStarted(reason));
            &&& missing is Some && fault_words(missing->0) == name
                + " is not installed or could not be run: "@ + reason@
            &&& failed is Some
            &&& said.len() > 0 ==> fault_words(failed->0) == name + " exited with "@
                + output.status@ + ": "@ + said
            &&& said.len() == 0 ==> fault_words(failed->0) == name + " exited with "@
                + output.status@ + ": no output"@
        }),
{
    reveal_strlit(": ");
    reveal_strlit("no output");
    reveal_strlit(": no output");
    let name = program_of(tool);
    assert(": "@ + "no output"@ =~= ": no output"@);
    assert((name + " exited with "@ + output.status@ + ": "@) + "no output"@ =~= name
        + " exited with "@ + output.status@ + ": no output"@);
}

/// What is wrong with a file or a picture is told with the path, the reason, or the
/// sides; and where every backend failed, the words of each are told under its
/// name.
pub proof fn faults_tell_what_they_are_about(
    path: Seq<char>,
    reason: Seq<char>,
    width: u32,
    height: u32,
    gnome: Seq<char>,
    spectacle: Seq<char>,
    x11: Seq<char>,
    portal: Seq<char>,
)
    ensures
        fault_words(Fault::Unreadable { path, reason }) == "failed to read screenshot file "@ + path
            + ": "@ + reason,
        fault_words(Fault::Empty { path }) == "screenshot file was empty: "@ + path,
        fault_words(Fault::BadPicture(PngFault::NotPng)) == "screenshot file was not a valid PNG"@,
        fault_words(Fault::BadPicture(PngFault::NoExtent { width, height }))
            == "screenshot PNG had invalid dimensions "@ + decimal(width as nat) + "x"@ + decimal(
            height as nat,
        ),
        fault_words(Fault::Denied { code: width })
            == "XDG portal screenshot was denied or cancelled with response code "@ + decimal(
            width as nat,
        ),
        fault_words(Fault::UnsupportedUri { uri: path }) == "unsupported screenshot uri: "@ + path,
        fault_words(Fault::Bus { what: path, cause: Some(reason) }) == path + ": "@ + reason,
        fault_words(Fault::Bus { what: path, cause: None }) == path,
        fault_words(Fault::AllFailed { gnome, spectacle, x11, portal })
            == "GNOME Shell screenshot failed: "@ + gnome + "; spectacle screenshot failed: "@
            + spectacle + "; X11 screenshot failed: "@ + x11
            + "; XDG portal screenshot failed: "@ + portal,
{
}

/// A file that could not be read, one without bytes, and one that is no picture
/// are told apart, each with the path that was read or with what is wrong.
pub proof fn files_without_a_picture_are_told_apart(
    path: Seq<char>,
    source: Seq<char>,
    reason: String,
    file: Vec<u8>,
    fault: PngFault,
)
    ensures
        picture_in(path, source, FileRead::Failed(reason)) == Err::<CaptureText, Fault>(
            Fault::Unreadable { path, reason: reason@ },
        ),
        file@.len() == 0 ==> picture_in(path, source, FileRead::Bytes(file)) == Err::<
            CaptureText,
            Fault,
        >(Fault::Empty { path }),
        file@.len() > 0 && picture_size(file@) == Err::<(u32, u32), PngFault>(fault) ==> picture_in(
            path,
            source,
            FileRead::Bytes(file),
        ) == Err::<CaptureText, Fault>(Fault::BadPicture(fault)),
{
}

/// The backends are tried in this order: GNOME Shell, `spectacle`, the X11 tools,
/// and the portal last, after exactly as many failures as come before it.
pub proof fn portal_is_asked_last(failures: int)
    requires
        0 <= failures < 4,
    ensures
        backend_after(failures) is GnomeShell <==> failures == 0,
        backend_after(failures) is Spectacle <==> failures == 1,
        backend_after(failures) is X11 <==> failures == 2,
        backend_after(failures) is Portal <==> failures == 3,
{
}

// ---------------------------------------------------------------------------
// One backend in code.
// ---------------------------------------------------------------------------

/// What a backend asks for.
#[derive(Debug)]
pub enum ShotRequest {
    /// To call GNOME Shell: whether the picture shows the pointer, whether the
    /// screen flashes, and the name of the file.
    Call { include_cursor: bool, flash: bool, filename: String },
    /// To run a tool.
    Run(CommandSpec),
    /// To read a file.
    Read(String),
    Nothing,
}

impl View for ShotRequest {
    type V = ShotRequestText;

    open spec fn view(&self) -> ShotRequestText {
        match *self {
            ShotRequest::Call { include_cursor, flash, filename } => ShotRequestText::Call {
                include_cursor,
                flash,
                filename: filename@,
            },
            ShotRequest::Run(command) => ShotRequestText::Run(command@),
            ShotRequest::Read(path) => ShotRequestText::Read(path@),
            ShotRequest::Nothing => ShotRequestText::Nothing,
        }
    }
}

#[derive(Debug)]
enum ShotStage {
    Calling { filename: String },
    Running { tool: Tool, rest: Vec<Tool>, filename: String },
    Reading { path: String, source: String, rest: Vec<Tool> },
    Settled(Result<ScreenshotCapture, ScreenshotError>),
}

/// The work of one backend.
#[derive(Debug)]
pub struct Shot {
    stage: ShotStage,
    cleanup: ScreenshotCleanup,
}

impl View for Shot {
    type V = ShotState;

    closed spec fn view(&self) -> ShotState {
        match self.stage {
            ShotStage::Calling { filename } => ShotState::Calling { filename: filename@ },
            ShotStage::Running { tool, rest, filename } => ShotState::Running {
                tool,
                rest: rest@,
                filename: filename@,
            },
            ShotStage::Reading { path, source, rest } => ShotState::Reading {
                path: path@,
                source: source@,
                rest: rest@,
            },
            ShotStage::Settled(result) => ShotState::Settled(outcome_of(result)),
        }
    }
}

/// Starts GNOME Shell's backend: the picture goes to the file at `path`, which
/// is deleted in the end. Where the path is not UTF-8 there is no such file.
pub fn capture_with_gnome_shell(path: &[u8]) -> (r: Shot)
    ensures
        r@ == gnome_start(path@),
        r.leftover() == (if valid_utf8(path@) {
            Some(path@)
        } else {
            None
        }),
{
    match from_utf8(path) {
        Some(filename) => Shot {
            stage: ShotStage::Calling { filename },
            cleanup: ScreenshotCleanup::DeletePath(bytes_of(path)),
        },
        None => Shot {
            stage: ShotStage::Settled(Err(ScreenshotError::PathNotUtf8)),
            cleanup: ScreenshotCleanup::Preserve,
        },
    }
}

fn capture_with_tools(path: &[u8], tool: Tool, rest: Vec<Tool>) -> (r: Shot)
    ensures
        r@ == tools_start(path@, tool, rest@),
        r.leftover() == Some(path@),
{
    let stage = match from_utf8(path) {
        Some(filename) => ShotStage::Running { tool, rest, filename },
        None => ShotStage::Settled(Err(ScreenshotError::PathNotUtf8)),
    };
    Shot { stage, cleanup: ScreenshotCleanup::DeletePath(bytes_of(path)) }
}

/// Starts Spectacle's backend: the picture goes to the file at `path`, which is
/// deleted in the end.
pub fn capture_with_spectacle(path: &[u8]) -> (r: Shot)
    ensures
        r@ == tools_start(path@, Tool::Spectacle, seq![]),
        r.leftover() == Some(path@),
{
    let rest: Vec<Tool> = Vec::new();
    assert(rest@ =~= seq![]);
    capture_with_tools(path, Tool::Spectacle, rest)
}

/// Starts the backend of the X11 tools: the picture goes to the file at `path`,
/// which is deleted in the end. Without an X11 session there is no such file.
pub fn capture_with_x11(display_set: bool, path: &[u8]) -> (r: Shot)
    ensures
        r@ == x11_start(display_set, path@),
        r.leftover() == (if display_set {
            Some(path@)
        } else {
            None
        }),
{
    if display_set {
        let mut rest: Vec<Tool> = Vec::new();
        rest.push(Tool::Maim);
        assert(rest@ =~= seq![Tool::Maim]);
        capture_with_tools(path, Tool::Scrot, rest)
    } else {
        Shot {
            stage: ShotStage::Settled(Err(ScreenshotError::NoDisplay)),
            cleanup: ScreenshotCleanup::Preserve,
        }
    }
}

/// The path of the file that a URI names.
pub fn file_uri_to_path(uri: &str) -> (r: Result<String, ScreenshotError>)
    ensures
        r is Ok <==> uri_path(uri@) is Some,
        r matches Ok(path) ==> Some(path@) == uri_path(uri@),
        r matches Err(error) ==> error@ == (Fault::UnsupportedUri { uri: uri@ }),
{
    match path_of_uri(uri) {
        Some(path) => Ok(path),
        None => Err(ScreenshotError::UnsupportedUri { uri: uri.to_owned() }),
    }
}

/// What the portal is asked for.
#[derive(Debug)]
pub struct PortalRequest {
    /// The window that asks; none where it is empty.
    pub parent_window: String,
    /// What the handle of the request is made of.
    pub handle_token: String,
    /// Whether the user chooses what is on the picture.
    pub interactive: bool,
    /// How long the response is waited for, in seconds.
    pub wait_seconds: u64,
}

/// What the portal is asked for by the process of the given number at the given
/// moment: a picture of everything, without a dialog to choose from.
pub fn portal_request(pid: u32, nanos: u128) -> (r: PortalRequest)
    ensures
        r.parent_window@ == ""@,
        r.handle_token@ == token_text(pid as int, nanos as int),
        !r.interactive,
        r.wait_seconds == PORTAL_WAIT_SECONDS,
{
    PortalRequest {
        parent_window: "".to_owned(),
        handle_token: request_token(pid, nanos),
        interactive: false,
        wait_seconds: PORTAL_WAIT_SECONDS,
    }
}

/// Starts the portal's backend from its response. The file belongs to the user
/// and is kept.
pub fn capture_with_portal(code: u32, uri: UriReply) -> (r: Shot)
    ensures
        r@ == portal_start(code, uri),
        r.leftover() is None,
{
    let stage = if code != 0 {
        ShotStage::Settled(Err(ScreenshotError::Denied { code }))
    } else {
        match uri {
            UriReply::Missing => ShotStage::Settled(Err(ScreenshotError::NoUri)),
            UriReply::NotCopied(reason) => ShotStage::Settled(
                Err(bus_error(BusStep::CopyUri, reason)),
            ),
            UriReply::NotText(reason) => ShotStage::Settled(
                Err(bus_error(BusStep::ReadUri, reason)),
            ),
            UriReply::Text(text) => match file_uri_to_path(text.as_str()) {
                Ok(path) => {
                    let rest: Vec<Tool> = Vec::new();
                    assert(rest@ =~= seq![]);
                    ShotStage::Reading { path, source: "xdg-desktop-portal".to_owned(), rest }
                },
                Err(error) => ShotStage::Settled(Err(error)),
            },
        }
    };
    Shot { stage, cleanup: ScreenshotCleanup::Preserve }
}

/// Whether a response is to the request with the given path.
pub fn portal_response_matches_path(response_path: Option<&str>, request_path: &str) -> (r: bool)
    ensures
        r == (response_path is Some && response_path->0@ == request_path@),
{
    match response_path {
        Some(path) => same_text(path, request_path),
        None => false,
    }
}

/// What comes of waiting for the portal's response.
#[derive(Debug)]
pub enum PortalEvent {
    /// No more responses will come.
    Ended,
    /// The next response could not be received, and why.
    Failed(String),
    /// A response came, to the request with the given path.
    Response(Option<String>),
}

/// What is to be done then.
#[derive(Debug)]
pub enum PortalStep {
    /// To wait on.
    Skip,
    /// To take the response.
    Take,
    /// To give up.
    Fail(ScreenshotError),
}

/// Decides what is to be done with what came of waiting for the response to the
/// request with the given path: responses to other requests are passed over.
pub fn wait_for_portal_response(event: &PortalEvent, request_path: &str) -> (r: PortalStep)
    ensures
        r is Take <==> event is Response && optional_text(event->Response_0) == Some(
            request_path@,
        ),
        r is Skip <==> event is Response && optional_text(event->Response_0) != Some(
            request_path@,
        ),
        r matches PortalStep::Fail(error) ==> error@ == (match *event {
            PortalEvent::Failed(reason) => step_fault(BusStep::ReceiveResponse, reason@),
            _ => Fault::Bus {
                what: "XDG portal screenshot response stream ended"@,
                cause: None,
            },
        }),
{
    match event {
        PortalEvent::Ended => PortalStep::Fail(
            ScreenshotError::Bus {
                what: "XDG portal screenshot response stream ended".to_owned(),
                cause: None,
            },
        ),
        PortalEvent::Failed(reason) => PortalStep::Fail(
            bus_error(BusStep::ReceiveResponse, reason.clone()),
        ),
        PortalEvent::Response(path) => {
            let path = match path {
                Some(path) => Some(path.as_str()),
                None => None,
            };
            if portal_response_matches_path(path, request_path) {
                PortalStep::Take
            } else {
                PortalStep::Skip
            }
        },
    }
}

impl Shot {
    /// The file that is to be deleted once the backend is settled.
    pub closed spec fn leftover(&self) -> Option<Seq<u8>> {
        deleted_path(self.cleanup)
    }

    /// What the backend asks for.
    pub fn request(&self) -> (r: ShotRequest)
        ensures
            r@ == shot_request(self@),
    {
        match &self.stage {
            ShotStage::Calling { filename } => ShotRequest::Call {
                include_cursor: false,
                flash: false,
                filename: filename.clone(),
            },
            ShotStage::Running { tool, filename, .. } => ShotRequest::Run(
                command_of_tool(*tool, filename.as_str()),
            ),
            ShotStage::Reading { path, .. } => ShotRequest::Read(path.clone()),
            ShotStage::Settled(_) => ShotRequest::Nothing,
        }
    }

    /// The backend after an answer.
    pub fn answer(self, answer: &ShotAnswer) -> (r: Self)
        requires
            answer_fits(*answer),
        ensures
            r@ == shot_step(self@, *answer),
            r.leftover() == self.leftover(),
    {
        let Shot { stage, cleanup } = self;
        let stage = match (stage, answer) {
            (ShotStage::Calling { filename }, ShotAnswer::Called(reply)) => match reply {
                Err(reason) => ShotStage::Settled(
                    Err(bus_error(BusStep::CallGnomeShell, reason.clone())),
                ),
                Ok((success, used)) => if *success {
                    let rest: Vec<Tool> = Vec::new();
                    assert(rest@ =~= seq![]);
                    ShotStage::Reading {
                        path: used.clone(),
                        source: "gnome-shell".to_owned(),
                        rest,
                    }
                } else {
                    ShotStage::Settled(Err(ScreenshotError::GnomeFailed))
                },
            },
            (ShotStage::Running { tool, rest, filename }, ShotAnswer::Ran(outcome)) => {
                match fault_of_tool(tool, outcome) {
                    None => ShotStage::Reading {
                        path: filename,
                        source: source_name(tool).to_owned(),
                        rest,
                    },
                    Some(error) => stage_after_error(rest, filename, error),
                }
            },
            (ShotStage::Reading { path, source, rest }, ShotAnswer::Read(read)) => {
                match read_png_as_capture_inner(path.as_str(), source.as_str(), read) {
                    Ok(capture) => ShotStage::Settled(Ok(capture)),
                    Err(error) => stage_after_error(rest, path, error),
                }
            },
            (stage, _) => stage,
        };
        Shot { stage, cleanup }
    }

    /// What came of the backend, and the file that is to be deleted then.
    pub fn finish(self) -> (r: Option<
        (Result<ScreenshotCapture, ScreenshotError>, Option<Vec<u8>>),
    >)
        ensures
            r is Some <==> self@ is Settled,
            r matches Some(end) ==> {
                &&& self@ == ShotState::Settled(outcome_of(end.0))
                &&& end.1 is Some <==> self.leftover() is Some
                &&& end.1 is Some ==> Some(end.1->0@) == self.leftover()
            },
    {
        let Shot { stage, cleanup } = self;
        match stage {
            ShotStage::Settled(result) => {
                let deleted: Option<Vec<u8>> = match cleanup {
                    ScreenshotCleanup::DeletePath(path) => Some(path),
                    ScreenshotCleanup::Preserve => None,
                };
                Some((result, deleted))
            },
            _ => None,
        }
    }
}

spec fn stage_view(stage: ShotStage) -> ShotState {
    (Shot { stage, cleanup: ScreenshotCleanup::Preserve })@
}

fn stage_after_error(rest: Vec<Tool>, filename: String, error: ScreenshotError) -> (r: ShotStage)
    ensures
        stage_view(r) == after_fault(rest@, filename@, error@),
{
    if rest.len() > 0 {
        let mut rest = rest;
        let ghost before = rest@;
        let tool = rest.remove(0);
        assert(rest@ =~= before.skip(1));
        ShotStage::Running { tool, rest, filename }
    } else {
        ShotStage::Settled(Err(error))
    }
}

// ---------------------------------------------------------------------------
// All backends.
// ---------------------------------------------------------------------------

/// The backends, in the order in which they are tried. Those that ask nobody
/// come before the portal, which may prompt the user.
#[derive(Debug, Clone, Copy, PartialEq, Eq, Structural)]
pub enum Backend {
    GnomeShell,
    Spectacle,
    X11,
    Portal,
}

/// The backend that comes after the given number of failures.
pub open spec fn backend_after(failures: int) -> Backend {
    if failures == 0 {
        Backend::GnomeShell
    } else if failures == 1 {
        Backend::Spectacle
    } else if failures == 2 {
        Backend::X11
    } else {
        Backend::Portal
    }
}

/// What the file for the picture of a backend is labelled with; the portal
/// chooses its file itself.
pub open spec fn file_label(backend: Backend) -> Option<Seq<char>> {
    match backend {
        Backend::GnomeShell => Some("gnome-shell"@),
        Backend::Spectacle => Some("spectacle"@),
        Backend::X11 => Some("x11"@),
        Backend::Portal => None,
    }
}

impl Backend {
    /// What the file for the picture of the backend is labelled with.
    pub fn label(self) -> (r: Option<&'static str>)
        ensures
            r is Some <==> file_label(self) is Some,
            r is Some ==> Some(r->0@) == file_label(self),
    {
        match self {
            Backend::GnomeShell => Some("gnome-shell"),
            Backend::Spectacle => Some("spectacle"),
            Backend::X11 => Some("x11"),
            Backend::Portal => None,
        }
    }
}

/// The work of taking a picture as a mathematical value: the words of the
/// backends that failed, or what came of it.
pub enum CaptureState {
    Trying(Seq<Seq<char>>),
    Done(Outcome),
}

/// The work after its backend was settled.
pub open spec fn capture_step(s: CaptureState, outcome: Outcome) -> CaptureState {
    match s {
        CaptureState::Done(_) => s,
        CaptureState::Trying(words) => match outcome {
            Ok(capture) => CaptureState::Done(Ok(capture)),
            Err(fault) => if words.len() < 3 {
                CaptureState::Trying(words.push(fault_words(fault)))
            } else {
                CaptureState::Done(
                    Err(
                        Fault::AllFailed {
                            gnome: words[0],
                            spectacle: words[1],
                            x11: words[2],
                            portal: fault_words(fault),
                        },
                    ),
                )
            },
        },
    }
}

/// The work after each of the given outcomes in turn.
pub open spec fn capture_run(outcomes: Seq<Outcome>) -> CaptureState
    decreases outcomes.len(),
{
    if outcomes.len() == 0 {
        CaptureState::Trying(seq![])
    } else {
        capture_step(capture_run(outcomes.drop_last()), outcomes.last())
    }
}

/// The first backend that takes a picture decides.
pub proof fn first_picture_is_taken(outcomes: Seq<Outcome>)
    requires
        0 < outcomes.len() <= 4,
        outcomes.last() is Ok,
        forall|i: int| 0 <= i < outcomes.len() - 1 ==> #[trigger] outcomes[i] is Err,
    ensures
        capture_run(outcomes) == CaptureState::Done(outcomes.last()),
{
    let front = outcomes.drop_last();
    assert forall|i: int| 0 <= i < front.len() implies #[trigger] front[i] is Err by {
        assert(front[i] == outcomes[i]);
    }
    lemma_failures_are_kept(front);
}

/// Where all backends fail, the error tells what each of them said.
pub proof fn all_failures_are_told(outcomes: Seq<Outcome>)
    requires
        outcomes.len() == 4,
        forall|i: int| 0 <= i < 4 ==> #[trigger] outcomes[i] is Err,
    ensures
        capture_run(outcomes) == CaptureState::Done(
            Err(
                Fault::AllFailed {
                    gnome: fault_words(outcomes[0]->Err_0),
                    spectacle: fault_words(outcomes[1]->Err_0),
                    x11: fault_words(outcomes[2]->Err_0),
                    portal: fault_words(outcomes[3]->Err_0),
                },
            ),
        ),
{
    let front = outcomes.drop_last();
    assert forall|i: int| 0 <= i < front.len() implies #[trigger] front[i] is Err by {
        assert(front[i] == outcomes[i]);
    }
    lemma_failures_are_kept(front);
    assert(outcomes[3] is Err);
}

proof fn lemma_failures_are_kept(outcomes: Seq<Outcome>)
    requires
        outcomes.len() <= 3,
        forall|i: int| 0 <= i < outcomes.len() ==> #[trigger] outcomes[i] is Err,
    ensures
        capture_run(outcomes) == CaptureState::Trying(
            Seq::new(outcomes.len(), |i: int| fault_words(outcomes[i]->Err_0)),
        ),
    decreases outcomes.len(),
{
    let words = Seq::new(outcomes.len(), |i: int| fault_words(outcomes[i]->Err_0));
    if outcomes.len() == 0 {
        assert(words =~= seq![]);
    } else {
        let front = outcomes.drop_last();
        assert forall|i: int| 0 <= i < front.len() implies #[trigger] front[i] is Err by {
            assert(front[i] == outcomes[i]);
        }
        lemma_failures_are_kept(front);
        assert(outcomes[outcomes.len() - 1] is Err);
        let front_words = Seq::new(front.len(), |i: int| fault_words(front[i]->Err_0));
        assert(front_words.push(fault_words(outcomes.last()->Err_0)) =~= words);
    }
}

/// What a backend is called in the list of capabilities; the tools are not in
/// it.
pub open spec fn listed_name(backend: Backend) -> Option<Seq<char>> {
    match backend {
        Backend::GnomeShell => Some("gnome_shell"@),
        Backend::Portal => Some("portal"@),
        _ => None,
    }
}

/// The backends that the capabilities list are listed in the order in which they
/// are tried.
pub proof fn capabilities_mirror_the_attempts(
    platform: PlatformReport,
    portals: PortalReport,
    i: int,
    j: int,
)
    requires
        0 <= i < j < screenshot_backends(platform, portals).len(),
    ensures
        exists|a: int, b: int|
            0 <= a < b < 4 && #[trigger] listed_name(backend_after(a)) == Some(
                screenshot_backends(platform, portals)[i],
            ) && #[trigger] listed_name(backend_after(b)) == Some(
                screenshot_backends(platform, portals)[j],
            ),
{
    assert(listed_name(backend_after(0)) == Some("gnome_shell"@));
    assert(listed_name(backend_after(3)) == Some("portal"@));
}

#[derive(Debug)]
enum CaptureStage {
    Gnome,
    Spectacle { gnome: String },
    X11 { gnome: String, spectacle: String },
    Portal { gnome: String, spectacle: String, x11: String },
    Done(Result<ScreenshotCapture, ScreenshotError>),
}

/// The work of taking a picture with the first backend that can.
#[derive(Debug)]
pub struct CaptureSession {
    stage: CaptureStage,
}

impl View for CaptureSession {
    type V = CaptureState;

    closed spec fn view(&self) -> CaptureState {
        match self.stage {
            CaptureStage::Gnome => CaptureState::Trying(seq![]),
            CaptureStage::Spectacle { gnome } => CaptureState::Trying(seq![gnome@]),
            CaptureStage::X11 { gnome, spectacle } => CaptureState::Trying(
                seq![gnome@, spectacle@],
            ),
            CaptureStage::Portal { gnome, spectacle, x11 } => CaptureState::Trying(
                seq![gnome@, spectacle@, x11@],
            ),
            CaptureStage::Done(result) => CaptureState::Done(outcome_of(result)),
        }
    }
}

/// Starts the work of taking a picture.
pub fn capture_screenshot() -> (r: CaptureSession)
    ensures
        r@ == capture_run(seq![]),
{
    CaptureSession { stage: CaptureStage::Gnome }
}

impl CaptureSession {
    /// The backend to be tried next; none once the work is done.
    pub fn backend(&self) -> (r: Option<Backend>)
        ensures
            r is None <==> self@ is Done,
            r is Some ==> r->0 == backend_after(self@->Trying_0.len() as int),
    {
        match &self.stage {
            CaptureStage::Gnome => Some(Backend::GnomeShell),
            CaptureStage::Spectacle { .. } => Some(Backend::Spectacle),
            CaptureStage::X11 { .. } => Some(Backend::X11),
            CaptureStage::Portal { .. } => Some(Backend::Portal),
            CaptureStage::Done(_) => None,
        }
    }

    /// The work after its backend was settled.
    pub fn record(self, result: Result<ScreenshotCapture, ScreenshotError>) -> (r: Self)
        ensures
            r@ == capture_step(self@, outcome_of(result)),
    {
        let CaptureSession { stage } = self;
        match stage {
            CaptureStage::Done(done) => CaptureSession { stage: CaptureStage::Done(done) },
            stage => match result {
                Ok(capture) => CaptureSession { stage: CaptureStage::Done(Ok(capture)) },
                Err(error) => {
                    let words = error.message();
                    let ghost w = words@;
                    let ghost before = (CaptureSession { stage })@;
                    let next = match stage {
                        CaptureStage::Gnome => CaptureStage::Spectacle { gnome: words },
                        CaptureStage::Spectacle { gnome } => CaptureStage::X11 {
                            gnome,
                            spectacle: words,
                        },
                        CaptureStage::X11 { gnome, spectacle } => CaptureStage::Portal {
                            gnome,
                            spectacle,
                            x11: words,
                        },
                        CaptureStage::Portal { gnome, spectacle, x11 } => CaptureStage::Done(
                            Err(
                                ScreenshotError::AllFailed { gnome, spectacle, x11, portal: words },
                            ),
                        ),
                        CaptureStage::Done(done) => CaptureStage::Done(done),
                    };
                    let r = CaptureSession { stage: next };
                    proof {
                        if r@ is Trying {
                            assert(r@->Trying_0 =~= before->Trying_0.push(w));
                        }
                    }
                    r
                },
            },
        }
    }

    /// What came of the work.
    pub fn result(self) -> (r: Option<Result<ScreenshotCapture, ScreenshotError>>)
        ensures
            r is Some <==> self@ is Done,
            r matches Some(result) ==> self@ == CaptureState::Done(outcome_of(result)),
    {
        match self.stage {
            CaptureStage::Done(result) => Some(result),
            _ => None,
        }
    }
}

} // verus!
