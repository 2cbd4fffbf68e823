//! Computer use on a Linux desktop: what a machine can do and how to set it up,
//! launching applications, taking pictures of the screen, moving the pointer,
//! and listing windows.
//!
//! The library decides; it neither runs a command nor opens a file. Work that
//! needs the system is a machine that says what it asks for and is told what
//! came of it.

pub mod abs_pointer;
pub mod atspi;
pub mod base64_text;
pub mod bytes;
pub mod capability;
pub mod check;
pub mod command;
pub mod desktop;
pub mod doctor;
pub mod environment;
pub mod ewmh;
pub mod launch;
pub mod number;
pub mod order;
pub mod paths;
pub mod png;
pub mod probes;
pub mod process;
pub mod readiness;
pub mod report;
pub mod scan;
pub mod screenshot;
pub mod session;
pub mod setup;
pub mod shell;
pub mod socket;
pub mod text;
pub mod text_map;
pub mod uri;
pub mod windowing;
pub mod ydotool;
