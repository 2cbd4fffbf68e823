//! The reports of the doctor.

use vstd::prelude::*;

use crate::check::Check;
use crate::text_map::TextMap;

verus! {

/// Everything that the doctor found out.
#[derive(Debug, Clone)]
pub struct DoctorReport {
    pub platform: PlatformReport,
    pub portals: PortalReport,
    pub accessibility: AccessibilityReport,
    pub windowing: WindowingReport,
    pub input: InputReport,
    pub readiness: ReadinessReport,
    /// Which interchangeable backends this environment supports, per layer, plus
    /// the one that is preferred.
    pub capabilities: CapabilityMap,
}

/// The backends that can be used, per layer.
#[derive(Debug, Clone)]
pub struct CapabilityMap {
    /// Pointer and keyboard injection backends, best first.
    pub input: Vec<String>,
    /// Screen capture backends, best first.
    pub screenshot: Vec<String>,
    /// Window listing and focus backends available.
    pub window_control: Vec<String>,
    /// Accessibility (element-targeted, non-pointer) backends.
    pub accessibility: Vec<String>,
    /// Display and session isolation contexts that the host can provide.
    pub isolation: Vec<String>,
    /// The backend that is used by default for each selectable layer.
    pub preferred: PreferredBackends,
}

/// The backend that is used by default, per selectable layer.
#[derive(Debug, Clone)]
pub struct PreferredBackends {
    pub input: Option<String>,
    pub screenshot: Option<String>,
    pub window_control: Option<String>,
}

/// The machine and the session.
#[derive(Debug, Clone)]
pub struct PlatformReport {
    pub os: String,
    pub arch: String,
    pub desktop_session: Option<String>,
    pub xdg_session_type: Option<String>,
    pub xdg_current_desktop: Option<String>,
    pub wayland_display: Option<String>,
    pub display: Option<String>,
    pub xauthority: Option<String>,
    pub dbus_session_bus_address: Option<String>,
    pub xdg_runtime_dir: Option<String>,
    pub gnome_shell_version: Check,
}

/// The portals on the session bus.
#[derive(Debug, Clone)]
pub struct PortalReport {
    pub desktop_portal: Check,
    pub remote_desktop: Check,
    pub screencast: Check,
    pub screenshot: Check,
    pub input_capture: Check,
    pub mutter_remote_desktop: Check,
    pub mutter_screencast: Check,
}

/// The accessibility services.
#[derive(Debug, Clone)]
pub struct AccessibilityReport {
    pub at_spi_bus: Check,
    pub toolkit_accessibility: Check,
    pub at_spi_enabled: Check,
    pub screen_reader_enabled: Check,
}

/// The window backends.
#[derive(Debug, Clone)]
pub struct WindowingReport {
    pub gnome_shell_introspect: Check,
    pub codex_gnome_shell_extension: Check,
    pub cosmic_helper: Check,
    pub kwin: Check,
    pub hyprland: Check,
    pub backends: TextMap<Check>,
    pub can_list_windows: bool,
    pub can_focus_apps: bool,
    pub can_focus_windows: bool,
    pub note: String,
}

/// The input backends.
#[derive(Debug, Clone)]
pub struct InputReport {
    pub ydotool: Check,
    pub ydotoold: Check,
    pub ydotool_socket: Check,
    pub uinput: Check,
}

/// What the machine is ready for, and what stands in the way.
#[derive(Debug, Clone)]
pub struct ReadinessReport {
    pub can_register_mcp_tools: bool,
    pub can_build_accessibility_tree: bool,
    pub can_query_windows: bool,
    pub can_focus_apps: bool,
    pub can_focus_windows: bool,
    pub can_send_development_input: bool,
    pub recommended_next_step: String,
    pub blockers: Vec<String>,
}

/// What came of turning accessibility on.
#[derive(Debug, Clone)]
pub struct SetupReport {
    pub before: DoctorReport,
    pub accessibility_command: Check,
    pub after: DoctorReport,
    pub changed_accessibility: bool,
    pub requires_target_app_restart: bool,
    pub message: String,
}

/// What came of setting ydotool up.
#[derive(Debug, Clone)]
pub struct YdotoolSetupReport {
    pub before: DoctorReport,
    /// False when ydotool is not installed.
    pub ydotool_installed: bool,
    /// Result of writing the udev rule that lets the input group access
    /// `/dev/uinput`. Skipped when the device is already accessible.
    pub udev_rule: Check,
    /// Result of adding the user to the `input` group. Skipped when the user is
    /// already a member.
    pub group_membership: Check,
    /// Result of reloading the udev rules. Skipped when the device was already
    /// accessible.
    pub udev_reload: Check,
    /// Result of starting the ydotoold service.
    pub ydotoold_service: Check,
    pub after: DoctorReport,
    /// True when group membership was newly granted: the user must log out and
    /// back in before running processes see the new group.
    pub requires_relogin: bool,
    pub message: String,
}

} // verus!
