//! The auto-start service on each platform: the launchd property list
//! (macOS), the systemd user unit (Linux), and the answers on platforms
//! without service management.
use vstd::prelude::*;

pub use crate::launchd::{plist_path, service_target, status_fields, LABEL, PLIST_PATH};

use crate::text::{chars_of, contains_seq, push_str, str_contains, string_from_chars};

verus! {

broadcast use vstd::string::group_string_axioms;

/// The compact property list up to the label.
pub const COMPACT_PLIST_HEAD: &'static str = "<?xml version=\"1.0\" encoding=\"UTF-8\"?>
<!DOCTYPE plist PUBLIC \"-//Apple//DTD PLIST 1.0//EN\" \"http://www.apple.com/DTDs/PropertyList-1.0.dtd\">
<plist version=\"1.0\">
<dict>
    <key>Label</key>
    <string>";

/// The compact property list between the label and the executable path.
pub const COMPACT_PLIST_MIDDLE: &'static str = "</string>
    <key>ProgramArguments</key>
    <array>
        <string>";

/// The compact property list after the executable path.
pub const COMPACT_PLIST_TAIL: &'static str = "</string>
        <string>start</string>
        <string>--foreground</string>
    </array>
    <key>RunAtLoad</key>
    <true/>
    <key>KeepAlive</key>
    <true/>
    <key>StandardOutPath</key>
    <string>/tmp/proxypass.out</string>
    <key>StandardErrorPath</key>
    <string>/tmp/proxypass.err</string>
</dict>
</plist>";

/// The launchd property list written on macOS for `binary_path`.
pub open spec fn plist_spec(binary_path: Seq<char>) -> Seq<char> {
    COMPACT_PLIST_HEAD@ + LABEL@ + COMPACT_PLIST_MIDDLE@ + binary_path + COMPACT_PLIST_TAIL@
}

/// The launchd property list for the executable at `binary_path`.
pub fn plist_contents(binary_path: &str) -> (r: String)
    ensures
        r@ == plist_spec(binary_path@),
{
    let mut out = chars_of(COMPACT_PLIST_HEAD);
    push_str(&mut out, LABEL);
    push_str(&mut out, COMPACT_PLIST_MIDDLE);
    push_str(&mut out, binary_path);
    push_str(&mut out, COMPACT_PLIST_TAIL);
    string_from_chars(out.as_slice())
}

/// The unit file up to the executable path.
pub const UNIT_HEAD: &'static str = "[Unit]
Description=proxypass corporate proxy helper
After=network-online.target
Wants=network-online.target

[Service]
ExecStart=";

/// The unit file after the executable path.
pub const UNIT_TAIL: &'static str = " start --foreground
Restart=on-failure
RestartSec=5
StandardOutput=append:/tmp/proxypass.out
StandardError=append:/tmp/proxypass.err

[Install]
WantedBy=default.target
";

/// The systemd user unit that runs `binary_path start --foreground`.
pub open spec fn unit_spec(binary_path: Seq<char>) -> Seq<char> {
    UNIT_HEAD@ + binary_path + UNIT_TAIL@
}

/// The systemd user unit for the executable at `binary_path`.
pub fn systemd_unit(binary_path: &str) -> (r: String)
    ensures
        r@ == unit_spec(binary_path@),
{
    let mut out = chars_of(UNIT_HEAD);
    push_str(&mut out, binary_path);
    push_str(&mut out, UNIT_TAIL);
    string_from_chars(out.as_slice())
}

/// `<label>.service`: the unit's name.
pub fn unit_name() -> (r: String)
    ensures
        r@ == LABEL@ + ".service"@,
{
    let mut out = chars_of(LABEL);
    push_str(&mut out, ".service");
    string_from_chars(out.as_slice())
}

/// What `systemctl --user status` says of the unit.
#[derive(Debug, Clone, Copy, PartialEq, Eq, Structural)]
pub enum UnitState {
    Running,
    NotInstalled,
    NotRunning,
}

/// The unit's state read from `systemctl --user status` output.
pub open spec fn unit_state_spec(output: Seq<char>) -> UnitState {
    if contains_seq(output, "Active: active"@) {
        UnitState::Running
    } else if contains_seq(output, "could not be found"@) {
        UnitState::NotInstalled
    } else {
        UnitState::NotRunning
    }
}

/// Reads the unit's state from `systemctl --user status` output.
pub fn unit_state(status_output: &str) -> (r: UnitState)
    ensures
        r == unit_state_spec(status_output@),
{
    if str_contains(status_output, "Active: active") {
        UnitState::Running
    } else if str_contains(status_output, "could not be found") {
        UnitState::NotInstalled
    } else {
        UnitState::NotRunning
    }
}

/// Why a service command cannot run.
#[derive(Debug, Clone, Copy, PartialEq, Eq, Structural)]
pub enum ServiceError {
    /// Automatic installation is not available on this platform.
    InstallUnsupported,
    /// Starting and stopping the service is not available on this platform.
    ManagementUnsupported,
}

impl ServiceError {
    /// What to tell the user.
    pub fn message(&self) -> (r: &'static str)
        ensures
            r@ == match *self {
                ServiceError::InstallUnsupported => "Automatic service installation is not yet supported on this platform.\nRun proxypass in the foreground:  proxypass start --foreground\nOr use your OS task scheduler / service manager."@,
                ServiceError::ManagementUnsupported => "Service management not supported on this platform. Run: proxypass start --foreground"@,
            },
    {
        match self {
            ServiceError::InstallUnsupported => "Automatic service installation is not yet supported on this platform.\nRun proxypass in the foreground:  proxypass start --foreground\nOr use your OS task scheduler / service manager.",
            ServiceError::ManagementUnsupported => "Service management not supported on this platform. Run: proxypass start --foreground",
        }
    }
}

/// Installing the service where there is no supported service manager.
pub fn install(_binary_path: &str) -> (r: Result<(), ServiceError>)
    ensures
        r == Err::<(), ServiceError>(ServiceError::InstallUnsupported),
{
    Err(ServiceError::InstallUnsupported)
}

/// Starting the service where there is no supported service manager.
pub fn start_service() -> (r: Result<(), ServiceError>)
    ensures
        r == Err::<(), ServiceError>(ServiceError::ManagementUnsupported),
{
    Err(ServiceError::ManagementUnsupported)
}

/// Stopping the service where there is no supported service manager.
pub fn stop_service() -> (r: Result<(), ServiceError>)
    ensures
        r == Err::<(), ServiceError>(ServiceError::ManagementUnsupported),
{
    Err(ServiceError::ManagementUnsupported)
}

} // verus!
