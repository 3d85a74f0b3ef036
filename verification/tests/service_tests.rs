use proxypass::launchd::{self, gui_domain, plist_path, service_target, status_fields};
use proxypass::service::{self, systemd_unit, unit_name, unit_state, ServiceError, UnitState};

#[test]
fn plist_location() {
    assert_eq!(plist_path("/Users/alice"), "/Users/alice/Library/LaunchAgents/io.github.proxypass.plist");
    assert_eq!(service::plist_path("/home/bob"), "/home/bob/Library/LaunchAgents/io.github.proxypass.plist");
}

#[test]
fn plist_runs_binary_in_foreground() {
    let p = launchd::plist_contents("/usr/local/bin/proxypass");
    assert!(p.starts_with("<?xml version=\"1.0\" encoding=\"UTF-8\"?>"));
    assert!(p.contains("<string>io.github.proxypass</string>"));
    assert!(p.contains("<string>/usr/local/bin/proxypass</string>\n        <string>start</string>\n        <string>--foreground</string>"));
    assert!(p.contains("<key>KeepAlive</key>\n    <true/>"));
    assert!(p.ends_with("</dict>\n</plist>"));
    let c = service::plist_contents("/bin/pp");
    assert!(c.contains("<string>/bin/pp</string>"));
    assert!(c.contains("</string>\n    <key>ProgramArguments</key>"));
}

#[test]
fn launchctl_targets() {
    assert_eq!(gui_domain(501), "gui/501");
    assert_eq!(service_target(501), "gui/501/io.github.proxypass");
    assert_eq!(gui_domain(0), "gui/0");
}

#[test]
fn launchctl_print_fields() {
    let out = "io.github.proxypass = {\n\tstate = running\n\tpid = 4242\n}\n";
    assert_eq!(status_fields(out), ("pid = 4242".to_string(), "state = running".to_string()));
    assert_eq!(status_fields(""), ("pid = unknown".to_string(), "state = unknown".to_string()));
}

#[test]
fn systemd_unit_text() {
    let u = systemd_unit("/usr/bin/proxypass");
    assert!(u.starts_with("[Unit]\nDescription=proxypass corporate proxy helper\n"));
    assert!(u.contains("ExecStart=/usr/bin/proxypass start --foreground\n"));
    assert!(u.ends_with("[Install]\nWantedBy=default.target\n"));
    assert_eq!(unit_name(), "io.github.proxypass.service");
}

#[test]
fn systemd_status_reading() {
    assert_eq!(unit_state("   Active: active (running) since"), UnitState::Running);
    assert_eq!(unit_state("Unit io.github.proxypass.service could not be found."), UnitState::NotInstalled);
    assert_eq!(unit_state("   Active: inactive (dead)"), UnitState::NotRunning);
}

#[test]
fn unsupported_platform_services() {
    assert_eq!(service::install("/bin/pp"), Err(ServiceError::InstallUnsupported));
    assert_eq!(service::start_service(), Err(ServiceError::ManagementUnsupported));
    assert_eq!(service::stop_service(), Err(ServiceError::ManagementUnsupported));
    assert!(ServiceError::InstallUnsupported.message().starts_with("Automatic service installation"));
}
