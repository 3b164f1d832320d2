use warpgo_manager::errors::Error;
use warpgo_manager::strutil::u16_to_string;
use warpgo_manager::supervisor::ProxyManager;
use warpgo_manager::sysproxy::{
    get_network_service, pac_decision, pac_script, wildcard_match, ConfigAction, Platform,
};

#[test]
fn port_renders_in_decimal() {
    assert_eq!(u16_to_string(0), "0");
    assert_eq!(u16_to_string(7), "7");
    assert_eq!(u16_to_string(8080), "8080");
    assert_eq!(u16_to_string(65535), "65535");
}

#[test]
fn pac_script_text() {
    let allow = vec![String::from("*.example.com"), String::from("*example.com")];
    let expected = "function FindProxyForURL(url, host) {\n    \
                    if (shExpMatch(host, \"*.example.com\") || shExpMatch(host, \"*example.com\")) {\n        \
                    return \"PROXY 127.0.0.1:8080\";\n    }\n    return \"DIRECT\";\n}\n";
    assert_eq!(pac_script(8080, &allow), expected);
}

#[test]
fn pac_script_with_empty_allowlist_never_proxies() {
    let expected = "function FindProxyForURL(url, host) {\n    if (false) {\n        \
                    return \"PROXY 127.0.0.1:9090\";\n    }\n    return \"DIRECT\";\n}\n";
    assert_eq!(pac_script(9090, &vec![]), expected);
}

#[test]
fn start_twice_spawns_once() {
    let mut m = ProxyManager::new();
    assert!(!m.is_running());

    let first = m.start_mitmproxy("proxy_script.py");
    let cmd = first.expect("first start must spawn");
    assert_eq!(cmd.port, 8080);
    assert_eq!(cmd.script_path, "proxy_script.py");
    m.confirm_started();
    assert!(m.is_running());

    // second start without an intervening stop: no error, nothing spawned
    let second = m.start_mitmproxy("proxy_script.py");
    assert!(second.is_none());
    assert!(m.is_running());
}

#[test]
fn stop_when_not_running_is_a_noop() {
    let mut m = ProxyManager::new();
    assert!(!m.is_running());
    let must_terminate = m.stop_mitmproxy();
    assert!(!must_terminate);
    assert!(!m.is_running());
}

#[test]
fn stop_after_start_requests_termination_and_clears_handle() {
    let mut m = ProxyManager::new();
    m.start_mitmproxy("s.py").expect("spawns");
    m.confirm_started();
    let must_terminate = m.stop_mitmproxy();
    assert!(must_terminate);
    assert!(!m.is_running());
}

#[test]
fn failed_spawn_leaves_supervisor_stopped() {
    let m = ProxyManager::new();
    let cmd = m.start_mitmproxy("missing.py");
    assert!(cmd.is_some());
    // the caller could not spawn, so it never confirms: still stopped
    assert!(!m.is_running());
}

#[test]
fn enable_windows_actions() {
    let m = ProxyManager::new();
    let actions = m
        .enable_system_proxy(Platform::Windows, &vec![], &vec![])
        .expect("registry platform never fails");
    assert_eq!(actions.len(), 3);
    assert!(matches!(actions[0], ConfigAction::SetRegistryProxyEnable { enabled: true }));
    assert!(matches!(actions[1], ConfigAction::SetRegistryProxyServer { port: 8080 }));
    assert!(matches!(actions[2], ConfigAction::BroadcastSettingsChanged));
}

#[test]
fn disable_windows_actions() {
    let m = ProxyManager::new();
    let actions = m
        .disable_system_proxy(Platform::Windows, &vec![])
        .expect("registry platform never fails");
    assert_eq!(actions.len(), 1);
    assert!(matches!(actions[0], ConfigAction::SetRegistryProxyEnable { enabled: false }));
}

#[test]
fn enable_then_disable_macos_writes_and_removes_pac() {
    let m = ProxyManager::new();
    let lines = vec![String::from("(1) Wi-Fi"), String::from("(2) Ethernet")];
    let allow = vec![String::from("*.example.com")];

    let enable = m
        .enable_system_proxy(Platform::MacOs, &allow, &lines)
        .expect("a service exists");
    assert_eq!(enable.len(), 3);
    match &enable[0] {
        ConfigAction::WritePacFile { port, allowlist } => {
            assert_eq!(*port, 8080);
            assert_eq!(allowlist, &allow);
        },
        other => panic!("expected WritePacFile, got {:?}", discriminant_name(other)),
    }
    match &enable[1] {
        ConfigAction::SetAutoProxyUrl { service } => assert_eq!(service, "Wi-Fi"),
        other => panic!("expected SetAutoProxyUrl, got {:?}", discriminant_name(other)),
    }
    match &enable[2] {
        ConfigAction::SetAutoProxyState { service, on } => {
            assert_eq!(service, "Wi-Fi");
            assert!(*on);
        },
        other => panic!("expected SetAutoProxyState, got {:?}", discriminant_name(other)),
    }

    let disable = m
        .disable_system_proxy(Platform::MacOs, &lines)
        .expect("a service exists");
    assert_eq!(disable.len(), 4);
    assert!(matches!(disable[0], ConfigAction::SetAutoProxyState { on: false, .. }));
    assert!(matches!(disable[1], ConfigAction::SetWebProxyState { on: false, .. }));
    assert!(matches!(disable[2], ConfigAction::SetSecureWebProxyState { on: false, .. }));
    assert!(matches!(disable[3], ConfigAction::RemovePacFile));
}

fn discriminant_name(a: &ConfigAction) -> &'static str {
    match a {
        ConfigAction::SetRegistryProxyEnable { .. } => "SetRegistryProxyEnable",
        ConfigAction::SetRegistryProxyServer { .. } => "SetRegistryProxyServer",
        ConfigAction::BroadcastSettingsChanged => "BroadcastSettingsChanged",
        ConfigAction::WritePacFile { .. } => "WritePacFile",
        ConfigAction::SetAutoProxyUrl { .. } => "SetAutoProxyUrl",
        ConfigAction::SetAutoProxyState { .. } => "SetAutoProxyState",
        ConfigAction::SetWebProxyState { .. } => "SetWebProxyState",
        ConfigAction::SetSecureWebProxyState { .. } => "SetSecureWebProxyState",
        ConfigAction::RemovePacFile => "RemovePacFile",
    }
}

#[test]
fn enable_other_platform_is_a_noop() {
    let m = ProxyManager::new();
    assert_eq!(m.enable_system_proxy(Platform::Other, &vec![], &vec![]).unwrap().len(), 0);
    assert_eq!(m.disable_system_proxy(Platform::Other, &vec![]).unwrap().len(), 0);
}

#[test]
fn network_service_skips_irrelevant_services() {
    let lines = vec![
        String::from("An asterisk (*) denotes that a network service is disabled."),
        String::from("(1) Bluetooth PAN"),
        String::from("(2) Thunderbolt Bridge"),
        String::from("(3) Wi-Fi"),
    ];
    assert_eq!(get_network_service(&lines).unwrap(), "Wi-Fi");
}

#[test]
fn network_service_not_found() {
    let lines = vec![String::from("(1) Bluetooth PAN"), String::from("no parens here")];
    assert_eq!(get_network_service(&lines), Err(Error::NetworkServiceNotFound));
    let m = ProxyManager::new();
    let r = m.enable_system_proxy(Platform::MacOs, &vec![], &lines);
    assert!(matches!(r, Err(Error::NetworkServiceNotFound)));
}

#[test]
fn wildcard_suffix_matching() {
    assert!(wildcard_match("api.example.com", "*.example.com"));
    assert!(wildcard_match(".example.com", "*.example.com"));
    assert!(!wildcard_match("example.com", "*.example.com"));
    assert!(!wildcard_match("api.example.org", "*.example.com"));
    assert!(wildcard_match("anything-at-all", "*"));
    assert!(wildcard_match("exact.host", "exact.host"));
    assert!(!wildcard_match("exact.host", "other.host"));
}

#[test]
fn pac_decision_routes_only_allowlisted_hosts() {
    let allow = vec![String::from("*.example.com"), String::from("direct.host")];
    assert!(pac_decision("api.example.com", &allow));
    assert!(pac_decision("direct.host", &allow));
    assert!(!pac_decision("other.org", &allow));
    assert!(!pac_decision("anything", &vec![]));
}
