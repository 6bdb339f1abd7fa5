use xray_vpn_manager::config::{default_enabled, Config, ServerSettings, SettingsTable, StoreOutcome, StoredConfig};
use xray_vpn_manager::registry::{collect_settings, set_enabled, set_local_port, set_proxy_type};
use xray_vpn_manager::vpn::VpnServer;

fn server(address: &str, port: u16) -> VpnServer {
    VpnServer {
        protocol: "vless".to_string(),
        address: address.to_string(),
        port,
        name: "n".to_string(),
        enabled: false,
        local_port: 0,
        proxy_type: "SOCKS".to_string(),
    }
}

#[test]
fn default_config_is_empty() {
    let c = Config::default();
    assert_eq!(c.subscription_url, "");
    assert_eq!(c.xray_binary_path, "");
    assert!(c.server_settings.keys().is_empty());
    assert!(!c.autostart);
    assert!(!c.is_configured());
}

#[test]
fn stored_entry_without_a_flag_is_enabled() {
    assert!(default_enabled());
}

#[test]
fn config_needs_both_url_and_binary() {
    let mut c = Config::default();
    c.subscription_url = "https://feed.example/sub".to_string();
    assert!(!c.is_configured());
    c.xray_binary_path = "/opt/xray".to_string();
    assert!(c.is_configured());
    c.subscription_url = String::new();
    assert!(!c.is_configured());
}

#[test]
fn absent_config_loads_as_default() {
    let c = Config::load(StoredConfig::Absent).unwrap();
    assert_eq!(c.subscription_url, "");
    assert_eq!(c.xray_binary_path, "");
    assert!(c.server_settings.keys().is_empty());
    assert!(!c.autostart);
}

#[test]
fn unreadable_or_malformed_config_is_an_error() {
    let r = Config::load(StoredConfig::Unreadable("permission denied".to_string()));
    assert_eq!(r.unwrap_err(), "Failed to read config file: permission denied");
    let r = Config::load(StoredConfig::Malformed("expected value at line 1 column 1".to_string()));
    assert_eq!(r.unwrap_err(), "Failed to parse config JSON: expected value at line 1 column 1");
}

#[test]
fn parsed_config_loads_as_it_is() {
    let mut settings = SettingsTable::new();
    settings.insert(
        "vless://a:1".to_string(),
        ServerSettings { local_port: 1080, proxy_type: "HTTP".to_string(), enabled: true },
    );
    let stored = Config {
        subscription_url: "https://feed.example".to_string(),
        xray_binary_path: "xray".to_string(),
        server_settings: settings,
        autostart: true,
    };
    let c = Config::load(StoredConfig::Parsed(stored)).unwrap();
    assert_eq!(c.subscription_url, "https://feed.example");
    assert_eq!(c.xray_binary_path, "xray");
    assert!(c.autostart);
    let entry = c.server_settings.get("vless://a:1").unwrap();
    assert_eq!(entry.local_port, 1080);
    assert_eq!(entry.proxy_type, "HTTP");
    assert!(entry.enabled);
}

#[test]
fn save_reports_its_failures() {
    assert_eq!(Config::save(StoreOutcome::Written), Ok(()));
    assert_eq!(
        Config::save(StoreOutcome::Unserializable("bad".to_string())),
        Err("Failed to serialize config: bad".to_string())
    );
    assert_eq!(
        Config::save(StoreOutcome::Unwritable("disk full".to_string())),
        Err("Failed to write config file: disk full".to_string())
    );
}

#[test]
fn edits_change_one_server() {
    let mut servers = vec![server("a", 1), server("b", 2)];
    assert!(set_enabled(&mut servers, 1, true));
    assert!(set_local_port(&mut servers, 1, 1234));
    assert!(set_proxy_type(&mut servers, 1, "HTTP"));
    assert!(servers[1].enabled);
    assert_eq!(servers[1].local_port, 1234);
    assert_eq!(servers[1].proxy_type, "HTTP");
    assert_eq!(servers[1].address, "b");
    assert!(!servers[0].enabled);
    assert_eq!(servers[0].local_port, 0);
    assert_eq!(servers[0].proxy_type, "SOCKS");
}

#[test]
fn edits_beyond_the_list_change_nothing() {
    let mut servers = vec![server("a", 1)];
    assert!(!set_enabled(&mut servers, 1, true));
    assert!(!set_local_port(&mut servers, 5, 1234));
    assert!(!set_proxy_type(&mut servers, usize::MAX, "HTTP"));
    assert!(!servers[0].enabled);
    assert_eq!(servers[0].local_port, 0);
    assert_eq!(servers[0].proxy_type, "SOCKS");
    assert_eq!(servers.len(), 1);
}

#[test]
fn settings_are_collected_by_key() {
    let mut servers = vec![server("a", 1), server("b", 2), server("a", 1)];
    servers[0].local_port = 1080;
    servers[1].local_port = 1081;
    servers[1].enabled = true;
    servers[1].proxy_type = "HTTP".to_string();
    servers[2].local_port = 1082;
    let settings = collect_settings(&servers);
    assert_eq!(settings.keys().len(), 2);
    let a = settings.get("vless://a:1").unwrap();
    assert_eq!(a.local_port, 1082);
    assert!(!a.enabled);
    let b = settings.get("vless://b:2").unwrap();
    assert_eq!(b.local_port, 1081);
    assert_eq!(b.proxy_type, "HTTP");
    assert!(b.enabled);
    assert!(collect_settings(&Vec::new()).keys().is_empty());
}
