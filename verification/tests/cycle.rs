use xray_vpn_manager::config::{Config, ServerSettings, SettingsTable};
use xray_vpn_manager::reconcile::{plan_starts, StartReport, Supervisor};
use xray_vpn_manager::vpn::{UriTable, VpnServer};

fn server(address: &str, port: u16) -> VpnServer {
    VpnServer {
        protocol: "vless".to_string(),
        address: address.to_string(),
        port,
        name: address.to_string(),
        enabled: false,
        local_port: 0,
        proxy_type: "SOCKS".to_string(),
    }
}

fn config(url: &str, binary: &str) -> Config {
    let mut settings = SettingsTable::new();
    settings.insert(
        "vless://a:1".to_string(),
        ServerSettings { local_port: 1080, proxy_type: "SOCKS".to_string(), enabled: true },
    );
    settings.insert(
        "vless://b:2".to_string(),
        ServerSettings { local_port: 1090, proxy_type: "HTTP".to_string(), enabled: true },
    );
    settings.insert(
        "vless://c:3".to_string(),
        ServerSettings { local_port: 1091, proxy_type: "HTTP".to_string(), enabled: false },
    );
    settings.insert(
        "vless://e:5".to_string(),
        ServerSettings { local_port: 1092, proxy_type: "SOCKS".to_string(), enabled: true },
    );
    Config {
        subscription_url: url.to_string(),
        xray_binary_path: binary.to_string(),
        server_settings: settings,
        autostart: false,
    }
}

fn uris() -> UriTable {
    let mut uris = UriTable::new();
    uris.insert("vless://a:1".to_string(), "vless://a#as-listed".to_string());
    uris.insert("vless://b:2".to_string(), "vless://b#as-listed".to_string());
    uris.insert("vless://c:3".to_string(), "vless://c#as-listed".to_string());
    uris.insert("vless://d:4".to_string(), "vless://d#as-listed".to_string());
    uris
}

fn fetched() -> Vec<VpnServer> {
    vec![server("a", 1), server("b", 2), server("c", 3), server("d", 4), server("e", 5)]
}

#[test]
fn unconfigured_cycle_starts_nothing() {
    for (url, binary) in [("", ""), ("https://feed", ""), ("", "/opt/xray")] {
        let mut supervisor: Supervisor<u32> = Supervisor::new();
        let c = config(url, binary);
        let start = supervisor.begin_cycle(Some(&c));
        assert!(start.stopped.is_empty());
        assert_eq!(start.fetch_url, None);
        assert!(supervisor.next_start().is_none());
        assert!(supervisor.get_running_servers().is_empty());
        let left = supervisor.reconcile(&c, fetched(), &uris());
        assert!(left.is_empty());
        assert!(supervisor.next_start().is_none());
        assert!(supervisor.servers().is_empty());
        assert!(supervisor.get_running_servers().is_empty());
    }
}

#[test]
fn cycle_without_a_loaded_config_ends_at_once() {
    let mut supervisor: Supervisor<u32> = Supervisor::new();
    let start = supervisor.begin_cycle(None);
    assert_eq!(start.fetch_url, None);
    assert!(start.stopped.is_empty());
    assert!(supervisor.next_start().is_none());
    assert!(supervisor.get_running_servers().is_empty());
}

#[test]
fn configured_cycle_starts_the_enabled_servers() {
    let mut supervisor: Supervisor<u32> = Supervisor::new();
    let c = config("https://feed", "/opt/xray");
    let start = supervisor.begin_cycle(Some(&c));
    assert_eq!(start.fetch_url, Some("https://feed".to_string()));
    assert!(supervisor.reconcile(&c, fetched(), &uris()).is_empty());

    let registry = supervisor.servers();
    let ports: Vec<u16> = registry.iter().map(|s| s.local_port).collect();
    assert_eq!(ports, vec![1080, 1090, 1091, 1081, 1092]);
    let enabled: Vec<bool> = registry.iter().map(|s| s.enabled).collect();
    assert_eq!(enabled, vec![true, true, false, false, true]);

    let first = supervisor.next_start().unwrap().clone();
    assert_eq!(first.server_key, "vless://a:1");
    assert_eq!(first.uri, "vless://a#as-listed");
    assert_eq!(first.local_port, 1080);
    assert_eq!(first.proxy_type, "SOCKS");
    assert_eq!(first.xray_binary_path, "/opt/xray");
    assert!(matches!(supervisor.start_finished(Err("no such file".to_string())), StartReport::Failed(m) if m == "Failed to start xray: no such file"));
    assert!(supervisor.get_running_servers().is_empty());

    let second = supervisor.next_start().unwrap().clone();
    assert_eq!(second.server_key, "vless://b:2");
    assert_eq!(second.uri, "vless://b#as-listed");
    assert_eq!(second.local_port, 1090);
    assert_eq!(second.proxy_type, "HTTP");
    assert!(matches!(supervisor.start_finished(Ok(42)), StartReport::Started));
    assert_eq!(supervisor.get_running_servers(), vec!["vless://b:2".to_string()]);

    assert!(supervisor.next_start().is_none());
    assert!(matches!(supervisor.start_finished(Ok(9)), StartReport::Unrequested(Ok(9))));
    assert!(matches!(supervisor.start_finished(Err("x".to_string())), StartReport::Unrequested(Err(m)) if m == "x"));
    assert_eq!(supervisor.get_running_servers(), vec!["vless://b:2".to_string()]);
}

#[test]
fn next_cycle_stops_what_ran() {
    let mut supervisor: Supervisor<u32> = Supervisor::new();
    let c = config("https://feed", "/opt/xray");
    supervisor.begin_cycle(Some(&c));
    supervisor.reconcile(&c, fetched(), &uris());
    assert!(matches!(supervisor.start_finished(Ok(1)), StartReport::Started));
    assert!(supervisor.next_start().is_some());

    let start = supervisor.begin_cycle(Some(&config("", "")));
    assert_eq!(start.stopped, vec![("vless://a:1".to_string(), 1)]);
    assert_eq!(start.fetch_url, None);
    assert!(supervisor.get_running_servers().is_empty());
    assert!(supervisor.next_start().is_none());
    assert_eq!(supervisor.servers().len(), 5);
}

#[test]
fn reconcile_hands_back_engines_that_still_ran() {
    let mut supervisor: Supervisor<u32> = Supervisor::new();
    let c = config("https://feed", "/opt/xray");
    supervisor.begin_cycle(Some(&c));
    supervisor.reconcile(&c, fetched(), &uris());
    assert!(matches!(supervisor.start_finished(Ok(1)), StartReport::Started));
    let left = supervisor.reconcile(&c, vec![server("b", 2)], &uris());
    assert_eq!(left, vec![("vless://a:1".to_string(), 1)]);
    assert!(supervisor.get_running_servers().is_empty());
    assert_eq!(supervisor.servers().len(), 1);
    assert_eq!(supervisor.next_start().unwrap().server_key, "vless://b:2");
}

#[test]
fn stop_all_empties_the_table_and_the_pending_starts() {
    let mut supervisor: Supervisor<u32> = Supervisor::new();
    let c = config("https://feed", "/opt/xray");
    supervisor.begin_cycle(Some(&c));
    supervisor.reconcile(&c, fetched(), &uris());
    assert!(matches!(supervisor.start_finished(Ok(1)), StartReport::Started));
    assert_eq!(supervisor.stop_all_servers(), vec![("vless://a:1".to_string(), 1)]);
    assert!(supervisor.get_running_servers().is_empty());
    assert!(supervisor.next_start().is_none());
    assert!(supervisor.stop_all_servers().is_empty());
    assert_eq!(supervisor.servers().len(), 5);
}

#[test]
fn single_server_can_be_stopped() {
    let mut supervisor: Supervisor<u32> = Supervisor::new();
    let c = config("https://feed", "/opt/xray");
    supervisor.begin_cycle(Some(&c));
    supervisor.reconcile(&c, fetched(), &uris());
    assert!(matches!(supervisor.start_finished(Ok(1)), StartReport::Started));
    assert!(matches!(supervisor.start_finished(Ok(2)), StartReport::Started));
    assert_eq!(supervisor.stop_server("vless://a:1"), Some(1));
    assert_eq!(supervisor.stop_server("vless://a:1"), None);
    assert_eq!(supervisor.get_running_servers(), vec!["vless://b:2".to_string()]);
}

#[test]
fn starts_need_enabled_flag_settings_and_uri() {
    let c = config("https://feed", "/opt/xray");
    let mut servers = fetched();
    for s in servers.iter_mut() {
        s.enabled = true;
    }
    servers[1].enabled = false;
    let requests = plan_starts(&servers, &c, &uris());
    let keys: Vec<String> = requests.iter().map(|r| r.server_key.clone()).collect();
    assert_eq!(keys, vec!["vless://a:1".to_string(), "vless://c:3".to_string()]);
    assert_eq!(requests[1].local_port, 1091);
    assert_eq!(requests[1].proxy_type, "HTTP");
    assert_eq!(requests[1].uri, "vless://c#as-listed");
    assert!(plan_starts(&Vec::new(), &c, &uris()).is_empty());
    assert!(plan_starts(&servers, &c, &UriTable::new()).is_empty());
}
