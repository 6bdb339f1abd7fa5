use xray_vpn_manager::config::{ServerSettings, SettingsTable};
use xray_vpn_manager::vpn::{assign_local_ports, VpnServer};

fn server(protocol: &str, address: &str, port: u16, name: &str) -> VpnServer {
    VpnServer {
        protocol: protocol.to_string(),
        address: address.to_string(),
        port,
        name: name.to_string(),
        enabled: false,
        local_port: 0,
        proxy_type: "SOCKS".to_string(),
    }
}

#[test]
fn two_new_servers_get_the_first_two_ports() {
    let mut servers = vec![server("vless", "a", 1, "first"), server("vmess", "b", 2, "second")];
    let saved = SettingsTable::new();
    assign_local_ports(&mut servers, &saved);
    assert_eq!(servers[0].local_port, 1080);
    assert_eq!(servers[1].local_port, 1081);
}

#[test]
fn saved_settings_are_kept_and_new_server_gets_next_port() {
    let mut saved = SettingsTable::new();
    saved.insert(
        "vless://a:1".to_string(),
        ServerSettings { local_port: 1080, proxy_type: "SOCKS".to_string(), enabled: true },
    );
    let mut servers = vec![server("vless", "a", 1, "renamed"), server("vmess", "b", 2, "new")];
    assign_local_ports(&mut servers, &saved);
    assert_eq!(servers[0].get_server_key(), "vless://a:1");
    assert_eq!(servers[0].local_port, 1080);
    assert_eq!(servers[0].proxy_type, "SOCKS");
    assert!(servers[0].enabled);
    assert_eq!(servers[0].name, "renamed");
    assert_eq!(servers[1].get_server_key(), "vmess://b:2");
    assert_eq!(servers[1].local_port, 1081);
    assert!(!servers[1].enabled);
}

fn saved_entry(local_port: u16, proxy_type: &str, enabled: bool) -> ServerSettings {
    ServerSettings { local_port, proxy_type: proxy_type.to_string(), enabled }
}

#[test]
fn allocation_skips_saved_ports() {
    let mut saved = SettingsTable::new();
    saved.insert("P://a:1".to_string(), saved_entry(1081, "HTTP", true));
    saved.insert("P://c:3".to_string(), saved_entry(1080, "SOCKS", false));
    let mut servers = vec![
        server("P", "new1", 9, "n1"),
        server("P", "a", 1, "a"),
        server("P", "new2", 9, "n2"),
        server("P", "c", 3, "c"),
        server("P", "new3", 9, "n3"),
    ];
    assign_local_ports(&mut servers, &saved);
    let ports: Vec<u16> = servers.iter().map(|s| s.local_port).collect();
    assert_eq!(ports, vec![1082, 1081, 1083, 1080, 1084]);
    assert_eq!(servers[1].proxy_type, "HTTP");
    assert!(servers[1].enabled);
    assert_eq!(servers[3].proxy_type, "SOCKS");
    assert!(!servers[3].enabled);
    assert_eq!(servers[0].proxy_type, "SOCKS");
    assert!(!servers[0].enabled);
}

#[test]
fn saved_ports_below_the_first_port_do_not_move_the_allocation() {
    let mut saved = SettingsTable::new();
    saved.insert("P://a:1".to_string(), saved_entry(80, "HTTP", true));
    saved.insert("P://b:2".to_string(), saved_entry(2000, "HTTP", true));
    let mut servers = vec![server("P", "a", 1, "a"), server("P", "b", 2, "b"), server("P", "c", 3, "c")];
    assign_local_ports(&mut servers, &saved);
    let ports: Vec<u16> = servers.iter().map(|s| s.local_port).collect();
    assert_eq!(ports, vec![80, 2000, 1080]);
}

#[test]
fn saved_settings_for_servers_not_in_the_list_use_no_port() {
    let mut saved = SettingsTable::new();
    saved.insert("P://gone:1".to_string(), saved_entry(1080, "HTTP", true));
    let mut servers = vec![server("P", "here", 1, "h")];
    assign_local_ports(&mut servers, &saved);
    assert_eq!(servers[0].local_port, 1080);
    assert_eq!(servers.len(), 1);
}

#[test]
fn equal_saved_ports_are_both_kept() {
    let mut saved = SettingsTable::new();
    saved.insert("P://a:1".to_string(), saved_entry(1085, "HTTP", true));
    saved.insert("P://b:2".to_string(), saved_entry(1085, "SOCKS", true));
    let mut servers = vec![server("P", "a", 1, "a"), server("P", "b", 2, "b"), server("P", "c", 3, "c")];
    assign_local_ports(&mut servers, &saved);
    let ports: Vec<u16> = servers.iter().map(|s| s.local_port).collect();
    assert_eq!(ports, vec![1085, 1085, 1080]);
}

#[test]
fn saved_port_zero_is_replaced_by_a_free_port() {
    let mut saved = SettingsTable::new();
    saved.insert("P://a:1".to_string(), saved_entry(0, "HTTP", true));
    let mut servers = vec![server("P", "a", 1, "a")];
    assign_local_ports(&mut servers, &saved);
    assert_eq!(servers[0].local_port, 1080);
    assert_eq!(servers[0].proxy_type, "HTTP");
    assert!(servers[0].enabled);
}

#[test]
fn server_that_comes_with_a_port_keeps_it() {
    let mut with_port = server("P", "a", 1, "a");
    with_port.local_port = 4000;
    let mut servers = vec![with_port, server("P", "b", 2, "b")];
    assign_local_ports(&mut servers, &SettingsTable::new());
    let ports: Vec<u16> = servers.iter().map(|s| s.local_port).collect();
    assert_eq!(ports, vec![4000, 1080]);
}

#[test]
fn merge_changes_nothing_that_identifies_a_server() {
    let mut saved = SettingsTable::new();
    saved.insert("P://a:1".to_string(), saved_entry(1500, "HTTP", true));
    let mut servers = vec![server("P", "a", 1, "first"), server("Q", "b", 2, "second")];
    assign_local_ports(&mut servers, &saved);
    assert_eq!(servers[0].protocol, "P");
    assert_eq!(servers[0].address, "a");
    assert_eq!(servers[0].port, 1);
    assert_eq!(servers[0].name, "first");
    assert_eq!(servers[1].protocol, "Q");
    assert_eq!(servers[1].address, "b");
    assert_eq!(servers[1].port, 2);
    assert_eq!(servers[1].name, "second");
}

#[test]
fn no_port_is_handed_out_twice() {
    let mut saved = SettingsTable::new();
    let mut servers = Vec::new();
    let mut i: u16 = 0;
    while i < 300 {
        let address = format!("host{}", i);
        if i % 3 == 0 {
            saved.insert(format!("P://{}:{}", address, i), saved_entry(1080 + 2 * i, "SOCKS", i % 2 == 0));
        }
        servers.push(server("P", &address, i, "n"));
        i += 1;
    }
    assign_local_ports(&mut servers, &saved);
    let mut ports: Vec<u16> = servers.iter().map(|s| s.local_port).collect();
    assert!(ports.iter().all(|p| *p >= 1080));
    ports.sort();
    let before = ports.len();
    ports.dedup();
    assert_eq!(ports.len(), before);
}

#[test]
fn merge_gives_the_same_result_each_time() {
    let mut saved = SettingsTable::new();
    saved.insert("P://b:2".to_string(), saved_entry(1080, "HTTP", true));
    let list = vec![server("P", "a", 1, "a"), server("P", "b", 2, "b"), server("P", "c", 3, "c")];
    let mut first = list.clone();
    let mut second = list.clone();
    assign_local_ports(&mut first, &saved);
    assign_local_ports(&mut second, &saved);
    let a: Vec<(u16, String, bool)> = first.iter().map(|s| (s.local_port, s.proxy_type.clone(), s.enabled)).collect();
    let b: Vec<(u16, String, bool)> = second.iter().map(|s| (s.local_port, s.proxy_type.clone(), s.enabled)).collect();
    assert_eq!(a, b);
    assert_eq!(a[0].0, 1081);
    assert_eq!(a[1].0, 1080);
    assert_eq!(a[2].0, 1082);
}

#[test]
fn empty_list_stays_empty() {
    let mut servers: Vec<VpnServer> = Vec::new();
    assign_local_ports(&mut servers, &SettingsTable::new());
    assert!(servers.is_empty());
}

fn fresh_list(len: u32) -> Vec<VpnServer> {
    let mut servers = Vec::new();
    let mut i: u32 = 0;
    while i < len {
        servers.push(server("P", "h", (i % 65536) as u16, "n"));
        i += 1;
    }
    servers
}

#[test]
fn longest_list_uses_every_port_up_to_the_last() {
    let mut servers = fresh_list(64456);
    assign_local_ports(&mut servers, &SettingsTable::new());
    assert_eq!(servers[0].local_port, 1080);
    assert_eq!(servers[1].local_port, 1081);
    assert_eq!(servers[64455].local_port, 65535);
    let mut ports: Vec<u16> = servers.iter().map(|s| s.local_port).collect();
    ports.sort();
    ports.dedup();
    assert_eq!(ports.len(), 64456);
}

#[test]
fn server_beyond_the_last_port_stays_without_one() {
    let mut servers = fresh_list(64458);
    assign_local_ports(&mut servers, &SettingsTable::new());
    assert_eq!(servers[64455].local_port, 65535);
    assert_eq!(servers[64456].local_port, 0);
    assert_eq!(servers[64457].local_port, 0);
    assert_eq!(servers.len(), 64458);
}

#[test]
fn saved_settings_are_applied_in_a_list_of_any_length() {
    let mut saved = SettingsTable::new();
    saved.insert("P://h:7".to_string(), saved_entry(2000, "HTTP", true));
    let mut servers = fresh_list(64460);
    servers[64459].port = 7;
    assign_local_ports(&mut servers, &saved);
    assert_eq!(servers[7].local_port, 2000);
    assert_eq!(servers[64459].local_port, 2000);
    assert_eq!(servers[64459].proxy_type, "HTTP");
    assert!(servers[64459].enabled);
    assert_eq!(servers[64458].local_port, 0);
}
