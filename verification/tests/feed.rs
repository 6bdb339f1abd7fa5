use xray_vpn_manager::feed::{decode_subscription, feed_uris, payload_uris, response_uris, supported_uri};

const BODY: &str = "dmxlc3M6Ly91dWlkQGEuZXhhbXBsZTo0NDM/eD0xI09uZQ0KICB2bWVzczovL2FiYyAgCgpodHRwOi8vbm90aGluZwpzczovL3NlY3JldEBiLmV4YW1wbGU6ODM4OAp0cm9qYW46Ly9wd0BjLmV4YW1wbGU6NDQzCnNoYWRvd3NvY2tzOi8veApzb2NrczovL3kKIG5vdCBhIHVyaQo=";

fn expected() -> Vec<String> {
    vec![
        "vless://uuid@a.example:443?x=1#One".to_string(),
        "vmess://abc".to_string(),
        "ss://secret@b.example:8388".to_string(),
        "trojan://pw@c.example:443".to_string(),
        "shadowsocks://x".to_string(),
        "socks://y".to_string(),
    ]
}

#[test]
fn body_is_decoded_into_its_uris() {
    assert_eq!(decode_subscription(BODY), expected());
}

#[test]
fn body_is_trimmed_before_decoding() {
    let padded = format!("  \n{}\r\n ", BODY);
    assert_eq!(decode_subscription(&padded), expected());
}

#[test]
fn body_that_is_no_base64_gives_no_uris() {
    assert_eq!(decode_subscription("vless://not-encoded"), Vec::<String>::new());
    assert_eq!(decode_subscription("!!!!"), Vec::<String>::new());
    assert_eq!(decode_subscription("dmxlc3M6Ly9h="), Vec::<String>::new());
}

#[test]
fn body_that_is_no_utf8_gives_no_uris() {
    assert_eq!(decode_subscription("//52bGVzczovL2E="), Vec::<String>::new());
}

#[test]
fn empty_body_gives_no_uris() {
    assert_eq!(decode_subscription(""), Vec::<String>::new());
    assert_eq!(decode_subscription("   "), Vec::<String>::new());
}

#[test]
fn unicode_white_space_is_trimmed_from_lines() {
    assert_eq!(decode_subscription("dmxlc3M6Ly/DqeOAgA=="), vec!["vless://é".to_string()]);
}

#[test]
fn failed_fetch_gives_no_uris() {
    assert_eq!(response_uris(None), Vec::<String>::new());
}

#[test]
fn fetched_body_is_decoded() {
    assert_eq!(response_uris(Some(BODY)), expected());
    assert_eq!(response_uris(Some("%%%")), Vec::<String>::new());
}

#[test]
fn payload_is_read_as_utf8() {
    assert_eq!(
        payload_uris(Some(b"ss://a\nvmess://b".to_vec())),
        vec!["ss://a".to_string(), "vmess://b".to_string()]
    );
    assert_eq!(payload_uris(Some(vec![0xff, 0xfe])), Vec::<String>::new());
    assert_eq!(payload_uris(Some(vec![0xc3])), Vec::<String>::new());
    assert_eq!(payload_uris(None), Vec::<String>::new());
}

#[test]
fn lines_keep_their_order_and_only_known_schemes() {
    assert_eq!(
        feed_uris("socks://2\nunknown://x\n\tvless://1\t\nVLESS://upper\nss:/broken"),
        vec!["socks://2".to_string(), "vless://1".to_string()]
    );
    assert_eq!(feed_uris(""), Vec::<String>::new());
}

#[test]
fn six_schemes_are_known() {
    for uri in ["vless://a", "vmess://a", "trojan://a", "ss://a", "shadowsocks://a", "socks://a"] {
        assert!(supported_uri(uri));
    }
    for uri in ["http://a", "https://a", "socks5://a", "vless:/a", "", "ss:", " ss://a", "Vmess://a"] {
        assert!(!supported_uri(uri));
    }
}
