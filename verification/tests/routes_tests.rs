use base64::Engine;
use siren_tunnel::config::Config;
use siren_tunnel::routes::{
    is_websocket_upgrade, siren_links, ss_link, vless_link, vmess_entries, vmess_json, vmess_link,
};

const UUID: &[u8] = b"00000000-0000-0000-0000-000000000000";

fn b64(input: &[u8]) -> String {
    base64::engine::general_purpose::URL_SAFE.encode(input)
}

#[test]
fn vmess_json_exact() {
    let json = vmess_json(UUID, b"example.com");
    let expected = "{\"add\":\"example.com\",\"aid\":\"0\",\"alpn\":\"\",\"host\":\"example.com\",\"id\":\"00000000-0000-0000-0000-000000000000\",\"net\":\"ws\",\"path\":\"/KR\",\"port\":\"443\",\"ps\":\"siren\",\"sni\":\"\",\"tls\":\"\",\"type\":\"none\",\"v\":\"2\"}";
    assert_eq!(json, expected.as_bytes().to_vec());
}

#[test]
fn vmess_link_encodes_its_json() {
    let link = vmess_link(UUID, b"example.com");
    let expected = format!("vmess://{}", b64(&vmess_json(UUID, b"example.com")));
    assert_eq!(link, expected.into_bytes());
}

#[test]
fn vless_link_exact() {
    let link = vless_link(UUID, b"example.com");
    let expected = "vless://00000000-0000-0000-0000-000000000000@example.com:443?encryption=none&type=ws&host=example.com&path=%2FKR&security=tls&sni=example.com#siren vless";
    assert_eq!(link, expected.as_bytes().to_vec());
}

#[test]
fn ss_link_encodes_its_userinfo() {
    let link = ss_link(UUID, b"example.com");
    let mut userinfo = b"none:".to_vec();
    userinfo.extend_from_slice(UUID);
    let expected = format!(
        "ss://{}@example.com:443?plugin=v2ray-plugin;mode=websocket;host=example.com;path=%2FKR#siren ss",
        b64(&userinfo)
    );
    assert_eq!(link, expected.into_bytes());
}

#[test]
fn siren_links_are_newline_separated() {
    let body = siren_links(UUID, b"example.com");
    let text = String::from_utf8(body).unwrap();
    let lines: Vec<&str> = text.split('\n').collect();
    assert_eq!(lines.len(), 4);
    assert!(lines[0].starts_with("vmess://"));
    assert!(lines[1].starts_with("vless://"));
    assert!(lines[2].starts_with("trojan://"));
    assert!(lines[3].starts_with("ss://"));
}

#[test]
fn entry_list_holds_the_static_relay() {
    let entries = vmess_entries();
    assert_eq!(entries.len(), 1);
    assert_eq!(entries[0], b"172.232.231.191:444".to_vec());
}

#[test]
fn websocket_upgrade_detection_ignores_case() {
    assert!(is_websocket_upgrade(b"websocket"));
    assert!(is_websocket_upgrade(b"WebSocket"));
    assert!(is_websocket_upgrade(b"WEBSOCKET"));
    assert!(!is_websocket_upgrade(b""));
    assert!(!is_websocket_upgrade(b"websockets"));
    assert!(!is_websocket_upgrade(b"polling"));
}

#[test]
fn manual_config_holds_the_static_relay() {
    let c = Config::manual();
    assert_eq!(c.uuid, vec![0u8; 16]);
    assert_eq!(c.host, "");
    assert_eq!(c.proxy_addr, "172.232.231.191");
    assert_eq!(c.proxy_port, 444);
    assert_eq!(c.main_page_url, "/vmess");
    assert_eq!(c.sub_page_url, "");
}
