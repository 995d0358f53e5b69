use releash::config::{ensure_token, generate_token, ReleashConfig, TOKEN_LENGTH};
use releash::git::{index_status_from_flags, status_entries_to_files, worktree_status_from_flags};
use releash::pty::IdCounter;
use releash::qr_code::{build_connection_url, get_connection_qr};
use releash::search::{get_definition_patterns, language_extensions};
use releash::tls::{is_cert_expired, should_reuse_cert};
use releash::vpn_detect::{
    detect_all_interfaces, detect_vpn_ip, is_private_ip, is_vpn_interface,
    parse_ifconfig_output, parse_routes_for_interface, resolve_bind_address,
};
use releash::watcher::{generate_watcher_id, watcher_messages};
use releash::ws_server::{content_type_for, resolve_pwa_request, start_permitted};

#[test]
fn test_build_url_localhost() {
    let url = build_connection_url("127.0.0.1", 9700, false, None).unwrap();
    assert_eq!(url, "http://127.0.0.1:9700");
}

#[test]
fn test_build_url_with_tls() {
    let url = build_connection_url("127.0.0.1", 9700, true, None).unwrap();
    assert!(url.starts_with("https://"));
    assert!(!url.contains("token"));
}

#[test]
fn test_build_url_custom_ip() {
    let url = build_connection_url("192.168.1.100", 8080, false, None).unwrap();
    assert_eq!(url, "http://192.168.1.100:8080");
}

#[test]
fn build_url_mesh_needs_a_detected_address() {
    assert!(build_connection_url("meshnet", 9700, false, None).is_err());
    let url = build_connection_url("meshnet", 9700, true, Some("100.100.1.42")).unwrap();
    assert_eq!(url, "https://100.100.1.42:9700");
}

#[test]
fn test_generate_qr_svg_valid() {
    let q = get_connection_qr("127.0.0.1", 9700, false, None, "test").unwrap();
    assert!(q.svg.contains("<svg"));
    assert!(q.svg.contains("</svg>"));
    assert!(q.token_svg.contains("<svg"));
}

#[test]
fn test_generate_qr_svg_has_dimensions() {
    let q = get_connection_qr("127.0.0.1", 9700, false, None, "test").unwrap();
    assert!(q.svg.contains("width="));
    assert!(q.svg.contains("height="));
}

#[test]
fn test_vpn_interface_names() {
    assert!(is_vpn_interface("nordlynx"));
    assert!(is_vpn_interface("tailscale0"));
    assert!(is_vpn_interface("utun3"));
    assert!(is_vpn_interface("wg0"));
    assert!(is_vpn_interface("tun0"));
    assert!(is_vpn_interface("zt0"));
    assert!(is_vpn_interface("nebula0"));
}

#[test]
fn test_non_vpn_interface_names() {
    assert!(!is_vpn_interface("en0"));
    assert!(!is_vpn_interface("lo0"));
    assert!(!is_vpn_interface("eth0"));
    assert!(!is_vpn_interface("bridge0"));
}

#[test]
fn test_parse_routes_active_vpn() {
    let netstat = "\
Destination        Gateway            Flags    Netif
default            100.124.65.29      UGScg    utun4
100.124.65.29      100.124.65.29      UHr      utun4
100.124.65.29/32   link#24            UCS      utun4
224.0.0/4          link#24            UmCS     utun4
255.255.255.255/32 link#24            UCS      utun4";
    assert!(parse_routes_for_interface(netstat, "utun4", "100.124.65.29"));
}

#[test]
fn test_parse_routes_stale_vpn() {
    let netstat = "\
Destination        Gateway            Flags    Netif
100.124.65.29      100.124.65.29      UHr      utun4
100.124.65.29/32   link#24            UCS      utun4
224.0.0/4          link#24            UmCS     utun4
255.255.255.255/32 link#24            UCS      utun4";
    assert!(!parse_routes_for_interface(netstat, "utun4", "100.124.65.29"));
}

#[test]
fn test_parse_routes_no_matching_interface() {
    let netstat = "\
Destination        Gateway            Flags    Netif
default            192.168.1.1        UGScg    en0";
    assert!(!parse_routes_for_interface(netstat, "utun4", "100.124.65.29"));
}

#[test]
fn test_parse_routes_subnet_route() {
    let netstat = "\
Destination        Gateway            Flags    Netif
100.64/10          100.124.65.29      UGSc     utun4
100.124.65.29/32   link#24            UCS      utun4";
    assert!(parse_routes_for_interface(netstat, "utun4", "100.124.65.29"));
}

#[test]
fn test_parse_ifconfig_with_vpn() {
    let output = "en0: flags=8863<UP,BROADCAST,SMART,RUNNING,SIMPLEX,MULTICAST> mtu 1500
\tinet 192.168.1.100 netmask 0xffffff00 broadcast 192.168.1.255
utun3: flags=8051<UP,POINTOPOINT,RUNNING,MULTICAST> mtu 1280
\tinet 100.100.1.42 --> 100.100.1.42 netmask 0xffffffff
lo0: flags=8049<UP,LOOPBACK,RUNNING,MULTICAST> mtu 16384
\tinet 127.0.0.1 netmask 0xff000000
";
    let interfaces = parse_ifconfig_output(output);
    assert_eq!(interfaces.len(), 3);
    assert_eq!(interfaces[0].name, "en0");
    assert_eq!(
        (interfaces[0].o0, interfaces[0].o1, interfaces[0].o2, interfaces[0].o3),
        (192, 168, 1, 100)
    );
    assert_eq!(interfaces[1].name, "utun3");
    assert_eq!(
        (interfaces[1].o0, interfaces[1].o1, interfaces[1].o2, interfaces[1].o3),
        (100, 100, 1, 42)
    );
    assert_eq!(interfaces[2].name, "lo0");
    assert_eq!(
        (interfaces[2].o0, interfaces[2].o1, interfaces[2].o2, interfaces[2].o3),
        (127, 0, 0, 1)
    );
}

#[test]
fn test_parse_ifconfig_empty() {
    let interfaces = parse_ifconfig_output("");
    assert!(interfaces.is_empty());
}

#[test]
fn detect_lists_active_vpn_and_lan() {
    let ifconfig = "en0: flags=8863<UP> mtu 1500
\tinet 192.168.1.100 netmask 0xffffff00
utun4: flags=8051<UP> mtu 1280
\tinet 100.124.65.29 --> 100.124.65.29
lo0: flags=8049<UP,LOOPBACK> mtu 16384
\tinet 127.0.0.1 netmask 0xff000000
";
    let netstat = "\
Destination        Gateway            Flags    Netif
default            100.124.65.29      UGScg    utun4";
    let all = detect_all_interfaces(ifconfig, netstat);
    assert_eq!(all.len(), 2);
    assert_eq!(all[0].kind, "lan");
    assert_eq!(all[0].ip, "192.168.1.100");
    assert_eq!(all[1].kind, "vpn");
    assert_eq!(all[1].ip, "100.124.65.29");

    let vpn = detect_vpn_ip(ifconfig, netstat).unwrap();
    assert_eq!(vpn.name, "utun4");
    assert_eq!(vpn.ip, "100.124.65.29");
}

#[test]
fn test_resolve_bind_address_localhost() {
    let result = resolve_bind_address("127.0.0.1", &None).unwrap();
    assert_eq!(result, "127.0.0.1");
}

#[test]
fn test_resolve_bind_address_any() {
    let result = resolve_bind_address("any", &None).unwrap();
    assert_eq!(result, "0.0.0.0");
}

#[test]
fn test_resolve_bind_address_invalid() {
    assert!(resolve_bind_address("not_an_ip", &None).is_err());
}

#[test]
fn test_is_private_ip() {
    assert!(is_private_ip(192, 168));
    assert!(is_private_ip(10, 0));
    assert!(is_private_ip(172, 16));
    assert!(is_private_ip(172, 31));
    assert!(!is_private_ip(172, 15));
    assert!(!is_private_ip(172, 32));
    assert!(!is_private_ip(8, 8));
    assert!(!is_private_ip(127, 0));
}

#[test]
fn test_content_type_html() {
    assert_eq!(content_type_for("index.html"), "text/html; charset=utf-8");
}

#[test]
fn test_content_type_js() {
    assert_eq!(
        content_type_for("app.js"),
        "application/javascript; charset=utf-8"
    );
}

#[test]
fn test_content_type_unknown() {
    assert_eq!(content_type_for("data.bin"), "application/octet-stream");
}

#[test]
fn test_security_block_any_without_tls() {
    assert!(!start_permitted("0.0.0.0", false));
    assert!(!start_permitted("any", false));
}

#[test]
fn test_security_allow_localhost_without_tls() {
    assert!(start_permitted("127.0.0.1", false));
}

#[test]
fn test_security_allow_any_with_tls() {
    assert!(start_permitted("0.0.0.0", true));
    assert!(start_permitted("any", true));
}

#[test]
fn pwa_paths_resolve_under_the_asset_root() {
    assert_eq!(resolve_pwa_request("/"), "pwa.html");
    assert_eq!(resolve_pwa_request(""), "pwa.html");
    assert_eq!(resolve_pwa_request("/app.js"), "app.js");
    assert_eq!(resolve_pwa_request("//x/y.css"), "x/y.css");
}

#[test]
fn generated_tokens_are_unique_and_correct_length() {
    let t1 = generate_token();
    let t2 = generate_token();
    assert_ne!(t1, t2);
    assert_eq!(t1.len(), TOKEN_LENGTH);
    assert_eq!(t2.len(), TOKEN_LENGTH);
    assert!(t1.chars().all(|c| c.is_ascii_alphanumeric()));
    assert!(t2.chars().all(|c| c.is_ascii_alphanumeric()));
}

#[test]
fn empty_token_is_generated_and_kept_otherwise() {
    let mut config = ReleashConfig::default();
    assert_eq!(config.server.bind, "127.0.0.1");
    assert_eq!(config.server.port, 9700);
    let changed = ensure_token(&mut config);
    assert!(changed);
    assert_eq!(config.server.token.len(), TOKEN_LENGTH);
    let kept = config.server.token.clone();
    assert!(!ensure_token(&mut config));
    assert_eq!(config.server.token, kept);
}

#[test]
fn test_is_cert_expired_nonexistent() {
    // an unreadable certificate (here: one that does not exist, so its age
    // is unknown) always counts as expired
    assert!(is_cert_expired(None));
}

#[test]
fn cert_reuse_requires_match_and_youth() {
    assert!(is_cert_expired(None));
    assert!(is_cert_expired(Some(366 * 24 * 60 * 60)));
    assert!(!is_cert_expired(Some(10)));
    let stored = Some("100.100.1.42\n".to_string());
    assert!(should_reuse_cert(true, true, &stored, "100.100.1.42", Some(10)));
    assert!(!should_reuse_cert(true, true, &stored, "100.100.1.43", Some(10)));
    assert!(!should_reuse_cert(false, true, &stored, "100.100.1.42", Some(10)));
    assert!(!should_reuse_cert(true, true, &stored, "100.100.1.42", None));
}

#[test]
fn status_bits_map_to_state_words() {
    assert_eq!(index_status_from_flags(1), "new");
    assert_eq!(index_status_from_flags(2), "modified");
    assert_eq!(index_status_from_flags(4), "deleted");
    assert_eq!(index_status_from_flags(8), "renamed");
    assert_eq!(index_status_from_flags(0), "none");
    assert_eq!(worktree_status_from_flags(128), "new");
    assert_eq!(worktree_status_from_flags(256), "modified");
    assert_eq!(worktree_status_from_flags(512), "deleted");
    assert_eq!(worktree_status_from_flags(0), "none");

    let files = status_entries_to_files(vec![
        ("clean.txt".to_string(), 0),
        ("fresh.txt".to_string(), 128),
    ]);
    assert_eq!(files.len(), 1);
    assert_eq!(files[0].path, "fresh.txt");
    assert_eq!(files[0].index_status, "none");
    assert_eq!(files[0].worktree_status, "new");
}

#[test]
fn definition_tables_cover_the_languages() {
    let rust_patterns = get_definition_patterns("rust");
    assert_eq!(rust_patterns.len(), 7);
    assert_eq!(rust_patterns[0].0, "function");
    assert!(rust_patterns[0].1.contains("{symbol}"));
    let fallback = get_definition_patterns("cobol");
    assert_eq!(fallback.len(), 2);
    assert_eq!(language_extensions("typescript"), vec!["ts", "tsx"]);
    assert_eq!(language_extensions("rust"), vec!["rs"]);
    assert!(language_extensions("cobol").is_empty());
}

#[test]
fn watcher_event_collapses_kinds_and_refreshes_status() {
    let mut counter = IdCounter::new();
    assert_eq!(generate_watcher_id(&mut counter), 1);
    assert_eq!(generate_watcher_id(&mut counter), 2);

    let msgs = watcher_messages("src/lib.rs".to_string(), Some(vec![]));
    assert_eq!(msgs.len(), 2);
    match &msgs[0] {
        releash::protocol::WsMessage::FileChange(f) => {
            assert_eq!(f.path, "src/lib.rs");
            assert_eq!(f.kind, "change");
        }
        _ => panic!("expected the change event first"),
    }
    match &msgs[1] {
        releash::protocol::WsMessage::GitStatusSync(_) => {}
        _ => panic!("expected a status refresh"),
    }
    let only = watcher_messages("a".to_string(), None);
    assert_eq!(only.len(), 1);
}
