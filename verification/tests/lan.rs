use bdengine_desktop::lan::extract_minecraft_lan_tag;
use bdengine_desktop::lan::parse_minecraft_lan_announcement;
use bdengine_desktop::lan::LanAction;
use bdengine_desktop::lan::LanDiscovery;
use bdengine_desktop::lan::LanEvent;

fn packet(bytes: &[u8], host: &str) -> LanEvent {
    LanEvent::Packet { bytes: bytes.to_vec(), sender_host: host.to_string() }
}

#[test]
fn tags_are_extracted() {
    assert_eq!(extract_minecraft_lan_tag("x[A]hällo[/A]y", "[A]", "[/A]"), Some("hällo"));
    assert_eq!(extract_minecraft_lan_tag("[A]1[/A][A]2[/A]", "[A]", "[/A]"), Some("1"));
    assert_eq!(extract_minecraft_lan_tag("[/A][A]1[/A]", "[A]", "[/A]"), Some("1"));
    assert_eq!(extract_minecraft_lan_tag("[A][/A]", "[A]", "[/A]"), Some(""));
    assert_eq!(extract_minecraft_lan_tag("[A]1", "[A]", "[/A]"), None);
    assert_eq!(extract_minecraft_lan_tag("1[/A]", "[A]", "[/A]"), None);
    assert_eq!(extract_minecraft_lan_tag("", "", ""), Some(""));
}

#[test]
fn announcements_are_read() {
    let server =
        parse_minecraft_lan_announcement("[MOTD]My §aWorld[/MOTD][AD] 54321 [/AD]", "10.0.0.2")
            .unwrap();
    assert_eq!(server.host, "10.0.0.2");
    assert_eq!(server.port, 54321);
    assert_eq!(server.motd, "My §aWorld");
}

#[test]
fn announcements_can_be_useless() {
    for message in [
        "",
        "[MOTD]a[/MOTD]",
        "[AD]1[/AD]",
        "[MOTD]a[/MOTD][AD]0[/AD]",
        "[MOTD]a[/MOTD][AD]65536[/AD]",
        "[MOTD]a[/MOTD][AD]x[/AD]",
        "[MOTD]a[/MOTD][AD]10.0.0.1:5[/AD]",
    ] {
        assert!(parse_minecraft_lan_announcement(message, "h").is_none(), "{:?}", message);
    }
}

#[test]
fn what_is_announced_is_found() {
    for port in [1u16, 25565, 65535] {
        let message = format!("[MOTD]{}[/MOTD][AD]{}[/AD]", "A [world]", port);
        let server = parse_minecraft_lan_announcement(&message, "h").unwrap();
        assert_eq!((server.motd.as_str(), server.port), ("A [world]", port));
    }
}

#[test]
fn servers_are_found_once_and_in_order() {
    let mut search = LanDiscovery::new(None);
    for (bytes, host) in [
        ("[MOTD]one[/MOTD][AD]1[/AD]", "a"),
        ("noise", "a"),
        ("[MOTD]two[/MOTD][AD]1[/AD]", "b"),
        ("[MOTD]again[/MOTD][AD]1[/AD]", "a"),
        ("[MOTD]three[/MOTD][AD]2[/AD]", "a"),
    ] {
        assert!(matches!(search.step(packet(bytes.as_bytes(), host)), LanAction::Continue));
    }
    assert!(matches!(search.step(LanEvent::TimedOut), LanAction::Finish));
    let found: Vec<(String, u16, String)> = search
        .into_servers()
        .into_iter()
        .map(|server| (server.host, server.port, server.motd))
        .collect();
    assert_eq!(
        found,
        vec![
            ("a".to_string(), 1, "one".to_string()),
            ("b".to_string(), 1, "two".to_string()),
            ("a".to_string(), 2, "three".to_string()),
        ]
    );
}

#[test]
fn packets_are_read_as_lossy_text() {
    let mut search = LanDiscovery::new(Some(1));
    let mut bytes = b"[MOTD]a".to_vec();
    bytes.push(0xff);
    bytes.extend_from_slice(b"[/MOTD][AD]5[/AD]");
    let _ = search.step(packet(&bytes, "h"));
    search.take_message("[MOTD]b[/MOTD][AD]6[/AD]", "h");
    let servers = search.into_servers();
    assert_eq!(servers[0].motd, "a\u{fffd}");
    assert_eq!(servers[1].port, 6);
}

#[test]
fn search_can_fail() {
    let mut search = LanDiscovery::new(None);
    match search.step(LanEvent::Failed("x".to_string())) {
        LanAction::Fail(error) => {
            assert_eq!(error, "Could not receive Minecraft LAN announcement: x");
        }
        _ => panic!("the search fails"),
    }
}

#[test]
fn search_ends_in_time() {
    let search = LanDiscovery::new(None);
    assert_eq!(search.remaining_nanos(0), Some(3_000_000_000));
    assert_eq!(search.remaining_nanos(2_999_999_999), Some(1));
    assert_eq!(search.remaining_nanos(3_000_000_000), None);
    let search = LanDiscovery::new(Some(u64::MAX));
    assert_eq!(search.remaining_nanos(1), Some(u64::MAX as u128 * 1_000_000 - 1));
    assert_eq!(search.remaining_nanos(u128::MAX), None);
    assert_eq!(LanDiscovery::new(Some(0)).remaining_nanos(0), None);
}
