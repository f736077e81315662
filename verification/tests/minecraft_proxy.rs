use bdengine_desktop::minecraft_proxy::check_handshake;
use bdengine_desktop::minecraft_proxy::proxy_path;
use bdengine_desktop::minecraft_proxy::proxy_ws_url;
use bdengine_desktop::minecraft_proxy::validate_minecraft_proxy_handshake;
use bdengine_desktop::minecraft_proxy::ListenerAction;
use bdengine_desktop::minecraft_proxy::ListenerEvent;
use bdengine_desktop::minecraft_proxy::MinecraftProxyHandle;
use bdengine_desktop::minecraft_proxy::ProxyListener;
use bdengine_desktop::minecraft_proxy::ProxyRegistry;
use bdengine_desktop::minecraft_proxy::ProxyStart;
use bdengine_desktop::minecraft_proxy::StartAction;
use bdengine_desktop::minecraft_proxy::StartEvent;
use bdengine_desktop::proxy_connection::ConnectionAction;
use bdengine_desktop::proxy_connection::ConnectionEvent;
use bdengine_desktop::proxy_connection::ProxyConnection;
use bdengine_desktop::proxy_info::MinecraftProxyInfo;
use bdengine_desktop::proxy_target::is_loopback;
use bdengine_desktop::proxy_target::is_valid_minecraft_proxy_domain;
use bdengine_desktop::proxy_target::target_port;
use bdengine_desktop::proxy_target::validate_looked_up_target;
use bdengine_desktop::proxy_target::validate_minecraft_proxy_ip;
use bdengine_desktop::proxy_target::validate_minecraft_proxy_target;
use bdengine_desktop::proxy_target::AddressLiteral;
use bdengine_desktop::proxy_target::IpAddress;
use bdengine_desktop::proxy_target::ProxyTarget;
use bdengine_desktop::proxy_target::TargetAddress;
use bdengine_desktop::proxy_target::TargetPlan;
use bdengine_desktop::urls::ParsedUrl;

fn v4(a: u8, b: u8, c: u8, d: u8) -> IpAddress {
    IpAddress::V4 { a, b, c, d }
}

fn v6(s0: u16, s7: u16) -> IpAddress {
    IpAddress::V6 { s0, s1: 0, s2: 0, s3: 0, s4: 0, s5: 0, s6: 0, s7 }
}

fn address(ip: IpAddress, port: u16) -> TargetAddress {
    TargetAddress { ip, port, flow_info: 0, scope_id: 0, text: "written".to_string() }
}

fn rejected(plan: TargetPlan) -> String {
    match plan {
        TargetPlan::Rejected(error) => error,
        _ => panic!("the target was accepted"),
    }
}

fn handle(id: &str, link: u8) -> MinecraftProxyHandle<u8> {
    MinecraftProxyHandle {
        proxy_id: id.to_string(),
        host: format!("host-{}", id),
        port: 25565,
        ws_url: format!("ws://{}", id),
        link,
    }
}

fn ids(registry: &ProxyRegistry<u8>) -> Vec<String> {
    registry.list().iter().map(|proxy| proxy.proxy_id.clone()).collect()
}

fn info() -> MinecraftProxyInfo {
    MinecraftProxyInfo {
        proxy_id: "id".to_string(),
        host: "mc.example".to_string(),
        port: 25565,
        ws_url: "ws://127.0.0.1:5/minecraft/id".to_string(),
        connected: false,
    }
}

#[test]
fn addresses_that_are_not_allowed() {
    assert_eq!(
        validate_minecraft_proxy_ip(v4(169, 254, 169, 254), "169.254.169.254"),
        Err("Minecraft proxy target cannot be the metadata service address.".to_string())
    );
    for ip in [
        v4(0, 0, 0, 0),
        v4(255, 255, 255, 255),
        v4(224, 0, 0, 1),
        v4(239, 255, 255, 255),
        v4(169, 254, 0, 1),
        v6(0, 0),
        v6(0xff02, 1),
        v6(0xff00, 0),
        v6(0xfe80, 1),
        v6(0xfebf, 1),
    ] {
        assert_eq!(
            validate_minecraft_proxy_ip(ip, "written"),
            Err("Minecraft proxy target address is not allowed: written".to_string()),
            "{:?}",
            ip
        );
    }
}

#[test]
fn addresses_that_are_allowed() {
    for ip in [
        v4(127, 0, 0, 1),
        v4(192, 168, 0, 10),
        v4(10, 0, 0, 1),
        v4(8, 8, 8, 8),
        v4(223, 1, 1, 1),
        v4(240, 0, 0, 1),
        v4(169, 253, 169, 254),
        v6(0, 1),
        v6(0x2001, 5),
        v6(0xfe7f, 1),
        v6(0xfec0, 1),
        v6(0xfeff, 1),
    ] {
        assert_eq!(validate_minecraft_proxy_ip(ip, "written"), Ok(()), "{:?}", ip);
    }
}

#[test]
fn loopback_addresses() {
    assert!(is_loopback(v4(127, 0, 0, 1)));
    assert!(is_loopback(v4(127, 9, 8, 7)));
    assert!(is_loopback(v6(0, 1)));
    assert!(!is_loopback(v4(126, 0, 0, 1)));
    assert!(!is_loopback(v6(0, 2)));
    assert!(!is_loopback(IpAddress::V6 {
        s0: 0,
        s1: 0,
        s2: 0,
        s3: 0,
        s4: 0,
        s5: 0xffff,
        s6: 0x7f00,
        s7: 1
    }));
}

#[test]
fn domain_names() {
    let longest = format!("{}a", "ab.".repeat(84));
    assert_eq!(longest.len(), 253);
    for host in ["a", "mc.example.com", "x-1.y", "-", "a-", &longest] {
        assert!(is_valid_minecraft_proxy_domain(host), "{:?}", host);
    }
    let too_long = format!("{}aa", "ab.".repeat(84));
    for host in ["", ".", "a.", ".a", "a..b", "a b", "a_b", "ä.com", "a:1", &too_long] {
        assert!(!is_valid_minecraft_proxy_domain(host), "{:?}", host);
    }
}

#[test]
fn targets_can_be_rejected() {
    for (host, port, error) in [
        ("  ", 1, "Minecraft proxy host is empty."),
        ("a", 0, "Minecraft proxy port must be in range 1-65535."),
        ("a", 65536, "Minecraft proxy port must be in range 1-65535."),
        ("a/b", 1, "Minecraft proxy host contains unsupported characters."),
        ("a\\b", 1, "Minecraft proxy host contains unsupported characters."),
        ("a\u{7}b", 1, "Minecraft proxy host contains unsupported characters."),
        ("a b", 1, "Minecraft proxy host must be a valid domain or IP address."),
    ] {
        assert_eq!(rejected(validate_minecraft_proxy_target(host, port, None)), error);
    }
    let literal = AddressLiteral { ip: v4(0, 0, 0, 0), text: "0.0.0.0".to_string() };
    assert_eq!(
        rejected(validate_minecraft_proxy_target("0.0.0.0", 1, Some(literal))),
        "Minecraft proxy target address is not allowed: 0.0.0.0"
    );
}

#[test]
fn localhost_is_this_machine() {
    match validate_minecraft_proxy_target(" LocalHost ", 25565, None) {
        TargetPlan::Ready(target) => {
            assert_eq!(target.host, "localhost");
            assert_eq!(target.addresses.len(), 1);
            assert_eq!(target.addresses[0].ip, v4(127, 0, 0, 1));
            assert_eq!(target.addresses[0].port, 25565);
        }
        _ => panic!("localhost needs no lookup"),
    }
}

#[test]
fn addresses_in_text_need_no_lookup() {
    let literal = AddressLiteral { ip: v4(10, 0, 0, 7), text: "10.0.0.7".to_string() };
    match validate_minecraft_proxy_target(" 10.0.0.7", 65535, Some(literal)) {
        TargetPlan::Ready(target) => {
            assert_eq!(target.host, "10.0.0.7");
            assert_eq!(target.addresses[0].ip, v4(10, 0, 0, 7));
            assert_eq!(target.addresses[0].port, 65535);
            assert_eq!(target.addresses[0].scope_id, 0);
        }
        _ => panic!("an address needs no lookup"),
    }
}

#[test]
fn names_are_looked_up() {
    match validate_minecraft_proxy_target(" mc.example ", 7, None) {
        TargetPlan::Lookup { host, port } => {
            assert_eq!(host, "mc.example");
            assert_eq!(port, 7);
        }
        _ => panic!("a name is looked up"),
    }
}

#[test]
fn lookups_are_checked() {
    let host = || "mc.example".to_string();
    assert_eq!(
        validate_looked_up_target(host(), Err("no".to_string())).err(),
        Some("Could not resolve Minecraft proxy host: no".to_string())
    );
    assert_eq!(
        validate_looked_up_target(host(), Ok(Vec::new())).err(),
        Some("Minecraft proxy host did not resolve to any address.".to_string())
    );
    let bad = vec![address(v4(1, 2, 3, 4), 5), address(v4(169, 254, 169, 254), 5)];
    assert_eq!(
        validate_looked_up_target(host(), Ok(bad)).err(),
        Some("Minecraft proxy target cannot be the metadata service address.".to_string())
    );
    let good = vec![address(v4(1, 2, 3, 4), 5), address(v6(0x2001, 1), 6)];
    let target = validate_looked_up_target(host(), Ok(good)).ok().unwrap();
    assert_eq!(target.host, "mc.example");
    assert_eq!(target.addresses.len(), 2);
    assert_eq!(target_port(&target), Ok(5));
    let nowhere = ProxyTarget { host: host(), addresses: Vec::new() };
    assert_eq!(
        target_port(&nowhere),
        Err("Minecraft proxy target did not resolve to any address.".to_string())
    );
}

#[test]
fn paths_and_addresses_of_proxies() {
    assert_eq!(proxy_path("id"), "/minecraft/id");
    assert_eq!(proxy_ws_url(4711, "id"), "ws://127.0.0.1:4711/minecraft/id");
    assert_ne!(proxy_ws_url(1, "a"), proxy_ws_url(1, "b"));
}

#[test]
fn handshakes_need_path_and_origin() {
    let path = "/minecraft/id";
    assert_eq!(
        validate_minecraft_proxy_handshake(path, Some("https://bdengine.app"), path),
        Ok(())
    );
    assert_eq!(
        validate_minecraft_proxy_handshake("/other", Some("https://bdengine.app"), path),
        Err("Invalid Minecraft proxy path.".to_string())
    );
    assert_eq!(
        validate_minecraft_proxy_handshake(path, None, path),
        Err("Minecraft proxy origin is missing.".to_string())
    );
    assert_eq!(
        validate_minecraft_proxy_handshake(path, Some("https://example.com"), path),
        Err("Minecraft proxy origin is not allowed.".to_string())
    );
    let origin = ParsedUrl {
        scheme: "http".to_string(),
        host: Some("localhost".to_string()),
        domain: Some("localhost".to_string()),
        query_pairs: Vec::new(),
    };
    assert_eq!(check_handshake(path, &Some(Some(origin)), path), Ok(()));
    assert_eq!(
        check_handshake(path, &Some(None), path),
        Err("Minecraft proxy origin is not allowed.".to_string())
    );
}

#[test]
fn proxies_are_added_and_taken_out() {
    let mut registry: ProxyRegistry<u8> = ProxyRegistry::new();
    registry.insert(handle("a", 1));
    registry.insert(handle("b", 2));
    registry.insert(handle("c", 3));
    registry.insert(handle("b", 4));
    assert_eq!(ids(&registry), vec!["a", "c", "b"]);
    assert_eq!(registry.remove("b").unwrap().link, 4);
    assert!(registry.remove("b").is_none());
    assert_eq!(ids(&registry), vec!["a", "c"]);
    let taken = registry.take_all();
    assert_eq!(taken.len(), 2);
    assert!(registry.list().is_empty());
}

#[test]
fn status_lists_the_proxies() {
    let mut registry: ProxyRegistry<u8> = ProxyRegistry::new();
    let status = registry.status(&Vec::new());
    assert!(!status.running);
    assert!(status.proxies.is_empty());
    registry.insert(handle("a", 1));
    registry.insert(handle("b", 2));
    let status = registry.status(&vec![false, true]);
    assert!(status.running);
    assert_eq!(status.proxies[0].proxy_id, "a");
    assert!(!status.proxies[0].connected);
    assert_eq!(status.proxies[1].host, "host-b");
    assert_eq!(status.proxies[1].port, 25565);
    assert_eq!(status.proxies[1].ws_url, "ws://b");
    assert!(status.proxies[1].connected);
}

#[test]
fn proxies_are_stopped_once() {
    let mut registry: ProxyRegistry<u8> = ProxyRegistry::new();
    registry.insert(handle("a", 1));
    assert_eq!(
        registry.stop("  ").err(),
        Some("Minecraft proxy id is empty.".to_string())
    );
    assert_eq!(ids(&registry), vec!["a"]);
    assert!(registry.stop(" a ").ok().unwrap().is_some());
    assert!(registry.stop("a").ok().unwrap().is_none());
    assert!(registry.list().is_empty());
}

#[test]
fn registered_proxies_are_reported() {
    let mut registry: ProxyRegistry<u8> = ProxyRegistry::new();
    let (payload, report) = registry.register(
        "id".to_string(),
        "mc.example".to_string(),
        25566,
        4711,
        9,
    );
    assert_eq!(payload.proxy_id, "id");
    assert_eq!(payload.ws_url, "ws://127.0.0.1:4711/minecraft/id");
    assert_eq!(report.proxy_id, "id");
    assert_eq!(report.host, "mc.example");
    assert_eq!(report.port, 25566);
    assert_eq!(report.ws_url, payload.ws_url);
    assert!(!report.connected);
    assert_eq!(registry.list()[0].link, 9);
}

#[test]
fn started_proxies_have_new_identifiers() {
    let mut registry: ProxyRegistry<u8> = ProxyRegistry::new();
    let (first, _) = registry.start_proxy("h".to_string(), 1, 2, 3);
    let (second, _) = registry.start_proxy("h".to_string(), 1, 2, 4);
    assert_ne!(first.proxy_id, second.proxy_id);
    for id in [&first.proxy_id, &second.proxy_id] {
        let chars: Vec<char> = id.chars().collect();
        assert_eq!(chars.len(), 36);
        for (i, c) in chars.iter().enumerate() {
            if i == 8 || i == 13 || i == 18 || i == 23 {
                assert_eq!(*c, '-');
            } else {
                assert!(c.is_ascii_digit() || ('a'..='f').contains(c));
            }
        }
        assert_eq!(chars[14], '4');
        assert!(['8', '9', 'a', 'b'].contains(&chars[19]));
    }
    assert_eq!(registry.stop(&first.proxy_id).ok().unwrap().unwrap().link, 3);
    assert_eq!(ids(&registry), vec![second.proxy_id]);
}

#[test]
fn proxy_is_started_step_by_step() {
    let (start, action) = ProxyStart::begin("mc.example", None, None);
    match action {
        StartAction::LookUp { host, port } => {
            assert_eq!(host, "mc.example");
            assert_eq!(port, 25565);
        }
        _ => panic!("the name is looked up"),
    }
    let found = vec![address(v4(1, 2, 3, 4), 25565)];
    let (start, action) = start.step(StartEvent::LookedUp(Ok(found)));
    assert!(matches!(action, StartAction::Bind));
    let (start, action) = start.step(StartEvent::Bound);
    assert!(matches!(action, StartAction::ReadLocalPort));
    let (start, action) = start.step(StartEvent::LocalPort(4711));
    match action {
        StartAction::Register { target, port, local_port } => {
            assert_eq!(target.host, "mc.example");
            assert_eq!(target.addresses[0].ip, v4(1, 2, 3, 4));
            assert_eq!(port, 25565);
            assert_eq!(local_port, 4711);
        }
        _ => panic!("the proxy is registered"),
    }
    let (_, action) = start.step(StartEvent::Bound);
    assert!(matches!(action, StartAction::Ignore));
}

#[test]
fn starts_can_fail() {
    let failed = |action: StartAction| match action {
        StartAction::Fail(error) => error,
        _ => panic!("the start goes on"),
    };
    let (_, action) = ProxyStart::begin("", Some(1), None);
    assert_eq!(failed(action), "Minecraft proxy host is empty.");
    let (start, _) = ProxyStart::begin("mc.example", Some(1), None);
    let (_, action) = start.step(StartEvent::LookedUp(Err("x".to_string())));
    assert_eq!(failed(action), "Could not resolve Minecraft proxy host: x");
    let (start, action) = ProxyStart::begin("localhost", Some(1), None);
    assert!(matches!(action, StartAction::Bind));
    let (_, action) = start.step(StartEvent::BindFailed("x".to_string()));
    assert_eq!(failed(action), "Could not start local Minecraft proxy: x");
    let (start, _) = ProxyStart::begin("localhost", Some(1), None);
    let (start, _) = start.step(StartEvent::Bound);
    let (_, action) = start.step(StartEvent::LocalPortFailed("x".to_string()));
    assert_eq!(failed(action), "Could not read local Minecraft proxy address: x");
}

#[test]
fn only_local_clients_are_served() {
    let mut listener = ProxyListener::new();
    match listener.step(ListenerEvent::Accepted(v4(192, 168, 0, 2))) {
        ListenerAction::Report(error) => {
            assert_eq!(error, "Minecraft proxy rejected non-local WebSocket client.");
        }
        _ => panic!("a client from elsewhere is rejected"),
    }
    assert!(matches!(
        listener.step(ListenerEvent::Accepted(v4(127, 0, 0, 1))),
        ListenerAction::Serve
    ));
    assert!(matches!(
        listener.step(ListenerEvent::ConnectionEnded(Ok(()))),
        ListenerAction::Accept
    ));
    assert!(matches!(
        listener.step(ListenerEvent::Accepted(v6(0, 1))),
        ListenerAction::Serve
    ));
    match listener.step(ListenerEvent::ConnectionEnded(Err("broken".to_string()))) {
        ListenerAction::Report(error) => assert_eq!(error, "broken"),
        _ => panic!("the error of a client is reported"),
    }
    assert!(matches!(
        listener.step(ListenerEvent::Shutdown),
        ListenerAction::Stop(None)
    ));
    assert!(matches!(
        listener.step(ListenerEvent::Accepted(v4(127, 0, 0, 1))),
        ListenerAction::Ignore
    ));
}

#[test]
fn listener_ends_when_it_cannot_accept() {
    let mut listener = ProxyListener::new();
    match listener.step(ListenerEvent::AcceptFailed("x".to_string())) {
        ListenerAction::Stop(Some(error)) => {
            assert_eq!(error, "Minecraft proxy listener failed: x");
        }
        _ => panic!("the listener ends"),
    }
}

fn relaying() -> ProxyConnection {
    let mut connection = ProxyConnection::new(info());
    assert!(matches!(
        connection.step(ConnectionEvent::HandshakeAccepted),
        ConnectionAction::ConnectTarget
    ));
    match connection.step(ConnectionEvent::TargetConnected) {
        ConnectionAction::AnnounceConnected(report) => {
            assert_eq!(report.proxy_id, "id");
            assert!(report.connected);
        }
        _ => panic!("the connection is reported"),
    }
    connection
}

fn finished(action: ConnectionAction) -> Result<(), String> {
    match action {
        ConnectionAction::Finish(result) => result,
        _ => panic!("the connection goes on"),
    }
}

#[test]
fn bytes_are_relayed_unchanged() {
    let mut connection = relaying();
    match connection.step(ConnectionEvent::BinaryFrame(vec![1, 2])) {
        ConnectionAction::WriteTcp(bytes) => assert_eq!(bytes, vec![1, 2]),
        _ => panic!("bytes go to the server"),
    }
    assert!(matches!(
        connection.step(ConnectionEvent::Written),
        ConnectionAction::AwaitTraffic
    ));
    match connection.step(ConnectionEvent::TcpData(vec![3])) {
        ConnectionAction::SendBinary(bytes) => assert_eq!(bytes, vec![3]),
        _ => panic!("bytes go to the client"),
    }
    assert!(matches!(
        connection.step(ConnectionEvent::Written),
        ConnectionAction::AwaitTraffic
    ));
    match connection.step(ConnectionEvent::PingFrame(vec![4])) {
        ConnectionAction::SendPong(bytes) => assert_eq!(bytes, vec![4]),
        _ => panic!("pings are answered"),
    }
    assert!(matches!(
        connection.step(ConnectionEvent::Written),
        ConnectionAction::AwaitTraffic
    ));
    assert!(matches!(
        connection.step(ConnectionEvent::OtherFrame),
        ConnectionAction::AwaitTraffic
    ));
}

#[test]
fn connection_closes_at_the_end_of_either_side() {
    for event in [
        ConnectionEvent::Shutdown,
        ConnectionEvent::CloseFrame,
        ConnectionEvent::SocketEnded,
        ConnectionEvent::TcpData(Vec::new()),
    ] {
        let mut connection = relaying();
        assert!(matches!(connection.step(event), ConnectionAction::CloseWebSocket));
        assert_eq!(finished(connection.step(ConnectionEvent::Closed)), Ok(()));
        assert!(matches!(
            connection.step(ConnectionEvent::Closed),
            ConnectionAction::Ignore
        ));
    }
}

#[test]
fn shutdown_before_relaying_ends_at_once() {
    let mut connection = ProxyConnection::new(info());
    assert_eq!(finished(connection.step(ConnectionEvent::Shutdown)), Ok(()));
    let mut connection = ProxyConnection::new(info());
    let _ = connection.step(ConnectionEvent::HandshakeAccepted);
    assert_eq!(finished(connection.step(ConnectionEvent::Shutdown)), Ok(()));
}

#[test]
fn connections_can_fail() {
    let x = || "x".to_string();
    let mut connection = ProxyConnection::new(info());
    assert_eq!(
        finished(connection.step(ConnectionEvent::HandshakeFailed(x()))),
        Err("Could not accept Minecraft proxy WebSocket: x".to_string())
    );
    let mut connection = ProxyConnection::new(info());
    let _ = connection.step(ConnectionEvent::HandshakeAccepted);
    assert_eq!(
        finished(connection.step(ConnectionEvent::TargetFailed(x()))),
        Err("Could not connect to Minecraft server mc.example:25565: x".to_string())
    );
    assert_eq!(
        finished(relaying().step(ConnectionEvent::TextFrame)),
        Err("Minecraft proxy accepts only binary WebSocket frames.".to_string())
    );
    assert_eq!(
        finished(relaying().step(ConnectionEvent::FrameFailed(x()))),
        Err("Minecraft proxy WebSocket failed: x".to_string())
    );
    assert_eq!(
        finished(relaying().step(ConnectionEvent::TcpFailed(x()))),
        Err("Could not read Minecraft proxy TCP data: x".to_string())
    );
    for (event, error) in [
        (
            ConnectionEvent::BinaryFrame(vec![1]),
            "Could not write Minecraft proxy TCP data: x",
        ),
        (
            ConnectionEvent::PingFrame(vec![1]),
            "Could not write Minecraft proxy WebSocket pong: x",
        ),
        (
            ConnectionEvent::TcpData(vec![1]),
            "Could not write Minecraft proxy WebSocket data: x",
        ),
    ] {
        let mut connection = relaying();
        let _ = connection.step(event);
        assert_eq!(
            finished(connection.step(ConnectionEvent::WriteFailed(x()))),
            Err(error.to_string())
        );
    }
}

#[test]
fn nothing_is_relayed_before_the_server_is_reached() {
    let mut connection = ProxyConnection::new(info());
    assert!(matches!(
        connection.step(ConnectionEvent::BinaryFrame(vec![1])),
        ConnectionAction::Ignore
    ));
    let _ = connection.step(ConnectionEvent::HandshakeAccepted);
    assert!(matches!(
        connection.step(ConnectionEvent::BinaryFrame(vec![1])),
        ConnectionAction::Ignore
    ));
}

#[test]
fn disconnection_is_reported_once() {
    let connection = relaying();
    let report = connection.disconnect_notice(true).unwrap();
    assert_eq!(report.host, "mc.example");
    assert!(!report.connected);
    assert!(connection.disconnect_notice(false).is_none());
}
