use orbitbuild::bridge::{
    proxy_session, Bridge, BridgeAction, BridgeEvent, BridgeManager, SessionEvent, SessionOutcome,
};
use orbitbuild::path::FsPath;

fn address(byte: u8) -> iroh::EndpointAddr {
    iroh::EndpointAddr::new(iroh::SecretKey::from_bytes(&[byte; 32]).public())
}

fn bridge(platform: &str, socket: &str, byte: u8) -> Bridge {
    Bridge::new(platform.to_string(), FsPath::from_text(socket), address(byte))
}

#[test]
fn test_bridge_new() {
    let bridge = bridge("linux/arm64", "/tmp/orbit-arm64.sock", 1);

    assert_eq!(bridge.platform(), "linux/arm64");
    assert_eq!(*bridge.socket_path(), FsPath::from_text("/tmp/orbit-arm64.sock"));
    assert_eq!(bridge.active_connections(), 0);
}

#[test]
fn test_bridge_platform_accessor() {
    let bridge = bridge("linux/arm64", "/tmp/orbit-arm64.sock", 2);

    assert_eq!(bridge.platform(), "linux/arm64");
    assert_eq!(*bridge.socket_path(), FsPath::from_text("/tmp/orbit-arm64.sock"));
    assert_eq!(bridge.active_connections(), 0);
    assert_eq!(*bridge.satellite_addr(), address(2));
}

#[test]
fn test_bridge_manager_add() {
    let mut manager = BridgeManager::new();
    assert!(manager.platforms().len() == 0);
    assert!(manager.bridge_for_platform("linux/arm64").is_none());

    manager.add_bridge(bridge("linux/arm64", "/tmp/orbit-arm64-test.sock", 1));
    manager.add_bridge(bridge("linux/amd64", "/tmp/orbit-amd64-test.sock", 2));

    let platforms = manager.platforms();
    assert_eq!(platforms.len(), 2);
    assert!(platforms.contains(&"linux/arm64".to_string()));
    assert!(platforms.contains(&"linux/amd64".to_string()));

    assert!(manager.bridge_for_platform("linux/arm64").is_some());
    assert!(manager.bridge_for_platform("linux/amd64").is_some());
    assert!(manager.bridge_for_platform("linux/riscv64").is_none());

    let plan = manager.shutdown();
    assert_eq!(plan.tasks, 2);
    assert_eq!(
        plan.sockets,
        vec![
            FsPath::from_text("/tmp/orbit-arm64-test.sock"),
            FsPath::from_text("/tmp/orbit-amd64-test.sock"),
        ]
    );
}

#[test]
fn later_bridges_take_the_place_of_earlier_ones() {
    let mut manager = BridgeManager::default();
    assert_eq!(manager.add_bridge(bridge("linux/arm64", "/tmp/a.sock", 1)), 0);
    assert_eq!(manager.add_bridge(bridge("linux/amd64", "/tmp/b.sock", 2)), 1);
    assert_eq!(manager.add_bridge(bridge("linux/arm64", "/tmp/c.sock", 3)), 2);
    assert_eq!(manager.platforms(), vec!["linux/amd64", "linux/arm64"]);
    let current = manager.bridge_for_platform("linux/arm64").unwrap();
    assert_eq!(*current.satellite_addr(), address(3));
    assert_eq!(manager.task_count(), 3);
    assert_eq!(*manager.running_bridge(0).unwrap().satellite_addr(), address(1));
    assert!(manager.running_bridge(3).is_none());
    let plan = manager.shutdown();
    assert_eq!(plan.tasks, 3);
    assert_eq!(
        plan.sockets,
        vec![
            FsPath::from_text("/tmp/a.sock"),
            FsPath::from_text("/tmp/b.sock"),
            FsPath::from_text("/tmp/c.sock"),
        ]
    );
}

#[test]
fn sessions_are_counted() {
    let mut manager = BridgeManager::new();
    let task = manager.add_bridge(bridge("linux/arm64", "/tmp/a.sock", 1));
    manager.record(task, SessionEvent::Started);
    manager.record(task, SessionEvent::Started);
    manager.record(task, SessionEvent::Ended);
    assert_eq!(manager.bridge_for_platform("linux/arm64").unwrap().active_connections(), 1);
    manager.record(task, SessionEvent::Ended);
    assert_eq!(manager.bridge_for_platform("linux/arm64").unwrap().active_connections(), 0);
    let mut lone = bridge("linux/arm64", "/tmp/a.sock", 1);
    lone.record(SessionEvent::Ended);
    assert_eq!(lone.active_connections(), u64::MAX);
    lone.record(SessionEvent::Started);
    assert_eq!(lone.active_connections(), 0);
}

#[test]
fn bridges_stop_only_if_the_socket_cannot_be_bound() {
    let bridge = bridge("linux/arm64", "/tmp/a.sock", 1);
    assert_eq!(bridge.run(&BridgeEvent::Started), BridgeAction::CleanUp);
    assert_eq!(bridge.run(&BridgeEvent::CleanedUp), BridgeAction::Bind);
    assert_eq!(bridge.run(&BridgeEvent::Bound), BridgeAction::Accept);
    assert_eq!(bridge.run(&BridgeEvent::Accepted), BridgeAction::ServeAndAccept);
    assert_eq!(
        bridge.run(&BridgeEvent::AcceptFailed("busy".to_string())),
        BridgeAction::Accept
    );
    assert_eq!(
        bridge.run(&BridgeEvent::BindFailed("denied".to_string())),
        BridgeAction::Stop("failed to bind Unix socket at /tmp/a.sock: denied".to_string())
    );
}

#[test]
fn sessions_say_what_went_wrong() {
    assert_eq!(proxy_session(SessionOutcome::Copied(3, 4)), Ok((3, 4)));
    assert_eq!(
        proxy_session(SessionOutcome::ConnectFailed("x".to_string())),
        Err("QUIC connect failed: x".to_string())
    );
    assert_eq!(
        proxy_session(SessionOutcome::StreamFailed("x".to_string())),
        Err("open_bi failed: x".to_string())
    );
    assert_eq!(
        proxy_session(SessionOutcome::CopyFailed("x".to_string())),
        Err("copy error: x".to_string())
    );
}
