use orbitbuild::console::Line;
use orbitbuild::membership::{admits, AllowedPeers, DocEvent};
use orbitbuild::path::FsPath;
use orbitbuild::satellite::{
    arch_str, buildkitd_socket, chrono_now_secs, joined_lines, parse_node_id_from_hex,
    parse_satellite_platforms, report, satellite_key, satellite_platforms, strip_key_prefix,
    NodeId, Occasion, SatelliteSession, SatelliteStatus, DEFAULT_BUILDKITD_SOCKET,
    HEARTBEAT_INTERVAL_SECS,
};

fn node(byte: u8) -> NodeId {
    let key = iroh::SecretKey::from_bytes(&[byte; 32]).public();
    NodeId::from_bytes(*key.as_bytes()).unwrap()
}

#[test]
fn arch_mapping() {
    for target in ["aarch64", "x86_64", "riscv64", "loongarch64"] {
        let arch = arch_str(target);
        assert!(
            ["arm64", "amd64", "riscv64", "loongarch64"].contains(&arch),
            "unexpected arch: {arch}"
        );
    }
}

#[test]
fn architectures_have_one_name() {
    assert_eq!(arch_str("aarch64"), "arm64");
    assert_eq!(arch_str("arm64"), "arm64");
    assert_eq!(arch_str("x86_64"), "amd64");
    assert_eq!(arch_str("amd64"), "amd64");
    assert_eq!(arch_str("riscv64"), "riscv64");
}

#[test]
fn satellite_status_display() {
    assert_eq!(SatelliteStatus::Idle.to_string(), "idle");
    assert_eq!(SatelliteStatus::Busy.to_string(), "busy");
    assert_eq!(SatelliteStatus::Offline.to_string(), "offline");
}

#[test]
fn parse_node_id_from_hex_valid() {
    // Create a valid PublicKey and test round-trip through hex
    let pk = iroh::PublicKey::from_bytes(&[0u8; 32]).unwrap();
    let hex = data_encoding::HEXLOWER.encode(pk.as_bytes());
    let parsed = parse_node_id_from_hex(hex.as_bytes());
    assert_eq!(parsed.map(|id| *id.as_bytes()), Some(*pk.as_bytes()));
}

#[test]
fn parse_node_id_from_hex_invalid() {
    assert!(parse_node_id_from_hex(b"not-hex").is_none());
    assert!(parse_node_id_from_hex(b"abcdef").is_none()); // too short
}

#[test]
fn node_ids_are_lower_case_points_of_the_curve() {
    let hex = data_encoding::HEXLOWER.encode(node(7).as_bytes());
    assert!(parse_node_id_from_hex(hex.as_bytes()).is_some());
    assert!(parse_node_id_from_hex(hex.to_uppercase().as_bytes()).is_none());
    assert!(parse_node_id_from_hex(&hex.as_bytes()[1..]).is_none());
    // No point of the curve has this encoding.
    let mut bytes = [0u8; 32];
    bytes[0] = 2;
    assert!(iroh::PublicKey::from_bytes(&bytes).is_err());
    assert!(NodeId::from_bytes(bytes).is_none());
    let hex = data_encoding::HEXLOWER.encode(&bytes);
    assert!(parse_node_id_from_hex(hex.as_bytes()).is_none());
}

#[test]
fn entry_keys_name_their_nodes() {
    let key = satellite_key(&node(3));
    assert_eq!(
        key,
        format!("satellite/{}", iroh::SecretKey::from_bytes(&[3; 32]).public())
    );
    let suffix = strip_key_prefix(key.as_bytes()).unwrap();
    let parsed = parse_node_id_from_hex(suffix).unwrap();
    assert_eq!(parsed.as_bytes(), node(3).as_bytes());
    assert!(strip_key_prefix(b"satellite").is_none());
    assert!(strip_key_prefix(b"satellites/x").is_none());
    assert_eq!(strip_key_prefix(b"satellite/"), Some(&b""[..]));
}

#[test]
fn reports_say_what_the_satellite_does() {
    let address = iroh::EndpointAddr::new(iroh::SecretKey::from_bytes(&[1; 32]).public());
    let entry = report(Occasion::Joined, "arm64", address.clone(), 1713123456);
    assert_eq!(entry.arch, "arm64");
    assert_eq!(entry.status, "idle");
    assert_eq!(entry.endpoint_addr, address);
    assert_eq!(entry.registered_at, 1713123456);
    assert_eq!(report(Occasion::Heartbeat, "arm64", address.clone(), 1).status, "idle");
    let last = report(Occasion::Shutdown, "arm64", address, 1);
    assert_eq!(last.status, "offline");
    let nobody = iroh::PublicKey::from_bytes(&[0u8; 32]).unwrap();
    assert_eq!(last.endpoint_addr, iroh::EndpointAddr::new(nobody));
    assert_eq!(HEARTBEAT_INTERVAL_SECS, 30);
}

#[test]
fn sessions_write_under_one_key() {
    let address = iroh::EndpointAddr::new(iroh::SecretKey::from_bytes(&[1; 32]).public());
    let extra = vec!["linux/amd64".to_string(), "linux/arm64".to_string()];
    let session = SatelliteSession::new(node(1), "amd64", &extra);
    for (occasion, status) in [
        (Occasion::Joined, "idle"),
        (Occasion::Heartbeat, "idle"),
        (Occasion::Shutdown, "offline"),
    ] {
        let write = session.write(occasion, address.clone(), 7);
        assert_eq!(write.key, satellite_key(&node(1)));
        assert_eq!(write.value.entry, report(occasion, "amd64", address.clone(), 7));
        assert_eq!(write.value.entry.status, status);
        assert_eq!(write.value.extra_platforms, vec!["linux/arm64"]);
        let archs: Vec<String> = write.value.offers().into_iter().map(|e| e.arch).collect();
        assert_eq!(archs, vec!["amd64", "arm64"]);
    }
}

#[test]
fn a_clock_before_1970_counts_as_1970() {
    assert_eq!(chrono_now_secs(Some(12)), 12);
    assert_eq!(chrono_now_secs(None), 0);
}

#[test]
fn buildkitd_socket_has_a_default() {
    assert_eq!(buildkitd_socket(None), FsPath::from_text(DEFAULT_BUILDKITD_SOCKET));
    assert_eq!(buildkitd_socket(None), FsPath::from_text("/run/buildkit/buildkitd.sock"));
    assert_eq!(buildkitd_socket(Some(FsPath::from_text("/a"))), FsPath::from_text("/a"));
}

#[test]
fn native_platform_comes_first() {
    let extra = parse_satellite_platforms("linux/arm64, linux/amd64,linux/arm64").unwrap();
    assert_eq!(satellite_platforms("amd64", &extra), vec!["linux/amd64", "linux/arm64"]);
    assert_eq!(satellite_platforms("riscv64", &vec![]), vec!["linux/riscv64"]);
    assert!(parse_satellite_platforms("windows/amd64").is_err());
}

#[test]
fn joining_is_announced() {
    let lines = joined_lines(&node(1), "amd64", &FsPath::from_text("/run/b.sock"));
    let id = iroh::SecretKey::from_bytes(&[1; 32]).public();
    assert_eq!(
        lines,
        vec![
            Line::Stderr("Satellite joined the Constellation.".to_string()),
            Line::Stderr(format!("  Node ID: {:?}", id)),
            Line::Stderr("  Arch: amd64".to_string()),
            Line::Stderr("  buildkitd socket: /run/b.sock".to_string()),
            Line::Stderr("".to_string()),
            Line::Stderr("Satellite is listening... (Ctrl+C to stop)".to_string()),
        ]
    );
}

#[test]
fn members_are_let_in_until_they_leave() {
    let keys = vec![
        satellite_key(&node(1)).into_bytes(),
        b"satellite/nonsense".to_vec(),
        satellite_key(&node(1)).into_bytes(),
    ];
    let mut peers = AllowedPeers::from_keys(&keys);
    assert!(peers.contains(&node(1)));
    assert!(!peers.contains(&node(2)));
    peers.observe(&DocEvent::NeighborUp(node(2)));
    peers.observe(&DocEvent::NeighborDown(node(4)));
    peers.observe(&DocEvent::Other);
    peers.observe(&DocEvent::InsertRemote { key: satellite_key(&node(3)).into_bytes() });
    peers.observe(&DocEvent::InsertRemote { key: b"other/key".to_vec() });
    assert!(admits(Some(&peers), &node(1)));
    assert!(admits(Some(&peers), &node(2)));
    assert!(admits(Some(&peers), &node(3)));
    assert!(!admits(Some(&peers), &node(4)));
    assert!(!admits(None, &node(1)));
    peers.observe(&DocEvent::NeighborDown(node(2)));
    peers.observe(&DocEvent::NeighborDown(node(1)));
    assert!(!admits(Some(&peers), &node(1)));
    assert!(!admits(Some(&peers), &node(2)));
    assert!(admits(Some(&peers), &node(3)));
    peers.observe(&DocEvent::InsertRemote { key: satellite_key(&node(1)).into_bytes() });
    assert!(admits(Some(&peers), &node(1)));
    peers.remove(&node(3));
    assert!(!peers.contains(&node(3)));
    assert!(!admits(Some(&AllowedPeers::new()), &node(1)));
}
