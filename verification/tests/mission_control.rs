use orbitbuild::bridge::BridgeManager;
use orbitbuild::console::Line;
use orbitbuild::mission_control::{
    discover_satellites, offered_satellites, parse_platforms, running_lines, satellite_change,
    select_satellite_for_arch, set_up_bridges, DocRow, EntryValue, PlatformError,
    SatelliteChange,
};
use orbitbuild::path::FsPath;
use orbitbuild::satellite::{
    report, NodeId, Occasion, Registration, SatelliteEntry, SatelliteSession,
};

fn address(byte: u8) -> iroh::EndpointAddr {
    iroh::EndpointAddr::new(iroh::SecretKey::from_bytes(&[byte; 32]).public())
}

fn entry(arch: &str, status: &str, registered_at: u64, byte: u8) -> SatelliteEntry {
    SatelliteEntry {
        arch: arch.to_string(),
        status: status.to_string(),
        endpoint_addr: address(byte),
        registered_at,
    }
}

fn parsed(entry: SatelliteEntry) -> EntryValue {
    EntryValue::Parsed(Registration { entry, extra_platforms: vec![] })
}

#[test]
fn test_parse_platforms_single() {
    let result = parse_platforms("linux/amd64").unwrap();
    assert_eq!(result, vec!["linux/amd64"]);
}

#[test]
fn test_parse_platforms_multiple() {
    let result = parse_platforms("linux/amd64,linux/arm64").unwrap();
    assert_eq!(result, vec!["linux/amd64", "linux/arm64"]);
}

#[test]
fn test_parse_platforms_trims_whitespace() {
    let result = parse_platforms("linux/amd64, linux/arm64").unwrap();
    assert_eq!(result, vec!["linux/amd64", "linux/arm64"]);
}

#[test]
fn test_parse_platforms_rejects_non_linux() {
    let result = parse_platforms("darwin/amd64");
    assert!(result.is_err());
    assert!(result
        .unwrap_err()
        .to_string()
        .contains("unsupported platform"));
}

#[test]
fn test_parse_platforms_empty() {
    let result = parse_platforms("");
    assert!(result.is_err());
}

#[test]
fn platform_lists_may_hold_gaps() {
    let result = parse_platforms(" ,linux/amd64,,\t\u{2003}linux/arm64\u{a0},").unwrap();
    assert_eq!(result, vec!["linux/amd64", "linux/arm64"]);
    assert_eq!(parse_platforms(" , ,\n").unwrap_err(), PlatformError::NoPlatform);
    assert_eq!(
        PlatformError::NoPlatform.to_string(),
        "at least one platform must be specified"
    );
}

#[test]
fn first_unsupported_platform_is_named() {
    let error = parse_platforms("linux/amd64,windows/amd64,darwin/arm64").unwrap_err();
    assert_eq!(
        error.to_string(),
        "unsupported platform 'windows/amd64': only linux/* platforms are supported"
    );
    let error = parse_platforms("Linux/amd64").unwrap_err();
    assert_eq!(error, PlatformError::Unsupported("Linux/amd64".to_string()));
}

#[test]
fn parsed_platforms_parse_back() {
    let platforms = parse_platforms(" linux/amd64 ,linux/arm64,, linux/a b").unwrap();
    assert_eq!(parse_platforms(&platforms.join(",")).unwrap(), platforms);
}

#[test]
fn test_select_satellite_for_arch() {
    let pk1 = iroh::PublicKey::from_bytes(&[0u8; 32]).unwrap();
    let pk2 = iroh::SecretKey::generate().public();

    let entries = vec![
        (
            "node1".to_string(),
            SatelliteEntry {
                arch: "amd64".to_string(),
                status: "idle".to_string(),
                endpoint_addr: iroh::EndpointAddr::new(pk1),
                registered_at: 1000,
            },
        ),
        (
            "node2".to_string(),
            SatelliteEntry {
                arch: "arm64".to_string(),
                status: "idle".to_string(),
                endpoint_addr: iroh::EndpointAddr::new(pk2),
                registered_at: 2000,
            },
        ),
    ];

    let result = select_satellite_for_arch(&entries, "amd64");
    assert!(result.is_some());
    assert_eq!(result.unwrap().arch, "amd64");

    let result = select_satellite_for_arch(&entries, "arm64");
    assert!(result.is_some());
    assert_eq!(result.unwrap().arch, "arm64");
}

#[test]
fn test_select_satellite_for_arch_none_available() {
    let pk = iroh::PublicKey::from_bytes(&[0u8; 32]).unwrap();
    let pk2 = iroh::PublicKey::from_bytes(&[0u8; 32]).unwrap();
    let entries = vec![(
        "node1".to_string(),
        SatelliteEntry {
            arch: "amd64".to_string(),
            status: "busy".to_string(),
            endpoint_addr: iroh::EndpointAddr::new(pk),
            registered_at: 1000,
        },
    )];

    // No match: wrong status
    let result = select_satellite_for_arch(&entries, "amd64");
    assert!(result.is_none());

    // No match: wrong arch
    let entries_idle = vec![(
        "node1".to_string(),
        SatelliteEntry {
            arch: "amd64".to_string(),
            status: "idle".to_string(),
            endpoint_addr: iroh::EndpointAddr::new(pk2),
            registered_at: 1000,
        },
    )];
    let result = select_satellite_for_arch(&entries_idle, "arm64");
    assert!(result.is_none());

    // Empty list
    let result = select_satellite_for_arch(&[], "amd64");
    assert!(result.is_none());
}

#[test]
fn test_select_satellite_for_arch_prefers_recent() {
    let pk1 = iroh::PublicKey::from_bytes(&[0u8; 32]).unwrap();
    let pk2 = iroh::SecretKey::generate().public();

    let entries = vec![
        (
            "node1".to_string(),
            SatelliteEntry {
                arch: "amd64".to_string(),
                status: "idle".to_string(),
                endpoint_addr: iroh::EndpointAddr::new(pk1),
                registered_at: 1000, // older
            },
        ),
        (
            "node2".to_string(),
            SatelliteEntry {
                arch: "amd64".to_string(),
                status: "idle".to_string(),
                endpoint_addr: iroh::EndpointAddr::new(pk2),
                registered_at: 5000, // newer
            },
        ),
    ];

    let result = select_satellite_for_arch(&entries, "amd64");
    assert!(result.is_some());
    // Should pick the one with registered_at = 5000 (node2)
    assert_eq!(result.unwrap().registered_at, 5000);
}

#[test]
fn last_of_equally_recent_satellites_is_chosen() {
    let entries = vec![
        ("a".to_string(), entry("amd64", "idle", 7, 1)),
        ("b".to_string(), entry("amd64", "idle", 7, 2)),
        ("c".to_string(), entry("amd64", "idle", 3, 3)),
        ("d".to_string(), entry("amd64", "offline", 9, 4)),
    ];
    let best = select_satellite_for_arch(&entries, "amd64").unwrap();
    assert_eq!(best.endpoint_addr, address(2));
}

#[test]
fn satellites_are_available_until_they_stop() {
    let joined = vec![("a".to_string(), report(Occasion::Joined, "arm64", address(1), 5))];
    assert!(select_satellite_for_arch(&joined, "arm64").is_some());
    let alive = vec![("a".to_string(), report(Occasion::Heartbeat, "arm64", address(1), 35))];
    assert_eq!(select_satellite_for_arch(&alive, "arm64").unwrap().registered_at, 35);
    let stopped = vec![("a".to_string(), report(Occasion::Shutdown, "arm64", address(1), 60))];
    assert!(select_satellite_for_arch(&stopped, "arm64").is_none());
}

#[test]
fn entries_that_describe_no_satellite_are_left_out() {
    let rows = vec![
        DocRow {
            key: b"satellite/ab".to_vec(),
            value: parsed(entry("amd64", "idle", 1, 1)),
        },
        DocRow { key: b"satellite/cd".to_vec(), value: EntryValue::Malformed },
        DocRow { key: b"satellite/ef".to_vec(), value: EntryValue::Unreadable },
        DocRow {
            key: b"station/ab".to_vec(),
            value: parsed(entry("amd64", "idle", 2, 2)),
        },
        DocRow {
            key: b"satellite/\xff!".to_vec(),
            value: parsed(entry("arm64", "busy", 3, 3)),
        },
    ];
    let found = discover_satellites(rows);
    assert_eq!(
        found,
        vec![
            ("ab".to_string(), entry("amd64", "idle", 1, 1)),
            ("\u{fffd}!".to_string(), entry("arm64", "busy", 3, 3)),
        ]
    );
}

#[test]
fn advertised_platforms_are_found_in_the_document() {
    let key = iroh::SecretKey::from_bytes(&[1; 32]).public();
    let node = NodeId::from_bytes(*key.as_bytes()).unwrap();
    let session = SatelliteSession::new(node, "amd64", &vec!["linux/arm64".to_string()]);
    let write = session.write(Occasion::Joined, address(1), 5);
    let found = offered_satellites(vec![DocRow {
        key: write.key.into_bytes(),
        value: EntryValue::Parsed(write.value),
    }]);
    assert_eq!(
        found,
        vec![
            (key.to_string(), entry("amd64", "idle", 5, 1)),
            (key.to_string(), entry("arm64", "idle", 5, 1)),
        ]
    );
    assert!(select_satellite_for_arch(&found, "amd64").is_some());
    assert!(select_satellite_for_arch(&found, "arm64").is_some());
    assert!(select_satellite_for_arch(&found, "riscv64").is_none());
    let write = session.write(Occasion::Shutdown, address(1), 9);
    let found = offered_satellites(vec![DocRow {
        key: write.key.into_bytes(),
        value: EntryValue::Parsed(write.value),
    }]);
    assert_eq!(found.len(), 2);
    assert!(select_satellite_for_arch(&found, "amd64").is_none());
    assert!(select_satellite_for_arch(&found, "arm64").is_none());
}

#[test]
fn satellites_are_listed_once() {
    let row = || DocRow {
        key: b"satellite/ab".to_vec(),
        value: EntryValue::Parsed(Registration {
            entry: entry("amd64", "idle", 1, 1),
            extra_platforms: vec!["linux/arm64".to_string()],
        }),
    };
    assert_eq!(
        discover_satellites(vec![row()]),
        vec![("ab".to_string(), entry("amd64", "idle", 1, 1))]
    );
    assert_eq!(offered_satellites(vec![row()]).len(), 2);
    let plain = || DocRow { key: b"satellite/ab".to_vec(), value: parsed(entry("a", "idle", 1, 1)) };
    assert_eq!(discover_satellites(vec![plain()]), offered_satellites(vec![plain()]));
}

#[test]
fn changes_of_satellites_are_noticed() {
    let offline = satellite_change(DocRow {
        key: b"satellite/ab".to_vec(),
        value: parsed(entry("amd64", "offline", 1, 1)),
    });
    assert!(matches!(offline, SatelliteChange::WentOffline(node, _) if node == "ab"));
    let updated = satellite_change(DocRow {
        key: b"satellite/ab".to_vec(),
        value: parsed(entry("amd64", "busy", 1, 1)),
    });
    assert!(matches!(updated, SatelliteChange::Updated(node, e) if node == "ab" && e.status == "busy"));
    let other = satellite_change(DocRow { key: b"x".to_vec(), value: EntryValue::Malformed });
    assert!(matches!(other, SatelliteChange::Nothing));
}

#[test]
fn bridges_lead_to_the_best_satellites() {
    let entries = vec![
        ("a".to_string(), entry("amd64", "idle", 1, 1)),
        ("b".to_string(), entry("amd64", "idle", 2, 2)),
    ];
    let platforms = vec!["linux/amd64".to_string(), "linux/arm64".to_string()];
    let dir = FsPath::from_text("/tmp");
    let manager: BridgeManager = match set_up_bridges(&platforms, &dir, &entries) {
        Ok(manager) => manager,
        Err(_) => panic!("a satellite is idle"),
    };
    assert_eq!(manager.platforms(), vec!["linux/amd64"]);
    let bridge = manager.bridge_for_platform("linux/amd64").unwrap();
    assert_eq!(*bridge.satellite_addr(), address(2));
    assert_eq!(*bridge.socket_path(), FsPath::from_text("/tmp/orbit-amd64.sock"));
    assert!(manager.bridge_for_platform("linux/arm64").is_none());
    assert_eq!(
        running_lines(&manager.platforms(), &dir),
        vec![
            Line::Stderr("Mission Control is running.".to_string()),
            Line::Stderr("  linux/amd64 → /tmp/orbit-amd64.sock".to_string()),
            Line::Stderr("".to_string()),
            Line::Stderr("Waiting for connections... (Ctrl+C to stop)".to_string()),
        ]
    );
}

#[test]
fn no_idle_satellite_is_an_error() {
    let entries = vec![("a".to_string(), entry("amd64", "busy", 1, 1))];
    let platforms = vec!["linux/amd64".to_string(), "linux/arm64".to_string()];
    match set_up_bridges(&platforms, &FsPath::from_text("/tmp"), &entries) {
        Ok(_) => panic!("no satellite is idle"),
        Err(error) => assert_eq!(
            error.to_string(),
            "no idle satellites found for any requested platform: [\"linux/amd64\", \"linux/arm64\"]"
        ),
    }
}
