use orbitbuild::beacon::Beacon;
use orbitbuild::console::Line;
use orbitbuild::link::{
    build_mc_args, disconnected_lines, linked_lines, run_link, LinkAction, LinkConfig, LinkEvent,
};
use orbitbuild::mission_control::parse_platforms;
use orbitbuild::path::FsPath;
use orbitbuild::status::socket_paths;

fn make_test_beacon() -> Beacon {
    Beacon::new(vec![42u8; 32])
}

#[test]
fn test_link_builds_correct_command() {
    let beacon = make_test_beacon();
    let beacon_str = beacon.to_string();
    let config = LinkConfig {
        beacon,
        platforms: vec!["linux/amd64".to_string(), "linux/arm64".to_string()],
        data_dir: FsPath::from_text("/tmp/orbit-test"),
    };

    let args = build_mc_args(&config);

    assert_eq!(
        args,
        vec![
            "--data-dir",
            "/tmp/orbit-test",
            "mission-control",
            "--beacon",
            &beacon_str,
            "--platforms",
            "linux/amd64,linux/arm64",
        ]
    );
}

#[test]
fn test_link_config_from_parts() {
    let beacon = make_test_beacon();
    let beacon_display = beacon.to_string();

    let config = LinkConfig {
        beacon: beacon.clone(),
        platforms: vec!["linux/amd64".to_string()],
        data_dir: FsPath::from_text("/home/user/.orbitbuild"),
    };

    // Verify fields round-trip
    assert_eq!(config.platforms, vec!["linux/amd64"]);
    assert_eq!(config.data_dir, FsPath::from_text("/home/user/.orbitbuild"));
    assert_eq!(config.beacon.to_string(), beacon_display);
}

#[test]
fn mission_control_is_given_the_same_task() {
    let platforms = parse_platforms("linux/amd64 , linux/arm64").unwrap();
    let config = LinkConfig {
        beacon: Beacon::new(vec![1, 2, 3]),
        platforms: parse_platforms("linux/amd64 , linux/arm64").unwrap(),
        data_dir: FsPath::from_text("/d"),
    };
    let args = build_mc_args(&config);
    assert_eq!(Beacon::parse(&args[4], true).unwrap(), config.beacon);
    assert_eq!(parse_platforms(&args[6]).unwrap(), platforms);
    let odd = LinkConfig {
        beacon: Beacon::new(vec![]),
        platforms: vec![],
        data_dir: FsPath { bytes: vec![255] },
    };
    assert_eq!(build_mc_args(&odd)[1], "");
    assert_eq!(build_mc_args(&odd)[6], "");
}

#[test]
fn link_takes_mission_control_down_again() {
    assert_eq!(run_link(LinkEvent::Started), LinkAction::Spawn);
    assert_eq!(run_link(LinkEvent::Spawned), LinkAction::AwaitSockets);
    assert_eq!(run_link(LinkEvent::SocketsReady), LinkAction::AnnounceAndWait);
    assert_eq!(run_link(LinkEvent::Interrupted), LinkAction::Disconnect);
    assert_eq!(
        run_link(LinkEvent::SocketsTimedOut),
        LinkAction::KillAndFail(
            "timed out waiting for bridge sockets to become ready".to_string()
        )
    );
    assert_eq!(
        run_link(LinkEvent::SpawnFailed("gone".to_string())),
        LinkAction::Fail("failed to spawn mission control: gone".to_string())
    );
    assert_eq!(
        run_link(LinkEvent::SignalFailed("gone".to_string())),
        LinkAction::Fail("gone".to_string())
    );
}

#[test]
fn users_are_told_how_to_build() {
    let platforms = vec!["linux/amd64".to_string(), "linux/arm64".to_string()];
    let sockets = socket_paths(&platforms, &FsPath::from_text("/tmp"));
    let texts: Vec<String> = linked_lines(&sockets)
        .into_iter()
        .map(|line| match line {
            Line::Stdout(text) => text,
            Line::Stderr(_) => panic!("all goes to the standard output"),
        })
        .collect();
    assert_eq!(
        texts,
        vec![
            "",
            "✓ Linked to Constellation!",
            "",
            "Build multi-arch images:",
            "  docker buildx build --builder orbit --platform linux/amd64,linux/arm64 -t myapp .",
            "",
            "Connected platforms:",
            "  linux/amd64 → /tmp/orbit-amd64.sock",
            "  linux/arm64 → /tmp/orbit-arm64.sock",
            "",
            "Press Ctrl+C to disconnect...",
        ]
    );
    assert_eq!(
        disconnected_lines(),
        vec![Line::Stdout("".to_string()), Line::Stdout("Disconnected.".to_string())]
    );
}
