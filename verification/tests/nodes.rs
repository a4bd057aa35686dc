use orbitbuild::beacon::{Beacon, BeaconError};
use orbitbuild::build_proxy::BUILD_ALPN;
use orbitbuild::cli::{
    dispatch, resolve_data_dir, CliError, Commands, SatelliteCommand, StationCommand, Task,
    DEFAULT_PLATFORMS, DEFAULT_TIMEOUT_SECS,
};
use orbitbuild::console::Line;
use orbitbuild::keys::{KeyError, NodeKey};
use orbitbuild::lifecycle::{
    shutting_down_line, stages, stopped_line, with_role_protocols, Lifecycle, Outcome, Role,
    Stage,
};
use orbitbuild::mission_control::PlatformError;
use orbitbuild::path::FsPath;
use orbitbuild::router::NodeBuilder;
use orbitbuild::satellite::NodeId;
use orbitbuild::station::{initialized_lines, joined_lines};
use orbitbuild::sync::{is_handed_on, SyncEvent, SyncProgress, SyncWait};

#[test]
fn satellites_report_offline_before_they_leave() {
    let mut life = Lifecycle::new(Role::Satellite);
    let mut seen = vec![];
    while let Some(stage) = life.stage() {
        seen.push(stage);
        assert_eq!(life.advance(Outcome::Done), Ok(()));
    }
    assert_eq!(
        seen,
        vec![
            Stage::LoadIdentity,
            Stage::BindEndpoint,
            Stage::ComeOnline,
            Stage::SpawnDocs,
            Stage::ImportDocument,
            Stage::CreateAuthor,
            Stage::QueryMembers,
            Stage::EncodeEntry,
            Stage::WriteEntry,
            Stage::Serve,
            Stage::StopTasks,
            Stage::ReportOffline,
            Stage::ShutDownRouter,
        ]
    );
    assert_eq!(life.advance(Outcome::Failed("late".to_string())), Ok(()));
    assert_eq!(life.stage(), None);
}

#[test]
fn failures_say_what_was_being_done() {
    let mut life = Lifecycle::new(Role::MissionControl);
    assert_eq!(life.advance(Outcome::Done), Ok(()));
    let error = life.advance(Outcome::Failed("port in use".to_string())).unwrap_err();
    assert_eq!(
        error.contexts,
        vec!["failed to spawn mission control node", "failed to bind iroh endpoint"]
    );
    assert_eq!(error.cause, "port in use");
    assert_eq!(error.to_string(), "failed to spawn mission control node");
    assert_eq!(life.stage(), Some(Stage::BindEndpoint));

    let mut life = Lifecycle::new(Role::Fleet);
    let error = life.advance(Outcome::Failed("no key".to_string())).unwrap_err();
    assert_eq!(error.to_string(), "no key");
}

#[test]
fn nodes_do_without_some_stages() {
    let mut life = Lifecycle::new(Role::MissionControl);
    let mut skipped = vec![];
    while let Some(stage) = life.stage() {
        match life.advance(Outcome::Failed("x".to_string())) {
            Ok(()) => skipped.push(stage),
            Err(_) => assert_eq!(life.advance(Outcome::Done), Ok(())),
        }
    }
    assert_eq!(
        skipped,
        vec![
            Stage::ComeOnline,
            Stage::AwaitSync,
            Stage::CreateBuilders,
            Stage::StopTasks,
            Stage::StopBridges,
            Stage::RemoveBuilder,
        ]
    );
}

#[test]
fn every_role_ends_with_its_router() {
    for role in [
        Role::StationInit,
        Role::StationJoin,
        Role::Satellite,
        Role::MissionControl,
        Role::Fleet,
    ] {
        let stages = stages(role);
        assert_eq!(*stages.last().unwrap(), Stage::ShutDownRouter);
        assert_eq!(stages.contains(&Stage::WriteEntry), role == Role::Satellite);
    }
    assert_eq!(
        shutting_down_line(Role::StationJoin),
        Some(Line::Stderr("\nShutting down backup station...".to_string()))
    );
    assert_eq!(
        stopped_line(Role::MissionControl),
        Some(Line::Stderr("Mission Control stopped.".to_string()))
    );
    assert_eq!(shutting_down_line(Role::Fleet), None);
    assert_eq!(stopped_line(Role::Fleet), None);
}

#[test]
fn only_satellites_take_builds() {
    let common = vec![b"blobs".to_vec(), b"gossip".to_vec(), b"docs".to_vec()];
    let satellite =
        with_role_protocols(Role::Satellite, NodeBuilder::new(NodeKey { bytes: [1; 32] }));
    assert_eq!(
        satellite.alpns(common.clone()),
        vec![b"blobs".to_vec(), b"gossip".to_vec(), b"docs".to_vec(), BUILD_ALPN.to_vec()]
    );
    let control =
        with_role_protocols(Role::MissionControl, NodeBuilder::new(NodeKey { bytes: [1; 32] }));
    assert_eq!(control.alpns(common.clone()), common);
    let more = NodeBuilder::new(NodeKey { bytes: [1; 32] }).accept(b"a").accept(b"b");
    assert_eq!(more.alpns(vec![]), vec![b"a".to_vec(), b"b".to_vec()]);
}

#[test]
fn documents_are_complete_with_keys_and_values() {
    let mut wait = SyncWait::new();
    assert_eq!(wait.observe(SyncEvent::PendingContentReady), SyncProgress::Waiting);
    assert_eq!(wait.observe(SyncEvent::Error), SyncProgress::Waiting);
    assert_eq!(wait.observe(SyncEvent::SyncFinished), SyncProgress::Waiting);
    assert_eq!(wait.observe(SyncEvent::Other), SyncProgress::Waiting);
    assert_eq!(wait.observe(SyncEvent::PendingContentReady), SyncProgress::Complete);
    assert_eq!(SyncWait::new().observe(SyncEvent::Ended), SyncProgress::GaveUp);
    assert!(is_handed_on(SyncEvent::SyncFinished));
    assert!(is_handed_on(SyncEvent::PendingContentReady));
    assert!(is_handed_on(SyncEvent::Other));
    assert!(!is_handed_on(SyncEvent::Error));
    assert!(!is_handed_on(SyncEvent::Ended));
}

#[test]
fn stations_print_the_beacon() {
    let key = iroh::SecretKey::from_bytes(&[1; 32]).public();
    let node = NodeId::from_bytes(*key.as_bytes()).unwrap();
    let lines = initialized_lines(&Beacon::new(vec![1, 2, 3]), &node, "doc");
    assert_eq!(lines[0], Line::Stdout("ORBIT_BEACON=orbit-v1-AQID".to_string()));
    assert_eq!(lines[3], Line::Stderr("  ORBIT_BEACON=orbit-v1-AQID".to_string()));
    assert_eq!(lines[5], Line::Stderr(format!("Station node ID: {:?}", key)));
    assert_eq!(lines[6], Line::Stderr("Document ID: doc".to_string()));
    assert_eq!(lines.len(), 9);
    assert_eq!(
        joined_lines("doc"),
        vec![
            Line::Stderr("Backup station joined the Constellation.".to_string()),
            Line::Stderr("Document ID: doc".to_string()),
            Line::Stderr("".to_string()),
            Line::Stderr("Backup station is listening... (Ctrl+C to stop)".to_string()),
        ]
    );
}

#[test]
fn data_directories_are_chosen_or_default() {
    let chosen = resolve_data_dir(Some(FsPath::from_text("/d")), Some("/h"), None);
    assert_eq!(chosen, Ok((FsPath::from_text("/d"), true)));
    let default = resolve_data_dir(None, Some("/h"), None);
    assert_eq!(default, Ok((FsPath::from_text("/h/.orbitbuild"), false)));
    assert_eq!(resolve_data_dir(None, None, None), Err(KeyError::NoHome));
}

#[test]
fn commands_become_tasks() {
    let dir = || FsPath::from_text("/d");
    match dispatch(
        Commands::MissionControl {
            beacon: "orbit-v1-AQID".to_string(),
            platforms: DEFAULT_PLATFORMS.to_string(),
        },
        dir(),
        true,
    ) {
        Ok(Task::MissionControl(config)) => {
            assert_eq!(config.beacon, Beacon::new(vec![1, 2, 3]));
            assert_eq!(config.platforms, vec!["linux/amd64", "linux/arm64"]);
            assert_eq!(config.socket_dir, FsPath::from_text("/tmp"));
            assert_eq!(config.data_dir, dir());
            assert_eq!(config.builder_name, "orbit");
        }
        _ => panic!("a task for Mission Control"),
    }
    match dispatch(
        Commands::Status {
            wait: true,
            timeout_secs: DEFAULT_TIMEOUT_SECS,
            platforms: "linux/arm64".to_string(),
        },
        dir(),
        true,
    ) {
        Ok(Task::Status(config)) => {
            assert_eq!(config.platforms, vec!["linux/arm64"]);
            assert!(config.wait);
            assert_eq!(config.timeout_secs, 30);
        }
        _ => panic!("a task for status"),
    }
    match dispatch(
        Commands::Satellite(SatelliteCommand::Join {
            beacon: "orbit-v1-AQID".to_string(),
            buildkitd_socket: None,
            platforms: Some("linux/arm64".to_string()),
        }),
        dir(),
        true,
    ) {
        Ok(Task::SatelliteJoin { buildkitd_socket, extra_platforms, .. }) => {
            assert_eq!(buildkitd_socket, FsPath::from_text("/run/buildkit/buildkitd.sock"));
            assert_eq!(extra_platforms, Some(vec!["linux/arm64".to_string()]));
        }
        _ => panic!("a task for a Satellite"),
    }
    assert!(matches!(
        dispatch(Commands::Station(StationCommand::Init), dir(), false),
        Ok(Task::StationInit { data_dir }) if data_dir == dir()
    ));
    assert!(matches!(
        dispatch(
            Commands::Link {
                beacon: "orbit-v1-".to_string(),
                platforms: "linux/arm64".to_string()
            },
            dir(),
            true
        ),
        Ok(Task::Link(_))
    ));
}

#[test]
fn wrong_beacons_are_refused_before_wrong_platforms() {
    let refused = dispatch(
        Commands::Link { beacon: "nonsense".to_string(), platforms: "".to_string() },
        FsPath::from_text("/d"),
        true,
    );
    let error = refused.err().unwrap();
    assert_eq!(error, CliError::Beacon(BeaconError::MissingPrefix));
    assert_eq!(error.to_string(), "beacon must start with 'orbit-v1-'");
    let refused = dispatch(
        Commands::Link { beacon: "orbit-v1-".to_string(), platforms: "".to_string() },
        FsPath::from_text("/d"),
        true,
    );
    let error = refused.err().unwrap();
    assert_eq!(error, CliError::Platforms(PlatformError::NoPlatform));
    assert_eq!(error.to_string(), "at least one platform must be specified");
    let refused = dispatch(
        Commands::Fleet { beacon: "orbit-v1-A".to_string() },
        FsPath::from_text("/d"),
        true,
    );
    assert_eq!(refused.err(), Some(CliError::Beacon(BeaconError::InvalidEncoding)));
    // A payload that is no ticket is refused before the platforms are looked at.
    let refused = dispatch(
        Commands::Link { beacon: "orbit-v1-".to_string(), platforms: "".to_string() },
        FsPath::from_text("/d"),
        false,
    );
    assert_eq!(refused.err(), Some(CliError::Beacon(BeaconError::InvalidTicket)));
}

#[test]
fn commands_say_which_beacon_they_are_given() {
    assert_eq!(Commands::Fleet { beacon: "b".to_string() }.beacon(), Some("b"));
    let join = StationCommand::Join { beacon: "b".to_string() };
    assert_eq!(Commands::Station(join).beacon(), Some("b"));
    assert_eq!(Commands::Station(StationCommand::Init).beacon(), None);
    let status = Commands::Status { wait: false, timeout_secs: 1, platforms: "".to_string() };
    assert_eq!(status.beacon(), None);
}
