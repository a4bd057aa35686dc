use orbitbuild::console::Line;
use orbitbuild::path::FsPath;
use orbitbuild::status::{
    check_socket_alive, run_status, socket_paths, status_line, status_lines, wait_plan, ConnectOutcome,
    PollAction, PollAnswer, SocketPoll, StatusConfig, StatusError,
};

#[test]
fn sockets_are_alive_if_they_can_be_connected_to() {
    assert!(check_socket_alive(true, Some(ConnectOutcome::Connected)));
    assert!(!check_socket_alive(true, Some(ConnectOutcome::Failed)));
    assert!(!check_socket_alive(true, Some(ConnectOutcome::TimedOut)));
    assert!(!check_socket_alive(true, None));
    assert!(!check_socket_alive(false, None));
    assert!(!check_socket_alive(false, Some(ConnectOutcome::Connected)));
}

fn config(platforms: &[&str]) -> StatusConfig {
    StatusConfig {
        platforms: platforms.iter().map(|p| p.to_string()).collect(),
        socket_dir: FsPath::from_text("/tmp"),
        wait: false,
        timeout_secs: 5,
    }
}

#[test]
fn status_is_good_if_all_sockets_are_alive() {
    let both = config(&["linux/amd64", "linux/arm64"]);
    assert_eq!(run_status(&both, &vec![true, true]).1, Ok(()));
    assert_eq!(run_status(&config(&[]), &vec![]), (vec![], Ok(())));
    assert_eq!(run_status(&both, &vec![true, false]).1, Err(StatusError::NotReady));
    assert_eq!(
        StatusError::NotReady.to_string(),
        "one or more bridge sockets are not ready"
    );
}

#[test]
fn status_lines_show_the_socket() {
    let socket = FsPath::from_text("/tmp/orbit-amd64.sock");
    assert_eq!(
        status_line("linux/amd64", &socket, true),
        Line::Stdout("  linux/amd64 → /tmp/orbit-amd64.sock ✓ Ready".to_string())
    );
    assert_eq!(
        status_line("linux/amd64", &socket, false),
        Line::Stdout("  linux/amd64 → /tmp/orbit-amd64.sock ✗ Not connected".to_string())
    );
}

#[test]
fn dead_sockets_do_not_cut_the_report_short() {
    let three = config(&["linux/amd64", "linux/arm64", "linux/riscv64"]);
    let alive = vec![true, false, true];
    let (lines, result) = run_status(&three, &alive);
    assert_eq!(result, Err(StatusError::NotReady));
    assert_eq!(
        lines,
        vec![
            Line::Stdout("  linux/amd64 → /tmp/orbit-amd64.sock ✓ Ready".to_string()),
            Line::Stdout("  linux/arm64 → /tmp/orbit-arm64.sock ✗ Not connected".to_string()),
            Line::Stdout("  linux/riscv64 → /tmp/orbit-riscv64.sock ✓ Ready".to_string()),
        ]
    );
    let sockets = socket_paths(&three.platforms, &three.socket_dir);
    assert_eq!(status_lines(&sockets, &alive), lines);
}

#[test]
fn waiting_succeeds_when_a_round_finds_all_alive() {
    let poll = SocketPoll::new(2, 5);
    let mut action = poll.start();
    let mut seen = vec![action];
    for answer in [
        PollAnswer::Probed(true),
        PollAnswer::Probed(false),
        PollAnswer::Elapsed(4_999_999_999),
        PollAnswer::Slept,
        PollAnswer::Probed(true),
        PollAnswer::Probed(true),
    ] {
        action = poll.step(action, answer);
        seen.push(action);
    }
    assert_eq!(
        seen,
        vec![
            PollAction::Probe(0),
            PollAction::Probe(1),
            PollAction::CheckClock,
            PollAction::Sleep,
            PollAction::Probe(0),
            PollAction::Probe(1),
            PollAction::Ready,
        ]
    );
    assert_eq!(poll.step(PollAction::Ready, PollAnswer::Slept), PollAction::Ready);
}

#[test]
fn waiting_ends_at_the_deadline() {
    let poll = SocketPoll::new(1, 1);
    assert_eq!(poll.step(PollAction::Probe(0), PollAnswer::Probed(false)), PollAction::CheckClock);
    assert_eq!(
        poll.step(PollAction::CheckClock, PollAnswer::Elapsed(1_000_000_000)),
        PollAction::TimedOut
    );
    assert_eq!(
        poll.step(PollAction::CheckClock, PollAnswer::Elapsed(999_999_999)),
        PollAction::Sleep
    );
    let longest = SocketPoll::new(1, u64::MAX);
    assert_eq!(longest.deadline_nanos, 18_446_744_073_709_551_615_000_000_000);
}

#[test]
fn status_waits_only_if_asked() {
    let mut asked = config(&["linux/amd64", "linux/arm64"]);
    assert_eq!(wait_plan(&asked), None);
    asked.wait = true;
    assert_eq!(wait_plan(&asked), Some(SocketPoll::new(2, 5)));
}

#[test]
fn nothing_to_wait_for_is_ready() {
    assert_eq!(SocketPoll::new(0, 0).start(), PollAction::Ready);
}
