//! Link: one command that connects to a Constellation.
//!
//! Mission Control is started as a child process. When its sockets are ready, the user is told
//! how to build, and everything is taken down again on Ctrl+C.

use vstd::prelude::*;
use vstd::utf8;

use crate::beacon;
use crate::beacon::Beacon;
use crate::console;
use crate::console::Line;
use crate::encoding;
use crate::mission_control;
use crate::path::FsPath;
use crate::status;
use crate::text;

verus! {

/// The directory for the sockets.
pub const DEFAULT_SOCKET_DIR: &'static str = "/tmp";

/// The name of the buildx builder.
pub const BUILDER_NAME: &'static str = "orbit";

/// How many seconds to wait for the sockets.
pub const LINK_TIMEOUT_SECS: u64 = 60;

/// What is printed at the beginning of the wait, without a line break.
pub const LINKING_TEXT: &'static str = "Linking to Constellation";

/// What to connect to.
pub struct LinkConfig {
    /// The ticket to the Constellation.
    pub beacon: Beacon,
    /// The platforms that are asked for.
    pub platforms: Vec<String>,
    /// The directory with the identity of the node.
    pub data_dir: FsPath,
}

/// The data directory as an argument; nothing where it is not UTF-8.
pub open spec fn data_dir_argument(data_dir: Seq<u8>) -> Seq<char> {
    if utf8::valid_utf8(data_dir) {
        utf8::decode_utf8(data_dir)
    } else {
        Seq::empty()
    }
}

/// The arguments with which Mission Control is started.
pub open spec fn mission_control_args(
    beacon: Seq<u8>,
    platforms: Seq<Seq<char>>,
    data_dir: Seq<u8>,
) -> Seq<Seq<char>> {
    seq![
        "--data-dir"@,
        data_dir_argument(data_dir),
        "mission-control"@,
        "--beacon"@,
        beacon::beacon_text(beacon),
        "--platforms"@,
        text::join(platforms, ","@),
    ]
}

/// The arguments with which Mission Control is started.
pub fn build_mc_args(config: &LinkConfig) -> (args: Vec<String>)
    ensures
        text::texts(args@) == mission_control_args(
            config.beacon@,
            text::texts(config.platforms@),
            config.data_dir@,
        ),
{
    let data_dir: String = match config.data_dir.to_str() {
        Some(dir) => dir.to_owned(),
        None => String::new(),
    };
    let args: Vec<String> = vec![
        "--data-dir".to_owned(),
        data_dir,
        "mission-control".to_owned(),
        "--beacon".to_owned(),
        config.beacon.to_string(),
        "--platforms".to_owned(),
        text::join_texts(&config.platforms, ","),
    ];
    assert(text::texts(args@) =~= mission_control_args(
        config.beacon@,
        text::texts(config.platforms@),
        config.data_dir@,
    ));
    args
}

/// Mission Control, started by link, reads the same Beacon, the same platforms and the same data
/// directory from its arguments that link was given (a Beacon that link was given holds a
/// ticket).
pub proof fn mission_control_gets_the_same_task(
    payload: Seq<u8>,
    list: Seq<char>,
    data_dir: Seq<u8>,
    read_beacon: Result<Beacon, beacon::BeaconError>,
    read_platforms: Result<Vec<String>, mission_control::PlatformError>,
)
    requires
        encoding::base64url(payload).len() <= encoding::MAX_ENCODED,
        mission_control::is_platform_choice(mission_control::platform_list(list)),
        ({
            let args = mission_control_args(
                payload,
                mission_control::platform_list(list),
                data_dir,
            );
            &&& beacon::reads_as(args[4], true, read_beacon)
            &&& mission_control::parses_to(args[6], read_platforms)
        }),
    ensures
        read_beacon matches Ok(beacon) && beacon@ == payload,
        read_platforms matches Ok(platforms) && text::texts(platforms@)
            == mission_control::platform_list(list),
        utf8::valid_utf8(data_dir) ==> utf8::encode_utf8(data_dir_argument(data_dir)) == data_dir,
{
    if utf8::valid_utf8(data_dir) {
        utf8::decode_utf8_encode_utf8(data_dir);
    }
    let platforms = mission_control::platform_list(list);
    beacon::written_beacon_is_read_back(payload, beacon::beacon_text(payload), true, read_beacon);
    reveal_strlit(",");
    assert(","@ =~= seq![',']);
    mission_control::joined_platforms_are_read_back(list);
}

/// What happened while linking.
#[derive(Debug, PartialEq, Eq)]
pub enum LinkEvent {
    /// The link is to be made.
    Started,
    /// Mission Control was started.
    Spawned,
    /// Mission Control could not be started; the text says why.
    SpawnFailed(String),
    /// All sockets are ready.
    SocketsReady,
    /// The sockets were not ready in time.
    SocketsTimedOut,
    /// The user pressed Ctrl+C.
    Interrupted,
    /// Ctrl+C cannot be waited for; the text says why.
    SignalFailed(String),
}

/// What is to be done next to link.
#[derive(Debug, PartialEq, Eq)]
pub enum LinkAction {
    /// Start Mission Control.
    Spawn,
    /// Wait for the sockets.
    AwaitSockets,
    /// Tell the user how to build, and wait for Ctrl+C.
    AnnounceAndWait,
    /// Remove the builder, stop Mission Control, and finish.
    Disconnect,
    /// Stop Mission Control, and fail with this message.
    KillAndFail(String),
    /// Fail with this message.
    Fail(String),
}

/// What is to be done next after an event.
pub open spec fn next_action(event: LinkEvent, action: LinkAction) -> bool {
    match event {
        LinkEvent::Started => action is Spawn,
        LinkEvent::Spawned => action is AwaitSockets,
        LinkEvent::SpawnFailed(reason) => action matches LinkAction::Fail(message) && message@
            == "failed to spawn mission control: "@ + reason@,
        LinkEvent::SocketsReady => action is AnnounceAndWait,
        LinkEvent::SocketsTimedOut => action matches LinkAction::KillAndFail(message) && message@
            == "timed out waiting for bridge sockets to become ready"@,
        LinkEvent::Interrupted => action is Disconnect,
        LinkEvent::SignalFailed(reason) => action matches LinkAction::Fail(message) && message@
            == reason@,
    }
}

/// What is to be done next after an event.
pub fn run_link(event: LinkEvent) -> (action: LinkAction)
    ensures
        next_action(event, action),
{
    match event {
        LinkEvent::Started => LinkAction::Spawn,
        LinkEvent::Spawned => LinkAction::AwaitSockets,
        LinkEvent::SpawnFailed(reason) => LinkAction::Fail(
            "failed to spawn mission control: ".to_owned().concat(reason.as_str()),
        ),
        LinkEvent::SocketsReady => LinkAction::AnnounceAndWait,
        LinkEvent::SocketsTimedOut => LinkAction::KillAndFail(
            "timed out waiting for bridge sockets to become ready".to_owned(),
        ),
        LinkEvent::Interrupted => LinkAction::Disconnect,
        LinkEvent::SignalFailed(reason) => LinkAction::Fail(reason),
    }
}

/// What the user is told when the link is made.
pub open spec fn linked_text(sockets: Seq<(Seq<char>, Seq<u8>)>) -> Seq<console::LineView> {
    seq![
        console::out(""@),
        console::out("✓ Linked to Constellation!"@),
        console::out(""@),
        console::out("Build multi-arch images:"@),
        console::out(
            "  docker buildx build --builder orbit --platform "@ + text::join(
                sockets.map_values(|s: (Seq<char>, Seq<u8>)| s.0),
                ","@,
            ) + " -t myapp ."@,
        ),
        console::out(""@),
        console::out("Connected platforms:"@),
    ] + sockets.map_values(
        |s: (Seq<char>, Seq<u8>)| console::out(mission_control::connection_text(s.0, s.1)),
    ) + seq![console::out(""@), console::out("Press Ctrl+C to disconnect..."@)]
}

/// What the user is told when the link is made.
pub fn linked_lines(sockets: &Vec<(String, FsPath)>) -> (lines: Vec<Line>)
    ensures
        console::printed(lines@) == linked_text(status::listed_sockets(sockets@)),
{
    let ghost views = status::listed_sockets(sockets@);
    let ghost line = |s: (Seq<char>, Seq<u8>)|
        console::out(mission_control::connection_text(s.0, s.1));
    let mut platforms: Vec<String> = Vec::new();
    let mut connections: Vec<Line> = Vec::new();
    let mut i: usize = 0;
    while i < sockets.len()
        invariant
            i <= sockets@.len(),
            views == status::listed_sockets(sockets@),
            platforms@.len() == i,
            connections@.len() == i,
            forall|j: int| 0 <= j < i ==> (#[trigger] platforms@[j])@ == views[j].0,
            forall|j: int|
                0 <= j < i ==> (#[trigger] connections@[j])@ == console::out(
                    mission_control::connection_text(views[j].0, views[j].1),
                ),
        decreases sockets@.len() - i,
    {
        platforms.push(sockets[i].0.clone());
        connections.push(
            Line::Stdout(mission_control::connection_line(sockets[i].0.as_str(), &sockets[i].1)),
        );
        i = i + 1;
    }
    assert(text::texts(platforms@) =~= views.map_values(|s: (Seq<char>, Seq<u8>)| s.0));
    assert(console::printed(connections@) =~= views.map_values(line));
    let mut lines: Vec<Line> = vec![
        Line::Stdout("".to_owned()),
        Line::Stdout("✓ Linked to Constellation!".to_owned()),
        Line::Stdout("".to_owned()),
        Line::Stdout("Build multi-arch images:".to_owned()),
        Line::Stdout(
            "  docker buildx build --builder orbit --platform ".to_owned().concat(
                text::join_texts(&platforms, ",").as_str(),
            ).concat(" -t myapp ."),
        ),
        Line::Stdout("".to_owned()),
        Line::Stdout("Connected platforms:".to_owned()),
    ];
    let ghost head = lines@;
    lines.append(&mut connections);
    lines.push(Line::Stdout("".to_owned()));
    lines.push(Line::Stdout("Press Ctrl+C to disconnect...".to_owned()));
    proof {
        let want = linked_text(views);
        let got = console::printed(lines@);
        let middle = views.map_values(line);
        assert(got.len() == want.len());
        assert forall|k: int| 0 <= k < want.len() implies got[k] == want[k] by {
            if 7 <= k < 7 + views.len() {
                assert(want[k] == middle[k - 7]);
            }
        }
        assert(got =~= want);
    }
    lines
}

/// What the user is told when the link is taken down.
pub fn disconnected_lines() -> (lines: Vec<Line>)
    ensures
        console::printed(lines@) == seq![console::out(""@), console::out("Disconnected."@)],
{
    let lines: Vec<Line> = vec![
        Line::Stdout("".to_owned()),
        Line::Stdout("Disconnected.".to_owned()),
    ];
    assert(console::printed(lines@) =~= seq![console::out(""@), console::out("Disconnected."@)]);
    lines
}

/// Mission Control is started with the data directory first, then its name, the Beacon and all
/// platforms, with a comma between each two of them; and a data directory that is text is passed
/// on as it is.
pub proof fn mission_control_is_told_everything(
    beacon: Seq<u8>,
    platforms: Seq<Seq<char>>,
    data_dir: Seq<u8>,
    dir: Seq<char>,
)
    ensures
        ({
            let args = mission_control_args(beacon, platforms, data_dir);
            &&& args.len() == 7
            &&& args[0] == "--data-dir"@ && args[1] == data_dir_argument(data_dir)
            &&& args[2] == "mission-control"@
            &&& args[3] == "--beacon"@ && args[4] == beacon::beacon_text(beacon)
            &&& args[5] == "--platforms"@ && args[6] == text::join(platforms, ","@)
        }),
        data_dir_argument(utf8::encode_utf8(dir)) == dir,
        !utf8::valid_utf8(data_dir) ==> data_dir_argument(data_dir).len() == 0,
{
    utf8::encode_utf8_valid_utf8(dir);
    utf8::encode_utf8_decode_utf8(dir);
}

/// What is done on each event while linking: Mission Control is started, the sockets are waited
/// for, and the user is told; where the time is up, Mission Control is stopped, and where the user
/// interrupts, everything is taken down. Every failure is passed on with its reason.
pub proof fn linking_goes_step_by_step(event: LinkEvent, action: LinkAction)
    requires
        next_action(event, action),
    ensures
        event is Started <==> action is Spawn,
        event is Spawned <==> action is AwaitSockets,
        event is SocketsReady <==> action is AnnounceAndWait,
        event is Interrupted <==> action is Disconnect,
        event is SocketsTimedOut <==> action is KillAndFail,
        event is SpawnFailed || event is SignalFailed <==> action is Fail,
        action matches LinkAction::KillAndFail(message) ==> message@
            == "timed out waiting for bridge sockets to become ready"@,
        event matches LinkEvent::SpawnFailed(reason) ==> (action matches LinkAction::Fail(message)
            && message@ == "failed to spawn mission control: "@ + reason@),
        event matches LinkEvent::SignalFailed(reason) ==> (action matches LinkAction::Fail(message)
            && message@ == reason@),
{
}

/// What the user is told: how to build for all platforms at once, and the socket of each platform,
/// in order.
pub proof fn linking_names_every_platform(sockets: Seq<(Seq<char>, Seq<u8>)>)
    ensures
        ({
            let lines = linked_text(sockets);
            let n = sockets.len() as int;
            let platforms = Seq::new(sockets.len(), |i: int| sockets[i].0);
            &&& lines.len() == n + 9
            &&& lines[0] == console::out(""@)
            &&& lines[1] == console::out("✓ Linked to Constellation!"@)
            &&& lines[2] == console::out(""@)
            &&& lines[3] == console::out("Build multi-arch images:"@)
            &&& lines[4] == console::out(
                "  docker buildx build --builder orbit --platform "@ + text::join(platforms, ","@)
                    + " -t myapp ."@,
            )
            &&& lines[5] == console::out(""@)
            &&& lines[6] == console::out("Connected platforms:"@)
            &&& forall|i: int|
                0 <= i < n ==> lines[i + 7] == console::out(
                    "  "@ + (#[trigger] sockets[i]).0 + " → "@ + encoding::shown(sockets[i].1),
                )
            &&& lines[n + 7] == console::out(""@)
            &&& lines[n + 8] == console::out("Press Ctrl+C to disconnect..."@)
        }),
{
    let platforms = Seq::new(sockets.len(), |i: int| sockets[i].0);
    assert(sockets.map_values(|s: (Seq<char>, Seq<u8>)| s.0) =~= platforms);
}

/// How long the sockets are waited for, where they are, and under which name they are known.
pub proof fn linking_takes_a_minute_at_most()
    ensures
        LINK_TIMEOUT_SECS == 60,
        DEFAULT_SOCKET_DIR@ == "/tmp"@,
        BUILDER_NAME@ == "orbit"@,
        LINKING_TEXT@ == "Linking to Constellation"@,
{
}

} // verus!
