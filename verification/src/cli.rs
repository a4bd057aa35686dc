//! The command line: what is asked for, and what is to be run for it.

use vstd::prelude::*;
use vstd::utf8;

use crate::beacon;
use crate::beacon::Beacon;
use crate::beacon::BeaconError;
use crate::fleet::FleetConfig;
use crate::keys;
use crate::keys::KeyError;
use crate::link;
use crate::link::LinkConfig;
use crate::mission_control;
use crate::mission_control::MissionControlConfig;
use crate::mission_control::PlatformError;
use crate::path;
use crate::path::FsPath;
use crate::satellite;
use crate::status::StatusConfig;
use crate::text;

verus! {

/// The platforms where none are chosen.
pub const DEFAULT_PLATFORMS: &'static str = "linux/amd64,linux/arm64";

/// How many seconds to wait for the bridges where no time is chosen.
pub const DEFAULT_TIMEOUT_SECS: u64 = 30;

/// The command line.
#[derive(Debug, PartialEq, Eq)]
pub struct Cli {
    /// The directory for the identity of the node, where one is chosen.
    pub data_dir: Option<FsPath>,
    /// The command.
    pub command: Commands,
}

/// A command.
#[derive(Debug, PartialEq, Eq)]
pub enum Commands {
    /// Run a Station.
    Station(StationCommand),
    /// Run a Satellite.
    Satellite(SatelliteCommand),
    /// Run Mission Control.
    MissionControl { beacon: String, platforms: String },
    /// Check whether the bridges are ready.
    Status { wait: bool, timeout_secs: u64, platforms: String },
    /// Connect to a Constellation.
    Link { beacon: String, platforms: String },
    /// List the Satellites.
    Fleet { beacon: String },
}

/// A command about Stations.
#[derive(Debug, PartialEq, Eq)]
pub enum StationCommand {
    /// Create a Constellation.
    Init,
    /// Join a Constellation.
    Join { beacon: String },
}

/// A command about Satellites.
#[derive(Debug, PartialEq, Eq)]
pub enum SatelliteCommand {
    /// Join a Constellation.
    Join { beacon: String, buildkitd_socket: Option<String>, platforms: Option<String> },
}

/// What is to be run.
pub enum Task {
    StationInit { data_dir: FsPath },
    StationJoin { beacon: Beacon, data_dir: FsPath },
    SatelliteJoin {
        beacon: Beacon,
        data_dir: FsPath,
        buildkitd_socket: FsPath,
        extra_platforms: Option<Vec<String>>,
    },
    MissionControl(MissionControlConfig),
    Status(StatusConfig),
    Link(LinkConfig),
    Fleet(FleetConfig),
}

/// Why a command cannot be run.
#[derive(Debug, PartialEq, Eq)]
pub enum CliError {
    /// The Beacon was refused.
    Beacon(BeaconError),
    /// The platforms were refused.
    Platforms(PlatformError),
}

impl CliError {
    /// Whether this error comes from reading `beacon`, or, where that is a Beacon, from parsing
    /// `platforms`.
    pub open spec fn is_due_to(
        &self,
        beacon: Seq<char>,
        holds_ticket: bool,
        platforms: Seq<char>,
    ) -> bool {
        match self {
            CliError::Beacon(e) => beacon::reads_as(beacon, holds_ticket, Err(*e)),
            CliError::Platforms(e) => {
                &&& exists|b: Beacon| beacon::reads_as(beacon, holds_ticket, Ok(b))
                &&& mission_control::parses_to(platforms, Err(*e))
            },
        }
    }
}

/// Whether `platforms` are those that `list` names, and can be asked for.
pub open spec fn asks_for(list: Seq<char>, platforms: Seq<String>) -> bool {
    &&& text::texts(platforms) == mission_control::platform_list(list)
    &&& mission_control::is_platform_choice(text::texts(platforms))
}

/// What a command means: what is to be run for it, or why it cannot be run. `holds_ticket` says
/// whether the payload of its Beacon is a document ticket.
pub open spec fn means(
    command: Commands,
    data_dir: Seq<u8>,
    holds_ticket: bool,
    res: Result<Task, CliError>,
) -> bool {
    match command {
        Commands::Station(StationCommand::Init) => res matches Ok(Task::StationInit {
            data_dir: dir,
        }) && dir@ == data_dir,
        Commands::Station(StationCommand::Join { beacon: text }) => match res {
            Ok(Task::StationJoin { beacon, data_dir: dir }) => {
                &&& beacon::reads_as(text@, holds_ticket, Ok(beacon))
                &&& dir@ == data_dir
            },
            Err(CliError::Beacon(e)) => beacon::reads_as(text@, holds_ticket, Err(e)),
            _ => false,
        },
        Commands::Satellite(
            SatelliteCommand::Join { beacon: text, buildkitd_socket: socket, platforms: list },
        ) => match res {
            Ok(
                Task::SatelliteJoin { beacon, data_dir: dir, buildkitd_socket, extra_platforms },
            ) => {
                &&& beacon::reads_as(text@, holds_ticket, Ok(beacon))
                &&& dir@ == data_dir
                &&& buildkitd_socket@ == match socket {
                    Some(path) => utf8::encode_utf8(path@),
                    None => utf8::encode_utf8(satellite::DEFAULT_BUILDKITD_SOCKET@),
                }
                &&& match (list, extra_platforms) {
                    (Some(list), Some(extra)) => asks_for(list@, extra@),
                    (None, None) => true,
                    _ => false,
                }
            },
            Err(e) => match list {
                Some(list) => e.is_due_to(text@, holds_ticket, list@),
                None => e matches CliError::Beacon(e) && beacon::reads_as(text@, holds_ticket, Err(e)),
            },
            _ => false,
        },
        Commands::MissionControl { beacon: text, platforms: list } => match res {
            Ok(Task::MissionControl(config)) => {
                &&& beacon::reads_as(text@, holds_ticket, Ok(config.beacon))
                &&& asks_for(list@, config.platforms@)
                &&& config.socket_dir@ == utf8::encode_utf8(link::DEFAULT_SOCKET_DIR@)
                &&& config.data_dir@ == data_dir
                &&& config.builder_name@ == link::BUILDER_NAME@
            },
            Err(e) => e.is_due_to(text@, holds_ticket, list@),
            _ => false,
        },
        Commands::Status { wait, timeout_secs, platforms: list } => match res {
            Ok(Task::Status(config)) => {
                &&& asks_for(list@, config.platforms@)
                &&& config.socket_dir@ == utf8::encode_utf8(link::DEFAULT_SOCKET_DIR@)
                &&& config.wait == wait
                &&& config.timeout_secs == timeout_secs
            },
            Err(CliError::Platforms(e)) => mission_control::parses_to(list@, Err(e)),
            _ => false,
        },
        Commands::Link { beacon: text, platforms: list } => match res {
            Ok(Task::Link(config)) => {
                &&& beacon::reads_as(text@, holds_ticket, Ok(config.beacon))
                &&& asks_for(list@, config.platforms@)
                &&& config.data_dir@ == data_dir
            },
            Err(e) => e.is_due_to(text@, holds_ticket, list@),
            _ => false,
        },
        Commands::Fleet { beacon: text } => match res {
            Ok(Task::Fleet(config)) => {
                &&& beacon::reads_as(text@, holds_ticket, Ok(config.beacon))
                &&& config.data_dir@ == data_dir
            },
            Err(CliError::Beacon(e)) => beacon::reads_as(text@, holds_ticket, Err(e)),
            _ => false,
        },
    }
}

impl CliError {
    /// The message that describes this error.
    pub fn to_string(&self) -> (message: String)
        ensures
            match self {
                CliError::Beacon(e) => message@ == beacon::error_text(*e),
                CliError::Platforms(e) => message@ == mission_control::error_text(*e),
            },
    {
        match self {
            CliError::Beacon(e) => e.to_string(),
            CliError::Platforms(e) => e.to_string(),
        }
    }
}

/// The data directory: the chosen one, or the default one. The second part of the result says
/// whether it is to be created now.
pub fn resolve_data_dir(
    chosen: Option<FsPath>,
    home: Option<&str>,
    user_profile: Option<&str>,
) -> (res: Result<(FsPath, bool), KeyError>)
    ensures
        match (chosen, res) {
            (Some(dir), Ok((path, create))) => path == dir && create,
            (Some(_), Err(_)) => false,
            (None, Ok((path, create))) => {
                &&& !create
                &&& home is Some || user_profile is Some
                &&& path@ == path::path_join(
                    utf8::encode_utf8(
                        if home is Some {
                            home->0@
                        } else {
                            user_profile->0@
                        },
                    ),
                    utf8::encode_utf8(keys::ORBITBUILD_DIR@),
                )
            },
            (None, Err(e)) => e == KeyError::NoHome && home is None && user_profile is None,
        },
{
    match chosen {
        Some(dir) => Ok((dir, true)),
        None => match keys::default_data_dir(home, user_profile) {
            Ok(dir) => Ok((dir, false)),
            Err(e) => Err(e),
        },
    }
}

/// Reads the Beacon and the platforms of a command, in this order.
fn read_arguments(beacon: &str, holds_ticket: bool, platforms: &str) -> (res: Result<
    (Beacon, Vec<String>),
    CliError,
>)
    ensures
        match res {
            Ok((b, p)) => beacon::reads_as(beacon@, holds_ticket, Ok(b)) && asks_for(platforms@, p@),
            Err(e) => e.is_due_to(beacon@, holds_ticket, platforms@),
        },
{
    match Beacon::parse(beacon, holds_ticket) {
        Ok(b) => match mission_control::parse_platforms(platforms) {
            Ok(p) => Ok((b, p)),
            Err(e) => Err(CliError::Platforms(e)),
        },
        Err(e) => Err(CliError::Beacon(e)),
    }
}

impl Commands {
    /// The Beacon that this command is given, where it is given one.
    pub fn beacon(&self) -> (beacon: Option<&str>)
        ensures
            match self {
                Commands::Station(StationCommand::Init) => beacon is None,
                Commands::Station(StationCommand::Join { beacon: b }) => beacon matches Some(text)
                    && text@ == b@,
                Commands::Satellite(SatelliteCommand::Join { beacon: b, .. }) => beacon
                    matches Some(text) && text@ == b@,
                Commands::MissionControl { beacon: b, .. } => beacon matches Some(text) && text@
                    == b@,
                Commands::Status { .. } => beacon is None,
                Commands::Link { beacon: b, .. } => beacon matches Some(text) && text@ == b@,
                Commands::Fleet { beacon: b } => beacon matches Some(text) && text@ == b@,
            },
    {
        match self {
            Commands::Station(StationCommand::Init) => None,
            Commands::Station(StationCommand::Join { beacon }) => Some(beacon.as_str()),
            Commands::Satellite(SatelliteCommand::Join { beacon, .. }) => Some(beacon.as_str()),
            Commands::MissionControl { beacon, .. } => Some(beacon.as_str()),
            Commands::Status { .. } => None,
            Commands::Link { beacon, .. } => Some(beacon.as_str()),
            Commands::Fleet { beacon } => Some(beacon.as_str()),
        }
    }
}

/// What is to be run for a command, given whether the payload of its Beacon (see
/// [`Commands::beacon`]) is a document ticket.
pub fn dispatch(command: Commands, data_dir: FsPath, holds_ticket: bool) -> (res: Result<
    Task,
    CliError,
>)
    ensures
        means(command, data_dir@, holds_ticket, res),
        match (command, res) {
            (Commands::MissionControl { platforms: list, .. }, Ok(Task::MissionControl(config))) =>
                names_all(list@, config.platforms@),
            (Commands::Status { platforms: list, .. }, Ok(Task::Status(config))) => names_all(
                list@,
                config.platforms@,
            ),
            (Commands::Link { platforms: list, .. }, Ok(Task::Link(config))) => names_all(
                list@,
                config.platforms@,
            ),
            _ => true,
        },
{
    let ghost given = command;
    let ghost dir = data_dir@;
    let res: Result<Task, CliError> = match command {
        Commands::Station(StationCommand::Init) => Ok(Task::StationInit { data_dir }),
        Commands::Station(StationCommand::Join { beacon }) => match Beacon::parse(
            beacon.as_str(),
            holds_ticket,
        ) {
            Ok(beacon) => Ok(Task::StationJoin { beacon, data_dir }),
            Err(e) => Err(CliError::Beacon(e)),
        },
        Commands::Satellite(SatelliteCommand::Join { beacon, buildkitd_socket, platforms }) => {
            let chosen: Option<FsPath> = match buildkitd_socket {
                Some(path) => Some(FsPath::from_text(path.as_str())),
                None => None,
            };
            let buildkitd_socket: FsPath = satellite::buildkitd_socket(chosen);
            match Beacon::parse(beacon.as_str(), holds_ticket) {
                Ok(beacon) => match platforms {
                    Some(list) => match satellite::parse_satellite_platforms(list.as_str()) {
                        Ok(extra) => Ok(
                            Task::SatelliteJoin {
                                beacon,
                                data_dir,
                                buildkitd_socket,
                                extra_platforms: Some(extra),
                            },
                        ),
                        Err(e) => Err(CliError::Platforms(e)),
                    },
                    None => Ok(
                        Task::SatelliteJoin {
                            beacon,
                            data_dir,
                            buildkitd_socket,
                            extra_platforms: None,
                        },
                    ),
                },
                Err(e) => Err(CliError::Beacon(e)),
            }
        },
        Commands::MissionControl { beacon, platforms } => match read_arguments(
            beacon.as_str(),
            holds_ticket,
            platforms.as_str(),
        ) {
            Ok((beacon, platforms)) => Ok(
                Task::MissionControl(
                    MissionControlConfig {
                        beacon,
                        platforms,
                        socket_dir: FsPath::from_text(link::DEFAULT_SOCKET_DIR),
                        data_dir,
                        builder_name: link::BUILDER_NAME.to_owned(),
                    },
                ),
            ),
            Err(e) => Err(e),
        },
        Commands::Status { wait, timeout_secs, platforms } => {
            match mission_control::parse_platforms(platforms.as_str()) {
                Ok(platforms) => Ok(
                    Task::Status(
                        StatusConfig {
                            platforms,
                            socket_dir: FsPath::from_text(link::DEFAULT_SOCKET_DIR),
                            wait,
                            timeout_secs,
                        },
                    ),
                ),
                Err(e) => Err(CliError::Platforms(e)),
            }
        },
        Commands::Link { beacon, platforms } => match read_arguments(
            beacon.as_str(),
            holds_ticket,
            platforms.as_str(),
        ) {
            Ok((beacon, platforms)) => Ok(Task::Link(LinkConfig { beacon, platforms, data_dir })),
            Err(e) => Err(e),
        },
        Commands::Fleet { beacon } => match Beacon::parse(beacon.as_str(), holds_ticket) {
            Ok(beacon) => Ok(Task::Fleet(FleetConfig { beacon, data_dir })),
            Err(e) => Err(CliError::Beacon(e)),
        },
    };
    proof {
        if res is Ok {
            tasks_ask_for_all_named_platforms(given, dir, holds_ticket, res->Ok_0);
        }
    }
    res
}

/// Whether `platforms` are the platforms that `list` names, all of them, in order.
pub open spec fn names_all(list: Seq<char>, platforms: Seq<String>) -> bool {
    let named = mission_control::platform_list(list);
    &&& platforms.len() == named.len()
    &&& forall|i: int| 0 <= i < platforms.len() ==> (#[trigger] platforms[i])@ == named[i]
}

/// The platforms of a task are the platforms that the command names, all of them, in order; they
/// are at least one, and all of them Linux platforms.
proof fn lemma_platforms_asked_for(list: Seq<char>, platforms: Seq<String>)
    requires
        asks_for(list, platforms),
    ensures
        names_all(list, platforms),
        mission_control::platform_list(list).len() > 0,
        forall|i: int|
            0 <= i < platforms.len() ==> text::begins_with(
                (#[trigger] platforms[i])@,
                "linux/"@,
            ),
{
    let named = mission_control::platform_list(list);
    assert forall|i: int| 0 <= i < platforms.len() implies (#[trigger] platforms[i])@ == named[i]
        && text::begins_with(platforms[i]@, "linux/"@) by {
        assert(text::texts(platforms)[i] == platforms[i]@);
        assert(mission_control::is_supported(text::texts(platforms)[i]));
    }
}

/// Whatever command is given, the task that it is turned into asks for the platforms that the
/// command's list names, all of them, in order: at least one, and only Linux platforms.
pub proof fn tasks_ask_for_all_named_platforms(
    command: Commands,
    data_dir: Seq<u8>,
    holds_ticket: bool,
    task: Task,
)
    requires
        means(command, data_dir, holds_ticket, Ok(task)),
    ensures
        match (command, task) {
            (
                Commands::Satellite(SatelliteCommand::Join { platforms: Some(list), .. }),
                Task::SatelliteJoin { extra_platforms, .. },
            ) => extra_platforms matches Some(extra) && names_all(list@, extra@) && extra@.len()
                > 0,
            (
                Commands::Satellite(SatelliteCommand::Join { platforms: None, .. }),
                Task::SatelliteJoin { extra_platforms, .. },
            ) => extra_platforms is None,
            (Commands::MissionControl { platforms: list, .. }, Task::MissionControl(config)) => {
                &&& names_all(list@, config.platforms@)
                &&& config.platforms@.len() > 0
                &&& forall|i: int|
                    0 <= i < config.platforms@.len() ==> text::begins_with(
                        (#[trigger] config.platforms@[i])@,
                        "linux/"@,
                    )
            },
            (Commands::Status { platforms: list, .. }, Task::Status(config)) => {
                &&& names_all(list@, config.platforms@)
                &&& config.platforms@.len() > 0
                &&& forall|i: int|
                    0 <= i < config.platforms@.len() ==> text::begins_with(
                        (#[trigger] config.platforms@[i])@,
                        "linux/"@,
                    )
            },
            (Commands::Link { platforms: list, .. }, Task::Link(config)) => {
                &&& names_all(list@, config.platforms@)
                &&& config.platforms@.len() > 0
                &&& forall|i: int|
                    0 <= i < config.platforms@.len() ==> text::begins_with(
                        (#[trigger] config.platforms@[i])@,
                        "linux/"@,
                    )
            },
            _ => true,
        },
{
    match (command, task) {
        (
            Commands::Satellite(SatelliteCommand::Join { platforms: Some(list), .. }),
            Task::SatelliteJoin { extra_platforms: Some(extra), .. },
        ) => {
            lemma_platforms_asked_for(list@, extra@);
        },
        (Commands::MissionControl { platforms: list, .. }, Task::MissionControl(config)) => {
            lemma_platforms_asked_for(list@, config.platforms@);
        },
        (Commands::Status { platforms: list, .. }, Task::Status(config)) => {
            lemma_platforms_asked_for(list@, config.platforms@);
        },
        (Commands::Link { platforms: list, .. }, Task::Link(config)) => {
            lemma_platforms_asked_for(list@, config.platforms@);
        },
        _ => {},
    }
}

/// Whatever command is given, what it is turned into is a task of its own kind. The task holds the
/// Beacon that the command gives and the data directory, and what else the command says; the
/// sockets are in `/tmp`, and the builder is `orbit`.
pub proof fn tasks_hold_what_the_command_says(
    command: Commands,
    data_dir: Seq<u8>,
    holds_ticket: bool,
    task: Task,
)
    requires
        means(command, data_dir, holds_ticket, Ok(task)),
    ensures
        match command {
            Commands::Station(StationCommand::Init) => {
                task matches Task::StationInit { data_dir: dir } && dir@ == data_dir
            },
            Commands::Station(StationCommand::Join { beacon: text }) => {
                task matches Task::StationJoin { beacon, data_dir: dir } && beacon::beacon_text(
                    beacon@,
                ) == text@ && dir@ == data_dir && holds_ticket
            },
            Commands::Satellite(
                SatelliteCommand::Join { beacon: text, buildkitd_socket: chosen, .. },
            ) => {
                task matches Task::SatelliteJoin {
                    beacon,
                    data_dir: dir,
                    buildkitd_socket: socket,
                    ..
                } && beacon::beacon_text(beacon@) == text@ && dir@ == data_dir && holds_ticket
                    && socket@ == utf8::encode_utf8(
                    match chosen {
                        Some(path) => path@,
                        None => "/run/buildkit/buildkitd.sock"@,
                    },
                )
            },
            Commands::MissionControl { beacon: text, .. } => {
                task matches Task::MissionControl(config) && beacon::beacon_text(config.beacon@)
                    == text@ && config.data_dir@ == data_dir && holds_ticket
                    && config.socket_dir@ == utf8::encode_utf8("/tmp"@) && config.builder_name@
                    == "orbit"@
            },
            Commands::Status { wait, timeout_secs, .. } => {
                task matches Task::Status(config) && config.wait == wait && config.timeout_secs
                    == timeout_secs && config.socket_dir@ == utf8::encode_utf8("/tmp"@)
            },
            Commands::Link { beacon: text, .. } => {
                task matches Task::Link(config) && beacon::beacon_text(config.beacon@) == text@
                    && config.data_dir@ == data_dir && holds_ticket
            },
            Commands::Fleet { beacon: text } => {
                task matches Task::Fleet(config) && beacon::beacon_text(config.beacon@) == text@
                    && config.data_dir@ == data_dir && holds_ticket
            },
        },
{
}

/// The Beacon that a command is given, where it is given one.
pub open spec fn beacon_given(command: Commands) -> Option<Seq<char>> {
    match command {
        Commands::Station(StationCommand::Init) => None,
        Commands::Station(StationCommand::Join { beacon }) => Some(beacon@),
        Commands::Satellite(SatelliteCommand::Join { beacon, .. }) => Some(beacon@),
        Commands::MissionControl { beacon, .. } => Some(beacon@),
        Commands::Status { .. } => None,
        Commands::Link { beacon, .. } => Some(beacon@),
        Commands::Fleet { beacon } => Some(beacon@),
    }
}

/// The list of platforms that a command is given, where it is given one.
pub open spec fn list_given(command: Commands) -> Option<Seq<char>> {
    match command {
        Commands::Station(_) => None,
        Commands::Satellite(SatelliteCommand::Join { platforms: Some(list), .. }) => Some(list@),
        Commands::Satellite(SatelliteCommand::Join { platforms: None, .. }) => None,
        Commands::MissionControl { platforms, .. } => Some(platforms@),
        Commands::Status { platforms, .. } => Some(platforms@),
        Commands::Link { platforms, .. } => Some(platforms@),
        Commands::Fleet { .. } => None,
    }
}

/// A command is turned into a task exactly if its Beacon, where it is given one, is read, and its
/// list of platforms, where it is given one, is accepted. Where the Beacon is not read, the error
/// is about the Beacon, whatever the list.
pub proof fn commands_with_valid_arguments_are_run(
    command: Commands,
    data_dir: Seq<u8>,
    holds_ticket: bool,
    res: Result<Task, CliError>,
)
    requires
        means(command, data_dir, holds_ticket, res),
    ensures
        match res {
            Ok(task) => {
                &&& beacon_given(command) is Some ==> holds_ticket && beacon::has_form(
                    beacon_given(command)->0,
                )
                &&& list_given(command) is Some ==> mission_control::is_platform_choice(
                    mission_control::platform_list(list_given(command)->0),
                )
            },
            Err(CliError::Beacon(e)) => beacon_given(command) matches Some(text)
                && beacon::reads_as(text, holds_ticket, Err(e)),
            Err(CliError::Platforms(e)) => {
                &&& list_given(command) is Some
                &&& mission_control::parses_to(list_given(command)->0, Err(e))
                &&& !mission_control::is_platform_choice(
                    mission_control::platform_list(list_given(command)->0),
                )
                &&& beacon_given(command) is Some ==> holds_ticket && beacon::has_form(
                    beacon_given(command)->0,
                )
            },
        },
{
    match res {
        Ok(_) => {},
        Err(CliError::Beacon(_)) => {},
        Err(CliError::Platforms(e)) => {
            let list = list_given(command)->0;
            mission_control::lists_of_supported_platforms_are_accepted(list, Err(e));
            let named = mission_control::platform_list(list);
            assert(!mission_control::is_platform_choice(named)) by {
                if mission_control::is_platform_choice(named) {
                    assert forall|i: int| 0 <= i < named.len() implies text::begins_with(
                        #[trigger] named[i],
                        "linux/"@,
                    ) by {
                        assert(mission_control::is_supported(named[i]));
                    }
                }
            }
        },
    }
}

/// What is assumed where nothing is chosen.
pub proof fn defaults_of_the_command_line()
    ensures
        DEFAULT_PLATFORMS@ == "linux/amd64,linux/arm64"@,
        DEFAULT_TIMEOUT_SECS == 30,
{
}

} // verus!
