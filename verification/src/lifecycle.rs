//! The life of a node, from its identity to its last word.
//!
//! Every role goes through a fixed sequence of stages. A stage that fails ends the life of the
//! node with an error, unless the stage is one that the node can do without.

use vstd::prelude::*;

use crate::build_proxy::BUILD_ALPN;
use crate::console;
use crate::console::Line;
use crate::router::NodeBuilder;
use crate::satellite::Occasion;
use crate::text;

verus! {

/// What a node is there for.
#[derive(Debug, Clone, Copy, PartialEq, Eq, Structural)]
pub enum Role {
    /// To create a Constellation, and to keep it going.
    StationInit,
    /// To keep an existing Constellation going.
    StationJoin,
    /// To build.
    Satellite,
    /// To lead builds to Satellites.
    MissionControl,
    /// To list the Satellites.
    Fleet,
}

/// A stage in the life of a node.
#[derive(Debug, Clone, Copy, PartialEq, Eq, Structural)]
pub enum Stage {
    /// Load the secret key, or generate one.
    LoadIdentity,
    /// Bind the endpoint.
    BindEndpoint,
    /// Wait until the endpoint is online.
    ComeOnline,
    /// Start the protocols of the document, and the router that dispatches to all protocols.
    SpawnDocs,
    /// Create the document.
    CreateDocument,
    /// Import the document that the Beacon leads to.
    ImportDocument,
    /// Create an author for writing to the document.
    CreateAuthor,
    /// Share the document, and print the Beacon.
    ShareDocument,
    /// Let the nodes in that the document names.
    QueryMembers,
    /// Encode the entry about this node.
    EncodeEntry,
    /// Write the entry about this node.
    WriteEntry,
    /// Wait until the document is complete.
    AwaitSync,
    /// Ask the document for its entries about Satellites.
    QuerySatellites,
    /// Read these entries.
    ReadSatellites,
    /// Open the sockets that lead to the Satellites.
    SetUpBridges,
    /// Register the sockets with docker.
    CreateBuilders,
    /// Print the table of the Satellites.
    PrintTable,
    /// Do the work until Ctrl+C.
    Serve,
    /// Write that this node is offline.
    ReportOffline,
    /// Stop what runs in the background.
    StopTasks,
    /// Stop the bridges, and remove their sockets.
    StopBridges,
    /// Remove the builder.
    RemoveBuilder,
    /// Shut the router down.
    ShutDownRouter,
}

/// How a stage ended.
#[derive(Debug, PartialEq, Eq)]
pub enum Outcome {
    Done,
    /// The stage failed; the text says why.
    Failed(String),
}

/// Why the life of a node ended early.
#[derive(Debug, PartialEq, Eq)]
pub struct RunError {
    /// What was being done, from the general to the particular.
    pub contexts: Vec<String>,
    /// What went wrong.
    pub cause: String,
}

/// The stages that every node begins with.
pub open spec fn first_stages() -> Seq<Stage> {
    seq![Stage::LoadIdentity, Stage::BindEndpoint, Stage::ComeOnline, Stage::SpawnDocs]
}

/// The stages of a role, in order.
pub open spec fn plan(role: Role) -> Seq<Stage> {
    first_stages() + match role {
        Role::StationInit => seq![
            Stage::CreateDocument,
            Stage::CreateAuthor,
            Stage::ShareDocument,
            Stage::Serve,
            Stage::ShutDownRouter,
        ],
        Role::StationJoin => seq![
            Stage::ImportDocument,
            Stage::CreateAuthor,
            Stage::Serve,
            Stage::ShutDownRouter,
        ],
        Role::Satellite => seq![
            Stage::ImportDocument,
            Stage::CreateAuthor,
            Stage::QueryMembers,
            Stage::EncodeEntry,
            Stage::WriteEntry,
            Stage::Serve,
            Stage::StopTasks,
            Stage::ReportOffline,
            Stage::ShutDownRouter,
        ],
        Role::MissionControl => seq![
            Stage::ImportDocument,
            Stage::AwaitSync,
            Stage::QuerySatellites,
            Stage::ReadSatellites,
            Stage::SetUpBridges,
            Stage::CreateBuilders,
            Stage::Serve,
            Stage::StopTasks,
            Stage::StopBridges,
            Stage::RemoveBuilder,
            Stage::ShutDownRouter,
        ],
        Role::Fleet => seq![
            Stage::ImportDocument,
            Stage::AwaitSync,
            Stage::QuerySatellites,
            Stage::ReadSatellites,
            Stage::PrintTable,
            Stage::ShutDownRouter,
        ],
    }
}

/// Whether a node goes on when the stage fails.
pub open spec fn is_optional(stage: Stage) -> bool {
    match stage {
        Stage::ComeOnline => true,
        Stage::AwaitSync => true,
        Stage::CreateBuilders => true,
        Stage::ReportOffline => true,
        Stage::StopTasks => true,
        Stage::StopBridges => true,
        Stage::RemoveBuilder => true,
        _ => false,
    }
}

/// What a node of the given role that does not start is said to have failed at.
pub open spec fn spawn_context(role: Role) -> Seq<char> {
    match role {
        Role::StationInit => "failed to spawn station node"@,
        Role::StationJoin => "failed to spawn station node"@,
        Role::Satellite => "failed to spawn satellite node"@,
        Role::MissionControl => "failed to spawn mission control node"@,
        Role::Fleet => "failed to spawn fleet node"@,
    }
}

/// What a stage that failed is said to have failed at.
pub open spec fn failure_contexts(role: Role, stage: Stage) -> Seq<Seq<char>> {
    match stage {
        Stage::BindEndpoint => seq![spawn_context(role), "failed to bind iroh endpoint"@],
        Stage::SpawnDocs => seq![spawn_context(role), "failed to spawn docs protocol"@],
        Stage::CreateDocument => seq!["failed to create document"@],
        Stage::ImportDocument => if role is MissionControl || role is Fleet {
            seq!["failed to import constellation document from beacon"@]
        } else {
            seq!["failed to import document from beacon"@]
        },
        Stage::CreateAuthor => seq!["failed to create author"@],
        Stage::ShareDocument => seq!["failed to share document"@],
        Stage::QueryMembers => seq!["failed to query existing satellites"@],
        Stage::EncodeEntry => seq!["failed to serialize satellite entry"@],
        Stage::WriteEntry => seq!["failed to write satellite registration"@],
        Stage::QuerySatellites => seq!["failed to query satellite entries from doc"@],
        Stage::ReadSatellites => seq!["failed to read doc entry"@],
        _ => Seq::empty(),
    }
}

/// The stages of a role, in order.
pub fn stages(role: Role) -> (stages: Vec<Stage>)
    ensures
        stages@ == plan(role),
{
    let mut stages: Vec<Stage> = vec![
        Stage::LoadIdentity,
        Stage::BindEndpoint,
        Stage::ComeOnline,
        Stage::SpawnDocs,
    ];
    let mut rest: Vec<Stage> = match role {
        Role::StationInit => vec![
            Stage::CreateDocument,
            Stage::CreateAuthor,
            Stage::ShareDocument,
            Stage::Serve,
            Stage::ShutDownRouter,
        ],
        Role::StationJoin => vec![
            Stage::ImportDocument,
            Stage::CreateAuthor,
            Stage::Serve,
            Stage::ShutDownRouter,
        ],
        Role::Satellite => vec![
            Stage::ImportDocument,
            Stage::CreateAuthor,
            Stage::QueryMembers,
            Stage::EncodeEntry,
            Stage::WriteEntry,
            Stage::Serve,
            Stage::StopTasks,
            Stage::ReportOffline,
            Stage::ShutDownRouter,
        ],
        Role::MissionControl => vec![
            Stage::ImportDocument,
            Stage::AwaitSync,
            Stage::QuerySatellites,
            Stage::ReadSatellites,
            Stage::SetUpBridges,
            Stage::CreateBuilders,
            Stage::Serve,
            Stage::StopTasks,
            Stage::StopBridges,
            Stage::RemoveBuilder,
            Stage::ShutDownRouter,
        ],
        Role::Fleet => vec![
            Stage::ImportDocument,
            Stage::AwaitSync,
            Stage::QuerySatellites,
            Stage::ReadSatellites,
            Stage::PrintTable,
            Stage::ShutDownRouter,
        ],
    };
    stages.append(&mut rest);
    assert(stages@ =~= plan(role));
    stages
}

/// Whether a node goes on when the stage fails.
pub fn can_be_skipped(stage: Stage) -> (optional: bool)
    ensures
        optional == is_optional(stage),
{
    match stage {
        Stage::ComeOnline => true,
        Stage::AwaitSync => true,
        Stage::CreateBuilders => true,
        Stage::ReportOffline => true,
        Stage::StopTasks => true,
        Stage::StopBridges => true,
        Stage::RemoveBuilder => true,
        _ => false,
    }
}

/// What a stage that failed is said to have failed at.
pub fn contexts_of(role: Role, stage: Stage) -> (contexts: Vec<String>)
    ensures
        text::texts(contexts@) == failure_contexts(role, stage),
{
    let spawn: &'static str = match role {
        Role::StationInit => "failed to spawn station node",
        Role::StationJoin => "failed to spawn station node",
        Role::Satellite => "failed to spawn satellite node",
        Role::MissionControl => "failed to spawn mission control node",
        Role::Fleet => "failed to spawn fleet node",
    };
    let contexts: Vec<String> = match stage {
        Stage::BindEndpoint => vec![
            spawn.to_owned(),
            "failed to bind iroh endpoint".to_owned(),
        ],
        Stage::SpawnDocs => vec![
            spawn.to_owned(),
            "failed to spawn docs protocol".to_owned(),
        ],
        Stage::CreateDocument => vec!["failed to create document".to_owned()],
        Stage::ImportDocument => match role {
            Role::MissionControl => vec![
                "failed to import constellation document from beacon".to_owned(),
            ],
            Role::Fleet => vec![
                "failed to import constellation document from beacon".to_owned(),
            ],
            _ => vec!["failed to import document from beacon".to_owned()],
        },
        Stage::CreateAuthor => vec!["failed to create author".to_owned()],
        Stage::ShareDocument => vec!["failed to share document".to_owned()],
        Stage::QueryMembers => vec!["failed to query existing satellites".to_owned()],
        Stage::EncodeEntry => vec!["failed to serialize satellite entry".to_owned()],
        Stage::WriteEntry => vec!["failed to write satellite registration".to_owned()],
        Stage::QuerySatellites => vec!["failed to query satellite entries from doc".to_owned()],
        Stage::ReadSatellites => vec!["failed to read doc entry".to_owned()],
        _ => Vec::new(),
    };
    assert(text::texts(contexts@) =~= failure_contexts(role, stage));
    contexts
}

/// The life of a node: its role, and the stage that it has reached.
pub struct Lifecycle {
    role: Role,
    position: usize,
}

/// The role of a node, and how many of its stages are over.
pub struct LifecycleView {
    pub role: Role,
    pub position: int,
}

impl View for Lifecycle {
    type V = LifecycleView;

    closed spec fn view(&self) -> LifecycleView {
        LifecycleView { role: self.role, position: self.position as int }
    }
}

impl Lifecycle {
    /// The beginning of the life of a node.
    pub fn new(role: Role) -> (life: Lifecycle)
        ensures
            life@ == (LifecycleView { role, position: 0 }),
    {
        Lifecycle { role, position: 0 }
    }

    /// The stage that the node has reached; `None` where its life is over.
    pub fn stage(&self) -> (stage: Option<Stage>)
        ensures
            match stage {
                Some(s) => self@.position < plan(self@.role).len() && s
                    == plan(self@.role)[self@.position],
                None => self@.position >= plan(self@.role).len(),
            },
    {
        let stages: Vec<Stage> = stages(self.role);
        if self.position < stages.len() {
            Some(stages[self.position])
        } else {
            None
        }
    }

    /// Takes note of how the stage ended. The node goes on to the next stage if this one is done
    /// or can be done without; otherwise its life is over, with an error.
    pub fn advance(&mut self, outcome: Outcome) -> (res: Result<(), RunError>)
        ensures
            ({
                let role = old(self)@.role;
                let position = old(self)@.position;
                let stage = plan(role)[position];
                if position >= plan(role).len() {
                    res is Ok && final(self)@ == old(self)@
                } else if outcome is Done || is_optional(stage) {
                    res is Ok && final(self)@ == (LifecycleView { role, position: position + 1 })
                } else {
                    &&& final(self)@ == old(self)@
                    &&& res matches Err(e) && {
                        &&& text::texts(e.contexts@) == failure_contexts(role, stage)
                        &&& outcome matches Outcome::Failed(reason) && e.cause@ == reason@
                    }
                }
            }),
    {
        match self.stage() {
            Some(stage) => {
                match outcome {
                    Outcome::Failed(reason) => {
                        if !can_be_skipped(stage) {
                            return Err(
                                RunError { contexts: contexts_of(self.role, stage), cause: reason },
                            );
                        }
                    },
                    Outcome::Done => {},
                }
                assert(plan(self.role).len() <= 15);
                self.position = self.position + 1;
                Ok(())
            },
            None => Ok(()),
        }
    }
}

impl RunError {
    /// The message that describes this error: what was being done, or, where that is not said,
    /// what went wrong.
    pub fn to_string(&self) -> (message: String)
        ensures
            message@ == if self.contexts@.len() > 0 {
                self.contexts@[0]@
            } else {
                self.cause@
            },
    {
        if self.contexts.len() > 0 {
            self.contexts[0].clone()
        } else {
            self.cause.clone()
        }
    }
}

/// What a node prints when it has been interrupted.
pub open spec fn shutting_down_text(role: Role) -> Option<Seq<char>> {
    match role {
        Role::StationInit => Some("\nShutting down station..."@),
        Role::StationJoin => Some("\nShutting down backup station..."@),
        Role::Satellite => Some("\nShutting down satellite..."@),
        Role::MissionControl => Some("\nShutting down Mission Control..."@),
        Role::Fleet => None,
    }
}

/// What a node prints at the very end.
pub open spec fn stopped_text(role: Role) -> Option<Seq<char>> {
    match role {
        Role::StationInit => Some("Station stopped."@),
        Role::StationJoin => Some("Backup station stopped."@),
        Role::Satellite => Some("Satellite stopped."@),
        Role::MissionControl => Some("Mission Control stopped."@),
        Role::Fleet => None,
    }
}

/// What a node prints when it has been interrupted.
pub fn shutting_down_line(role: Role) -> (line: Option<Line>)
    ensures
        match line {
            Some(l) => shutting_down_text(role) is Some && l@ == console::err(
                shutting_down_text(role)->0,
            ),
            None => shutting_down_text(role) is None,
        },
{
    match role {
        Role::StationInit => Some(Line::Stderr("\nShutting down station...".to_owned())),
        Role::StationJoin => Some(Line::Stderr("\nShutting down backup station...".to_owned())),
        Role::Satellite => Some(Line::Stderr("\nShutting down satellite...".to_owned())),
        Role::MissionControl => Some(
            Line::Stderr("\nShutting down Mission Control...".to_owned()),
        ),
        Role::Fleet => None,
    }
}

/// What a node prints at the very end.
pub fn stopped_line(role: Role) -> (line: Option<Line>)
    ensures
        match line {
            Some(l) => stopped_text(role) is Some && l@ == console::err(stopped_text(role)->0),
            None => stopped_text(role) is None,
        },
{
    match role {
        Role::StationInit => Some(Line::Stderr("Station stopped.".to_owned())),
        Role::StationJoin => Some(Line::Stderr("Backup station stopped.".to_owned())),
        Role::Satellite => Some(Line::Stderr("Satellite stopped.".to_owned())),
        Role::MissionControl => Some(Line::Stderr("Mission Control stopped.".to_owned())),
        Role::Fleet => None,
    }
}

/// The node with the protocols of its role: a Satellite takes build connections, and nobody else
/// does.
pub fn with_role_protocols(role: Role, builder: NodeBuilder) -> (res: NodeBuilder)
    ensures
        res.key() == builder.key(),
        res.extras() == if role is Satellite {
            builder.extras().push(BUILD_ALPN@)
        } else {
            builder.extras()
        },
{
    match role {
        Role::Satellite => builder.accept(BUILD_ALPN.as_slice()),
        _ => builder,
    }
}

/// Every life ends with the router being shut down, and from the moment that a node has been
/// interrupted nothing before that can fail, so that it is always reached.
pub proof fn interrupted_nodes_shut_down(role: Role, serve: int, i: int)
    requires
        0 <= serve < i < plan(role).len(),
        plan(role)[serve] is Serve,
    ensures
        plan(role).last() == Stage::ShutDownRouter,
        i < plan(role).len() - 1 ==> is_optional(plan(role)[i]),
{
}

/// Whether something may run in the background during the stage with the number `i`: it is
/// started when the node begins to serve, and runs until it is stopped.
pub open spec fn runs_in_background(role: Role, i: int) -> bool {
    exists|serve: int|
        {
            &&& 0 <= serve <= i
            &&& #[trigger] plan(role)[serve] is Serve
            &&& forall|j: int| serve < j < i ==> !(#[trigger] plan(role)[j] is StopTasks)
        }
}

/// Whether a node may write its entry on the given occasion during the stage with the number
/// `i`. The signs of life of a Satellite are given in the background.
pub open spec fn may_write(role: Role, i: int, occasion: Occasion) -> bool {
    match occasion {
        Occasion::Joined => plan(role)[i] is WriteEntry,
        Occasion::Heartbeat => role is Satellite && runs_in_background(role, i),
        Occasion::Shutdown => plan(role)[i] is ReportOffline,
    }
}

/// A Satellite registers before it serves, and reports that it is offline when what runs in the
/// background has been stopped, before it leaves the network. No other node registers or
/// reports.
pub proof fn only_satellites_report(role: Role)
    ensures
        plan(role).contains(Stage::WriteEntry) <==> role is Satellite,
        plan(role).contains(Stage::ReportOffline) <==> role is Satellite,
        role is Satellite ==> {
            &&& plan(role).index_of(Stage::WriteEntry) < plan(role).index_of(Stage::Serve)
            &&& plan(role).index_of(Stage::Serve) < plan(role).index_of(Stage::StopTasks)
            &&& plan(role).index_of(Stage::StopTasks) < plan(role).index_of(Stage::ReportOffline)
            &&& plan(role).index_of(Stage::ReportOffline) < plan(role).index_of(
                Stage::ShutDownRouter,
            )
        },
{
    if role is Satellite {
        let p = plan(role);
        assert(p[8] == Stage::WriteEntry);
        assert(p[9] == Stage::Serve);
        assert(p[10] == Stage::StopTasks);
        assert(p[11] == Stage::ReportOffline);
        assert(p[12] == Stage::ShutDownRouter);
        assert(p.contains(Stage::WriteEntry) && p.contains(Stage::Serve) && p.contains(
            Stage::StopTasks,
        ) && p.contains(Stage::ReportOffline) && p.contains(Stage::ShutDownRouter));
    }
}

/// That it is offline is the last thing that a Satellite writes: once it reports so, it writes
/// nothing else.
pub proof fn offline_is_the_last_word(offline: int, i: int, occasion: Occasion)
    requires
        0 <= offline <= i < plan(Role::Satellite).len(),
        plan(Role::Satellite)[offline] is ReportOffline,
        may_write(Role::Satellite, i, occasion),
    ensures
        occasion is Shutdown,
        i == offline,
{
    let p = plan(Role::Satellite);
    assert(offline == 11);
    assert(p[10] is StopTasks);
    if occasion is Heartbeat {
        let serve = choose|serve: int|
            {
                &&& 0 <= serve <= i
                &&& #[trigger] p[serve] is Serve
                &&& forall|j: int| serve < j < i ==> !(#[trigger] p[j] is StopTasks)
            };
        assert(serve == 9);
        assert(!(p[10] is StopTasks));
    }
}

/// Mission Control opens its sockets only when the document is complete, and takes the sockets
/// and the builder away when it has been interrupted.
pub proof fn mission_control_cleans_up()
    ensures
        ({
            let p = plan(Role::MissionControl);
            &&& p.index_of(Stage::AwaitSync) < p.index_of(Stage::QuerySatellites)
            &&& p.index_of(Stage::ReadSatellites) < p.index_of(Stage::SetUpBridges)
            &&& p.index_of(Stage::SetUpBridges) < p.index_of(Stage::Serve)
            &&& p.index_of(Stage::Serve) < p.index_of(Stage::StopBridges)
            &&& p.index_of(Stage::StopBridges) < p.index_of(Stage::RemoveBuilder)
            &&& p.index_of(Stage::RemoveBuilder) < p.index_of(Stage::ShutDownRouter)
        }),
{
    let p = plan(Role::MissionControl);
    assert(p[5] == Stage::AwaitSync);
    assert(p[6] == Stage::QuerySatellites);
    assert(p[7] == Stage::ReadSatellites);
    assert(p[8] == Stage::SetUpBridges);
    assert(p[10] == Stage::Serve);
    assert(p[12] == Stage::StopBridges);
    assert(p[13] == Stage::RemoveBuilder);
    assert(p[14] == Stage::ShutDownRouter);
    assert(p.contains(Stage::AwaitSync) && p.contains(Stage::QuerySatellites) && p.contains(
        Stage::ReadSatellites,
    ) && p.contains(Stage::SetUpBridges) && p.contains(Stage::Serve) && p.contains(
        Stage::StopBridges,
    ) && p.contains(Stage::RemoveBuilder) && p.contains(Stage::ShutDownRouter));
}

/// A node that creates a Constellation creates the document, shares it and so prints the Beacon,
/// and only then serves; and no other node creates or shares a document.
pub proof fn stations_share_before_they_serve(role: Role)
    ensures
        plan(role).contains(Stage::CreateDocument) <==> role == Role::StationInit,
        plan(role).contains(Stage::ShareDocument) <==> role == Role::StationInit,
        role == Role::StationInit ==> exists|create: int, share: int, serve: int|
            {
                &&& 0 <= create < share < serve < plan(role).len()
                &&& #[trigger] plan(role)[create] == Stage::CreateDocument
                &&& #[trigger] plan(role)[share] == Stage::ShareDocument
                &&& #[trigger] plan(role)[serve] == Stage::Serve
            },
{
    if role == Role::StationInit {
        let p = plan(role);
        assert(p[4] == Stage::CreateDocument);
        assert(p[6] == Stage::ShareDocument);
        assert(p[7] == Stage::Serve);
    }
}

/// Which stages are part of the life of which nodes; no stage is gone through twice.
pub proof fn every_stage_has_its_roles(role: Role, stage: Stage)
    ensures
        plan(role).no_duplicates(),
        plan(role).contains(stage) <==> match stage {
            Stage::LoadIdentity => true,
            Stage::BindEndpoint => true,
            Stage::ComeOnline => true,
            Stage::SpawnDocs => true,
            Stage::CreateDocument => role is StationInit,
            Stage::ImportDocument => !(role is StationInit),
            Stage::CreateAuthor => role is StationInit || role is StationJoin || role is Satellite,
            Stage::ShareDocument => role is StationInit,
            Stage::QueryMembers => role is Satellite,
            Stage::EncodeEntry => role is Satellite,
            Stage::WriteEntry => role is Satellite,
            Stage::AwaitSync => role is MissionControl || role is Fleet,
            Stage::QuerySatellites => role is MissionControl || role is Fleet,
            Stage::ReadSatellites => role is MissionControl || role is Fleet,
            Stage::SetUpBridges => role is MissionControl,
            Stage::CreateBuilders => role is MissionControl,
            Stage::PrintTable => role is Fleet,
            Stage::Serve => !(role is Fleet),
            Stage::ReportOffline => role is Satellite,
            Stage::StopTasks => role is Satellite || role is MissionControl,
            Stage::StopBridges => role is MissionControl,
            Stage::RemoveBuilder => role is MissionControl,
            Stage::ShutDownRouter => true,
        },
{
    let p = plan(role);
    assert(forall|i: int| 0 <= i < p.len() ==> p.contains(#[trigger] p[i]));
    assert(p[0] == Stage::LoadIdentity && p[1] == Stage::BindEndpoint && p[2] == Stage::ComeOnline
        && p[3] == Stage::SpawnDocs);
    match role {
        Role::StationInit => {
            assert(p[4] == Stage::CreateDocument && p[5] == Stage::CreateAuthor && p[6]
                == Stage::ShareDocument && p[7] == Stage::Serve && p[8] == Stage::ShutDownRouter);
        },
        Role::StationJoin => {
            assert(p[4] == Stage::ImportDocument && p[5] == Stage::CreateAuthor && p[6]
                == Stage::Serve && p[7] == Stage::ShutDownRouter);
        },
        Role::Satellite => {
            assert(p[4] == Stage::ImportDocument && p[5] == Stage::CreateAuthor && p[6]
                == Stage::QueryMembers && p[7] == Stage::EncodeEntry && p[8] == Stage::WriteEntry
                && p[9] == Stage::Serve && p[10] == Stage::StopTasks && p[11]
                == Stage::ReportOffline && p[12] == Stage::ShutDownRouter);
        },
        Role::MissionControl => {
            assert(p[4] == Stage::ImportDocument && p[5] == Stage::AwaitSync && p[6]
                == Stage::QuerySatellites && p[7] == Stage::ReadSatellites && p[8]
                == Stage::SetUpBridges && p[9] == Stage::CreateBuilders && p[10] == Stage::Serve
                && p[11] == Stage::StopTasks && p[12] == Stage::StopBridges && p[13]
                == Stage::RemoveBuilder && p[14] == Stage::ShutDownRouter);
        },
        Role::Fleet => {
            assert(p[4] == Stage::ImportDocument && p[5] == Stage::AwaitSync && p[6]
                == Stage::QuerySatellites && p[7] == Stage::ReadSatellites && p[8]
                == Stage::PrintTable && p[9] == Stage::ShutDownRouter);
        },
    }
}

/// Whatever the role, the stages come in one order: the identity, the endpoint, the network and
/// the document; then what this node writes and reads, and what it makes of it; then the work;
/// and then everything is taken down, the router last.
pub proof fn stages_come_in_one_order(role: Role, i: int, j: int)
    requires
        0 <= i < j < plan(role).len(),
    ensures
        ({
            let place = |stage: Stage|
                match stage {
                    Stage::LoadIdentity => 1int,
                    Stage::BindEndpoint => 2int,
                    Stage::ComeOnline => 3int,
                    Stage::SpawnDocs => 4int,
                    Stage::CreateDocument => 5int,
                    Stage::ImportDocument => 6int,
                    Stage::CreateAuthor => 7int,
                    Stage::ShareDocument => 8int,
                    Stage::QueryMembers => 9int,
                    Stage::EncodeEntry => 10int,
                    Stage::WriteEntry => 11int,
                    Stage::AwaitSync => 12int,
                    Stage::QuerySatellites => 13int,
                    Stage::ReadSatellites => 14int,
                    Stage::SetUpBridges => 15int,
                    Stage::CreateBuilders => 16int,
                    Stage::PrintTable => 17int,
                    Stage::Serve => 18int,
                    Stage::StopTasks => 19int,
                    Stage::ReportOffline => 20int,
                    Stage::StopBridges => 21int,
                    Stage::RemoveBuilder => 22int,
                    Stage::ShutDownRouter => 23int,
                };
            place(plan(role)[i]) < place(plan(role)[j])
        }),
{
}

/// What a node can do without: to be online at once, to have the whole document, to be known to
/// docker, and everything between an interruption and the shutdown of the router. Nothing else can
/// fail without the node failing.
pub proof fn only_these_stages_may_fail(stage: Stage)
    ensures
        is_optional(stage) <==> {
            ||| stage == Stage::ComeOnline
            ||| stage == Stage::AwaitSync
            ||| stage == Stage::CreateBuilders
            ||| stage == Stage::StopTasks
            ||| stage == Stage::ReportOffline
            ||| stage == Stage::StopBridges
            ||| stage == Stage::RemoveBuilder
        },
{
}

/// What a node that failed is said to have failed at: where it did not start, that says first
/// which kind of node it is; each other stage that talks to the document has a sentence of its
/// own; and the rest is left to the cause.
pub proof fn failures_say_what_failed(role: Role, stage: Stage)
    ensures
        ({
            let contexts = failure_contexts(role, stage);
            let spawn = match role {
                Role::StationInit => "failed to spawn station node"@,
                Role::StationJoin => "failed to spawn station node"@,
                Role::Satellite => "failed to spawn satellite node"@,
                Role::MissionControl => "failed to spawn mission control node"@,
                Role::Fleet => "failed to spawn fleet node"@,
            };
            match stage {
                Stage::BindEndpoint => contexts.len() == 2 && contexts[0] == spawn && contexts[1]
                    == "failed to bind iroh endpoint"@,
                Stage::SpawnDocs => contexts.len() == 2 && contexts[0] == spawn && contexts[1]
                    == "failed to spawn docs protocol"@,
                Stage::CreateDocument => contexts.len() == 1 && contexts[0]
                    == "failed to create document"@,
                Stage::ImportDocument => contexts.len() == 1 && contexts[0] == (if role
                    == Role::MissionControl || role == Role::Fleet {
                    "failed to import constellation document from beacon"@
                } else {
                    "failed to import document from beacon"@
                }),
                Stage::CreateAuthor => contexts.len() == 1 && contexts[0]
                    == "failed to create author"@,
                Stage::ShareDocument => contexts.len() == 1 && contexts[0]
                    == "failed to share document"@,
                Stage::QueryMembers => contexts.len() == 1 && contexts[0]
                    == "failed to query existing satellites"@,
                Stage::EncodeEntry => contexts.len() == 1 && contexts[0]
                    == "failed to serialize satellite entry"@,
                Stage::WriteEntry => contexts.len() == 1 && contexts[0]
                    == "failed to write satellite registration"@,
                Stage::QuerySatellites => contexts.len() == 1 && contexts[0]
                    == "failed to query satellite entries from doc"@,
                Stage::ReadSatellites => contexts.len() == 1 && contexts[0]
                    == "failed to read doc entry"@,
                _ => contexts.len() == 0,
            }
        }),
{
}

/// What a node says when it has been interrupted, and at the end: a node that serves says both,
/// one that only lists the Satellites says neither.
pub proof fn nodes_that_serve_say_goodbye(role: Role)
    ensures
        shutting_down_text(role) == match role {
            Role::StationInit => Some("\nShutting down station..."@),
            Role::StationJoin => Some("\nShutting down backup station..."@),
            Role::Satellite => Some("\nShutting down satellite..."@),
            Role::MissionControl => Some("\nShutting down Mission Control..."@),
            Role::Fleet => None,
        },
        stopped_text(role) == match role {
            Role::StationInit => Some("Station stopped."@),
            Role::StationJoin => Some("Backup station stopped."@),
            Role::Satellite => Some("Satellite stopped."@),
            Role::MissionControl => Some("Mission Control stopped."@),
            Role::Fleet => None,
        },
        shutting_down_text(role) is Some <==> plan(role).contains(Stage::Serve),
{
    every_stage_has_its_roles(role, Stage::Serve);
}

} // verus!
