//! Bridges: the local sockets that lead to Satellites.
//!
//! Mission Control listens on one Unix socket for each platform. Whoever connects to the socket
//! is connected to the buildkitd of a Satellite, and bytes are copied in both directions.

use vstd::prelude::*;

use crate::encoding;
use crate::path::FsPath;
use crate::text;

verus! {

/// A socket that leads to a Satellite.
pub struct Bridge {
    platform: String,
    socket_path: FsPath,
    satellite_addr: iroh::EndpointAddr,
    active_connections: u64,
}

/// What a bridge is: its platform, its socket, the Satellite that it leads to, and how many
/// sessions are open on it.
#[verifier::ext_equal]
pub struct BridgeView {
    pub platform: Seq<char>,
    pub socket_path: Seq<u8>,
    pub satellite_addr: iroh::EndpointAddr,
    pub active_connections: u64,
}

impl View for Bridge {
    type V = BridgeView;

    closed spec fn view(&self) -> BridgeView {
        BridgeView {
            platform: self.platform@,
            socket_path: self.socket_path@,
            satellite_addr: self.satellite_addr,
            active_connections: self.active_connections,
        }
    }
}

/// What happened to a bridge that is being run.
#[derive(Debug, PartialEq, Eq)]
pub enum BridgeEvent {
    /// The bridge is to be run.
    Started,
    /// A socket file that was left over is gone.
    CleanedUp,
    /// The socket is bound.
    Bound,
    /// The socket could not be bound; the text says why.
    BindFailed(String),
    /// Somebody has connected to the socket.
    Accepted,
    /// A connection could not be accepted; the text says why.
    AcceptFailed(String),
}

/// What is to be done next to run a bridge.
#[derive(Debug, PartialEq, Eq)]
pub enum BridgeAction {
    /// Remove a socket file that was left over.
    CleanUp,
    /// Bind the socket.
    Bind,
    /// Wait for somebody to connect.
    Accept,
    /// Start a session with the one who has connected, and wait for the next one.
    ServeAndAccept,
    /// Stop, with this message.
    Stop(String),
}

/// What is to be done next after an event on the bridge with the given socket.
pub open spec fn next_action(socket: Seq<u8>, event: BridgeEvent, action: BridgeAction) -> bool {
    match event {
        BridgeEvent::Started => action is CleanUp,
        BridgeEvent::CleanedUp => action is Bind,
        BridgeEvent::Bound => action is Accept,
        BridgeEvent::BindFailed(reason) => action matches BridgeAction::Stop(message) && message@
            == "failed to bind Unix socket at "@ + encoding::shown(socket) + ": "@ + reason@,
        BridgeEvent::Accepted => action is ServeAndAccept,
        BridgeEvent::AcceptFailed(_) => action is Accept,
    }
}

/// What happened to a session on a bridge.
#[derive(Debug, Clone, Copy, PartialEq, Eq, Structural)]
pub enum SessionEvent {
    Started,
    Ended,
}

/// The number of open sessions after `event`, if it is `count` before. The count wraps around.
pub open spec fn count_step(count: u64, event: SessionEvent) -> u64 {
    match event {
        SessionEvent::Started => if count == u64::MAX {
            0
        } else {
            (count + 1) as u64
        },
        SessionEvent::Ended => if count == 0 {
            u64::MAX
        } else {
            (count - 1) as u64
        },
    }
}

/// The number of open sessions after some events, if it is `count` before.
pub open spec fn count_after(count: u64, events: Seq<SessionEvent>) -> u64
    decreases events.len(),
{
    if events.len() == 0 {
        count
    } else {
        count_step(count_after(count, events.drop_last()), events.last())
    }
}

/// How many of `events` are `event`.
pub open spec fn occurrences(events: Seq<SessionEvent>, event: SessionEvent) -> nat
    decreases events.len(),
{
    if events.len() == 0 {
        0
    } else if events.last() == event {
        occurrences(events.drop_last(), event) + 1
    } else {
        occurrences(events.drop_last(), event)
    }
}

impl Bridge {
    /// A bridge from the socket at `socket_path` to the Satellite at `satellite_addr`, with no
    /// session on it.
    pub fn new(
        platform: String,
        socket_path: FsPath,
        satellite_addr: iroh::EndpointAddr,
    ) -> (bridge: Bridge)
        ensures
            bridge@ == (BridgeView {
                platform: platform@,
                socket_path: socket_path@,
                satellite_addr,
                active_connections: 0,
            }),
    {
        Bridge { platform, socket_path, satellite_addr, active_connections: 0 }
    }

    /// What is to be done next after `event`. A bridge that has bound its socket never stops
    /// by itself.
    pub fn run(&self, event: &BridgeEvent) -> (action: BridgeAction)
        ensures
            next_action(self@.socket_path, *event, action),
    {
        match event {
            BridgeEvent::Started => BridgeAction::CleanUp,
            BridgeEvent::CleanedUp => BridgeAction::Bind,
            BridgeEvent::Bound => BridgeAction::Accept,
            BridgeEvent::BindFailed(reason) => BridgeAction::Stop(
                "failed to bind Unix socket at ".to_owned().concat(
                    self.socket_path.display().as_str(),
                ).concat(": ").concat(reason.as_str()),
            ),
            BridgeEvent::Accepted => BridgeAction::ServeAndAccept,
            BridgeEvent::AcceptFailed(_) => BridgeAction::Accept,
        }
    }

    /// Takes note that a session has started or ended.
    pub fn record(&mut self, event: SessionEvent)
        ensures
            final(self)@ == (BridgeView {
                active_connections: count_step(old(self)@.active_connections, event),
                ..old(self)@
            }),
    {
        let count: u64 = match event {
            SessionEvent::Started => self.active_connections.wrapping_add(1),
            SessionEvent::Ended => self.active_connections.wrapping_sub(1),
        };
        self.active_connections = count;
    }

    /// The number of sessions that are open on this bridge.
    pub fn active_connections(&self) -> (count: u64)
        ensures
            count == self@.active_connections,
    {
        self.active_connections
    }

    /// The platform of this bridge, such as `linux/arm64`.
    pub fn platform(&self) -> (platform: &str)
        ensures
            platform@ == self@.platform,
    {
        self.platform.as_str()
    }

    /// The socket of this bridge.
    pub fn socket_path(&self) -> (path: &FsPath)
        ensures
            path@ == self@.socket_path,
    {
        &self.socket_path
    }

    /// The address of the Satellite that this bridge leads to.
    pub fn satellite_addr(&self) -> (addr: &iroh::EndpointAddr)
        ensures
            *addr == self@.satellite_addr,
    {
        &self.satellite_addr
    }
}

/// As long as no session ends that has not started, the count is the number of the sessions
/// that are open.
pub proof fn count_is_number_of_open_sessions(events: Seq<SessionEvent>)
    requires
        forall|n: int|
            0 <= n <= events.len() ==> occurrences(#[trigger] events.take(n), SessionEvent::Ended)
                <= occurrences(events.take(n), SessionEvent::Started),
        events.len() <= u64::MAX,
    ensures
        count_after(0, events) == occurrences(events, SessionEvent::Started) - occurrences(
            events,
            SessionEvent::Ended,
        ),
        occurrences(events, SessionEvent::Started) + occurrences(events, SessionEvent::Ended)
            == events.len(),
    decreases events.len(),
{
    assert(events.take(events.len() as int) =~= events);
    if events.len() > 0 {
        let before = events.drop_last();
        assert forall|n: int| 0 <= n <= before.len() implies occurrences(
            #[trigger] before.take(n),
            SessionEvent::Ended,
        ) <= occurrences(before.take(n), SessionEvent::Started) by {
            assert(before.take(n) =~= events.take(n));
        }
        count_is_number_of_open_sessions(before);
    }
}

/// How a session got to its end.
#[derive(Debug, PartialEq, Eq)]
pub enum SessionOutcome {
    /// The Satellite could not be reached; the text says why.
    ConnectFailed(String),
    /// No stream could be opened; the text says why.
    StreamFailed(String),
    /// Copying failed in one direction; the text says why.
    CopyFailed(String),
    /// All was copied: so many bytes to the Satellite, and so many from it.
    Copied(u64, u64),
}

/// The result of a session: how many bytes were copied to the Satellite and from it, or what
/// went wrong.
pub fn proxy_session(outcome: SessionOutcome) -> (res: Result<(u64, u64), String>)
    ensures
        match outcome {
            SessionOutcome::ConnectFailed(reason) => res matches Err(message) && message@
                == "QUIC connect failed: "@ + reason@,
            SessionOutcome::StreamFailed(reason) => res matches Err(message) && message@
                == "open_bi failed: "@ + reason@,
            SessionOutcome::CopyFailed(reason) => res matches Err(message) && message@
                == "copy error: "@ + reason@,
            SessionOutcome::Copied(sent, received) => res matches Ok(counts) && counts == (
                sent,
                received,
            ),
        },
{
    match outcome {
        SessionOutcome::ConnectFailed(reason) => Err(
            "QUIC connect failed: ".to_owned().concat(reason.as_str()),
        ),
        SessionOutcome::StreamFailed(reason) => Err(
            "open_bi failed: ".to_owned().concat(reason.as_str()),
        ),
        SessionOutcome::CopyFailed(reason) => Err(
            "copy error: ".to_owned().concat(reason.as_str()),
        ),
        SessionOutcome::Copied(sent, received) => Ok((sent, received)),
    }
}

/// The bridges of a Mission Control.
///
/// Every bridge that was added is being run. For each platform the one that was added last
/// counts.
pub struct BridgeManager {
    running: Vec<Bridge>,
}

/// For each platform the last of `bridges` for it.
pub open spec fn by_platform(bridges: Seq<BridgeView>) -> Map<Seq<char>, BridgeView>
    decreases bridges.len(),
{
    if bridges.len() == 0 {
        Map::empty()
    } else {
        by_platform(bridges.drop_last()).insert(bridges.last().platform, bridges.last())
    }
}

/// What is to be done when Mission Control stops.
pub struct ShutdownPlan {
    /// How many bridges are being run. All are to be stopped.
    pub tasks: usize,
    /// The sockets of these bridges, whose files are to be removed.
    pub sockets: Vec<FsPath>,
}

/// The paths that a sequence of paths holds.
pub open spec fn path_bytes(paths: Seq<FsPath>) -> Seq<Seq<u8>> {
    paths.map_values(|path: FsPath| path@)
}

impl View for BridgeManager {
    type V = Map<Seq<char>, BridgeView>;

    open spec fn view(&self) -> Map<Seq<char>, BridgeView> {
        by_platform(self.added())
    }
}

impl Default for BridgeManager {
    fn default() -> (manager: BridgeManager)
        ensures
            manager.added() == Seq::<BridgeView>::empty(),
    {
        BridgeManager::new()
    }
}

impl BridgeManager {
    /// The bridges that have been added, in that order.
    pub closed spec fn added(&self) -> Seq<BridgeView> {
        self.running@.map_values(|bridge: Bridge| bridge@)
    }

    /// No bridges.
    pub fn new() -> (manager: BridgeManager)
        ensures
            manager.added() == Seq::<BridgeView>::empty(),
    {
        let manager = BridgeManager { running: Vec::new() };
        assert(manager.added() =~= Seq::<BridgeView>::empty());
        manager
    }

    /// Adds a bridge, which is to be run from now on. It takes the place of an earlier one for
    /// the same platform. The result is its number among the bridges that are being run.
    pub fn add_bridge(&mut self, bridge: Bridge) -> (task: usize)
        ensures
            final(self).added() == old(self).added().push(bridge@),
            task == old(self).added().len(),
    {
        let task: usize = self.running.len();
        self.running.push(bridge);
        assert(self.added() =~= old(self).added().push(bridge@));
        task
    }

    /// Takes note that a session has started or ended on the bridge with the given number.
    pub fn record(&mut self, task: usize, event: SessionEvent)
        requires
            task < old(self).added().len(),
        ensures
            final(self).added() == old(self).added().update(
                task as int,
                BridgeView {
                    active_connections: count_step(
                        old(self).added()[task as int].active_connections,
                        event,
                    ),
                    ..old(self).added()[task as int]
                },
            ),
    {
        self.running[task].record(event);
        assert(final(self).added() =~= old(self).added().update(
            task as int,
            final(self).added()[task as int],
        ));
    }

    /// The number of bridges that are being run.
    pub fn task_count(&self) -> (count: usize)
        ensures
            count == self.added().len(),
    {
        self.running.len()
    }

    /// The bridge with the given number among those that are being run.
    pub fn running_bridge(&self, task: usize) -> (bridge: Option<&Bridge>)
        ensures
            match bridge {
                Some(b) => task < self.added().len() && b@ == self.added()[task as int],
                None => task >= self.added().len(),
            },
    {
        if task < self.running.len() {
            Some(&self.running[task])
        } else {
            None
        }
    }

    /// The bridge for a platform.
    pub fn bridge_for_platform(&self, platform: &str) -> (bridge: Option<&Bridge>)
        ensures
            match bridge {
                Some(b) => self@.contains_key(platform@) && self@[platform@] == b@,
                None => !self@.contains_key(platform@),
            },
    {
        let mut i: usize = self.running.len();
        assert(self.added().take(i as int) =~= self.added());
        while i > 0
            invariant
                i <= self.running@.len(),
                self@.contains_key(platform@) == by_platform(
                    self.added().take(i as int),
                ).contains_key(platform@),
                self@[platform@] == by_platform(self.added().take(i as int))[platform@],
            decreases i,
        {
            let ghost shorter = self.added().take(i - 1);
            assert(self.added().take(i as int).drop_last() =~= shorter);
            assert(self.added().take(i as int).last() == self.running@[i - 1]@);
            if text::same_text(self.running[i - 1].platform(), platform) {
                return Some(&self.running[i - 1]);
            }
            i = i - 1;
        }
        None
    }

    /// Whether the bridge with the given number counts for its platform: no later one is for
    /// the same platform.
    fn is_current(&self, task: usize) -> (current: bool)
        requires
            task < self.added().len(),
        ensures
            current == is_last_for_platform(self.added(), task as int),
    {
        let count: usize = self.running.len();
        assert(task < count);
        let mut i: usize = task + 1;
        while i < count
            invariant
                task < i <= count,
                count == self.running@.len(),
                forall|j: int|
                    task < j < i ==> (#[trigger] self.added()[j]).platform
                        != self.added()[task as int].platform,
            decreases count - i,
        {
            assert(self.added()[i as int] == self.running@[i as int]@);
            if text::same_text(self.running[i].platform(), self.running[task].platform()) {
                return false;
            }
            i = i + 1;
        }
        true
    }

    /// The platforms that there are bridges for, each of them once.
    pub fn platforms(&self) -> (platforms: Vec<String>)
        ensures
            text::texts(platforms@).no_duplicates(),
            text::texts(platforms@).to_set() == self@.dom(),
            platforms@.len() == 0 <==> self.added().len() == 0,
    {
        let mut platforms: Vec<String> = Vec::new();
        let mut i: usize = 0;
        let ghost all = self.added();
        assert(text::texts(platforms@) =~= current_bridges(all, 0).map_values(
            |b: BridgeView| b.platform,
        ));
        while i < self.running.len()
            invariant
                i <= self.running@.len(),
                all == self.added(),
                text::texts(platforms@) == current_bridges(all, i as int).map_values(
                    |b: BridgeView| b.platform,
                ),
            decreases self.running@.len() - i,
        {
            let ghost before = current_bridges(all, i as int);
            if self.is_current(i) {
                let platform: String = self.running[i].platform().to_owned();
                assert(text::texts(platforms@.push(platform)) =~= text::texts(platforms@).push(
                    platform@,
                ));
                platforms.push(platform);
                assert(before.push(all[i as int]).map_values(|b: BridgeView| b.platform)
                    =~= before.map_values(|b: BridgeView| b.platform).push(
                    all[i as int].platform,
                ));
            }
            i = i + 1;
        }
        proof {
            current_bridges_are_the_map(all);
        }
        platforms
    }

    /// What is to be done when Mission Control stops: every bridge that is being run is stopped,
    /// and its socket file is removed.
    pub fn shutdown(&self) -> (plan: ShutdownPlan)
        ensures
            plan.tasks == self.added().len(),
            path_bytes(plan.sockets@) == self.added().map_values(|b: BridgeView| b.socket_path),
    {
        let mut sockets: Vec<FsPath> = Vec::new();
        let mut i: usize = 0;
        while i < self.running.len()
            invariant
                i <= self.running@.len(),
                sockets@.len() == i,
                forall|j: int|
                    0 <= j < i ==> (#[trigger] sockets@[j])@ == self.running@[j]@.socket_path,
            decreases self.running@.len() - i,
        {
            sockets.push(self.running[i].socket_path().clone());
            i = i + 1;
        }
        assert(path_bytes(sockets@) =~= self.added().map_values(|b: BridgeView| b.socket_path));
        ShutdownPlan { tasks: self.running.len(), sockets }
    }
}

/// Whether no bridge after the one with the number `task` is for the same platform.
pub open spec fn is_last_for_platform(bridges: Seq<BridgeView>, task: int) -> bool {
    forall|j: int|
        task < j < bridges.len() ==> (#[trigger] bridges[j]).platform != bridges[task].platform
}

/// Those of the first `n` bridges that count for their platforms, in the order in which they
/// were added.
pub open spec fn current_bridges(bridges: Seq<BridgeView>, n: int) -> Seq<BridgeView>
    decreases n,
{
    if n <= 0 {
        Seq::empty()
    } else if is_last_for_platform(bridges, n - 1) {
        current_bridges(bridges, n - 1).push(bridges[n - 1])
    } else {
        current_bridges(bridges, n - 1)
    }
}

/// The bridges that count are those that the platforms lead to, each of them once.
pub proof fn current_bridges_are_the_map(bridges: Seq<BridgeView>)
    ensures
        ({
            let current = current_bridges(bridges, bridges.len() as int);
            let platforms = current.map_values(|b: BridgeView| b.platform);
            &&& platforms.no_duplicates()
            &&& platforms.to_set() == by_platform(bridges).dom()
            &&& current.len() == 0 <==> bridges.len() == 0
            &&& forall|i: int|
                0 <= i < current.len() ==> by_platform(bridges)[(#[trigger] current[i]).platform]
                    == current[i]
        }),
{
    let current = current_bridges(bridges, bridges.len() as int);
    let platforms = current.map_values(|b: BridgeView| b.platform);
    lemma_current_bridges(bridges, bridges.len() as int);
    assert forall|i: int| 0 <= i < current.len() implies by_platform(bridges)[(
    #[trigger] current[i]).platform] == current[i] by {
        assert(counts(bridges, bridges.len() as int, current[i]));
        let k = choose|k: int|
            0 <= k < bridges.len() && #[trigger] bridges[k] == current[i] && is_last_for_platform(
                bridges,
                k,
            );
        lemma_last_for_platform(bridges, k);
    }
    assert forall|p: Seq<char>| #[trigger]
        platforms.to_set().contains(p) == by_platform(bridges).dom().contains(p) by {
        if platforms.contains(p) {
            let i = choose|i: int| 0 <= i < platforms.len() && platforms[i] == p;
            assert(current[i].platform == p);
            assert(counts(bridges, bridges.len() as int, current[i]));
            let k = choose|k: int|
                0 <= k < bridges.len() && #[trigger] bridges[k] == current[i]
                    && is_last_for_platform(bridges, k);
            lemma_last_for_platform(bridges, k);
        }
        if by_platform(bridges).dom().contains(p) {
            lemma_platform_has_a_last_bridge(bridges, p);
            let k = choose|k: int|
                0 <= k < bridges.len() && (#[trigger] bridges[k]).platform == p
                    && is_last_for_platform(bridges, k);
            assert(current.contains(bridges[k]));
            let i = choose|i: int| 0 <= i < current.len() && current[i] == bridges[k];
            assert(platforms[i] == p);
        }
    }
    assert(platforms.to_set() =~= by_platform(bridges).dom());
    if bridges.len() > 0 {
        let k = bridges.len() - 1;
        assert(is_last_for_platform(bridges, k));
        assert(current.contains(bridges[k]));
    }
}

/// The bridge that is the last for its platform is the one that the platform leads to.
proof fn lemma_last_for_platform(bridges: Seq<BridgeView>, k: int)
    requires
        0 <= k < bridges.len(),
        is_last_for_platform(bridges, k),
    ensures
        by_platform(bridges).contains_key(bridges[k].platform),
        by_platform(bridges)[bridges[k].platform] == bridges[k],
    decreases bridges.len(),
{
    if k < bridges.len() - 1 {
        let shorter = bridges.drop_last();
        assert(bridges.last().platform != bridges[k].platform);
        assert forall|j: int| k < j < shorter.len() implies (#[trigger] shorter[j]).platform
            != shorter[k].platform by {
            assert(bridges[j] == shorter[j]);
        }
        lemma_last_for_platform(shorter, k);
    }
}

/// A platform that leads to a bridge has a last bridge.
proof fn lemma_platform_has_a_last_bridge(bridges: Seq<BridgeView>, p: Seq<char>)
    requires
        by_platform(bridges).contains_key(p),
    ensures
        exists|k: int|
            0 <= k < bridges.len() && (#[trigger] bridges[k]).platform == p
                && is_last_for_platform(bridges, k),
    decreases bridges.len(),
{
    if bridges.len() > 0 {
        let last = bridges.len() - 1;
        if bridges[last].platform == p {
            assert(is_last_for_platform(bridges, last));
        } else {
            let shorter = bridges.drop_last();
            lemma_platform_has_a_last_bridge(shorter, p);
            let k = choose|k: int|
                0 <= k < shorter.len() && (#[trigger] shorter[k]).platform == p
                    && is_last_for_platform(shorter, k);
            assert forall|j: int| k < j < bridges.len() implies (#[trigger] bridges[j]).platform
                != bridges[k].platform by {
                if j < shorter.len() {
                    assert(shorter[j] == bridges[j]);
                }
            }
            assert(bridges[k].platform == p);
        }
    }
}

/// Whether `bridge` is one of the first `n` bridges, and counts for its platform.
spec fn counts(bridges: Seq<BridgeView>, n: int, bridge: BridgeView) -> bool {
    exists|k: int|
        0 <= k < n && #[trigger] bridges[k] == bridge && is_last_for_platform(bridges, k)
}

/// The bridges that count are exactly the last ones for their platforms, each of them once.
proof fn lemma_current_bridges(bridges: Seq<BridgeView>, n: int)
    requires
        0 <= n <= bridges.len(),
    ensures
        current_bridges(bridges, n).map_values(|b: BridgeView| b.platform).no_duplicates(),
        forall|i: int|
            0 <= i < current_bridges(bridges, n).len() ==> counts(
                bridges,
                n,
                #[trigger] current_bridges(bridges, n)[i],
            ),
        forall|k: int|
            0 <= k < n && is_last_for_platform(bridges, k) ==> current_bridges(
                bridges,
                n,
            ).contains(#[trigger] bridges[k]),
    decreases n,
{
    if n > 0 {
        lemma_current_bridges(bridges, n - 1);
        let before = current_bridges(bridges, n - 1);
        let after = current_bridges(bridges, n);
        let newest = bridges[n - 1];
        assert forall|b: BridgeView| counts(bridges, n - 1, b) implies counts(bridges, n, b) by {
            let k = choose|k: int|
                0 <= k < n - 1 && #[trigger] bridges[k] == b && is_last_for_platform(bridges, k);
            assert(bridges[k] == b);
        }
        if is_last_for_platform(bridges, n - 1) {
            let names = before.map_values(|b: BridgeView| b.platform);
            let more = after.map_values(|b: BridgeView| b.platform);
            assert(more =~= names.push(newest.platform));
            assert forall|i: int| 0 <= i < names.len() implies names[i] != newest.platform by {
                assert(counts(bridges, n - 1, before[i]));
                let k = choose|k: int|
                    0 <= k < n - 1 && #[trigger] bridges[k] == before[i] && is_last_for_platform(
                        bridges,
                        k,
                    );
                assert(bridges[n - 1].platform != bridges[k].platform);
            }
            assert forall|i: int| 0 <= i < after.len() implies counts(
                bridges,
                n,
                #[trigger] after[i],
            ) by {
                if i < before.len() {
                    assert(after[i] == before[i]);
                } else {
                    assert(bridges[n - 1] == after[i]);
                }
            }
            assert forall|k: int| 0 <= k < n && is_last_for_platform(bridges, k) implies after.contains(
                #[trigger] bridges[k],
            ) by {
                if k < n - 1 {
                    let i = choose|i: int| 0 <= i < before.len() && before[i] == bridges[k];
                    assert(after[i] == bridges[k]);
                } else {
                    assert(after[before.len() as int] == bridges[k]);
                }
            }
        }
    }
}

/// What is done on each event on a bridge: what was left over is removed, the socket is bound, and
/// from then on everybody who connects is served and the next one waited for, whatever fails. Only
/// a socket that cannot be bound stops the bridge, with a message that names it.
pub proof fn only_a_failed_bind_stops_a_bridge(
    socket: Seq<u8>,
    event: BridgeEvent,
    action: BridgeAction,
)
    requires
        next_action(socket, event, action),
    ensures
        event is Started <==> action is CleanUp,
        event is CleanedUp <==> action is Bind,
        event is Accepted <==> action is ServeAndAccept,
        event is Bound || event is AcceptFailed <==> action is Accept,
        event is BindFailed <==> action is Stop,
        event matches BridgeEvent::BindFailed(reason) ==> (action matches BridgeAction::Stop(
            message,
        ) && message@ == "failed to bind Unix socket at "@ + encoding::shown(socket) + ": "@
            + reason@),
{
}

/// A session that starts adds one to the count, a session that ends takes one away, and the count
/// wraps around at its limits. So a session that starts and ends leaves the count as it was.
pub proof fn sessions_count_up_and_down(count: u64)
    ensures
        count < u64::MAX ==> count_step(count, SessionEvent::Started) == count + 1,
        count > 0 ==> count_step(count, SessionEvent::Ended) == count - 1,
        count_step(u64::MAX, SessionEvent::Started) == 0,
        count_step(0, SessionEvent::Ended) == u64::MAX,
        count_step(count_step(count, SessionEvent::Started), SessionEvent::Ended) == count,
        count_step(count_step(count, SessionEvent::Ended), SessionEvent::Started) == count,
{
}

/// A platform leads to a bridge exactly if one was added for it, and then to the one that was
/// added last.
pub proof fn the_last_bridge_for_a_platform_counts(bridges: Seq<BridgeView>, platform: Seq<char>)
    ensures
        match by_platform(bridges).contains_key(platform) {
            true => exists|i: int|
                {
                    &&& 0 <= i < bridges.len()
                    &&& #[trigger] bridges[i] == by_platform(bridges)[platform]
                    &&& bridges[i].platform == platform
                    &&& forall|j: int|
                        i < j < bridges.len() ==> (#[trigger] bridges[j]).platform != platform
                },
            false => forall|j: int|
                0 <= j < bridges.len() ==> (#[trigger] bridges[j]).platform != platform,
        },
    decreases bridges.len(),
{
    if bridges.len() > 0 {
        let shorter = bridges.drop_last();
        let last = bridges.len() - 1;
        the_last_bridge_for_a_platform_counts(shorter, platform);
        assert(bridges[last] == bridges.last());
        if bridges.last().platform != platform {
            if by_platform(shorter).contains_key(platform) {
                let i = choose|i: int|
                    {
                        &&& 0 <= i < shorter.len()
                        &&& #[trigger] shorter[i] == by_platform(shorter)[platform]
                        &&& shorter[i].platform == platform
                        &&& forall|j: int|
                            i < j < shorter.len() ==> (#[trigger] shorter[j]).platform != platform
                    };
                assert(bridges[i] == shorter[i]);
                assert forall|j: int| i < j < bridges.len() implies (
                #[trigger] bridges[j]).platform != platform by {
                    if j < last {
                        assert(shorter[j] == bridges[j]);
                    }
                }
            } else {
                assert forall|j: int| 0 <= j < bridges.len() implies (
                #[trigger] bridges[j]).platform != platform by {
                    if j < last {
                        assert(shorter[j] == bridges[j]);
                    }
                }
            }
        }
    }
}

/// The paths that a sequence of paths holds are all of them, in order.
pub proof fn path_bytes_are_those_of_all_paths(paths: Seq<FsPath>)
    ensures
        path_bytes(paths).len() == paths.len(),
        forall|i: int| 0 <= i < paths.len() ==> #[trigger] path_bytes(paths)[i] == paths[i]@,
{
}

} // verus!
