//! Status: whether the local sockets of the bridges are ready.
//!
//! The sockets are probed once, or, when asked to wait, until all of them are ready or the time
//! is up.

use vstd::prelude::*;

use crate::console;
use crate::console::Line;
use crate::docker;
use crate::encoding;
use crate::path::FsPath;

verus! {

/// What is to be checked.
pub struct StatusConfig {
    /// The platforms whose sockets are checked.
    pub platforms: Vec<String>,
    /// The directory with the sockets.
    pub socket_dir: FsPath,
    /// Whether to wait until all sockets are ready.
    pub wait: bool,
    /// How many seconds to wait.
    pub timeout_secs: u64,
}

/// How long an attempt to connect to a socket may take, in milliseconds.
pub const CONNECT_TIMEOUT_MILLIS: u64 = 500;

/// How long to sleep between two rounds of probes, in milliseconds.
pub const POLL_INTERVAL_MILLIS: u64 = 500;

/// What is printed at the beginning of a wait, without a line break.
pub const WAITING_TEXT: &'static str = "Waiting for bridges ";

/// What is printed after each sleep, without a line break.
pub const TICK_TEXT: &'static str = ".";

/// What is printed when all sockets are ready.
pub const READY_TEXT: &'static str = " ready!";

/// What is printed when the time is up.
pub const TIMED_OUT_TEXT: &'static str = " timed out!";

/// What came of an attempt to connect to a socket.
#[derive(Debug, Clone, Copy, PartialEq, Eq, Structural)]
pub enum ConnectOutcome {
    /// Somebody listens on the socket.
    Connected,
    /// The attempt failed.
    Failed,
    /// The attempt took too long.
    TimedOut,
}

/// Whether a socket is alive: its file exists, and an attempt to connect to it succeeded.
/// `attempt` is `None` where no attempt was made.
pub fn check_socket_alive(exists: bool, attempt: Option<ConnectOutcome>) -> (alive: bool)
    ensures
        alive == (exists && attempt == Some(ConnectOutcome::Connected)),
{
    if !exists {
        return false;
    }
    match attempt {
        Some(ConnectOutcome::Connected) => true,
        Some(ConnectOutcome::Failed) => false,
        Some(ConnectOutcome::TimedOut) => false,
        None => false,
    }
}

/// The platforms and the paths that a list of sockets holds.
pub open spec fn listed_sockets(sockets: Seq<(String, FsPath)>) -> Seq<(Seq<char>, Seq<u8>)> {
    sockets.map_values(|s: (String, FsPath)| (s.0@, s.1@))
}

/// The sockets for `platforms` under the directory `socket_dir`, in order.
pub fn socket_paths(platforms: &Vec<String>, socket_dir: &FsPath) -> (sockets: Vec<
    (String, FsPath),
>)
    requires
        forall|i: int| 0 <= i < platforms@.len() ==> (#[trigger] platforms@[i])@.contains('/'),
    ensures
        listed_sockets(sockets@) == platforms@.map_values(
            |p: String| (p@, docker::socket_path(socket_dir@, p@)),
        ),
{
    let mut sockets: Vec<(String, FsPath)> = Vec::new();
    let mut i: usize = 0;
    while i < platforms.len()
        invariant
            i <= platforms@.len(),
            sockets@.len() == i,
            forall|i: int| 0 <= i < platforms@.len() ==> (#[trigger] platforms@[i])@.contains('/'),
            forall|j: int|
                0 <= j < i ==> (#[trigger] sockets@[j]).0@ == platforms@[j]@ && sockets@[j].1@
                    == docker::socket_path(socket_dir@, platforms@[j]@),
        decreases platforms@.len() - i,
    {
        let path: FsPath = docker::socket_path_for_platform(socket_dir, platforms[i].as_str());
        sockets.push((platforms[i].clone(), path));
        i = i + 1;
    }
    assert(listed_sockets(sockets@) =~= platforms@.map_values(
        |p: String| (p@, docker::socket_path(socket_dir@, p@)),
    ));
    sockets
}

/// What to do next while waiting for the sockets.
#[derive(Debug, Clone, Copy, PartialEq, Eq, Structural)]
pub enum PollAction {
    /// Probe the socket with this number.
    Probe(usize),
    /// See how much time has passed since the wait began.
    CheckClock,
    /// Sleep before the next round.
    Sleep,
    /// All sockets are ready.
    Ready,
    /// The time is up.
    TimedOut,
}

/// What came of the last action.
#[derive(Debug, Clone, Copy, PartialEq, Eq, Structural)]
pub enum PollAnswer {
    /// The socket is alive, or it is not.
    Probed(bool),
    /// So many nanoseconds have passed since the wait began.
    Elapsed(u128),
    /// The sleep is over.
    Slept,
}

/// A wait until so many sockets are ready or so many nanoseconds have passed.
#[derive(Debug, Clone, Copy, PartialEq, Eq, Structural)]
pub struct SocketPoll {
    pub count: usize,
    pub deadline_nanos: u128,
}

impl SocketPoll {
    /// The first action of a round: to probe the first socket.
    pub open spec fn round(&self) -> PollAction {
        if self.count == 0 {
            PollAction::Ready
        } else {
            PollAction::Probe(0)
        }
    }

    /// The next action after `action`, given what came of it. An answer to another question
    /// changes nothing.
    pub open spec fn next(&self, action: PollAction, answer: PollAnswer) -> PollAction {
        match (action, answer) {
            (PollAction::Probe(i), PollAnswer::Probed(alive)) => if !alive {
                PollAction::CheckClock
            } else if i + 1 < self.count {
                PollAction::Probe((i + 1) as usize)
            } else {
                PollAction::Ready
            },
            (PollAction::CheckClock, PollAnswer::Elapsed(nanos)) => if nanos
                >= self.deadline_nanos {
                PollAction::TimedOut
            } else {
                PollAction::Sleep
            },
            (PollAction::Sleep, PollAnswer::Slept) => self.round(),
            _ => action,
        }
    }

    /// The action that some answers lead to.
    pub open spec fn after(&self, answers: Seq<PollAnswer>) -> PollAction
        decreases answers.len(),
    {
        if answers.len() == 0 {
            self.round()
        } else {
            self.next(self.after(answers.drop_last()), answers.last())
        }
    }

    /// A wait for `count` sockets that ends after `timeout_secs` seconds.
    pub fn new(count: usize, timeout_secs: u64) -> (poll: SocketPoll)
        ensures
            poll.count == count,
            poll.deadline_nanos == timeout_secs * 1_000_000_000,
    {
        SocketPoll { count, deadline_nanos: timeout_secs as u128 * 1_000_000_000 }
    }

    /// The first action of the wait.
    pub fn start(&self) -> (action: PollAction)
        ensures
            action == self.round(),
    {
        if self.count == 0 {
            PollAction::Ready
        } else {
            PollAction::Probe(0)
        }
    }

    /// The next action after `action`, given what came of it.
    pub fn step(&self, action: PollAction, answer: PollAnswer) -> (next: PollAction)
        ensures
            next == self.next(action, answer),
    {
        match (action, answer) {
            (PollAction::Probe(i), PollAnswer::Probed(alive)) => {
                if !alive {
                    PollAction::CheckClock
                } else if i < self.count && i + 1 < self.count {
                    PollAction::Probe(i + 1)
                } else {
                    PollAction::Ready
                }
            },
            (PollAction::CheckClock, PollAnswer::Elapsed(nanos)) => {
                if nanos >= self.deadline_nanos {
                    PollAction::TimedOut
                } else {
                    PollAction::Sleep
                }
            },
            (PollAction::Sleep, PollAnswer::Slept) => self.start(),
            _ => action,
        }
    }
}

/// The wait before the sockets are checked: there is one exactly if it is asked for, for all
/// platforms and the time that is given.
pub fn wait_plan(config: &StatusConfig) -> (plan: Option<SocketPoll>)
    ensures
        config.wait <==> plan is Some,
        plan matches Some(p) ==> p.count == config.platforms@.len() && p.deadline_nanos
            == config.timeout_secs * 1_000_000_000,
{
    if config.wait {
        Some(SocketPoll::new(config.platforms.len(), config.timeout_secs))
    } else {
        None
    }
}

/// Whether `answer` is what came of `action`.
pub open spec fn answers_question(action: PollAction, answer: PollAnswer) -> bool {
    match action {
        PollAction::Probe(_) => answer is Probed,
        PollAction::CheckClock => answer is Elapsed,
        PollAction::Sleep => answer is Slept,
        _ => false,
    }
}

/// Whether each of `answers` is what came of the action that the answers before it lead to.
pub open spec fn is_conversation(poll: SocketPoll, answers: Seq<PollAnswer>) -> bool {
    forall|n: int|
        0 <= n < answers.len() ==> answers_question(
            poll.after(answers.take(n)),
            #[trigger] answers[n],
        )
}

/// Whether the last `n` answers all found a socket alive.
pub open spec fn found_alive(answers: Seq<PollAnswer>, n: int) -> bool {
    &&& answers.len() >= n
    &&& forall|k: int|
        answers.len() - n <= k < answers.len() ==> #[trigger] answers[k] == PollAnswer::Probed(true)
}

/// Whether `answers` are a reason for `action`: to be ready, that every socket was found alive
/// in one round; to have timed out, that a socket was found dead when the time was up; to sleep,
/// that there is time left.
pub open spec fn is_reason(
    poll: SocketPoll,
    answers: Seq<PollAnswer>,
    action: PollAction,
) -> bool {
    let n = answers.len() as int;
    match action {
        PollAction::Probe(i) => i < poll.count && found_alive(answers, i as int),
        PollAction::Ready => found_alive(answers, poll.count as int),
        PollAction::CheckClock => n >= 1 && answers[n - 1] == PollAnswer::Probed(false),
        PollAction::TimedOut => n >= 2 && answers[n - 2] == PollAnswer::Probed(false) && (
        answers[n - 1] matches PollAnswer::Elapsed(nanos) && nanos >= poll.deadline_nanos),
        PollAction::Sleep => n >= 2 && answers[n - 2] == PollAnswer::Probed(false) && (answers[n
            - 1] matches PollAnswer::Elapsed(nanos) && nanos < poll.deadline_nanos),
    }
}

/// One more answer is a reason for the action that it leads to.
proof fn lemma_next_has_reason(
    poll: SocketPoll,
    before: Seq<PollAnswer>,
    action: PollAction,
    answer: PollAnswer,
)
    requires
        is_reason(poll, before, action),
        answers_question(action, answer),
    ensures
        is_reason(poll, before.push(answer), poll.next(action, answer)),
{
    let answers = before.push(answer);
    assert(answers[answers.len() - 1] == answer);
    if let PollAction::Probe(i) = action {
        if answer == PollAnswer::Probed(true) {
            assert forall|k: int|
                answers.len() - (i + 1) <= k < answers.len() implies #[trigger] answers[k]
                == PollAnswer::Probed(true) by {
                if k < before.len() {
                    assert(answers[k] == before[k]);
                }
            }
            assert(found_alive(answers, i + 1));
        }
    }
}

/// Whatever the wait leads to has a reason in what was found: it is ready only if every socket
/// was found alive in one round, times out only if a socket was found dead when the time was up,
/// and sleeps only while there is time left.
pub proof fn waiting_ends_for_a_reason(poll: SocketPoll, answers: Seq<PollAnswer>)
    requires
        is_conversation(poll, answers),
    ensures
        is_reason(poll, answers, poll.after(answers)),
    decreases answers.len(),
{
    if answers.len() > 0 {
        let before = answers.drop_last();
        let n = answers.len() - 1;
        assert(answers.take(n) =~= before);
        assert(answers_question(poll.after(answers.take(n)), answers[n]));
        assert(is_conversation(poll, before)) by {
            assert forall|m: int| 0 <= m < before.len() implies answers_question(
                poll.after(before.take(m)),
                #[trigger] before[m],
            ) by {
                assert(before.take(m) =~= answers.take(m));
                assert(before[m] == answers[m]);
            }
        }
        waiting_ends_for_a_reason(poll, before);
        lemma_next_has_reason(poll, before, poll.after(before), answers.last());
        assert(before.push(answers.last()) =~= answers);
    }
}

/// A round in which every socket is found alive ends the wait as ready.
pub proof fn live_round_ends_the_wait(poll: SocketPoll, answers: Seq<PollAnswer>, n: nat)
    requires
        poll.after(answers) == poll.round(),
        n <= poll.count,
    ensures
        poll.after(answers + Seq::new(n, |i: int| PollAnswer::Probed(true))) == if n < poll.count {
            PollAction::Probe(n as usize)
        } else {
            PollAction::Ready
        },
    decreases n,
{
    let alive = Seq::new(n, |i: int| PollAnswer::Probed(true));
    if n == 0 {
        assert(answers + alive =~= answers);
    } else {
        let fewer = Seq::new((n - 1) as nat, |i: int| PollAnswer::Probed(true));
        live_round_ends_the_wait(poll, answers, (n - 1) as nat);
        assert((answers + alive).drop_last() =~= answers + fewer);
        assert((answers + alive).last() == PollAnswer::Probed(true));
    }
}

/// One or more of the sockets are not ready.
#[derive(Debug, Clone, Copy, PartialEq, Eq, Structural)]
pub enum StatusError {
    NotReady,
}

impl StatusError {
    /// The message that describes this error.
    pub fn to_string(&self) -> (message: String)
        ensures
            message@ == "one or more bridge sockets are not ready"@,
    {
        "one or more bridge sockets are not ready".to_owned()
    }
}

/// The line about a socket.
pub open spec fn status_text(platform: Seq<char>, socket: Seq<u8>, alive: bool) -> Seq<char> {
    "  "@ + platform + " → "@ + encoding::shown(socket) + " "@ + if alive {
        "✓ Ready"@
    } else {
        "✗ Not connected"@
    }
}

/// The line about a socket that was found alive or not.
pub fn status_line(platform: &str, socket: &FsPath, alive: bool) -> (line: Line)
    ensures
        line@ == console::out(status_text(platform@, socket@, alive)),
{
    let state: &str = if alive {
        "✓ Ready"
    } else {
        "✗ Not connected"
    };
    Line::Stdout(
        "  ".to_owned().concat(platform).concat(" → ").concat(socket.display().as_str()).concat(
            " ",
        ).concat(state),
    )
}

/// The lines about the sockets, one for each of them, in order.
pub fn status_lines(sockets: &Vec<(String, FsPath)>, alive: &Vec<bool>) -> (lines: Vec<Line>)
    requires
        sockets@.len() == alive@.len(),
    ensures
        console::printed(lines@) == Seq::new(
            sockets@.len(),
            |i: int|
                console::out(
                    status_text(
                        listed_sockets(sockets@)[i].0,
                        listed_sockets(sockets@)[i].1,
                        alive@[i],
                    ),
                ),
        ),
{
    let mut lines: Vec<Line> = Vec::new();
    let mut i: usize = 0;
    while i < sockets.len()
        invariant
            i <= sockets@.len(),
            sockets@.len() == alive@.len(),
            lines@.len() == i,
            forall|j: int|
                0 <= j < i ==> (#[trigger] lines@[j])@ == console::out(
                    status_text(sockets@[j].0@, sockets@[j].1@, alive@[j]),
                ),
        decreases sockets@.len() - i,
    {
        lines.push(status_line(sockets[i].0.as_str(), &sockets[i].1, alive[i]));
        i = i + 1;
    }
    assert(console::printed(lines@) =~= Seq::new(
        sockets@.len(),
        |i: int|
            console::out(
                status_text(
                    listed_sockets(sockets@)[i].0,
                    listed_sockets(sockets@)[i].1,
                    alive@[i],
                ),
            ),
    ));
    lines
}

/// Whether all sockets were found alive.
fn all_alive(alive: &Vec<bool>) -> (res: bool)
    ensures
        res == forall|i: int| 0 <= i < alive@.len() ==> #[trigger] alive@[i],
{
    let mut i: usize = 0;
    while i < alive.len()
        invariant
            i <= alive@.len(),
            forall|j: int| 0 <= j < i ==> #[trigger] alive@[j],
        decreases alive@.len() - i,
    {
        if !alive[i] {
            assert(!alive@[i as int]);
            return false;
        }
        i = i + 1;
    }
    true
}

/// What a check prints and how it ends, given which of the sockets for the platforms were found
/// alive: there is one line for each platform, in order, and the check succeeds exactly if all
/// sockets were.
pub fn run_status(config: &StatusConfig, alive: &Vec<bool>) -> (report: (
    Vec<Line>,
    Result<(), StatusError>,
))
    requires
        forall|i: int|
            0 <= i < config.platforms@.len() ==> (#[trigger] config.platforms@[i])@.contains('/'),
        config.platforms@.len() == alive@.len(),
    ensures
        console::printed(report.0@) == Seq::new(
            config.platforms@.len(),
            |i: int|
                console::out(
                    status_text(
                        config.platforms@[i]@,
                        docker::socket_path(config.socket_dir@, config.platforms@[i]@),
                        alive@[i],
                    ),
                ),
        ),
        report.1 == if forall|i: int| 0 <= i < alive@.len() ==> #[trigger] alive@[i] {
            Ok::<(), StatusError>(())
        } else {
            Err::<(), StatusError>(StatusError::NotReady)
        },
{
    let sockets: Vec<(String, FsPath)> = socket_paths(&config.platforms, &config.socket_dir);
    assert(listed_sockets(sockets@).len() == sockets@.len());
    let lines: Vec<Line> = status_lines(&sockets, alive);
    assert(console::printed(lines@) =~= Seq::new(
        config.platforms@.len(),
        |i: int|
            console::out(
                status_text(
                    config.platforms@[i]@,
                    docker::socket_path(config.socket_dir@, config.platforms@[i]@),
                    alive@[i],
                ),
            ),
    ));
    if all_alive(alive) {
        (lines, Ok(()))
    } else {
        (lines, Err(StatusError::NotReady))
    }
}

/// A list of sockets holds the platforms and the paths of all its sockets, in order.
pub proof fn all_sockets_are_listed(sockets: Seq<(String, FsPath)>)
    ensures
        listed_sockets(sockets).len() == sockets.len(),
        forall|i: int|
            0 <= i < sockets.len() ==> #[trigger] listed_sockets(sockets)[i] == (
                sockets[i].0@,
                sockets[i].1@,
            ),
{
}

/// How the wait goes on: the sockets are probed one after the other, from the first one on, as
/// long as they are alive. A dead one leads to the clock; if the time is up the wait ends there,
/// and otherwise a sleep comes, and then a new round. What does not answer the question changes
/// nothing.
pub proof fn waiting_goes_round_by_round(
    poll: SocketPoll,
    i: usize,
    nanos: u128,
    action: PollAction,
    answer: PollAnswer,
)
    ensures
        poll.round() == if poll.count > 0 {
            PollAction::Probe(0)
        } else {
            PollAction::Ready
        },
        poll.after(Seq::empty()) == poll.round(),
        poll.next(PollAction::Probe(i), PollAnswer::Probed(false)) == PollAction::CheckClock,
        i + 1 < poll.count ==> poll.next(PollAction::Probe(i), PollAnswer::Probed(true))
            == PollAction::Probe((i + 1) as usize),
        i + 1 >= poll.count ==> poll.next(PollAction::Probe(i), PollAnswer::Probed(true))
            == PollAction::Ready,
        poll.next(PollAction::CheckClock, PollAnswer::Elapsed(nanos)) is TimedOut <==> nanos
            >= poll.deadline_nanos,
        poll.next(PollAction::CheckClock, PollAnswer::Elapsed(nanos)) is Sleep <==> nanos
            < poll.deadline_nanos,
        poll.next(PollAction::Sleep, PollAnswer::Slept) == poll.round(),
        !answers_question(action, answer) ==> poll.next(action, answer) == action,
{
}

/// The line about a socket names the platform and the socket, and says whether it is ready.
pub proof fn status_lines_say_what_is_ready(platform: Seq<char>, socket: Seq<u8>)
    ensures
        status_text(platform, socket, true) == "  "@ + platform + " → "@ + encoding::shown(socket)
            + " "@ + "✓ Ready"@,
        status_text(platform, socket, false) == "  "@ + platform + " → "@ + encoding::shown(socket)
            + " "@ + "✗ Not connected"@,
{
}

/// How long a socket may take to answer, how long a sleep is, and what is printed during the wait.
pub proof fn sockets_are_probed_twice_a_second()
    ensures
        CONNECT_TIMEOUT_MILLIS == 500,
        POLL_INTERVAL_MILLIS == 500,
        WAITING_TEXT@ == "Waiting for bridges "@,
        TICK_TEXT@ == "."@,
        READY_TEXT@ == " ready!"@,
        TIMED_OUT_TEXT@ == " timed out!"@,
{
}

} // verus!
