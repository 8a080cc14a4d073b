use vstd::prelude::*;

verus! {

/// Name of the bundled worker executable.
pub const WORKER_NAME: &'static str = "server";

/// Name of the document file inside the application's data directory.
pub const STORAGE_FILE_NAME: &'static str = "database.sqlite";

/// Lifecycle of the supervised worker.
#[derive(PartialEq, Eq, Structural, Clone, Copy, Debug)]
pub enum Phase {
    NotStarted,
    Spawning,
    Running { pid: u32 },
    /// The worker ended by itself; observed, not commanded.
    Exited { code: Option<i32> },
    /// Terminated on the supervisor's request.
    Killed,
    /// Shut down before any worker was running.
    Stopped,
    /// The worker could not be started.
    Failed,
}

/// What happens to the worker, as the host sees it.
#[derive(PartialEq, Eq, Structural, Clone, Copy, Debug)]
pub enum Event {
    Spawned { pid: u32 },
    SpawnFailed,
    Exited { code: Option<i32> },
    Shutdown,
}

/// What the host must do next.
#[derive(PartialEq, Eq, Structural, Clone, Copy, Debug)]
pub enum Command {
    Nothing,
    /// Send one termination request to the process `pid`.
    Kill { pid: u32 },
    /// The worker cannot start: abort host startup.
    Abort,
}

/// The supervisor's decision on `e` in phase `p`: the next phase and the
/// command to carry out. Events that do not apply to a phase change nothing.
pub open spec fn next(p: Phase, e: Event) -> (Phase, Command) {
    match (p, e) {
        (Phase::Spawning, Event::Spawned { pid }) => (Phase::Running { pid }, Command::Nothing),
        (Phase::Spawning, Event::SpawnFailed) => (Phase::Failed, Command::Abort),
        (Phase::Spawning, Event::Shutdown) => (Phase::Stopped, Command::Nothing),
        (Phase::NotStarted, Event::Shutdown) => (Phase::Stopped, Command::Nothing),
        // a worker that comes up after shutdown is ended at once
        (Phase::Stopped, Event::Spawned { pid }) => (Phase::Stopped, Command::Kill { pid }),
        (Phase::Running { pid }, Event::Exited { code }) => (Phase::Exited { code }, Command::Nothing),
        (Phase::Running { pid }, Event::Shutdown) => (Phase::Killed, Command::Kill { pid }),
        _ => (p, Command::Nothing),
    }
}

/// The worker's arguments: the storage location, passed explicitly.
pub open spec fn worker_args_of(db_path: Seq<char>) -> Seq<Seq<char>> {
    seq!["--db-path"@, db_path]
}

/// Owns the worker's lifecycle; the host keeps it behind one lock together
/// with the process handle, so shutdown and a natural exit are serialized.
pub struct Supervisor {
    phase: Phase,
}

impl View for Supervisor {
    type V = Phase;

    closed spec fn view(&self) -> Phase {
        self.phase
    }
}

impl Supervisor {
    pub fn new() -> (s: Supervisor)
        ensures
            s@ == Phase::NotStarted,
    {
        Supervisor { phase: Phase::NotStarted }
    }

    pub fn phase(&self) -> (p: Phase)
        ensures
            p == self@,
    {
        self.phase
    }

    /// Begins the worker's launch: returns the arguments to spawn it with,
    /// or `None` when it was launched (or shut down) already.
    pub fn start(&mut self, db_path: &str) -> (r: Option<Vec<String>>)
        ensures
            old(self)@ == Phase::NotStarted ==> final(self)@ == Phase::Spawning && (r matches Some(
                args,
            ) && args@.map_values(|a: String| a@) == worker_args_of(db_path@)),
            old(self)@ != Phase::NotStarted ==> final(self)@ == old(self)@ && r is None,
    {
        if self.phase == Phase::NotStarted {
            self.phase = Phase::Spawning;
            let mut args: Vec<String> = Vec::new();
            args.push("--db-path".to_string());
            args.push(db_path.to_string());
            assert(args@.map_values(|a: String| a@) =~= worker_args_of(db_path@));
            Some(args)
        } else {
            None
        }
    }

    /// Takes the decision on `e` and moves to the next phase.
    pub fn handle(&mut self, e: Event) -> (c: Command)
        ensures
            (final(self)@, c) == next(old(self)@, e),
    {
        match (self.phase, e) {
            (Phase::Spawning, Event::Spawned { pid }) => {
                self.phase = Phase::Running { pid };
                Command::Nothing
            },
            (Phase::Spawning, Event::SpawnFailed) => {
                self.phase = Phase::Failed;
                Command::Abort
            },
            (Phase::Spawning, Event::Shutdown) | (Phase::NotStarted, Event::Shutdown) => {
                self.phase = Phase::Stopped;
                Command::Nothing
            },
            (Phase::Stopped, Event::Spawned { pid }) => Command::Kill { pid },
            (Phase::Running { pid: _ }, Event::Exited { code }) => {
                self.phase = Phase::Exited { code };
                Command::Nothing
            },
            (Phase::Running { pid }, Event::Shutdown) => {
                self.phase = Phase::Killed;
                Command::Kill { pid }
            },
            _ => Command::Nothing,
        }
    }

    /// Host teardown: asks for the worker's termination if it is running.
    pub fn shutdown(&mut self) -> (c: Command)
        ensures
            (final(self)@, c) == next(old(self)@, Event::Shutdown),
    {
        self.handle(Event::Shutdown)
    }
}

/// Once shut down, the worker is not running nor about to be, and a second
/// shutdown changes nothing and sends no second termination request. A
/// termination request goes out exactly when a worker was running.
pub proof fn lemma_shutdown_idempotent(p: Phase)
    ensures
        ({
            let (p1, c1) = next(p, Event::Shutdown);
            &&& !(p1 is Running) && !(p1 is Spawning) && !(p1 is NotStarted)
            &&& next(p1, Event::Shutdown) == (p1, Command::Nothing)
            &&& (c1 is Kill <==> p is Running)
            &&& (p matches Phase::Running { pid } ==> c1 == Command::Kill { pid })
        }),
{
}

/// An exit observed before shutdown leaves nothing to terminate.
pub proof fn lemma_no_kill_after_exit(pid: u32, code: Option<i32>)
    ensures
        ({
            let (p1, _) = next(Phase::Running { pid }, Event::Exited { code });
            next(p1, Event::Shutdown) == (p1, Command::Nothing)
        }),
{
}

/// Which stream of the worker a line came from.
#[derive(PartialEq, Eq, Structural, Clone, Copy, Debug)]
pub enum Stream {
    Stdout,
    Stderr,
}

#[derive(PartialEq, Eq, Structural, Clone, Copy, Debug)]
pub enum Level {
    Info,
    Error,
}

/// One worker output line, ready for the log sink.
#[derive(Clone, Debug, PartialEq, Eq)]
pub struct LogLine {
    pub level: Level,
    pub message: String,
}

pub open spec fn log_level(s: Stream) -> Level {
    match s {
        Stream::Stdout => Level::Info,
        Stream::Stderr => Level::Error,
    }
}

pub open spec fn log_prefix(s: Stream) -> Seq<char> {
    match s {
        Stream::Stdout => "Sidecar: "@,
        Stream::Stderr => "Sidecar Error: "@,
    }
}

/// Tags a worker output line by its stream: standard output is logged as
/// information, standard error as an error.
pub fn log_line(stream: Stream, line: &str) -> (r: LogLine)
    ensures
        r.level == log_level(stream),
        r.message@ == log_prefix(stream) + line@,
{
    match stream {
        Stream::Stdout => LogLine {
            level: Level::Info,
            message: String::from_str("Sidecar: ").concat(line),
        },
        Stream::Stderr => LogLine {
            level: Level::Error,
            message: String::from_str("Sidecar Error: ").concat(line),
        },
    }
}

} // verus!
