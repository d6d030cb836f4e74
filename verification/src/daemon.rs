//! The commands of the program, and how the background process is started, stopped and asked for.
//!
//! A command on the background process is a machine that is told what happened and answers what is
//! to be done next. Files, processes and signals are outside.
use vstd::prelude::*;
use vstd::string::StringExecFns;

use crate::config::{AppConfig, ConfigView};
use crate::number::to_decimal;
use crate::process::{daemon_process_matches, read_pid, render_pid, DAEMON_WORKER};
use crate::text::same_text;

verus! {

/// The file with the configuration, in the working directory.
pub const CONFIG_FILE: &'static str = "config.yaml";

/// The file with the process id of the background process, in the working directory.
pub const PID_FILE: &'static str = "vorto.pid";

/// The file that the background process writes its output to, in the working directory.
pub const LOG_FILE: &'static str = "vorto.log";

/// How long the background process waits between two looks at the configuration file, in seconds.
pub const DEFAULT_POLL_SECS: u64 = 2;

/// What the program is asked to do.
#[derive(Debug, Clone, Copy, PartialEq, Eq, Structural)]
pub enum Command {
    /// Edit the configuration.
    Config,
    /// Run in the foreground.
    Run,
    /// Start the background process.
    Daemon,
    /// Stop the background process.
    Stop,
    /// Tell whether the background process runs.
    Status,
    /// Show the version.
    Version,
    /// Show how the program is used.
    Help,
    /// Be the background process.
    Worker,
}

/// What the first argument asks for. Without one, or with one that is not known, it is help.
pub open spec fn command_of(argument: Option<Seq<char>>) -> Command {
    match argument {
        None => Command::Help,
        Some(word) => if word == "config"@ || word == "create"@ {
            Command::Config
        } else if word == "run"@ {
            Command::Run
        } else if word == "daemon"@ {
            Command::Daemon
        } else if word == "stop"@ {
            Command::Stop
        } else if word == "status"@ {
            Command::Status
        } else if word == "version"@ || word == "-V"@ || word == "--version"@ {
            Command::Version
        } else if word == DAEMON_WORKER@ {
            Command::Worker
        } else {
            Command::Help
        },
    }
}

/// Reads the first argument.
pub fn entry(argument: Option<&str>) -> (r: Command)
    ensures
        r == command_of(
            match argument {
                Some(word) => Some(word@),
                None => None,
            },
        ),
{
    match argument {
        None => Command::Help,
        Some(word) => if same_text(word, "config") || same_text(word, "create") {
            Command::Config
        } else if same_text(word, "run") {
            Command::Run
        } else if same_text(word, "daemon") {
            Command::Daemon
        } else if same_text(word, "stop") {
            Command::Stop
        } else if same_text(word, "status") {
            Command::Status
        } else if same_text(word, "version") || same_text(word, "-V") || same_text(
            word,
            "--version",
        ) {
            Command::Version
        } else if same_text(word, DAEMON_WORKER) {
            Command::Worker
        } else {
            Command::Help
        },
    }
}

/// How the program is used.
pub open spec fn help() -> Seq<Seq<char>> {
    seq![
        "Usage:"@,
        "  ./vorto config   Interactively manage tunnels in ./config.yaml"@,
        "  ./vorto run      Run in the foreground (./config.yaml)"@,
        "  ./vorto daemon   Run in the background (hot-reload ./config.yaml changes)"@,
        "  ./vorto stop     Stop the background process"@,
        "  ./vorto status   Show background process status"@,
        "  ./vorto version  Show release, commit, and repository information"@,
        "  ./vorto help     Show this help message"@,
    ]
}

/// Writes how the program is used.
pub fn print_help() -> (r: Vec<String>)
    ensures
        crate::text::texts(r@) == help(),
{
    let mut r: Vec<String> = Vec::new();
    r.push("Usage:".to_owned());
    r.push("  ./vorto config   Interactively manage tunnels in ./config.yaml".to_owned());
    r.push("  ./vorto run      Run in the foreground (./config.yaml)".to_owned());
    r.push("  ./vorto daemon   Run in the background (hot-reload ./config.yaml changes)".to_owned());
    r.push("  ./vorto stop     Stop the background process".to_owned());
    r.push("  ./vorto status   Show background process status".to_owned());
    r.push("  ./vorto version  Show release, commit, and repository information".to_owned());
    r.push("  ./vorto help     Show this help message".to_owned());
    assert(crate::text::texts(r@) =~= help());
    r
}

/// What is asked about the background process.
#[derive(Debug, Clone, Copy, PartialEq, Eq, Structural)]
pub enum Order {
    Start,
    Stop,
    Status,
}

/// A process: its command line, with a zero byte behind each argument, and the name of the program
/// that looks at it.
#[derive(Debug)]
pub struct ProcessInfo {
    pub cmdline: Vec<u8>,
    pub binary_name: String,
}

/// What a `ProcessInfo` holds.
pub struct ProcessView {
    pub cmdline: Seq<u8>,
    pub binary_name: Seq<char>,
}

impl View for ProcessInfo {
    type V = ProcessView;

    open spec fn view(&self) -> ProcessView {
        ProcessView { cmdline: self.cmdline@, binary_name: self.binary_name@ }
    }
}

/// What happened. Each outcome is an error where the step failed.
#[derive(Debug)]
pub enum ControlEvent {
    /// The file with the process id was read; there may be none.
    PidRead { content: Result<Option<String>, String> },
    /// The process was looked for; there may be none.
    Probed { process: Result<Option<ProcessInfo>, String> },
    /// The configuration was loaded.
    Loaded { config: Result<AppConfig, String> },
    /// The background process was launched, with this process id.
    Launched { child: Result<u32, String> },
    /// The process id was written to its file.
    Recorded { written: Result<(), String> },
    /// The process was told to end.
    Signalled { sent: Result<(), String> },
}

/// What a `ControlEvent` holds.
pub enum ControlEventView {
    PidRead { content: Result<Option<Seq<char>>, Seq<char>> },
    Probed { process: Result<Option<ProcessView>, Seq<char>> },
    Loaded { config: Result<ConfigView, Seq<char>> },
    Launched { child: Result<nat, Seq<char>> },
    Recorded { written: Result<(), Seq<char>> },
    Signalled { sent: Result<(), Seq<char>> },
}

impl View for ControlEvent {
    type V = ControlEventView;

    open spec fn view(&self) -> ControlEventView {
        match self {
            ControlEvent::PidRead { content } => ControlEventView::PidRead {
                content: match content {
                    Ok(Some(text)) => Ok(Some(text@)),
                    Ok(None) => Ok(None),
                    Err(e) => Err(e@),
                },
            },
            ControlEvent::Probed { process } => ControlEventView::Probed {
                process: match process {
                    Ok(Some(info)) => Ok(Some(info@)),
                    Ok(None) => Ok(None),
                    Err(e) => Err(e@),
                },
            },
            ControlEvent::Loaded { config } => ControlEventView::Loaded {
                config: match config {
                    Ok(config) => Ok(config@),
                    Err(e) => Err(e@),
                },
            },
            ControlEvent::Launched { child } => ControlEventView::Launched {
                child: match child {
                    Ok(pid) => Ok(*pid as nat),
                    Err(e) => Err(e@),
                },
            },
            ControlEvent::Recorded { written } => ControlEventView::Recorded {
                written: crate::supervisor::outcome_view(*written),
            },
            ControlEvent::Signalled { sent } => ControlEventView::Signalled {
                sent: crate::supervisor::outcome_view(*sent),
            },
        }
    }
}

/// What is to be done.
#[derive(Debug)]
pub enum ControlAction {
    /// Read the file with the process id.
    ReadPid,
    /// Look for the process `pid`.
    Probe { pid: i32 },
    /// Load the configuration. Where `stale` is set, remove the file with the process id first.
    Load { stale: bool },
    /// Launch the background process. Where `log` is set, its output goes to the log file, else
    /// it is discarded.
    Launch { log: bool },
    /// Write `text` to the file with the process id.
    Record { text: String },
    /// Tell the process `pid` to end.
    Signal { pid: i32 },
    /// Remove the file with the process id where `stale` is set, show the line, and end.
    End { stale: bool, outcome: Result<String, String> },
    /// Nothing: what happened was not waited for.
    Nothing,
}

/// What a `ControlAction` holds.
pub enum ControlActionView {
    ReadPid,
    Probe { pid: int },
    Load { stale: bool },
    Launch { log: bool },
    Record { text: Seq<char> },
    Signal { pid: int },
    End { stale: bool, outcome: Result<Seq<char>, Seq<char>> },
    Nothing,
}

impl View for ControlAction {
    type V = ControlActionView;

    open spec fn view(&self) -> ControlActionView {
        match self {
            ControlAction::ReadPid => ControlActionView::ReadPid,
            ControlAction::Probe { pid } => ControlActionView::Probe { pid: *pid as int },
            ControlAction::Load { stale } => ControlActionView::Load { stale: *stale },
            ControlAction::Launch { log } => ControlActionView::Launch { log: *log },
            ControlAction::Record { text } => ControlActionView::Record { text: text@ },
            ControlAction::Signal { pid } => ControlActionView::Signal { pid: *pid as int },
            ControlAction::End { stale, outcome } => ControlActionView::End {
                stale: *stale,
                outcome: match outcome {
                    Ok(line) => Ok(line@),
                    Err(e) => Err(e@),
                },
            },
            ControlAction::Nothing => ControlActionView::Nothing,
        }
    }
}

/// What is waited for.
#[derive(Debug, Clone, Copy)]
pub enum ControlPhase {
    /// For the file with the process id.
    ReadingPid,
    /// For a look at the process `pid`.
    Probing { pid: i32 },
    /// For the configuration.
    Loading,
    /// For the background process to be launched.
    Launching { log: bool },
    /// For the process id to be written.
    Recording { child: u32, log: bool },
    /// For the process `pid` to be told to end.
    Signalling { pid: i32 },
    /// For nothing.
    Over,
}

/// What a `ControlPhase` holds.
pub enum ControlPhaseView {
    ReadingPid,
    Probing { pid: int },
    Loading,
    Launching { log: bool },
    Recording { child: nat, log: bool },
    Signalling { pid: int },
    Over,
}

impl View for ControlPhase {
    type V = ControlPhaseView;

    open spec fn view(&self) -> ControlPhaseView {
        match self {
            ControlPhase::ReadingPid => ControlPhaseView::ReadingPid,
            ControlPhase::Probing { pid } => ControlPhaseView::Probing { pid: *pid as int },
            ControlPhase::Loading => ControlPhaseView::Loading,
            ControlPhase::Launching { log } => ControlPhaseView::Launching { log: *log },
            ControlPhase::Recording { child, log } => ControlPhaseView::Recording {
                child: *child as nat,
                log: *log,
            },
            ControlPhase::Signalling { pid } => ControlPhaseView::Signalling { pid: *pid as int },
            ControlPhase::Over => ControlPhaseView::Over,
        }
    }
}

/// A command on the background process, under way. `log_path` is the log file as it is shown.
#[derive(Debug)]
pub struct DaemonControl {
    order: Order,
    log_path: String,
    phase: ControlPhase,
}

/// What a `DaemonControl` holds.
pub struct ControlView {
    pub order: Order,
    pub log_path: Seq<char>,
    pub phase: ControlPhaseView,
}

impl View for DaemonControl {
    type V = ControlView;

    closed spec fn view(&self) -> ControlView {
        ControlView { order: self.order, log_path: self.log_path@, phase: self.phase@ }
    }
}

/// A process id in decimal, with its sign.
pub open spec fn pid_digits(pid: int) -> Seq<char> {
    if pid < 0 {
        "-"@ + crate::number::decimal((-pid) as nat)
    } else {
        crate::number::decimal(pid as nat)
    }
}

/// Whether the process that was looked for is a daemon of this program.
pub open spec fn is_daemon(process: Option<ProcessView>) -> bool {
    process matches Some(p) && crate::process::worker_cmdline(p.cmdline, p.binary_name)
}

impl ControlView {
    /// The same command in the phase `phase`.
    pub open spec fn to(self, phase: ControlPhaseView) -> ControlView {
        ControlView { order: self.order, log_path: self.log_path, phase }
    }

    /// The end of the command.
    pub open spec fn end(self, stale: bool, outcome: Result<Seq<char>, Seq<char>>) -> (
        ControlView,
        ControlActionView,
    ) {
        (self.to(ControlPhaseView::Over), ControlActionView::End { stale, outcome })
    }

    /// What follows where the file with the process id was read.
    pub open spec fn on_pid(self, content: Option<Seq<char>>) -> (ControlView, ControlActionView) {
        match crate::process::pid_on_file(content) {
            Err(error) => self.end(false, Err(error)),
            Ok(Some(pid)) => (
                self.to(ControlPhaseView::Probing { pid }),
                ControlActionView::Probe { pid },
            ),
            Ok(None) => match self.order {
                Order::Start => (
                    self.to(ControlPhaseView::Loading),
                    ControlActionView::Load { stale: false },
                ),
                _ => self.end(false, Ok("Daemon is not running."@)),
            },
        }
    }

    /// What follows where the process on file was looked for. `found` says whether it is a daemon
    /// of this program.
    pub open spec fn on_probe(self, pid: int, found: bool) -> (ControlView, ControlActionView) {
        let lost = "The PID file does not point to a running daemon for this executable."@;
        match self.order {
            Order::Start => if found {
                self.end(
                    false,
                    Ok("Daemon is already running with PID "@ + pid_digits(pid) + "."@),
                )
            } else {
                (
                    self.to(ControlPhaseView::Loading),
                    ControlActionView::Load { stale: true },
                )
            },
            Order::Stop => if found {
                (
                    self.to(ControlPhaseView::Signalling { pid }),
                    ControlActionView::Signal { pid },
                )
            } else {
                self.end(true, Ok(lost))
            },
            Order::Status => if found {
                self.end(false, Ok("Daemon is running with PID "@ + pid_digits(pid) + "."@))
            } else {
                self.end(false, Ok(lost))
            },
        }
    }

    /// What is shown where the background process was started.
    pub open spec fn started(self, child: nat, log: bool) -> Seq<char> {
        "Daemon started with PID "@ + crate::number::decimal(child) + (if log {
            ". Log file: "@ + self.log_path
        } else {
            "."@
        })
    }

    /// What the command becomes, and does, on an event. One that it does not wait for changes
    /// nothing.
    pub open spec fn next(self, event: ControlEventView) -> (ControlView, ControlActionView) {
        match (self.phase, event) {
            (ControlPhaseView::ReadingPid, ControlEventView::PidRead { content }) =>
                match content {
                    Ok(content) => self.on_pid(content),
                    Err(error) => self.end(false, Err(error)),
                },
            (ControlPhaseView::Probing { pid }, ControlEventView::Probed { process }) =>
                match process {
                    Ok(process) => self.on_probe(pid, is_daemon(process)),
                    Err(error) => self.end(false, Err(error)),
                },
            (ControlPhaseView::Loading, ControlEventView::Loaded { config }) => match config {
                Ok(config) => (
                    self.to(ControlPhaseView::Launching { log: config.daemon_log }),
                    ControlActionView::Launch { log: config.daemon_log },
                ),
                Err(error) => self.end(false, Err(error)),
            },
            (ControlPhaseView::Launching { log }, ControlEventView::Launched { child }) =>
                match child {
                    Ok(child) => (
                        self.to(ControlPhaseView::Recording { child, log }),
                        ControlActionView::Record { text: crate::process::pid_text(child) },
                    ),
                    Err(error) => self.end(false, Err(error)),
                },
            (
                ControlPhaseView::Recording { child, log },
                ControlEventView::Recorded { written },
            ) => match written {
                Ok(()) => self.end(false, Ok(self.started(child, log))),
                Err(error) => self.end(false, Err(error)),
            },
            (ControlPhaseView::Signalling { pid }, ControlEventView::Signalled { sent }) =>
                match sent {
                    Ok(()) => self.end(
                        false,
                        Ok("Sent a stop signal to PID "@ + pid_digits(pid) + "."@),
                    ),
                    Err(error) => self.end(false, Err(error)),
                },
            _ => (self, ControlActionView::Nothing),
        }
    }
}

/// A process is told to end only where it was found to be a daemon of this program, and a daemon is
/// launched only where the configuration was loaded.
pub proof fn only_the_daemon_is_signalled(v: ControlView, event: ControlEventView)
    ensures
        v.next(event).1 matches ControlActionView::Signal { pid } ==> {
            &&& v.order is Stop
            &&& v.phase == (ControlPhaseView::Probing { pid })
            &&& event matches ControlEventView::Probed { process: Ok(process) }
            &&& is_daemon(process)
        },
        v.next(event).1 matches ControlActionView::Launch { log } ==> {
            &&& v.phase is Loading
            &&& event matches ControlEventView::Loaded { config: Ok(config) }
            &&& log == config.daemon_log
        },
{
}

/// A daemon writes to the log file exactly where the configuration says so, and the log file is
/// named exactly then.
pub proof fn daemon_logs_as_configured(v: ControlView, config: ConfigView, child: nat)
    requires
        v.phase is Loading,
    ensures
        ({
            let log = config.daemon_log;
            let (launching, launch) = v.next(ControlEventView::Loaded { config: Ok(config) });
            let (recording, _) = launching.next(ControlEventView::Launched { child: Ok(child) });
            let (_, end) = recording.next(ControlEventView::Recorded { written: Ok(()) });
            &&& launch == (ControlActionView::Launch { log })
            &&& end == (ControlActionView::End {
                stale: false,
                outcome: Ok(
                    "Daemon started with PID "@ + crate::number::decimal(child) + (if log {
                        ". Log file: "@ + v.log_path
                    } else {
                        "."@
                    }),
                ),
            })
        }),
{
}

/// Where the process on file is a daemon of this program, a start ends without another one.
pub proof fn running_daemon_is_left_alone(v: ControlView, pid: int, process: ProcessView)
    requires
        v.order is Start,
        v.phase == (ControlPhaseView::Probing { pid }),
        is_daemon(Some(process)),
    ensures
        ({
            let (after, action) = v.next(ControlEventView::Probed { process: Ok(Some(process)) });
            &&& after.phase is Over
            &&& action == (ControlActionView::End {
                stale: false,
                outcome: Ok("Daemon is already running with PID "@ + pid_digits(pid) + "."@),
            })
        }),
{
}

/// What a start writes to the file with the process id, a later command reads as the id of the
/// process that was launched.
pub proof fn recorded_pid_is_probed(start: ControlView, later: ControlView, child: nat)
    requires
        start.phase is Launching,
        later.phase is ReadingPid,
        child <= 0x7fff_ffff,
    ensures
        start.next(ControlEventView::Launched { child: Ok(child) }).1 matches
            ControlActionView::Record { text } && later.next(
            ControlEventView::PidRead { content: Ok(Some(text)) },
        ).1 == (ControlActionView::Probe { pid: child as int }),
{
    crate::process::pid_reads_back(child);
}

fn render_pid_digits(pid: i32) -> (r: String)
    ensures
        r@ == pid_digits(pid as int),
{
    if pid < 0 {
        "-".to_owned().concat(to_decimal((-(pid as i64)) as u128).as_str())
    } else {
        to_decimal(pid as u128)
    }
}

impl DaemonControl {
    /// Begins a command with the process id on file.
    pub fn begin(order: Order, log_path: &str) -> (r: (DaemonControl, ControlAction))
        ensures
            r.0@ == (ControlView {
                order,
                log_path: log_path@,
                phase: ControlPhaseView::ReadingPid,
            }),
            r.1@ == ControlActionView::ReadPid,
    {
        (
            DaemonControl {
                order,
                log_path: log_path.to_owned(),
                phase: ControlPhase::ReadingPid,
            },
            ControlAction::ReadPid,
        )
    }

    fn end(self, stale: bool, outcome: Result<String, String>) -> (r: (
        DaemonControl,
        ControlAction,
    ))
        ensures
            (r.0@, r.1@) == self@.end(
                stale,
                match outcome {
                    Ok(line) => Ok(line@),
                    Err(e) => Err(e@),
                },
            ),
    {
        (
            DaemonControl { phase: ControlPhase::Over, ..self },
            ControlAction::End { stale, outcome },
        )
    }

    fn take_pid(self, content: Option<&str>) -> (r: (DaemonControl, ControlAction))
        ensures
            (r.0@, r.1@) == self@.on_pid(
                match content {
                    Some(text) => Some(text@),
                    None => None,
                },
            ),
    {
        match read_pid(content) {
            Err(error) => self.end(false, Err(error)),
            Ok(Some(pid)) => (
                DaemonControl { phase: ControlPhase::Probing { pid }, ..self },
                ControlAction::Probe { pid },
            ),
            Ok(None) => match self.order {
                Order::Start => (
                    DaemonControl { phase: ControlPhase::Loading, ..self },
                    ControlAction::Load { stale: false },
                ),
                _ => self.end(false, Ok("Daemon is not running.".to_owned())),
            },
        }
    }

    /// Decides how a start goes on once the process on file was looked for.
    fn start_daemon(self, pid: i32, found: bool) -> (r: (DaemonControl, ControlAction))
        requires
            self@.order is Start,
        ensures
            (r.0@, r.1@) == self@.on_probe(pid as int, found),
    {
        if found {
            self.end(
                false,
                Ok(
                    "Daemon is already running with PID ".to_owned().concat(
                        render_pid_digits(pid).as_str(),
                    ).concat("."),
                ),
            )
        } else {
            (
                DaemonControl { phase: ControlPhase::Loading, ..self },
                ControlAction::Load { stale: true },
            )
        }
    }

    /// Decides how a stop goes on once the process on file was looked for.
    fn stop_daemon(self, pid: i32, found: bool) -> (r: (DaemonControl, ControlAction))
        requires
            self@.order is Stop,
        ensures
            (r.0@, r.1@) == self@.on_probe(pid as int, found),
    {
        if found {
            (
                DaemonControl { phase: ControlPhase::Signalling { pid }, ..self },
                ControlAction::Signal { pid },
            )
        } else {
            self.end(
                true,
                Ok(
                    "The PID file does not point to a running daemon for this executable.".to_owned(),
                ),
            )
        }
    }

    /// Tells what became of the process on file.
    fn print_status(self, pid: i32, found: bool) -> (r: (DaemonControl, ControlAction))
        requires
            self@.order is Status,
        ensures
            (r.0@, r.1@) == self@.on_probe(pid as int, found),
    {
        if found {
            self.end(
                false,
                Ok(
                    "Daemon is running with PID ".to_owned().concat(
                        render_pid_digits(pid).as_str(),
                    ).concat("."),
                ),
            )
        } else {
            self.end(
                false,
                Ok(
                    "The PID file does not point to a running daemon for this executable.".to_owned(),
                ),
            )
        }
    }

    fn started_line(&self, child: u32, log: bool) -> (r: String)
        ensures
            r@ == self@.started(child as nat, log),
    {
        let line = "Daemon started with PID ".to_owned().concat(
            to_decimal(child as u128).as_str(),
        );
        let tail = if log {
            ". Log file: ".to_owned().concat(self.log_path.as_str())
        } else {
            ".".to_owned()
        };
        line.concat(tail.as_str())
    }

    /// Goes on with the command after an event.
    pub fn advance(self, event: ControlEvent) -> (r: (DaemonControl, ControlAction))
        ensures
            (r.0@, r.1@) == self@.next(event@),
    {
        match (self.phase, event) {
            (ControlPhase::ReadingPid, ControlEvent::PidRead { content }) => match content {
                Ok(Some(text)) => self.take_pid(Some(text.as_str())),
                Ok(None) => self.take_pid(None),
                Err(error) => self.end(false, Err(error)),
            },
            (ControlPhase::Probing { pid }, ControlEvent::Probed { process }) => {
                let found = match process {
                    Ok(Some(info)) => daemon_process_matches(
                        Some(info.cmdline.as_slice()),
                        info.binary_name.as_str(),
                    ),
                    Ok(None) => false,
                    Err(error) => {
                        return self.end(false, Err(error));
                    },
                };
                match self.order {
                    Order::Start => self.start_daemon(pid, found),
                    Order::Stop => self.stop_daemon(pid, found),
                    Order::Status => self.print_status(pid, found),
                }
            },
            (ControlPhase::Loading, ControlEvent::Loaded { config }) => match config {
                Ok(config) => (
                    DaemonControl {
                        phase: ControlPhase::Launching { log: config.daemon_log },
                        ..self
                    },
                    ControlAction::Launch { log: config.daemon_log },
                ),
                Err(error) => self.end(false, Err(error)),
            },
            (ControlPhase::Launching { log }, ControlEvent::Launched { child }) => match child {
                Ok(child) => (
                    DaemonControl { phase: ControlPhase::Recording { child, log }, ..self },
                    ControlAction::Record { text: render_pid(child) },
                ),
                Err(error) => self.end(false, Err(error)),
            },
            (ControlPhase::Recording { child, log }, ControlEvent::Recorded { written }) =>
                match written {
                    Ok(()) => {
                        let line = self.started_line(child, log);
                        self.end(false, Ok(line))
                    },
                    Err(error) => self.end(false, Err(error)),
                },
            (ControlPhase::Signalling { pid }, ControlEvent::Signalled { sent }) => match sent {
                Ok(()) => self.end(
                    false,
                    Ok(
                        "Sent a stop signal to PID ".to_owned().concat(
                            render_pid_digits(pid).as_str(),
                        ).concat("."),
                    ),
                ),
                Err(error) => self.end(false, Err(error)),
            },
            _ => (self, ControlAction::Nothing),
        }
    }
}

/// Each command has its words, and no other word stands for it. Whatever is not known is answered
/// with help.
pub proof fn commands_have_their_words(word: Seq<char>)
    ensures
        command_of(Some(word)) == Command::Config <==> word == "config"@ || word == "create"@,
        command_of(Some(word)) == Command::Run <==> word == "run"@,
        command_of(Some(word)) == Command::Daemon <==> word == "daemon"@,
        command_of(Some(word)) == Command::Stop <==> word == "stop"@,
        command_of(Some(word)) == Command::Status <==> word == "status"@,
        command_of(Some(word)) == Command::Version <==> word == "version"@ || word == "-V"@ || word
            == "--version"@,
        command_of(Some(word)) == Command::Worker <==> word == "__daemon_worker"@,
        command_of(None) == Command::Help,
{
    reveal_strlit("config");
    reveal_strlit("create");
    reveal_strlit("run");
    reveal_strlit("daemon");
    reveal_strlit("stop");
    reveal_strlit("status");
    reveal_strlit("version");
    reveal_strlit("-V");
    reveal_strlit("--version");
    reveal_strlit("__daemon_worker");
    assert("config"@[1] == 'o' && "create"@[1] == 'r' && "daemon"@[1] == 'a' && "status"@[1] == 't');
    assert("config"@[0] == 'c' && "create"@[0] == 'c' && "daemon"@[0] == 'd' && "status"@[0]
        == 's');
    assert("config"@.len() == 6 && "create"@.len() == 6 && "daemon"@.len() == 6 && "status"@.len()
        == 6);
    assert("run"@.len() == 3 && "stop"@.len() == 4 && "version"@.len() == 7 && "-V"@.len() == 2
        && "--version"@.len() == 9 && "__daemon_worker"@.len() == 15);
}

/// The help names every command on a line of its own.
pub proof fn help_names_every_command()
    ensures
        help().len() == 8,
        help()[0] == "Usage:"@,
        help()[1] == "  ./vorto config   Interactively manage tunnels in ./config.yaml"@,
        help()[2] == "  ./vorto run      Run in the foreground (./config.yaml)"@,
        help()[3]
            == "  ./vorto daemon   Run in the background (hot-reload ./config.yaml changes)"@,
        help()[4] == "  ./vorto stop     Stop the background process"@,
        help()[5] == "  ./vorto status   Show background process status"@,
        help()[6] == "  ./vorto version  Show release, commit, and repository information"@,
        help()[7] == "  ./vorto help     Show this help message"@,
{
}

/// The files and the time that the program works with.
pub proof fn program_works_with_these_files()
    ensures
        CONFIG_FILE@ == "config.yaml"@,
        PID_FILE@ == "vorto.pid"@,
        LOG_FILE@ == "vorto.log"@,
        DEFAULT_POLL_SECS == 2,
{
}

/// Every command begins with the process id on file. Where there is one, that process is looked
/// for, and no other. Where there is none, a start goes on to the configuration, and the other
/// commands end with the word that no daemon runs.
pub proof fn commands_look_for_the_process_on_file(
    v: ControlView,
    text: Seq<char>,
    pid: int,
    error: Seq<char>,
)
    requires
        v.phase is ReadingPid,
    ensures
        crate::process::pid_on_file(Some(text)) == Ok::<Option<int>, Seq<char>>(Some(pid))
            ==> v.next(ControlEventView::PidRead { content: Ok(Some(text)) }) == (
            v.to(ControlPhaseView::Probing { pid }),
            ControlActionView::Probe { pid },
        ),
        v.order == Order::Start ==> v.next(ControlEventView::PidRead { content: Ok(None) }) == (
            v.to(ControlPhaseView::Loading),
            ControlActionView::Load { stale: false },
        ),
        v.order != Order::Start ==> v.next(ControlEventView::PidRead { content: Ok(None) }) == (
            v.to(ControlPhaseView::Over),
            ControlActionView::End { stale: false, outcome: Ok("Daemon is not running."@) },
        ),
        crate::process::pid_on_file(Some(text)) == Err::<Option<int>, Seq<char>>(error)
            ==> v.next(ControlEventView::PidRead { content: Ok(Some(text)) }) == (
            v.to(ControlPhaseView::Over),
            ControlActionView::End { stale: false, outcome: Err(error) },
        ),
{
}

/// Where the process on file is a daemon of this program, a stop tells it to end and then says so,
/// and a status says that it runs.
pub proof fn running_daemon_is_stopped_and_told(v: ControlView, pid: int, process: ProcessView)
    requires
        v.phase == (ControlPhaseView::Probing { pid }),
        crate::process::worker_cmdline(process.cmdline, process.binary_name),
        0 <= pid,
    ensures
        ({
            let (after, action) = v.next(ControlEventView::Probed { process: Ok(Some(process)) });
            let (over, end) = after.next(ControlEventView::Signalled { sent: Ok(()) });
            &&& v.order == Order::Stop ==> {
                &&& action == (ControlActionView::Signal { pid })
                &&& over.phase is Over
                &&& end == (ControlActionView::End {
                    stale: false,
                    outcome: Ok(
                        "Sent a stop signal to PID "@ + crate::number::decimal(pid as nat) + "."@,
                    ),
                })
            }
            &&& v.order == Order::Status ==> {
                &&& after.phase is Over
                &&& action == (ControlActionView::End {
                    stale: false,
                    outcome: Ok(
                        "Daemon is running with PID "@ + crate::number::decimal(pid as nat) + "."@,
                    ),
                })
            }
            &&& v.order == Order::Start ==> {
                &&& after.phase is Over
                &&& action == (ControlActionView::End {
                    stale: false,
                    outcome: Ok(
                        "Daemon is already running with PID "@ + crate::number::decimal(pid as nat)
                            + "."@,
                    ),
                })
            }
        }),
{
}

/// Where there is no process with the id on file, or it is none of this program's daemons, nothing
/// is told to end: a start removes the file and goes on, a stop removes the file and says that it
/// was wrong, a status says so alone.
pub proof fn other_processes_are_left_alone(
    v: ControlView,
    pid: int,
    process: Option<ProcessView>,
)
    requires
        v.phase == (ControlPhaseView::Probing { pid }),
        process is Some ==> !crate::process::worker_cmdline(
            process->0.cmdline,
            process->0.binary_name,
        ),
    ensures
        ({
            let r = v.next(ControlEventView::Probed { process: Ok(process) });
            let lost = "The PID file does not point to a running daemon for this executable."@;
            &&& v.order == Order::Start ==> r == (
                v.to(ControlPhaseView::Loading),
                ControlActionView::Load { stale: true },
            )
            &&& v.order == Order::Stop ==> r == (
                v.to(ControlPhaseView::Over),
                ControlActionView::End { stale: true, outcome: Ok(lost) },
            )
            &&& v.order == Order::Status ==> r == (
                v.to(ControlPhaseView::Over),
                ControlActionView::End { stale: false, outcome: Ok(lost) },
            )
        }),
{
}

/// A daemon that was launched is recorded under its process id before the start ends.
pub proof fn launched_daemon_is_recorded(v: ControlView, log: bool, child: nat)
    requires
        v.phase == (ControlPhaseView::Launching { log }),
    ensures
        v.next(ControlEventView::Launched { child: Ok(child) }) == (
            v.to(ControlPhaseView::Recording { child, log }),
            ControlActionView::Record { text: crate::number::decimal(child) + "\n"@ },
        ),
{
}

/// A step that fails ends its command with the error, whichever step it is.
pub proof fn failed_step_ends_the_command(v: ControlView, error: Seq<char>)
    ensures
        ({
            let end = (
                v.to(ControlPhaseView::Over),
                ControlActionView::End { stale: false, outcome: Err(error) },
            );
            &&& v.phase is ReadingPid ==> v.next(
                ControlEventView::PidRead { content: Err(error) },
            ) == end
            &&& v.phase is Probing ==> v.next(ControlEventView::Probed { process: Err(error) })
                == end
            &&& v.phase is Loading ==> v.next(ControlEventView::Loaded { config: Err(error) })
                == end
            &&& v.phase is Launching ==> v.next(ControlEventView::Launched { child: Err(error) })
                == end
            &&& v.phase is Recording ==> v.next(ControlEventView::Recorded { written: Err(error) })
                == end
            &&& v.phase is Signalling ==> v.next(ControlEventView::Signalled { sent: Err(error) })
                == end
        }),
{
}

/// An event that the command does not wait for leaves it as it is.
pub proof fn command_ignores_what_it_does_not_wait_for(v: ControlView, event: ControlEventView)
    requires
        event is PidRead ==> !(v.phase is ReadingPid),
        event is Probed ==> !(v.phase is Probing),
        event is Loaded ==> !(v.phase is Loading),
        event is Launched ==> !(v.phase is Launching),
        event is Recorded ==> !(v.phase is Recording),
        event is Signalled ==> !(v.phase is Signalling),
    ensures
        v.next(event) == (v, ControlActionView::Nothing),
{
}

/// A process id is written in decimal, with a minus sign where it is negative.
pub proof fn pids_are_written_with_their_sign(n: nat)
    ensures
        pid_digits(n as int) == crate::number::decimal(n),
        n > 0 ==> pid_digits(-(n as int)) == "-"@ + crate::number::decimal(n),
{
}

/// What an event of a command holds is what it is made of.
pub proof fn control_events_hold_what_they_say(event: ControlEvent)
    ensures
        match event {
            ControlEvent::PidRead { content: Ok(Some(text)) } => event@ == (
            ControlEventView::PidRead { content: Ok(Some(text@)) }),
            ControlEvent::PidRead { content: Ok(None) } => event@ == (ControlEventView::PidRead {
                content: Ok(None),
            }),
            ControlEvent::PidRead { content: Err(e) } => event@ == (ControlEventView::PidRead {
                content: Err(e@),
            }),
            ControlEvent::Probed { process: Ok(Some(info)) } => event@ == (
            ControlEventView::Probed {
                process: Ok(
                    Some(
                        ProcessView {
                            cmdline: info.cmdline@,
                            binary_name: info.binary_name@,
                        },
                    ),
                ),
            }),
            ControlEvent::Probed { process: Ok(None) } => event@ == (ControlEventView::Probed {
                process: Ok(None),
            }),
            ControlEvent::Probed { process: Err(e) } => event@ == (ControlEventView::Probed {
                process: Err(e@),
            }),
            ControlEvent::Loaded { config: Ok(c) } => event@ == (ControlEventView::Loaded {
                config: Ok(c@),
            }),
            ControlEvent::Loaded { config: Err(e) } => event@ == (ControlEventView::Loaded {
                config: Err(e@),
            }),
            ControlEvent::Launched { child: Ok(pid) } => event@ == (ControlEventView::Launched {
                child: Ok(pid as nat),
            }),
            ControlEvent::Launched { child: Err(e) } => event@ == (ControlEventView::Launched {
                child: Err(e@),
            }),
            ControlEvent::Recorded { written: Ok(()) } => event@ == (ControlEventView::Recorded {
                written: Ok(()),
            }),
            ControlEvent::Recorded { written: Err(e) } => event@ == (ControlEventView::Recorded {
                written: Err(e@),
            }),
            ControlEvent::Signalled { sent: Ok(()) } => event@ == (ControlEventView::Signalled {
                sent: Ok(()),
            }),
            ControlEvent::Signalled { sent: Err(e) } => event@ == (ControlEventView::Signalled {
                sent: Err(e@),
            }),
        },
{
}

/// What an action of a command holds is what it is made of.
pub proof fn control_actions_hold_what_they_say(action: ControlAction)
    ensures
        match action {
            ControlAction::ReadPid => action@ is ReadPid,
            ControlAction::Probe { pid } => action@ == (ControlActionView::Probe {
                pid: pid as int,
            }),
            ControlAction::Load { stale } => action@ == (ControlActionView::Load { stale }),
            ControlAction::Launch { log } => action@ == (ControlActionView::Launch { log }),
            ControlAction::Record { text } => action@ == (ControlActionView::Record {
                text: text@,
            }),
            ControlAction::Signal { pid } => action@ == (ControlActionView::Signal {
                pid: pid as int,
            }),
            ControlAction::End { stale, outcome: Ok(line) } => action@ == (
            ControlActionView::End { stale, outcome: Ok(line@) }),
            ControlAction::End { stale, outcome: Err(e) } => action@ == (ControlActionView::End {
                stale,
                outcome: Err(e@),
            }),
            ControlAction::Nothing => action@ is Nothing,
        },
{
}

} // verus!
