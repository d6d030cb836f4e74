//! The two ways to run: in the foreground with one configuration, and as a daemon that follows the
//! configuration file.
//!
//! Each is a machine that is told what happened and answers what is to be done next. Files,
//! backends, timers and signals are outside.
use vstd::prelude::*;
use vstd::string::StringExecFns;

use crate::config::{copy_tunnels, AppConfig, AppMode, ConfigView, TunnelConfig, TunnelView};

verus! {

/// What happened.
#[derive(Debug)]
pub enum RunEvent {
    /// The configuration file was loaded, or could not be.
    Loaded { outcome: Result<AppConfig, String> },
    /// The backend was brought in step, or not wholly.
    Applied { ok: bool },
    /// The backend that was to stop has stopped.
    BackendStopped,
    /// The time to wait is over.
    Elapsed,
    /// The process was told to end, or could not listen for that.
    Terminated { heard: Result<(), String> },
    /// Both backends have stopped.
    AllStopped,
}

/// Something to tell the user.
#[derive(Debug)]
pub enum Notice {
    /// On the standard output.
    Say { text: String },
    /// On the standard error output.
    Warn { text: String },
}

/// What is to be done.
#[derive(Debug)]
pub enum RunAction {
    /// Load the configuration file.
    Load,
    /// Bring the backend `mode` in step with `tunnels`.
    Apply { mode: AppMode, tunnels: Vec<TunnelConfig> },
    /// Stop the backend `mode`.
    StopBackend { mode: AppMode },
    /// Give the notice, then wait for the time to be over or for the word to end.
    Wait { notice: Option<Notice> },
    /// Stop both backends.
    StopAll,
    /// End the run.
    End { outcome: Result<(), String> },
}

/// What a `RunEvent` holds.
pub enum EventView {
    Loaded { outcome: Result<ConfigView, Seq<char>> },
    Applied { ok: bool },
    BackendStopped,
    Elapsed,
    Terminated { heard: Result<(), Seq<char>> },
    AllStopped,
}

/// What a `Notice` holds.
pub enum NoticeView {
    Say { text: Seq<char> },
    Warn { text: Seq<char> },
}

/// What a `RunAction` holds.
pub enum RunActionView {
    Load,
    Apply { mode: AppMode, tunnels: Seq<TunnelView> },
    StopBackend { mode: AppMode },
    Wait { notice: Option<NoticeView> },
    StopAll,
    End { outcome: Result<(), Seq<char>> },
}

/// What an outcome without a value holds.
pub open spec fn outcome_view(outcome: Result<(), String>) -> Result<(), Seq<char>> {
    match outcome {
        Ok(()) => Ok(()),
        Err(e) => Err(e@),
    }
}

impl View for RunEvent {
    type V = EventView;

    open spec fn view(&self) -> EventView {
        match self {
            RunEvent::Loaded { outcome } => EventView::Loaded {
                outcome: match outcome {
                    Ok(config) => Ok(config@),
                    Err(e) => Err(e@),
                },
            },
            RunEvent::Applied { ok } => EventView::Applied { ok: *ok },
            RunEvent::BackendStopped => EventView::BackendStopped,
            RunEvent::Elapsed => EventView::Elapsed,
            RunEvent::Terminated { heard } => EventView::Terminated {
                heard: outcome_view(*heard),
            },
            RunEvent::AllStopped => EventView::AllStopped,
        }
    }
}

impl View for Notice {
    type V = NoticeView;

    open spec fn view(&self) -> NoticeView {
        match self {
            Notice::Say { text } => NoticeView::Say { text: text@ },
            Notice::Warn { text } => NoticeView::Warn { text: text@ },
        }
    }
}

impl View for RunAction {
    type V = RunActionView;

    open spec fn view(&self) -> RunActionView {
        match self {
            RunAction::Load => RunActionView::Load,
            RunAction::Apply { mode, tunnels } => RunActionView::Apply {
                mode: *mode,
                tunnels: TunnelConfig::views(tunnels@),
            },
            RunAction::StopBackend { mode } => RunActionView::StopBackend { mode: *mode },
            RunAction::Wait { notice } => RunActionView::Wait {
                notice: match notice {
                    Some(n) => Some(n@),
                    None => None,
                },
            },
            RunAction::StopAll => RunActionView::StopAll,
            RunAction::End { outcome } => RunActionView::End { outcome: outcome_view(*outcome) },
        }
    }
}

/// The tunnels that a configuration wants to run.
pub open spec fn enabled(config: ConfigView) -> Seq<TunnelView> {
    config.tunnels.filter(|t: TunnelView| t.enabled)
}

/// Waiting with a warning, or without a word.
pub open spec fn wait_with(warning: Option<Seq<char>>) -> RunActionView {
    RunActionView::Wait {
        notice: match warning {
            Some(text) => Some(NoticeView::Warn { text }),
            None => None,
        },
    }
}

/// What the watcher waits for.
#[derive(Debug)]
pub enum WatchPhase {
    /// For the configuration file.
    Loading,
    /// For the backend that `config` was given to.
    Applying { config: AppConfig },
    /// For the backend that gave way to another.
    Retiring,
    /// For the next look at the file, or the end.
    Sleeping,
    /// For both backends to stop.
    Stopping,
    /// For nothing.
    Over,
}

/// What a `WatchPhase` holds.
pub enum WatchPhaseView {
    Loading,
    Applying { config: ConfigView },
    Retiring,
    Sleeping,
    Stopping,
    Over,
}

impl View for WatchPhase {
    type V = WatchPhaseView;

    open spec fn view(&self) -> WatchPhaseView {
        match self {
            WatchPhase::Loading => WatchPhaseView::Loading,
            WatchPhase::Applying { config } => WatchPhaseView::Applying { config: config@ },
            WatchPhase::Retiring => WatchPhaseView::Retiring,
            WatchPhase::Sleeping => WatchPhaseView::Sleeping,
            WatchPhase::Stopping => WatchPhaseView::Stopping,
            WatchPhase::Over => WatchPhaseView::Over,
        }
    }
}

/// The watcher of the configuration file, which remembers what was applied last.
#[derive(Debug)]
pub struct ConfigWatcher {
    last_applied: Option<AppConfig>,
    phase: WatchPhase,
}

/// What a `ConfigWatcher` holds.
pub struct WatchView {
    pub applied: Option<ConfigView>,
    pub phase: WatchPhaseView,
}

impl View for ConfigWatcher {
    type V = WatchView;

    closed spec fn view(&self) -> WatchView {
        WatchView {
            applied: match self.last_applied {
                Some(config) => Some(config@),
                None => None,
            },
            phase: self.phase@,
        }
    }
}

/// What is reported where `config` could not be applied wholly; `applied` is what was applied last.
pub open spec fn retry_report(applied: Option<ConfigView>, config: ConfigView) -> Option<
    Seq<char>,
> {
    if applied != Some(config) {
        Some(
            "Will retry the current config on the next poll because some rules or tunnels failed to start."@,
        )
    } else {
        match config.mode {
            AppMode::Socket => Some(
                "One or more running tunnels became unhealthy and failed to restart. Will retry on the next poll."@,
            ),
            AppMode::Nft => None,
        }
    }
}

/// The backend that is to be stopped once `config` is applied: the one that carried the
/// configuration before, where it is another one.
pub open spec fn retired_backend(applied: Option<ConfigView>, config: ConfigView) -> Option<
    AppMode,
> {
    match applied {
        Some(before) => if before.mode != config.mode {
            Some(before.mode)
        } else {
            None
        },
        None => None,
    }
}

impl WatchView {
    /// The same watcher in the phase `phase`.
    pub open spec fn to(self, phase: WatchPhaseView) -> WatchView {
        WatchView { applied: self.applied, phase }
    }

    /// What the watcher becomes, and does, on an event. One that it does not wait for changes
    /// nothing.
    pub open spec fn next(self, event: EventView) -> (WatchView, RunActionView) {
        match (self.phase, event) {
            (WatchPhaseView::Loading, EventView::Loaded { outcome }) => match outcome {
                Ok(config) => (
                    self.to(WatchPhaseView::Applying { config }),
                    RunActionView::Apply { mode: config.mode, tunnels: enabled(config) },
                ),
                Err(error) => (
                    self.to(WatchPhaseView::Sleeping),
                    wait_with(
                        Some(
                            "Failed to read config. Keeping current tunnels unchanged: "@ + error,
                        ),
                    ),
                ),
            },
            (WatchPhaseView::Applying { config }, EventView::Applied { ok }) => if ok {
                match retired_backend(self.applied, config) {
                    Some(mode) => (
                        WatchView { applied: Some(config), phase: WatchPhaseView::Retiring },
                        RunActionView::StopBackend { mode },
                    ),
                    None => (
                        WatchView { applied: Some(config), phase: WatchPhaseView::Sleeping },
                        wait_with(None),
                    ),
                }
            } else {
                (
                    self.to(WatchPhaseView::Sleeping),
                    wait_with(retry_report(self.applied, config)),
                )
            },
            (WatchPhaseView::Retiring, EventView::BackendStopped) => (
                self.to(WatchPhaseView::Sleeping),
                wait_with(None),
            ),
            (WatchPhaseView::Sleeping, EventView::Elapsed) => (
                self.to(WatchPhaseView::Loading),
                RunActionView::Load,
            ),
            (WatchPhaseView::Sleeping, EventView::Terminated { heard }) => match heard {
                Ok(()) => (self.to(WatchPhaseView::Stopping), RunActionView::StopAll),
                Err(error) => (
                    self.to(WatchPhaseView::Over),
                    RunActionView::End { outcome: Err(error) },
                ),
            },
            (WatchPhaseView::Stopping, EventView::AllStopped) => (
                self.to(WatchPhaseView::Over),
                RunActionView::End { outcome: Ok(()) },
            ),
            _ => (self, wait_with(None)),
        }
    }
}

impl ConfigWatcher {
    /// Begins with a look at the configuration file.
    pub fn start() -> (r: (ConfigWatcher, RunAction))
        ensures
            r.0@ == (WatchView { applied: None, phase: WatchPhaseView::Loading }),
            r.1@ == RunActionView::Load,
    {
        (ConfigWatcher { last_applied: None, phase: WatchPhase::Loading }, RunAction::Load)
    }

    /// Decides what follows from an event.
    pub fn run_config_watcher(self, event: RunEvent) -> (r: (ConfigWatcher, RunAction))
        ensures
            (r.0@, r.1@) == self@.next(event@),
    {
        let ConfigWatcher { last_applied, phase } = self;
        match (phase, event) {
            (WatchPhase::Loading, RunEvent::Loaded { outcome: Ok(config) }) => {
                let action = RunAction::Apply {
                    mode: config.mode,
                    tunnels: config.enabled_tunnels(),
                };
                (ConfigWatcher { last_applied, phase: WatchPhase::Applying { config } }, action)
            },
            (WatchPhase::Loading, RunEvent::Loaded { outcome: Err(error) }) => (
                ConfigWatcher { last_applied, phase: WatchPhase::Sleeping },
                warn(
                    "Failed to read config. Keeping current tunnels unchanged: ".to_owned().concat(
                        error.as_str(),
                    ),
                ),
            ),
            (WatchPhase::Applying { config }, RunEvent::Applied { ok }) => if ok {
                let before = match &last_applied {
                    Some(applied) => Some(applied.mode),
                    None => None,
                };
                let (phase, action) = match (before, config.mode) {
                    (Some(AppMode::Nft), AppMode::Socket) => (
                        WatchPhase::Retiring,
                        RunAction::StopBackend { mode: AppMode::Nft },
                    ),
                    (Some(AppMode::Socket), AppMode::Nft) => (
                        WatchPhase::Retiring,
                        RunAction::StopBackend { mode: AppMode::Socket },
                    ),
                    _ => (WatchPhase::Sleeping, RunAction::Wait { notice: None }),
                };
                (ConfigWatcher { last_applied: Some(config), phase }, action)
            } else {
                let changed = match &last_applied {
                    Some(applied) => *applied != config,
                    None => true,
                };
                let action = if changed {
                    warn(
                        "Will retry the current config on the next poll because some rules or tunnels failed to start.".to_owned(),
                    )
                } else {
                    match config.mode {
                        AppMode::Socket => warn(
                            "One or more running tunnels became unhealthy and failed to restart. Will retry on the next poll.".to_owned(),
                        ),
                        AppMode::Nft => RunAction::Wait { notice: None },
                    }
                };
                (ConfigWatcher { last_applied, phase: WatchPhase::Sleeping }, action)
            },
            (WatchPhase::Retiring, RunEvent::BackendStopped) => (
                ConfigWatcher { last_applied, phase: WatchPhase::Sleeping },
                RunAction::Wait { notice: None },
            ),
            (WatchPhase::Sleeping, RunEvent::Elapsed) => (
                ConfigWatcher { last_applied, phase: WatchPhase::Loading },
                RunAction::Load,
            ),
            (WatchPhase::Sleeping, RunEvent::Terminated { heard: Ok(()) }) => (
                ConfigWatcher { last_applied, phase: WatchPhase::Stopping },
                RunAction::StopAll,
            ),
            (WatchPhase::Sleeping, RunEvent::Terminated { heard: Err(error) }) => (
                ConfigWatcher { last_applied, phase: WatchPhase::Over },
                RunAction::End { outcome: Err(error) },
            ),
            (WatchPhase::Stopping, RunEvent::AllStopped) => (
                ConfigWatcher { last_applied, phase: WatchPhase::Over },
                RunAction::End { outcome: Ok(()) },
            ),
            (phase, _) => (ConfigWatcher { last_applied, phase }, RunAction::Wait { notice: None }),
        }
    }
}

fn warn(text: String) -> (r: RunAction)
    ensures
        r@ == wait_with(Some(text@)),
{
    RunAction::Wait { notice: Some(Notice::Warn { text }) }
}

/// A load that fails leaves what was applied as it is, touches no backend, and is tried again after
/// the next wait.
pub proof fn failed_load_changes_nothing(v: WatchView, error: Seq<char>)
    requires
        v.phase is Loading,
    ensures
        ({
            let (after, action) = v.next(EventView::Loaded { outcome: Err(error) });
            &&& after.applied == v.applied
            &&& action is Wait
            &&& after.next(EventView::Elapsed).0 == v
            &&& after.next(EventView::Elapsed).1 is Load
        }),
{
}

/// A configuration that could not be applied wholly is not taken for applied; the file is looked at
/// again after the next wait.
pub proof fn failed_apply_is_tried_again(v: WatchView)
    requires
        v.phase is Applying,
    ensures
        ({
            let (after, action) = v.next(EventView::Applied { ok: false });
            &&& after.applied == v.applied
            &&& action is Wait
            &&& after.next(EventView::Elapsed).1 is Load
        }),
{
}

/// A backend is brought in step only with the enabled tunnels of a configuration that was just
/// loaded.
pub proof fn only_a_load_leads_to_apply(v: WatchView, event: EventView)
    ensures
        v.next(event).1 is Apply ==> {
            &&& v.phase is Loading
            &&& event matches EventView::Loaded { outcome: Ok(config) }
            &&& v.next(event).1 == (RunActionView::Apply {
                mode: config.mode,
                tunnels: enabled(config),
            })
        },
{
}

/// What counts as applied changes only where a configuration was applied wholly, and is then that
/// configuration.
pub proof fn only_success_is_remembered(v: WatchView, event: EventView)
    ensures
        v.next(event).0.applied != v.applied ==> {
            &&& v.phase matches WatchPhaseView::Applying { config }
            &&& event == (EventView::Applied { ok: true })
            &&& v.next(event).0.applied == Some(config)
        },
{
}

/// The tunnels of a valid configuration are valid when a backend gets them, whichever way to run.
pub proof fn backends_get_valid_tunnels(v: WatchView, f: ForegroundView, config: ConfigView)
    requires
        v.phase is Loading,
        f.phase is Loading,
        crate::config::accepted(config) is Ok,
    ensures
        ({
            let event = EventView::Loaded { outcome: Ok(config) };
            &&& v.next(event).1 matches RunActionView::Apply { mode: _, tunnels }
            &&& f.next(event).1 == v.next(event).1
            &&& crate::config::valid_tunnels(tunnels)
        }),
{
    crate::config::accepted_iff_valid(config.tunnels);
    crate::config::enabled_tunnels_are_valid(config.tunnels);
}

/// A backend is stopped by itself only where the other one has just taken over wholly.
pub proof fn backend_stops_only_after_takeover(v: WatchView, event: EventView)
    ensures
        v.next(event).1 matches RunActionView::StopBackend { mode } ==> {
            &&& event == (EventView::Applied { ok: true })
            &&& v.phase matches WatchPhaseView::Applying { config }
            &&& mode != config.mode
            &&& v.next(event).0.applied == Some(config)
        },
{
}

/// The daemon ends well only after both backends have stopped, and only where it was told to end.
pub proof fn good_end_comes_after_stopping(v: WatchView, event: EventView)
    ensures
        v.next(event).1 == (RunActionView::End { outcome: Ok::<(), Seq<char>>(()) }) ==> v.phase
            is Stopping && event is AllStopped,
        v.next(event).0.phase is Stopping && !(v.phase is Stopping) ==> v.phase is Sleeping
            && event is Terminated && v.next(event).1 is StopAll,
{
}

/// What the run in the foreground waits for.
#[derive(Debug, Clone, Copy, PartialEq, Eq, Structural)]
pub enum ForegroundPhase {
    /// For the configuration file.
    Loading,
    /// For the backend to start.
    Starting,
    /// For the next look after the tunnels, or the end.
    Running,
    /// For the tunnels that are looked after.
    Restarting,
    /// For both backends to stop, after a start that failed.
    Failing,
    /// For both backends to stop.
    Stopping,
    /// For nothing.
    Over,
}

/// The run in the foreground with one configuration.
#[derive(Debug)]
pub struct Foreground {
    mode: AppMode,
    tunnels: Vec<TunnelConfig>,
    phase: ForegroundPhase,
}

/// What a `Foreground` holds: the backend, the tunnels that it carries, and the phase.
pub struct ForegroundView {
    pub mode: AppMode,
    pub tunnels: Seq<TunnelView>,
    pub phase: ForegroundPhase,
}

impl View for Foreground {
    type V = ForegroundView;

    closed spec fn view(&self) -> ForegroundView {
        ForegroundView {
            mode: self.mode,
            tunnels: TunnelConfig::views(self.tunnels@),
            phase: self.phase,
        }
    }
}

impl ForegroundView {
    /// The same run in the phase `phase`.
    pub open spec fn to(self, phase: ForegroundPhase) -> ForegroundView {
        ForegroundView { mode: self.mode, tunnels: self.tunnels, phase }
    }

    /// What the run becomes, and does, on an event. One that it does not wait for changes nothing.
    pub open spec fn next(self, event: EventView) -> (ForegroundView, RunActionView) {
        match (self.phase, event) {
            (ForegroundPhase::Loading, EventView::Loaded { outcome }) => match outcome {
                Ok(config) => (
                    ForegroundView {
                        mode: config.mode,
                        tunnels: enabled(config),
                        phase: ForegroundPhase::Starting,
                    },
                    RunActionView::Apply { mode: config.mode, tunnels: enabled(config) },
                ),
                Err(error) => (
                    self.to(ForegroundPhase::Over),
                    RunActionView::End { outcome: Err(error) },
                ),
            },
            (ForegroundPhase::Starting, EventView::Applied { ok }) => if ok {
                (
                    self.to(ForegroundPhase::Running),
                    RunActionView::Wait {
                        notice: Some(
                            NoticeView::Say {
                                text: "Foreground mode started. Press Ctrl+C to stop."@,
                            },
                        ),
                    },
                )
            } else {
                (self.to(ForegroundPhase::Failing), RunActionView::StopAll)
            },
            (ForegroundPhase::Failing, EventView::AllStopped) => (
                self.to(ForegroundPhase::Over),
                RunActionView::End { outcome: Err("Failed to start one or more tunnels."@) },
            ),
            (ForegroundPhase::Running, EventView::Elapsed) => match self.mode {
                AppMode::Socket => (
                    self.to(ForegroundPhase::Restarting),
                    RunActionView::Apply { mode: AppMode::Socket, tunnels: self.tunnels },
                ),
                AppMode::Nft => (self, wait_with(None)),
            },
            (ForegroundPhase::Running, EventView::Terminated { heard }) => match heard {
                Ok(()) => (self.to(ForegroundPhase::Stopping), RunActionView::StopAll),
                Err(error) => (
                    self.to(ForegroundPhase::Over),
                    RunActionView::End { outcome: Err(error) },
                ),
            },
            (ForegroundPhase::Restarting, EventView::Applied { ok }) => (
                self.to(ForegroundPhase::Running),
                wait_with(
                    if ok {
                        None
                    } else {
                        Some("One or more foreground tunnels failed to restart. Will retry."@)
                    },
                ),
            ),
            (ForegroundPhase::Stopping, EventView::AllStopped) => (
                self.to(ForegroundPhase::Over),
                RunActionView::End { outcome: Ok(()) },
            ),
            _ => (self, wait_with(None)),
        }
    }
}

impl Foreground {
    /// Begins with the configuration file.
    pub fn start() -> (r: (Foreground, RunAction))
        ensures
            r.0@ == (ForegroundView {
                mode: AppMode::Socket,
                tunnels: seq![],
                phase: ForegroundPhase::Loading,
            }),
            r.1@ == RunActionView::Load,
    {
        let run = Foreground {
            mode: AppMode::Socket,
            tunnels: Vec::new(),
            phase: ForegroundPhase::Loading,
        };
        assert(TunnelConfig::views(run.tunnels@) =~= seq![]);
        (run, RunAction::Load)
    }

    /// Decides what follows from an event.
    pub fn run_foreground(self, event: RunEvent) -> (r: (Foreground, RunAction))
        ensures
            (r.0@, r.1@) == self@.next(event@),
    {
        let Foreground { mode, tunnels, phase } = self;
        match (phase, event) {
            (ForegroundPhase::Loading, RunEvent::Loaded { outcome: Ok(config) }) => {
                let wanted = config.enabled_tunnels();
                let action = RunAction::Apply { mode: config.mode, tunnels: copy_tunnels(&wanted) };
                (
                    Foreground {
                        mode: config.mode,
                        tunnels: wanted,
                        phase: ForegroundPhase::Starting,
                    },
                    action,
                )
            },
            (ForegroundPhase::Loading, RunEvent::Loaded { outcome: Err(error) }) => (
                Foreground { mode, tunnels, phase: ForegroundPhase::Over },
                RunAction::End { outcome: Err(error) },
            ),
            (ForegroundPhase::Starting, RunEvent::Applied { ok }) => if ok {
                (
                    Foreground { mode, tunnels, phase: ForegroundPhase::Running },
                    RunAction::Wait {
                        notice: Some(
                            Notice::Say {
                                text: "Foreground mode started. Press Ctrl+C to stop.".to_owned(),
                            },
                        ),
                    },
                )
            } else {
                (
                    Foreground { mode, tunnels, phase: ForegroundPhase::Failing },
                    RunAction::StopAll,
                )
            },
            (ForegroundPhase::Failing, RunEvent::AllStopped) => (
                Foreground { mode, tunnels, phase: ForegroundPhase::Over },
                RunAction::End {
                    outcome: Err("Failed to start one or more tunnels.".to_owned()),
                },
            ),
            (ForegroundPhase::Running, RunEvent::Elapsed) => match mode {
                AppMode::Socket => {
                    let action = RunAction::Apply {
                        mode: AppMode::Socket,
                        tunnels: copy_tunnels(&tunnels),
                    };
                    (Foreground { mode, tunnels, phase: ForegroundPhase::Restarting }, action)
                },
                AppMode::Nft => (
                    Foreground { mode, tunnels, phase: ForegroundPhase::Running },
                    RunAction::Wait { notice: None },
                ),
            },
            (ForegroundPhase::Running, RunEvent::Terminated { heard: Ok(()) }) => (
                Foreground { mode, tunnels, phase: ForegroundPhase::Stopping },
                RunAction::StopAll,
            ),
            (ForegroundPhase::Running, RunEvent::Terminated { heard: Err(error) }) => (
                Foreground { mode, tunnels, phase: ForegroundPhase::Over },
                RunAction::End { outcome: Err(error) },
            ),
            (ForegroundPhase::Restarting, RunEvent::Applied { ok }) => {
                let action = if ok {
                    RunAction::Wait { notice: None }
                } else {
                    warn(
                        "One or more foreground tunnels failed to restart. Will retry.".to_owned(),
                    )
                };
                (Foreground { mode, tunnels, phase: ForegroundPhase::Running }, action)
            },
            (ForegroundPhase::Stopping, RunEvent::AllStopped) => (
                Foreground { mode, tunnels, phase: ForegroundPhase::Over },
                RunAction::End { outcome: Ok(()) },
            ),
            (phase, _) => (
                Foreground { mode, tunnels, phase },
                RunAction::Wait { notice: None },
            ),
        }
    }
}

/// The configuration is read once: no event leads to another load, and once it was read no event
/// changes the backend or the tunnels.
pub proof fn foreground_reads_once(v: ForegroundView, event: EventView)
    ensures
        !(v.next(event).1 is Load),
        !(v.phase is Loading) ==> v.next(event).0.mode == v.mode && v.next(event).0.tunnels
            == v.tunnels && !(v.next(event).0.phase is Loading),
        v.next(event).1 matches RunActionView::Apply { mode, tunnels } ==> mode == v.next(
            event,
        ).0.mode && tunnels == v.next(event).0.tunnels,
{
}

/// The run in the foreground ends after its start only where both backends were stopped first, or
/// where it could not listen for the word to end.
pub proof fn foreground_stops_before_its_end(v: ForegroundView, event: EventView)
    ensures
        v.next(event).1 is End && !(v.phase is Loading) ==> {
            ||| (v.phase is Stopping || v.phase is Failing) && event is AllStopped
            ||| v.phase is Running && event is Terminated
        },
        v.next(event).0.phase != v.phase && (v.next(event).0.phase is Stopping || v.next(
            event,
        ).0.phase is Failing) ==> v.next(event).1 is StopAll,
{
}

/// What both ways to run hand to a backend: the tunnels that are switched on, all of them, and in
/// the order of the configuration.
pub proof fn enabled_tunnels_are_those_switched_on(
    daemon_log: bool,
    mode: AppMode,
    a: Seq<TunnelView>,
    b: Seq<TunnelView>,
    t: TunnelView,
)
    ensures
        enabled(ConfigView { daemon_log, mode, tunnels: a + b }) == enabled(
            ConfigView { daemon_log, mode, tunnels: a },
        ) + enabled(ConfigView { daemon_log, mode, tunnels: b }),
        enabled(ConfigView { daemon_log, mode, tunnels: seq![t] }) == (if t.enabled {
            seq![t]
        } else {
            seq![]
        }),
{
    let on = |t: TunnelView| t.enabled;
    Seq::<TunnelView>::filter_distributes_over_add(a, b, on);
    reveal(Seq::filter);
    assert(seq![t].drop_last() =~= seq![]);
    let none = Seq::<TunnelView>::empty();
    assert(none.filter(on) =~= none);
    assert(seq![t].filter(on) =~= (if t.enabled {
        seq![t]
    } else {
        seq![]
    }));
}

/// A configuration that was loaded is handed to the backend that it names: to the sockets in socket
/// mode, to nftables in nft mode. What was applied before stays on record until that is done.
pub proof fn loaded_config_goes_to_its_backend(v: WatchView, config: ConfigView)
    requires
        v.phase is Loading,
    ensures
        ({
            let (after, action) = v.next(EventView::Loaded { outcome: Ok(config) });
            &&& action == (RunActionView::Apply {
                mode: config.mode,
                tunnels: config.tunnels.filter(|t: TunnelView| t.enabled),
            })
            &&& after.phase == (WatchPhaseView::Applying { config })
            &&& after.applied == v.applied
        }),
{
}

/// Whatever came of an application, the daemon comes to sleep: at once, or once the backend that
/// gave way has stopped. A backend gives way exactly where the configuration was applied wholly and
/// the one before was carried by the other backend.
pub proof fn daemon_sleeps_after_applying(v: WatchView, config: ConfigView, ok: bool)
    requires
        v.phase == (WatchPhaseView::Applying { config }),
    ensures
        ({
            let (after, action) = v.next(EventView::Applied { ok });
            let switched = ok && v.applied is Some && v.applied->0.mode != config.mode;
            &&& after.applied == (if ok {
                Some(config)
            } else {
                v.applied
            })
            &&& !switched ==> after.phase is Sleeping && action is Wait
            &&& switched ==> {
                let (later, last) = after.next(EventView::BackendStopped);
                &&& action == (RunActionView::StopBackend { mode: v.applied->0.mode })
                &&& later.phase is Sleeping
                &&& later.applied == Some(config)
                &&& last == (RunActionView::Wait { notice: None })
            }
        }),
{
}

/// A daemon whose backend has given way sleeps as soon as that backend has stopped.
pub proof fn daemon_sleeps_after_retiring(v: WatchView)
    requires
        v.phase is Retiring,
    ensures
        v.next(EventView::BackendStopped).0.phase is Sleeping,
        v.next(EventView::BackendStopped).0.applied == v.applied,
        v.next(EventView::BackendStopped).1 == (RunActionView::Wait { notice: None }),
{
}

/// A daemon that sleeps looks at the configuration file again when the time is over, whatever was
/// applied. Where it is told to end, it stops both backends and then ends well.
pub proof fn sleeping_daemon_polls_or_ends(v: WatchView, error: Seq<char>)
    requires
        v.phase is Sleeping,
    ensures
        ({
            let (polling, poll) = v.next(EventView::Elapsed);
            let (stopping, stop) = v.next(EventView::Terminated { heard: Ok(()) });
            let (over, end) = stopping.next(EventView::AllStopped);
            let (deaf, failure) = v.next(EventView::Terminated { heard: Err(error) });
            &&& polling.phase is Loading
            &&& polling.applied == v.applied
            &&& poll is Load
            &&& stopping.phase is Stopping
            &&& stop is StopAll
            &&& over.phase is Over
            &&& end == (RunActionView::End { outcome: Ok(()) })
            &&& deaf.phase is Over
            &&& failure == (RunActionView::End { outcome: Err(error) })
        }),
{
}

/// What the daemon says about its troubles: why a configuration could not be loaded; that a new one
/// was not applied wholly; that tunnels of the old one could not be restarted. On success it says
/// nothing.
pub proof fn daemon_tells_its_troubles(v: WatchView, config: ConfigView, error: Seq<char>)
    ensures
        v.phase is Loading ==> {
            let (after, action) = v.next(EventView::Loaded { outcome: Err(error) });
            &&& after.phase is Sleeping
            &&& after.applied == v.applied
            &&& action == (RunActionView::Wait {
                notice: Some(
                    NoticeView::Warn {
                        text: "Failed to read config. Keeping current tunnels unchanged: "@ + error,
                    },
                ),
            })
        },
        v.phase == (WatchPhaseView::Applying { config }) ==> {
            let action = v.next(EventView::Applied { ok: false }).1;
            if v.applied != Some(config) {
                action == (RunActionView::Wait {
                    notice: Some(
                        NoticeView::Warn {
                            text: "Will retry the current config on the next poll because some rules or tunnels failed to start."@,
                        },
                    ),
                })
            } else if config.mode == AppMode::Socket {
                action == (RunActionView::Wait {
                    notice: Some(
                        NoticeView::Warn {
                            text: "One or more running tunnels became unhealthy and failed to restart. Will retry on the next poll."@,
                        },
                    ),
                })
            } else {
                action == (RunActionView::Wait { notice: None })
            }
        },
        v.phase == (WatchPhaseView::Applying { config }) ==> {
            let action = v.next(EventView::Applied { ok: true }).1;
            action is StopBackend || action == (RunActionView::Wait { notice: None })
        },
{
}

/// An event that the daemon does not wait for leaves it as it is.
pub proof fn daemon_ignores_what_it_does_not_wait_for(v: WatchView, event: EventView)
    requires
        event is Loaded ==> !(v.phase is Loading),
        event is Applied ==> !(v.phase is Applying),
        event is BackendStopped ==> !(v.phase is Retiring),
        event is Elapsed ==> !(v.phase is Sleeping),
        event is Terminated ==> !(v.phase is Sleeping),
        event is AllStopped ==> !(v.phase is Stopping),
    ensures
        v.next(event).0 == v,
        v.next(event).1 == (RunActionView::Wait { notice: None }),
{
}

/// A run in the foreground that is told to end stops both backends and ends well, in either mode.
/// Where it cannot listen for that word, it ends with the error.
pub proof fn foreground_ends_when_told(v: ForegroundView, error: Seq<char>)
    requires
        v.phase is Running,
    ensures
        ({
            let (stopping, stop) = v.next(EventView::Terminated { heard: Ok(()) });
            let (over, end) = stopping.next(EventView::AllStopped);
            let (deaf, failure) = v.next(EventView::Terminated { heard: Err(error) });
            &&& stopping.phase is Stopping
            &&& stop is StopAll
            &&& over.phase is Over
            &&& end == (RunActionView::End { outcome: Ok(()) })
            &&& deaf.phase is Over
            &&& failure == (RunActionView::End { outcome: Err(error) })
        }),
{
}

/// A run in the foreground starts the backend that its configuration names, with the tunnels that
/// are switched on. Where that succeeds it says so and runs; where it fails both backends are
/// stopped and the run ends with an error. A configuration that cannot be loaded ends it at once.
pub proof fn foreground_starts_as_configured(
    v: ForegroundView,
    config: ConfigView,
    error: Seq<char>,
)
    requires
        v.phase is Loading,
    ensures
        ({
            let (starting, start) = v.next(EventView::Loaded { outcome: Ok(config) });
            let (running, wait) = starting.next(EventView::Applied { ok: true });
            let (failing, stop) = starting.next(EventView::Applied { ok: false });
            let (over, end) = failing.next(EventView::AllStopped);
            let (unread, refusal) = v.next(EventView::Loaded { outcome: Err(error) });
            &&& start == (RunActionView::Apply {
                mode: config.mode,
                tunnels: config.tunnels.filter(|t: TunnelView| t.enabled),
            })
            &&& running.phase is Running
            &&& running.mode == config.mode
            &&& running.tunnels == config.tunnels.filter(|t: TunnelView| t.enabled)
            &&& wait == (RunActionView::Wait {
                notice: Some(
                    NoticeView::Say { text: "Foreground mode started. Press Ctrl+C to stop."@ },
                ),
            })
            &&& stop is StopAll
            &&& over.phase is Over
            &&& end == (RunActionView::End {
                outcome: Err("Failed to start one or more tunnels."@),
            })
            &&& unread.phase is Over
            &&& refusal == (RunActionView::End { outcome: Err(error) })
        }),
{
}

/// A run in the foreground looks after its tunnels each time the wait is over, and goes on whatever
/// comes of it: with sockets it applies the same tunnels again and warns where one did not restart;
/// with nftables there is nothing to look after.
pub proof fn foreground_looks_after_its_tunnels(v: ForegroundView, ok: bool)
    requires
        v.phase is Running,
    ensures
        v.mode == AppMode::Socket ==> {
            let (looking, look) = v.next(EventView::Elapsed);
            let (running, wait) = looking.next(EventView::Applied { ok });
            &&& look == (RunActionView::Apply { mode: AppMode::Socket, tunnels: v.tunnels })
            &&& running == v
            &&& wait == (RunActionView::Wait {
                notice: if ok {
                    None
                } else {
                    Some(
                        NoticeView::Warn {
                            text: "One or more foreground tunnels failed to restart. Will retry."@,
                        },
                    )
                },
            })
        },
        v.mode == AppMode::Nft ==> v.next(EventView::Elapsed) == (
            v,
            RunActionView::Wait { notice: None },
        ),
{
}

/// An event that the run in the foreground does not wait for leaves it as it is.
pub proof fn foreground_ignores_what_it_does_not_wait_for(v: ForegroundView, event: EventView)
    requires
        event is Loaded ==> !(v.phase is Loading),
        event is Applied ==> !(v.phase is Starting) && !(v.phase is Restarting),
        event is Elapsed ==> !(v.phase is Running),
        event is Terminated ==> !(v.phase is Running),
        event is AllStopped ==> !(v.phase is Stopping) && !(v.phase is Failing),
    ensures
        v.next(event).0 == v,
        v.next(event).1 == (RunActionView::Wait { notice: None }),
{
}

/// In every phase that waits for a backend, the run in the foreground goes on as soon as that
/// backend is done: it runs on, or it ends.
pub proof fn foreground_is_never_stuck(v: ForegroundView, ok: bool)
    ensures
        v.phase is Starting ==> v.next(EventView::Applied { ok }).0.phase == (if ok {
            ForegroundPhase::Running
        } else {
            ForegroundPhase::Failing
        }),
        v.phase is Restarting ==> v.next(EventView::Applied { ok }).0.phase is Running,
        v.phase is Failing ==> v.next(EventView::AllStopped).1 == (RunActionView::End {
            outcome: Err("Failed to start one or more tunnels."@),
        }),
        v.phase is Stopping ==> v.next(EventView::AllStopped).1 == (RunActionView::End {
            outcome: Ok(()),
        }),
{
}

/// What an event holds is what it is made of.
pub proof fn events_hold_what_they_say(event: RunEvent)
    ensures
        match event {
            RunEvent::Loaded { outcome: Ok(config) } => event@ == (EventView::Loaded {
                outcome: Ok(config@),
            }),
            RunEvent::Loaded { outcome: Err(e) } => event@ == (EventView::Loaded {
                outcome: Err(e@),
            }),
            RunEvent::Applied { ok } => event@ == (EventView::Applied { ok }),
            RunEvent::BackendStopped => event@ is BackendStopped,
            RunEvent::Elapsed => event@ is Elapsed,
            RunEvent::Terminated { heard: Ok(()) } => event@ == (EventView::Terminated {
                heard: Ok(()),
            }),
            RunEvent::Terminated { heard: Err(e) } => event@ == (EventView::Terminated {
                heard: Err(e@),
            }),
            RunEvent::AllStopped => event@ is AllStopped,
        },
{
}

/// What an action holds is what it is made of.
pub proof fn actions_hold_what_they_say(action: RunAction)
    ensures
        match action {
            RunAction::Load => action@ is Load,
            RunAction::Apply { mode, tunnels } => action@ == (RunActionView::Apply {
                mode,
                tunnels: tunnels@.map_values(|t: TunnelConfig| t@),
            }),
            RunAction::StopBackend { mode } => action@ == (RunActionView::StopBackend { mode }),
            RunAction::Wait { notice: None } => action@ == (RunActionView::Wait { notice: None }),
            RunAction::Wait { notice: Some(Notice::Say { text }) } => action@ == (
            RunActionView::Wait { notice: Some(NoticeView::Say { text: text@ }) }),
            RunAction::Wait { notice: Some(Notice::Warn { text }) } => action@ == (
            RunActionView::Wait { notice: Some(NoticeView::Warn { text: text@ }) }),
            RunAction::StopAll => action@ is StopAll,
            RunAction::End { outcome: Ok(()) } => action@ == (RunActionView::End {
                outcome: Ok(()),
            }),
            RunAction::End { outcome: Err(e) } => action@ == (RunActionView::End {
                outcome: Err(e@),
            }),
        },
{
}

} // verus!
