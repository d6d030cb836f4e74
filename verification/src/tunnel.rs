//! The life of one tunnel: how its workers start, serve and stop.
//!
//! Sockets, tasks and timers are outside. Each function here takes what happened there and says
//! what is to be done next.
use vstd::prelude::*;
use vstd::string::StringExecFns;

use crate::addr::{Ipv4Addr, Ipv6Addr, SocketAddr, SocketAddrView, SYNTAX_FAULT};
use crate::config::{Protocol, TunnelConfig, TunnelView};

verus! {

broadcast use vstd::array::group_array_axioms;

/// How long a task may take to stop before it is aborted, in seconds.
pub const SHUTDOWN_GRACE_SECS: u64 = 3;

/// How often the foreground mode looks after its tunnels, in seconds.
pub const HEALTH_CHECK_SECS: u64 = 1;

/// How long a connection to a target may take, in seconds.
pub const TCP_CONNECT_TIMEOUT_SECS: u64 = 10;

/// The size of the kernel buffers of a UDP socket, in bytes.
pub const UDP_SOCKET_BUFFER_SIZE: i32 = 4_194_304;

/// The size of the buffer that a datagram is received into, in bytes.
pub const UDP_PACKET_BUFFER_SIZE: usize = 65_535;

/// A step on the way to a running tunnel.
#[derive(Debug, Clone, Copy, PartialEq, Eq, Structural)]
pub enum StartStep {
    BindTcp,
    LaunchTcp,
    BindUdp,
    ConfigureUdp,
    LaunchUdp,
}

/// The steps to a running tunnel of the protocol `p`, in order.
pub open spec fn steps(p: Protocol) -> Seq<StartStep> {
    let tcp = seq![StartStep::BindTcp, StartStep::LaunchTcp];
    let udp = seq![StartStep::BindUdp, StartStep::ConfigureUdp, StartStep::LaunchUdp];
    match p {
        Protocol::Tcp => tcp,
        Protocol::Udp => udp,
        Protocol::Both => tcp + udp,
    }
}

/// How many of `done` launch a worker.
pub open spec fn launches(done: Seq<StartStep>) -> nat
    decreases done.len(),
{
    if done.len() == 0 {
        0
    } else {
        launches(done.drop_last()) + (if done.last() is LaunchTcp || done.last() is LaunchUdp {
            1nat
        } else {
            0nat
        })
    }
}

/// What is to be done for a tunnel that starts. The outcome of every action but the last two is to
/// be handed to `TunnelStart::advance`.
#[derive(Debug)]
pub enum StartAction {
    /// Bind a TCP listener.
    BindTcp { listen: String },
    /// Launch the worker that serves the TCP listener.
    LaunchTcp { target: String },
    /// Bind a UDP socket.
    BindUdp { listen: String },
    /// Set the buffers of the UDP socket.
    ConfigureUdp,
    /// Launch the worker that serves the UDP socket.
    LaunchUdp { upstream: SocketAddr },
    /// The tunnel runs.
    Ready,
    /// The tunnel cannot start: stop the workers launched so far, and wait for them.
    RollBack { workers: usize, error: String },
}

/// What a `StartAction` holds.
pub enum ActionView {
    BindTcp { listen: Seq<char> },
    LaunchTcp { target: Seq<char> },
    BindUdp { listen: Seq<char> },
    ConfigureUdp,
    LaunchUdp { upstream: SocketAddrView },
    Ready,
    RollBack { workers: nat, error: Seq<char> },
}

impl View for StartAction {
    type V = ActionView;

    open spec fn view(&self) -> ActionView {
        match self {
            StartAction::BindTcp { listen } => ActionView::BindTcp { listen: listen@ },
            StartAction::LaunchTcp { target } => ActionView::LaunchTcp { target: target@ },
            StartAction::BindUdp { listen } => ActionView::BindUdp { listen: listen@ },
            StartAction::ConfigureUdp => ActionView::ConfigureUdp,
            StartAction::LaunchUdp { upstream } => ActionView::LaunchUdp { upstream: upstream@ },
            StartAction::Ready => ActionView::Ready,
            StartAction::RollBack { workers, error } => ActionView::RollBack {
                workers: *workers as nat,
                error: error@,
            },
        }
    }
}

/// The sentence for an address that does not parse.
pub open spec fn bad_address(label: Seq<char>, value: Seq<char>) -> Seq<char> {
    "Invalid "@ + label + " address "@ + value + ": "@ + SYNTAX_FAULT@
}

/// What is to be done for the tunnel `t` once its first `k` steps are done. The target of a UDP
/// worker must be a socket address; that is found out when its turn has come.
pub open spec fn action_after(t: TunnelView, k: int) -> ActionView {
    let all = steps(t.protocol);
    if 0 <= k < all.len() {
        match all[k] {
            StartStep::BindTcp => ActionView::BindTcp { listen: t.listen },
            StartStep::LaunchTcp => ActionView::LaunchTcp { target: t.target },
            StartStep::BindUdp => if crate::addr::socket_addr(t.target) is Some {
                ActionView::BindUdp { listen: t.listen }
            } else {
                roll_back(t, k, bad_address("target"@, t.target))
            },
            StartStep::ConfigureUdp => ActionView::ConfigureUdp,
            StartStep::LaunchUdp => if crate::addr::socket_addr(t.target) is Some {
                ActionView::LaunchUdp { upstream: crate::addr::socket_addr(t.target)->0 }
            } else {
                roll_back(t, k, bad_address("target"@, t.target))
            },
        }
    } else {
        ActionView::Ready
    }
}

/// Giving up after `k` steps.
pub open spec fn roll_back(t: TunnelView, k: int, error: Seq<char>) -> ActionView {
    ActionView::RollBack { workers: launches(steps(t.protocol).take(k)), error }
}

/// `value` as a socket address, or the sentence that says that it is none.
pub fn parse_socket_addr(value: &str, label: &str) -> (r: Result<SocketAddr, String>)
    ensures
        match r {
            Ok(addr) => crate::addr::socket_addr(value@) == Some(addr@),
            Err(e) => crate::addr::socket_addr(value@) is None && e@ == bad_address(label@, value@),
        },
{
    match crate::addr::parse_socket_addr(value) {
        Some(addr) => Ok(addr),
        None => Err(
            "Invalid ".to_owned().concat(label).concat(" address ").concat(value).concat(
                ": ",
            ).concat(SYNTAX_FAULT),
        ),
    }
}

/// A tunnel that starts.
#[derive(Debug)]
pub struct TunnelStart {
    spec: TunnelConfig,
    done: usize,
}

impl TunnelStart {
    /// The tunnel.
    pub closed spec fn tunnel(&self) -> TunnelView {
        self.spec@
    }

    /// How many of its steps are done.
    pub closed spec fn progress(&self) -> int {
        self.done as int
    }

    /// No more steps are done than there are.
    pub open spec fn wf(&self) -> bool {
        0 <= self.progress() <= steps(self.tunnel().protocol).len()
    }

    /// Begins to start a tunnel.
    pub fn spawn(spec: TunnelConfig) -> (r: (TunnelStart, StartAction))
        ensures
            r.0.wf(),
            r.0.tunnel() == spec@,
            r.0.progress() == 0,
            r.1@ == action_after(spec@, 0),
    {
        let start = TunnelStart { spec, done: 0 };
        let action = start.next_action();
        (start, action)
    }

    /// Goes on, given the outcome of the last action. A failure undoes the whole start.
    pub fn advance(self, outcome: Result<(), String>) -> (r: (TunnelStart, StartAction))
        requires
            self.wf(),
        ensures
            r.0.wf(),
            r.0.tunnel() == self.tunnel(),
            match outcome {
                Ok(()) => {
                    &&& r.0.progress() == (if self.progress() < steps(
                        self.tunnel().protocol,
                    ).len() {
                        self.progress() + 1
                    } else {
                        self.progress()
                    })
                    &&& r.1@ == action_after(self.tunnel(), r.0.progress())
                },
                Err(error) => {
                    &&& r.0.progress() == self.progress()
                    &&& r.1@ == roll_back(self.tunnel(), self.progress(), error@)
                },
            },
    {
        match outcome {
            Ok(()) => {
                let total = Self::step_count(self.spec.protocol);
                let done: usize = if self.done < total {
                    self.done + 1
                } else {
                    self.done
                };
                let start = TunnelStart { spec: self.spec, done };
                let action = start.next_action();
                (start, action)
            },
            Err(error) => {
                let workers = self.workers();
                (self, StartAction::RollBack { workers, error })
            },
        }
    }

    fn step_count(p: Protocol) -> (r: usize)
        ensures
            r == steps(p).len(),
    {
        match p {
            Protocol::Tcp => 2,
            Protocol::Udp => 3,
            Protocol::Both => 5,
        }
    }

    fn step(&self) -> (r: Option<StartStep>)
        requires
            self.wf(),
        ensures
            match r {
                Some(step) => self.progress() < steps(self.tunnel().protocol).len() && steps(
                    self.tunnel().protocol,
                )[self.progress()] == step,
                None => self.progress() == steps(self.tunnel().protocol).len(),
            },
    {
        let udp_from: usize = match self.spec.protocol {
            Protocol::Udp => 0,
            _ => 2,
        };
        if self.done >= Self::step_count(self.spec.protocol) {
            None
        } else if self.done < udp_from {
            if self.done == 0 {
                Some(StartStep::BindTcp)
            } else {
                Some(StartStep::LaunchTcp)
            }
        } else if self.done == udp_from {
            Some(StartStep::BindUdp)
        } else if self.done == udp_from + 1 {
            Some(StartStep::ConfigureUdp)
        } else {
            Some(StartStep::LaunchUdp)
        }
    }

    /// How many workers have been launched.
    fn workers(&self) -> (r: usize)
        requires
            self.wf(),
        ensures
            r == launches(steps(self.tunnel().protocol).take(self.progress())),
    {
        proof {
            lemma_launches(self.spec@.protocol, self.done as int);
        }
        match self.spec.protocol {
            Protocol::Tcp => if self.done >= 2 {
                1
            } else {
                0
            },
            Protocol::Udp => if self.done >= 3 {
                1
            } else {
                0
            },
            Protocol::Both => if self.done >= 5 {
                2
            } else if self.done >= 2 {
                1
            } else {
                0
            },
        }
    }

    fn next_action(&self) -> (r: StartAction)
        requires
            self.wf(),
        ensures
            r@ == action_after(self.tunnel(), self.progress()),
    {
        match self.step() {
            None => StartAction::Ready,
            Some(StartStep::BindTcp) => StartAction::BindTcp { listen: self.spec.listen.clone() },
            Some(StartStep::LaunchTcp) => StartAction::LaunchTcp {
                target: self.spec.target.clone(),
            },
            Some(StartStep::BindUdp) => match parse_socket_addr(
                self.spec.target.as_str(),
                "target",
            ) {
                Ok(_) => StartAction::BindUdp { listen: self.spec.listen.clone() },
                Err(error) => StartAction::RollBack { workers: self.workers(), error },
            },
            Some(StartStep::ConfigureUdp) => StartAction::ConfigureUdp,
            Some(StartStep::LaunchUdp) => match parse_socket_addr(
                self.spec.target.as_str(),
                "target",
            ) {
                Ok(upstream) => StartAction::LaunchUdp { upstream },
                Err(error) => StartAction::RollBack { workers: self.workers(), error },
            },
        }
    }
}

/// How many workers a tunnel has launched after each number of steps: none before its first launch,
/// one for each transport that it forwards in the end.
pub proof fn lemma_launches(p: Protocol, k: int)
    requires
        0 <= k <= steps(p).len(),
    ensures
        launches(steps(p).take(k)) == match p {
            Protocol::Tcp => if k >= 2 {
                1nat
            } else {
                0nat
            },
            Protocol::Udp => if k >= 3 {
                1nat
            } else {
                0nat
            },
            Protocol::Both => if k >= 5 {
                2nat
            } else if k >= 2 {
                1nat
            } else {
                0nat
            },
        },
    decreases k,
{
    let s = steps(p).take(k);
    if k > 0 {
        lemma_launches(p, k - 1);
        assert(s.drop_last() =~= steps(p).take(k - 1));
        assert(s.last() == steps(p)[k - 1]);
    }
}

/// A tunnel that is ready has launched one worker for each transport that it forwards.
pub proof fn ready_tunnel_has_its_workers(p: Protocol)
    ensures
        launches(steps(p)) == (if p.tcp() {
            1nat
        } else {
            0nat
        }) + (if p.udp() {
            1nat
        } else {
            0nat
        }),
{
    lemma_launches(p, steps(p).len() as int);
    assert(steps(p).take(steps(p).len() as int) =~= steps(p));
}

/// A tunnel that is valid by itself is not given up for its target address.
pub proof fn valid_tunnel_is_not_given_up_by_itself(t: TunnelView, k: int)
    requires
        crate::config::tunnel_fault(t) is None,
    ensures
        !(action_after(t, k) is RollBack),
{
}

/// How a task ended.
#[derive(Debug)]
pub enum TaskEnd {
    Completed,
    Cancelled,
    Failed { error: String },
}

/// The report of a task that ended: only a failure is worth one.
pub open spec fn failure_report(prefix: Seq<char>, end: TaskEnd) -> Option<Seq<char>> {
    match end {
        TaskEnd::Failed { error } => Some(prefix + error@),
        _ => None,
    }
}

/// What a report that may be missing holds.
pub open spec fn report_view(r: Option<String>) -> Option<Seq<char>> {
    match r {
        Some(text) => Some(text@),
        None => None,
    }
}

fn report_failure(prefix: String, end: TaskEnd) -> (r: Option<String>)
    ensures
        report_view(r) == failure_report(prefix@, end),
{
    match end {
        TaskEnd::Failed { error } => Some(prefix.concat(error.as_str())),
        _ => None,
    }
}

/// A bound on the connections that are open at one time. Tunnels may share one.
#[derive(Debug)]
pub struct ConnectionLimiter {
    capacity: usize,
    open: usize,
}

/// What a `ConnectionLimiter` holds: how many connections may be open, and how many are.
pub struct LimiterView {
    pub limit: nat,
    pub in_use: nat,
}

impl View for ConnectionLimiter {
    type V = LimiterView;

    closed spec fn view(&self) -> LimiterView {
        LimiterView { limit: self.capacity as nat, in_use: self.open as nat }
    }
}

impl LimiterView {
    /// No more connections are open than may be.
    pub open spec fn wf(self) -> bool {
        self.in_use <= self.limit
    }

    /// Whether one more connection may be open.
    pub open spec fn admits(self) -> bool {
        self.in_use < self.limit
    }

    /// With one more connection open, where one may be.
    pub open spec fn opened(self) -> LimiterView {
        if self.admits() {
            LimiterView { limit: self.limit, in_use: self.in_use + 1 }
        } else {
            self
        }
    }

    /// With one connection less open, where one is.
    pub open spec fn closed(self) -> LimiterView {
        if self.in_use > 0 {
            LimiterView { limit: self.limit, in_use: (self.in_use - 1) as nat }
        } else {
            self
        }
    }
}

impl ConnectionLimiter {
    pub fn new(capacity: usize) -> (r: ConnectionLimiter)
        ensures
            r@ == (LimiterView { limit: capacity as nat, in_use: 0 }),
            r@.wf(),
    {
        ConnectionLimiter { capacity, open: 0 }
    }

    /// Admits a connection where one more may be open.
    pub fn try_open(&mut self) -> (r: bool)
        ensures
            r == old(self)@.admits(),
            final(self)@ == old(self)@.opened(),
    {
        if self.open < self.capacity {
            self.open = self.open + 1;
            true
        } else {
            false
        }
    }

    /// Gives back the place of a connection that ended.
    pub fn close(&mut self)
        ensures
            final(self)@ == old(self)@.closed(),
    {
        if self.open > 0 {
            self.open = self.open - 1;
        }
    }
}

/// The bound is kept; the end of a connection undoes its admission; and a place that is given back
/// is there for the next connection.
pub proof fn limiter_keeps_its_bound(l: LimiterView)
    requires
        l.wf(),
    ensures
        l.opened().wf(),
        l.closed().wf(),
        l.admits() ==> l.opened().closed() == l,
        l.in_use > 0 ==> l.closed().admits(),
{
}

/// What happened at a TCP listener.
#[derive(Debug)]
pub enum TcpEvent {
    /// A client connected; whether the limit of connections admits it.
    Accepted { admitted: bool },
    /// No client could be accepted; whether the tunnel is to stop.
    AcceptFailed { error: String, stopping: bool },
    /// The task of a connection ended.
    ConnectionEnded { end: TaskEnd },
    /// The tunnel is to stop.
    Stop,
}

/// What is to be done at a TCP listener.
#[derive(Debug)]
pub enum TcpAction {
    /// Serve the client.
    Serve,
    /// Close the connection to the client.
    Refuse,
    /// Wait for what happens next, after this report if there is one.
    Continue { report: Option<String> },
    /// Accept no more clients, and wait for the connections that are open.
    Drain,
    /// End with an error.
    Fail { error: String },
}

/// What a TCP tunnel does next.
pub fn run_tcp_tunnel(event: TcpEvent) -> (r: TcpAction)
    ensures
        match event {
            TcpEvent::Accepted { admitted } => if admitted {
                r is Serve
            } else {
                r is Refuse
            },
            TcpEvent::AcceptFailed { error, stopping } => if stopping {
                r is Drain
            } else {
                r matches TcpAction::Fail { error: out } && out@ == error@
            },
            TcpEvent::ConnectionEnded { end } => r matches TcpAction::Continue { report }
                && report_view(report) == failure_report("TCP connection task failed: "@, end),
            TcpEvent::Stop => r is Drain,
        },
{
    match event {
        TcpEvent::Accepted { admitted } => if admitted {
            TcpAction::Serve
        } else {
            TcpAction::Refuse
        },
        TcpEvent::AcceptFailed { error, stopping } => if stopping {
            TcpAction::Drain
        } else {
            TcpAction::Fail { error }
        },
        TcpEvent::ConnectionEnded { end } => TcpAction::Continue {
            report: report_failure("TCP connection task failed: ".to_owned(), end),
        },
        TcpEvent::Stop => TcpAction::Drain,
    }
}

/// What came of the attempt to reach the target.
#[derive(Debug)]
pub enum ConnectEvent {
    Connected,
    Failed { error: String },
    TimedOut,
    Stop,
}

/// What is to be done with a client.
#[derive(Debug)]
pub enum ConnectAction {
    /// Relay between client and target.
    Relay,
    /// Close the connection, without an error.
    Close,
    /// Close the connection, with an error.
    Fail { error: String },
}

/// `secs` as a span of time.
pub open spec fn seconds(secs: nat) -> Seq<char> {
    crate::number::decimal(secs) + "s"@
}

fn render_seconds(secs: u64) -> (r: String)
    ensures
        r@ == seconds(secs as nat),
{
    crate::number::to_decimal(secs as u128).concat("s")
}

/// What a connection does once the outcome of the connection to `target` is known.
pub fn handle_tcp_connection(event: ConnectEvent, target: &str) -> (r: ConnectAction)
    ensures
        match event {
            ConnectEvent::Connected => r is Relay,
            ConnectEvent::Failed { error } => r matches ConnectAction::Fail { error: out } && out@
                == error@,
            ConnectEvent::TimedOut => r matches ConnectAction::Fail { error: out } && out@
                == "timed out connecting to target "@ + target@ + " after "@ + seconds(
                TCP_CONNECT_TIMEOUT_SECS as nat,
            ),
            ConnectEvent::Stop => r is Close,
        },
{
    match event {
        ConnectEvent::Connected => ConnectAction::Relay,
        ConnectEvent::Failed { error } => ConnectAction::Fail { error },
        ConnectEvent::TimedOut => ConnectAction::Fail {
            error: "timed out connecting to target ".to_owned().concat(target).concat(
                " after ",
            ).concat(render_seconds(TCP_CONNECT_TIMEOUT_SECS).as_str()),
        },
        ConnectEvent::Stop => ConnectAction::Close,
    }
}

/// How far a shutdown has come.
#[derive(Debug, Clone, Copy, PartialEq, Eq, Structural)]
pub enum ShutdownStage {
    /// Tasks may end by themselves.
    Grace,
    /// Tasks have been aborted.
    Aborted,
}

/// What happened during a shutdown.
#[derive(Debug)]
pub enum ShutdownEvent {
    /// A task ended.
    Ended { end: TaskEnd },
    /// There is no task left.
    Empty,
    /// The time that tasks may take is over.
    TimedOut,
}

/// What is to be done during a shutdown.
#[derive(Debug, Clone, Copy, PartialEq, Eq, Structural)]
pub enum ShutdownAction {
    /// Wait for the next task, within the time of the stage.
    Wait,
    /// Abort what still runs, then wait.
    Abort,
    /// The shutdown is over.
    Done,
}

/// A step of a shutdown: what to report, what to do, and the stage from then on.
#[derive(Debug)]
pub struct ShutdownStep {
    pub stage: ShutdownStage,
    pub action: ShutdownAction,
    pub report: Option<String>,
}

/// How the connections of a tunnel are waited for. In the end none is left: those that do not end
/// in time are aborted.
pub fn drain_tcp_connections(stage: ShutdownStage, event: ShutdownEvent) -> (r: ShutdownStep)
    ensures
        match event {
            ShutdownEvent::Ended { end } => {
                &&& r.stage == stage
                &&& r.action is Wait
                &&& report_view(r.report) == failure_report(
                    if stage is Grace {
                        "TCP connection task failed during shutdown: "@
                    } else {
                        "TCP connection task failed after abort: "@
                    },
                    end,
                )
            },
            ShutdownEvent::Empty => r.stage == stage && r.action is Done && r.report is None,
            ShutdownEvent::TimedOut => if stage is Grace {
                &&& r.stage is Aborted
                &&& r.action is Abort
                &&& report_view(r.report) == Some(
                    "Warning: TCP connection tasks did not stop within "@ + seconds(
                        SHUTDOWN_GRACE_SECS as nat,
                    ) + "; aborting them."@,
                )
            } else {
                r.stage == stage && r.action is Wait && r.report is None
            },
        },
{
    match event {
        ShutdownEvent::Ended { end } => {
            let prefix = match stage {
                ShutdownStage::Grace => "TCP connection task failed during shutdown: ",
                ShutdownStage::Aborted => "TCP connection task failed after abort: ",
            };
            ShutdownStep {
                stage,
                action: ShutdownAction::Wait,
                report: report_failure(prefix.to_owned(), end),
            }
        },
        ShutdownEvent::Empty => ShutdownStep { stage, action: ShutdownAction::Done, report: None },
        ShutdownEvent::TimedOut => match stage {
            ShutdownStage::Grace => ShutdownStep {
                stage: ShutdownStage::Aborted,
                action: ShutdownAction::Abort,
                report: Some(
                    "Warning: TCP connection tasks did not stop within ".to_owned().concat(
                        render_seconds(SHUTDOWN_GRACE_SECS).as_str(),
                    ).concat("; aborting them."),
                ),
            },
            ShutdownStage::Aborted => ShutdownStep {
                stage,
                action: ShutdownAction::Wait,
                report: None,
            },
        },
    }
}

/// How one task, called `label` in reports, is waited for.
pub fn wait_for_task_shutdown(stage: ShutdownStage, event: ShutdownEvent, label: &str) -> (r:
    ShutdownStep)
    ensures
        match event {
            ShutdownEvent::Ended { end } => {
                &&& r.stage == stage
                &&& r.action is Done
                &&& report_view(r.report) == failure_report(
                    label@ + (if stage is Grace {
                        " failed while stopping: "@
                    } else {
                        " failed after abort: "@
                    }),
                    end,
                )
            },
            ShutdownEvent::Empty => r.stage == stage && r.action is Done && r.report is None,
            ShutdownEvent::TimedOut => if stage is Grace {
                &&& r.stage is Aborted
                &&& r.action is Abort
                &&& report_view(r.report) == Some(
                    "Warning: "@ + label@ + " did not stop within "@ + seconds(
                        SHUTDOWN_GRACE_SECS as nat,
                    ) + "; aborting it."@,
                )
            } else {
                r.stage == stage && r.action is Wait && r.report is None
            },
        },
{
    match event {
        ShutdownEvent::Ended { end } => {
            let link = match stage {
                ShutdownStage::Grace => " failed while stopping: ",
                ShutdownStage::Aborted => " failed after abort: ",
            };
            ShutdownStep {
                stage,
                action: ShutdownAction::Done,
                report: report_failure(label.to_owned().concat(link), end),
            }
        },
        ShutdownEvent::Empty => ShutdownStep { stage, action: ShutdownAction::Done, report: None },
        ShutdownEvent::TimedOut => match stage {
            ShutdownStage::Grace => ShutdownStep {
                stage: ShutdownStage::Aborted,
                action: ShutdownAction::Abort,
                report: Some(
                    "Warning: ".to_owned().concat(label).concat(" did not stop within ").concat(
                        render_seconds(SHUTDOWN_GRACE_SECS).as_str(),
                    ).concat("; aborting it."),
                ),
            },
            ShutdownStage::Aborted => ShutdownStep {
                stage,
                action: ShutdownAction::Wait,
                report: None,
            },
        },
    }
}

/// Whether a tunnel is to stop: it was told so, or nobody is left who could tell it.
pub fn wait_for_shutdown(told: bool, channel_open: bool) -> (r: bool)
    ensures
        r == (told || !channel_open),
{
    told || !channel_open
}

/// Whether a worker of a tunnel has ended, which ends the tunnel.
pub fn has_finished(ended: &Vec<bool>) -> (r: bool)
    ensures
        r == exists|i: int| 0 <= i < ended@.len() && #[trigger] ended@[i],
{
    let mut i: usize = 0;
    while i < ended.len()
        invariant
            i <= ended.len(),
            forall|j: int| 0 <= j < i ==> !#[trigger] ended@[j],
        decreases ended.len() - i,
    {
        if ended[i] {
            assert(ended@[i as int]);
            return true;
        }
        i = i + 1;
    }
    false
}

/// What happened at a UDP socket.
#[derive(Debug)]
pub enum UdpEvent {
    /// A datagram was received.
    Received,
    /// No datagram could be received; whether the tunnel is to stop.
    ReceiveFailed { error: String, stopping: bool },
    /// The datagram was forwarded.
    Forwarded,
    /// The datagram could not be forwarded; whether the tunnel is to stop.
    ForwardFailed { error: String, stopping: bool },
    /// The tunnel is to stop.
    Stop,
}

/// What is to be done at a UDP socket.
#[derive(Debug)]
pub enum UdpAction {
    /// Forward the datagram.
    Forward,
    /// Wait for what happens next, after this report if there is one.
    Continue { report: Option<String> },
    /// End without an error.
    Finish,
    /// End with an error.
    Fail { error: String },
}

/// What the UDP tunnel `name` does next.
pub fn run_udp_tunnel(event: UdpEvent, name: &str) -> (r: UdpAction)
    ensures
        match event {
            UdpEvent::Received => r is Forward,
            UdpEvent::ReceiveFailed { error, stopping } => if stopping {
                r is Finish
            } else {
                r matches UdpAction::Fail { error: out } && out@ == error@
            },
            UdpEvent::Forwarded => r matches UdpAction::Continue { report } && report is None,
            UdpEvent::ForwardFailed { error, stopping } => if stopping {
                r is Finish
            } else {
                r matches UdpAction::Continue { report } && report_view(report) == Some(
                    "UDP tunnel '"@ + name@ + "' forward failed: "@ + error@,
                )
            },
            UdpEvent::Stop => r is Finish,
        },
{
    match event {
        UdpEvent::Received => UdpAction::Forward,
        UdpEvent::ReceiveFailed { error, stopping } => if stopping {
            UdpAction::Finish
        } else {
            UdpAction::Fail { error }
        },
        UdpEvent::Forwarded => UdpAction::Continue { report: None },
        UdpEvent::ForwardFailed { error, stopping } => if stopping {
            UdpAction::Finish
        } else {
            UdpAction::Continue {
                report: Some(
                    "UDP tunnel '".to_owned().concat(name).concat("' forward failed: ").concat(
                        error.as_str(),
                    ),
                ),
            }
        },
        UdpEvent::Stop => UdpAction::Finish,
    }
}

/// Why a datagram was not delivered.
#[derive(Debug, Clone, Copy, PartialEq, Eq, Structural)]
pub enum DatagramFault {
    /// Only a part of it was sent.
    Partial,
    /// The socket that it was to be sent from is gone.
    ListenerClosed,
}

impl DatagramFault {
    pub open spec fn text(self) -> Seq<char> {
        match self {
            DatagramFault::Partial => "UDP socket sent a partial datagram"@,
            DatagramFault::ListenerClosed => "UDP listener closed"@,
        }
    }

    /// The sentence that describes the fault.
    pub fn message(self) -> (r: &'static str)
        ensures
            r@ == self.text(),
    {
        match self {
            DatagramFault::Partial => "UDP socket sent a partial datagram",
            DatagramFault::ListenerClosed => "UDP listener closed",
        }
    }
}

/// Judges a datagram of `len` bytes of which `sent` were sent; `None` where there was no socket to
/// send it from.
pub fn datagram_sent(sent: Option<usize>, len: usize) -> (r: Result<(), DatagramFault>)
    ensures
        r == (match sent {
            Some(n) => if n == len {
                Ok::<(), DatagramFault>(())
            } else {
                Err(DatagramFault::Partial)
            },
            None => Err(DatagramFault::ListenerClosed),
        }),
{
    match sent {
        Some(n) => if n == len {
            Ok(())
        } else {
            Err(DatagramFault::Partial)
        },
        None => Err(DatagramFault::ListenerClosed),
    }
}

/// The address that a socket towards `target` is bound to: any address of the same family, and any
/// port.
pub fn upstream_bind_addr(target: SocketAddr) -> (r: SocketAddr)
    ensures
        r@ == (match target@ {
            SocketAddrView::V4 { .. } => SocketAddrView::V4 {
                ip: Ipv4Addr { a: 0, b: 0, c: 0, d: 0 },
                port: 0,
            },
            SocketAddrView::V6 { .. } => SocketAddrView::V6 {
                segments: crate::addr::zeros(8),
                scope_id: 0,
                port: 0,
            },
        }),
{
    match target {
        SocketAddr::V4 { .. } => SocketAddr::V4 { ip: Ipv4Addr::new(0, 0, 0, 0), port: 0 },
        SocketAddr::V6 { .. } => {
            let r = SocketAddr::V6 {
                ip6: Ipv6Addr { segments: [0, 0, 0, 0, 0, 0, 0, 0] },
                scope_id: 0,
                port: 0,
            };
            assert(r@->segments =~= crate::addr::zeros(8));
            r
        },
    }
}

/// A kernel buffer of a socket.
#[derive(Debug, Clone, Copy, PartialEq, Eq, Structural)]
pub enum SocketBuffer {
    Receive,
    Send,
}

/// The buffers of a socket to set, in order, with their sizes.
pub fn tune_socket_buffers(recv_bytes: i32, send_bytes: i32) -> (r: Vec<(SocketBuffer, i32)>)
    ensures
        r@ == seq![(SocketBuffer::Receive, recv_bytes), (SocketBuffer::Send, send_bytes)],
{
    let mut r: Vec<(SocketBuffer, i32)> = Vec::new();
    r.push((SocketBuffer::Receive, recv_bytes));
    r.push((SocketBuffer::Send, send_bytes));
    assert(r@ =~= seq![(SocketBuffer::Receive, recv_bytes), (SocketBuffer::Send, send_bytes)]);
    r
}

/// A tunnel binds a TCP listener and launches a TCP worker exactly where its protocol is TCP or
/// both; it binds a UDP socket, configures it and launches a UDP worker exactly where its protocol
/// is UDP or both. No step comes twice.
pub proof fn steps_follow_the_protocol(p: Protocol)
    ensures
        steps(p).no_duplicates(),
        steps(p).contains(StartStep::BindTcp) <==> p == Protocol::Tcp || p == Protocol::Both,
        steps(p).contains(StartStep::LaunchTcp) <==> p == Protocol::Tcp || p == Protocol::Both,
        steps(p).contains(StartStep::BindUdp) <==> p == Protocol::Udp || p == Protocol::Both,
        steps(p).contains(StartStep::ConfigureUdp) <==> p == Protocol::Udp || p == Protocol::Both,
        steps(p).contains(StartStep::LaunchUdp) <==> p == Protocol::Udp || p == Protocol::Both,
{
    let s = steps(p);
    match p {
        Protocol::Tcp => {
            assert(s.len() == 2 && s[0] is BindTcp && s[1] is LaunchTcp);
        },
        Protocol::Udp => {
            assert(s.len() == 3 && s[0] is BindUdp && s[1] is ConfigureUdp && s[2] is LaunchUdp);
        },
        Protocol::Both => {
            assert(s.len() == 5 && s[0] is BindTcp && s[1] is LaunchTcp && s[2] is BindUdp
                && s[3] is ConfigureUdp && s[4] is LaunchUdp);
        },
    }
}

/// What a worker serves is there before it is launched: the TCP listener is bound before, and the
/// UDP socket is bound, then configured. TCP comes before UDP.
pub proof fn sockets_come_before_workers(p: Protocol, i: int, j: int)
    requires
        0 <= i < steps(p).len(),
        0 <= j < steps(p).len(),
    ensures
        steps(p)[i] is BindTcp && steps(p)[j] is LaunchTcp ==> i < j,
        steps(p)[i] is BindUdp && steps(p)[j] is ConfigureUdp ==> i < j,
        steps(p)[i] is ConfigureUdp && steps(p)[j] is LaunchUdp ==> i < j,
        steps(p)[i] is LaunchTcp && steps(p)[j] is BindUdp ==> i < j,
{
}

/// The start of a valid tunnel, action by action: its listen address is bound, its target address
/// is handed to its workers, for TCP as it is written and for UDP as the address that it stands
/// for.
pub proof fn valid_tunnel_starts_as_configured(t: TunnelView)
    requires
        crate::config::tunnel_fault(t) is None,
    ensures
        ({
            let bind_tcp = ActionView::BindTcp { listen: t.listen };
            let serve_tcp = ActionView::LaunchTcp { target: t.target };
            let bind_udp = ActionView::BindUdp { listen: t.listen };
            let serve_udp = ActionView::LaunchUdp {
                upstream: crate::addr::socket_addr(t.target)->0,
            };
            match t.protocol {
                Protocol::Tcp => {
                    &&& action_after(t, 0) == bind_tcp
                    &&& action_after(t, 1) == serve_tcp
                    &&& action_after(t, 2) is Ready
                },
                Protocol::Udp => {
                    &&& action_after(t, 0) == bind_udp
                    &&& action_after(t, 1) is ConfigureUdp
                    &&& action_after(t, 2) == serve_udp
                    &&& action_after(t, 3) is Ready
                },
                Protocol::Both => {
                    &&& action_after(t, 0) == bind_tcp
                    &&& action_after(t, 1) == serve_tcp
                    &&& action_after(t, 2) == bind_udp
                    &&& action_after(t, 3) is ConfigureUdp
                    &&& action_after(t, 4) == serve_udp
                    &&& action_after(t, 5) is Ready
                },
            }
        }),
{
    let s = steps(t.protocol);
    match t.protocol {
        Protocol::Tcp => {
            assert(s.len() == 2 && s[0] is BindTcp && s[1] is LaunchTcp);
        },
        Protocol::Udp => {
            assert(s.len() == 3 && s[0] is BindUdp && s[1] is ConfigureUdp && s[2] is LaunchUdp);
        },
        Protocol::Both => {
            assert(s.len() == 5 && s[0] is BindTcp && s[1] is LaunchTcp && s[2] is BindUdp
                && s[3] is ConfigureUdp && s[4] is LaunchUdp);
        },
    }
}

/// A tunnel that forwards UDP to no socket address is given up before its UDP socket is bound, with
/// a sentence that names the address; the TCP worker that was launched before is stopped.
pub proof fn bad_udp_target_gives_the_tunnel_up(t: TunnelView)
    requires
        crate::addr::socket_addr(t.target) is None,
    ensures
        ({
            let error = "Invalid target address "@ + t.target + ": invalid socket address syntax"@;
            &&& t.protocol == Protocol::Udp ==> action_after(t, 0) == (ActionView::RollBack {
                workers: 0,
                error,
            })
            &&& t.protocol == Protocol::Both ==> action_after(t, 2) == (ActionView::RollBack {
                workers: 1,
                error,
            })
            &&& t.protocol == Protocol::Tcp ==> !(action_after(t, 0) is RollBack)
                && !(action_after(t, 1) is RollBack)
            &&& forall|k: int|
                match #[trigger] action_after(t, k) {
                    ActionView::BindUdp { .. } => false,
                    ActionView::LaunchUdp { .. } => false,
                    ActionView::RollBack { workers: _, error: told } => told == error,
                    _ => true,
                }
        }),
{
    let p = t.protocol;
    let s = steps(p);
    let error = "Invalid target address "@ + t.target + ": invalid socket address syntax"@;
    reveal_strlit("Invalid ");
    reveal_strlit("target");
    reveal_strlit(" address ");
    reveal_strlit("Invalid target address ");
    reveal_strlit(": ");
    reveal_strlit("invalid socket address syntax");
    reveal_strlit(": invalid socket address syntax");
    assert("Invalid "@ + "target"@ + " address "@ =~= "Invalid target address "@);
    assert(": "@ + "invalid socket address syntax"@ =~= ": invalid socket address syntax"@);
    assert(bad_address("target"@, t.target) =~= error);
    match p {
        Protocol::Tcp => {
            assert(s.len() == 2 && s[0] is BindTcp && s[1] is LaunchTcp);
        },
        Protocol::Udp => {
            lemma_launches(p, 0);
            assert(s.len() == 3 && s[0] is BindUdp);
        },
        Protocol::Both => {
            lemma_launches(p, 2);
            assert(s.len() == 5 && s[2] is BindUdp);
        },
    }
}

/// Whether an action launches a worker.
pub open spec fn launches_worker(action: ActionView) -> bool {
    action is LaunchTcp || action is LaunchUdp
}

/// A start that fails stops as many workers as its actions have launched, and hands the error on.
pub proof fn failed_start_stops_what_it_launched(t: TunnelView, k: int, error: Seq<char>)
    requires
        crate::config::tunnel_fault(t) is None,
        0 <= k <= steps(t.protocol).len(),
    ensures
        roll_back(t, k, error) matches ActionView::RollBack { workers, error: told } && told
            == error && workers == Seq::new(k as nat, |i: int| action_after(t, i)).filter(
            |a: ActionView| launches_worker(a),
        ).len(),
    decreases k,
{
    let launched = |a: ActionView| launches_worker(a);
    let actions = Seq::new(k as nat, |i: int| action_after(t, i));
    reveal(Seq::filter);
    lemma_launches(t.protocol, k);
    if k > 0 {
        failed_start_stops_what_it_launched(t, k - 1, error);
        lemma_launches(t.protocol, k - 1);
        let before = Seq::new((k - 1) as nat, |i: int| action_after(t, i));
        assert(actions.drop_last() =~= before);
        assert(actions.last() == action_after(t, k - 1));
        valid_tunnel_starts_as_configured(t);
    }
}

/// A task that failed is reported with its error; one that ended or was cancelled is not.
pub proof fn only_failures_are_reported(prefix: Seq<char>, error: String)
    ensures
        failure_report(prefix, TaskEnd::Failed { error }) == Some(prefix + error@),
        failure_report(prefix, TaskEnd::Completed) is None,
        failure_report(prefix, TaskEnd::Cancelled) is None,
{
}

/// A place is taken and given back one at a time; the bound itself never changes.
pub proof fn limiter_counts_by_one(l: LimiterView)
    ensures
        l.admits() <==> l.in_use < l.limit,
        l.in_use < l.limit ==> l.opened().in_use == l.in_use + 1,
        l.in_use >= l.limit ==> l.opened() == l,
        l.in_use > 0 ==> l.closed().in_use == l.in_use - 1,
        l.in_use == 0 ==> l.closed() == l,
        l.opened().limit == l.limit,
        l.closed().limit == l.limit,
{
}

/// The times and sizes that tunnels are run with.
pub proof fn tunnels_are_run_with_these_limits()
    ensures
        SHUTDOWN_GRACE_SECS == 3,
        HEALTH_CHECK_SECS == 1,
        TCP_CONNECT_TIMEOUT_SECS == 10,
        UDP_SOCKET_BUFFER_SIZE == 4 * 1024 * 1024,
        UDP_PACKET_BUFFER_SIZE == 65535,
{
}

/// A span of time is written as a number of seconds, which reads back.
pub proof fn seconds_read_back(secs: nat)
    ensures
        seconds(secs).len() > 1,
        seconds(secs).last() == 's',
        crate::number::digits(seconds(secs).drop_last()),
        crate::number::value(seconds(secs).drop_last()) == secs,
{
    reveal_strlit("s");
    crate::number::decimal_reads_back(secs);
    assert(seconds(secs).drop_last() =~= crate::number::decimal(secs));
}

/// The sentence for an address that does not parse names the address and what it is for.
pub proof fn bad_address_is_named(label: Seq<char>, value: Seq<char>)
    ensures
        bad_address(label, value) == "Invalid "@ + label + " address "@ + value + ": "@
            + "invalid socket address syntax"@,
{
}

} // verus!
