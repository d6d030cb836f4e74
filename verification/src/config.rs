//! The configuration: its tunnels, when it is valid, and how it is loaded and saved.
use vstd::prelude::*;
use vstd::std_specs::cmp::PartialEqSpecImpl;
use vstd::string::StringExecFns;

use crate::addr::{parse_socket_addr, SYNTAX_FAULT};
use crate::number::to_decimal;
use crate::text::is_blank;

verus! {

/// Which traffic a tunnel forwards.
#[derive(Debug, Clone, Copy, PartialEq, Eq, Structural)]
pub enum Protocol {
    Tcp,
    Udp,
    Both,
}

/// What a TCP tunnel is tuned for.
#[derive(Debug, Clone, Copy, PartialEq, Eq, Structural)]
pub enum TcpMode {
    Auto,
    Throughput,
    Latency,
}

/// How traffic is forwarded: by sockets of the process itself, or by nftables rules.
#[derive(Debug, Clone, Copy, PartialEq, Eq, Structural)]
pub enum AppMode {
    Socket,
    Nft,
}

/// One tunnel: traffic that reaches `listen` is forwarded to `target`.
#[derive(Debug)]
pub struct TunnelConfig {
    pub name: String,
    pub listen: String,
    pub target: String,
    pub protocol: Protocol,
    pub tcp_mode: TcpMode,
    pub enabled: bool,
}

/// The whole configuration.
#[derive(Debug)]
pub struct AppConfig {
    pub daemon_log: bool,
    pub mode: AppMode,
    pub tunnels: Vec<TunnelConfig>,
}

/// What a `TunnelConfig` holds.
pub struct TunnelView {
    pub name: Seq<char>,
    pub listen: Seq<char>,
    pub target: Seq<char>,
    pub protocol: Protocol,
    pub tcp_mode: TcpMode,
    pub enabled: bool,
}

/// What an `AppConfig` holds.
pub struct ConfigView {
    pub daemon_log: bool,
    pub mode: AppMode,
    pub tunnels: Seq<TunnelView>,
}

impl View for TunnelConfig {
    type V = TunnelView;

    open spec fn view(&self) -> TunnelView {
        TunnelView {
            name: self.name@,
            listen: self.listen@,
            target: self.target@,
            protocol: self.protocol,
            tcp_mode: self.tcp_mode,
            enabled: self.enabled,
        }
    }
}

impl TunnelConfig {
    /// What a list of tunnels holds.
    pub open spec fn views(tunnels: Seq<TunnelConfig>) -> Seq<TunnelView> {
        tunnels.map_values(|t: TunnelConfig| t@)
    }
}

impl View for AppConfig {
    type V = ConfigView;

    open spec fn view(&self) -> ConfigView {
        ConfigView {
            daemon_log: self.daemon_log,
            mode: self.mode,
            tunnels: TunnelConfig::views(self.tunnels@),
        }
    }
}

/// Why a configuration is refused.
#[derive(Debug)]
pub enum ConfigError {
    EmptyName,
    InvalidListen { address: String },
    InvalidTarget { address: String },
    DuplicateName { name: String },
    NotFound { path: String },
    EmptyFile { path: String },
}

/// What a `ConfigError` holds.
pub enum ConfigFault {
    EmptyName,
    InvalidListen { address: Seq<char> },
    InvalidTarget { address: Seq<char> },
    DuplicateName { name: Seq<char> },
    NotFound { path: Seq<char> },
    EmptyFile { path: Seq<char> },
}

impl View for ConfigError {
    type V = ConfigFault;

    open spec fn view(&self) -> ConfigFault {
        match self {
            ConfigError::EmptyName => ConfigFault::EmptyName,
            ConfigError::InvalidListen { address } => ConfigFault::InvalidListen {
                address: address@,
            },
            ConfigError::InvalidTarget { address } => ConfigFault::InvalidTarget {
                address: address@,
            },
            ConfigError::DuplicateName { name } => ConfigFault::DuplicateName { name: name@ },
            ConfigError::NotFound { path } => ConfigFault::NotFound { path: path@ },
            ConfigError::EmptyFile { path } => ConfigFault::EmptyFile { path: path@ },
        }
    }
}

impl ConfigFault {
    /// The sentence that describes the fault.
    pub open spec fn text(self) -> Seq<char> {
        match self {
            ConfigFault::EmptyName => "Tunnel name cannot be empty."@,
            ConfigFault::InvalidListen { address } => "Invalid listen address "@ + address + ": "@
                + SYNTAX_FAULT@,
            ConfigFault::InvalidTarget { address } => "Invalid target address "@ + address + ": "@
                + SYNTAX_FAULT@,
            ConfigFault::DuplicateName { name } => "Duplicate tunnel name: "@ + name,
            ConfigFault::NotFound { path } => "Config file not found: "@ + path,
            ConfigFault::EmptyFile { path } => "Config file is empty: "@ + path,
        }
    }
}

impl ConfigError {
    /// The sentence that describes the error.
    pub fn message(&self) -> (r: String)
        ensures
            r@ == self@.text(),
    {
        match self {
            ConfigError::EmptyName => "Tunnel name cannot be empty.".to_owned(),
            ConfigError::InvalidListen { address } => "Invalid listen address ".to_owned().concat(
                address.as_str(),
            ).concat(": ").concat(SYNTAX_FAULT),
            ConfigError::InvalidTarget { address } => "Invalid target address ".to_owned().concat(
                address.as_str(),
            ).concat(": ").concat(SYNTAX_FAULT),
            ConfigError::DuplicateName { name } => "Duplicate tunnel name: ".to_owned().concat(
                name.as_str(),
            ),
            ConfigError::NotFound { path } => "Config file not found: ".to_owned().concat(
                path.as_str(),
            ),
            ConfigError::EmptyFile { path } => "Config file is empty: ".to_owned().concat(
                path.as_str(),
            ),
        }
    }
}

/// Why a tunnel is refused by itself: the first fault of name, listen address and target address.
pub open spec fn tunnel_fault(t: TunnelView) -> Option<ConfigFault> {
    if crate::text::trimmed(t.name).len() == 0 {
        Some(ConfigFault::EmptyName)
    } else if crate::addr::socket_addr(t.listen) is None {
        Some(ConfigFault::InvalidListen { address: t.listen })
    } else if crate::addr::socket_addr(t.target) is None {
        Some(ConfigFault::InvalidTarget { address: t.target })
    } else {
        None
    }
}

/// Whether one of `tunnels` has the name `name`.
pub open spec fn has_name(tunnels: Seq<TunnelView>, name: Seq<char>) -> bool {
    exists|i: int| 0 <= i < tunnels.len() && (#[trigger] tunnels[i]).name == name
}

/// Why `tunnels` are refused together: the fault of the first tunnel that is refused by itself or
/// has the name of one before it.
pub open spec fn tunnels_fault(tunnels: Seq<TunnelView>) -> Option<ConfigFault>
    decreases tunnels.len(),
{
    if tunnels.len() == 0 {
        None
    } else {
        let before = tunnels.drop_last();
        let last = tunnels.last();
        if tunnels_fault(before) is Some {
            tunnels_fault(before)
        } else if tunnel_fault(last) is Some {
            tunnel_fault(last)
        } else if has_name(before, last.name) {
            Some(ConfigFault::DuplicateName { name: last.name })
        } else {
            None
        }
    }
}

/// Whether no two of `tunnels` have the same name.
pub open spec fn distinct_names(tunnels: Seq<TunnelView>) -> bool {
    forall|i: int, j: int|
        0 <= i < j < tunnels.len() ==> (#[trigger] tunnels[i]).name != (#[trigger] tunnels[j]).name
}

/// Whether every tunnel is valid by itself and no two have the same name.
pub open spec fn valid_tunnels(tunnels: Seq<TunnelView>) -> bool {
    &&& forall|i: int| 0 <= i < tunnels.len() ==> tunnel_fault(#[trigger] tunnels[i]) is None
    &&& distinct_names(tunnels)
}

/// Tunnels are accepted exactly where each is valid by itself and their names are distinct.
pub proof fn accepted_iff_valid(tunnels: Seq<TunnelView>)
    ensures
        tunnels_fault(tunnels) is None <==> valid_tunnels(tunnels),
    decreases tunnels.len(),
{
    if tunnels.len() > 0 {
        let before = tunnels.drop_last();
        let last = tunnels.last();
        accepted_iff_valid(before);
        if tunnels_fault(tunnels) is None {
            assert forall|i: int| 0 <= i < tunnels.len() implies tunnel_fault(
                #[trigger] tunnels[i],
            ) is None by {
                if i < before.len() {
                    assert(before[i] == tunnels[i]);
                }
            }
            assert forall|i: int, j: int| 0 <= i < j < tunnels.len() implies (
            #[trigger] tunnels[i]).name != (#[trigger] tunnels[j]).name by {
                assert(before[i] == tunnels[i]);
                if j < before.len() {
                    assert(before[j] == tunnels[j]);
                } else {
                    assert(tunnels[j] == last);
                    assert(!has_name(before, last.name));
                }
            }
        }
        if valid_tunnels(tunnels) {
            assert forall|i: int| 0 <= i < before.len() implies tunnel_fault(
                #[trigger] before[i],
            ) is None by {
                assert(before[i] == tunnels[i]);
            }
            assert forall|i: int, j: int| 0 <= i < j < before.len() implies (
            #[trigger] before[i]).name != (#[trigger] before[j]).name by {
                assert(before[i] == tunnels[i] && before[j] == tunnels[j]);
            }
            assert(tunnel_fault(tunnels[tunnels.len() - 1]) is None);
            assert forall|i: int| 0 <= i < before.len() implies (#[trigger] before[i]).name
                != last.name by {
                assert(before[i] == tunnels[i] && last == tunnels[tunnels.len() - 1]);
            }
        }
    }
}

/// The refusal of a list is the refusal of any start of it that is refused.
pub proof fn first_fault_stays(tunnels: Seq<TunnelView>, k: int)
    requires
        0 <= k <= tunnels.len(),
        tunnels_fault(tunnels.take(k)) is Some,
    ensures
        tunnels_fault(tunnels) == tunnels_fault(tunnels.take(k)),
    decreases tunnels.len() - k,
{
    if k < tunnels.len() {
        assert(tunnels.take(k + 1).drop_last() =~= tunnels.take(k));
        first_fault_stays(tunnels, k + 1);
    } else {
        assert(tunnels.take(k) =~= tunnels);
    }
}

/// The enabled ones of valid tunnels are valid together.
pub proof fn enabled_tunnels_are_valid(tunnels: Seq<TunnelView>)
    requires
        valid_tunnels(tunnels),
    ensures
        valid_tunnels(tunnels.filter(|t: TunnelView| t.enabled)),
{
    let on = |t: TunnelView| t.enabled;
    lemma_filter_keeps_valid(tunnels, on);
}

proof fn lemma_filter_keeps_valid(tunnels: Seq<TunnelView>, keep: spec_fn(TunnelView) -> bool)
    requires
        valid_tunnels(tunnels),
    ensures
        valid_tunnels(tunnels.filter(keep)),
        forall|i: int|
            0 <= i < tunnels.filter(keep).len() ==> tunnels.contains(
                #[trigger] tunnels.filter(keep)[i],
            ),
    decreases tunnels.len(),
{
    reveal(Seq::filter);
    if tunnels.len() > 0 {
        let before = tunnels.drop_last();
        let last = tunnels.last();
        accepted_iff_valid(tunnels);
        accepted_iff_valid(before);
        lemma_filter_keeps_valid(before, keep);
        let r = tunnels.filter(keep);
        let b = before.filter(keep);
        assert forall|i: int| 0 <= i < r.len() implies tunnels.contains(#[trigger] r[i]) by {
            if i < b.len() {
                assert(before.contains(b[i]));
                let j = choose|j: int| 0 <= j < before.len() && before[j] == b[i];
                assert(tunnels[j] == b[i]);
            } else {
                assert(tunnels[tunnels.len() - 1] == last);
            }
        }
        assert forall|i: int| 0 <= i < r.len() implies tunnel_fault(#[trigger] r[i]) is None by {
            let j = choose|j: int| 0 <= j < tunnels.len() && tunnels[j] == r[i];
            assert(tunnel_fault(tunnels[j]) is None);
        }
        assert forall|i: int, j: int| 0 <= i < j < r.len() implies (#[trigger] r[i]).name != (
        #[trigger] r[j]).name by {
            assert(r[i] == b[i]);
            if j < b.len() {
                assert(r[j] == b[j]);
            } else {
                assert(before.contains(b[i]));
                let k = choose|k: int| 0 <= k < before.len() && before[k] == b[i];
                assert(tunnels[k].name != tunnels[tunnels.len() - 1].name);
            }
        }
    }
}

/// Whether a tunnel is enabled where nothing says so.
pub fn default_enabled() -> (r: bool)
    ensures
        r,
{
    true
}

/// The TCP mode of a tunnel where nothing says so.
pub fn default_tcp_mode() -> (r: TcpMode)
    ensures
        r == TcpMode::Auto,
{
    TcpMode::Auto
}

impl Default for TcpMode {
    fn default() -> (r: TcpMode)
        ensures
            r == TcpMode::Auto,
    {
        TcpMode::Auto
    }
}

impl Default for AppMode {
    fn default() -> (r: AppMode)
        ensures
            r == AppMode::Socket,
    {
        AppMode::Socket
    }
}

impl Default for TunnelConfig {
    fn default() -> (r: TunnelConfig)
        ensures
            r@ == (TunnelView {
                name: ""@,
                listen: "0.0.0.0:0"@,
                target: "127.0.0.1:0"@,
                protocol: Protocol::Tcp,
                tcp_mode: TcpMode::Auto,
                enabled: true,
            }),
    {
        TunnelConfig {
            name: "".to_owned(),
            listen: "0.0.0.0:0".to_owned(),
            target: "127.0.0.1:0".to_owned(),
            protocol: Protocol::Tcp,
            tcp_mode: TcpMode::Auto,
            enabled: true,
        }
    }
}

impl Default for AppConfig {
    fn default() -> (r: AppConfig)
        ensures
            r@ == empty_config(),
    {
        let r = AppConfig { daemon_log: false, mode: AppMode::Socket, tunnels: Vec::new() };
        assert(r@.tunnels =~= seq![]);
        r
    }
}

impl Clone for TunnelConfig {
    fn clone(&self) -> (r: TunnelConfig)
        ensures
            r@ == self@,
    {
        TunnelConfig {
            name: self.name.clone(),
            listen: self.listen.clone(),
            target: self.target.clone(),
            protocol: self.protocol,
            tcp_mode: self.tcp_mode,
            enabled: self.enabled,
        }
    }
}

/// A copy of a list of tunnels.
pub fn copy_tunnels(tunnels: &Vec<TunnelConfig>) -> (r: Vec<TunnelConfig>)
    ensures
        TunnelConfig::views(r@) == TunnelConfig::views(tunnels@),
{
    let mut r: Vec<TunnelConfig> = Vec::new();
    let mut i: usize = 0;
    while i < tunnels.len()
        invariant
            i <= tunnels.len(),
            TunnelConfig::views(r@) == TunnelConfig::views(tunnels@).take(i as int),
        decreases tunnels.len() - i,
    {
        let ghost before = r@;
        let t = tunnels[i].clone();
        r.push(t);
        assert(TunnelConfig::views(r@) =~= TunnelConfig::views(before).push(t@));
        assert(TunnelConfig::views(tunnels@).take(i + 1) =~= TunnelConfig::views(tunnels@).take(
            i as int,
        ).push(tunnels@[i as int]@));
        i = i + 1;
    }
    assert(TunnelConfig::views(tunnels@).take(i as int) =~= TunnelConfig::views(tunnels@));
    r
}

impl Clone for AppConfig {
    fn clone(&self) -> (r: AppConfig)
        ensures
            r@ == self@,
    {
        AppConfig {
            daemon_log: self.daemon_log,
            mode: self.mode,
            tunnels: copy_tunnels(&self.tunnels),
        }
    }
}

impl PartialEqSpecImpl for TunnelConfig {
    open spec fn obeys_eq_spec() -> bool {
        true
    }

    open spec fn eq_spec(&self, other: &TunnelConfig) -> bool {
        self@ == other@
    }
}

impl PartialEq for TunnelConfig {
    fn eq(&self, other: &TunnelConfig) -> (r: bool) {
        self.name == other.name && self.listen == other.listen && self.target == other.target
            && self.protocol == other.protocol && self.tcp_mode == other.tcp_mode && self.enabled
            == other.enabled
    }
}

impl Eq for TunnelConfig {

}

/// Whether two lists hold the same tunnels in the same order.
pub fn same_tunnels(a: &Vec<TunnelConfig>, b: &Vec<TunnelConfig>) -> (r: bool)
    ensures
        r == (TunnelConfig::views(a@) == TunnelConfig::views(b@)),
{
    if a.len() != b.len() {
        assert(TunnelConfig::views(a@).len() != TunnelConfig::views(b@).len());
        return false;
    }
    let mut i: usize = 0;
    while i < a.len()
        invariant
            i <= a.len() == b.len(),
            forall|j: int| 0 <= j < i ==> TunnelConfig::views(a@)[j] == TunnelConfig::views(b@)[j],
        decreases a.len() - i,
    {
        if a[i] != b[i] {
            assert(TunnelConfig::views(a@)[i as int] != TunnelConfig::views(b@)[i as int]);
            return false;
        }
        i = i + 1;
    }
    assert(TunnelConfig::views(a@) =~= TunnelConfig::views(b@));
    true
}

impl PartialEqSpecImpl for AppConfig {
    open spec fn obeys_eq_spec() -> bool {
        true
    }

    open spec fn eq_spec(&self, other: &AppConfig) -> bool {
        self@ == other@
    }
}

impl PartialEq for AppConfig {
    fn eq(&self, other: &AppConfig) -> (r: bool) {
        self.daemon_log == other.daemon_log && self.mode == other.mode && same_tunnels(
            &self.tunnels,
            &other.tunnels,
        )
    }
}

impl Eq for AppConfig {

}

impl Protocol {
    /// Whether TCP traffic is forwarded.
    pub open spec fn tcp(self) -> bool {
        self is Tcp || self is Both
    }

    /// Whether UDP traffic is forwarded.
    pub open spec fn udp(self) -> bool {
        self is Udp || self is Both
    }

    /// How the protocol is written.
    pub open spec fn text(self) -> Seq<char> {
        match self {
            Protocol::Tcp => "tcp"@,
            Protocol::Udp => "udp"@,
            Protocol::Both => "both"@,
        }
    }

    /// Whether TCP traffic is forwarded.
    pub fn supports_tcp(self) -> (r: bool)
        ensures
            r == self.tcp(),
    {
        matches!(self, Protocol::Tcp | Protocol::Both)
    }

    /// Whether UDP traffic is forwarded.
    pub fn supports_udp(self) -> (r: bool)
        ensures
            r == self.udp(),
    {
        matches!(self, Protocol::Udp | Protocol::Both)
    }

    /// How the protocol is written.
    pub fn label(self) -> (r: &'static str)
        ensures
            r@ == self.text(),
    {
        match self {
            Protocol::Tcp => "tcp",
            Protocol::Udp => "udp",
            Protocol::Both => "both",
        }
    }
}

impl TcpMode {
    /// How the mode is written.
    pub open spec fn text(self) -> Seq<char> {
        match self {
            TcpMode::Auto => "auto"@,
            TcpMode::Throughput => "throughput"@,
            TcpMode::Latency => "latency"@,
        }
    }

    /// How the mode is written.
    pub fn label(self) -> (r: &'static str)
        ensures
            r@ == self.text(),
    {
        match self {
            TcpMode::Auto => "auto",
            TcpMode::Throughput => "throughput",
            TcpMode::Latency => "latency",
        }
    }

    /// The mode that a tunnel runs in: `Auto` stands for `Throughput`.
    pub fn effective(self) -> (r: TcpMode)
        ensures
            r == (if self is Auto {
                TcpMode::Throughput
            } else {
                self
            }),
    {
        match self {
            TcpMode::Auto => TcpMode::Throughput,
            explicit => explicit,
        }
    }
}

impl TunnelConfig {
    /// Refuses a tunnel with a blank name, or with an address that is no socket address.
    pub fn validate(&self) -> (r: Result<(), ConfigError>)
        ensures
            match r {
                Ok(()) => tunnel_fault(self@) is None,
                Err(e) => tunnel_fault(self@) == Some(e@),
            },
    {
        if is_blank(self.name.as_str()) {
            return Err(ConfigError::EmptyName);
        }
        if parse_socket_addr(self.listen.as_str()).is_none() {
            return Err(ConfigError::InvalidListen { address: self.listen.clone() });
        }
        if parse_socket_addr(self.target.as_str()).is_none() {
            return Err(ConfigError::InvalidTarget { address: self.target.clone() });
        }
        Ok(())
    }
}

/// Whether one of the first `count` of `tunnels` has the name `name`.
pub fn name_taken(tunnels: &Vec<TunnelConfig>, count: usize, name: &String) -> (r: bool)
    requires
        count <= tunnels@.len(),
    ensures
        r == has_name(TunnelConfig::views(tunnels@).take(count as int), name@),
{
    let mut i: usize = 0;
    let ghost all = TunnelConfig::views(tunnels@).take(count as int);
    while i < count
        invariant
            i <= count <= tunnels@.len(),
            all == TunnelConfig::views(tunnels@).take(count as int),
            forall|j: int| 0 <= j < i ==> (#[trigger] all[j]).name != name@,
        decreases count - i,
    {
        assert(all[i as int] == tunnels@[i as int]@);
        if tunnels[i].name == *name {
            return true;
        }
        i = i + 1;
    }
    false
}

/// What a read of the configuration file gave.
#[derive(Debug)]
pub enum ConfigSource {
    /// There is no such file.
    Missing,
    /// The file holds this text.
    Text(String),
}

impl View for ConfigSource {
    type V = Option<Seq<char>>;

    open spec fn view(&self) -> Option<Seq<char>> {
        match self {
            ConfigSource::Missing => None,
            ConfigSource::Text(text) => Some(text@),
        }
    }
}

/// What a load has come to before the text of the file is parsed.
#[derive(Debug)]
pub enum LoadStep {
    /// This configuration is the result.
    Ready(AppConfig),
    /// The load fails.
    Refused(ConfigError),
    /// The text is to be parsed, and the outcome is to be handed to `AppConfig::parse`.
    Parse(String),
}

/// What a `LoadStep` holds.
pub enum LoadStepView {
    Ready(ConfigView),
    Refused(ConfigFault),
    Parse(Seq<char>),
}

impl View for LoadStep {
    type V = LoadStepView;

    open spec fn view(&self) -> LoadStepView {
        match self {
            LoadStep::Ready(config) => LoadStepView::Ready(config@),
            LoadStep::Refused(e) => LoadStepView::Refused(e@),
            LoadStep::Parse(text) => LoadStepView::Parse(text@),
        }
    }
}

/// The configuration without tunnels.
pub open spec fn empty_config() -> ConfigView {
    ConfigView { daemon_log: false, mode: AppMode::Socket, tunnels: seq![] }
}

/// Loading for editing: a file that is missing or blank stands for the empty configuration.
pub open spec fn editing_step(source: Option<Seq<char>>) -> LoadStepView {
    match source {
        Some(text) if crate::text::trimmed(text).len() > 0 => LoadStepView::Parse(text),
        _ => LoadStepView::Ready(empty_config()),
    }
}

/// Loading for running: a file that is missing or blank is an error.
pub open spec fn runtime_step(source: Option<Seq<char>>, path: Seq<char>) -> LoadStepView {
    match source {
        None => LoadStepView::Refused(ConfigFault::NotFound { path }),
        Some(text) => if crate::text::trimmed(text).len() == 0 {
            LoadStepView::Refused(ConfigFault::EmptyFile { path })
        } else {
            LoadStepView::Parse(text)
        },
    }
}

/// What a parsed configuration comes to: itself where it is valid, else its first fault.
pub open spec fn accepted(config: ConfigView) -> Result<ConfigView, ConfigFault> {
    match tunnels_fault(config.tunnels) {
        None => Ok(config),
        Some(fault) => Err(fault),
    }
}

/// Where a save puts the new text before it takes the place of the old one.
#[derive(Debug)]
pub struct SavePlan {
    /// The name of the file to write, in the directory of the configuration file. It is renamed
    /// to the configuration file once it is written.
    pub temp_name: String,
}

/// What a configuration or an error holds.
pub open spec fn result_view(r: Result<AppConfig, String>) -> Result<ConfigView, Seq<char>> {
    match r {
        Ok(config) => Ok(config@),
        Err(error) => Err(error@),
    }
}

/// What comes of a text, given what the parser made of it.
pub open spec fn parsed_as(parsed: Result<ConfigView, Seq<char>>) -> Result<ConfigView, Seq<char>> {
    match parsed {
        Ok(config) => match accepted(config) {
            Ok(config) => Ok(config),
            Err(fault) => Err(fault.text()),
        },
        Err(error) => Err(error),
    }
}

/// What a load comes to, where `parser` says what each text stands for.
pub open spec fn loaded(
    step: LoadStepView,
    parser: spec_fn(Seq<char>) -> Result<ConfigView, Seq<char>>,
) -> Result<ConfigView, Seq<char>> {
    match step {
        LoadStepView::Ready(config) => Ok(config),
        LoadStepView::Refused(fault) => Err(fault.text()),
        LoadStepView::Parse(text) => parsed_as(parser(text)),
    }
}

/// The name of the temporary file of a save by the process `pid`.
pub open spec fn temp_name(file_name: Option<Seq<char>>, pid: nat) -> Seq<char> {
    "."@ + (match file_name {
        Some(name) => name,
        None => "config.yaml"@,
    }) + ".tmp."@ + crate::number::decimal(pid)
}

/// What a save of `config` comes to: the name of the temporary file where `config` is valid, else
/// its first fault.
pub open spec fn saving(config: ConfigView, file_name: Option<Seq<char>>, pid: nat) -> Result<
    Seq<char>,
    ConfigFault,
> {
    match tunnels_fault(config.tunnels) {
        None => Ok(temp_name(file_name, pid)),
        Some(fault) => Err(fault),
    }
}

/// A configuration can be saved exactly where it can be loaded: where `text` is not blank and stands
/// for `config`, a load of it, for running or for editing, gives `config` back as it is.
pub proof fn saved_config_loads_back(
    config: ConfigView,
    text: Seq<char>,
    path: Seq<char>,
    file_name: Option<Seq<char>>,
    pid: nat,
    parser: spec_fn(Seq<char>) -> Result<ConfigView, Seq<char>>,
)
    requires
        crate::text::trimmed(text).len() > 0,
        parser(text) == Ok::<ConfigView, Seq<char>>(config),
    ensures
        saving(config, file_name, pid) is Ok <==> loaded(runtime_step(Some(text), path), parser)
            == Ok::<ConfigView, Seq<char>>(config),
        saving(config, file_name, pid) is Ok <==> loaded(editing_step(Some(text)), parser) == Ok::<
            ConfigView,
            Seq<char>,
        >(config),
{
}

/// What is loaded, for running or for editing, is valid, whatever the file holds and whatever the
/// parser makes of it.
pub proof fn loaded_config_is_valid(
    source: Option<Seq<char>>,
    path: Seq<char>,
    parser: spec_fn(Seq<char>) -> Result<ConfigView, Seq<char>>,
)
    ensures
        loaded(runtime_step(source, path), parser) matches Ok(config) ==> tunnels_fault(
            config.tunnels,
        ) is None && valid_tunnels(config.tunnels),
        loaded(editing_step(source), parser) matches Ok(config) ==> tunnels_fault(
            config.tunnels,
        ) is None && valid_tunnels(config.tunnels),
{
    if let Ok(config) = loaded(runtime_step(source, path), parser) {
        accepted_iff_valid(config.tunnels);
    }
    if let Ok(config) = loaded(editing_step(source), parser) {
        accepted_iff_valid(config.tunnels);
    }
}

/// A save never writes to the file itself.
pub proof fn temp_name_is_another(name: Seq<char>, pid: nat)
    ensures
        temp_name(Some(name), pid) != name,
{
    reveal_strlit(".");
    assert(temp_name(Some(name), pid).len() > name.len());
}

/// Two processes that save the same file write to different temporary files.
pub proof fn temp_names_do_not_clash(name: Option<Seq<char>>, a: nat, b: nat)
    ensures
        temp_name(name, a) == temp_name(name, b) ==> a == b,
{
    if temp_name(name, a) == temp_name(name, b) {
        let n = match name {
            Some(name) => name,
            None => "config.yaml"@,
        };
        let p = "."@ + n + ".tmp."@;
        assert(temp_name(name, a).skip(p.len() as int) =~= crate::number::decimal(a));
        assert(temp_name(name, b).skip(p.len() as int) =~= crate::number::decimal(b));
        crate::number::decimal_injective(a, b);
    }
}

impl AppConfig {
    /// Takes a parsed configuration where it is valid.
    pub fn accept(self) -> (r: Result<AppConfig, ConfigError>)
        ensures
            match r {
                Ok(config) => accepted(self@) == Ok::<ConfigView, ConfigFault>(config@),
                Err(e) => accepted(self@) == Err::<ConfigView, ConfigFault>(e@),
            },
    {
        match self.validate() {
            Ok(()) => Ok(self),
            Err(e) => Err(e),
        }
    }

    /// Ends a load, given what the parser made of the text: a configuration is taken where it is
    /// valid.
    pub fn parse(parsed: Result<AppConfig, String>) -> (r: Result<AppConfig, String>)
        ensures
            result_view(r) == parsed_as(result_view(parsed)),
    {
        match parsed {
            Ok(config) => match config.accept() {
                Ok(config) => Ok(config),
                Err(e) => Err(e.message()),
            },
            Err(error) => Err(error),
        }
    }

    /// Loads for editing: a file that is missing or blank stands for the empty configuration.
    pub fn load_or_default(source: ConfigSource) -> (r: LoadStep)
        ensures
            r@ == editing_step(source@),
    {
        match source {
            ConfigSource::Missing => LoadStep::Ready(AppConfig::default()),
            ConfigSource::Text(text) => if is_blank(text.as_str()) {
                LoadStep::Ready(AppConfig::default())
            } else {
                LoadStep::Parse(text)
            },
        }
    }

    /// Loads for running: a file that is missing or blank is an error.
    pub fn load_for_runtime(source: ConfigSource, path: &str) -> (r: LoadStep)
        ensures
            r@ == runtime_step(source@, path@),
    {
        match source {
            ConfigSource::Missing => LoadStep::Refused(
                ConfigError::NotFound { path: path.to_owned() },
            ),
            ConfigSource::Text(text) => if is_blank(text.as_str()) {
                LoadStep::Refused(ConfigError::EmptyFile { path: path.to_owned() })
            } else {
                LoadStep::Parse(text)
            },
        }
    }

    /// Saves a valid configuration: the text is written to a temporary file, which is then renamed.
    pub fn save(&self, file_name: Option<&str>, pid: u32) -> (r: Result<SavePlan, ConfigError>)
        ensures
            ({
                let outcome = saving(
                    self@,
                    match file_name {
                        Some(name) => Some(name@),
                        None => None,
                    },
                    pid as nat,
                );
                match r {
                    Ok(plan) => outcome == Ok::<Seq<char>, ConfigFault>(plan.temp_name@),
                    Err(e) => outcome == Err::<Seq<char>, ConfigFault>(e@),
                }
            }),
    {
        match self.validate() {
            Ok(()) => {},
            Err(e) => {
                return Err(e);
            },
        }
        let name = match file_name {
            Some(name) => name,
            None => "config.yaml",
        };
        Ok(
            SavePlan {
                temp_name: ".".to_owned().concat(name).concat(".tmp.").concat(
                    to_decimal(pid as u128).as_str(),
                ),
            },
        )
    }

    /// The enabled tunnels, in order.
    pub fn enabled_tunnels(&self) -> (r: Vec<TunnelConfig>)
        ensures
            TunnelConfig::views(r@) == self@.tunnels.filter(|t: TunnelView| t.enabled),
    {
        let mut r: Vec<TunnelConfig> = Vec::new();
        let mut i: usize = 0;
        let ghost all = self@.tunnels;
        let ghost on = |t: TunnelView| t.enabled;
        proof {
            reveal(Seq::filter);
            assert(all.take(0) =~= seq![]);
            assert(TunnelConfig::views(r@) =~= seq![]);
        }
        while i < self.tunnels.len()
            invariant
                i <= self.tunnels.len(),
                all == self@.tunnels,
                on == (|t: TunnelView| t.enabled),
                TunnelConfig::views(r@) == all.take(i as int).filter(on),
            decreases self.tunnels.len() - i,
        {
            let ghost before = r@;
            let ghost next = all.take(i + 1);
            proof {
                reveal(Seq::filter);
                assert(next.drop_last() =~= all.take(i as int));
                assert(next.last() == self.tunnels@[i as int]@);
            }
            if self.tunnels[i].enabled {
                let t = self.tunnels[i].clone();
                r.push(t);
                assert(TunnelConfig::views(r@) =~= TunnelConfig::views(before).push(t@));
            }
            i = i + 1;
        }
        assert(all.take(i as int) =~= all);
        r
    }

    /// Refuses a configuration with a tunnel that is refused by itself, or with a name that occurs
    /// twice.
    pub fn validate(&self) -> (r: Result<(), ConfigError>)
        ensures
            match r {
                Ok(()) => tunnels_fault(self@.tunnels) is None,
                Err(e) => tunnels_fault(self@.tunnels) == Some(e@),
            },
    {
        let ghost all = self@.tunnels;
        let mut i: usize = 0;
        assert(all.take(0) =~= seq![]);
        while i < self.tunnels.len()
            invariant
                i <= self.tunnels.len(),
                all == self@.tunnels,
                tunnels_fault(all.take(i as int)) is None,
            decreases self.tunnels.len() - i,
        {
            let ghost next = all.take(i + 1);
            assert(next.drop_last() =~= all.take(i as int));
            assert(next.last() == self.tunnels@[i as int]@);
            match self.tunnels[i].validate() {
                Ok(()) => {},
                Err(e) => {
                    proof {
                        first_fault_stays(all, i + 1);
                    }
                    return Err(e);
                },
            }
            if name_taken(&self.tunnels, i, &self.tunnels[i].name) {
                proof {
                    first_fault_stays(all, i + 1);
                }
                return Err(ConfigError::DuplicateName { name: self.tunnels[i].name.clone() });
            }
            i = i + 1;
        }
        assert(all.take(i as int) =~= all);
        Ok(())
    }
}

/// A tunnel is refused for a blank name, for a listen address that is no socket address, or for such
/// a target address, in this order, and for nothing else.
pub proof fn tunnels_are_refused_for_these_reasons(t: TunnelView)
    ensures
        ({
            let blank = crate::text::trimmed(t.name).len() == 0;
            let deaf = crate::addr::socket_addr(t.listen) is None;
            let lost = crate::addr::socket_addr(t.target) is None;
            &&& tunnel_fault(t) is None <==> !blank && !deaf && !lost
            &&& blank ==> tunnel_fault(t) == Some(ConfigFault::EmptyName)
            &&& !blank && deaf ==> tunnel_fault(t) == Some(
                ConfigFault::InvalidListen { address: t.listen },
            )
            &&& !blank && !deaf && lost ==> tunnel_fault(t) == Some(
                ConfigFault::InvalidTarget { address: t.target },
            )
        }),
{
}

/// A configuration is accepted exactly where every name is not blank, every address is a socket
/// address, and no name occurs twice; and it can be saved exactly then. Neither its mode nor its
/// log matters, and an accepted configuration stays as it is.
pub proof fn valid_configurations_are_accepted(
    config: ConfigView,
    file_name: Option<Seq<char>>,
    pid: nat,
)
    ensures
        ({
            let tunnels = config.tunnels;
            let valid = {
                &&& forall|i: int|
                    0 <= i < tunnels.len() ==> {
                        &&& crate::text::trimmed((#[trigger] tunnels[i]).name).len() > 0
                        &&& crate::addr::socket_addr(tunnels[i].listen) is Some
                        &&& crate::addr::socket_addr(tunnels[i].target) is Some
                    }
                &&& forall|i: int, j: int|
                    0 <= i < j < tunnels.len() ==> (#[trigger] tunnels[i]).name != (
                    #[trigger] tunnels[j]).name
            };
            &&& accepted(config) == Ok::<ConfigView, ConfigFault>(config) <==> valid
            &&& accepted(config) is Ok <==> valid
            &&& saving(config, file_name, pid) is Ok <==> valid
        }),
{
    accepted_iff_valid(config.tunnels);
    let tunnels = config.tunnels;
    assert forall|i: int| 0 <= i < tunnels.len() implies (tunnel_fault(#[trigger] tunnels[i]) is None
        <==> {
        &&& crate::text::trimmed(tunnels[i].name).len() > 0
        &&& crate::addr::socket_addr(tunnels[i].listen) is Some
        &&& crate::addr::socket_addr(tunnels[i].target) is Some
    }) by {
        tunnels_are_refused_for_these_reasons(tunnels[i]);
    }
}

/// A configuration is refused for its first tunnel that is refused by itself or has the name of an
/// earlier one, with that tunnel's reason.
pub proof fn first_bad_tunnel_decides(config: ConfigView, k: int)
    requires
        0 <= k < config.tunnels.len(),
        accepted(ConfigView { tunnels: config.tunnels.take(k), ..config }) is Ok,
    ensures
        tunnel_fault(config.tunnels[k]) matches Some(fault) ==> accepted(config) == Err::<
            ConfigView,
            ConfigFault,
        >(fault),
        tunnel_fault(config.tunnels[k]) is None && (exists|j: int|
            0 <= j < k && (#[trigger] config.tunnels[j]).name == config.tunnels[k].name)
            ==> accepted(config) == Err::<ConfigView, ConfigFault>(
            ConfigFault::DuplicateName { name: config.tunnels[k].name },
        ),
{
    let all = config.tunnels;
    let next = all.take(k + 1);
    assert(next.drop_last() =~= all.take(k));
    assert(next.last() == all[k]);
    if exists|j: int| 0 <= j < k && (#[trigger] all[j]).name == all[k].name {
        let j = choose|j: int| 0 <= j < k && (#[trigger] all[j]).name == all[k].name;
        assert(all.take(k)[j] == all[j]);
    }
    if tunnels_fault(next) is Some {
        first_fault_stays(all, k + 1);
    }
}

/// A file that is missing or blank is refused for running, each with its own reason, and stands for
/// the empty configuration for editing. Any other file is parsed as it is, for both.
pub proof fn loads_differ_only_without_content(text: Seq<char>, path: Seq<char>)
    ensures
        runtime_step(None, path) == LoadStepView::Refused(ConfigFault::NotFound { path }),
        editing_step(None) == LoadStepView::Ready(
            ConfigView { daemon_log: false, mode: AppMode::Socket, tunnels: seq![] },
        ),
        crate::text::trimmed(text).len() == 0 ==> runtime_step(Some(text), path)
            == LoadStepView::Refused(ConfigFault::EmptyFile { path }),
        crate::text::trimmed(text).len() == 0 ==> editing_step(Some(text)) == LoadStepView::Ready(
            ConfigView { daemon_log: false, mode: AppMode::Socket, tunnels: seq![] },
        ),
        crate::text::trimmed(text).len() > 0 ==> runtime_step(Some(text), path)
            == LoadStepView::Parse(text),
        crate::text::trimmed(text).len() > 0 ==> editing_step(Some(text)) == LoadStepView::Parse(
            text,
        ),
{
}

/// What the parser refuses is refused with its error, and what is not valid with the sentence for
/// its fault.
pub proof fn load_errors_are_handed_on(config: ConfigView, fault: ConfigFault, error: Seq<char>)
    ensures
        parsed_as(Err(error)) == Err::<ConfigView, Seq<char>>(error),
        accepted(config) == Err::<ConfigView, ConfigFault>(fault) ==> parsed_as(Ok(config)) == Err::<
            ConfigView,
            Seq<char>,
        >(fault.text()),
        accepted(config) is Ok ==> parsed_as(Ok(config)) == Ok::<ConfigView, Seq<char>>(config),
{
}

/// A save writes to a hidden file next to the configuration, named after it and the process.
pub proof fn save_names_its_file(config: ConfigView, name: Seq<char>, pid: nat)
    ensures
        saving(config, Some(name), pid) matches Ok(temp) ==> temp == "."@ + name + ".tmp."@
            + crate::number::decimal(pid),
        saving(config, None, pid) == saving(config, Some("config.yaml"@), pid),
        saving(config, Some(name), pid) matches Err(fault) ==> accepted(config) == Err::<
            ConfigView,
            ConfigFault,
        >(fault),
{
}

/// Each fault has its sentence, which names what is at fault.
pub proof fn faults_name_their_cause(text: Seq<char>)
    ensures
        ConfigFault::EmptyName.text() == "Tunnel name cannot be empty."@,
        (ConfigFault::InvalidListen { address: text }).text() == "Invalid listen address "@ + text
            + ": "@ + "invalid socket address syntax"@,
        (ConfigFault::InvalidTarget { address: text }).text() == "Invalid target address "@ + text
            + ": "@ + "invalid socket address syntax"@,
        (ConfigFault::DuplicateName { name: text }).text() == "Duplicate tunnel name: "@ + text,
        (ConfigFault::NotFound { path: text }).text() == "Config file not found: "@ + text,
        (ConfigFault::EmptyFile { path: text }).text() == "Config file is empty: "@ + text,
{
}

/// What a configuration holds is every one of its fields.
pub proof fn configurations_hold_every_field(config: AppConfig, i: int)
    ensures
        config@.daemon_log == config.daemon_log,
        config@.mode == config.mode,
        config@.tunnels.len() == config.tunnels@.len(),
        0 <= i < config.tunnels@.len() ==> {
            let t = config.tunnels@[i];
            config@.tunnels[i] == (TunnelView {
                name: t.name@,
                listen: t.listen@,
                target: t.target@,
                protocol: t.protocol,
                tcp_mode: t.tcp_mode,
                enabled: t.enabled,
            })
        },
{
}

/// A tunnel of both protocols forwards what a tunnel of either one forwards, and no tunnel forwards
/// nothing.
pub proof fn protocols_carry_their_traffic(p: Protocol)
    ensures
        p.tcp() <==> p != Protocol::Udp,
        p.udp() <==> p != Protocol::Tcp,
{
}

/// Protocols and modes are written in lower case, each in its own word.
pub proof fn protocols_and_modes_have_their_words(p: Protocol, m: TcpMode)
    ensures
        p.text() == "tcp"@ <==> p == Protocol::Tcp,
        p.text() == "udp"@ <==> p == Protocol::Udp,
        p.text() == "both"@ <==> p == Protocol::Both,
        m.text() == "auto"@ <==> m == TcpMode::Auto,
        m.text() == "throughput"@ <==> m == TcpMode::Throughput,
        m.text() == "latency"@ <==> m == TcpMode::Latency,
{
    reveal_strlit("tcp");
    reveal_strlit("udp");
    reveal_strlit("both");
    reveal_strlit("auto");
    reveal_strlit("throughput");
    reveal_strlit("latency");
    assert("tcp"@[0] != "udp"@[0]);
    assert("auto"@.len() == 4 && "throughput"@.len() == 10 && "latency"@.len() == 7);
}

} // verus!
