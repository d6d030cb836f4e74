use serde_yaml::{Mapping, Value};
use vorto::config::{
    default_enabled, default_tcp_mode, AppConfig, AppMode, ConfigError, ConfigSource, LoadStep,
    Protocol, TcpMode, TunnelConfig,
};

fn tunnel(name: &str, listen: &str, target: &str) -> TunnelConfig {
    TunnelConfig {
        name: name.to_string(),
        listen: listen.to_string(),
        target: target.to_string(),
        protocol: Protocol::Tcp,
        tcp_mode: TcpMode::Auto,
        enabled: true,
    }
}

fn config(tunnels: Vec<TunnelConfig>) -> AppConfig {
    AppConfig { daemon_log: false, mode: AppMode::Socket, tunnels }
}

fn text_of(map: &Value, key: &str) -> String {
    map[key].as_str().expect("a text should stand there").to_string()
}

fn read_yaml(text: &str) -> AppConfig {
    let value: Value = serde_yaml::from_str(text).expect("the text should be YAML");
    let mut tunnels = Vec::new();
    for item in value["tunnels"].as_sequence().expect("tunnels should be a list") {
        tunnels.push(TunnelConfig {
            name: text_of(item, "name"),
            listen: text_of(item, "listen"),
            target: text_of(item, "target"),
            protocol: match text_of(item, "protocol").as_str() {
                "tcp" => Protocol::Tcp,
                "udp" => Protocol::Udp,
                _ => Protocol::Both,
            },
            tcp_mode: match item.get("tcp_mode").and_then(Value::as_str) {
                Some("throughput") => TcpMode::Throughput,
                Some("latency") => TcpMode::Latency,
                Some(_) => TcpMode::Auto,
                None => default_tcp_mode(),
            },
            enabled: item.get("enabled").and_then(Value::as_bool).unwrap_or(default_enabled()),
        });
    }
    AppConfig {
        daemon_log: value.get("daemon_log").and_then(Value::as_bool).unwrap_or(false),
        mode: match value.get("mode").and_then(Value::as_str) {
            Some("nft") => AppMode::Nft,
            _ => AppMode::default(),
        },
        tunnels,
    }
}

fn render(config: &AppConfig) -> String {
    let mut tunnels = Vec::new();
    for t in &config.tunnels {
        let mut map = Mapping::new();
        map.insert(Value::from("name"), Value::from(t.name.as_str()));
        map.insert(Value::from("listen"), Value::from(t.listen.as_str()));
        map.insert(Value::from("target"), Value::from(t.target.as_str()));
        map.insert(Value::from("protocol"), Value::from(t.protocol.label()));
        map.insert(Value::from("tcp_mode"), Value::from(t.tcp_mode.label()));
        map.insert(Value::from("enabled"), Value::from(t.enabled));
        tunnels.push(Value::Mapping(map));
    }
    let mut top = Mapping::new();
    top.insert(Value::from("daemon_log"), Value::from(config.daemon_log));
    let mode = match config.mode {
        AppMode::Socket => "socket",
        AppMode::Nft => "nft",
    };
    top.insert(Value::from("mode"), Value::from(mode));
    top.insert(Value::from("tunnels"), Value::Sequence(tunnels));
    serde_yaml::to_string(&Value::Mapping(top)).expect("a value should render")
}

fn load(source: ConfigSource) -> Result<AppConfig, String> {
    match AppConfig::load_for_runtime(source, "/tmp/vorto-test.yaml") {
        LoadStep::Ready(config) => Ok(config),
        LoadStep::Refused(error) => Err(error.message()),
        LoadStep::Parse(text) => AppConfig::parse(Ok(read_yaml(&text))),
    }
}

#[test]
fn load_for_runtime_rejects_missing_file() {
    let error = load(ConfigSource::Missing).expect_err("missing file should fail");
    assert!(error.contains("Config file not found"));
    assert_eq!(error, "Config file not found: /tmp/vorto-test.yaml");
}

#[test]
fn load_for_runtime_rejects_empty_file() {
    let error = load(ConfigSource::Text("".to_string())).expect_err("empty file should fail");
    assert!(error.contains("Config file is empty"));
    assert_eq!(error, "Config file is empty: /tmp/vorto-test.yaml");
}

#[test]
fn load_for_runtime_accepts_explicit_empty_tunnels() {
    let config = load(ConfigSource::Text("tunnels: []\n".to_string()))
        .expect("explicit empty config should load");
    assert!(config.tunnels.is_empty());
}

#[test]
fn save_writes_a_runtime_loadable_config() {
    let config = AppConfig {
        daemon_log: false,
        mode: AppMode::Socket,
        tunnels: vec![TunnelConfig {
            name: "alpha".to_string(),
            listen: "127.0.0.1:18080".to_string(),
            target: "127.0.0.1:8080".to_string(),
            protocol: Protocol::Tcp,
            tcp_mode: TcpMode::Latency,
            enabled: true,
        }],
    };

    let plan = config.save(Some("save.yaml"), 42).expect("config save should succeed");
    assert_eq!(plan.temp_name, ".save.yaml.tmp.42");
    let loaded = load(ConfigSource::Text(render(&config))).expect("saved config should load");
    assert_eq!(loaded, config);
}

#[test]
fn parse_defaults_tcp_mode_to_auto_for_older_configs() {
    let config = AppConfig::parse(Ok(read_yaml(
        "tunnels:\n  - name: legacy\n    listen: 127.0.0.1:18080\n    target: 127.0.0.1:8080\n    protocol: tcp\n",
    )))
    .expect("older config should still parse");

    assert_eq!(config.tunnels.len(), 1);
    assert_eq!(config.tunnels[0].tcp_mode, TcpMode::Auto);
    assert!(config.tunnels[0].enabled);
}

#[test]
fn tcp_mode_auto_defaults_to_throughput_at_runtime() {
    assert_eq!(TcpMode::Auto.effective(), TcpMode::Throughput);
    assert_eq!(TcpMode::Latency.effective(), TcpMode::Latency);
}

#[test]
fn a_saved_nft_config_loads_back_whole() {
    let mut off = tunnel("off", "192.0.2.1:53", "198.51.100.7:53");
    off.enabled = false;
    off.protocol = Protocol::Both;
    off.tcp_mode = TcpMode::Throughput;
    let config = AppConfig {
        daemon_log: true,
        mode: AppMode::Nft,
        tunnels: vec![off, tunnel("on", "192.0.2.1:80", "127.0.0.1:8080")],
    };
    assert!(config.save(Some("config.yaml"), 42).is_ok());
    let text = render(&config);
    assert!(text.contains("mode: nft"));
    let loaded = load(ConfigSource::Text(text)).expect("saved config should load");
    assert_eq!(loaded, config);
    assert!(loaded.validate().is_ok());
}

#[test]
fn a_parsed_configuration_is_taken_where_it_is_valid() {
    let good = config(vec![tunnel("a", "127.0.0.1:1", "127.0.0.1:2")]);
    assert_eq!(AppConfig::parse(Ok(good.clone())), Ok(good));
    let bad = config(vec![tunnel("", "127.0.0.1:1", "127.0.0.1:2")]);
    assert_eq!(AppConfig::parse(Ok(bad)), Err("Tunnel name cannot be empty.".to_string()));
    assert_eq!(AppConfig::parse(Err("no YAML".to_string())), Err("no YAML".to_string()));
}

#[test]
fn explicit_throughput_stays_throughput() {
    assert_eq!(TcpMode::Throughput.effective(), TcpMode::Throughput);
}

#[test]
fn blank_files_are_empty_for_running_and_default_for_editing() {
    let error = load(ConfigSource::Text(" \n\t\u{3000}\n".to_string()))
        .expect_err("blank file should fail");
    assert_eq!(error, "Config file is empty: /tmp/vorto-test.yaml");
    for source in [ConfigSource::Missing, ConfigSource::Text(" \n".to_string())] {
        match AppConfig::load_or_default(source) {
            LoadStep::Ready(config) => assert_eq!(config, AppConfig::default()),
            other => panic!("unexpected step: {:?}", other),
        }
    }
    match AppConfig::load_or_default(ConfigSource::Text("tunnels: []".to_string())) {
        LoadStep::Parse(text) => assert_eq!(text, "tunnels: []"),
        other => panic!("unexpected step: {:?}", other),
    }
}

#[test]
fn defaults_are_as_documented() {
    let config = AppConfig::default();
    assert!(!config.daemon_log);
    assert_eq!(config.mode, AppMode::Socket);
    assert!(config.tunnels.is_empty());
    let t = TunnelConfig::default();
    assert_eq!(t.name, "");
    assert_eq!(t.listen, "0.0.0.0:0");
    assert_eq!(t.target, "127.0.0.1:0");
    assert_eq!(t.protocol, Protocol::Tcp);
    assert_eq!(t.tcp_mode, TcpMode::default());
    assert!(t.enabled);
}

#[test]
fn protocols_and_modes_have_labels() {
    assert!(Protocol::Tcp.supports_tcp() && !Protocol::Tcp.supports_udp());
    assert!(!Protocol::Udp.supports_tcp() && Protocol::Udp.supports_udp());
    assert!(Protocol::Both.supports_tcp() && Protocol::Both.supports_udp());
    assert_eq!(Protocol::Tcp.label(), "tcp");
    assert_eq!(Protocol::Udp.label(), "udp");
    assert_eq!(Protocol::Both.label(), "both");
    assert_eq!(TcpMode::Auto.label(), "auto");
    assert_eq!(TcpMode::Throughput.label(), "throughput");
    assert_eq!(TcpMode::Latency.label(), "latency");
}

#[test]
fn each_fault_of_a_tunnel_has_its_message() {
    let error = tunnel(" \t", "x", "y").validate().expect_err("a blank name should fail");
    assert_eq!(error.message(), "Tunnel name cannot be empty.");
    let error = tunnel("a", "nowhere", "y").validate().expect_err("a bad listen should fail");
    assert_eq!(
        error.message(),
        "Invalid listen address nowhere: invalid socket address syntax"
    );
    let error = tunnel("a", "127.0.0.1:1", "127.0.0.1")
        .validate()
        .expect_err("a bad target should fail");
    assert_eq!(
        error.message(),
        "Invalid target address 127.0.0.1: invalid socket address syntax"
    );
    assert!(tunnel("a", "127.0.0.1:1", "[::1]:2").validate().is_ok());
}

#[test]
fn the_first_fault_of_a_list_is_reported() {
    let good = tunnel("a", "127.0.0.1:1", "127.0.0.1:2");
    let twice = config(vec![good.clone(), good.clone(), tunnel("", "", "")]);
    let error = twice.validate().expect_err("a name that occurs twice should fail");
    assert_eq!(error.message(), "Duplicate tunnel name: a");
    assert!(twice.save(None, 1).is_err());
    assert!(twice.clone().accept().is_err());
    let other = config(vec![good.clone(), tunnel("", "", ""), good]);
    assert!(matches!(other.validate(), Err(ConfigError::EmptyName)));
    assert!(config(vec![]).validate().is_ok());
}

#[test]
fn names_that_differ_in_space_or_case_are_distinct() {
    let list = config(vec![
        tunnel("a", "127.0.0.1:1", "127.0.0.1:2"),
        tunnel("A", "127.0.0.1:1", "127.0.0.1:2"),
        tunnel("a ", "127.0.0.1:1", "127.0.0.1:2"),
    ]);
    assert!(list.validate().is_ok());
}

#[test]
fn enabled_tunnels_keep_their_order() {
    let mut b = tunnel("b", "127.0.0.1:1", "127.0.0.1:2");
    b.enabled = false;
    let list = config(vec![
        tunnel("a", "127.0.0.1:1", "127.0.0.1:2"),
        b,
        tunnel("c", "127.0.0.1:3", "127.0.0.1:4"),
    ]);
    let on = list.enabled_tunnels();
    assert_eq!(on.len(), 2);
    assert_eq!(on[0].name, "a");
    assert_eq!(on[1], list.tunnels[2]);
    assert!(config(on).validate().is_ok());
}

#[test]
fn saves_of_two_processes_do_not_clash() {
    let list = config(vec![]);
    let name = |file: Option<&str>, pid: u32| match list.save(file, pid) {
        Ok(plan) => plan.temp_name,
        Err(error) => panic!("{}", error.message()),
    };
    assert_eq!(name(None, 7), ".config.yaml.tmp.7");
    assert_ne!(name(Some("config.yaml"), 7), name(Some("config.yaml"), 70));
    assert_ne!(name(Some("config.yaml"), 7), "config.yaml");
}

#[test]
fn configurations_differ_in_every_field() {
    let base = config(vec![tunnel("a", "127.0.0.1:1", "127.0.0.1:2")]);
    assert_eq!(base, base.clone());
    let mut other = base.clone();
    other.daemon_log = true;
    assert_ne!(base, other);
    let mut other = base.clone();
    other.mode = AppMode::Nft;
    assert_ne!(base, other);
    let mut other = base.clone();
    other.tunnels[0].tcp_mode = TcpMode::Latency;
    assert_ne!(base, other);
    let mut other = base.clone();
    other.tunnels.pop();
    assert_ne!(base, other);
}
