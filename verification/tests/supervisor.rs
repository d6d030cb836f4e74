use vorto::config::{AppConfig, AppMode, Protocol, TcpMode, TunnelConfig};
use vorto::supervisor::{ConfigWatcher, Foreground, Notice, RunAction, RunEvent};

fn config(mode: AppMode, names: &[&str]) -> AppConfig {
    let mut tunnels: Vec<TunnelConfig> = names
        .iter()
        .map(|name| TunnelConfig {
            name: name.to_string(),
            listen: "127.0.0.1:1".to_string(),
            target: "127.0.0.1:2".to_string(),
            protocol: Protocol::Tcp,
            tcp_mode: TcpMode::Auto,
            enabled: true,
        })
        .collect();
    tunnels.push(TunnelConfig { name: "off".to_string(), enabled: false, ..TunnelConfig::default() });
    AppConfig { daemon_log: false, mode, tunnels }
}

fn loaded(config: AppConfig) -> RunEvent {
    RunEvent::Loaded { outcome: Ok(config) }
}

fn applied(action: RunAction) -> (AppMode, Vec<String>) {
    match action {
        RunAction::Apply { mode, tunnels } => {
            (mode, tunnels.into_iter().map(|t| t.name).collect())
        }
        other => panic!("a backend should be brought in step: {:?}", other),
    }
}

fn warning(action: RunAction) -> Option<String> {
    match action {
        RunAction::Wait { notice: Some(Notice::Warn { text }) } => Some(text),
        RunAction::Wait { notice: None } => None,
        other => panic!("unexpected: {:?}", other),
    }
}

fn watch(events: Vec<RunEvent>) -> (ConfigWatcher, RunAction) {
    let (mut watcher, mut action) = ConfigWatcher::start();
    assert!(matches!(action, RunAction::Load));
    for event in events {
        (watcher, action) = watcher.run_config_watcher(event);
    }
    (watcher, action)
}

fn foreground(events: Vec<RunEvent>) -> (Foreground, RunAction) {
    let (mut run, mut action) = Foreground::start();
    assert!(matches!(action, RunAction::Load));
    for event in events {
        (run, action) = run.run_foreground(event);
    }
    (run, action)
}

#[test]
fn the_daemon_applies_the_enabled_tunnels() {
    let (_, action) = watch(vec![loaded(config(AppMode::Socket, &["a", "b"]))]);
    assert_eq!(applied(action), (AppMode::Socket, vec!["a".to_string(), "b".to_string()]));
    let (_, action) =
        watch(vec![loaded(config(AppMode::Socket, &["a"])), RunEvent::Applied { ok: true }]);
    assert_eq!(warning(action), None);
}

#[test]
fn a_failed_reload_keeps_the_tunnels_and_is_tried_again() {
    let (watcher, action) = watch(vec![
        loaded(config(AppMode::Socket, &["a"])),
        RunEvent::Applied { ok: true },
        RunEvent::Elapsed,
        RunEvent::Loaded { outcome: Err("bad YAML".to_string()) },
    ]);
    assert_eq!(
        warning(action),
        Some("Failed to read config. Keeping current tunnels unchanged: bad YAML".to_string())
    );
    let (watcher, action) = watcher.run_config_watcher(RunEvent::Elapsed);
    assert!(matches!(action, RunAction::Load));
    let (_, action) = watcher.run_config_watcher(loaded(config(AppMode::Socket, &["a"])));
    applied(action);
}

#[test]
fn a_configuration_that_was_not_applied_is_tried_again() {
    let failed = || RunEvent::Applied { ok: false };
    let (_, action) = watch(vec![loaded(config(AppMode::Nft, &["a"])), failed()]);
    assert_eq!(
        warning(action),
        Some(
            "Will retry the current config on the next poll because some rules or tunnels failed to start."
                .to_string()
        )
    );
    let again = |mode: AppMode| {
        watch(vec![
            loaded(config(mode, &["a"])),
            RunEvent::Applied { ok: true },
            RunEvent::Elapsed,
            loaded(config(mode, &["a"])),
            failed(),
        ])
        .1
    };
    assert_eq!(
        warning(again(AppMode::Socket)),
        Some(
            "One or more running tunnels became unhealthy and failed to restart. Will retry on the next poll."
                .to_string()
        )
    );
    assert_eq!(warning(again(AppMode::Nft)), None);
}

#[test]
fn the_other_backend_stops_once_the_new_one_took_over() {
    for (from, to) in [(AppMode::Socket, AppMode::Nft), (AppMode::Nft, AppMode::Socket)] {
        let switch = |ok: bool| {
            watch(vec![
                loaded(config(from, &["a"])),
                RunEvent::Applied { ok: true },
                RunEvent::Elapsed,
                loaded(config(to, &["a"])),
                RunEvent::Applied { ok },
            ])
        };
        let (watcher, action) = switch(true);
        match action {
            RunAction::StopBackend { mode } => assert_eq!(mode, from),
            other => panic!("the old backend should stop: {:?}", other),
        }
        let (_, action) = watcher.run_config_watcher(RunEvent::BackendStopped);
        assert_eq!(warning(action), None);
        let (_, action) = switch(false);
        assert!(warning(action).is_some());
    }
}

#[test]
fn the_daemon_stops_both_backends_before_it_ends() {
    let (watcher, action) = watch(vec![
        loaded(config(AppMode::Socket, &["a"])),
        RunEvent::Applied { ok: true },
        RunEvent::Terminated { heard: Ok(()) },
    ]);
    assert!(matches!(action, RunAction::StopAll));
    let (_, action) = watcher.run_config_watcher(RunEvent::AllStopped);
    assert!(matches!(action, RunAction::End { outcome: Ok(()) }));
    let (_, action) = watch(vec![
        loaded(config(AppMode::Socket, &["a"])),
        RunEvent::Applied { ok: true },
        RunEvent::Terminated { heard: Err("no signals".to_string()) },
    ]);
    match action {
        RunAction::End { outcome } => assert_eq!(outcome, Err("no signals".to_string())),
        other => panic!("the daemon should end: {:?}", other),
    }
}

#[test]
fn the_foreground_reads_its_configuration_once() {
    let (run, action) = foreground(vec![
        loaded(config(AppMode::Socket, &["a"])),
        RunEvent::Applied { ok: true },
    ]);
    match action {
        RunAction::Wait { notice: Some(Notice::Say { text }) } => {
            assert_eq!(text, "Foreground mode started. Press Ctrl+C to stop.")
        }
        other => panic!("unexpected: {:?}", other),
    }
    let (run, action) = run.run_foreground(RunEvent::Elapsed);
    assert_eq!(applied(action), (AppMode::Socket, vec!["a".to_string()]));
    let (run, action) = run.run_foreground(RunEvent::Applied { ok: false });
    assert_eq!(
        warning(action),
        Some("One or more foreground tunnels failed to restart. Will retry.".to_string())
    );
    let (run, action) = run.run_foreground(RunEvent::Elapsed);
    assert_eq!(applied(action), (AppMode::Socket, vec!["a".to_string()]));
    let (run, action) = run.run_foreground(RunEvent::Applied { ok: true });
    assert_eq!(warning(action), None);
    let (run, action) = run.run_foreground(RunEvent::Terminated { heard: Ok(()) });
    assert!(matches!(action, RunAction::StopAll));
    let (_, action) = run.run_foreground(RunEvent::AllStopped);
    assert!(matches!(action, RunAction::End { outcome: Ok(()) }));
}

#[test]
fn a_failed_start_in_the_foreground_ends_the_run() {
    let (_, action) =
        foreground(vec![RunEvent::Loaded { outcome: Err("no file".to_string()) }]);
    match action {
        RunAction::End { outcome } => assert_eq!(outcome, Err("no file".to_string())),
        other => panic!("the run should end: {:?}", other),
    }
    let (run, action) = foreground(vec![
        loaded(config(AppMode::Nft, &["a"])),
        RunEvent::Applied { ok: false },
    ]);
    assert!(matches!(action, RunAction::StopAll));
    let (_, action) = run.run_foreground(RunEvent::AllStopped);
    match action {
        RunAction::End { outcome } => {
            assert_eq!(outcome, Err("Failed to start one or more tunnels.".to_string()))
        }
        other => panic!("the run should end: {:?}", other),
    }
}

#[test]
fn rules_in_the_foreground_are_not_looked_after() {
    let (run, _) = foreground(vec![
        loaded(config(AppMode::Nft, &["a"])),
        RunEvent::Applied { ok: true },
    ]);
    let (run, action) = run.run_foreground(RunEvent::Elapsed);
    assert_eq!(warning(action), None);
    let (_, action) = run.run_foreground(RunEvent::Terminated { heard: Err("x".to_string()) });
    assert!(matches!(action, RunAction::End { outcome: Err(_) }));
}
