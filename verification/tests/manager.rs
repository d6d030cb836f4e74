use vorto::config::{AppConfig, AppMode, Protocol, TcpMode, TunnelConfig};
use vorto::manager::{retire_report, start_report, ReconcilePlan, StartResult, TunnelManager};
use vorto::tunnel::has_finished;

fn tunnel(name: &str, port: u16) -> TunnelConfig {
    TunnelConfig {
        name: name.to_string(),
        listen: format!("127.0.0.1:{}", port),
        target: "127.0.0.1:8080".to_string(),
        protocol: Protocol::Tcp,
        tcp_mode: TcpMode::Auto,
        enabled: true,
    }
}

fn started(plan: &ReconcilePlan) -> Vec<StartResult> {
    plan.start.iter().map(|t| StartResult { tunnel: t.clone(), started: true }).collect()
}

fn names(tunnels: &[TunnelConfig]) -> Vec<String> {
    let mut r: Vec<String> = tunnels.iter().map(|t| t.name.clone()).collect();
    r.sort();
    r
}

fn sorted(list: &[String]) -> Vec<String> {
    let mut r = list.to_vec();
    r.sort();
    r
}

fn running(tunnels: Vec<TunnelConfig>) -> TunnelManager {
    let mut manager = TunnelManager::default();
    let plan = manager.reconcile(&vec![], tunnels);
    assert!(plan.retired.is_empty() && plan.stop.is_empty());
    assert!(manager.finish(started(&plan)));
    manager
}

#[test]
fn reconcile_starts_finished_tunnels_again() {
    let spec = tunnel("recycle", 1);
    let mut manager = running(vec![spec.clone()]);
    assert!(has_finished(&vec![false, true]));
    let plan = manager.reconcile(&vec!["recycle".to_string()], vec![spec.clone()]);
    assert_eq!(plan.retired, vec!["recycle".to_string()]);
    assert!(plan.stop.is_empty());
    assert_eq!(plan.start, vec![spec]);
    assert!(manager.finish(started(&plan)));
    assert_eq!(manager.stop_all(), vec!["recycle".to_string()]);
    assert!(manager.stop_all().is_empty());
}

#[test]
fn unchanged_tunnels_go_on_while_others_change() {
    let mut manager = running(vec![tunnel("same", 1), tunnel("old", 2), tunnel("edit", 3)]);
    let desired = vec![tunnel("new", 5), tunnel("edit", 4), tunnel("same", 1)];
    let plan = manager.reconcile(&vec![], desired.clone());
    assert!(plan.retired.is_empty());
    assert_eq!(sorted(&plan.stop), vec!["edit".to_string(), "old".to_string()]);
    assert_eq!(names(&plan.start), vec!["edit".to_string(), "new".to_string()]);
    assert!(manager.finish(started(&plan)));
    let plan = manager.reconcile(&vec![], desired);
    assert!(plan.stop.is_empty() && plan.start.is_empty());
    assert_eq!(
        sorted(&manager.stop_all()),
        vec!["edit".to_string(), "new".to_string(), "same".to_string()]
    );
}

#[test]
fn a_failed_start_is_reported_and_tried_again() {
    let mut manager = TunnelManager::default();
    let desired = vec![tunnel("good", 1), tunnel("bad", 2)];
    let plan = manager.reconcile(&vec![], desired.clone());
    let results = plan
        .start
        .iter()
        .map(|t| StartResult { tunnel: t.clone(), started: t.name == "good" })
        .collect();
    assert!(!manager.finish(results));
    let plan = manager.reconcile(&vec![], desired);
    assert!(plan.stop.is_empty());
    assert_eq!(names(&plan.start), vec!["bad".to_string()]);
}

#[test]
fn a_finished_tunnel_that_is_no_longer_desired_is_only_retired() {
    let mut manager = running(vec![tunnel("a", 1)]);
    let plan = manager.reconcile(&vec!["a".to_string(), "ghost".to_string()], vec![]);
    assert_eq!(plan.retired, vec!["a".to_string()]);
    assert!(plan.stop.is_empty() && plan.start.is_empty());
}

#[test]
fn of_two_tunnels_with_one_name_the_later_one_counts() {
    let mut manager = TunnelManager::default();
    let plan = manager.reconcile(&vec![], vec![tunnel("a", 1), tunnel("a", 2)]);
    assert_eq!(plan.start, vec![tunnel("a", 2)]);
}

#[test]
fn only_enabled_tunnels_start_from_a_configuration() {
    let mut off = tunnel("off", 2);
    off.enabled = false;
    let config = AppConfig {
        daemon_log: false,
        mode: AppMode::Socket,
        tunnels: vec![tunnel("on", 1), off],
    };
    let mut manager = TunnelManager::default();
    let plan = manager.start_from_config(&vec![], &config);
    assert_eq!(plan.start, vec![tunnel("on", 1)]);
}

#[test]
fn a_tunnel_is_finished_once_a_worker_ended() {
    assert!(!has_finished(&vec![]));
    assert!(!has_finished(&vec![false, false]));
    assert!(has_finished(&vec![true, false]));
}

#[test]
fn reports_name_their_tunnel() {
    assert_eq!(
        retire_report("web"),
        "Tunnel 'web' worker exited unexpectedly; recycling the tunnel state."
    );
    assert_eq!(start_report("web", "in use"), "Failed to start tunnel 'web': in use");
}
