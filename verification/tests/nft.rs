use vorto::addr::Ipv4Addr;
use vorto::config::{Protocol, TcpMode, TunnelConfig};
use vorto::nft::{NftNames, NftRule, NftRuleset};
use vorto::nft_manager::{
    delete_table, run_nft_script, CommandOutcome, NftCommand, NftManager, NftPass, NftProgress,
};

fn tunnel(name: &str, protocol: Protocol, listen: &str, target: &str) -> TunnelConfig {
    TunnelConfig {
        name: name.to_string(),
        listen: listen.to_string(),
        target: target.to_string(),
        protocol,
        tcp_mode: TcpMode::Auto,
        enabled: true,
    }
}

fn nanos() -> u128 {
    std::time::SystemTime::now()
        .duration_since(std::time::UNIX_EPOCH)
        .unwrap_or_default()
        .as_nanos()
}

fn ended(success: bool, stderr: &str) -> CommandOutcome {
    CommandOutcome::Ended { success, stderr: stderr.to_string() }
}

fn run_of(progress: NftProgress) -> (NftCommand, NftPass) {
    match progress {
        NftProgress::Run { command, pass } => (command, pass),
        other => panic!("a command should be run: {:?}", other),
    }
}

fn report_of(progress: NftProgress) -> (bool, Option<String>) {
    match progress {
        NftProgress::Settled { applied, report } => (applied, report),
        other => panic!("no command should be run: {:?}", other),
    }
}

#[test]
fn nft_names_are_unique() {
    let now = nanos();
    let first = NftNames::new(1234, now);
    let second = NftNames::new(1234, now + 1);
    assert_ne!(first.table, second.table);
    assert_ne!(first.prerouting_chain, second.prerouting_chain);
}

#[test]
fn names_of_two_processes_differ() {
    let a = NftNames::new(1, 23);
    let b = NftNames::new(12, 3);
    assert_eq!(a.table, "vorto_nat_1_23");
    assert_eq!(a.prerouting_chain, "vorto_pre_1_23");
    assert_eq!(a.output_chain, "vorto_out_1_23");
    assert_eq!(a.postrouting_chain, "vorto_post_1_23");
    assert_eq!(a.target_set, "vorto_targets_1_23");
    assert_eq!(b.table, "vorto_nat_12_3");
}

#[test]
fn render_ruleset_contains_unique_table_and_rules() {
    let names = NftNames::new(1234, nanos());
    let ruleset = NftRuleset {
        names: names.clone(),
        rules: vec![
            NftRule::Tcp {
                listen_ip: Ipv4Addr::new(127, 0, 0, 1),
                listen_port: 8080,
                target_ip: Ipv4Addr::new(10, 0, 0, 2),
                target_port: 80,
            },
            NftRule::Udp {
                listen_ip: Ipv4Addr::new(127, 0, 0, 1),
                listen_port: 5353,
                target_ip: Ipv4Addr::new(1, 1, 1, 1),
                target_port: 53,
            },
        ],
        masquerade_targets: vec![Ipv4Addr::new(10, 0, 0, 2)],
    };

    let script = ruleset.render_script();
    assert!(script.contains(&format!("add table ip {}", names.table)));
    assert!(script.contains("tcp dport 8080 dnat to 10.0.0.2:80"));
    assert!(script.contains("udp dport 5353 dnat to 1.1.1.1:53"));
    assert!(script.contains(&names.target_set));
}

#[test]
fn drop_skips_delete_when_table_is_not_active() {
    let manager = NftManager::new(1234, nanos());
    assert!(manager.teardown().is_none());
    drop(manager);
}

#[test]
fn a_script_holds_every_line_in_order() {
    let names = NftNames::new(5, 6);
    let tunnels = vec![
        tunnel("a", Protocol::Both, "192.0.2.1:53", "198.51.100.7:5353"),
        tunnel("b", Protocol::Tcp, "192.0.2.1:80", "127.0.0.1:8080"),
    ];
    let ruleset = NftRuleset::from_tunnels(&tunnels, &names).expect("both tunnels have rules");
    assert!(!ruleset.is_empty());
    assert_eq!(
        ruleset.render_script(),
        "add table ip vorto_nat_5_6\n\
         add chain ip vorto_nat_5_6 vorto_pre_5_6 { type nat hook prerouting priority -100; }\n\
         add chain ip vorto_nat_5_6 vorto_out_5_6 { type nat hook output priority -100; }\n\
         add chain ip vorto_nat_5_6 vorto_post_5_6 { type nat hook postrouting priority 100; }\n\
         add set ip vorto_nat_5_6 vorto_targets_5_6 { type ipv4_addr; flags interval; }\n\
         add element ip vorto_nat_5_6 vorto_targets_5_6 { 198.51.100.7 }\n\
         add rule ip vorto_nat_5_6 vorto_post_5_6 ip daddr @vorto_targets_5_6 masquerade\n\
         add rule ip vorto_nat_5_6 vorto_pre_5_6 ip daddr 192.0.2.1 tcp dport 53 dnat to 198.51.100.7:5353\n\
         add rule ip vorto_nat_5_6 vorto_out_5_6 ip daddr 192.0.2.1 tcp dport 53 dnat to 198.51.100.7:5353\n\
         add rule ip vorto_nat_5_6 vorto_pre_5_6 ip daddr 192.0.2.1 udp dport 53 dnat to 198.51.100.7:5353\n\
         add rule ip vorto_nat_5_6 vorto_out_5_6 ip daddr 192.0.2.1 udp dport 53 dnat to 198.51.100.7:5353\n\
         add rule ip vorto_nat_5_6 vorto_pre_5_6 ip daddr 192.0.2.1 tcp dport 80 dnat to 127.0.0.1:8080\n\
         add rule ip vorto_nat_5_6 vorto_out_5_6 ip daddr 192.0.2.1 tcp dport 80 dnat to 127.0.0.1:8080\n"
    );
}

#[test]
fn loopback_targets_are_not_masqueraded() {
    let names = NftNames::new(5, 6);
    let tunnels = vec![tunnel("b", Protocol::Tcp, "192.0.2.1:80", "127.9.0.1:8080")];
    let ruleset = NftRuleset::from_tunnels(&tunnels, &names).expect("the tunnel has a rule");
    assert!(ruleset.masquerade_targets.is_empty());
    assert!(!ruleset.render_script().contains("masquerade"));
    let rules = ruleset.rules[0].render("t", "c");
    assert_eq!(
        rules,
        vec!["add rule ip t c ip daddr 192.0.2.1 tcp dport 80 dnat to 127.9.0.1:8080".to_string()]
    );
}

#[test]
fn masqueraded_targets_are_sorted_and_occur_once() {
    let names = NftNames::new(5, 6);
    let mut tunnels = Vec::new();
    for (i, target) in ["10.0.0.9:1", "9.255.0.0:1", "10.0.0.9:2", "10.0.0.10:1"].iter().enumerate() {
        tunnels.push(tunnel(&format!("t{}", i), Protocol::Udp, "192.0.2.1:80", target));
    }
    let ruleset = NftRuleset::from_tunnels(&tunnels, &names).expect("all tunnels have rules");
    assert_eq!(
        ruleset.masquerade_targets,
        vec![Ipv4Addr::new(9, 255, 0, 0), Ipv4Addr::new(10, 0, 0, 9), Ipv4Addr::new(10, 0, 0, 10)]
    );
    assert_eq!(ruleset.rules.len(), 4);
}

#[test]
fn tunnels_without_a_rule_are_refused() {
    let names = NftNames::new(5, 6);
    let cases = [
        ("0.0.0.0:80", "10.0.0.1:80", "nft mode requires a specific IPv4 listen address, not 0.0.0.0:80"),
        ("[::1]:80", "10.0.0.1:80", "nft mode only supports IPv4 listen addresses: [::1]:80"),
        ("192.0.2.1:80", "[::1]:80", "nft mode only supports IPv4 target addresses: [::1]:80"),
        ("192.0.2.1", "10.0.0.1:80", "invalid socket address syntax"),
        ("192.0.2.1:80", "10.0.0.1", "invalid socket address syntax"),
    ];
    for (listen, target, message) in cases {
        let tunnels = vec![
            tunnel("good", Protocol::Tcp, "192.0.2.1:81", "10.0.0.1:81"),
            tunnel("bad", Protocol::Tcp, listen, target),
        ];
        let error = match NftRuleset::from_tunnels(&tunnels, &names) {
            Ok(_) => panic!("{} to {} should be refused", listen, target),
            Err(error) => error,
        };
        assert_eq!(error.message(), message);
        let manager = NftManager::new(5, 6);
        let (applied, report) = report_of(manager.reconcile(tunnels));
        assert!(!applied);
        assert_eq!(report, Some(format!("Failed to apply nft rules: {}", message)));
    }
}

#[test]
fn a_table_is_replaced_by_one_script() {
    let mut manager = NftManager::new(5, 6);
    let tunnels = vec![tunnel("a", Protocol::Tcp, "192.0.2.1:80", "127.0.0.1:8080")];
    let (command, pass) = run_of(manager.reconcile(tunnels.clone()));
    assert_eq!(command.args(), vec!["-f", "-"]);
    let ruleset = NftRuleset::from_tunnels(&tunnels, &NftNames::new(5, 6))
        .expect("the tunnel has a rule");
    let script = command.stdin().map(str::to_string).expect("a script should be handed over");
    assert_eq!(
        script,
        format!(
            "add table ip vorto_nat_5_6\ndelete table ip vorto_nat_5_6\n{}",
            ruleset.render_script()
        )
    );
    assert_eq!(report_of(manager.advance(pass, ended(true, ""))), (true, None));
    assert_eq!(report_of(manager.reconcile(tunnels.clone())), (true, None));
    let command = manager.teardown().expect("the table is there");
    assert_eq!(command.args(), vec!["delete", "table", "ip", "vorto_nat_5_6"]);
    assert_eq!(command.stdin(), None);
    assert!(manager.stop_all().is_some());
    assert!(manager.stop_all().is_none());
    assert!(manager.teardown().is_none());
    run_of(manager.reconcile(tunnels));
}

#[test]
fn a_failed_installation_is_tried_again() {
    let mut manager = NftManager::new(5, 6);
    let tunnels = vec![tunnel("a", Protocol::Tcp, "192.0.2.1:80", "127.0.0.1:8080")];
    let (_, pass) = run_of(manager.reconcile(tunnels.clone()));
    let (applied, report) = report_of(manager.advance(pass, ended(false, " no rights\n")));
    assert!(!applied);
    assert_eq!(
        report,
        Some("Failed to apply nft rules: nft apply failed: no rights".to_string())
    );
    assert!(manager.teardown().is_none());
    run_of(manager.reconcile(tunnels));
}

#[test]
fn a_refused_script_keeps_the_installed_tunnels() {
    let mut manager = NftManager::new(5, 6);
    let running = vec![tunnel("a", Protocol::Tcp, "192.0.2.1:80", "127.0.0.1:8080")];
    let (_, pass) = run_of(manager.reconcile(running.clone()));
    assert_eq!(report_of(manager.advance(pass, ended(true, ""))), (true, None));

    let changed = vec![tunnel("a", Protocol::Udp, "192.0.2.1:81", "127.0.0.1:8080")];
    let (command, pass) = run_of(manager.reconcile(changed.clone()));
    assert!(matches!(command, NftCommand::RunScript { .. }));
    let (applied, _) = report_of(manager.advance(pass, ended(false, "refused")));
    assert!(!applied);
    assert_eq!(report_of(manager.reconcile(running)), (true, None));
    let (command, _) = run_of(manager.reconcile(changed));
    assert!(matches!(command, NftCommand::RunScript { .. }));
    assert!(manager.teardown().is_some());
}

#[test]
fn rules_are_installed_on_linux_only() {
    let manager = NftManager::new(5, 6);
    let tunnels = vec![tunnel("a", Protocol::Tcp, "192.0.2.1:80", "127.0.0.1:8080")];
    let refusal = (false, Some("nft mode is only supported on Linux.".to_string()));
    assert_eq!(report_of(manager.reconcile_on(false, tunnels.clone())), refusal);
    assert_eq!(report_of(manager.reconcile_on(false, vec![])), refusal);
    assert!(manager.teardown().is_none());
    let (command, _) = run_of(manager.reconcile_on(true, tunnels.clone()));
    let (same, _) = run_of(manager.reconcile(tunnels));
    assert_eq!(command.stdin(), same.stdin());
}

#[test]
fn an_empty_list_deletes_the_table_each_time() {
    let mut manager = NftManager::new(5, 6);
    let (command, pass) = run_of(manager.reconcile(vec![]));
    assert!(matches!(command, NftCommand::DeleteTable { .. }));
    let gone = ended(false, "Error: No such file or directory; did you mean");
    assert_eq!(report_of(manager.advance(pass, gone)), (true, None));
    assert!(manager.teardown().is_none());
    let (_, pass) = run_of(manager.reconcile(vec![]));
    let (applied, report) = report_of(manager.advance(pass, ended(false, "denied")));
    assert!(!applied);
    assert_eq!(
        report,
        Some("Failed to apply nft rules: nft delete table failed: denied".to_string())
    );
}

#[test]
fn outcomes_of_the_nft_program_are_judged() {
    assert_eq!(delete_table(ended(true, "noise")), Ok(()));
    assert_eq!(delete_table(ended(false, "x No such file or directory y")), Ok(()));
    assert_eq!(
        delete_table(ended(false, "\n denied \n")),
        Err("nft delete table failed: denied".to_string())
    );
    assert_eq!(
        delete_table(CommandOutcome::NotRun { error: "no nft".to_string() }),
        Err("no nft".to_string())
    );
    assert_eq!(run_nft_script(ended(true, "noise")), Ok(()));
    assert_eq!(
        run_nft_script(ended(false, "No such file or directory")),
        Err("nft apply failed: No such file or directory".to_string())
    );
    assert_eq!(
        run_nft_script(CommandOutcome::NotRun { error: "no nft".to_string() }),
        Err("no nft".to_string())
    );
}

#[test]
fn a_failed_teardown_is_reported() {
    let manager = NftManager::new(5, 6);
    assert_eq!(manager.teardown_report(ended(true, ""), false), None);
    assert_eq!(
        manager.teardown_report(ended(false, "denied"), false),
        Some("Failed to delete nft table 'vorto_nat_5_6': nft delete table failed: denied".to_string())
    );
    assert_eq!(
        manager.teardown_report(ended(false, "denied"), true),
        Some(
            "Failed to delete nft table 'vorto_nat_5_6' during drop: nft delete table failed: denied"
                .to_string()
        )
    );
}
