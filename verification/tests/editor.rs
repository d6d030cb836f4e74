use vorto::answer::{
    prompt, prompt_bool, prompt_index, prompt_optional, prompt_protocol, prompt_socket_addr,
};
use vorto::config::{AppConfig, AppMode, Protocol, TcpMode, TunnelConfig};
use vorto::editor::{EditAction, EditEvent, Editor};
use vorto::screen::{pad, render_row, render_tunnels, TABLE_HEAD, TABLE_RULE};

fn tunnel(name: &str) -> TunnelConfig {
    TunnelConfig {
        name: name.to_string(),
        listen: "127.0.0.1:18080".to_string(),
        target: "127.0.0.1:8080".to_string(),
        protocol: Protocol::Tcp,
        tcp_mode: TcpMode::Latency,
        enabled: true,
    }
}

fn config(names: &[&str]) -> AppConfig {
    AppConfig {
        daemon_log: false,
        mode: AppMode::Socket,
        tunnels: names.iter().map(|name| tunnel(name)).collect(),
    }
}

fn typed(config: AppConfig, lines: &[&str]) -> (Editor, EditAction) {
    assert!(config.validate().is_ok());
    let (mut editor, mut action) = Editor::open(config, "/work/config.yaml");
    for line in lines {
        let event = EditEvent::Line { text: line.to_string() };
        (editor, action) = editor.manage_config(event);
    }
    (editor, action)
}

fn question_of(action: EditAction) -> (Vec<String>, String) {
    match action {
        EditAction::Ask { lines, question } => (lines, question),
        other => panic!("a question should be asked: {:?}", other),
    }
}

fn after(config: AppConfig, lines: &[&str]) -> AppConfig {
    let (editor, action) = typed(config, lines);
    let (_, question) = question_of(action);
    assert_eq!(question, "Action [a/e/t/d/m/l/s/q]");
    editor.config().clone()
}

#[test]
fn the_screen_is_as_documented() {
    let lines = render_tunnels("/root/vorto/config.yaml", &AppConfig::default());
    assert_eq!(
        lines,
        vec![
            "Config editor",
            "File: /root/vorto/config.yaml",
            "Tunnels: 0 total, 0 enabled, 0 disabled",
            "Daemon log file: disabled",
            "",
            "Forwarding mode: socket listeners",
            "No.  Name               Proto    State      Remote target            Local listen",
            "---------------------------------------------------------------------------------------",
            "(no tunnels configured)",
            "",
            "Actions:",
            "  a = add tunnel",
            "  e = edit tunnel",
            "  t = toggle enabled/disabled",
            "  d = delete tunnel",
            "  m = toggle forwarding mode (socket/nft)",
            "  l = toggle daemon log file",
            "  s = save and exit",
            "  q = quit",
            "",
        ]
    );
    assert_eq!(prompt("Action [a/e/t/d/m/l/s/q]"), "Action [a/e/t/d/m/l/s/q]:\n└─ ");
}

#[test]
fn rows_stand_under_the_heads() {
    let mut t = tunnel("web");
    t.enabled = false;
    let line = render_row(0, &t);
    assert_eq!(
        line,
        "1    web                tcp      disabled   127.0.0.1:8080           127.0.0.1:18080"
    );
    assert_eq!(line.find("web"), TABLE_HEAD.find("Name"));
    assert_eq!(line.find("127.0.0.1:18080"), TABLE_HEAD.find("Local listen"));
    assert_eq!(TABLE_RULE.len(), 87);
    assert_eq!(pad("abc", 5), "abc  ");
    assert_eq!(pad("abc", 3), "abc");
    assert_eq!(pad("abcd", 3), "abcd");
    assert_eq!(pad("\u{e9}", 2), "\u{e9} ");
}

#[test]
fn the_tally_counts_both_kinds() {
    let mut c = config(&["a", "b", "c"]);
    c.tunnels[1].enabled = false;
    c.daemon_log = true;
    c.mode = AppMode::Nft;
    let lines = render_tunnels("f", &c);
    assert_eq!(lines[2], "Tunnels: 3 total, 2 enabled, 1 disabled");
    assert_eq!(lines[3], "Daemon log file: enabled");
    assert_eq!(lines[5], "Forwarding mode: nftables rules");
    assert_eq!(lines.len(), 8 + 3 + 11);
}

#[test]
fn numbers_of_places_are_read() {
    assert_eq!(prompt_index(" 1\n", 3), Ok(0));
    assert_eq!(prompt_index("3", 3), Ok(2));
    assert_eq!(prompt_index("+2", 3), Ok(1));
    let again = Err(vec!["Please enter a number between 1 and 3.".to_string()]);
    for line in ["0", "4", "", "x", "-1", "1 2", "99999999999999999999999"] {
        assert_eq!(prompt_index(line, 3), again);
    }
}

#[test]
fn protocols_are_read() {
    assert_eq!(prompt_protocol("1", None), Ok(Protocol::Tcp));
    assert_eq!(prompt_protocol("2", None), Ok(Protocol::Udp));
    assert_eq!(prompt_protocol(" 3 ", None), Ok(Protocol::Both));
    assert_eq!(prompt_protocol("", Some(Protocol::Udp)), Ok(Protocol::Udp));
    assert_eq!(prompt_protocol("", None), Err(vec![]));
    assert_eq!(
        prompt_protocol("tcp", Some(Protocol::Udp)),
        Err(vec!["Invalid choice. Please try again.".to_string()])
    );
}

#[test]
fn addresses_are_read() {
    assert_eq!(prompt_socket_addr(" [::1]:80 ", None), Ok("[::1]:80".to_string()));
    assert_eq!(prompt_socket_addr("", Some("1.2.3.4:5")), Ok("1.2.3.4:5".to_string()));
    assert_eq!(
        prompt_socket_addr(" ", None),
        Err(vec!["Address cannot be empty.".to_string()])
    );
    assert_eq!(
        prompt_socket_addr("localhost:80", Some("1.2.3.4:5")),
        Err(vec!["Invalid address format: invalid socket address syntax".to_string()])
    );
}

#[test]
fn yes_and_no_are_read() {
    for line in ["y", "Y", "yes", "YeS", " y\t"] {
        assert_eq!(prompt_bool(line, false), Ok(true));
    }
    for line in ["n", "N", "no", "nO"] {
        assert_eq!(prompt_bool(line, true), Ok(false));
    }
    assert_eq!(prompt_bool("", true), Ok(true));
    assert_eq!(prompt_bool(" ", false), Ok(false));
    assert_eq!(prompt_bool("yep", true), Err(vec!["Please enter y or n.".to_string()]));
}

#[test]
fn defaults_are_shown_where_there_are_any() {
    assert_eq!(prompt_optional("Name", Some("web")), "Name [default: web]");
    assert_eq!(prompt_optional("Name", Some("")), "Name");
    assert_eq!(prompt_optional("Name", None), "Name");
}

#[test]
fn a_tunnel_is_added() {
    let lines = ["a", " web ", "3", "0.0.0.0:8443", " 203.0.113.10:443", "n"];
    let c = after(config(&["dns"]), &lines);
    assert_eq!(c.tunnels.len(), 2);
    assert_eq!(c.tunnels[0], tunnel("dns"));
    assert_eq!(
        c.tunnels[1],
        TunnelConfig {
            name: "web".to_string(),
            listen: "0.0.0.0:8443".to_string(),
            target: "203.0.113.10:443".to_string(),
            protocol: Protocol::Both,
            tcp_mode: TcpMode::Auto,
            enabled: false,
        }
    );
    assert!(c.validate().is_ok());
}

#[test]
fn questions_of_an_addition_come_in_order() {
    let c = || config(&["dns"]);
    let ask = |lines: &[&str]| question_of(typed(c(), lines).1);
    let none: Vec<String> = vec![];
    assert_eq!(ask(&["a"]), (vec!["Add a new tunnel:".to_string()], "Name".to_string()));
    assert_eq!(
        ask(&["a", "web"]),
        (vec!["Select protocol: 1. TCP  2. UDP  3. Both".to_string()], "Protocol".to_string())
    );
    assert_eq!(
        ask(&["a", "web", "1"]),
        (none.clone(), "Listen address (for example 0.0.0.0:8080)".to_string())
    );
    assert_eq!(
        ask(&["a", "web", "1", "0.0.0.0:1"]),
        (none.clone(), "Target address (for example 127.0.0.1:80)".to_string())
    );
    assert_eq!(
        ask(&["a", "web", "1", "0.0.0.0:1", "1.1.1.1:1"]),
        (none, "Enable this tunnel? [Y/n]".to_string())
    );
}

#[test]
fn a_name_that_cannot_be_taken_is_asked_for_again() {
    let ask = |lines: &[&str]| question_of(typed(config(&["dns"]), lines).1);
    assert_eq!(
        ask(&["a", " "]),
        (vec!["Name cannot be empty.".to_string()], "Name".to_string())
    );
    assert_eq!(
        ask(&["a", "dns"]),
        (
            vec!["That name already exists. Please choose another.".to_string()],
            "Name".to_string()
        )
    );
    let (lines, question) = ask(&["a", "web", ""]);
    assert_eq!(lines, vec!["Select protocol: 1. TCP  2. UDP  3. Both".to_string()]);
    assert_eq!(question, "Protocol");
}

#[test]
fn a_tunnel_is_edited() {
    let lines = ["e", "2", "game", "2", "", "[::1]:9", "no"];
    let c = after(config(&["a", "b"]), &lines);
    assert_eq!(c.tunnels[0], tunnel("a"));
    assert_eq!(
        c.tunnels[1],
        TunnelConfig {
            name: "game".to_string(),
            listen: "127.0.0.1:18080".to_string(),
            target: "[::1]:9".to_string(),
            protocol: Protocol::Udp,
            tcp_mode: TcpMode::Latency,
            enabled: false,
        }
    );
}

#[test]
fn questions_of_an_edit_show_what_is_kept() {
    let mut c = config(&["a", "b"]);
    c.tunnels[1].enabled = false;
    let ask = |lines: &[&str]| question_of(typed(c.clone(), lines).1).1;
    assert_eq!(ask(&["e"]), "Tunnel number to edit");
    assert_eq!(ask(&["e", "2"]), "Name [default: b]");
    assert_eq!(ask(&["e", "2", ""]), "Protocol [default: 1]");
    assert_eq!(ask(&["e", "2", "", ""]), "Listen address [default: 127.0.0.1:18080]");
    assert_eq!(ask(&["e", "2", "", "", ""]), "Target address [default: 127.0.0.1:8080]");
    assert_eq!(ask(&["e", "2", "", "", "", ""]), "Enable this tunnel? [y/N]");
}

#[test]
fn a_name_in_use_keeps_the_current_one() {
    let said = |lines: &[&str]| question_of(typed(config(&["a", "b"]), lines).1).0;
    assert_eq!(
        said(&["e", "2", "a"])[0],
        "That name is already in use. Keeping the current value."
    );
    assert_eq!(said(&["e", "2", ""])[0], "Name left empty. Keeping the current value.");
    assert_eq!(said(&["e", "2", "b"]).len(), 1);
    let c = after(config(&["a", "b"]), &["e", "2", "a", "", "", "", ""]);
    assert_eq!(c, config(&["a", "b"]));
}

#[test]
fn blank_answers_change_nothing() {
    let c = config(&["a", "b"]);
    assert_eq!(after(c.clone(), &["e", "1", "", "", "", "", ""]), c);
}

#[test]
fn toggling_twice_changes_nothing() {
    let c = config(&["a", "b"]);
    let once = after(c.clone(), &["t", "2"]);
    assert!(!once.tunnels[1].enabled && once.tunnels[0].enabled);
    assert_eq!(after(once, &["t", "2"]), c);
    let switched = after(c.clone(), &["m", "l"]);
    assert_eq!(switched.mode, AppMode::Nft);
    assert!(switched.daemon_log);
    assert_eq!(after(switched, &["l", " m "]), c);
}

#[test]
fn a_tunnel_is_deleted_only_where_that_is_confirmed() {
    let c = config(&["a", "b", "c"]);
    let (_, action) = typed(c.clone(), &["d", "2"]);
    assert_eq!(question_of(action).1, "Delete tunnel 'b' ? [y/N]");
    assert_eq!(after(c.clone(), &["d", "2", ""]), c);
    assert_eq!(after(c.clone(), &["d", "2", "n"]), c);
    assert_eq!(after(c.clone(), &["d", "2", "y"]), config(&["a", "c"]));
    let (_, action) = typed(c.clone(), &["d", "2", "y"]);
    assert_eq!(question_of(action).0[0], "Tunnel deleted.");
    let (_, action) = typed(c.clone(), &["d", "2", "no"]);
    assert_eq!(question_of(action).0[0], "Delete cancelled.");
    let (editor, action) = typed(c.clone(), &["d", "2", "what"]);
    assert_eq!(question_of(action).0[0], "Please enter y or n.");
    assert_eq!(editor.config(), &c);
}

#[test]
fn nothing_can_be_picked_where_nothing_is() {
    for (key, line) in [
        ("e", "There are no tunnels to edit."),
        ("t", "There are no tunnels to toggle."),
        ("d", "There are no tunnels to delete."),
    ] {
        let (lines, question) = question_of(typed(AppConfig::default(), &[key]).1);
        assert_eq!(lines[0], line);
        assert_eq!(question, "Action [a/e/t/d/m/l/s/q]");
    }
}

#[test]
fn unknown_actions_are_refused() {
    for key in ["", "x", "A", "save", "1"] {
        let (editor, action) = typed(config(&["a"]), &[key]);
        assert_eq!(question_of(action).0[0], "Invalid choice. Please try again.");
        assert_eq!(editor.config(), &config(&["a"]));
    }
}

#[test]
fn a_save_ends_the_editor() {
    let (editor, action) = typed(config(&["a"]), &["t", "1", "s"]);
    let mut expected = config(&["a"]);
    expected.tunnels[0].enabled = false;
    match action {
        EditAction::Save { config } => assert_eq!(config, expected),
        other => panic!("the configuration should be saved: {:?}", other),
    }
    let (editor, action) = editor.manage_config(EditEvent::Saved { outcome: Ok(()) });
    match action {
        EditAction::End { lines, outcome } => {
            assert_eq!(lines, vec!["Saved configuration to /work/config.yaml.".to_string()]);
            assert_eq!(outcome, Ok(()));
        }
        other => panic!("the editor should end: {:?}", other),
    }
    let (_, action) = editor.manage_config(EditEvent::Line { text: "a".to_string() });
    assert!(matches!(action, EditAction::Nothing));
}

#[test]
fn a_save_that_fails_ends_with_its_error() {
    let (editor, _) = typed(config(&["a"]), &["s"]);
    let outcome = Err("disk full".to_string());
    let (_, action) = editor.manage_config(EditEvent::Saved { outcome });
    match action {
        EditAction::End { lines, outcome } => {
            assert!(lines.is_empty());
            assert_eq!(outcome, Err("disk full".to_string()));
        }
        other => panic!("the editor should end: {:?}", other),
    }
}

#[test]
fn quitting_and_broken_input_save_nothing() {
    let (_, action) = typed(config(&["a"]), &["q"]);
    match action {
        EditAction::End { lines, outcome } => {
            assert_eq!(lines, vec!["Exited without saving.".to_string()]);
            assert_eq!(outcome, Ok(()));
        }
        other => panic!("the editor should end: {:?}", other),
    }
    let (editor, _) = typed(config(&["a"]), &["e", "1"]);
    let (_, action) = editor.manage_config(EditEvent::Broken { error: "gone".to_string() });
    match action {
        EditAction::End { outcome, .. } => assert_eq!(outcome, Err("gone".to_string())),
        other => panic!("the editor should end: {:?}", other),
    }
}
