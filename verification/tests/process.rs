use vorto::config::{AppConfig, AppMode};
use vorto::daemon::{
    entry, print_help, Command, ControlAction, ControlEvent, DaemonControl, Order, ProcessInfo,
};
use vorto::process::{
    daemon_process_matches, daemon_program_name, is_daemon_worker_cmdline, read_pid, render_pid,
};

fn own_process() -> ControlEvent {
    ControlEvent::Probed {
        process: Ok(Some(ProcessInfo {
            cmdline: b"/opt/vorto\0__daemon_worker\0".to_vec(),
            binary_name: "vorto".to_string(),
        })),
    }
}

fn other_process() -> ControlEvent {
    ControlEvent::Probed {
        process: Ok(Some(ProcessInfo {
            cmdline: b"/opt/other\0__daemon_worker\0".to_vec(),
            binary_name: "vorto".to_string(),
        })),
    }
}

fn pid_file(text: &str) -> ControlEvent {
    ControlEvent::PidRead { content: Ok(Some(text.to_string())) }
}

fn no_pid_file() -> ControlEvent {
    ControlEvent::PidRead { content: Ok(None) }
}

fn loaded(daemon_log: bool) -> ControlEvent {
    ControlEvent::Loaded {
        config: Ok(AppConfig { daemon_log, mode: AppMode::Socket, tunnels: vec![] }),
    }
}

fn run(order: Order, events: Vec<ControlEvent>) -> ControlAction {
    let (mut control, mut action) = DaemonControl::begin(order, "/work/vorto.log");
    assert!(matches!(action, ControlAction::ReadPid));
    for event in events {
        (control, action) = control.advance(event);
    }
    action
}

fn end_of(action: ControlAction) -> (bool, Result<String, String>) {
    match action {
        ControlAction::End { stale, outcome } => (stale, outcome),
        other => panic!("the command should end: {:?}", other),
    }
}

#[test]
fn daemon_worker_cmdline_matches_expected_process() {
    assert!(is_daemon_worker_cmdline(b"/tmp/vorto\0__daemon_worker\0", "vorto"));
}

#[test]
fn daemon_worker_cmdline_rejects_other_processes() {
    assert!(!is_daemon_worker_cmdline(b"/usr/bin/python3\0server.py\0", "vorto"));
    assert!(!is_daemon_worker_cmdline(b"/tmp/rttf\0__daemon_worker\0", "vorto"));
    assert!(!is_daemon_worker_cmdline(b"/tmp/vorto\0run\0", "vorto"));
}

#[test]
fn empty_arguments_of_a_command_line_do_not_count() {
    assert!(is_daemon_worker_cmdline(b"\0/tmp/vorto\0\0__daemon_worker\0more", "vorto"));
    assert!(!is_daemon_worker_cmdline(b"/tmp/vorto\0", "vorto"));
    assert!(!is_daemon_worker_cmdline(b"", "vorto"));
    assert!(!is_daemon_worker_cmdline(b"/tmp/vorto\0x\0__daemon_worker\0", "vorto"));
    assert!(!is_daemon_worker_cmdline(b"/tmp/vorto\0__daemon_worker2\0", "vorto"));
}

#[test]
fn the_name_of_a_program_is_the_last_step_of_its_path() {
    assert!(daemon_program_name(b"vorto", "vorto"));
    assert!(daemon_program_name(b"./vorto", "vorto"));
    assert!(daemon_program_name(b"/a//vorto/", "vorto"));
    assert!(daemon_program_name(b"/a/vorto/.", "vorto"));
    assert!(daemon_program_name(b"/a/vorto/././/", "vorto"));
    assert!(!daemon_program_name(b"/a/vorto/..", "vorto"));
    assert!(!daemon_program_name(b"/", "vorto"));
    assert!(!daemon_program_name(b".", "."));
    assert!(!daemon_program_name(b"..", ".."));
    assert!(!daemon_program_name(b"", ""));
    assert!(!daemon_program_name(b"/vorto/x", "vorto"));
    assert!(daemon_program_name("/opt/caf\u{e9}".as_bytes(), "caf\u{e9}"));
    assert!(!daemon_program_name(b"/opt/\xff", "\u{fffd}"));
}

#[test]
fn a_process_that_does_not_exist_is_no_daemon() {
    assert!(!daemon_process_matches(None, "vorto"));
    assert!(daemon_process_matches(Some(b"vorto\0__daemon_worker\0"), "vorto"));
}

#[test]
fn a_pid_that_was_written_is_read_back() {
    for pid in [0u32, 1, 10, 4242, 2147483647] {
        let text = render_pid(pid);
        assert_eq!(text, format!("{}\n", pid));
        assert_eq!(read_pid(Some(&text)), Ok(Some(pid as i32)));
    }
}

#[test]
fn a_pid_file_may_be_missing_or_broken() {
    assert_eq!(read_pid(None), Ok(None));
    assert_eq!(read_pid(Some(" -7\t\n")), Ok(Some(-7)));
    assert_eq!(read_pid(Some("+7")), Ok(Some(7)));
    assert_eq!(
        read_pid(Some("\n")),
        Err("Invalid PID file contents: cannot parse integer from empty string".to_string())
    );
    assert_eq!(
        read_pid(Some("12 3")),
        Err("Invalid PID file contents: invalid digit found in string".to_string())
    );
    assert_eq!(
        read_pid(Some("2147483648")),
        Err("Invalid PID file contents: number too large to fit in target type".to_string())
    );
    assert_eq!(
        read_pid(Some("-2147483649")),
        Err("Invalid PID file contents: number too small to fit in target type".to_string())
    );
    assert_eq!(read_pid(Some("-2147483648")), Ok(Some(-2147483648)));
}

#[test]
fn the_first_argument_is_the_command() {
    let cases = [
        ("config", Command::Config),
        ("create", Command::Config),
        ("run", Command::Run),
        ("daemon", Command::Daemon),
        ("stop", Command::Stop),
        ("status", Command::Status),
        ("version", Command::Version),
        ("-V", Command::Version),
        ("--version", Command::Version),
        ("help", Command::Help),
        ("-h", Command::Help),
        ("--help", Command::Help),
        ("__daemon_worker", Command::Worker),
        ("anything", Command::Help),
        ("", Command::Help),
        ("RUN", Command::Help),
    ];
    for (word, command) in cases {
        assert_eq!(entry(Some(word)), command);
    }
    assert_eq!(entry(None), Command::Help);
}

#[test]
fn help_lists_the_commands() {
    let lines = print_help();
    assert_eq!(lines.len(), 8);
    assert_eq!(lines[0], "Usage:");
    assert_eq!(lines[1], "  ./vorto config   Interactively manage tunnels in ./config.yaml");
    assert_eq!(lines[7], "  ./vorto help     Show this help message");
}

#[test]
fn a_start_launches_the_daemon_and_records_its_pid() {
    let action = run(Order::Start, vec![no_pid_file()]);
    assert!(matches!(action, ControlAction::Load { stale: false }));
    let action = run(Order::Start, vec![no_pid_file(), loaded(true)]);
    assert!(matches!(action, ControlAction::Launch { log: true }));
    let action = run(
        Order::Start,
        vec![no_pid_file(), loaded(true), ControlEvent::Launched { child: Ok(77) }],
    );
    match action {
        ControlAction::Record { text } => assert_eq!(text, "77\n"),
        other => panic!("the PID should be recorded: {:?}", other),
    }
    let action = run(
        Order::Start,
        vec![
            no_pid_file(),
            loaded(true),
            ControlEvent::Launched { child: Ok(77) },
            ControlEvent::Recorded { written: Ok(()) },
        ],
    );
    assert_eq!(
        end_of(action),
        (false, Ok("Daemon started with PID 77. Log file: /work/vorto.log".to_string()))
    );
}

#[test]
fn a_daemon_without_a_log_discards_its_output() {
    let action = run(Order::Start, vec![no_pid_file(), loaded(false)]);
    assert!(matches!(action, ControlAction::Launch { log: false }));
    let action = run(
        Order::Start,
        vec![
            no_pid_file(),
            loaded(false),
            ControlEvent::Launched { child: Ok(77) },
            ControlEvent::Recorded { written: Ok(()) },
        ],
    );
    assert_eq!(end_of(action), (false, Ok("Daemon started with PID 77.".to_string())));
}

#[test]
fn a_running_daemon_is_not_started_again() {
    let action = run(Order::Start, vec![pid_file("12\n")]);
    assert!(matches!(action, ControlAction::Probe { pid: 12 }));
    let action = run(Order::Start, vec![pid_file("12\n"), own_process()]);
    assert_eq!(
        end_of(action),
        (false, Ok("Daemon is already running with PID 12.".to_string()))
    );
    let action = run(Order::Start, vec![pid_file("12\n"), other_process()]);
    assert!(matches!(action, ControlAction::Load { stale: true }));
    let action = run(
        Order::Start,
        vec![pid_file("12\n"), ControlEvent::Probed { process: Ok(None) }],
    );
    assert!(matches!(action, ControlAction::Load { stale: true }));
}

#[test]
fn every_step_of_a_start_may_fail() {
    let error = || "broken".to_string();
    let failed = (false, Err(error()));
    let steps = vec![
        vec![ControlEvent::PidRead { content: Err(error()) }],
        vec![pid_file("1"), ControlEvent::Probed { process: Err(error()) }],
        vec![no_pid_file(), ControlEvent::Loaded { config: Err(error()) }],
        vec![no_pid_file(), loaded(true), ControlEvent::Launched { child: Err(error()) }],
        vec![
            no_pid_file(),
            loaded(true),
            ControlEvent::Launched { child: Ok(1) },
            ControlEvent::Recorded { written: Err(error()) },
        ],
    ];
    for events in steps {
        assert_eq!(end_of(run(Order::Start, events)), failed);
    }
    let (stale, outcome) = end_of(run(Order::Start, vec![pid_file("x")]));
    assert!(!stale);
    assert_eq!(
        outcome,
        Err("Invalid PID file contents: invalid digit found in string".to_string())
    );
}

#[test]
fn a_stop_signals_the_daemon_only() {
    let action = run(Order::Stop, vec![pid_file("12"), own_process()]);
    assert!(matches!(action, ControlAction::Signal { pid: 12 }));
    let sent = ControlEvent::Signalled { sent: Ok(()) };
    let action = run(Order::Stop, vec![pid_file("12"), own_process(), sent]);
    assert_eq!(end_of(action), (false, Ok("Sent a stop signal to PID 12.".to_string())));
    let refused = ControlEvent::Signalled { sent: Err("not permitted".to_string()) };
    let action = run(Order::Stop, vec![pid_file("12"), own_process(), refused]);
    assert_eq!(end_of(action), (false, Err("not permitted".to_string())));
    let action = run(Order::Stop, vec![pid_file("12"), other_process()]);
    assert_eq!(
        end_of(action),
        (
            true,
            Ok("The PID file does not point to a running daemon for this executable.".to_string())
        )
    );
    assert_eq!(
        end_of(run(Order::Stop, vec![no_pid_file()])),
        (false, Ok("Daemon is not running.".to_string()))
    );
}

#[test]
fn the_status_is_told() {
    assert_eq!(
        end_of(run(Order::Status, vec![no_pid_file()])),
        (false, Ok("Daemon is not running.".to_string()))
    );
    assert_eq!(
        end_of(run(Order::Status, vec![pid_file("12"), own_process()])),
        (false, Ok("Daemon is running with PID 12.".to_string()))
    );
    assert_eq!(
        end_of(run(Order::Status, vec![pid_file("-12"), other_process()])),
        (
            false,
            Ok("The PID file does not point to a running daemon for this executable.".to_string())
        )
    );
    let action = run(Order::Status, vec![own_process()]);
    assert!(matches!(action, ControlAction::Nothing));
}
