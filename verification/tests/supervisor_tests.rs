use roam::ServerStatus;
use roam::config::ServerConfig;
use roam::monitor::LogMonitor;
use roam::supervisor::{orphan_stop_result, ServerError, StopAction, SupervisorState};

fn test_config() -> ServerConfig {
    ServerConfig {
        name: None,
        path: "/srv/mc".to_string(),
        jar_name: "server.jar".to_string(),
        min_ram: "1G".to_string(),
        max_ram: "2G".to_string(),
    }
}

#[test]
fn new_supervisor_is_offline_and_empty() {
    let s = SupervisorState::new();
    assert_eq!(s.status, ServerStatus::Offline);
    assert!(s.config.is_none());
    assert!(s.owned_pid.is_none());
    assert_eq!(s.player_count, 0);
}

#[test]
fn start_without_config_fails() {
    let mut s = SupervisorState::new();
    let r = s.start_begin(None);
    assert!(matches!(r, Err(ServerError::ConfigurationMissing)));
    assert_eq!(s.status, ServerStatus::Offline);
}

#[test]
fn start_with_preexisting_process_fails_and_names_pid() {
    let mut s = SupervisorState::new();
    s.set_config(test_config());
    let r = s.start_begin(Some(4242));
    assert!(matches!(r, Err(ServerError::ProcessAlreadyRunning(4242))));
    assert_eq!(s.status, ServerStatus::Offline);
}

#[test]
fn start_builds_plan_and_moves_to_starting() {
    let mut s = SupervisorState::new();
    s.set_config(test_config());
    let plan = s.start_begin(None).expect("start should proceed");
    assert_eq!(s.status, ServerStatus::Starting);
    assert_eq!(plan.program, "java");
    assert_eq!(plan.workdir, "/srv/mc");
    assert_eq!(plan.eula_file, "eula.txt");
    assert_eq!(plan.eula_contents, "eula=true");
    let args: Vec<&str> = plan.args.iter().map(|a| a.as_str()).collect();
    assert_eq!(args, vec!["-Xms1G", "-Xmx2G", "-jar", "server.jar", "nogui"]);
}

#[test]
fn second_start_without_stop_is_already_running() {
    let mut s = SupervisorState::new();
    s.set_config(test_config());
    s.start_begin(None).expect("first start should proceed");
    s.start_spawn_ok(77);
    let r = s.start_begin(None);
    assert!(matches!(r, Err(ServerError::AlreadyRunning)));
    assert_eq!(s.owned_pid, Some(77));
    assert_eq!(s.status, ServerStatus::Starting);
}

#[test]
fn failed_spawn_reverts_to_offline() {
    let mut s = SupervisorState::new();
    s.set_config(test_config());
    s.start_begin(None).expect("start should proceed");
    s.start_spawn_failed();
    assert_eq!(s.status, ServerStatus::Offline);
    assert!(s.owned_pid.is_none());
}

#[test]
fn stop_with_owned_handle_kills_it() {
    let mut s = SupervisorState::new();
    s.set_config(test_config());
    s.start_begin(None).expect("start should proceed");
    s.start_spawn_ok(99);
    let action = s.stop_begin().expect("stop should decide");
    assert_eq!(s.status, ServerStatus::Stopping);
    assert!(matches!(action, StopAction::KillOwned(99)));
    assert!(s.owned_pid.is_none());
    let stopped = s.stop_finish(true);
    assert!(stopped);
    assert_eq!(s.status, ServerStatus::Offline);
}

#[test]
fn stop_without_handle_scans_configured_path() {
    let mut s = SupervisorState::new();
    s.set_config(test_config());
    let action = s.stop_begin().expect("stop should decide");
    match action {
        StopAction::ScanOrphan(path) => assert_eq!(path, "/srv/mc"),
        other => panic!("expected a scan action, got {:?}", other),
    }
}

#[test]
fn stop_without_handle_and_config_fails() {
    let mut s = SupervisorState::new();
    let r = s.stop_begin();
    assert!(matches!(r, Err(ServerError::ConfigurationMissing)));
    // The failure does not strand the supervisor in Stopping.
    assert_eq!(s.status, ServerStatus::Offline);
}

#[test]
fn orphan_stop_needs_found_and_confirmed() {
    assert!(orphan_stop_result(true, true));
    assert!(!orphan_stop_result(true, false));
    assert!(!orphan_stop_result(false, false));
}

#[test]
fn stop_with_nothing_to_stop_returns_false_and_offline() {
    let mut s = SupervisorState::new();
    s.set_config(test_config());
    s.stop_begin().expect("stop should decide");
    let stopped = s.stop_finish(false);
    assert!(!stopped);
    assert_eq!(s.status, ServerStatus::Offline);
}

#[test]
fn startup_line_transitions_once() {
    let mut s = SupervisorState::new();
    s.status = ServerStatus::Starting;
    let mut m = LogMonitor::new();
    let fx = m.observe_line(&mut s, b"[Server] Done (3.2s)! For help, type \"help\"");
    assert_eq!(s.status, ServerStatus::Running);
    assert!(m.started);
    assert_eq!(fx.status_update, Some(ServerStatus::Running));
    // The marker appearing again causes no further transition.
    s.status = ServerStatus::Stopping;
    let fx2 = m.observe_line(&mut s, b"again: Done");
    assert_eq!(s.status, ServerStatus::Stopping);
    assert_eq!(fx2.status_update, None);
}

#[test]
fn help_banner_also_marks_startup() {
    let mut s = SupervisorState::new();
    s.status = ServerStatus::Starting;
    let mut m = LogMonitor::new();
    m.observe_line(&mut s, b"For help, type \"help\"");
    assert_eq!(s.status, ServerStatus::Running);
}

#[test]
fn join_and_leave_lines_move_player_count() {
    let mut s = SupervisorState::new();
    let mut m = LogMonitor::new();
    let fx = m.observe_line(&mut s, b"Steve joined the game");
    assert_eq!(s.player_count, 1);
    assert_eq!(fx.player_update, Some(1));
    let fx2 = m.observe_line(&mut s, b"Alex joined the game");
    assert_eq!(s.player_count, 2);
    assert_eq!(fx2.player_update, Some(2));
    let fx3 = m.observe_line(&mut s, b"Steve left the game");
    assert_eq!(s.player_count, 1);
    assert_eq!(fx3.player_update, Some(1));
}

#[test]
fn leave_never_drops_count_below_zero() {
    let mut s = SupervisorState::new();
    let mut m = LogMonitor::new();
    let fx = m.observe_line(&mut s, b"Ghost left the game");
    assert_eq!(s.player_count, 0);
    assert_eq!(fx.player_update, Some(0));
    m.observe_line(&mut s, b"Ghost left the game");
    m.observe_line(&mut s, b"Ghost left the game");
    assert_eq!(s.player_count, 0);
}

#[test]
fn plain_lines_change_nothing() {
    let mut s = SupervisorState::new();
    s.status = ServerStatus::Starting;
    let mut m = LogMonitor::new();
    let fx = m.observe_line(&mut s, b"[INFO] Loading world chunk 12");
    assert_eq!(s.status, ServerStatus::Starting);
    assert_eq!(s.player_count, 0);
    assert_eq!(fx.status_update, None);
    assert_eq!(fx.player_update, None);
}

#[test]
fn stream_end_forces_offline() {
    let mut s = SupervisorState::new();
    s.status = ServerStatus::Running;
    let m = LogMonitor { started: true };
    let announced = m.observe_end(&mut s);
    assert_eq!(s.status, ServerStatus::Offline);
    assert_eq!(announced, ServerStatus::Offline);
}

#[test]
fn stats_of_live_owned_process() {
    let mut s = SupervisorState::new();
    s.owned_pid = Some(7);
    s.status = ServerStatus::Running;
    s.player_count = 3;
    let pid = s.stats_check_owned(false);
    assert_eq!(pid, Some(7));
    let st = s.stats_from_owned(1234, 567_890);
    assert_eq!(st.cpu_centi, 1234);
    assert_eq!(st.memory, 567_890);
    assert_eq!(st.status, ServerStatus::Running);
    assert_eq!(st.player_count, 3);
}

#[test]
fn stats_drops_handle_of_exited_process() {
    let mut s = SupervisorState::new();
    s.owned_pid = Some(7);
    let pid = s.stats_check_owned(true);
    assert_eq!(pid, None);
    assert!(s.owned_pid.is_none());
}

#[test]
fn stats_for_orphan_coerces_offline_to_running() {
    let mut s = SupervisorState::new();
    s.status = ServerStatus::Offline;
    s.player_count = 2;
    let st = s.stats_from_orphan(4200, 1024);
    assert_eq!(st.status, ServerStatus::Running);
    assert_eq!(st.cpu_centi, 4200);
    assert_eq!(st.memory, 1024);
    assert_eq!(st.player_count, 2);
}

#[test]
fn stats_for_orphan_keeps_other_statuses() {
    let mut s = SupervisorState::new();
    s.status = ServerStatus::Stopping;
    let st = s.stats_from_orphan(1, 2);
    assert_eq!(st.status, ServerStatus::Stopping);
}

#[test]
fn stats_with_no_process_is_zeroed_but_keeps_count() {
    let mut s = SupervisorState::new();
    s.player_count = 5;
    s.status = ServerStatus::Running;
    let st = s.stats_none();
    assert_eq!(st.cpu_centi, 0);
    assert_eq!(st.memory, 0);
    assert_eq!(st.status, ServerStatus::Offline);
    assert_eq!(st.player_count, 5);
}

#[test]
fn send_command_appends_newline() {
    let mut s = SupervisorState::new();
    s.owned_pid = Some(1);
    let payload = s.send_command_payload("say hello").expect("owned process accepts commands");
    assert_eq!(payload, "say hello\n");
}

#[test]
fn send_command_without_process_is_refused() {
    let s = SupervisorState::new();
    let r = s.send_command_payload("stop");
    assert!(matches!(r, Err(ServerError::NoOwnedProcess)));
}

#[test]
fn full_session_scenario() {
    // Configure, start, observe startup and a join, query stats, stop.
    let mut s = SupervisorState::new();
    s.set_config(test_config());
    let plan = s.start_begin(None).expect("start should proceed");
    assert_eq!(s.status, ServerStatus::Starting);
    assert_eq!(plan.workdir, "/srv/mc");
    s.start_spawn_ok(31337);

    let mut m = LogMonitor::new();
    let fx = m.observe_line(&mut s, b"[12:00:00] [Server thread/INFO]: Done (2.7s)!");
    assert_eq!(fx.status_update, Some(ServerStatus::Running));
    assert_eq!(s.status, ServerStatus::Running);

    let pid = s.stats_check_owned(false);
    assert_eq!(pid, Some(31337));
    let st = s.stats_from_owned(100, 4096);
    assert_eq!(st.status, ServerStatus::Running);
    assert_eq!(st.player_count, 0);

    let fx2 = m.observe_line(&mut s, b"Steve joined the game");
    assert_eq!(fx2.player_update, Some(1));
    let st2 = s.stats_from_owned(100, 4096);
    assert_eq!(st2.player_count, 1);

    let action = s.stop_begin().expect("stop should decide");
    assert!(matches!(action, StopAction::KillOwned(31337)));
    let stopped = s.stop_finish(true);
    assert!(stopped);
    assert_eq!(s.status, ServerStatus::Offline);
}
