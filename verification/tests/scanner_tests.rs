use roam::ServerStatus;
use roam::scanner::{ProcessRecord, find_orphaned_java_process};
use roam::supervisor::SupervisorState;

fn record(pid: u32, name: &str, cwd: Option<&str>, cmd: &[&str]) -> ProcessRecord {
    ProcessRecord {
        pid,
        name: name.as_bytes().to_vec(),
        cwd: cwd.map(|c| c.as_bytes().to_vec()),
        cmd: cmd.iter().map(|a| a.as_bytes().to_vec()).collect(),
    }
}

#[test]
fn empty_table_has_no_orphan() {
    let procs: Vec<ProcessRecord> = Vec::new();
    assert_eq!(find_orphaned_java_process(&procs, b"/srv/mc"), None);
}

#[test]
fn matches_by_working_directory() {
    let procs = vec![
        record(1, "bash", Some("/srv/mc"), &[]),
        record(2, "java", Some("/srv/mc"), &[]),
    ];
    assert_eq!(find_orphaned_java_process(&procs, b"/srv/mc"), Some(2));
}

#[test]
fn matches_by_command_line_argument() {
    let procs = vec![record(
        9,
        "java",
        Some("/home/elsewhere"),
        &["java", "-jar", "/srv/mc/server.jar", "nogui"],
    )];
    assert_eq!(find_orphaned_java_process(&procs, b"/srv/mc"), Some(9));
}

#[test]
fn executable_name_match_is_case_insensitive() {
    let procs = vec![record(4, "JAVA.exe", Some("/srv/mc"), &[])];
    assert_eq!(find_orphaned_java_process(&procs, b"/srv/mc"), Some(4));
}

#[test]
fn non_java_processes_never_match() {
    let procs = vec![
        record(1, "python", Some("/srv/mc"), &["/srv/mc/tool.py"]),
        record(2, "bash", None, &["cat", "/srv/mc/server.log"]),
    ];
    assert_eq!(find_orphaned_java_process(&procs, b"/srv/mc"), None);
}

#[test]
fn java_process_elsewhere_does_not_match() {
    let procs = vec![record(3, "java", Some("/opt/other"), &["java", "-jar", "other.jar"])];
    assert_eq!(find_orphaned_java_process(&procs, b"/srv/mc"), None);
}

#[test]
fn first_match_wins() {
    let procs = vec![
        record(1, "java", Some("/srv/mc"), &[]),
        record(2, "java", Some("/srv/mc"), &[]),
    ];
    assert_eq!(find_orphaned_java_process(&procs, b"/srv/mc"), Some(1));
}

#[test]
fn working_directory_must_match_exactly() {
    let procs = vec![record(5, "java", Some("/srv/mc2"), &[])];
    assert_eq!(find_orphaned_java_process(&procs, b"/srv/mc"), None);
    // But an argument containing the path as a substring matches.
    let procs2 = vec![record(6, "java", None, &["-jar", "/srv/mc2/server.jar"])];
    assert_eq!(find_orphaned_java_process(&procs2, b"/srv/mc2"), Some(6));
}

#[test]
fn orphan_scenario_reports_running_stats() {
    // No handle owned, a process exists whose working directory equals
    // the configured path: stats are sampled from it and a stale
    // Offline status is reported as Running.
    let mut s = SupervisorState::new();
    s.set_config(roam::config::ServerConfig {
        name: None,
        path: "/srv/mc".to_string(),
        jar_name: "server.jar".to_string(),
        min_ram: "1G".to_string(),
        max_ram: "2G".to_string(),
    });
    assert!(s.owned_pid.is_none());
    assert_eq!(s.status, ServerStatus::Offline);

    let sample_target = s.stats_check_owned(false);
    assert_eq!(sample_target, None);

    let path = s.config_path().expect("configured");
    let procs = vec![record(321, "java", Some("/srv/mc"), &[])];
    let orphan = find_orphaned_java_process(&procs, path.as_bytes());
    assert_eq!(orphan, Some(321));

    let st = s.stats_from_orphan(1550, 2_000_000);
    assert_eq!(st.status, ServerStatus::Running);
    assert!(st.cpu_centi > 0);
    assert!(st.memory > 0);
}
