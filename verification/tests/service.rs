use dpl::daemon_service::{agent_listed, launch_agent_plist, systemd_unit, DaemonAction};
use dpl::logs::{follow_step, slow_lines, tail_lines};

#[test]
fn daemon_actions_parse_or_explain() {
    assert_eq!(DaemonAction::parse("restart"), Ok(DaemonAction::Restart));
    assert_eq!(
        DaemonAction::parse("reboot"),
        Err("unknown daemon action: reboot (install|uninstall|start|stop|restart|status)".to_string())
    );
}

#[test]
fn service_files_name_the_binary_and_logs() {
    let plist = launch_agent_plist("/usr/local/bin/dpld", "/l/out.log", "/l/err.log");
    assert!(plist.contains("<key>Label</key><string>com.tomshafer.dpld</string>"));
    assert!(plist.contains("<array><string>/usr/local/bin/dpld</string></array>"));
    assert!(plist.contains("<key>StandardErrorPath</key><string>/l/err.log</string>"));
    assert!(plist.ends_with("</plist>\n"));
    let unit = systemd_unit("/opt/dpld");
    assert_eq!(
        unit,
        "[Unit]\nDescription=dpl local dev daemon\n\n[Service]\nExecStart=/opt/dpld\nEnvironment=DPL_HTTP_PORT=8080\nEnvironment=DPL_HTTPS_PORT=8443\nRestart=always\n\n[Install]\nWantedBy=default.target\n"
    );
    assert!(agent_listed("PID\tStatus\tLabel\n-\t0\tcom.tomshafer.dpld\n"));
    assert!(!agent_listed("PID\tStatus\tLabel\n"));
}

#[test]
fn logs_tail_and_follow() {
    assert_eq!(tail_lines("a\nb\nc\n", 2), vec!["b", "c"]);
    assert_eq!(tail_lines("a\nb\n", 5), vec!["a", "b"]);
    assert!(tail_lines("", 3).is_empty());
    assert_eq!(follow_step(100, 150), (Some(100), 150));
    assert_eq!(follow_step(100, 100), (None, 100));
    assert_eq!(follow_step(100, 40), (Some(0), 40));
    assert_eq!(follow_step(100, 0), (None, 0));
}

#[test]
fn slow_requests_are_picked_out_of_the_pool_log() {
    let log = "NOTICE: ready\nWARNING: child 1, script '/a/index.php' (request: \"GET /admin\") executing too slow (5.3 sec), logging\nERROR: task_for_pid() failed\nWARNING: child 2, script '/a/index.php' (request: \"GET /\") executing too slow (6.0 sec), logging\n";
    let lines = slow_lines(log, 1);
    assert_eq!(lines.len(), 1);
    assert!(lines[0].contains("GET /\""));
    assert_eq!(slow_lines(log, 10).len(), 2);
    assert!(slow_lines("nothing\n", 3).is_empty());
}
