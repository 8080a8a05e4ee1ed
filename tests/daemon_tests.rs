use remindr::cli::{format_entry, format_to_width, search_commands, show_status, status_label};
use remindr::daemon::{
    assess, get_daemon_pid, is_daemon_running, parse_pid, reconcile, start_daemon, stop_daemon,
    DaemonError, DaemonState, StartAction, StopAction,
};
use remindr::db::{get_daemon_status, init_database, set_daemon_status, store_command, StoreError, EventStore};

#[test]
fn cold_start_then_running() {
    let mut store = init_database();
    let state = assess(get_daemon_pid(None).unwrap(), false);
    assert_eq!(state, DaemonState::Stopped);
    assert!(!is_daemon_running(state));
    assert_eq!(start_daemon(state), StartAction::Spawn { clear_stale: false });
    set_daemon_status(&mut store, true).unwrap();
    let pid = get_daemon_pid(Some("4242\n")).unwrap();
    let state = assess(pid, true);
    assert_eq!(state, DaemonState::Running(4242));
    assert!(is_daemon_running(state));
    assert_eq!(start_daemon(state), StartAction::AlreadyRunning);
    let (active, recent) = show_status(&store).unwrap();
    assert!(active);
    assert!(recent.is_empty());
}

#[test]
fn stale_pid_is_not_running() {
    let mut store = init_database();
    set_daemon_status(&mut store, true).unwrap();
    let state = assess(get_daemon_pid(Some("999999")).unwrap(), false);
    assert_eq!(state, DaemonState::Stale(999999));
    assert!(!is_daemon_running(state));
    assert_eq!(reconcile(&mut store, state), Ok(false));
    assert_eq!(get_daemon_status(&store), Ok(false));
    assert_eq!(start_daemon(state), StartAction::Spawn { clear_stale: true });
    assert_eq!(stop_daemon(state), StopAction::NotRunning { clear_stale: true });
}

#[test]
fn stop_terminates_running_daemon() {
    assert_eq!(stop_daemon(DaemonState::Running(7)), StopAction::Terminate(7));
    assert_eq!(stop_daemon(DaemonState::Stopped), StopAction::NotRunning { clear_stale: false });
}

#[test]
fn reconcile_keeps_flag_of_running_daemon() {
    let mut store = init_database();
    set_daemon_status(&mut store, true).unwrap();
    assert_eq!(reconcile(&mut store, DaemonState::Running(3)), Ok(true));
    assert_eq!(get_daemon_status(&store), Ok(true));
    let mut bare = EventStore::new();
    assert_eq!(reconcile(&mut bare, DaemonState::Stopped), Err(StoreError::MissingStatusRow));
}

#[test]
fn pid_file_contents() {
    assert_eq!(get_daemon_pid(Some(" 123 \n")), Ok(Some(123)));
    assert_eq!(get_daemon_pid(Some("0")), Ok(Some(0)));
    assert_eq!(get_daemon_pid(Some("4294967295")), Ok(Some(4294967295)));
    assert_eq!(get_daemon_pid(Some("4294967296")), Err(DaemonError::CorruptPidFile));
    assert_eq!(get_daemon_pid(Some("12a")), Err(DaemonError::CorruptPidFile));
    assert_eq!(get_daemon_pid(Some("")), Err(DaemonError::CorruptPidFile));
    assert_eq!(get_daemon_pid(Some("-5")), Err(DaemonError::CorruptPidFile));
    assert_eq!(parse_pid("007"), Some(7));
    assert_eq!(parse_pid(" 7"), None);
}

#[test]
fn status_labels() {
    assert_eq!(status_label(true), "ON");
    assert_eq!(status_label(false), "OFF");
}

#[test]
fn blank_keyword_browses_recent() {
    let mut store = init_database();
    for i in 0..12 {
        store_command(&mut store, &format!("cmd {}", i)).unwrap();
    }
    let (_, rows) = search_commands(&store, "   ").unwrap();
    assert_eq!(rows.len(), 10);
    let (_, rows) = search_commands(&store, "cmd 1").unwrap();
    assert_eq!(rows.len(), 3);
    assert_eq!(search_commands(&EventStore::new(), "x").err(), Some(StoreError::MissingStatusRow));
}

#[test]
fn width_formatting() {
    assert_eq!(format_to_width("short", 10), "short");
    assert_eq!(format_to_width("exactly10!", 10), "exactly10!");
    assert_eq!(format_to_width("much longer text", 10), "much lo...");
    assert_eq!(format_to_width("äöüäöüäöüäöü", 6), "äöü...");
    assert_eq!(
        format_entry("2024-01-02 03:04:05", "ls -la", 30),
        "2024-01-02 03:04:05 | ls -la"
    );
    assert_eq!(
        format_entry("2024-01-02 03:04:05", "git commit -m message", 30),
        "2024-01-02 03:04:05 | git c..."
    );
}

#[test]
fn command_row_shows_utc_time() {
    let mut c = remindr::db::Command::new("ls");
    c.timestamp = 1431648000;
    assert_eq!(remindr::cli::format_command(&c, 40), "2015-05-15 00:00:00 | ls");
}
