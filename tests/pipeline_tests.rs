use remindr::ai::{categorize_command, categorize_lowered};
use remindr::db::{init_database, Command};
use remindr::dedup::{is_duplicate_command, Deduplicator};
use remindr::integration::{integration_status_text, is_integration_enabled, toggle_integration};
use remindr::tail::{PollStep, TailCursor};
use remindr::text::trim;
use remindr::watcher::{process_command, process_lines};

fn lines(v: &[&str]) -> Vec<String> {
    v.iter().map(|s| s.to_string()).collect()
}

#[test]
fn consecutive_duplicates_are_recorded_once() {
    let mut dedup = Deduplicator::new();
    let mut store = init_database();
    let n = process_lines(&mut dedup, &mut store, &lines(&["git status", "git status", "ls"])).unwrap();
    assert_eq!(n, 2);
    assert_eq!(store.count(), 2);
    let got = Command::get_last(&store, 5);
    let mut texts: Vec<&str> = got.iter().map(|c| c.command.as_str()).collect();
    texts.sort();
    assert_eq!(texts, vec!["git status", "ls"]);
}

#[test]
fn count_matches_accepted_lines() {
    let mut dedup = Deduplicator::new();
    let mut store = init_database();
    let input = lines(&[
        "", "   ", "exit", "logout", "clear", "# note", "ls", "ls", "  ls  ", "pwd", "ls",
        "shell_integration --hook", "pwd",
    ]);
    let n = process_lines(&mut dedup, &mut store, &input).unwrap();
    assert_eq!(n, 4);
    assert_eq!(store.count(), 4);
    assert_eq!(dedup.last().as_deref(), Some("pwd"));
}

#[test]
fn dedup_compares_with_last_accepted_only() {
    let mut d = Deduplicator::new();
    assert!(d.accept("ls"));
    assert!(!d.accept("ls"));
    assert!(!d.accept("exit"));
    assert!(!d.accept("ls "));
    assert!(d.accept("pwd"));
    assert!(d.accept("ls"));
    let mut r = Deduplicator::resume(Some("make".to_string()));
    assert!(!r.accept("make"));
}

#[test]
fn processed_command_is_trimmed_and_classified() {
    let mut dedup = Deduplicator::new();
    let mut store = init_database();
    let id = process_command(&mut dedup, &mut store, "  git push  ").unwrap();
    assert_eq!(id, Some(1));
    let got = Command::get_last(&store, 1);
    assert_eq!(got[0].command, "git push");
    assert_eq!(got[0].categorization.as_deref(), Some("Version Control"));
    assert_eq!(got[0].tags.as_deref(), Some("git,development"));
    assert_eq!(got[0].context.as_deref(), Some("Managing git repository"));
    assert_eq!(process_command(&mut dedup, &mut store, "git push"), Ok(None));
    process_command(&mut dedup, &mut store, "vim notes").unwrap();
    assert!(Command::get_last(&store, 1)[0].categorization.is_none());
}

#[test]
fn trim_removes_unicode_white_space() {
    assert_eq!(trim("\t ls -la \r\n"), "ls -la");
    assert_eq!(trim("\u{3000}x\u{a0}"), "x");
    assert_eq!(trim("   "), "");
}

#[test]
fn classifier_rules_in_order() {
    let cat = |s: &str| categorize_command(s).map(|t| t.0);
    assert_eq!(cat("GIT status").as_deref(), Some("Version Control"));
    assert_eq!(cat("cd /tmp").as_deref(), Some("File Navigation"));
    assert_eq!(cat("mkdir x").as_deref(), Some("File Navigation"));
    assert_eq!(cat("Cargo test").as_deref(), Some("Rust Development"));
    assert_eq!(cat("docker ps").as_deref(), Some("Containerization"));
    assert_eq!(cat("yarn add").as_deref(), Some("JavaScript Development"));
    assert_eq!(cat("git ls-files").as_deref(), Some("Version Control"));
    assert_eq!(cat("vim"), None);
    let full = categorize_command("npm install").unwrap();
    assert_eq!(full.1, "javascript,nodejs,npm");
    assert_eq!(full.2, "Working with Node.js/JavaScript");
}

#[test]
fn lowered_classifier_is_case_sensitive() {
    assert!(categorize_lowered("GIT").is_none());
    assert_eq!(categorize_lowered("git").unwrap().0, "Version Control");
}

#[test]
fn tail_starts_at_end_and_reads_growth() {
    let mut c = TailCursor::open(10);
    assert_eq!(c.poll(10), PollStep::Idle);
    assert_eq!(c.poll(18), PollStep::Read { from: 10, to: 18 });
    let out = c.consume(b"ls\npwd\nec");
    assert_eq!(out, vec![b"ls".to_vec(), b"pwd".to_vec()]);
    assert_eq!(c, TailCursor { offset: 17, last_size: 19 });
    assert_eq!(c.poll(22), PollStep::Read { from: 17, to: 22 });
    let out = c.consume(b"echo\n");
    assert_eq!(out, vec![b"echo".to_vec()]);
    assert_eq!(c, TailCursor { offset: 22, last_size: 22 });
}

#[test]
fn truncated_file_yields_new_line_once() {
    let mut c = TailCursor::open(100);
    let file = b"make\n";
    assert_eq!(c.poll(file.len() as u64), PollStep::Truncated);
    assert_eq!(c, TailCursor { offset: 0, last_size: 0 });
    let step = c.poll(file.len() as u64);
    assert_eq!(step, PollStep::Read { from: 0, to: 5 });
    let out = c.consume(&file[0..5]);
    assert_eq!(out, vec![b"make".to_vec()]);
    assert_eq!(c.poll(file.len() as u64), PollStep::Idle);
}

#[test]
fn integration_status_file() {
    assert!(is_integration_enabled(None));
    assert!(is_integration_enabled(Some("enabled\n")));
    assert!(!is_integration_enabled(Some("disabled")));
    assert!(!is_integration_enabled(Some("")));
    assert_eq!(integration_status_text(true), "enabled");
    assert_eq!(integration_status_text(false), "disabled");
    assert!(!toggle_integration(true));
}

#[test]
fn duplicate_check_against_last() {
    assert!(is_duplicate_command(Some("ls"), "ls"));
    assert!(!is_duplicate_command(Some("ls"), "pwd"));
    assert!(!is_duplicate_command(None, "ls"));
}
