use remindr::db::{
    get_daemon_status, init_database, migrate, search_commands, set_daemon_status, store_command,
    Command, EventStore, MigrationStep, StoreError, migration_steps, SCHEMA_VERSION,
};

fn command_at(text: &str, ts: i64) -> Command {
    let mut c = Command::new(text);
    c.timestamp = ts;
    c
}

#[test]
fn fresh_store_is_empty_and_inactive() {
    let store = init_database();
    assert_eq!(store.count(), 0);
    assert_eq!(get_daemon_status(&store), Ok(false));
    assert!(Command::get_last(&store, 5).is_empty());
}

#[test]
fn unmigrated_store_refuses_writes_and_status() {
    let mut store = EventStore::new();
    assert_eq!(Command::new("ls").save(&mut store), Err(StoreError::MissingTable));
    assert_eq!(get_daemon_status(&store), Err(StoreError::MissingStatusRow));
    assert_eq!(set_daemon_status(&mut store, true), Err(StoreError::MissingStatusRow));
    assert_eq!(store.count(), 0);
}

#[test]
fn migrate_twice_keeps_schema_and_events() {
    let mut store = init_database();
    store_command(&mut store, "ls -la").unwrap();
    let schema = store.schema();
    assert_eq!(schema.version, SCHEMA_VERSION);
    migrate(&mut store);
    assert!(store.schema() == schema);
    migrate(&mut store);
    assert!(store.schema() == schema);
    assert_eq!(store.count(), 1);
    assert_eq!(Command::get_last(&store, 1)[0].command, "ls -la");
}

#[test]
fn migration_plan_by_version() {
    let full = migration_steps(0);
    assert_eq!(full.len(), 6);
    assert!(full[0] == MigrationStep::CreateVersionTable);
    assert!(full[5] == MigrationStep::RecordVersion);
    let current = migration_steps(SCHEMA_VERSION);
    assert_eq!(current.len(), 1);
    assert!(current[0] == MigrationStep::CreateVersionTable);
}

#[test]
fn ids_are_assigned_in_order() {
    let mut store = init_database();
    assert_eq!(store_command(&mut store, "a"), Ok(1));
    assert_eq!(store_command(&mut store, "b"), Ok(2));
    assert_eq!(store_command(&mut store, "c"), Ok(3));
}

#[test]
fn round_trip_through_recent() {
    let mut store = init_database();
    let mut c = command_at("cargo build", 1_700_000_000);
    c.categorization = Some("Rust Development".to_string());
    c.tags = Some("rust,cargo".to_string());
    c.context = Some("build".to_string());
    let id = c.save(&mut store).unwrap();
    let got = Command::get_last(&store, 1);
    assert_eq!(got.len(), 1);
    assert_eq!(got[0].id, Some(id));
    assert_eq!(got[0].timestamp, 1_700_000_000);
    assert_eq!(got[0].command, "cargo build");
    assert_eq!(got[0].categorization.as_deref(), Some("Rust Development"));
    assert_eq!(got[0].tags.as_deref(), Some("rust,cargo"));
    assert_eq!(got[0].context.as_deref(), Some("build"));
}

#[test]
fn recent_orders_by_time_then_id() {
    let mut store = init_database();
    command_at("middle", 200).save(&mut store).unwrap();
    command_at("newest", 300).save(&mut store).unwrap();
    command_at("oldest", 100).save(&mut store).unwrap();
    command_at("tie", 300).save(&mut store).unwrap();
    let got = Command::get_last(&store, 10);
    let texts: Vec<&str> = got.iter().map(|c| c.command.as_str()).collect();
    assert_eq!(texts, vec!["tie", "newest", "middle", "oldest"]);
    let two = Command::get_last(&store, 2);
    assert_eq!(two.len(), 2);
    assert_eq!(two[0].command, "tie");
    assert_eq!(two[1].command, "newest");
}

#[test]
fn search_finds_one_git_command() {
    let mut store = init_database();
    store_command(&mut store, "git commit -m x").unwrap();
    store_command(&mut store, "ls -la").unwrap();
    let found = search_commands(&store, "git");
    assert_eq!(found.len(), 1);
    assert_eq!(found[0].command, "git commit -m x");
}

#[test]
fn search_ignores_ascii_case_and_reads_labels() {
    let mut store = init_database();
    let mut c = command_at("make", 10);
    c.tags = Some("Build,C".to_string());
    c.save(&mut store).unwrap();
    command_at("MAKE install", 20).save(&mut store).unwrap();
    let found = Command::search(&store, "make");
    assert_eq!(found.len(), 2);
    assert_eq!(found[0].command, "MAKE install");
    let by_tag = Command::search(&store, "build");
    assert_eq!(by_tag.len(), 1);
    assert_eq!(by_tag[0].command, "make");
    assert!(Command::search(&store, "absent").is_empty());
}

#[test]
fn empty_keyword_matches_everything() {
    let mut store = init_database();
    store_command(&mut store, "a").unwrap();
    store_command(&mut store, "b").unwrap();
    assert_eq!(Command::search(&store, "").len(), 2);
}

#[test]
fn search_is_capped_at_fifty() {
    let mut store = init_database();
    for i in 0..60 {
        command_at(&format!("echo {}", i), i).save(&mut store).unwrap();
    }
    let found = Command::search(&store, "echo");
    assert_eq!(found.len(), 50);
    assert_eq!(found[0].command, "echo 59");
    assert_eq!(found[49].command, "echo 10");
}

#[test]
fn status_flag_round_trips() {
    let mut store = init_database();
    set_daemon_status(&mut store, true).unwrap();
    assert_eq!(get_daemon_status(&store), Ok(true));
    set_daemon_status(&mut store, false).unwrap();
    assert_eq!(get_daemon_status(&store), Ok(false));
}

#[test]
fn load_restores_rows_in_id_order() {
    let mut store = init_database();
    let mut a = command_at("first", 5);
    a.id = Some(7);
    store.load(a).unwrap();
    let mut b = command_at("again", 6);
    b.id = Some(7);
    assert_eq!(store.load(b), Err(StoreError::BadRow));
    assert_eq!(store.load(command_at("no id", 6)), Err(StoreError::BadRow));
    assert_eq!(store_command(&mut store, "next"), Ok(8));
}
