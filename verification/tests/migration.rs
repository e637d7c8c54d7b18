use webmention_receiver::error::Error;
use webmention_receiver::migrate::{backup_name, migration_plan, run_migrations, MIGRATION_COUNT};
use webmention_receiver::store::{ingest_with, Store};
use webmention_receiver::types::{Config, MentionId, Timestamp};

fn open_config() -> Config {
    Config { external_url: "https://wm.example".to_string(), bind: None, allowed_domains: None }
}

#[test]
fn migration_runs_to_the_known_version() {
    let mut s = Store::new();
    run_migrations(&mut s, Timestamp(1000)).unwrap();
    assert_eq!(s.version, MIGRATION_COUNT);
    assert_eq!(s.backups.len(), MIGRATION_COUNT as usize);
}

#[test]
fn migration_is_idempotent() {
    let mut s = Store::new();
    run_migrations(&mut s, Timestamp(1000)).unwrap();
    let backups_before = s.backups.len();
    let version_before = s.version;
    run_migrations(&mut s, Timestamp(2000)).unwrap();
    assert_eq!(s.version, version_before);
    assert_eq!(s.backups.len(), backups_before);
}

#[test]
fn migration_backs_up_the_pre_migration_store() {
    let mut s = Store::new();
    let c = open_config();
    ingest_with(
        &mut s,
        &c,
        "example.com",
        "https://a.example/a",
        "https://example.com/p",
        MentionId(1),
        Timestamp(100),
    )
    .unwrap();
    run_migrations(&mut s, Timestamp(1699999999999)).unwrap();
    assert_eq!(s.backups.len(), 1);
    let b = &s.backups[0];
    assert_eq!(b.version, 0);
    assert_eq!(
        b.name,
        "webmention-receiver.migrationbackup.1699999999999.0.sqlite3"
    );
    assert_eq!(b.mentions.len(), 1);
    assert_eq!(b.mentions[0].id, MentionId(1));
    assert_eq!(b.mentions[0].source, "https://a.example/a");
}

#[test]
fn unknown_future_schema_is_fatal() {
    let mut s = Store { version: MIGRATION_COUNT + 4, mentions: Vec::new(), backups: Vec::new() };
    let r = run_migrations(&mut s, Timestamp(1000));
    assert_eq!(r, Err(Error::MigrationFatal));
    assert_eq!(s.version, MIGRATION_COUNT + 4);
    assert_eq!(s.backups.len(), 0);
}

#[test]
fn plan_of_a_fresh_store() {
    let steps = migration_plan(0, Timestamp(5)).unwrap();
    assert_eq!(steps.len(), MIGRATION_COUNT as usize);
    assert_eq!(steps[0].0, 0);
    assert_eq!(steps[0].1, backup_name(Timestamp(5), 0));
}

#[test]
fn plan_of_a_current_store_is_empty() {
    let steps = migration_plan(MIGRATION_COUNT, Timestamp(5)).unwrap();
    assert!(steps.is_empty());
}

#[test]
fn plan_of_a_future_store_is_fatal() {
    let r = migration_plan(MIGRATION_COUNT + 1, Timestamp(5));
    assert_eq!(r, Err(Error::MigrationFatal));
}

#[test]
fn backup_names_encode_moment_and_version() {
    assert_eq!(
        backup_name(Timestamp(42), 0),
        "webmention-receiver.migrationbackup.42.0.sqlite3"
    );
    assert_eq!(
        backup_name(Timestamp(-7), 3),
        "webmention-receiver.migrationbackup.-7.3.sqlite3"
    );
    assert_ne!(backup_name(Timestamp(42), 0), backup_name(Timestamp(42), 1));
    assert_ne!(backup_name(Timestamp(42), 0), backup_name(Timestamp(43), 0));
}
