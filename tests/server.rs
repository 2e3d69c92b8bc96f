use sword::config::{AppConfig, ConfigError};
use sword::server::{Action, Bootstrap, BootstrapError, Event};

fn config() -> AppConfig {
    AppConfig {
        host: "127.0.0.1".to_string(),
        port: 8080,
        database_url: "postgres://localhost/test".to_string(),
        db_max_connections: 100,
        db_min_connections: 5,
        db_connect_timeout: 8,
        db_idle_timeout: 600,
        db_max_lifetime: 1800,
    }
}

fn migrations(n: usize) -> Vec<String> {
    (1..=n).map(|i| format!("m{}", i)).collect()
}

fn show(a: &Action) -> String {
    format!("{:?}", a)
}

#[test]
fn third_of_five_migrations_fails() {
    let mut b = Bootstrap::new(true);
    assert!(matches!(b.step(Event::Start), Action::LoadConfig));
    assert!(matches!(b.step(Event::ConfigLoaded(Ok(config()))), Action::ConnectDb));
    let a = b.step(Event::Connected(Ok(migrations(5))));
    assert_eq!(show(&a), show(&Action::ApplyMigration { name: "m1".to_string() }));
    let a = b.step(Event::MigrationApplied(Ok(())));
    assert_eq!(show(&a), show(&Action::ApplyMigration { name: "m2".to_string() }));
    let a = b.step(Event::MigrationApplied(Ok(())));
    assert_eq!(show(&a), show(&Action::ApplyMigration { name: "m3".to_string() }));
    let a = b.step(Event::MigrationApplied(Err("syntax error".to_string())));
    match a {
        Action::Finish(e) => assert_eq!(
            e,
            BootstrapError::Migration {
                migration: "m3".to_string(),
                message: "syntax error".to_string()
            }
        ),
        other => panic!("unexpected {:?}", other),
    }
    assert!(matches!(b.step(Event::RouterBuilt), Action::Wait));
    assert!(matches!(b.step(Event::MigrationApplied(Ok(()))), Action::Wait));
}

#[test]
fn full_start_with_migrations() {
    let mut b = Bootstrap::new(true);
    b.step(Event::Start);
    b.step(Event::ConfigLoaded(Ok(config())));
    b.step(Event::Connected(Ok(migrations(2))));
    assert!(matches!(b.step(Event::MigrationApplied(Ok(()))), Action::ApplyMigration { .. }));
    assert!(matches!(b.step(Event::MigrationApplied(Ok(()))), Action::BuildRouter));
    let a = b.step(Event::RouterBuilt);
    assert_eq!(show(&a), show(&Action::Bind { address: "127.0.0.1:8080".to_string() }));
    assert!(matches!(b.step(Event::Bound(Ok(()))), Action::Serve));
    match b.step(Event::ServeEnded("server stopped".to_string())) {
        Action::Finish(e) => assert_eq!(
            e,
            BootstrapError::Serve { message: "server stopped".to_string() }
        ),
        other => panic!("unexpected {:?}", other),
    }
    assert!(matches!(b.step(Event::RouterBuilt), Action::Wait));
}

#[test]
fn migrations_off_skips_them() {
    let mut b = Bootstrap::new(false);
    b.step(Event::Start);
    b.step(Event::ConfigLoaded(Ok(config())));
    assert!(matches!(b.step(Event::Connected(Ok(migrations(3)))), Action::BuildRouter));
    let mut b = Bootstrap::new(true);
    b.step(Event::Start);
    b.step(Event::ConfigLoaded(Ok(config())));
    assert!(matches!(b.step(Event::Connected(Ok(Vec::new()))), Action::BuildRouter));
}

#[test]
fn each_failure_finishes() {
    let mut b = Bootstrap::new(true);
    b.step(Event::Start);
    let err = ConfigError::MissingRequiredVariable { name: "DATABASE_URL".to_string() };
    match b.step(Event::ConfigLoaded(Err(err.clone()))) {
        Action::Finish(e) => assert_eq!(e, BootstrapError::Config(err)),
        other => panic!("unexpected {:?}", other),
    }

    let mut b = Bootstrap::new(true);
    b.step(Event::Start);
    b.step(Event::ConfigLoaded(Ok(config())));
    match b.step(Event::Connected(Err("timed out".to_string()))) {
        Action::Finish(e) => assert_eq!(
            e,
            BootstrapError::DatabaseConnect { message: "timed out".to_string() }
        ),
        other => panic!("unexpected {:?}", other),
    }

    let mut b = Bootstrap::new(false);
    b.step(Event::Start);
    b.step(Event::ConfigLoaded(Ok(config())));
    b.step(Event::Connected(Ok(Vec::new())));
    b.step(Event::RouterBuilt);
    match b.step(Event::Bound(Err("address in use".to_string()))) {
        Action::Finish(e) => assert_eq!(
            e,
            BootstrapError::Bind { message: "address in use".to_string() }
        ),
        other => panic!("unexpected {:?}", other),
    }
}

#[test]
fn out_of_order_events_wait() {
    let mut b = Bootstrap::new(true);
    assert!(matches!(b.step(Event::RouterBuilt), Action::Wait));
    assert!(matches!(b.step(Event::Start), Action::LoadConfig));
    assert!(matches!(b.step(Event::Start), Action::Wait));
}
