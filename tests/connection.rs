use ingest_bench::connection::{resolve_connections, ConfigError, ConnectionInfo};
use ingest_bench::text::decimal_string;

#[test]
fn address_without_scheme_gets_default_scheme_and_ordinal_name() {
    let c = ConnectionInfo::from_str("db.example.com:5432/mydb", 0);
    assert_eq!(c.name, "postgres-1");
    assert_eq!(c.connection_string, "postgresql://db.example.com:5432/mydb");
}

#[test]
fn custom_scheme_becomes_name() {
    let c = ConnectionInfo::from_str("myhost://user@host/db", 0);
    assert_eq!(c.name, "myhost");
    assert_eq!(c.connection_string, "postgresql://user@host/db");
}

#[test]
fn default_schemes_are_kept() {
    let c = ConnectionInfo::from_str("postgres://u@h/db", 2);
    assert_eq!(c.name, "postgres-3");
    assert_eq!(c.connection_string, "postgres://u@h/db");
    let d = ConnectionInfo::from_str("postgresql://u@h/db", 9);
    assert_eq!(d.name, "postgres-10");
    assert_eq!(d.connection_string, "postgresql://u@h/db");
}

#[test]
fn bare_separator_gives_empty_name() {
    let c = ConnectionInfo::from_str("://u@h/db", 0);
    assert_eq!(c.name, "");
    assert_eq!(c.connection_string, "postgresql://u@h/db");
}

#[test]
fn largest_ordinal_does_not_overflow() {
    let c = ConnectionInfo::from_str("h/db", usize::MAX);
    assert_eq!(c.name, format!("postgres-{}", (usize::MAX as u128) + 1));
}

#[test]
fn resolve_names_by_position() {
    let list = vec!["a/db".to_string(), "x://b/db".to_string(), "c/db".to_string()];
    let conns = resolve_connections(&list).unwrap();
    assert_eq!(conns.len(), 3);
    assert_eq!(conns[0].name, "postgres-1");
    assert_eq!(conns[1].name, "x");
    assert_eq!(conns[2].name, "postgres-3");
    assert_eq!(conns[1].connection_string, "postgresql://b/db");
}

#[test]
fn resolve_empty_list_is_an_error() {
    let list: Vec<String> = Vec::new();
    assert_eq!(resolve_connections(&list).unwrap_err(), ConfigError::NoConnection);
}

#[test]
fn decimal_rendering() {
    assert_eq!(decimal_string(0), "0");
    assert_eq!(decimal_string(7), "7");
    assert_eq!(decimal_string(4000), "4000");
    assert_eq!(decimal_string(u128::MAX), u128::MAX.to_string());
}
