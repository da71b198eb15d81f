use parsec::database::er_diagram::ERDiagramGenerator;
use parsec::database::query_runner::QueryRunner;
use parsec::database::redis::{RedisConnection, RedisTransaction};
use parsec::database::sqlite::SQLiteTransaction;
use parsec::database::{
    export_database, generate_create_table, join_strings, ColumnInfo, DatabaseConfig, ForeignKey, TableSchema,
};

fn col(name: &str, ty: &str, nullable: bool, default: Option<&str>) -> ColumnInfo {
    ColumnInfo {
        name: name.to_string(),
        data_type: ty.to_string(),
        nullable,
        default: default.map(|d| d.to_string()),
        is_primary_key: false,
        is_unique: false,
    }
}

fn users() -> TableSchema {
    TableSchema {
        name: "users".to_string(),
        columns: vec![col("id", "INTEGER", false, None), col("name", "TEXT", true, Some("'x'"))],
        primary_key: vec!["id".to_string()],
        foreign_keys: vec![],
        indexes: vec![],
    }
}

fn posts() -> TableSchema {
    TableSchema {
        name: "posts".to_string(),
        columns: vec![col("id", "INTEGER", false, None), col("user_id", "INTEGER", false, None)],
        primary_key: vec![],
        foreign_keys: vec![ForeignKey {
            column: "user_id".to_string(),
            foreign_table: "users".to_string(),
            foreign_column: "id".to_string(),
            on_delete: None,
            on_update: None,
        }],
        indexes: vec![],
    }
}

#[test]
fn config_paths_under_data_dir() {
    let c = DatabaseConfig::with_data_dir(Some("/data"));
    assert_eq!(c.connections_dir, "/data/parsec/database/connections");
    assert_eq!(c.query_history_size, 100);
    assert_eq!(c.max_query_timeout_secs, 30);
    assert_eq!(DatabaseConfig::with_data_dir(None).connections_dir, "./parsec/database/connections");
}

#[test]
fn join_with_separator() {
    let parts = vec!["a".to_string(), "b".to_string(), "c".to_string()];
    assert_eq!(join_strings(&parts, ", "), "a, b, c");
    assert_eq!(join_strings(&vec![], ", "), "");
}

#[test]
fn create_table_statement() {
    assert_eq!(
        generate_create_table(&users()),
        "CREATE TABLE users (\n  id INTEGER NOT NULL,\n  name TEXT DEFAULT 'x',\n  PRIMARY KEY (id)\n);"
    );
    assert_eq!(
        generate_create_table(&posts()),
        "CREATE TABLE posts (\n  id INTEGER NOT NULL,\n  user_id INTEGER NOT NULL,\n  FOREIGN KEY (user_id) REFERENCES users(id)\n);"
    );
}

#[test]
fn export_joins_statements() {
    let all = vec![users(), posts()];
    let expected = format!("{}\n\n{}\n\n", generate_create_table(&users()), generate_create_table(&posts()));
    assert_eq!(export_database(&all), expected);
    assert_eq!(export_database(&vec![]), "");
}

#[test]
fn mermaid_diagram() {
    let g = ERDiagramGenerator::new();
    let m = g.generate_mermaid(&[users(), posts()]).unwrap();
    assert_eq!(
        m,
        "erDiagram\n    users {\n        INTEGER id PK\n        TEXT name\n    }\n    posts {\n        INTEGER id\n        INTEGER user_id\n    }\n    users ||--o{ posts : \"user_id\"\n"
    );
}

#[test]
fn ascii_diagram() {
    let g = ERDiagramGenerator::new();
    let a = g.generate_ascii(&[posts()]).unwrap();
    assert_eq!(
        a,
        "+----------------------+\n|        posts        |\n+----------------------+\n|    id: INTEGER |\n|    user_id: INTEGER |\n+----------------------+\n\n    user_id ──────→ users.id\n\n"
    );
    let b = g.generate_ascii(&[users()]).unwrap();
    assert!(b.contains("| 🔑 id: INTEGER |\n"));
}

#[test]
fn html_diagram_lists_columns() {
    let g = ERDiagramGenerator::new();
    let h = g.generate_html(&[users()]).unwrap();
    assert!(h.starts_with("<!DOCTYPE html>"));
    assert!(h.contains("<div class=\"table-name\">users</div>"));
    assert!(h.contains("<div class=\"column pk\">id: INTEGER</div>"));
    assert!(h.ends_with("</html>"));
}

#[test]
fn dot_diagram_has_nodes_and_edge() {
    let g = ERDiagramGenerator::new();
    let d = g.generate(&[users(), posts()]).unwrap();
    assert!(d.starts_with("digraph {"));
    assert!(d.contains("    1 -> 0 [ ]\n"));
    assert!(d.contains("0 [ label = \"users\\l(id: INTEGER, name: TEXT)\" ]"));
    assert_eq!(
        d,
        "digraph {\n    0 [ label = \"users\\l(id: INTEGER, name: TEXT)\" ]\n    1 [ label = \"posts\\l(id: INTEGER, user_id: INTEGER)\" ]\n    1 -> 0 [ ]\n}\n"
    );
}

#[test]
fn history_is_newest_first_and_bounded() {
    let mut r = QueryRunner::new(2);
    r.record_query("c", "SELECT 1", 5);
    r.record_query("c", "SELECT 2", 6);
    r.record_query("c", "SELECT 3", 7);
    let h = r.get_history("c");
    let qs: Vec<&str> = h.iter().map(|e| e.query.as_str()).collect();
    assert_eq!(qs, vec!["SELECT 3", "SELECT 2"]);
    assert!(h[0].success);
    assert_eq!(h[0].execution_time_ms, 7);
    assert!(r.get_history("other").is_empty());
    r.clear();
    assert!(r.get_history("c").is_empty());
}

#[test]
fn suggestions_are_distinct_matches() {
    let mut r = QueryRunner::new(10);
    r.record_query("c", "SELECT a FROM t", 1);
    r.record_query("c", "DELETE FROM t", 1);
    r.record_query("c", "SELECT a FROM t", 1);
    assert_eq!(r.get_suggestions("c", "SELECT"), vec!["SELECT a FROM t".to_string()]);
    assert_eq!(r.get_suggestions("c", "FROM").len(), 2);
}

#[test]
fn format_query_truncates() {
    let r = QueryRunner::new(1);
    assert_eq!(r.format_query("SELECT 1", 20), "SELECT 1");
    assert_eq!(r.format_query("SELECT * FROM table", 6), "SELECT...");
}

#[test]
fn read_only_and_transaction_control() {
    let r = QueryRunner::new(1);
    assert!(r.is_read_only("  select * from t"));
    assert!(r.is_read_only("SHOW TABLES"));
    assert!(!r.is_read_only("UPDATE t SET a = 1"));
    assert!(r.is_transaction_control("begin"));
    assert!(r.is_transaction_control(" Rollback"));
    assert!(!r.is_transaction_control("SELECT 1"));
}

#[test]
fn parse_sql_prints_statements_or_reports() {
    let r = QueryRunner::new(1);
    let ok = r.parse_sql("select a from t; select 1").unwrap();
    assert_eq!(ok, vec!["SELECT a FROM t".to_string(), "SELECT 1".to_string()]);
    let err = r.parse_sql("SELEC oops").unwrap_err();
    assert!(err.0.starts_with("SQL parsing error: "));
}

#[test]
fn redis_url_and_transactions() {
    let c = RedisConnection::from_parts("r".to_string(), "localhost", 6379, Some("pw"));
    assert_eq!(c.connection_string(), "redis://:pw@localhost:6379/");
    let d = RedisConnection::from_parts("r".to_string(), "h", 1, None);
    assert_eq!(d.connection_string(), "redis://h:1/");
    let t = RedisTransaction::new("r".to_string());
    assert_eq!(t.execute("SET a 1").unwrap_err().0, "Transaction execute not implemented");
    assert!(t.commit().is_ok() && t.rollback().is_ok());
    let s = SQLiteTransaction::new("s".to_string());
    assert!(s.execute("x").is_err() && s.commit().is_ok());
}

use parsec::database::manager::{ConnectionRecord, DatabaseManager};
use parsec::database::DatabaseType;

#[test]
fn manager_checks_connections_before_queries() {
    let mut m = DatabaseManager::new(DatabaseConfig::with_data_dir(Some("/tmp")));
    match m.execute_query("main", "SELECT 1") {
        Err(e) => assert_eq!(e.0, "Connection not found: main"),
        Ok(()) => panic!("expected an error"),
    }
    m.add_connection("main".to_string(), ConnectionRecord { db_type: DatabaseType::SQLite, connected: false }).unwrap();
    m.add_connection("cache".to_string(), ConnectionRecord { db_type: DatabaseType::Redis, connected: true }).unwrap();
    assert_eq!(m.list_connections(), vec!["main".to_string(), "cache".to_string()]);
    assert_eq!(m.execute_query("main", "SELECT 1").unwrap_err().0, "Connection not connected");
    assert!(m.execute_transaction("main").is_ok());
    m.set_connected("main", true);
    assert!(m.execute_query("main", "SELECT 1").is_ok());
    m.query_executed("main", "SELECT 1", 12);
    let h = m.get_query_history("main");
    assert_eq!(h.len(), 1);
    assert_eq!(h[0].query, "SELECT 1");
    assert_eq!(h[0].execution_time_ms, 12);
    m.clear_history();
    assert!(m.get_query_history("main").is_empty());
    m.remove_connection("main").unwrap();
    assert_eq!(m.execute_transaction("main").unwrap_err().0, "Connection not found: main");
    assert!(m.generate_er_diagram(&[users()]).unwrap().starts_with("digraph {"));
}
