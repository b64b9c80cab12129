use agent_dispatch::config::{load_config_from, ConfigVars, DbConfig, ServerConfig};

fn no_vars() -> ConfigVars {
    ConfigVars {
        port: None,
        host: None,
        db_type: None,
        db_name: None,
        db_host: None,
        db_port: None,
        db_user: None,
        db_password: None,
    }
}

#[test]
fn test_server_config_defaults() {
    let config = ServerConfig { port: 8080, host: "0.0.0.0".to_string() };
    assert_eq!(config.port, 8080);
    assert_eq!(config.host, "0.0.0.0");
}

#[test]
fn test_db_config_defaults() {
    let config = DbConfig {
        dbtype: "postgresql".to_string(),
        dbname: "agent_builder".to_string(),
        host: "localhost".to_string(),
        port: 5432,
        user: "postgres".to_string(),
        password: "postgres".to_string(),
    };
    assert_eq!(config.dbname, "agent_builder");
    assert_eq!(config.port, 5432);
}

#[test]
fn load_config_uses_defaults_when_nothing_is_set() {
    let c = load_config_from(&no_vars());
    assert_eq!(c.server.port, 8080);
    assert_eq!(c.server.host, "0.0.0.0");
    assert_eq!(c.db.dbtype, "postgresql");
    assert_eq!(c.db.dbname, "agent_builder");
    assert_eq!(c.db.host, "localhost");
    assert_eq!(c.db.port, 5433);
    assert_eq!(c.db.user, "postgres");
    assert_eq!(c.db.password, "postgres");
    assert_eq!(c.hikari.maximum_pool_size, 20);
    assert_eq!(c.hikari.minimum_idle, 5);
    assert_eq!(c.hikari.idle_timeout, 600000);
    assert_eq!(c.hikari.max_lifetime, 1800000);
}

#[test]
fn load_config_reads_set_variables() {
    let mut v = no_vars();
    v.port = Some("+9000".to_string());
    v.host = Some("127.0.0.1".to_string());
    v.db_name = Some("agents".to_string());
    v.db_port = Some("65535".to_string());
    let c = load_config_from(&v);
    assert_eq!(c.server.port, 9000);
    assert_eq!(c.server.host, "127.0.0.1");
    assert_eq!(c.db.dbname, "agents");
    assert_eq!(c.db.port, 65535);
}

#[test]
fn load_config_falls_back_on_unreadable_ports() {
    let mut v = no_vars();
    v.port = Some("80a".to_string());
    v.db_port = Some("65536".to_string());
    let c = load_config_from(&v);
    assert_eq!(c.server.port, 8080);
    assert_eq!(c.db.port, 5433);
    v.port = Some("".to_string());
    v.db_port = Some("-1".to_string());
    let c = load_config_from(&v);
    assert_eq!(c.server.port, 8080);
    assert_eq!(c.db.port, 5433);
}
