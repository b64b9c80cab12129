//! The service's configuration, read from its environment with defaults.
use vstd::prelude::*;
use vstd::string::*;
use crate::text::{lemma_decimal_value, parse_u16, parse_u16_spec};

verus! {

/// Where the HTTP server listens.
#[derive(Debug)]
pub struct ServerConfig {
    pub port: u16,
    pub host: String,
}

/// How to reach the database.
#[derive(Debug)]
pub struct DbConfig {
    pub dbtype: String,
    pub dbname: String,
    pub host: String,
    pub port: u16,
    pub user: String,
    pub password: String,
}

/// The connection pool's limits; times in milliseconds.
#[derive(Debug)]
pub struct HikariConfig {
    pub maximum_pool_size: u32,
    pub minimum_idle: u32,
    pub idle_timeout: u64,
    pub max_lifetime: u64,
}

/// The whole configuration.
#[derive(Debug)]
pub struct AppConfig {
    pub server: ServerConfig,
    pub db: DbConfig,
    pub hikari: HikariConfig,
}

/// The environment variables that the configuration reads, each as found, if set.
#[derive(Debug)]
pub struct ConfigVars {
    pub port: Option<String>,
    pub host: Option<String>,
    pub db_type: Option<String>,
    pub db_name: Option<String>,
    pub db_host: Option<String>,
    pub db_port: Option<String>,
    pub db_user: Option<String>,
    pub db_password: Option<String>,
}

/// A variable's value, or the default when it is not set.
pub open spec fn var_or(v: Option<String>, default: Seq<char>) -> Seq<char> {
    match v {
        Some(s) => s@,
        None => default,
    }
}

/// A port from a variable: the default when it is not set or does not read as a `u16`.
pub open spec fn port_or(v: Option<String>, default: u16) -> u16 {
    match parse_u16_spec(var_or(v, decimal_of(default))) {
        Some(p) => p,
        None => default,
    }
}

/// The decimal text of a default port.
pub open spec fn decimal_of(p: u16) -> Seq<char> {
    crate::text::decimal(p as nat)
}

fn string_or(v: &Option<String>, default: &str) -> (s: String)
    ensures
        s@ == var_or(*v, default@),
{
    match v {
        Some(s) => s.clone(),
        None => String::from_str(default),
    }
}

fn port_from(v: &Option<String>, default: u16) -> (p: u16)
    ensures
        p == port_or(*v, default),
{
    let text = match v {
        Some(s) => s.clone(),
        None => crate::text::u64_to_decimal(default as u64),
    };
    match parse_u16(text.as_str()) {
        Some(p) => p,
        None => default,
    }
}

/// The configuration from its variables: `PORT` (8080) and `HOST` (`0.0.0.0`) for the
/// server; `DB_TYPE` (`postgresql`), `DB_NAME` (`agent_builder`), `DB_HOST` (`localhost`),
/// `DB_PORT` (5433), `DB_USER` and `DB_PASSWORD` (both `postgres`) for the database; a port
/// that does not read as a number takes its default. The pool's limits are fixed.
pub fn load_config_from(vars: &ConfigVars) -> (c: AppConfig)
    ensures
        c.server.port == port_or(vars.port, 8080),
        c.server.host@ == var_or(vars.host, "0.0.0.0"@),
        c.db.dbtype@ == var_or(vars.db_type, "postgresql"@),
        c.db.dbname@ == var_or(vars.db_name, "agent_builder"@),
        c.db.host@ == var_or(vars.db_host, "localhost"@),
        c.db.port == port_or(vars.db_port, 5433),
        c.db.user@ == var_or(vars.db_user, "postgres"@),
        c.db.password@ == var_or(vars.db_password, "postgres"@),
        c.hikari.maximum_pool_size == 20,
        c.hikari.minimum_idle == 5,
        c.hikari.idle_timeout == 600000,
        c.hikari.max_lifetime == 1800000,
{
    let server = ServerConfig { port: port_from(&vars.port, 8080), host: string_or(&vars.host, "0.0.0.0") };
    let db = DbConfig {
        dbtype: string_or(&vars.db_type, "postgresql"),
        dbname: string_or(&vars.db_name, "agent_builder"),
        host: string_or(&vars.db_host, "localhost"),
        port: port_from(&vars.db_port, 5433),
        user: string_or(&vars.db_user, "postgres"),
        password: string_or(&vars.db_password, "postgres"),
    };
    let hikari = HikariConfig {
        maximum_pool_size: 20,
        minimum_idle: 5,
        idle_timeout: 600000,
        max_lifetime: 1800000,
    };
    AppConfig { server, db, hikari }
}

/// Law: a variable that is set is taken as it is; one that is not set takes its default.
pub proof fn law_set_variable_wins(v: String, default: Seq<char>)
    ensures
        var_or(Some(v), default) == v@,
        var_or(None, default) == default,
{
}

/// Law: a port variable that holds a port in decimal, with or without a leading `+`, gives
/// that port; one that holds no digits, or anything but digits after an optional `+`, gives
/// the default.
pub proof fn law_port_reads_its_decimal(v: String, p: u16, default: u16)
    ensures
        v@ == crate::text::decimal(p as nat) ==> port_or(Some(v), default) == p,
        v@ == seq!['+'] + crate::text::decimal(p as nat) ==> port_or(Some(v), default) == p,
        v@.len() == 0 ==> port_or(Some(v), default) == default,
        (exists|i: int| 0 <= i < v@.len() && #[trigger] v@[i] != '+' && !crate::text::is_digit(v@[i]))
            ==> port_or(Some(v), default) == default,
{
    lemma_decimal_value(p as nat);
    lemma_decimal_value(default as nat);
    let d = crate::text::decimal(p as nat);
    if v@ == d {
        assert(d[0] != '+');
    }
    if v@ == seq!['+'] + d {
        assert((seq!['+'] + d).drop_first() =~= d);
    }
    if exists|i: int| 0 <= i < v@.len() && #[trigger] v@[i] != '+' && !crate::text::is_digit(v@[i]) {
        let i = choose|i: int| 0 <= i < v@.len() && #[trigger] v@[i] != '+' && !crate::text::is_digit(v@[i]);
        let w = crate::text::without_plus(v@);
        if v@.len() > 0 && v@[0] == '+' {
            assert(w[i - 1] == v@[i]);
        } else {
            assert(w[i] == v@[i]);
        }
        assert(!crate::text::all_digits(w));
    }
}

/// Law: a port that is not set is its default.
pub proof fn law_unset_port_is_default(default: u16)
    ensures
        port_or(None, default) == default,
{
    lemma_decimal_parses(default);
}

proof fn lemma_decimal_parses(p: u16)
    ensures
        parse_u16_spec(crate::text::decimal(p as nat)) == Some(p),
{
    lemma_decimal_value(p as nat);
    let s = crate::text::decimal(p as nat);
    assert(s[0] != '+');
}

} // verus!
