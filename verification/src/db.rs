//! The database's address and its health as the service reports it.
use vstd::prelude::*;
use vstd::string::*;
use crate::config::DbConfig;
use crate::text::{decimal, u64_to_decimal};

verus! {

/// The health of the service and its database.
#[derive(Debug)]
pub struct HealthStatus {
    pub status: String,
    pub database: String,
    /// Why the database could not be reached; left out of the answer when there is none.
    pub error: Option<String>,
}

/// The health that a probe of the database shows: healthy and connected when it answered,
/// unhealthy and disconnected, with the error's text, when it did not.
pub fn health_status(probe: Result<(), String>) -> (h: HealthStatus)
    ensures
        probe is Ok ==> h.status@ == "healthy"@ && h.database@ == "connected"@ && h.error is None,
        probe matches Err(e) ==> h.status@ == "unhealthy"@ && h.database@ == "disconnected"@
            && (h.error matches Some(m) && m@ == e@),
{
    match probe {
        Ok(()) => HealthStatus {
            status: String::from_str("healthy"),
            database: String::from_str("connected"),
            error: None,
        },
        Err(e) => HealthStatus {
            status: String::from_str("unhealthy"),
            database: String::from_str("disconnected"),
            error: Some(e),
        },
    }
}

/// The HTTP status of a health answer: 200 when healthy, 503 otherwise.
pub fn health_http_status(h: &HealthStatus) -> (s: u16)
    ensures
        h.status@ == "healthy"@ ==> s == 200,
        h.status@ != "healthy"@ ==> s == 503,
{
    if crate::text::str_eq(h.status.as_str(), "healthy") {
        200
    } else {
        503
    }
}

/// The connection URL of a database configuration.
pub open spec fn spec_database_url(c: DbConfig) -> Seq<char> {
    "postgres://"@ + c.user@ + ":"@ + c.password@ + "@"@ + c.host@ + ":"@ + decimal(c.port as nat)
        + "/"@ + c.dbname@
}

/// Law: the connection URL always names the user and the password, separated by `:`, right
/// after `postgres://`, whatever their values; then `@`, the host, `:`, the port in decimal,
/// `/` and the database's name.
pub proof fn law_database_url_has_every_part(c: DbConfig)
    ensures
        ({
            let u = spec_database_url(c);
            let cred = "postgres://"@ + c.user@ + ":"@ + c.password@ + "@"@;
            let addr = c.host@ + ":"@ + decimal(c.port as nat);
            let tail = "/"@ + c.dbname@;
            &&& u.len() == cred.len() + addr.len() + tail.len()
            &&& u.subrange(0, cred.len() as int) == cred
            &&& u.subrange(cred.len() as int, (cred.len() + addr.len()) as int) == addr
            &&& u.subrange((cred.len() + addr.len()) as int, u.len() as int) == tail
        }),
{
    let u = spec_database_url(c);
    let cred = "postgres://"@ + c.user@ + ":"@ + c.password@ + "@"@;
    let addr = c.host@ + ":"@ + decimal(c.port as nat);
    let tail = "/"@ + c.dbname@;
    assert(u =~= cred + addr + tail);
    assert(u.subrange(0, cred.len() as int) =~= cred);
    assert(u.subrange(cred.len() as int, (cred.len() + addr.len()) as int) =~= addr);
    assert(u.subrange((cred.len() + addr.len()) as int, u.len() as int) =~= tail);
}

/// The connection URL of a database configuration.
pub fn database_url(c: &DbConfig) -> (u: String)
    ensures
        u@ == spec_database_url(*c),
        u@ == "postgres://"@ + c.user@ + ":"@ + c.password@ + "@"@ + c.host@ + ":"@ + decimal(
            c.port as nat,
        ) + "/"@ + c.dbname@,
{
    let mut u = String::from_str("postgres://");
    u.append(c.user.as_str());
    u.append(":");
    u.append(c.password.as_str());
    u.append("@");
    u.append(c.host.as_str());
    u.append(":");
    let p = u64_to_decimal(c.port as u64);
    u.append(p.as_str());
    u.append("/");
    u.append(c.dbname.as_str());
    u
}

} // verus!
