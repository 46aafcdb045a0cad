//! Connecting to the database.

use vstd::prelude::*;

verus! {

/// The connection settings for a database server on `host` and `port`.
pub open spec fn connection_config_spec(host: Seq<char>, port: Seq<char>) -> Seq<char> {
    "host="@ + host + " port="@ + port + " user=postgres password=admin"@
}

/// The connection settings for the database; the host defaults to `localhost` and
/// the port to `5432` when they are not configured.
pub fn connection_config(host: Option<String>, port: Option<String>) -> (c: String)
    ensures
        c@ == connection_config_spec(
            match host {
                Some(h) => h@,
                None => "localhost"@,
            },
            match port {
                Some(p) => p@,
                None => "5432"@,
            },
        ),
{
    let host = match host {
        Some(h) => h,
        None => String::from_str("localhost"),
    };
    let port = match port {
        Some(p) => p,
        None => String::from_str("5432"),
    };
    let mut c = String::from_str("host=");
    c.append(host.as_str());
    c.append(" port=");
    c.append(port.as_str());
    c.append(" user=postgres password=admin");
    c
}

} // verus!
