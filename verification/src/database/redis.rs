//! Redis connection settings and transactions. Talking to the server is
//! outside the library.
use vstd::prelude::*;
use crate::database::{DatabaseError, DatabaseType};
use crate::text::{decimal, owned, u64_to_string};

verus! {

/// Redis connection: its name, connection URL and whether it is connected.
#[derive(Debug)]
pub struct RedisConnection {
    name: String,
    connection_string: String,
    connected: bool,
}

/// The URL of a Redis server, with the password when there is one.
pub open spec fn redis_url(host: Seq<char>, port: u16, password: Option<Seq<char>>) -> Seq<char> {
    match password {
        Some(p) => "redis://:"@ + p + "@"@ + host + ":"@ + decimal(port as nat) + "/"@,
        None => "redis://"@ + host + ":"@ + decimal(port as nat) + "/"@,
    }
}

impl RedisConnection {
    pub closed spec fn name_spec(&self) -> Seq<char> { self.name@ }
    pub closed spec fn url_spec(&self) -> Seq<char> { self.connection_string@ }
    pub closed spec fn connected_spec(&self) -> bool { self.connected }

    /// A connection, not yet connected.
    pub fn new(name: String, connection_string: String) -> (c: Self)
        ensures c.name_spec() == name@, c.url_spec() == connection_string@, !c.connected_spec(),
    {
        RedisConnection { name, connection_string, connected: false }
    }

    /// A connection to a host and port, with an optional password.
    pub fn from_parts(name: String, host: &str, port: u16, password: Option<&str>) -> (c: Self)
        ensures
            c.name_spec() == name@,
            c.url_spec() == redis_url(host@, port, match password { Some(p) => Some(p@), None => None }),
            !c.connected_spec(),
    {
        let port_text = u64_to_string(port as u64);
        let url = match password {
            Some(pass) => {
                let mut u = owned("redis://:");
                u.append(pass);
                u.append("@");
                u.append(host);
                u.append(":");
                u.append(port_text.as_str());
                u.append("/");
                u
            },
            None => {
                let mut u = owned("redis://");
                u.append(host);
                u.append(":");
                u.append(port_text.as_str());
                u.append("/");
                u
            },
        };
        Self::new(name, url)
    }

    /// The database type.
    pub fn db_type(&self) -> (t: DatabaseType)
        ensures t is Redis,
    {
        DatabaseType::Redis
    }

    /// The connection's name.
    pub fn name(&self) -> (s: String)
        ensures s@ == self.name_spec(),
    {
        self.name.clone()
    }

    /// The connection URL.
    pub fn connection_string(&self) -> (s: String)
        ensures s@ == self.url_spec(),
    {
        self.connection_string.clone()
    }

    /// Whether connected.
    pub fn is_connected(&self) -> (b: bool)
        ensures b == self.connected_spec(),
    {
        self.connected
    }

    /// Record that the server answered and the connection is up.
    pub fn mark_connected(&mut self)
        ensures final(self).connected_spec(), final(self).name_spec() == old(self).name_spec(),
            final(self).url_spec() == old(self).url_spec(),
    {
        self.connected = true;
    }

    /// Disconnect.
    pub fn disconnect(&mut self)
        ensures !final(self).connected_spec(), final(self).name_spec() == old(self).name_spec(),
            final(self).url_spec() == old(self).url_spec(),
    {
        self.connected = false;
    }
}

/// Redis transaction on a named connection (opened with MULTI).
#[derive(Debug)]
pub struct RedisTransaction {
    name: String,
}

impl RedisTransaction {
    pub closed spec fn name_spec(&self) -> Seq<char> { self.name@ }

    /// A transaction on the named connection.
    pub fn new(name: String) -> (t: Self)
        ensures t.name_spec() == name@,
    {
        RedisTransaction { name }
    }

    /// Execute a statement: refused.
    pub fn execute(&self, query: &str) -> (r: Result<(), DatabaseError>)
        ensures r matches Err(DatabaseError(m)) && m@ == "Transaction execute not implemented"@,
    {
        Err(DatabaseError(owned("Transaction execute not implemented")))
    }

    /// Commit (EXEC): accepted.
    pub fn commit(&self) -> (r: Result<(), DatabaseError>)
        ensures r is Ok,
    {
        Ok(())
    }

    /// Roll back (DISCARD): accepted.
    pub fn rollback(&self) -> (r: Result<(), DatabaseError>)
        ensures r is Ok,
    {
        Ok(())
    }
}

} // verus!
