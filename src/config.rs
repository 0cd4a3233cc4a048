//! Server configuration, assembled with a builder.
use vstd::prelude::*;

verus! {

/// Server configuration.
pub struct ServerConfig {
    pub addr: String,
    pub port: u16,
    pub max_users: usize,
    pub max_rooms: usize,
    pub motd: Option<String>,
}

/// Accumulates configuration values and produces a `ServerConfig`.
pub struct ServerConfigBuilder {
    addr: String,
    port: u16,
    max_users: usize,
    max_rooms: usize,
    motd: Option<String>,
}

impl ServerConfigBuilder {
    pub closed spec fn addr_value(&self) -> Seq<char> {
        self.addr@
    }

    pub closed spec fn port_value(&self) -> u16 {
        self.port
    }

    pub closed spec fn max_users_value(&self) -> usize {
        self.max_users
    }

    pub closed spec fn max_rooms_value(&self) -> usize {
        self.max_rooms
    }

    pub closed spec fn motd_value(&self) -> Option<Seq<char>> {
        match self.motd {
            Some(m) => Some(m@),
            None => None,
        }
    }
}

impl ServerConfig {
    /// A builder holding the defaults: 127.0.0.1, port 8080, 100 users,
    /// 50 rooms, no message of the day.
    pub fn builder() -> (r: ServerConfigBuilder)
        ensures
            r.addr_value() == "127.0.0.1"@,
            r.port_value() == 8080,
            r.max_users_value() == 100,
            r.max_rooms_value() == 50,
            r.motd_value() is None,
    {
        ServerConfigBuilder {
            addr: "127.0.0.1".to_owned(),
            port: 8080,
            max_users: 100,
            max_rooms: 50,
            motd: None,
        }
    }
}

impl ServerConfigBuilder {
    pub fn addr(self, addr: &str) -> (r: Self)
        ensures
            r.addr_value() == addr@,
            r.port_value() == self.port_value(),
            r.max_users_value() == self.max_users_value(),
            r.max_rooms_value() == self.max_rooms_value(),
            r.motd_value() == self.motd_value(),
    {
        ServerConfigBuilder { addr: addr.to_owned(), ..self }
    }

    pub fn port(self, port: u16) -> (r: Self)
        ensures
            r.addr_value() == self.addr_value(),
            r.port_value() == port,
            r.max_users_value() == self.max_users_value(),
            r.max_rooms_value() == self.max_rooms_value(),
            r.motd_value() == self.motd_value(),
    {
        ServerConfigBuilder { port, ..self }
    }

    pub fn max_users(self, max: usize) -> (r: Self)
        ensures
            r.addr_value() == self.addr_value(),
            r.port_value() == self.port_value(),
            r.max_users_value() == max,
            r.max_rooms_value() == self.max_rooms_value(),
            r.motd_value() == self.motd_value(),
    {
        ServerConfigBuilder { max_users: max, ..self }
    }

    pub fn max_rooms(self, max: usize) -> (r: Self)
        ensures
            r.addr_value() == self.addr_value(),
            r.port_value() == self.port_value(),
            r.max_users_value() == self.max_users_value(),
            r.max_rooms_value() == max,
            r.motd_value() == self.motd_value(),
    {
        ServerConfigBuilder { max_rooms: max, ..self }
    }

    pub fn motd(self, motd: &str) -> (r: Self)
        ensures
            r.addr_value() == self.addr_value(),
            r.port_value() == self.port_value(),
            r.max_users_value() == self.max_users_value(),
            r.max_rooms_value() == self.max_rooms_value(),
            r.motd_value() == Some(motd@),
    {
        ServerConfigBuilder { motd: Some(motd.to_owned()), ..self }
    }

    pub fn build(self) -> (r: ServerConfig)
        ensures
            r.addr@ == self.addr_value(),
            r.port == self.port_value(),
            r.max_users == self.max_users_value(),
            r.max_rooms == self.max_rooms_value(),
            match r.motd {
                Some(m) => self.motd_value() == Some(m@),
                None => self.motd_value() is None,
            },
    {
        ServerConfig {
            addr: self.addr,
            port: self.port,
            max_users: self.max_users,
            max_rooms: self.max_rooms,
            motd: self.motd,
        }
    }
}

} // verus!
