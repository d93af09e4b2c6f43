//! Connection settings of the standalone database layer, assembled from optional parts
//! with defaults for those left out; the port is a 32-bit number there.
use vstd::prelude::*;
use crate::db::config::{default_name, format_default_name, opt_view};

verus! {

/// A connection's settings, every part set, the port as a 32-bit number.
pub struct ConnConfig {
    name: String,
    host: String,
    port: u32,
    db: Option<String>,
    user: String,
    password: Option<String>,
}

/// A connection's settings as a mathematical value: name, host, port, database, user
/// and password.
pub type ConfigView = (Seq<char>, Seq<char>, u32, Option<Seq<char>>, Seq<char>, Option<Seq<char>>);

impl View for ConnConfig {
    type V = ConfigView;

    closed spec fn view(&self) -> ConfigView {
        (self.name@, self.host@, self.port, opt_view(self.db), self.user@, opt_view(self.password))
    }
}

impl ConnConfig {
    /// The name.
    pub fn name(&self) -> (s: &String)
        ensures
            s@ == self@.0,
    {
        &self.name
    }

    /// The host.
    pub fn host(&self) -> (s: &String)
        ensures
            s@ == self@.1,
    {
        &self.host
    }

    /// The port.
    pub fn port(&self) -> (p: u32)
        ensures
            p == self@.2,
    {
        self.port
    }

    /// The database, if one was given.
    pub fn db(&self) -> (d: &Option<String>)
        ensures
            opt_view(*d) == self@.3,
    {
        &self.db
    }

    /// The user.
    pub fn user(&self) -> (s: &String)
        ensures
            s@ == self@.4,
    {
        &self.user
    }

    /// The password, if one was given.
    pub fn password(&self) -> (p: &Option<String>)
        ensures
            opt_view(*p) == self@.5,
    {
        &self.password
    }
}

/// Parts of a connection's settings, any of them left out.
pub struct ConnConfigBuilder {
    name: Option<String>,
    host: Option<String>,
    port: Option<u32>,
    db: Option<String>,
    user: Option<String>,
    password: Option<String>,
}

/// The parts given so far: name, host, port, database, user and password.
pub type BuilderView = (
    Option<Seq<char>>,
    Option<Seq<char>>,
    Option<u32>,
    Option<Seq<char>>,
    Option<Seq<char>>,
    Option<Seq<char>>,
);

impl View for ConnConfigBuilder {
    type V = BuilderView;

    closed spec fn view(&self) -> BuilderView {
        (
            opt_view(self.name),
            opt_view(self.host),
            self.port,
            opt_view(self.db),
            opt_view(self.user),
            opt_view(self.password),
        )
    }
}

/// The settings that the parts `b` build: host `localhost`, port 5432 and user
/// `postgres` where left out, and the name `user@host:port` where none was given.
pub open spec fn built(b: BuilderView) -> ConfigView {
    let host = match b.1 {
        Some(h) => h,
        None => "localhost"@,
    };
    let port: u32 = match b.2 {
        Some(p) => p,
        None => 5432,
    };
    let user = match b.4 {
        Some(u) => u,
        None => "postgres"@,
    };
    let name = match b.0 {
        Some(n) => n,
        None => default_name(user, host, port as nat),
    };
    (name, host, port, b.3, user, b.5)
}

impl ConnConfigBuilder {
    /// No part given.
    pub fn new() -> (b: Self)
        ensures
            b@ == (None::<Seq<char>>, None::<Seq<char>>, None::<u32>, None::<Seq<char>>, None::<Seq<char>>, None::<Seq<char>>),
    {
        ConnConfigBuilder { name: None, host: None, port: None, db: None, user: None, password: None }
    }

    /// Gives the name.
    pub fn name(self, name: String) -> (b: Self)
        ensures
            b@ == (Some(name@), self@.1, self@.2, self@.3, self@.4, self@.5),
    {
        ConnConfigBuilder { name: Some(name), ..self }
    }

    /// Gives the host.
    pub fn host(self, host: String) -> (b: Self)
        ensures
            b@ == (self@.0, Some(host@), self@.2, self@.3, self@.4, self@.5),
    {
        ConnConfigBuilder { host: Some(host), ..self }
    }

    /// Gives the port.
    pub fn port(self, port: u32) -> (b: Self)
        ensures
            b@ == (self@.0, self@.1, Some(port), self@.3, self@.4, self@.5),
    {
        ConnConfigBuilder { port: Some(port), ..self }
    }

    /// Gives the database.
    pub fn db(self, db: String) -> (b: Self)
        ensures
            b@ == (self@.0, self@.1, self@.2, Some(db@), self@.4, self@.5),
    {
        ConnConfigBuilder { db: Some(db), ..self }
    }

    /// Gives the user.
    pub fn user(self, user: String) -> (b: Self)
        ensures
            b@ == (self@.0, self@.1, self@.2, self@.3, Some(user@), self@.5),
    {
        ConnConfigBuilder { user: Some(user), ..self }
    }

    /// Gives the password.
    pub fn password(self, password: String) -> (b: Self)
        ensures
            b@ == (self@.0, self@.1, self@.2, self@.3, self@.4, Some(password@)),
    {
        ConnConfigBuilder { password: Some(password), ..self }
    }

    /// The settings, defaults filled in.
    pub fn build(self) -> (c: ConnConfig)
        ensures
            c@ == built(self@),
    {
        let host = match self.host {
            Some(h) => h,
            None => String::from_str("localhost"),
        };
        let port: u32 = match self.port {
            Some(p) => p,
            None => 5432,
        };
        let user = match self.user {
            Some(u) => u,
            None => String::from_str("postgres"),
        };
        let name = match self.name {
            Some(n) => n,
            None => format_default_name(user.as_str(), host.as_str(), port as u64),
        };
        proof {
            reveal_strlit("localhost");
            reveal_strlit("postgres");
        }
        ConnConfig { name, host, port, user, db: self.db, password: self.password }
    }
}

} // verus!
