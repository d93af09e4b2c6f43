//! Connection settings assembled from optional parts, with defaults for those left out.
use vstd::prelude::*;
use crate::chars::{chars_to_string, str_chars};

verus! {

/// The view of an optional string.
pub open spec fn opt_view(o: Option<String>) -> Option<Seq<char>> {
    match o {
        Some(s) => Some(s@),
        None => None,
    }
}

/// The decimal digit of `d`, which is below ten.
pub open spec fn digit(d: nat) -> char {
    if d == 0 {
        '0'
    } else if d == 1 {
        '1'
    } else if d == 2 {
        '2'
    } else if d == 3 {
        '3'
    } else if d == 4 {
        '4'
    } else if d == 5 {
        '5'
    } else if d == 6 {
        '6'
    } else if d == 7 {
        '7'
    } else if d == 8 {
        '8'
    } else {
        '9'
    }
}

/// The decimal form of `n`, without leading zeros.
pub open spec fn decimal(n: nat) -> Seq<char>
    decreases n,
{
    if n < 10 {
        seq![digit(n)]
    } else {
        decimal(n / 10).push(digit(n % 10))
    }
}

/// The digit of `d`, computed.
fn digit_char(d: u64) -> (c: char)
    requires
        d < 10,
    ensures
        c == digit(d as nat),
{
    if d == 0 {
        '0'
    } else if d == 1 {
        '1'
    } else if d == 2 {
        '2'
    } else if d == 3 {
        '3'
    } else if d == 4 {
        '4'
    } else if d == 5 {
        '5'
    } else if d == 6 {
        '6'
    } else if d == 7 {
        '7'
    } else if d == 8 {
        '8'
    } else {
        '9'
    }
}

/// The decimal form of `n`.
pub fn decimal_chars(n: u64) -> (v: Vec<char>)
    ensures
        v@ == decimal(n as nat),
    decreases n,
{
    if n < 10 {
        let mut v: Vec<char> = Vec::new();
        v.push(digit_char(n));
        v
    } else {
        let mut v = decimal_chars(n / 10);
        v.push(digit_char(n % 10));
        v
    }
}

/// `user@host:port`, the name given to a connection that has none.
pub open spec fn default_name(user: Seq<char>, host: Seq<char>, port: nat) -> Seq<char> {
    user + seq!['@'] + host + seq![':'] + decimal(port)
}

/// `user@host:port`, computed.
pub fn format_default_name(user: &str, host: &str, port: u64) -> (s: String)
    ensures
        s@ == default_name(user@, host@, port as nat),
{
    let mut v = str_chars(user);
    v.push('@');
    let h = str_chars(host);
    let mut i: usize = 0;
    let ghost start = v@;
    while i < h.len()
        invariant
            i <= h@.len(),
            v@ == start + h@.take(i as int),
        decreases h@.len() - i,
    {
        v.push(h[i]);
        i = i + 1;
        assert(start + h@.take(i as int) =~= start + h@.take(i - 1) + seq![h@[i - 1]]);
    }
    assert(h@.take(h@.len() as int) =~= h@);
    v.push(':');
    let d = decimal_chars(port);
    let ghost mid = v@;
    let mut j: usize = 0;
    while j < d.len()
        invariant
            j <= d@.len(),
            v@ == mid + d@.take(j as int),
        decreases d@.len() - j,
    {
        v.push(d[j]);
        j = j + 1;
        assert(mid + d@.take(j as int) =~= mid + d@.take(j - 1) + seq![d@[j - 1]]);
    }
    assert(d@.take(d@.len() as int) =~= d@);
    assert(v@ =~= default_name(user@, host@, port as nat));
    chars_to_string(v.as_slice())
}

/// The settings handed to the connection pool: each one set, or left to the pool's
/// default.
pub struct PgSettings {
    pub user: Option<String>,
    pub password: Option<String>,
    pub dbname: Option<String>,
    pub application_name: Option<String>,
    pub host: Option<String>,
    pub port: Option<u16>,
    /// Seconds to wait for a connection.
    pub connect_timeout_secs: Option<u64>,
    pub keepalives: Option<bool>,
}

/// A connection's settings, every part set.
pub struct ConnectionConfig {
    name: String,
    host: String,
    port: u16,
    db: Option<String>,
    user: String,
    password: Option<String>,
}

/// A connection's settings as a mathematical value: name, host, port, database, user
/// and password.
pub type ConfigView = (Seq<char>, Seq<char>, u16, Option<Seq<char>>, Seq<char>, Option<Seq<char>>);

impl View for ConnectionConfig {
    type V = ConfigView;

    closed spec fn view(&self) -> ConfigView {
        (self.name@, self.host@, self.port, opt_view(self.db), self.user@, opt_view(self.password))
    }
}

impl ConnectionConfig {
    /// The settings for the connection pool: every part set, the name as application
    /// name, a five second timeout and keepalives on.
    pub fn to_pg_settings(self) -> (s: PgSettings)
        ensures
            opt_view(s.user) == Some(self@.4),
            opt_view(s.password) == self@.5,
            opt_view(s.dbname) == self@.3,
            opt_view(s.application_name) == Some(self@.0),
            opt_view(s.host) == Some(self@.1),
            s.port == Some(self@.2),
            s.connect_timeout_secs == Some(5u64),
            s.keepalives == Some(true),
    {
        PgSettings {
            user: Some(self.user),
            password: self.password,
            dbname: self.db,
            application_name: Some(self.name),
            host: Some(self.host),
            port: Some(self.port),
            connect_timeout_secs: Some(5),
            keepalives: Some(true),
        }
    }

    /// The name.
    pub fn name(&self) -> (s: &String)
        ensures
            s@ == self@.0,
    {
        &self.name
    }

    /// The host.
    pub fn host(&self) -> (s: &String)
        ensures
            s@ == self@.1,
    {
        &self.host
    }

    /// The port.
    pub fn port(&self) -> (p: u16)
        ensures
            p == self@.2,
    {
        self.port
    }

    /// The database, if one was given.
    pub fn db(&self) -> (d: &Option<String>)
        ensures
            opt_view(*d) == self@.3,
    {
        &self.db
    }

    /// The user.
    pub fn user(&self) -> (s: &String)
        ensures
            s@ == self@.4,
    {
        &self.user
    }

    /// The password, if one was given.
    pub fn password(&self) -> (p: &Option<String>)
        ensures
            opt_view(*p) == self@.5,
    {
        &self.password
    }
}

/// Parts of a connection's settings, any of them left out.
pub struct ConnConfigBuilder {
    name: Option<String>,
    host: Option<String>,
    port: Option<u16>,
    db: Option<String>,
    user: Option<String>,
    password: Option<String>,
}

/// The parts given so far: name, host, port, database, user and password.
pub type BuilderView = (
    Option<Seq<char>>,
    Option<Seq<char>>,
    Option<u16>,
    Option<Seq<char>>,
    Option<Seq<char>>,
    Option<Seq<char>>,
);

impl View for ConnConfigBuilder {
    type V = BuilderView;

    closed spec fn view(&self) -> BuilderView {
        (
            opt_view(self.name),
            opt_view(self.host),
            self.port,
            opt_view(self.db),
            opt_view(self.user),
            opt_view(self.password),
        )
    }
}

/// The settings that the parts `b` build: host `localhost`, port 5432 and user
/// `postgres` where left out, and the name `user@host:port` where none was given.
pub open spec fn built(b: BuilderView) -> ConfigView {
    let host = match b.1 {
        Some(h) => h,
        None => "localhost"@,
    };
    let port: u16 = match b.2 {
        Some(p) => p,
        None => 5432,
    };
    let user = match b.4 {
        Some(u) => u,
        None => "postgres"@,
    };
    let name = match b.0 {
        Some(n) => n,
        None => default_name(user, host, port as nat),
    };
    (name, host, port, b.3, user, b.5)
}

impl ConnConfigBuilder {
    /// No part given.
    pub fn new() -> (b: Self)
        ensures
            b@ == (None::<Seq<char>>, None::<Seq<char>>, None::<u16>, None::<Seq<char>>, None::<Seq<char>>, None::<Seq<char>>),
    {
        ConnConfigBuilder { name: None, host: None, port: None, db: None, user: None, password: None }
    }

    /// Gives the name.
    pub fn name(self, name: String) -> (b: Self)
        ensures
            b@ == (Some(name@), self@.1, self@.2, self@.3, self@.4, self@.5),
    {
        ConnConfigBuilder { name: Some(name), ..self }
    }

    /// Gives the host.
    pub fn host(self, host: String) -> (b: Self)
        ensures
            b@ == (self@.0, Some(host@), self@.2, self@.3, self@.4, self@.5),
    {
        ConnConfigBuilder { host: Some(host), ..self }
    }

    /// Gives the port.
    pub fn port(self, port: u16) -> (b: Self)
        ensures
            b@ == (self@.0, self@.1, Some(port), self@.3, self@.4, self@.5),
    {
        ConnConfigBuilder { port: Some(port), ..self }
    }

    /// Gives the database.
    pub fn db(self, db: String) -> (b: Self)
        ensures
            b@ == (self@.0, self@.1, self@.2, Some(db@), self@.4, self@.5),
    {
        ConnConfigBuilder { db: Some(db), ..self }
    }

    /// Gives the user.
    pub fn user(self, user: String) -> (b: Self)
        ensures
            b@ == (self@.0, self@.1, self@.2, self@.3, Some(user@), self@.5),
    {
        ConnConfigBuilder { user: Some(user), ..self }
    }

    /// Gives the password.
    pub fn password(self, password: String) -> (b: Self)
        ensures
            b@ == (self@.0, self@.1, self@.2, self@.3, self@.4, Some(password@)),
    {
        ConnConfigBuilder { password: Some(password), ..self }
    }

    /// The settings, defaults filled in.
    pub fn build(self) -> (c: ConnectionConfig)
        ensures
            c@ == built(self@),
    {
        let host = match self.host {
            Some(h) => h,
            None => String::from_str("localhost"),
        };
        let port: u16 = match self.port {
            Some(p) => p,
            None => 5432,
        };
        let user = match self.user {
            Some(u) => u,
            None => String::from_str("postgres"),
        };
        let name = match self.name {
            Some(n) => n,
            None => format_default_name(user.as_str(), host.as_str(), port as u64),
        };
        proof {
            reveal_strlit("localhost");
            reveal_strlit("postgres");
        }
        ConnectionConfig { name, host, port, user, db: self.db, password: self.password }
    }
}

} // verus!
