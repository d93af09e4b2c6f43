//! The settings of one connection as the configuration file gives them.
use vstd::prelude::*;
use crate::chars::{chars_to_string, str_chars};
use crate::db::config::{decimal, decimal_chars, opt_view, PgSettings};

verus! {

/// A connection's settings, as read from the configuration file.
pub struct ConnectionConfig {
    pub name: Option<String>,
    pub host: String,
    pub port: u16,
    pub dbname: Option<String>,
    pub user: String,
    pub password: Option<String>,
}

/// The text shown for a connection without a name: `postgres://user:@host:port`.
pub open spec fn url_name(user: Seq<char>, host: Seq<char>, port: nat) -> Seq<char> {
    "postgres://"@ + user + ":@"@ + host + seq![':'] + decimal(port)
}

/// Puts the chars of `s` after those of `v`.
fn push_all(v: &mut Vec<char>, s: &[char])
    ensures
        final(v)@ == old(v)@ + s@,
{
    let mut i: usize = 0;
    while i < s.len()
        invariant
            i <= s@.len(),
            v@ == old(v)@ + s@.take(i as int),
        decreases s@.len() - i,
    {
        v.push(s[i]);
        i = i + 1;
        assert(old(v)@ + s@.take(i as int) =~= old(v)@ + s@.take(i - 1) + seq![s@[i - 1]]);
    }
    assert(s@.take(s@.len() as int) =~= s@);
}

impl ConnectionConfig {
    /// The text shown for the connection: its name, or `postgres://user:@host:port`.
    pub fn display_name(&self) -> (s: String)
        ensures
            s@ == match self.name {
                Some(n) => n@,
                None => url_name(self.user@, self.host@, self.port as nat),
            },
    {
        match &self.name {
            Some(n) => n.clone(),
            None => {
                let mut v = str_chars("postgres://");
                push_all(&mut v, str_chars(self.user.as_str()).as_slice());
                push_all(&mut v, str_chars(":@").as_slice());
                push_all(&mut v, str_chars(self.host.as_str()).as_slice());
                v.push(':');
                push_all(&mut v, decimal_chars(self.port as u64).as_slice());
                proof {
                    assert(v@ =~= url_name(self.user@, self.host@, self.port as nat));
                }
                chars_to_string(v.as_slice())
            },
        }
    }

    /// The settings for the connection pool: the parts given, a five second timeout and
    /// keepalives on.
    pub fn to_pg_settings(self) -> (s: PgSettings)
        ensures
            opt_view(s.user) == Some(self.user@),
            opt_view(s.password) == opt_view(self.password),
            opt_view(s.dbname) == opt_view(self.dbname),
            opt_view(s.application_name) == opt_view(self.name),
            opt_view(s.host) == Some(self.host@),
            s.port == Some(self.port),
            s.connect_timeout_secs == Some(5u64),
            s.keepalives == Some(true),
    {
        PgSettings {
            user: Some(self.user),
            password: self.password,
            dbname: self.dbname,
            application_name: self.name,
            host: Some(self.host),
            port: Some(self.port),
            connect_timeout_secs: Some(5),
            keepalives: Some(true),
        }
    }
}

} // verus!
