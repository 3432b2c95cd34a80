//! Process configuration values consumed by the core: server address, database
//! coordinates, and the RSA key material (each key supplied Base64-encoded in
//! PEM form). Loading these from files or the environment is the serving
//! layer's job; the core only reads the values.

use vstd::prelude::*;
use crate::text::{dec_nat, u16_to_string};

verus! {

pub struct ApplicationSettings {
    pub port: u16,
    pub host: String,
    pub rust_env: String,
}

pub struct DatabaseSettings {
    pub host: String,
    pub port: u16,
    pub username: String,
    pub password: String,
    pub database_name: String,
}

/// The token codec's key material: an RSA private key and public key, each a
/// Base64 encoding of the PEM text.
pub struct JwtSettings {
    pub private_key: String,
    pub public_key: String,
}

pub struct Settings {
    pub application: ApplicationSettings,
    pub database: DatabaseSettings,
    pub test_database: Option<DatabaseSettings>,
    pub jwt: JwtSettings,
}

pub enum Environment {
    Development,
    Production,
}

impl Environment {
    pub fn as_str(&self) -> (r: &'static str)
        ensures
            self is Development ==> r@ == "development"@,
            self is Production ==> r@ == "production"@,
    {
        match self {
            Environment::Development => "development",
            Environment::Production => "production",
        }
    }

    /// The inverse of `as_str`; any other name is not an environment.
    pub fn parse(s: &str) -> (r: Option<Environment>)
        ensures
            s@ == "development"@ ==> (r matches Some(e) && e is Development),
            s@ == "production"@ ==> (r matches Some(e) && e is Production),
            s@ != "development"@ && s@ != "production"@ ==> r is None,
    {
        proof {
            reveal_strlit("development");
            reveal_strlit("production");
            assert("development"@.len() == 11);
            assert("production"@.len() == 10);
        }
        if crate::text::string_eq(s, "development") {
            Some(Environment::Development)
        } else if crate::text::string_eq(s, "production") {
            Some(Environment::Production)
        } else {
            None
        }
    }
}

/// The rendering of a MySQL connection URL from its parts: the password and
/// its separating colon appear exactly when the password is non-empty.
pub open spec fn connection_string_of(d: DatabaseSettings) -> Seq<char> {
    if d.password@.len() == 0 {
        "mysql://"@ + d.username@ + "@"@ + d.host@ + ":"@ + dec_nat(d.port as int) + "/"@
            + d.database_name@
    } else {
        "mysql://"@ + d.username@ + ":"@ + d.password@ + "@"@ + d.host@ + ":"@
            + dec_nat(d.port as int) + "/"@ + d.database_name@
    }
}

impl DatabaseSettings {
    pub fn connection_string(&self) -> (r: String)
        ensures
            r@ == connection_string_of(*self),
    {
        let mut s = "mysql://".to_owned();
        s.append(self.username.as_str());
        if !self.password.as_str().is_empty() {
            s.append(":");
            s.append(self.password.as_str());
        }
        s.append("@");
        s.append(self.host.as_str());
        s.append(":");
        s.append(u16_to_string(self.port).as_str());
        s.append("/");
        s.append(self.database_name.as_str());
        proof {
            assert(s@ =~= connection_string_of(*self));
        }
        s
    }
}

} // verus!
