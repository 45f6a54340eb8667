//! Where the store lives: host, port and credentials, and the connection URI
//! that they make.

use vstd::prelude::*;

use crate::text::decimal_digits;
use crate::text::decimal_text;
use crate::text::parse_unsigned;
use crate::text::parsed_unsigned;

verus! {

/// The highest port number.
pub const MAX_PORT: u64 = 65535;

/// The connection settings of the store.
#[derive(Clone, Debug)]
pub struct Env {
    pub redis_host: String,
    pub redis_port: u16,
    pub redis_username: String,
    pub redis_password: String,
}

/// The connection URI for the given settings. With a password the URI names
/// the credentials, the user name only if there is one; without a password it
/// names none, whatever the user name is.
pub open spec fn redis_uri(
    host: Seq<char>,
    port: nat,
    username: Seq<char>,
    password: Seq<char>,
) -> Seq<char> {
    let address = host + ":"@ + decimal_digits(port);
    if password.len() > 0 {
        if username.len() > 0 {
            "redis://"@ + username + ":"@ + password + "@"@ + address
        } else {
            "redis://:"@ + password + "@"@ + address
        }
    } else {
        "redis://"@ + address
    }
}

/// The value of a setting: what the environment gives, else the fallback.
pub open spec fn setting(given: Option<String>, fallback: Seq<char>) -> Seq<char> {
    match given {
        Some(value) => value@,
        None => fallback,
    }
}

/// The password in use: the primary one unless it is missing or empty, in
/// which case the alternate one, if given, takes its place.
pub open spec fn effective_password(primary: Option<String>, alternate: Option<String>) -> Seq<
    char,
> {
    let first = setting(primary, Seq::empty());
    if first.len() == 0 {
        setting(alternate, first)
    } else {
        first
    }
}

impl Default for Env {
    /// The local store on the standard port, without credentials.
    fn default() -> (env: Env)
        ensures
            env.redis_host@ == "127.0.0.1"@,
            env.redis_port == 6379,
            env.redis_username@ == Seq::<char>::empty(),
            env.redis_password@ == Seq::<char>::empty(),
    {
        Env {
            redis_host: "127.0.0.1".to_owned(),
            redis_port: 6379,
            redis_password: String::new(),
            redis_username: String::new(),
        }
    }
}

impl Env {
    /// The settings that the given environment values describe. Each argument
    /// is the value of one variable, `None` where it is unset: host, port,
    /// user name, password and alternate password. Unset values fall back to
    /// the defaults. A port that is set must be a number up to 65535.
    pub fn from_env(
        host: Option<String>,
        port: Option<String>,
        username: Option<String>,
        password: Option<String>,
        auth_password: Option<String>,
    ) -> (env: Env)
        requires
            port matches Some(text) ==> parsed_unsigned(text@, MAX_PORT as nat).is_some(),
        ensures
            env.redis_host@ == setting(host, "127.0.0.1"@),
            env.redis_port as nat == match port {
                Some(text) => parsed_unsigned(text@, MAX_PORT as nat).unwrap(),
                None => 6379,
            },
            env.redis_username@ == setting(username, Seq::empty()),
            env.redis_password@ == effective_password(password, auth_password),
    {
        let mut env = Env::default();
        if let Some(value) = host {
            env.redis_host = value;
        }
        if let Some(text) = port {
            match parse_unsigned(text.as_str(), MAX_PORT) {
                Some(number) => {
                    env.redis_port = number as u16;
                },
                None => {},
            }
        }
        if let Some(value) = username {
            env.redis_username = value;
        }
        if let Some(value) = password {
            env.redis_password = value;
        }
        if env.redis_password.as_str().is_empty() {
            if let Some(value) = auth_password {
                env.redis_password = value;
            }
        }
        env
    }

    /// The connection URI of these settings.
    pub open spec fn uri(&self) -> Seq<char> {
        redis_uri(
            self.redis_host@,
            self.redis_port as nat,
            self.redis_username@,
            self.redis_password@,
        )
    }

    /// Builds the connection URI of these settings.
    pub fn to_redis_uri(&self) -> (uri: String)
        ensures
            uri@ == self.uri(),
    {
        let mut uri = "redis://".to_owned();
        if !self.redis_password.as_str().is_empty() {
            if !self.redis_username.as_str().is_empty() {
                uri.append(self.redis_username.as_str());
            }
            uri.append(":");
            uri.append(self.redis_password.as_str());
            uri.append("@");
        }
        uri.append(self.redis_host.as_str());
        uri.append(":");
        let port = decimal_text(self.redis_port as u64);
        uri.append(port.as_str());
        proof {
            reveal_strlit("redis://");
            reveal_strlit("redis://:");
            reveal_strlit(":");
            assert(uri@ =~= self.uri());
        }
        uri
    }
}

} // verus!
