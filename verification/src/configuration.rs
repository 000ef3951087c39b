//! The settings of the application, and what is decided from them.
use crate::domain::subscriber_email::SubscriberEmail;
use vstd::prelude::*;
use vstd::string::StrSliceExecFns;
use vstd::string::StringExecFns;
use vstd::utf8::encode_utf8;

verus! {

/// All settings. They hold secrets, so the type cannot be printed.
pub struct Settings {
    pub database: DatabaseSettings,
    pub app: AppSettings,
    pub email_client: EmailClientSettings,
    pub redis_uri: String,
}

/// Where the application listens and how it signs what it hands out.
#[derive(Debug)]
pub struct AppSettings {
    pub host: String,
    pub port: u16,
    pub base_url: String,
    pub hmac_secret: Vec<u8>,
}

/// How the email sender is reached. The token is kept out of every log: the
/// type cannot be printed.
pub struct EmailClientSettings {
    pub base_url: String,
    pub sender_email: SubscriberEmail,
    pub authorization_token: String,
    pub timeout_millis: u64,
}

/// How the database is reached. The password is kept out of every log: the
/// type cannot be printed.
pub struct DatabaseSettings {
    pub username: String,
    pub password: String,
    pub port: u16,
    pub host: String,
    pub database_name: String,
    pub require_ssl: bool,
}

/// Whether a connection must be encrypted or only should be.
#[derive(Debug, Clone, Copy, PartialEq, Eq, Structural)]
pub enum SslMode {
    Require,
    Prefer,
}

/// What a connection to the database is opened with. The password is kept
/// out of every log: the type cannot be printed.
pub struct ConnectOptions {
    pub username: String,
    pub password: String,
    pub host: String,
    pub port: u16,
    pub ssl_mode: SslMode,
    pub database: Option<String>,
}

/// Connection options as a mathematical value.
pub struct ConnectOptionsView {
    pub username: Seq<char>,
    pub password: Seq<char>,
    pub host: Seq<char>,
    pub port: u16,
    pub ssl_mode: SslMode,
    pub database: Option<Seq<char>>,
}

impl View for ConnectOptions {
    type V = ConnectOptionsView;

    open spec fn view(&self) -> ConnectOptionsView {
        ConnectOptionsView {
            username: self.username@,
            password: self.password@,
            host: self.host@,
            port: self.port,
            ssl_mode: self.ssl_mode,
            database: match self.database {
                Some(name) => Some(name@),
                None => None,
            },
        }
    }
}

impl DatabaseSettings {
    /// The options for a connection to the server, to no database in
    /// particular.
    pub open spec fn spec_without_db(self) -> ConnectOptionsView {
        ConnectOptionsView {
            username: self.username@,
            password: self.password@,
            host: self.host@,
            port: self.port,
            ssl_mode: if self.require_ssl {
                SslMode::Require
            } else {
                SslMode::Prefer
            },
            database: None,
        }
    }

    /// The options for a connection to the server, to no database in
    /// particular: encryption is required where the settings say so, and
    /// preferred where they do not.
    pub fn without_db(&self) -> (options: ConnectOptions)
        ensures
            options@ == self.spec_without_db(),
    {
        let ssl_mode = if self.require_ssl {
            SslMode::Require
        } else {
            SslMode::Prefer
        };
        ConnectOptions {
            username: self.username.clone(),
            password: self.password.clone(),
            host: self.host.clone(),
            port: self.port,
            ssl_mode,
            database: None,
        }
    }

    /// The options for a connection to the database of the settings.
    pub fn with_db(&self) -> (options: ConnectOptions)
        ensures
            options@ == (ConnectOptionsView {
                database: Some(self.database_name@),
                ..self.spec_without_db()
            }),
    {
        let options = self.without_db();
        ConnectOptions { database: Some(self.database_name.clone()), ..options }
    }
}

/// Where the application runs.
#[derive(Debug, Clone, Copy, PartialEq, Eq, Structural)]
pub enum Environment {
    Local,
    Production,
}

/// The name of [`Environment::Local`].
pub const LOCAL: &'static str = "local";

/// The name of [`Environment::Production`].
pub const PRODUCTION: &'static str = "production";

/// `s` in lower case, as [`str::to_lowercase`] puts it.
pub uninterp spec fn lowercased(s: Seq<char>) -> Seq<char>;

/// Calls [`str::to_lowercase`].
#[verifier::external_body]
fn to_lowercase(s: &str) -> (lower: String)
    ensures
        lower@ == lowercased(s@),
{
    s.to_lowercase()
}

/// What is answered to a name that names no environment.
pub open spec fn unsupported_environment(name: Seq<char>) -> Seq<char> {
    "Unsupported environment type: "@ + name + ". Use `local` or `production`"@
}

/// The environment that `value` names, whatever its case, or the refusal of
/// a name that names none.
pub open spec fn environment_named(value: Seq<char>) -> Result<Environment, Seq<char>> {
    environment_of_name(lowercased(value))
}

/// The environment whose name is exactly `name`, or the refusal of a name
/// that is none.
pub open spec fn environment_of_name(name: Seq<char>) -> Result<Environment, Seq<char>> {
    if name == LOCAL@ {
        Ok(Environment::Local)
    } else if name == PRODUCTION@ {
        Ok(Environment::Production)
    } else {
        Err(unsupported_environment(name))
    }
}

impl Environment {
    /// The name of this environment.
    pub open spec fn name(self) -> Seq<char> {
        match self {
            Environment::Local => LOCAL@,
            Environment::Production => PRODUCTION@,
        }
    }

    /// The name of this environment: `local` or `production`.
    pub fn as_str(&self) -> (name: &'static str)
        ensures
            name@ == self.name(),
    {
        match self {
            Environment::Local => LOCAL,
            Environment::Production => PRODUCTION,
        }
    }

    /// The environment that `value` names, whatever its case.
    pub fn try_from(value: String) -> (res: Result<Environment, String>)
        ensures
            match environment_named(value@) {
                Ok(environment) => res == Ok::<Environment, String>(environment),
                Err(refusal) => res matches Err(message) && message@ == refusal,
            },
    {
        Environment::from_name(to_lowercase(value.as_str()))
    }

    /// The environment whose name is exactly `name`: `local` or
    /// `production`, in lower case.
    pub fn from_name(name: String) -> (res: Result<Environment, String>)
        ensures
            match environment_of_name(name@) {
                Ok(environment) => res == Ok::<Environment, String>(environment),
                Err(refusal) => res matches Err(message) && message@ == refusal,
            },
    {
        if name == String::from_str(LOCAL) {
            Ok(Environment::Local)
        } else if name == String::from_str(PRODUCTION) {
            Ok(Environment::Production)
        } else {
            Err(
                String::from_str("Unsupported environment type: ").concat(name.as_str()).concat(
                    ". Use `local` or `production`",
                ),
            )
        }
    }

    /// The directory in which the settings of this environment are looked
    /// for when none is named.
    pub open spec fn default_config_dir(self) -> Seq<char> {
        match self {
            Environment::Local => "configuration"@,
            Environment::Production => "/etc/zero2prod"@,
        }
    }
}

/// The environment that the variable names; `local` where it is not set.
pub fn environment_or_local(variable: Option<String>) -> (res: Result<Environment, String>)
    ensures
        match environment_named(
            match variable {
                Some(value) => value@,
                None => LOCAL@,
            },
        ) {
            Ok(environment) => res == Ok::<Environment, String>(environment),
            Err(refusal) => res matches Err(message) && message@ == refusal,
        },
{
    match variable {
        Some(value) => Environment::try_from(value),
        None => Environment::try_from(String::from_str(LOCAL)),
    }
}

/// The directory in which the settings are looked for: the one that the
/// variable names, or, where it is not set, the default of the environment.
pub fn config_dir(variable: Option<String>, environment: &Environment) -> (dir: String)
    ensures
        dir@ == match variable {
            Some(value) => value@,
            None => environment.default_config_dir(),
        },
{
    match variable {
        Some(value) => value,
        None => match environment {
            Environment::Local => String::from_str("configuration"),
            Environment::Production => String::from_str("/etc/zero2prod"),
        },
    }
}

/// The least number of bytes of the secret that signs cookies.
pub const MIN_SECRET_BYTES: usize = 32;

/// What is answered to a secret that is too short.
pub const SECRET_TOO_SHORT: &'static str = "Secret string must be at least 32 bytes long";

/// The bytes of `secret`, if there are at least 32 of them.
pub fn key_secret(secret: String) -> (res: Result<Vec<u8>, String>)
    ensures
        encode_utf8(secret@).len() >= MIN_SECRET_BYTES ==> (res matches Ok(bytes) && bytes@
            == encode_utf8(secret@)),
        encode_utf8(secret@).len() < MIN_SECRET_BYTES ==> (res matches Err(message) && message@
            == SECRET_TOO_SHORT@),
{
    let bytes = secret.as_str().as_bytes_vec();
    if bytes.len() < MIN_SECRET_BYTES {
        return Err(String::from_str(SECRET_TOO_SHORT));
    }
    Ok(bytes)
}

} // verus!
