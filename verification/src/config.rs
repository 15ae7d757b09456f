//! Settings of the service, as plain values.
use vstd::prelude::*;

verus! {

/// Where the HTTP server listens.
#[derive(Clone, Debug)]
pub struct HttpConfig {
    pub host: [u8; 4],
    pub port: u16,
}

/// How to reach the database.
#[derive(Clone)]
pub struct DatabaseConfig {
    pub host: String,
    pub port: u16,
    pub user: String,
    pub password: String,
    pub database: String,
    pub require_ssl: bool,
}

/// Settings of the password hasher (Argon2id).
#[derive(Clone)]
pub struct HasherConfig {
    /// Pepper mixed into every hash.
    pub secret: String,
    /// Memory cost in KiB.
    pub memory_size: u32,
    /// Number of passes.
    pub iterations: u32,
    /// Number of lanes.
    pub parallelism_factor: u32,
    /// Length of the hash in bytes; 32 when absent.
    pub output_length: Option<usize>,
}

/// The database connection mode that a configuration asks for.
#[derive(Clone, Copy, Debug, PartialEq, Eq)]
pub enum SslMode {
    Require,
    Prefer,
}

impl DatabaseConfig {
    /// SSL is required when the configuration says so, and preferred otherwise.
    pub fn ssl_mode(&self) -> (result: SslMode)
        ensures
            result == (if self.require_ssl {
                SslMode::Require
            } else {
                SslMode::Prefer
            }),
    {
        if self.require_ssl {
            SslMode::Require
        } else {
            SslMode::Prefer
        }
    }
}

/// The deployment the service runs in.
#[derive(Clone, Copy, Debug, PartialEq, Eq)]
pub enum Environment {
    Development,
    Production,
}

/// The lower-case name of an environment.
pub open spec fn environment_name(env: Environment) -> Seq<char> {
    match env {
        Environment::Development => "development"@,
        Environment::Production => "production"@,
    }
}

impl Environment {
    /// The lower-case names that `parse` accepts.
    pub fn variants() -> (result: Vec<String>)
        ensures
            result@.len() == 2,
            result@[0]@ == environment_name(Environment::Development),
            result@[1]@ == environment_name(Environment::Production),
    {
        let mut v = Vec::new();
        v.push(String::from_str("development"));
        v.push(String::from_str("production"));
        v
    }

    /// The lower-case name of the environment.
    pub fn name(&self) -> (result: String)
        ensures
            result@ == environment_name(*self),
    {
        match self {
            Environment::Development => String::from_str("development"),
            Environment::Production => String::from_str("production"),
        }
    }

    /// The environment with the lower-case name `s`.
    pub fn parse(s: &str) -> (result: Option<Environment>)
        ensures
            match result {
                Some(env) => environment_name(env) == s@,
                None => forall|env: Environment| environment_name(env) != s@,
            },
    {
        let given = String::from_str(s);
        if given == String::from_str("development") {
            Some(Environment::Development)
        } else if given == String::from_str("production") {
            Some(Environment::Production)
        } else {
            proof {
                assert forall|env: Environment| environment_name(env) != s@ by {
                    match env {
                        Environment::Development => {},
                        Environment::Production => {},
                    }
                }
            }
            None
        }
    }

    /// The file, under the `config` directory, that holds the settings of
    /// the environment: its name followed by `.yaml`.
    pub fn config_file_name(&self) -> (result: String)
        ensures
            result@ == environment_name(*self) + ".yaml"@,
    {
        let name = self.name();
        name.concat(".yaml")
    }
}

/// Reading back the name of an environment gives the same environment.
pub proof fn law_environment_name_round_trip(env: Environment, other: Environment)
    ensures
        environment_name(env) == environment_name(other) ==> env == other,
{
    reveal_strlit("development");
    reveal_strlit("production");
    if env != other {
        assert(environment_name(env)[0] != environment_name(other)[0]);
    }
}

} // verus!
