//! The server's configuration: where it comes from and how its sources are
//! put together. Flags given on the command line win over the file; the
//! file named by the environment wins over the file named by a flag.

use vstd::prelude::*;
use vstd::string::*;

verus! {

/// What kind of deployment the server runs in.
#[derive(Clone, Copy, Debug, PartialEq, Eq, Structural)]
pub enum Environment {
    Production,
    Development,
}

/// How much is logged.
#[derive(Clone, Copy, Debug, PartialEq, Eq, Structural)]
pub enum LogLevel {
    Trace,
    Debug,
    Info,
    Warn,
    Error,
}

/// Why no configuration could be had.
#[derive(Clone, Copy, Debug, PartialEq, Eq, Structural)]
pub enum ConfigError {
    /// The configuration file could not be opened.
    Unreadable,
    /// The configuration file does not hold a configuration.
    Invalid,
}

/// The settings that the server runs with.
#[derive(Debug)]
pub struct AppConfig {
    pub environment: Environment,
    /// Path of the TLS private key.
    pub key: String,
    /// Path of the TLS certificate chain.
    pub cert: String,
    /// Socket address to listen on.
    pub listen: String,
    /// Maximum number of concurrent connections to allow.
    pub connection_limit: usize,
    pub log_level: String,
    /// Path of a file to log to, if any.
    pub log_file: Option<String>,
}

/// The settings given on the command line: each one that is there replaces
/// the one from the file.
#[derive(Debug)]
pub struct AppConfigOverrides {
    pub environment: Option<Environment>,
    pub key: Option<String>,
    pub cert: Option<String>,
    pub listen: Option<String>,
    pub connection_limit: Option<usize>,
    pub log_level: Option<String>,
    pub log_file: Option<String>,
}

/// The arguments of the server's command line.
#[derive(Debug)]
pub struct AppConfigArgs {
    /// Positional input (unused).
    pub input: Option<Vec<String>>,
    /// Path pointing to the configuration file.
    pub config_path: String,
    pub config: AppConfigOverrides,
}

/// The path of the configuration file: the one from the environment if
/// there is one, else the one from the command line.
pub open spec fn resolved_path(from_env: Option<String>, from_flag: String) -> String {
    match from_env {
        Some(path) => path,
        None => from_flag,
    }
}

/// The file's settings with those of the command line laid over them.
pub open spec fn merged(base: AppConfig, over: AppConfigOverrides) -> AppConfig {
    AppConfig {
        environment: match over.environment {
            Some(e) => e,
            None => base.environment,
        },
        key: match over.key {
            Some(k) => k,
            None => base.key,
        },
        cert: match over.cert {
            Some(c) => c,
            None => base.cert,
        },
        listen: match over.listen {
            Some(l) => l,
            None => base.listen,
        },
        connection_limit: match over.connection_limit {
            Some(n) => n,
            None => base.connection_limit,
        },
        log_level: match over.log_level {
            Some(l) => l,
            None => base.log_level,
        },
        log_file: match over.log_file {
            Some(f) => Some(f),
            None => base.log_file,
        },
    }
}

/// The level that a setting names; `Info` for a name that is none.
pub open spec fn level_named(name: Seq<char>) -> LogLevel {
    if name == "trace"@ {
        LogLevel::Trace
    } else if name == "debug"@ {
        LogLevel::Debug
    } else if name == "info"@ {
        LogLevel::Info
    } else if name == "warn"@ {
        LogLevel::Warn
    } else if name == "error"@ {
        LogLevel::Error
    } else {
        LogLevel::Info
    }
}

/// The environment that a setting names, if it names one.
pub open spec fn environment_named(name: Seq<char>) -> Option<Environment> {
    if name == "production"@ {
        Some(Environment::Production)
    } else if name == "development"@ {
        Some(Environment::Development)
    } else {
        None
    }
}

/// Whether a path names a DER file: it ends in `.der`, and what stands
/// before that in its last component is not empty. The text is taken as it
/// stands: a path that ends in a separator names no file, and `.DER` is not
/// `.der`.
pub open spec fn names_der(path: Seq<char>) -> bool {
    let n = path.len() as int;
    &&& n >= 5
    &&& path[n - 4] == '.'
    &&& path[n - 3] == 'd'
    &&& path[n - 2] == 'e'
    &&& path[n - 1] == 'r'
    &&& path[n - 5] != '/'
}

/// Whether two texts are the same.
fn same_text(a: &str, b: &str) -> (same: bool)
    ensures
        same == (a@ == b@),
{
    let n = a.unicode_len();
    if n != b.unicode_len() {
        return false;
    }
    let mut i: usize = 0;
    while i < n
        invariant
            i <= n,
            n == a@.len(),
            n == b@.len(),
            forall|j: int| 0 <= j < i ==> a@[j] == b@[j],
        decreases n - i,
    {
        if a.get_char(i) != b.get_char(i) {
            return false;
        }
        i += 1;
    }
    assert(a@ =~= b@);
    true
}

impl Default for Environment {
    fn default() -> (e: Environment)
        ensures
            e == Environment::Development,
    {
        Environment::Development
    }
}

impl Environment {
    /// Reads an environment from its lower-case name.
    pub fn from_name(name: &str) -> (e: Option<Environment>)
        ensures
            e == environment_named(name@),
    {
        if same_text(name, "production") {
            Some(Environment::Production)
        } else if same_text(name, "development") {
            Some(Environment::Development)
        } else {
            None
        }
    }
}

impl AppConfigArgs {
    /// Lets the configuration path from the environment, if there is one,
    /// replace the one from the command line.
    pub fn use_env_path(&mut self, from_env: Option<String>)
        ensures
            final(self).config_path == resolved_path(from_env, old(self).config_path),
            final(self).input == old(self).input,
            final(self).config == old(self).config,
    {
        match from_env {
            Some(path) => {
                self.config_path = path;
            },
            None => {},
        }
    }
}

impl AppConfig {
    /// Puts the configuration together from the command line and from what
    /// loading the file at `args.config_path` gave: an error from loading is
    /// passed on, and on the loaded settings those of the command line are
    /// laid.
    pub fn from_args(args: AppConfigArgs, loaded: Result<AppConfig, ConfigError>) -> (r: Result<
        AppConfig,
        ConfigError,
    >)
        ensures
            match loaded {
                Ok(file) => r == Ok::<AppConfig, ConfigError>(merged(file, args.config)),
                Err(e) => r == Err::<AppConfig, ConfigError>(e),
            },
    {
        match loaded {
            Ok(file) => Ok(file.merge(args.config)),
            Err(e) => Err(e),
        }
    }

    /// Lays the settings of the command line over these.
    pub fn merge(self, over: AppConfigOverrides) -> (r: AppConfig)
        ensures
            r == merged(self, over),
    {
        AppConfig {
            environment: match over.environment {
                Some(e) => e,
                None => self.environment,
            },
            key: match over.key {
                Some(k) => k,
                None => self.key,
            },
            cert: match over.cert {
                Some(c) => c,
                None => self.cert,
            },
            listen: match over.listen {
                Some(l) => l,
                None => self.listen,
            },
            connection_limit: match over.connection_limit {
                Some(n) => n,
                None => self.connection_limit,
            },
            log_level: match over.log_level {
                Some(l) => l,
                None => self.log_level,
            },
            log_file: match over.log_file {
                Some(f) => Some(f),
                None => self.log_file,
            },
        }
    }

    /// The level that `log_level` names; `Info` if it names none.
    pub fn get_log_level(&self) -> (level: LogLevel)
        ensures
            level == level_named(self.log_level@),
    {
        let name = self.log_level.as_str();
        if same_text(name, "trace") {
            LogLevel::Trace
        } else if same_text(name, "debug") {
            LogLevel::Debug
        } else if same_text(name, "info") {
            LogLevel::Info
        } else if same_text(name, "warn") {
            LogLevel::Warn
        } else if same_text(name, "error") {
            LogLevel::Error
        } else {
            LogLevel::Info
        }
    }
}

/// The file that the log is written to: the configured one, or the null
/// device where none is configured.
pub open spec fn sink_path(log_file: Option<String>) -> Seq<char> {
    match log_file {
        Some(path) => path@,
        None => "/dev/null"@,
    }
}

/// The file that the log is written to.
pub fn log_sink_path(log_file: &Option<String>) -> (path: String)
    ensures
        path@ == sink_path(*log_file),
{
    match log_file {
        Some(path) => path.clone(),
        None => "/dev/null".to_owned(),
    }
}

/// Whether what goes to the log file is coloured: only where no log file is
/// configured.
pub fn log_sink_ansi(log_file: &Option<String>) -> (ansi: bool)
    ensures
        ansi == (*log_file is None),
{
    log_file.is_none()
}

/// Whether a key or certificate path names a DER file; any other is read
/// as PEM. The path is not tidied first: `k.der` is DER, `k.der/` is not.
pub fn is_der_path(path: &str) -> (der: bool)
    ensures
        der == names_der(path@),
{
    let n = path.unicode_len();
    if n < 5 {
        return false;
    }
    path.get_char(n - 4) == '.' && path.get_char(n - 3) == 'd' && path.get_char(n - 2) == 'e'
        && path.get_char(n - 1) == 'r' && path.get_char(n - 5) != '/'
}

} // verus!
