//! Application configuration, read from a snapshot of the environment.
//!
//! | Variable | Meaning | Default |
//! |----------|---------|---------|
//! | `DATABASE_URL` | database connection string | required |
//! | `APP_HOST` | server bind host | `0.0.0.0` |
//! | `APP_PORT` | server bind port | `3000` |
//! | `DB_MAX_CONNECTIONS` | maximum pool size | `100` |
//! | `DB_MIN_CONNECTIONS` | minimum pool size | `5` |
//! | `DB_CONNECT_TIMEOUT` | connect timeout, seconds | `8` |
//! | `DB_IDLE_TIMEOUT` | idle timeout, seconds | `600` |
//! | `DB_MAX_LIFETIME` | maximum connection lifetime, seconds | `1800` |

use crate::numeric::{decimal, decimal_string, parse_u64, parse_unsigned};
use vstd::prelude::*;
use vstd::string::*;

verus! {

pub const DEFAULT_PORT: u16 = 3000;

pub const DEFAULT_MAX_CONNECTIONS: u32 = 100;

pub const DEFAULT_MIN_CONNECTIONS: u32 = 5;

pub const DEFAULT_CONNECT_TIMEOUT: u64 = 8;

pub const DEFAULT_IDLE_TIMEOUT: u64 = 600;

pub const DEFAULT_MAX_LIFETIME: u64 = 1800;

/// Application configuration.
#[derive(Debug, Clone)]
pub struct AppConfig {
    /// Server bind host (`APP_HOST`).
    pub host: String,
    /// Server bind port (`APP_PORT`).
    pub port: u16,
    /// Database connection string (`DATABASE_URL`).
    pub database_url: String,
    /// Maximum number of pooled database connections (`DB_MAX_CONNECTIONS`).
    pub db_max_connections: u32,
    /// Minimum number of pooled database connections (`DB_MIN_CONNECTIONS`).
    pub db_min_connections: u32,
    /// Connect timeout in seconds (`DB_CONNECT_TIMEOUT`).
    pub db_connect_timeout: u64,
    /// Idle connection timeout in seconds (`DB_IDLE_TIMEOUT`).
    pub db_idle_timeout: u64,
    /// Maximum connection lifetime in seconds (`DB_MAX_LIFETIME`).
    pub db_max_lifetime: u64,
}

/// The environment variables that configuration reads, `None` where unset.
#[derive(Debug, Clone, Default)]
pub struct EnvVars {
    pub app_host: Option<String>,
    pub app_port: Option<String>,
    pub database_url: Option<String>,
    pub db_max_connections: Option<String>,
    pub db_min_connections: Option<String>,
    pub db_connect_timeout: Option<String>,
    pub db_idle_timeout: Option<String>,
    pub db_max_lifetime: Option<String>,
}

/// Why configuration could not be loaded.
#[derive(Debug, Clone, PartialEq, Eq)]
pub enum ConfigError {
    /// A variable without a default is unset, or set to the empty string.
    MissingRequiredVariable { name: String },
    /// A numeric variable holds text that is not an integer of its width.
    InvalidNumericValue { name: String, value: String },
}

/// The default host the server binds to.
pub open spec fn default_host() -> Seq<char> {
    seq!['0', '.', '0', '.', '0', '.', '0']
}

/// Whether the required connection string is unset.
pub open spec fn url_unset(env: EnvVars) -> bool {
    env.database_url is None
}

/// Whether the required connection string is set to the empty string.
pub open spec fn url_empty(env: EnvVars) -> bool {
    env.database_url matches Some(u) && u@.len() == 0
}

/// Whether a numeric variable is set to text that is no integer of at most `max`.
pub open spec fn invalid_setting(v: Option<String>, max: nat) -> bool {
    v matches Some(s) && parse_unsigned(s@, max) is None
}

/// The value of a numeric variable: `default` when unset, else what it reads as.
pub open spec fn setting_value(v: Option<String>, default: nat, max: nat) -> nat {
    match v {
        None => default,
        Some(s) => parse_unsigned(s@, max)->0,
    }
}

/// The numeric variables, in the order they are checked, with their bounds.
pub open spec fn numeric_settings(env: EnvVars) -> Seq<(Seq<char>, Option<String>, nat)> {
    seq![
        ("APP_PORT"@, env.app_port, u16::MAX as nat),
        ("DB_MAX_CONNECTIONS"@, env.db_max_connections, u32::MAX as nat),
        ("DB_MIN_CONNECTIONS"@, env.db_min_connections, u32::MAX as nat),
        ("DB_CONNECT_TIMEOUT"@, env.db_connect_timeout, u64::MAX as nat),
        ("DB_IDLE_TIMEOUT"@, env.db_idle_timeout, u64::MAX as nat),
        ("DB_MAX_LIFETIME"@, env.db_max_lifetime, u64::MAX as nat),
    ]
}

/// The index of the first numeric variable that is set but invalid, if any.
pub open spec fn first_invalid(env: EnvVars) -> Option<int> {
    let s = numeric_settings(env);
    if exists|i: int| 0 <= i < s.len() && invalid_setting(#[trigger] s[i].1, s[i].2) {
        Some(
            choose|i: int|
                0 <= i < s.len() && invalid_setting(#[trigger] s[i].1, s[i].2) && forall|j: int|
                    0 <= j < i ==> !invalid_setting(#[trigger] s[j].1, s[j].2),
        )
    } else {
        None
    }
}

impl AppConfig {
    /// The connection string is present.
    pub open spec fn wf(&self) -> bool {
        self.database_url@.len() > 0
    }

    /// The configuration that `env` describes, when it is valid.
    pub open spec fn loaded_from(&self, env: EnvVars) -> bool {
        &&& self.host@ == match env.app_host {
            Some(h) => h@,
            None => default_host(),
        }
        &&& self.database_url@ == env.database_url->0@
        &&& self.port as nat == setting_value(env.app_port, DEFAULT_PORT as nat, u16::MAX as nat)
        &&& self.db_max_connections as nat == setting_value(
            env.db_max_connections,
            DEFAULT_MAX_CONNECTIONS as nat,
            u32::MAX as nat,
        )
        &&& self.db_min_connections as nat == setting_value(
            env.db_min_connections,
            DEFAULT_MIN_CONNECTIONS as nat,
            u32::MAX as nat,
        )
        &&& self.db_connect_timeout as nat == setting_value(
            env.db_connect_timeout,
            DEFAULT_CONNECT_TIMEOUT as nat,
            u64::MAX as nat,
        )
        &&& self.db_idle_timeout as nat == setting_value(
            env.db_idle_timeout,
            DEFAULT_IDLE_TIMEOUT as nat,
            u64::MAX as nat,
        )
        &&& self.db_max_lifetime as nat == setting_value(
            env.db_max_lifetime,
            DEFAULT_MAX_LIFETIME as nat,
            u64::MAX as nat,
        )
    }

    /// The text of the bind address: host, a colon, then the port in decimal.
    pub open spec fn bind_address_spec(&self) -> Seq<char> {
        self.host@ + seq![':'] + decimal(self.port as nat)
    }

    /// Loads the configuration from the values of the environment variables.
    ///
    /// An unset connection string is reported before anything else; then the
    /// numeric variables are checked, in the order of [`numeric_settings`];
    /// then an empty connection string is reported as missing.
    pub fn from_env(env: &EnvVars) -> (r: Result<AppConfig, ConfigError>)
        ensures
            (url_unset(*env) || (first_invalid(*env) is None && url_empty(*env))) <==> r matches Err(
                ConfigError::MissingRequiredVariable { .. },
            ),
            r matches Err(ConfigError::MissingRequiredVariable { name }) ==> name@
                == "DATABASE_URL"@,
            (!url_unset(*env) && first_invalid(*env) is Some) <==> r matches Err(
                ConfigError::InvalidNumericValue { .. },
            ),
            r matches Err(ConfigError::InvalidNumericValue { name, value }) ==> {
                let k = first_invalid(*env)->0;
                let s = numeric_settings(*env);
                name@ == s[k].0 && value@ == s[k].1->0@
            },
            r matches Ok(c) ==> c.wf() && c.loaded_from(*env),
    {
        let url = match &env.database_url {
            Some(u) => u,
            None => {
                return Err(
                    ConfigError::MissingRequiredVariable { name: String::from_str("DATABASE_URL") },
                );
            },
        };
        let ghost s = numeric_settings(*env);
        let port = match read_setting("APP_PORT", &env.app_port, DEFAULT_PORT as u64, 65535) {
            Ok(v) => v as u16,
            Err(e) => {
                proof {
                    lemma_first_invalid_is(*env, 0);
                }
                return Err(e);
            },
        };
        let db_max_connections = match read_setting(
            "DB_MAX_CONNECTIONS",
            &env.db_max_connections,
            DEFAULT_MAX_CONNECTIONS as u64,
            4294967295,
        ) {
            Ok(v) => v as u32,
            Err(e) => {
                proof {
                    lemma_first_invalid_is(*env, 1);
                }
                return Err(e);
            },
        };
        let db_min_connections = match read_setting(
            "DB_MIN_CONNECTIONS",
            &env.db_min_connections,
            DEFAULT_MIN_CONNECTIONS as u64,
            4294967295,
        ) {
            Ok(v) => v as u32,
            Err(e) => {
                proof {
                    lemma_first_invalid_is(*env, 2);
                }
                return Err(e);
            },
        };
        let db_connect_timeout = match read_setting(
            "DB_CONNECT_TIMEOUT",
            &env.db_connect_timeout,
            DEFAULT_CONNECT_TIMEOUT,
            u64::MAX,
        ) {
            Ok(v) => v,
            Err(e) => {
                proof {
                    lemma_first_invalid_is(*env, 3);
                }
                return Err(e);
            },
        };
        let db_idle_timeout = match read_setting(
            "DB_IDLE_TIMEOUT",
            &env.db_idle_timeout,
            DEFAULT_IDLE_TIMEOUT,
            u64::MAX,
        ) {
            Ok(v) => v,
            Err(e) => {
                proof {
                    lemma_first_invalid_is(*env, 4);
                }
                return Err(e);
            },
        };
        let db_max_lifetime = match read_setting(
            "DB_MAX_LIFETIME",
            &env.db_max_lifetime,
            DEFAULT_MAX_LIFETIME,
            u64::MAX,
        ) {
            Ok(v) => v,
            Err(e) => {
                proof {
                    lemma_first_invalid_is(*env, 5);
                }
                return Err(e);
            },
        };
        proof {
            lemma_none_invalid(*env);
        }
        if url.as_str().is_empty() {
            return Err(
                ConfigError::MissingRequiredVariable { name: String::from_str("DATABASE_URL") },
            );
        }
        let database_url = url.clone();
        let host = match &env.app_host {
            Some(h) => h.clone(),
            None => {
                proof {
                    reveal_strlit("0.0.0.0");
                    assert("0.0.0.0"@ =~= default_host());
                }
                String::from_str("0.0.0.0")
            },
        };
        Ok(
            AppConfig {
                host,
                port,
                database_url,
                db_max_connections,
                db_min_connections,
                db_connect_timeout,
                db_idle_timeout,
                db_max_lifetime,
            },
        )
    }

    /// The address the server binds to, `host:port`.
    pub fn bind_address(&self) -> (r: String)
        ensures
            r@ == self.bind_address_spec(),
    {
        let mut r = self.host.clone();
        proof {
            reveal_strlit(":");
        }
        r.append(":");
        let port = decimal_string(self.port as u64);
        r.append(port.as_str());
        r
    }
}

/// When the first `k` numeric variables are valid and the `k`-th is not,
/// it is the first invalid one.
proof fn lemma_first_invalid_is(env: EnvVars, k: int)
    requires
        0 <= k < 6,
        invalid_setting(numeric_settings(env)[k].1, numeric_settings(env)[k].2),
        forall|j: int|
            0 <= j < k ==> !invalid_setting(
                #[trigger] numeric_settings(env)[j].1,
                numeric_settings(env)[j].2,
            ),
    ensures
        first_invalid(env) == Some(k),
{
    let s = numeric_settings(env);
    assert(invalid_setting(s[k].1, s[k].2));
    let i = first_invalid(env)->0;
    assert(0 <= i < s.len() && invalid_setting(s[i].1, s[i].2));
    if i < k {
        assert(!invalid_setting(s[i].1, s[i].2));
    }
    if k < i {
        assert(!invalid_setting(s[k].1, s[k].2));
    }
}

proof fn lemma_none_invalid(env: EnvVars)
    requires
        forall|j: int|
            0 <= j < 6 ==> !invalid_setting(
                #[trigger] numeric_settings(env)[j].1,
                numeric_settings(env)[j].2,
            ),
    ensures
        first_invalid(env) is None,
{
}

/// Reads one numeric variable: its default when unset, else its value, or the
/// error that names it and its text.
fn read_setting(name: &str, value: &Option<String>, default: u64, max: u64) -> (r: Result<
    u64,
    ConfigError,
>)
    requires
        default <= max,
    ensures
        r is Ok <==> !invalid_setting(*value, max as nat),
        r matches Ok(v) ==> v <= max && v as nat == setting_value(
            *value,
            default as nat,
            max as nat,
        ),
        r matches Err(e) ==> e matches ConfigError::InvalidNumericValue { name: n, value: t }
            && n@ == name@ && t@ == value->0@,
{
    match value {
        None => Ok(default),
        Some(text) => match parse_u64(text.as_str(), max) {
            Some(v) => Ok(v),
            None => Err(
                ConfigError::InvalidNumericValue {
                    name: String::from_str(name),
                    value: text.clone(),
                },
            ),
        },
    }
}

} // verus!
