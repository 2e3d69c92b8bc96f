use sword::config::{AppConfig, ConfigError, EnvVars};

fn default_config() -> AppConfig {
    AppConfig {
        host: "127.0.0.1".to_string(),
        port: 8080,
        database_url: "postgres://localhost/test".to_string(),
        db_max_connections: 100,
        db_min_connections: 5,
        db_connect_timeout: 8,
        db_idle_timeout: 600,
        db_max_lifetime: 1800,
    }
}

fn env_with_url() -> EnvVars {
    EnvVars {
        database_url: Some("postgres://localhost/app".to_string()),
        ..EnvVars::default()
    }
}

#[test]
fn test_bind_address() {
    let config = default_config();
    assert_eq!(config.bind_address(), "127.0.0.1:8080");
}

#[test]
fn test_bind_address_default_format() {
    let mut config = default_config();
    config.host = "0.0.0.0".to_string();
    config.port = 3000;
    assert_eq!(config.bind_address(), "0.0.0.0:3000");
}

#[test]
fn test_config_clone() {
    let config = default_config();
    let cloned = config.clone();
    assert_eq!(config.host, cloned.host);
    assert_eq!(config.port, cloned.port);
    assert_eq!(config.database_url, cloned.database_url);
    assert_eq!(config.db_max_connections, cloned.db_max_connections);
}

#[test]
fn bind_address_edge_ports() {
    let mut config = default_config();
    config.host = "localhost".to_string();
    config.port = 0;
    assert_eq!(config.bind_address(), "localhost:0");
    config.port = 65535;
    assert_eq!(config.bind_address(), "localhost:65535");
    config.host = String::new();
    config.port = 10;
    assert_eq!(config.bind_address(), ":10");
}

#[test]
fn defaults_apply_when_unset() {
    let config = AppConfig::from_env(&env_with_url()).unwrap();
    assert_eq!(config.host, "0.0.0.0");
    assert_eq!(config.port, 3000);
    assert_eq!(config.database_url, "postgres://localhost/app");
    assert_eq!(config.db_max_connections, 100);
    assert_eq!(config.db_min_connections, 5);
    assert_eq!(config.db_connect_timeout, 8);
    assert_eq!(config.db_idle_timeout, 600);
    assert_eq!(config.db_max_lifetime, 1800);
    assert_eq!(config.bind_address(), "0.0.0.0:3000");
}

#[test]
fn set_values_are_parsed() {
    let env = EnvVars {
        app_host: Some("127.0.0.1".to_string()),
        app_port: Some("8080".to_string()),
        db_max_connections: Some("20".to_string()),
        db_min_connections: Some("+2".to_string()),
        db_connect_timeout: Some("30".to_string()),
        db_idle_timeout: Some("0".to_string()),
        db_max_lifetime: Some("18446744073709551615".to_string()),
        ..env_with_url()
    };
    let config = AppConfig::from_env(&env).unwrap();
    assert_eq!(config.host, "127.0.0.1");
    assert_eq!(config.port, 8080);
    assert_eq!(config.db_max_connections, 20);
    assert_eq!(config.db_min_connections, 2);
    assert_eq!(config.db_connect_timeout, 30);
    assert_eq!(config.db_idle_timeout, 0);
    assert_eq!(config.db_max_lifetime, u64::MAX);
}

#[test]
fn missing_database_url_is_reported_first() {
    let env = EnvVars {
        app_port: Some("abc".to_string()),
        ..EnvVars::default()
    };
    assert_eq!(
        AppConfig::from_env(&env).unwrap_err(),
        ConfigError::MissingRequiredVariable {
            name: "DATABASE_URL".to_string()
        }
    );
    assert_eq!(
        AppConfig::from_env(&EnvVars::default()).unwrap_err(),
        ConfigError::MissingRequiredVariable {
            name: "DATABASE_URL".to_string()
        }
    );
}

#[test]
fn empty_database_url_is_missing() {
    let env = EnvVars {
        database_url: Some(String::new()),
        ..EnvVars::default()
    };
    assert!(matches!(
        AppConfig::from_env(&env),
        Err(ConfigError::MissingRequiredVariable { .. })
    ));
}

#[test]
fn empty_database_url_comes_after_numeric_errors() {
    let env = EnvVars {
        database_url: Some(String::new()),
        app_port: Some("abc".to_string()),
        ..EnvVars::default()
    };
    assert_eq!(
        AppConfig::from_env(&env).unwrap_err(),
        ConfigError::InvalidNumericValue {
            name: "APP_PORT".to_string(),
            value: "abc".to_string()
        }
    );
    let env = EnvVars {
        database_url: Some(String::new()),
        app_port: Some("70000".to_string()),
        ..EnvVars::default()
    };
    assert!(matches!(
        AppConfig::from_env(&env),
        Err(ConfigError::InvalidNumericValue { .. })
    ));
}

#[test]
fn non_numeric_port_is_invalid() {
    let env = EnvVars {
        app_port: Some("abc".to_string()),
        ..env_with_url()
    };
    assert_eq!(
        AppConfig::from_env(&env).unwrap_err(),
        ConfigError::InvalidNumericValue {
            name: "APP_PORT".to_string(),
            value: "abc".to_string()
        }
    );
}

#[test]
fn out_of_range_values_are_invalid() {
    let env = EnvVars {
        app_port: Some("65536".to_string()),
        ..env_with_url()
    };
    assert_eq!(
        AppConfig::from_env(&env).unwrap_err(),
        ConfigError::InvalidNumericValue {
            name: "APP_PORT".to_string(),
            value: "65536".to_string()
        }
    );
    let env = EnvVars {
        db_min_connections: Some("4294967296".to_string()),
        ..env_with_url()
    };
    assert_eq!(
        AppConfig::from_env(&env).unwrap_err(),
        ConfigError::InvalidNumericValue {
            name: "DB_MIN_CONNECTIONS".to_string(),
            value: "4294967296".to_string()
        }
    );
}

#[test]
fn first_invalid_variable_is_named() {
    let env = EnvVars {
        db_idle_timeout: Some("-1".to_string()),
        db_max_lifetime: Some("x".to_string()),
        db_connect_timeout: Some("".to_string()),
        ..env_with_url()
    };
    assert_eq!(
        AppConfig::from_env(&env).unwrap_err(),
        ConfigError::InvalidNumericValue {
            name: "DB_CONNECT_TIMEOUT".to_string(),
            value: "".to_string()
        }
    );
    let env = EnvVars {
        db_max_lifetime: Some(" 5".to_string()),
        ..env_with_url()
    };
    assert_eq!(
        AppConfig::from_env(&env).unwrap_err(),
        ConfigError::InvalidNumericValue {
            name: "DB_MAX_LIFETIME".to_string(),
            value: " 5".to_string()
        }
    );
}

#[test]
fn numeric_variables_each_reject_text() {
    let names = [
        "DB_MAX_CONNECTIONS",
        "DB_MIN_CONNECTIONS",
        "DB_CONNECT_TIMEOUT",
        "DB_IDLE_TIMEOUT",
    ];
    for (k, name) in names.iter().enumerate() {
        let mut env = env_with_url();
        let bad = Some("12a".to_string());
        match k {
            0 => env.db_max_connections = bad,
            1 => env.db_min_connections = bad,
            2 => env.db_connect_timeout = bad,
            _ => env.db_idle_timeout = bad,
        }
        assert_eq!(
            AppConfig::from_env(&env).unwrap_err(),
            ConfigError::InvalidNumericValue {
                name: name.to_string(),
                value: "12a".to_string()
            }
        );
    }
}
