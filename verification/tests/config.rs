use food::config::{port_from_env, ConfigError, ConnectOptions};
use food::database::{configure_connect_options, from_env};

#[test]
fn configure_switches_foreign_keys_on() {
    let options = ConnectOptions::new("sqlite::memory:".to_string());
    assert!(!options.foreign_keys);
    let configured = configure_connect_options(options);
    assert!(configured.foreign_keys);
    assert_eq!(configured.database_url, "sqlite::memory:");
    let again = configure_connect_options(configured);
    assert!(again.foreign_keys);
}

#[test]
fn from_env_needs_a_database() {
    let error = from_env(None).err().unwrap();
    assert!(matches!(error, ConfigError::NoDatabase));
    assert_eq!(
        error.message(),
        "No database provided: please define `DATABASE_URL` and run again"
    );
}

#[test]
fn from_env_configures_the_database_that_is_named() {
    let options = from_env(Some("sqlite://food.db".to_string())).ok().unwrap();
    assert_eq!(options.database_url, "sqlite://food.db");
    assert!(options.foreign_keys);
    // An empty name is a name: it is for the storage to refuse it.
    let empty = from_env(Some(String::new())).ok().unwrap();
    assert_eq!(empty.database_url, "");
    assert!(empty.foreign_keys);
}

#[test]
fn port_defaults_where_none_is_named() {
    assert_eq!(port_from_env(None, 3001).ok(), Some(3001));
    assert_eq!(port_from_env(None, 3002).ok(), Some(3002));
}

#[test]
fn port_is_read_where_one_is_named() {
    assert_eq!(port_from_env(Some("8080"), 3001).ok(), Some(8080));
    assert_eq!(port_from_env(Some("0"), 3001).ok(), Some(0));
    assert_eq!(port_from_env(Some("65535"), 3001).ok(), Some(65535));
    assert_eq!(port_from_env(Some("+80"), 3001).ok(), Some(80));
}

#[test]
fn port_that_is_no_port_is_an_error() {
    for text in ["", "65536", "-1", "http", "80 ", "8080.0"] {
        match port_from_env(Some(text), 3001) {
            Err(ConfigError::InvalidPort(found)) => {
                assert_eq!(found, text);
                let message = ConfigError::InvalidPort(found).message();
                assert_eq!(message, format!("Invalid port: {}", text));
            }
            other => panic!("{:?} gave {:?}", text, other),
        }
    }
}
