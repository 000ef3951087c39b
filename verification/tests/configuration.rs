use zero2prod::configuration::config_dir;
use zero2prod::configuration::environment_or_local;
use zero2prod::configuration::key_secret;
use zero2prod::configuration::DatabaseSettings;
use zero2prod::configuration::Environment;
use zero2prod::configuration::SslMode;

fn database(require_ssl: bool) -> DatabaseSettings {
    DatabaseSettings {
        username: "postgres".to_string(),
        password: "password".to_string(),
        port: 5432,
        host: "localhost".to_string(),
        database_name: "newsletter".to_string(),
        require_ssl,
    }
}

#[test]
fn environment_names() {
    assert_eq!(Environment::Local.as_str(), "local");
    assert_eq!(Environment::Production.as_str(), "production");
}

#[test]
fn environment_is_read_whatever_the_case() {
    assert_eq!(Environment::try_from("local".to_string()), Ok(Environment::Local));
    assert_eq!(Environment::try_from("LOCAL".to_string()), Ok(Environment::Local));
    assert_eq!(Environment::try_from("Production".to_string()), Ok(Environment::Production));
}

#[test]
fn unknown_environment_is_refused() {
    assert_eq!(
        Environment::try_from("Staging".to_string()),
        Err("Unsupported environment type: staging. Use `local` or `production`".to_string())
    );
}

#[test]
fn environment_defaults_to_local() {
    assert_eq!(environment_or_local(None), Ok(Environment::Local));
    assert_eq!(environment_or_local(Some("production".to_string())), Ok(Environment::Production));
    assert!(environment_or_local(Some("".to_string())).is_err());
}

#[test]
fn config_dir_defaults_by_environment() {
    assert_eq!(config_dir(None, &Environment::Local), "configuration");
    assert_eq!(config_dir(None, &Environment::Production), "/etc/zero2prod");
    assert_eq!(config_dir(Some("/tmp/conf".to_string()), &Environment::Production), "/tmp/conf");
}

#[test]
fn secret_needs_32_bytes() {
    assert_eq!(
        key_secret("s".repeat(31)),
        Err("Secret string must be at least 32 bytes long".to_string())
    );
    assert_eq!(key_secret("s".repeat(32)), Ok(vec![b's'; 32]));
    // Sixteen characters of two bytes each.
    assert_eq!(key_secret("é".repeat(16)).unwrap().len(), 32);
}

#[test]
fn connection_options_follow_the_settings() {
    let options = database(true).without_db();
    assert_eq!(options.ssl_mode, SslMode::Require);
    assert_eq!(options.username, "postgres");
    assert_eq!(options.password, "password");
    assert_eq!(options.host, "localhost");
    assert_eq!(options.port, 5432);
    assert_eq!(options.database, None);
    let options = database(false).with_db();
    assert_eq!(options.ssl_mode, SslMode::Prefer);
    assert_eq!(options.database, Some("newsletter".to_string()));
}

#[test]
fn environment_is_found_by_its_exact_name() {
    assert_eq!(Environment::from_name("local".to_string()), Ok(Environment::Local));
    assert_eq!(Environment::from_name("production".to_string()), Ok(Environment::Production));
    assert_eq!(
        Environment::from_name("Local".to_string()),
        Err("Unsupported environment type: Local. Use `local` or `production`".to_string())
    );
    assert_eq!(
        Environment::from_name("".to_string()),
        Err("Unsupported environment type: . Use `local` or `production`".to_string())
    );
    // Through the function that puts the name in lower case first.
    assert_eq!(Environment::try_from("LoCaL".to_string()), Ok(Environment::Local));
    assert_eq!(
        Environment::try_from("STAGING".to_string()),
        Err("Unsupported environment type: staging. Use `local` or `production`".to_string())
    );
}
