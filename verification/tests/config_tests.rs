use docbox_ops::config::{
    resolve_database_provider, CliDatabaseConfiguration, CliDatabaseSetupUserConfig,
};
use docbox_ops::ErrorKind;

fn base_config(setup_user: Option<CliDatabaseSetupUserConfig>) -> CliDatabaseConfiguration {
    CliDatabaseConfiguration {
        host: "db.internal".to_string(),
        port: 5432,
        setup_user,
        setup_user_secret_name: Some("setup-user".to_string()),
        root_secret_name: "root-secret".to_string(),
    }
}

#[test]
fn inline_setup_user_wins() {
    let config = base_config(Some(CliDatabaseSetupUserConfig {
        username: "inline".to_string(),
        password: "inline-pass".to_string(),
    }));
    let fetched = Some(CliDatabaseSetupUserConfig {
        username: "fetched".to_string(),
        password: "fetched-pass".to_string(),
    });
    let provider = resolve_database_provider(&config, fetched).unwrap();
    assert_eq!(provider.username, "inline");
    assert_eq!(provider.password, "inline-pass");
    assert_eq!(provider.config.host, "db.internal");
    assert_eq!(provider.config.port, 5432);
}

#[test]
fn secret_user_is_used_when_no_inline_user() {
    let config = base_config(None);
    let fetched = Some(CliDatabaseSetupUserConfig {
        username: "fetched".to_string(),
        password: "fetched-pass".to_string(),
    });
    let provider = resolve_database_provider(&config, fetched).unwrap();
    assert_eq!(provider.username, "fetched");
    assert_eq!(provider.password, "fetched-pass");
}

#[test]
fn no_credentials_at_all_is_an_error() {
    let config = base_config(None);
    let err = resolve_database_provider(&config, None)
        .map(|_| ())
        .unwrap_err();
    assert_eq!(err, ErrorKind::ValidationError);
}
