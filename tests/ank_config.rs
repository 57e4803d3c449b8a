use ankaios::ank_config::{
    get_default_response_timeout, get_default_url, AnkCli, AnkConfig, ConversionErrors,
    DEFAULT_SERVER_ADDRESS,
};

fn cli(timeout: Option<u64>) -> AnkCli {
    AnkCli {
        response_timeout_ms: timeout,
        verbose: true,
        quiet: true,
        no_wait: true,
        insecure: false,
        server_url: Some(DEFAULT_SERVER_ADDRESS.to_string()),
        config_path: None,
        ca_pem: None,
        crt_pem: None,
        key_pem: None,
    }
}

#[test]
fn default_ank_config() {
    let config = AnkConfig::default();
    assert_eq!(config.response_timeout, get_default_response_timeout());
    assert_eq!(config.response_timeout, 3000);
    assert!(!config.verbose && !config.quiet && !config.no_wait && !config.insecure);
    assert_eq!(config.server_url, get_default_url());
    assert_eq!(config.server_url, "https://127.0.0.1:25551");
    assert_eq!(config.version, "v1");
}

#[test]
fn ank_config_update_with_args() {
    let mut config = AnkConfig::default();
    config.update_with_args(&cli(Some(5000)));
    assert_eq!(config.response_timeout, 5000);
    assert!(config.verbose && config.quiet && config.no_wait);
    let mut config = AnkConfig::default();
    config.update_with_args(&cli(None));
    assert_eq!(config.response_timeout, 3000);
}

#[test]
fn ank_config_wrong_version() {
    let mut config = AnkConfig::default();
    config.version = "v2".to_string();
    assert_eq!(
        AnkConfig::check_version(config),
        Err(ConversionErrors::WrongVersion("v2".to_string()))
    );
    assert_eq!(AnkConfig::check_version(AnkConfig::default()), Ok(AnkConfig::default()));
}

#[test]
fn conversion_error_messages() {
    assert_eq!(ConversionErrors::WrongVersion("v2".into()).message(), "Wrong version: v2");
    assert_eq!(
        ConversionErrors::InvalidAnkConfig("x".into()).message(),
        "Ank Config could not have been parsed due to: x"
    );
    assert_eq!(
        ConversionErrors::ConflictingCertificates("y".into()).message(),
        "Conflicting certificates: y"
    );
    assert_eq!(
        ConversionErrors::InvalidCertificate("z".into()).message(),
        "Certificate could not have been read due to: z"
    );
}
