use std::time::Duration;

use base64::DecodeError;
use decision_agent::config::{
    assemble_pem, default_refresh_interval, default_root, deserialize_duration, EnvironmentConfig,
    FilesystemProviderConfig, GlobalAgentConfig, HttpSslConfig, ProviderConfig, RustlsPem, SslError,
    ZipProviderConfig,
};
use decision_agent::text::{begins_with, decimal, find_char, joined, text_equal};

#[test]
fn defaults_are_those_of_a_local_zip_agent() {
    let config = EnvironmentConfig::default();
    assert!(config.cors_permissive);
    assert!(config.release_zip_password.is_none());
    assert_eq!(config.poll_interval, Duration::from_secs(5));
    assert!(!config.otel_enabled);
    assert!(config.http_ssl.is_none());
    match config.provider {
        ProviderConfig::Zip(zip) => assert_eq!(zip.root_dir, "data"),
        other => panic!("unexpected provider {:?}", other),
    }
    assert_eq!(default_refresh_interval(), Duration::from_secs(5));
    assert_eq!(default_root(), "data");
    assert_eq!(ZipProviderConfig::default().root_dir, "data");
    assert_eq!(FilesystemProviderConfig::default().root_dir, "data");
    assert!(GlobalAgentConfig::default().release_zip_password.is_none());
}

#[test]
fn poll_interval_of_a_second_is_accepted() {
    assert_eq!(deserialize_duration(1_000), Ok(Duration::from_secs(1)));
    assert_eq!(deserialize_duration(5_000), Ok(Duration::from_secs(5)));
    assert_eq!(deserialize_duration(u64::MAX), Ok(Duration::from_millis(u64::MAX)));
}

#[test]
fn shorter_poll_interval_is_refused() {
    assert_eq!(
        deserialize_duration(999),
        Err("poll interval must be at least 1000 milliseconds (999 given)".to_string())
    );
    assert_eq!(
        deserialize_duration(0),
        Err("poll interval must be at least 1000 milliseconds (0 given)".to_string())
    );
}

#[test]
fn ssl_parts_are_decoded() {
    let config = HttpSslConfig { key: "a2V5".to_string(), cert: "Y2VydA==".to_string() };
    let pem = config.to_rustls_config().unwrap();
    assert_eq!(pem.key, b"key");
    assert_eq!(pem.cert, b"cert");
}

fn failure(r: Result<RustlsPem, SslError>) -> (String, DecodeError) {
    let error = r.unwrap_err();
    (error.message, error.cause)
}

#[test]
fn ssl_certificate_is_looked_at_before_the_key() {
    let broken = HttpSslConfig { key: "Y2VydA=".to_string(), cert: "Y2*ydA==".to_string() };
    assert_eq!(
        failure(broken.to_rustls_config()),
        ("Failed to decode SSL certificate".to_string(), DecodeError::InvalidByte(2, b'*'))
    );
    let broken_key = HttpSslConfig { key: "Y2VydA=".to_string(), cert: "Y2VydA==".to_string() };
    assert_eq!(
        failure(broken_key.to_rustls_config()),
        ("Failed to decode SSL key".to_string(), DecodeError::InvalidPadding)
    );
}

#[test]
fn pem_needs_both_parts() {
    let pem = assemble_pem(Ok(vec![1]), Ok(vec![2])).unwrap();
    assert_eq!((pem.cert, pem.key), (vec![1], vec![2]));
    let no_cert = "Failed to decode SSL certificate".to_string();
    let no_key = "Failed to decode SSL key".to_string();
    let long = DecodeError::InvalidLength(1);
    let padded = DecodeError::InvalidPadding;
    assert_eq!(
        failure(assemble_pem(Err(long.clone()), Ok(vec![2]))),
        (no_cert.clone(), long.clone())
    );
    assert_eq!(
        failure(assemble_pem(Err(long.clone()), Err(padded.clone()))),
        (no_cert, long)
    );
    assert_eq!(failure(assemble_pem(Ok(vec![1]), Err(padded.clone()))), (no_key, padded));
}

#[test]
fn text_functions_work_on_characters() {
    assert_eq!(decimal(0), "0");
    assert_eq!(decimal(1_234_567_890), "1234567890");
    assert_eq!(decimal(u64::MAX), u64::MAX.to_string());
    assert!(text_equal("grüße", "grüße"));
    assert!(!text_equal("gruße", "grüße"));
    assert!(begins_with("grüße", "grü"));
    assert!(begins_with("grüße", ""));
    assert!(!begins_with("grü", "grüße"));
    assert_eq!(find_char("grüße:", ':'), Some(5));
    assert_eq!(find_char("grüße", ':'), None);
    assert_eq!(joined("a", ":", "b"), "a:b");
}
