//! What the agent is told when it starts.
use std::sync::Arc;
use std::time::Duration;

use base64::DecodeError;
use vstd::prelude::*;
use vstd::string::*;

use crate::outside::{self, base64_decode, duration_of_millis};
use crate::text::{self, decimal, joined};

verus! {

/// The settings of one agent.
#[derive(Debug, Clone)]
pub struct EnvironmentConfig {
    pub cors_permissive: bool,
    pub provider: ProviderConfig,
    pub release_zip_password: Option<Arc<str>>,
    /// The time between two refreshes.
    pub poll_interval: Duration,
    pub otel_enabled: bool,
    pub http_ssl: Option<HttpSslConfig>,
}

/// Where the projects come from.
#[derive(Debug, Clone)]
pub enum ProviderConfig {
    Zip(ZipProviderConfig),
    Filesystem(FilesystemProviderConfig),
    S3(S3ProviderConfig),
    AzureStorage(AzureStorageProviderConfig),
    GCS(GcsProviderConfig),
    Postgres(PostgresProviderConfig),
}

#[derive(Debug, Clone)]
pub struct ZipProviderConfig {
    pub root_dir: String,
}

#[derive(Debug, Clone)]
pub struct FilesystemProviderConfig {
    pub root_dir: String,
}

#[derive(Debug, Clone)]
pub struct S3ProviderConfig {
    pub bucket: String,
    pub force_path_style: bool,
    pub endpoint: Option<String>,
    pub prefix: Option<String>,
}

#[derive(Debug, Clone)]
pub struct AzureStorageProviderConfig {
    pub connection_string: String,
    pub container: String,
    pub prefix: Option<String>,
}

#[derive(Debug, Clone)]
pub struct GcsProviderConfig {
    pub base64_contents: Option<String>,
    pub bucket: String,
    pub prefix: Option<String>,
}

#[derive(Debug, Clone)]
pub struct PostgresProviderConfig {
    pub database_url: String,
}

/// The settings that all agents of a process share.
#[derive(Debug, Clone)]
pub struct GlobalAgentConfig {
    pub release_zip_password: Option<Arc<str>>,
}

/// The key and the certificate of the server, each in Base64.
#[derive(Debug, Clone)]
pub struct HttpSslConfig {
    pub key: String,
    pub cert: String,
}

/// The decoded PEM texts that a TLS configuration is made from.
#[derive(Debug)]
pub struct RustlsPem {
    pub cert: Vec<u8>,
    pub key: Vec<u8>,
}

/// Why there is no TLS configuration: what is said of it, and the cause beneath.
#[derive(Debug)]
pub struct SslError {
    pub message: String,
    pub cause: DecodeError,
}

/// The shortest time between two refreshes, in milliseconds.
pub const MIN_POLL_INTERVAL: u64 = 1_000;

/// The time between two refreshes where none is configured: five seconds.
pub fn default_refresh_interval() -> (r: Duration)
    ensures
        outside::duration_nanos(r) == 5_000_000_000,
{
    duration_of_millis(5_000)
}

/// The directory that a provider on the local disk reads where none is configured.
pub fn default_root() -> (r: String)
    ensures
        r@ == "data"@,
{
    "data".to_owned()
}

impl Default for EnvironmentConfig {
    fn default() -> (r: Self)
        ensures
            r.cors_permissive,
            r.release_zip_password is None,
            r.provider matches ProviderConfig::Zip(zip) && zip.root_dir@ == "data"@,
            outside::duration_nanos(r.poll_interval) == 5_000_000_000,
            !r.otel_enabled,
            r.http_ssl is None,
    {
        EnvironmentConfig {
            cors_permissive: true,
            release_zip_password: None,
            provider: ProviderConfig::default(),
            poll_interval: default_refresh_interval(),
            otel_enabled: false,
            http_ssl: None,
        }
    }
}

impl Default for ProviderConfig {
    fn default() -> (r: Self)
        ensures
            r matches ProviderConfig::Zip(zip) && zip.root_dir@ == "data"@,
    {
        ProviderConfig::Zip(ZipProviderConfig::default())
    }
}

impl Default for ZipProviderConfig {
    fn default() -> (r: Self)
        ensures
            r.root_dir@ == "data"@,
    {
        ZipProviderConfig { root_dir: default_root() }
    }
}

impl Default for FilesystemProviderConfig {
    fn default() -> (r: Self)
        ensures
            r.root_dir@ == "data"@,
    {
        FilesystemProviderConfig { root_dir: default_root() }
    }
}

impl Default for GlobalAgentConfig {
    fn default() -> (r: Self)
        ensures
            r.release_zip_password is None,
    {
        GlobalAgentConfig { release_zip_password: None }
    }
}

/// What is said of a poll interval that is too short.
pub open spec fn poll_interval_error(millis: u64) -> Seq<char> {
    "poll interval must be at least 1000 milliseconds ("@ + text::decimal_digits(
        millis as nat,
    ) + " given)"@
}

/// The poll interval that a configured number of milliseconds stands for. Anything under a second
/// is refused.
pub fn deserialize_duration(millis: u64) -> (r: Result<Duration, String>)
    ensures
        match r {
            Ok(interval) => millis >= MIN_POLL_INTERVAL && outside::duration_nanos(interval)
                == millis * 1_000_000,
            Err(message) => millis < MIN_POLL_INTERVAL && message@ == poll_interval_error(millis),
        },
        r is Ok <==> millis >= 1_000,
{
    if millis < MIN_POLL_INTERVAL {
        let digits: String = decimal(millis);
        return Err(
            joined(
                "poll interval must be at least 1000 milliseconds (",
                digits.as_str(),
                " given)",
            ),
        );
    }
    Ok(duration_of_millis(millis))
}

/// The outcome of decoding the certificate and the key: both, or what is said of the first of them
/// that is no Base64, the certificate before the key, with the cause.
pub open spec fn decoded_pem(
    cert: Result<Seq<u8>, DecodeError>,
    key: Result<Seq<u8>, DecodeError>,
) -> Result<(Seq<u8>, Seq<u8>), (Seq<char>, DecodeError)> {
    match (cert, key) {
        (Err(cause), _) => Err(("Failed to decode SSL certificate"@, cause)),
        (Ok(_), Err(cause)) => Err(("Failed to decode SSL key"@, cause)),
        (Ok(c), Ok(k)) => Ok((c, k)),
    }
}

/// What a PEM outcome holds.
pub open spec fn pem_outcome(r: Result<RustlsPem, SslError>) -> Result<
    (Seq<u8>, Seq<u8>),
    (Seq<char>, DecodeError),
> {
    match r {
        Ok(pem) => Ok((pem.cert@, pem.key@)),
        Err(error) => Err((error.message@, error.cause)),
    }
}

/// Puts the decoded certificate and the decoded key together.
pub fn assemble_pem(
    cert: Result<Vec<u8>, DecodeError>,
    key: Result<Vec<u8>, DecodeError>,
) -> (r: Result<RustlsPem, SslError>)
    ensures
        pem_outcome(r) == decoded_pem(outside::decoding_view(cert), outside::decoding_view(key)),
{
    let cert: Vec<u8> = match cert {
        Ok(c) => c,
        Err(cause) => return Err(
            SslError { message: "Failed to decode SSL certificate".to_owned(), cause },
        ),
    };
    let key: Vec<u8> = match key {
        Ok(k) => k,
        Err(cause) => return Err(
            SslError { message: "Failed to decode SSL key".to_owned(), cause },
        ),
    };
    Ok(RustlsPem { cert, key })
}

impl HttpSslConfig {
    /// The PEM texts of the certificate and the key.
    pub fn to_rustls_config(&self) -> (r: Result<RustlsPem, SslError>)
        ensures
            pem_outcome(r) == decoded_pem(
                outside::base64_decoded(self.cert@),
                outside::base64_decoded(self.key@),
            ),
    {
        assemble_pem(base64_decode(self.cert.as_str()), base64_decode(self.key.as_str()))
    }
}

/// A poll interval is refused with a message that holds its digits between its two fixed parts.
pub proof fn law_refusal_quotes_the_interval(millis: u64)
    ensures
        ({
            let before = "poll interval must be at least 1000 milliseconds ("@;
            let after = " given)"@;
            let message = poll_interval_error(millis);
            let n = message.len() - after.len();
            &&& before.len() < n
            &&& before.is_prefix_of(message)
            &&& message.skip(n) == after
            &&& message.subrange(before.len() as int, n) == text::decimal_digits(millis as nat)
        }),
{
    let before = "poll interval must be at least 1000 milliseconds ("@;
    let after = " given)"@;
    let digits = text::decimal_digits(millis as nat);
    let message = poll_interval_error(millis);
    text::law_digits_read_as_the_number(millis as nat);
    assert(message == before + digits + after);
    assert(before =~= message.subrange(0, before.len() as int));
    assert(message.skip(message.len() - after.len()) =~= after);
    assert(message.subrange(before.len() as int, message.len() - after.len()) =~= digits);
}

/// There is a TLS configuration exactly if the certificate and the key are Base64, and it has the
/// bytes of both. Otherwise the first of them that is not is named, the certificate before the key,
/// with the cause.
pub proof fn law_tls_configuration_of_each_outcome(
    cert: Result<Seq<u8>, DecodeError>,
    key: Result<Seq<u8>, DecodeError>,
    r: Result<RustlsPem, SslError>,
)
    requires
        pem_outcome(r) == decoded_pem(cert, key),
    ensures
        r is Ok <==> cert is Ok && key is Ok,
        r matches Ok(pem) ==> pem.cert@ == cert->Ok_0 && pem.key@ == key->Ok_0,
        cert matches Err(cause) ==> (r matches Err(error) && error.message@
            == "Failed to decode SSL certificate"@ && error.cause == cause),
        cert is Ok && key is Err ==> (r matches Err(error) && error.message@
            == "Failed to decode SSL key"@ && error.cause == key->Err_0),
{
}

/// What a decoding holds are the bytes that were decoded, or the cause.
pub proof fn law_decoding_is_what_was_returned(r: Result<Vec<u8>, DecodeError>)
    ensures
        match (r, outside::decoding_view(r)) {
            (Ok(bytes), Ok(decoded)) => decoded == bytes@,
            (Err(error), Err(cause)) => cause == error,
            _ => false,
        },
{
}

/// No interval under a second is accepted.
pub proof fn law_shortest_interval_is_a_second()
    ensures
        MIN_POLL_INTERVAL == 1_000,
{
}

} // verus!
