//! Settings of the command line client: defaults, the checks made after reading the
//! configuration file, and the overrides that command line arguments bring.
use vstd::prelude::*;

use crate::keyed::str_eq;

verus! {

pub const CONFIG_VERSION: &'static str = "v1";

/// The table of the configuration file whose keys count as top-level keys.
pub const DEFAULT_CONFIG: &'static str = "default";

pub const DEFAULT_RESPONSE_TIMEOUT: u64 = 3000;

pub const DEFAULT_SERVER_ADDRESS: &'static str = "https://127.0.0.1:25551";

/// Why a configuration could not be taken.
#[derive(Debug, PartialEq, Eq, Clone)]
pub enum ConversionErrors {
    WrongVersion(String),
    ConflictingCertificates(String),
    InvalidAnkConfig(String),
    InvalidCertificate(String),
}

fn prefixed(prefix: &str, msg: &String) -> (r: String)
    ensures
        r@ == prefix@ + msg@,
{
    let mut r = String::from_str(prefix);
    r.append(msg.as_str());
    r
}

impl ConversionErrors {
    /// The error in words.
    pub fn message(&self) -> (r: String)
        ensures
            r@ == match self {
                ConversionErrors::WrongVersion(m) => "Wrong version: "@ + m@,
                ConversionErrors::ConflictingCertificates(m) => "Conflicting certificates: "@ + m@,
                ConversionErrors::InvalidAnkConfig(m) => "Ank Config could not have been parsed due to: "@
                    + m@,
                ConversionErrors::InvalidCertificate(m) => "Certificate could not have been read due to: "@
                    + m@,
            },
    {
        match self {
            ConversionErrors::WrongVersion(m) => prefixed("Wrong version: ", m),
            ConversionErrors::ConflictingCertificates(m) => prefixed("Conflicting certificates: ", m),
            ConversionErrors::InvalidAnkConfig(m) => prefixed(
                "Ank Config could not have been parsed due to: ",
                m,
            ),
            ConversionErrors::InvalidCertificate(m) => prefixed(
                "Certificate could not have been read due to: ",
                m,
            ),
        }
    }
}

pub fn get_default_response_timeout() -> (r: u64)
    ensures
        r == DEFAULT_RESPONSE_TIMEOUT,
{
    DEFAULT_RESPONSE_TIMEOUT
}

pub fn get_default_url() -> (r: String)
    ensures
        r@ == DEFAULT_SERVER_ADDRESS@,
{
    String::from_str(DEFAULT_SERVER_ADDRESS)
}

/// The values read from a configuration file, keys of the `default` table merged
/// with the top-level ones; absent keys already replaced by their defaults.
#[derive(Debug, PartialEq)]
pub struct AnkConfigHelper {
    pub version: String,
    pub response_timeout: u64,
    pub verbose: bool,
    pub quiet: bool,
    pub no_wait: bool,
    pub server_url: String,
    pub insecure: bool,
    pub ca_pem: Option<String>,
    pub crt_pem: Option<String>,
    pub key_pem: Option<String>,
    pub ca_pem_content: Option<String>,
    pub crt_pem_content: Option<String>,
    pub key_pem_content: Option<String>,
}

#[derive(Debug, PartialEq)]
pub struct AnkConfig {
    pub version: String,
    pub response_timeout: u64,
    pub verbose: bool,
    pub quiet: bool,
    pub no_wait: bool,
    pub server_url: String,
    pub insecure: bool,
    pub ca_pem: Option<String>,
    pub crt_pem: Option<String>,
    pub key_pem: Option<String>,
    pub ca_pem_content: Option<String>,
    pub crt_pem_content: Option<String>,
    pub key_pem_content: Option<String>,
}

/// The command line arguments that settle client settings.
#[derive(Debug, PartialEq)]
pub struct AnkCli {
    pub response_timeout_ms: Option<u64>,
    pub verbose: bool,
    pub quiet: bool,
    pub no_wait: bool,
    pub insecure: bool,
    pub server_url: Option<String>,
    pub config_path: Option<String>,
    pub ca_pem: Option<String>,
    pub crt_pem: Option<String>,
    pub key_pem: Option<String>,
}

impl Default for AnkConfig {
    fn default() -> (r: AnkConfig)
        ensures
            r.version@ == CONFIG_VERSION@,
            r.response_timeout == DEFAULT_RESPONSE_TIMEOUT,
            !r.verbose && !r.quiet && !r.no_wait && !r.insecure,
            r.server_url@ == DEFAULT_SERVER_ADDRESS@,
            r.ca_pem is None && r.crt_pem is None && r.key_pem is None,
            r.ca_pem_content is None && r.crt_pem_content is None && r.key_pem_content is None,
    {
        AnkConfig {
            version: String::from_str(CONFIG_VERSION),
            response_timeout: get_default_response_timeout(),
            verbose: false,
            quiet: false,
            no_wait: false,
            server_url: get_default_url(),
            insecure: false,
            ca_pem: None,
            crt_pem: None,
            key_pem: None,
            ca_pem_content: None,
            crt_pem_content: None,
            key_pem_content: None,
        }
    }
}

impl AnkConfig {
    /// The configuration that the read values describe, field for field.
    pub fn from_helper(helper: AnkConfigHelper) -> (r: AnkConfig)
        ensures
            r.version == helper.version,
            r.response_timeout == helper.response_timeout,
            r.verbose == helper.verbose,
            r.quiet == helper.quiet,
            r.no_wait == helper.no_wait,
            r.server_url == helper.server_url,
            r.insecure == helper.insecure,
            r.ca_pem == helper.ca_pem,
            r.crt_pem == helper.crt_pem,
            r.key_pem == helper.key_pem,
            r.ca_pem_content == helper.ca_pem_content,
            r.crt_pem_content == helper.crt_pem_content,
            r.key_pem_content == helper.key_pem_content,
    {
        AnkConfig {
            version: helper.version,
            response_timeout: helper.response_timeout,
            verbose: helper.verbose,
            quiet: helper.quiet,
            no_wait: helper.no_wait,
            server_url: helper.server_url,
            insecure: helper.insecure,
            ca_pem: helper.ca_pem,
            crt_pem: helper.crt_pem,
            key_pem: helper.key_pem,
            ca_pem_content: helper.ca_pem_content,
            crt_pem_content: helper.crt_pem_content,
            key_pem_content: helper.key_pem_content,
        }
    }

    /// Accepts a configuration read from a file only in the supported version.
    pub fn check_version(config: AnkConfig) -> (r: Result<AnkConfig, ConversionErrors>)
        ensures
            config.version@ == CONFIG_VERSION@ ==> r == Ok::<AnkConfig, ConversionErrors>(config),
            config.version@ != CONFIG_VERSION@ ==> r == Err::<AnkConfig, ConversionErrors>(
                ConversionErrors::WrongVersion(config.version),
            ),
    {
        if !str_eq(config.version.as_str(), CONFIG_VERSION) {
            return Err(ConversionErrors::WrongVersion(config.version));
        }
        Ok(config)
    }

    /// A timeout given on the command line replaces the configured one; the verbose,
    /// quiet and no-wait switches are taken from the command line as they are.
    pub fn update_with_args(&mut self, args: &AnkCli)
        ensures
            final(self).response_timeout == match args.response_timeout_ms {
                Some(t) => t,
                None => old(self).response_timeout,
            },
            final(self).verbose == args.verbose,
            final(self).quiet == args.quiet,
            final(self).no_wait == args.no_wait,
            final(self).version == old(self).version,
            final(self).server_url == old(self).server_url,
            final(self).insecure == old(self).insecure,
            final(self).ca_pem == old(self).ca_pem,
            final(self).crt_pem == old(self).crt_pem,
            final(self).key_pem == old(self).key_pem,
            final(self).ca_pem_content == old(self).ca_pem_content,
            final(self).crt_pem_content == old(self).crt_pem_content,
            final(self).key_pem_content == old(self).key_pem_content,
    {
        if let Some(response_timeout) = args.response_timeout_ms {
            self.response_timeout = response_timeout;
        }
        self.verbose = args.verbose;
        self.quiet = args.quiet;
        self.no_wait = args.no_wait;
    }
}

} // verus!
