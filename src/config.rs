//! The configuration snapshot the proxy core works from.
use vstd::prelude::*;

verus! {

/// Why a configuration snapshot could not be produced.
#[derive(Debug, Clone, Copy, PartialEq, Eq, Structural)]
pub enum ConfigError {
    ConfigFileReadError,
    ConfigFileParseError,
}

/// Maps a hostname to a backend address.
#[derive(Debug, Clone)]
pub struct ForwardingRule {
    pub host: String,
    pub target: String,
}

/// Where the token buckets of a rate-limit rule are kept.
#[derive(Debug, Clone, Copy, PartialEq, Eq, Structural)]
pub enum RateLimitStrategy {
    HashMap,
    Redis,
}

/// Per-host token-bucket policy. `limit` tokens are added every `duration`
/// seconds, up to `max_tokens`; a fresh bucket starts with `limit` tokens.
#[derive(Debug, Clone)]
pub struct RateLimitRule {
    pub host: String,
    pub limit: u64,
    pub duration: u64,
    pub max_tokens: u64,
    pub excluded_paths: Vec<String>,
    pub excluded_ip_list: Vec<String>,
    pub strategy: RateLimitStrategy,
}

/// The whole configuration snapshot.
#[derive(Debug, Clone)]
pub struct Configs {
    pub cert_path: String,
    pub key_path: String,
    pub is_tls_enabled: bool,
    pub show_logs_on_console: bool,
    pub forwarding_rules: Option<Vec<ForwardingRule>>,
    pub static_files_directory: Option<String>,
    pub rate_limit_rules: Option<Vec<RateLimitRule>>,
}

/// A problem in a configuration that does not stop the proxy.
#[derive(Debug, Clone, Copy, PartialEq, Eq, Structural)]
pub enum ConfigWarning {
    CertificateNotFound,
    KeyNotFound,
    TlsPathsMissing,
}

/// The warnings for a configuration, in the order they are reported.
pub open spec fn spec_warnings(
    cert_found: bool,
    key_found: bool,
    tls: bool,
    cert_empty: bool,
    key_empty: bool,
) -> Seq<ConfigWarning> {
    let a = if cert_found { Seq::empty() } else { seq![ConfigWarning::CertificateNotFound] };
    let b = if key_found { a } else { a.push(ConfigWarning::KeyNotFound) };
    if tls && (cert_empty || key_empty) { b.push(ConfigWarning::TlsPathsMissing) } else { b }
}

/// Where the configuration file lives.
pub const CONFIG_DIR: &'static str = "/etc/sheldx/configs";
pub const CONFIG_FILE: &'static str = "/etc/sheldx/configs/main.conf";
/// The static directory and page a fresh installation serves.
pub const STATIC_DIR: &'static str = "/etc/sheldx/static";
pub const DEFAULT_STATIC_PAGE: &'static str = "/etc/sheldx/static/index.html";
/// The page rendered for a rejected request, with `{{user_ip}}` and `{{seconds}}` in it.
pub const RATE_LIMIT_PAGE: &'static str = "/etc/sheldx/static/rate_limit.html";

/// What `default_configs` holds in each field.
pub open spec fn is_default_rule(
    r: RateLimitRule,
    host: Seq<char>,
    limit: u64,
    max_tokens: u64,
    path: Seq<char>,
    ips: Seq<Seq<char>>,
    strategy: RateLimitStrategy,
) -> bool {
    &&& r.host@ == host
    &&& r.limit == limit
    &&& r.duration == 60
    &&& r.max_tokens == max_tokens
    &&& r.excluded_paths@.len() == 1
    &&& r.excluded_paths@[0]@ == path
    &&& r.excluded_ip_list@.len() == ips.len()
    &&& forall|i: int| 0 <= i < ips.len() ==> #[trigger] r.excluded_ip_list@[i]@ == ips[i]
    &&& r.strategy == strategy
}

pub open spec fn is_default_configs(c: Configs) -> bool {
    &&& c.cert_path@.len() == 0
    &&& c.key_path@.len() == 0
    &&& !c.is_tls_enabled
    &&& c.show_logs_on_console
    &&& c.forwarding_rules is None
    &&& c.static_files_directory matches Some(d) && d@ == DEFAULT_STATIC_PAGE@
    &&& c.rate_limit_rules matches Some(rules) && rules@.len() == 2
        && is_default_rule(rules@[0], "api.example.com"@, 10, 1000, "/health"@,
            seq!["192.168.1.1"@], RateLimitStrategy::HashMap)
        && is_default_rule(rules@[1], "public.example.com"@, 5, 500, "/status"@,
            Seq::empty(), RateLimitStrategy::Redis)
}

/// The configuration written when none exists yet.
pub fn default_configs() -> (c: Configs)
    ensures
        is_default_configs(c),
{
    let mut api_ips: Vec<String> = Vec::new();
    api_ips.push(String::from_str("192.168.1.1"));
    let mut api_paths: Vec<String> = Vec::new();
    api_paths.push(String::from_str("/health"));
    let mut public_paths: Vec<String> = Vec::new();
    public_paths.push(String::from_str("/status"));
    let mut rules: Vec<RateLimitRule> = Vec::new();
    rules.push(
        RateLimitRule {
            host: String::from_str("api.example.com"),
            limit: 10,
            duration: 60,
            max_tokens: 1000,
            excluded_paths: api_paths,
            excluded_ip_list: api_ips,
            strategy: RateLimitStrategy::HashMap,
        },
    );
    rules.push(
        RateLimitRule {
            host: String::from_str("public.example.com"),
            limit: 5,
            duration: 60,
            max_tokens: 500,
            excluded_paths: public_paths,
            excluded_ip_list: Vec::new(),
            strategy: RateLimitStrategy::Redis,
        },
    );
    Configs {
        cert_path: String::new(),
        key_path: String::new(),
        is_tls_enabled: false,
        show_logs_on_console: true,
        forwarding_rules: None,
        static_files_directory: Some(String::from_str(DEFAULT_STATIC_PAGE)),
        rate_limit_rules: Some(rules),
    }
}

impl Configs {
    /// Checks the snapshot; whether the certificate and key files exist is
    /// found out by the caller.
    pub fn _check(&self, cert_found: bool, key_found: bool) -> (r: Vec<ConfigWarning>)
        ensures
            r@ == spec_warnings(
                cert_found,
                key_found,
                self.is_tls_enabled,
                self.cert_path@.len() == 0,
                self.key_path@.len() == 0,
            ),
    {
        let mut r: Vec<ConfigWarning> = Vec::new();
        if !cert_found {
            r.push(ConfigWarning::CertificateNotFound);
        }
        if !key_found {
            r.push(ConfigWarning::KeyNotFound);
        }
        if self.is_tls_enabled && (self.cert_path.as_str().is_empty()
            || self.key_path.as_str().is_empty()) {
            r.push(ConfigWarning::TlsPathsMissing);
        }
        r
    }
}

} // verus!
