//! The request dispatcher: from an inbound request's host, path and client
//! to what the proxy does with it.
use vstd::prelude::*;
use crate::config::Configs;
use crate::limiter::RateLimiterRegistry;
use crate::pages::{
    DEFAULT_PAGE, PageResponse, error_page_body, http_error_response, is_page, show_default_page,
};
use crate::rate_limit::{RateLimitResponse, admission, enforce_rate_limit};
use crate::resolve::{ResolveOutcome, resolve, resolves_to, rules_view};
use crate::text::string_of;
use ratelimit::Ratelimiter;

verus! {

/// Why a request could not be served as asked.
#[derive(Debug, Clone)]
pub enum ProxyError {
    /// No configuration could be loaded.
    ConfigError,
    /// The Host header is missing or not visible ASCII.
    HostError,
    /// No forwarding rule is configured.
    NoForwardingRules,
    /// No forwarding rule names the requested host.
    RuleNotFound,
    /// The backend could not be reached; the reason is for the logs only.
    ConnectionError(String),
    /// The exchange with the backend failed after connecting.
    HttpCommError,
}

pub const NOT_FOUND_TITLE: &'static str = "Page not found";

pub const NOT_FOUND_MESSAGE: &'static str = "Sorry the page you are looking for is not found";

pub const BAD_REQUEST_TITLE: &'static str = "Bad Request";

pub const BAD_REQUEST_MESSAGE: &'static str =
    "We can not process the request because the host header is missing or not valid";

pub const NO_RULES_TITLE: &'static str = "Not Found";

pub const NO_RULES_MESSAGE: &'static str = "No forwarding rules are configured on this server";

pub const CONFIG_UNAVAILABLE_TITLE: &'static str = "Configuration Unavailable";

pub const CONFIG_UNAVAILABLE_MESSAGE: &'static str =
    "The proxy configuration could not be loaded";

pub const INTERNAL_ERROR_TITLE: &'static str = "Internal Server Error";

pub const INTERNAL_ERROR_MESSAGE: &'static str =
    "The server could not get a response from the upstream service";

pub open spec fn error_status(e: ProxyError) -> u16 {
    match e {
        ProxyError::HostError => 400,
        ProxyError::ConnectionError(_) => 500,
        ProxyError::HttpCommError => 500,
        _ => 404,
    }
}

pub open spec fn error_title(e: ProxyError) -> Seq<char> {
    match e {
        ProxyError::HostError => BAD_REQUEST_TITLE@,
        ProxyError::RuleNotFound => NOT_FOUND_TITLE@,
        ProxyError::ConnectionError(_) => INTERNAL_ERROR_TITLE@,
        ProxyError::HttpCommError => INTERNAL_ERROR_TITLE@,
        ProxyError::ConfigError => CONFIG_UNAVAILABLE_TITLE@,
        ProxyError::NoForwardingRules => NO_RULES_TITLE@,
    }
}

pub open spec fn error_message(e: ProxyError) -> Seq<char> {
    match e {
        ProxyError::HostError => BAD_REQUEST_MESSAGE@,
        ProxyError::RuleNotFound => NOT_FOUND_MESSAGE@,
        ProxyError::ConnectionError(_) => INTERNAL_ERROR_MESSAGE@,
        ProxyError::HttpCommError => INTERNAL_ERROR_MESSAGE@,
        ProxyError::ConfigError => CONFIG_UNAVAILABLE_MESSAGE@,
        ProxyError::NoForwardingRules => NO_RULES_MESSAGE@,
    }
}

/// `p` is the page answered for the error `e`.
pub open spec fn is_error_page(p: PageResponse, e: ProxyError) -> bool {
    is_page(p, error_status(e), true, error_page_body(error_status(e), error_message(e), error_title(e)))
}

impl ProxyError {
    /// The status code answered for this error.
    pub fn status_code(&self) -> (r: u16)
        ensures
            r == error_status(*self),
    {
        match self {
            ProxyError::HostError => 400,
            ProxyError::ConnectionError(_) => 500,
            ProxyError::HttpCommError => 500,
            _ => 404,
        }
    }

    /// The page answered for this error. It never holds the reason of a
    /// connection error.
    pub fn error_page(&self) -> (r: PageResponse)
        ensures
            is_error_page(r, *self),
    {
        let (title, message): (&str, &str) = match self {
            ProxyError::HostError => (BAD_REQUEST_TITLE, BAD_REQUEST_MESSAGE),
            ProxyError::RuleNotFound => (NOT_FOUND_TITLE, NOT_FOUND_MESSAGE),
            ProxyError::ConnectionError(_) => (INTERNAL_ERROR_TITLE, INTERNAL_ERROR_MESSAGE),
            ProxyError::HttpCommError => (INTERNAL_ERROR_TITLE, INTERNAL_ERROR_MESSAGE),
            ProxyError::ConfigError => (CONFIG_UNAVAILABLE_TITLE, CONFIG_UNAVAILABLE_MESSAGE),
            ProxyError::NoForwardingRules => (NO_RULES_TITLE, NO_RULES_MESSAGE),
        };
        create_error_response(self.status_code(), message, title)
    }
}

/// The HTML error page with this status, message and title.
pub fn create_error_response(status_code: u16, message: &str, title: &str) -> (r: PageResponse)
    ensures
        is_page(r, status_code, true, error_page_body(status_code, message@, title@)),
{
    http_error_response(status_code, message.to_owned(), title.to_owned())
}

pub const HTTPS_GREETING: &'static str = "Hello, HTTPS!";

/// The answer of the TLS listener while it serves no forwarding: status
/// 200 and a fixed greeting.
pub fn handle_https_connections() -> (r: PageResponse)
    ensures
        is_page(r, 200, false, HTTPS_GREETING@),
{
    PageResponse { status_code: 200, html_content_type: false, body: String::from_str(HTTPS_GREETING) }
}

/// A byte a Host header may hold: visible ASCII or a tab.
pub open spec fn visible_ascii(b: u8) -> bool {
    (32 <= b && b < 127) || b == 9
}

pub open spec fn valid_host_header(h: Seq<u8>) -> bool {
    forall|i: int| 0 <= i < h.len() ==> visible_ascii(#[trigger] h[i])
}

/// The characters of ASCII bytes.
pub open spec fn ascii_chars(h: Seq<u8>) -> Seq<char> {
    h.map_values(|b: u8| b as char)
}

/// The host named by the Host header's bytes, which must be present and
/// visible ASCII.
pub fn extract_host(header: Option<&[u8]>) -> (r: Result<String, ProxyError>)
    ensures
        match header {
            Some(h) => if valid_host_header(h@) {
                r matches Ok(s) && s@ == ascii_chars(h@)
            } else {
                r matches Err(ProxyError::HostError)
            },
            None => r matches Err(ProxyError::HostError),
        },
{
    match header {
        None => Err(ProxyError::HostError),
        Some(h) => {
            let mut cs: Vec<char> = Vec::new();
            let mut i: usize = 0;
            while i < h.len()
                invariant
                    header == Some(h),
                    i <= h@.len(),
                    cs@ == ascii_chars(h@.take(i as int)),
                    forall|j: int| 0 <= j < i ==> visible_ascii(#[trigger] h@[j]),
                decreases h.len() - i,
            {
                let b = h[i];
                if !((32 <= b && b < 127) || b == 9) {
                    assert(!visible_ascii(h@[i as int]));
                    return Err(ProxyError::HostError);
                }
                cs.push(b as char);
                i = i + 1;
                assert(ascii_chars(h@.take(i as int)) =~= ascii_chars(h@.take(i - 1)).push(
                    b as char,
                ));
            }
            assert(h@.take(i as int) =~= h@);
            Ok(string_of(&cs))
        },
    }
}

/// What the proxy does with a request.
#[derive(Debug, Clone)]
pub enum Dispatch {
    /// Answer with this page.
    Respond(PageResponse),
    /// Answer 429 with the rate-limit page for this client and wait.
    RateLimited { client_ip: String, seconds: u64 },
    /// Answer 404 with the content of this configured static page.
    StaticFile(String),
    /// Forward the request to this backend address.
    Forward(String),
}

/// `r` is what a request for a host that resolved to `out` leads to.
pub open spec fn routed(out: ResolveOutcome, static_dir: Option<String>, r: Dispatch) -> bool {
    match out {
        ResolveOutcome::Matched(t) => r matches Dispatch::Forward(x) && x@ == t@,
        ResolveOutcome::NoRulesConfigured => match static_dir {
            Some(d) => r matches Dispatch::StaticFile(p) && p@ == d@,
            None => r matches Dispatch::Respond(p) && is_page(p, 404, false, DEFAULT_PAGE@),
        },
        ResolveOutcome::NoMatch => r matches Dispatch::Respond(p) && is_error_page(
            p,
            ProxyError::RuleNotFound,
        ),
    }
}

/// `r` is what a request for `host` and `path` from `client` leads to, the
/// buckets going from `before` to `after`: admission first; only an
/// admitted request is routed.
pub open spec fn dispatched(
    configs: Configs,
    host: Seq<char>,
    path: Seq<char>,
    client: Seq<char>,
    before: Map<Seq<char>, Ratelimiter>,
    after: Map<Seq<char>, Ratelimiter>,
    r: Dispatch,
) -> bool {
    exists|rr: RateLimitResponse|
        #[trigger] admission(configs.rate_limit_rules, host, path, client, before, after, rr) && if rr.status_code
            == 200 {
            exists|out: ResolveOutcome|
                #[trigger] resolves_to(rules_view(configs.forwarding_rules), host, out) && routed(
                    out,
                    configs.static_files_directory,
                    r,
                )
        } else {
            r matches Dispatch::RateLimited { client_ip, seconds } && client_ip@ == client
                && seconds == rr.seconds
        }
}

/// Decides what to do with one request, given its Host header's bytes, its
/// path and its client's address. A missing or invalid Host header is
/// answered 400; otherwise admission control runs first, and an admitted
/// request is routed by the forwarding rules.
pub fn handle_http_connections(
    host_header: Option<&[u8]>,
    path: &str,
    client_ip: &str,
    registry: &mut RateLimiterRegistry,
    configs: &Configs,
) -> (r: Dispatch)
    requires
        old(registry).wf(),
    ensures
        final(registry).wf(),
        match host_header {
            Some(h) => if valid_host_header(h@) {
                dispatched(
                    *configs,
                    ascii_chars(h@),
                    path@,
                    client_ip@,
                    old(registry).view(),
                    final(registry).view(),
                    r,
                )
            } else {
                final(registry).view() == old(registry).view() && (r matches Dispatch::Respond(p)
                    && is_error_page(p, ProxyError::HostError))
            },
            None => final(registry).view() == old(registry).view() && (r matches Dispatch::Respond(p)
                && is_error_page(p, ProxyError::HostError)),
        },
{
    let host = match extract_host(host_header) {
        Ok(h) => h,
        Err(e) => {
            return Dispatch::Respond(e.error_page());
        },
    };
    let rr = enforce_rate_limit(host.as_str(), path, client_ip, registry, configs);
    if rr.status_code != 200 {
        let r = Dispatch::RateLimited { client_ip: client_ip.to_owned(), seconds: rr.seconds };
        assert(admission(
            configs.rate_limit_rules,
            host@,
            path@,
            client_ip@,
            old(registry).view(),
            registry.view(),
            rr,
        ));
        return r;
    }
    let out = resolve(&configs.forwarding_rules, host.as_str());
    let r = match &out {
        ResolveOutcome::Matched(t) => Dispatch::Forward(t.clone()),
        ResolveOutcome::NoRulesConfigured => match &configs.static_files_directory {
            Some(d) => Dispatch::StaticFile(d.clone()),
            None => Dispatch::Respond(show_default_page()),
        },
        ResolveOutcome::NoMatch => Dispatch::Respond(ProxyError::RuleNotFound.error_page()),
    };
    assert(resolves_to(rules_view(configs.forwarding_rules), host@, out) && routed(
        out,
        configs.static_files_directory,
        r,
    ));
    assert(admission(
        configs.rate_limit_rules,
        host@,
        path@,
        client_ip@,
        old(registry).view(),
        registry.view(),
        rr,
    ));
    r
}

} // verus!
