use sheldx::config::{default_configs, Configs, ConfigWarning, ForwardingRule, RateLimitRule, RateLimitStrategy};
use sheldx::connector::{AttemptFailure, ForwardRetry, ForwardStep, POWERED_BY_HEADER, POWERED_BY_VALUE};
use sheldx::dispatch::{extract_host, handle_http_connections, handle_https_connections, Dispatch, ProxyError};
use sheldx::limiter::RateLimiterRegistry;
use sheldx::pages::{http_error_response, render_rate_limit_page, show_default_page, DEFAULT_PAGE};
use sheldx::resolve::{get_forwarding_rule, resolve, ResolveOutcome};
use sheldx::server::{start_plan, Server, StartError, WithTLS, WithoutTLS, PORTS};
use sheldx::text::{decimal_string, replace_all, starts_with};

fn fwd(host: &str, target: &str) -> ForwardingRule {
    ForwardingRule { host: host.to_string(), target: target.to_string() }
}

fn configs(rules: Option<Vec<ForwardingRule>>, static_dir: Option<&str>) -> Configs {
    Configs {
        cert_path: String::new(),
        key_path: String::new(),
        is_tls_enabled: false,
        show_logs_on_console: false,
        forwarding_rules: rules,
        static_files_directory: static_dir.map(|s| s.to_string()),
        rate_limit_rules: None,
    }
}

#[test]
fn should_show_default_page() {
    let response = show_default_page();
    assert_eq!(response.status_code, 404);
    assert!(response.body.contains("404"));
    assert!(response.body.contains("Not Found"));
}

#[test]
fn first_matching_forwarding_rule_wins() {
    let rules = Some(vec![fwd("a.test", "127.0.0.1:1"), fwd("a.test", "127.0.0.1:2"), fwd("b.test", "127.0.0.1:3")]);
    let r = get_forwarding_rule(&rules, "a.test").unwrap();
    assert_eq!((r.host.as_str(), r.target.as_str()), ("a.test", "127.0.0.1:1"));
    assert_eq!(get_forwarding_rule(&rules, "b.test").unwrap().target, "127.0.0.1:3");
    assert_eq!(
        get_forwarding_rule(&rules, "c.test").unwrap_err(),
        "The requested URL was not found on this server"
    );
    assert_eq!(
        get_forwarding_rule(&None, "a.test").unwrap_err(),
        "No forwarding rules are configured on this server"
    );
    assert_eq!(
        get_forwarding_rule(&Some(vec![]), "a.test").unwrap_err(),
        "No forwarding rules are configured on this server"
    );
}

#[test]
fn resolution_outcomes() {
    let rules = Some(vec![fwd("a.test", "127.0.0.1:9001")]);
    assert!(matches!(resolve(&rules, "a.test"), ResolveOutcome::Matched(t) if t == "127.0.0.1:9001"));
    assert!(matches!(resolve(&rules, "A.test"), ResolveOutcome::NoMatch));
    assert!(matches!(resolve(&None, "a.test"), ResolveOutcome::NoRulesConfigured));
    assert!(matches!(resolve(&Some(vec![]), "a.test"), ResolveOutcome::NoRulesConfigured));
}

#[test]
fn resolution_is_the_same_on_every_call() {
    let rules = Some(vec![fwd("x.test", "10.0.0.1:80"), fwd("a.test", "10.0.0.2:80")]);
    for host in ["a.test", "x.test", "zzz"] {
        let a = format!("{:?}", resolve(&rules, host));
        let b = format!("{:?}", resolve(&rules, host));
        assert_eq!(a, b);
    }
}

#[test]
fn forward_success_scenario_routes_to_the_backend() {
    let cfg = configs(Some(vec![fwd("a.test", "127.0.0.1:9001")]), None);
    let mut reg = RateLimiterRegistry::new();
    let d = handle_http_connections(Some(b"a.test"), "/", "1.1.1.1", &mut reg, &cfg);
    assert!(matches!(d, Dispatch::Forward(t) if t == "127.0.0.1:9001"));
    assert_eq!(POWERED_BY_HEADER, "x-powered-by");
    assert_eq!(POWERED_BY_VALUE, "sheldx Services");
}

#[test]
fn rate_limited_request_is_not_routed() {
    let mut cfg = configs(Some(vec![fwd("a.test", "127.0.0.1:9001")]), None);
    cfg.rate_limit_rules = Some(vec![RateLimitRule {
        host: "a.test".to_string(),
        limit: 1,
        duration: 60,
        max_tokens: 1,
        excluded_paths: vec![],
        excluded_ip_list: vec![],
        strategy: RateLimitStrategy::HashMap,
    }]);
    let mut reg = RateLimiterRegistry::new();
    let first = handle_http_connections(Some(b"a.test"), "/", "9.9.9.9", &mut reg, &cfg);
    assert!(matches!(first, Dispatch::Forward(_)));
    let second = handle_http_connections(Some(b"a.test"), "/", "9.9.9.9", &mut reg, &cfg);
    match second {
        Dispatch::RateLimited { client_ip, seconds } => {
            assert_eq!(client_ip, "9.9.9.9");
            assert!(seconds >= 59 && seconds <= 60);
        }
        other => panic!("expected a rate-limit answer, got {:?}", other),
    }
}

#[test]
fn no_rules_and_no_static_dir_answers_default_page() {
    let cfg = configs(None, None);
    let mut reg = RateLimiterRegistry::new();
    match handle_http_connections(Some(b"a.test"), "/", "1.1.1.1", &mut reg, &cfg) {
        Dispatch::Respond(p) => {
            assert_eq!(p.status_code, 404);
            assert_eq!(p.body, DEFAULT_PAGE);
        }
        other => panic!("expected the default page, got {:?}", other),
    }
    let empty = configs(Some(vec![]), None);
    assert!(matches!(
        handle_http_connections(Some(b"a.test"), "/", "1.1.1.1", &mut reg, &empty),
        Dispatch::Respond(p) if p.status_code == 404 && p.body == DEFAULT_PAGE
    ));
}

#[test]
fn no_rules_with_static_dir_serves_it() {
    let cfg = configs(None, Some("/srv/index.html"));
    let mut reg = RateLimiterRegistry::new();
    assert!(matches!(
        handle_http_connections(Some(b"a.test"), "/", "1.1.1.1", &mut reg, &cfg),
        Dispatch::StaticFile(p) if p == "/srv/index.html"
    ));
}

#[test]
fn unknown_host_answers_not_found_page() {
    let cfg = configs(Some(vec![fwd("a.test", "127.0.0.1:9001")]), None);
    let mut reg = RateLimiterRegistry::new();
    match handle_http_connections(Some(b"b.test"), "/", "1.1.1.1", &mut reg, &cfg) {
        Dispatch::Respond(p) => {
            assert_eq!(p.status_code, 404);
            assert!(p.html_content_type);
            assert!(p.body.contains("Sorry the page you are looking for is not found"));
            assert!(p.body.contains("<title>Page not found</title>"));
        }
        other => panic!("expected a not-found page, got {:?}", other),
    }
}

#[test]
fn missing_or_invalid_host_header_is_a_bad_request() {
    let cfg = configs(Some(vec![fwd("a.test", "127.0.0.1:9001")]), None);
    let mut reg = RateLimiterRegistry::new();
    for header in [None, Some(&b"a.te\x01st"[..]), Some(&b"caf\xc3\xa9"[..])] {
        match handle_http_connections(header, "/", "1.1.1.1", &mut reg, &cfg) {
            Dispatch::Respond(p) => assert_eq!(p.status_code, 400),
            other => panic!("expected a bad request, got {:?}", other),
        }
    }
    assert_eq!(extract_host(Some(b"a.test:8080")).unwrap(), "a.test:8080");
    assert_eq!(extract_host(Some(b"a\tb")).unwrap(), "a\tb");
    assert!(matches!(extract_host(None), Err(ProxyError::HostError)));
    assert!(matches!(extract_host(Some(b"a\x7fb")), Err(ProxyError::HostError)));
}

#[test]
fn unreachable_backend_gives_up_after_max_retries() {
    let (mut retry, step) = ForwardRetry::new(3);
    assert!(matches!(step, ForwardStep::Attempt));
    assert!(matches!(retry.on_failure(AttemptFailure::TimedOut), ForwardStep::Attempt));
    assert!(matches!(retry.on_failure(AttemptFailure::Handshake), ForwardStep::Attempt));
    assert_eq!(retry.attempts_made(), 3);
    let last = retry.on_failure(AttemptFailure::ConnectFailed("connection refused".to_string()));
    assert_eq!(retry.attempts_made(), 3);
    match last {
        ForwardStep::GiveUp(e) => {
            assert!(matches!(&e, ProxyError::ConnectionError(m) if m == "connection refused"));
            let page = e.error_page();
            assert_eq!(page.status_code, 500);
            assert!(page.body.contains("Internal Server Error"));
            assert!(!page.body.contains("connection refused"));
        }
        other => panic!("expected to give up, got {:?}", other),
    }
}

#[test]
fn retry_policy_edge_cases() {
    let (retry, step) = ForwardRetry::new(0);
    assert_eq!(retry.attempts_made(), 0);
    assert!(matches!(step, ForwardStep::GiveUp(ProxyError::ConnectionError(_))));
    let (mut one, _) = ForwardRetry::new(1);
    assert!(matches!(one.on_failure(AttemptFailure::Exchange), ForwardStep::GiveUp(ProxyError::HttpCommError)));
    let (mut t, _) = ForwardRetry::new(1);
    assert!(matches!(t.on_failure(AttemptFailure::TimedOut), ForwardStep::GiveUp(ProxyError::ConnectionError(m)) if m == "Connection timed out"));
}

#[test]
fn error_pages_by_kind() {
    assert_eq!(ProxyError::HostError.status_code(), 400);
    assert_eq!(ProxyError::ConfigError.status_code(), 404);
    assert_eq!(ProxyError::NoForwardingRules.status_code(), 404);
    assert_eq!(ProxyError::RuleNotFound.status_code(), 404);
    assert_eq!(ProxyError::HttpCommError.status_code(), 500);
    assert_eq!(ProxyError::ConnectionError("x".to_string()).error_page().status_code, 500);
    let config = ProxyError::ConfigError.error_page().body;
    let no_rules = ProxyError::NoForwardingRules.error_page().body;
    assert!(config.contains("The proxy configuration could not be loaded"));
    assert_ne!(config, no_rules);
}

#[test]
fn error_page_html_is_exact() {
    let p = http_error_response(418, "short and stout".to_string(), "Teapot".to_string());
    assert_eq!(p.status_code, 418);
    assert!(p.html_content_type);
    let expected = r#"<html>
        <head>
            <title>Teapot</title>
        </head>
        <body>
            <div style="display: flex; justify-content: center; align-items: center; height: 100vh;">
                <div style="text-align: center;">
                    <h1>418</h1>
                    <p>short and stout</p>
                </div>
            </div>
        </body>
    </html>"#;
    assert_eq!(p.body, expected);
}

#[test]
fn rate_limit_page_substitutes_placeholders() {
    let p = render_rate_limit_page("ip={{user_ip}} wait {{seconds}}s ({{seconds}}) {{other}}", "1.2.3.4", 42);
    assert_eq!(p.status_code, 429);
    assert_eq!(p.body, "ip=1.2.3.4 wait 42s (42) {{other}}");
    assert_eq!(render_rate_limit_page("", "x", 0).body, "");
}

#[test]
fn text_helpers() {
    assert_eq!(decimal_string(0), "0");
    assert_eq!(decimal_string(1234567890), "1234567890");
    assert_eq!(decimal_string(u64::MAX), u64::MAX.to_string());
    assert!(starts_with("/health/live", "/health"));
    assert!(starts_with("/x", ""));
    assert!(!starts_with("/he", "/health"));
    let out = replace_all(&"aaa".chars().collect(), &"aa".chars().collect(), &"b".chars().collect());
    assert_eq!(out.iter().collect::<String>(), "ba");
}

#[test]
fn default_configuration_values() {
    let c = default_configs();
    assert!(c.forwarding_rules.is_none());
    assert_eq!(c.static_files_directory.as_deref(), Some("/etc/sheldx/static/index.html"));
    let rules = c.rate_limit_rules.unwrap();
    assert_eq!(rules.len(), 2);
    assert_eq!((rules[0].host.as_str(), rules[0].limit, rules[0].duration, rules[0].max_tokens), ("api.example.com", 10, 60, 1000));
    assert_eq!(rules[0].excluded_ip_list, vec!["192.168.1.1".to_string()]);
    assert_eq!((rules[1].host.as_str(), rules[1].limit, rules[1].max_tokens), ("public.example.com", 5, 500));
    assert_eq!(rules[1].strategy, RateLimitStrategy::Redis);
    assert!(!c.is_tls_enabled && c.show_logs_on_console);
}

#[test]
fn configuration_warnings() {
    let mut c = default_configs();
    assert_eq!(c._check(true, true), vec![]);
    assert_eq!(c._check(false, true), vec![ConfigWarning::CertificateNotFound]);
    c.is_tls_enabled = true;
    assert_eq!(
        c._check(false, false),
        vec![ConfigWarning::CertificateNotFound, ConfigWarning::KeyNotFound, ConfigWarning::TlsPathsMissing]
    );
}

#[test]
fn server_ports_and_start_plan() {
    assert_eq!(WithoutTLS { port: None }.listen_port(), 8080);
    assert_eq!(WithoutTLS { port: Some(81) }.listen_port(), 81);
    assert_eq!(WithTLS { port: None }.listen_port(), 443);
    assert_eq!(PORTS::HTTPS.number(), 443);
    let mut c = default_configs();
    assert_eq!(start_plan(&c), Ok(WithoutTLS { port: Some(8080) }));
    c.is_tls_enabled = true;
    assert_eq!(start_plan(&c), Err(StartError::TlsNotSupported));
}

#[test]
fn https_listener_greets() {
    let p = handle_https_connections();
    assert_eq!(p.status_code, 200);
    assert_eq!(p.body, "Hello, HTTPS!");
}
