use sheldx::config::{Configs, RateLimitRule, RateLimitStrategy};
use sheldx::limiter::{Acquire, RateLimiterRegistry};
use sheldx::rate_limit::{enforce_rate_limit, rate_limit_decision, retry_after_seconds, select_rule};

fn rule(host: &str, limit: u64, duration: u64, max_tokens: u64) -> RateLimitRule {
    RateLimitRule {
        host: host.to_string(),
        limit,
        duration,
        max_tokens,
        excluded_paths: vec!["/health".to_string()],
        excluded_ip_list: vec!["10.0.0.9".to_string()],
        strategy: RateLimitStrategy::HashMap,
    }
}

fn configs_with(rules: Option<Vec<RateLimitRule>>) -> Configs {
    Configs {
        cert_path: String::new(),
        key_path: String::new(),
        is_tls_enabled: false,
        show_logs_on_console: false,
        forwarding_rules: None,
        static_files_directory: None,
        rate_limit_rules: rules,
    }
}

#[test]
fn rate_limited_scenario_second_request_waits_a_window() {
    let cfg = configs_with(Some(vec![rule("a.test", 1, 60, 1)]));
    let mut reg = RateLimiterRegistry::new();
    let first = enforce_rate_limit("a.test", "/", "1.2.3.4", &mut reg, &cfg);
    assert_eq!(first.status_code, 200);
    assert_eq!(first.seconds, 0);
    assert_eq!(first.response, "");
    let second = enforce_rate_limit("a.test", "/", "1.2.3.4", &mut reg, &cfg);
    assert_eq!(second.status_code, 429);
    assert!(second.seconds >= 59 && second.seconds <= 60);
    assert_eq!(
        second.response,
        format!("Rate limit exceeded. Try again in {} seconds", second.seconds)
    );
}

#[test]
fn bucket_admits_exactly_its_capacity_then_rejects() {
    let cfg = configs_with(Some(vec![rule("a.test", 3, 60, 3)]));
    let mut reg = RateLimiterRegistry::new();
    for _ in 0..3 {
        assert_eq!(enforce_rate_limit("a.test", "/x", "5.5.5.5", &mut reg, &cfg).status_code, 200);
    }
    let r = enforce_rate_limit("a.test", "/x", "5.5.5.5", &mut reg, &cfg);
    assert_eq!(r.status_code, 429);
    assert!(r.seconds > 0);
}

#[test]
fn exhausted_bucket_refills_after_a_window() {
    let cfg = configs_with(Some(vec![rule("a.test", 1, 1, 1)]));
    let mut reg = RateLimiterRegistry::new();
    assert_eq!(enforce_rate_limit("a.test", "/", "7.7.7.7", &mut reg, &cfg).status_code, 200);
    let r = enforce_rate_limit("a.test", "/", "7.7.7.7", &mut reg, &cfg);
    assert_eq!(r.status_code, 429);
    assert_eq!(r.seconds, 1);
    let start = std::time::Instant::now();
    while start.elapsed() < std::time::Duration::from_millis(1100) {}
    assert_eq!(enforce_rate_limit("a.test", "/", "7.7.7.7", &mut reg, &cfg).status_code, 200);
}

#[test]
fn excluded_path_and_client_bypass_an_empty_bucket() {
    let cfg = configs_with(Some(vec![rule("a.test", 1, 60, 1)]));
    let mut reg = RateLimiterRegistry::new();
    assert_eq!(enforce_rate_limit("a.test", "/", "2.2.2.2", &mut reg, &cfg).status_code, 200);
    assert_eq!(enforce_rate_limit("a.test", "/", "2.2.2.2", &mut reg, &cfg).status_code, 429);
    for _ in 0..5 {
        let r = enforce_rate_limit("a.test", "/health/live", "2.2.2.2", &mut reg, &cfg);
        assert_eq!(r.status_code, 200);
        assert_eq!(r.seconds, 0);
        assert_eq!(enforce_rate_limit("a.test", "/", "10.0.0.9", &mut reg, &cfg).status_code, 200);
    }
    assert!(!reg.contains("10.0.0.9"));
}

#[test]
fn host_without_rule_or_wildcard_is_admitted() {
    let cfg = configs_with(Some(vec![rule("a.test", 0, 60, 0)]));
    let mut reg = RateLimiterRegistry::new();
    for _ in 0..10 {
        assert_eq!(enforce_rate_limit("b.test", "/", "3.3.3.3", &mut reg, &cfg).status_code, 200);
    }
    assert!(!reg.contains("3.3.3.3"));
    let none = configs_with(None);
    assert_eq!(enforce_rate_limit("b.test", "/", "3.3.3.3", &mut reg, &none).status_code, 200);
}

#[test]
fn wildcard_rule_applies_when_no_host_rule_does() {
    let rules = vec![rule("a.test", 5, 60, 5), rule("*", 1, 60, 1)];
    assert_eq!(select_rule(&rules, "a.test"), Some(0));
    assert_eq!(select_rule(&rules, "c.test"), Some(1));
    assert_eq!(select_rule(&rules[..1].to_vec(), "c.test"), None);
    let cfg = configs_with(Some(rules));
    let mut reg = RateLimiterRegistry::new();
    assert_eq!(enforce_rate_limit("c.test", "/", "4.4.4.4", &mut reg, &cfg).status_code, 200);
    assert_eq!(enforce_rate_limit("c.test", "/", "4.4.4.4", &mut reg, &cfg).status_code, 429);
    assert!(reg.contains("4.4.4.4"));
}

#[test]
fn one_bucket_per_client_across_hosts() {
    let rules = vec![rule("a.test", 1, 60, 1), rule("b.test", 5, 60, 5)];
    let cfg = configs_with(Some(rules));
    let mut reg = RateLimiterRegistry::new();
    assert_eq!(enforce_rate_limit("a.test", "/", "6.6.6.6", &mut reg, &cfg).status_code, 200);
    assert_eq!(enforce_rate_limit("b.test", "/", "6.6.6.6", &mut reg, &cfg).status_code, 429);
    assert_eq!(enforce_rate_limit("b.test", "/", "6.6.6.7", &mut reg, &cfg).status_code, 200);
}

#[test]
fn misconfigured_rules_always_deny_without_panicking() {
    let zero_window = configs_with(Some(vec![rule("a.test", 1, 0, 1)]));
    let mut reg = RateLimiterRegistry::new();
    for _ in 0..3 {
        let r = enforce_rate_limit("a.test", "/", "8.8.8.8", &mut reg, &zero_window);
        assert_eq!(r.status_code, 429);
        assert_eq!(r.seconds, 0);
    }
    let small_bucket = configs_with(Some(vec![rule("a.test", 10, 60, 5)]));
    let r = enforce_rate_limit("a.test", "/", "8.8.8.8", &mut reg, &small_bucket);
    assert_eq!(r.status_code, 429);
    assert_eq!(r.seconds, 60);
    let zero_limit = configs_with(Some(vec![rule("a.test", 0, 60, 0)]));
    let r = enforce_rate_limit("a.test", "/", "8.8.8.8", &mut reg, &zero_limit);
    assert_eq!(r.status_code, 429);
    assert!(r.seconds >= 1);
}

#[test]
fn retry_after_rounds_up_to_whole_seconds() {
    assert_eq!(retry_after_seconds(0), 0);
    assert_eq!(retry_after_seconds(1), 1);
    assert_eq!(retry_after_seconds(1_000_000_000), 1);
    assert_eq!(retry_after_seconds(1_000_000_001), 2);
    assert_eq!(retry_after_seconds(59_999_999_999), 60);
    assert_eq!(retry_after_seconds(u128::MAX), u64::MAX);
}

#[test]
fn decision_for_each_token_outcome() {
    let ok = rate_limit_decision(Acquire::Admitted, 60);
    assert_eq!((ok.status_code, ok.seconds, ok.response.as_str()), (200, 0, ""));
    let wait = rate_limit_decision(Acquire::Wait(4_500_000_000), 60);
    assert_eq!(wait.status_code, 429);
    assert_eq!(wait.seconds, 5);
    assert_eq!(wait.response, "Rate limit exceeded. Try again in 5 seconds");
    let unusable = rate_limit_decision(Acquire::Unusable, 30);
    assert_eq!((unusable.status_code, unusable.seconds), (429, 30));
}

#[test]
fn registry_try_acquire_counts_tokens() {
    let mut reg = RateLimiterRegistry::new();
    assert!(!reg.contains("k"));
    assert_eq!(reg.try_acquire("k", 2, 60, 2), Acquire::Admitted);
    assert!(reg.contains("k"));
    assert_eq!(reg.try_acquire("k", 2, 60, 2), Acquire::Admitted);
    assert!(matches!(reg.try_acquire("k", 2, 60, 2), Acquire::Wait(n) if n > 0));
    assert_eq!(reg.try_acquire("j", 2, 0, 2), Acquire::Unusable);
    assert!(!reg.contains("j"));
}

#[test]
fn misconfigured_rule_denies_clients_that_already_hold_a_bucket() {
    let rules = vec![rule("a.test", 5, 60, 5), rule("b.test", 0, 60, 0), rule("c.test", 1, 0, 1)];
    let cfg = configs_with(Some(rules));
    let mut reg = RateLimiterRegistry::new();
    assert_eq!(enforce_rate_limit("a.test", "/", "6.1.1.1", &mut reg, &cfg).status_code, 200);
    let b = enforce_rate_limit("b.test", "/", "6.1.1.1", &mut reg, &cfg);
    assert_eq!((b.status_code, b.seconds), (429, 60));
    let c = enforce_rate_limit("c.test", "/", "6.1.1.1", &mut reg, &cfg);
    assert_eq!((c.status_code, c.seconds), (429, 0));
    assert_eq!(enforce_rate_limit("a.test", "/", "6.1.1.1", &mut reg, &cfg).status_code, 200);
}

#[test]
fn very_long_window_is_denied_without_panicking() {
    let cfg = configs_with(Some(vec![rule("a.test", 1, 18_446_744_073, 1)]));
    let mut reg = RateLimiterRegistry::new();
    let r = enforce_rate_limit("a.test", "/", "6.2.2.2", &mut reg, &cfg);
    assert_eq!((r.status_code, r.seconds), (429, 18_446_744_073));
    assert!(!reg.contains("6.2.2.2"));
    assert_eq!(reg.try_acquire("k", 1, 4_294_967_296, 1), Acquire::Unusable);
    assert_eq!(reg.try_acquire("k", 1, 4_294_967_295, 1), Acquire::Admitted);
}
