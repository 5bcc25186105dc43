//! Admission control: which rate-limit rule governs a request, and whether
//! the client's bucket lets it through.
use vstd::prelude::*;
use crate::config::{Configs, RateLimitRule};
use crate::limiter::{
    Acquire, RateLimiterRegistry, acquisition, bucket_next_refill, bucket_tokens, fresh_bucket,
    took_token, usable_params,
};
use crate::text::{decimal, decimal_string, is_prefix, starts_with};
use ratelimit::Ratelimiter;
use vstd::arithmetic::div_mod::{lemma_fundamental_div_mod, lemma_fundamental_div_mod_converse};

verus! {

/// The decision on one request.
#[derive(Debug, Clone)]
pub struct RateLimitResponse {
    /// Empty when admitted, a short explanation when not.
    pub response: String,
    /// 200 when admitted, 429 when not.
    pub status_code: u16,
    /// Seconds until a retry may succeed; 0 when admitted.
    pub seconds: u64,
}

/// The host of the rule that applies when no rule names the request's host.
pub const WILDCARD_HOST: &'static str = "*";

pub const NANOS_PER_SEC: u128 = 1_000_000_000;

/// `rules[i]` is the first rule for exactly `host`.
pub open spec fn is_first_for(rules: Seq<RateLimitRule>, host: Seq<char>, i: int) -> bool {
    &&& 0 <= i < rules.len()
    &&& rules[i].host@ == host
    &&& forall|j: int| 0 <= j < i ==> rules[j].host@ != host
}

pub open spec fn has_rule_for(rules: Seq<RateLimitRule>, host: Seq<char>) -> bool {
    exists|i: int| 0 <= i < rules.len() && rules[i].host@ == host
}

/// `rules[i]` governs requests for `host`: the first rule for the host, or
/// failing that the first wildcard rule.
pub open spec fn is_selected(rules: Seq<RateLimitRule>, host: Seq<char>, i: int) -> bool {
    is_first_for(rules, host, i) || (!has_rule_for(rules, host) && is_first_for(
        rules,
        WILDCARD_HOST@,
        i,
    ))
}

/// No rule governs requests for `host`.
pub open spec fn no_rule_applies(rules: Seq<RateLimitRule>, host: Seq<char>) -> bool {
    !has_rule_for(rules, host) && !has_rule_for(rules, WILDCARD_HOST@)
}

/// The request's path starts with an excluded path, or its client is an
/// excluded address.
pub open spec fn is_excluded(rule: RateLimitRule, path: Seq<char>, client: Seq<char>) -> bool {
    (exists|j: int|
        0 <= j < rule.excluded_paths@.len() && is_prefix(
            #[trigger] rule.excluded_paths@[j]@,
            path,
        )) || (exists|j: int|
        0 <= j < rule.excluded_ip_list@.len() && #[trigger] rule.excluded_ip_list@[j]@ == client)
}

pub open spec fn is_admitted(r: RateLimitResponse) -> bool {
    r.status_code == 200 && r.seconds == 0 && r.response@.len() == 0
}

/// Whole seconds covering `nanos`, at most `u64::MAX`.
pub open spec fn ceil_secs(nanos: nat) -> nat {
    let s = (nanos + 999_999_999) / 1_000_000_000;
    if s > u64::MAX { u64::MAX as nat } else { s }
}

pub open spec fn rejection_message(seconds: nat) -> Seq<char> {
    "Rate limit exceeded. Try again in "@ + decimal(seconds) + " seconds"@
}

pub open spec fn is_rejected(r: RateLimitResponse, seconds: nat) -> bool {
    r.status_code == 429 && r.seconds == seconds && r.response@ == rejection_message(seconds)
}

/// `r` is the response to the token outcome `a` under a rule with window
/// `duration`.
pub open spec fn response_for(a: Acquire, duration: u64, r: RateLimitResponse) -> bool {
    match a {
        Acquire::Admitted => is_admitted(r),
        Acquire::Wait(n) => is_rejected(r, ceil_secs(n as nat)),
        Acquire::Unusable => is_rejected(r, duration as nat),
    }
}

/// What the rule `rule` does with a request from `client` for `path`.
pub open spec fn governed(
    rule: RateLimitRule,
    path: Seq<char>,
    client: Seq<char>,
    before: Map<Seq<char>, Ratelimiter>,
    after: Map<Seq<char>, Ratelimiter>,
    r: RateLimitResponse,
) -> bool {
    if is_excluded(rule, path, client) {
        is_admitted(r) && after == before
    } else if !usable_params(rule.limit, rule.duration, rule.max_tokens) {
        is_rejected(r, rule.duration as nat) && after == before
    } else {
        exists|a: Acquire|
            acquisition(before, after, client, rule.limit, rule.duration, rule.max_tokens, a)
                && #[trigger] response_for(a, rule.duration, r)
    }
}

/// The admission decision on a request for `host` and `path` from `client`,
/// which took the buckets from `before` to `after`.
pub open spec fn admission(
    rules: Option<Vec<RateLimitRule>>,
    host: Seq<char>,
    path: Seq<char>,
    client: Seq<char>,
    before: Map<Seq<char>, Ratelimiter>,
    after: Map<Seq<char>, Ratelimiter>,
    r: RateLimitResponse,
) -> bool {
    match rules {
        None => is_admitted(r) && after == before,
        Some(rs) => {
            &&& no_rule_applies(rs@, host) ==> is_admitted(r) && after == before
            &&& forall|i: int|
                #[trigger] is_selected(rs@, host, i) ==> governed(
                    rs@[i],
                    path,
                    client,
                    before,
                    after,
                    r,
                )
        },
    }
}

/// Whole seconds covering `nanos`, at most `u64::MAX`.
pub fn retry_after_seconds(nanos: u128) -> (r: u64)
    ensures
        r == ceil_secs(nanos as nat),
{
    let whole = nanos / NANOS_PER_SEC;
    let rem = nanos % NANOS_PER_SEC;
    let s: u128 = if rem != 0 { whole + 1 } else { whole };
    proof {
        let x = nanos as int + 999_999_999;
        assert(nanos as int == whole as int * 1_000_000_000 + rem as int) by {
            lemma_fundamental_div_mod(nanos as int, 1_000_000_000);
        }
        if rem != 0 {
            lemma_fundamental_div_mod_converse(x, 1_000_000_000, whole + 1, rem - 1);
        } else {
            lemma_fundamental_div_mod_converse(x, 1_000_000_000, whole as int, 999_999_999);
        }
    }
    if s > 18_446_744_073_709_551_615u128 { u64::MAX } else { s as u64 }
}

/// An admitted request.
pub fn admitted_response() -> (r: RateLimitResponse)
    ensures
        is_admitted(r),
{
    RateLimitResponse { response: String::new(), status_code: 200, seconds: 0 }
}

/// A rejected request that may retry after `seconds`.
pub fn rejected_response(seconds: u64) -> (r: RateLimitResponse)
    ensures
        is_rejected(r, seconds as nat),
{
    let mut msg = String::from_str("Rate limit exceeded. Try again in ");
    let secs = decimal_string(seconds);
    msg.append(secs.as_str());
    msg.append(" seconds");
    RateLimitResponse { response: msg, status_code: 429, seconds }
}

/// The response to the token outcome `a` under a rule with window `duration`:
/// admitted when a token was taken; otherwise 429, to retry after the wait
/// rounded up to whole seconds, or after the window when the rule cannot make
/// a bucket.
pub fn rate_limit_decision(a: Acquire, duration: u64) -> (r: RateLimitResponse)
    ensures
        response_for(a, duration, r),
{
    match a {
        Acquire::Admitted => admitted_response(),
        Acquire::Wait(n) => rejected_response(retry_after_seconds(n)),
        Acquire::Unusable => rejected_response(duration),
    }
}

/// The index of the first rule for exactly `host`.
fn first_rule_for(rules: &Vec<RateLimitRule>, host: &str) -> (r: Option<usize>)
    ensures
        match r {
            Some(i) => is_first_for(rules@, host@, i as int),
            None => !has_rule_for(rules@, host@),
        },
{
    let h = host.to_owned();
    let mut i: usize = 0;
    while i < rules.len()
        invariant
            i <= rules.len(),
            h@ == host@,
            forall|j: int| 0 <= j < i ==> rules@[j].host@ != host@,
        decreases rules.len() - i,
    {
        if rules[i].host == h {
            return Some(i);
        }
        i = i + 1;
    }
    None
}

/// The index of the rule that governs requests for `host`.
pub fn select_rule(rules: &Vec<RateLimitRule>, host: &str) -> (r: Option<usize>)
    ensures
        match r {
            Some(i) => is_selected(rules@, host@, i as int),
            None => no_rule_applies(rules@, host@),
        },
{
    match first_rule_for(rules, host) {
        Some(i) => Some(i),
        None => first_rule_for(rules, WILDCARD_HOST),
    }
}

/// Whether the request escapes `rule`: its path starts with an excluded
/// path, or its client is excluded.
pub fn is_excluded_request(rule: &RateLimitRule, path: &str, client: &str) -> (r: bool)
    ensures
        r == is_excluded(*rule, path@, client@),
{
    let mut j: usize = 0;
    while j < rule.excluded_paths.len()
        invariant
            j <= rule.excluded_paths@.len(),
            forall|k: int| 0 <= k < j ==> !is_prefix(#[trigger] rule.excluded_paths@[k]@, path@),
        decreases rule.excluded_paths.len() - j,
    {
        if starts_with(path, rule.excluded_paths[j].as_str()) {
            return true;
        }
        j = j + 1;
    }
    let c = client.to_owned();
    let mut j: usize = 0;
    while j < rule.excluded_ip_list.len()
        invariant
            j <= rule.excluded_ip_list@.len(),
            c@ == client@,
            forall|k: int| 0 <= k < j ==> #[trigger] rule.excluded_ip_list@[k]@ != client@,
            forall|k: int|
                0 <= k < rule.excluded_paths@.len() ==> !is_prefix(
                    #[trigger] rule.excluded_paths@[k]@,
                    path@,
                ),
        decreases rule.excluded_ip_list.len() - j,
    {
        if rule.excluded_ip_list[j] == c {
            return true;
        }
        j = j + 1;
    }
    false
}

/// Whether `rule` can make buckets; requests it governs are denied when not.
pub fn rule_is_usable(rule: &RateLimitRule) -> (r: bool)
    ensures
        r == usable_params(rule.limit, rule.duration, rule.max_tokens),
{
    1 <= rule.duration && rule.duration <= 4_294_967_295 && 1 <= rule.limit && rule.limit
        <= 4_294_967_295 && rule.limit <= rule.max_tokens
}

/// Decides whether a request for `host` and `path` from `client_ip` may
/// proceed. With no rule for the host and no wildcard rule it is admitted;
/// excluded paths and clients are admitted; a governing rule that cannot
/// make buckets (zero limit or window, limit above the capacity, or values
/// beyond what the bucket arithmetic holds) denies; otherwise the client's
/// bucket, created from the governing rule on first sight, must give a token.
pub fn enforce_rate_limit(
    host: &str,
    path: &str,
    client_ip: &str,
    registry: &mut RateLimiterRegistry,
    config: &Configs,
) -> (r: RateLimitResponse)
    requires
        old(registry).wf(),
    ensures
        final(registry).wf(),
        admission(
            config.rate_limit_rules,
            host@,
            path@,
            client_ip@,
            old(registry).view(),
            final(registry).view(),
            r,
        ),
{
    match &config.rate_limit_rules {
        None => admitted_response(),
        Some(rules) => match select_rule(rules, host) {
            None => admitted_response(),
            Some(i) => {
                let rule = &rules[i];
                proof {
                    assert forall|j: int| #[trigger] is_selected(rules@, host@, j) implies j
                        == i by {
                        if rules@[i as int].host@ == host@ {
                            assert(has_rule_for(rules@, host@));
                        }
                        if rules@[j].host@ == host@ {
                            assert(has_rule_for(rules@, host@));
                        }
                    }
                }
                if is_excluded_request(rule, path, client_ip) {
                    admitted_response()
                } else if !rule_is_usable(rule) {
                    rejected_response(rule.duration)
                } else {
                    let a = registry.try_acquire(
                        client_ip,
                        rule.limit,
                        rule.duration,
                        rule.max_tokens,
                    );
                    let r = rate_limit_decision(a, rule.duration);
                    assert(response_for(a, rule.duration, r));
                    r
                }
            },
        },
    }
}

proof fn lemma_tokens_left(
    rule: RateLimitRule,
    client: Seq<char>,
    path: Seq<char>,
    states: Seq<Map<Seq<char>, Ratelimiter>>,
    responses: Seq<RateLimitResponse>,
    k: int,
)
    requires
        usable_params(rule.limit, rule.duration, rule.max_tokens),
        !is_excluded(rule, path, client),
        !states[0].contains_key(client),
        states.len() == responses.len() + 1,
        responses.len() <= rule.limit,
        forall|j: int|
            0 <= j < responses.len() ==> governed(
                rule,
                path,
                client,
                states[j],
                states[j + 1],
                #[trigger] responses[j],
            ),
        0 <= k <= responses.len(),
    ensures
        k > 0 ==> states[k].contains_key(client) && bucket_tokens(states[k][client]) + k
            >= rule.limit,
        forall|j: int| 0 <= j < k ==> is_admitted(#[trigger] responses[j]),
    decreases k,
{
    if k > 0 {
        let j = k - 1;
        lemma_tokens_left(rule, client, path, states, responses, j);
        assert(governed(rule, path, client, states[j], states[j + 1], responses[j]));
        let a = choose|a: Acquire|
            acquisition(
                states[j],
                states[j + 1],
                client,
                rule.limit,
                rule.duration,
                rule.max_tokens,
                a,
            ) && #[trigger] response_for(a, rule.duration, responses[j]);
        if j == 0 {
            let b = choose|b: Ratelimiter|
                fresh_bucket(b, rule.limit, rule.duration, rule.max_tokens) && #[trigger] took_token(
                    b,
                    states[1][client],
                    a,
                );
        }
        assert(a is Admitted);
    }
}

/// A client seen for the first time, whose requests a usable rule governs
/// and does not exclude, is admitted on each of its first `limit` requests,
/// whatever time passes between them.
pub proof fn lemma_fresh_bucket_admits_limit(
    rule: RateLimitRule,
    client: Seq<char>,
    path: Seq<char>,
    states: Seq<Map<Seq<char>, Ratelimiter>>,
    responses: Seq<RateLimitResponse>,
)
    requires
        usable_params(rule.limit, rule.duration, rule.max_tokens),
        !is_excluded(rule, path, client),
        !states[0].contains_key(client),
        states.len() == responses.len() + 1,
        responses.len() <= rule.limit,
        forall|j: int|
            0 <= j < responses.len() ==> governed(
                rule,
                path,
                client,
                states[j],
                states[j + 1],
                #[trigger] responses[j],
            ),
    ensures
        forall|j: int| 0 <= j < responses.len() ==> is_admitted(#[trigger] responses[j]),
{
    lemma_tokens_left(rule, client, path, states, responses, responses.len() as int);
}

proof fn lemma_tokens_counted(
    rule: RateLimitRule,
    client: Seq<char>,
    path: Seq<char>,
    states: Seq<Map<Seq<char>, Ratelimiter>>,
    responses: Seq<RateLimitResponse>,
    k: int,
)
    requires
        usable_params(rule.limit, rule.duration, rule.max_tokens),
        !is_excluded(rule, path, client),
        states.len() == responses.len() + 1,
        states[0].contains_key(client),
        bucket_tokens(states[0][client]) + 1 == responses.len(),
        forall|j: int|
            0 <= j < responses.len() ==> governed(
                rule,
                path,
                client,
                states[j],
                states[j + 1],
                #[trigger] responses[j],
            ),
        forall|j: int|
            0 <= j < states.len() ==> bucket_next_refill(#[trigger] states[j][client])
                == bucket_next_refill(states[0][client]),
        0 <= k < states.len(),
    ensures
        states[k].contains_key(client),
        bucket_tokens(states[k][client]) + k == bucket_tokens(states[0][client]) || k
            == responses.len(),
        forall|j: int| 0 <= j < k && j + 1 < responses.len() ==> is_admitted(#[trigger] responses[j]),
        k == responses.len() ==> is_rejected(
            responses[k - 1],
            responses[k - 1].seconds as nat,
        ) && responses[k - 1].seconds >= 1,
    decreases k,
{
    if k > 0 {
        let j = k - 1;
        lemma_tokens_counted(rule, client, path, states, responses, j);
        assert(governed(rule, path, client, states[j], states[j + 1], responses[j]));
        let a = choose|a: Acquire|
            acquisition(
                states[j],
                states[j + 1],
                client,
                rule.limit,
                rule.duration,
                rule.max_tokens,
                a,
            ) && #[trigger] response_for(a, rule.duration, responses[j]);
        assert(bucket_next_refill(states[k][client]) == bucket_next_refill(states[j][client]));
        if j + 1 < responses.len() {
            assert(a is Admitted);
        } else {
            assert(!(a is Admitted));
            if let Acquire::Wait(n) = a {
                assert(ceil_secs(n as nat) >= 1);
            }
        }
    }
}

/// Token conservation: a client whose bucket holds `n` tokens, making
/// `n + 1` requests that a usable rule governs and does not exclude while no
/// refill falls due (the bucket's next refill stays where it was), is
/// admitted on exactly the first `n` and rejected on the last, with a wait
/// of at least one second.
pub proof fn lemma_bucket_conservation(
    rule: RateLimitRule,
    client: Seq<char>,
    path: Seq<char>,
    states: Seq<Map<Seq<char>, Ratelimiter>>,
    responses: Seq<RateLimitResponse>,
)
    requires
        usable_params(rule.limit, rule.duration, rule.max_tokens),
        !is_excluded(rule, path, client),
        states.len() == responses.len() + 1,
        states[0].contains_key(client),
        bucket_tokens(states[0][client]) + 1 == responses.len(),
        forall|j: int|
            0 <= j < responses.len() ==> governed(
                rule,
                path,
                client,
                states[j],
                states[j + 1],
                #[trigger] responses[j],
            ),
        forall|j: int|
            0 <= j < states.len() ==> bucket_next_refill(#[trigger] states[j][client])
                == bucket_next_refill(states[0][client]),
    ensures
        forall|j: int| 0 <= j < responses.len() - 1 ==> is_admitted(#[trigger] responses[j]),
        responses.last().status_code == 429,
        responses.last().seconds >= 1,
{
    lemma_tokens_counted(rule, client, path, states, responses, responses.len() as int);
}

/// Under a usable rule a rejected request is always told to wait at least
/// one second.
pub proof fn lemma_rejection_waits(
    rule: RateLimitRule,
    client: Seq<char>,
    path: Seq<char>,
    before: Map<Seq<char>, Ratelimiter>,
    after: Map<Seq<char>, Ratelimiter>,
    r: RateLimitResponse,
)
    requires
        usable_params(rule.limit, rule.duration, rule.max_tokens),
        governed(rule, path, client, before, after, r),
        r.status_code != 200,
    ensures
        r.status_code == 429,
        r.seconds >= 1,
{
    let a = choose|a: Acquire|
        acquisition(before, after, client, rule.limit, rule.duration, rule.max_tokens, a)
            && #[trigger] response_for(a, rule.duration, r);
    if let Acquire::Wait(n) = a {
        assert(n > 0);
        assert(ceil_secs(n as nat) >= 1);
    }
}

/// Requests that no rate-limit rule governs are admitted and leave every
/// bucket as it was.
pub proof fn lemma_fail_open(
    rules: Option<Vec<RateLimitRule>>,
    host: Seq<char>,
    path: Seq<char>,
    client: Seq<char>,
    before: Map<Seq<char>, Ratelimiter>,
    after: Map<Seq<char>, Ratelimiter>,
    r: RateLimitResponse,
)
    requires
        admission(rules, host, path, client, before, after, r),
        rules is None || no_rule_applies(rules.unwrap()@, host),
    ensures
        is_admitted(r),
        after == before,
{
}

/// Requests on an excluded path or from an excluded client of the
/// governing rule are admitted and leave every bucket as it was.
pub proof fn lemma_exclusion_bypass(
    rules: Vec<RateLimitRule>,
    i: int,
    host: Seq<char>,
    path: Seq<char>,
    client: Seq<char>,
    before: Map<Seq<char>, Ratelimiter>,
    after: Map<Seq<char>, Ratelimiter>,
    r: RateLimitResponse,
)
    requires
        admission(Some(rules), host, path, client, before, after, r),
        is_selected(rules@, host, i),
        is_excluded(rules@[i], path, client),
    ensures
        is_admitted(r),
        after == before,
{
}

} // verus!
