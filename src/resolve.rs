//! Matching a request's hostname against the forwarding rules.
use vstd::prelude::*;
use crate::config::ForwardingRule;

verus! {

/// The message of a lookup among rules none of which names the host.
pub const RULE_NOT_FOUND_MESSAGE: &'static str = "The requested URL was not found on this server";

/// The message of a lookup when no forwarding rule is configured at all.
pub const NO_RULES_CONFIGURED_MESSAGE: &'static str =
    "No forwarding rules are configured on this server";

/// `rules[i]` is the first rule whose host is exactly `host`.
pub open spec fn is_first_match(rules: Seq<ForwardingRule>, host: Seq<char>, i: int) -> bool {
    &&& 0 <= i < rules.len()
    &&& rules[i].host@ == host
    &&& forall|j: int| 0 <= j < i ==> rules[j].host@ != host
}

/// Some rule's host is exactly `host`.
pub open spec fn has_match(rules: Seq<ForwardingRule>, host: Seq<char>) -> bool {
    exists|i: int| 0 <= i < rules.len() && rules[i].host@ == host
}

/// What resolving a host against the forwarding rules leads to.
#[derive(Debug, Clone)]
pub enum ResolveOutcome {
    /// The target address of the first rule for the host.
    Matched(String),
    /// No forwarding rule is configured at all.
    NoRulesConfigured,
    /// Rules exist, none for this host.
    NoMatch,
}

/// `out` is what resolving `host` against `rules` yields.
pub open spec fn resolves_to(
    rules: Option<Seq<ForwardingRule>>,
    host: Seq<char>,
    out: ResolveOutcome,
) -> bool {
    match rules {
        None => out is NoRulesConfigured,
        Some(rs) => if rs.len() == 0 {
            out is NoRulesConfigured
        } else {
            match out {
                ResolveOutcome::Matched(t) => exists|i: int|
                    is_first_match(rs, host, i) && t@ == #[trigger] rs[i].target@,
                ResolveOutcome::NoMatch => !has_match(rs, host),
                ResolveOutcome::NoRulesConfigured => false,
            }
        },
    }
}

/// Two outcomes that a caller cannot tell apart.
pub open spec fn same_outcome(a: ResolveOutcome, b: ResolveOutcome) -> bool {
    match (a, b) {
        (ResolveOutcome::Matched(x), ResolveOutcome::Matched(y)) => x@ == y@,
        (ResolveOutcome::NoRulesConfigured, ResolveOutcome::NoRulesConfigured) => true,
        (ResolveOutcome::NoMatch, ResolveOutcome::NoMatch) => true,
        _ => false,
    }
}

pub open spec fn rules_view(rules: Option<Vec<ForwardingRule>>) -> Option<Seq<ForwardingRule>> {
    match rules {
        Some(v) => Some(v@),
        None => None,
    }
}

/// The index of the first rule for `host`, if any.
fn find_rule(rules: &Vec<ForwardingRule>, host: &str) -> (r: Option<usize>)
    ensures
        match r {
            Some(i) => is_first_match(rules@, host@, i as int),
            None => !has_match(rules@, host@),
        },
{
    let host_s = host.to_owned();
    let mut i: usize = 0;
    while i < rules.len()
        invariant
            i <= rules.len(),
            host_s@ == host@,
            forall|j: int| 0 <= j < i ==> rules@[j].host@ != host@,
        decreases rules.len() - i,
    {
        if rules[i].host == host_s {
            return Some(i);
        }
        i = i + 1;
    }
    None
}

/// The first forwarding rule whose host is exactly `host`. With no rule
/// configured at all, and with rules none of which names the host, it fails
/// with a different message.
pub fn get_forwarding_rule(rules: &Option<Vec<ForwardingRule>>, host: &str) -> (r: Result<
    ForwardingRule,
    String,
>)
    ensures
        match r {
            Ok(rule) => rules matches Some(rs) && exists|i: int|
                #![trigger rs@[i]]
                is_first_match(rs@, host@, i) && rule.host@ == rs@[i].host@ && rule.target@
                    == rs@[i].target@,
            Err(msg) => match rules {
                Some(rs) => if rs@.len() == 0 {
                    msg@ == NO_RULES_CONFIGURED_MESSAGE@
                } else {
                    msg@ == RULE_NOT_FOUND_MESSAGE@ && !has_match(rs@, host@)
                },
                None => msg@ == NO_RULES_CONFIGURED_MESSAGE@,
            },
        },
{
    match rules {
        Some(rs) => if rs.len() == 0 {
            Err(String::from_str(NO_RULES_CONFIGURED_MESSAGE))
        } else {
            match find_rule(rs, host) {
                Some(i) => Ok(
                    ForwardingRule { host: rs[i].host.clone(), target: rs[i].target.clone() },
                ),
                None => Err(String::from_str(RULE_NOT_FOUND_MESSAGE)),
            }
        },
        None => Err(String::from_str(NO_RULES_CONFIGURED_MESSAGE)),
    }
}

/// Resolves `host` against the forwarding rules: exact match, first rule wins.
pub fn resolve(rules: &Option<Vec<ForwardingRule>>, host: &str) -> (r: ResolveOutcome)
    ensures
        resolves_to(rules_view(*rules), host@, r),
{
    match rules {
        Some(rs) => {
            assert(rules_view(*rules) == Some(rs@));
            if rs.len() == 0 {
                ResolveOutcome::NoRulesConfigured
            } else {
                match find_rule(rs, host) {
                    Some(i) => {
                        let t = rs[i].target.clone();
                        let out = ResolveOutcome::Matched(t);
                        assert(is_first_match(rs@, host@, i as int) && t@ == rs@[i as int].target@);
                        assert(resolves_to(Some(rs@), host@, out));
                        out
                    },
                    None => ResolveOutcome::NoMatch,
                }
            }
        },
        None => ResolveOutcome::NoRulesConfigured,
    }
}

/// Resolution is deterministic: for a fixed rule table, every result that
/// resolving one host may give is the same outcome.
pub proof fn lemma_resolution_deterministic(
    rules: Option<Seq<ForwardingRule>>,
    host: Seq<char>,
    a: ResolveOutcome,
    b: ResolveOutcome,
)
    requires
        resolves_to(rules, host, a),
        resolves_to(rules, host, b),
    ensures
        same_outcome(a, b),
{
    if let (ResolveOutcome::Matched(x), ResolveOutcome::Matched(y)) = (a, b) {
        let rs = rules.unwrap();
        let i = choose|i: int| is_first_match(rs, host, i) && x@ == rs[i].target@;
        let j = choose|j: int| is_first_match(rs, host, j) && y@ == rs[j].target@;
        assert(!(i < j));
        assert(!(j < i));
    }
    if a is Matched {
        assert(has_match(rules.unwrap(), host));
    }
    if b is Matched {
        assert(has_match(rules.unwrap(), host));
    }
}

} // verus!
