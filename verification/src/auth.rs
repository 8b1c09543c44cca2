//! Path-scoped token authorization and default token resolution.
//!
//! A path rule `token@prefix` grants the subtree under `/prefix` to callers
//! that present exactly that token; the first matching rule in configured
//! order governs the decision. When no rule matches, the outbound bearer
//! token is resolved from the configured real token, the configured alias
//! token, and the caller's query token, by priority.

use vstd::prelude::*;

use crate::list::{parse_env_list, tokens_of};
use crate::strutil::{
    count_char, count_char_in, find_char, find_char_in, lemma_find_char_count,
    lemma_find_char_first, str_eq, str_starts_with,
};
use crate::text::{lower_of, to_lowercase, trim_of, trim_str};

verus! {

/// One parsed `token@prefix` configuration entry.
#[derive(Debug)]
pub struct PathTokenRule {
    pub token: String,
    pub path_prefix: String,
}

/// The outcome of authorization.
#[derive(Debug, PartialEq, Eq)]
pub enum AuthDecision {
    /// Proceed, attaching this bearer token to the outbound request.
    Authorized { token: String },
    /// A required token was absent or empty.
    MissingToken,
    /// The caller's token does not match the required value.
    InvalidToken,
    /// A required server-side credential is not configured.
    ServerMisconfigured,
}

/// The mathematical form of an authorization outcome.
pub enum AuthOutcome {
    Authorized { token: Seq<char> },
    MissingToken,
    InvalidToken,
    ServerMisconfigured,
}

impl View for AuthDecision {
    type V = AuthOutcome;

    open spec fn view(&self) -> AuthOutcome {
        match self {
            AuthDecision::Authorized { token } => AuthOutcome::Authorized { token: token@ },
            AuthDecision::MissingToken => AuthOutcome::MissingToken,
            AuthDecision::InvalidToken => AuthOutcome::InvalidToken,
            AuthDecision::ServerMisconfigured => AuthOutcome::ServerMisconfigured,
        }
    }
}

/// The token and raw prefix of a rule entry, provided the entry holds
/// exactly one `@`; the token is trimmed, the prefix kept raw.
pub open spec fn parsed_rule(entry: Seq<char>) -> Option<(Seq<char>, Seq<char>)> {
    if count_char(entry, '@') == 1 {
        let k = find_char(entry, '@').unwrap();
        Some((trim_of(entry.take(k)), entry.skip(k + 1)))
    } else {
        None
    }
}

/// The normalized form a raw rule prefix is compared under: a leading slash
/// before the trimmed, lowercased prefix text.
pub open spec fn rule_prefix_of(raw_prefix: Seq<char>) -> Seq<char> {
    seq!['/'] + lower_of(trim_of(raw_prefix))
}

/// Whether a rule for `raw_prefix` governs `path`: the normalized path
/// equals the normalized prefix, or extends it across a `/` boundary.
pub open spec fn spec_rule_matches(path: Seq<char>, raw_prefix: Seq<char>) -> bool {
    let p = rule_prefix_of(raw_prefix);
    path == p || (path.len() > p.len() && path.take(p.len() as int + 1) == p.push('/'))
}

/// What the first applicable rule decides: rules are scanned in order,
/// entries that are not exactly `token@prefix` are skipped, and the first
/// whose prefix matches the path yields its (token, raw prefix) pair.
pub open spec fn first_rule_decision(entries: Seq<Seq<char>>, path: Seq<char>) -> Option<
    (Seq<char>, Seq<char>),
>
    decreases entries.len(),
{
    if entries.len() == 0 {
        None
    } else {
        match parsed_rule(entries[0]) {
            Some(rule) => if spec_rule_matches(path, rule.1) {
                Some(rule)
            } else {
                first_rule_decision(entries.drop_first(), path)
            },
            None => first_rule_decision(entries.drop_first(), path),
        }
    }
}

/// The decision a matching path rule enforces: the caller must present a
/// non-empty query token equal to the rule's token, and the server-side real
/// token must be configured non-empty, which then becomes the outbound
/// bearer token.
pub open spec fn rule_outcome(
    rule_token: Seq<char>,
    query_tok: Option<Seq<char>>,
    real_tok: Option<Seq<char>>,
) -> AuthOutcome {
    match query_tok {
        Some(q) => if q.len() == 0 {
            AuthOutcome::MissingToken
        } else if q != rule_token {
            AuthOutcome::InvalidToken
        } else {
            match real_tok {
                Some(r) => if r.len() == 0 {
                    AuthOutcome::ServerMisconfigured
                } else {
                    AuthOutcome::Authorized { token: r }
                },
                None => AuthOutcome::ServerMisconfigured,
            }
        },
        None => AuthOutcome::MissingToken,
    }
}

/// The default token resolution, used when no path rule matched. With both
/// server tokens configured, the caller's query token must equal the alias
/// and the real token is used. Otherwise the first configured of real token,
/// alias token, caller query token is used; an empty resolved token is
/// rejected.
pub open spec fn resolved_token(
    real_tok: Option<Seq<char>>,
    alias_tok: Option<Seq<char>>,
    query_tok: Option<Seq<char>>,
) -> AuthOutcome {
    if real_tok is Some && alias_tok is Some {
        match query_tok {
            Some(q) => if q == alias_tok.unwrap() {
                if real_tok.unwrap().len() == 0 {
                    AuthOutcome::MissingToken
                } else {
                    AuthOutcome::Authorized { token: real_tok.unwrap() }
                }
            } else {
                AuthOutcome::InvalidToken
            },
            None => AuthOutcome::MissingToken,
        }
    } else {
        let cand = if real_tok is Some {
            real_tok.unwrap()
        } else if alias_tok is Some {
            alias_tok.unwrap()
        } else {
            match query_tok {
                Some(q) => q,
                None => Seq::empty(),
            }
        };
        if cand.len() == 0 {
            AuthOutcome::MissingToken
        } else {
            AuthOutcome::Authorized { token: cand }
        }
    }
}

/// The full authorization decision for a non-root request: the first
/// matching path rule governs; with no matching rule the default resolution
/// applies.
pub open spec fn auth_decision_spec(
    rules_raw: Option<Seq<char>>,
    normalized_path: Seq<char>,
    query_tok: Option<Seq<char>>,
    real_tok: Option<Seq<char>>,
    alias_tok: Option<Seq<char>>,
) -> AuthOutcome {
    let entries = match rules_raw {
        Some(r) => tokens_of(r),
        None => Seq::empty(),
    };
    match first_rule_decision(entries, normalized_path) {
        Some(rule) => rule_outcome(rule.0, query_tok, real_tok),
        None => resolved_token(real_tok, alias_tok, query_tok),
    }
}

/// Parses one configuration entry of the form `token@prefix`; entries
/// without exactly one `@` are rejected.
pub fn parse_rule(entry: &str) -> (r: Option<PathTokenRule>)
    ensures
        match r {
            Some(rule) => parsed_rule(entry@) == Some((rule.token@, rule.path_prefix@)),
            None => parsed_rule(entry@) is None,
        },
{
    let n = count_char_in(entry, '@');
    if n != 1 {
        proof {
            lemma_find_char_count(entry@, '@');
        }
        return None;
    }
    proof {
        lemma_find_char_count(entry@, '@');
        lemma_find_char_first(entry@, '@');
    }
    let k = find_char_in(entry, '@').unwrap();
    let len = entry.unicode_len();
    let before = entry.substring_char(0, k);
    let after = entry.substring_char(k + 1, len);
    proof {
        assert(before@ =~= entry@.take(k as int));
        assert(after@ =~= entry@.skip(k as int + 1));
    }
    let token = trim_str(before).to_owned();
    let path_prefix = after.to_owned();
    Some(PathTokenRule { token, path_prefix })
}

/// Whether a rule's prefix governs the given normalized path: equality, or
/// extension across a `/` boundary.
pub fn rule_matches(normalized_path: &str, rule: &PathTokenRule) -> (r: bool)
    ensures
        r == spec_rule_matches(normalized_path@, rule.path_prefix@),
{
    let trimmed = trim_str(rule.path_prefix.as_str());
    let lowered = to_lowercase(trimmed);
    let mut prefix = String::new();
    prefix.push('/');
    prefix.append(lowered.as_str());
    proof {
        assert(prefix@ =~= rule_prefix_of(rule.path_prefix@));
    }
    if str_eq(normalized_path, prefix.as_str()) {
        return true;
    }
    let mut bounded = prefix;
    bounded.push('/');
    let ghost p = rule_prefix_of(rule.path_prefix@);
    let r = str_starts_with(normalized_path, bounded.as_str());
    proof {
        assert(bounded@ == p.push('/'));
        assert(bounded@.len() == p.len() + 1);
        if r {
            assert(normalized_path@.take(p.len() as int + 1) == bounded@);
        } else {
            if normalized_path@.len() > p.len() && normalized_path@.take(p.len() as int + 1)
                == p.push('/') {
                assert(bounded@.len() <= normalized_path@.len());
                assert(normalized_path@.subrange(0, bounded@.len() as int) == bounded@);
            }
        }
    }
    r
}

/// Applies the decision of a matched path rule to the caller's query token
/// and the configured real token.
pub fn apply_rule(
    rule_token: &String,
    query_token: &Option<String>,
    real_token: &Option<String>,
) -> (r: AuthDecision)
    ensures
        r@ == rule_outcome(rule_token@, query_token.deep_view(), real_token.deep_view()),
{
    match query_token {
        Some(q) => {
            if q.as_str().is_empty() {
                AuthDecision::MissingToken
            } else if !str_eq(q.as_str(), rule_token.as_str()) {
                AuthDecision::InvalidToken
            } else {
                match real_token {
                    Some(rt) => if rt.as_str().is_empty() {
                        AuthDecision::ServerMisconfigured
                    } else {
                        AuthDecision::Authorized { token: rt.clone() }
                    },
                    None => AuthDecision::ServerMisconfigured,
                }
            }
        },
        None => AuthDecision::MissingToken,
    }
}

/// Resolves the outbound bearer token when no path rule matched.
pub fn resolve_token(
    real_token: &Option<String>,
    alias_token: &Option<String>,
    query_token: &Option<String>,
) -> (r: AuthDecision)
    ensures
        r@ == resolved_token(
            real_token.deep_view(),
            alias_token.deep_view(),
            query_token.deep_view(),
        ),
{
    match (real_token, alias_token) {
        (Some(rt), Some(al)) => {
            match query_token {
                Some(q) => {
                    if str_eq(q.as_str(), al.as_str()) {
                        if rt.as_str().is_empty() {
                            AuthDecision::MissingToken
                        } else {
                            AuthDecision::Authorized { token: rt.clone() }
                        }
                    } else {
                        AuthDecision::InvalidToken
                    }
                },
                None => AuthDecision::MissingToken,
            }
        },
        _ => {
            let cand: String = if let Some(rt) = real_token {
                rt.clone()
            } else if let Some(al) = alias_token {
                al.clone()
            } else if let Some(q) = query_token {
                q.clone()
            } else {
                String::new()
            };
            if cand.as_str().is_empty() {
                AuthDecision::MissingToken
            } else {
                AuthDecision::Authorized { token: cand }
            }
        },
    }
}

/// The full authorization decision for a non-root request path.
pub fn authorize(
    path_rules: &Option<String>,
    normalized_path: &str,
    query_token: &Option<String>,
    real_token: &Option<String>,
    alias_token: &Option<String>,
) -> (r: AuthDecision)
    ensures
        r@ == auth_decision_spec(
            path_rules.deep_view(),
            normalized_path@,
            query_token.deep_view(),
            real_token.deep_view(),
            alias_token.deep_view(),
        ),
{
    if let Some(raw) = path_rules {
        let entries = parse_env_list(raw.as_str());
        let ghost dv = entries.deep_view();
        let mut i: usize = 0;
        proof {
            assert(dv.skip(0) =~= dv);
        }
        while i < entries.len()
            invariant
                dv == entries.deep_view(),
                dv == tokens_of(raw@),
                path_rules.deep_view() == Some(raw@),
                dv.len() == entries@.len(),
                i <= entries.len(),
                first_rule_decision(dv, normalized_path@) == first_rule_decision(
                    dv.skip(i as int),
                    normalized_path@,
                ),
            decreases entries.len() - i,
        {
            let ghost rest = dv.skip(i as int);
            proof {
                assert(rest[0] == dv[i as int]);
                assert(dv[i as int] == entries@[i as int]@);
                assert(rest.drop_first() =~= dv.skip(i as int + 1));
            }
            match parse_rule(entries[i].as_str()) {
                Some(rule) => {
                    if rule_matches(normalized_path, &rule) {
                        proof {
                            assert(first_rule_decision(rest, normalized_path@) == Some(
                                (rule.token@, rule.path_prefix@),
                            ));
                        }
                        return apply_rule(&rule.token, query_token, real_token);
                    }
                },
                None => {},
            }
            i += 1;
        }
        proof {
            assert(dv.skip(entries@.len() as int) =~= Seq::<Seq<char>>::empty());
        }
        resolve_token(real_token, alias_token, query_token)
    } else {
        resolve_token(real_token, alias_token, query_token)
    }
}

/// Path-rule matching is prefix-bounded: a rule governs exactly the paths
/// that equal its normalized prefix or continue it across a `/` boundary, so
/// `/docs` governs `/docs` and `/docs/readme.md` but never `/docsx`.
pub proof fn lemma_rule_match_prefix_bounded(path: Seq<char>, raw_prefix: Seq<char>)
    ensures
        spec_rule_matches(path, raw_prefix) <==> {
            let p = rule_prefix_of(raw_prefix);
            &&& p.len() <= path.len()
            &&& path.take(p.len() as int) == p
            &&& (path.len() == p.len() || path[p.len() as int] == '/')
        },
{
    let p = rule_prefix_of(raw_prefix);
    if spec_rule_matches(path, raw_prefix) {
        if path == p {
            assert(path.take(p.len() as int) =~= p);
        } else {
            let ext = path.take(p.len() as int + 1);
            assert(ext == p.push('/'));
            assert forall|j: int| 0 <= j < p.len() implies path[j] == p[j] by {
                assert(ext[j] == path[j]);
                assert(p.push('/')[j] == p[j]);
            }
            assert(path.take(p.len() as int) =~= p);
            assert(ext[p.len() as int] == path[p.len() as int]);
            assert(p.push('/')[p.len() as int] == '/');
        }
    }
    if p.len() <= path.len() && path.take(p.len() as int) == p && (path.len() == p.len()
        || path[p.len() as int] == '/') {
        assert forall|j: int| 0 <= j < p.len() implies path[j] == p[j] by {
            assert(path.take(p.len() as int)[j] == path[j]);
        }
        if path.len() == p.len() {
            assert(path =~= p);
        } else {
            assert(path.take(p.len() as int + 1) =~= p.push('/'));
        }
    }
}

/// The first matching rule wins: when the rule at position `k` parses and
/// matches the path, and no earlier entry both parses and matches, the
/// decision is governed by rule `k` alone.
pub proof fn lemma_first_matching_rule_wins(entries: Seq<Seq<char>>, path: Seq<char>, k: int)
    requires
        0 <= k < entries.len(),
        parsed_rule(entries[k]) is Some,
        spec_rule_matches(path, parsed_rule(entries[k]).unwrap().1),
        forall|j: int|
            0 <= j < k ==> !(parsed_rule(#[trigger] entries[j]) is Some && spec_rule_matches(
                path,
                parsed_rule(entries[j]).unwrap().1,
            )),
    ensures
        first_rule_decision(entries, path) == Some(parsed_rule(entries[k]).unwrap()),
    decreases k,
{
    if k > 0 {
        let rest = entries.drop_first();
        assert(rest[k - 1] == entries[k]);
        assert forall|j: int|
            0 <= j < k - 1 implies !(parsed_rule(#[trigger] rest[j]) is Some && spec_rule_matches(
            path,
            parsed_rule(rest[j]).unwrap().1,
        )) by {
            assert(rest[j] == entries[j + 1]);
        }
        lemma_first_matching_rule_wins(rest, path, k - 1);
        assert(!(parsed_rule(entries[0]) is Some && spec_rule_matches(
            path,
            parsed_rule(entries[0]).unwrap().1,
        )));
    }
}

/// When both the real and the alias server token are configured and the
/// caller's query token equals the alias, the resolved outbound token is the
/// real token -- never the alias and never the query value.
pub proof fn lemma_alias_match_uses_real_token(
    real_tok: Seq<char>,
    alias_tok: Seq<char>,
    query_tok: Seq<char>,
)
    requires
        real_tok.len() > 0,
        query_tok == alias_tok,
    ensures
        resolved_token(Some(real_tok), Some(alias_tok), Some(query_tok))
            == (AuthOutcome::Authorized { token: real_tok }),
{
}

/// With no server tokens configured and no matching path rule, an absent or
/// empty caller query token is rejected as a missing token, never passed
/// through.
pub proof fn lemma_unconfigured_empty_query_rejected(
    rules_raw: Option<Seq<char>>,
    normalized_path: Seq<char>,
    query_tok: Option<Seq<char>>,
)
    requires
        match rules_raw {
            Some(r) => first_rule_decision(tokens_of(r), normalized_path) is None,
            None => true,
        },
        match query_tok {
            Some(q) => q.len() == 0,
            None => true,
        },
    ensures
        auth_decision_spec(rules_raw, normalized_path, query_tok, None, None)
            == AuthOutcome::MissingToken,
{
}

} // verus!
