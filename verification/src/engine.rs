//! The per-request decision engine for non-root paths: normalize the path,
//! authorize it, and either name the backend URL and bearer token to fetch
//! with, or name the error response that ends the request.

use vstd::prelude::*;

use crate::auth::{auth_decision_spec, authorize, AuthDecision, AuthOutcome};
use crate::backend::{api_url_of, build_github_api_url};
use crate::path::{normalize_path, normalized_path_of};

verus! {

/// One request's immutable configuration snapshot, read fresh per request;
/// the engine never retains tokens or URLs across requests.
#[derive(Debug)]
pub struct Config {
    /// Server token attached as the outbound bearer credential.
    pub real_token: Option<String>,
    /// Caller-facing token that, when matched, authorizes use of the real
    /// token.
    pub alias_token: Option<String>,
    /// Raw `token@prefix` rule list.
    pub path_rules: Option<String>,
    /// Body text used on backend non-success responses.
    pub error_message: Option<String>,
    /// Backend addressing coordinates.
    pub owner: Option<String>,
    pub repo: Option<String>,
    pub branch: Option<String>,
    /// Candidate destinations for a root-path redirect.
    pub redirect_urls: Option<String>,
    /// Candidate destinations for root-path transparent proxying.
    pub proxy_urls: Option<String>,
}

/// The mathematical form of a configuration snapshot.
pub struct ConfigView {
    pub real_token: Option<Seq<char>>,
    pub alias_token: Option<Seq<char>>,
    pub path_rules: Option<Seq<char>>,
    pub error_message: Option<Seq<char>>,
    pub owner: Option<Seq<char>>,
    pub repo: Option<Seq<char>>,
    pub branch: Option<Seq<char>>,
    pub redirect_urls: Option<Seq<char>>,
    pub proxy_urls: Option<Seq<char>>,
}

impl View for Config {
    type V = ConfigView;

    open spec fn view(&self) -> ConfigView {
        ConfigView {
            real_token: self.real_token.deep_view(),
            alias_token: self.alias_token.deep_view(),
            path_rules: self.path_rules.deep_view(),
            error_message: self.error_message.deep_view(),
            owner: self.owner.deep_view(),
            repo: self.repo.deep_view(),
            branch: self.branch.deep_view(),
            redirect_urls: self.redirect_urls.deep_view(),
            proxy_urls: self.proxy_urls.deep_view(),
        }
    }
}

/// The decision for one non-root request.
#[derive(Debug, PartialEq, Eq)]
pub enum FileDecision {
    /// Fetch this backend URL with this bearer token and relay by status.
    Fetch { url: String, token: String },
    /// End the request with this error response.
    Reject { status: u16, message: String },
}

/// The mathematical form of a non-root decision.
pub enum FileOutcome {
    Fetch { url: Seq<char>, token: Seq<char> },
    Reject { status: int, message: Seq<char> },
}

impl View for FileDecision {
    type V = FileOutcome;

    open spec fn view(&self) -> FileOutcome {
        match self {
            FileDecision::Fetch { url, token } => FileOutcome::Fetch { url: url@, token: token@ },
            FileDecision::Reject { status, message } => FileOutcome::Reject {
                status: *status as int,
                message: message@,
            },
        }
    }
}

/// The decision for a non-root request path: authorization over the
/// normalized path decides; an authorized request fetches the backend URL
/// built from the raw path, a failed one ends with the error the outcome
/// names.
pub open spec fn file_decision_spec(
    cfg: ConfigView,
    path: Seq<char>,
    query_tok: Option<Seq<char>>,
) -> FileOutcome {
    match auth_decision_spec(
        cfg.path_rules,
        normalized_path_of(path),
        query_tok,
        cfg.real_token,
        cfg.alias_token,
    ) {
        AuthOutcome::Authorized { token } => FileOutcome::Fetch {
            url: api_url_of(path, cfg.owner, cfg.repo, cfg.branch),
            token,
        },
        AuthOutcome::MissingToken => FileOutcome::Reject {
            status: 400,
            message: "TOKEN must not be empty"@,
        },
        AuthOutcome::InvalidToken => FileOutcome::Reject {
            status: 403,
            message: "TOKEN is invalid"@,
        },
        AuthOutcome::ServerMisconfigured => FileOutcome::Reject {
            status: 500,
            message: "Server GitHub TOKEN configuration error"@,
        },
    }
}

/// Decides one non-root request from the configuration snapshot, the raw
/// request path and the caller's query token.
pub fn route_file_request(config: &Config, path: &str, query_token: &Option<String>) -> (r:
    FileDecision)
    ensures
        r@ == file_decision_spec(config@, path@, query_token.deep_view()),
{
    let normalized = normalize_path(path);
    let decision = authorize(
        &config.path_rules,
        normalized.as_str(),
        query_token,
        &config.real_token,
        &config.alias_token,
    );
    match decision {
        AuthDecision::Authorized { token } => {
            let url = build_github_api_url(path, &config.owner, &config.repo, &config.branch);
            FileDecision::Fetch { url, token }
        },
        AuthDecision::MissingToken => FileDecision::Reject {
            status: 400,
            message: String::from_str("TOKEN must not be empty"),
        },
        AuthDecision::InvalidToken => FileDecision::Reject {
            status: 403,
            message: String::from_str("TOKEN is invalid"),
        },
        AuthDecision::ServerMisconfigured => FileDecision::Reject {
            status: 500,
            message: String::from_str("Server GitHub TOKEN configuration error"),
        },
    }
}

/// With no server tokens configured and no matching path rule, a request
/// whose caller query token is absent or empty is answered with status 400,
/// never passed through to the backend.
pub proof fn lemma_unconfigured_request_gets_400(
    cfg: ConfigView,
    path: Seq<char>,
    query_tok: Option<Seq<char>>,
)
    requires
        cfg.real_token is None,
        cfg.alias_token is None,
        match cfg.path_rules {
            Some(r) => crate::auth::first_rule_decision(
                crate::list::tokens_of(r),
                normalized_path_of(path),
            ) is None,
            None => true,
        },
        match query_tok {
            Some(q) => q.len() == 0,
            None => true,
        },
    ensures
        file_decision_spec(cfg, path, query_tok) == (FileOutcome::Reject {
            status: 400,
            message: "TOKEN must not be empty"@,
        }),
{
    crate::auth::lemma_unconfigured_empty_query_rejected(
        cfg.path_rules,
        normalized_path_of(path),
        query_tok,
    );
}

/// Whether a request path is the root route.
pub fn is_root_path(path: &str) -> (r: bool)
    ensures
        r == (path@ == "/"@),
{
    crate::strutil::str_eq(path, "/")
}

} // verus!
