use ghrouter::auth::{authorize, parse_rule, rule_matches, AuthDecision};
use ghrouter::backend::build_github_api_url;
use ghrouter::engine::{is_root_path, route_file_request, Config, FileDecision};
use ghrouter::relay::{relay_decision, RelayAction};
use ghrouter::root::{dispatch_root, RootAction};

fn empty_config() -> Config {
    Config {
        real_token: None,
        alias_token: None,
        path_rules: None,
        error_message: None,
        owner: None,
        repo: None,
        branch: None,
        redirect_urls: None,
        proxy_urls: None,
    }
}

#[test]
fn rule_prefix_is_bounded() {
    let rule = parse_rule("secret@docs").expect("entry parses");
    assert_eq!(rule.token, "secret");
    assert!(rule_matches("/docs", &rule));
    assert!(rule_matches("/docs/readme.md", &rule));
    assert!(!rule_matches("/docsx", &rule));
}

#[test]
fn rule_prefix_is_trimmed_and_lowercased() {
    let rule = parse_rule(" secret @ Docs ").expect("entry parses");
    assert_eq!(rule.token, "secret");
    assert_eq!(rule.path_prefix, " Docs ");
    assert!(rule_matches("/docs/a", &rule));
}

#[test]
fn rule_without_single_at_is_discarded() {
    assert!(parse_rule("no-separator").is_none());
    assert!(parse_rule("two@at@signs").is_none());
}

#[test]
fn first_matching_rule_governs() {
    let rules = Some(String::from("first@docs,second@docs/inner"));
    let real = Some(String::from("REAL"));
    // Both rules cover /docs/inner/file; the first in list order decides, so
    // the second rule's token is rejected.
    let wrong = authorize(&rules, "/docs/inner/file", &Some(String::from("second")), &real, &None);
    assert_eq!(wrong, AuthDecision::InvalidToken);
    let right = authorize(&rules, "/docs/inner/file", &Some(String::from("first")), &real, &None);
    assert_eq!(right, AuthDecision::Authorized { token: String::from("REAL") });
}

#[test]
fn matched_rule_requires_nonempty_query_token() {
    let rules = Some(String::from("secret@docs"));
    let real = Some(String::from("REAL"));
    let missing = authorize(&rules, "/docs", &None, &real, &None);
    assert_eq!(missing, AuthDecision::MissingToken);
    let empty = authorize(&rules, "/docs", &Some(String::new()), &real, &None);
    assert_eq!(empty, AuthDecision::MissingToken);
}

#[test]
fn matched_rule_without_real_token_is_misconfigured() {
    let rules = Some(String::from("secret@docs"));
    let got = authorize(&rules, "/docs", &Some(String::from("secret")), &None, &None);
    assert_eq!(got, AuthDecision::ServerMisconfigured);
}

#[test]
fn alias_match_resolves_to_real_token() {
    let mut config = empty_config();
    config.real_token = Some(String::from("REAL"));
    config.alias_token = Some(String::from("ALIAS"));
    let got = route_file_request(&config, "/file.txt", &Some(String::from("ALIAS")));
    match got {
        FileDecision::Fetch { token, .. } => assert_eq!(token, "REAL"),
        other => panic!("expected a fetch, got {:?}", other),
    }
}

#[test]
fn alias_mismatch_is_denied() {
    let mut config = empty_config();
    config.real_token = Some(String::from("REAL"));
    config.alias_token = Some(String::from("ALIAS"));
    let got = route_file_request(&config, "/file.txt", &Some(String::from("WRONG")));
    assert_eq!(
        got,
        FileDecision::Reject { status: 403, message: String::from("TOKEN is invalid") },
    );
}

#[test]
fn no_tokens_and_empty_query_is_rejected() {
    let config = empty_config();
    let absent = route_file_request(&config, "/file.txt", &None);
    assert_eq!(
        absent,
        FileDecision::Reject { status: 400, message: String::from("TOKEN must not be empty") },
    );
    let empty = route_file_request(&config, "/file.txt", &Some(String::new()));
    assert_eq!(
        empty,
        FileDecision::Reject { status: 400, message: String::from("TOKEN must not be empty") },
    );
}

#[test]
fn query_token_alone_is_used() {
    let config = empty_config();
    let got = route_file_request(&config, "/file.txt", &Some(String::from("QUERY")));
    match got {
        FileDecision::Fetch { token, .. } => assert_eq!(token, "QUERY"),
        other => panic!("expected a fetch, got {:?}", other),
    }
}

#[test]
fn real_token_alone_is_preferred_over_query() {
    let mut config = empty_config();
    config.real_token = Some(String::from("REAL"));
    let got = route_file_request(&config, "/file.txt", &Some(String::from("QUERY")));
    match got {
        FileDecision::Fetch { token, .. } => assert_eq!(token, "REAL"),
        other => panic!("expected a fetch, got {:?}", other),
    }
}

#[test]
fn backend_url_from_configured_coordinates() {
    let mut config = empty_config();
    config.real_token = Some(String::from("REAL"));
    config.owner = Some(String::from("owner"));
    config.repo = Some(String::from("repo"));
    config.branch = Some(String::from("dev"));
    let got = route_file_request(&config, "/dir/file.txt", &None);
    assert_eq!(
        got,
        FileDecision::Fetch {
            url: String::from("https://api.github.com/repos/owner/repo/contents/dir/file.txt?ref=dev"),
            token: String::from("REAL"),
        },
    );
}

#[test]
fn backend_branch_defaults_to_master() {
    let url = build_github_api_url("/x.txt", &Some(String::from("o")), &Some(String::from("r")), &None);
    assert_eq!(url, "https://api.github.com/repos/o/r/contents/x.txt?ref=master");
}

#[test]
fn backend_missing_coordinates_become_empty_segments() {
    let url = build_github_api_url("/x.txt", &None, &None, &None);
    assert_eq!(url, "https://api.github.com/repos///contents/x.txt?ref=master");
}

#[test]
fn backend_embedded_raw_url_is_readdressed() {
    let url = build_github_api_url(
        "/https://RAW.GithubUserContent.com/own/rep/main/dir/f.txt",
        &Some(String::from("cfg-own")),
        &Some(String::from("cfg-rep")),
        &Some(String::from("cfg-branch")),
    );
    assert_eq!(url, "https://api.github.com/repos/own/rep/contents/dir/f.txt?ref=main");
}

#[test]
fn backend_embedded_url_with_few_segments_falls_back() {
    let url = build_github_api_url(
        "/raw.githubusercontent.com/own/rep/main",
        &Some(String::from("o")),
        &Some(String::from("r")),
        &Some(String::from("b")),
    );
    assert_eq!(
        url,
        "https://api.github.com/repos/o/r/contents/raw.githubusercontent.com/own/rep/main?ref=b",
    );
}

#[test]
fn root_path_is_classified() {
    assert!(is_root_path("/"));
    assert!(!is_root_path("/index.html"));
}

#[test]
fn root_pick_at_zero_selects_first() {
    let redirect = Some(String::from("https://a,https://b"));
    let pick = (0.0_f64 * 2.0).floor() as usize;
    let got = dispatch_root(&redirect, &None, pick);
    assert_eq!(got, RootAction::Redirect { url: String::from("https://a") });
}

#[test]
fn root_pick_near_one_selects_last_without_overflow() {
    let redirect = Some(String::from("https://a,https://b"));
    let pick = (0.999999_f64 * 2.0).floor() as usize;
    let got = dispatch_root(&redirect, &None, pick);
    assert_eq!(got, RootAction::Redirect { url: String::from("https://b") });
    // Even a pick at the full length stays in bounds.
    let clamped = dispatch_root(&redirect, &None, 2);
    assert_eq!(clamped, RootAction::Redirect { url: String::from("https://b") });
}

#[test]
fn root_redirect_list_takes_precedence_over_proxy() {
    let redirect = Some(String::from("https://r"));
    let proxy = Some(String::from("https://p"));
    let got = dispatch_root(&redirect, &proxy, 0);
    assert_eq!(got, RootAction::Redirect { url: String::from("https://r") });
    let proxied = dispatch_root(&None, &proxy, 0);
    assert_eq!(proxied, RootAction::Proxy { url: String::from("https://p") });
}

#[test]
fn root_without_destinations_serves_disguise_page() {
    assert_eq!(dispatch_root(&None, &None, 0), RootAction::Disguise);
    // A configured list that holds only separators is empty.
    assert_eq!(dispatch_root(&Some(String::from(",,,|||")), &None, 0), RootAction::Disguise);
}

#[test]
fn backend_error_status_is_preserved_with_default_body() {
    let got = relay_decision(404, &None);
    assert_eq!(
        got,
        RelayAction::ErrorBody {
            status: 404,
            message: String::from("Unable to fetch the file. Check the path or TOKEN."),
        },
    );
}

#[test]
fn backend_error_body_uses_configured_override() {
    let got = relay_decision(404, &Some(String::from("not here")));
    assert_eq!(got, RelayAction::ErrorBody { status: 404, message: String::from("not here") });
}

#[test]
fn success_statuses_relay_verbatim() {
    assert_eq!(relay_decision(200, &None), RelayAction::Relay);
    assert_eq!(relay_decision(299, &None), RelayAction::Relay);
    assert!(matches!(relay_decision(300, &None), RelayAction::ErrorBody { status: 300, .. }));
    assert!(matches!(relay_decision(199, &None), RelayAction::ErrorBody { status: 199, .. }));
}

#[test]
fn encoded_rule_path_matches_after_normalization() {
    let mut config = empty_config();
    config.real_token = Some(String::from("REAL"));
    config.path_rules = Some(String::from("secret@some path"));
    let got = route_file_request(&config, "/Some%20Path/File.TXT", &Some(String::from("secret")));
    match got {
        FileDecision::Fetch { token, .. } => assert_eq!(token, "REAL"),
        other => panic!("expected a fetch, got {:?}", other),
    }
}
