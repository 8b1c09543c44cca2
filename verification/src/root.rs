//! Root-route dispatch: pick one destination from a configured list —
//! redirect-mode destinations take precedence over proxy-mode ones — or fall
//! back to the static disguise page when nothing is configured.

use vstd::prelude::*;

use crate::list::{parse_env_list, tokens_of};

verus! {

/// What the root route does for one request.
#[derive(Debug, PartialEq, Eq)]
pub enum RootAction {
    /// Answer with a redirect to this destination.
    Redirect { url: String },
    /// Proxy the request to this destination and relay the response
    /// verbatim.
    Proxy { url: String },
    /// Serve the static disguise page.
    Disguise,
}

/// The mathematical form of a root-route action.
pub enum RootOutcome {
    Redirect { url: Seq<char> },
    Proxy { url: Seq<char> },
    Disguise,
}

impl View for RootAction {
    type V = RootOutcome;

    open spec fn view(&self) -> RootOutcome {
        match self {
            RootAction::Redirect { url } => RootOutcome::Redirect { url: url@ },
            RootAction::Proxy { url } => RootOutcome::Proxy { url: url@ },
            RootAction::Disguise => RootOutcome::Disguise,
        }
    }
}

/// The index a raw pick selects from a list of `len` destinations: the pick
/// itself when it is in range, else the last index, so a pick rounded up to
/// the length stays in bounds.
pub open spec fn clamped_index(pick: int, len: int) -> int {
    if pick < len {
        pick
    } else {
        len - 1
    }
}

/// The root-route decision: the redirect list takes precedence over the
/// proxy list; the chosen list's entry at the (clamped) pick is used; an
/// absent or empty chosen list falls back to the disguise page.
pub open spec fn root_action_spec(
    redirect_raw: Option<Seq<char>>,
    proxy_raw: Option<Seq<char>>,
    pick: int,
) -> RootOutcome {
    let chosen = if redirect_raw is Some {
        redirect_raw
    } else {
        proxy_raw
    };
    match chosen {
        Some(raw) => {
            let urls = tokens_of(raw);
            if urls.len() == 0 {
                RootOutcome::Disguise
            } else {
                let url = urls[clamped_index(pick, urls.len() as int)];
                if redirect_raw is Some {
                    RootOutcome::Redirect { url }
                } else {
                    RootOutcome::Proxy { url }
                }
            }
        },
        None => RootOutcome::Disguise,
    }
}

/// Dispatches the root route. `pick` is the raw index drawn from a uniform
/// random source scaled by the list length; it is clamped so that a draw at
/// the upper boundary still selects the last entry.
pub fn dispatch_root(
    redirect_urls: &Option<String>,
    proxy_urls: &Option<String>,
    pick: usize,
) -> (r: RootAction)
    ensures
        r@ == root_action_spec(redirect_urls.deep_view(), proxy_urls.deep_view(), pick as int),
{
    let is_redirect = redirect_urls.is_some();
    let chosen: &Option<String> = if is_redirect {
        redirect_urls
    } else {
        proxy_urls
    };
    match chosen {
        Some(raw) => {
            let urls = parse_env_list(raw.as_str());
            if urls.len() == 0 {
                proof {
                    assert(tokens_of(raw@).len() == 0);
                }
                RootAction::Disguise
            } else {
                let idx = if pick < urls.len() {
                    pick
                } else {
                    urls.len() - 1
                };
                let url = urls[idx].clone();
                proof {
                    assert(urls.deep_view()[idx as int] == urls@[idx as int]@);
                }
                if is_redirect {
                    RootAction::Redirect { url }
                } else {
                    RootAction::Proxy { url }
                }
            }
        },
        None => RootAction::Disguise,
    }
}

/// With a non-empty destination list, the dispatched action always uses an
/// entry of the list: a pick inside the list selects exactly that entry, and
/// any pick beyond it selects the last entry, never an out-of-bounds index.
pub proof fn lemma_root_pick_in_range(redirect_raw: Seq<char>, pick: int)
    requires
        pick >= 0,
        tokens_of(redirect_raw).len() > 0,
    ensures
        ({
            let urls = tokens_of(redirect_raw);
            let idx = clamped_index(pick, urls.len() as int);
            &&& 0 <= idx < urls.len()
            &&& (pick < urls.len() ==> idx == pick)
            &&& (pick >= urls.len() ==> idx == urls.len() - 1)
            &&& root_action_spec(Some(redirect_raw), None, pick) == (RootOutcome::Redirect {
                url: urls[idx],
            })
        }),
{
}

/// The static disguise payload served when the root route has no destination
/// configured: a page that mimics an unconfigured default web server.
pub fn nginx_html() -> (r: &'static str)
    ensures
        r@ == spec_nginx_html(),
{
    "
	<!DOCTYPE html>
	<html>
	<head>
	<title>Welcome to nginx!</title>
	<style>
		body {
			width: 35em;
			margin: 0 auto;
			font-family: Tahoma, Verdana, Arial, sans-serif;
		}
	</style>
	</head>
	<body>
	<h1>Welcome to nginx!</h1>
	<p>If you see this page, the nginx web server is successfully installed and
	working. Further configuration is required.</p>

	<p>For online documentation and support please refer to
	<a href=\"http://nginx.org/\">nginx.org</a>.<br/>
	Commercial support is available at
	<a href=\"http://nginx.com\">nginx.com</a>.</p>

	<p><em>Thank you for using nginx.</em></p>
	</body>
	</html>
	"
}

/// The text of the disguise page.
pub open spec fn spec_nginx_html() -> Seq<char> {
    "
	<!DOCTYPE html>
	<html>
	<head>
	<title>Welcome to nginx!</title>
	<style>
		body {
			width: 35em;
			margin: 0 auto;
			font-family: Tahoma, Verdana, Arial, sans-serif;
		}
	</style>
	</head>
	<body>
	<h1>Welcome to nginx!</h1>
	<p>If you see this page, the nginx web server is successfully installed and
	working. Further configuration is required.</p>

	<p>For online documentation and support please refer to
	<a href=\"http://nginx.org/\">nginx.org</a>.<br/>
	Commercial support is available at
	<a href=\"http://nginx.com\">nginx.com</a>.</p>

	<p><em>Thank you for using nginx.</em></p>
	</body>
	</html>
	"@
}

} // verus!
