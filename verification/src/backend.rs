//! Backend URL construction: a request path is rewritten into a contents-API
//! URL, either by re-composing a raw-content URL found embedded in the path
//! (detected ASCII-case-insensitively) or from configured owner, repository
//! and branch coordinates.

use vstd::prelude::*;

use crate::strutil::{
    find_char, find_char_in, find_fold, find_fold_in, lemma_find_char_first,
    lemma_find_fold_bounds,
};

verus! {

/// The host prefix that marks a raw-content URL embedded in a request path.
pub open spec fn raw_host_text() -> Seq<char> {
    "raw.githubusercontent.com/"@
}

/// The contents-API URL for the given coordinates.
pub open spec fn api_compose(
    owner: Seq<char>,
    repo: Seq<char>,
    branch: Seq<char>,
    filepath: Seq<char>,
) -> Seq<char> {
    "https://api.github.com/repos/"@ + owner + "/"@ + repo + "/contents/"@ + filepath + "?ref="@
        + branch
}

/// The path with every leading `/` removed.
pub open spec fn strip_leading_slashes(s: Seq<char>) -> Seq<char>
    decreases s.len(),
{
    if s.len() > 0 && s[0] == '/' {
        strip_leading_slashes(s.drop_first())
    } else {
        s
    }
}

/// The owner, repository, branch and file path read from the text after an
/// embedded raw-content host, provided at least four `/`-separated segments
/// are present.
pub open spec fn embedded_segments(suffix: Seq<char>) -> Option<
    (Seq<char>, Seq<char>, Seq<char>, Seq<char>),
> {
    match find_char(suffix, '/') {
        Some(j1) => {
            let owner = suffix.take(j1);
            let rest1 = suffix.skip(j1 + 1);
            match find_char(rest1, '/') {
                Some(j2) => {
                    let repo = rest1.take(j2);
                    let rest2 = rest1.skip(j2 + 1);
                    match find_char(rest2, '/') {
                        Some(j3) => Some((owner, repo, rest2.take(j3), rest2.skip(j3 + 1))),
                        None => None,
                    }
                },
                None => None,
            }
        },
        None => None,
    }
}

/// The contents-API URL recomposed from a raw-content URL embedded in the
/// path, when the host occurs (case-insensitively) and enough segments
/// follow it.
pub open spec fn embedded_api_url(path: Seq<char>) -> Option<Seq<char>> {
    match find_fold(path, raw_host_text()) {
        Some(i) => {
            let suffix = path.skip(i + raw_host_text().len() as int);
            match embedded_segments(suffix) {
                Some(segs) => Some(api_compose(segs.0, segs.1, segs.2, segs.3)),
                None => None,
            }
        },
        None => None,
    }
}

/// The backend URL for a request path: the embedded raw-content URL
/// recomposed when present, else the configured coordinates with the branch
/// defaulting to `master` and the path's leading slashes stripped.
pub open spec fn api_url_of(
    path: Seq<char>,
    owner: Option<Seq<char>>,
    repo: Option<Seq<char>>,
    branch: Option<Seq<char>>,
) -> Seq<char> {
    match embedded_api_url(path) {
        Some(u) => u,
        None => api_compose(
            match owner {
                Some(o) => o,
                None => Seq::empty(),
            },
            match repo {
                Some(r) => r,
                None => Seq::empty(),
            },
            match branch {
                Some(b) => b,
                None => "master"@,
            },
            strip_leading_slashes(path),
        ),
    }
}

/// Builds one contents-API URL from its four coordinates.
fn compose_api_url(owner: &str, repo: &str, branch: &str, filepath: &str) -> (r: String)
    ensures
        r@ == api_compose(owner@, repo@, branch@, filepath@),
{
    let mut u = String::from_str("https://api.github.com/repos/");
    u.append(owner);
    u.append("/");
    u.append(repo);
    u.append("/contents/");
    u.append(filepath);
    u.append("?ref=");
    u.append(branch);
    u
}

/// The request path with leading slashes removed.
fn strip_slashes<'a>(path: &'a str) -> (r: &'a str)
    ensures
        r@ == strip_leading_slashes(path@),
{
    let len = path.unicode_len();
    let mut k: usize = 0;
    while k < len && path.get_char(k) == '/'
        invariant
            len == path@.len(),
            k <= len,
            forall|j: int| 0 <= j < k ==> path@[j] == '/',
        decreases len - k,
    {
        k += 1;
    }
    proof {
        lemma_strip_is_skip(path@, k as int);
    }
    path.substring_char(k, len)
}

proof fn lemma_strip_is_skip(s: Seq<char>, k: int)
    requires
        0 <= k <= s.len(),
        forall|j: int| 0 <= j < k ==> s[j] == '/',
        k == s.len() || s[k] != '/',
    ensures
        strip_leading_slashes(s) == s.skip(k),
    decreases k,
{
    if k == 0 {
        assert(s.skip(0) =~= s);
    } else {
        let t = s.drop_first();
        assert forall|j: int| 0 <= j < k - 1 implies t[j] == '/' by {
            assert(t[j] == s[j + 1]);
        }
        assert(k - 1 == t.len() || t[k - 1] != '/');
        lemma_strip_is_skip(t, k - 1);
        assert(t.skip(k - 1) =~= s.skip(k));
    }
}

/// Composes the backend URL from the configured coordinates alone.
fn compose_from_config(
    path: &str,
    owner: &Option<String>,
    repo: &Option<String>,
    branch: &Option<String>,
) -> (r: String)
    ensures
        r@ == api_compose(
            match owner.deep_view() {
                Some(o) => o,
                None => Seq::empty(),
            },
            match repo.deep_view() {
                Some(rp) => rp,
                None => Seq::empty(),
            },
            match branch.deep_view() {
                Some(b) => b,
                None => "master"@,
            },
            strip_leading_slashes(path@),
        ),
{
    let trimmed = strip_slashes(path);
    let empty = String::new();
    let owner_s: &String = match owner {
        Some(o) => o,
        None => &empty,
    };
    proof {
        assert(owner_s@ == match owner.deep_view() {
            Some(o) => o,
            None => Seq::<char>::empty(),
        });
    }
    let repo_s: &String = match repo {
        Some(rp) => rp,
        None => &empty,
    };
    let master = String::from_str("master");
    let branch_s: &String = match branch {
        Some(b) => b,
        None => &master,
    };
    compose_api_url(owner_s.as_str(), repo_s.as_str(), branch_s.as_str(), trimmed)
}

/// Turns a (post-authorization) request path into the fully qualified
/// backend URL: an embedded raw-content URL is re-addressed through the
/// contents API; otherwise the configured owner/repository/branch
/// coordinates address the path directly, the branch defaulting to `master`.
pub fn build_github_api_url(
    path: &str,
    owner: &Option<String>,
    repo: &Option<String>,
    branch: &Option<String>,
) -> (r: String)
    ensures
        r@ == api_url_of(path@, owner.deep_view(), repo.deep_view(), branch.deep_view()),
{
    let host = "raw.githubusercontent.com/";
    if let Some(i) = find_fold_in(path, host) {
        proof {
            lemma_find_fold_bounds(path@, host@);
        }
        let hlen = host.unicode_len();
        let plen = path.unicode_len();
        let suffix = path.substring_char(i + hlen, plen);
        proof {
            assert(suffix@ =~= path@.skip(i + raw_host_text().len() as int));
        }
        let slen = suffix.unicode_len();
        if let Some(j1) = find_char_in(suffix, '/') {
            proof {
                lemma_find_char_first(suffix@, '/');
            }
            let owner_s = suffix.substring_char(0, j1);
            let rest1 = suffix.substring_char(j1 + 1, slen);
            proof {
                assert(owner_s@ =~= suffix@.take(j1 as int));
                assert(rest1@ =~= suffix@.skip(j1 as int + 1));
            }
            let r1len = rest1.unicode_len();
            if let Some(j2) = find_char_in(rest1, '/') {
                proof {
                    lemma_find_char_first(rest1@, '/');
                }
                let repo_s = rest1.substring_char(0, j2);
                let rest2 = rest1.substring_char(j2 + 1, r1len);
                proof {
                    assert(repo_s@ =~= rest1@.take(j2 as int));
                    assert(rest2@ =~= rest1@.skip(j2 as int + 1));
                }
                let r2len = rest2.unicode_len();
                if let Some(j3) = find_char_in(rest2, '/') {
                    proof {
                        lemma_find_char_first(rest2@, '/');
                    }
                    let branch_s = rest2.substring_char(0, j3);
                    let filepath = rest2.substring_char(j3 + 1, r2len);
                    proof {
                        assert(branch_s@ =~= rest2@.take(j3 as int));
                        assert(filepath@ =~= rest2@.skip(j3 as int + 1));
                    }
                    return compose_api_url(owner_s, repo_s, branch_s, filepath);
                }
            }
        }
    }
    compose_from_config(path, owner, repo, branch)
}

} // verus!
