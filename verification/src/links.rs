//! Pure URL builders for the cover sheet: commit, tree and author
//! links, local file URLs, and GitHub noreply-address handling.

use vstd::prelude::*;

use crate::text::{find_char, rfind_char, spec_ends_with, strip_suffix, substring};

verus! {

/// The GitHub username embedded in a noreply address, if `email` is
/// one: the local part of `…@users.noreply.github.com`, with a leading
/// `id+` prefix removed.
pub open spec fn spec_noreply_username(email: Seq<char>) -> Option<Seq<char>> {
    if spec_ends_with(email, "@users.noreply.github.com"@) {
        let local = email.take(email.len() - "@users.noreply.github.com"@.len());
        if local.contains('+') {
            Some(local.skip(spec_last_plus(local) + 1))
        } else {
            Some(local)
        }
    } else {
        None
    }
}

/// The index of the last '+' in `s` (meaningful only when one exists).
pub open spec fn spec_last_plus(s: Seq<char>) -> int {
    choose|i: int| 0 <= i < s.len() && s[i] == '+' && forall|j: int| i < j < s.len() ==> s[j] != '+'
}

/// Extracts a GitHub username from a noreply email address. Handles
/// both `123456+username@users.noreply.github.com` and
/// `username@users.noreply.github.com`.
pub fn github_username_from_email(email: &str) -> (r: Option<String>)
    ensures
        r is Some <==> spec_ends_with(email@, "@users.noreply.github.com"@),
        r matches Some(u) ==> spec_noreply_username(email@) matches Some(v) && u@ == v,
{
    let local = match strip_suffix(email, "@users.noreply.github.com") {
        Some(l) => l,
        None => {
            return None;
        },
    };
    match rfind_char(local.as_str(), '+') {
        Some(i) => {
            let len = local.as_str().unicode_len();
            let name = substring(local.as_str(), i + 1, len);
            proof {
                assert(local@[i as int] == '+');
                lemma_last_plus(local@, i as int);
                assert(name@ =~= local@.skip(i + 1));
            }
            Some(name)
        },
        None => {
            proof {
                assert(!local@.contains('+'));
            }
            Some(local)
        },
    }
}

proof fn lemma_last_plus(s: Seq<char>, i: int)
    requires
        0 <= i < s.len(),
        s[i] == '+',
        forall|j: int| i < j < s.len() ==> s[j] != '+',
    ensures
        spec_last_plus(s) == i,
{
    assert(0 <= i < s.len() && s[i] == '+' && (forall|j: int| i < j < s.len() ==> s[j] != '+'));
    let w = spec_last_plus(s);
    assert(0 <= w < s.len() && s[w] == '+' && (forall|j: int| w < j < s.len() ==> s[j] != '+'));
    if w < i {
        assert(s[i] != '+');
    }
    if i < w {
        assert(s[w] != '+');
    }
}

/// The URL of a specific commit on the remote.
pub fn commit_link(remote_base: &str, commit_hash: &str) -> (r: String)
    ensures
        r@ == remote_base@ + "/commit/"@ + commit_hash@,
{
    let mut r = remote_base.to_owned();
    r.append("/commit/");
    r.append(commit_hash);
    r
}

/// A link to the repo tree at the given commit, or the repo root when
/// no commit is known.
pub fn repo_tree_link(remote_base: &str, commit_hash: &str) -> (r: String)
    ensures
        commit_hash@.len() == 0 ==> r@ == remote_base@,
        commit_hash@.len() > 0 ==> r@ == remote_base@ + "/tree/"@ + commit_hash@,
{
    if commit_hash.unicode_len() == 0 {
        remote_base.to_owned()
    } else {
        let mut r = remote_base.to_owned();
        r.append("/tree/");
        r.append(commit_hash);
        r
    }
}

/// An author profile or search link for an email on the remote: a
/// GitHub profile when the email is a noreply address (host taken from
/// the remote's first three `/`-separated parts), else a
/// commit-search-by-email URL.
pub fn author_link(remote_base: &str, email: &str) -> (r: String)
    ensures
        spec_noreply_username(email@) matches Some(u) ==> r@ == spec_url_host(remote_base@) + "/"@
            + u,
        spec_noreply_username(email@) is None ==> r@ == remote_base@ + "/commits?author="@
            + email@,
{
    match github_username_from_email(email) {
        Some(username) => {
            let host = url_host(remote_base);
            let mut r = host;
            r.append("/");
            r.append(username.as_str());
            r
        },
        None => {
            let mut r = remote_base.to_owned();
            r.append("/commits?author=");
            r.append(email);
            r
        },
    }
}

/// The first three `/`-separated parts of a URL: for
/// `https://host/owner/repo` this is `https://host`.
pub open spec fn spec_url_host(url: Seq<char>) -> Seq<char> {
    spec_take_parts(url, 3)
}

/// The prefix of `url` up to (excluding) its `n`-th '/' — the whole
/// string when there are fewer separators.
pub open spec fn spec_take_parts(url: Seq<char>, n: int) -> Seq<char>
    decreases n,
{
    if n <= 0 {
        Seq::empty()
    } else if url.contains('/') {
        let i = spec_first_slash(url);
        if n == 1 {
            url.take(i)
        } else {
            url.take(i + 1) + spec_take_parts(url.skip(i + 1), n - 1)
        }
    } else {
        url
    }
}

/// The index of the first '/' in `s` (meaningful only when one exists).
pub open spec fn spec_first_slash(s: Seq<char>) -> int {
    choose|i: int| 0 <= i < s.len() && s[i] == '/' && forall|j: int| 0 <= j < i ==> s[j] != '/'
}

/// The first three `/`-separated parts of `url`, joined back with '/'.
fn url_host(url: &str) -> (r: String)
    ensures
        r@ == spec_url_host(url@),
{
    let first = match find_char(url, '/') {
        None => {
            return url.to_owned();
        },
        Some(i) => i,
    };
    proof {
        assert(url@[first as int] == '/');
        lemma_first_slash(url@, first as int);
    }
    let len = url.unicode_len();
    let rest1 = substring(url, first + 1, len);
    proof {
        assert(rest1@ =~= url@.skip(first + 1));
    }
    let second = match find_char(rest1.as_str(), '/') {
        None => {
            proof {
                assert(spec_take_parts(url@.skip(first + 1), 2) == url@.skip(first + 1));
                assert(url@.take(first + 1) + url@.skip(first + 1) =~= url@);
            }
            return url.to_owned();
        },
        Some(i) => i,
    };
    proof {
        assert(rest1@[second as int] == '/');
        lemma_first_slash(rest1@, second as int);
    }
    let rest1_len = rest1.as_str().unicode_len();
    let rest2 = substring(rest1.as_str(), second + 1, rest1_len);
    proof {
        assert(rest2@ =~= rest1@.skip(second + 1));
    }
    let third = match find_char(rest2.as_str(), '/') {
        None => {
            proof {
                assert(!rest2@.contains('/'));
                assert(spec_take_parts(rest2@, 1) == rest2@);
                assert(spec_take_parts(rest1@, 2) == rest1@.take(second + 1) + rest2@);
                assert(spec_take_parts(url@, 3) == url@.take(first + 1) + (rest1@.take(second + 1)
                    + rest2@));
                assert(url@.take(first + 1) + (rest1@.take(second + 1) + rest2@) =~= url@);
            }
            return url.to_owned();
        },
        Some(i) => i,
    };
    proof {
        assert(rest2@[third as int] == '/');
        lemma_first_slash(rest2@, third as int);
    }
    let head = substring(url, 0, first + 1);
    let mid = substring(rest1.as_str(), 0, second + 1);
    let tail = substring(rest2.as_str(), 0, third);
    let mut r = head;
    r.append(mid.as_str());
    r.append(tail.as_str());
    proof {
        assert(spec_take_parts(rest2@, 1) == rest2@.take(third as int));
        assert(spec_take_parts(rest1@, 2) == rest1@.take(second + 1) + rest2@.take(third as int));
        assert(r@ =~= url@.take(first + 1) + (rest1@.take(second + 1) + rest2@.take(
            third as int,
        )));
    }
    r
}

proof fn lemma_first_slash(s: Seq<char>, i: int)
    requires
        0 <= i < s.len(),
        s[i] == '/',
        forall|j: int| 0 <= j < i ==> s[j] != '/',
    ensures
        spec_first_slash(s) == i,
{
    assert(0 <= i < s.len() && s[i] == '/' && (forall|j: int| 0 <= j < i ==> s[j] != '/'));
    let w = spec_first_slash(s);
    assert(0 <= w < s.len() && s[w] == '/' && (forall|j: int| 0 <= j < w ==> s[j] != '/'));
    if w < i {
        assert(s[w] != '/');
    }
    if i < w {
        assert(s[i] != '/');
    }
}

/// A `file://` URL for a local filesystem path.
pub fn file_url(path: &str) -> (r: String)
    ensures
        r@ == "file://"@ + path@,
{
    let mut r = String::new();
    r.append("file://");
    r.append(path);
    r
}

} // verus!
