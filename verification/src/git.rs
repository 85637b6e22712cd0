//! Pure repository-path and remote-URL logic: recognising remote URLs,
//! extracting repository names, normalising remotes to `https://`, and
//! parsing the output of a one-commit log query. All process and
//! filesystem work lives with the caller; these functions see only
//! strings.

use vstd::prelude::*;

use crate::error::Error;
use crate::text::{
    contains_char, find_char, spec_split, spec_starts_with, spec_trim, split_char, starts_with,
    strip_prefix, strip_suffix, substring, trim,
};

verus! {

/// Does `s` look like a remote git URL: one of the `https`, `http`,
/// `git` or `ssh` schemes, or an SCP-style `user@host:path` form that is
/// not an absolute local path?
pub open spec fn spec_is_remote_url(s: Seq<char>) -> bool {
    ||| spec_starts_with(s, "https://"@)
    ||| spec_starts_with(s, "http://"@)
    ||| spec_starts_with(s, "git://"@)
    ||| spec_starts_with(s, "ssh://"@)
    ||| (s.contains('@') && s.contains(':') && !(s.len() > 0 && s[0] == '/'))
}

/// Returns `true` if `s` looks like a remote git URL.
pub fn is_remote_url(s: &str) -> (r: bool)
    ensures
        r == spec_is_remote_url(s@),
{
    if starts_with(s, "https://") || starts_with(s, "http://") || starts_with(s, "git://")
        || starts_with(s, "ssh://") {
        return true;
    }
    let has_at = contains_char(s, '@');
    let has_colon = contains_char(s, ':');
    let absolute = starts_with(s, "/");
    proof {
        reveal_strlit("/");
        if absolute {
            assert(s@.take(1)[0] == '/');
        }
        if s@.len() > 0 && s@[0] == '/' {
            assert(s@.take(1) =~= "/"@);
        }
    }
    has_at && has_colon && !absolute
}

/// `s` with every trailing ".git" removed.
pub open spec fn spec_trim_git(s: Seq<char>) -> Seq<char>
    decreases s.len(),
{
    if s.len() >= 4 && s.skip(s.len() - 4) == ".git"@ {
        spec_trim_git(s.take(s.len() - 4))
    } else {
        s
    }
}

/// Extracts the repository name from a remote URL: the last `/`- or
/// `:`-separated segment, with any trailing ".git" removed.
pub fn repo_name_from_url(url: &str) -> (r: String)
    ensures
        (forall|j: int| 0 <= j < url@.len() ==> url@[j] != '/' && url@[j] != ':') ==> r@
            == spec_trim_git(url@),
        (exists|j: int| 0 <= j < url@.len() && (url@[j] == '/' || url@[j] == ':')) ==> exists|
            i: int,
        |
            {
                &&& 0 <= i < url@.len()
                &&& (url@[i] == '/' || url@[i] == ':')
                &&& (forall|j: int| i < j < url@.len() ==> url@[j] != '/' && url@[j] != ':')
                &&& r@ == spec_trim_git(url@.skip(i + 1))
            },
{
    let n = url.unicode_len();
    let mut i: usize = n;
    let mut seg = url.to_owned();
    while i > 0
        invariant_except_break
            seg@ == url@,
        invariant
            n == url@.len(),
            i <= n,
            forall|j: int| i <= j < n ==> url@[j] != '/' && url@[j] != ':',
        ensures
            i <= n,
            forall|j: int| i <= j < n ==> url@[j] != '/' && url@[j] != ':',
            i > 0 ==> (url@[i - 1] == '/' || url@[i - 1] == ':') && seg@ == url@.skip(i as int),
            i == 0 ==> seg@ == url@,
        decreases i,
    {
        let c = url.get_char(i - 1);
        if c == '/' || c == ':' {
            seg = substring(url, i, n);
            proof {
                assert(seg@ =~= url@.skip(i as int));
            }
            break ;
        }
        i = i - 1;
    }
    let ghost base = seg@;
    let mut out = seg;
    loop
        invariant
            spec_trim_git(out@) == spec_trim_git(base),
        ensures
            out@ == spec_trim_git(base),
        decreases out@.len(),
    {
        match strip_suffix(out.as_str(), ".git") {
            Some(rest) => {
                proof {
                    reveal_strlit(".git");
                    assert(out@.len() >= 4 && out@.skip(out@.len() - 4) == ".git"@);
                }
                out = rest;
            },
            None => {
                proof {
                    reveal_strlit(".git");
                    assert(!(out@.len() >= 4 && out@.skip(out@.len() - 4) == ".git"@));
                }
                break ;
            },
        }
    }
    out
}

/// Normalizes a git remote URL to an `https://` URL: SCP-style
/// `git@host:path` and `ssh://` URLs become their `https://`
/// equivalents; `https://` and `http://` URLs (and anything
/// unrecognised) are returned unchanged.
pub fn normalize_to_https(url: &str) -> (r: String)
    ensures
        spec_starts_with(url@, "https://"@) || spec_starts_with(url@, "http://"@) ==> r@ == url@,
        !spec_starts_with(url@, "https://"@) && !spec_starts_with(url@, "http://"@)
            && spec_starts_with(url@, "git@"@) ==> {
            ||| exists|i: int|
                {
                    &&& 0 <= i < url@.len() - 4
                    &&& url@.skip(4)[i] == ':'
                    &&& (forall|j: int| 0 <= j < i ==> url@.skip(4)[j] != ':')
                    &&& r@ == "https://"@ + url@.skip(4).take(i) + "/"@ + url@.skip(4).skip(i + 1)
                }
            ||| ((forall|j: int| 0 <= j < url@.len() - 4 ==> url@.skip(4)[j] != ':') && r@ == url@)
        },
        !spec_starts_with(url@, "https://"@) && !spec_starts_with(url@, "http://"@)
            && !spec_starts_with(url@, "git@"@) && spec_starts_with(url@, "ssh://git@"@) ==> r@
            == "https://"@ + url@.skip(10),
        !spec_starts_with(url@, "https://"@) && !spec_starts_with(url@, "http://"@)
            && !spec_starts_with(url@, "git@"@) && !spec_starts_with(url@, "ssh://git@"@)
            && spec_starts_with(url@, "ssh://"@) ==> r@ == "https://"@ + url@.skip(6),
        !spec_starts_with(url@, "https://"@) && !spec_starts_with(url@, "http://"@)
            && !spec_starts_with(url@, "git@"@) && !spec_starts_with(url@, "ssh://"@) ==> r@
            == url@,
{
    if starts_with(url, "https://") || starts_with(url, "http://") {
        return url.to_owned();
    }
    if let Some(rest) = strip_prefix(url, "git@") {
        proof {
            reveal_strlit("git@");
        }
        match find_char(rest.as_str(), ':') {
            Some(colon) => {
                let host = substring(rest.as_str(), 0, colon);
                let tail_len = rest.unicode_len();
                let tail = substring(rest.as_str(), colon + 1, tail_len);
                let mut out = String::new();
                out.append("https://");
                out.append(host.as_str());
                out.append("/");
                out.append(tail.as_str());
                proof {
                    assert(host@ =~= url@.skip(4).take(colon as int));
                    assert(tail@ =~= url@.skip(4).skip(colon + 1));
                }
                return out;
            },
            None => {
                return url.to_owned();
            },
        }
    }
    if let Some(rest) = strip_prefix(url, "ssh://git@") {
        proof {
            reveal_strlit("ssh://git@");
            reveal_strlit("ssh://");
            assert(url@.take(6) =~= "ssh://"@);
        }
        let mut out = String::new();
        out.append("https://");
        out.append(rest.as_str());
        return out;
    }
    if let Some(rest) = strip_prefix(url, "ssh://") {
        proof {
            reveal_strlit("ssh://");
        }
        let mut out = String::new();
        out.append("https://");
        out.append(rest.as_str());
        return out;
    }
    url.to_owned()
}

/// A temporary clone directory, remembered by its path. Creating and
/// removing the directory on disk is the caller's task.
pub struct TempCloneDir {
    pub path: String,
}

impl TempCloneDir {
    /// Wraps the path of an already-created temporary directory.
    pub fn new(path: String) -> (r: TempCloneDir)
        ensures
            r.path@ == path@,
    {
        TempCloneDir { path }
    }

    /// The directory's path.
    pub fn path(&self) -> (r: &String)
        ensures
            r@ == self.path@,
    {
        &self.path
    }
}

/// Describes what a user-supplied path resolved to.
#[derive(Debug, Clone)]
pub struct RepoInfo {
    /// Git repo root (git mode) or canonical directory path.
    pub root: String,
    /// Whether `root` is inside a git repository.
    pub is_git: bool,
    /// Subdirectory scope within the git repo, relative to `root`.
    pub scope: Option<String>,
    /// When the user supplied a single file, its path relative to `root`.
    pub single_file: Option<String>,
}


/// Classifies what a user-supplied path resolved to, from facts the
/// caller gathered: whether the canonical path is a file or directory,
/// the git repository root when one was found, the path's parent and
/// file name, and the path relative to that root when it lies under it.
///
/// The four supported shapes: a file inside a git repo, a directory
/// inside a git repo (scoped when it is a strict subdirectory), a git
/// repo root, and a plain file or directory outside git. Anything else
/// is an error naming the path.
pub fn resolve_repo_info(
    canonical: &String,
    is_file: bool,
    is_dir: bool,
    git_root: Option<&String>,
    parent: Option<&String>,
    file_name: Option<&String>,
    rel_to_root: Option<&String>,
) -> (r: Result<RepoInfo, Error>)
    ensures
        ({
            match git_root {
                Some(root) => {
                    if is_file {
                        match rel_to_root {
                            Some(rel) => (r matches Ok(info) && info.root@ == root@ && info.is_git
                                && info.scope is None && (info.single_file matches Some(f) && f@
                                == rel@)),
                            None => (r matches Err(e) && e matches Error::NotARepo(p) && p@
                                == canonical@),
                        }
                    } else {
                        r matches Ok(info) && info.root@ == root@ && info.is_git
                            && info.single_file is None && (match rel_to_root {
                            Some(rel) => canonical@ != root@ ==> (info.scope matches Some(s) && s@
                                == rel@),
                            None => info.scope is None,
                        }) && (canonical@ == root@ ==> info.scope is None)
                    }
                },
                None => {
                    if is_file {
                        match (parent, file_name) {
                            (Some(p), Some(f)) => (r matches Ok(info) && info.root@ == p@
                                && !info.is_git && info.scope is None && (info.single_file
                                matches Some(sf) && sf@ == f@)),
                            _ => (r matches Err(e) && e matches Error::NotARepo(p2) && p2@
                                == canonical@),
                        }
                    } else if is_dir {
                        r matches Ok(info) && info.root@ == canonical@ && !info.is_git
                            && info.scope is None && info.single_file is None
                    } else {
                        r matches Err(e) && e matches Error::NotARepo(p) && p@ == canonical@
                    }
                },
            }
        }),
{
    match git_root {
        Some(root) => {
            if is_file {
                match rel_to_root {
                    Some(rel) => Ok(
                        RepoInfo {
                            root: root.clone(),
                            is_git: true,
                            scope: None,
                            single_file: Some(rel.clone()),
                        },
                    ),
                    None => Err(Error::NotARepo(canonical.clone())),
                }
            } else {
                let scope: Option<String> = if !crate::text::str_eq(
                    canonical.as_str(),
                    root.as_str(),
                ) {
                    match rel_to_root {
                        Some(rel) => Some(rel.clone()),
                        None => None,
                    }
                } else {
                    None
                };
                Ok(RepoInfo { root: root.clone(), is_git: true, scope, single_file: None })
            }
        },
        None => {
            if is_file {
                match (parent, file_name) {
                    (Some(p), Some(f)) => Ok(
                        RepoInfo {
                            root: p.clone(),
                            is_git: false,
                            scope: None,
                            single_file: Some(f.clone()),
                        },
                    ),
                    _ => Err(Error::NotARepo(canonical.clone())),
                }
            } else if is_dir {
                Ok(
                    RepoInfo {
                        root: canonical.clone(),
                        is_git: false,
                        scope: None,
                        single_file: None,
                    },
                )
            } else {
                Err(Error::NotARepo(canonical.clone()))
            }
        },
    }
}

/// The commit fields parsed out of a one-commit log query.
#[derive(Debug, Clone)]
pub struct CommitLog {
    pub commit_hash: String,
    pub commit_hash_short: String,
    pub commit_date: String,
    pub commit_message: String,
    pub commit_author: String,
    pub commit_author_email: String,
}

/// Parses the output of a one-commit log query whose format is: hash,
/// date, one or more subject lines, author name, author email — one
/// field per line. Missing fields come back empty.
pub fn parse_commit_log(output: &str) -> (r: CommitLog)
    ensures
        ({
            let lines = spec_split(spec_trim(output@), '\n');
            &&& r.commit_hash@ == lines[0]
            &&& r.commit_hash_short@ == lines[0].take(if lines[0].len() < 7 {
                lines[0].len() as int
            } else {
                7
            })
            &&& r.commit_date@ == if lines.len() >= 2 {
                lines[1]
            } else {
                Seq::<char>::empty()
            }
            &&& lines.len() >= 4 ==> r.commit_author@ == lines[lines.len() - 2]
                && r.commit_author_email@ == lines[lines.len() - 1]
            &&& lines.len() == 3 ==> r.commit_author@ == lines[2]
                && r.commit_author_email@.len() == 0
            &&& lines.len() <= 2 ==> r.commit_author@.len() == 0 && r.commit_author_email@.len()
                == 0 && r.commit_message@.len() == 0
        }),
{
    let trimmed = trim(output);
    let lines = split_char(trimmed.as_str(), '\n');
    proof {
        assert(lines@.len() >= 1);
        assert(lines.deep_view()[0] == lines@[0]@);
    }
    let commit_hash = lines[0].clone();
    proof {
        assert(commit_hash@ == lines.deep_view()[0]);
    }
    let hash_len = commit_hash.as_str().unicode_len();
    let short_len = if hash_len < 7 {
        hash_len
    } else {
        7
    };
    let commit_hash_short = substring(commit_hash.as_str(), 0, short_len);
    proof {
        assert(commit_hash_short@ =~= commit_hash@.take(short_len as int));
    }
    let commit_date = if lines.len() >= 2 {
        let d = lines[1].clone();
        proof {
            assert(d@ == lines.deep_view()[1]);
        }
        d
    } else {
        String::new()
    };
    // Remaining lines: subject lines, then author name, then author email
    // (the last two lines, when present).
    let total = lines.len();
    let mut commit_message = String::new();
    let mut commit_author = String::new();
    let mut commit_author_email = String::new();
    proof {
        assert(lines.deep_view().len() == lines@.len());
    }
    if total >= 4 {
        let mut k: usize = 2;
        while k < total - 2
            invariant
                total == lines@.len(),
                2 <= k <= total - 2,
            decreases total - 2 - k,
        {
            if k > 2 {
                commit_message.append("\n");
            }
            commit_message.append(lines[k].as_str());
            k = k + 1;
        }
        commit_author = lines[total - 2].clone();
        commit_author_email = lines[total - 1].clone();
        proof {
            assert(commit_author@ == lines.deep_view()[total - 2]);
            assert(commit_author_email@ == lines.deep_view()[total - 1]);
        }
    } else if total == 3 {
        commit_author = lines[2].clone();
        proof {
            assert(commit_author@ == lines.deep_view()[2]);
        }
    }
    CommitLog {
        commit_hash,
        commit_hash_short,
        commit_date,
        commit_message,
        commit_author,
        commit_author_email,
    }
}

} // verus!
