//! Plain-data models of GitHub API responses and the pure logic over
//! them: authorization headers, coalescing push events, and collecting
//! the commit ids to fetch. Network fetching and JSON decoding live with
//! the caller, which hands these functions ready values.

use vstd::prelude::*;

use crate::text::{str_eq, substring};

verus! {

/// A user's public profile.
#[derive(Debug, Clone)]
pub struct GitHubUser {
    pub login: String,
    pub name: Option<String>,
    pub bio: Option<String>,
    pub location: Option<String>,
    pub company: Option<String>,
    pub blog: Option<String>,
    pub email: Option<String>,
    pub public_repos: u64,
    pub followers: u64,
    pub following: u64,
    pub created_at: String,
    pub html_url: String,
}

/// One repository as the API reports it.
#[derive(Debug, Clone)]
pub struct GitHubRepo {
    pub name: String,
    pub full_name: String,
    pub html_url: String,
    pub description: Option<String>,
    pub language: Option<String>,
    pub stargazers_count: u64,
    pub forks_count: u64,
    pub pushed_at: Option<String>,
    pub updated_at: Option<String>,
    pub fork: bool,
    pub open_issues_count: u64,
    /// Size in KB.
    pub size: u64,
    pub created_at: Option<String>,
}

/// The repository an event happened in.
#[derive(Debug, Clone)]
pub struct EventRepo {
    pub name: String,
}

/// One commit entry inside a push event's payload.
#[derive(Debug, Clone)]
pub struct CommitEntry {
    pub sha: Option<String>,
    pub message: Option<String>,
}

/// The fields of an event payload that the report reads, as plain
/// values. Absent fields are `None` (or an empty commit list).
#[derive(Debug, Clone)]
pub struct EventPayload {
    /// The git ref a push or create/delete event concerns.
    pub ref_name: Option<String>,
    pub ref_type: Option<String>,
    /// Total number of commits in a push.
    pub size: Option<u64>,
    /// The resulting HEAD commit id of a push.
    pub head: Option<String>,
    pub commits: Vec<CommitEntry>,
    pub action: Option<String>,
    pub pr_number: Option<u64>,
    pub pr_title: Option<String>,
    pub pr_merged: Option<bool>,
    pub pr_additions: Option<u64>,
    pub pr_deletions: Option<u64>,
    pub pr_changed_files: Option<u64>,
    pub pr_html_url: Option<String>,
    pub issue_number: Option<u64>,
    pub issue_title: Option<String>,
    pub issue_html_url: Option<String>,
    pub comment_html_url: Option<String>,
    pub review_state: Option<String>,
    pub forkee_full_name: Option<String>,
    pub forkee_html_url: Option<String>,
    pub release_tag: Option<String>,
    pub release_html_url: Option<String>,
    pub member_login: Option<String>,
}

impl EventPayload {
    /// A payload with nothing in it.
    pub fn empty() -> (r: EventPayload)
        ensures
            r.ref_name is None,
            r.commits@.len() == 0,
            r.head is None,
            r.size is None,
    {
        EventPayload {
            ref_name: None,
            ref_type: None,
            size: None,
            head: None,
            commits: Vec::new(),
            action: None,
            pr_number: None,
            pr_title: None,
            pr_merged: None,
            pr_additions: None,
            pr_deletions: None,
            pr_changed_files: None,
            pr_html_url: None,
            issue_number: None,
            issue_title: None,
            issue_html_url: None,
            comment_html_url: None,
            review_state: None,
            forkee_full_name: None,
            forkee_html_url: None,
            release_tag: None,
            release_html_url: None,
            member_login: None,
        }
    }
}

/// One event from a user's public feed.
#[derive(Debug, Clone)]
pub struct GitHubEvent {
    pub kind: String,
    pub repo: EventRepo,
    pub payload: EventPayload,
    pub created_at: String,
}

/// A commit's author.
#[derive(Debug, Clone)]
pub struct CommitAuthor {
    pub name: String,
    pub date: String,
}

/// A commit's message and author.
#[derive(Debug, Clone)]
pub struct CommitInfo {
    pub message: String,
    pub author: CommitAuthor,
}

/// One changed file of a commit, with its unified diff.
#[derive(Debug, Clone)]
pub struct CommitFile {
    pub filename: String,
    pub status: String,
    pub additions: u64,
    pub deletions: u64,
    pub patch: Option<String>,
}

/// A single commit with its file patches.
#[derive(Debug, Clone)]
pub struct CommitDetail {
    pub sha: String,
    pub html_url: String,
    pub commit: CommitInfo,
    pub files: Vec<CommitFile>,
}

/// The Authorization header value for a token, if one is set.
pub fn auth_header(token: Option<&str>) -> (r: Option<String>)
    ensures
        match token {
            Some(t) => r matches Some(h) && h@ == "Bearer "@ + t@,
            None => r is None,
        },
{
    match token {
        Some(t) => {
            let mut h = String::new();
            h.append("Bearer ");
            h.append(t);
            Some(h)
        },
        None => None,
    }
}

/// The date part of an event's timestamp: its first ten characters (the
/// whole string when shorter).
pub open spec fn spec_event_date(e: GitHubEvent) -> Seq<char> {
    if e.created_at@.len() >= 10 {
        e.created_at@.take(10)
    } else {
        e.created_at@
    }
}

/// The branch of a push event: its payload's ref, or empty when absent.
pub open spec fn spec_event_branch(e: GitHubEvent) -> Seq<char> {
    match e.payload.ref_name {
        Some(r) => r@,
        None => Seq::empty(),
    }
}

/// Two push events land in the same coalescing bucket when they share
/// the day, the repository, and the branch.
pub open spec fn spec_same_push_key(a: GitHubEvent, b: GitHubEvent) -> bool {
    &&& spec_event_date(a) == spec_event_date(b)
    &&& a.repo.name@ == b.repo.name@
    &&& spec_event_branch(a) == spec_event_branch(b)
}

/// Would event `e` be kept, given the events already kept? Every
/// non-push event is; a push event only when no kept push event shares
/// its (day, repository, branch) key.
pub open spec fn spec_keep_event(kept: Seq<GitHubEvent>, e: GitHubEvent) -> bool {
    ||| e.kind@ != "PushEvent"@
    ||| forall|u: int|
        0 <= u < kept.len() ==> !((#[trigger] kept[u]).kind@ == "PushEvent"@
            && spec_same_push_key(kept[u], e))
}

/// The coalesced event list: `kept` extended with every event of
/// `events`, in order, that [`spec_keep_event`] admits. Since the first
/// push of each (day, repository, branch) key is always kept, this keeps
/// exactly the first push per key and every non-push event.
pub open spec fn spec_coalesce(events: Seq<GitHubEvent>, kept: Seq<GitHubEvent>) -> Seq<
    GitHubEvent,
>
    decreases events.len(),
{
    if events.len() == 0 {
        kept
    } else if spec_keep_event(kept, events[0]) {
        spec_coalesce(events.skip(1), kept.push(events[0]))
    } else {
        spec_coalesce(events.skip(1), kept)
    }
}

fn event_date(e: &GitHubEvent) -> (r: String)
    ensures
        r@ == spec_event_date(*e),
{
    let n = e.created_at.as_str().unicode_len();
    if n >= 10 {
        substring(e.created_at.as_str(), 0, 10)
    } else {
        e.created_at.clone()
    }
}

fn same_push_key(a: &GitHubEvent, b: &GitHubEvent) -> (r: bool)
    ensures
        r == spec_same_push_key(*a, *b),
{
    let da = event_date(a);
    let db = event_date(b);
    if !str_eq(da.as_str(), db.as_str()) {
        return false;
    }
    if !str_eq(a.repo.name.as_str(), b.repo.name.as_str()) {
        return false;
    }
    let ba: &str = match &a.payload.ref_name {
        Some(r) => r.as_str(),
        None => "",
    };
    let bb: &str = match &b.payload.ref_name {
        Some(r) => r.as_str(),
        None => "",
    };
    proof {
        reveal_strlit("");
        assert(""@ =~= Seq::<char>::empty());
    }
    str_eq(ba, bb)
}

/// Keeps only the first push event per day, repository and branch; all
/// other events pass through unchanged, in order.
pub fn coalesce_push_events(events: Vec<GitHubEvent>) -> (r: Vec<GitHubEvent>)
    ensures
        r@ == spec_coalesce(events@, Seq::empty()),
{
    let ghost orig = events@;
    let mut rest = events;
    let mut out: Vec<GitHubEvent> = Vec::new();
    while rest.len() > 0
        invariant
            spec_coalesce(rest@, out@) == spec_coalesce(orig, Seq::empty()),
        decreases rest@.len(),
    {
        let ghost rest0 = rest@;
        let e = rest.remove(0);
        proof {
            assert(rest@ =~= rest0.skip(1));
        }
        let is_push = str_eq(e.kind.as_str(), "PushEvent");
        let mut keep = true;
        if is_push {
            let mut j: usize = 0;
            while j < out.len()
                invariant
                    j <= out@.len(),
                    keep == (forall|u: int|
                        0 <= u < j ==> !((#[trigger] out@[u]).kind@ == "PushEvent"@
                            && spec_same_push_key(out@[u], e))),
                decreases out@.len() - j,
            {
                let other = &out[j];
                let other_push = str_eq(other.kind.as_str(), "PushEvent");
                let mut key_match = false;
                if other_push {
                    key_match = same_push_key(other, &e);
                }
                if other_push && key_match {
                    keep = false;
                }
                j = j + 1;
            }
        }
        proof {
            assert(keep == spec_keep_event(out@, e));
        }
        if keep {
            out.push(e);
        }
    }
    proof {
        assert(rest@.len() == 0);
    }
    out
}

/// A (repository, commit id) pair to fetch the details of.
#[derive(Debug, Clone)]
pub struct PushSha {
    pub repo: String,
    pub sha: String,
}

/// The (repository, sha) pairs a single push event contributes: one per
/// commit entry that carries a sha; when none do, the push's HEAD sha
/// stands in (force pushes and rebases omit the commit list).
pub open spec fn spec_event_shas(e: GitHubEvent) -> Seq<(Seq<char>, Seq<char>)> {
    if e.kind@ != "PushEvent"@ {
        Seq::empty()
    } else {
        let from_commits = spec_commit_shas(e.payload.commits@, e.repo.name@);
        if from_commits.len() > 0 {
            from_commits
        } else {
            match e.payload.head {
                Some(h) => seq![(e.repo.name@, h@)],
                None => Seq::empty(),
            }
        }
    }
}

/// The (repository, sha) pairs of the commit entries that carry a sha.
pub open spec fn spec_commit_shas(commits: Seq<CommitEntry>, repo: Seq<char>) -> Seq<
    (Seq<char>, Seq<char>),
>
    decreases commits.len(),
{
    if commits.len() == 0 {
        Seq::empty()
    } else {
        let rest = spec_commit_shas(commits.drop_last(), repo);
        match commits.last().sha {
            Some(s) => rest.push((repo, s@)),
            None => rest,
        }
    }
}

/// All (repository, sha) pairs of all push events, in feed order.
pub open spec fn spec_all_shas(events: Seq<GitHubEvent>) -> Seq<(Seq<char>, Seq<char>)>
    decreases events.len(),
{
    if events.len() == 0 {
        Seq::empty()
    } else {
        spec_all_shas(events.drop_last()) + spec_event_shas(events.last())
    }
}

/// The view of a collected pair list.
pub open spec fn spec_push_shas_view(v: Seq<PushSha>) -> Seq<(Seq<char>, Seq<char>)> {
    v.map_values(|p: PushSha| (p.repo@, p.sha@))
}

/// Extracts up to `limit` (repository, sha) pairs from the push events,
/// newest first: the first `limit` entries of the flattened per-event
/// sha lists.
pub fn extract_push_shas(events: &Vec<GitHubEvent>, limit: usize) -> (r: Vec<PushSha>)
    ensures
        spec_push_shas_view(r@) == spec_all_shas(events@).take(
            if limit as int <= spec_all_shas(events@).len() {
                limit as int
            } else {
                spec_all_shas(events@).len() as int
            },
        ),
{
    let mut out: Vec<PushSha> = Vec::new();
    let mut i: usize = 0;
    proof {
        assert(events@.take(0) =~= Seq::<GitHubEvent>::empty());
        assert(spec_push_shas_view(out@) =~= spec_all_shas(events@.take(0)));
    }
    while i < events.len()
        invariant
            i <= events@.len(),
            spec_push_shas_view(out@) == spec_all_shas(events@.take(i as int)),
        decreases events@.len() - i,
    {
        let e = &events[i];
        let ghost pre = spec_all_shas(events@.take(i as int));
        proof {
            assert(events@.take(i + 1).drop_last() =~= events@.take(i as int));
            assert(events@.take(i + 1).last() == events@[i as int]);
        }
        if str_eq(e.kind.as_str(), "PushEvent") {
            let mut added = false;
            let mut k: usize = 0;
            let ghost repo_view = e.repo.name@;
            while k < e.payload.commits.len()
                invariant
                    k <= e.payload.commits@.len(),
                    repo_view == e.repo.name@,
                    spec_push_shas_view(out@) == pre + spec_commit_shas(
                        e.payload.commits@.take(k as int),
                        repo_view,
                    ),
                    added == (spec_commit_shas(e.payload.commits@.take(k as int), repo_view).len()
                        > 0),
                decreases e.payload.commits@.len() - k,
            {
                let c = &e.payload.commits[k];
                proof {
                    assert(e.payload.commits@.take(k + 1).drop_last() =~= e.payload.commits@.take(
                        k as int,
                    ));
                    assert(e.payload.commits@.take(k + 1).last() == e.payload.commits@[k as int]);
                }
                if let Some(sha) = &c.sha {
                    let ghost out0 = out@;
                    out.push(PushSha { repo: e.repo.name.clone(), sha: sha.clone() });
                    added = true;
                    proof {
                        let prev = spec_commit_shas(e.payload.commits@.take(k as int), repo_view);
                        let x = (repo_view, sha@);
                        assert(out@ == out0.push(PushSha { repo: e.repo.name, sha: *sha }));
                        assert(spec_push_shas_view(out@) =~= (pre + prev).push(x));
                        assert(spec_commit_shas(e.payload.commits@.take(k + 1), repo_view)
                            == prev.push(x));
                        assert((pre + prev).push(x) =~= pre + prev.push(x));
                    }
                }
                k = k + 1;
            }
            proof {
                assert(e.payload.commits@.take(e.payload.commits@.len() as int)
                    =~= e.payload.commits@);
            }
            if !added {
                if let Some(h) = &e.payload.head {
                    out.push(PushSha { repo: e.repo.name.clone(), sha: h.clone() });
                    proof {
                        assert(spec_push_shas_view(out@) =~= pre + spec_event_shas(
                            events@[i as int],
                        ));
                    }
                }
            }
            proof {
                assert(spec_push_shas_view(out@) =~= pre + spec_event_shas(events@[i as int]));
            }
        } else {
            proof {
                assert(spec_event_shas(events@[i as int]) =~= Seq::<(Seq<char>, Seq<char>)>::empty());
                assert(spec_push_shas_view(out@) =~= pre + spec_event_shas(events@[i as int]));
            }
        }
        i = i + 1;
    }
    proof {
        assert(events@.take(events@.len() as int) =~= events@);
    }
    out.truncate(limit);
    proof {
        let all = spec_all_shas(events@);
        if limit as int <= all.len() {
            assert(spec_push_shas_view(out@) =~= all.take(limit as int));
        } else {
            assert(out@.len() == all.len());
            assert(spec_push_shas_view(out@) =~= all.take(all.len() as int));
        }
    }
    out
}


} // verus!
