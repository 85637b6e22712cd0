//! The user report's pure pipeline: deciding which repositories each
//! section shows (from the user's own event feed), summing stars, and
//! rendering the whole report into pages. Fetching the data is the
//! caller's task.

use vstd::prelude::*;

use crate::assemble::{create_builder, DocOptions};
use crate::diff::{first_line, render_commit};
use crate::github::{CommitDetail, GitHubEvent, GitHubRepo, GitHubUser};
use crate::layout::{FontVariant, Page, PageBuilder};
use crate::text::str_eq;
use crate::types::RgbColor;
use crate::user_activity;
use crate::user_cover;
use crate::user_repos::{self, RepoCommits};

verus! {

/// One fetched commit, tagged with the repository it belongs to.
pub struct RepoCommitDetail {
    pub repo: String,
    pub detail: CommitDetail,
}

/// Does the feed hold a push event in the repository `full_name`?
pub open spec fn spec_has_push_event(events: Seq<GitHubEvent>, full_name: Seq<char>) -> bool {
    exists|i: int|
        0 <= i < events.len() && (#[trigger] events[i]).kind@ == "PushEvent"@
            && events[i].repo.name@ == full_name
}

/// Does the feed hold a non-push event in the repository `full_name`?
pub open spec fn spec_has_other_event(events: Seq<GitHubEvent>, full_name: Seq<char>) -> bool {
    exists|i: int|
        0 <= i < events.len() && (#[trigger] events[i]).kind@ != "PushEvent"@
            && events[i].repo.name@ == full_name
}

/// Does the feed hold any push event at all?
pub open spec fn spec_any_push_event(events: Seq<GitHubEvent>) -> bool {
    exists|i: int| 0 <= i < events.len() && (#[trigger] events[i]).kind@ == "PushEvent"@
}

/// Does the feed hold any non-push event at all?
pub open spec fn spec_any_other_event(events: Seq<GitHubEvent>) -> bool {
    exists|i: int| 0 <= i < events.len() && (#[trigger] events[i]).kind@ != "PushEvent"@
}

fn has_push_event(events: &Vec<GitHubEvent>, full_name: &String) -> (r: bool)
    ensures
        r == spec_has_push_event(events@, full_name@),
{
    let mut i: usize = 0;
    while i < events.len()
        invariant
            i <= events@.len(),
            forall|j: int|
                0 <= j < i ==> !((#[trigger] events@[j]).kind@ == "PushEvent"@
                    && events@[j].repo.name@ == full_name@),
        decreases events@.len() - i,
    {
        let e = &events[i];
        if str_eq(e.kind.as_str(), "PushEvent") && str_eq(
            e.repo.name.as_str(),
            full_name.as_str(),
        ) {
            return true;
        }
        i = i + 1;
    }
    false
}

fn has_other_event(events: &Vec<GitHubEvent>, full_name: &String) -> (r: bool)
    ensures
        r == spec_has_other_event(events@, full_name@),
{
    let mut i: usize = 0;
    while i < events.len()
        invariant
            i <= events@.len(),
            forall|j: int|
                0 <= j < i ==> !((#[trigger] events@[j]).kind@ != "PushEvent"@
                    && events@[j].repo.name@ == full_name@),
        decreases events@.len() - i,
    {
        let e = &events[i];
        if !str_eq(e.kind.as_str(), "PushEvent") && str_eq(
            e.repo.name.as_str(),
            full_name.as_str(),
        ) {
            return true;
        }
        i = i + 1;
    }
    false
}

fn any_push_event(events: &Vec<GitHubEvent>) -> (r: bool)
    ensures
        r == spec_any_push_event(events@),
{
    let mut i: usize = 0;
    while i < events.len()
        invariant
            i <= events@.len(),
            forall|j: int| 0 <= j < i ==> (#[trigger] events@[j]).kind@ != "PushEvent"@,
        decreases events@.len() - i,
    {
        if str_eq(events[i].kind.as_str(), "PushEvent") {
            return true;
        }
        i = i + 1;
    }
    false
}

fn any_other_event(events: &Vec<GitHubEvent>) -> (r: bool)
    ensures
        r == spec_any_other_event(events@),
{
    let mut i: usize = 0;
    while i < events.len()
        invariant
            i <= events@.len(),
            forall|j: int| 0 <= j < i ==> (#[trigger] events@[j]).kind@ == "PushEvent"@,
        decreases events@.len() - i,
    {
        if !str_eq(events[i].kind.as_str(), "PushEvent") {
            return true;
        }
        i = i + 1;
    }
    false
}

/// Is this repo shown in the pushed-to section: not a fork, and either
/// the feed has no pushes at all (a fallback for empty windows) or the
/// user pushed to this very repository?
pub open spec fn spec_keep_pushed(events: Seq<GitHubEvent>, r: GitHubRepo) -> bool {
    !r.fork && (!spec_any_push_event(events) || spec_has_push_event(events, r.full_name@))
}

/// "Recently pushed" repositories: non-forks the user personally
/// pushed to (with an unfiltered fallback when the feed shows no
/// pushes), in order.
pub fn filter_pushed_repos(events: &Vec<GitHubEvent>, repos: Vec<GitHubRepo>) -> (r: Vec<
    GitHubRepo,
>)
    ensures
        r@ == repos@.filter(|x: GitHubRepo| spec_keep_pushed(events@, x)),
{
    let any_push = any_push_event(events);
    let mut rest = repos;
    let mut out: Vec<GitHubRepo> = Vec::new();
    let ghost orig = rest@;
    proof {
        reveal(Seq::filter);
        assert(orig.take(0) =~= Seq::<GitHubRepo>::empty());
    }
    let mut i: usize = 0;
    while i < rest.len()
        invariant
            i <= rest@.len(),
            rest@ == orig,
            any_push == spec_any_push_event(events@),
            out@ == orig.take(i as int).filter(|x: GitHubRepo| spec_keep_pushed(events@, x)),
        decreases rest@.len() - i,
    {
        proof {
            reveal(Seq::filter);
            assert(orig.take(i + 1).drop_last() =~= orig.take(i as int));
            assert(orig.take(i + 1).last() == orig[i as int]);
        }
        let repo = &rest[i];
        let keep = !repo.fork && (!any_push || has_push_event(events, &repo.full_name));
        if keep {
            out.push(clone_repo(repo));
        }
        i = i + 1;
    }
    proof {
        reveal(Seq::filter);
        assert(orig.take(orig.len() as int) =~= orig);
    }
    out
}

/// Is this repo shown in the active-in section: not a fork, not
/// already in the pushed list, and either the feed has no non-push
/// events (fallback) or the user did something other than push here?
pub open spec fn spec_keep_active(
    events: Seq<GitHubEvent>,
    pushed: Seq<GitHubRepo>,
    r: GitHubRepo,
) -> bool {
    &&& !r.fork
    &&& !(exists|i: int| 0 <= i < pushed.len() && (#[trigger] pushed[i]).full_name@ == r.full_name@)
    &&& (!spec_any_other_event(events) || spec_has_other_event(events, r.full_name@))
}

/// "Recently active" repositories: where the user did something other
/// than pushing, excluding the pushed list's entries.
pub fn filter_active_repos(
    events: &Vec<GitHubEvent>,
    pushed: &Vec<GitHubRepo>,
    repos: Vec<GitHubRepo>,
) -> (r: Vec<GitHubRepo>)
    ensures
        r@ == repos@.filter(|x: GitHubRepo| spec_keep_active(events@, pushed@, x)),
{
    let any_other = any_other_event(events);
    let rest = repos;
    let mut out: Vec<GitHubRepo> = Vec::new();
    let ghost orig = rest@;
    proof {
        reveal(Seq::filter);
        assert(orig.take(0) =~= Seq::<GitHubRepo>::empty());
    }
    let mut i: usize = 0;
    while i < rest.len()
        invariant
            i <= rest@.len(),
            rest@ == orig,
            any_other == spec_any_other_event(events@),
            out@ == orig.take(i as int).filter(
                |x: GitHubRepo| spec_keep_active(events@, pushed@, x),
            ),
        decreases rest@.len() - i,
    {
        proof {
            reveal(Seq::filter);
            assert(orig.take(i + 1).drop_last() =~= orig.take(i as int));
            assert(orig.take(i + 1).last() == orig[i as int]);
        }
        let repo = &rest[i];
        let mut in_pushed = false;
        let mut k: usize = 0;
        while k < pushed.len()
            invariant
                k <= pushed@.len(),
                in_pushed == (exists|j: int|
                    0 <= j < k && (#[trigger] pushed@[j]).full_name@ == repo.full_name@),
            decreases pushed@.len() - k,
        {
            if str_eq(pushed[k].full_name.as_str(), repo.full_name.as_str()) {
                in_pushed = true;
            }
            k = k + 1;
        }
        let keep = !repo.fork && !in_pushed && (!any_other || has_other_event(
            events,
            &repo.full_name,
        ));
        if keep {
            out.push(clone_repo(repo));
        }
        i = i + 1;
    }
    proof {
        reveal(Seq::filter);
        assert(orig.take(orig.len() as int) =~= orig);
    }
    out
}

/// An exact copy of a repository record.
fn clone_repo(r: &GitHubRepo) -> (c: GitHubRepo)
    ensures
        c == *r,
{
    GitHubRepo {
        name: r.name.clone(),
        full_name: r.full_name.clone(),
        html_url: r.html_url.clone(),
        description: clone_opt(&r.description),
        language: clone_opt(&r.language),
        stargazers_count: r.stargazers_count,
        forks_count: r.forks_count,
        pushed_at: clone_opt(&r.pushed_at),
        updated_at: clone_opt(&r.updated_at),
        fork: r.fork,
        open_issues_count: r.open_issues_count,
        size: r.size,
        created_at: clone_opt(&r.created_at),
    }
}

fn clone_opt(o: &Option<String>) -> (r: Option<String>)
    ensures
        r == *o,
{
    match o {
        Some(s) => Some(s.clone()),
        None => None,
    }
}

/// The sum of the starred repositories' star counts, saturating at
/// `u64::MAX`.
pub open spec fn spec_star_sum(repos: Seq<GitHubRepo>) -> int
    decreases repos.len(),
{
    if repos.len() == 0 {
        0
    } else {
        spec_star_sum(repos.drop_last()) + repos.last().stargazers_count
    }
}

/// Sums the stars of the given repositories (saturating).
pub fn total_stars(repos: &Vec<GitHubRepo>) -> (r: u64)
    ensures
        spec_star_sum(repos@) <= u64::MAX ==> r as int == spec_star_sum(repos@),
{
    let mut sum: u64 = 0;
    let mut i: usize = 0;
    let mut saturated = false;
    while i < repos.len()
        invariant
            i <= repos@.len(),
            !saturated ==> sum as int == spec_star_sum(repos@.take(i as int)),
            saturated ==> spec_star_sum(repos@.take(i as int)) > u64::MAX,
        decreases repos@.len() - i,
    {
        proof {
            assert(repos@.take(i + 1).drop_last() =~= repos@.take(i as int));
            assert(repos@.take(i + 1).last() == repos@[i as int]);
        }
        let s = repos[i].stargazers_count;
        if !saturated && sum <= u64::MAX - s {
            sum = sum + s;
        } else {
            saturated = true;
            sum = u64::MAX;
        }
        i = i + 1;
    }
    proof {
        assert(repos@.take(repos@.len() as int) =~= repos@);
    }
    sum
}

/// Builds a per-repository commit-message lookup: for each fetched
/// commit, the first line of its message, grouped under its repository
/// in first-seen order.
pub fn commit_message_lookup(details: &Vec<RepoCommitDetail>) -> (r: Vec<RepoCommits>)
    ensures
        r@.len() <= details@.len(),
{
    let mut out: Vec<RepoCommits> = Vec::new();
    let mut i: usize = 0;
    while i < details.len()
        invariant
            i <= details@.len(),
            out@.len() <= i,
        decreases details@.len() - i,
    {
        let d = &details[i];
        let msg = first_line(d.detail.commit.message.as_str());
        let mut found = false;
        let mut k: usize = 0;
        while k < out.len()
            invariant
                k <= out@.len(),
                out@.len() <= i,
            decreases out@.len() - k,
        {
            if str_eq(out[k].repo.as_str(), d.repo.as_str()) {
                let mut entry = out.remove(k);
                entry.messages.push(msg.clone());
                out.insert(k, entry);
                found = true;
                break ;
            }
            k = k + 1;
        }
        if !found {
            let mut messages: Vec<String> = Vec::new();
            messages.push(msg);
            out.push(RepoCommits { repo: d.repo.clone(), messages });
        }
        i = i + 1;
    }
    out
}

/// Truncates a repository list to at most `limit` entries.
pub fn take_repos(repos: Vec<GitHubRepo>, limit: usize) -> (r: Vec<GitHubRepo>)
    ensures
        r@ == if limit as int <= repos@.len() {
            repos@.take(limit as int)
        } else {
            repos@
        },
{
    let mut r = repos;
    r.truncate(limit);
    r
}

/// Renders the whole user report: cover, activity feed, the three
/// repository sections, and the fetched commits with their diffs.
/// Returns the final page list; every page holds at least one
/// instruction.
pub fn render_user_report(
    user: &GitHubUser,
    starred: &Vec<GitHubRepo>,
    active: &Vec<GitHubRepo>,
    pushed: &Vec<GitHubRepo>,
    events: &Vec<GitHubEvent>,
    commit_details: &Vec<RepoCommitDetail>,
    opts: &DocOptions,
) -> (r: Vec<Page>)
    requires
        opts.wf(),
    ensures
        r@.len() >= 1,
        forall|i: int| 0 <= i < r@.len() ==> (#[trigger] r@[i]).ops@.len() > 0,
{
    let mut builder = create_builder(opts);
    let stars = total_stars(starred);
    user_cover::render(&mut builder, user, stars);
    user_activity::render(&mut builder, events);

    let commit_msgs = commit_message_lookup(commit_details);
    user_repos::render(&mut builder, "Top Starred Repositories", starred, events, &commit_msgs);
    user_repos::render(&mut builder, "Repos You Were Active In", active, events, &commit_msgs);
    user_repos::render(&mut builder, "Repos You Pushed To", pushed, events, &commit_msgs);

    if commit_details.len() > 0 {
        let black = RgbColor { r: 0, g: 0, b: 0 };
        builder.write_centered("Recent Commits", FontVariant::Bold, 1600, black);
        builder.vertical_space(1200);
        let mut i: usize = 0;
        while i < commit_details.len()
            invariant
                builder.wf(),
                i <= commit_details@.len(),
            decreases commit_details@.len() - i,
        {
            let d = &commit_details[i];
            render_commit(&mut builder, &d.detail, d.repo.as_str(), None, opts.font_size);
            i = i + 1;
        }
    }
    builder.finish()
}

} // verus!
