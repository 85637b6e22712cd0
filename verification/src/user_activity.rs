//! The activity-feed section of the user report: one dated group per
//! day, a description line per event (with the most relevant link), and
//! indented detail lines such as commit messages or diff stats.

use vstd::prelude::*;

use crate::diff::{first_line, spec_first_line};
use crate::github::{spec_event_branch, GitHubEvent};
use crate::layout::{lemma_prefix_trans, FontVariant, LinkTarget, PageBuilder, PageOp, Span};
use crate::text::{
    capitalise, spec_capitalise, spec_starts_with, spec_u64_string, str_eq, strip_prefix,
    substring, u64_to_string,
};
use crate::types::RgbColor;

verus! {

/// A description of one event: a main line and indented detail lines.
pub struct EventDescription {
    pub main: String,
    pub detail: Vec<String>,
}

/// The string of an optional field, or the fallback when it is absent.
pub open spec fn spec_opt_or(o: Option<String>, fallback: Seq<char>) -> Seq<char> {
    match o {
        Some(s) => s@,
        None => fallback,
    }
}

fn opt_or(o: &Option<String>, fallback: &str) -> (r: String)
    ensures
        r@ == spec_opt_or(*o, fallback@),
{
    match o {
        Some(s) => s.clone(),
        None => fallback.to_owned(),
    }
}

/// `s` with every leading "refs/heads/" removed.
pub open spec fn spec_strip_refs(s: Seq<char>) -> Seq<char>
    decreases s.len(),
{
    if spec_starts_with(s, "refs/heads/"@) && s.len() >= 11 {
        spec_strip_refs(s.skip(11))
    } else {
        s
    }
}

/// Strips every leading "refs/heads/" from a branch ref.
pub fn strip_refs(s: &str) -> (r: String)
    ensures
        r@ == spec_strip_refs(s@),
{
    let mut out = s.to_owned();
    loop
        invariant
            spec_strip_refs(out@) == spec_strip_refs(s@),
        ensures
            out@ == spec_strip_refs(s@),
        decreases out@.len(),
    {
        match strip_prefix(out.as_str(), "refs/heads/") {
            Some(rest) => {
                proof {
                    reveal_strlit("refs/heads/");
                }
                out = rest;
            },
            None => {
                proof {
                    reveal_strlit("refs/heads/");
                }
                break ;
            },
        }
    }
    out
}

/// The branch a push event names, with the ref prefix removed.
pub open spec fn spec_push_branch(e: GitHubEvent) -> Seq<char> {
    spec_strip_refs(spec_event_branch(e))
}

pub fn push_branch(e: &GitHubEvent) -> (r: String)
    ensures
        r@ == spec_push_branch(*e),
{
    match &e.payload.ref_name {
        Some(rn) => strip_refs(rn.as_str()),
        None => {
            proof {
                assert(spec_strip_refs(Seq::<char>::empty()) =~= Seq::<char>::empty());
            }
            String::new()
        },
    }
}

/// The commit count a push event reports: its `size` field when
/// positive, else the number of listed commits (force pushes and
/// rebases list none).
pub open spec fn spec_push_count(e: GitHubEvent) -> int {
    match e.payload.size {
        Some(n) => if n > 0 {
            n as int
        } else {
            e.payload.commits@.len() as int
        },
        None => e.payload.commits@.len() as int,
    }
}

/// The main line of a push event's description.
pub open spec fn spec_push_main(e: GitHubEvent) -> Seq<char> {
    if spec_push_count(e) > 0 {
        "Pushed "@ + spec_u64_string(spec_push_count(e)) + (if spec_push_count(e) == 1 {
            " commit to "@
        } else {
            " commits to "@
        }) + e.repo.name@ + " ("@ + spec_push_branch(e) + ")"@
    } else {
        "Pushed to "@ + e.repo.name@ + " ("@ + spec_push_branch(e) + ")"@
    }
}

/// The detail lines a push event's commit entries contribute: two
/// leading spaces plus the first line of each message present.
pub open spec fn spec_commit_msg_lines(cs: Seq<crate::github::CommitEntry>) -> Seq<Seq<char>>
    decreases cs.len(),
{
    if cs.len() == 0 {
        Seq::empty()
    } else {
        let rest = spec_commit_msg_lines(cs.drop_last());
        match cs.last().message {
            Some(m) => rest.push("  "@ + spec_first_line(m@)),
            None => rest,
        }
    }
}

/// Describes one event: what happened, in which repository, with
/// indented detail lines for pushes (up to five commit messages) and
/// pull requests (diff stats).
pub fn describe_event(event: &GitHubEvent) -> (r: EventDescription)
    ensures
        event.kind@ == "PushEvent"@ ==> r.main@ == spec_push_main(*event)
            && r.detail.deep_view() == spec_commit_msg_lines(event.payload.commits@).take(
            if spec_commit_msg_lines(event.payload.commits@).len() <= 5 {
                spec_commit_msg_lines(event.payload.commits@).len() as int
            } else {
                5
            },
        ),
        event.kind@ == "PullRequestEvent"@ ==> r.main@ == spec_capitalise(
            spec_pr_label(*event),
        ) + " PR #"@ + spec_u64_string(spec_opt_num(event.payload.pr_number)) + ": "@ + spec_opt_or(
            event.payload.pr_title,
            Seq::empty(),
        ) + " in "@ + event.repo.name@,
        event.kind@ == "WatchEvent"@ ==> r.main@ == "Starred "@ + event.repo.name@,
        r.main@.len() > 0,
{
    proof {
        reveal_strlit("PushEvent");
        reveal_strlit("PullRequestEvent");
        reveal_strlit("IssuesEvent");
        reveal_strlit("IssueCommentEvent");
        reveal_strlit("PullRequestReviewEvent");
        reveal_strlit("PullRequestReviewCommentEvent");
        reveal_strlit("CreateEvent");
        reveal_strlit("DeleteEvent");
        reveal_strlit("ForkEvent");
        reveal_strlit("WatchEvent");
        reveal_strlit("ReleaseEvent");
        reveal_strlit("CommitCommentEvent");
        reveal_strlit("GollumEvent");
        reveal_strlit("MemberEvent");
        reveal_strlit("PublicEvent");
        reveal_strlit("SponsorshipEvent");
        assert("PushEvent"@.len() == 9);
        assert("PullRequestEvent"@.len() == 16);
        assert("IssuesEvent"@.len() == 11);
        assert("IssueCommentEvent"@.len() == 17);
        assert("PullRequestReviewEvent"@.len() == 22);
        assert("PullRequestReviewCommentEvent"@.len() == 29);
        assert("CreateEvent"@.len() == 11);
        assert("DeleteEvent"@.len() == 11);
        assert("ForkEvent"@.len() == 9);
        assert("WatchEvent"@.len() == 10);
        assert("ReleaseEvent"@.len() == 12);
        assert("CommitCommentEvent"@.len() == 18);
        assert("GollumEvent"@.len() == 11);
        assert("MemberEvent"@.len() == 11);
        assert("PublicEvent"@.len() == 11);
        assert("SponsorshipEvent"@.len() == 16);
        assert("PushEvent"@[0] == 'P' && "ForkEvent"@[0] == 'F');
        assert("IssuesEvent"@[0] == 'I' && "CreateEvent"@[0] == 'C' && "DeleteEvent"@[0] == 'D'
            && "GollumEvent"@[0] == 'G' && "MemberEvent"@[0] == 'M' && "PublicEvent"@[0] == 'P');
        assert("MemberEvent"@[0] != "PublicEvent"@[0]);
        assert("IssuesEvent"@[1] == 's' && "CreateEvent"@[1] == 'r' && "DeleteEvent"@[1] == 'e'
            && "GollumEvent"@[1] == 'o' && "MemberEvent"@[1] == 'e' && "PublicEvent"@[1] == 'u');
    }
    let repo = &event.repo.name;
    if str_eq(event.kind.as_str(), "PushEvent") {
        let branch = push_branch(event);
        let listed = event.payload.commits.len() as u64;
        let count: u64 = match event.payload.size {
            Some(n) => if n > 0 {
                n
            } else {
                listed
            },
            None => listed,
        };
        let mut main = String::new();
        if count > 0 {
            main.append("Pushed ");
            let c = u64_to_string(count);
            main.append(c.as_str());
            if count == 1 {
                main.append(" commit to ");
            } else {
                main.append(" commits to ");
            }
            main.append(repo.as_str());
            main.append(" (");
            main.append(branch.as_str());
            main.append(")");
        } else {
            main.append("Pushed to ");
            main.append(repo.as_str());
            main.append(" (");
            main.append(branch.as_str());
            main.append(")");
        }
        proof {
            assert(main@ =~= spec_push_main(*event));
            reveal_strlit("Pushed ");
            reveal_strlit("Pushed to ");
            assert(main@.len() > 0);
        }
        let mut detail: Vec<String> = Vec::new();
        let mut i: usize = 0;
        let commits = &event.payload.commits;
        while i < commits.len()
            invariant
                i <= commits@.len(),
                detail@.len() <= 5,
                detail.deep_view() == spec_commit_msg_lines(commits@.take(i as int)).take(
                    if spec_commit_msg_lines(commits@.take(i as int)).len() <= 5 {
                        spec_commit_msg_lines(commits@.take(i as int)).len() as int
                    } else {
                        5
                    },
                ),
            ensures
                i <= commits@.len(),
                detail@.len() <= 5,
                detail.deep_view() == spec_commit_msg_lines(commits@.take(i as int)).take(
                    if spec_commit_msg_lines(commits@.take(i as int)).len() <= 5 {
                        spec_commit_msg_lines(commits@.take(i as int)).len() as int
                    } else {
                        5
                    },
                ),
                i == commits@.len() || detail@.len() == 5,
            decreases commits@.len() - i,
        {
            proof {
                assert(commits@.take(i + 1).drop_last() =~= commits@.take(i as int));
                assert(commits@.take(i + 1).last() == commits@[i as int]);
                lemma_commit_msg_lines_prefix(commits@, i as int);
            }
            if detail.len() >= 5 {
                break ;
            }
            let c = &commits[i];
            if let Some(m) = &c.message {
                let mut line = String::new();
                line.append("  ");
                let fl = first_line(m.as_str());
                line.append(fl.as_str());
                let ghost d0 = detail.deep_view();
                detail.push(line);
                proof {
                    assert(detail.deep_view() =~= d0.push("  "@ + spec_first_line(m@)));
                    let lines1 = spec_commit_msg_lines(commits@.take(i + 1));
                    assert(detail.deep_view() =~= lines1.take(
                        if lines1.len() <= 5 {
                            lines1.len() as int
                        } else {
                            5
                        },
                    ));
                    lemma_commit_msg_lines_mono(commits@, i + 1);
                }
            }
            i = i + 1;
        }
        proof {
            assert(commits@.take(commits@.len() as int) =~= commits@);
            if i < commits@.len() {
                lemma_commit_msg_lines_mono(commits@, i as int);
                assert(detail@.len() == 5);
                assert(spec_commit_msg_lines(commits@.take(i as int)).len() >= 5);
                assert(spec_commit_msg_lines(commits@).len() >= 5);
                assert(detail.deep_view() =~= spec_commit_msg_lines(commits@).take(5));
            }
        }
        return EventDescription { main, detail };
    }
    if str_eq(event.kind.as_str(), "PullRequestEvent") {
        let label = pr_label(event);
        let mut main = capitalise(label.as_str());
        main.append(" PR #");
        let num = u64_to_string(opt_num(&event.payload.pr_number));
        main.append(num.as_str());
        main.append(": ");
        let title = opt_or(&event.payload.pr_title, "");
        main.append(title.as_str());
        main.append(" in ");
        main.append(repo.as_str());
        proof {
            reveal_strlit("");
            assert(""@ =~= Seq::<char>::empty());
            assert(main@ =~= spec_capitalise(spec_pr_label(*event)) + " PR #"@ + spec_u64_string(
                spec_opt_num(event.payload.pr_number),
            ) + ": "@ + spec_opt_or(event.payload.pr_title, Seq::empty()) + " in "@
                + event.repo.name@);
            reveal_strlit(" PR #");
        }
        let mut detail: Vec<String> = Vec::new();
        match (event.payload.pr_additions, event.payload.pr_deletions, event.payload.pr_changed_files) {
            (Some(a), Some(d), Some(f)) => {
                let mut line = String::new();
                line.append("    +");
                let aa = u64_to_string(a);
                line.append(aa.as_str());
                line.append(" \u{2212}");
                let dd = u64_to_string(d);
                line.append(dd.as_str());
                line.append(" across ");
                let ff = u64_to_string(f);
                line.append(ff.as_str());
                if f == 1 {
                    line.append(" file");
                } else {
                    line.append(" files");
                }
                detail.push(line);
            },
            _ => (),
        }
        return EventDescription { main, detail };
    }
    if str_eq(event.kind.as_str(), "IssuesEvent") {
        let action = opt_or(&event.payload.action, "updated");
        let mut main = capitalise(action.as_str());
        main.append(" issue #");
        let num = u64_to_string(opt_num(&event.payload.issue_number));
        main.append(num.as_str());
        main.append(": ");
        let title = opt_or(&event.payload.issue_title, "");
        main.append(title.as_str());
        main.append(" in ");
        main.append(repo.as_str());
        proof {
            lemma_capitalise_keeps_len(spec_opt_or(event.payload.action, "updated"@));
            reveal_strlit("updated");
            reveal_strlit(" issue #");
        }
        return EventDescription { main, detail: Vec::new() };
    }
    if str_eq(event.kind.as_str(), "IssueCommentEvent") {
        let mut main = String::new();
        main.append("Commented on issue #");
        let num = u64_to_string(opt_num(&event.payload.issue_number));
        main.append(num.as_str());
        main.append(": ");
        let title = opt_or(&event.payload.issue_title, "");
        main.append(title.as_str());
        main.append(" in ");
        main.append(repo.as_str());
        proof {
            reveal_strlit("Commented on issue #");
        }
        return EventDescription { main, detail: Vec::new() };
    }
    if str_eq(event.kind.as_str(), "PullRequestReviewEvent") {
        let state = opt_or(&event.payload.review_state, "reviewed");
        let mut main = capitalise(state.as_str());
        main.append(" PR #");
        let num = u64_to_string(opt_num(&event.payload.pr_number));
        main.append(num.as_str());
        main.append(" in ");
        main.append(repo.as_str());
        proof {
            lemma_capitalise_keeps_len(spec_opt_or(event.payload.review_state, "reviewed"@));
            reveal_strlit("reviewed");
            reveal_strlit(" PR #");
        }
        return EventDescription { main, detail: Vec::new() };
    }
    if str_eq(event.kind.as_str(), "PullRequestReviewCommentEvent") {
        let mut main = String::new();
        main.append("Reviewed PR #");
        let num = u64_to_string(opt_num(&event.payload.pr_number));
        main.append(num.as_str());
        main.append(" in ");
        main.append(repo.as_str());
        proof {
            reveal_strlit("Reviewed PR #");
        }
        return EventDescription { main, detail: Vec::new() };
    }
    if str_eq(event.kind.as_str(), "CreateEvent") {
        let ref_type = opt_or(&event.payload.ref_type, "ref");
        let ref_name = opt_or(&event.payload.ref_name, "");
        let mut main = String::new();
        main.append("Created ");
        main.append(ref_type.as_str());
        if ref_name.as_str().unicode_len() == 0 {
            main.append(" ");
            main.append(repo.as_str());
        } else {
            main.append(" '");
            main.append(ref_name.as_str());
            main.append("' in ");
            main.append(repo.as_str());
        }
        proof {
            reveal_strlit("Created ");
        }
        return EventDescription { main, detail: Vec::new() };
    }
    if str_eq(event.kind.as_str(), "DeleteEvent") {
        let ref_type = opt_or(&event.payload.ref_type, "ref");
        let ref_name = opt_or(&event.payload.ref_name, "");
        let mut main = String::new();
        main.append("Deleted ");
        main.append(ref_type.as_str());
        main.append(" '");
        main.append(ref_name.as_str());
        main.append("' in ");
        main.append(repo.as_str());
        proof {
            reveal_strlit("Deleted ");
        }
        return EventDescription { main, detail: Vec::new() };
    }
    if str_eq(event.kind.as_str(), "ForkEvent") {
        let forkee = opt_or(&event.payload.forkee_full_name, repo.as_str());
        let mut main = String::new();
        main.append("Forked ");
        main.append(repo.as_str());
        main.append(" \u{2192} ");
        main.append(forkee.as_str());
        proof {
            reveal_strlit("Forked ");
        }
        return EventDescription { main, detail: Vec::new() };
    }
    if str_eq(event.kind.as_str(), "WatchEvent") {
        let mut main = String::new();
        main.append("Starred ");
        main.append(repo.as_str());
        proof {
            reveal_strlit("Starred ");
        }
        return EventDescription { main, detail: Vec::new() };
    }
    if str_eq(event.kind.as_str(), "ReleaseEvent") {
        let action = opt_or(&event.payload.action, "published");
        let tag = opt_or(&event.payload.release_tag, "");
        let mut main = capitalise(action.as_str());
        main.append(" release ");
        main.append(tag.as_str());
        main.append(" in ");
        main.append(repo.as_str());
        proof {
            lemma_capitalise_keeps_len(spec_opt_or(event.payload.action, "published"@));
            reveal_strlit("published");
            reveal_strlit(" release ");
        }
        return EventDescription { main, detail: Vec::new() };
    }
    if str_eq(event.kind.as_str(), "CommitCommentEvent") {
        let mut main = String::new();
        main.append("Commented on a commit in ");
        main.append(repo.as_str());
        proof {
            reveal_strlit("Commented on a commit in ");
        }
        return EventDescription { main, detail: Vec::new() };
    }
    if str_eq(event.kind.as_str(), "GollumEvent") {
        let mut main = String::new();
        main.append("Updated wiki in ");
        main.append(repo.as_str());
        proof {
            reveal_strlit("Updated wiki in ");
        }
        return EventDescription { main, detail: Vec::new() };
    }
    if str_eq(event.kind.as_str(), "MemberEvent") {
        let action = opt_or(&event.payload.action, "updated");
        let member = opt_or(&event.payload.member_login, "someone");
        let mut main = capitalise(action.as_str());
        main.append(" ");
        main.append(member.as_str());
        main.append(" as collaborator in ");
        main.append(repo.as_str());
        proof {
            lemma_capitalise_keeps_len(spec_opt_or(event.payload.action, "updated"@));
            reveal_strlit("updated");
            reveal_strlit(" as collaborator in ");
        }
        return EventDescription { main, detail: Vec::new() };
    }
    if str_eq(event.kind.as_str(), "PublicEvent") {
        let mut main = String::new();
        main.append("Made ");
        main.append(repo.as_str());
        main.append(" public");
        proof {
            reveal_strlit("Made ");
        }
        return EventDescription { main, detail: Vec::new() };
    }
    if str_eq(event.kind.as_str(), "SponsorshipEvent") {
        let mut main = String::new();
        main.append("Sponsorship activity in ");
        main.append(repo.as_str());
        proof {
            reveal_strlit("Sponsorship activity in ");
        }
        return EventDescription { main, detail: Vec::new() };
    }
    let mut main = event.kind.clone();
    main.append(" in ");
    main.append(repo.as_str());
    if main.as_str().unicode_len() == 0 {
        main.append("Activity");
        proof {
            reveal_strlit("Activity");
        }
    }
    EventDescription { main, detail: Vec::new() }
}

/// Once the first five detail lines exist, later commits add nothing to
/// the taken prefix.
proof fn lemma_commit_msg_lines_mono(cs: Seq<crate::github::CommitEntry>, i: int)
    requires
        0 <= i <= cs.len(),
    ensures
        spec_commit_msg_lines(cs.take(i)).len() <= spec_commit_msg_lines(cs).len(),
        forall|j: int|
            0 <= j < spec_commit_msg_lines(cs.take(i)).len() ==> spec_commit_msg_lines(cs.take(i))[j]
                == spec_commit_msg_lines(cs)[j],
    decreases cs.len() - i,
{
    if i < cs.len() {
        assert(cs.take(i + 1).drop_last() =~= cs.take(i));
        assert(cs.take(i + 1).last() == cs[i]);
        lemma_commit_msg_lines_mono(cs, i + 1);
    } else {
        assert(cs.take(i) =~= cs);
    }
}

/// The taken detail prefix is a prefix of the full list.
proof fn lemma_commit_msg_lines_prefix(cs: Seq<crate::github::CommitEntry>, i: int)
    requires
        0 <= i < cs.len(),
    ensures
        spec_commit_msg_lines(cs.take(i)).len() <= spec_commit_msg_lines(cs.take(i + 1)).len()
            <= spec_commit_msg_lines(cs.take(i)).len() + 1,
        forall|j: int|
            0 <= j < spec_commit_msg_lines(cs.take(i)).len() ==> spec_commit_msg_lines(cs.take(i))[j]
                == spec_commit_msg_lines(cs.take(i + 1))[j],
{
    assert(cs.take(i + 1).drop_last() =~= cs.take(i));
    assert(cs.take(i + 1).last() == cs[i]);
}

/// Capitalising keeps a string's length, so it keeps non-emptiness.
proof fn lemma_capitalise_keeps_len(s: Seq<char>)
    ensures
        spec_capitalise(s).len() == s.len(),
{
}

/// The label of a pull-request event: "merged" for a merged close,
/// otherwise its action (or "updated" when absent).
pub open spec fn spec_pr_label(e: GitHubEvent) -> Seq<char> {
    if spec_opt_or(e.payload.action, "updated"@) == "closed"@ && e.payload.pr_merged
        == Some(true) {
        "merged"@
    } else {
        spec_opt_or(e.payload.action, "updated"@)
    }
}

fn pr_label(e: &GitHubEvent) -> (r: String)
    ensures
        r@ == spec_pr_label(*e),
{
    let action = opt_or(&e.payload.action, "updated");
    let merged = match e.payload.pr_merged {
        Some(m) => m,
        None => false,
    };
    if str_eq(action.as_str(), "closed") && merged {
        let mut s = String::new();
        s.append("merged");
        s
    } else {
        action
    }
}

/// The numeric value of an optional counter, zero when absent.
pub open spec fn spec_opt_num(o: Option<u64>) -> int {
    match o {
        Some(n) => n as int,
        None => 0,
    }
}

pub fn opt_num(o: &Option<u64>) -> (r: u64)
    ensures
        r as int == spec_opt_num(*o),
{
    match o {
        Some(n) => *n,
        None => 0,
    }
}

/// The most relevant clickable URL for an event, if one exists: the
/// HEAD commit (or branch tree) for pushes, the item's own page for
/// pull requests, issues, comments, reviews, forks and releases, and
/// the repository page for everything else.
pub fn event_url(event: &GitHubEvent) -> (r: Option<String>)
    ensures
        (event.kind@ == "PushEvent"@ && event.payload.head is Some) ==> (r matches Some(u)
            && u@ == "https://github.com/"@ + event.repo.name@ + "/commit/"@
            + event.payload.head.unwrap()@),
        event.kind@ == "WatchEvent"@ ==> (r matches Some(u) && u@ == "https://github.com/"@
            + event.repo.name@),
{
    proof {
        broadcast use vstd::string::group_string_axioms;

        reveal_strlit("PushEvent");
        reveal_strlit("PullRequestEvent");
        reveal_strlit("IssuesEvent");
        reveal_strlit("IssueCommentEvent");
        reveal_strlit("PullRequestReviewEvent");
        reveal_strlit("PullRequestReviewCommentEvent");
        reveal_strlit("ForkEvent");
        reveal_strlit("WatchEvent");
        reveal_strlit("ReleaseEvent");
        assert("PushEvent"@.len() == 9);
        assert("WatchEvent"@.len() == 10);
        assert("PullRequestEvent"@.len() == 16);
        assert("IssuesEvent"@.len() == 11);
        assert("IssueCommentEvent"@.len() == 17);
        assert("PullRequestReviewEvent"@.len() == 22);
        assert("PullRequestReviewCommentEvent"@.len() == 29);
        assert("ForkEvent"@.len() == 9);
        assert("ReleaseEvent"@.len() == 12);
        assert("PushEvent"@[0] == 'P' && "ForkEvent"@[0] == 'F');
    }
    let repo = &event.repo.name;
    if str_eq(event.kind.as_str(), "PushEvent") {
        if let Some(sha) = &event.payload.head {
            let mut u = String::new();
            u.append("https://github.com/");
            u.append(repo.as_str());
            u.append("/commit/");
            u.append(sha.as_str());
            return Some(u);
        }
        if let Some(rn) = &event.payload.ref_name {
            let branch = strip_refs(rn.as_str());
            let mut u = String::new();
            u.append("https://github.com/");
            u.append(repo.as_str());
            u.append("/tree/");
            u.append(branch.as_str());
            return Some(u);
        }
        return None;
    }
    if str_eq(event.kind.as_str(), "PullRequestEvent") {
        return clone_opt(&event.payload.pr_html_url);
    }
    if str_eq(event.kind.as_str(), "IssuesEvent") {
        return clone_opt(&event.payload.issue_html_url);
    }
    if str_eq(event.kind.as_str(), "IssueCommentEvent") {
        return clone_opt(&event.payload.comment_html_url);
    }
    if str_eq(event.kind.as_str(), "PullRequestReviewEvent") || str_eq(
        event.kind.as_str(),
        "PullRequestReviewCommentEvent",
    ) {
        return clone_opt(&event.payload.pr_html_url);
    }
    if str_eq(event.kind.as_str(), "ForkEvent") {
        return clone_opt(&event.payload.forkee_html_url);
    }
    if str_eq(event.kind.as_str(), "ReleaseEvent") {
        return clone_opt(&event.payload.release_html_url);
    }
    let mut u = String::new();
    u.append("https://github.com/");
    u.append(repo.as_str());
    Some(u)
}

fn clone_opt(o: &Option<String>) -> (r: Option<String>)
    ensures
        r == *o,
{
    match o {
        Some(s) => Some(s.clone()),
        None => None,
    }
}

/// Renders the activity feed: a centered title, events grouped by day
/// with a date heading, one described line per event (linked when a URL
/// exists) and its indented detail lines; ends with a deferred page
/// break. At least one line is written per event after the title, no
/// earlier instruction is touched, and each push event's row carries
/// [`spec_push_main`] as its description span. An empty feed renders
/// nothing at all.
pub fn render(builder: &mut PageBuilder, events: &Vec<GitHubEvent>)
    requires
        old(builder).wf(),
    ensures
        final(builder).wf(),
        final(builder).page_width == old(builder).page_width,
        final(builder).page_height == old(builder).page_height,
        final(builder).margin == old(builder).margin,
        final(builder).line_height == old(builder).line_height,
        final(builder).start_page == old(builder).start_page,
        events@.len() == 0 ==> *final(builder) == *old(builder),
        events@.len() > 0 ==> final(builder).pending_break,
        old(builder).spec_all_ops().is_prefix_of(final(builder).spec_all_ops()),
        events@.len() > 0 ==> final(builder).spec_all_ops().len() >= old(
            builder,
        ).spec_all_ops().len() + events@.len() + 1,
        forall|j: int|
            0 <= j < events@.len() && (#[trigger] events@[j]).kind@ == "PushEvent"@
                ==> exists|t: int|
                old(builder).spec_all_ops().len() <= t < final(builder).spec_all_ops().len() && ((
                #[trigger] final(builder).spec_all_ops()[t]) matches PageOp::TextLine {
                    spans,
                    ..
                } && spans@.len() == 3 && spans@[2].text@ == spec_push_main(events@[j])),
{
    let ghost all0 = old(builder).spec_all_ops();
    if events.len() == 0 {
        proof {
            assert(all0.is_prefix_of(builder.spec_all_ops())) by {
                assert(builder.spec_all_ops().take(all0.len() as int) =~= all0);
            }
        }
        return ;
    }
    let black = RgbColor { r: 0, g: 0, b: 0 };
    let gray = RgbColor { r: 120, g: 120, b: 120 };
    let dark_gray = RgbColor { r: 64, g: 64, b: 64 };

    let lh = builder.line_height();
    let lh3 = if lh <= 0x1000_0000 {
        lh * 3
    } else {
        lh
    };
    builder.ensure_space(lh3);
    proof {
        assert(all0.is_prefix_of(builder.spec_all_ops())) by {
            assert(builder.spec_all_ops().take(all0.len() as int) =~= all0);
        }
    }
    let ghost a_title = builder.spec_all_ops();
    builder.write_centered("Recent Activity", FontVariant::Bold, 1600, black);
    proof {
        lemma_prefix_trans(all0, a_title, builder.spec_all_ops());
    }
    builder.vertical_space(1200);

    let mut last_date = String::new();
    let mut i: usize = 0;
    while i < events.len()
        invariant
            builder.wf(),
            builder.page_width == old(builder).page_width,
            builder.page_height == old(builder).page_height,
            builder.margin == old(builder).margin,
            builder.line_height == old(builder).line_height,
            builder.start_page == old(builder).start_page,
            i <= events@.len(),
            all0.is_prefix_of(builder.spec_all_ops()),
            builder.spec_all_ops().len() >= all0.len() + 1 + i,
            forall|j: int|
                0 <= j < i && (#[trigger] events@[j]).kind@ == "PushEvent"@ ==> exists|t: int|
                    all0.len() <= t < builder.spec_all_ops().len() && ((
                    #[trigger] builder.spec_all_ops()[t]) matches PageOp::TextLine { spans, .. }
                        && spans@.len() == 3 && spans@[2].text@ == spec_push_main(events@[j])),
        decreases events@.len() - i,
    {
        let ghost all_iter = builder.spec_all_ops();
        let event = &events[i];
        let created_len = event.created_at.as_str().unicode_len();
        let date = substring(
            event.created_at.as_str(),
            0,
            if created_len < 10 {
                created_len
            } else {
                10
            },
        );
        if !str_eq(date.as_str(), last_date.as_str()) {
            builder.vertical_space(600);
            let lh0 = builder.line_height();
            let lh2 = if lh0 <= 0x1000_0000 {
                lh0 * 2
            } else {
                lh0
            };
            let ghost a1 = builder.spec_all_ops();
            builder.ensure_space(lh2);
            proof {
                lemma_prefix_trans(all_iter, a1, builder.spec_all_ops());
            }
            let mut spans: Vec<Span> = Vec::new();
            spans.push(
                Span { text: date.clone(), font: FontVariant::Bold, size: 900, color: dark_gray },
            );
            let ghost a2 = builder.spec_all_ops();
            builder.write_line(spans);
            proof {
                lemma_prefix_trans(all_iter, a2, builder.spec_all_ops());
            }
            last_date = date;
        }
        let time: String = if created_len >= 16 {
            substring(event.created_at.as_str(), 11, 16)
        } else {
            String::new()
        };
        let description = describe_event(event);
        let ghost main_view = description.main@;

        let mut spans: Vec<Span> = Vec::new();
        let mut bullet = String::new();
        bullet.append("  \u{00B7} ");
        spans.push(Span { text: bullet, font: FontVariant::Regular, size: 850, color: gray });
        let mut time_text = time;
        time_text.append("  ");
        spans.push(Span { text: time_text, font: FontVariant::Regular, size: 750, color: gray });
        spans.push(
            Span { text: description.main, font: FontVariant::Regular, size: 850, color: black },
        );
        let ghost row_spans = spans@;
        let ghost a3 = builder.spec_all_ops();
        builder.write_line(spans);
        // The event's row just written is the witness for the push-row
        // clause; everything after only appends.
        let ghost t_row = builder.spec_all_ops().len() - 1;
        let ghost op_row = builder.spec_all_ops()[t_row];
        let ghost all_row = builder.spec_all_ops();
        proof {
            lemma_prefix_trans(all_iter, a3, builder.spec_all_ops());
            assert(op_row == builder.current_ops@.last());
            assert(op_row matches PageOp::TextLine { spans, .. } && spans@ == row_spans);
            assert(row_spans.len() == 3 && row_spans[2].text@ == main_view);
            assert(all0.len() <= t_row);
        }
        if let Some(url) = event_url(event) {
            let lh0 = builder.line_height();
            let ghost a4 = builder.spec_all_ops();
            builder.add_link(lh0, LinkTarget::Uri(url));
            proof {
                lemma_prefix_trans(all_row, a4, builder.spec_all_ops());
            }
        }

        let mut k: usize = 0;
        while k < description.detail.len()
            invariant
                builder.wf(),
                builder.page_width == old(builder).page_width,
                builder.page_height == old(builder).page_height,
                builder.margin == old(builder).margin,
                builder.line_height == old(builder).line_height,
                builder.start_page == old(builder).start_page,
                k <= description.detail@.len(),
                all_row.is_prefix_of(builder.spec_all_ops()),
            decreases description.detail@.len() - k,
        {
            let mut spans: Vec<Span> = Vec::new();
            let mut indent = String::new();
            indent.append("    ");
            spans.push(Span { text: indent, font: FontVariant::Regular, size: 750, color: gray });
            spans.push(
                Span {
                    text: description.detail[k].clone(),
                    font: FontVariant::Italic,
                    size: 750,
                    color: gray,
                },
            );
            let ghost a5 = builder.spec_all_ops();
            builder.write_line(spans);
            proof {
                lemma_prefix_trans(all_row, a5, builder.spec_all_ops());
            }
            k = k + 1;
        }
        i = i + 1;
        proof {
            lemma_prefix_trans(all_iter, all_row, builder.spec_all_ops());
            lemma_prefix_trans(all0, all_iter, builder.spec_all_ops());
            assert(builder.spec_all_ops()[t_row] == op_row);
            assert forall|j: int|
                0 <= j < i && (#[trigger] events@[j]).kind@ == "PushEvent"@ implies exists|t: int|
                all0.len() <= t < builder.spec_all_ops().len() && ((
                #[trigger] builder.spec_all_ops()[t]) matches PageOp::TextLine { spans, .. }
                    && spans@.len() == 3 && spans@[2].text@ == spec_push_main(events@[j])) by {
                if j < i - 1 {
                    let t = choose|t: int|
                        all0.len() <= t < all_iter.len() && ((#[trigger] all_iter[t])
                            matches PageOp::TextLine { spans, .. } && spans@.len() == 3
                            && spans@[2].text@ == spec_push_main(events@[j]));
                    assert(builder.spec_all_ops()[t] == all_iter[t]);
                } else {
                    assert(events@[j].kind@ == "PushEvent"@ ==> main_view == spec_push_main(
                        events@[j],
                    ));
                    assert(builder.spec_all_ops()[t_row] matches PageOp::TextLine { spans, .. }
                        && spans@.len() == 3 && spans@[2].text@ == main_view);
                }
            }
        }
    }

    builder.vertical_space(1200);
    builder.page_break();
}

} // verus!
