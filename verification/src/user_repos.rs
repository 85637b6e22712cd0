//! Repository list sections of the user report: one block per
//! repository with a justified name/stats row (linked), description,
//! dates and size, and a context row showing what the user last did
//! there (pushed commits or other activity).

use vstd::prelude::*;

use crate::cover::{lemma_uri_links_push_uri, spec_uri_links};
use crate::diff::first_line;
use crate::github::{GitHubEvent, GitHubRepo};
use crate::layout::{lemma_prefix_trans, FontVariant, LinkTarget, PageBuilder, PageOp, Span};
use crate::text::{spec_u64_string, str_eq, substring, u64_to_string};
use crate::types::RgbColor;
use crate::user_activity::{opt_num, push_branch};

verus! {

/// The text of a repository's name cell: its name, marked when it is
/// a fork.
pub open spec fn spec_repo_name_text(r: GitHubRepo) -> Seq<char> {
    if r.fork {
        r.name@ + " [fork]"@
    } else {
        r.name@
    }
}

/// The text of a repository's stats cell: stars, forks, open issues
/// and language (an em dash when none is known).
pub open spec fn spec_repo_stats_text(r: GitHubRepo) -> Seq<char> {
    spec_u64_string(r.stargazers_count as int) + " stars  "@ + spec_u64_string(
        r.forks_count as int,
    ) + " forks  "@ + spec_u64_string(r.open_issues_count as int) + " issues  "@ + (
    match r.language {
        Some(l) => l@,
        None => "\u{2014}"@,
    })
}

/// Does some instruction issued after `pre` within `post` draw this
/// repository's name row: the name cell and, beside it, the stats
/// cell?
pub open spec fn spec_repo_row_for(pre: Seq<PageOp>, post: Seq<PageOp>, r: GitHubRepo) -> bool {
    exists|t: int|
        pre.len() <= t && t + 1 < post.len() && ((#[trigger] post[t]) matches PageOp::TextLine {
            spans,
            ..
        } && spans@.len() == 1 && spans@[0].text@ == spec_repo_name_text(r)) && (post[t + 1]
            matches PageOp::TextLine { spans, .. } && spans@.len() == 1 && spans@[0].text@
            == spec_repo_stats_text(r))
}

/// A drawn row stays drawn when the instruction list only grows.
proof fn lemma_repo_row_extends(pre: Seq<PageOp>, a: Seq<PageOp>, b: Seq<PageOp>, r: GitHubRepo)
    requires
        spec_repo_row_for(pre, a, r),
        a.is_prefix_of(b),
    ensures
        spec_repo_row_for(pre, b, r),
{
    let t = choose|t: int|
        pre.len() <= t && t + 1 < a.len() && ((#[trigger] a[t]) matches PageOp::TextLine {
            spans,
            ..
        } && spans@.len() == 1 && spans@[0].text@ == spec_repo_name_text(r)) && (a[t + 1]
            matches PageOp::TextLine { spans, .. } && spans@.len() == 1 && spans@[0].text@
            == spec_repo_stats_text(r));
    assert(b[t] == a[t]);
    assert(b[t + 1] == a[t + 1]);
}

/// One loop step's bookkeeping for the drawn rows: the rows of the
/// first `i` repositories survive this repository's appends, and its
/// own name row joins them.
proof fn lemma_repo_rows_step(
    all0: Seq<PageOp>,
    all_iter: Seq<PageOp>,
    all_after_row: Seq<PageOp>,
    cur: Seq<PageOp>,
    repos: Seq<GitHubRepo>,
    i: int,
)
    requires
        0 <= i < repos.len(),
        forall|j: int| 0 <= j < i ==> spec_repo_row_for(all0, all_iter, #[trigger] repos[j]),
        spec_repo_row_for(all0, all_after_row, repos[i]),
        all_iter.is_prefix_of(all_after_row),
        all_after_row.is_prefix_of(cur),
    ensures
        forall|j: int| 0 <= j < i + 1 ==> spec_repo_row_for(all0, cur, #[trigger] repos[j]),
{
    assert forall|j: int| 0 <= j < i + 1 implies spec_repo_row_for(
        all0,
        cur,
        #[trigger] repos[j],
    ) by {
        if j < i {
            lemma_prefix_trans(all_iter, all_after_row, cur);
            lemma_repo_row_extends(all0, all_iter, cur, repos[j]);
        } else {
            lemma_repo_row_extends(all0, all_after_row, cur, repos[j]);
        }
    }
}

/// Commit messages fetched for one repository, newest first.
#[derive(Debug, Clone)]
pub struct RepoCommits {
    pub repo: String,
    pub messages: Vec<String>,
}

/// A one-line description of a non-push event for the context row.
pub fn brief_activity(event: &GitHubEvent) -> (r: String)
    ensures
        event.kind@ == "WatchEvent"@ ==> r@ == "starred"@,
        event.kind@ == "ForkEvent"@ ==> r@ == "forked"@,
{
    proof {
        reveal_strlit("WatchEvent");
        reveal_strlit("ForkEvent");
        reveal_strlit("PullRequestEvent");
        reveal_strlit("IssuesEvent");
        reveal_strlit("IssueCommentEvent");
        reveal_strlit("PullRequestReviewEvent");
        reveal_strlit("PullRequestReviewCommentEvent");
        assert("WatchEvent"@.len() == 10);
        assert("ForkEvent"@.len() == 9);
        assert("PullRequestEvent"@.len() == 16);
        assert("IssuesEvent"@.len() == 11);
        assert("IssueCommentEvent"@.len() == 17);
        assert("PullRequestReviewEvent"@.len() == 22);
        assert("PullRequestReviewCommentEvent"@.len() == 29);
    }
    if str_eq(event.kind.as_str(), "PullRequestEvent") {
        let action = match &event.payload.action {
            Some(a) => a.clone(),
            None => {
                let mut s = String::new();
                s.append("updated");
                s
            },
        };
        let merged = match event.payload.pr_merged {
            Some(m) => m,
            None => false,
        };
        let n = u64_to_string(opt_num(&event.payload.pr_number));
        let mut out = String::new();
        if str_eq(action.as_str(), "closed") && merged {
            out.append("merged PR #");
        } else {
            out.append(action.as_str());
            out.append(" PR #");
        }
        out.append(n.as_str());
        return out;
    }
    if str_eq(event.kind.as_str(), "IssuesEvent") {
        let action = match &event.payload.action {
            Some(a) => a.clone(),
            None => {
                let mut s = String::new();
                s.append("updated");
                s
            },
        };
        let n = u64_to_string(opt_num(&event.payload.issue_number));
        let mut out = action;
        out.append(" issue #");
        out.append(n.as_str());
        return out;
    }
    if str_eq(event.kind.as_str(), "IssueCommentEvent") {
        let n = u64_to_string(opt_num(&event.payload.issue_number));
        let mut out = String::new();
        out.append("commented on issue #");
        out.append(n.as_str());
        return out;
    }
    if str_eq(event.kind.as_str(), "PullRequestReviewEvent") || str_eq(
        event.kind.as_str(),
        "PullRequestReviewCommentEvent",
    ) {
        let n = u64_to_string(opt_num(&event.payload.pr_number));
        let mut out = String::new();
        out.append("reviewed PR #");
        out.append(n.as_str());
        return out;
    }
    if str_eq(event.kind.as_str(), "WatchEvent") {
        let mut out = String::new();
        out.append("starred");
        return out;
    }
    if str_eq(event.kind.as_str(), "ForkEvent") {
        let mut out = String::new();
        out.append("forked");
        return out;
    }
    if str_eq(event.kind.as_str(), "ReleaseEvent") {
        let tag = match &event.payload.release_tag {
            Some(t) => t.clone(),
            None => String::new(),
        };
        let mut out = String::new();
        out.append("released ");
        out.append(tag.as_str());
        return out;
    }
    if str_eq(event.kind.as_str(), "CreateEvent") {
        let ref_type = match &event.payload.ref_type {
            Some(t) => t.clone(),
            None => {
                let mut s = String::new();
                s.append("ref");
                s
            },
        };
        let ref_name = match &event.payload.ref_name {
            Some(n) => n.clone(),
            None => String::new(),
        };
        let mut out = String::new();
        out.append("created ");
        out.append(ref_type.as_str());
        if ref_name.as_str().unicode_len() > 0 {
            out.append(" '");
            out.append(ref_name.as_str());
            out.append("'");
        }
        return out;
    }
    // Anything else: the event kind itself, lowercased, without the
    // "Event" suffix.
    let trimmed: String = match crate::text::strip_suffix(event.kind.as_str(), "Event") {
        Some(t) => t,
        None => event.kind.clone(),
    };
    let low = crate::text::to_lower(trimmed.as_str());
    low
}

fn find_push_event<'a>(events: &'a Vec<GitHubEvent>, full_name: &String) -> (r: Option<
    &'a GitHubEvent,
>)
    ensures
        r matches Some(e) ==> e.kind@ == "PushEvent"@ && e.repo.name@ == full_name@,
{
    let mut i: usize = 0;
    while i < events.len()
        invariant
            i <= events@.len(),
        decreases events@.len() - i,
    {
        let e = &events[i];
        if str_eq(e.kind.as_str(), "PushEvent") && str_eq(
            e.repo.name.as_str(),
            full_name.as_str(),
        ) {
            return Some(e);
        }
        i = i + 1;
    }
    None
}

fn find_other_event<'a>(events: &'a Vec<GitHubEvent>, full_name: &String) -> (r: Option<
    &'a GitHubEvent,
>)
    ensures
        r matches Some(e) ==> e.kind@ != "PushEvent"@ && e.repo.name@ == full_name@,
{
    let mut i: usize = 0;
    while i < events.len()
        invariant
            i <= events@.len(),
        decreases events@.len() - i,
    {
        let e = &events[i];
        if !str_eq(e.kind.as_str(), "PushEvent") && str_eq(
            e.repo.name.as_str(),
            full_name.as_str(),
        ) {
            return Some(e);
        }
        i = i + 1;
    }
    None
}

fn date_part(s: &String) -> (r: String)
    ensures
        r@ == if s@.len() >= 10 {
            s@.take(10)
        } else {
            s@
        },
{
    let n = s.as_str().unicode_len();
    if n >= 10 {
        substring(s.as_str(), 0, 10)
    } else {
        s.clone()
    }
}

/// Renders one repository-list section under `title`. Each repository
/// shows a linked name/stats row, its description, its dates and size,
/// and a context row built from the newest matching event (a push shows
/// branch and up to two commit messages, falling back to the fetched
/// messages; any other event shows a one-line summary). Each
/// repository's name row is drawn with its name and stats cells
/// ([`spec_repo_row_for`]), the URI links issued are exactly one per
/// repository, its page, in list order, and no earlier instruction is
/// touched. An empty list renders nothing.
pub fn render(
    builder: &mut PageBuilder,
    title: &str,
    repos: &Vec<GitHubRepo>,
    events: &Vec<GitHubEvent>,
    commit_msgs: &Vec<RepoCommits>,
)
    requires
        old(builder).wf(),
    ensures
        final(builder).wf(),
        final(builder).page_width == old(builder).page_width,
        final(builder).page_height == old(builder).page_height,
        final(builder).margin == old(builder).margin,
        final(builder).line_height == old(builder).line_height,
        final(builder).start_page == old(builder).start_page,
        repos@.len() == 0 ==> *final(builder) == *old(builder),
        spec_uri_links(final(builder).spec_link_ops()) == spec_uri_links(
            old(builder).spec_link_ops(),
        ) + repos@.map_values(|x: GitHubRepo| x.html_url@),
        old(builder).spec_all_ops().is_prefix_of(final(builder).spec_all_ops()),
        forall|j: int|
            0 <= j < repos@.len() ==> spec_repo_row_for(
                old(builder).spec_all_ops(),
                final(builder).spec_all_ops(),
                #[trigger] repos@[j],
            ),
{
    if repos.len() == 0 {
        proof {
            assert(repos@.map_values(|x: GitHubRepo| x.html_url@) =~= Seq::<Seq<char>>::empty());
            assert(spec_uri_links(builder.spec_link_ops()) =~= spec_uri_links(
                old(builder).spec_link_ops(),
            ) + repos@.map_values(|x: GitHubRepo| x.html_url@));
            assert(old(builder).spec_all_ops().is_prefix_of(builder.spec_all_ops())) by {
                assert(builder.spec_all_ops().take(old(builder).spec_all_ops().len() as int)
                    =~= old(builder).spec_all_ops());
            }
        }
        return ;
    }
    let ghost u0 = spec_uri_links(old(builder).spec_link_ops());
    let ghost all0 = old(builder).spec_all_ops();
    let black = RgbColor { r: 0, g: 0, b: 0 };
    let gray = RgbColor { r: 120, g: 120, b: 120 };
    let dark_gray = RgbColor { r: 64, g: 64, b: 64 };

    let lh = builder.line_height();
    let lh3 = if lh <= 0x1000_0000 {
        lh * 3
    } else {
        lh
    };
    builder.ensure_space(lh3);
    builder.write_centered(title, FontVariant::Bold, 1400, black);
    builder.vertical_space(1000);
    proof {
        assert(all0.is_prefix_of(builder.spec_all_ops())) by {
            assert(builder.spec_all_ops().take(all0.len() as int) =~= all0);
        }
        assert(spec_uri_links(builder.spec_link_ops()) =~= u0 + repos@.take(0).map_values(
            |x: GitHubRepo| x.html_url@,
        ));
    }

    let mut i: usize = 0;
    while i < repos.len()
        invariant
            builder.wf(),
            builder.page_width == old(builder).page_width,
            builder.page_height == old(builder).page_height,
            builder.margin == old(builder).margin,
            builder.line_height == old(builder).line_height,
            builder.start_page == old(builder).start_page,
            i <= repos@.len(),
            spec_uri_links(builder.spec_link_ops()) == u0 + repos@.take(i as int).map_values(
                |x: GitHubRepo| x.html_url@,
            ),
            all0.is_prefix_of(builder.spec_all_ops()),
            forall|j: int|
                0 <= j < i ==> spec_repo_row_for(all0, builder.spec_all_ops(), #[trigger] repos@[j]),
        decreases repos@.len() - i,
    {
        let ghost all_iter = builder.spec_all_ops();
        let repo = &repos[i];
        let lh0 = builder.line_height();
        let lh5 = if lh0 <= 0x1000_0000 {
            lh0 * 5
        } else {
            lh0
        };
        builder.ensure_space(lh5);
        proof {
            lemma_prefix_trans(all0, all_iter, builder.spec_all_ops());
        }
        let ghost a1 = builder.spec_all_ops();

        // Row 1: name (left, linked) and stats (right).
        let mut name_text = repo.name.clone();
        if repo.fork {
            name_text.append(" [fork]");
        }
        let mut stats = u64_to_string(repo.stargazers_count);
        stats.append(" stars  ");
        let forks = u64_to_string(repo.forks_count);
        stats.append(forks.as_str());
        stats.append(" forks  ");
        let issues = u64_to_string(repo.open_issues_count);
        stats.append(issues.as_str());
        stats.append(" issues  ");
        match &repo.language {
            Some(lang) => stats.append(lang.as_str()),
            None => stats.append("\u{2014}"),
        }
        proof {
            assert(name_text@ =~= spec_repo_name_text(repos@[i as int]));
            assert(stats@ =~= spec_repo_stats_text(repos@[i as int]));
        }
        let ghost name_view = name_text@;
        let ghost stats_view = stats@;
        let mut left: Vec<Span> = Vec::new();
        left.push(Span { text: name_text, font: FontVariant::Bold, size: 900, color: black });
        let ghost left_view = left@;
        let mut right: Vec<Span> = Vec::new();
        right.push(Span { text: stats, font: FontVariant::Regular, size: 800, color: dark_gray });
        let ghost right_view = right@;
        builder.write_line_justified(left, right);
        let ghost t_row = builder.spec_all_ops().len() - 2;
        proof {
            lemma_prefix_trans(all0, a1, builder.spec_all_ops());
            assert(builder.spec_all_ops()[t_row] matches PageOp::TextLine { spans, .. } && spans@
                == left_view);
            assert(builder.spec_all_ops()[t_row + 1] matches PageOp::TextLine { spans, .. }
                && spans@ == right_view);
            assert(spec_repo_row_for(all0, builder.spec_all_ops(), repos@[i as int]));
        }
        let ghost all_after_row = builder.spec_all_ops();
        let ghost a2 = builder.spec_all_ops();
        let lh1 = builder.line_height();
        let ghost pre_link = *builder;
        builder.add_link(lh1, LinkTarget::Uri(repo.html_url.clone()));
        proof {
            lemma_prefix_trans(all0, a2, builder.spec_all_ops());
            lemma_prefix_trans(all_after_row, a2, builder.spec_all_ops());
            lemma_uri_links_push_uri(
                pre_link.spec_link_ops(),
                builder.spec_link_ops().last(),
                repo.html_url@,
            );
            assert(repos@.take(i + 1).drop_last() =~= repos@.take(i as int));
            assert(repos@.take(i + 1).last() == repos@[i as int]);
            assert(repos@.take(i + 1).map_values(|x: GitHubRepo| x.html_url@) =~= repos@.take(
                i as int,
            ).map_values(|x: GitHubRepo| x.html_url@).push(repos@[i as int].html_url@));
            assert(spec_uri_links(builder.spec_link_ops()) =~= u0 + repos@.take(i + 1).map_values(
                |x: GitHubRepo| x.html_url@,
            ));
        }
        let ghost links_row = builder.spec_link_ops();

        // Row 2: description.
        match &repo.description {
            Some(desc) => {
                if desc.as_str().unicode_len() > 0 {
                    let mut text = String::new();
                    text.append("  ");
                    text.append(desc.as_str());
                    let mut spans: Vec<Span> = Vec::new();
                    spans.push(
                        Span { text, font: FontVariant::Italic, size: 800, color: gray },
                    );
                    let ghost a3 = builder.spec_all_ops();
                    builder.write_line(spans);
                    proof {
                        lemma_prefix_trans(all0, a3, builder.spec_all_ops());
                        lemma_prefix_trans(all_after_row, a3, builder.spec_all_ops());
                    }
                }
            },
            None => (),
        }

        // Row 3: dates and size.
        let pushed: String = match &repo.pushed_at {
            Some(d) => date_part(d),
            None => match &repo.updated_at {
                Some(d) => date_part(d),
                None => {
                    let mut s = String::new();
                    s.append("\u{2014}");
                    s
                },
            },
        };
        let created: String = match &repo.created_at {
            Some(d) => date_part(d),
            None => {
                let mut s = String::new();
                s.append("\u{2014}");
                s
            },
        };
        let mut row3 = String::new();
        row3.append("  last push ");
        row3.append(pushed.as_str());
        row3.append("  \u{00B7}  created ");
        row3.append(created.as_str());
        if repo.size > 0 {
            if repo.size < 1024 {
                row3.append("  \u{00B7}  ");
                let kb = u64_to_string(repo.size);
                row3.append(kb.as_str());
                row3.append(" KB");
            } else {
                row3.append("  \u{00B7}  ");
                let tenths: u128 = ((repo.size as u128) * 10 + 512) / 1024;
                proof {
                    vstd::arithmetic::div_mod::lemma_div_is_ordered(
                        repo.size as int * 10 + 512,
                        0xffff_ffff_ffff_ffffint * 10 + 512,
                        1024,
                    );
                }
                let whole = u64_to_string((tenths / 10) as u64);
                row3.append(whole.as_str());
                row3.append(".");
                let frac: u8 = (tenths % 10) as u8;
                crate::text::push_char(&mut row3, (48 + frac) as char);
                row3.append(" MB");
            }
        }
        let mut spans3: Vec<Span> = Vec::new();
        spans3.push(Span { text: row3, font: FontVariant::Regular, size: 750, color: gray });
        let ghost a4 = builder.spec_all_ops();
        builder.write_line(spans3);
        proof {
            lemma_prefix_trans(all0, a4, builder.spec_all_ops());
            lemma_prefix_trans(all_after_row, a4, builder.spec_all_ops());
        }

        // Row 4: recent activity context.
        match find_push_event(events, &repo.full_name) {
            Some(ev) => {
                let branch = push_branch(ev);
                // Messages from the event payload, else the fetched ones.
                let mut msgs: Vec<String> = Vec::new();
                let mut k: usize = 0;
                while k < ev.payload.commits.len()
                    invariant
                        k <= ev.payload.commits@.len(),
                        msgs@.len() <= 2,
                    decreases ev.payload.commits@.len() - k,
                {
                    if msgs.len() >= 2 {
                        break ;
                    }
                    match &ev.payload.commits[k].message {
                        Some(m) => {
                            let fl = first_line(m.as_str());
                            msgs.push(fl);
                        },
                        None => (),
                    }
                    k = k + 1;
                }
                if msgs.len() == 0 {
                    let mut f: usize = 0;
                    while f < commit_msgs.len()
                        invariant
                            f <= commit_msgs@.len(),
                            msgs@.len() <= 2,
                        decreases commit_msgs@.len() - f,
                    {
                        if str_eq(commit_msgs[f].repo.as_str(), repo.full_name.as_str()) {
                            let found = &commit_msgs[f].messages;
                            let mut g: usize = 0;
                            while g < found.len()
                                invariant
                                    g <= found@.len(),
                                    msgs@.len() <= 2,
                                decreases found@.len() - g,
                            {
                                if msgs.len() >= 2 {
                                    break ;
                                }
                                msgs.push(found[g].clone());
                                g = g + 1;
                            }
                            break ;
                        }
                        f = f + 1;
                    }
                }
                if msgs.len() == 0 {
                    let date = date_part(&ev.created_at);
                    let mut text = String::new();
                    text.append("  \u{2192} pushed to ");
                    text.append(branch.as_str());
                    text.append(" on ");
                    text.append(date.as_str());
                    let mut spans: Vec<Span> = Vec::new();
                    spans.push(
                        Span { text, font: FontVariant::Italic, size: 750, color: dark_gray },
                    );
                    let ghost a5 = builder.spec_all_ops();
                    builder.write_line(spans);
                    proof {
                        lemma_prefix_trans(all0, a5, builder.spec_all_ops());
                        lemma_prefix_trans(all_after_row, a5, builder.spec_all_ops());
                    }
                } else {
                    let mut text = String::new();
                    text.append("  \u{2192} pushed to ");
                    text.append(branch.as_str());
                    text.append(":");
                    let mut spans: Vec<Span> = Vec::new();
                    spans.push(
                        Span { text, font: FontVariant::Italic, size: 750, color: dark_gray },
                    );
                    let ghost a5 = builder.spec_all_ops();
                    builder.write_line(spans);
                    proof {
                        lemma_prefix_trans(all0, a5, builder.spec_all_ops());
                    }
                    let mut m: usize = 0;
                    while m < msgs.len()
                        invariant
                            builder.wf(),
                            builder.page_width == old(builder).page_width,
                            builder.page_height == old(builder).page_height,
                            builder.margin == old(builder).margin,
                            builder.line_height == old(builder).line_height,
                            builder.start_page == old(builder).start_page,
                            m <= msgs@.len(),
                            builder.spec_link_ops() == links_row,
                            all0.is_prefix_of(builder.spec_all_ops()),
                            all_after_row.is_prefix_of(builder.spec_all_ops()),
                        decreases msgs@.len() - m,
                    {
                        let mut line = String::new();
                        line.append("      ");
                        line.append(msgs[m].as_str());
                        let mut spans: Vec<Span> = Vec::new();
                        spans.push(
                            Span { text: line, font: FontVariant::Italic, size: 750, color: gray },
                        );
                        let ghost a6 = builder.spec_all_ops();
                        builder.write_line(spans);
                        proof {
                            lemma_prefix_trans(all0, a6, builder.spec_all_ops());
                            lemma_prefix_trans(all_after_row, a6, builder.spec_all_ops());
                        }
                        m = m + 1;
                    }
                }
            },
            None => {
                match find_other_event(events, &repo.full_name) {
                    Some(ev) => {
                        let date = date_part(&ev.created_at);
                        let brief = brief_activity(ev);
                        let mut text = String::new();
                        text.append("  \u{2192} ");
                        text.append(brief.as_str());
                        text.append(" on ");
                        text.append(date.as_str());
                        let mut spans: Vec<Span> = Vec::new();
                        spans.push(
                            Span { text, font: FontVariant::Italic, size: 750, color: dark_gray },
                        );
                        let ghost a7 = builder.spec_all_ops();
                        builder.write_line(spans);
                        proof {
                            lemma_prefix_trans(all0, a7, builder.spec_all_ops());
                            lemma_prefix_trans(all_after_row, a7, builder.spec_all_ops());
                        }
                    },
                    None => (),
                }
            },
        }

        builder.vertical_space(400);
        i = i + 1;
        proof {
            lemma_repo_rows_step(
                all0,
                all_iter,
                all_after_row,
                builder.spec_all_ops(),
                repos@,
                i - 1,
            );
        }
    }

    builder.vertical_space(1200);
    proof {
        assert(repos@.take(repos@.len() as int) =~= repos@);
    }
}

} // verus!
