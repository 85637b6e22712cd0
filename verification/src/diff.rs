//! The commit-diff section: a linked commit header with totals, the
//! first message line, and each changed file's unified diff colored by
//! line kind (addition, deletion, hunk header, context).

use vstd::prelude::*;

use crate::cover::{lemma_uri_links_push_uri, spec_uri_links};
use crate::github::{CommitDetail, CommitFile};
use crate::layout::{lemma_prefix_trans, FontVariant, LinkTarget, PageBuilder, PageOp, Span};
use crate::text::{spec_split, split_char, starts_with, substring, u64_to_string};
use crate::types::RgbColor;

verus! {

/// `a - b`, floored at zero.
pub open spec fn spec_sub_floor(a: int, b: int) -> int {
    if a >= b {
        a - b
    } else {
        0
    }
}

/// `a - b` in `u32`, floored at zero.
fn sub_floor(a: u32, b: u32) -> (r: u32)
    ensures
        r as int == spec_sub_floor(a as int, b as int),
{
    if a >= b {
        a - b
    } else {
        0
    }
}

/// The first line of a (possibly multi-line) message.
pub open spec fn spec_first_line(s: Seq<char>) -> Seq<char> {
    spec_split(s, '\n')[0]
}

/// Returns the first line of `s` (the whole string when it has no line
/// break).
pub fn first_line(s: &str) -> (r: String)
    ensures
        r@ == spec_first_line(s@),
{
    let parts = split_char(s, '\n');
    proof {
        assert(parts.deep_view()[0] == parts@[0]@);
    }
    let r = parts[0].clone();
    r
}

/// The URL a changed file's diff header links to: the file at this
/// commit on the remote.
pub open spec fn spec_commit_file_link(repo: Seq<char>, sha: Seq<char>, filename: Seq<char>) -> Seq<
    char,
> {
    "https://github.com/"@ + repo + "/blob/"@ + sha + "/"@ + filename
}

/// Every URI link one commit's section issues, in order: the commit
/// page twice (header and message rows), then one file link per changed
/// file.
pub open spec fn spec_commit_links(detail: CommitDetail, repo: Seq<char>) -> Seq<Seq<char>> {
    seq![detail.html_url@, detail.html_url@] + detail.files@.map_values(
        |f: CommitFile| spec_commit_file_link(repo, detail.sha@, f.filename@),
    )
}

/// Renders one commit: a header line (short id, repository, branch,
/// author, date, +/− totals) linked to the commit page, the message's
/// first line — drawn as its own text row — and per-file diffs with
/// their own header links. The URI links issued are exactly
/// [`spec_commit_links`], in order, and no earlier instruction is
/// touched.
pub fn render_commit(
    builder: &mut PageBuilder,
    detail: &CommitDetail,
    repo: &str,
    branch: Option<&String>,
    font_size: u32,
)
    requires
        old(builder).wf(),
    ensures
        final(builder).wf(),
        !final(builder).pending_break,
        final(builder).page_width == old(builder).page_width,
        final(builder).page_height == old(builder).page_height,
        final(builder).margin == old(builder).margin,
        final(builder).line_height == old(builder).line_height,
        final(builder).start_page == old(builder).start_page,
        old(builder).spec_all_ops().is_prefix_of(final(builder).spec_all_ops()),
        spec_uri_links(final(builder).spec_link_ops()) == spec_uri_links(
            old(builder).spec_link_ops(),
        ) + spec_commit_links(*detail, repo@),
        exists|t: int|
            old(builder).spec_all_ops().len() <= t < final(builder).spec_all_ops().len() && ((
            #[trigger] final(builder).spec_all_ops()[t]) matches PageOp::TextLine { spans, .. }
                && spans@.len() == 1 && spans@[0].text@ == "  "@ + spec_first_line(
                detail.commit.message@,
            )),
{
    let ghost u0 = spec_uri_links(old(builder).spec_link_ops());
    let ghost all0 = old(builder).spec_all_ops();
    let black = RgbColor { r: 0, g: 0, b: 0 };
    let gray = RgbColor { r: 120, g: 120, b: 120 };
    let dark_gray = RgbColor { r: 77, g: 77, b: 77 };
    let green = RgbColor { r: 26, g: 128, b: 26 };
    let red = RgbColor { r: 179, g: 26, b: 26 };
    let blue_gray = RgbColor { r: 77, g: 77, b: 153 };

    let sha_len = detail.sha.as_str().unicode_len();
    let short_len = if sha_len < 7 {
        sha_len
    } else {
        7
    };
    let sha_short = substring(detail.sha.as_str(), 0, short_len);
    let date_len = detail.commit.author.date.as_str().unicode_len();
    let date = substring(
        detail.commit.author.date.as_str(),
        0,
        if date_len < 10 {
            date_len
        } else {
            10
        },
    );
    let message_first = first_line(detail.commit.message.as_str());

    // Totals over the changed files (saturating at u64::MAX).
    let mut additions: u64 = 0;
    let mut deletions: u64 = 0;
    let mut t: usize = 0;
    while t < detail.files.len()
        invariant
            t <= detail.files@.len(),
        decreases detail.files@.len() - t,
    {
        let f = &detail.files[t];
        additions = if additions <= u64::MAX - f.additions {
            additions + f.additions
        } else {
            u64::MAX
        };
        deletions = if deletions <= u64::MAX - f.deletions {
            deletions + f.deletions
        } else {
            u64::MAX
        };
        t = t + 1;
    }

    let lh3 = {
        let lh = builder.line_height();
        if lh <= 0x1000_0000 {
            lh * 4
        } else {
            lh
        }
    };
    builder.ensure_space(lh3);

    let mut header: Vec<Span> = Vec::new();
    let mut sha_text = sha_short;
    sha_text.append("  ");
    header.push(Span { text: sha_text, font: FontVariant::Bold, size: font_size, color: dark_gray });
    let mut repo_text = repo.to_owned();
    repo_text.append("  ");
    header.push(
        Span { text: repo_text, font: FontVariant::Regular, size: font_size, color: dark_gray },
    );
    if let Some(b) = branch {
        let mut btext = String::new();
        btext.append("(");
        btext.append(b.as_str());
        btext.append(")  ");
        header.push(Span { text: btext, font: FontVariant::Italic, size: font_size, color: gray });
    }
    let mut author_text = detail.commit.author.name.clone();
    author_text.append("  ");
    header.push(
        Span { text: author_text, font: FontVariant::Regular, size: font_size, color: black },
    );
    let mut date_text = date;
    date_text.append("  ");
    header.push(Span { text: date_text, font: FontVariant::Regular, size: font_size, color: gray });
    let mut stats = String::new();
    stats.append("+");
    let a = u64_to_string(additions);
    stats.append(a.as_str());
    stats.append(" -");
    let d = u64_to_string(deletions);
    stats.append(d.as_str());
    header.push(Span { text: stats, font: FontVariant::Regular, size: font_size, color: dark_gray });
    builder.write_line(header);
    let lh = builder.line_height();
    let ghost pre1 = *builder;
    builder.add_link(lh, LinkTarget::Uri(detail.html_url.clone()));
    proof {
        lemma_uri_links_push_uri(pre1.spec_link_ops(), builder.spec_link_ops().last(), detail.html_url@);
    }

    // The commit message links to the same page.
    let mut msg = String::new();
    msg.append("  ");
    msg.append(message_first.as_str());
    proof {
        reveal_strlit("");
        assert(msg@ =~= "  "@ + spec_first_line(detail.commit.message@));
    }
    let ghost msg_view = msg@;
    let mut msg_spans: Vec<Span> = Vec::new();
    msg_spans.push(Span { text: msg, font: FontVariant::Bold, size: font_size, color: black });
    let ghost msg_row = msg_spans@;
    builder.write_line(msg_spans);
    // The message row just written is the witness; everything after
    // only appends.
    let ghost t_msg = builder.spec_all_ops().len() - 1;
    let ghost op_msg = builder.spec_all_ops()[t_msg];
    let ghost all_msg = builder.spec_all_ops();
    proof {
        assert(op_msg == builder.current_ops@.last());
        assert(op_msg matches PageOp::TextLine { spans, .. } && spans@ == msg_row);
        assert(msg_row.len() == 1 && msg_row[0].text@ == msg_view);
    }
    let ghost pre2 = *builder;
    builder.add_link(lh, LinkTarget::Uri(detail.html_url.clone()));
    proof {
        lemma_uri_links_push_uri(pre2.spec_link_ops(), builder.spec_link_ops().last(), detail.html_url@);
        assert(all_msg.is_prefix_of(builder.spec_all_ops()));
    }
    builder.vertical_space(400);
    let ghost all_body = builder.spec_all_ops();
    proof {
        assert(all0.is_prefix_of(all_body)) by {
            assert(all_body.take(all0.len() as int) =~= all0);
        }
        assert(all0.len() <= t_msg);
        assert(all_msg.is_prefix_of(all_body));
        assert(all_body[t_msg] == op_msg);
        assert(spec_uri_links(builder.spec_link_ops()) =~= u0 + seq![
            detail.html_url@,
            detail.html_url@,
        ] + detail.files@.take(0).map_values(
            |f: CommitFile| spec_commit_file_link(repo@, detail.sha@, f.filename@),
        ));
    }

    // Per-file headers and diff bodies use slightly smaller text; a
    // size too small to shrink floors at zero instead of wrapping.
    let small_size: u32 = sub_floor(font_size, 50);
    let body_size: u32 = sub_floor(font_size, 100);

    let mut i: usize = 0;
    while i < detail.files.len()
        invariant
            builder.wf(),
            !builder.pending_break,
            builder.page_width == old(builder).page_width,
            builder.page_height == old(builder).page_height,
            builder.margin == old(builder).margin,
            builder.line_height == old(builder).line_height,
            builder.start_page == old(builder).start_page,
            i <= detail.files@.len(),
            small_size == spec_sub_floor(font_size as int, 50),
            body_size == spec_sub_floor(font_size as int, 100),
            all_body.is_prefix_of(builder.spec_all_ops()),
            spec_uri_links(builder.spec_link_ops()) == u0 + seq![
                detail.html_url@,
                detail.html_url@,
            ] + detail.files@.take(i as int).map_values(
                |f: CommitFile| spec_commit_file_link(repo@, detail.sha@, f.filename@),
            ),
        decreases detail.files@.len() - i,
    {
        let ghost all_pre = builder.spec_all_ops();
        let file = &detail.files[i];
        let lh2 = {
            let lh0 = builder.line_height();
            if lh0 <= 0x1000_0000 {
                lh0 * 3
            } else {
                lh0
            }
        };
        builder.ensure_space(lh2);
        let ghost a1 = builder.spec_all_ops();

        let mut fheader: Vec<Span> = Vec::new();
        let mut fname = String::new();
        fname.append("  ");
        fname.append(file.filename.as_str());
        fname.append(" ");
        fheader.push(
            Span { text: fname, font: FontVariant::Bold, size: small_size, color: black },
        );
        let mut fstats = String::new();
        fstats.append("+");
        let fa = u64_to_string(file.additions);
        fstats.append(fa.as_str());
        fstats.append(" -");
        let fd = u64_to_string(file.deletions);
        fstats.append(fd.as_str());
        fheader.push(
            Span { text: fstats, font: FontVariant::Regular, size: small_size, color: dark_gray },
        );
        builder.write_line(fheader);
        proof {
            lemma_prefix_trans(all_pre, a1, builder.spec_all_ops());
        }
        let ghost a2 = builder.spec_all_ops();
        let mut file_link = String::new();
        file_link.append("https://github.com/");
        file_link.append(repo);
        file_link.append("/blob/");
        file_link.append(detail.sha.as_str());
        file_link.append("/");
        file_link.append(file.filename.as_str());
        let lh0 = builder.line_height();
        let ghost pre_file = *builder;
        let ghost flv = file_link@;
        builder.add_link(lh0, LinkTarget::Uri(file_link));
        proof {
            lemma_prefix_trans(all_pre, a2, builder.spec_all_ops());
            lemma_uri_links_push_uri(pre_file.spec_link_ops(), builder.spec_link_ops().last(), flv);
            assert(flv =~= spec_commit_file_link(repo@, detail.sha@, detail.files@[i as int].filename@));
            assert(detail.files@.take(i + 1).drop_last() =~= detail.files@.take(i as int));
            assert(detail.files@.take(i + 1).map_values(
                |f: CommitFile| spec_commit_file_link(repo@, detail.sha@, f.filename@),
            ) =~= detail.files@.take(i as int).map_values(
                |f: CommitFile| spec_commit_file_link(repo@, detail.sha@, f.filename@),
            ).push(spec_commit_file_link(repo@, detail.sha@, detail.files@[i as int].filename@)));
            assert(spec_uri_links(builder.spec_link_ops()) =~= u0 + seq![
                detail.html_url@,
                detail.html_url@,
            ] + detail.files@.take(i + 1).map_values(
                |f: CommitFile| spec_commit_file_link(repo@, detail.sha@, f.filename@),
            ));
        }
        let ghost a3 = builder.spec_all_ops();
        let ghost links_file = builder.spec_link_ops();

        match &file.patch {
            None => {
                let mut spans: Vec<Span> = Vec::new();
                let mut text = String::new();
                text.append("  [diff too large to display]");
                spans.push(
                    Span { text, font: FontVariant::Regular, size: body_size, color: gray },
                );
                builder.write_line(spans);
                proof {
                    lemma_prefix_trans(all_pre, a3, builder.spec_all_ops());
                }
            },
            Some(patch) => {
                let plines = split_char(patch.as_str(), '\n');
                let mut k: usize = 0;
                while k < plines.len()
                    invariant
                        builder.wf(),
                        builder.page_width == old(builder).page_width,
                        builder.page_height == old(builder).page_height,
                        builder.margin == old(builder).margin,
                        builder.line_height == old(builder).line_height,
                        builder.start_page == old(builder).start_page,
                        k <= plines@.len(),
                        body_size == spec_sub_floor(font_size as int, 100),
                        !builder.pending_break,
                        builder.spec_link_ops() == links_file,
                        a3.is_prefix_of(builder.spec_all_ops()),
                    decreases plines@.len() - k,
                {
                    let ghost a_iter = builder.spec_all_ops();
                    let line = &plines[k];
                    let is_add = starts_with(line.as_str(), "+");
                    let is_del = starts_with(line.as_str(), "-");
                    let is_hunk = starts_with(line.as_str(), "@@");
                    let color = if is_add {
                        green
                    } else if is_del {
                        red
                    } else if is_hunk {
                        blue_gray
                    } else {
                        dark_gray
                    };
                    let mut body = String::new();
                    body.append("    ");
                    if is_hunk {
                        body.append(line.as_str());
                    } else {
                        // Re-space the diff marker so columns align.
                        if is_add {
                            body.append("+ ");
                        } else if is_del {
                            body.append("- ");
                        } else {
                            body.append("  ");
                        }
                        let n = line.as_str().unicode_len();
                        if n > 0 {
                            let rest = substring(line.as_str(), 1, n);
                            body.append(rest.as_str());
                        }
                    }
                    let mut spans: Vec<Span> = Vec::new();
                    spans.push(
                        Span { text: body, font: FontVariant::Regular, size: body_size, color },
                    );
                    builder.write_line(spans);
                    k = k + 1;
                    proof {
                        lemma_prefix_trans(a3, a_iter, builder.spec_all_ops());
                    }
                }
                proof {
                    lemma_prefix_trans(all_pre, a3, builder.spec_all_ops());
                }
            },
        }
        builder.vertical_space(300);
        i = i + 1;
        proof {
            lemma_prefix_trans(all_body, all_pre, builder.spec_all_ops());
        }
    }
    builder.vertical_space(800);
    proof {
        assert(detail.files@.take(detail.files@.len() as int) =~= detail.files@);
        assert(spec_uri_links(builder.spec_link_ops()) =~= u0 + spec_commit_links(*detail, repo@));
        lemma_prefix_trans(all0, all_body, builder.spec_all_ops());
        assert(builder.spec_all_ops()[t_msg] == op_msg);
        assert(t_msg < builder.spec_all_ops().len());
    }
}

} // verus!
