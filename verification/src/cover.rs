//! The cover sheet: a centered title linked to the repository, a
//! label/value metadata table between separator rules (skipping empty
//! values), and a footer pushed to the bottom of the page, closed by a
//! deferred page break.

use vstd::prelude::*;

use crate::layout::{lemma_prefix_trans, FontVariant, LinkTarget, PageBuilder, PageOp, Span};
use crate::links::{
    author_link, commit_link, file_url, repo_tree_link, spec_noreply_username, spec_url_host,
};
use crate::text::{pad_right, repeat_char, spec_ends_with, spec_repeat_char, strip_suffix, u64_to_string};
use crate::types::{RepoMetadata, RgbColor};

verus! {

/// Width of the label column in characters (monospace font, so spaces
/// align exactly).
pub const LABEL_COL: usize = 12;

/// The project page named in the cover's footer.
pub fn crates_url() -> (r: String)
    ensures
        r@ == "https://crates.io/crates/gitprint"@,
{
    let mut r = String::new();
    r.append("https://crates.io/crates/gitprint");
    r
}

fn gray() -> (r: RgbColor)
    ensures
        r == (RgbColor { r: 120, g: 120, b: 120 }),
{
    RgbColor { r: 120, g: 120, b: 120 }
}

fn black() -> (r: RgbColor)
    ensures
        r == (RgbColor { r: 0, g: 0, b: 0 }),
{
    RgbColor { r: 0, g: 0, b: 0 }
}

/// How many rule characters fill a width of `usable` at font size
/// `size` under the monospace model: the quotient by the character
/// width, clamped to at least one and at most 4096 characters.
pub open spec fn spec_separator_chars(usable: int, size: int) -> int {
    let per_char = size * 3 / 5;
    let raw = if per_char == 0 {
        1int
    } else {
        usable / per_char
    };
    if raw < 1 {
        1
    } else if raw > 4096 {
        4096
    } else {
        raw
    }
}

/// A horizontal rule that fills the usable width at the given font
/// size under the monospace model (at least one character).
pub fn separator_line(builder: &PageBuilder, font_size: u32) -> (r: String)
    requires
        builder.wf(),
    ensures
        r@ == crate::text::spec_repeat_char(
            '\u{2500}',
            spec_separator_chars(builder.spec_usable_width(), font_size as int),
        ),
        r@.len() >= 1,
{
    let usable = builder.usable_width();
    let per_char: u64 = (font_size as u64) * 3 / 5;
    let chars64: u64 = if per_char == 0 {
        1
    } else {
        usable / per_char
    };
    let chars: usize = if chars64 == 0 {
        1
    } else if chars64 > 4096 {
        4096
    } else {
        chars64 as usize
    };
    proof {
        if per_char > 0 {
            vstd::arithmetic::div_mod::lemma_div_pos_is_pos(usable as int, per_char as int);
        }
    }
    repeat_char('\u{2500}', chars)
}

/// The URI link a row contributes: one exactly when the value is
/// non-empty and a URL was given.
pub open spec fn spec_row_link(value: Seq<char>, url: Option<Seq<char>>) -> Seq<Seq<char>> {
    match url {
        Some(u) => if value.len() > 0 {
            seq![u]
        } else {
            Seq::empty()
        },
        None => Seq::empty(),
    }
}

/// One label/value row of the metadata table, skipped when the value is
/// empty; a URL makes the row's line clickable.
fn write_row(builder: &mut PageBuilder, label: &str, value: &str, url: Option<String>)
    requires
        old(builder).wf(),
    ensures
        final(builder).wf(),
        final(builder).page_width == old(builder).page_width,
        final(builder).page_height == old(builder).page_height,
        final(builder).margin == old(builder).margin,
        final(builder).line_height == old(builder).line_height,
        final(builder).start_page == old(builder).start_page,
        old(builder).spec_all_ops().is_prefix_of(final(builder).spec_all_ops()),
        spec_uri_links(final(builder).spec_link_ops()) == spec_uri_links(
            old(builder).spec_link_ops(),
        ) + spec_row_link(
            value@,
            match url {
                Some(u) => Some(u@),
                None => None,
            },
        ),
{
    if value.unicode_len() == 0 {
        proof {
            assert(old(builder).spec_all_ops().is_prefix_of(builder.spec_all_ops())) by {
                assert(builder.spec_all_ops().take(old(builder).spec_all_ops().len() as int)
                    =~= old(builder).spec_all_ops());
            }
            assert(spec_uri_links(builder.spec_link_ops()) =~= spec_uri_links(
                old(builder).spec_link_ops(),
            ));
        }
        return ;
    }
    let mut spans: Vec<Span> = Vec::new();
    spans.push(
        Span {
            text: pad_right(label, LABEL_COL, ' '),
            font: FontVariant::Bold,
            size: 900,
            color: black(),
        },
    );
    spans.push(
        Span { text: value.to_owned(), font: FontVariant::Regular, size: 900, color: black() },
    );
    builder.write_line(spans);
    let ghost mid = *builder;
    if let Some(u) = url {
        let ghost uv = u@;
        let lh = builder.line_height();
        builder.add_link(lh, LinkTarget::Uri(u));
        proof {
            lemma_uri_links_push_uri(mid.spec_link_ops(), builder.spec_link_ops().last(), uv);
            lemma_prefix_trans(
                old(builder).spec_all_ops(),
                mid.spec_all_ops(),
                builder.spec_all_ops(),
            );
        }
    } else {
        proof {
            assert(spec_uri_links(builder.spec_link_ops()) =~= spec_uri_links(
                old(builder).spec_link_ops(),
            ) + spec_row_link(value@, None::<Seq<char>>));
        }
    }
}

/// The URI targets of a link-instruction list, in order (in-document
/// page links are not URIs and do not appear).
pub open spec fn spec_uri_links(links: Seq<PageOp>) -> Seq<Seq<char>>
    decreases links.len(),
{
    if links.len() == 0 {
        Seq::empty()
    } else {
        let rest = spec_uri_links(links.drop_last());
        match links.last() {
            PageOp::Link { target: LinkTarget::Uri(u), .. } => rest.push(u@),
            _ => rest,
        }
    }
}

/// Appending a URI link appends its target to the URI projection.
pub proof fn lemma_uri_links_push_uri(links: Seq<PageOp>, op: PageOp, uri: Seq<char>)
    requires
        op matches PageOp::Link { target: LinkTarget::Uri(u), .. } && u@ == uri,
    ensures
        spec_uri_links(links.push(op)) == spec_uri_links(links).push(uri),
{
    assert(links.push(op).drop_last() =~= links);
}

fn write_separator(builder: &mut PageBuilder, size: u32)
    requires
        old(builder).wf(),
    ensures
        final(builder).wf(),
        final(builder).page_width == old(builder).page_width,
        final(builder).page_height == old(builder).page_height,
        final(builder).margin == old(builder).margin,
        final(builder).line_height == old(builder).line_height,
        final(builder).start_page == old(builder).start_page,
        final(builder).spec_link_ops() == old(builder).spec_link_ops(),
        old(builder).spec_all_ops().is_prefix_of(final(builder).spec_all_ops()),
{
    let sep = separator_line(builder, size);
    let mut spans: Vec<Span> = Vec::new();
    spans.push(Span { text: sep, font: FontVariant::Regular, size, color: gray() });
    builder.write_line(spans);
}

/// The view of an optional string argument.
pub open spec fn spec_opt_str_view(o: Option<&String>) -> Option<Seq<char>> {
    match o {
        Some(v) => Some(v@),
        None => None,
    }
}

/// The remote base the cover links against: the caller's remote, else
/// the detected one, with one trailing ".git" removed.
pub open spec fn spec_cover_base(m: RepoMetadata, remote: Option<Seq<char>>) -> Option<Seq<char>> {
    let eff = match remote {
        Some(u) => Some(u),
        None => match m.detected_remote_url {
            Some(d) => Some(d@),
            None => None,
        },
    };
    match eff {
        Some(u) => Some(
            if spec_ends_with(u, ".git"@) {
                u.take(u.len() - ".git"@.len())
            } else {
                u
            },
        ),
        None => None,
    }
}

/// The title's link: the repo tree at the commit (or the repo root when
/// no commit is known), else a file URL of the local path, else none.
pub open spec fn spec_cover_title_url(m: RepoMetadata, base: Option<Seq<char>>) -> Option<
    Seq<char>,
> {
    match base {
        Some(b) => Some(
            if m.commit_hash@.len() == 0 {
                b
            } else {
                b + "/tree/"@ + m.commit_hash@
            },
        ),
        None => match m.repo_absolute_path {
            Some(p) => Some("file://"@ + p@),
            None => None,
        },
    }
}

/// The commit rows' link: the commit page, when a remote and a commit
/// are known.
pub open spec fn spec_cover_commit_url(m: RepoMetadata, base: Option<Seq<char>>) -> Option<
    Seq<char>,
> {
    match base {
        Some(b) => if m.commit_hash@.len() > 0 {
            Some(b + "/commit/"@ + m.commit_hash@)
        } else {
            None
        },
        None => None,
    }
}

/// The author row's link: a profile for a noreply address, else a
/// commit search by email, when a remote and an email are known.
pub open spec fn spec_cover_author_url(m: RepoMetadata, base: Option<Seq<char>>) -> Option<
    Seq<char>,
> {
    match base {
        Some(b) => if m.commit_author_email@.len() > 0 {
            Some(
                match spec_noreply_username(m.commit_author_email@) {
                    Some(u) => spec_url_host(b) + "/"@ + u,
                    None => b + "/commits?author="@ + m.commit_author_email@,
                },
            )
        } else {
            None
        },
        None => None,
    }
}

/// The author row's display value.
pub open spec fn spec_author_display(m: RepoMetadata) -> Seq<char> {
    if m.commit_author_email@.len() == 0 {
        m.commit_author@
    } else {
        m.commit_author@ + " <"@ + m.commit_author_email@ + ">"@
    }
}

/// Zero or one link.
pub open spec fn spec_opt_link(o: Option<Seq<char>>) -> Seq<Seq<char>> {
    match o {
        Some(u) => seq![u],
        None => Seq::empty(),
    }
}

/// Every URI link the cover issues, in order: the title's (when any),
/// the commit row's, the author row's, the message row's (the commit
/// page again), and the footer's project page.
pub open spec fn spec_cover_links(m: RepoMetadata, remote: Option<Seq<char>>) -> Seq<Seq<char>> {
    let base = spec_cover_base(m, remote);
    spec_opt_link(spec_cover_title_url(m, base)) + spec_row_link(
        m.commit_hash_short@,
        spec_cover_commit_url(m, base),
    ) + spec_row_link(spec_author_display(m), spec_cover_author_url(m, base)) + spec_row_link(
        m.commit_message@,
        spec_cover_commit_url(m, base),
    ) + seq!["https://crates.io/crates/gitprint"@]
}

/// Writes the metadata table between two rules: one row per non-empty
/// field, the commit, author and message rows carrying their links.
fn write_table(
    builder: &mut PageBuilder,
    metadata: &RepoMetadata,
    commit_url: Option<String>,
    author_url: Option<String>,
    author_display: &String,
)
    requires
        old(builder).wf(),
    ensures
        final(builder).wf(),
        final(builder).page_width == old(builder).page_width,
        final(builder).page_height == old(builder).page_height,
        final(builder).margin == old(builder).margin,
        final(builder).line_height == old(builder).line_height,
        final(builder).start_page == old(builder).start_page,
        old(builder).spec_all_ops().is_prefix_of(final(builder).spec_all_ops()),
        spec_uri_links(final(builder).spec_link_ops()) == spec_uri_links(
            old(builder).spec_link_ops(),
        ) + spec_row_link(
            metadata.commit_hash_short@,
            match commit_url {
                Some(u) => Some(u@),
                None => None,
            },
        ) + spec_row_link(
            author_display@,
            match author_url {
                Some(u) => Some(u@),
                None => None,
            },
        ) + spec_row_link(
            metadata.commit_message@,
            match commit_url {
                Some(u) => Some(u@),
                None => None,
            },
        ),
{
    let ghost u0 = spec_uri_links(old(builder).spec_link_ops());
    write_separator(builder, 750);
    builder.vertical_space(400);

    write_row(builder, "Branch", metadata.branch.as_str(), None);
    let commit_url2: Option<String> = match &commit_url {
        Some(u) => Some(u.clone()),
        None => None,
    };
    write_row(builder, "Commit", metadata.commit_hash_short.as_str(), commit_url2);
    write_row(builder, "Author", author_display.as_str(), author_url);
    write_row(builder, "Date", metadata.commit_date.as_str(), None);
    write_row(builder, "Message", metadata.commit_message.as_str(), commit_url);
    let files = u64_to_string(metadata.file_count as u64);
    write_row(builder, "Files", files.as_str(), None);
    let lines = u64_to_string(metadata.total_lines as u64);
    write_row(builder, "Lines", lines.as_str(), None);
    write_row(builder, "Size", metadata.repo_size.as_str(), None);
    match &metadata.fs_owner {
        Some(owner) => write_row(builder, "FS Owner", owner.as_str(), None),
        None => (),
    }
    match &metadata.fs_group {
        Some(group) => write_row(builder, "FS Group", group.as_str(), None),
        None => (),
    }
    write_row(builder, "Generated", metadata.generated_at.as_str(), None);

    builder.vertical_space(400);
    write_separator(builder, 750);
}

/// Writes the footer at the bottom of the page: a rule and a centered
/// credit line linked to the project page.
fn write_footer(builder: &mut PageBuilder)
    requires
        old(builder).wf(),
    ensures
        final(builder).wf(),
        !final(builder).pending_break,
        final(builder).page_width == old(builder).page_width,
        final(builder).page_height == old(builder).page_height,
        final(builder).margin == old(builder).margin,
        final(builder).line_height == old(builder).line_height,
        final(builder).start_page == old(builder).start_page,
        old(builder).spec_all_ops().is_prefix_of(final(builder).spec_all_ops()),
        spec_uri_links(final(builder).spec_link_ops()) == spec_uri_links(
            old(builder).spec_link_ops(),
        ).push("https://crates.io/crates/gitprint"@),
{
    let footer_size: u32 = 700;
    let lh = builder.line_height();
    let footer_area = lh + 400 + (footer_size as u64) + 400;
    let rem = builder.remaining();
    if rem > footer_area {
        builder.vertical_space(rem - footer_area);
    }
    write_separator(builder, footer_size);
    builder.vertical_space(400);
    let mut footer_text = String::new();
    footer_text.append("Generated with gitprint (");
    let url = crates_url();
    footer_text.append(url.as_str());
    footer_text.append(")");
    builder.write_centered(footer_text.as_str(), FontVariant::Regular, footer_size, gray());
    let ghost pre_footer = *builder;
    builder.add_link((footer_size as u64) + 400, LinkTarget::Uri(crates_url()));
    proof {
        lemma_uri_links_push_uri(
            pre_footer.spec_link_ops(),
            builder.spec_link_ops().last(),
            "https://crates.io/crates/gitprint"@,
        );
    }
}

/// Renders the cover sheet for a repository: a centered title linked to
/// the repo tree (or the local path), the metadata table between rules
/// with its linked rows, and the footer; ends with a deferred page
/// break. The repository name is drawn as a centered title line, the
/// URI links issued are exactly [`spec_cover_links`], in order, and no
/// earlier instruction is touched.
pub fn render(builder: &mut PageBuilder, metadata: &RepoMetadata, remote_url: Option<&String>)
    requires
        old(builder).wf(),
    ensures
        final(builder).wf(),
        final(builder).pending_break,
        final(builder).page_width == old(builder).page_width,
        final(builder).page_height == old(builder).page_height,
        final(builder).margin == old(builder).margin,
        final(builder).line_height == old(builder).line_height,
        final(builder).start_page == old(builder).start_page,
        old(builder).spec_all_ops().is_prefix_of(final(builder).spec_all_ops()),
        spec_uri_links(final(builder).spec_link_ops()) == spec_uri_links(
            old(builder).spec_link_ops(),
        ) + spec_cover_links(*metadata, spec_opt_str_view(remote_url)),
        exists|t: int|
            old(builder).spec_all_ops().len() <= t < final(builder).spec_all_ops().len() && ((
            #[trigger] final(builder).spec_all_ops()[t]) matches PageOp::TextLine { spans, .. }
                && spans@.len() == 1 && spans@[0].text@ == metadata.name@ && spans@[0].size
                == 2800),
{
    let ghost u0 = spec_uri_links(old(builder).spec_link_ops());
    let ghost base_spec = spec_cover_base(*metadata, spec_opt_str_view(remote_url));
    // Prefer the caller's remote; fall back to the one detected from
    // git config so links work for plain local repos too.
    let effective_remote: Option<&String> = match remote_url {
        Some(u) => Some(u),
        None => match &metadata.detected_remote_url {
            Some(u) => Some(u),
            None => None,
        },
    };
    let remote_base: Option<String> = match effective_remote {
        Some(u) => Some(
            match strip_suffix(u.as_str(), ".git") {
                Some(b) => b,
                None => u.clone(),
            },
        ),
        None => None,
    };
    proof {
        reveal_strlit(".git");
        match &remote_base {
            Some(b) => assert(base_spec matches Some(bs) && bs == b@),
            None => assert(base_spec is None),
        }
    }

    let title_url: Option<String> = match &remote_base {
        Some(base) => Some(repo_tree_link(base.as_str(), metadata.commit_hash.as_str())),
        None => match &metadata.repo_absolute_path {
            Some(p) => Some(file_url(p.as_str())),
            None => None,
        },
    };
    let commit_url: Option<String> = match &remote_base {
        Some(base) => {
            if metadata.commit_hash.as_str().unicode_len() > 0 {
                Some(commit_link(base.as_str(), metadata.commit_hash.as_str()))
            } else {
                None
            }
        },
        None => None,
    };
    let author_url: Option<String> = match &remote_base {
        Some(base) => {
            if metadata.commit_author_email.as_str().unicode_len() > 0 {
                Some(author_link(base.as_str(), metadata.commit_author_email.as_str()))
            } else {
                None
            }
        },
        None => None,
    };
    proof {
        match &title_url {
            Some(u) => assert(spec_cover_title_url(*metadata, base_spec) matches Some(t) && t
                == u@),
            None => assert(spec_cover_title_url(*metadata, base_spec) is None),
        }
        match &commit_url {
            Some(u) => assert(spec_cover_commit_url(*metadata, base_spec) matches Some(t) && t
                == u@),
            None => assert(spec_cover_commit_url(*metadata, base_spec) is None),
        }
        match &author_url {
            Some(u) => assert(spec_cover_author_url(*metadata, base_spec) matches Some(t) && t
                == u@),
            None => assert(spec_cover_author_url(*metadata, base_spec) is None),
        }
    }
    let author_display: String = if metadata.commit_author_email.as_str().unicode_len() == 0 {
        metadata.commit_author.clone()
    } else {
        let mut a = metadata.commit_author.clone();
        a.append(" <");
        a.append(metadata.commit_author_email.as_str());
        a.append(">");
        a
    };
    proof {
        assert(author_display@ =~= spec_author_display(*metadata));
    }

    // Title, dropped a third of the way down the page.
    builder.vertical_space(12000);
    let ghost all0 = old(builder).spec_all_ops();
    builder.write_centered(metadata.name.as_str(), FontVariant::Bold, 2800, black());
    // The centered title just written is the name-line witness; every
    // later operation only appends, so it survives to the final list.
    let ghost t_name = builder.spec_all_ops().len() - 1;
    let ghost op_name = builder.spec_all_ops()[t_name];
    let ghost all_name = builder.spec_all_ops();
    proof {
        assert(all0.len() <= t_name);
        assert(op_name == builder.current_ops@.last());
        assert(op_name matches PageOp::TextLine { spans, .. } && spans@.len() == 1
            && spans@[0].text@ == metadata.name@ && spans@[0].size == 2800);
    }
    let ghost pre_title = *builder;
    if let Some(url) = title_url {
        let ghost uv = url@;
        builder.add_link(3200, LinkTarget::Uri(url));
        proof {
            lemma_uri_links_push_uri(pre_title.spec_link_ops(), builder.spec_link_ops().last(), uv);
            assert(all_name.is_prefix_of(builder.spec_all_ops()));
        }
    }
    proof {
        assert(spec_uri_links(builder.spec_link_ops()) =~= u0 + spec_opt_link(
            spec_cover_title_url(*metadata, base_spec),
        ));
    }
    builder.vertical_space(3200);

    let ghost a1 = builder.spec_all_ops();
    write_table(builder, metadata, commit_url, author_url, &author_display);
    proof {
        lemma_prefix_trans(all_name, a1, builder.spec_all_ops());
    }
    let ghost a2 = builder.spec_all_ops();
    write_footer(builder);
    proof {
        lemma_prefix_trans(all_name, a2, builder.spec_all_ops());
    }
    builder.page_break();

    proof {
        assert(spec_uri_links(builder.spec_link_ops()) =~= u0 + spec_cover_links(
            *metadata,
            spec_opt_str_view(remote_url),
        ));
        assert(old(builder).spec_all_ops().is_prefix_of(builder.spec_all_ops())) by {
            assert(builder.spec_all_ops().take(old(builder).spec_all_ops().len() as int)
                =~= old(builder).spec_all_ops());
        }
        assert(builder.spec_all_ops()[t_name] == op_name);
        assert(t_name < builder.spec_all_ops().len());
    }
}

} // verus!
