//! The user report's cover sheet: the display name (linked to the
//! profile), the login handle when it differs, a label/value table of
//! profile fields with word-wrapped values, and a footer at the bottom
//! of the page.

use vstd::prelude::*;

use crate::cover::{crates_url, lemma_uri_links_push_uri, separator_line, spec_row_link, spec_uri_links, LABEL_COL};
use crate::github::GitHubUser;
use crate::layout::{lemma_prefix_trans, FontVariant, LinkTarget, PageBuilder, PageOp, Span};
use crate::text::{pad_right, repeat_char, spec_starts_with, starts_with, str_eq, substring, u64_to_string};
use crate::types::RgbColor;
use crate::wrap::word_wrap;

verus! {

fn gray() -> (r: RgbColor)
    ensures
        r == (RgbColor { r: 120, g: 120, b: 120 }),
{
    RgbColor { r: 120, g: 120, b: 120 }
}

fn black() -> (r: RgbColor)
    ensures
        r == (RgbColor { r: 0, g: 0, b: 0 }),
{
    RgbColor { r: 0, g: 0, b: 0 }
}

fn write_separator(builder: &mut PageBuilder, size: u32)
    requires
        old(builder).wf(),
    ensures
        final(builder).wf(),
        final(builder).page_width == old(builder).page_width,
        final(builder).page_height == old(builder).page_height,
        final(builder).margin == old(builder).margin,
        final(builder).line_height == old(builder).line_height,
        final(builder).start_page == old(builder).start_page,
        final(builder).spec_link_ops() == old(builder).spec_link_ops(),
        old(builder).spec_all_ops().is_prefix_of(final(builder).spec_all_ops()),
{
    let sep = separator_line(builder, size);
    let mut spans: Vec<Span> = Vec::new();
    spans.push(Span { text: sep, font: FontVariant::Regular, size, color: gray() });
    builder.write_line(spans);
}

/// One label/value table row, word-wrapped to the value column's width;
/// continuation lines carry a blank label. Empty values are skipped.
/// The URI links issued are exactly [`spec_row_link`] of the value and
/// URL — one link when the value is non-empty and a URL was given —
/// and no earlier instruction is touched.
fn write_wrapped_row(
    builder: &mut PageBuilder,
    label: &str,
    value: &str,
    url: Option<String>,
    value_cols: usize,
)
    requires
        old(builder).wf(),
    ensures
        final(builder).wf(),
        final(builder).page_width == old(builder).page_width,
        final(builder).page_height == old(builder).page_height,
        final(builder).margin == old(builder).margin,
        final(builder).line_height == old(builder).line_height,
        final(builder).start_page == old(builder).start_page,
        old(builder).spec_all_ops().is_prefix_of(final(builder).spec_all_ops()),
        spec_uri_links(final(builder).spec_link_ops()) == spec_uri_links(
            old(builder).spec_link_ops(),
        ) + spec_row_link(
            value@,
            match url {
                Some(u) => Some(u@),
                None => None,
            },
        ),
{
    if value.unicode_len() == 0 {
        proof {
            assert(old(builder).spec_all_ops().is_prefix_of(builder.spec_all_ops())) by {
                assert(builder.spec_all_ops().take(old(builder).spec_all_ops().len() as int)
                    =~= old(builder).spec_all_ops());
            }
            assert(spec_uri_links(builder.spec_link_ops()) =~= spec_uri_links(
                old(builder).spec_link_ops(),
            ) + spec_row_link(
                value@,
                match url {
                    Some(u) => Some(u@),
                    None => None,
                },
            ));
        }
        return ;
    }
    let ghost all0 = old(builder).spec_all_ops();
    let ghost links0 = old(builder).spec_link_ops();
    proof {
        assert(all0.is_prefix_of(builder.spec_all_ops())) by {
            assert(builder.spec_all_ops().take(all0.len() as int) =~= all0);
        }
    }
    let pieces = word_wrap(value, value_cols);
    let mut i: usize = 0;
    while i < pieces.len()
        invariant
            builder.wf(),
            builder.page_width == old(builder).page_width,
            builder.page_height == old(builder).page_height,
            builder.margin == old(builder).margin,
            builder.line_height == old(builder).line_height,
            builder.start_page == old(builder).start_page,
            i <= pieces@.len(),
            builder.spec_link_ops() == links0,
            all0.is_prefix_of(builder.spec_all_ops()),
        decreases pieces@.len() - i,
    {
        let label_text = if i == 0 {
            pad_right(label, LABEL_COL, ' ')
        } else {
            repeat_char(' ', LABEL_COL)
        };
        let mut spans: Vec<Span> = Vec::new();
        spans.push(Span { text: label_text, font: FontVariant::Bold, size: 900, color: black() });
        spans.push(
            Span { text: pieces[i].clone(), font: FontVariant::Regular, size: 900, color: black() },
        );
        let ghost a1 = builder.spec_all_ops();
        builder.write_line(spans);
        proof {
            lemma_prefix_trans(all0, a1, builder.spec_all_ops());
        }
        i = i + 1;
    }
    match url {
        Some(u) => {
            let ghost uv = u@;
            let lh = builder.line_height();
            let ghost pre = *builder;
            builder.add_link(lh, LinkTarget::Uri(u));
            proof {
                lemma_prefix_trans(all0, pre.spec_all_ops(), builder.spec_all_ops());
                lemma_uri_links_push_uri(
                    pre.spec_link_ops(),
                    builder.spec_link_ops().last(),
                    uv,
                );
                assert(spec_uri_links(builder.spec_link_ops()) =~= spec_uri_links(links0)
                    + spec_row_link(value@, Some(uv)));
            }
        },
        None => {
            proof {
                assert(spec_uri_links(builder.spec_link_ops()) =~= spec_uri_links(links0)
                    + spec_row_link(value@, None::<Seq<char>>));
            }
        },
    }
}


/// The profile table: one wrapped row per present field, Bio through
/// Profile. The URI links issued are exactly the blog row's (when a
/// non-empty blog is present) followed by the profile row's, and no
/// earlier instruction is touched.
fn write_profile_table(
    builder: &mut PageBuilder,
    user: &GitHubUser,
    total_stars: u64,
    value_cols: usize,
)
    requires
        old(builder).wf(),
    ensures
        final(builder).wf(),
        final(builder).page_width == old(builder).page_width,
        final(builder).page_height == old(builder).page_height,
        final(builder).margin == old(builder).margin,
        final(builder).line_height == old(builder).line_height,
        final(builder).start_page == old(builder).start_page,
        old(builder).spec_all_ops().is_prefix_of(final(builder).spec_all_ops()),
        spec_uri_links(final(builder).spec_link_ops()) == spec_uri_links(
            old(builder).spec_link_ops(),
        ) + (match user.blog {
            Some(b) => spec_row_link(b@, Some(spec_blog_link(b@))),
            None => Seq::<Seq<char>>::empty(),
        }) + spec_row_link(user.html_url@, Some(user.html_url@)),
{
    let ghost all_name = old(builder).spec_all_ops();
    let ghost head = spec_uri_links(old(builder).spec_link_ops());
    proof {
        assert(all_name.is_prefix_of(builder.spec_all_ops())) by {
            assert(builder.spec_all_ops().take(all_name.len() as int) =~= all_name);
        }
    }
    match &user.bio {
        Some(bio) => {
            let ghost a4 = builder.spec_all_ops();
            write_wrapped_row(builder, "Bio", bio.as_str(), None, value_cols);
            proof {
                lemma_prefix_trans(all_name, a4, builder.spec_all_ops());
            }
        },
        None => (),
    }
    match &user.location {
        Some(v) => {
            let ghost a5 = builder.spec_all_ops();
            write_wrapped_row(builder, "Location", v.as_str(), None, value_cols);
            proof {
                lemma_prefix_trans(all_name, a5, builder.spec_all_ops());
            }
        },
        None => (),
    }
    match &user.company {
        Some(v) => {
            let ghost a6 = builder.spec_all_ops();
            write_wrapped_row(builder, "Company", v.as_str(), None, value_cols);
            proof {
                lemma_prefix_trans(all_name, a6, builder.spec_all_ops());
            }
        },
        None => (),
    }
    proof {
        assert(spec_uri_links(builder.spec_link_ops()) =~= head);
    }
    match &user.blog {
        Some(v) => {
            let link: String = if starts_with(v.as_str(), "http") {
                v.clone()
            } else {
                let mut l = String::new();
                l.append("https://");
                l.append(v.as_str());
                l
            };
            proof {
                assert(link@ =~= spec_blog_link(v@));
            }
            let ghost a7 = builder.spec_all_ops();
            write_wrapped_row(builder, "Blog", v.as_str(), Some(link), value_cols);
            proof {
                lemma_prefix_trans(all_name, a7, builder.spec_all_ops());
            }
        },
        None => (),
    }
    let ghost blogged = head + (match &user.blog {
        Some(b) => spec_row_link(b@, Some(spec_blog_link(b@))),
        None => Seq::<Seq<char>>::empty(),
    });
    proof {
        assert(spec_uri_links(builder.spec_link_ops()) =~= blogged);
    }
    match &user.email {
        Some(v) => {
            let ghost a8 = builder.spec_all_ops();
            write_wrapped_row(builder, "Email", v.as_str(), None, value_cols);
            proof {
                lemma_prefix_trans(all_name, a8, builder.spec_all_ops());
            }
        },
        None => (),
    }
    let repos = u64_to_string(user.public_repos);
    let ghost a9 = builder.spec_all_ops();
    write_wrapped_row(builder, "Public Repos", repos.as_str(), None, value_cols);
    proof {
        lemma_prefix_trans(all_name, a9, builder.spec_all_ops());
    }
    let stars = u64_to_string(total_stars);
    let ghost a10 = builder.spec_all_ops();
    write_wrapped_row(builder, "Total Stars", stars.as_str(), None, value_cols);
    proof {
        lemma_prefix_trans(all_name, a10, builder.spec_all_ops());
    }
    let followers = u64_to_string(user.followers);
    let ghost a11 = builder.spec_all_ops();
    write_wrapped_row(builder, "Followers", followers.as_str(), None, value_cols);
    proof {
        lemma_prefix_trans(all_name, a11, builder.spec_all_ops());
    }
    let following = u64_to_string(user.following);
    let ghost a12 = builder.spec_all_ops();
    write_wrapped_row(builder, "Following", following.as_str(), None, value_cols);
    proof {
        lemma_prefix_trans(all_name, a12, builder.spec_all_ops());
    }
    let created_len = user.created_at.as_str().unicode_len();
    let member_since = substring(
        user.created_at.as_str(),
        0,
        if created_len < 10 {
            created_len
        } else {
            10
        },
    );
    let ghost a13 = builder.spec_all_ops();
    write_wrapped_row(builder, "Member Since", member_since.as_str(), None, value_cols);
    proof {
        lemma_prefix_trans(all_name, a13, builder.spec_all_ops());
    }
    let ghost a14 = builder.spec_all_ops();
    write_wrapped_row(
        builder,
        "Profile",
        user.html_url.as_str(),
        Some(user.html_url.clone()),
        value_cols,
    );
    proof {
        lemma_prefix_trans(all_name, a14, builder.spec_all_ops());
        assert(spec_uri_links(builder.spec_link_ops()) =~= blogged + spec_row_link(
            user.html_url@,
            Some(user.html_url@),
        ));
    }
}

/// The footer at the bottom of the page: a rule and a centered credit
/// line linked to the project page — the one URI link this writes.
fn write_footer(builder: &mut PageBuilder)
    requires
        old(builder).wf(),
    ensures
        final(builder).wf(),
        !final(builder).pending_break,
        final(builder).page_width == old(builder).page_width,
        final(builder).page_height == old(builder).page_height,
        final(builder).margin == old(builder).margin,
        final(builder).line_height == old(builder).line_height,
        final(builder).start_page == old(builder).start_page,
        old(builder).spec_all_ops().is_prefix_of(final(builder).spec_all_ops()),
        spec_uri_links(final(builder).spec_link_ops()) == spec_uri_links(
            old(builder).spec_link_ops(),
        ).push("https://crates.io/crates/gitprint"@),
{
    let ghost all0 = old(builder).spec_all_ops();
    let footer_size: u32 = 700;
    let lh = builder.line_height();
    let footer_area = lh + 400 + (footer_size as u64) + 400;
    let rem = builder.remaining();
    if rem > footer_area {
        builder.vertical_space(rem - footer_area);
    }
    proof {
        assert(all0.is_prefix_of(builder.spec_all_ops())) by {
            assert(builder.spec_all_ops().take(all0.len() as int) =~= all0);
        }
    }
    let ghost a16 = builder.spec_all_ops();
    write_separator(builder, footer_size);
    proof {
        lemma_prefix_trans(all0, a16, builder.spec_all_ops());
    }
    builder.vertical_space(400);
    let mut footer_text = String::new();
    footer_text.append("Generated with gitprint (");
    let url = crates_url();
    footer_text.append(url.as_str());
    footer_text.append(")");
    let ghost a17 = builder.spec_all_ops();
    builder.write_centered(footer_text.as_str(), FontVariant::Regular, footer_size, gray());
    proof {
        lemma_prefix_trans(all0, a17, builder.spec_all_ops());
    }
    let ghost a18 = builder.spec_all_ops();
    let ghost pre_footer = *builder;
    builder.add_link((footer_size as u64) + 400, LinkTarget::Uri(crates_url()));
    proof {
        lemma_prefix_trans(all0, a18, builder.spec_all_ops());
        lemma_uri_links_push_uri(
            pre_footer.spec_link_ops(),
            builder.spec_link_ops().last(),
            "https://crates.io/crates/gitprint"@,
        );
    }
}

/// The cover's display name: the profile name, else the login handle.
pub open spec fn spec_display_name(user: GitHubUser) -> Seq<char> {
    match user.name {
        Some(n) => n@,
        None => user.login@,
    }
}

/// The blog row's link: the blog field itself when it already names a
/// scheme, else with "https://" prepended.
pub open spec fn spec_blog_link(blog: Seq<char>) -> Seq<char> {
    if spec_starts_with(blog, "http"@) {
        blog
    } else {
        "https://"@ + blog
    }
}

/// Every URI link the user cover issues, in order: the name line's
/// profile link, the handle line's (only when the display name differs
/// from the login), the blog row's (when a non-empty blog is present),
/// the profile row's, and the footer's project page.
pub open spec fn spec_user_cover_links(user: GitHubUser) -> Seq<Seq<char>> {
    seq![user.html_url@] + (if spec_display_name(user) != user.login@ {
        seq![user.html_url@]
    } else {
        Seq::empty()
    }) + (match user.blog {
        Some(b) => spec_row_link(b@, Some(spec_blog_link(b@))),
        None => Seq::empty(),
    }) + spec_row_link(user.html_url@, Some(user.html_url@)) + seq![
        "https://crates.io/crates/gitprint"@,
    ]
}

/// Renders the user cover sheet; ends with a deferred page break. The
/// display name is drawn as a centered title line, the URI links
/// issued are exactly [`spec_user_cover_links`], in order, and no
/// earlier instruction is touched.
#[verifier::rlimit(100)]
pub fn render(builder: &mut PageBuilder, user: &GitHubUser, total_stars: u64)
    requires
        old(builder).wf(),
    ensures
        final(builder).wf(),
        final(builder).pending_break,
        final(builder).page_width == old(builder).page_width,
        final(builder).page_height == old(builder).page_height,
        final(builder).margin == old(builder).margin,
        final(builder).line_height == old(builder).line_height,
        final(builder).start_page == old(builder).start_page,
        old(builder).spec_all_ops().is_prefix_of(final(builder).spec_all_ops()),
        spec_uri_links(final(builder).spec_link_ops()) == spec_uri_links(
            old(builder).spec_link_ops(),
        ) + spec_user_cover_links(*user),
        exists|t: int|
            old(builder).spec_all_ops().len() <= t < final(builder).spec_all_ops().len() && ((
            #[trigger] final(builder).spec_all_ops()[t]) matches PageOp::TextLine { spans, .. }
                && spans@.len() == 1 && spans@[0].text@ == spec_display_name(*user)
                && spans@[0].size == 2800),
{
    let ghost u0 = spec_uri_links(old(builder).spec_link_ops());
    let display_name: &String = match &user.name {
        Some(n) => n,
        None => &user.login,
    };
    proof {
        assert(display_name@ == spec_display_name(*user));
    }

    builder.vertical_space(12000);
    let ghost all0 = old(builder).spec_all_ops();
    builder.write_centered(display_name.as_str(), FontVariant::Bold, 2800, black());
    // The centered title just written is the name-line witness; every
    // later operation only appends, so it survives to the final list.
    let ghost t_name = builder.spec_all_ops().len() - 1;
    let ghost op_name = builder.spec_all_ops()[t_name];
    proof {
        assert(all0.len() <= t_name);
        assert(op_name == builder.current_ops@.last());
        assert(op_name matches PageOp::TextLine { spans, .. } && spans@.len() == 1
            && spans@[0].text@ == spec_display_name(*user) && spans@[0].size == 2800);
    }
    let ghost all_name = builder.spec_all_ops();
    let ghost pre_name_link = *builder;
    builder.add_link(3200, LinkTarget::Uri(user.html_url.clone()));
    proof {
        lemma_uri_links_push_uri(
            pre_name_link.spec_link_ops(),
            builder.spec_link_ops().last(),
            user.html_url@,
        );
        assert(all_name.is_prefix_of(builder.spec_all_ops()));
    }

    if !str_eq(display_name.as_str(), user.login.as_str()) {
        builder.vertical_space(600);
        let mut handle = String::new();
        handle.append("@");
        handle.append(user.login.as_str());
        let ghost a1 = builder.spec_all_ops();
        builder.write_centered(handle.as_str(), FontVariant::Regular, 1200, gray());
        proof {
            lemma_prefix_trans(all_name, a1, builder.spec_all_ops());
        }
        let ghost a2 = builder.spec_all_ops();
        let ghost pre_handle = *builder;
        builder.add_link(1600, LinkTarget::Uri(user.html_url.clone()));
        proof {
            lemma_prefix_trans(all_name, a2, builder.spec_all_ops());
            lemma_uri_links_push_uri(
                pre_handle.spec_link_ops(),
                builder.spec_link_ops().last(),
                user.html_url@,
            );
        }
    }
    let ghost head = u0 + seq![user.html_url@] + (if spec_display_name(*user) != user.login@ {
        seq![user.html_url@]
    } else {
        Seq::<Seq<char>>::empty()
    });
    proof {
        assert(spec_uri_links(builder.spec_link_ops()) =~= head);
    }

    builder.vertical_space(3200);
    let ghost a3 = builder.spec_all_ops();
    write_separator(builder, 750);
    proof {
        lemma_prefix_trans(all_name, a3, builder.spec_all_ops());
    }
    builder.vertical_space(400);

    // The value column's width in characters under the monospace model.
    let usable = builder.usable_width();
    let label_width: u64 = (LABEL_COL as u64) * 900 * 3 / 5;
    let per_char: u64 = 900 * 3 / 5;
    let cols64: u64 = if usable > label_width {
        (usable - label_width) / per_char
    } else {
        1
    };
    let value_cols: usize = if cols64 == 0 {
        1
    } else if cols64 > 4096 {
        4096
    } else {
        cols64 as usize
    };

    let ghost a4 = builder.spec_all_ops();
    write_profile_table(builder, user, total_stars, value_cols);
    proof {
        lemma_prefix_trans(all_name, a4, builder.spec_all_ops());
    }

    builder.vertical_space(400);
    let ghost a5 = builder.spec_all_ops();
    write_separator(builder, 750);
    proof {
        lemma_prefix_trans(all_name, a5, builder.spec_all_ops());
    }

    let ghost a6 = builder.spec_all_ops();
    write_footer(builder);
    proof {
        lemma_prefix_trans(all_name, a6, builder.spec_all_ops());
    }

    builder.page_break();
    proof {
        assert(spec_uri_links(builder.spec_link_ops()) =~= u0 + spec_user_cover_links(*user));
        lemma_prefix_trans(all0, all_name, builder.spec_all_ops());
        assert(builder.spec_all_ops()[t_name] == op_name);
        assert(t_name < builder.spec_all_ops().len());
    }
}

} // verus!
