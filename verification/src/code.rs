//! The per-file content section: a justified header (path left, file
//! info right, optionally linked), then one line of styled spans per
//! source line with an optional right-aligned line number column,
//! closed by a deferred page break.

use vstd::prelude::*;

use crate::layout::{
    lemma_prefix_trans, sc_break, sc_line, sc_lines_n, sc_vspace, FontVariant, LinkTarget,
    PageBuilder, PageOp, SectionCursor, Span,
};
use crate::types::HighlightedToken;
use crate::text::{pad_left, u64_to_string};
use crate::types::{HighlightedLine, RgbColor};

verus! {

fn gray() -> (r: RgbColor)
    ensures
        r == (RgbColor { r: 150, g: 150, b: 150 }),
{
    RgbColor { r: 150, g: 150, b: 150 }
}

/// Do these drawn spans carry exactly the line's tokens, text and
/// color, after the line-number column when one is shown?
pub open spec fn spec_line_spans_match(
    spans: Seq<Span>,
    tokens: Seq<HighlightedToken>,
    numbered: bool,
) -> bool {
    let off = if numbered {
        1int
    } else {
        0int
    };
    &&& spans.len() == tokens.len() + off
    &&& forall|k: int|
        0 <= k < tokens.len() ==> (#[trigger] spans[off + k]).text@ == tokens[k].text@ && spans[off
            + k].color == tokens[k].color
}

/// Does some instruction issued after `pre` within `post` draw a text
/// row carrying exactly these tokens?
pub open spec fn spec_row_drawn_for(
    pre: Seq<PageOp>,
    post: Seq<PageOp>,
    tokens: Seq<HighlightedToken>,
    numbered: bool,
) -> bool {
    exists|t: int|
        pre.len() <= t < post.len() && ((#[trigger] post[t]) matches PageOp::TextLine {
            spans,
            ..
        } && spec_line_spans_match(spans@, tokens, numbered))
}

/// A drawn row stays drawn when the instruction list only grows.
proof fn lemma_row_drawn_extends(
    pre: Seq<PageOp>,
    a: Seq<PageOp>,
    b: Seq<PageOp>,
    tokens: Seq<HighlightedToken>,
    numbered: bool,
)
    requires
        spec_row_drawn_for(pre, a, tokens, numbered),
        a.is_prefix_of(b),
    ensures
        spec_row_drawn_for(pre, b, tokens, numbered),
{
    let t = choose|t: int|
        pre.len() <= t < a.len() && ((#[trigger] a[t]) matches PageOp::TextLine { spans, .. }
            && spec_line_spans_match(spans@, tokens, numbered));
    assert(b[t] == a[t]);
}

/// Between the instruction lists `pre` and `post` of one builder, was
/// a row drawn for every source line, carrying exactly its tokens?
pub open spec fn spec_rows_drawn(
    pre: Seq<PageOp>,
    post: Seq<PageOp>,
    lines: Seq<HighlightedLine>,
    numbered: bool,
) -> bool {
    forall|j: int|
        0 <= j < lines.len() ==> spec_row_drawn_for(
            pre,
            post,
            (#[trigger] lines[j]).tokens@,
            numbered,
        )
}

/// The cursor transition of one file's section: the justified header
/// row, a small lead, one line per source line, and a deferred break.
pub open spec fn spec_render_file_sc(c: SectionCursor, usable_h: int, lh: int, n_lines: int) -> SectionCursor {
    sc_break(sc_lines_n(sc_vspace(sc_line(c, usable_h, lh), 400), usable_h, lh, n_lines as nat))
}

/// Renders one file: header line with path and info, the styled source
/// lines (with line numbers right-aligned to the widest one when
/// enabled), and a deferred page break. A `header_url` makes the header
/// clickable. The cursor transition — one header row, a lead, one row
/// per line, a deferred break — is exactly [`spec_render_file_sc`]; one
/// link to `header_url` is issued when it is given, and nothing else;
/// and for every source line a row is drawn whose spans carry exactly
/// that line's tokens.
pub fn render_file(
    builder: &mut PageBuilder,
    file_path: &str,
    lines: &Vec<HighlightedLine>,
    total_lines: usize,
    show_line_numbers: bool,
    font_size: u32,
    file_info: &str,
    header_url: Option<&String>,
)
    requires
        old(builder).wf(),
    ensures
        final(builder).wf(),
        final(builder).pending_break,
        final(builder).page_width == old(builder).page_width,
        final(builder).page_height == old(builder).page_height,
        final(builder).margin == old(builder).margin,
        final(builder).line_height == old(builder).line_height,
        final(builder).start_page == old(builder).start_page,
        final(builder).spec_section_cursor() == spec_render_file_sc(
            old(builder).spec_section_cursor(),
            old(builder).spec_usable_height(),
            old(builder).line_height as int,
            lines@.len() as int,
        ),
        old(builder).spec_all_ops().is_prefix_of(final(builder).spec_all_ops()),
        spec_rows_drawn(
            old(builder).spec_all_ops(),
            final(builder).spec_all_ops(),
            lines@,
            show_line_numbers,
        ),
        header_url is None ==> final(builder).spec_link_ops() == old(builder).spec_link_ops(),
        header_url matches Some(u) ==> {
            &&& final(builder).spec_link_ops().len() == old(builder).spec_link_ops().len() + 1
            &&& (forall|j: int|
                0 <= j < old(builder).spec_link_ops().len() ==> final(builder).spec_link_ops()[j]
                    == old(builder).spec_link_ops()[j])
            &&& (final(builder).spec_link_ops().last() matches PageOp::Link {
                target: LinkTarget::Uri(link),
                ..
            } && link@ == u@)
        },
{
    let black = RgbColor { r: 0, g: 0, b: 0 };
    let header_size: u32 = if font_size <= u32::MAX - 200 {
        font_size + 200
    } else {
        font_size
    };

    // Width of the line-number column: the digit count of the largest
    // line number.
    let shown_total: u64 = if total_lines == 0 {
        1
    } else {
        total_lines as u64
    };
    let digits = u64_to_string(shown_total);
    let number_width = digits.as_str().unicode_len();

    let mut left: Vec<Span> = Vec::new();
    left.push(
        Span { text: file_path.to_owned(), font: FontVariant::Bold, size: header_size, color: black },
    );
    let mut right: Vec<Span> = Vec::new();
    right.push(
        Span { text: file_info.to_owned(), font: FontVariant::Regular, size: 700, color: gray() },
    );
    builder.write_line_justified(left, right);
    let ghost all_hdr = builder.spec_all_ops();
    if let Some(url) = header_url {
        let lh = builder.line_height();
        builder.add_link(lh, LinkTarget::Uri(url.clone()));
    }
    proof {
        lemma_prefix_trans(old(builder).spec_all_ops(), all_hdr, builder.spec_all_ops());
    }
    builder.vertical_space(400);
    let ghost c_body = builder.spec_section_cursor();
    let ghost links_body = builder.spec_link_ops();
    let ghost all_body = builder.spec_all_ops();

    let mut i: usize = 0;
    while i < lines.len()
        invariant
            builder.wf(),
            builder.page_width == old(builder).page_width,
            builder.page_height == old(builder).page_height,
            builder.margin == old(builder).margin,
            builder.line_height == old(builder).line_height,
            builder.start_page == old(builder).start_page,
            i <= lines@.len(),
            builder.spec_section_cursor() == sc_lines_n(
                c_body,
                old(builder).spec_usable_height(),
                old(builder).line_height as int,
                i as nat,
            ),
            builder.spec_link_ops() == links_body,
            old(builder).spec_all_ops().is_prefix_of(all_body),
            all_body.is_prefix_of(builder.spec_all_ops()),
            forall|j: int|
                0 <= j < i ==> spec_row_drawn_for(
                    old(builder).spec_all_ops(),
                    builder.spec_all_ops(),
                    (#[trigger] lines@[j]).tokens@,
                    show_line_numbers,
                ),
        decreases lines@.len() - i,
    {
        let ghost all_iter = builder.spec_all_ops();
        let line = &lines[i];
        let ghost off: int = if show_line_numbers {
            1int
        } else {
            0int
        };
        let mut spans: Vec<Span> = Vec::new();
        if show_line_numbers {
            let num = u64_to_string(line.line_number as u64);
            let mut padded = pad_left(num.as_str(), number_width, ' ');
            padded.append("  ");
            spans.push(
                Span { text: padded, font: FontVariant::Regular, size: font_size, color: gray() },
            );
        }
        let mut k: usize = 0;
        while k < line.tokens.len()
            invariant
                k <= line.tokens@.len(),
                off == if show_line_numbers {
                    1int
                } else {
                    0int
                },
                spans@.len() == k + off,
                forall|m: int|
                    0 <= m < k ==> (#[trigger] spans@[off + m]).text@ == line.tokens@[m].text@
                        && spans@[off + m].color == line.tokens@[m].color,
            decreases line.tokens@.len() - k,
        {
            let token = &line.tokens[k];
            let font = builder.font(token.bold, token.italic);
            spans.push(
                Span { text: token.text.clone(), font, size: font_size, color: token.color },
            );
            k = k + 1;
        }
        let ghost row_spans = spans@;
        proof {
            assert(spec_line_spans_match(row_spans, lines@[i as int].tokens@, show_line_numbers));
        }
        builder.write_line(spans);
        let ghost t_row = builder.spec_all_ops().len() - 1;
        let ghost op_row = builder.spec_all_ops()[t_row];
        proof {
            assert(op_row == builder.current_ops@.last());
            assert(op_row matches PageOp::TextLine { spans, .. } && spans@ == row_spans);
        }
        i = i + 1;
        proof {
            assert(builder.spec_section_cursor() == sc_lines_n(
                c_body,
                old(builder).spec_usable_height(),
                old(builder).line_height as int,
                i as nat,
            ));
            lemma_prefix_trans(all_body, all_iter, builder.spec_all_ops());
            assert forall|j: int| 0 <= j < i implies spec_row_drawn_for(
                old(builder).spec_all_ops(),
                builder.spec_all_ops(),
                (#[trigger] lines@[j]).tokens@,
                show_line_numbers,
            ) by {
                if j < i - 1 {
                    lemma_row_drawn_extends(
                        old(builder).spec_all_ops(),
                        all_iter,
                        builder.spec_all_ops(),
                        lines@[j].tokens@,
                        show_line_numbers,
                    );
                } else {
                    assert(old(builder).spec_all_ops().len() <= all_body.len());
                    assert(builder.spec_all_ops()[t_row] == op_row);
                    assert(builder.spec_all_ops()[t_row] matches PageOp::TextLine { spans, .. }
                        && spec_line_spans_match(spans@, lines@[j].tokens@, show_line_numbers));
                }
            }
        }
    }

    proof {
        assert(spec_rows_drawn(
            old(builder).spec_all_ops(),
            builder.spec_all_ops(),
            lines@,
            show_line_numbers,
        ));
    }
    let ghost rows_seq = builder.spec_all_ops();
    builder.page_break();
    proof {
        lemma_prefix_trans(old(builder).spec_all_ops(), all_body, builder.spec_all_ops());
        assert(builder.spec_all_ops() == rows_seq);
    }
}

} // verus!
