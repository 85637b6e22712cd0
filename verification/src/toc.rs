//! The table-of-contents section: one justified row per entry (wrapped
//! path on the left, a fixed-shape meta field on the right) with an
//! in-document link to the entry's start page. The page-number field has
//! a fixed width, so the section's page count does not depend on the
//! numeric values — the property the two-pass assembly protocol rests
//! on.

use vstd::prelude::*;

use crate::layout::{
    lemma_prefix_trans, lemma_sc_centered_same_shape, lemma_sc_lines_n_same_shape, min_int,
    sc_break, sc_centered, sc_lines_n, sc_same_shape, sc_vspace, FontVariant, LinkTarget,
    PageBuilder, PageOp, SectionCursor, Span, MAX_DIM,
};
use crate::text::{pad_left, spec_pad_left, spec_u64_string, u64_to_string};
use crate::types::RgbColor;
use crate::wrap::{spec_hard_wrap, wrap_text};

verus! {

/// Width of the page-number field in characters; numbers up to five
/// digits keep the meta field's shape unchanged.
pub const PAGE_FIELD_WIDTH: usize = 5;

/// A single entry in the table of contents.
#[derive(Debug, Clone)]
pub struct TocEntry {
    pub path: String,
    pub line_count: usize,
    pub size_str: String,
    pub last_modified: String,
    /// 1-based page the entry's content starts on; a placeholder during
    /// the counting pass.
    pub start_page: usize,
}

/// The text of an entry's meta field:
/// `p.<page, right-aligned to five columns>  <LOC> LOC · <size> · <date>`.
pub open spec fn spec_toc_meta(e: TocEntry) -> Seq<char> {
    "p."@ + spec_pad_left(spec_u64_string(e.start_page as int), PAGE_FIELD_WIDTH as int, ' ')
        + "  "@ + spec_u64_string(e.line_count as int) + " LOC \u{00B7} "@ + e.size_str@
        + " \u{00B7} "@ + e.last_modified@
}

/// Builds an entry's meta field.
pub fn toc_meta(e: &TocEntry) -> (r: String)
    ensures
        r@ == spec_toc_meta(*e),
{
    let mut r = String::new();
    r.append("p.");
    let digits = u64_to_string(e.start_page as u64);
    let padded = pad_left(digits.as_str(), PAGE_FIELD_WIDTH, ' ');
    r.append(padded.as_str());
    r.append("  ");
    let loc = u64_to_string(e.line_count as u64);
    r.append(loc.as_str());
    r.append(" LOC \u{00B7} ");
    r.append(e.size_str.as_str());
    r.append(" \u{00B7} ");
    r.append(e.last_modified.as_str());
    proof {
        assert(r@ =~= spec_toc_meta(*e));
    }
    r
}

/// Ten to the `k`.
pub open spec fn spec_pow10(k: int) -> int
    decreases k,
{
    if k <= 0 {
        1
    } else {
        10 * spec_pow10(k - 1)
    }
}

/// A decimal below `10^k` has at most `k` digits.
pub proof fn lemma_u64_string_len_bound(n: int, k: int)
    requires
        1 <= k,
        0 <= n < spec_pow10(k),
    ensures
        1 <= spec_u64_string(n).len() <= k,
    decreases k,
{
    if n < 10 {
    } else {
        assert(spec_pow10(k) == 10 * spec_pow10(k - 1));
        assert(n / 10 < spec_pow10(k - 1)) by {
            vstd::arithmetic::div_mod::lemma_multiply_divide_lt(n, 10, spec_pow10(k - 1));
        }
        lemma_u64_string_len_bound(n / 10, k - 1);
    }
}

/// The meta fields of two entries that differ only in their start page
/// have the same length, as long as both pages stay below 100000: the
/// number sits in a fixed-width field, so resolving placeholder page
/// numbers into real ones never changes the table of contents' shape —
/// the counting pass and the final pass lay out the same number of
/// lines.
pub proof fn lemma_toc_meta_shape_fixed(a: TocEntry, b: TocEntry)
    requires
        a.path@ == b.path@,
        a.line_count == b.line_count,
        a.size_str@ == b.size_str@,
        a.last_modified@ == b.last_modified@,
        a.start_page < 100000,
        b.start_page < 100000,
    ensures
        spec_toc_meta(a).len() == spec_toc_meta(b).len(),
{
    assert(spec_pow10(5) == 100000) by {
        assert(spec_pow10(0) == 1);
        assert(spec_pow10(1) == 10);
        assert(spec_pow10(2) == 100);
        assert(spec_pow10(3) == 1000);
        assert(spec_pow10(4) == 10000);
    }
    lemma_u64_string_len_bound(a.start_page as int, 5);
    lemma_u64_string_len_bound(b.start_page as int, 5);
}

fn gray() -> (r: RgbColor)
    ensures
        r == (RgbColor { r: 120, g: 120, b: 120 }),
{
    RgbColor { r: 120, g: 120, b: 120 }
}

/// The character width the path column wraps at, given the usable page
/// width and the meta field's length: the space left of the meta field
/// and a gap, divided by the path font's character width, clamped to
/// 1..=4096.
pub open spec fn spec_toc_wrap_width(usable_w: int, meta_len: int) -> int {
    let meta_width = min_int(meta_len * 700 * 3 / 5, MAX_DIM as int);
    let available = if usable_w > meta_width + 800 {
        usable_w - meta_width - 800
    } else {
        0
    };
    let raw = available / 480;
    if raw == 0 {
        1
    } else if raw > 4096 {
        4096
    } else {
        raw
    }
}

/// How many rows one entry occupies: one per chunk of its wrapped path.
pub open spec fn spec_toc_rows(usable_w: int, meta_len: int, path: Seq<char>) -> int {
    spec_hard_wrap(path, spec_toc_wrap_width(usable_w, meta_len)).len() as int
}

/// The section cursor after rendering the first `n` entries, given each
/// entry's meta-field length and path — the entry shapes. The cursor
/// (and so the page count) is a function of the shapes alone.
pub open spec fn spec_toc_entries_sc(
    c: SectionCursor,
    usable_w: int,
    usable_h: int,
    lh: int,
    metas: Seq<int>,
    paths: Seq<Seq<char>>,
    n: int,
) -> SectionCursor
    decreases n,
{
    if n <= 0 {
        c
    } else {
        let prev = spec_toc_entries_sc(c, usable_w, usable_h, lh, metas, paths, n - 1);
        sc_lines_n(
            prev,
            usable_h,
            lh,
            spec_toc_rows(usable_w, metas[n - 1], paths[n - 1]) as nat,
        )
    }
}

/// The whole section's cursor transition: centered title, lead, one row
/// group per entry, deferred break.
pub open spec fn spec_toc_sc(
    c: SectionCursor,
    usable_w: int,
    usable_h: int,
    lh: int,
    metas: Seq<int>,
    paths: Seq<Seq<char>>,
) -> SectionCursor {
    sc_break(
        spec_toc_entries_sc(
            sc_vspace(sc_centered(c, usable_h, 1600), 1000),
            usable_w,
            usable_h,
            lh,
            metas,
            paths,
            metas.len() as int,
        ),
    )
}

/// The meta-field lengths of an entry list — with the path list, the
/// shape that decides the section's layout.
pub open spec fn spec_toc_metas(entries: Seq<TocEntry>) -> Seq<int> {
    entries.map_values(|e: TocEntry| spec_toc_meta(e).len() as int)
}

/// The paths of an entry list.
pub open spec fn spec_toc_paths(entries: Seq<TocEntry>) -> Seq<Seq<char>> {
    entries.map_values(|e: TocEntry| e.path@)
}

/// Entry lists that agree pairwise on path, line count, size and date
/// labels — differing only in their page numbers, all below 100000 —
/// drive the section cursor identically: a placeholder pass and the
/// real pass close the same number of pages, so the page-count
/// arithmetic the assembly protocol did with the placeholder counts
/// stays right after the numbers are resolved.
pub proof fn lemma_toc_shape_independent(
    c: SectionCursor,
    usable_w: int,
    usable_h: int,
    lh: int,
    a: Seq<TocEntry>,
    b: Seq<TocEntry>,
)
    requires
        a.len() == b.len(),
        forall|i: int|
            0 <= i < a.len() ==> {
                &&& (#[trigger] a[i]).path@ == b[i].path@
                &&& a[i].line_count == b[i].line_count
                &&& a[i].size_str@ == b[i].size_str@
                &&& a[i].last_modified@ == b[i].last_modified@
                &&& a[i].start_page < 100000
                &&& b[i].start_page < 100000
            },
    ensures
        spec_toc_sc(c, usable_w, usable_h, lh, spec_toc_metas(a), spec_toc_paths(a))
            == spec_toc_sc(c, usable_w, usable_h, lh, spec_toc_metas(b), spec_toc_paths(b)),
{
    assert(spec_toc_metas(a) =~= spec_toc_metas(b)) by {
        assert forall|i: int| 0 <= i < a.len() implies spec_toc_metas(a)[i] == spec_toc_metas(
            b,
        )[i] by {
            lemma_toc_meta_shape_fixed(a[i], b[i]);
        }
    }
    assert(spec_toc_paths(a) =~= spec_toc_paths(b));
}

/// Does some instruction issued after `pre` within `post` draw this
/// entry's first table row: the first chunk of its wrapped path on the
/// left and, beside it, its meta field?
pub open spec fn spec_toc_row_for(
    pre: Seq<PageOp>,
    post: Seq<PageOp>,
    e: TocEntry,
    usable_w: int,
) -> bool {
    exists|t: int|
        pre.len() <= t && t + 1 < post.len() && ((#[trigger] post[t]) matches PageOp::TextLine {
            spans,
            ..
        } && spans@.len() == 1 && spans@[0].text@ == spec_hard_wrap(
            e.path@,
            spec_toc_wrap_width(usable_w, spec_toc_meta(e).len() as int),
        )[0]) && (post[t + 1] matches PageOp::TextLine { spans, .. } && spans@.len() == 1
            && spans@[0].text@ == spec_toc_meta(e))
}

/// A drawn row stays drawn when the instruction list only grows.
proof fn lemma_toc_row_extends(pre: Seq<PageOp>, a: Seq<PageOp>, b: Seq<PageOp>, e: TocEntry, usable_w: int)
    requires
        spec_toc_row_for(pre, a, e, usable_w),
        a.is_prefix_of(b),
    ensures
        spec_toc_row_for(pre, b, e, usable_w),
{
    let t = choose|t: int|
        pre.len() <= t && t + 1 < a.len() && ((#[trigger] a[t]) matches PageOp::TextLine {
            spans,
            ..
        } && spans@.len() == 1 && spans@[0].text@ == spec_hard_wrap(
            e.path@,
            spec_toc_wrap_width(usable_w, spec_toc_meta(e).len() as int),
        )[0]) && (a[t + 1] matches PageOp::TextLine { spans, .. } && spans@.len() == 1
            && spans@[0].text@ == spec_toc_meta(e));
    assert(b[t] == a[t]);
    assert(b[t + 1] == a[t + 1]);
}

/// One loop step's bookkeeping for the drawn rows: the rows of the
/// first `i` entries survive the appends of entry `i`'s own rows and
/// link, and entry `i`'s first row joins them.
proof fn lemma_toc_rows_step(
    all0: Seq<PageOp>,
    all_entry: Seq<PageOp>,
    all_after_row: Seq<PageOp>,
    cur: Seq<PageOp>,
    entries: Seq<TocEntry>,
    i: int,
    usable_w: int,
)
    requires
        0 <= i < entries.len(),
        forall|j: int|
            0 <= j < i ==> spec_toc_row_for(all0, all_entry, #[trigger] entries[j], usable_w),
        spec_toc_row_for(all0, all_after_row, entries[i], usable_w),
        all_entry.is_prefix_of(all_after_row),
        all_after_row.is_prefix_of(cur),
    ensures
        forall|j: int|
            0 <= j < i + 1 ==> spec_toc_row_for(all0, cur, #[trigger] entries[j], usable_w),
{
    assert forall|j: int| 0 <= j < i + 1 implies spec_toc_row_for(
        all0,
        cur,
        #[trigger] entries[j],
        usable_w,
    ) by {
        if j < i {
            lemma_prefix_trans(all_entry, all_after_row, cur);
            lemma_toc_row_extends(all0, all_entry, cur, entries[j], usable_w);
        } else {
            lemma_toc_row_extends(all0, all_after_row, cur, entries[j], usable_w);
        }
    }
}

/// One entry's link-rectangle height: one line height per wrapped path
/// row, capped at the engine's largest dimension.
pub open spec fn spec_toc_link_height(lh: int, usable_w: int, meta_len: int, path: Seq<char>) -> int {
    min_int(lh * spec_toc_rows(usable_w, meta_len, path), MAX_DIM as int)
}

/// The per-entry row groups keep same-shaped cursors in step.
proof fn lemma_toc_entries_sc_same_shape(
    a: SectionCursor,
    b: SectionCursor,
    usable_w: int,
    usable_h: int,
    lh: int,
    metas: Seq<int>,
    paths: Seq<Seq<char>>,
    n: int,
)
    requires
        sc_same_shape(a, b),
    ensures
        sc_same_shape(
            spec_toc_entries_sc(a, usable_w, usable_h, lh, metas, paths, n),
            spec_toc_entries_sc(b, usable_w, usable_h, lh, metas, paths, n),
        ),
    decreases n,
{
    if n > 0 {
        lemma_toc_entries_sc_same_shape(a, b, usable_w, usable_h, lh, metas, paths, n - 1);
        lemma_sc_lines_n_same_shape(
            spec_toc_entries_sc(a, usable_w, usable_h, lh, metas, paths, n - 1),
            spec_toc_entries_sc(b, usable_w, usable_h, lh, metas, paths, n - 1),
            usable_h,
            lh,
            spec_toc_rows(usable_w, metas[n - 1], paths[n - 1]) as nat,
        );
    }
}

/// The table of contents closes the same number of pages wherever its
/// builder's page numbering starts: the section transition keeps
/// same-shaped cursors in step.
pub proof fn lemma_toc_sc_same_shape(
    a: SectionCursor,
    b: SectionCursor,
    usable_w: int,
    usable_h: int,
    lh: int,
    metas: Seq<int>,
    paths: Seq<Seq<char>>,
)
    requires
        sc_same_shape(a, b),
    ensures
        sc_same_shape(
            spec_toc_sc(a, usable_w, usable_h, lh, metas, paths),
            spec_toc_sc(b, usable_w, usable_h, lh, metas, paths),
        ),
{
    lemma_sc_centered_same_shape(a, b, usable_h, 1600);
    lemma_toc_entries_sc_same_shape(
        sc_vspace(sc_centered(a, usable_h, 1600), 1000),
        sc_vspace(sc_centered(b, usable_h, 1600), 1000),
        usable_w,
        usable_h,
        lh,
        metas,
        paths,
        metas.len() as int,
    );
}

/// Does every entry's resolved page number fit the fixed-width
/// page-number field (fewer than six digits)?
pub open spec fn spec_entries_fit_page_field(entries: Seq<TocEntry>) -> bool {
    forall|i: int| 0 <= i < entries.len() ==> (#[trigger] entries[i]).start_page < 100000
}

/// The page-count form of shape independence: under the same
/// conditions, the placeholder pass and the real pass close exactly
/// the same number of pages, so a `finish` after either returns the
/// same page count.
pub proof fn lemma_toc_page_count_shape_independent(
    c: SectionCursor,
    usable_w: int,
    usable_h: int,
    lh: int,
    a: Seq<TocEntry>,
    b: Seq<TocEntry>,
)
    requires
        a.len() == b.len(),
        forall|i: int|
            0 <= i < a.len() ==> {
                &&& (#[trigger] a[i]).path@ == b[i].path@
                &&& a[i].line_count == b[i].line_count
                &&& a[i].size_str@ == b[i].size_str@
                &&& a[i].last_modified@ == b[i].last_modified@
                &&& a[i].start_page < 100000
                &&& b[i].start_page < 100000
            },
    ensures
        spec_toc_sc(c, usable_w, usable_h, lh, spec_toc_metas(a), spec_toc_paths(a)).closed
            == spec_toc_sc(c, usable_w, usable_h, lh, spec_toc_metas(b), spec_toc_paths(b)).closed,
{
    lemma_toc_shape_independent(c, usable_w, usable_h, lh, a, b);
}

/// Renders the table of contents: a centered title, then one justified
/// row per entry — its drawn first row carries the first chunk of the
/// wrapped path and the meta field ([`spec_toc_row_for`]), with
/// continuation lines for wrapped paths — and, per entry in order, one
/// in-document link whose destination is that entry's start page and
/// whose rectangle is [`spec_toc_link_height`] tall, one line height
/// per wrapped path row; ends with a deferred page break. The cursor
/// transition — and so the page count — is exactly [`spec_toc_sc`] of
/// the entry shapes.
#[verifier::rlimit(100)]
pub fn render(builder: &mut PageBuilder, entries: &Vec<TocEntry>)
    requires
        old(builder).wf(),
    ensures
        final(builder).wf(),
        final(builder).pending_break,
        final(builder).page_width == old(builder).page_width,
        final(builder).page_height == old(builder).page_height,
        final(builder).margin == old(builder).margin,
        final(builder).line_height == old(builder).line_height,
        final(builder).start_page == old(builder).start_page,
        final(builder).spec_section_cursor() == spec_toc_sc(
            old(builder).spec_section_cursor(),
            old(builder).spec_usable_width(),
            old(builder).spec_usable_height(),
            old(builder).line_height as int,
            spec_toc_metas(entries@),
            spec_toc_paths(entries@),
        ),
        final(builder).spec_link_ops().len() == old(builder).spec_link_ops().len()
            + entries@.len(),
        forall|j: int|
            0 <= j < old(builder).spec_link_ops().len() ==> final(builder).spec_link_ops()[j]
                == old(builder).spec_link_ops()[j],
        forall|j: int|
            0 <= j < entries@.len() ==> ((#[trigger] final(builder).spec_link_ops()[old(
                builder,
            ).spec_link_ops().len() + j]) matches PageOp::Link {
                target: LinkTarget::PageNumber(p),
                height: h,
                ..
            } && p == entries@[j].start_page && h == spec_toc_link_height(
                old(builder).line_height as int,
                old(builder).spec_usable_width(),
                spec_toc_metas(entries@)[j],
                spec_toc_paths(entries@)[j],
            )),
        old(builder).spec_all_ops().is_prefix_of(final(builder).spec_all_ops()),
        forall|j: int|
            0 <= j < entries@.len() ==> spec_toc_row_for(
                old(builder).spec_all_ops(),
                final(builder).spec_all_ops(),
                #[trigger] entries@[j],
                old(builder).spec_usable_width(),
            ),
{
    let black = RgbColor { r: 0, g: 0, b: 0 };
    builder.write_centered("Table of Contents", FontVariant::Bold, 1600, black);
    builder.vertical_space(1000);

    let ghost c_start = builder.spec_section_cursor();
    let ghost links0 = old(builder).spec_link_ops();
    let ghost all0 = old(builder).spec_all_ops();
    proof {
        assert(all0.is_prefix_of(builder.spec_all_ops())) by {
            assert(builder.spec_all_ops().take(all0.len() as int) =~= all0);
        }
    }
    let ghost usable_w = old(builder).spec_usable_width();
    let ghost usable_h = old(builder).spec_usable_height();
    let ghost lh_spec = old(builder).line_height as int;
    let ghost metas = spec_toc_metas(entries@);
    let ghost paths = spec_toc_paths(entries@);

    let path_size: u32 = 800;
    let meta_size: u32 = 700;
    let mut i: usize = 0;
    while i < entries.len()
        invariant
            builder.wf(),
            builder.page_width == old(builder).page_width,
            builder.page_height == old(builder).page_height,
            builder.margin == old(builder).margin,
            builder.line_height == old(builder).line_height,
            builder.start_page == old(builder).start_page,
            i <= entries@.len(),
            path_size == 800,
            meta_size == 700,
            usable_w == builder.spec_usable_width(),
            usable_h == builder.spec_usable_height(),
            lh_spec == builder.line_height as int,
            metas == spec_toc_metas(entries@),
            paths == spec_toc_paths(entries@),
            builder.spec_section_cursor() == spec_toc_entries_sc(
                c_start,
                usable_w,
                usable_h,
                lh_spec,
                metas,
                paths,
                i as int,
            ),
            builder.spec_link_ops().len() == links0.len() + i,
            forall|j: int|
                0 <= j < links0.len() ==> builder.spec_link_ops()[j] == links0[j],
            forall|j: int|
                0 <= j < i ==> ((#[trigger] builder.spec_link_ops()[links0.len() + j])
                    matches PageOp::Link { target: LinkTarget::PageNumber(p), height: h, .. } && p
                    == entries@[j].start_page && h == spec_toc_link_height(
                    lh_spec,
                    usable_w,
                    metas[j],
                    paths[j],
                )),
            forall|j: int|
                0 <= j < i ==> spec_toc_row_for(
                    all0,
                    builder.spec_all_ops(),
                    #[trigger] entries@[j],
                    usable_w,
                ),
            all0.is_prefix_of(builder.spec_all_ops()),
        decreases entries@.len() - i,
    {
        let ghost c_entry = builder.spec_section_cursor();
        let ghost links_entry = builder.spec_link_ops();
        let ghost all_entry = builder.spec_all_ops();
        let entry = &entries[i];
        let meta = toc_meta(entry);
        let meta_chars = meta.as_str().unicode_len();
        // Approximate widths under the monospace model; the remaining
        // width decides where the path wraps.
        let meta_width: u64 = crate::layout::approx_text_width(meta_chars, meta_size, MAX_DIM);
        let usable = builder.usable_width();
        let gap: u64 = 800;
        let available_left: u64 = if usable > meta_width + gap {
            usable - meta_width - gap
        } else {
            0
        };
        let per_char: u64 = (path_size as u64) * 3 / 5;
        let max_chars_w: u64 = if per_char > 0 {
            available_left / per_char
        } else {
            1
        };
        let max_chars: usize = if max_chars_w == 0 {
            1
        } else if max_chars_w > 4096 {
            4096
        } else {
            max_chars_w as usize
        };
        proof {
            assert(metas[i as int] == spec_toc_meta(entries@[i as int]).len() as int);
            assert(paths[i as int] == entries@[i as int].path@);
            assert(max_chars as int == spec_toc_wrap_width(usable_w, metas[i as int]));
        }

        let chunks = wrap_text(entry.path.as_str(), max_chars);
        proof {
            assert(chunks.deep_view().len() == spec_hard_wrap(
                entries@[i as int].path@,
                max_chars as int,
            ).len());
            assert(chunks@.len() as int == spec_toc_rows(usable_w, metas[i as int], paths[i as int]));
        }
        let mut first_left: Vec<Span> = Vec::new();
        first_left.push(
            Span { text: chunks[0].clone(), font: FontVariant::Regular, size: path_size, color: gray() },
        );
        let ghost left_view = first_left@;
        let ghost meta_view = meta@;
        let mut right: Vec<Span> = Vec::new();
        right.push(Span { text: meta, font: FontVariant::Regular, size: meta_size, color: gray() });
        let ghost right_view = right@;
        builder.write_line_justified(first_left, right);
        let ghost t_row = builder.spec_all_ops().len() - 2;
        proof {
            assert(sc_lines_n(c_entry, usable_h, lh_spec, 0nat) == c_entry);
            assert(builder.spec_section_cursor() == sc_lines_n(c_entry, usable_h, lh_spec, 1nat));
            lemma_prefix_trans(all0, all_entry, builder.spec_all_ops());
            assert(builder.spec_all_ops()[t_row] matches PageOp::TextLine { spans, .. } && spans@
                == left_view);
            assert(builder.spec_all_ops()[t_row + 1] matches PageOp::TextLine { spans, .. }
                && spans@ == right_view);
            assert(left_view[0].text@ == spec_hard_wrap(
                entries@[i as int].path@,
                spec_toc_wrap_width(usable_w, spec_toc_meta(entries@[i as int]).len() as int),
            )[0]);
            assert(right_view[0].text@ == spec_toc_meta(entries@[i as int]));
            assert(all0.len() <= all_entry.len());
            assert(spec_toc_row_for(all0, builder.spec_all_ops(), entries@[i as int], usable_w));
        }
        let ghost all_after_row = builder.spec_all_ops();
        let mut k: usize = 1;
        while k < chunks.len()
            invariant
                builder.wf(),
                builder.page_width == old(builder).page_width,
                builder.page_height == old(builder).page_height,
                builder.margin == old(builder).margin,
                builder.line_height == old(builder).line_height,
                builder.start_page == old(builder).start_page,
                1 <= k,
                k <= chunks@.len(),
                path_size == 800,
                usable_w == builder.spec_usable_width(),
                usable_h == builder.spec_usable_height(),
                lh_spec == builder.line_height as int,
                builder.spec_section_cursor() == sc_lines_n(c_entry, usable_h, lh_spec, k as nat),
                builder.spec_link_ops() == links_entry,
                all0.is_prefix_of(builder.spec_all_ops()),
                all_after_row.is_prefix_of(builder.spec_all_ops()),
            decreases chunks@.len() - k,
        {
            let ghost all_iter = builder.spec_all_ops();
            let mut line: Vec<Span> = Vec::new();
            line.push(
                Span {
                    text: chunks[k].clone(),
                    font: FontVariant::Regular,
                    size: path_size,
                    color: gray(),
                },
            );
            builder.write_line(line);
            k = k + 1;
            proof {
                lemma_prefix_trans(all0, all_iter, builder.spec_all_ops());
                lemma_prefix_trans(all_after_row, all_iter, builder.spec_all_ops());
            }
        }
        let lh = builder.line_height();
        let rows = chunks.len();
        proof {
            vstd::arithmetic::mul::lemma_mul_nonnegative(lh as int, rows as int);
            vstd::arithmetic::mul::lemma_mul_upper_bound(
                lh as int,
                0x4000_0000,
                rows as int,
                0xffff_ffff_ffff_ffff,
            );
        }
        let region: u64 = {
            let w: u128 = (lh as u128) * (rows as u128);
            if w > MAX_DIM as u128 {
                MAX_DIM
            } else {
                w as u64
            }
        };
        let ghost all_link = builder.spec_all_ops();
        proof {
            assert(region as int == spec_toc_link_height(
                lh_spec,
                usable_w,
                metas[i as int],
                paths[i as int],
            ));
        }
        builder.add_link(region, LinkTarget::PageNumber(entry.start_page));
        proof {
            lemma_prefix_trans(all0, all_link, builder.spec_all_ops());
            lemma_prefix_trans(all_after_row, all_link, builder.spec_all_ops());
            lemma_toc_rows_step(
                all0,
                all_entry,
                all_after_row,
                builder.spec_all_ops(),
                entries@,
                i as int,
                usable_w,
            );
            assert(builder.spec_section_cursor() == spec_toc_entries_sc(
                c_start,
                usable_w,
                usable_h,
                lh_spec,
                metas,
                paths,
                i + 1,
            ));
            assert(builder.spec_link_ops().len() == links_entry.len() + 1);
            assert((builder.spec_link_ops()[links_entry.len() as int]
                matches PageOp::Link { target: LinkTarget::PageNumber(p), .. } && p
                == entries@[i as int].start_page));
        }
        i = i + 1;
    }

    builder.page_break();
    proof {
        assert(final(builder).spec_section_cursor() == spec_toc_sc(
            old(builder).spec_section_cursor(),
            usable_w,
            usable_h,
            lh_spec,
            metas,
            paths,
        ));
    }
}

} // verus!
