//! The multi-pass assembly protocol that makes cross-reference page
//! numbers correct. Four strictly ordered phases: render the cover for
//! real; render table of contents and file tree with placeholder
//! numbers into throwaway builders to learn their page counts; render
//! the content seeded past those counts, recording each file's true
//! start page; re-render table of contents and tree with the real
//! numbers at their real offsets. The final document concatenates
//! cover, table of contents, tree and content in exactly the order the
//! offset arithmetic assumed.

use vstd::prelude::*;

use crate::code::{render_file, spec_render_file_sc};
use crate::cover;
use crate::layout::{
    is_header_op, lemma_first_op_of_finish, lemma_sc_line_page_mono, lemma_sc_lines_n_page_mono,
    sc_flush, sc_line, sc_vspace, Page, PageBuilder, SectionCursor, MAX_DIM,
};
use crate::text::{spec_u64_string, u64_to_string};
use crate::toc::{self, TocEntry};
use crate::tree;
use crate::types::{HighlightedLine, RepoMetadata};

verus! {

/// One file ready for rendering: its path, styled lines, and the
/// pre-formatted labels the header and table of contents show.
pub struct ProcessedFile {
    pub path: String,
    pub lines: Vec<HighlightedLine>,
    pub line_count: usize,
    pub size_str: String,
    pub last_modified: String,
}

/// The page geometry and rendering switches of one document run.
/// Lengths are centipoints.
pub struct DocOptions {
    pub page_width: u64,
    pub page_height: u64,
    pub margin: u64,
    pub line_height: u64,
    pub font_size: u32,
    pub show_line_numbers: bool,
    pub toc: bool,
    pub file_tree: bool,
}

impl DocOptions {
    /// Geometry a builder can be opened with.
    pub open spec fn wf(self) -> bool {
        &&& 0 < self.page_width <= MAX_DIM
        &&& 0 < self.page_height <= MAX_DIM
        &&& self.margin * 2 < self.page_height
        &&& self.margin * 2 < self.page_width
        &&& 1 <= self.line_height <= self.page_height - 2 * self.margin
    }
}

/// Opens a builder for these options whose first page is numbered 1.
pub fn create_builder(opts: &DocOptions) -> (r: PageBuilder)
    requires
        opts.wf(),
    ensures
        r.wf(),
        r.page_count == 1,
        r.start_page == 1,
        r.pages@.len() == 0,
        r.y == 0,
        !r.pending_break,
        r.page_width == opts.page_width,
        r.page_height == opts.page_height,
        r.margin == opts.margin,
        r.line_height == opts.line_height,
        r.current_ops@.len() == 1,
        is_header_op(
            r.current_ops@[0],
            1,
            opts.page_width as int,
            opts.page_height as int,
            opts.margin as int,
        ),
        r.spec_all_ops() == r.current_ops@,
{
    create_builder_at_page(opts, 1)
}

/// Opens a builder whose first page carries the number
/// `starting_page` (at least 1), so its headers and `current_page`
/// agree with the document-wide page arithmetic: with no break pending,
/// `current_page()` is exactly the starting page.
pub fn create_builder_at_page(opts: &DocOptions, starting_page: usize) -> (r: PageBuilder)
    requires
        opts.wf(),
    ensures
        r.wf(),
        r.page_count == if starting_page == 0 {
            1usize
        } else {
            starting_page
        },
        r.start_page == r.page_count,
        r.pages@.len() == 0,
        r.y == 0,
        !r.pending_break,
        r.spec_current_page() == r.page_count as int,
        r.page_width == opts.page_width,
        r.page_height == opts.page_height,
        r.margin == opts.margin,
        r.line_height == opts.line_height,
        r.current_ops@.len() == 1,
        is_header_op(
            r.current_ops@[0],
            r.page_count as int,
            opts.page_width as int,
            opts.page_height as int,
            opts.margin as int,
        ),
        r.spec_all_ops() == r.current_ops@,
{
    PageBuilder::new(
        opts.page_width,
        opts.page_height,
        opts.margin,
        opts.line_height,
        starting_page,
    )
}

/// The info label of a file header: `<LOC> LOC · <size> · <date>`.
pub open spec fn spec_file_info(line_count: int, size_str: Seq<char>, modified: Seq<char>) -> Seq<
    char,
> {
    spec_u64_string(line_count) + " LOC \u{00B7} "@ + size_str + " \u{00B7} "@ + modified
}

/// Builds a file's info label.
pub fn file_info_label(f: &ProcessedFile) -> (r: String)
    ensures
        r@ == spec_file_info(f.line_count as int, f.size_str@, f.last_modified@),
{
    let mut r = u64_to_string(f.line_count as u64);
    r.append(" LOC \u{00B7} ");
    r.append(f.size_str.as_str());
    r.append(" \u{00B7} ");
    r.append(f.last_modified.as_str());
    proof {
        assert(r@ =~= spec_file_info(f.line_count as int, f.size_str@, f.last_modified@));
    }
    r
}

/// The content section's cursor after the first `n` files have been
/// rendered from cursor `c`: the fold of each file's section
/// transition. `sc_flush` of it is the page the next file starts on —
/// the number its table-of-contents entry records.
pub open spec fn spec_content_sc(
    c: SectionCursor,
    usable_h: int,
    lh: int,
    files: Seq<ProcessedFile>,
    n: int,
) -> SectionCursor
    decreases n,
{
    if n <= 0 {
        c
    } else {
        spec_render_file_sc(
            spec_content_sc(c, usable_h, lh, files, n - 1),
            usable_h,
            lh,
            files[n - 1].lines@.len() as int,
        )
    }
}

/// The four sections of an assembled document, in final order, plus
/// the resolved table-of-contents entries and the page counts the
/// placeholder passes reported (the counts the seeding arithmetic
/// used).
pub struct AssembledDocument {
    pub cover_pages: Vec<Page>,
    pub toc_pages: Vec<Page>,
    pub tree_pages: Vec<Page>,
    pub content_pages: Vec<Page>,
    pub toc_entries: Vec<TocEntry>,
    pub toc_pass_count: usize,
    pub tree_pass_count: usize,
}

/// Runs the four-phase protocol and returns the document's sections.
///
/// Phase ordering is what makes the links right: the table of contents
/// and tree are first rendered with placeholder numbers only to learn
/// their page counts `T` and `R`; the content pass is seeded to start
/// at page `C + T + R + 1` (after the `C` cover pages) and records each
/// file's true start page before rendering it; the final table of
/// contents and tree are re-rendered with those numbers, seeded at
/// `C + 1` and `C + T + 1`. Because the table of contents' numeric
/// field has a fixed width, the re-render cannot change the counts the
/// arithmetic used.
#[verifier::rlimit(100)]
pub fn assemble_document(
    files: Vec<ProcessedFile>,
    metadata: &RepoMetadata,
    remote_url: Option<&String>,
    remote_blob_base: Option<&String>,
    opts: &DocOptions,
) -> (r: AssembledDocument)
    requires
        opts.wf(),
    ensures
        r.toc_entries@.len() == files@.len(),
        r.cover_pages@.len() >= 1,
        r.content_pages@.len() >= 1,
        opts.toc ==> r.toc_pages@.len() >= 1,
        opts.file_tree ==> r.tree_pages@.len() >= 1,
        !opts.toc ==> r.toc_pages@.len() == 0,
        !opts.file_tree ==> r.tree_pages@.len() == 0,
        !opts.toc ==> r.toc_pass_count == 0,
        !opts.file_tree ==> r.tree_pass_count == 0,
        forall|i: int|
            0 <= i < r.cover_pages@.len() ==> (#[trigger] r.cover_pages@[i]).ops@.len() > 0,
        forall|i: int|
            0 <= i < r.content_pages@.len() ==> (#[trigger] r.content_pages@[i]).ops@.len() > 0,
        // The seeding, read off each section's first page header: the
        // cover starts at page 1; the re-rendered table of contents at
        // one past the cover; the tree past the placeholder
        // table-of-contents count; the content past all three.
        is_header_op(
            r.cover_pages@[0].ops@[0],
            1,
            opts.page_width as int,
            opts.page_height as int,
            opts.margin as int,
        ),
        (opts.toc && r.cover_pages@.len() + 1 <= usize::MAX) ==> is_header_op(
            r.toc_pages@[0].ops@[0],
            r.cover_pages@.len() as int + 1,
            opts.page_width as int,
            opts.page_height as int,
            opts.margin as int,
        ),
        (opts.file_tree && r.cover_pages@.len() + r.toc_pass_count + 1 <= usize::MAX)
            ==> is_header_op(
            r.tree_pages@[0].ops@[0],
            r.cover_pages@.len() as int + r.toc_pass_count + 1,
            opts.page_width as int,
            opts.page_height as int,
            opts.margin as int,
        ),
        r.cover_pages@.len() + r.toc_pass_count + r.tree_pass_count + 1 <= usize::MAX
            ==> is_header_op(
            r.content_pages@[0].ops@[0],
            r.cover_pages@.len() as int + r.toc_pass_count + r.tree_pass_count + 1,
            opts.page_width as int,
            opts.page_height as int,
            opts.margin as int,
        ),
        // The re-rendered forward-referencing sections occupy exactly
        // the page counts the placeholder passes reported — for the
        // table of contents as long as every resolved page number fits
        // its fixed-width field — so a link's page number names the
        // physical position of its target in the concatenated
        // document.
        opts.file_tree ==> r.tree_pages@.len() == r.tree_pass_count,
        (opts.toc && toc::spec_entries_fit_page_field(r.toc_entries@)) ==> r.toc_pages@.len()
            == r.toc_pass_count,
        // Each entry records the content builder's current page just
        // before its file renders — the flushed cursor page after the
        // files before it: the first file starts at the seeded base,
        // and start pages never decrease.
        r.cover_pages@.len() + r.toc_pass_count + r.tree_pass_count + 1 <= usize::MAX
            ==> (forall|i: int|
            0 <= i < r.toc_entries@.len() ==> (#[trigger] r.toc_entries@[i]).start_page as int
                == sc_flush(
                spec_content_sc(
                    (SectionCursor {
                        page: r.cover_pages@.len() + r.toc_pass_count + r.tree_pass_count + 1,
                        y: 0,
                        closed: 0,
                        pending: false,
                    }),
                    opts.page_height - 2 * opts.margin,
                    opts.line_height as int,
                    files@,
                    i,
                )).page),
        (files@.len() > 0 && r.cover_pages@.len() + r.toc_pass_count + r.tree_pass_count + 1
            <= usize::MAX) ==> r.toc_entries@[0].start_page == r.cover_pages@.len()
            + r.toc_pass_count + r.tree_pass_count + 1,
        forall|x: int, y: int|
            0 <= x <= y < r.toc_entries@.len() ==> (#[trigger] r.toc_entries@[x]).start_page <= (
            #[trigger] r.toc_entries@[y]).start_page,
        forall|i: int|
            0 <= i < r.toc_entries@.len() ==> {
                &&& (#[trigger] r.toc_entries@[i]).path@ == files@[i].path@
                &&& r.toc_entries@[i].line_count == files@[i].line_count
                &&& r.toc_entries@[i].size_str@ == files@[i].size_str@
                &&& r.toc_entries@[i].last_modified@ == files@[i].last_modified@
            },
{
    // Phase 1: the cover's content is fully known, render it for real.
    let cover_pages = {
        let mut b = create_builder(opts);
        let ghost hdr = b.current_ops@;
        cover::render(&mut b, metadata, remote_url);
        let pages = b.finish();
        proof {
            lemma_first_op_of_finish(hdr, b, pages@);
        }
        pages
    };
    let cover_count = cover_pages.len();

    let tree_paths = collect_paths(&files);
    let dummy_entries = placeholder_entries(&files);

    // The geometry every pass shares, and the cursor a fresh builder
    // starts from — the page ordinal aside, the same state every
    // seeded builder starts from too.
    let ghost uw = opts.page_width - 2 * opts.margin;
    let ghost uh = opts.page_height - 2 * opts.margin;
    let ghost lh = opts.line_height as int;
    let ghost c_fresh = (SectionCursor { page: 1, y: 0, closed: 0, pending: false });

    // Phase 2: placeholder passes, kept only for their page counts.
    let toc_count: usize = if opts.toc {
        let mut b = create_builder(opts);
        toc::render(&mut b, &dummy_entries);
        let pages = b.finish();
        pages.len()
    } else {
        0
    };
    proof {
        if opts.toc {
            assert(toc_count as int == toc::spec_toc_sc(
                c_fresh,
                uw,
                uh,
                lh,
                toc::spec_toc_metas(dummy_entries@),
                toc::spec_toc_paths(dummy_entries@),
            ).closed + 1);
        }
    }
    let tree_count: usize = if opts.file_tree {
        let mut b = create_builder(opts);
        tree::render(&mut b, &tree_paths);
        let pages = b.finish();
        pages.len()
    } else {
        0
    };
    proof {
        if opts.file_tree {
            assert(tree_count as int == tree::spec_tree_sc(
                c_fresh,
                uh,
                lh,
                tree::spec_tree_render_lines(tree_paths.deep_view()).len(),
            ).closed + 1);
        }
    }

    // Phase 3: render the content seeded past cover, table of contents
    // and tree, recording each file's true start page first.
    let base = sat_add3(cover_count, toc_count, tree_count, 1);
    let mut content_builder = create_builder_at_page(opts, base);
    let ghost content_hdr = content_builder.current_ops@;
    let ghost all_content0 = content_builder.spec_all_ops();
    let ghost c0 = content_builder.spec_section_cursor();
    let mut toc_entries: Vec<TocEntry> = Vec::new();
    let mut i: usize = 0;
    while i < files.len()
        invariant
            content_builder.wf(),
            content_builder.page_width == opts.page_width,
            content_builder.page_height == opts.page_height,
            content_builder.margin == opts.margin,
            content_builder.line_height == opts.line_height,
            i <= files@.len(),
            toc_entries@.len() == i,
            c0 == (SectionCursor { page: base as int, y: 0, closed: 0, pending: false }),
            uh == opts.page_height - 2 * opts.margin,
            lh == opts.line_height as int,
            content_builder.spec_section_cursor() == spec_content_sc(c0, uh, lh, files@, i as int),
            forall|j: int|
                0 <= j < i ==> (#[trigger] toc_entries@[j]).start_page as int == sc_flush(
                    spec_content_sc(c0, uh, lh, files@, j),
                ).page,
            i > 0 ==> toc_entries@[i - 1].start_page as int <= content_builder.spec_current_page(),
            i == 0 ==> content_builder.spec_current_page() == content_builder.page_count as int
                && content_builder.page_count == base,
            toc_entries@.len() > 0 ==> toc_entries@[0].start_page == base,
            forall|x: int, y: int|
                0 <= x <= y < i ==> (#[trigger] toc_entries@[x]).start_page <= (
                #[trigger] toc_entries@[y]).start_page,
            forall|j: int|
                0 <= j < i ==> {
                    &&& (#[trigger] toc_entries@[j]).path@ == files@[j].path@
                    &&& toc_entries@[j].line_count == files@[j].line_count
                    &&& toc_entries@[j].size_str@ == files@[j].size_str@
                    &&& toc_entries@[j].last_modified@ == files@[j].last_modified@
                },
            all_content0.is_prefix_of(content_builder.spec_all_ops()),
        decreases files@.len() - i,
    {
        let ghost b_pre = content_builder;
        let file = &files[i];
        let start_page = content_builder.current_page();
        toc_entries.push(
            TocEntry {
                path: file.path.clone(),
                line_count: file.line_count,
                size_str: file.size_str.clone(),
                last_modified: file.last_modified.clone(),
                start_page,
            },
        );
        let info = file_info_label(file);
        let header_url: Option<String> = match remote_blob_base {
            Some(b) => {
                let mut u = b.clone();
                u.append("/");
                u.append(file.path.as_str());
                Some(u)
            },
            None => None,
        };
        render_file(
            &mut content_builder,
            file.path.as_str(),
            &file.lines,
            file.line_count,
            opts.show_line_numbers,
            opts.font_size,
            info.as_str(),
            header_url.as_ref(),
        );
        proof {
            // The page where the next file starts is at or past the one
            // just recorded: no transition moves the page backwards.
            let c = b_pre.spec_section_cursor();
            let u = b_pre.spec_usable_height();
            let lh = b_pre.line_height as int;
            let c1 = sc_vspace(sc_line(c, u, lh), 400);
            lemma_sc_line_page_mono(c, u, lh);
            lemma_sc_lines_n_page_mono(c1, u, lh, file.lines@.len() as nat);
            assert(content_builder.spec_section_cursor() == spec_render_file_sc(
                c,
                u,
                lh,
                file.lines@.len() as int,
            ));
            assert(sc_flush(c).page == start_page as int);
            assert(content_builder.page_count as int >= start_page as int);
            assert(start_page as int <= content_builder.spec_current_page());
            assert(content_builder.spec_section_cursor() == spec_content_sc(
                c0,
                uh,
                lh,
                files@,
                i + 1,
            ));
            assert(toc_entries@[i as int].start_page as int == sc_flush(
                spec_content_sc(c0, uh, lh, files@, i as int),
            ).page);
            crate::layout::lemma_prefix_trans(
                all_content0,
                b_pre.spec_all_ops(),
                content_builder.spec_all_ops(),
            );
        }
        i = i + 1;
    }
    let content_pages = content_builder.finish();
    proof {
        lemma_first_op_of_finish(content_hdr, content_builder, content_pages@);
    }

    // Phase 4: re-render the forward-referencing sections with the
    // real numbers, seeded at their real offsets.
    let toc_pages: Vec<Page> = if opts.toc {
        let mut b = create_builder_at_page(opts, sat_add3(cover_count, 0, 0, 1));
        let ghost hdr = b.current_ops@;
        let ghost c_toc_real = b.spec_section_cursor();
        toc::render(&mut b, &toc_entries);
        let pages = b.finish();
        proof {
            lemma_first_op_of_finish(hdr, b, pages@);
            // With every resolved number inside the fixed-width field,
            // the re-render has the shape of the placeholder pass, and
            // a cursor differing only in its page ordinal closes the
            // same number of pages.
            if toc::spec_entries_fit_page_field(toc_entries@) {
                toc::lemma_toc_shape_independent(c_fresh, uw, uh, lh, dummy_entries@, toc_entries@);
                toc::lemma_toc_sc_same_shape(
                    c_fresh,
                    c_toc_real,
                    uw,
                    uh,
                    lh,
                    toc::spec_toc_metas(toc_entries@),
                    toc::spec_toc_paths(toc_entries@),
                );
                assert(pages@.len() == toc_count);
            }
        }
        pages
    } else {
        Vec::new()
    };
    let tree_pages: Vec<Page> = if opts.file_tree {
        let mut b = create_builder_at_page(opts, sat_add3(cover_count, toc_count, 0, 1));
        let ghost hdr = b.current_ops@;
        let ghost c_tree_real = b.spec_section_cursor();
        tree::render(&mut b, &tree_paths);
        let pages = b.finish();
        proof {
            lemma_first_op_of_finish(hdr, b, pages@);
            // Same path list, so the same lines; a cursor differing
            // only in its page ordinal closes the same number of
            // pages.
            tree::lemma_tree_sc_same_shape(
                c_fresh,
                c_tree_real,
                uh,
                lh,
                tree::spec_tree_render_lines(tree_paths.deep_view()).len(),
            );
            assert(pages@.len() == tree_count);
        }
        pages
    } else {
        Vec::new()
    };

    proof {
        if cover_pages@.len() + toc_count + tree_count + 1 <= usize::MAX {
            assert(c0 == (SectionCursor {
                page: cover_pages@.len() + toc_count + tree_count + 1,
                y: 0,
                closed: 0,
                pending: false,
            }));
        }
    }

    AssembledDocument {
        cover_pages,
        toc_pages,
        tree_pages,
        content_pages,
        toc_entries,
        toc_pass_count: toc_count,
        tree_pass_count: tree_count,
    }
}

/// `a + b + c + d`, saturating at `usize::MAX`.
fn sat_add3(a: usize, b: usize, c: usize, d: usize) -> (r: usize)
    ensures
        a + b + c + d <= usize::MAX ==> r == a + b + c + d,
        r >= d,
{
    let ab = if a <= usize::MAX - b {
        a + b
    } else {
        usize::MAX
    };
    let abc = if ab <= usize::MAX - c {
        ab + c
    } else {
        usize::MAX
    };
    if abc <= usize::MAX - d {
        abc + d
    } else {
        usize::MAX
    }
}

/// The files' paths, in order.
fn collect_paths(files: &Vec<ProcessedFile>) -> (r: Vec<String>)
    ensures
        r.deep_view() == files@.map_values(|f: ProcessedFile| f.path@),
{
    let mut r: Vec<String> = Vec::new();
    let mut i: usize = 0;
    while i < files.len()
        invariant
            i <= files@.len(),
            r.deep_view() == files@.take(i as int).map_values(|f: ProcessedFile| f.path@),
        decreases files@.len() - i,
    {
        let ghost r0 = r.deep_view();
        r.push(files[i].path.clone());
        proof {
            assert(r.deep_view() =~= r0.push(files@[i as int].path@));
            assert(files@.take(i + 1).drop_last() =~= files@.take(i as int));
            assert(files@.take(i + 1).map_values(|f: ProcessedFile| f.path@) =~= files@.take(
                i as int,
            ).map_values(|f: ProcessedFile| f.path@).push(files@[i as int].path@));
        }
        i = i + 1;
    }
    proof {
        assert(files@.take(files@.len() as int) =~= files@);
    }
    r
}

/// Placeholder table-of-contents entries: the real shapes with a zero
/// start page, used only to count the section's pages.
fn placeholder_entries(files: &Vec<ProcessedFile>) -> (r: Vec<TocEntry>)
    ensures
        r@.len() == files@.len(),
        forall|i: int|
            0 <= i < r@.len() ==> {
                &&& (#[trigger] r@[i]).start_page == 0
                &&& r@[i].path@ == files@[i].path@
                &&& r@[i].line_count == files@[i].line_count
                &&& r@[i].size_str@ == files@[i].size_str@
                &&& r@[i].last_modified@ == files@[i].last_modified@
            },
{
    let mut r: Vec<TocEntry> = Vec::new();
    let mut i: usize = 0;
    while i < files.len()
        invariant
            i <= files@.len(),
            r@.len() == i,
            forall|j: int|
                0 <= j < i ==> {
                    &&& (#[trigger] r@[j]).start_page == 0
                    &&& r@[j].path@ == files@[j].path@
                    &&& r@[j].line_count == files@[j].line_count
                    &&& r@[j].size_str@ == files@[j].size_str@
                    &&& r@[j].last_modified@ == files@[j].last_modified@
                },
        decreases files@.len() - i,
    {
        let f = &files[i];
        r.push(
            TocEntry {
                path: f.path.clone(),
                line_count: f.line_count,
                size_str: f.size_str.clone(),
                last_modified: f.last_modified.clone(),
                start_page: 0,
            },
        );
        i = i + 1;
    }
    r
}

/// Concatenates the sections in the order the offset arithmetic
/// assumed: cover, table of contents, tree, content.
pub fn all_pages(doc: AssembledDocument) -> (r: Vec<Page>)
    ensures
        r@ == doc.cover_pages@ + doc.toc_pages@ + doc.tree_pages@ + doc.content_pages@,
{
    let AssembledDocument {
        mut cover_pages,
        mut toc_pages,
        mut tree_pages,
        mut content_pages,
        ..
    } = doc;
    let ghost c0 = cover_pages@;
    let ghost t0 = toc_pages@;
    let ghost r0 = tree_pages@;
    let ghost n0 = content_pages@;
    cover_pages.append(&mut toc_pages);
    cover_pages.append(&mut tree_pages);
    cover_pages.append(&mut content_pages);
    proof {
        assert(cover_pages@ =~= c0 + t0 + r0 + n0);
    }
    cover_pages
}

/// Renders a single file as a stand-alone document: no cover, table of
/// contents or tree — just the file's section, starting at page 1. The
/// page count is exactly what the file section's cursor transition
/// closes, plus the page in progress.
pub fn render_single_file(
    file: &ProcessedFile,
    header_url: Option<&String>,
    opts: &DocOptions,
) -> (r: Vec<Page>)
    requires
        opts.wf(),
    ensures
        r@.len() >= 1,
        forall|i: int| 0 <= i < r@.len() ==> (#[trigger] r@[i]).ops@.len() > 0,
        r@.len() as int == spec_render_file_sc(
            (SectionCursor { page: 1, y: 0, closed: 0, pending: false }),
            opts.page_height - 2 * opts.margin,
            opts.line_height as int,
            file.lines@.len() as int,
        ).closed + 1,
        is_header_op(
            r@[0].ops@[0],
            1,
            opts.page_width as int,
            opts.page_height as int,
            opts.margin as int,
        ),
{
    let mut builder = create_builder(opts);
    let ghost hdr = builder.current_ops@;
    let info = file_info_label(file);
    render_file(
        &mut builder,
        file.path.as_str(),
        &file.lines,
        file.line_count,
        opts.show_line_numbers,
        opts.font_size,
        info.as_str(),
        header_url,
    );
    let pages = builder.finish();
    proof {
        lemma_first_op_of_finish(hdr, builder, pages@);
    }
    pages
}

/// The paper sizes the document can be laid out on, as
/// (width, height) in tenths of a millimetre, portrait orientation.
pub fn paper_dimensions_tenth_mm(paper: crate::types::PaperSize, landscape: bool) -> (r: (
    u64,
    u64,
))
    ensures
        !landscape ==> r == (match paper {
            crate::types::PaperSize::A4 => (2100u64, 2970u64),
            crate::types::PaperSize::Letter => (2159u64, 2794u64),
            crate::types::PaperSize::Legal => (2159u64, 3556u64),
        }),
        landscape ==> r == (match paper {
            crate::types::PaperSize::A4 => (2970u64, 2100u64),
            crate::types::PaperSize::Letter => (2794u64, 2159u64),
            crate::types::PaperSize::Legal => (3556u64, 2159u64),
        }),
{
    let (w, h): (u64, u64) = match paper {
        crate::types::PaperSize::A4 => (2100, 2970),
        crate::types::PaperSize::Letter => (2159, 2794),
        crate::types::PaperSize::Legal => (2159, 3556),
    };
    if landscape {
        (h, w)
    } else {
        (w, h)
    }
}

} // verus!
