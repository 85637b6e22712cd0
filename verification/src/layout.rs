//! The layout engine: an abstract page canvas and a `PageBuilder` state
//! machine that lays text lines out top-to-bottom, opens new pages on
//! overflow, and defers requested page breaks until the next write so a
//! document never ends with a trailing blank page.
//!
//! All geometry is integer arithmetic in centipoints (hundredths of a
//! typographic point). Horizontal extents use a monospace approximation:
//! a character is 3/5 of the font size wide.

use vstd::prelude::*;

use crate::text::{spec_u64_string, u64_to_string};
use crate::types::RgbColor;

verus! {

/// Largest page dimension (and cursor position) the engine accepts, in
/// centipoints. Keeps every coordinate computation inside `u64`.
pub const MAX_DIM: u64 = 0x4000_0000;

/// Largest cursor position the engine tracks; `vertical_space` saturates
/// here. Well above any page dimension, so ordinary writes never clamp.
pub const Y_CAP: u64 = 0x1_0000_0000_0000;

/// Distance from the top of a line's box down to its text baseline.
pub const BASELINE_DROP: u64 = 1200;

/// Vertical lead added around standalone centered text.
pub const CENTERED_LEAD: u32 = 400;

/// Font size of the page-number header.
pub const HEADER_SIZE: u32 = 700;

/// How far above the top margin the page-number header sits.
pub const HEADER_LIFT: u64 = 200;

/// Half the approximate width of one header character.
pub const HEADER_HALF_CHAR: u64 = 250;

/// The four font variants of the document's font family.
#[derive(Debug, Clone, Copy, PartialEq, Eq, Structural)]
pub enum FontVariant {
    Regular,
    Bold,
    Italic,
    BoldItalic,
}

/// A styled text span within a line. `size` is the font size in centipoints.
#[derive(Debug, Clone)]
pub struct Span {
    pub text: String,
    pub font: FontVariant,
    pub size: u32,
    pub color: RgbColor,
}

/// Where a link annotation points.
#[derive(Debug, Clone)]
pub enum LinkTarget {
    /// An external URI.
    Uri(String),
    /// A 1-based page number within this document.
    PageNumber(usize),
}

/// One absolute draw or link instruction on a page. Coordinates are
/// centipoints from the page's bottom-left corner.
#[derive(Debug, Clone)]
pub enum PageOp {
    /// Spans drawn left to right starting at `x`, sharing the baseline `y`.
    TextLine { x: u64, y: u64, spans: Vec<Span> },
    /// A clickable rectangle with lower-left corner (`x`, `y`).
    Link { x: u64, y: u64, width: u64, height: u64, target: LinkTarget },
}

/// An immutable page: fixed dimensions plus an ordered instruction list.
#[derive(Debug, Clone)]
pub struct Page {
    pub width: u64,
    pub height: u64,
    pub ops: Vec<PageOp>,
}

/// `p + 1`, except that the counter sticks at `usize::MAX` instead of
/// wrapping.
pub open spec fn sat_inc(p: usize) -> usize {
    if p == usize::MAX {
        p
    } else {
        (p + 1) as usize
    }
}

/// The width of one span under the monospace approximation: character
/// count times 3/5 of the font size.
pub open spec fn spec_span_width(s: Span) -> int {
    s.text@.len() * (s.size as int) * 3 / 5
}

/// The approximate width of a whole line of spans.
pub open spec fn spec_line_width(spans: Seq<Span>) -> int
    decreases spans.len(),
{
    if spans.len() == 0 {
        0
    } else {
        spec_line_width(spans.drop_last()) + spec_span_width(spans.last())
    }
}

/// `min` over mathematical integers.
pub open spec fn min_int(a: int, b: int) -> int {
    if a <= b {
        a
    } else {
        b
    }
}

/// The text of the running page-number header.
pub open spec fn spec_header_text(page: int) -> Seq<char> {
    "- "@ + spec_u64_string(page) + " -"@
}

/// Does `op` draw exactly the spans `spans` at (`x`, `y`)?
pub open spec fn is_text_line_op(op: PageOp, x: int, y: int, spans: Seq<Span>) -> bool {
    match op {
        PageOp::TextLine { x: ox, y: oy, spans: osp } => {
            ox == x && oy == y && osp@ == spans
        },
        _ => false,
    }
}

/// Is `op` the page-number header of page `page` on a page of the given
/// geometry?
pub open spec fn is_header_op(op: PageOp, page: int, width: int, height: int, margin: int) -> bool {
    match op {
        PageOp::TextLine { x, y, spans } => {
            &&& x == if width / 2 >= spec_header_text(page).len() * HEADER_HALF_CHAR {
                width / 2 - spec_header_text(page).len() * HEADER_HALF_CHAR
            } else {
                0
            }
            &&& y == height - margin + HEADER_LIFT
            &&& spans@.len() == 1
            &&& spans@[0].text@ == spec_header_text(page)
            &&& spans@[0].font == FontVariant::Regular
            &&& spans@[0].size == HEADER_SIZE
            &&& spans@[0].color == (RgbColor { r: 128, g: 128, b: 128 })
        },
        _ => false,
    }
}

/// Builds pages with simple top-to-bottom text layout.
///
/// The cursor `y` runs from the top of the usable area (below the top
/// margin) downward; instructions carry absolute bottom-origin
/// coordinates. A requested page break is deferred (`pending_break`) and
/// materialized by the next space-consuming operation.
pub struct PageBuilder {
    pub pages: Vec<Page>,
    pub current_ops: Vec<PageOp>,
    pub y: u64,
    pub page_width: u64,
    pub page_height: u64,
    pub margin: u64,
    pub line_height: u64,
    pub page_count: usize,
    pub start_page: usize,
    pub pending_break: bool,
    /// Cursor position at which the most recent line was written.
    pub last_line_y: u64,
}

impl PageBuilder {
    /// Geometry and cursor bounds that every operation preserves.
    pub open spec fn wf_geom(self) -> bool {
        &&& 0 < self.page_width <= MAX_DIM
        &&& 0 < self.page_height <= MAX_DIM
        &&& self.margin * 2 < self.page_height
        &&& self.margin * 2 < self.page_width
        &&& 1 <= self.line_height <= self.spec_usable_height()
        &&& self.y <= Y_CAP
        &&& self.last_line_y <= Y_CAP
        &&& 1 <= self.start_page
        &&& forall|i: int|
            0 <= i < self.pages@.len() ==> {
                &&& #[trigger] self.pages@[i].ops@.len() > 0
                &&& self.pages@[i].width == self.page_width
                &&& self.pages@[i].height == self.page_height
            }
    }

    /// Full well-formedness: geometry plus a non-empty instruction list for
    /// the page in progress (every page carries at least its header).
    pub open spec fn wf(self) -> bool {
        &&& self.wf_geom()
        &&& self.current_ops@.len() > 0
    }

    /// Page height minus the two margins.
    pub open spec fn spec_usable_height(self) -> int {
        self.page_height - 2 * self.margin
    }

    /// Page width minus the two margins.
    pub open spec fn spec_usable_width(self) -> int {
        self.page_width - 2 * self.margin
    }

    /// Vertical space still open on the current page.
    pub open spec fn spec_remaining(self) -> int {
        if self.y >= self.spec_usable_height() {
            0
        } else {
            self.spec_usable_height() - self.y
        }
    }

    /// The 1-based ordinal of the page the next write lands on: one past
    /// the counter while a break is pending.
    pub open spec fn spec_current_page(self) -> int {
        if self.pending_break {
            sat_inc(self.page_count) as int
        } else {
            self.page_count as int
        }
    }

    /// The page list `finish` would return right now: all closed pages
    /// plus the page in progress.
    pub open spec fn spec_finish(self) -> Seq<Page> {
        self.pages@.push(
            Page { width: self.page_width, height: self.page_height, ops: self.current_ops },
        )
    }

    /// Converts a top-down layout offset into a bottom-origin coordinate,
    /// clamped at the page's bottom edge.
    pub open spec fn spec_absolute_y(self, offset: int) -> int {
        if self.page_height - self.margin >= offset {
            self.page_height - self.margin - offset
        } else {
            0
        }
    }

    /// Exec counterpart of [`Self::spec_absolute_y`].
    pub fn to_absolute_y(&self, offset: u64) -> (r: u64)
        requires
            self.wf_geom(),
        ensures
            r == self.spec_absolute_y(offset as int),
    {
        let limit = self.page_height - self.margin;
        if limit >= offset {
            limit - offset
        } else {
            0
        }
    }

    /// The baseline coordinate for a line written at cursor position `y`.
    pub open spec fn spec_baseline(self, y: int) -> int {
        self.spec_absolute_y(y + BASELINE_DROP)
    }

    fn baseline(&self) -> (r: u64)
        requires
            self.wf_geom(),
        ensures
            r == self.spec_baseline(self.y as int),
    {
        self.to_absolute_y(self.y + BASELINE_DROP)
    }

    /// Opens a fresh builder whose first page is numbered
    /// `max(starting_page, 1)`; the page-number header of that page is the
    /// only instruction so far.
    pub fn new(
        page_width: u64,
        page_height: u64,
        margin: u64,
        line_height: u64,
        starting_page: usize,
    ) -> (r: PageBuilder)
        requires
            0 < page_width <= MAX_DIM,
            0 < page_height <= MAX_DIM,
            margin * 2 < page_height,
            margin * 2 < page_width,
            1 <= line_height <= page_height - 2 * margin,
        ensures
            r.wf(),
            r.page_width == page_width,
            r.page_height == page_height,
            r.margin == margin,
            r.line_height == line_height,
            r.pages@.len() == 0,
            r.y == 0,
            !r.pending_break,
            r.page_count == if starting_page == 0 {
                1usize
            } else {
                starting_page
            },
            r.start_page == r.page_count,
            r.current_ops@.len() == 1,
            is_header_op(
                r.current_ops@[0],
                r.page_count as int,
                page_width as int,
                page_height as int,
                margin as int,
            ),
            r.spec_all_ops() == r.current_ops@,
            r.spec_link_ops() == Seq::<PageOp>::empty(),
    {
        let base = if starting_page == 0 {
            0
        } else {
            starting_page - 1
        };
        let mut builder = PageBuilder {
            pages: Vec::new(),
            current_ops: Vec::new(),
            y: 0,
            page_width,
            page_height,
            margin,
            line_height,
            page_count: base,
            start_page: 1,
            pending_break: false,
            last_line_y: 0,
        };
        builder.start_new_page();
        builder.start_page = builder.page_count;
        proof {
            assert(builder.spec_all_ops() =~= builder.current_ops@);
            assert(Seq::<PageOp>::empty().push(builder.current_ops@[0]) =~= builder.current_ops@);
            lemma_filter_push_nonlink(Seq::<PageOp>::empty(), builder.current_ops@[0]);
            reveal(Seq::filter);
        }
        builder
    }

    /// Closes the page in progress (when it holds anything) and opens the
    /// next one, writing its page-number header.
    fn start_new_page(&mut self)
        requires
            old(self).wf_geom(),
        ensures
            final(self).wf(),
            final(self).page_count == sat_inc(old(self).page_count),
            final(self).y == 0,
            final(self).pages@ == if old(self).current_ops@.len() > 0 {
                old(self).spec_finish()
            } else {
                old(self).pages@
            },
            final(self).current_ops@.len() == 1,
            is_header_op(
                final(self).current_ops@[0],
                final(self).page_count as int,
                old(self).page_width as int,
                old(self).page_height as int,
                old(self).margin as int,
            ),
            final(self).pending_break == old(self).pending_break,
            final(self).page_width == old(self).page_width,
            final(self).page_height == old(self).page_height,
            final(self).margin == old(self).margin,
            final(self).line_height == old(self).line_height,
            final(self).start_page == old(self).start_page,
            final(self).last_line_y == old(self).last_line_y,
            final(self).spec_all_ops() == old(self).spec_all_ops().push(
                final(self).current_ops@[0],
            ),
            final(self).spec_link_ops() == old(self).spec_link_ops(),
    {
        let ghost all0 = old(self).spec_all_ops();
        if self.current_ops.len() > 0 {
            let mut ops: Vec<PageOp> = Vec::new();
            core::mem::swap(&mut ops, &mut self.current_ops);
            self.pages.push(
                Page { width: self.page_width, height: self.page_height, ops },
            );
        }
        if self.page_count < usize::MAX {
            self.page_count = self.page_count + 1;
        }
        self.y = 0;

        let mut header_text = String::new();
        header_text.append("- ");
        let digits = u64_to_string(self.page_count as u64);
        header_text.append(digits.as_str());
        header_text.append(" -");
        proof {
            assert(header_text@ == spec_header_text(self.page_count as int));
        }
        let len = header_text.unicode_len();
        let half = (len as u128) * (HEADER_HALF_CHAR as u128);
        let mid = self.page_width / 2;
        let x = if (mid as u128) >= half {
            mid - (half as u64)
        } else {
            0
        };
        let y = self.page_height - self.margin + HEADER_LIFT;
        let span = Span {
            text: header_text,
            font: FontVariant::Regular,
            size: HEADER_SIZE,
            color: RgbColor { r: 128, g: 128, b: 128 },
        };
        let mut spans: Vec<Span> = Vec::new();
        spans.push(span);
        let mut ops: Vec<PageOp> = Vec::new();
        ops.push(PageOp::TextLine { x, y, spans });
        self.current_ops = ops;
        proof {
            if old(self).current_ops@.len() > 0 {
                lemma_concat_pages_push(old(self).pages@, self.pages@.last());
                assert(self.pages@.drop_last() =~= old(self).pages@);
                assert(self.spec_all_ops() =~= all0.push(self.current_ops@[0]));
            } else {
                assert(self.spec_all_ops() =~= all0.push(self.current_ops@[0]));
            }
            lemma_filter_push_nonlink(all0, self.current_ops@[0]);
        }
    }

    /// The page number currently being written, accounting for a pending
    /// deferred break: this is the page the next write will land on.
    pub fn current_page(&self) -> (r: usize)
        ensures
            r as int == self.spec_current_page(),
    {
        if self.pending_break {
            if self.page_count < usize::MAX {
                self.page_count + 1
            } else {
                self.page_count
            }
        } else {
            self.page_count
        }
    }

    /// Usable height: page height minus top and bottom margins.
    pub fn usable_height(&self) -> (r: u64)
        requires
            self.wf_geom(),
        ensures
            r as int == self.spec_usable_height(),
    {
        self.page_height - 2 * self.margin
    }

    /// Usable width: page width minus left and right margins.
    pub fn usable_width(&self) -> (r: u64)
        requires
            self.wf_geom(),
        ensures
            r as int == self.spec_usable_width(),
    {
        self.page_width - 2 * self.margin
    }

    /// Vertical space still open on the current page.
    pub fn remaining(&self) -> (r: u64)
        requires
            self.wf_geom(),
        ensures
            r as int == self.spec_remaining(),
    {
        let usable = self.usable_height();
        if self.y >= usable {
            0
        } else {
            usable - self.y
        }
    }

    /// Height of one text line.
    pub fn line_height(&self) -> (r: u64)
        ensures
            r == self.line_height,
    {
        self.line_height
    }

    /// Requests a page break. The break is deferred: no page is opened
    /// until the next write, so a trailing break never yields a blank page.
    pub fn page_break(&mut self)
        ensures
            *final(self) == (PageBuilder { pending_break: true, ..*old(self) }),
            final(self).spec_section_cursor() == sc_break(old(self).spec_section_cursor()),
            final(self).spec_all_ops() == old(self).spec_all_ops(),
            final(self).spec_link_ops() == old(self).spec_link_ops(),
    {
        self.pending_break = true;
    }

    /// Materializes a pending deferred break, if any.
    fn flush_break(&mut self)
        requires
            old(self).wf(),
        ensures
            final(self).wf(),
            !final(self).pending_break,
            *final(self) == if old(self).pending_break {
                (PageBuilder {
                    pending_break: false,
                    page_count: sat_inc(old(self).page_count),
                    y: 0,
                    pages: final(self).pages,
                    current_ops: final(self).current_ops,
                    ..*old(self)
                })
            } else {
                *old(self)
            },
            old(self).pending_break ==> {
                &&& final(self).pages@ == old(self).spec_finish()
                &&& final(self).current_ops@.len() == 1
                &&& is_header_op(
                    final(self).current_ops@[0],
                    final(self).page_count as int,
                    old(self).page_width as int,
                    old(self).page_height as int,
                    old(self).margin as int,
                )
            },
            final(self).spec_section_cursor() == sc_flush(old(self).spec_section_cursor()),
            final(self).spec_link_ops() == old(self).spec_link_ops(),
            old(self).spec_all_ops().is_prefix_of(final(self).spec_all_ops()),
    {
        if self.pending_break {
            self.pending_break = false;
            self.start_new_page();
            proof {
                assert(old(self).spec_all_ops().is_prefix_of(self.spec_all_ops())) by {
                    assert(self.spec_all_ops().take(old(self).spec_all_ops().len() as int)
                        =~= old(self).spec_all_ops());
                }
            }
        } else {
            proof {
                assert(old(self).spec_all_ops().is_prefix_of(self.spec_all_ops())) by {
                    assert(self.spec_all_ops().take(old(self).spec_all_ops().len() as int)
                        =~= old(self).spec_all_ops());
                }
            }
        }
    }

    /// Materializes a pending break, then opens a new page if the space
    /// still open is less than `needed`. Afterwards either the cursor is
    /// untouched and `needed` fits, or a fresh page has been opened.
    pub fn ensure_space(&mut self, needed: u64)
        requires
            old(self).wf(),
        ensures
            final(self).wf(),
            !final(self).pending_break,
            final(self).page_width == old(self).page_width,
            final(self).page_height == old(self).page_height,
            final(self).margin == old(self).margin,
            final(self).line_height == old(self).line_height,
            final(self).start_page == old(self).start_page,
            final(self).last_line_y == old(self).last_line_y,
            !old(self).pending_break && old(self).spec_remaining() >= needed ==> *final(self)
                == (PageBuilder { pending_break: false, ..*old(self) }),
            if old(self).spec_after_flush_fits(needed as int) {
                &&& final(self).page_count == old(self).spec_page_after_flush()
                &&& final(self).y == if old(self).pending_break {
                    0int
                } else {
                    old(self).y as int
                }
                &&& final(self).spec_finish().len() == old(self).spec_finish().len() + (
                if old(self).pending_break {
                    1int
                } else {
                    0int
                })
            } else {
                &&& final(self).page_count == sat_inc(old(self).spec_page_after_flush())
                &&& final(self).y == 0
                &&& final(self).spec_finish().len() == old(self).spec_finish().len() + (
                if old(self).pending_break {
                    2int
                } else {
                    1int
                })
            },
            (old(self).pending_break || !old(self).spec_after_flush_fits(needed as int)) ==> {
                &&& final(self).current_ops@.len() == 1
                &&& is_header_op(
                    final(self).current_ops@[0],
                    final(self).page_count as int,
                    old(self).page_width as int,
                    old(self).page_height as int,
                    old(self).margin as int,
                )
            },
            (!old(self).pending_break && old(self).spec_after_flush_fits(needed as int))
                ==> final(self).current_ops@ == old(self).current_ops@,
            final(self).spec_remaining() >= min_int(
                needed as int,
                final(self).spec_usable_height(),
            ),
            final(self).spec_section_cursor() == sc_ensure(
                old(self).spec_section_cursor(),
                old(self).spec_usable_height(),
                needed as int,
            ),
            (old(self).spec_after_flush_fits(needed as int) && old(self).pending_break)
                ==> final(self).pages@ == old(self).spec_finish(),
            (old(self).spec_after_flush_fits(needed as int) && !old(self).pending_break)
                ==> final(self).pages@ == old(self).pages@,
            (!old(self).spec_after_flush_fits(needed as int) && !old(self).pending_break)
                ==> final(self).pages@ == old(self).spec_finish(),
            final(self).spec_link_ops() == old(self).spec_link_ops(),
            old(self).spec_all_ops().is_prefix_of(final(self).spec_all_ops()),
            old(self).pages@.is_prefix_of(final(self).pages@),
    {
        proof {
            assert(old(self).spec_finish().len() == old(self).pages@.len() + 1);
        }
        let ghost all0 = old(self).spec_all_ops();
        self.flush_break();
        let ghost mid = *self;
        let rem = self.remaining();
        if rem < needed {
            self.start_new_page();
        }
        proof {
            assert(final(self).spec_finish().len() == final(self).pages@.len() + 1);
            assert(all0.is_prefix_of(self.spec_all_ops())) by {
                assert(all0.is_prefix_of(mid.spec_all_ops()));
                if mid.spec_all_ops() != self.spec_all_ops() {
                    assert(self.spec_all_ops().take(all0.len() as int) =~= all0);
                }
            }
            assert(old(self).pages@.is_prefix_of(self.pages@)) by {
                assert(self.pages@.take(old(self).pages@.len() as int) =~= old(self).pages@);
            }
        }
    }

    /// After a pending break (if any) is materialized, does `needed` still
    /// fit on the page then current?
    pub open spec fn spec_after_flush_fits(self, needed: int) -> bool {
        if self.pending_break {
            needed <= self.spec_usable_height()
        } else {
            self.spec_remaining() >= needed
        }
    }

    /// The page counter right after a pending break (if any) is
    /// materialized.
    pub open spec fn spec_page_after_flush(self) -> usize {
        if self.pending_break {
            sat_inc(self.page_count)
        } else {
            self.page_count
        }
    }

    /// Advances the cursor without drawing. Never opens a page by itself;
    /// an overflow is detected by the next write. The cursor saturates at
    /// [`MAX_DIM`].
    pub fn vertical_space(&mut self, amount: u64)
        requires
            old(self).wf(),
        ensures
            *final(self) == (PageBuilder {
                y: if old(self).y + amount <= Y_CAP {
                    (old(self).y + amount) as u64
                } else {
                    Y_CAP
                },
                ..*old(self)
            }),
            final(self).wf(),
            final(self).spec_section_cursor() == sc_vspace(
                old(self).spec_section_cursor(),
                amount as int,
            ),
            final(self).spec_all_ops() == old(self).spec_all_ops(),
            final(self).spec_link_ops() == old(self).spec_link_ops(),
    {
        if amount <= Y_CAP - self.y {
            self.y = self.y + amount;
        } else {
            self.y = Y_CAP;
        }
    }

    /// The font variant for a bold/italic flag pair.
    pub fn font(&self, bold: bool, italic: bool) -> (r: FontVariant)
        ensures
            r == (if bold && italic {
                FontVariant::BoldItalic
            } else if bold {
                FontVariant::Bold
            } else if italic {
                FontVariant::Italic
            } else {
                FontVariant::Regular
            }),
    {
        if bold && italic {
            FontVariant::BoldItalic
        } else if bold {
            FontVariant::Bold
        } else if italic {
            FontVariant::Italic
        } else {
            FontVariant::Regular
        }
    }

    /// Closes the page in progress and returns the ordered page list.
    /// Every returned page holds at least one instruction, and a break
    /// still pending adds no page.
    pub fn finish(self) -> (r: Vec<Page>)
        requires
            self.wf(),
        ensures
            r@ == self.spec_finish(),
            forall|i: int| 0 <= i < r@.len() ==> (#[trigger] r@[i].ops@.len()) > 0,
            r@.len() == self.pages@.len() + 1,
            spec_concat_pages(r@) == self.spec_all_ops(),
    {
        proof {
            lemma_concat_pages_push(
                self.pages@,
                Page { width: self.page_width, height: self.page_height, ops: self.current_ops },
            );
        }
        let PageBuilder { mut pages, current_ops, page_width, page_height, .. } = self;
        pages.push(Page { width: page_width, height: page_height, ops: current_ops });
        pages
    }

    /// Does the next line-write open a new page first?
    pub open spec fn spec_write_opens_page(self) -> bool {
        self.pending_break || self.spec_remaining() < self.line_height
    }

    /// The page the next line-write lands on.
    pub open spec fn spec_write_page(self) -> usize {
        if self.spec_write_opens_page() {
            sat_inc(self.page_count)
        } else {
            self.page_count
        }
    }

    /// The cursor position right after the next line-write.
    pub open spec fn spec_write_y(self) -> int {
        if self.spec_write_opens_page() {
            self.line_height as int
        } else {
            self.y + self.line_height
        }
    }

    /// The baseline coordinate the next line-write draws at.
    pub open spec fn spec_write_baseline(self) -> int {
        if self.spec_write_opens_page() {
            self.spec_absolute_y(BASELINE_DROP as int)
        } else {
            self.spec_absolute_y(self.y + BASELINE_DROP)
        }
    }

    /// Common postconditions of every line-write: geometry untouched, the
    /// write landed on the predicted page at the predicted cursor, and the
    /// page list grew exactly when a page was opened.
    pub open spec fn spec_wrote_line(self, new: PageBuilder) -> bool {
        &&& new.wf()
        &&& !new.pending_break
        &&& new.page_width == self.page_width
        &&& new.page_height == self.page_height
        &&& new.margin == self.margin
        &&& new.line_height == self.line_height
        &&& new.start_page == self.start_page
        &&& new.page_count == self.spec_write_page()
        &&& new.y == self.spec_write_y()
        &&& new.last_line_y == new.y - new.line_height
        &&& new.spec_finish().len() == self.spec_finish().len() + (
        if self.spec_write_opens_page() {
            1int
        } else {
            0int
        })
        &&& if self.spec_write_opens_page() {
            new.current_ops@.len() == 2 && is_header_op(
                new.current_ops@[0],
                new.page_count as int,
                self.page_width as int,
                self.page_height as int,
                self.margin as int,
            )
        } else {
            new.current_ops@ == self.current_ops@.push(new.current_ops@.last())
        }
        &&& new.pages@ == if self.spec_write_opens_page() {
            self.spec_finish()
        } else {
            self.pages@
        }
        &&& new.spec_section_cursor() == sc_line(
            self.spec_section_cursor(),
            self.spec_usable_height(),
            self.line_height as int,
        )
        &&& new.spec_link_ops() == self.spec_link_ops()
        &&& self.spec_all_ops().is_prefix_of(new.spec_all_ops())
    }

    /// The proof steps shared by the line-writes: the pushed instruction
    /// is not a link, so the link projection is unchanged and the issued
    /// instructions only grew.
    proof fn lemma_pushed_text_line(pre: PageBuilder, mid: PageBuilder, post: PageBuilder)
        requires
            pre.spec_all_ops().is_prefix_of(mid.spec_all_ops()),
            mid.spec_link_ops() == pre.spec_link_ops(),
            post.pages == mid.pages,
            post.current_ops@.len() == mid.current_ops@.len() + 1,
            post.current_ops@ == mid.current_ops@.push(post.current_ops@.last()),
            !spec_is_link_op(post.current_ops@.last()),
        ensures
            post.spec_link_ops() == pre.spec_link_ops(),
            pre.spec_all_ops().is_prefix_of(post.spec_all_ops()),
            mid.spec_all_ops().is_prefix_of(post.spec_all_ops()),
            post.spec_all_ops().len() == mid.spec_all_ops().len() + 1,
            post.spec_all_ops().last() == post.current_ops@.last(),
    {
        assert(post.spec_all_ops() =~= mid.spec_all_ops().push(post.current_ops@.last()));
        lemma_filter_push_nonlink(mid.spec_all_ops(), post.current_ops@.last());
        assert(post.spec_all_ops().take(mid.spec_all_ops().len() as int) =~= mid.spec_all_ops());
        assert(post.spec_all_ops().take(pre.spec_all_ops().len() as int) =~= pre.spec_all_ops());
    }

    /// Writes one line of spans left-aligned at the margin and advances
    /// the cursor by one line height.
    pub fn write_line(&mut self, spans: Vec<Span>)
        requires
            old(self).wf(),
        ensures
            old(self).spec_wrote_line(*final(self)),
            is_text_line_op(
                final(self).current_ops@.last(),
                old(self).margin as int,
                old(self).spec_write_baseline(),
                spans@,
            ),
            final(self).spec_all_ops().len() > old(self).spec_all_ops().len(),
            final(self).spec_all_ops().last() == final(self).current_ops@.last(),
            !old(self).pending_break && old(self).page_count < usize::MAX ==> final(self)
                .spec_cursor() == write_step(
                old(self).spec_cursor(),
                old(self).spec_usable_height(),
                old(self).line_height as int,
            ),
    {
        let needed = self.line_height;
        self.ensure_space(needed);
        let ghost mid = *self;
        self.last_line_y = self.y;
        let x = self.margin;
        let y = self.baseline();
        self.current_ops.push(PageOp::TextLine { x, y, spans });
        self.y = self.y + self.line_height;
        proof {
            Self::lemma_pushed_text_line(*old(self), mid, *self);
        }
    }

    /// The x position that centers text of width `w_text` on a page of
    /// width `w_page` (flush left when the text is too wide).
    pub open spec fn spec_center_x(w_page: int, w_text: int) -> int {
        if w_text >= w_page {
            0
        } else {
            (w_page - w_text) / 2
        }
    }

    /// Writes one line of spans centered horizontally; advances the
    /// cursor by one line height.
    pub fn write_line_centered(&mut self, spans: Vec<Span>)
        requires
            old(self).wf(),
        ensures
            old(self).spec_wrote_line(*final(self)),
            is_text_line_op(
                final(self).current_ops@.last(),
                Self::spec_center_x(old(self).page_width as int, spec_line_width(spans@)),
                old(self).spec_write_baseline(),
                spans@,
            ),
    {
        let needed = self.line_height;
        self.ensure_space(needed);
        let ghost mid = *self;
        self.last_line_y = self.y;
        let width = line_width_capped(&spans, self.page_width);
        let x = (self.page_width - width) / 2;
        let y = self.baseline();
        self.current_ops.push(PageOp::TextLine { x, y, spans });
        self.y = self.y + self.line_height;
        proof {
            Self::lemma_pushed_text_line(*old(self), mid, *self);
        }
    }

    /// Writes a single centered text run at the given size, advancing the
    /// cursor by the size plus a fixed lead.
    pub fn write_centered(&mut self, text: &str, font: FontVariant, size: u32, color: RgbColor)
        requires
            old(self).wf(),
        ensures
            final(self).wf(),
            !final(self).pending_break,
            final(self).page_width == old(self).page_width,
            final(self).page_height == old(self).page_height,
            final(self).margin == old(self).margin,
            final(self).line_height == old(self).line_height,
            final(self).start_page == old(self).start_page,
            final(self).current_ops@.len() > 0,
            is_text_line_op(
                final(self).current_ops@.last(),
                Self::spec_center_x(
                    old(self).page_width as int,
                    text@.len() * (size as int) * 3 / 5,
                ),
                final(self).spec_absolute_y(final(self).last_line_y + BASELINE_DROP),
                final(self).spec_last_spans(),
            ),
            final(self).spec_last_spans().len() == 1,
            final(self).spec_last_spans()[0].text@ == text@,
            final(self).spec_last_spans()[0].font == font,
            final(self).spec_last_spans()[0].size == size,
            final(self).spec_last_spans()[0].color == color,
            final(self).y == final(self).last_line_y + size + CENTERED_LEAD,
            final(self).spec_finish().len() >= old(self).spec_finish().len(),
            final(self).spec_section_cursor() == sc_centered(
                old(self).spec_section_cursor(),
                old(self).spec_usable_height(),
                size as int,
            ),
            final(self).spec_link_ops() == old(self).spec_link_ops(),
            old(self).spec_all_ops().is_prefix_of(final(self).spec_all_ops()),
            final(self).spec_all_ops().len() > old(self).spec_all_ops().len(),
            final(self).spec_all_ops().last() == final(self).current_ops@.last(),
            old(self).pages@.is_prefix_of(final(self).pages@),
    {
        let needed = (size as u64) + (CENTERED_LEAD as u64);
        self.ensure_space(needed);
        let ghost mid = *self;
        self.last_line_y = self.y;
        let owned = text.to_owned();
        let span = Span { text: owned, font, size, color };
        let mut spans: Vec<Span> = Vec::new();
        spans.push(span);
        let width = line_width_capped(&spans, self.page_width);
        proof {
            assert(spans@.drop_last() =~= Seq::<Span>::empty());
            assert(spec_line_width(Seq::<Span>::empty()) == 0);
            assert(spans@.last() == spans@[0]);
            assert(spec_line_width(spans@) == spec_span_width(spans@[0]));
        }
        let x = (self.page_width - width) / 2;
        let y = self.baseline();
        self.current_ops.push(PageOp::TextLine { x, y, spans });
        self.y = self.y + (size as u64) + (CENTERED_LEAD as u64);
        proof {
            Self::lemma_pushed_text_line(*old(self), mid, *self);
            assert(old(self).pages@.is_prefix_of(self.pages@)) by {
                assert(self.pages@.take(old(self).pages@.len() as int) =~= old(self).pages@);
            }
            assert(self.spec_all_ops() =~= mid.spec_all_ops().push(self.current_ops@.last()));
            assert(self.spec_all_ops().last() == self.current_ops@.last());
        }
    }

    /// The spans of the most recently pushed instruction (empty if it is
    /// not a text line).
    pub open spec fn spec_last_spans(self) -> Seq<Span> {
        match self.current_ops@.last() {
            PageOp::TextLine { spans, .. } => spans@,
            _ => Seq::empty(),
        }
    }

    /// The x position at which a right-aligned group of width `w_text`
    /// starts so it ends flush with the right margin.
    pub open spec fn spec_right_x(self, w_text: int) -> int {
        if w_text >= self.page_width - self.margin {
            0
        } else {
            self.page_width - self.margin - w_text
        }
    }

    /// Writes one line with two groups sharing a baseline: `left` flush
    /// with the left margin, `right` flush with the right margin.
    pub fn write_line_justified(&mut self, left: Vec<Span>, right: Vec<Span>)
        requires
            old(self).wf(),
        ensures
            final(self).wf(),
            !final(self).pending_break,
            final(self).page_width == old(self).page_width,
            final(self).page_height == old(self).page_height,
            final(self).margin == old(self).margin,
            final(self).line_height == old(self).line_height,
            final(self).start_page == old(self).start_page,
            final(self).page_count == old(self).spec_write_page(),
            final(self).y == old(self).spec_write_y(),
            final(self).last_line_y == final(self).y - final(self).line_height,
            final(self).spec_finish().len() == old(self).spec_finish().len() + (
            if old(self).spec_write_opens_page() {
                1int
            } else {
                0int
            }),
            final(self).current_ops@.len() >= 2,
            is_text_line_op(
                final(self).current_ops@[final(self).current_ops@.len() - 2],
                old(self).margin as int,
                old(self).spec_write_baseline(),
                left@,
            ),
            is_text_line_op(
                final(self).current_ops@.last(),
                old(self).spec_right_x(spec_line_width(right@)),
                old(self).spec_write_baseline(),
                right@,
            ),
            final(self).pages@ == if old(self).spec_write_opens_page() {
                old(self).spec_finish()
            } else {
                old(self).pages@
            },
            final(self).spec_section_cursor() == sc_line(
                old(self).spec_section_cursor(),
                old(self).spec_usable_height(),
                old(self).line_height as int,
            ),
            final(self).spec_link_ops() == old(self).spec_link_ops(),
            old(self).spec_all_ops().is_prefix_of(final(self).spec_all_ops()),
            final(self).spec_all_ops().len() > old(self).spec_all_ops().len() + 1,
            final(self).spec_all_ops().last() == final(self).current_ops@.last(),
            ({
                let n = final(self).spec_all_ops().len();
                let m = final(self).current_ops@.len();
                final(self).spec_all_ops()[n - 2] == final(self).current_ops@[m - 2]
            }),
    {
        let needed = self.line_height;
        self.ensure_space(needed);
        let ghost mid = *self;
        self.last_line_y = self.y;
        let y = self.baseline();
        let left_x = self.margin;
        self.current_ops.push(PageOp::TextLine { x: left_x, y, spans: left });
        let ghost mid2 = *self;
        let right_width = line_width_capped(&right, self.page_width);
        let edge = self.page_width - self.margin;
        let right_x = if right_width >= edge {
            0
        } else {
            edge - right_width
        };
        self.current_ops.push(PageOp::TextLine { x: right_x, y, spans: right });
        self.y = self.y + self.line_height;
        proof {
            Self::lemma_pushed_text_line(*old(self), mid, mid2);
            Self::lemma_pushed_text_line(*old(self), mid2, *self);
            assert(self.spec_all_ops() =~= mid2.spec_all_ops().push(self.current_ops@.last()));
            assert(mid2.spec_all_ops() =~= mid.spec_all_ops().push(mid2.current_ops@.last()));
            assert(self.spec_all_ops()[self.spec_all_ops().len() - 2] == mid2.spec_all_ops().last());
            assert(self.current_ops@[self.current_ops@.len() - 2] == mid2.current_ops@.last());
        }
    }

    /// Attaches a clickable region to the most recently written line: the
    /// rectangle spans the usable width, starting at that line's top and
    /// extending `height` downward.
    pub fn add_link(&mut self, height: u64, target: LinkTarget)
        requires
            old(self).wf(),
            height <= MAX_DIM,
        ensures
            *final(self) == (PageBuilder { current_ops: final(self).current_ops, ..*old(self) }),
            final(self).wf(),
            final(self).current_ops@ == old(self).current_ops@.push(
                final(self).current_ops@.last(),
            ),
            final(self).current_ops@.last() matches PageOp::Link {
                x,
                y,
                width,
                height: h,
                target: t,
            } && x == old(self).margin && y == old(self).spec_absolute_y(
                old(self).last_line_y + height,
            ) && width == old(self).spec_usable_width() && h == height && t == target,
            final(self).spec_link_ops() == old(self).spec_link_ops().push(
                final(self).current_ops@.last(),
            ),
            old(self).spec_all_ops().is_prefix_of(final(self).spec_all_ops()),
            final(self).spec_section_cursor() == old(self).spec_section_cursor(),
    {
        let x = self.margin;
        let y = self.to_absolute_y(self.last_line_y + height);
        let width = self.usable_width();
        self.current_ops.push(PageOp::Link { x, y, width, height, target });
        proof {
            assert(self.spec_all_ops() =~= old(self).spec_all_ops().push(
                self.current_ops@.last(),
            ));
            lemma_filter_push_link(old(self).spec_all_ops(), self.current_ops@.last());
            assert(self.spec_all_ops().take(old(self).spec_all_ops().len() as int)
                =~= old(self).spec_all_ops());
        }
    }
}

/// The monospace-model width of `chars` characters at font size
/// `size`, capped at `cap`.
pub fn approx_text_width(chars: usize, size: u32, cap: u64) -> (w: u64)
    requires
        cap <= MAX_DIM,
    ensures
        w as int == min_int((chars as int) * (size as int) * 3 / 5, cap as int),
{
    proof {
        vstd::arithmetic::mul::lemma_mul_nonnegative(chars as int, size as int);
        vstd::arithmetic::mul::lemma_mul_upper_bound(
            chars as int,
            0xffff_ffff_ffff_ffff,
            size as int,
            0xffff_ffff,
        );
        vstd::arithmetic::mul::lemma_mul_upper_bound(
            chars as int * size as int,
            0xffff_ffff_ffff_ffffint * 0xffff_ffffint,
            3,
            3,
        );
    }
    let prod: u128 = (chars as u128) * (size as u128) * 3 / 5;
    if prod >= cap as u128 {
        cap
    } else {
        prod as u64
    }
}

/// The width of `s` under the monospace model, capped at `cap`.
fn span_width_capped(s: &Span, cap: u64) -> (w: u64)
    requires
        cap <= MAX_DIM,
    ensures
        w as int == min_int(spec_span_width(*s), cap as int),
{
    let len = s.text.unicode_len();
    proof {
        vstd::arithmetic::mul::lemma_mul_nonnegative(len as int, s.size as int);
        vstd::arithmetic::mul::lemma_mul_upper_bound(
            len as int,
            0xffff_ffff_ffff_ffff,
            s.size as int,
            0xffff_ffff,
        );
        vstd::arithmetic::mul::lemma_mul_upper_bound(
            len as int * s.size as int,
            0xffff_ffff_ffff_ffffint * 0xffff_ffffint,
            3,
            3,
        );
    }
    let prod: u128 = (len as u128) * (s.size as u128) * 3 / 5;
    if prod >= cap as u128 {
        cap
    } else {
        prod as u64
    }
}

proof fn lemma_span_width_nonneg(s: Span)
    ensures
        spec_span_width(s) >= 0,
{
    vstd::arithmetic::mul::lemma_mul_nonnegative(s.text@.len() as int, s.size as int);
    vstd::arithmetic::mul::lemma_mul_nonnegative(s.text@.len() * (s.size as int), 3);
}

proof fn lemma_line_width_nonneg(spans: Seq<Span>)
    ensures
        spec_line_width(spans) >= 0,
    decreases spans.len(),
{
    if spans.len() > 0 {
        lemma_line_width_nonneg(spans.drop_last());
        lemma_span_width_nonneg(spans.last());
    }
}

/// The approximate width of a whole line, capped at `cap`.
fn line_width_capped(spans: &Vec<Span>, cap: u64) -> (w: u64)
    requires
        cap <= MAX_DIM,
    ensures
        w as int == min_int(spec_line_width(spans@), cap as int),
{
    let mut acc: u64 = 0;
    let mut i: usize = 0;
    proof {
        assert(spans@.take(0) =~= Seq::<Span>::empty());
    }
    while i < spans.len()
        invariant
            cap <= MAX_DIM,
            i <= spans@.len(),
            acc as int == min_int(spec_line_width(spans@.take(i as int)), cap as int),
        decreases spans@.len() - i,
    {
        let w = span_width_capped(&spans[i], cap);
        proof {
            lemma_line_width_nonneg(spans@.take(i as int));
            lemma_span_width_nonneg(spans@[i as int]);
            assert(spans@.take(i + 1).drop_last() =~= spans@.take(i as int));
            assert(spans@.take(i + 1).last() == spans@[i as int]);
        }
        acc = if acc >= cap - w {
            cap
        } else {
            acc + w
        };
        i = i + 1;
    }
    proof {
        assert(spans@.take(spans@.len() as int) =~= spans@);
    }
    acc
}

/// The builder state a section renderer drives, reduced to what decides
/// pagination: the page ordinal, the cursor, how many pages are closed,
/// and whether a break is pending. Every space-consuming operation's
/// contract states its exact transition on this state, so a renderer's
/// whole layout behaviour is a function of its inputs.
pub ghost struct SectionCursor {
    pub page: int,
    pub y: int,
    pub closed: int,
    pub pending: bool,
}

/// `p + 1`, saturating at `usize::MAX`, over mathematical integers.
pub open spec fn sat_inc_int(p: int) -> int {
    if p >= usize::MAX {
        p
    } else {
        p + 1
    }
}

/// Vertical space still open at cursor `c` on a page of usable height
/// `usable`.
pub open spec fn sc_rem(c: SectionCursor, usable: int) -> int {
    if c.y >= usable {
        0
    } else {
        usable - c.y
    }
}

/// Closing the current page and opening the next one.
pub open spec fn sc_open(c: SectionCursor) -> SectionCursor {
    SectionCursor { page: sat_inc_int(c.page), y: 0, closed: c.closed + 1, pending: false }
}

/// Materializing a pending break, if any.
pub open spec fn sc_flush(c: SectionCursor) -> SectionCursor {
    if c.pending {
        sc_open(c)
    } else {
        c
    }
}

/// The `ensure_space` transition: flush, then open a page if `needed`
/// does not fit.
pub open spec fn sc_ensure(c: SectionCursor, usable: int, needed: int) -> SectionCursor {
    let c1 = sc_flush(c);
    if sc_rem(c1, usable) >= needed {
        c1
    } else {
        sc_open(c1)
    }
}

/// One line-write: ensure one line height, advance the cursor.
pub open spec fn sc_line(c: SectionCursor, usable: int, lh: int) -> SectionCursor {
    let c1 = sc_ensure(c, usable, lh);
    SectionCursor { y: c1.y + lh, ..c1 }
}

/// `n` consecutive line-writes.
pub open spec fn sc_lines_n(c: SectionCursor, usable: int, lh: int, n: nat) -> SectionCursor
    decreases n,
{
    if n == 0 {
        c
    } else {
        sc_line(sc_lines_n(c, usable, lh, (n - 1) as nat), usable, lh)
    }
}

/// One standalone centered write: ensure the size plus lead, advance by
/// the same.
pub open spec fn sc_centered(c: SectionCursor, usable: int, size: int) -> SectionCursor {
    let c1 = sc_ensure(c, usable, size + CENTERED_LEAD);
    SectionCursor { y: c1.y + size + CENTERED_LEAD, ..c1 }
}

/// A `vertical_space` transition: the cursor advances (saturating),
/// nothing else moves.
pub open spec fn sc_vspace(c: SectionCursor, amount: int) -> SectionCursor {
    SectionCursor {
        y: if c.y + amount <= Y_CAP {
            c.y + amount
        } else {
            Y_CAP as int
        },
        ..c
    }
}

/// A `page_break` transition: only the pending flag is set.
pub open spec fn sc_break(c: SectionCursor) -> SectionCursor {
    SectionCursor { pending: true, ..c }
}

/// Cursors that agree on everything but the page ordinal. The ordinal
/// never feeds back into any layout decision, so two such cursors stay
/// in step through every transition: a section closes the same number
/// of pages wherever its page numbering starts — the fact that lets a
/// placeholder pass predict a re-render's page count.
pub open spec fn sc_same_shape(a: SectionCursor, b: SectionCursor) -> bool {
    &&& a.y == b.y
    &&& a.closed == b.closed
    &&& a.pending == b.pending
}

/// A line-write keeps same-shaped cursors in step.
pub proof fn lemma_sc_line_same_shape(a: SectionCursor, b: SectionCursor, usable: int, lh: int)
    requires
        sc_same_shape(a, b),
    ensures
        sc_same_shape(sc_line(a, usable, lh), sc_line(b, usable, lh)),
{
}

/// Any run of line-writes keeps same-shaped cursors in step.
pub proof fn lemma_sc_lines_n_same_shape(
    a: SectionCursor,
    b: SectionCursor,
    usable: int,
    lh: int,
    n: nat,
)
    requires
        sc_same_shape(a, b),
    ensures
        sc_same_shape(sc_lines_n(a, usable, lh, n), sc_lines_n(b, usable, lh, n)),
    decreases n,
{
    if n > 0 {
        lemma_sc_lines_n_same_shape(a, b, usable, lh, (n - 1) as nat);
        lemma_sc_line_same_shape(
            sc_lines_n(a, usable, lh, (n - 1) as nat),
            sc_lines_n(b, usable, lh, (n - 1) as nat),
            usable,
            lh,
        );
    }
}

/// A centered write keeps same-shaped cursors in step.
pub proof fn lemma_sc_centered_same_shape(a: SectionCursor, b: SectionCursor, usable: int, size: int)
    requires
        sc_same_shape(a, b),
    ensures
        sc_same_shape(sc_centered(a, usable, size), sc_centered(b, usable, size)),
{
}

/// All instructions of all pages, closed pages first, in order.
pub open spec fn spec_concat_pages(ps: Seq<Page>) -> Seq<PageOp>
    decreases ps.len(),
{
    if ps.len() == 0 {
        Seq::empty()
    } else {
        spec_concat_pages(ps.drop_last()) + ps.last().ops@
    }
}

/// Is `op` a link annotation?
pub open spec fn spec_is_link_op(op: PageOp) -> bool {
    op matches PageOp::Link { .. }
}

pub proof fn lemma_concat_pages_push(ps: Seq<Page>, p: Page)
    ensures
        spec_concat_pages(ps.push(p)) == spec_concat_pages(ps) + p.ops@,
{
    assert(ps.push(p).drop_last() =~= ps);
    assert(ps.push(p).last() == p);
}

/// The first instruction of a non-empty page list whose first page is
/// non-empty is that page's first instruction.
pub proof fn lemma_concat_pages_first(ps: Seq<Page>)
    requires
        ps.len() > 0,
        ps[0].ops@.len() > 0,
    ensures
        spec_concat_pages(ps).len() > 0,
        spec_concat_pages(ps)[0] == ps[0].ops@[0],
    decreases ps.len(),
{
    if ps.len() == 1 {
        assert(ps.drop_last() =~= Seq::<Page>::empty());
        assert(spec_concat_pages(Seq::<Page>::empty()) == Seq::<PageOp>::empty());
        assert(ps.last() == ps[0]);
        assert(spec_concat_pages(ps) =~= ps[0].ops@);
    } else {
        assert(ps.drop_last()[0] == ps[0]);
        lemma_concat_pages_first(ps.drop_last());
    }
}

/// No transition moves the page ordinal backwards: after any run of
/// line-writes the page is at least where it started.
pub proof fn lemma_sc_lines_n_page_mono(c: SectionCursor, usable: int, lh: int, n: nat)
    ensures
        sc_lines_n(c, usable, lh, n).page >= c.page,
        sc_lines_n(c, usable, lh, n).closed >= c.closed,
    decreases n,
{
    if n > 0 {
        lemma_sc_lines_n_page_mono(c, usable, lh, (n - 1) as nat);
    }
}

/// A line-write lands at or past the page that a flush alone would
/// reach, and never before the starting page.
pub proof fn lemma_sc_line_page_mono(c: SectionCursor, usable: int, lh: int)
    ensures
        sc_line(c, usable, lh).page >= sc_flush(c).page,
        sc_line(c, usable, lh).page >= c.page,
        sc_lines_n(c, usable, lh, 1).page >= sc_flush(c).page,
{
    assert(sc_lines_n(c, usable, lh, 1) == sc_line(sc_lines_n(c, usable, lh, 0nat), usable, lh));
}

/// The first instruction ever issued survives to the first page of the
/// finished list: operations only append, and `finish` keeps page
/// order.
pub proof fn lemma_first_op_of_finish(initial_ops: Seq<PageOp>, b: PageBuilder, pages: Seq<Page>)
    requires
        initial_ops.len() > 0,
        initial_ops.is_prefix_of(b.spec_all_ops()),
        pages.len() > 0,
        pages[0].ops@.len() > 0,
        spec_concat_pages(pages) == b.spec_all_ops(),
    ensures
        pages[0].ops@[0] == initial_ops[0],
{
    lemma_concat_pages_first(pages);
}

/// Prefix-of is transitive over instruction sequences.
pub proof fn lemma_prefix_trans(a: Seq<PageOp>, b: Seq<PageOp>, c: Seq<PageOp>)
    requires
        a.is_prefix_of(b),
        b.is_prefix_of(c),
    ensures
        a.is_prefix_of(c),
{
    assert(a =~= c.subrange(0, a.len() as int));
}

/// Appending an instruction that is not a link leaves the link
/// projection unchanged.
pub proof fn lemma_filter_push_nonlink(s: Seq<PageOp>, op: PageOp)
    requires
        !spec_is_link_op(op),
    ensures
        s.push(op).filter(|o: PageOp| spec_is_link_op(o)) == s.filter(
            |o: PageOp| spec_is_link_op(o),
        ),
{
    reveal(Seq::filter);
    assert(s.push(op).drop_last() =~= s);
}

/// Appending a link instruction appends it to the link projection.
pub proof fn lemma_filter_push_link(s: Seq<PageOp>, op: PageOp)
    requires
        spec_is_link_op(op),
    ensures
        s.push(op).filter(|o: PageOp| spec_is_link_op(o)) == s.filter(
            |o: PageOp| spec_is_link_op(o),
        ).push(op),
{
    reveal(Seq::filter);
    assert(s.push(op).drop_last() =~= s);
}

impl PageBuilder {
    /// This builder's state in the section-cursor model.
    pub open spec fn spec_section_cursor(self) -> SectionCursor {
        SectionCursor {
            page: self.page_count as int,
            y: self.y as int,
            closed: self.pages@.len() as int,
            pending: self.pending_break,
        }
    }

    /// Every instruction issued so far: the closed pages' instructions
    /// followed by the page in progress. Operations only ever append
    /// here — instructions, once issued, are never changed.
    pub open spec fn spec_all_ops(self) -> Seq<PageOp> {
        spec_concat_pages(self.pages@) + self.current_ops@
    }

    /// The link annotations issued so far, in order.
    pub open spec fn spec_link_ops(self) -> Seq<PageOp> {
        self.spec_all_ops().filter(|o: PageOp| spec_is_link_op(o))
    }
}

/// One write in the abstract layout model: the cursor state reduced to
/// the page ordinal, the vertical position, and how many pages have been
/// closed so far.
pub ghost struct LayoutCursor {
    pub page: int,
    pub y: int,
    pub closed: int,
}

/// A single line-write in the abstract model: either the line fits and
/// the cursor advances, or the page closes and the line opens the next
/// page.
pub open spec fn write_step(c: LayoutCursor, usable: int, lh: int) -> LayoutCursor {
    if usable - c.y >= lh {
        LayoutCursor { page: c.page, y: c.y + lh, closed: c.closed }
    } else {
        LayoutCursor { page: c.page + 1, y: lh, closed: c.closed + 1 }
    }
}

/// `n` consecutive line-writes in the abstract model.
pub open spec fn write_n(c: LayoutCursor, usable: int, lh: int, n: nat) -> LayoutCursor
    decreases n,
{
    if n == 0 {
        c
    } else {
        write_step(write_n(c, usable, lh, (n - 1) as nat), usable, lh)
    }
}

impl PageBuilder {
    /// This builder's state in the abstract layout model.
    pub open spec fn spec_cursor(self) -> LayoutCursor {
        LayoutCursor {
            page: self.page_count as int,
            y: self.y as int,
            closed: self.pages@.len() as int,
        }
    }
}

/// A deferred break adds nothing to the finished document: the page list
/// `finish` returns after any number of `page_break` calls is exactly the
/// list it would return without them, and every page of it holds at least
/// one instruction. (A break only sets a flag; only a later write
/// materializes it.)
pub proof fn lemma_trailing_breaks_add_no_page(b: PageBuilder)
    requires
        b.wf(),
    ensures
        (PageBuilder { pending_break: true, ..b }).spec_finish() == b.spec_finish(),
        forall|i: int| 0 <= i < b.spec_finish().len() ==> (#[trigger] b.spec_finish()[i].ops@.len())
            > 0,
{
    assert forall|i: int| 0 <= i < b.spec_finish().len() implies (
    #[trigger] b.spec_finish()[i].ops@.len()) > 0 by {
        if i < b.pages@.len() {
            assert(b.pages@[i].ops@.len() > 0);
        }
    }
}

/// Writing `n >= 1` lines into a fresh page of usable height `usable` at
/// line height `lh` closes exactly `(n - 1) / (usable / lh)` pages, so a
/// subsequent `finish` returns `(n - 1) / (usable / lh) + 1` pages — the
/// ceiling of `n` divided by the per-page line capacity. The write that
/// overflows a page is always the one that opens the next page.
pub proof fn lemma_overflow_page_count(usable: int, lh: int, n: nat)
    requires
        1 <= lh <= usable,
        n >= 1,
    ensures
        ({
            let k = usable / lh;
            let c = write_n(LayoutCursor { page: 1, y: 0, closed: 0 }, usable, lh, n);
            &&& c.closed == (n - 1) as int / k
            &&& c.page == 1 + (n - 1) as int / k
            &&& c.y == (((n - 1) as int % k) + 1) * lh
        }),
    decreases n,
{
    let k = usable / lh;
    assert(k >= 1) by {
        vstd::arithmetic::div_mod::lemma_div_is_ordered(lh, usable, lh);
        vstd::arithmetic::div_mod::lemma_div_by_self(lh);
    }
    let c0 = LayoutCursor { page: 1, y: 0, closed: 0 };
    if n == 1 {
        assert(write_n(c0, usable, lh, 0) == c0);
        assert(write_n(c0, usable, lh, 1) == write_step(c0, usable, lh));
        vstd::arithmetic::div_mod::lemma_small_div_converse(0, k);
        vstd::arithmetic::div_mod::lemma_small_mod(0, k as nat);
        assert((0int + 1) * lh == lh) by {
            vstd::arithmetic::mul::lemma_mul_basics(lh);
        }
    } else {
        lemma_overflow_page_count(usable, lh, (n - 1) as nat);
        let m = (n - 2) as int;  // previous write count minus one
        let q = m / k;
        let j = m % k;
        let prev = write_n(c0, usable, lh, (n - 1) as nat);
        assert(write_n(c0, usable, lh, n) == write_step(prev, usable, lh));
        assert(prev.y == (j + 1) * lh);
        assert(0 <= j < k) by {
            vstd::arithmetic::div_mod::lemma_mod_division_less_than_divisor(m, k);
        }
        assert(m == k * q + j) by {
            vstd::arithmetic::div_mod::lemma_fundamental_div_mod(m, k);
        }
        vstd::arithmetic::mul::lemma_mul_is_commutative(k, q);
        assert(q >= 0) by {
            vstd::arithmetic::div_mod::lemma_div_pos_is_pos(m, k);
        }
        // Page capacity: `k * lh <= usable < (k + 1) * lh`.
        vstd::arithmetic::div_mod::lemma_remainder_lower(usable, lh);
        vstd::arithmetic::div_mod::lemma_remainder_upper(usable, lh);
        assert(k * lh <= usable);
        assert(usable - lh < k * lh);
        if j + 2 <= k {
            // The next line still fits on the current page.
            assert((j + 2) * lh <= k * lh) by {
                vstd::arithmetic::mul::lemma_mul_inequality(j + 2, k, lh);
            }
            assert((j + 2) * lh == (j + 1) * lh + lh) by {
                vstd::arithmetic::mul::lemma_mul_is_distributive_add_other_way(lh, j + 1, 1);
                vstd::arithmetic::mul::lemma_mul_basics(lh);
            }
            assert(usable - prev.y >= lh);
            assert((m + 1) == q * k + (j + 1));
            vstd::arithmetic::div_mod::lemma_fundamental_div_mod_converse_div(m + 1, k, q, j + 1);
            vstd::arithmetic::div_mod::lemma_fundamental_div_mod_converse_mod(m + 1, k, q, j + 1);
        } else {
            // j == k - 1: the page is full, this write opens the next page.
            assert(j == k - 1);
            assert((j + 1) * lh == k * lh);
            assert(usable - prev.y < lh);
            assert((q + 1) * k == q * k + k) by {
                vstd::arithmetic::mul::lemma_mul_is_distributive_add_other_way(k, q, 1);
                vstd::arithmetic::mul::lemma_mul_basics(k);
            }
            assert((m + 1) == (q + 1) * k + 0);
            vstd::arithmetic::div_mod::lemma_fundamental_div_mod_converse_div(m + 1, k, q + 1, 0);
            vstd::arithmetic::div_mod::lemma_fundamental_div_mod_converse_mod(m + 1, k, q + 1, 0);
            assert((0int + 1) * lh == lh) by {
                vstd::arithmetic::mul::lemma_mul_basics(lh);
            }
        }
    }
}

/// After `page_break`, `current_page` names exactly the page that the
/// next line-write lands on.
pub proof fn lemma_current_page_predicts_next_write(b: PageBuilder)
    requires
        b.wf(),
        b.pending_break,
    ensures
        b.spec_write_page() as int == b.spec_current_page(),
{
}

} // verus!
