use gitprint::layout::{FontVariant, LinkTarget, PageBuilder, PageOp, Span};
use gitprint::types::RgbColor;

fn black() -> RgbColor {
    RgbColor { r: 0, g: 0, b: 0 }
}

fn span(text: &str) -> Span {
    Span { text: text.to_string(), font: FontVariant::Regular, size: 800, color: black() }
}

/// An A4-like page in centipoints with a 10pt margin and 10pt lines.
fn builder() -> PageBuilder {
    PageBuilder::new(59528, 84189, 1000, 1000, 1)
}

#[test]
fn builder_creates_at_least_one_page() {
    let pages = builder().finish();
    assert_eq!(pages.len(), 1);
}

#[test]
fn write_line_adds_content() {
    let mut b = builder();
    b.write_line(vec![span("hello")]);
    let pages = b.finish();
    assert_eq!(pages.len(), 1);
    assert!(pages[0].ops.len() > 1);
}

#[test]
fn page_break_creates_new_page() {
    let mut b = builder();
    b.write_line(vec![span("page 1")]);
    b.page_break();
    b.write_line(vec![span("page 2")]);
    assert_eq!(b.finish().len(), 2);
}

#[test]
fn trailing_page_break_does_not_add_empty_page() {
    let mut b = builder();
    b.write_line(vec![span("content")]);
    b.page_break();
    assert_eq!(b.finish().len(), 1);
}

#[test]
fn many_trailing_breaks_add_no_page() {
    let mut b = builder();
    b.write_line(vec![span("content")]);
    b.page_break();
    b.page_break();
    b.page_break();
    assert_eq!(b.finish().len(), 1);
}

#[test]
fn write_centered_works() {
    let mut b = builder();
    b.write_centered("Title", FontVariant::Regular, 2800, black());
    assert_eq!(b.finish().len(), 1);
}

#[test]
fn many_lines_cause_page_overflow() {
    let mut b = builder();
    for _ in 0..200 {
        b.write_line(vec![span("line")]);
    }
    assert!(b.finish().len() > 1);
}

#[test]
fn three_lines_on_a_tiny_page_need_two_pages() {
    // Usable height 25pt, line height 10pt: two lines fit the first
    // page, the third opens a second one.
    let mut b = PageBuilder::new(21000, 4500, 1000, 1000, 1);
    for _ in 0..3 {
        b.write_line(vec![span("entry")]);
    }
    assert_eq!(b.finish().len(), 2);
}

#[test]
fn page_count_is_ceiling_of_line_count() {
    // Two lines per page: n lines need ceil(n / 2) pages.
    for n in 1..=500usize {
        let mut b = PageBuilder::new(21000, 4500, 1000, 1000, 1);
        for _ in 0..n {
            b.write_line(vec![span("x")]);
        }
        let expected = (n + 1) / 2;
        assert_eq!(b.finish().len(), expected, "lines {n}");
    }
}

#[test]
fn current_page_predicts_next_write_page() {
    let mut b = PageBuilder::new(21000, 4500, 1000, 1000, 1);
    b.write_line(vec![span("one")]);
    b.page_break();
    let predicted = b.current_page();
    assert_eq!(predicted, 2);
    b.write_line(vec![span("two")]);
    let pages = b.finish();
    assert_eq!(pages.len(), predicted);
}

#[test]
fn current_page_without_pending_break() {
    let mut b = builder();
    assert_eq!(b.current_page(), 1);
    b.write_line(vec![span("x")]);
    assert_eq!(b.current_page(), 1);
    b.page_break();
    assert_eq!(b.current_page(), 2);
}

#[test]
fn starting_page_offsets_the_counter() {
    let mut b = PageBuilder::new(21000, 29700, 1000, 1000, 7);
    assert_eq!(b.current_page(), 7);
    b.write_line(vec![span("x")]);
    b.page_break();
    assert_eq!(b.current_page(), 8);
}

#[test]
fn every_page_holds_instructions() {
    let mut b = PageBuilder::new(21000, 4500, 1000, 1000, 1);
    for _ in 0..9 {
        b.write_line(vec![span("x")]);
    }
    b.page_break();
    for page in b.finish() {
        assert!(!page.ops.is_empty());
    }
}

#[test]
fn add_link_appends_link_op() {
    let mut b = builder();
    b.write_line(vec![span("linked")]);
    b.add_link(1000, LinkTarget::Uri("https://github.com".to_string()));
    let pages = b.finish();
    let last = pages[0].ops.last().unwrap();
    match last {
        PageOp::Link { height, target, .. } => {
            assert_eq!(*height, 1000);
            assert!(matches!(target, LinkTarget::Uri(u) if u == "https://github.com"));
        },
        _ => panic!("expected a link instruction"),
    }
}

#[test]
fn vertical_space_defers_transition() {
    // Pushing the cursor past the page end opens no page by itself;
    // the next write does.
    let mut b = PageBuilder::new(21000, 4500, 1000, 1000, 1);
    b.write_line(vec![span("x")]);
    b.vertical_space(100000);
    assert_eq!(b.current_page(), 1);
    b.write_line(vec![span("y")]);
    assert_eq!(b.finish().len(), 2);
}

#[test]
fn justified_line_places_two_groups() {
    let mut b = builder();
    b.write_line_justified(vec![span("left")], vec![span("right")]);
    let pages = b.finish();
    // Header plus two text groups.
    assert!(pages[0].ops.len() >= 3);
}
