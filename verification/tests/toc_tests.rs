use gitprint::layout::PageBuilder;
use gitprint::toc::{render, TocEntry};

fn make_entry(path: &str, lines: usize, page: usize) -> TocEntry {
    TocEntry {
        path: path.to_string(),
        line_count: lines,
        size_str: "1.2 KB".to_string(),
        last_modified: "2024-01-15".to_string(),
        start_page: page,
    }
}

fn builder() -> PageBuilder {
    PageBuilder::new(59528, 84189, 1000, 1000, 1)
}

#[test]
fn render_toc_does_not_panic() {
    let mut b = builder();
    let entries = vec![make_entry("src/main.rs", 20, 5), make_entry("src/lib.rs", 50, 7)];
    render(&mut b, &entries);
}

#[test]
fn render_toc_empty_files() {
    let mut b = builder();
    render(&mut b, &vec![]);
}

#[test]
fn render_toc_many_files() {
    let mut b = builder();
    let entries: Vec<TocEntry> =
        (0..100).map(|i| make_entry("src/file.rs", i * 10, i + 5)).collect();
    render(&mut b, &entries);
}

#[test]
fn render_toc_long_path_does_not_panic() {
    let mut b = builder();
    let entries =
        vec![make_entry("src/very/deeply/nested/path/that/is/quite/long/file.rs", 100, 3)];
    render(&mut b, &entries);
}

#[test]
fn dummy_and_real_pass_produce_same_page_count() {
    // Fifty identical-shaped entries: a placeholder pass with page 0
    // and a real pass with page numbers of different digit widths must
    // lay out the same number of pages.
    let dummy: Vec<TocEntry> = (0..50).map(|_| make_entry("src/some/file.rs", 120, 0)).collect();
    let real: Vec<TocEntry> =
        (0..50).map(|i| make_entry("src/some/file.rs", 120, if i % 2 == 0 { 3 } else { 103 })).collect();

    // A small page so the section really paginates.
    let mut b1 = PageBuilder::new(59528, 4500, 1000, 1000, 1);
    render(&mut b1, &dummy);
    let dummy_count = b1.finish().len();

    let mut b2 = PageBuilder::new(59528, 4500, 1000, 1000, 1);
    render(&mut b2, &real);
    let real_count = b2.finish().len();

    assert!(dummy_count > 1);
    assert_eq!(dummy_count, real_count);
}

#[test]
fn toc_meta_width_is_fixed_across_page_numbers() {
    let a = gitprint::toc::toc_meta(&make_entry("src/a.rs", 10, 3));
    let b = gitprint::toc::toc_meta(&make_entry("src/a.rs", 10, 103));
    let c = gitprint::toc::toc_meta(&make_entry("src/a.rs", 10, 99999));
    assert_eq!(a.chars().count(), b.chars().count());
    assert_eq!(a.chars().count(), c.chars().count());
}
