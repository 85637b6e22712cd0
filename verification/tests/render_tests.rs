use gitprint::assemble::{
    all_pages, assemble_document, paper_dimensions_tenth_mm, render_single_file, DocOptions,
    ProcessedFile,
};
use gitprint::layout::PageBuilder;
use gitprint::types::{HighlightedLine, HighlightedToken, PaperSize, RepoMetadata, RgbColor};

fn opts() -> DocOptions {
    DocOptions {
        page_width: 59528,
        page_height: 84189,
        margin: 1000,
        line_height: 1000,
        font_size: 800,
        show_line_numbers: true,
        toc: true,
        file_tree: true,
    }
}

fn test_metadata() -> RepoMetadata {
    RepoMetadata {
        name: "test-repo".into(),
        branch: "main".into(),
        commit_hash: "abc1234567890abcdef1234567890abcdef123456".into(),
        commit_hash_short: "abc1234".into(),
        commit_date: "2024-01-01 12:00:00 +0000".into(),
        commit_message: "initial commit".into(),
        commit_author: "Alice Dev".into(),
        commit_author_email: "alice@example.com".into(),
        file_count: 5,
        total_lines: 100,
        fs_owner: Some("alice".into()),
        fs_group: Some("staff".into()),
        generated_at: "2024-01-15 10:00:00 UTC".into(),
        repo_size: "1.2 MB".into(),
        fs_size: "1.5 MB".into(),
        detected_remote_url: None,
        repo_absolute_path: None,
    }
}

fn empty_metadata() -> RepoMetadata {
    RepoMetadata {
        name: String::new(),
        branch: String::new(),
        commit_hash: String::new(),
        commit_hash_short: String::new(),
        commit_date: String::new(),
        commit_message: String::new(),
        commit_author: String::new(),
        commit_author_email: String::new(),
        file_count: 0,
        total_lines: 0,
        fs_owner: None,
        fs_group: None,
        generated_at: String::new(),
        repo_size: String::new(),
        fs_size: String::new(),
        detected_remote_url: None,
        repo_absolute_path: None,
    }
}

fn builder() -> PageBuilder {
    PageBuilder::new(59528, 84189, 1000, 1000, 1)
}

fn sample_lines() -> Vec<HighlightedLine> {
    vec![
        HighlightedLine {
            line_number: 1,
            tokens: vec![HighlightedToken {
                text: "fn main() {}".into(),
                color: RgbColor { r: 0, g: 0, b: 0 },
                bold: false,
                italic: false,
            }],
        },
        HighlightedLine {
            line_number: 2,
            tokens: vec![HighlightedToken {
                text: "// comment".into(),
                color: RgbColor { r: 100, g: 100, b: 100 },
                bold: false,
                italic: true,
            }],
        },
    ]
}

// ── Cover ─────────────────────────────────────────────────────────────────

#[test]
fn render_cover_does_not_panic() {
    let mut b = builder();
    gitprint::cover::render(&mut b, &test_metadata(), None);
    assert!(!b.finish().is_empty());
}

#[test]
fn render_cover_with_remote_url() {
    let mut b = builder();
    let url = "https://github.com/user/repo".to_string();
    gitprint::cover::render(&mut b, &test_metadata(), Some(&url));
    assert!(!b.finish().is_empty());
}

#[test]
fn render_cover_with_detected_remote_url() {
    let mut b = builder();
    let mut meta = test_metadata();
    meta.detected_remote_url = Some("https://github.com/user/local-repo".into());
    gitprint::cover::render(&mut b, &meta, None);
    assert!(!b.finish().is_empty());
}

#[test]
fn render_cover_with_local_path_file_url() {
    let mut b = builder();
    let mut meta = test_metadata();
    meta.repo_absolute_path = Some("/home/user/myproject".to_string());
    gitprint::cover::render(&mut b, &meta, None);
    assert!(!b.finish().is_empty());
}

#[test]
fn render_cover_remote_takes_precedence_over_local_path() {
    let mut b = builder();
    let mut meta = test_metadata();
    meta.repo_absolute_path = Some("/home/user/myproject".to_string());
    let url = "https://github.com/user/repo".to_string();
    gitprint::cover::render(&mut b, &meta, Some(&url));
    assert!(!b.finish().is_empty());
}

#[test]
fn render_cover_with_empty_metadata() {
    let mut b = builder();
    gitprint::cover::render(&mut b, &empty_metadata(), None);
}

#[test]
fn render_cover_with_commit_message_is_linked() {
    let mut b = builder();
    let url = "https://github.com/user/repo.git".to_string();
    gitprint::cover::render(&mut b, &test_metadata(), Some(&url));
    assert!(!b.finish().is_empty());
}

// ── Per-file content ──────────────────────────────────────────────────────

#[test]
fn render_file_does_not_panic() {
    let mut b = builder();
    gitprint::code::render_file(
        &mut b,
        "test.rs",
        &sample_lines(),
        2,
        true,
        800,
        "2 lines \u{00B7} 24 B \u{00B7} 2025-01-15",
        None,
    );
}

#[test]
fn render_file_empty_iterator() {
    let mut b = builder();
    gitprint::code::render_file(&mut b, "empty.rs", &vec![], 0, true, 800, "0 lines \u{00B7} 0 B", None);
}

#[test]
fn render_file_without_line_numbers() {
    let mut b = builder();
    gitprint::code::render_file(
        &mut b,
        "test.rs",
        &sample_lines(),
        2,
        false,
        800,
        "2 lines \u{00B7} 24 B \u{00B7} 2025-01-15",
        None,
    );
}

#[test]
fn render_file_with_header_url() {
    let mut b = builder();
    let url = "https://github.com/user/repo/blob/abc123/src/main.rs".to_string();
    gitprint::code::render_file(
        &mut b,
        "src/main.rs",
        &sample_lines(),
        2,
        true,
        800,
        "2 lines \u{00B7} 24 B \u{00B7} 2025-01-15",
        Some(&url),
    );
}

#[test]
fn render_file_many_lines() {
    let mut b = builder();
    let lines: Vec<HighlightedLine> = (1..=100)
        .map(|i| HighlightedLine {
            line_number: i,
            tokens: vec![HighlightedToken {
                text: format!("line {i}"),
                color: RgbColor { r: 0, g: 0, b: 0 },
                bold: false,
                italic: false,
            }],
        })
        .collect();
    gitprint::code::render_file(
        &mut b,
        "big.rs",
        &lines,
        100,
        true,
        800,
        "100 lines \u{00B7} 1.2 KB \u{00B7} 2025-01-15",
        None,
    );
}

// ── Assembly protocol ─────────────────────────────────────────────────────

fn one_line_file(path: &str, n: usize) -> ProcessedFile {
    ProcessedFile {
        path: path.to_string(),
        lines: (1..=n)
            .map(|i| HighlightedLine {
                line_number: i,
                tokens: vec![HighlightedToken {
                    text: format!("line {i}"),
                    color: RgbColor { r: 0, g: 0, b: 0 },
                    bold: false,
                    italic: false,
                }],
            })
            .collect(),
        line_count: n,
        size_str: "1.0 KB".to_string(),
        last_modified: "2024-01-15".to_string(),
    }
}

#[test]
fn assemble_orders_sections_and_resolves_pages() {
    let files = vec![one_line_file("a.rs", 5), one_line_file("b.rs", 200), one_line_file("c.rs", 3)];
    let doc = assemble_document(files, &test_metadata(), None, None, &opts());
    let cover = doc.cover_pages.len();
    let toc = doc.toc_pages.len();
    let tree = doc.tree_pages.len();
    assert!(cover >= 1 && toc >= 1 && tree >= 1);
    // The first file starts right after cover, table of contents and tree.
    assert_eq!(doc.toc_entries.len(), 3);
    assert_eq!(doc.toc_entries[0].start_page, cover + toc + tree + 1);
    // Entries start on increasing pages.
    assert!(doc.toc_entries[0].start_page <= doc.toc_entries[1].start_page);
    assert!(doc.toc_entries[1].start_page <= doc.toc_entries[2].start_page);
    let total = cover + toc + tree + doc.content_pages.len();
    let pages = all_pages(doc);
    assert_eq!(pages.len(), total);
    for page in &pages {
        assert!(!page.ops.is_empty());
    }
}

#[test]
fn assemble_without_toc_and_tree() {
    let files = vec![one_line_file("a.rs", 5)];
    let mut o = opts();
    o.toc = false;
    o.file_tree = false;
    let doc = assemble_document(files, &test_metadata(), None, None, &o);
    assert!(doc.toc_pages.is_empty());
    assert!(doc.tree_pages.is_empty());
    assert_eq!(doc.toc_entries[0].start_page, doc.cover_pages.len() + 1);
}

#[test]
fn assemble_empty_file_list() {
    let doc = assemble_document(vec![], &test_metadata(), None, None, &opts());
    assert!(doc.toc_entries.is_empty());
    assert!(!all_pages(doc).is_empty());
}

#[test]
fn single_file_document() {
    let pages = render_single_file(&one_line_file("main.rs", 4), None, &opts());
    assert_eq!(pages.len(), 1);
    assert!(!pages[0].ops.is_empty());
}

// ── Paper sizes ───────────────────────────────────────────────────────────

#[test]
fn paper_dimensions_a4() {
    let (w, h) = paper_dimensions_tenth_mm(PaperSize::A4, false);
    assert_eq!(w, 2100);
    assert_eq!(h, 2970);
}

#[test]
fn paper_dimensions_letter() {
    let (w, h) = paper_dimensions_tenth_mm(PaperSize::Letter, false);
    assert_eq!(w, 2159);
    assert_eq!(h, 2794);
}

#[test]
fn paper_dimensions_landscape() {
    let (w, h) = paper_dimensions_tenth_mm(PaperSize::A4, true);
    assert_eq!(w, 2970);
    assert_eq!(h, 2100);
}

#[test]
fn separator_line_fills_width() {
    // Usable width 45pt at size 7.5pt: each character is about 4.5pt
    // wide, so the rule is ten characters long.
    let b = PageBuilder::new(4700, 29700, 100, 1000, 1);
    let sep = gitprint::cover::separator_line(&b, 750);
    assert_eq!(sep.chars().count(), 10);
}

#[test]
fn toc_meta_shows_fixed_width_page_field() {
    let entry = gitprint::toc::TocEntry {
        path: "src/a.rs".to_string(),
        line_count: 12,
        size_str: "1.2 KB".to_string(),
        last_modified: "2024-01-15".to_string(),
        start_page: 7,
    };
    assert_eq!(
        gitprint::toc::toc_meta(&entry),
        "p.    7  12 LOC \u{00B7} 1.2 KB \u{00B7} 2024-01-15"
    );
}

#[test]
fn assemble_passes_predict_rerender_page_counts() {
    let files = vec![one_line_file("a.rs", 5), one_line_file("dir/b.rs", 50)];
    let doc = assemble_document(files, &test_metadata(), None, None, &opts());
    assert_eq!(doc.toc_pages.len(), doc.toc_pass_count);
    assert_eq!(doc.tree_pages.len(), doc.tree_pass_count);
}

#[test]
fn assemble_passes_predict_counts_on_long_toc() {
    let mut files = Vec::new();
    for i in 0..120 {
        files.push(one_line_file(&format!("src/module_{i}/file_{i}.rs"), i + 1));
    }
    let doc = assemble_document(files, &test_metadata(), None, None, &opts());
    assert!(doc.toc_pages.len() > 1);
    assert_eq!(doc.toc_pages.len(), doc.toc_pass_count);
    assert_eq!(doc.tree_pages.len(), doc.tree_pass_count);
    // Every entry still starts where the seeding arithmetic said.
    let base = doc.cover_pages.len() + doc.toc_pass_count + doc.tree_pass_count + 1;
    assert_eq!(doc.toc_entries[0].start_page, base);
}
