use gitprint::filter::{is_binary, is_minified, FileFilter};

// ── is_minified ────────────────────────────────────────────────────────────

#[test]
fn is_minified_with_long_line() {
    assert!(is_minified(&"x".repeat(501)));
}

#[test]
fn is_minified_with_normal_content() {
    assert!(!is_minified("fn main() {\n    println!(\"hi\");\n}\n"));
}

#[test]
fn is_minified_long_line_after_fifth() {
    let long = "y".repeat(501);
    let content = format!("{}{}", "short\n".repeat(5), long);
    assert!(!is_minified(&content));
}

#[test]
fn is_minified_exactly_500_chars() {
    assert!(!is_minified(&"x".repeat(500)));
}

#[test]
fn is_minified_empty() {
    assert!(!is_minified(""));
}

#[test]
fn is_minified_long_line_on_line_3() {
    let long = "z".repeat(501);
    let content = format!("short\nshort\n{}\nshort\nshort\n", long);
    assert!(is_minified(&content));
}

// ── is_binary ──────────────────────────────────────────────────────────────

#[test]
fn is_binary_with_null_bytes() {
    assert!(is_binary(b"hello\x00world"));
}

#[test]
fn is_binary_with_text() {
    assert!(!is_binary(b"fn main() { println!(\"hello\"); }"));
}

#[test]
fn is_binary_with_empty() {
    assert!(!is_binary(b""));
}

#[test]
fn is_binary_with_utf8() {
    assert!(!is_binary("こんにちは世界".as_bytes()));
}

// ── FileFilter ─────────────────────────────────────────────────────────────

#[test]
fn default_excludes_applied() {
    let filter = FileFilter::new(&vec![], &vec![]).unwrap();
    assert!(!filter.should_include("Cargo.lock"));
    assert!(!filter.should_include("node_modules/foo.js"));
    assert!(!filter.should_include("image.png"));
    assert!(!filter.should_include("target/debug/binary"));
    assert!(!filter.should_include(".git/HEAD"));
    assert!(!filter.should_include("bundle.min.js"));
}

#[test]
fn custom_exclude() {
    let filter = FileFilter::new(&vec![], &vec!["*.md".to_string()]).unwrap();
    assert!(!filter.should_include("README.md"));
    assert!(!filter.should_include("docs/GUIDE.md"));
    assert!(filter.should_include("main.rs"));
}

#[test]
fn include_only() {
    let filter = FileFilter::new(&vec!["*.rs".to_string()], &vec![]).unwrap();
    assert!(filter.should_include("main.rs"));
    assert!(filter.should_include("src/lib.rs"));
    assert!(!filter.should_include("README.md"));
    assert!(!filter.should_include("Cargo.toml"));
}

#[test]
fn include_and_exclude_interaction() {
    let filter =
        FileFilter::new(&vec!["*.rs".to_string()], &vec!["test_*.rs".to_string()]).unwrap();
    assert!(filter.should_include("main.rs"));
    assert!(!filter.should_include("test_helper.rs"));
}

#[test]
fn empty_filter_includes_normal_files() {
    let filter = FileFilter::new(&vec![], &vec![]).unwrap();
    assert!(filter.should_include("src/main.rs"));
    assert!(filter.should_include("Cargo.toml"));
    assert!(filter.should_include("README.md"));
}

#[test]
fn multiple_include_patterns() {
    let filter =
        FileFilter::new(&vec!["*.rs".to_string(), "*.toml".to_string()], &vec![]).unwrap();
    assert!(filter.should_include("main.rs"));
    assert!(filter.should_include("Cargo.toml"));
    assert!(!filter.should_include("README.md"));
}

#[test]
fn multiple_exclude_patterns() {
    let filter =
        FileFilter::new(&vec![], &vec!["*.md".to_string(), "*.txt".to_string()]).unwrap();
    assert!(!filter.should_include("README.md"));
    assert!(!filter.should_include("notes.txt"));
    assert!(filter.should_include("main.rs"));
}

#[test]
fn exclude_takes_precedence_over_include() {
    let filter =
        FileFilter::new(&vec!["*.rs".to_string()], &vec!["main.rs".to_string()]).unwrap();
    assert!(!filter.should_include("main.rs"));
    assert!(filter.should_include("lib.rs"));
}

#[test]
fn filter_paths_works() {
    let filter = FileFilter::new(&vec!["*.rs".to_string()], &vec![]).unwrap();
    let paths = vec!["main.rs".to_string(), "README.md".to_string(), "lib.rs".to_string()];
    let kept = filter.filter_paths(paths);
    assert_eq!(kept, vec!["main.rs".to_string(), "lib.rs".to_string()]);
}

#[test]
fn filter_paths_empty_input() {
    let filter = FileFilter::new(&vec![], &vec![]).unwrap();
    assert!(filter.filter_paths(vec![]).is_empty());
}

#[test]
fn invalid_include_glob_returns_error() {
    assert!(FileFilter::new(&vec!["[invalid".to_string()], &vec![]).is_err());
}

#[test]
fn invalid_exclude_glob_returns_error() {
    assert!(FileFilter::new(&vec![], &vec!["[invalid".to_string()]).is_err());
}

#[test]
fn is_binary_magic_numbers() {
    assert!(is_binary(b"%PDF-1.4 rest of file"));
    assert!(is_binary(b"\x89PNG\r\n"));
}

#[test]
fn is_binary_bom_is_text() {
    // A UTF-16 byte-order mark marks the buffer as text even though it
    // contains zero bytes.
    assert!(!is_binary(b"\xff\xfeh\x00i\x00"));
}
