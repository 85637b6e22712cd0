use gitprint::error::Error;

#[test]
fn display_not_a_repo() {
    let err = Error::NotARepo("/tmp/foo".to_string());
    assert_eq!(err.message(), "not a git repository: /tmp/foo");
}

#[test]
fn display_git_error() {
    let err = Error::Git("fatal: bad revision".to_string());
    assert_eq!(err.message(), "git command failed: fatal: bad revision");
}

#[test]
fn display_branch_not_found() {
    let err = Error::BranchNotFound("feature-x".to_string());
    assert!(err.message().contains("feature-x"));
}

#[test]
fn display_commit_not_found() {
    let err = Error::CommitNotFound("deadbeef".to_string());
    assert!(err.message().contains("deadbeef"));
}

#[test]
fn display_theme_not_found() {
    let err = Error::ThemeNotFound("BadTheme".to_string());
    let msg = err.message();
    assert!(msg.contains("BadTheme"));
    assert!(msg.contains("--list-themes"));
}

#[test]
fn display_filter_error() {
    let err = Error::Filter("invalid glob".to_string());
    assert!(err.message().contains("invalid glob"));
}

#[test]
fn display_pdf_error() {
    let err = Error::Pdf("render failed".to_string());
    assert!(err.message().contains("render failed"));
}

#[test]
fn display_font_error() {
    let err = Error::Font("bad ttf".to_string());
    assert!(err.message().contains("bad ttf"));
}

#[test]
fn io_error_conversion() {
    let io_err = std::io::Error::new(std::io::ErrorKind::NotFound, "file not found");
    let err: Error = io_err.into();
    assert!(matches!(err, Error::Io(_)));
    assert!(err.message().contains("file not found"));
}

#[test]
fn all_variants_are_debug() {
    let variants: Vec<Error> = vec![
        Error::NotARepo("/tmp".into()),
        Error::Git("fail".into()),
        Error::BranchNotFound("x".into()),
        Error::CommitNotFound("x".into()),
        Error::ThemeNotFound("x".into()),
        Error::Filter("x".into()),
        Error::Pdf("x".into()),
        Error::Font("x".into()),
        Error::Io(std::io::Error::other("x")),
    ];
    for v in &variants {
        let debug = format!("{v:?}");
        assert!(!debug.is_empty());
    }
}
