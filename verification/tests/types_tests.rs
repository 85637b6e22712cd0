use gitprint::types::{HighlightedLine, HighlightedToken, RepoMetadata, RgbColor};

#[test]
fn test_repo_metadata_clone() {
    let meta = RepoMetadata {
        name: "test".to_string(),
        branch: "main".to_string(),
        commit_hash: "abc123".to_string(),
        commit_hash_short: "abc1234".to_string(),
        commit_date: "2024-01-01".to_string(),
        commit_message: "init".to_string(),
        commit_author: "Alice".to_string(),
        commit_author_email: "alice@example.com".to_string(),
        file_count: 10,
        total_lines: 500,
        fs_owner: None,
        fs_group: None,
        generated_at: "2024-01-15 10:00:00 UTC".to_string(),
        repo_size: "1.2 MB".to_string(),
        fs_size: "1.5 MB".to_string(),
        detected_remote_url: None,
        repo_absolute_path: None,
    };
    let cloned = meta.clone();
    assert_eq!(cloned.name, "test");
    assert_eq!(cloned.file_count, 10);
}

#[test]
fn test_rgb_color_copy() {
    let color = RgbColor { r: 255, g: 128, b: 0 };
    let copied = color;
    assert_eq!(copied.r, 255);
    assert_eq!(copied.g, 128);
    assert_eq!(copied.b, 0);
    // The original stays usable (the type is Copy).
    assert_eq!(color.r, 255);
}

#[test]
fn test_highlighted_line_structure() {
    let line = HighlightedLine {
        line_number: 42,
        tokens: vec![
            HighlightedToken {
                text: "fn".to_string(),
                color: RgbColor { r: 0, g: 0, b: 255 },
                bold: true,
                italic: false,
            },
            HighlightedToken {
                text: " main".to_string(),
                color: RgbColor { r: 0, g: 0, b: 0 },
                bold: false,
                italic: false,
            },
        ],
    };
    assert_eq!(line.line_number, 42);
    assert_eq!(line.tokens.len(), 2);
    assert!(line.tokens[0].bold);
    assert!(!line.tokens[1].bold);
}
