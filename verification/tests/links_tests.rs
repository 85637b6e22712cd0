use gitprint::links::{author_link, commit_link, file_url, github_username_from_email, repo_tree_link};

#[test]
fn commit_link_https() {
    assert_eq!(
        commit_link("https://github.com/user/repo", "abc123"),
        "https://github.com/user/repo/commit/abc123"
    );
}

#[test]
fn repo_tree_link_with_commit() {
    assert_eq!(
        repo_tree_link("https://github.com/user/repo", "abc123"),
        "https://github.com/user/repo/tree/abc123"
    );
}

#[test]
fn repo_tree_link_without_commit_returns_base() {
    assert_eq!(repo_tree_link("https://github.com/user/repo", ""), "https://github.com/user/repo");
}

#[test]
fn author_link_noreply_with_numeric_prefix() {
    assert_eq!(
        author_link("https://github.com/user/repo", "123456+alice@users.noreply.github.com"),
        "https://github.com/alice"
    );
}

#[test]
fn author_link_noreply_without_numeric_prefix() {
    assert_eq!(
        author_link("https://github.com/user/repo", "alice@users.noreply.github.com"),
        "https://github.com/alice"
    );
}

#[test]
fn author_link_regular_email_falls_back_to_search() {
    assert_eq!(
        author_link("https://github.com/user/repo", "alice@example.com"),
        "https://github.com/user/repo/commits?author=alice@example.com"
    );
}

#[test]
fn file_url_absolute_path() {
    assert_eq!(file_url("/home/user/project"), "file:///home/user/project");
}

#[test]
fn github_username_from_noreply_email() {
    assert_eq!(
        github_username_from_email("123456+alice@users.noreply.github.com"),
        Some("alice".to_string())
    );
    assert_eq!(
        github_username_from_email("alice@users.noreply.github.com"),
        Some("alice".to_string())
    );
    assert_eq!(github_username_from_email("alice@example.com"), None);
}
