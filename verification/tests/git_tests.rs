use gitprint::git::{is_remote_url, normalize_to_https, repo_name_from_url, resolve_repo_info};

#[test]
fn normalize_https_passthrough() {
    assert_eq!(
        normalize_to_https("https://github.com/user/repo.git"),
        "https://github.com/user/repo.git"
    );
    assert_eq!(normalize_to_https("http://example.com/repo"), "http://example.com/repo");
}

#[test]
fn normalize_scp_style() {
    assert_eq!(
        normalize_to_https("git@github.com:user/repo.git"),
        "https://github.com/user/repo.git"
    );
    assert_eq!(
        normalize_to_https("git@gitlab.com:org/project"),
        "https://gitlab.com/org/project"
    );
}

#[test]
fn normalize_ssh_git_at_style() {
    assert_eq!(
        normalize_to_https("ssh://git@github.com/user/repo.git"),
        "https://github.com/user/repo.git"
    );
}

#[test]
fn normalize_ssh_style() {
    assert_eq!(
        normalize_to_https("ssh://github.com/user/repo.git"),
        "https://github.com/user/repo.git"
    );
}

#[test]
fn is_remote_url_https() {
    assert!(is_remote_url("https://github.com/user/repo"));
    assert!(is_remote_url("https://github.com/user/repo.git"));
    assert!(is_remote_url("http://example.com/repo.git"));
}

#[test]
fn is_remote_url_git_schemes() {
    assert!(is_remote_url("git://github.com/user/repo.git"));
    assert!(is_remote_url("ssh://git@github.com/user/repo.git"));
}

#[test]
fn is_remote_url_scp_style() {
    assert!(is_remote_url("git@github.com:user/repo.git"));
    assert!(is_remote_url("git@gitlab.com:org/repo"));
}

#[test]
fn is_remote_url_rejects_local() {
    assert!(!is_remote_url("/home/user/repo"));
    assert!(!is_remote_url("relative/path"));
    assert!(!is_remote_url("."));
    assert!(!is_remote_url("src/main.rs"));
}

#[test]
fn repo_name_from_url_https() {
    assert_eq!(repo_name_from_url("https://github.com/user/repo.git"), "repo");
    assert_eq!(repo_name_from_url("https://github.com/user/repo"), "repo");
}

#[test]
fn repo_name_from_url_scp() {
    assert_eq!(repo_name_from_url("git@github.com:user/repo.git"), "repo");
    assert_eq!(repo_name_from_url("git@gitlab.com:org/myproject"), "myproject");
}

#[test]
fn parse_commit_log_fields() {
    let out = "abc1234567890\n2024-01-01 12:00:00 +0000\nfix: a thing\nAlice\nalice@example.com\n";
    let log = gitprint::git::parse_commit_log(out);
    assert_eq!(log.commit_hash, "abc1234567890");
    assert_eq!(log.commit_hash_short, "abc1234");
    assert_eq!(log.commit_date, "2024-01-01 12:00:00 +0000");
    assert_eq!(log.commit_message, "fix: a thing");
    assert_eq!(log.commit_author, "Alice");
    assert_eq!(log.commit_author_email, "alice@example.com");
}

#[test]
fn temp_clone_dir_keeps_path() {
    let t = gitprint::git::TempCloneDir::new("/tmp/clone-here".to_string());
    assert_eq!(t.path(), "/tmp/clone-here");
}

#[test]
fn resolve_repo_info_cases() {
    let canonical = "/repo/src/main.rs".to_string();
    let root = "/repo".to_string();
    let rel = "src/main.rs".to_string();
    let parent = "/repo/src".to_string();
    let name = "main.rs".to_string();

    // A file inside a git repo.
    let info = resolve_repo_info(&canonical, true, false, Some(&root), Some(&parent), Some(&name), Some(&rel))
        .unwrap();
    assert_eq!(info.root, "/repo");
    assert!(info.is_git);
    assert_eq!(info.single_file, Some("src/main.rs".to_string()));
    assert_eq!(info.scope, None);

    // A subdirectory inside a git repo.
    let subdir = "/repo/src".to_string();
    let sub_rel = "src".to_string();
    let info = resolve_repo_info(&subdir, false, true, Some(&root), None, None, Some(&sub_rel)).unwrap();
    assert_eq!(info.scope, Some("src".to_string()));
    assert!(info.single_file.is_none());

    // The repo root itself: no scope.
    let info = resolve_repo_info(&root, false, true, Some(&root), None, None, None).unwrap();
    assert!(info.scope.is_none());

    // A plain directory outside git.
    let plain = "/data".to_string();
    let info = resolve_repo_info(&plain, false, true, None, None, None, None).unwrap();
    assert!(!info.is_git);
    assert_eq!(info.root, "/data");

    // A plain file outside git.
    let file = "/data/a.rs".to_string();
    let p = "/data".to_string();
    let n = "a.rs".to_string();
    let info = resolve_repo_info(&file, true, false, None, Some(&p), Some(&n), None).unwrap();
    assert_eq!(info.root, "/data");
    assert_eq!(info.single_file, Some("a.rs".to_string()));

    // A file claimed to be in a repo but outside its root.
    assert!(resolve_repo_info(&file, true, false, Some(&root), Some(&p), Some(&n), None).is_err());
}
