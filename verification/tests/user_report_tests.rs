use gitprint::assemble::DocOptions;
use gitprint::github::{
    CommitAuthor, CommitDetail, CommitEntry, CommitFile, CommitInfo, EventPayload, EventRepo,
    GitHubEvent, GitHubRepo, GitHubUser,
};
use gitprint::layout::PageBuilder;
use gitprint::user_activity::describe_event;
use gitprint::user_report::{filter_active_repos, filter_pushed_repos, RepoCommitDetail};

fn builder() -> PageBuilder {
    PageBuilder::new(59528, 84189, 1000, 1000, 1)
}

fn opts() -> DocOptions {
    DocOptions {
        page_width: 59528,
        page_height: 84189,
        margin: 1000,
        line_height: 1000,
        font_size: 800,
        show_line_numbers: true,
        toc: true,
        file_tree: true,
    }
}

fn test_user() -> GitHubUser {
    GitHubUser {
        login: "alice".to_string(),
        name: Some("Alice Dev".to_string()),
        bio: Some("Rust enthusiast".to_string()),
        location: Some("Berlin".to_string()),
        company: Some("Acme Corp".to_string()),
        blog: Some("https://alice.dev".to_string()),
        email: Some("alice@example.com".to_string()),
        public_repos: 42,
        followers: 100,
        following: 50,
        created_at: "2018-03-15T10:00:00Z".to_string(),
        html_url: "https://github.com/alice".to_string(),
    }
}

fn test_repo(name: &str, stars: u64) -> GitHubRepo {
    GitHubRepo {
        name: name.to_string(),
        full_name: format!("alice/{name}"),
        html_url: format!("https://github.com/alice/{name}"),
        description: Some(format!("{name} — a great project")),
        language: Some("Rust".to_string()),
        stargazers_count: stars,
        forks_count: 10,
        pushed_at: Some("2024-03-01T00:00:00Z".to_string()),
        updated_at: Some("2024-03-02T00:00:00Z".to_string()),
        fork: false,
        open_issues_count: 3,
        size: 2048,
        created_at: Some("2020-06-15T00:00:00Z".to_string()),
    }
}

fn push_event() -> GitHubEvent {
    let mut payload = EventPayload::empty();
    payload.ref_name = Some("refs/heads/main".to_string());
    payload.commits = vec![
        CommitEntry { sha: None, message: Some("fix: correct typo".to_string()) },
        CommitEntry { sha: None, message: Some("feat: add feature".to_string()) },
    ];
    GitHubEvent {
        kind: "PushEvent".to_string(),
        repo: EventRepo { name: "alice/myrepo".to_string() },
        payload,
        created_at: "2024-03-01T12:00:00Z".to_string(),
    }
}

fn pr_event() -> GitHubEvent {
    let mut payload = EventPayload::empty();
    payload.action = Some("opened".to_string());
    payload.pr_number = Some(42);
    payload.pr_title = Some("Add dark mode".to_string());
    GitHubEvent {
        kind: "PullRequestEvent".to_string(),
        repo: EventRepo { name: "alice/myrepo".to_string() },
        payload,
        created_at: "2024-03-01T11:00:00Z".to_string(),
    }
}

#[test]
fn capitalise_works() {
    assert_eq!(gitprint::text::capitalise("opened"), "Opened");
    assert_eq!(gitprint::text::capitalise(""), "");
    assert_eq!(gitprint::text::capitalise("x"), "X");
}

#[test]
fn describe_push_event() {
    let desc = describe_event(&push_event());
    // The size field is absent, so the count falls back to the listed commits.
    assert!(desc.main.contains("Pushed 2 commits"));
    assert!(desc.main.contains("alice/myrepo"));
    assert!(desc.main.contains("main"));
    assert_eq!(desc.detail.len(), 2);
}

#[test]
fn describe_pr_event() {
    let desc = describe_event(&pr_event());
    assert!(desc.main.contains("Opened PR #42"));
    assert!(desc.main.contains("Add dark mode"));
}

#[test]
fn render_activity_does_not_panic() {
    let mut b = builder();
    gitprint::user_activity::render(&mut b, &vec![push_event(), pr_event()]);
    assert!(!b.finish().is_empty());
}

#[test]
fn render_activity_empty_is_noop() {
    let mut b = builder();
    let page_before = b.current_page();
    gitprint::user_activity::render(&mut b, &vec![]);
    assert_eq!(b.current_page(), page_before);
}

#[test]
fn render_user_cover_does_not_panic() {
    let mut b = builder();
    gitprint::user_cover::render(&mut b, &test_user(), 1337);
    assert!(!b.finish().is_empty());
}

#[test]
fn render_user_cover_no_name() {
    let mut b = builder();
    let mut user = test_user();
    user.name = None;
    gitprint::user_cover::render(&mut b, &user, 0);
    assert!(!b.finish().is_empty());
}

#[test]
fn render_user_cover_minimal_fields() {
    let mut b = builder();
    let user = GitHubUser {
        login: "bob".to_string(),
        name: None,
        bio: None,
        location: None,
        company: None,
        blog: None,
        email: None,
        public_repos: 0,
        followers: 0,
        following: 0,
        created_at: "2020-01-01T00:00:00Z".to_string(),
        html_url: "https://github.com/bob".to_string(),
    };
    gitprint::user_cover::render(&mut b, &user, 0);
    assert!(!b.finish().is_empty());
}

#[test]
fn render_repos_does_not_panic() {
    let mut b = builder();
    let repos = vec![test_repo("gitprint", 500), test_repo("another", 200)];
    gitprint::user_repos::render(&mut b, "Top Starred Repositories", &repos, &vec![], &vec![]);
    assert!(!b.finish().is_empty());
}

#[test]
fn render_repos_empty_is_noop() {
    let mut b = builder();
    let before = b.current_page();
    gitprint::user_repos::render(&mut b, "Top Repos", &vec![], &vec![], &vec![]);
    assert_eq!(b.current_page(), before);
}

#[test]
fn render_fork_repo_shows_tag() {
    let mut b = builder();
    let mut repo = test_repo("forked", 1);
    repo.fork = true;
    gitprint::user_repos::render(&mut b, "Forks", &vec![repo], &vec![], &vec![]);
    assert!(!b.finish().is_empty());
}

#[test]
fn render_repos_with_activity_event_context() {
    let mut b = builder();
    let mut watch_payload = EventPayload::empty();
    watch_payload.ref_name = None;
    let watch = GitHubEvent {
        kind: "WatchEvent".to_string(),
        repo: EventRepo { name: "alice/gitprint".to_string() },
        payload: watch_payload,
        created_at: "2024-03-01T09:00:00Z".to_string(),
    };
    let repos = vec![test_repo("gitprint", 42)];
    gitprint::user_repos::render(&mut b, "Repos You Were Active In", &repos, &vec![watch], &vec![]);
    assert!(!b.finish().is_empty());
}

#[test]
fn render_repos_with_push_event_context() {
    let mut b = builder();
    let mut payload = EventPayload::empty();
    payload.ref_name = Some("refs/heads/main".to_string());
    payload.commits = vec![
        CommitEntry { sha: None, message: Some("fix: typo".to_string()) },
        CommitEntry { sha: None, message: Some("feat: add feature".to_string()) },
    ];
    payload.size = Some(2);
    let push = GitHubEvent {
        kind: "PushEvent".to_string(),
        repo: EventRepo { name: "alice/gitprint".to_string() },
        payload,
        created_at: "2024-03-01T09:00:00Z".to_string(),
    };
    let repos = vec![test_repo("gitprint", 100)];
    gitprint::user_repos::render(&mut b, "Recently Pushed", &repos, &vec![push], &vec![]);
    assert!(!b.finish().is_empty());
}

#[test]
fn pushed_repos_filtered_by_events() {
    let push = push_event();  // alice/myrepo
    let kept = filter_pushed_repos(
        &vec![push],
        vec![test_repo("myrepo", 1), test_repo("other", 2)],
    );
    assert_eq!(kept.len(), 1);
    assert_eq!(kept[0].name, "myrepo");
}

#[test]
fn pushed_repos_fall_back_without_events() {
    let kept = filter_pushed_repos(&vec![], vec![test_repo("a", 1), test_repo("b", 2)]);
    assert_eq!(kept.len(), 2);
}

#[test]
fn active_repos_exclude_pushed_ones() {
    let watch = GitHubEvent {
        kind: "WatchEvent".to_string(),
        repo: EventRepo { name: "alice/b".to_string() },
        payload: EventPayload::empty(),
        created_at: "2024-03-01T00:00:00Z".to_string(),
    };
    let pushed = vec![test_repo("a", 1)];
    let kept = filter_active_repos(
        &vec![watch],
        &pushed,
        vec![test_repo("a", 1), test_repo("b", 2)],
    );
    assert_eq!(kept.len(), 1);
    assert_eq!(kept[0].name, "b");
}

#[test]
fn full_user_report_produces_pages() {
    let detail = RepoCommitDetail {
        repo: "alice/myrepo".to_string(),
        detail: CommitDetail {
            sha: "abc1234567890".to_string(),
            html_url: "https://github.com/alice/myrepo/commit/abc1234".to_string(),
            commit: CommitInfo {
                message: "fix: correct off-by-one error\n\nDetails.".to_string(),
                author: CommitAuthor {
                    name: "Alice".to_string(),
                    date: "2024-03-01T12:00:00Z".to_string(),
                },
            },
            files: vec![CommitFile {
                filename: "src/lib.rs".to_string(),
                status: "modified".to_string(),
                additions: 2,
                deletions: 1,
                patch: Some("@@ -10,7 +10,8 @@\n context\n-old\n+new\n+added".to_string()),
            }],
        },
    };
    let pages = gitprint::user_report::render_user_report(
        &test_user(),
        &vec![test_repo("starred", 10)],
        &vec![test_repo("active", 5)],
        &vec![test_repo("pushed", 3)],
        &vec![push_event(), pr_event()],
        &vec![detail],
        &opts(),
    );
    assert!(!pages.is_empty());
    for page in &pages {
        assert!(!page.ops.is_empty());
    }
}

#[test]
fn render_commit_with_patch_does_not_panic() {
    let mut b = builder();
    let detail = CommitDetail {
        sha: "abc1234567890".to_string(),
        html_url: "https://github.com/alice/repo/commit/abc1234".to_string(),
        commit: CommitInfo {
            message: "fix: correct off-by-one error\n\nDetailed description.".to_string(),
            author: CommitAuthor {
                name: "Alice".to_string(),
                date: "2024-03-01T12:00:00Z".to_string(),
            },
        },
        files: vec![CommitFile {
            filename: "src/lib.rs".to_string(),
            status: "modified".to_string(),
            additions: 2,
            deletions: 1,
            patch: Some(
                "@@ -10,7 +10,8 @@\n context line\n-old line\n+new line\n+added line".to_string(),
            ),
        }],
    };
    let branch = "main".to_string();
    gitprint::diff::render_commit(&mut b, &detail, "alice/repo", Some(&branch), 800);
    assert!(!b.finish().is_empty());
}

#[test]
fn render_commit_without_patch_shows_placeholder() {
    let mut b = builder();
    let detail = CommitDetail {
        sha: "abc1234567890".to_string(),
        html_url: "https://github.com/alice/repo/commit/abc1234".to_string(),
        commit: CommitInfo {
            message: "docs: update".to_string(),
            author: CommitAuthor {
                name: "Alice".to_string(),
                date: "2024-03-01T12:00:00Z".to_string(),
            },
        },
        files: vec![CommitFile {
            filename: "README.md".to_string(),
            status: "modified".to_string(),
            additions: 1,
            deletions: 0,
            patch: None,
        }],
    };
    gitprint::diff::render_commit(&mut b, &detail, "alice/repo", None, 800);
    assert!(!b.finish().is_empty());
}

#[test]
fn render_commit_no_files() {
    let mut b = builder();
    let detail = CommitDetail {
        sha: "abc1234567890".to_string(),
        html_url: "https://github.com/alice/repo/commit/abc1234".to_string(),
        commit: CommitInfo {
            message: "chore: empty".to_string(),
            author: CommitAuthor {
                name: "Alice".to_string(),
                date: "2024-03-01T12:00:00Z".to_string(),
            },
        },
        files: vec![],
    };
    let branch = "dev".to_string();
    gitprint::diff::render_commit(&mut b, &detail, "alice/repo", Some(&branch), 800);
    assert!(!b.finish().is_empty());
}
