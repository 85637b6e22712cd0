use gitprint::github::{
    auth_header, coalesce_push_events, extract_push_shas, CommitEntry, EventPayload, EventRepo,
    GitHubEvent,
};

#[test]
fn auth_header_some() {
    assert_eq!(auth_header(Some("tok")), Some("Bearer tok".to_string()));
}

#[test]
fn auth_header_none() {
    assert_eq!(auth_header(None), None);
}

fn make_push_event(repo: &str, shas: &[&str]) -> GitHubEvent {
    let mut payload = EventPayload::empty();
    payload.ref_name = Some("refs/heads/main".to_string());
    payload.commits = shas
        .iter()
        .map(|s| CommitEntry { sha: Some(s.to_string()), message: None })
        .collect();
    GitHubEvent {
        kind: "PushEvent".to_string(),
        repo: EventRepo { name: repo.to_string() },
        payload,
        created_at: "2024-03-01T12:00:00Z".to_string(),
    }
}

fn make_watch_event(repo: &str) -> GitHubEvent {
    GitHubEvent {
        kind: "WatchEvent".to_string(),
        repo: EventRepo { name: repo.to_string() },
        payload: EventPayload::empty(),
        created_at: "2024-03-01T00:00:00Z".to_string(),
    }
}

#[test]
fn extract_push_shas_respects_limit() {
    let events = vec![
        make_push_event("alice/a", &["sha1", "sha2", "sha3"]),
        make_push_event("alice/b", &["sha4", "sha5"]),
    ];
    let shas = extract_push_shas(&events, 4);
    assert_eq!(shas.len(), 4);
    assert_eq!(shas[0].repo, "alice/a");
    assert_eq!(shas[0].sha, "sha1");
    assert_eq!(shas[3].repo, "alice/b");
    assert_eq!(shas[3].sha, "sha4");
}

#[test]
fn extract_push_shas_skips_non_push() {
    let events = vec![make_watch_event("alice/a"), make_push_event("alice/b", &["sha1"])];
    let shas = extract_push_shas(&events, 10);
    assert_eq!(shas.len(), 1);
    assert_eq!(shas[0].repo, "alice/b");
}

#[test]
fn extract_push_shas_empty_events() {
    assert!(extract_push_shas(&vec![], 5).is_empty());
}

#[test]
fn extract_push_shas_falls_back_to_head() {
    let mut e = make_push_event("alice/a", &[]);
    e.payload.head = Some("headsha".to_string());
    let shas = extract_push_shas(&vec![e], 5);
    assert_eq!(shas.len(), 1);
    assert_eq!(shas[0].sha, "headsha");
}

#[test]
fn coalesce_keeps_first_push_per_day_branch() {
    let events = vec![
        make_push_event("alice/a", &["sha1"]),
        make_push_event("alice/a", &["sha2"]),
        make_push_event("alice/a", &["sha3"]),
    ];
    let out = coalesce_push_events(events);
    assert_eq!(out.len(), 1);
    assert_eq!(out[0].payload.commits[0].sha, Some("sha1".to_string()));
}

#[test]
fn coalesce_keeps_different_branches_separate() {
    let mut ev2 = make_push_event("alice/a", &["sha2"]);
    ev2.payload.ref_name = Some("refs/heads/dev".to_string());
    let events = vec![make_push_event("alice/a", &["sha1"]), ev2];
    assert_eq!(coalesce_push_events(events).len(), 2);
}

#[test]
fn coalesce_preserves_non_push_events() {
    let events = vec![
        make_watch_event("alice/a"),
        make_push_event("alice/a", &["sha1"]),
        make_push_event("alice/a", &["sha2"]),
    ];
    let out = coalesce_push_events(events);
    assert_eq!(out.len(), 2);
    assert_eq!(out[0].kind, "WatchEvent");
}
