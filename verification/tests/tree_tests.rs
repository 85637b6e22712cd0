use gitprint::tree::Tree;

fn parts(items: &[&str]) -> Vec<String> {
    items.iter().map(|s| s.to_string()).collect()
}

#[test]
fn single_file() {
    let mut tree = Tree::new();
    tree.insert(&parts(&["src", "main.rs"]));
    let lines = tree.to_lines("");
    assert_eq!(lines.len(), 2);
    assert!(lines[0].contains("src"));
    assert!(lines[1].contains("main.rs"));
}

#[test]
fn nested_structure_with_box_drawing() {
    let mut tree = Tree::new();
    tree.insert(&parts(&["src", "main.rs"]));
    tree.insert(&parts(&["src", "lib.rs"]));
    tree.insert(&parts(&["Cargo.toml"]));
    let lines = tree.to_lines("");
    assert!(lines.len() >= 4);
    let joined = lines.join("\n");
    // Branch connector.
    assert!(joined.contains('\u{251C}'));
    // Last-item connector.
    assert!(joined.contains('\u{2514}'));
    // Horizontal bar.
    assert!(joined.contains('\u{2500}'));
}

#[test]
fn empty_tree() {
    let tree = Tree::new();
    assert!(tree.to_lines("").is_empty());
}

#[test]
fn sorted_output() {
    let mut tree = Tree::new();
    tree.insert(&parts(&["z.rs"]));
    tree.insert(&parts(&["a.rs"]));
    tree.insert(&parts(&["m.rs"]));
    let lines = tree.to_lines("");
    assert!(lines[0].contains("a.rs"));
    assert!(lines[1].contains("m.rs"));
    assert!(lines[2].contains("z.rs"));
}

#[test]
fn deep_nesting() {
    let mut tree = Tree::new();
    tree.insert(&parts(&["a", "b", "c", "d", "e.txt"]));
    let lines = tree.to_lines("");
    assert_eq!(lines.len(), 5);
    assert!(lines[0].contains("a"));
    assert!(lines[4].contains("e.txt"));
}

#[test]
fn multiple_files_same_directory() {
    let mut tree = Tree::new();
    tree.insert(&parts(&["src", "a.rs"]));
    tree.insert(&parts(&["src", "b.rs"]));
    tree.insert(&parts(&["src", "c.rs"]));
    let lines = tree.to_lines("");
    // src plus its three files.
    assert_eq!(lines.len(), 4);
}

#[test]
fn sibling_directories() {
    let mut tree = Tree::new();
    tree.insert(&parts(&["src", "main.rs"]));
    tree.insert(&parts(&["tests", "test.rs"]));
    let lines = tree.to_lines("");
    assert_eq!(lines.len(), 4);
    let joined = lines.join("\n");
    assert!(joined.contains("src"));
    assert!(joined.contains("tests"));
}

#[test]
fn prefix_propagation() {
    let mut tree = Tree::new();
    tree.insert(&parts(&["a", "b", "c.txt"]));
    tree.insert(&parts(&["a", "d.txt"]));
    let lines = tree.to_lines("");
    // Deeper lines carry longer prefixes.
    assert!(lines.last().unwrap().len() > lines.first().unwrap().len() || lines.len() >= 2);
}

#[test]
fn last_item_uses_corner_connector() {
    let mut tree = Tree::new();
    tree.insert(&parts(&["only.txt"]));
    let lines = tree.to_lines("");
    assert_eq!(lines.len(), 1);
    assert!(lines[0].contains('\u{2514}'));
}

#[test]
fn render_does_not_panic() {
    let mut builder = gitprint::layout::PageBuilder::new(21000, 29700, 1000, 1000, 1);
    let paths = vec![
        "src/main.rs".to_string(),
        "src/lib.rs".to_string(),
        "Cargo.toml".to_string(),
    ];
    gitprint::tree::render(&mut builder, &paths);
    assert!(!builder.finish().is_empty());
}

#[test]
fn inserting_twice_changes_nothing() {
    let mut once = Tree::new();
    once.insert(&parts(&["src", "main.rs"]));
    once.insert(&parts(&["src", "lib.rs"]));
    let before = once.to_lines("");
    once.insert(&parts(&["src", "main.rs"]));
    assert_eq!(once.to_lines(""), before);
}
