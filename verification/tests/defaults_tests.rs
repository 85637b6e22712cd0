use gitprint::defaults::default_excludes;

fn has(pattern: &str) -> bool {
    default_excludes().iter().any(|p| p == pattern)
}

#[test]
fn default_excludes_has_entries() {
    assert!(default_excludes().len() > 10);
}

#[test]
fn all_patterns_are_valid_globs() {
    for pattern in default_excludes() {
        globset::Glob::new(&pattern).unwrap_or_else(|e| panic!("invalid glob '{pattern}': {e}"));
    }
}

#[test]
fn known_lock_files_present() {
    assert!(has("Cargo.lock"));
    assert!(has("package-lock.json"));
    assert!(has("yarn.lock"));
    assert!(has("poetry.lock"));
    assert!(has("flake.lock"));
}

#[test]
fn known_build_dirs_present() {
    assert!(has("node_modules/**"));
    assert!(has("target/**"));
    assert!(has("dist/**"));
    assert!(has("__pycache__/**"));
}

#[test]
fn known_image_extensions_present() {
    assert!(has("*.png"));
    assert!(has("*.jpg"));
    assert!(has("*.svg"));
}

#[test]
fn known_binary_extensions_present() {
    assert!(has("*.exe"));
    assert!(has("*.wasm"));
    assert!(has("*.zip"));
}

#[test]
fn known_generated_extensions_present() {
    assert!(has("*.min.js"));
    assert!(has("*.min.css"));
    assert!(has("*.map"));
}

#[test]
fn vcs_and_ide_dirs_present() {
    assert!(has(".git/**"));
    assert!(has(".idea/**"));
    assert!(has(".vscode/**"));
    assert!(has(".DS_Store"));
}
