//! Plain data types shared across the engine: colors, highlighted text,
//! repository metadata, paper sizes, and report configuration.

use vstd::prelude::*;

verus! {

/// An RGB color value.
#[derive(Debug, Clone, Copy, PartialEq, Eq, Structural)]
pub struct RgbColor {
    pub r: u8,
    pub g: u8,
    pub b: u8,
}

/// A single syntax-highlighted token with styling information.
#[derive(Debug, Clone)]
pub struct HighlightedToken {
    pub text: String,
    pub color: RgbColor,
    pub bold: bool,
    pub italic: bool,
}

/// A line of syntax-highlighted tokens.
#[derive(Debug, Clone)]
pub struct HighlightedLine {
    pub line_number: usize,
    pub tokens: Vec<HighlightedToken>,
}

/// Activity filter for the user report event feed.
#[derive(Debug, Clone, Copy, PartialEq, Eq, Structural)]
pub enum ActivityFilter {
    /// Show all event types (pushes, PRs, issues, stars, and so on).
    All,
    /// Show only push events (commits to repos).
    Commits,
}

/// Paper size for the rendered document.
#[derive(Debug, Clone, Copy, PartialEq, Eq, Structural)]
pub enum PaperSize {
    A4,
    Letter,
    Legal,
}

/// Metadata extracted from a git repository. All fields are plain strings
/// or counters; empty strings stand for absent values.
#[derive(Debug, Clone)]
pub struct RepoMetadata {
    pub name: String,
    pub branch: String,
    pub commit_hash: String,
    pub commit_hash_short: String,
    pub commit_date: String,
    pub commit_message: String,
    pub commit_author: String,
    /// Email address of the last committer.
    pub commit_author_email: String,
    pub file_count: usize,
    pub total_lines: usize,
    /// Filesystem owner of the input path (local paths only).
    pub fs_owner: Option<String>,
    /// Filesystem group of the input path (local paths only).
    pub fs_group: Option<String>,
    /// UTC timestamp when this document was generated.
    pub generated_at: String,
    /// Human-readable size of the git-tracked content (e.g. "4.2 MB").
    pub repo_size: String,
    /// Human-readable filesystem disk usage of the input path.
    pub fs_size: String,
    /// Remote URL detected from git config, used for links even when the
    /// caller supplied no explicit remote.
    pub detected_remote_url: Option<String>,
    /// Absolute filesystem path to the repo root (local repos only).
    pub repo_absolute_path: Option<String>,
}

} // verus!
