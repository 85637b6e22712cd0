//! The library's error type: one variant per failure class, each
//! carrying the offending value, plus a conversion from I/O errors.

use vstd::prelude::*;

verus! {

/// Declares `std::io::Error` so it can be carried in [`Error::Io`].
#[verifier::external_type_specification]
#[verifier::external_body]
pub struct ExIoError(std::io::Error);

/// What went wrong, with the offending path, name or message.
#[derive(Debug)]
pub enum Error {
    /// The given path is not a git repository.
    NotARepo(String),
    /// A git command failed with this message.
    Git(String),
    /// The named branch does not exist.
    BranchNotFound(String),
    /// The named commit does not exist.
    CommitNotFound(String),
    /// The named highlighting theme does not exist.
    ThemeNotFound(String),
    /// An include or exclude pattern is invalid.
    Filter(String),
    /// Rendering the document failed.
    Pdf(String),
    /// A font could not be loaded.
    Font(String),
    /// An underlying I/O error.
    Io(std::io::Error),
}

/// Relies on the `Display` impl of `std::io::Error` for the error's text.
#[verifier::external_body]
fn io_error_text(e: &std::io::Error) -> String {
    format!("{e}")
}

impl Error {
    /// The error's message, one line.
    pub fn message(&self) -> (r: String)
        ensures
            self matches Error::NotARepo(p) ==> r@ == "not a git repository: "@ + p@,
            self matches Error::Git(m) ==> r@ == "git command failed: "@ + m@,
            self matches Error::BranchNotFound(b) ==> r@ == "branch not found: "@ + b@,
            self matches Error::CommitNotFound(c) ==> r@ == "commit not found: "@ + c@,
            self matches Error::ThemeNotFound(t) ==> r@ == "theme not found: "@ + t@
                + " (use --list-themes to see available themes)"@,
            self matches Error::Filter(m) ==> r@ == "filter pattern error: "@ + m@,
            self matches Error::Pdf(m) ==> r@ == "pdf generation failed: "@ + m@,
            self matches Error::Font(m) ==> r@ == "font loading failed: "@ + m@,
    {
        match self {
            Error::NotARepo(p) => {
                let mut r = String::new();
                r.append("not a git repository: ");
                r.append(p.as_str());
                r
            },
            Error::Git(m) => {
                let mut r = String::new();
                r.append("git command failed: ");
                r.append(m.as_str());
                r
            },
            Error::BranchNotFound(b) => {
                let mut r = String::new();
                r.append("branch not found: ");
                r.append(b.as_str());
                r
            },
            Error::CommitNotFound(c) => {
                let mut r = String::new();
                r.append("commit not found: ");
                r.append(c.as_str());
                r
            },
            Error::ThemeNotFound(t) => {
                let mut r = String::new();
                r.append("theme not found: ");
                r.append(t.as_str());
                r.append(" (use --list-themes to see available themes)");
                r
            },
            Error::Filter(m) => {
                let mut r = String::new();
                r.append("filter pattern error: ");
                r.append(m.as_str());
                r
            },
            Error::Pdf(m) => {
                let mut r = String::new();
                r.append("pdf generation failed: ");
                r.append(m.as_str());
                r
            },
            Error::Font(m) => {
                let mut r = String::new();
                r.append("font loading failed: ");
                r.append(m.as_str());
                r
            },
            Error::Io(e) => io_error_text(e),
        }
    }
}

impl From<std::io::Error> for Error {
    /// Wraps an I/O error.
    fn from(e: std::io::Error) -> (r: Error) {
        Error::Io(e)
    }
}

impl vstd::std_specs::convert::FromSpecImpl<std::io::Error> for Error {
    open spec fn obeys_from_spec() -> bool {
        true
    }

    open spec fn from_spec(e: std::io::Error) -> Error {
        Error::Io(e)
    }
}

} // verus!
