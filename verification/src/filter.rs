//! File filtering: glob-based include/exclude rules (exclude always
//! wins), binary-content detection, and a minified-content heuristic.
//! Glob parsing and matching are done by the `globset` crate behind
//! trusted wrappers; the combination rules are verified here.

use vstd::prelude::*;

use crate::defaults::{default_excludes, spec_default_excludes};
use crate::error::Error;
use crate::text::spec_split;
use crate::text::split_char;

verus! {

/// Declares `globset::Glob`, a single compiled glob pattern.
#[verifier::external_type_specification]
#[verifier::external_body]
pub struct ExGlob(globset::Glob);

/// Declares `globset::GlobSet`, a compiled group of globs.
#[verifier::external_type_specification]
#[verifier::external_body]
pub struct ExGlobSet(globset::GlobSet);

/// Declares `globset::GlobSetBuilder`.
#[verifier::external_type_specification]
#[verifier::external_body]
pub struct ExGlobSetBuilder(globset::GlobSetBuilder);

/// Whether `globset` accepts this pattern's syntax.
pub uninterp spec fn glob_ok(pattern: Seq<char>) -> bool;

/// The pattern a compiled `globset::Glob` was built from.
pub uninterp spec fn glob_pattern(g: globset::Glob) -> Seq<char>;

/// The patterns a `globset::GlobSetBuilder` has collected so far.
pub uninterp spec fn builder_patterns(b: globset::GlobSetBuilder) -> Seq<Seq<char>>;

/// The patterns a compiled `globset::GlobSet` holds.
pub uninterp spec fn globset_patterns(s: globset::GlobSet) -> Seq<Seq<char>>;

/// Whether `globset` can compile this pattern group into one set.
pub uninterp spec fn globset_buildable(patterns: Seq<Seq<char>>) -> bool;

/// Whether the glob `pattern` matches `path`, by `globset`'s matching
/// rules.
pub uninterp spec fn glob_matches(pattern: Seq<char>, path: Seq<char>) -> bool;

/// Do the views of these strings parse as globs, every one of them?
pub open spec fn spec_all_globs_ok(patterns: Seq<Seq<char>>) -> bool {
    forall|i: int| 0 <= i < patterns.len() ==> glob_ok(#[trigger] patterns[i])
}

/// Does some pattern in the group match the path?
pub open spec fn spec_any_match(patterns: Seq<Seq<char>>, path: Seq<char>) -> bool {
    exists|i: int| 0 <= i < patterns.len() && glob_matches(#[trigger] patterns[i], path)
}

/// Relies on `globset::Glob::new`: parses one glob pattern; the error
/// is returned as its display text.
#[verifier::external_body]
fn glob_new(pattern: &str) -> (r: Result<globset::Glob, String>)
    ensures
        r is Ok <==> glob_ok(pattern@),
        r matches Ok(g) ==> glob_pattern(g) == pattern@,
{
    globset::Glob::new(pattern).map_err(|e| format!("{e}"))
}

/// Relies on `globset::GlobSetBuilder::new`: starts with no patterns.
#[verifier::external_body]
fn globset_builder_new() -> (r: globset::GlobSetBuilder)
    ensures
        builder_patterns(r) == Seq::<Seq<char>>::empty(),
{
    globset::GlobSetBuilder::new()
}

/// Relies on `globset::GlobSetBuilder::add`: appends one glob.
#[verifier::external_body]
fn globset_builder_add(b: &mut globset::GlobSetBuilder, g: globset::Glob)
    ensures
        builder_patterns(*final(b)) == builder_patterns(*old(b)).push(glob_pattern(g)),
{
    b.add(g);
}

/// Relies on `globset::GlobSetBuilder::build`: compiles the collected
/// patterns into one set holding exactly those patterns.
#[verifier::external_body]
fn globset_build(b: &globset::GlobSetBuilder) -> (r: Result<globset::GlobSet, String>)
    ensures
        r is Ok <==> globset_buildable(builder_patterns(*b)),
        r matches Ok(s) ==> globset_patterns(s) == builder_patterns(*b),
{
    b.build().map_err(|e| format!("{e}"))
}

/// Relies on `globset::GlobSet::is_match`: true exactly when some glob
/// in the set matches the path.
#[verifier::external_body]
fn globset_is_match(s: &globset::GlobSet, path: &str) -> (r: bool)
    ensures
        r == (exists|i: int|
            0 <= i < globset_patterns(*s).len() && glob_matches(
                #[trigger] globset_patterns(*s)[i],
                path@,
            )),
{
    s.is_match(std::path::Path::new(path))
}

/// Filters file paths based on glob include/exclude patterns.
///
/// Exclude patterns always take precedence over include patterns, and
/// the default excludes are always applied.
pub struct FileFilter {
    pub include_set: Option<globset::GlobSet>,
    pub exclude_set: globset::GlobSet,
}

impl FileFilter {
    /// The include patterns, when any were given.
    pub open spec fn spec_includes(self) -> Option<Seq<Seq<char>>> {
        match self.include_set {
            Some(s) => Some(globset_patterns(s)),
            None => None,
        }
    }

    /// The exclude patterns: the defaults followed by the caller's own.
    pub open spec fn spec_excludes(self) -> Seq<Seq<char>> {
        globset_patterns(self.exclude_set)
    }

    /// Should `path` be in the document: not excluded, and matched by
    /// the includes (or no includes were given)?
    pub open spec fn spec_should_include(self, path: Seq<char>) -> bool {
        &&& !spec_any_match(self.spec_excludes(), path)
        &&& match self.spec_includes() {
            Some(inc) => spec_any_match(inc, path),
            None => true,
        }
    }

    /// Creates a `FileFilter` from include and exclude patterns. An
    /// empty include list admits all files (subject to excludes); the
    /// default excludes are always prepended to the caller's excludes.
    /// Any invalid pattern is reported as a filter error.
    pub fn new(include_patterns: &Vec<String>, exclude_patterns: &Vec<String>) -> (r: Result<
        FileFilter,
        Error,
    >)
        ensures
            r matches Ok(f) ==> {
                &&& f.spec_excludes() == spec_default_excludes() + exclude_patterns.deep_view()
                &&& f.spec_includes() == if include_patterns@.len() == 0 {
                    None::<Seq<Seq<char>>>
                } else {
                    Some(include_patterns.deep_view())
                }
            },
            r matches Err(e) ==> e matches Error::Filter(_),
            // Success exactly when every pattern parses and both glob
            // sets compile.
            (r is Ok) <==> {
                &&& spec_all_globs_ok(include_patterns.deep_view())
                &&& spec_all_globs_ok(exclude_patterns.deep_view())
                &&& spec_all_globs_ok(spec_default_excludes())
                &&& (include_patterns@.len() > 0 ==> globset_buildable(
                    include_patterns.deep_view(),
                ))
                &&& globset_buildable(spec_default_excludes() + exclude_patterns.deep_view())
            },
    {
        let include_set: Option<globset::GlobSet> = if include_patterns.len() == 0 {
            None
        } else {
            let mut b = globset_builder_new();
            let mut i: usize = 0;
            while i < include_patterns.len()
                invariant
                    i <= include_patterns@.len(),
                    builder_patterns(b) == include_patterns.deep_view().take(i as int),
                    spec_all_globs_ok(include_patterns.deep_view().take(i as int)),
                decreases include_patterns@.len() - i,
            {
                match glob_new(include_patterns[i].as_str()) {
                    Ok(g) => {
                        globset_builder_add(&mut b, g);
                        proof {
                            assert(builder_patterns(b) =~= include_patterns.deep_view().take(
                                i + 1,
                            ));
                        }
                    },
                    Err(msg) => {
                        proof {
                            assert(include_patterns.deep_view()[i as int]
                                == include_patterns@[i as int]@);
                            assert(!spec_all_globs_ok(include_patterns.deep_view()));
                        }
                        return Err(Error::Filter(invalid_glob_message(include_patterns[i].as_str(), msg.as_str())));
                    },
                }
                i = i + 1;
            }
            proof {
                assert(include_patterns.deep_view().take(include_patterns@.len() as int)
                    =~= include_patterns.deep_view());
            }
            match globset_build(&b) {
                Ok(s) => Some(s),
                Err(msg) => {
                    return Err(Error::Filter(msg));
                },
            }
        };

        let defaults = default_excludes();
        let mut b = globset_builder_new();
        let mut i: usize = 0;
        while i < defaults.len()
            invariant
                i <= defaults@.len(),
                defaults.deep_view() == spec_default_excludes(),
                builder_patterns(b) == spec_default_excludes().take(i as int),
                spec_all_globs_ok(spec_default_excludes().take(i as int)),
            decreases defaults@.len() - i,
        {
            match glob_new(defaults[i].as_str()) {
                Ok(g) => {
                    globset_builder_add(&mut b, g);
                    proof {
                        assert(builder_patterns(b) =~= spec_default_excludes().take(i + 1));
                    }
                },
                Err(msg) => {
                    proof {
                        assert(defaults.deep_view()[i as int] == defaults@[i as int]@);
                        assert(!spec_all_globs_ok(spec_default_excludes()));
                    }
                    return Err(Error::Filter(invalid_glob_message(defaults[i].as_str(), msg.as_str())));
                },
            }
            i = i + 1;
        }
        proof {
            assert(spec_default_excludes().take(defaults@.len() as int)
                =~= spec_default_excludes());
        }
        let mut i: usize = 0;
        while i < exclude_patterns.len()
            invariant
                i <= exclude_patterns@.len(),
                builder_patterns(b) == spec_default_excludes() + exclude_patterns.deep_view().take(
                    i as int,
                ),
                spec_all_globs_ok(exclude_patterns.deep_view().take(i as int)),
            decreases exclude_patterns@.len() - i,
        {
            match glob_new(exclude_patterns[i].as_str()) {
                Ok(g) => {
                    globset_builder_add(&mut b, g);
                    proof {
                        assert(builder_patterns(b) =~= spec_default_excludes()
                            + exclude_patterns.deep_view().take(i + 1));
                    }
                },
                Err(msg) => {
                    proof {
                        assert(exclude_patterns.deep_view()[i as int]
                            == exclude_patterns@[i as int]@);
                        assert(!spec_all_globs_ok(exclude_patterns.deep_view()));
                    }
                    return Err(Error::Filter(invalid_glob_message(exclude_patterns[i].as_str(), msg.as_str())));
                },
            }
            i = i + 1;
        }
        proof {
            assert(exclude_patterns.deep_view().take(exclude_patterns@.len() as int)
                =~= exclude_patterns.deep_view());
        }
        let exclude_set = match globset_build(&b) {
            Ok(s) => s,
            Err(msg) => {
                return Err(Error::Filter(msg));
            },
        };
        Ok(FileFilter { include_set, exclude_set })
    }

    /// Returns `true` if `path` should be included given the configured
    /// patterns. Exclude patterns always win over include patterns.
    pub fn should_include(&self, path: &str) -> (r: bool)
        ensures
            r == self.spec_should_include(path@),
    {
        if globset_is_match(&self.exclude_set, path) {
            return false;
        }
        match &self.include_set {
            None => true,
            Some(set) => globset_is_match(set, path),
        }
    }

    /// Filters a list of paths, retaining exactly those that pass
    /// [`Self::should_include`], in order.
    pub fn filter_paths(&self, paths: Vec<String>) -> (r: Vec<String>)
        ensures
            r@ == paths@.filter(|p: String| self.spec_should_include(p@)),
    {
        let mut out: Vec<String> = Vec::new();
        let mut i: usize = 0;
        proof {
            reveal(Seq::filter);
            assert(paths@.take(0) =~= Seq::<String>::empty());
        }
        while i < paths.len()
            invariant
                i <= paths@.len(),
                out@ == paths@.take(i as int).filter(|p: String| self.spec_should_include(p@)),
            decreases paths@.len() - i,
        {
            proof {
                reveal(Seq::filter);
                assert(paths@.take(i + 1).drop_last() =~= paths@.take(i as int));
                assert(paths@.take(i + 1).last() == paths@[i as int]);
            }
            let keep = self.should_include(paths[i].as_str());
            if keep {
                out.push(paths[i].clone());
            }
            i = i + 1;
        }
        proof {
            reveal(Seq::filter);
            assert(paths@.take(paths@.len() as int) =~= paths@);
        }
        out
    }
}

/// The message for a pattern `globset` refuses.
fn invalid_glob_message(pattern: &str, detail: &str) -> (r: String)
    ensures
        r@ == "invalid glob pattern '"@ + pattern@ + "': "@ + detail@,
{
    let mut r = String::new();
    r.append("invalid glob pattern '");
    r.append(pattern);
    r.append("': ");
    r.append(detail);
    r
}

/// The byte-order marks that mark a buffer as text.
pub open spec fn spec_has_bom(bytes: Seq<u8>) -> bool {
    ||| spec_bytes_start(bytes, seq![0xefu8, 0xbbu8, 0xbfu8])
    ||| spec_bytes_start(bytes, seq![0x00u8, 0x00u8, 0xfeu8, 0xffu8])
    ||| spec_bytes_start(bytes, seq![0xffu8, 0xfeu8, 0x00u8, 0x00u8])
    ||| spec_bytes_start(bytes, seq![0xfeu8, 0xffu8])
    ||| spec_bytes_start(bytes, seq![0xffu8, 0xfeu8])
}

/// Does the buffer start with this byte prefix?
pub open spec fn spec_bytes_start(bytes: Seq<u8>, prefix: Seq<u8>) -> bool {
    bytes.len() >= prefix.len() && bytes.take(prefix.len() as int) == prefix
}

/// Is the buffer binary: no recognised byte-order mark, and either a
/// zero byte within the first 1024 bytes or a PDF/PNG magic number.
pub open spec fn spec_is_binary(bytes: Seq<u8>) -> bool {
    if spec_has_bom(bytes) {
        false
    } else if exists|i: int| 0 <= i < bytes.len() && i < 1024 && bytes[i] == 0 {
        true
    } else {
        spec_bytes_start(bytes, seq![0x25u8, 0x50u8, 0x44u8, 0x46u8]) || spec_bytes_start(
            bytes,
            seq![0x89u8, 0x50u8, 0x4eu8, 0x47u8],
        )
    }
}

/// Returns `true` if the content appears to be a binary file.
///
/// Relies on `content_inspector::inspect`: a buffer is binary exactly
/// when it carries no byte-order mark and either holds a zero byte in
/// its first 1024 bytes or starts with a PDF or PNG magic number.
#[verifier::external_body]
pub fn is_binary(content: &[u8]) -> (r: bool)
    ensures
        r == spec_is_binary(content@),
{
    content_inspector::inspect(content).is_binary()
}

/// The length of a line once a trailing carriage return is dropped.
pub open spec fn spec_line_len(line: Seq<char>) -> int {
    if line.len() > 0 && line.last() == '\r' {
        line.len() - 1
    } else {
        line.len() as int
    }
}

/// Is the content minified: one of its first five lines is longer than
/// 500 characters?
pub open spec fn spec_is_minified(s: Seq<char>) -> bool {
    exists|i: int|
        0 <= i < spec_split(s, '\n').len() && i < 5 && spec_line_len(
            #[trigger] spec_split(s, '\n')[i],
        ) > 500
}

/// Returns `true` if the content appears to be minified: any of its
/// first five lines exceeds 500 characters, which is characteristic of
/// bundled or minified output.
pub fn is_minified(content: &str) -> (r: bool)
    ensures
        r == spec_is_minified(content@),
{
    let lines = split_char(content, '\n');
    let bound = if lines.len() < 5 {
        lines.len()
    } else {
        5
    };
    let mut i: usize = 0;
    while i < bound
        invariant
            bound <= lines@.len(),
            bound <= 5,
            lines@.len() < 5 ==> bound == lines@.len(),
            lines@.len() >= 5 ==> bound == 5,
            i <= bound,
            lines.deep_view() == spec_split(content@, '\n'),
            forall|j: int|
                0 <= j < i ==> spec_line_len(#[trigger] spec_split(content@, '\n')[j]) <= 500,
        decreases bound - i,
    {
        let line = &lines[i];
        let mut len = line.as_str().unicode_len();
        if len > 0 {
            let last = line.as_str().get_char(len - 1);
            if last == '\r' {
                len = len - 1;
            }
        }
        proof {
            assert(line@ == spec_split(content@, '\n')[i as int]);
            assert(len as int == spec_line_len(line@));
        }
        if len > 500 {
            return true;
        }
        i = i + 1;
    }
    false
}

} // verus!
