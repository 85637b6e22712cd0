//! The exclude patterns applied to every run: lock files, build
//! output, VCS and IDE metadata, images, fonts, archives and binaries,
//! generated or minified artifacts, and binary data files.

use vstd::prelude::*;

verus! {

/// The default exclude patterns, as glob pattern views.
pub open spec fn spec_default_excludes() -> Seq<Seq<char>> {
    seq![
        "package-lock.json"@,
        "yarn.lock"@,
        "pnpm-lock.yaml"@,
        "Cargo.lock"@,
        "Gemfile.lock"@,
        "composer.lock"@,
        "poetry.lock"@,
        "Pipfile.lock"@,
        "flake.lock"@,
        "node_modules/**"@,
        "target/**"@,
        "dist/**"@,
        "build/**"@,
        ".next/**"@,
        "__pycache__/**"@,
        "*.pyc"@,
        ".git/**"@,
        ".svn/**"@,
        ".idea/**"@,
        ".vscode/**"@,
        "*.swp"@,
        "*.swo"@,
        ".DS_Store"@,
        "*.png"@,
        "*.jpg"@,
        "*.jpeg"@,
        "*.gif"@,
        "*.ico"@,
        "*.svg"@,
        "*.webp"@,
        "*.bmp"@,
        "*.woff"@,
        "*.woff2"@,
        "*.ttf"@,
        "*.otf"@,
        "*.eot"@,
        "*.zip"@,
        "*.tar"@,
        "*.gz"@,
        "*.bz2"@,
        "*.xz"@,
        "*.7z"@,
        "*.rar"@,
        "*.exe"@,
        "*.dll"@,
        "*.so"@,
        "*.dylib"@,
        "*.o"@,
        "*.a"@,
        "*.class"@,
        "*.jar"@,
        "*.war"@,
        "*.wasm"@,
        "*.min.js"@,
        "*.min.css"@,
        "*.map"@,
        "*.bundle.js"@,
        "*.sqlite"@,
        "*.db"@,
        "*.pdf"@,
    ]
}

/// The default exclude patterns, always applied in addition to the
/// caller's own excludes.
pub fn default_excludes() -> (r: Vec<String>)
    ensures
        r.deep_view() == spec_default_excludes(),
        r@.len() == 60,
{
    let mut v: Vec<String> = Vec::new();
    v.push("package-lock.json".to_owned());
    v.push("yarn.lock".to_owned());
    v.push("pnpm-lock.yaml".to_owned());
    v.push("Cargo.lock".to_owned());
    v.push("Gemfile.lock".to_owned());
    v.push("composer.lock".to_owned());
    v.push("poetry.lock".to_owned());
    v.push("Pipfile.lock".to_owned());
    v.push("flake.lock".to_owned());
    v.push("node_modules/**".to_owned());
    v.push("target/**".to_owned());
    v.push("dist/**".to_owned());
    v.push("build/**".to_owned());
    v.push(".next/**".to_owned());
    v.push("__pycache__/**".to_owned());
    v.push("*.pyc".to_owned());
    v.push(".git/**".to_owned());
    v.push(".svn/**".to_owned());
    v.push(".idea/**".to_owned());
    v.push(".vscode/**".to_owned());
    v.push("*.swp".to_owned());
    v.push("*.swo".to_owned());
    v.push(".DS_Store".to_owned());
    v.push("*.png".to_owned());
    v.push("*.jpg".to_owned());
    v.push("*.jpeg".to_owned());
    v.push("*.gif".to_owned());
    v.push("*.ico".to_owned());
    v.push("*.svg".to_owned());
    v.push("*.webp".to_owned());
    v.push("*.bmp".to_owned());
    v.push("*.woff".to_owned());
    v.push("*.woff2".to_owned());
    v.push("*.ttf".to_owned());
    v.push("*.otf".to_owned());
    v.push("*.eot".to_owned());
    v.push("*.zip".to_owned());
    v.push("*.tar".to_owned());
    v.push("*.gz".to_owned());
    v.push("*.bz2".to_owned());
    v.push("*.xz".to_owned());
    v.push("*.7z".to_owned());
    v.push("*.rar".to_owned());
    v.push("*.exe".to_owned());
    v.push("*.dll".to_owned());
    v.push("*.so".to_owned());
    v.push("*.dylib".to_owned());
    v.push("*.o".to_owned());
    v.push("*.a".to_owned());
    v.push("*.class".to_owned());
    v.push("*.jar".to_owned());
    v.push("*.war".to_owned());
    v.push("*.wasm".to_owned());
    v.push("*.min.js".to_owned());
    v.push("*.min.css".to_owned());
    v.push("*.map".to_owned());
    v.push("*.bundle.js".to_owned());
    v.push("*.sqlite".to_owned());
    v.push("*.db".to_owned());
    v.push("*.pdf".to_owned());
    proof {
        assert(v.deep_view() =~= spec_default_excludes());
    }
    v
}

} // verus!
