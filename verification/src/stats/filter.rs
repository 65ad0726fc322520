//! Which files the statistics leave out.

use vstd::prelude::*;
use crate::text;

verus! {

/// The patterns of files that are not counted: build output, binaries,
/// lock files, generated code, media, archives and editor litter.
pub open spec fn ignore_patterns() -> Seq<Seq<char>> {
    seq![
        "*.o"@, "*.so"@, "*.dylib"@, "*.dll"@, "*.exe"@, "*.class"@, "*.pyc"@,
        "*.wasm"@, "*.obj"@, "*.pdb"@,
        "Cargo.lock"@, "package-lock.json"@, "yarn.lock"@, "pnpm-lock.yaml"@,
        "Gemfile.lock"@, "poetry.lock"@, "Pipfile.lock"@, "composer.lock"@,
        "*.generated.*"@, "*.pb.go"@, "*.pb.rs"@,
        "*.png"@, "*.jpg"@, "*.jpeg"@, "*.gif"@, "*.ico"@, "*.svg"@,
        "*.woff"@, "*.woff2"@, "*.ttf"@, "*.eot"@, "*.otf"@,
        "*.mp3"@, "*.mp4"@, "*.webm"@, "*.zip"@, "*.tar"@, "*.gz"@,
        "*.pdf"@, "*.doc"@, "*.docx"@, "*.xls"@, "*.xlsx"@,
        "target/"@, "node_modules/"@, "dist/"@, "build/"@, ".next/"@,
        "__pycache__/"@, "*.egg-info/"@, "vendor/"@,
        ".idea/"@, ".vscode/"@, "*.swp"@, "*.swo"@, "*~"@, ".DS_Store"@,
        ".git/"@, ".svn/"@
    ]
}

fn ignore_pattern_list() -> (v: Vec<&'static str>)
    ensures
        v@.len() == ignore_patterns().len(),
        forall|i: int| 0 <= i < v@.len() ==> (#[trigger] v@[i])@ == ignore_patterns()[i],
{
    let v = vec![
        "*.o", "*.so", "*.dylib", "*.dll", "*.exe", "*.class", "*.pyc",
        "*.wasm", "*.obj", "*.pdb",
        "Cargo.lock", "package-lock.json", "yarn.lock", "pnpm-lock.yaml",
        "Gemfile.lock", "poetry.lock", "Pipfile.lock", "composer.lock",
        "*.generated.*", "*.pb.go", "*.pb.rs",
        "*.png", "*.jpg", "*.jpeg", "*.gif", "*.ico", "*.svg",
        "*.woff", "*.woff2", "*.ttf", "*.eot", "*.otf",
        "*.mp3", "*.mp4", "*.webm", "*.zip", "*.tar", "*.gz",
        "*.pdf", "*.doc", "*.docx", "*.xls", "*.xlsx",
        "target/", "node_modules/", "dist/", "build/", ".next/",
        "__pycache__/", "*.egg-info/", "vendor/",
        ".idea/", ".vscode/", "*.swp", "*.swo", "*~", ".DS_Store",
        ".git/", ".svn/",
    ];
    v
}

/// Whether the (slash-normalised) path `path` falls under pattern `p`:
/// a pattern ending in `/` names a directory anywhere in the path, one
/// starting with `*` a suffix, one holding `/` a fragment, and any other a
/// whole file name.
pub open spec fn pattern_matches(path: Seq<char>, p: Seq<char>) -> bool {
    if p.len() > 0 && p.last() == '/' {
        text::contains_sub(path, p)
    } else if p.len() > 0 && p[0] == '*' {
        text::ends_with(path, p.drop_first())
    } else if p.contains('/') {
        text::contains_sub(path, p)
    } else {
        path == p || text::ends_with(path, seq!['/'] + p)
    }
}

/// `path` with every backslash turned into a slash.
pub open spec fn normalize_separators(path: Seq<char>) -> Seq<char> {
    text::replace_char(path, '\\', seq!['/'])
}

/// Whether the statistics leave out the file at `path`.
pub open spec fn ignored(path: Seq<char>) -> bool {
    ||| path.len() == 0
    ||| path == "-"@
    ||| path == "/dev/null"@
    ||| exists|i: int|
        0 <= i < ignore_patterns().len() && #[trigger] pattern_matches(
            normalize_separators(path),
            ignore_patterns()[i],
        )
}

fn pattern_matches_exec(path: &Vec<char>, p: &Vec<char>) -> (r: bool)
    ensures
        r == pattern_matches(path@, p@),
{
    if p.len() > 0 && p[p.len() - 1] == '/' {
        text::contains_exec(path, p)
    } else if p.len() > 0 && p[0] == '*' {
        let suffix = text::slice_chars(p, 1, p.len());
        assert(suffix@ =~= p@.drop_first());
        text::ends_with_exec(path, &suffix)
    } else if text::has_char(p, '/') {
        text::contains_exec(path, p)
    } else {
        if text::chars_eq(path, p) {
            true
        } else {
            let mut slash_p: Vec<char> = Vec::new();
            slash_p.push('/');
            text::append_chars(&mut slash_p, p);
            assert(slash_p@ =~= seq!['/'] + p@);
            text::ends_with_exec(path, &slash_p)
        }
    }
}

/// Decides whether a file is left out of the statistics.
pub fn should_ignore(path: &str) -> (r: bool)
    ensures
        r == ignored(path@),
{
    let pv = text::chars_of(path);
    if pv.len() == 0 || text::eq_str(&pv, "-") || text::eq_str(&pv, "/dev/null") {
        return true;
    }
    let mut slash: Vec<char> = Vec::new();
    slash.push('/');
    assert(slash@ =~= seq!['/']);
    let normalized = text::replace_char_exec(&pv, '\\', &slash);
    let patterns = ignore_pattern_list();
    let mut i: usize = 0;
    while i < patterns.len()
        invariant
            i <= patterns@.len(),
            patterns@.len() == ignore_patterns().len(),
            forall|k: int| 0 <= k < patterns@.len() ==> (#[trigger] patterns@[k])@ == ignore_patterns()[k],
            normalized@ == normalize_separators(path@),
            forall|k: int| 0 <= k < i ==> !pattern_matches(normalized@, #[trigger] ignore_patterns()[k]),
        decreases patterns.len() - i,
    {
        let pat = text::chars_of(patterns[i]);
        if pattern_matches_exec(&normalized, &pat) {
            return true;
        }
        i = i + 1;
    }
    false
}

} // verus!
