//! The languages of a repository's files and their share of its size.

use vstd::prelude::*;
use crate::order;
use crate::repo::LanguageStat;
use crate::text;

verus! {

// ---------------------------------------------------------------------------
// Tracked files
// ---------------------------------------------------------------------------

/// The non-empty pieces of `ls-files -z` output, in order.
pub open spec fn nonempty_pieces(ps: Seq<Seq<char>>, n: nat) -> Seq<Seq<char>>
    decreases n,
{
    if n == 0 {
        Seq::<Seq<char>>::empty()
    } else {
        let prev = nonempty_pieces(ps, (n - 1) as nat);
        if ps[n - 1].len() > 0 {
            prev.push(ps[n - 1])
        } else {
            prev
        }
    }
}

pub open spec fn tracked_paths(output: Seq<char>) -> Seq<Seq<char>> {
    let ps = text::split_on(output, '\0');
    nonempty_pieces(ps, ps.len())
}

/// The paths that `ls-files -z` printed.
pub fn ls_files_paths(output: &str) -> (r: Vec<String>)
    ensures
        r@.map_values(|s: String| s@) == tracked_paths(output@),
{
    let ps = text::split_on_exec(&text::chars_of(output), '\0');
    let ghost all = text::split_on(output@, '\0');
    let mut out: Vec<String> = Vec::new();
    let mut i: usize = 0;
    while i < ps.len()
        invariant
            i <= ps@.len(),
            ps@.len() == all.len(),
            forall|k: int| 0 <= k < ps@.len() ==> (#[trigger] ps@[k])@ == all[k],
            out@.map_values(|s: String| s@) == nonempty_pieces(all, i as nat),
        decreases ps.len() - i,
    {
        if ps[i].len() > 0 {
            let ghost before = out@;
            out.push(text::string_of(&ps[i]));
            assert(out@.map_values(|s: String| s@) =~= before.map_values(|s: String| s@).push(
                ps@[i as int]@,
            ));
        }
        i = i + 1;
    }
    out
}

// ---------------------------------------------------------------------------
// Languages
// ---------------------------------------------------------------------------

/// The index of the last `.` of `s`, or -1.
pub open spec fn last_dot(s: Seq<char>) -> int
    decreases s.len(),
{
    if s.len() == 0 {
        -1
    } else if s.last() == '.' {
        s.len() - 1
    } else {
        last_dot(s.drop_last())
    }
}

proof fn lemma_last_dot(s: Seq<char>)
    ensures
        -1 <= last_dot(s) < s.len(),
        last_dot(s) >= 0 ==> s[last_dot(s)] == '.',
        forall|j: int| last_dot(s) < j < s.len() ==> s[j] != '.',
    decreases s.len(),
{
    if s.len() > 0 && s.last() != '.' {
        lemma_last_dot(s.drop_last());
        assert forall|j: int| last_dot(s) < j < s.len() implies s[j] != '.' by {
            if j < s.len() - 1 {
                assert(s[j] == s.drop_last()[j]);
            }
        }
    }
}

/// The extension of a file name, as `Path::extension` gives it: the text
/// after the last `.`, unless there is none, the only one starts the
/// name, or the name is `..`.
pub open spec fn extension_of(name: Seq<char>) -> Option<Seq<char>> {
    let d = last_dot(name);
    if name == ".."@ || d <= 0 {
        None
    } else {
        Some(name.skip(d + 1))
    }
}

fn extension_exec(name: &Vec<char>) -> (r: Option<Vec<char>>)
    ensures
        match extension_of(name@) {
            Some(e) => r matches Some(v) && v@ == e,
            None => r is None,
        },
{
    proof {
        lemma_last_dot(name@);
    }
    if text::eq_str(name, "..") {
        return None;
    }
    let mut d: usize = name.len();
    while d > 0 && name[d - 1] != '.'
        invariant
            d <= name@.len(),
            forall|j: int| d <= j < name@.len() ==> name@[j] != '.',
        decreases d,
    {
        d = d - 1;
    }
    proof {
        if d > 0 {
            assert(last_dot(name@) == d - 1);
        } else {
            assert(last_dot(name@) == -1) by {
                if last_dot(name@) >= 0 {
                    assert(name@[last_dot(name@)] == '.');
                }
            }
        }
    }
    if d <= 1 {
        None
    } else {
        let e = text::slice_chars(name, d, name.len());
        assert(e@ =~= name@.skip(d as int));
        Some(e)
    }
}

/// The language of a file, from its lowercased extension, or else from
/// its lowercased name.
pub open spec fn language_name(ext: Seq<char>, name: Seq<char>) -> Seq<char> {
    if ext == "rs"@ {
        "Rust"@
    } else if ext == "ts"@ || ext == "tsx"@ {
        "TypeScript"@
    } else if ext == "js"@ || ext == "jsx"@ || ext == "mjs"@ || ext == "cjs"@ {
        "JavaScript"@
    } else if ext == "py"@ {
        "Python"@
    } else if ext == "go"@ {
        "Go"@
    } else if ext == "java"@ {
        "Java"@
    } else if ext == "kt"@ || ext == "kts"@ {
        "Kotlin"@
    } else if ext == "c"@ || ext == "h"@ {
        "C"@
    } else if ext == "cc"@ || ext == "cpp"@ || ext == "cxx"@ || ext == "hpp"@ {
        "C++"@
    } else if ext == "cs"@ {
        "C#"@
    } else if ext == "rb"@ {
        "Ruby"@
    } else if ext == "php"@ {
        "PHP"@
    } else if ext == "swift"@ {
        "Swift"@
    } else if ext == "dart"@ {
        "Dart"@
    } else if ext == "vue"@ {
        "Vue"@
    } else if ext == "svelte"@ {
        "Svelte"@
    } else if ext == "html"@ || ext == "htm"@ {
        "HTML"@
    } else if ext == "css"@ || ext == "scss"@ || ext == "sass"@ || ext == "less"@ {
        "CSS"@
    } else if ext == "json"@ {
        "JSON"@
    } else if ext == "yml"@ || ext == "yaml"@ {
        "YAML"@
    } else if ext == "toml"@ {
        "TOML"@
    } else if ext == "xml"@ {
        "XML"@
    } else if ext == "md"@ || ext == "mdx"@ {
        "Markdown"@
    } else if ext == "sql"@ {
        "SQL"@
    } else if ext == "sh"@ || ext == "bash"@ || ext == "zsh"@ || ext == "ps1"@ {
        "Shell"@
    } else if name == "dockerfile"@ || name == "makefile"@ {
        "Build scripts"@
    } else {
        "Other"@
    }
}

fn is_one_of(v: &Vec<char>, a: &str, b: &str) -> (r: bool)
    ensures
        r == (v@ == a@ || v@ == b@),
{
    text::eq_str(v, a) || text::eq_str(v, b)
}

fn language_name_exec(ext: &Vec<char>, name: &Vec<char>) -> (r: &'static str)
    ensures
        r@ == language_name(ext@, name@),
{
    let e = ext;
    if text::eq_str(e, "rs") {
        "Rust"
    } else if is_one_of(e, "ts", "tsx") {
        "TypeScript"
    } else if is_one_of(e, "js", "jsx") || is_one_of(e, "mjs", "cjs") {
        "JavaScript"
    } else if text::eq_str(e, "py") {
        "Python"
    } else if text::eq_str(e, "go") {
        "Go"
    } else if text::eq_str(e, "java") {
        "Java"
    } else if is_one_of(e, "kt", "kts") {
        "Kotlin"
    } else if is_one_of(e, "c", "h") {
        "C"
    } else if is_one_of(e, "cc", "cpp") || is_one_of(e, "cxx", "hpp") {
        "C++"
    } else if text::eq_str(e, "cs") {
        "C#"
    } else if text::eq_str(e, "rb") {
        "Ruby"
    } else if text::eq_str(e, "php") {
        "PHP"
    } else if text::eq_str(e, "swift") {
        "Swift"
    } else if text::eq_str(e, "dart") {
        "Dart"
    } else if text::eq_str(e, "vue") {
        "Vue"
    } else if text::eq_str(e, "svelte") {
        "Svelte"
    } else if is_one_of(e, "html", "htm") {
        "HTML"
    } else if is_one_of(e, "css", "scss") || is_one_of(e, "sass", "less") {
        "CSS"
    } else if text::eq_str(e, "json") {
        "JSON"
    } else if is_one_of(e, "yml", "yaml") {
        "YAML"
    } else if text::eq_str(e, "toml") {
        "TOML"
    } else if text::eq_str(e, "xml") {
        "XML"
    } else if is_one_of(e, "md", "mdx") {
        "Markdown"
    } else if text::eq_str(e, "sql") {
        "SQL"
    } else if is_one_of(e, "sh", "bash") || is_one_of(e, "zsh", "ps1") {
        "Shell"
    } else if is_one_of(name, "dockerfile", "makefile") {
        "Build scripts"
    } else {
        "Other"
    }
}

/// The language of a file whose name (the final component of its path) is
/// `file_name`, `None` when the path has none.
pub open spec fn language_of_name(file_name: Option<Seq<char>>) -> Seq<char> {
    let n = match file_name {
        Some(n) => n,
        None => Seq::<char>::empty(),
    };
    let e = match file_name {
        Some(n) => match extension_of(n) {
            Some(e) => e,
            None => Seq::<char>::empty(),
        },
        None => Seq::<char>::empty(),
    };
    language_name(text::ascii_lower_str(e), text::ascii_lower_str(n))
}

/// The language of a file, by the ASCII-lowercased extension of its name,
/// follows this table: rs Rust; ts, tsx TypeScript; js, jsx, mjs, cjs
/// JavaScript; py Python; go Go; java Java; kt, kts Kotlin; c, h C; cc,
/// cpp, cxx, hpp C++; cs C#; rb Ruby; php PHP; swift Swift; dart Dart; vue
/// Vue; svelte Svelte; html, htm HTML; css, scss, sass, less CSS; json
/// JSON; yml, yaml YAML; toml TOML; xml XML; md, mdx Markdown; sql SQL;
/// sh, bash, zsh, ps1 Shell. Any other file is "Build scripts" when its
/// lowercased name is `dockerfile` or `makefile`, and "Other" otherwise.
pub proof fn lemma_language_table(name: Seq<char>)
    ensures
        ({
            let e = match extension_of(name) {
                Some(x) => text::ascii_lower_str(x),
                None => Seq::<char>::empty(),
            };
            let n = text::ascii_lower_str(name);
            &&& e == "rs"@ ==> language_of_name(Some(name)) == "Rust"@
            &&& e == "ts"@ || e == "tsx"@ ==> language_of_name(Some(name)) == "TypeScript"@
            &&& e == "js"@ || e == "jsx"@ || e == "mjs"@ || e == "cjs"@ ==> language_of_name(Some(name)) == "JavaScript"@
            &&& e == "py"@ ==> language_of_name(Some(name)) == "Python"@
            &&& e == "go"@ ==> language_of_name(Some(name)) == "Go"@
            &&& e == "java"@ ==> language_of_name(Some(name)) == "Java"@
            &&& e == "kt"@ || e == "kts"@ ==> language_of_name(Some(name)) == "Kotlin"@
            &&& e == "c"@ || e == "h"@ ==> language_of_name(Some(name)) == "C"@
            &&& e == "cc"@ || e == "cpp"@ || e == "cxx"@ || e == "hpp"@ ==> language_of_name(Some(name)) == "C++"@
            &&& e == "cs"@ ==> language_of_name(Some(name)) == "C#"@
            &&& e == "rb"@ ==> language_of_name(Some(name)) == "Ruby"@
            &&& e == "php"@ ==> language_of_name(Some(name)) == "PHP"@
            &&& e == "swift"@ ==> language_of_name(Some(name)) == "Swift"@
            &&& e == "dart"@ ==> language_of_name(Some(name)) == "Dart"@
            &&& e == "vue"@ ==> language_of_name(Some(name)) == "Vue"@
            &&& e == "svelte"@ ==> language_of_name(Some(name)) == "Svelte"@
            &&& e == "html"@ || e == "htm"@ ==> language_of_name(Some(name)) == "HTML"@
            &&& e == "css"@ || e == "scss"@ || e == "sass"@ || e == "less"@ ==> language_of_name(Some(name)) == "CSS"@
            &&& e == "json"@ ==> language_of_name(Some(name)) == "JSON"@
            &&& e == "yml"@ || e == "yaml"@ ==> language_of_name(Some(name)) == "YAML"@
            &&& e == "toml"@ ==> language_of_name(Some(name)) == "TOML"@
            &&& e == "xml"@ ==> language_of_name(Some(name)) == "XML"@
            &&& e == "md"@ || e == "mdx"@ ==> language_of_name(Some(name)) == "Markdown"@
            &&& e == "sql"@ ==> language_of_name(Some(name)) == "SQL"@
            &&& e == "sh"@ || e == "bash"@ || e == "zsh"@ || e == "ps1"@ ==> language_of_name(Some(name)) == "Shell"@
            &&& (e != "rs"@ && e != "ts"@ && e != "tsx"@ && e != "js"@ && e != "jsx"@ && e != "mjs"@ && e != "cjs"@ && e != "py"@ && e != "go"@ && e != "java"@ && e != "kt"@ && e != "kts"@ && e != "c"@ && e != "h"@ && e != "cc"@ && e != "cpp"@ && e != "cxx"@ && e != "hpp"@ && e != "cs"@ && e != "rb"@ && e != "php"@ && e != "swift"@ && e != "dart"@ && e != "vue"@ && e != "svelte"@ && e != "html"@ && e != "htm"@ && e != "css"@ && e != "scss"@ && e != "sass"@ && e != "less"@ && e != "json"@ && e != "yml"@ && e != "yaml"@ && e != "toml"@ && e != "xml"@ && e != "md"@ && e != "mdx"@ && e != "sql"@ && e != "sh"@ && e != "bash"@ && e != "zsh"@ && e != "ps1"@) ==> language_of_name(Some(name)) == (if n == "dockerfile"@ || n == "makefile"@ {
                "Build scripts"@
            } else {
                "Other"@
            })
        }),
{
    let e = match extension_of(name) {
        Some(x) => text::ascii_lower_str(x),
        None => Seq::<char>::empty(),
    };
    assert(text::ascii_lower_str(Seq::<char>::empty()) =~= Seq::<char>::empty());
    lemma_language_name_cases(e, text::ascii_lower_str(name));
}

proof fn lemma_language_name_cases(ext: Seq<char>, nm: Seq<char>)
    ensures
        ({
            let e = ext;
            let n = nm;
            &&& e == "rs"@ ==> language_name(ext, nm) == "Rust"@
            &&& e == "ts"@ || e == "tsx"@ ==> language_name(ext, nm) == "TypeScript"@
            &&& e == "js"@ || e == "jsx"@ || e == "mjs"@ || e == "cjs"@ ==> language_name(ext, nm) == "JavaScript"@
            &&& e == "py"@ ==> language_name(ext, nm) == "Python"@
            &&& e == "go"@ ==> language_name(ext, nm) == "Go"@
            &&& e == "java"@ ==> language_name(ext, nm) == "Java"@
            &&& e == "kt"@ || e == "kts"@ ==> language_name(ext, nm) == "Kotlin"@
            &&& e == "c"@ || e == "h"@ ==> language_name(ext, nm) == "C"@
            &&& e == "cc"@ || e == "cpp"@ || e == "cxx"@ || e == "hpp"@ ==> language_name(ext, nm) == "C++"@
            &&& e == "cs"@ ==> language_name(ext, nm) == "C#"@
            &&& e == "rb"@ ==> language_name(ext, nm) == "Ruby"@
            &&& e == "php"@ ==> language_name(ext, nm) == "PHP"@
            &&& e == "swift"@ ==> language_name(ext, nm) == "Swift"@
            &&& e == "dart"@ ==> language_name(ext, nm) == "Dart"@
            &&& e == "vue"@ ==> language_name(ext, nm) == "Vue"@
            &&& e == "svelte"@ ==> language_name(ext, nm) == "Svelte"@
            &&& e == "html"@ || e == "htm"@ ==> language_name(ext, nm) == "HTML"@
            &&& e == "css"@ || e == "scss"@ || e == "sass"@ || e == "less"@ ==> language_name(ext, nm) == "CSS"@
            &&& e == "json"@ ==> language_name(ext, nm) == "JSON"@
            &&& e == "yml"@ || e == "yaml"@ ==> language_name(ext, nm) == "YAML"@
            &&& e == "toml"@ ==> language_name(ext, nm) == "TOML"@
            &&& e == "xml"@ ==> language_name(ext, nm) == "XML"@
            &&& e == "md"@ || e == "mdx"@ ==> language_name(ext, nm) == "Markdown"@
            &&& e == "sql"@ ==> language_name(ext, nm) == "SQL"@
            &&& e == "sh"@ || e == "bash"@ || e == "zsh"@ || e == "ps1"@ ==> language_name(ext, nm) == "Shell"@
            &&& (e != "rs"@ && e != "ts"@ && e != "tsx"@ && e != "js"@ && e != "jsx"@ && e != "mjs"@ && e != "cjs"@ && e != "py"@ && e != "go"@ && e != "java"@ && e != "kt"@ && e != "kts"@ && e != "c"@ && e != "h"@ && e != "cc"@ && e != "cpp"@ && e != "cxx"@ && e != "hpp"@ && e != "cs"@ && e != "rb"@ && e != "php"@ && e != "swift"@ && e != "dart"@ && e != "vue"@ && e != "svelte"@ && e != "html"@ && e != "htm"@ && e != "css"@ && e != "scss"@ && e != "sass"@ && e != "less"@ && e != "json"@ && e != "yml"@ && e != "yaml"@ && e != "toml"@ && e != "xml"@ && e != "md"@ && e != "mdx"@ && e != "sql"@ && e != "sh"@ && e != "bash"@ && e != "zsh"@ && e != "ps1"@) ==> language_name(ext, nm) == (if n == "dockerfile"@ || n == "makefile"@ {
                "Build scripts"@
            } else {
                "Other"@
            })
        }),
{
    reveal_strlit("Build scripts");
    reveal_strlit("C");
    reveal_strlit("C#");
    reveal_strlit("C++");
    reveal_strlit("CSS");
    reveal_strlit("Dart");
    reveal_strlit("Go");
    reveal_strlit("HTML");
    reveal_strlit("JSON");
    reveal_strlit("Java");
    reveal_strlit("JavaScript");
    reveal_strlit("Kotlin");
    reveal_strlit("Markdown");
    reveal_strlit("Other");
    reveal_strlit("PHP");
    reveal_strlit("Python");
    reveal_strlit("Ruby");
    reveal_strlit("Rust");
    reveal_strlit("SQL");
    reveal_strlit("Shell");
    reveal_strlit("Svelte");
    reveal_strlit("Swift");
    reveal_strlit("TOML");
    reveal_strlit("TypeScript");
    reveal_strlit("Vue");
    reveal_strlit("XML");
    reveal_strlit("YAML");
    reveal_strlit("bash");
    reveal_strlit("c");
    reveal_strlit("cc");
    reveal_strlit("cjs");
    reveal_strlit("cpp");
    reveal_strlit("cs");
    reveal_strlit("css");
    reveal_strlit("cxx");
    reveal_strlit("dart");
    reveal_strlit("dockerfile");
    reveal_strlit("go");
    reveal_strlit("h");
    reveal_strlit("hpp");
    reveal_strlit("htm");
    reveal_strlit("html");
    reveal_strlit("java");
    reveal_strlit("js");
    reveal_strlit("json");
    reveal_strlit("jsx");
    reveal_strlit("kt");
    reveal_strlit("kts");
    reveal_strlit("less");
    reveal_strlit("makefile");
    reveal_strlit("md");
    reveal_strlit("mdx");
    reveal_strlit("mjs");
    reveal_strlit("php");
    reveal_strlit("ps1");
    reveal_strlit("py");
    reveal_strlit("rb");
    reveal_strlit("rs");
    reveal_strlit("sass");
    reveal_strlit("scss");
    reveal_strlit("sh");
    reveal_strlit("sql");
    reveal_strlit("svelte");
    reveal_strlit("swift");
    reveal_strlit("toml");
    reveal_strlit("ts");
    reveal_strlit("tsx");
    reveal_strlit("vue");
    reveal_strlit("xml");
    reveal_strlit("yaml");
    reveal_strlit("yml");
    reveal_strlit("zsh");
    if ext == "rs"@ {
        assert(ext.len() == 2 && ext[0] == 'r' && ext[1] == 's');
    }
    if ext == "ts"@ {
        assert(ext.len() == 2 && ext[0] == 't' && ext[1] == 's');
    }
    if ext == "tsx"@ {
        assert(ext.len() == 3 && ext[0] == 't' && ext[1] == 's' && ext[2] == 'x');
    }
    if ext == "js"@ {
        assert(ext.len() == 2 && ext[0] == 'j' && ext[1] == 's');
    }
    if ext == "jsx"@ {
        assert(ext.len() == 3 && ext[0] == 'j' && ext[1] == 's' && ext[2] == 'x');
    }
    if ext == "mjs"@ {
        assert(ext.len() == 3 && ext[0] == 'm' && ext[1] == 'j' && ext[2] == 's');
    }
    if ext == "cjs"@ {
        assert(ext.len() == 3 && ext[0] == 'c' && ext[1] == 'j' && ext[2] == 's');
    }
    if ext == "py"@ {
        assert(ext.len() == 2 && ext[0] == 'p' && ext[1] == 'y');
    }
    if ext == "go"@ {
        assert(ext.len() == 2 && ext[0] == 'g' && ext[1] == 'o');
    }
    if ext == "java"@ {
        assert(ext.len() == 4 && ext[0] == 'j' && ext[1] == 'a' && ext[2] == 'v' && ext[3] == 'a');
    }
    if ext == "kt"@ {
        assert(ext.len() == 2 && ext[0] == 'k' && ext[1] == 't');
    }
    if ext == "kts"@ {
        assert(ext.len() == 3 && ext[0] == 'k' && ext[1] == 't' && ext[2] == 's');
    }
    if ext == "c"@ {
        assert(ext.len() == 1 && ext[0] == 'c');
    }
    if ext == "h"@ {
        assert(ext.len() == 1 && ext[0] == 'h');
    }
    if ext == "cc"@ {
        assert(ext.len() == 2 && ext[0] == 'c' && ext[1] == 'c');
    }
    if ext == "cpp"@ {
        assert(ext.len() == 3 && ext[0] == 'c' && ext[1] == 'p' && ext[2] == 'p');
    }
    if ext == "cxx"@ {
        assert(ext.len() == 3 && ext[0] == 'c' && ext[1] == 'x' && ext[2] == 'x');
    }
    if ext == "hpp"@ {
        assert(ext.len() == 3 && ext[0] == 'h' && ext[1] == 'p' && ext[2] == 'p');
    }
    if ext == "cs"@ {
        assert(ext.len() == 2 && ext[0] == 'c' && ext[1] == 's');
    }
    if ext == "rb"@ {
        assert(ext.len() == 2 && ext[0] == 'r' && ext[1] == 'b');
    }
    if ext == "php"@ {
        assert(ext.len() == 3 && ext[0] == 'p' && ext[1] == 'h' && ext[2] == 'p');
    }
    if ext == "swift"@ {
        assert(ext.len() == 5 && ext[0] == 's' && ext[1] == 'w' && ext[2] == 'i' && ext[3] == 'f' && ext[4] == 't');
    }
    if ext == "dart"@ {
        assert(ext.len() == 4 && ext[0] == 'd' && ext[1] == 'a' && ext[2] == 'r' && ext[3] == 't');
    }
    if ext == "vue"@ {
        assert(ext.len() == 3 && ext[0] == 'v' && ext[1] == 'u' && ext[2] == 'e');
    }
    if ext == "svelte"@ {
        assert(ext.len() == 6 && ext[0] == 's' && ext[1] == 'v' && ext[2] == 'e' && ext[3] == 'l' && ext[4] == 't' && ext[5] == 'e');
    }
    if ext == "html"@ {
        assert(ext.len() == 4 && ext[0] == 'h' && ext[1] == 't' && ext[2] == 'm' && ext[3] == 'l');
    }
    if ext == "htm"@ {
        assert(ext.len() == 3 && ext[0] == 'h' && ext[1] == 't' && ext[2] == 'm');
    }
    if ext == "css"@ {
        assert(ext.len() == 3 && ext[0] == 'c' && ext[1] == 's' && ext[2] == 's');
    }
    if ext == "scss"@ {
        assert(ext.len() == 4 && ext[0] == 's' && ext[1] == 'c' && ext[2] == 's' && ext[3] == 's');
    }
    if ext == "sass"@ {
        assert(ext.len() == 4 && ext[0] == 's' && ext[1] == 'a' && ext[2] == 's' && ext[3] == 's');
    }
    if ext == "less"@ {
        assert(ext.len() == 4 && ext[0] == 'l' && ext[1] == 'e' && ext[2] == 's' && ext[3] == 's');
    }
    if ext == "json"@ {
        assert(ext.len() == 4 && ext[0] == 'j' && ext[1] == 's' && ext[2] == 'o' && ext[3] == 'n');
    }
    if ext == "yml"@ {
        assert(ext.len() == 3 && ext[0] == 'y' && ext[1] == 'm' && ext[2] == 'l');
    }
    if ext == "yaml"@ {
        assert(ext.len() == 4 && ext[0] == 'y' && ext[1] == 'a' && ext[2] == 'm' && ext[3] == 'l');
    }
    if ext == "toml"@ {
        assert(ext.len() == 4 && ext[0] == 't' && ext[1] == 'o' && ext[2] == 'm' && ext[3] == 'l');
    }
    if ext == "xml"@ {
        assert(ext.len() == 3 && ext[0] == 'x' && ext[1] == 'm' && ext[2] == 'l');
    }
    if ext == "md"@ {
        assert(ext.len() == 2 && ext[0] == 'm' && ext[1] == 'd');
    }
    if ext == "mdx"@ {
        assert(ext.len() == 3 && ext[0] == 'm' && ext[1] == 'd' && ext[2] == 'x');
    }
    if ext == "sql"@ {
        assert(ext.len() == 3 && ext[0] == 's' && ext[1] == 'q' && ext[2] == 'l');
    }
    if ext == "sh"@ {
        assert(ext.len() == 2 && ext[0] == 's' && ext[1] == 'h');
    }
    if ext == "bash"@ {
        assert(ext.len() == 4 && ext[0] == 'b' && ext[1] == 'a' && ext[2] == 's' && ext[3] == 'h');
    }
    if ext == "zsh"@ {
        assert(ext.len() == 3 && ext[0] == 'z' && ext[1] == 's' && ext[2] == 'h');
    }
    if ext == "ps1"@ {
        assert(ext.len() == 3 && ext[0] == 'p' && ext[1] == 's' && ext[2] == '1');
    }
}

pub open spec fn opt_string_view(o: Option<String>) -> Option<Seq<char>> {
    match o {
        Some(s) => Some(s@),
        None => None,
    }
}

/// The language of a file with the given final path component.
pub fn language_of_file_name(file_name: &Option<String>) -> (r: String)
    ensures
        r@ == language_of_name(opt_string_view(*file_name)),
{
    let (n, e) = match file_name {
        Some(n) => {
            let nv = text::chars_of(n.as_str());
            let e = match extension_exec(&nv) {
                Some(e) => e,
                None => Vec::new(),
            };
            (nv, e)
        },
        None => (Vec::new(), Vec::new()),
    };
    let ln = text::ascii_lower_chars(&n);
    let le = text::ascii_lower_chars(&e);
    text::string_of(&text::chars_of(language_name_exec(&le, &ln)))
}

/// The final `/`-separated component of a path.
pub open spec fn last_component(path: Seq<char>) -> Seq<char> {
    text::split_on(path, '/').last()
}

/// A path whose final component every platform reads alike: it holds no
/// `\` and no `:` (so no drive, verbatim or device prefix), does not
/// start with `//` (a network share), and its final `/`-separated component
/// is neither empty nor `.` nor `..`.
pub open spec fn portable_path(path: Seq<char>) -> bool {
    let f = last_component(path);
    &&& !path.contains('\\')
    &&& !path.contains(':')
    &&& !(path.len() >= 2 && path[0] == '/' && path[1] == '/')
    &&& f.len() > 0
    &&& f != seq!['.']
    &&& f != seq!['.', '.']
}

/// The final component of a path (std `Path::file_name`, then
/// `OsStr::to_str`), as text. `/` separates components on every platform,
/// so for a portable path the result is its last `/`-separated component.
/// Of other paths (with `\`, a drive or share prefix, or ending in a
/// separator, `.` or `..`) the platform's own rules decide, and nothing is
/// stated.
#[verifier::external_body]
fn path_file_name(path: &str) -> (r: Option<String>)
    ensures
        portable_path(path@) ==> opt_string_view(r) == Some(last_component(path@)),
{
    std::path::Path::new(path).file_name().and_then(|n| n.to_str()).map(|n| n.to_string())
}

/// The language of the file at `path`, by the extension and name of its
/// final component: for a portable path, that of its last `/`-separated
/// component.
pub fn language_for_path(path: &str) -> (r: String)
    ensures
        portable_path(path@) ==> r@ == language_of_name(Some(last_component(path@))),
        exists|n: Option<Seq<char>>| r@ == language_of_name(n),
{
    let name = path_file_name(path);
    language_of_file_name(&name)
}

// ---------------------------------------------------------------------------
// Size per language
// ---------------------------------------------------------------------------

/// Files of this size count: not empty and at most 20 MiB.
pub open spec fn counted_size(size: u64) -> bool {
    0 < size && size <= 20971520
}

/// Sum of the counted sizes of the first `n` files of language `l`.
pub open spec fn lang_bytes(es: Seq<(Seq<char>, u64)>, l: Seq<char>, n: nat) -> nat
    decreases n,
{
    if n == 0 {
        0
    } else {
        lang_bytes(es, l, (n - 1) as nat) + if counted_size(es[n - 1].1) && es[n - 1].0 == l {
            es[n - 1].1 as nat
        } else {
            0nat
        }
    }
}

/// Number of the counted files among the first `n` of language `l`.
pub open spec fn lang_files(es: Seq<(Seq<char>, u64)>, l: Seq<char>, n: nat) -> nat
    decreases n,
{
    if n == 0 {
        0
    } else {
        lang_files(es, l, (n - 1) as nat) + if counted_size(es[n - 1].1) && es[n - 1].0 == l {
            1nat
        } else {
            0nat
        }
    }
}

/// Some counted file among the first `n` has language `l`.
pub open spec fn lang_occurs(es: Seq<(Seq<char>, u64)>, l: Seq<char>, n: nat) -> bool {
    exists|i: int| 0 <= i < n && counted_size(#[trigger] es[i].1) && es[i].0 == l
}

proof fn lemma_lang_bounds(es: Seq<(Seq<char>, u64)>, l: Seq<char>, n: nat)
    requires
        n <= es.len(),
    ensures
        lang_bytes(es, l, n) <= 20971520 * n,
        lang_files(es, l, n) <= n,
        !lang_occurs(es, l, n) ==> lang_bytes(es, l, n) == 0 && lang_files(es, l, n) == 0,
    decreases n,
{
    if n > 0 {
        lemma_lang_bounds(es, l, (n - 1) as nat);
        if !lang_occurs(es, l, n) {
            assert(!lang_occurs(es, l, (n - 1) as nat)) by {
                if lang_occurs(es, l, (n - 1) as nat) {
                    let i = choose|i: int| 0 <= i < n - 1 && counted_size(#[trigger] es[i].1) && es[i].0 == l;
                    assert(0 <= i < n && counted_size(es[i].1) && es[i].0 == l);
                }
            }
        }
    }
}

pub open spec fn entry_views(v: Seq<(String, u64)>) -> Seq<(Seq<char>, u64)> {
    v.map_values(|e: (String, u64)| (e.0@, e.1))
}

/// `r` lists each language of a counted file once, with the sum of sizes
/// and the number of its counted files, largest first and, at equal size,
/// by language name.
pub open spec fn tally_matches(es: Seq<(Seq<char>, u64)>, r: Seq<LanguageStat>) -> bool {
    let n = es.len() as nat;
    &&& forall|j: int|
        0 <= j < r.len() ==> {
            let l = (#[trigger] r[j]).language@;
            &&& lang_occurs(es, l, n)
            &&& r[j].bytes == lang_bytes(es, l, n)
            &&& r[j].files == lang_files(es, l, n)
        }
    &&& forall|a: int, b: int| 0 <= a < b < r.len() ==> r[a].language@ != r[b].language@
    &&& forall|l: Seq<char>| lang_occurs(es, l, n) ==> exists|j: int| 0 <= j < r.len() && #[trigger] r[j].language@ == l
    &&& forall|a: int, b: int|
        0 <= a < b < r.len() ==> r[a].bytes > r[b].bytes || (r[a].bytes == r[b].bytes && text::lex_lt(
            r[a].language@,
            r[b].language@,
        ))
}

/// The per-language totals of files given as (language, size).
#[verifier::spinoff_prover]
#[verifier::rlimit(40)]
pub fn tally_languages(entries: &Vec<(String, u64)>) -> (r: Vec<LanguageStat>)
    requires
        entries@.len() <= 879609302220,
    ensures
        tally_matches(entry_views(entries@), r@),
{
    let ghost es = entry_views(entries@);
    let ghost n = es.len() as nat;
    // totals in order of first appearance
    let mut names: Vec<Vec<char>> = Vec::new();
    let mut bytes: Vec<u64> = Vec::new();
    let mut files: Vec<usize> = Vec::new();
    let mut i: usize = 0;
    while i < entries.len()
        invariant
            i <= es.len(),
            es == entry_views(entries@),
            es.len() == entries@.len(),
            n == es.len(),
            n <= 879609302220,
            names@.len() == bytes@.len(),
            names@.len() == files@.len(),
            forall|a: int, b: int| 0 <= a < b < names@.len() ==> names@[a]@ != names@[b]@,
            forall|a: int| 0 <= a < names@.len() ==> lang_occurs(es, (#[trigger] names@[a])@, i as nat),
            forall|a: int|
                0 <= a < names@.len() ==> #[trigger] bytes@[a] == lang_bytes(es, names@[a]@, i as nat)
                    && files@[a] == lang_files(es, names@[a]@, i as nat),
            forall|q: int|
                0 <= q < i && counted_size(#[trigger] es[q].1) ==> exists|a: int|
                    0 <= a < names@.len() && #[trigger] names@[a]@ == es[q].0,
        decreases entries.len() - i,
    {
        let (lang, size) = (&entries[i].0, entries[i].1);
        let ghost l = lang@;
        assert(es[i as int] == (l, size));
        if 0 < size && size <= 20971520 {
            let lv = text::chars_of(lang.as_str());
            let mut p: usize = 0;
            while p < names.len() && !text::chars_eq(&names[p], &lv)
                invariant
                    p <= names@.len(),
                    lv@ == l,
                    forall|b: int| 0 <= b < p ==> names@[b]@ != l,
                decreases names.len() - p,
            {
                p = p + 1;
            }
            let ghost old_names = names@;
            let ghost old_bytes = bytes@;
            let ghost old_files = files@;
            proof {
                lemma_lang_bounds(es, l, (i + 1) as nat);
                assert(lang_occurs(es, l, (i + 1) as nat)) by {
                    assert(counted_size(es[i as int].1) && es[i as int].0 == l);
                }
            }
            if p < names.len() {
                proof {
                    assert(names@[p as int]@ == l);
                    assert(bytes@[p as int] == lang_bytes(es, l, i as nat));
                    assert(20971520 * (i + 1) <= u64::MAX) by (nonlinear_arith)
                        requires
                            i + 1 <= 879609302220,
                    ;
                }
                let b = bytes[p] + size;
                let f = files[p] + 1;
                bytes.set(p, b);
                files.set(p, f);
            } else {
                proof {
                    assert forall|q: int| 0 <= q < i implies !(counted_size(#[trigger] es[q].1) && es[q].0 == l) by {
                        if counted_size(es[q].1) && es[q].0 == l {
                            let a = choose|a: int| 0 <= a < names@.len() && #[trigger] names@[a]@ == es[q].0;
                        }
                    }
                    assert(!lang_occurs(es, l, i as nat));
                    lemma_lang_bounds(es, l, i as nat);
                }
                names.push(lv);
                bytes.push(size);
                files.push(1);
            }
            proof {
                assert forall|a: int| 0 <= a < names@.len() implies lang_occurs(es, (#[trigger] names@[a])@, (i + 1) as nat) by {
                    if a < old_names.len() {
                        assert(names@[a] == old_names[a]);
                        let w = choose|w: int| 0 <= w < i && counted_size(#[trigger] es[w].1) && es[w].0 == old_names[a]@;
                        assert(0 <= w < i + 1 && counted_size(es[w].1) && es[w].0 == names@[a]@);
                    }
                }
                assert forall|a: int| 0 <= a < names@.len() implies #[trigger] bytes@[a] == lang_bytes(es, names@[a]@, (i + 1) as nat)
                    && files@[a] == lang_files(es, names@[a]@, (i + 1) as nat) by {
                    if a < old_names.len() {
                        assert(names@[a] == old_names[a]);
                        assert(old_bytes[a] == lang_bytes(es, old_names[a]@, i as nat));
                        assert(old_files[a] == lang_files(es, old_names[a]@, i as nat));
                        if a == p {
                            assert(old_names[a]@ == l);
                        } else {
                            assert(bytes@[a] == old_bytes[a] && files@[a] == old_files[a]);
                            assert(old_names[a]@ != l);
                        }
                    } else {
                        assert(names@[a]@ == l);
                        assert(lang_bytes(es, l, i as nat) == 0 && lang_files(es, l, i as nat) == 0);
                    }
                }
                assert forall|a: int, b: int| 0 <= a < b < names@.len() implies names@[a]@ != names@[b]@ by {
                    if b < old_names.len() {
                        assert(names@[a] == old_names[a] && names@[b] == old_names[b]);
                    } else {
                        assert(names@[a] == old_names[a]);
                    }
                }
                assert forall|q: int|
                    0 <= q < i + 1 && counted_size(#[trigger] es[q].1) implies exists|a: int|
                        0 <= a < names@.len() && #[trigger] names@[a]@ == es[q].0 by {
                    if q == i {
                        if p < old_names.len() {
                            assert(names@[p as int]@ == es[q].0);
                        } else {
                            assert(names@[old_names.len() as int]@ == es[q].0);
                        }
                    } else {
                        let a = choose|a: int| 0 <= a < old_names.len() && #[trigger] old_names[a]@ == es[q].0;
                        assert(names@[a] == old_names[a]);
                    }
                }
            }
        } else {
            proof {
                assert(!counted_size(es[i as int].1));
                assert forall|a: int| 0 <= a < names@.len() implies #[trigger] bytes@[a] == lang_bytes(es, names@[a]@, (i + 1) as nat)
                    && files@[a] == lang_files(es, names@[a]@, (i + 1) as nat) by {
                    assert(bytes@[a] == lang_bytes(es, names@[a]@, i as nat));
                }
                assert forall|a: int| 0 <= a < names@.len() implies lang_occurs(es, (#[trigger] names@[a])@, (i + 1) as nat) by {
                    let w = choose|w: int| 0 <= w < i && counted_size(#[trigger] es[w].1) && es[w].0 == names@[a]@;
                    assert(0 <= w < i + 1);
                }
            }
        }
        i = i + 1;
    }
    // by name, then by size (stable): largest first, equal sizes by name
    let by_name = order::stable_text_order(&names);
    let ghost nks = names@.map_values(|k: Vec<char>| k@);
    proof {
        assert forall|a: int| 0 <= a < names@.len() implies #[trigger] nks[a] == names@[a]@ by {
        }
    }
    let mut sizes: Vec<i128> = Vec::new();
    let mut k: usize = 0;
    while k < by_name.len()
        invariant
            k <= by_name@.len(),
            by_name@.len() == names@.len(),
            order::is_permutation_of_indices(by_name@, names@.len() as nat),
            bytes@.len() == names@.len(),
            sizes@.len() == k,
            forall|j: int| 0 <= j < k ==> #[trigger] sizes@[j] == bytes@[by_name@[j] as int] as i128,
        decreases by_name.len() - k,
    {
        assert(by_name@[k as int] < names@.len());
        sizes.push(bytes[by_name[k]] as i128);
        k = k + 1;
    }
    let by_size = order::stable_desc_order(&sizes);
    let ghost sks = sizes@.map_values(|x: i128| x as int);
    let mut out: Vec<LanguageStat> = Vec::new();
    let mut j: usize = 0;
    while j < by_size.len()
        invariant
            j <= by_size@.len(),
            by_size@.len() == sizes@.len(),
            sizes@.len() == by_name@.len(),
            by_name@.len() == names@.len(),
            names@.len() == bytes@.len(),
            names@.len() == files@.len(),
            order::is_permutation_of_indices(by_name@, names@.len() as nat),
            order::is_permutation_of_indices(by_size@, sizes@.len() as nat),
            out@.len() == j,
            forall|q: int|
                0 <= q < j ==> {
                    let x = by_name@[by_size@[q] as int] as int;
                    &&& (#[trigger] out@[q]).language@ == names@[x]@
                    &&& out@[q].bytes == bytes@[x]
                    &&& out@[q].files == files@[x]
                },
        decreases by_size.len() - j,
    {
        assert(by_size@[j as int] < by_name@.len());
        let x = by_name[by_size[j]];
        assert(x < names@.len());
        out.push(LanguageStat { language: text::string_of(&names[x]), bytes: bytes[x], files: files[x] });
        j = j + 1;
    }
    proof {
        let m = out@.len();
        assert(es.len() == n);
        assert forall|jj: int| 0 <= jj < m implies {
            let l = (#[trigger] out@[jj]).language@;
            &&& lang_occurs(es, l, n)
            &&& out@[jj].bytes == lang_bytes(es, l, n)
            &&& out@[jj].files == lang_files(es, l, n)
        } by {
            let x = by_name@[by_size@[jj] as int] as int;
            assert(0 <= x < names@.len());
        }
        assert forall|a: int, b: int| 0 <= a < b < m implies out@[a].language@ != out@[b].language@ by {
            let xa = by_name@[by_size@[a] as int] as int;
            let xb = by_name@[by_size@[b] as int] as int;
            assert(by_size@[a] != by_size@[b]);
            assert(by_name@[by_size@[a] as int] != by_name@[by_size@[b] as int]);
            if xa < xb {
                assert(names@[xa]@ != names@[xb]@);
            } else {
                assert(names@[xb]@ != names@[xa]@);
            }
        }
        assert forall|l: Seq<char>| lang_occurs(es, l, n) implies exists|jj: int|
            0 <= jj < m && #[trigger] out@[jj].language@ == l by {
            let w = choose|w: int| 0 <= w < n && counted_size(#[trigger] es[w].1) && es[w].0 == l;
            let a = choose|a: int| 0 <= a < names@.len() && #[trigger] names@[a]@ == es[w].0;
            assert(order::lists_index(by_name@, a));
            let y = choose|y: int| 0 <= y < by_name@.len() && #[trigger] by_name@[y] == a;
            assert(order::lists_index(by_size@, y));
            let jj = choose|jj: int| 0 <= jj < by_size@.len() && #[trigger] by_size@[jj] == y;
            assert(out@[jj].language@ == l);
        }
        assert forall|a: int, b: int| 0 <= a < b < m implies out@[a].bytes > out@[b].bytes || (out@[a].bytes
            == out@[b].bytes && text::lex_lt(out@[a].language@, out@[b].language@)) by {
            let ya = by_size@[a] as int;
            let yb = by_size@[b] as int;
            assert(sks[ya] == sizes@[ya] as int && sks[yb] == sizes@[yb] as int);
            assert(sizes@[ya] == bytes@[by_name@[ya] as int] as i128);
            assert(sizes@[yb] == bytes@[by_name@[yb] as int] as i128);
            if out@[a].bytes == out@[b].bytes {
                assert(ya < yb);
                let xa = by_name@[ya] as int;
                let xb = by_name@[yb] as int;
                assert(nks[xa] == names@[xa]@ && nks[xb] == names@[xb]@);
                assert(xa != xb);
                if xa < xb {
                    assert(names@[xa]@ != names@[xb]@);
                } else {
                    assert(names@[xb]@ != names@[xa]@);
                }
            }
        }
    }
    out
}

/// `es` gives each file of `files` a language that a final path
/// component maps to (for a portable path, that of its last component),
/// and keeps its size.
pub open spec fn languages_assigned(es: Seq<(Seq<char>, u64)>, files: Seq<(String, u64)>) -> bool {
    &&& es.len() == files.len()
    &&& forall|i: int|
        0 <= i < es.len() ==> (#[trigger] es[i]).1 == files[i].1 && (exists|n: Option<Seq<char>>|
            es[i].0 == language_of_name(n)) && (portable_path(files[i].0@) ==> es[i].0
            == language_of_name(Some(last_component(files[i].0@))))
}

/// The size of a repository's files per language, from (path, size) of
/// each regular file: the totals of the files' languages, each that of
/// the final component of the file's path.
pub fn language_stats(files: &Vec<(String, u64)>) -> (r: Vec<LanguageStat>)
    requires
        files@.len() <= 879609302220,
    ensures
        exists|es: Seq<(Seq<char>, u64)>| #[trigger] languages_assigned(es, files@) && tally_matches(es, r@),
{
    let mut entries: Vec<(String, u64)> = Vec::new();
    let mut i: usize = 0;
    while i < files.len()
        invariant
            i <= files@.len(),
            entries@.len() == i,
            forall|k: int|
                0 <= k < i ==> (#[trigger] entries@[k]).1 == files@[k].1 && (exists|
                    n: Option<Seq<char>>,
                | entries@[k].0@ == language_of_name(n)) && (portable_path(files@[k].0@)
                    ==> entries@[k].0@ == language_of_name(Some(last_component(files@[k].0@)))),
        decreases files.len() - i,
    {
        let lang = language_for_path(files[i].0.as_str());
        entries.push((lang, files[i].1));
        i = i + 1;
    }
    let r = tally_languages(&entries);
    proof {
        let es = entry_views(entries@);
        assert forall|k: int| 0 <= k < es.len() implies (#[trigger] es[k]).1 == files@[k].1 && (exists|
            n: Option<Seq<char>>,
        | es[k].0 == language_of_name(n)) && (portable_path(files@[k].0@) ==> es[k].0
            == language_of_name(Some(last_component(files@[k].0@)))) by {
            assert(es[k] == (entries@[k].0@, entries@[k].1));
        }
        assert(languages_assigned(es, files@));
        assert(tally_matches(es, r@));
    }
    r
}

} // verus!
