//! Line classification: code, comment or blank, by file extension.

use vstd::prelude::*;
use crate::text;

verus! {

/// What a source line is.
#[derive(Debug, Clone, Copy, PartialEq, Eq, Structural)]
pub enum LineType {
    Code,
    Comment,
    Blank,
}

/// Extensions of languages whose comments start with `//`, `/*` or `*`.
pub open spec fn c_style_exts() -> Seq<Seq<char>> {
    seq![
        "rs"@, "c"@, "cpp"@, "cc"@, "cxx"@, "h"@, "hpp"@, "hh"@,
        "java"@, "js"@, "ts"@, "jsx"@, "tsx"@, "go"@, "swift"@,
        "kt"@, "kts"@, "scala"@, "dart"@, "cs"@, "m"@, "mm"@,
        "php"@, "scss"@, "less"@, "css"@, "sql"@
    ]
}

/// Extensions of languages whose comments start with `#`.
pub open spec fn hash_style_exts() -> Seq<Seq<char>> {
    seq![
        "py"@, "rb"@, "sh"@, "bash"@, "zsh"@, "fish"@, "pl"@, "pm"@,
        "yaml"@, "yml"@, "toml"@, "r"@, "conf"@, "cfg"@, "ini"@,
        "dockerfile"@, "dockerignore"@, "gitignore"@
    ]
}

fn c_style_list() -> (v: Vec<&'static str>)
    ensures
        v@.len() == c_style_exts().len(),
        forall|i: int| 0 <= i < v@.len() ==> (#[trigger] v@[i])@ == c_style_exts()[i],
{
    vec![
        "rs", "c", "cpp", "cc", "cxx", "h", "hpp", "hh",
        "java", "js", "ts", "jsx", "tsx", "go", "swift",
        "kt", "kts", "scala", "dart", "cs", "m", "mm",
        "php", "scss", "less", "css", "sql",
    ]
}

fn hash_style_list() -> (v: Vec<&'static str>)
    ensures
        v@.len() == hash_style_exts().len(),
        forall|i: int| 0 <= i < v@.len() ==> (#[trigger] v@[i])@ == hash_style_exts()[i],
{
    vec![
        "py", "rb", "sh", "bash", "zsh", "fish", "pl", "pm",
        "yaml", "yml", "toml", "r", "conf", "cfg", "ini",
        "dockerfile", "dockerignore", "gitignore",
    ]
}

/// `ext` is one of `list`.
pub open spec fn listed(list: Seq<Seq<char>>, ext: Seq<char>) -> bool {
    exists|i: int| 0 <= i < list.len() && #[trigger] list[i] == ext
}

fn listed_exec(list: &Vec<&'static str>, ext: &Vec<char>) -> (r: bool)
    ensures
        r == listed(list@.map_values(|s: &'static str| s@), ext@),
{
    let ghost views = list@.map_values(|s: &'static str| s@);
    let mut i: usize = 0;
    while i < list.len()
        invariant
            i <= list@.len(),
            views == list@.map_values(|s: &'static str| s@),
            forall|k: int| 0 <= k < i ==> views[k] != ext@,
        decreases list.len() - i,
    {
        if text::eq_str(ext, list[i]) {
            assert(views[i as int] == ext@);
            return true;
        }
        i = i + 1;
    }
    false
}

/// The class of a line given its trimmed text and the lowercase extension
/// of its file.
pub open spec fn line_class(trimmed: Seq<char>, ext_lower: Seq<char>) -> LineType {
    if trimmed.len() == 0 {
        LineType::Blank
    } else if listed(c_style_exts(), ext_lower) {
        if text::starts_with(trimmed, "//"@) || text::starts_with(trimmed, "/*"@) || trimmed[0]
            == '*' || trimmed == "*/"@ {
            LineType::Comment
        } else {
            LineType::Code
        }
    } else if listed(hash_style_exts(), ext_lower) {
        if trimmed[0] == '#' {
            LineType::Comment
        } else {
            LineType::Code
        }
    } else if text::starts_with(trimmed, "//"@) || trimmed[0] == '#' || text::starts_with(
        trimmed,
        "/*"@,
    ) || text::starts_with(trimmed, "--"@) {
        LineType::Comment
    } else {
        LineType::Code
    }
}

/// Classifies `line` for a file whose extension, already lowercased, is
/// `ext_lower`.
pub fn classify_line_lowered(line: &str, ext_lower: &str) -> (r: LineType)
    ensures
        r == line_class(text::trim(line@), ext_lower@),
{
    let lv = text::chars_of(line);
    let trimmed = text::trim_chars(&lv);
    if trimmed.len() == 0 {
        return LineType::Blank;
    }
    let ev = text::chars_of(ext_lower);
    let c_list = c_style_list();
    let h_list = hash_style_list();
    proof {
        assert(c_list@.map_values(|s: &'static str| s@) =~= c_style_exts());
        assert(h_list@.map_values(|s: &'static str| s@) =~= hash_style_exts());
    }
    if listed_exec(&c_list, &ev) {
        if text::starts_with_str(&trimmed, "//") || text::starts_with_str(&trimmed, "/*")
            || trimmed[0] == '*' || text::eq_str(&trimmed, "*/") {
            LineType::Comment
        } else {
            LineType::Code
        }
    } else if listed_exec(&h_list, &ev) {
        if trimmed[0] == '#' {
            LineType::Comment
        } else {
            LineType::Code
        }
    } else if text::starts_with_str(&trimmed, "//") || trimmed[0] == '#'
        || text::starts_with_str(&trimmed, "/*") || text::starts_with_str(&trimmed, "--") {
        LineType::Comment
    } else {
        LineType::Code
    }
}

/// Classifies a line by the extension of its file (compared after Unicode
/// lowercasing).
pub fn classify_line(line: &str, ext: &str) -> (r: LineType)
    ensures
        r == line_class(text::trim(line@), text::unicode_lower(ext@)),
        text::all_ascii(ext@) ==> r == line_class(text::trim(line@), text::ascii_lower_str(ext@)),
{
    let ev = text::chars_of(ext);
    let lower = text::unicode_lower_chars(&ev);
    let lower_s = text::string_of(&lower);
    classify_line_lowered(line, lower_s.as_str())
}

/// The final `/`-separated component of a path.
pub open spec fn file_part(path: Seq<char>) -> Seq<char> {
    text::split_on(path, '/').last()
}

/// The extension of a path before lowercasing: the text after the last `.`
/// of its final component, empty when that component has no `.`.
pub open spec fn raw_extension(path: Seq<char>) -> Seq<char> {
    let f = file_part(path);
    if f.contains('.') {
        text::split_on(f, '.').last()
    } else {
        Seq::<char>::empty()
    }
}

/// The extension of a path, lowercased: the text after the last `.` of
/// its final component, empty when there is none.
pub fn get_extension(path: &str) -> (r: String)
    ensures
        r@ == text::unicode_lower(raw_extension(path@)),
        text::all_ascii(raw_extension(path@)) ==> r@ == text::ascii_lower_str(raw_extension(path@)),
{
    let pv = text::chars_of(path);
    let parts = text::split_on_exec(&pv, '/');
    proof {
        text::lemma_split_on_nonempty(pv@, '/');
    }
    let last = &parts[parts.len() - 1];
    let ext: Vec<char> = if text::has_char(last, '.') {
        let pieces = text::split_on_exec(last, '.');
        proof {
            text::lemma_split_on_nonempty(last@, '.');
        }
        text::slice_chars(&pieces[pieces.len() - 1], 0, pieces[pieces.len() - 1].len())
    } else {
        Vec::new()
    };
    proof {
        if text::split_on(pv@, '/').last().contains('.') {
            let pieces = text::split_on(last@, '.');
            assert(pieces.last().subrange(0, pieces.last().len() as int) =~= pieces.last());
        } else {
            assert(ext@ =~= Seq::<char>::empty());
        }
    }
    let lower = text::unicode_lower_chars(&ext);
    text::string_of(&lower)
}

} // verus!
