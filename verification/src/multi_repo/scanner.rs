//! Which directories a repository scan descends into.

use vstd::prelude::*;
use crate::text;

verus! {

/// Directory names (lowercased) that a scan never enters.
pub open spec fn skipped_directories() -> Seq<Seq<char>> {
    seq![
        "$recycle.bin"@, "system volume information"@, "windows"@, "program files"@,
        "program files (x86)"@, "programdata"@, "appdata"@, "windowsapps"@, "node_modules"@,
        "target"@, ".cargo"@, ".rustup"@
    ]
}

fn skipped_list() -> (v: Vec<&'static str>)
    ensures
        v@.len() == skipped_directories().len(),
        forall|i: int| 0 <= i < v@.len() ==> (#[trigger] v@[i])@ == skipped_directories()[i],
{
    vec![
        "$recycle.bin", "system volume information", "windows", "program files",
        "program files (x86)", "programdata", "appdata", "windowsapps", "node_modules", "target",
        ".cargo", ".rustup",
    ]
}

/// The scan root is always entered; below it, a directory is entered when
/// its ASCII-lowercased name is not `.git`, does not start with `.` and is
/// not one of the skipped names.
pub open spec fn visits(depth: usize, name: Seq<char>) -> bool {
    let l = text::ascii_lower_str(name);
    depth == 0 || (l != ".git"@ && !(l.len() > 0 && l[0] == '.') && !skipped_directories().contains(l))
}

/// Whether a scan enters the directory entry `name` found at `depth`.
pub fn should_visit(depth: usize, name: &str) -> (r: bool)
    ensures
        r == visits(depth, name@),
{
    if depth == 0 {
        return true;
    }
    let l = text::ascii_lower_chars(&text::chars_of(name));
    if text::eq_str(&l, ".git") {
        return false;
    }
    if l.len() > 0 && l[0] == '.' {
        return false;
    }
    let list = skipped_list();
    let mut i: usize = 0;
    while i < list.len()
        invariant
            i <= list@.len(),
            list@.len() == skipped_directories().len(),
            forall|k: int| 0 <= k < list@.len() ==> (#[trigger] list@[k])@ == skipped_directories()[k],
            forall|k: int| 0 <= k < i ==> skipped_directories()[k] != l@,
            l@ == text::ascii_lower_str(name@),
            depth != 0,
        decreases list.len() - i,
    {
        if text::eq_str(&l, list[i]) {
            assert(skipped_directories()[i as int] == l@);
            return false;
        }
        i = i + 1;
    }
    true
}

} // verus!
