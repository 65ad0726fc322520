//! Decisions of the desktop interface's commands: which branches may be
//! deleted, which git invocation an action names, and the replies.

use vstd::prelude::*;
use crate::error::{GhError, error_text};
use crate::log_ops::reset::ResetMode;
use crate::repo::{RepoHandle, WorkingTreeFile, strs};
use crate::text;

verus! {

broadcast use vstd::string::group_string_axioms;

pub open spec fn string_views(v: Seq<String>) -> Seq<Seq<char>> {
    v.map_values(|s: String| s@)
}

/// The names the branch list always marks protected.
pub open spec fn listed_protected() -> Seq<Seq<char>> {
    seq!["main"@, "master"@, "develop"@]
}

/// A branch of the list is protected when the whitelist holds its exact
/// name or it is `main`, `master` or `develop`; it may be deleted when it
/// is neither checked out, nor protected, nor the current branch.
pub open spec fn branch_flags_of(
    name: Seq<char>,
    is_head: bool,
    current: Seq<char>,
    whitelist: Seq<Seq<char>>,
) -> (bool, bool) {
    let p = whitelist.contains(name) || listed_protected().contains(name);
    (p, !is_head && !p && name != current)
}

/// `(is_protected, can_delete)` of a branch in the branch list.
pub fn branch_flags(name: &str, is_head: bool, current: &str, whitelist: &Vec<String>) -> (r: (bool, bool))
    ensures
        r == branch_flags_of(name@, is_head, current@, string_views(whitelist@)),
{
    let nv = text::chars_of(name);
    let mut in_list = false;
    let mut i: usize = 0;
    while i < whitelist.len()
        invariant
            i <= whitelist@.len(),
            nv@ == name@,
            in_list == exists|j: int| 0 <= j < i && whitelist@[j]@ == name@,
        decreases whitelist.len() - i,
    {
        if text::eq_str(&nv, whitelist[i].as_str()) {
            in_list = true;
        }
        i = i + 1;
    }
    proof {
        let views = string_views(whitelist@);
        if in_list {
            let j = choose|j: int| 0 <= j < whitelist@.len() && whitelist@[j]@ == name@;
            assert(views[j] == name@);
        } else {
            assert forall|j: int| 0 <= j < views.len() implies views[j] != name@ by {
                assert(views[j] == whitelist@[j]@);
            }
        }
    }
    let builtin = text::eq_str(&nv, "main") || text::eq_str(&nv, "master") || text::eq_str(&nv, "develop");
    proof {
        let l = listed_protected();
        if builtin {
            if nv@ == "main"@ {
                assert(l[0] == name@);
            } else if nv@ == "master"@ {
                assert(l[1] == name@);
            } else {
                assert(l[2] == name@);
            }
        } else {
            assert forall|j: int| 0 <= j < l.len() implies l[j] != name@ by {
            }
        }
    }
    let p = in_list || builtin;
    let cur = text::chars_of(current);
    (p, !is_head && !p && !text::chars_eq(&nv, &cur))
}

/// Opens the repository at `path` (given what exists on disk there),
/// errors as their text.
pub fn open_repo(path: &str, git_dir_exists: bool, head_exists: bool) -> (r: Result<RepoHandle, String>)
    ensures
        git_dir_exists || head_exists ==> (r matches Ok(h) && h.path@ == path@),
        !git_dir_exists && !head_exists ==> (r matches Err(m) && m@ == "未找到: "@ + (path@
            + " 不是有效的 Git 仓库"@)),
{
    match RepoHandle::open(path, git_dir_exists, head_exists) {
        Ok(h) => Ok(h),
        Err(e) => Err(e.message()),
    }
}

pub open spec fn count_conflicted(fs: Seq<WorkingTreeFile>, n: nat) -> nat
    decreases n,
{
    if n == 0 {
        0
    } else {
        count_conflicted(fs, (n - 1) as nat) + if fs[n - 1].conflicted {
            1nat
        } else {
            0nat
        }
    }
}

/// How many working-tree files are in conflict.
pub fn conflicted_count(files: &Vec<WorkingTreeFile>) -> (r: usize)
    ensures
        r == count_conflicted(files@, files@.len() as nat),
{
    let mut c: usize = 0;
    let mut i: usize = 0;
    while i < files.len()
        invariant
            i <= files@.len(),
            c == count_conflicted(files@, i as nat),
            c <= i,
        decreases files.len() - i,
    {
        if files[i].conflicted {
            c = c + 1;
        }
        i = i + 1;
    }
    c
}

/// The git invocation of a sync action: `fetch`, `pull` or `push`; any
/// other action is refused.
pub fn sync_command(repo: &RepoHandle, action: &str) -> (r: Result<Vec<String>, String>)
    ensures
        action@ == "fetch"@ ==> (r matches Ok(a) && strs(a@) == seq!["fetch"@, "--prune"@]),
        action@ == "pull"@ ==> (r matches Ok(a) && strs(a@) == seq!["pull"@]),
        action@ == "push"@ ==> (r matches Ok(a) && strs(a@) == seq!["push"@]),
        action@ != "fetch"@ && action@ != "pull"@ && action@ != "push"@ ==> (r matches Err(m) && m@
            == "未知同步操作: "@ + action@),
{
    let av = text::chars_of(action);
    proof {
        reveal_strlit("fetch");
        reveal_strlit("pull");
        reveal_strlit("push");
        assert("fetch"@.len() == 5 && "pull"@.len() == 4 && "push"@.len() == 4);
        assert("pull"@[2] == 'l' && "push"@[2] == 's');
    }
    if text::eq_str(&av, "fetch") {
        Ok(repo.fetch())
    } else if text::eq_str(&av, "pull") {
        Ok(repo.pull(false))
    } else if text::eq_str(&av, "push") {
        Ok(repo.push())
    } else {
        let mut m = text::chars_of("未知同步操作: ");
        text::append_chars(&mut m, &av);
        Err(text::string_of(&m))
    }
}

/// The reset mode a name stands for: `soft`, `mixed` or `hard`.
pub fn reset_mode_of(mode: &str) -> (r: Result<ResetMode, String>)
    ensures
        mode@ == "soft"@ ==> r == Ok::<ResetMode, String>(ResetMode::Soft),
        mode@ == "mixed"@ ==> r == Ok::<ResetMode, String>(ResetMode::Mixed),
        mode@ == "hard"@ ==> r == Ok::<ResetMode, String>(ResetMode::Hard),
        mode@ != "soft"@ && mode@ != "mixed"@ && mode@ != "hard"@ ==> (r matches Err(m) && m@
            == "未知重置模式"@),
{
    let mv = text::chars_of(mode);
    proof {
        reveal_strlit("soft");
        reveal_strlit("mixed");
        reveal_strlit("hard");
        assert("soft"@.len() == 4 && "mixed"@.len() == 5 && "hard"@.len() == 4);
        assert("soft"@[0] == 's' && "hard"@[0] == 'h');
    }
    if text::eq_str(&mv, "soft") {
        Ok(ResetMode::Soft)
    } else if text::eq_str(&mv, "mixed") {
        Ok(ResetMode::Mixed)
    } else if text::eq_str(&mv, "hard") {
        Ok(ResetMode::Hard)
    } else {
        Err(text::string_of(&text::chars_of("未知重置模式")))
    }
}

/// A batch operation of the interface.
#[derive(Debug, Clone, Copy, PartialEq, Eq, Structural)]
pub enum MultiOp {
    Pull,
    Status,
    Gc,
}

/// The batch operation a name stands for; any other name is an argument
/// error, which each repository of the batch reports.
pub fn multi_op_of(operation: &str) -> (r: Result<MultiOp, GhError>)
    ensures
        operation@ == "pull"@ ==> r == Ok::<MultiOp, GhError>(MultiOp::Pull),
        operation@ == "status"@ ==> r == Ok::<MultiOp, GhError>(MultiOp::Status),
        operation@ == "gc"@ ==> r == Ok::<MultiOp, GhError>(MultiOp::Gc),
        operation@ != "pull"@ && operation@ != "status"@ && operation@ != "gc"@ ==> (r matches Err(
            GhError::Args(m),
        ) && m@ == "未知操作: "@ + operation@),
{
    let ov = text::chars_of(operation);
    proof {
        reveal_strlit("pull");
        reveal_strlit("status");
        reveal_strlit("gc");
        assert("pull"@.len() == 4 && "status"@.len() == 6 && "gc"@.len() == 2);
    }
    if text::eq_str(&ov, "pull") {
        Ok(MultiOp::Pull)
    } else if text::eq_str(&ov, "status") {
        Ok(MultiOp::Status)
    } else if text::eq_str(&ov, "gc") {
        Ok(MultiOp::Gc)
    } else {
        let mut m = text::chars_of("未知操作: ");
        text::append_chars(&mut m, &ov);
        Err(GhError::Args(text::string_of(&m)))
    }
}

/// A batch over chosen repositories needs at least one of them.
pub fn check_selection(paths: &Vec<String>) -> (r: Result<(), String>)
    ensures
        paths@.len() > 0 <==> r is Ok,
        r matches Err(m) ==> m@ == "请至少选择一个仓库"@,
{
    if paths.len() == 0 {
        Err(text::string_of(&text::chars_of("请至少选择一个仓库")))
    } else {
        Ok(())
    }
}

/// How many commits the graph shows: the request, else 120.
pub fn graph_limit(max_count: Option<usize>) -> (r: usize)
    ensures
        r == match max_count {
            Some(m) => m,
            None => 120,
        },
{
    match max_count {
        Some(m) => m,
        None => 120,
    }
}

/// The kinds of branch change the interface reports.
#[derive(Debug, Clone, Copy, PartialEq, Eq, Structural)]
pub enum BranchChange {
    Deleted,
    CheckedOut,
    Created,
}

pub open spec fn branch_change_text(kind: BranchChange, name: Seq<char>) -> Seq<char> {
    match kind {
        BranchChange::Deleted => "已删除分支: "@ + name,
        BranchChange::CheckedOut => "已切换到分支: "@ + name,
        BranchChange::Created => "已创建分支: "@ + name,
    }
}

/// The reply after a branch change.
pub fn branch_change_message(kind: BranchChange, name: &str) -> (r: String)
    ensures
        r@ == branch_change_text(kind, name@),
{
    let mut m = match kind {
        BranchChange::Deleted => text::chars_of("已删除分支: "),
        BranchChange::CheckedOut => text::chars_of("已切换到分支: "),
        BranchChange::Created => text::chars_of("已创建分支: "),
    };
    text::append_str(&mut m, name);
    text::string_of(&m)
}

/// An error as the interface receives it: its text.
pub fn error_reply(e: &GhError) -> (r: String)
    ensures
        r@ == error_text(*e),
{
    e.message()
}

} // verus!
