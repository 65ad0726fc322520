//! The guard that blocks dangerous operations unless they are previewed
//! or forced.

use vstd::prelude::*;
use crate::error::GhError;
use crate::text;

verus! {

/// The dangerous operations, as (module, command) pairs.
pub open spec fn dangerous_ops() -> Seq<(Seq<char>, Seq<char>)> {
    seq![
        ("branch"@, "cleanup"@),
        ("reset"@, "hard"@),
        ("stash"@, "clean"@),
        ("stash"@, "clear"@),
        ("multi"@, "gc"@),
    ]
}

fn dangerous_list() -> (v: Vec<(&'static str, &'static str)>)
    ensures
        v@.len() == dangerous_ops().len(),
        forall|i: int|
            0 <= i < v@.len() ==> (#[trigger] v@[i]).0@ == dangerous_ops()[i].0 && v@[i].1@
                == dangerous_ops()[i].1,
{
    vec![("branch", "cleanup"), ("reset", "hard"), ("stash", "clean"), ("stash", "clear"), ("multi", "gc")]
}

/// An operation is dangerous when its command is given and the pair is
/// listed.
pub open spec fn dangerous(module: Seq<char>, command: Option<Seq<char>>) -> bool {
    match command {
        Some(c) => exists|i: int|
            0 <= i < dangerous_ops().len() && #[trigger] dangerous_ops()[i] == (module, c),
        None => false,
    }
}

pub open spec fn opt_str(o: Option<&str>) -> Option<Seq<char>> {
    match o {
        Some(s) => Some(s@),
        None => None,
    }
}

/// Whether the operation `module command` is dangerous.
pub fn is_dangerous(module: &str, command: Option<&str>) -> (r: bool)
    ensures
        r == dangerous(module@, opt_str(command)),
{
    match command {
        Some(cmd) => {
            let list = dangerous_list();
            let mv = text::chars_of(module);
            let cv = text::chars_of(cmd);
            let mut i: usize = 0;
            while i < list.len()
                invariant
                    i <= list@.len(),
                    list@.len() == dangerous_ops().len(),
                    forall|k: int|
                        0 <= k < list@.len() ==> (#[trigger] list@[k]).0@ == dangerous_ops()[k].0
                            && list@[k].1@ == dangerous_ops()[k].1,
                    mv@ == module@,
                    cv@ == cmd@,
                    command == Some(cmd),
                    forall|k: int| 0 <= k < i ==> #[trigger] dangerous_ops()[k] != (module@, cmd@),
                decreases list.len() - i,
            {
                let (m, c) = list[i];
                if text::eq_str(&mv, m) && text::eq_str(&cv, c) {
                    assert(dangerous_ops()[i as int] == (module@, cmd@));
                    assert(opt_str(command) == Some(cmd@));
                    return true;
                }
                i = i + 1;
            }
            assert(opt_str(command) == Some(cmd@));
            false
        },
        None => false,
    }
}

/// What the guard decided.
#[derive(Debug, Clone, Copy, PartialEq, Eq, Structural)]
pub enum SafetyDecision {
    /// Not dangerous: go ahead.
    Proceed,
    /// Dangerous, previewed: only show what would happen.
    DryRun,
    /// Dangerous, forced: go ahead.
    ForceProceed,
}

/// The message of a blocked operation.
pub open spec fn blocked_text(module: Seq<char>, command: Seq<char>) -> Seq<char> {
    "⚠️ 危险操作 '"@ + module + seq![' '] + command
        + "' 被拦截!\n\n安全规则: 此操作将修改/删除仓库数据, 请先使用 --dry-run 预览。\n\n  gh "@ + module
        + seq![' '] + command + " --dry-run    预览将要发生的变更\n  gh "@ + module + seq![' '] + command
        + " --force      确认后强制执行\n\n💡 建议: 先用 --dry-run 查看效果, 确认无误再加 --force。"@
}

pub open spec fn command_or_empty(command: Option<&str>) -> Seq<char> {
    match command {
        Some(c) => c@,
        None => Seq::<char>::empty(),
    }
}

/// The guard: an operation that is not dangerous proceeds; a dangerous one
/// runs as a preview under `--dry-run`, runs when forced, and is blocked
/// otherwise.
pub fn check_safety(module: &str, command: Option<&str>, dry_run: bool, force: bool) -> (r: Result<
    SafetyDecision,
    GhError,
>)
    ensures
        !dangerous(module@, opt_str(command)) ==> r == Ok::<SafetyDecision, GhError>(SafetyDecision::Proceed),
        dangerous(module@, opt_str(command)) && dry_run ==> r == Ok::<SafetyDecision, GhError>(
            SafetyDecision::DryRun,
        ),
        dangerous(module@, opt_str(command)) && !dry_run && force ==> r == Ok::<SafetyDecision, GhError>(
            SafetyDecision::ForceProceed,
        ),
        dangerous(module@, opt_str(command)) && !dry_run && !force ==> (r matches Err(GhError::Blocked(m))
            && m@ == blocked_text(module@, command_or_empty(command))),
{
    if !is_dangerous(module, command) {
        return Ok(SafetyDecision::Proceed);
    }
    if dry_run {
        return Ok(SafetyDecision::DryRun);
    }
    if force {
        return Ok(SafetyDecision::ForceProceed);
    }
    let c: &str = match command {
        Some(c) => c,
        None => "",
    };
    let mut m = text::chars_of("⚠️ 危险操作 '");
    text::append_str(&mut m, module);
    m.push(' ');
    text::append_str(&mut m, c);
    text::append_str(
        &mut m,
        "' 被拦截!\n\n安全规则: 此操作将修改/删除仓库数据, 请先使用 --dry-run 预览。\n\n  gh ",
    );
    text::append_str(&mut m, module);
    m.push(' ');
    text::append_str(&mut m, c);
    text::append_str(&mut m, " --dry-run    预览将要发生的变更\n  gh ");
    text::append_str(&mut m, module);
    m.push(' ');
    text::append_str(&mut m, c);
    text::append_str(&mut m, " --force      确认后强制执行\n\n💡 建议: 先用 --dry-run 查看效果, 确认无误再加 --force。");
    proof {
        assert(c@ == command_or_empty(command));
        assert(m@ =~= blocked_text(module@, command_or_empty(command)));
    }
    Err(GhError::Blocked(text::string_of(&m)))
}

} // verus!
