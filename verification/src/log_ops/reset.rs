//! Resets, with an optional backup branch before a hard one.

use vstd::prelude::*;
use crate::error::GhError;
use crate::repo::{RepoHandle, strs};
use crate::safety::guard::{self, SafetyDecision};
use crate::text;

verus! {

/// How far a reset goes.
#[derive(Debug, Clone, Copy, PartialEq, Eq, Structural)]
pub enum ResetMode {
    Soft,
    Mixed,
    Hard,
}

/// What a reset does, in order: create the backup branch (when there is
/// one), run the reset invocation, then report the message.
#[derive(Debug, Clone)]
pub struct ResetPlan {
    pub backup_branch: Option<String>,
    pub reset_args: Vec<String>,
    pub message: String,
}

/// The time stamp of a backup from the output of `date +%Y%m%d-%H%M%S`
/// (`None` when the command could not run): the trimmed output, or
/// `backup`.
pub open spec fn stamp_of(date_output: Option<Seq<char>>) -> Seq<char> {
    match date_output {
        Some(o) => text::trim(o),
        None => "backup"@,
    }
}

pub open spec fn mode_flag(mode: ResetMode) -> Seq<char> {
    match mode {
        ResetMode::Soft => "--soft"@,
        ResetMode::Mixed => "--mixed"@,
        ResetMode::Hard => "--hard"@,
    }
}

pub open spec fn reset_message(mode: ResetMode, target: Seq<char>) -> Seq<char> {
    match mode {
        ResetMode::Soft => "✅ Soft reset 到 "@ + target,
        ResetMode::Mixed => "✅ Mixed reset 到 "@ + target,
        ResetMode::Hard => "✅ Hard reset 到 "@ + target + " (⚠️ 工作区已重置)"@,
    }
}

pub open spec fn opt_view(o: Option<&str>) -> Option<Seq<char>> {
    match o {
        Some(s) => Some(s@),
        None => None,
    }
}

/// The reset of `repo` to `target`: a backup branch `gh-backup-<stamp>`
/// only for a hard reset with `backup`, the `reset` invocation of the
/// mode, and the message reported after it.
pub fn execute_reset(
    repo: &RepoHandle,
    target: &str,
    mode: ResetMode,
    backup: bool,
    date_output: Option<&str>,
) -> (r: ResetPlan)
    ensures
        match r.backup_branch {
            Some(b) => backup && mode == ResetMode::Hard && b@ == "gh-backup-"@ + stamp_of(
                opt_view(date_output),
            ),
            None => !(backup && mode == ResetMode::Hard),
        },
        strs(r.reset_args@) == seq!["reset"@, mode_flag(mode), target@],
        r.message@ == reset_message(mode, target@),
{
    let backup_branch = if backup && mode == ResetMode::Hard {
        let mut name = text::chars_of("gh-backup-");
        match date_output {
            Some(o) => {
                let t = text::trim_chars(&text::chars_of(o));
                text::append_chars(&mut name, &t);
            },
            None => {
                text::append_str(&mut name, "backup");
            },
        }
        Some(text::string_of(&name))
    } else {
        None
    };
    let (reset_args, message) = match mode {
        ResetMode::Soft => {
            let mut m = text::chars_of("✅ Soft reset 到 ");
            text::append_str(&mut m, target);
            (repo.reset_soft(target), text::string_of(&m))
        },
        ResetMode::Mixed => {
            let mut m = text::chars_of("✅ Mixed reset 到 ");
            text::append_str(&mut m, target);
            (repo.reset_mixed(target), text::string_of(&m))
        },
        ResetMode::Hard => {
            let mut m = text::chars_of("✅ Hard reset 到 ");
            text::append_str(&mut m, target);
            text::append_str(&mut m, " (⚠️ 工作区已重置)");
            (repo.reset_hard(target), text::string_of(&m))
        },
    };
    ResetPlan { backup_branch, reset_args, message }
}

/// What a reset command does: show a preview, or carry out a plan.
#[derive(Debug, Clone)]
pub enum ResetAction {
    Preview(String),
    Execute(ResetPlan),
}

/// The preview of a reset under `--dry-run`: the invocation that would run.
pub open spec fn reset_preview_text(mode: ResetMode, target: Seq<char>) -> Seq<char> {
    "=== 预演 (--dry-run) ===\n\n将执行: git reset "@ + mode_flag(mode) + seq![' '] + target
}

/// The reset command: under `--dry-run` (in any mode) a preview and no
/// change; otherwise a hard reset is blocked unless forced, and every other
/// reset goes ahead with the plan of `execute_reset`.
pub fn reset_action(
    repo: &RepoHandle,
    target: &str,
    mode: ResetMode,
    backup: bool,
    dry_run: bool,
    force: bool,
    date_output: Option<&str>,
) -> (r: Result<ResetAction, GhError>)
    ensures
        dry_run ==> (r matches Ok(ResetAction::Preview(t)) && t@ == reset_preview_text(mode, target@)),
        !dry_run && mode == ResetMode::Hard && !force ==> (r matches Err(GhError::Blocked(m)) && m@
            == guard::blocked_text("reset"@, "hard"@)),
        !dry_run && !(mode == ResetMode::Hard && !force) ==> (r matches Ok(ResetAction::Execute(p)) && {
            &&& match p.backup_branch {
                Some(b) => backup && mode == ResetMode::Hard && b@ == "gh-backup-"@ + stamp_of(
                    opt_view(date_output),
                ),
                None => !(backup && mode == ResetMode::Hard),
            }
            &&& strs(p.reset_args@) == seq!["reset"@, mode_flag(mode), target@]
            &&& p.message@ == reset_message(mode, target@)
        }),
{
    if dry_run {
        let mut m = text::chars_of("=== 预演 (--dry-run) ===\n\n将执行: git reset ");
        match mode {
            ResetMode::Soft => text::append_str(&mut m, "--soft"),
            ResetMode::Mixed => text::append_str(&mut m, "--mixed"),
            ResetMode::Hard => text::append_str(&mut m, "--hard"),
        }
        m.push(' ');
        text::append_str(&mut m, target);
        return Ok(ResetAction::Preview(text::string_of(&m)));
    }
    if mode == ResetMode::Hard {
        proof {
            assert(guard::dangerous_ops()[1] == ("reset"@, "hard"@));
        }
        match guard::check_safety("reset", Some("hard"), false, force) {
            Ok(_) => {},
            Err(e) => return Err(e),
        }
    }
    Ok(ResetAction::Execute(execute_reset(repo, target, mode, backup, date_output)))
}

} // verus!
