use git_helper::error::GhError;
use git_helper::log_ops::reset::{execute_reset, reset_action, ResetAction, ResetMode};
use git_helper::log_ops::stash::{clean_stashes, list_stashes};
use git_helper::log_ops::viewer::{authors_cuttable_exec, format_log};
use git_helper::multi_repo::ops::{batch_gc, batch_pull, batch_status, multi_gc_action, GcAction};
use git_helper::multi_repo::runner::OpResult;
use git_helper::multi_repo::scanner::should_visit;
use git_helper::multi_repo::summary::format_summary;
use git_helper::repo::{CommitInfo, RepoHandle, RepoStatus};
use git_helper::safety::audit::{record_lines, AuditEntry, AuditLog};
use git_helper::safety::guard::{check_safety, is_dangerous, SafetyDecision};
use git_helper::safety::recovery::{find_entry, format_audit_log, stamps_cuttable_exec};

#[test]
fn dangerous_operations_are_listed_pairs() {
    assert!(is_dangerous("branch", Some("cleanup")));
    assert!(is_dangerous("reset", Some("hard")));
    assert!(is_dangerous("stash", Some("clean")));
    assert!(is_dangerous("stash", Some("clear")));
    assert!(is_dangerous("multi", Some("gc")));
    assert!(!is_dangerous("reset", Some("soft")));
    assert!(!is_dangerous("branch", None));
    assert!(!is_dangerous("gc", Some("multi")));
}

#[test]
fn guard_previews_forces_or_blocks() {
    assert!(matches!(check_safety("log", Some("show"), false, false), Ok(SafetyDecision::Proceed)));
    assert!(matches!(check_safety("reset", Some("hard"), true, true), Ok(SafetyDecision::DryRun)));
    assert!(matches!(check_safety("reset", Some("hard"), false, true), Ok(SafetyDecision::ForceProceed)));
    match check_safety("stash", Some("clean"), false, false) {
        Err(GhError::Blocked(m)) => {
            let expected = format!(
                "⚠️ 危险操作 '{} {}' 被拦截!\n\n\
        安全规则: 此操作将修改/删除仓库数据, 请先使用 --dry-run 预览。\n\
        \n  gh {} {} --dry-run    预览将要发生的变更\n  gh {} {} --force      确认后强制执行\n\
        \n💡 建议: 先用 --dry-run 查看效果, 确认无误再加 --force。",
                "stash", "clean", "stash", "clean", "stash", "clean",
            );
            assert_eq!(m, expected);
        }
        _ => panic!("a dangerous operation without --dry-run or --force must be blocked"),
    }
}

fn entry(id: &str, ts: &str, dry_run: bool) -> AuditEntry {
    AuditEntry::new(id.into(), ts.into(), "branch cleanup", "/repo", "details", dry_run, "ok")
}

#[test]
fn audit_entries_are_found_by_id_prefix() {
    let entries = vec![entry("abc-1", "t1", false), entry("abd-2", "t2", true), entry("abc-3", "t3", false)];
    let found = find_entry(&entries, "abc").unwrap();
    assert_eq!(found.id, "abc-1");
    assert_eq!(found.timestamp, "t1");
    assert_eq!(find_entry(&entries, "abd").unwrap().id, "abd-2");
    assert!(find_entry(&entries, "zzz").is_none());
    let log = AuditLog { path: "/data/audit.jsonl".into() };
    assert_eq!(log.path, "/data/audit.jsonl");
}

#[test]
fn audit_log_listing_cuts_time_stamps() {
    assert_eq!(format_audit_log(&Vec::new()), "暂无操作记录。\n");
    let entries = vec![entry("1", "2024-05-01T10:20:30+0800", false), entry("2", "short", true)];
    assert!(stamps_cuttable_exec(&entries));
    assert_eq!(
        format_audit_log(&entries),
        "=== 操作审计日志 ===\n\n\
2024-05-01T10:20:30 | ⚡ EXECUTED | branch cleanup | /repo | ok\n\
short | 🔍 DRY-RUN | branch cleanup | /repo | ok\n"
    );
    let bad = vec![entry("3", "2024-05-01 十点二十分三十秒", false)];
    assert!(!stamps_cuttable_exec(&bad));
}

#[test]
fn audit_records_are_the_non_blank_lines() {
    assert_eq!(record_lines("{\"a\":1}\n\n  \n{\"b\":2}\r\n"), vec!["{\"a\":1}", "{\"b\":2}"]);
}

#[test]
fn reset_previews_under_dry_run_in_every_mode() {
    let repo = RepoHandle { path: "/r".into() };
    for (mode, flag) in [(ResetMode::Soft, "--soft"), (ResetMode::Mixed, "--mixed"), (ResetMode::Hard, "--hard")] {
        for force in [false, true] {
            match reset_action(&repo, "HEAD~1", mode, true, true, force, None) {
                Ok(ResetAction::Preview(t)) => {
                    assert_eq!(t, format!("=== 预演 (--dry-run) ===\n\n将执行: git reset {} HEAD~1", flag))
                }
                other => panic!("expected a preview, got {:?}", other),
            }
        }
    }
}

#[test]
fn reset_blocks_an_unforced_hard_reset_only() {
    let repo = RepoHandle { path: "/r".into() };
    match reset_action(&repo, "main", ResetMode::Hard, false, false, false, None) {
        Err(GhError::Blocked(m)) => assert!(m.starts_with("⚠️ 危险操作 'reset hard' 被拦截!")),
        other => panic!("expected a block, got {:?}", other),
    }
    match reset_action(&repo, "main", ResetMode::Hard, true, false, true, Some("20240501\n")) {
        Ok(ResetAction::Execute(p)) => {
            assert_eq!(p.backup_branch.as_deref(), Some("gh-backup-20240501"));
            assert_eq!(p.reset_args, vec!["reset", "--hard", "main"]);
        }
        other => panic!("expected a plan, got {:?}", other),
    }
    match reset_action(&repo, "main", ResetMode::Soft, true, false, false, None) {
        Ok(ResetAction::Execute(p)) => {
            assert!(p.backup_branch.is_none());
            assert_eq!(p.reset_args, vec!["reset", "--soft", "main"]);
            assert_eq!(p.message, "✅ Soft reset 到 main");
        }
        other => panic!("expected a plan, got {:?}", other),
    }
}

#[test]
fn batch_gc_previews_under_dry_run() {
    let repos = vec!["/w/a".to_string(), "/w/b".to_string()];
    match multi_gc_action(SafetyDecision::DryRun, &repos, true) {
        GcAction::Preview(t) => assert_eq!(
            t,
            "=== 预演 (--dry-run) ===\n\n将执行: git gc --aggressive (/w/a)\n将执行: git gc --aggressive (/w/b)\n"
        ),
        GcAction::Run => panic!("expected a preview"),
    }
    match multi_gc_action(SafetyDecision::DryRun, &Vec::new(), false) {
        GcAction::Preview(t) => assert_eq!(t, "=== 预演 (--dry-run) ===\n\n"),
        GcAction::Run => panic!("expected a preview"),
    }
    assert!(matches!(multi_gc_action(SafetyDecision::ForceProceed, &repos, false), GcAction::Run));
    assert!(matches!(multi_gc_action(SafetyDecision::Proceed, &repos, false), GcAction::Run));
}

#[test]
fn reset_plans_a_backup_only_for_hard_resets() {
    let repo = RepoHandle { path: "/r".into() };
    let p = execute_reset(&repo, "HEAD~1", ResetMode::Hard, true, Some("20240501-102030\n"));
    assert_eq!(p.backup_branch.as_deref(), Some("gh-backup-20240501-102030"));
    assert_eq!(p.reset_args, vec!["reset", "--hard", "HEAD~1"]);
    assert_eq!(p.message, "✅ Hard reset 到 HEAD~1 (⚠️ 工作区已重置)");
    let p = execute_reset(&repo, "main", ResetMode::Hard, true, None);
    assert_eq!(p.backup_branch.as_deref(), Some("gh-backup-backup"));
    let p = execute_reset(&repo, "main", ResetMode::Soft, true, Some("x"));
    assert!(p.backup_branch.is_none());
    assert_eq!(p.reset_args, vec!["reset", "--soft", "main"]);
    assert_eq!(p.message, "✅ Soft reset 到 main");
    let p = execute_reset(&repo, "v1", ResetMode::Mixed, false, None);
    assert_eq!(p.reset_args, vec!["reset", "--mixed", "v1"]);
    assert_eq!(p.message, "✅ Mixed reset 到 v1");
}

#[test]
fn stash_listing_and_cleaning() {
    assert_eq!(list_stashes("  \n"), "没有 stash 记录。\n");
    let out = "stash@{0}|2 days ago|WIP\n\nstash@{1}|3 weeks ago|old\n|x|y\n";
    assert_eq!(list_stashes(out), format!("=== Stash 列表 ===\n\n{}", out));
    let (refs, msg) = clean_stashes(out, 30, true, 0);
    assert!(refs.is_empty());
    assert_eq!(msg, format!("=== Stash 清理预演 (--dry-run) ===\n\n清理 30 天前的 stash\n\n{}", out));
}

#[test]
fn stash_cleaning_keeps_stashes_within_the_limit() {
    let day: u64 = 86400;
    let now: u64 = 1_000 * day;
    // ages: 2 days, 31 days, 30 days and a few seconds, 45 days
    let times = format!(
        "stash@{{0}}|{}\n\nstash@{{1}}|{}\nstash@{{2}}|{}\n|{}\nstash@{{3}}|{}\nstash@{{4}}|soon\n",
        now - 2 * day,
        now - 31 * day,
        now - 30 * day - 5,
        now - 90 * day,
        now - 45 * day,
    );
    let (refs, msg) = clean_stashes(&times, 30, false, now);
    // the oldest are dropped last-listed first, so earlier references stay valid
    assert_eq!(refs, vec!["stash@{3}", "stash@{1}"]);
    assert_eq!(msg, "✅ 已清理 2 条 stash 记录");
    // with a large limit nothing is dropped
    let (refs, msg) = clean_stashes(&times, u32::MAX, false, now);
    assert!(refs.is_empty());
    assert_eq!(msg, "✅ 已清理 0 条 stash 记录");
    // with no limit every dated stash older than a day goes
    let (refs, _) = clean_stashes(&times, 0, false, now);
    assert_eq!(refs, vec!["stash@{3}", "stash@{2}", "stash@{1}", "stash@{0}"]);
    // a stash dated after the clock reading is kept
    let (refs, _) = clean_stashes("stash@{0}|500\n", 0, false, 100);
    assert!(refs.is_empty());
}

fn commit(hash: &str, author: &str) -> CommitInfo {
    CommitInfo { hash: hash.into(), author: author.into(), email: "e".into(), date: "2024-01-01".into(), message: "msg".into() }
}

#[test]
fn log_shows_commits_and_their_count() {
    assert_eq!(format_log(&Vec::new()), "没有找到匹配的提交记录。\n");
    let cs = vec![commit("abc1234", "Ann"), commit("def5678", "Bartholomew Longname")];
    assert!(authors_cuttable_exec(&cs));
    assert_eq!(
        format_log(&cs),
        "◉ abc1234  Ann  2024-01-01\n│  msg\n\n◉ def5678  Bartholomew Lo…  2024-01-01\n│  msg\n\n共 2 条提交记录\n"
    );
}

#[test]
fn batch_outcomes() {
    assert_eq!(batch_pull("\n"), "Already up to date.");
    assert_eq!(batch_pull(" Updating a..b\n"), "Updating a..b");
    assert_eq!(batch_gc("  done \n"), "done");
    let mut s = RepoStatus { branch: "main".into(), modified: 0, staged: 0, untracked: 0, ahead: 3, behind: 1 };
    assert_eq!(batch_status(&s), "main - clean");
    s.modified = 2;
    s.untracked = 1;
    assert_eq!(batch_status(&s), "main - 0 staged, 2 modified, 1 untracked");
}

#[test]
fn op_results_and_summary() {
    let ok = OpResult::from_outcome("/a", &Ok(Ok("fine".to_string())));
    assert!(ok.success);
    assert_eq!(ok.message, "fine");
    let failed = OpResult::from_outcome("/b", &Ok(Err(GhError::Git("boom".into()))));
    assert!(!failed.success);
    assert_eq!(failed.message, "操作失败: Git 仓库错误: boom");
    let closed = OpResult::from_outcome("/c", &Err(GhError::NotFound("/c 不是有效的 Git 仓库".into())));
    assert_eq!(closed.message, "无法打开仓库: 未找到: /c 不是有效的 Git 仓库");
    let summary = format_summary(&vec![ok, failed, closed], "git pull");
    assert_eq!(
        summary,
        "=== 批量 git pull 结果 ===\n\n✅ /a : fine\n❌ /b : 操作失败: Git 仓库错误: boom\n\
❌ /c : 无法打开仓库: 未找到: /c 不是有效的 Git 仓库\n\n总计: 3 个仓库, 1 成功, 2 失败\n"
    );
}

#[test]
fn scans_skip_hidden_and_system_directories() {
    assert!(should_visit(0, ".hidden-root"));
    assert!(should_visit(1, "projects"));
    assert!(!should_visit(1, ".git"));
    assert!(!should_visit(2, ".config"));
    assert!(!should_visit(1, "Node_Modules"));
    assert!(!should_visit(1, "Program Files (x86)"));
    assert!(should_visit(1, "targets"));
}
