use git_helper::branch::batch_ops::batch_checkout;
use git_helper::branch::cleanup::{
    cleanup_progress, execute_cleanup, format_dry_run, CleanupProgress, is_protected_branch, scan_cleanable, wildcard_match, CleanableBranch,
    CleanableBranchResponse, CleanupStep,
};
use git_helper::branch::stale::{find_stale, is_older_than_months, parse_date, today_ymd, dates_checkable_exec};
use git_helper::branch::whitelist::WhitelistConfig;
use git_helper::error::GhError;
use git_helper::repo::{BranchInfo, RepoHandle};

fn branch(name: &str, date: &str) -> BranchInfo {
    BranchInfo {
        name: name.into(),
        is_head: false,
        commit_hash: "abc1234".into(),
        commit_message: format!("work on {}", name),
        commit_date: date.into(),
        author: "Dev".into(),
    }
}

#[test]
fn wildcard_matches_exact_names_and_prefixes() {
    assert!(wildcard_match("main", "main"));
    assert!(!wildcard_match("main", "mainline"));
    assert!(wildcard_match("release/*", "release/1.0"));
    assert!(!wildcard_match("release/*", "release/"));
    assert!(!wildcard_match("release/*", "release"));
    assert!(!wildcard_match("release/*", "released-x"));
    assert!(!wildcard_match("release/*", "releaseXY"));
    assert!(wildcard_match("release/*", "release/a/b"));
    assert!(!wildcard_match("main", "maintenance"));
}

#[test]
fn builtin_and_whitelisted_branches_are_protected() {
    let none: Vec<String> = Vec::new();
    for name in ["main", "master", "develop", "dev", "production", "staging", "release/2.1", "hotfix/x"] {
        assert!(is_protected_branch(name, &none), "{}", name);
    }
    assert!(!is_protected_branch("feature/login", &none));
    let wl = vec!["feature/*".to_string(), "keep".to_string()];
    assert!(is_protected_branch("feature/login", &wl));
    assert!(is_protected_branch("keep", &wl));
    assert!(!is_protected_branch("keeper", &wl));
}

fn scanned() -> Vec<CleanableBranch> {
    let branches = vec![
        branch("main", "2024-01-01"),
        branch("feature-a", "2024-01-02"),
        branch("release/1", "2024-01-03"),
        branch("wip", "2024-01-04"),
        branch("broken", "2024-01-05"),
    ];
    let merged = vec![Some(true), Some(true), Some(true), Some(false), None];
    scan_cleanable("main", &branches, &merged, &Vec::new())
}

#[test]
fn scan_lists_merged_branches_except_the_current_one() {
    let c = scanned();
    assert_eq!(c.len(), 2);
    assert_eq!(c[0].name, "feature-a");
    assert!(!c[0].is_protected);
    assert_eq!(c[0].reason, "已合并到 main");
    assert_eq!(c[0].last_commit_date, "2024-01-02");
    assert_eq!(c[0].last_commit_message, "work on feature-a");
    assert_eq!(c[1].name, "release/1");
    assert!(c[1].is_protected);
    assert_eq!(c[1].reason, "已合并但被白名单/内置规则保护");
    let resp = CleanableBranchResponse::from_branch(&c[1]);
    assert_eq!(resp.name, "release/1");
    assert!(resp.is_protected);
}

#[test]
fn cleanup_never_deletes_protected_branches() {
    let c = scanned();
    let steps = execute_cleanup(&c, false);
    assert_eq!(steps.len(), 1);
    assert!(matches!(&steps[0], CleanupStep::Delete(n) if n == "feature-a"));
    let dry = execute_cleanup(&c, true);
    assert_eq!(dry.len(), 1);
    assert!(matches!(&dry[0], CleanupStep::Report(m) if m == "feature-a (dry-run, 未实际删除)"));
}

#[test]
fn dry_run_report_lists_branches_and_totals() {
    let c = scanned();
    let expected = "=== 分支清理预演 (--dry-run) ===\n\n\
✅ safe-delete feature-a  (2024-01-02 | work on feature-a)\n   └─ 已合并到 main\n\
🔒 protected release/1  (2024-01-03 | work on release/1)\n   └─ 已合并但被白名单/内置规则保护\n\
\n总计: 2 个已合并分支, 1 个可安全删除, 1 个被保护\n\
\n💡 确认无误后使用 --force 执行实际删除。\n";
    assert_eq!(format_dry_run(&c), expected);
    assert_eq!(format_dry_run(&Vec::new()), "=== 分支清理预演 (--dry-run) ===\n\n没有可清理的分支。\n");
    let merged = vec![CleanableBranch {
        name: "feature/merged".into(),
        last_commit_date: "2026-07-15".into(),
        last_commit_message: "feat: test commit".into(),
        reason: "已合并到 main".into(),
        is_protected: false,
    }];
    let out = format_dry_run(&merged);
    assert!(out.contains("feature/merged"));
    assert!(out.contains("safe-delete"));
}

fn cleanable(name: &str, is_protected: bool) -> CleanableBranch {
    CleanableBranch {
        name: name.into(),
        last_commit_date: "2024-01-01".into(),
        last_commit_message: "m".into(),
        reason: "已合并到 main".into(),
        is_protected,
    }
}

#[test]
fn cleanup_deletes_in_order_and_stops_at_the_first_failure() {
    let bs = vec![cleanable("a", false), cleanable("keep", true), cleanable("b", false), cleanable("c", false)];
    let steps = execute_cleanup(&bs, false);
    let ok = || -> Result<(), GhError> { Ok(()) };
    assert!(matches!(cleanup_progress(&steps, vec![]), CleanupProgress::Delete(n) if n == "a"));
    assert!(matches!(cleanup_progress(&steps, vec![ok()]), CleanupProgress::Delete(n) if n == "b"));
    match cleanup_progress(&steps, vec![ok(), ok(), ok()]) {
        CleanupProgress::Done(names) => assert_eq!(names, vec!["a", "b", "c"]),
        other => panic!("expected the end, got {:?}", other),
    }
    match cleanup_progress(&steps, vec![ok(), Err(GhError::Git("refused".into()))]) {
        CleanupProgress::Failed(GhError::Git(m)) => assert_eq!(m, "refused"),
        other => panic!("expected the failure, got {:?}", other),
    }
    // a dry run reports every unprotected branch and deletes none
    let steps = execute_cleanup(&bs, true);
    match cleanup_progress(&steps, vec![]) {
        CleanupProgress::Done(names) => {
            assert_eq!(names, vec!["a (dry-run, 未实际删除)", "b (dry-run, 未实际删除)", "c (dry-run, 未实际删除)"])
        }
        other => panic!("expected the end, got {:?}", other),
    }
}

#[test]
fn dates_parse_from_the_first_ten_bytes() {
    assert_eq!(parse_date("2024-03-15"), Some((2024, 3, 15)));
    assert_eq!(parse_date("2024-03-15 10:00"), Some((2024, 3, 15)));
    assert_eq!(parse_date("2024/03/15"), None);
    assert_eq!(parse_date("-2024-3-15"), None);
}

#[test]
fn age_in_months_ignores_days() {
    let today = (2024, 5, 1);
    assert!(is_older_than_months("2024-01-31", 3, today));
    assert!(is_older_than_months("2024-02-01", 3, today));
    assert!(!is_older_than_months("2024-03-01", 3, today));
    assert!(is_older_than_months("2023-11-20", 6, today));
    assert!(!is_older_than_months("", 0, today));
    assert!(!is_older_than_months("2024-01", 0, today));
    assert!(!is_older_than_months("not a date", 0, today));
}

#[test]
fn today_falls_back_to_a_fixed_date() {
    assert_eq!(today_ymd(Some("2025-12-24\n")), (2025, 12, 24));
    assert_eq!(today_ymd(Some("yesterday!")), (2026, 7, 19));
    assert_eq!(today_ymd(None), (2026, 7, 19));
}

#[test]
fn stale_branches_exclude_the_current_one() {
    let branches = vec![branch("main", "2020-01-01"), branch("old", "2023-01-01"), branch("new", "2024-04-20")];
    let today = (2024, 5, 1);
    assert!(dates_checkable_exec(&branches, today));
    let stale = find_stale(&branches, "main", 3, today);
    assert_eq!(stale.len(), 1);
    assert_eq!(stale[0].name, "old");
    assert_eq!(stale[0].last_commit_date, "2023-01-01");
    assert_eq!(stale[0].last_commit_author, "Dev");
}

#[test]
fn whitelist_add_and_remove() {
    let mut wl = WhitelistConfig::default();
    assert_eq!(wl.protected, vec!["main", "master", "develop", "release/*", "hotfix/*"]);
    wl.add("keep".into());
    wl.add("keep".into());
    assert_eq!(wl.protected.iter().filter(|b| *b == "keep").count(), 1);
    assert!(is_protected_branch("keep", &wl.protected));
    wl.remove("keep");
    assert!(!wl.protected.iter().any(|b| b == "keep"));
    wl.remove("master");
    assert_eq!(wl.protected, vec!["main", "develop", "release/*", "hotfix/*"]);
}

#[test]
fn batch_checkout_pairs_paths_with_outcomes() {
    let repos = vec![
        ("/a".to_string(), RepoHandle { path: "/a".into() }),
        ("/b".to_string(), RepoHandle { path: "/b".into() }),
    ];
    let outcomes = vec![Ok(()), Err(GhError::Git("no such branch".into()))];
    let r = batch_checkout(&repos, &outcomes);
    assert_eq!(r.len(), 2);
    assert_eq!(r[0], ("/a".to_string(), Ok(())));
    assert_eq!(r[1], ("/b".to_string(), Err("Git 仓库错误: no such branch".to_string())));
}
