use git_helper::branch::stale::StaleBranch;
use git_helper::cli::{
    config_set_message, deleted_message, export_choice, exported_message, format_multi_stats, format_overview,
    format_scan, format_stale, format_switch_results, format_whitelist, rename_message, repo_path_of,
    report_output_path, report_sort, revert_message, run_outcome, stats_view, whitelist_changed_message,
    BranchRenameArgs, CmdCtx, OutputFormat, ReportArgs, RunOutcome, SortBy, StatsView,
};
use git_helper::config::{default_retention_days, default_scan_depth, default_table_style, default_true, AppConfig};
use git_helper::error::{into_friendly_error, into_friendly_error_msg, timestamp_now, GhError};
use git_helper::languages::{language_for_path, language_of_file_name, language_stats, ls_files_paths, tally_languages};
use git_helper::log_ops::reset::ResetMode;
use git_helper::repo::{RepoHandle, RepoOverview, WorkingTreeFile};
use git_helper::safety::audit::AuditEntry;
use git_helper::stats::engine::AuthorStats;
use git_helper::stats::exporter::ExportFormat;
use git_helper::stats::report;
use git_helper::ui::{
    branch_change_message, branch_flags, check_selection, conflicted_count, error_reply, graph_limit,
    multi_op_of, open_repo, reset_mode_of, sync_command, BranchChange, MultiOp,
};

fn ctx(repo: Option<&str>) -> CmdCtx {
    CmdCtx {
        repo_path: repo.map(|s| s.to_string()),
        root: None,
        depth: 3,
        dry_run: false,
        force: false,
        quiet: false,
        format: OutputFormat::Table,
        output: None,
    }
}

#[test]
fn config_defaults() {
    let c = AppConfig::default();
    assert_eq!(c.general.scan_depth, 3);
    assert_eq!(c.general.default_author, "");
    assert_eq!(c.general.parallel_jobs, 0);
    assert!(c.display.color);
    assert_eq!(c.display.table_style, "rounded");
    assert!(c.audit.enabled);
    assert_eq!(c.audit.retention_days, 90);
    assert!(c.ignore.extra_patterns.is_empty());
    assert!(c.alias.is_empty());
    assert_eq!((default_scan_depth(), default_true(), default_retention_days()), (3, true, 90));
    assert_eq!(default_table_style(), "rounded");
}

#[test]
fn config_set_known_keys() {
    let mut c = AppConfig::default();
    c.set("scan_depth", "7").unwrap();
    assert_eq!(c.general.scan_depth, 7);
    c.set("scan_depth", "deep").unwrap();
    assert_eq!(c.general.scan_depth, 3);
    c.set("default_author", "ann").unwrap();
    assert_eq!(c.general.default_author, "ann");
    c.set("table_style", "plain").unwrap();
    assert_eq!(c.display.table_style, "plain");
    match c.set("colour", "no") {
        Err(GhError::Args(m)) => assert_eq!(m, "未知配置项: colour"),
        _ => panic!("unknown keys are refused"),
    }
    assert_eq!(c.general.scan_depth, 3);
    assert_eq!(config_set_message("scan_depth", "7"), "✅ scan_depth = 7");
}

#[test]
fn friendly_errors() {
    assert_eq!(
        into_friendly_error_msg("fatal: detached HEAD").as_deref(),
        Some("当前处于 detached HEAD 状态。建议先切换到具体分支。")
    );
    assert!(into_friendly_error_msg("something else").is_none());
    match into_friendly_error("Permission denied", "ctx") {
        GhError::Other(m) => assert_eq!(m, "Permission denied"),
        _ => panic!("matching is case sensitive"),
    }
    match into_friendly_error("open: permission denied", "ctx") {
        GhError::Git(m) => assert_eq!(m, "权限不足。请检查文件/目录权限，或确认仓库未被其他进程占用。"),
        _ => panic!(),
    }
    assert_eq!(GhError::Blocked("x".into()).message(), "操作被拦截: x");
    assert_eq!(GhError::Other("plain".into()).message(), "plain");
}

#[test]
fn command_choices() {
    assert_eq!(repo_path_of(&ctx(None)), ".");
    assert_eq!(repo_path_of(&ctx(Some("/r"))), "/r");
    assert_eq!(report_sort(None), report::SortBy::Commits);
    assert_eq!(report_sort(Some(SortBy::Active)), report::SortBy::Commits);
    assert_eq!(report_sort(Some(SortBy::Added)), report::SortBy::Added);
    assert_eq!(report_sort(Some(SortBy::Net)), report::SortBy::Net);
    assert_eq!(stats_view(OutputFormat::Csv), StatsView::Csv);
    assert_eq!(stats_view(OutputFormat::Md), StatsView::Markdown);
    assert_eq!(stats_view(OutputFormat::Json), StatsView::Json);
    let args = ReportArgs { output: None, md: false, csv: true };
    assert_eq!(export_choice(&args), ExportFormat::Csv);
    assert_eq!(report_output_path(&args), "stats-report.md");
    let md = ReportArgs { output: Some("out.md".into()), md: true, csv: true };
    assert_eq!(export_choice(&md), ExportFormat::Markdown);
    assert_eq!(report_output_path(&md), "out.md");
    assert_eq!(export_choice(&ReportArgs { output: None, md: false, csv: false }), ExportFormat::Json);
    assert_eq!(exported_message("out.md"), "报表已导出: out.md");
}

#[test]
fn run_outcomes() {
    assert!(matches!(run_outcome(false, &Ok("hi".into())), RunOutcome::Print(m) if m == "hi"));
    assert!(matches!(run_outcome(true, &Ok("hi".into())), RunOutcome::Silent));
    assert!(matches!(run_outcome(false, &Ok(String::new())), RunOutcome::Silent));
    assert!(matches!(run_outcome(true, &Err(GhError::Args("bad".into()))), RunOutcome::Fail(m) if m == "❌ 参数错误: bad"));
}

#[test]
fn command_messages() {
    let o = RepoOverview {
        path: "/r".into(),
        total_commits: 5,
        total_branches: 2,
        total_tags: 1,
        contributors: 3,
        head_branch: "main".into(),
        last_commit_date: "2024-05-01".into(),
    };
    assert_eq!(
        format_overview(&o),
        "=== 仓库概览 ===\n\n路径: /r\n总提交数: 5\n分支数: 2\n标签数: 1\n贡献者: 3\n当前分支: main\n最后提交: 2024-05-01"
    );
    assert_eq!(deleted_message(&vec!["a".into(), "b".into()]), "✅ 已删除 2 个分支:\na\nb");
    assert_eq!(deleted_message(&Vec::new()), "✅ 已删除 0 个分支:\n");
    let results = vec![("/a".to_string(), Ok(())), ("/b".to_string(), Err("Git 仓库错误: x".to_string()))];
    assert_eq!(format_switch_results(&results, "dev"), "✅ /a → dev\n❌ /b : Git 仓库错误: x\n");
    let r = BranchRenameArgs { pattern: "^f-".into(), replace: "feature/".into() };
    assert_eq!(rename_message(&r), "分支重命名功能: pattern=^f-, replace=feature/ (开发中)");
    assert_eq!(format_stale(&Vec::new(), 3), "没有 3 个月以上未活动的分支。");
    let stale = vec![StaleBranch { name: "old".into(), last_commit_date: "2023-01-01".into(), last_commit_author: "Dev".into() }];
    assert_eq!(
        format_stale(&stale, 3),
        "=== 休眠分支 (3 个月以上未活动) ===\n\n💤 old (2023-01-01 | Dev)\n\n共 1 个休眠分支"
    );
    assert_eq!(format_whitelist(&vec!["main".into(), "dev".into()]), "=== 白名单 ===\nmain\ndev");
    assert_eq!(whitelist_changed_message("keep", true), "✅ 已添加 'keep' 到白名单");
    assert_eq!(whitelist_changed_message("keep", false), "✅ 已从白名单移除 'keep'");
    assert_eq!(format_scan("/src", &Vec::new()), "在 '/src' 下没有找到 Git 仓库。");
    assert_eq!(format_scan("/src", &vec!["/src/a".into()]), "=== 找到 1 个 Git 仓库 ===\n\n📁 /src/a\n");
    let e = AuditEntry::new("id1".into(), "t".into(), "reset hard", "/r", "d", false, "ok");
    assert_eq!(
        revert_message(&Some(e), "id1"),
        "找到操作记录:\nreset hard | t | ok\n\n⏳ 回滚功能开发中，仅支持 branch cleanup 和 reset 的回滚。"
    );
    assert_eq!(revert_message(&None, "zz"), "未找到操作 ID: zz");
}

fn stats(name: &str, commits: usize, added: u64) -> AuthorStats {
    AuthorStats {
        name: name.into(),
        email: "e".into(),
        commits,
        files_changed: 0,
        lines_added: added,
        lines_deleted: 0,
        net_lines: 0,
        code_lines: 0,
        comment_lines: 0,
        blank_lines: 0,
        first_commit: String::new(),
        last_commit: String::new(),
        active_days: 0,
    }
}

#[test]
fn multi_stats_table() {
    let authors = vec![stats("Ann", 7, 24), stats("Bob", 2, 1)];
    let mut expected = format!("=== 多仓库统计汇总 ({} 个仓库) ===\n\n", 2);
    expected.push_str(&format!("{:<4} {:<20} {:<8} {:<10}\n", "排名", "作者", "提交数", "新增行"));
    expected.push_str(&"-".repeat(60));
    expected.push('\n');
    for (i, a) in authors.iter().enumerate() {
        expected.push_str(&format!("{:<4} {:<20} {:<8} {:<10}\n", i + 1, a.name, a.commits, a.lines_added));
    }
    assert_eq!(format_multi_stats(&authors, 2), expected);
}

#[test]
fn interface_decisions() {
    let wl = vec!["keep".to_string()];
    assert_eq!(branch_flags("main", false, "dev", &wl), (true, false));
    assert_eq!(branch_flags("keep", false, "dev", &wl), (true, false));
    assert_eq!(branch_flags("feat", false, "dev", &wl), (false, true));
    assert_eq!(branch_flags("feat", true, "dev", &wl), (false, false));
    assert_eq!(branch_flags("dev", false, "dev", &wl), (false, false));
    // the list protects exact names only
    assert_eq!(branch_flags("release/1", false, "dev", &wl), (false, true));
    let files = vec![
        WorkingTreeFile { path: "a".into(), index_status: 'U', worktree_status: 'U', staged: true, modified: true, untracked: false, conflicted: true },
        WorkingTreeFile { path: "b".into(), index_status: 'M', worktree_status: ' ', staged: true, modified: false, untracked: false, conflicted: false },
    ];
    assert_eq!(conflicted_count(&files), 1);
    let repo = RepoHandle { path: "/r".into() };
    assert_eq!(sync_command(&repo, "fetch").unwrap(), vec!["fetch", "--prune"]);
    assert_eq!(sync_command(&repo, "pull").unwrap(), vec!["pull"]);
    assert_eq!(sync_command(&repo, "push").unwrap(), vec!["push"]);
    assert_eq!(sync_command(&repo, "merge").unwrap_err(), "未知同步操作: merge");
    assert_eq!(reset_mode_of("hard").unwrap(), ResetMode::Hard);
    assert_eq!(reset_mode_of("soft").unwrap(), ResetMode::Soft);
    assert_eq!(reset_mode_of("mixed").unwrap(), ResetMode::Mixed);
    assert_eq!(reset_mode_of("keep").unwrap_err(), "未知重置模式");
    assert_eq!(multi_op_of("gc").unwrap(), MultiOp::Gc);
    assert!(matches!(multi_op_of("fetch"), Err(GhError::Args(m)) if m == "未知操作: fetch"));
    assert_eq!(check_selection(&Vec::new()).unwrap_err(), "请至少选择一个仓库");
    assert!(check_selection(&vec!["/r".into()]).is_ok());
    assert_eq!(graph_limit(None), 120);
    assert_eq!(graph_limit(Some(5)), 5);
    assert_eq!(branch_change_message(BranchChange::Created, "x"), "已创建分支: x");
    assert_eq!(error_reply(&GhError::Io("disk".into())), "文件系统错误: disk");
    assert_eq!(open_repo("/nope", false, false).unwrap_err(), "未找到: /nope 不是有效的 Git 仓库");
    assert_eq!(open_repo("/r", true, false).unwrap().path, "/r");
}

#[test]
fn languages_by_extension_or_name() {
    assert_eq!(language_of_file_name(&Some("main.RS".into())), "Rust");
    assert_eq!(language_of_file_name(&Some("App.tsx".into())), "TypeScript");
    assert_eq!(language_of_file_name(&Some("lib.cpp".into())), "C++");
    assert_eq!(language_of_file_name(&Some("Dockerfile".into())), "Build scripts");
    assert_eq!(language_of_file_name(&Some(".bashrc".into())), "Other");
    assert_eq!(language_of_file_name(&Some("x.tar.yaml".into())), "YAML");
    assert_eq!(language_of_file_name(&None), "Other");
    assert_eq!(language_for_path("src/app/main.py"), "Python");
    assert_eq!(language_for_path("docs/Makefile"), "Build scripts");
    assert_eq!(ls_files_paths("a.rs\0b c.md\0\0"), vec!["a.rs", "b c.md"]);
}

#[test]
fn language_totals_rank_by_size_then_name() {
    let entries = vec![
        ("Rust".to_string(), 100u64),
        ("Go".to_string(), 300),
        ("Rust".to_string(), 200),
        ("C".to_string(), 0),
        ("Zig".to_string(), 300),
        ("Huge".to_string(), 20 * 1024 * 1024 + 1),
    ];
    let t = tally_languages(&entries);
    let names: Vec<&str> = t.iter().map(|s| s.language.as_str()).collect();
    assert_eq!(names, vec!["Go", "Rust", "Zig"]);
    assert_eq!((t[1].bytes, t[1].files), (300, 2));
    assert_eq!((t[0].bytes, t[0].files), (300, 1));
}

#[test]
fn language_stats_go_by_the_last_path_component() {
    let files = vec![
        ("src/main.rs".to_string(), 100u64),
        ("web/app.ts".to_string(), 50),
        ("lib.rs".to_string(), 20),
        ("notes".to_string(), 5),
    ];
    let t = language_stats(&files);
    let rows: Vec<(&str, u64, usize)> = t.iter().map(|s| (s.language.as_str(), s.bytes, s.files)).collect();
    assert_eq!(rows, vec![("Rust", 120, 2), ("TypeScript", 50, 1), ("Other", 5, 1)]);
    assert_eq!(language_for_path("/abs/dir.d/Cargo.TOML"), "TOML");
}

#[test]
fn time_stamps_from_the_clock() {
    assert_eq!(timestamp_now(Some(0)), "1970-01-01 00:00:00 +0000");
    assert_eq!(timestamp_now(Some(1714557600)), "2024-05-01 10:00:00 +0000");
    // the leap day of a leap year, and the last second of a year
    assert_eq!(timestamp_now(Some(951782400)), "2000-02-29 00:00:00 +0000");
    assert_eq!(timestamp_now(Some(1704067199)), "2023-12-31 23:59:59 +0000");
    // 1900 and 2100 are not leap years, 2000 is
    assert_eq!(timestamp_now(Some(4107542400)), "2100-03-01 00:00:00 +0000");
    assert_eq!(timestamp_now(Some(86399 + 59 * 86400)), "1970-03-01 23:59:59 +0000");
    assert_eq!(timestamp_now(None), "unknown");
}
