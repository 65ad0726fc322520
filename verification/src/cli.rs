//! The command line: argument values, the context of a command, and what
//! each command decides and prints.

use vstd::prelude::*;
use crate::branch::stale::StaleBranch;
use crate::error::{GhError, error_text};
use crate::repo::RepoOverview;
use crate::safety::audit::AuditEntry;
use crate::stats::exporter::ExportFormat;
use crate::stats::engine::AuthorStats;
use crate::stats::report;
use crate::text::{self, dec_str, pad_right};

verus! {

// ---------------------------------------------------------------------------
// Argument values
// ---------------------------------------------------------------------------

/// `stats`: statistics of the current repository, or a sub-command.
#[derive(Debug, Clone)]
pub struct StatsArgs {
    pub command: Option<StatsSubcommand>,
    pub author: Option<String>,
    pub since: Option<String>,
    pub until: Option<String>,
    pub branch: Option<String>,
    pub sort_by: Option<SortBy>,
}

#[derive(Debug, Clone)]
pub enum StatsSubcommand {
    Report(ReportArgs),
    Multi(MultiStatsArgs),
    Overview(OverviewArgs),
}

#[derive(Debug, Clone)]
pub struct ReportArgs {
    pub output: Option<String>,
    pub md: bool,
    pub csv: bool,
}

#[derive(Debug, Clone)]
pub struct MultiStatsArgs {
    pub root: String,
    pub depth: usize,
    pub author: Option<String>,
}

#[derive(Debug, Clone)]
pub struct OverviewArgs {
    pub repo: Option<String>,
}

#[derive(Debug, Clone)]
pub struct BranchArgs {
    pub command: BranchSubcommand,
}

#[derive(Debug, Clone)]
pub enum BranchSubcommand {
    Cleanup(CleanupArgs),
    SwitchAll(SwitchAllArgs),
    Rename(BranchRenameArgs),
    Stale(StaleArgs),
    Whitelist(WhitelistArgs),
}

#[derive(Debug, Clone)]
pub struct CleanupArgs {
    pub remote: bool,
    pub whitelist: Option<String>,
}

#[derive(Debug, Clone)]
pub struct SwitchAllArgs {
    pub root: String,
    pub branch: String,
}

#[derive(Debug, Clone)]
pub struct BranchRenameArgs {
    pub pattern: String,
    pub replace: String,
}

#[derive(Debug, Clone)]
pub struct StaleArgs {
    pub months: u32,
}

#[derive(Debug, Clone)]
pub struct WhitelistArgs {
    pub command: WhitelistSubcommand,
}

#[derive(Debug, Clone)]
pub enum WhitelistSubcommand {
    Show,
    Add(WhitelistModifyArgs),
    Remove(WhitelistModifyArgs),
}

#[derive(Debug, Clone)]
pub struct WhitelistModifyArgs {
    pub branch: String,
}

#[derive(Debug, Clone)]
pub struct LogArgs {
    pub author: Option<String>,
    pub since: Option<String>,
    pub until: Option<String>,
    pub grep: Option<String>,
    pub max_count: Option<usize>,
}

#[derive(Debug, Clone)]
pub struct ResetArgs {
    pub command: ResetSubcommand,
}

#[derive(Debug, Clone)]
pub enum ResetSubcommand {
    Soft(ResetTargetArgs),
    Mixed(ResetTargetArgs),
    Hard(ResetTargetArgs),
}

#[derive(Debug, Clone)]
pub struct ResetTargetArgs {
    pub target: String,
    pub backup: bool,
}

#[derive(Debug, Clone)]
pub struct StashArgs {
    pub command: StashSubcommand,
}

#[derive(Debug, Clone)]
pub enum StashSubcommand {
    List,
    Clean(StashCleanArgs),
}

#[derive(Debug, Clone)]
pub struct StashCleanArgs {
    pub older_than: u32,
}

#[derive(Debug, Clone)]
pub struct MultiArgs {
    pub command: MultiSubcommand,
}

#[derive(Debug, Clone)]
pub enum MultiSubcommand {
    Scan(ScanArgs),
    Pull(PullArgs),
    Gc(GcArgs),
    Status(StatusArgs),
}

#[derive(Debug, Clone)]
pub struct ScanArgs {
    pub root: String,
    pub depth: usize,
}

#[derive(Debug, Clone)]
pub struct PullArgs {
    pub root: String,
    pub rebase: bool,
}

#[derive(Debug, Clone)]
pub struct GcArgs {
    pub root: String,
    pub aggressive: bool,
}

#[derive(Debug, Clone)]
pub struct StatusArgs {
    pub root: String,
    pub short: bool,
}

#[derive(Debug, Clone)]
pub struct AuditArgs {
    pub command: AuditSubcommand,
}

#[derive(Debug, Clone)]
pub enum AuditSubcommand {
    Log,
    Revert(AuditRevertArgs),
}

#[derive(Debug, Clone)]
pub struct AuditRevertArgs {
    pub id: String,
}

#[derive(Debug, Clone)]
pub struct ConfigArgs {
    pub command: ConfigSubcommand,
}

#[derive(Debug, Clone)]
pub enum ConfigSubcommand {
    Show,
    SetValue(ConfigSetArgs),
}

#[derive(Debug, Clone)]
pub struct ConfigSetArgs {
    pub key: String,
    pub value: String,
}

/// How a command's result is printed.
#[derive(Debug, Clone, Copy, PartialEq, Eq, Structural)]
pub enum OutputFormat {
    Table,
    Json,
    Csv,
    Md,
}

/// What `stats` ranks authors by.
#[derive(Debug, Clone, Copy, PartialEq, Eq, Structural)]
pub enum SortBy {
    Commits,
    Added,
    Net,
    Active,
}

/// The options every command sees.
#[derive(Debug, Clone)]
pub struct CmdCtx {
    pub repo_path: Option<String>,
    pub root: Option<String>,
    pub depth: usize,
    pub dry_run: bool,
    pub force: bool,
    pub quiet: bool,
    pub format: OutputFormat,
    pub output: Option<String>,
}

// ---------------------------------------------------------------------------
// Choices
// ---------------------------------------------------------------------------

/// The repository a command works on: `--repo`, else the current
/// directory.
pub fn repo_path_of(ctx: &CmdCtx) -> (r: String)
    ensures
        r@ == match ctx.repo_path {
            Some(p) => p@,
            None => "."@,
        },
{
    match &ctx.repo_path {
        Some(p) => text::string_of(&text::chars_of(p.as_str())),
        None => text::string_of(&text::chars_of(".")),
    }
}

/// The ranking of the `stats` table: commits unless `--sort-by` says
/// otherwise; `active` ranks by commits too.
pub fn report_sort(sort_by: Option<SortBy>) -> (r: report::SortBy)
    ensures
        r == match sort_by {
            Some(SortBy::Added) => report::SortBy::Added,
            Some(SortBy::Net) => report::SortBy::Net,
            _ => report::SortBy::Commits,
        },
{
    match sort_by {
        Some(SortBy::Added) => report::SortBy::Added,
        Some(SortBy::Net) => report::SortBy::Net,
        _ => report::SortBy::Commits,
    }
}

/// How `stats` prints its result.
#[derive(Debug, Clone, Copy, PartialEq, Eq, Structural)]
pub enum StatsView {
    Table,
    Json,
    Markdown,
    Csv,
}

/// The view for an output format.
pub fn stats_view(format: OutputFormat) -> (r: StatsView)
    ensures
        r == match format {
            OutputFormat::Table => StatsView::Table,
            OutputFormat::Json => StatsView::Json,
            OutputFormat::Md => StatsView::Markdown,
            OutputFormat::Csv => StatsView::Csv,
        },
{
    match format {
        OutputFormat::Table => StatsView::Table,
        OutputFormat::Json => StatsView::Json,
        OutputFormat::Md => StatsView::Markdown,
        OutputFormat::Csv => StatsView::Csv,
    }
}

/// The export format of `stats report`: Markdown with `--md`, else CSV
/// with `--csv`, else JSON.
pub fn export_choice(args: &ReportArgs) -> (r: ExportFormat)
    ensures
        r == (if args.md {
            ExportFormat::Markdown
        } else if args.csv {
            ExportFormat::Csv
        } else {
            ExportFormat::Json
        }),
{
    if args.md {
        ExportFormat::Markdown
    } else if args.csv {
        ExportFormat::Csv
    } else {
        ExportFormat::Json
    }
}

/// Where `stats report` writes: `--output`, else `stats-report.md`.
pub fn report_output_path(args: &ReportArgs) -> (r: String)
    ensures
        r@ == match args.output {
            Some(p) => p@,
            None => "stats-report.md"@,
        },
{
    match &args.output {
        Some(p) => text::string_of(&text::chars_of(p.as_str())),
        None => text::string_of(&text::chars_of("stats-report.md")),
    }
}

/// What the tool prints when a command ends.
#[derive(Debug, Clone)]
pub enum RunOutcome {
    /// Print this text on standard output.
    Print(String),
    /// Print nothing.
    Silent,
    /// Print this text on standard error and exit with status 1.
    Fail(String),
}

/// The end of a command: its message unless `--quiet` or empty; its
/// error, marked, on failure.
pub fn run_outcome(quiet: bool, result: &Result<String, GhError>) -> (r: RunOutcome)
    ensures
        match result {
            Ok(m) => if !quiet && m@.len() > 0 {
                r matches RunOutcome::Print(p) && p@ == m@
            } else {
                r is Silent
            },
            Err(e) => r matches RunOutcome::Fail(f) && f@ == "❌ "@ + error_text(*e),
        },
{
    match result {
        Ok(m) => {
            let mv = text::chars_of(m.as_str());
            if !quiet && mv.len() > 0 {
                RunOutcome::Print(text::string_of(&mv))
            } else {
                RunOutcome::Silent
            }
        },
        Err(e) => {
            let mut f = text::chars_of("❌ ");
            text::append_str(&mut f, e.message().as_str());
            RunOutcome::Fail(text::string_of(&f))
        },
    }
}

// ---------------------------------------------------------------------------
// Messages
// ---------------------------------------------------------------------------

pub open spec fn exported_text(path: Seq<char>) -> Seq<char> {
    "报表已导出: "@ + path
}

/// The report of an export.
pub fn exported_message(path: &str) -> (r: String)
    ensures
        r@ == exported_text(path@),
{
    let mut m = text::chars_of("报表已导出: ");
    text::append_str(&mut m, path);
    text::string_of(&m)
}

pub open spec fn overview_text(o: RepoOverview) -> Seq<char> {
    "=== 仓库概览 ===\n\n路径: "@ + o.path@ + "\n总提交数: "@ + dec_str(o.total_commits as nat)
        + "\n分支数: "@ + dec_str(o.total_branches as nat) + "\n标签数: "@ + dec_str(o.total_tags as nat)
        + "\n贡献者: "@ + dec_str(o.contributors as nat) + "\n当前分支: "@ + o.head_branch@
        + "\n最后提交: "@ + o.last_commit_date@
}

/// The repository overview.
pub fn format_overview(o: &RepoOverview) -> (r: String)
    ensures
        r@ == overview_text(*o),
{
    let mut m = text::chars_of("=== 仓库概览 ===\n\n路径: ");
    text::append_str(&mut m, o.path.as_str());
    text::append_str(&mut m, "\n总提交数: ");
    text::push_u64(&mut m, o.total_commits);
    text::append_str(&mut m, "\n分支数: ");
    text::push_u64(&mut m, o.total_branches as u64);
    text::append_str(&mut m, "\n标签数: ");
    text::push_u64(&mut m, o.total_tags as u64);
    text::append_str(&mut m, "\n贡献者: ");
    text::push_u64(&mut m, o.contributors as u64);
    text::append_str(&mut m, "\n当前分支: ");
    text::append_str(&mut m, o.head_branch.as_str());
    text::append_str(&mut m, "\n最后提交: ");
    text::append_str(&mut m, o.last_commit_date.as_str());
    text::string_of(&m)
}

/// `items` joined with `sep` between them.
pub open spec fn joined(items: Seq<Seq<char>>, sep: Seq<char>) -> Seq<char>
    decreases items.len(),
{
    if items.len() == 0 {
        Seq::<char>::empty()
    } else if items.len() == 1 {
        items[0]
    } else {
        joined(items.drop_last(), sep) + sep + items.last()
    }
}

pub open spec fn string_views(v: Seq<String>) -> Seq<Seq<char>> {
    v.map_values(|s: String| s@)
}

fn push_joined(out: &mut Vec<char>, items: &Vec<String>, sep: &str)
    ensures
        final(out)@ == old(out)@ + joined(string_views(items@), sep@),
{
    let ghost start = out@;
    let ghost views = string_views(items@);
    let mut i: usize = 0;
    while i < items.len()
        invariant
            i <= items@.len(),
            views == string_views(items@),
            out@ == start + joined(views.take(i as int), sep@),
        decreases items.len() - i,
    {
        proof {
            assert(views.take(i + 1).drop_last() =~= views.take(i as int));
        }
        if i > 0 {
            text::append_str(out, sep);
        }
        text::append_str(out, items[i].as_str());
        proof {
            if i == 0 {
                assert(views.take(1) =~= seq![items@[0]@]);
                assert(out@ =~= start + joined(views.take(1), sep@));
            } else {
                assert(out@ =~= start + joined(views.take(i + 1), sep@));
            }
        }
        i = i + 1;
    }
    assert(views.take(items@.len() as int) =~= views);
}

pub open spec fn deleted_text(deleted: Seq<Seq<char>>) -> Seq<char> {
    "✅ 已删除 "@ + dec_str(deleted.len()) + " 个分支:\n"@ + joined(deleted, "\n"@)
}

/// The report of a cleanup that deleted `deleted`.
pub fn deleted_message(deleted: &Vec<String>) -> (r: String)
    ensures
        r@ == deleted_text(string_views(deleted@)),
{
    let mut m = text::chars_of("✅ 已删除 ");
    text::push_u64(&mut m, deleted.len() as u64);
    text::append_str(&mut m, " 个分支:\n");
    push_joined(&mut m, deleted, "\n");
    text::string_of(&m)
}

pub open spec fn switch_line(path: Seq<char>, outcome: Result<(), Seq<char>>, branch: Seq<char>) -> Seq<
    char,
> {
    match outcome {
        Ok(()) => "✅ "@ + path + " → "@ + branch + seq!['\n'],
        Err(e) => "❌ "@ + path + " : "@ + e + seq!['\n'],
    }
}

pub open spec fn switch_outcome(r: (String, Result<(), String>)) -> (Seq<char>, Result<(), Seq<char>>) {
    (
        r.0@,
        match r.1 {
            Ok(()) => Ok(()),
            Err(e) => Err(e@),
        },
    )
}

pub open spec fn switch_lines(rs: Seq<(String, Result<(), String>)>, branch: Seq<char>, n: nat) -> Seq<
    char,
>
    decreases n,
{
    if n == 0 {
        Seq::<char>::empty()
    } else {
        let o = switch_outcome(rs[n - 1]);
        switch_lines(rs, branch, (n - 1) as nat) + switch_line(o.0, o.1, branch)
    }
}

/// The report of switching repositories to `branch`: one line each.
pub fn format_switch_results(results: &Vec<(String, Result<(), String>)>, branch: &str) -> (r: String)
    ensures
        r@ == switch_lines(results@, branch@, results@.len() as nat),
{
    let mut m: Vec<char> = Vec::new();
    let mut i: usize = 0;
    while i < results.len()
        invariant
            i <= results@.len(),
            m@ == switch_lines(results@, branch@, i as nat),
        decreases results.len() - i,
    {
        let (path, outcome) = &results[i];
        let mut line: Vec<char>;
        match outcome {
            Ok(()) => {
                line = text::chars_of("✅ ");
                text::append_str(&mut line, path.as_str());
                text::append_str(&mut line, " → ");
                text::append_str(&mut line, branch);
            },
            Err(e) => {
                line = text::chars_of("❌ ");
                text::append_str(&mut line, path.as_str());
                text::append_str(&mut line, " : ");
                text::append_str(&mut line, e.as_str());
            },
        }
        line.push('\n');
        text::append_chars(&mut m, &line);
        i = i + 1;
    }
    text::string_of(&m)
}

pub open spec fn rename_text(pattern: Seq<char>, replace: Seq<char>) -> Seq<char> {
    "分支重命名功能: pattern="@ + pattern + ", replace="@ + replace + " (开发中)"@
}

/// The answer of `branch rename`, which is not available yet.
pub fn rename_message(args: &BranchRenameArgs) -> (r: String)
    ensures
        r@ == rename_text(args.pattern@, args.replace@),
{
    let mut m = text::chars_of("分支重命名功能: pattern=");
    text::append_str(&mut m, args.pattern.as_str());
    text::append_str(&mut m, ", replace=");
    text::append_str(&mut m, args.replace.as_str());
    text::append_str(&mut m, " (开发中)");
    text::string_of(&m)
}

pub open spec fn stale_line(b: StaleBranch) -> Seq<char> {
    "💤 "@ + b.name@ + " ("@ + b.last_commit_date@ + " | "@ + b.last_commit_author@ + ")\n"@
}

pub open spec fn stale_lines(bs: Seq<StaleBranch>, n: nat) -> Seq<char>
    decreases n,
{
    if n == 0 {
        Seq::<char>::empty()
    } else {
        stale_lines(bs, (n - 1) as nat) + stale_line(bs[n - 1])
    }
}

pub open spec fn stale_text(bs: Seq<StaleBranch>, months: u32) -> Seq<char> {
    if bs.len() == 0 {
        "没有 "@ + dec_str(months as nat) + " 个月以上未活动的分支。"@
    } else {
        "=== 休眠分支 ("@ + dec_str(months as nat) + " 个月以上未活动) ===\n\n"@ + stale_lines(bs, bs.len())
            + "\n共 "@ + dec_str(bs.len()) + " 个休眠分支"@
    }
}

/// The report of `branch stale`.
pub fn format_stale(stale: &Vec<StaleBranch>, months: u32) -> (r: String)
    ensures
        r@ == stale_text(stale@, months),
{
    if stale.len() == 0 {
        let mut m = text::chars_of("没有 ");
        text::push_u64(&mut m, months as u64);
        text::append_str(&mut m, " 个月以上未活动的分支。");
        return text::string_of(&m);
    }
    let mut m = text::chars_of("=== 休眠分支 (");
    text::push_u64(&mut m, months as u64);
    text::append_str(&mut m, " 个月以上未活动) ===\n\n");
    let ghost head = m@;
    let mut i: usize = 0;
    while i < stale.len()
        invariant
            i <= stale@.len(),
            m@ == head + stale_lines(stale@, i as nat),
        decreases stale.len() - i,
    {
        let b = &stale[i];
        let mut line = text::chars_of("💤 ");
        text::append_str(&mut line, b.name.as_str());
        text::append_str(&mut line, " (");
        text::append_str(&mut line, b.last_commit_date.as_str());
        text::append_str(&mut line, " | ");
        text::append_str(&mut line, b.last_commit_author.as_str());
        text::append_str(&mut line, ")\n");
        assert(line@ =~= stale_line(*b));
        text::append_chars(&mut m, &line);
        i = i + 1;
    }
    text::append_str(&mut m, "\n共 ");
    text::push_u64(&mut m, stale.len() as u64);
    text::append_str(&mut m, " 个休眠分支");
    text::string_of(&m)
}

pub open spec fn whitelist_text(patterns: Seq<Seq<char>>) -> Seq<char> {
    "=== 白名单 ===\n"@ + joined(patterns, "\n"@)
}

/// The listing of `branch whitelist show`.
pub fn format_whitelist(protected: &Vec<String>) -> (r: String)
    ensures
        r@ == whitelist_text(string_views(protected@)),
{
    let mut m = text::chars_of("=== 白名单 ===\n");
    push_joined(&mut m, protected, "\n");
    text::string_of(&m)
}

pub open spec fn whitelist_added_text(branch: Seq<char>) -> Seq<char> {
    "✅ 已添加 '"@ + branch + "' 到白名单"@
}

pub open spec fn whitelist_removed_text(branch: Seq<char>) -> Seq<char> {
    "✅ 已从白名单移除 '"@ + branch + "'"@
}

/// The report of adding (`added`) or removing a whitelist entry.
pub fn whitelist_changed_message(branch: &str, added: bool) -> (r: String)
    ensures
        r@ == (if added {
            whitelist_added_text(branch@)
        } else {
            whitelist_removed_text(branch@)
        }),
{
    let mut m = if added {
        text::chars_of("✅ 已添加 '")
    } else {
        text::chars_of("✅ 已从白名单移除 '")
    };
    text::append_str(&mut m, branch);
    if added {
        text::append_str(&mut m, "' 到白名单");
    } else {
        text::append_str(&mut m, "'");
    }
    text::string_of(&m)
}

pub open spec fn scan_lines(repos: Seq<Seq<char>>, n: nat) -> Seq<char>
    decreases n,
{
    if n == 0 {
        Seq::<char>::empty()
    } else {
        scan_lines(repos, (n - 1) as nat) + "📁 "@ + repos[n - 1] + seq!['\n']
    }
}

pub open spec fn scan_text(root: Seq<char>, repos: Seq<Seq<char>>) -> Seq<char> {
    if repos.len() == 0 {
        "在 '"@ + root + "' 下没有找到 Git 仓库。"@
    } else {
        "=== 找到 "@ + dec_str(repos.len()) + " 个 Git 仓库 ===\n\n"@ + scan_lines(repos, repos.len())
    }
}

/// The report of `multi scan` over `root`, listing the repositories found.
pub fn format_scan(root: &str, repos: &Vec<String>) -> (r: String)
    ensures
        r@ == scan_text(root@, string_views(repos@)),
{
    let ghost views = string_views(repos@);
    if repos.len() == 0 {
        let mut m = text::chars_of("在 '");
        text::append_str(&mut m, root);
        text::append_str(&mut m, "' 下没有找到 Git 仓库。");
        return text::string_of(&m);
    }
    let mut m = text::chars_of("=== 找到 ");
    text::push_u64(&mut m, repos.len() as u64);
    text::append_str(&mut m, " 个 Git 仓库 ===\n\n");
    let ghost head = m@;
    let mut i: usize = 0;
    while i < repos.len()
        invariant
            i <= repos@.len(),
            views == string_views(repos@),
            m@ == head + scan_lines(views, i as nat),
        decreases repos.len() - i,
    {
        text::append_str(&mut m, "📁 ");
        text::append_str(&mut m, repos[i].as_str());
        m.push('\n');
        assert(m@ =~= head + scan_lines(views, (i + 1) as nat));
        i = i + 1;
    }
    text::string_of(&m)
}

pub open spec fn revert_text(found: Option<AuditEntry>, id: Seq<char>) -> Seq<char> {
    match found {
        Some(e) => "找到操作记录:\n"@ + e.operation@ + " | "@ + e.timestamp@ + " | "@ + e.result@
            + "\n\n⏳ 回滚功能开发中，仅支持 branch cleanup 和 reset 的回滚。"@,
        None => "未找到操作 ID: "@ + id,
    }
}

/// The answer of `audit revert <id>` given the record found for the id.
pub fn revert_message(found: &Option<AuditEntry>, id: &str) -> (r: String)
    ensures
        r@ == revert_text(*found, id@),
{
    match found {
        Some(e) => {
            let mut m = text::chars_of("找到操作记录:\n");
            text::append_str(&mut m, e.operation.as_str());
            text::append_str(&mut m, " | ");
            text::append_str(&mut m, e.timestamp.as_str());
            text::append_str(&mut m, " | ");
            text::append_str(&mut m, e.result.as_str());
            text::append_str(&mut m, "\n\n⏳ 回滚功能开发中，仅支持 branch cleanup 和 reset 的回滚。");
            text::string_of(&m)
        },
        None => {
            let mut m = text::chars_of("未找到操作 ID: ");
            text::append_str(&mut m, id);
            text::string_of(&m)
        },
    }
}

pub open spec fn config_set_text(key: Seq<char>, value: Seq<char>) -> Seq<char> {
    "✅ "@ + key + " = "@ + value
}

/// The report of `config set`.
pub fn config_set_message(key: &str, value: &str) -> (r: String)
    ensures
        r@ == config_set_text(key@, value@),
{
    let mut m = text::chars_of("✅ ");
    text::append_str(&mut m, key);
    text::append_str(&mut m, " = ");
    text::append_str(&mut m, value);
    text::string_of(&m)
}

pub open spec fn multi_stats_row(rank: nat, a: AuthorStats) -> Seq<char> {
    pad_right(dec_str(rank), 4) + seq![' '] + pad_right(a.name@, 20) + seq![' '] + pad_right(
        dec_str(a.commits as nat),
        8,
    ) + seq![' '] + pad_right(dec_str(a.lines_added as nat), 10) + seq!['\n']
}

pub open spec fn multi_stats_rows(au: Seq<AuthorStats>, n: nat) -> Seq<char>
    decreases n,
{
    if n == 0 {
        Seq::<char>::empty()
    } else {
        multi_stats_rows(au, (n - 1) as nat) + multi_stats_row(n, au[n - 1])
    }
}

pub open spec fn multi_stats_text(au: Seq<AuthorStats>, repo_count: usize) -> Seq<char> {
    "=== 多仓库统计汇总 ("@ + dec_str(repo_count as nat) + " 个仓库) ===\n\n"@ + pad_right("排名"@, 4)
        + seq![' '] + pad_right("作者"@, 20) + seq![' '] + pad_right("提交数"@, 8) + seq![' '] + pad_right(
        "新增行"@,
        10,
    ) + seq!['\n'] + text::repeat_char('-', 60) + seq!['\n'] + multi_stats_rows(au, au.len())
}

fn push_padded_str(out: &mut Vec<char>, s: &str, width: usize)
    ensures
        final(out)@ == old(out)@ + pad_right(s@, width as nat),
{
    let v = text::chars_of(s);
    text::push_padded(out, &v, width);
}

/// The summary table of merged authors over `repo_count` repositories, in
/// the given order.
pub fn format_multi_stats(authors: &Vec<AuthorStats>, repo_count: usize) -> (r: String)
    ensures
        r@ == multi_stats_text(authors@, repo_count),
{
    let mut m = text::chars_of("=== 多仓库统计汇总 (");
    text::push_u64(&mut m, repo_count as u64);
    text::append_str(&mut m, " 个仓库) ===\n\n");
    push_padded_str(&mut m, "排名", 4);
    m.push(' ');
    push_padded_str(&mut m, "作者", 20);
    m.push(' ');
    push_padded_str(&mut m, "提交数", 8);
    m.push(' ');
    push_padded_str(&mut m, "新增行", 10);
    m.push('\n');
    text::push_repeat(&mut m, '-', 60);
    m.push('\n');
    let ghost head = m@;
    let mut i: usize = 0;
    while i < authors.len()
        invariant
            i <= authors@.len(),
            m@ == head + multi_stats_rows(authors@, i as nat),
        decreases authors.len() - i,
    {
        let a = &authors[i];
        let mut row: Vec<char> = Vec::new();
        text::push_padded(&mut row, &text::u64_chars((i + 1) as u64), 4);
        assert(row@ =~= pad_right(dec_str((i + 1) as nat), 4));
        row.push(' ');
        push_padded_str(&mut row, a.name.as_str(), 20);
        row.push(' ');
        text::push_padded(&mut row, &text::u64_chars(a.commits as u64), 8);
        row.push(' ');
        text::push_padded(&mut row, &text::u64_chars(a.lines_added), 10);
        row.push('\n');
        text::append_chars(&mut m, &row);
        i = i + 1;
    }
    text::string_of(&m)
}

} // verus!
