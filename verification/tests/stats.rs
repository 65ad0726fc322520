use git_helper::repo::{CommitInfo, FileChange, RepoHandle};
use git_helper::stats::analyzer::{classify_line, get_extension, LineType};
use git_helper::stats::engine::{analyze, analyze_checked, AuthorStats, StatsResult};
use git_helper::stats::exporter::{escape_csv, format_csv};
use git_helper::stats::filter::should_ignore;
use git_helper::stats::merge::merge_authors;
use git_helper::stats::report::{format_markdown, format_table, table_names_fit, SortBy};

#[test]
fn test_blank_line() {
    assert_eq!(classify_line("", "rs"), LineType::Blank);
    assert_eq!(classify_line("   ", "py"), LineType::Blank);
    assert_eq!(classify_line("\t", "go"), LineType::Blank);
}

#[test]
fn test_rust_comments() {
    assert_eq!(classify_line("fn main() {", "rs"), LineType::Code);
    assert_eq!(classify_line("// comment", "rs"), LineType::Comment);
    assert_eq!(classify_line("/// doc comment", "rs"), LineType::Comment);
    assert_eq!(classify_line("/* block */", "rs"), LineType::Comment);
}

#[test]
fn test_python_comments() {
    assert_eq!(classify_line("def foo():", "py"), LineType::Code);
    assert_eq!(classify_line("# TODO", "py"), LineType::Comment);
    assert_eq!(classify_line("x = 1  # inline", "py"), LineType::Code);
}

#[test]
fn test_js_comments() {
    assert_eq!(classify_line("const x = 1;", "js"), LineType::Code);
    assert_eq!(classify_line("// comment", "js"), LineType::Comment);
    assert_eq!(classify_line("* jsdoc", "js"), LineType::Comment);
}

#[test]
fn ignores_build_output() {
    assert!(should_ignore("target/debug/main.o"));
    assert!(should_ignore("node_modules/react/index.js"));
    assert!(should_ignore("dist/bundle.js"));
}

#[test]
fn ignores_binary_files() {
    assert!(should_ignore("icon.png"));
    assert!(should_ignore("font.woff2"));
    assert!(should_ignore("app.exe"));
}

#[test]
fn ignores_lock_files() {
    assert!(should_ignore("Cargo.lock"));
    assert!(should_ignore("package-lock.json"));
}

#[test]
fn keeps_source_code() {
    assert!(!should_ignore("src/main.rs"));
    assert!(!should_ignore("app.ts"));
    assert!(!should_ignore("main.go"));
}

#[test]
fn keeps_config_files() {
    assert!(!should_ignore("README.md"));
    assert!(!should_ignore("Cargo.toml"));
    assert!(!should_ignore("package.json"));
    assert!(!should_ignore("Dockerfile"));
    assert!(!should_ignore("LICENSE"));
}

// ---------------------------------------------------------------------------

#[test]
fn extension_is_lowercased_last_dot_part() {
    assert_eq!(get_extension("src/Main.RS"), "rs");
    assert_eq!(get_extension("archive.tar.GZ"), "gz");
    assert_eq!(get_extension("Makefile"), "");
    assert_eq!(get_extension("docs.d/Makefile"), "");
    assert_eq!(get_extension(".gitignore"), "gitignore");
}

#[test]
fn classify_compares_lowercased_extension() {
    assert_eq!(classify_line("# heading", "PY"), LineType::Comment);
    assert_eq!(classify_line("-- note", "txt"), LineType::Comment);
    assert_eq!(classify_line("*/", "rs"), LineType::Comment);
    assert_eq!(classify_line("#include <x>", "c"), LineType::Code);
}

#[test]
fn filter_treats_backslashes_as_separators() {
    assert!(should_ignore("target\\debug\\main.o"));
    assert!(!should_ignore("src\\lib.rs"));
}

fn commit(hash: &str, author: &str, email: &str, date: &str) -> CommitInfo {
    CommitInfo {
        hash: hash.into(),
        author: author.into(),
        email: email.into(),
        date: date.into(),
        message: "m".into(),
    }
}

fn change(path: &str, added: u64, deleted: u64) -> FileChange {
    FileChange { path: path.into(), added, deleted }
}

fn sample() -> (RepoHandle, Vec<CommitInfo>, Vec<Vec<FileChange>>) {
    let repo = RepoHandle { path: "/work/repo".into() };
    let commits = vec![
        commit("c3", "Ann B", "Ann@X.org", "2024-03-01"),
        commit("c2", "Bob", "bob@x.org", "2024-02-01"),
        commit("c1", "Ann", "ann@x.org", "2024-01-01"),
    ];
    let diffs = vec![
        vec![change("src/a.rs", 10, 2), change("Cargo.lock", 50, 50)],
        vec![change("README", 3, 0)],
        vec![change("src/a.rs", 5, 1), change("docs/b.md", 1, 1)],
    ];
    (repo, commits, diffs)
}

fn author<'a>(r: &'a StatsResult, email_lower: &str) -> &'a AuthorStats {
    r.authors.iter().find(|a| a.email.to_lowercase() == email_lower).unwrap()
}

#[test]
fn analyze_groups_authors_by_lowercased_email() {
    let (repo, commits, diffs) = sample();
    let r = analyze(&repo, &commits, &diffs);
    assert_eq!(r.repo_path, "/work/repo");
    assert_eq!(r.total_commits, 3);
    assert_eq!(r.authors.len(), 2);
    // most commits first
    assert_eq!(r.authors[0].email.to_lowercase(), "ann@x.org");
    let ann = author(&r, "ann@x.org");
    assert_eq!(ann.commits, 2);
    assert_eq!(ann.name, "Ann"); // the name of the last commit walked
    assert_eq!(ann.email, "Ann@X.org"); // the e-mail first seen
    assert_eq!(ann.files_changed, 3); // Cargo.lock is ignored
    assert_eq!(ann.lines_added, 16);
    assert_eq!(ann.lines_deleted, 4);
    assert_eq!(ann.net_lines, 12); // added minus deleted
    assert_eq!(ann.code_lines, 270);
    assert_eq!(ann.comment_lines, 15);
    assert_eq!(ann.blank_lines, 15);
    assert_eq!(ann.first_commit, "2024-01-01");
    assert_eq!(ann.last_commit, "2024-03-01");
    let bob = author(&r, "bob@x.org");
    assert_eq!(bob.commits, 1);
    // a path without an extension is counted without line estimates
    assert_eq!(bob.code_lines, 0);
    assert_eq!(bob.lines_added, 3);
    assert_eq!(bob.net_lines, 3);
    // the commits of all authors add up to the total
    assert_eq!(r.authors.iter().map(|a| a.commits).sum::<usize>(), r.total_commits);
}

#[test]
fn analyze_sums_files_by_path_and_skips_ignored() {
    let (repo, commits, diffs) = sample();
    let r = analyze(&repo, &commits, &diffs);
    let paths: Vec<&str> = r.files.iter().map(|f| f.path.as_str()).collect();
    assert_eq!(paths, vec!["src/a.rs", "README", "docs/b.md"]);
    let a = &r.files[0];
    assert_eq!((a.lines_added, a.lines_deleted), (15, 3));
    assert_eq!((a.code_lines, a.comment_lines, a.blank_lines), (180, 10, 10));
}

#[test]
fn analyze_checked_refuses_overflowing_figures() {
    let repo = RepoHandle { path: ".".into() };
    let commits = vec![commit("a", "A", "a@a", "2024-01-01"), commit("b", "A", "a@a", "2024-01-02")];
    let diffs = vec![vec![change("x.rs", u64::MAX, 0)], vec![change("y.rs", 1, 0)]];
    assert!(analyze_checked(&repo, &commits, &diffs).is_none());
    let small = vec![vec![change("x.rs", 1, 0)], vec![change("y.rs", 1, 0)]];
    assert!(analyze_checked(&repo, &commits, &small).is_some());
}

fn stats(name: &str, email: &str, commits: usize, added: u64, net: i64) -> AuthorStats {
    AuthorStats {
        name: name.into(),
        email: email.into(),
        commits,
        files_changed: 0,
        lines_added: added,
        lines_deleted: 1,
        net_lines: net,
        code_lines: 7,
        comment_lines: 2,
        blank_lines: 3,
        first_commit: String::new(),
        last_commit: String::new(),
        active_days: 0,
    }
}

fn result() -> StatsResult {
    StatsResult {
        repo_path: "/r".into(),
        authors: vec![stats("Ann", "ann@x", 1, 50, -3), stats("Bob", "bob@x", 4, 10, 8), stats("Cy", "cy@x", 1, 70, 0)],
        files: Vec::new(),
        total_commits: 6,
    }
}

fn expected_table(r: &StatsResult, order: &[usize]) -> String {
    let mut output = String::new();
    output.push_str(&format!("仓库: {}\n统计提交数: {}\n\n", r.repo_path, r.total_commits));
    output.push_str(&format!(
        "{:<4} {:<20} {:<8} {:<10} {:<10} {:<10} {:<10}\n",
        "排名", "作者", "提交数", "新增行", "删除行", "净增", "代码行"
    ));
    output.push_str(&"-".repeat(80));
    output.push('\n');
    for (i, k) in order.iter().enumerate() {
        let a = &r.authors[*k];
        output.push_str(&format!(
            "{:<4} {:<20} {:<8} {:<10} {:<10} {:<10} {:<10}\n",
            i + 1, a.name, a.commits, a.lines_added, a.lines_deleted, a.net_lines, a.code_lines
        ));
    }
    output
}

#[test]
fn table_ranks_by_the_chosen_figure() {
    let r = result();
    assert!(table_names_fit(&r));
    assert_eq!(format_table(&r, &SortBy::Commits), expected_table(&r, &[1, 0, 2]));
    assert_eq!(format_table(&r, &SortBy::Added), expected_table(&r, &[2, 0, 1]));
    assert_eq!(format_table(&r, &SortBy::Net), expected_table(&r, &[1, 2, 0]));
}

#[test]
fn table_cuts_long_names() {
    let mut r = result();
    r.authors = vec![stats("Abcdefghijklmnopqrstuvwxyz", "a@x", 1, 1, 1)];
    let t = format_table(&r, &SortBy::Commits);
    assert!(t.contains("1    Abcdefghijklmnopqrs… 1"));
    // a cut inside a multi-byte character is refused
    r.authors = vec![stats("张三李四王五赵六钱七孙八周九吴十郑一冯二王三", "z@x", 1, 1, 1)];
    assert!(!table_names_fit(&r));
}

#[test]
fn markdown_lists_authors_by_commits() {
    let r = result();
    let md = format_markdown(&r);
    let mut expected = String::new();
    expected.push_str("# Git 贡献统计报表\n\n");
    expected.push_str("**仓库**: `/r`\n**统计提交数**: 6\n\n");
    expected.push_str("## 贡献排行\n\n");
    expected.push_str("| 排名 | 作者 | 提交数 | 新增行 | 删除行 | 净增 | 代码行 |\n");
    expected.push_str("|------|------|--------|--------|--------|------|--------|\n");
    expected.push_str("| 1 | Bob | 4 | 10 | 1 | 8 | 7 |\n");
    expected.push_str("| 2 | Ann | 1 | 50 | 1 | -3 | 7 |\n");
    expected.push_str("| 3 | Cy | 1 | 70 | 1 | 0 | 7 |\n");
    assert_eq!(md, expected);
}

#[test]
fn csv_quotes_special_fields() {
    assert_eq!(escape_csv("plain"), "plain");
    assert_eq!(escape_csv("Doe, Jane"), "\"Doe, Jane\"");
    assert_eq!(escape_csv("say \"hi\""), "\"say \"\"hi\"\"\"");
    assert_eq!(escape_csv("two\nlines"), "\"two\nlines\"");
    let mut r = result();
    r.authors = vec![stats("Doe, Jane", "j@x", 2, 5, -1)];
    assert_eq!(
        format_csv(&r),
        "排名,作者,邮箱,提交数,新增行,删除行,净增,代码行,注释行,空行\n1,\"Doe, Jane\",j@x,2,5,1,-1,7,2,3\n"
    );
}

#[test]
fn merge_sums_each_author_of_a_group_once() {
    let all = vec![
        stats("Ann", "ann@x", 2, 10, 0),
        stats("Bob", "bob@x", 5, 1, 0),
        stats("Ann2", "ann@x", 3, 4, 0),
        stats("ANN", "ANN@X", 7, 100, 0),
    ];
    let merged = merge_authors(&all).unwrap();
    assert_eq!(merged.len(), 2);
    // the group keeps its first author's name and e-mail
    let ann = merged.iter().find(|a| a.email == "ann@x").unwrap();
    assert_eq!(ann.name, "Ann");
    assert_eq!(ann.commits, 2 + 3 + 7);
    assert_eq!(ann.lines_added, 10 + 4 + 100);
    assert_eq!(ann.lines_deleted, 3);
    assert_eq!(ann.code_lines, 21);
    let bob = merged.iter().find(|a| a.email == "bob@x").unwrap();
    assert_eq!(bob.commits, 5);
    assert_eq!(merged[0].email, "ann@x");
    assert_eq!(merged[1].email, "bob@x");
}

#[test]
fn merge_refuses_overflow() {
    let all = vec![stats("A", "a@x", 1, u64::MAX / 2 + 1, 0), stats("B", "A@X", 1, u64::MAX / 2 + 1, 0)];
    assert!(merge_authors(&all).is_none());
    let one = vec![stats("A", "a@x", 1, u64::MAX, 0)];
    assert_eq!(merge_authors(&one).unwrap()[0].lines_added, u64::MAX);
}
