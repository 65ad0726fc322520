use git_helper::error::GhError;
use git_helper::repo::{count_nonblank_lines, status_records_cut_cleanly, HeadOutputs, RepoHandle};

fn repo() -> RepoHandle {
    RepoHandle { path: "/work/r".into() }
}

#[test]
fn open_needs_a_git_directory_or_head() {
    assert_eq!(RepoHandle::open("/x", true, false).unwrap().path, "/x");
    assert_eq!(RepoHandle::open("/x.git", false, true).unwrap().path, "/x.git");
    match RepoHandle::open("/nowhere", false, false) {
        Err(GhError::NotFound(m)) => assert_eq!(m, "/nowhere 不是有效的 Git 仓库"),
        _ => panic!("expected NotFound"),
    }
}

#[test]
fn git_failures_are_reworded() {
    match RepoHandle::git_failure("fatal: not a git repository (or any parent)\n") {
        GhError::Git(m) => assert_eq!(m, "当前目录不是一个 Git 仓库。请进入 Git 仓库目录后重试，或使用 --repo 指定仓库路径。"),
        _ => panic!(),
    }
    match RepoHandle::git_failure("  error: something odd \n") {
        GhError::Git(m) => assert_eq!(m, "error: something odd"),
        _ => panic!(),
    }
}

#[test]
fn commit_listing_arguments() {
    let args = RepoHandle::commits_command(Some("ann"), None, Some("2024-01-01"), Some("dev"), Some("fix"), Some(20));
    assert_eq!(
        args,
        vec!["log", "--format=%H|%an|%ae|%ad|%s", "--date=short", "--author", "ann", "--until", "2024-01-01", "--grep", "fix", "-n", "20", "dev"]
    );
}

#[test]
fn commits_parse_five_fields() {
    let out = "0123456789abcdef|Ann|ann@x|2024-01-02|fix: a|b\n\n   \nbroken line\nfedcba9|Bob|bob@x|2024-01-01|init\n";
    let cs = repo().commits(out);
    assert_eq!(cs.len(), 2);
    assert_eq!(cs[0].hash, "0123456");
    assert_eq!(cs[0].author, "Ann");
    assert_eq!(cs[0].email, "ann@x");
    assert_eq!(cs[0].date, "2024-01-02");
    assert_eq!(cs[0].message, "fix: a|b");
    assert_eq!(cs[1].hash, "fedcba9");
}

#[test]
fn branches_parse_six_fields() {
    let out = "main|*|abcdef123|subject one|2024-01-02|Ann\nfeature|| 1234567890|x|2024-01-01|Bob\nlonely\n";
    let bs = repo().local_branches(out);
    assert_eq!(bs.len(), 3);
    assert_eq!(bs[0].name, "main");
    assert!(bs[0].is_head);
    assert_eq!(bs[0].commit_hash, "abcdef1");
    assert_eq!(bs[0].commit_message, "subject one");
    assert_eq!(bs[0].commit_date, "2024-01-02");
    assert_eq!(bs[0].author, "Ann");
    assert!(!bs[1].is_head);
    assert_eq!(bs[1].commit_hash, " 123456");
    assert_eq!(bs[2].name, "lonely");
    assert_eq!(bs[2].author, "");
}

#[test]
fn merged_when_merge_base_is_the_tip() {
    let r = repo();
    assert!(r.is_merged("abc\n", " abc"));
    assert!(!r.is_merged("abc\n", "abd\n"));
    assert_eq!(r.current_branch("  main\n"), "main");
    assert_eq!(RepoHandle::is_merged_commands("feat", "main").0, vec!["merge-base", "main", "feat"]);
    assert_eq!(r.delete_branch("feat", true), vec!["branch", "-D", "feat"]);
    assert_eq!(r.delete_branch("feat", false), vec!["branch", "-d", "feat"]);
}

#[test]
fn numstat_totals() {
    let out = "10\t2\tsrc/a.rs\n-\t-\timg.png\n3\t0\told.rs\tnew.rs\nnot numstat\n";
    let (stats, files) = repo().diff_stats(out);
    assert_eq!(stats.files_changed, 3);
    assert_eq!(stats.insertions, 13);
    assert_eq!(stats.deletions, 2);
    assert_eq!(files[1].path, "img.png");
    assert_eq!((files[1].added, files[1].deleted), (0, 0));
    assert_eq!(files[2].path, "new.rs");
    let big = format!("{}\t0\ta\n1\t0\tb\n", u64::MAX);
    assert!(repo().diff_stats_checked(&big).is_none());
    assert!(repo().diff_stats_checked(out).is_some());
}

#[test]
fn status_counts_codes() {
    let porcelain = "M  staged.rs\n M modified.rs\nMM both.rs\n?? new.rs\nUU conflict.rs\n";
    let s = repo().status(Some("dev".into()), porcelain, Some("2\t5\n"));
    assert_eq!(s.branch, "dev");
    assert_eq!(s.staged, 3);
    assert_eq!(s.modified, 3);
    assert_eq!(s.untracked, 1);
    assert_eq!((s.behind, s.ahead), (2, 5));
    let s = repo().status(None, "", None);
    assert_eq!(s.branch, "HEAD");
    assert_eq!((s.behind, s.ahead), (0, 0));
    assert!(repo().has_uncommitted_changes(" M x\n"));
    assert!(!repo().has_uncommitted_changes("\n \n"));
}

#[test]
fn changes_agree_with_status_counts() {
    for out in ["", "\n", "\n\n", " M a.rs\n", "?? new.rs\r\n", "\nA  x\n\n", "UU c\n!! ignored\n"] {
        let s = repo().status(None, out, None);
        let counted = s.staged + s.modified + s.untracked > 0;
        assert_eq!(repo().has_uncommitted_changes(out), counted, "{:?}", out);
    }
    // a malformed line is seen by one and counted by neither
    let s = repo().status(None, "? \n", None);
    assert_eq!(s.staged + s.modified + s.untracked, 0);
    assert!(repo().has_uncommitted_changes("? \n"));
    let s = repo().status(None, " ?x\n", None);
    assert_eq!(s.staged + s.modified + s.untracked, 0);
    assert!(repo().has_uncommitted_changes(" ?x\n"));
    // a line of whitespace status codes is counted, yet holds no text
    let s = repo().status(None, "\t\t\n", None);
    assert!(s.staged + s.modified > 0);
    assert!(!repo().has_uncommitted_changes("\t\t\n"));
}

#[test]
fn overview_counts_lines() {
    let head = HeadOutputs { commit_count: "42\n".into(), shortlog: "  3\tAnn <a>\n  1\tBob <b>\n".into(), last_date: "2024-05-01\n".into() };
    let o = repo().overview(Some(head), "* main\n  dev\n", "", Some("main".into()));
    assert_eq!(o.path, "/work/r");
    assert_eq!(o.total_commits, 42);
    assert_eq!(o.total_branches, 2);
    assert_eq!(o.total_tags, 0);
    assert_eq!(o.contributors, 2);
    assert_eq!(o.head_branch, "main");
    assert_eq!(o.last_commit_date, "2024-05-01");
    let empty = repo().overview(None, "", "v1\n", None);
    assert_eq!((empty.total_commits, empty.contributors, empty.total_tags), (0, 0, 1));
    assert_eq!(empty.head_branch, "HEAD");
    assert_eq!(empty.last_commit_date, "");
    assert_eq!(count_nonblank_lines("a\n\n b\n"), 2);
}

#[test]
fn commit_graph_records() {
    let out = "0123456789abcdef\u{1f}aaaaaaaaaaaa bbbbbbbbbbbb\u{1f}HEAD -> main, tag: v1\u{1f}Ann\u{1f}2024-01-02\u{1f}merge\u{1e}\n\
cccccccccccc\u{1f}\u{1f}\u{1f}Bob\u{1f}2024-01-01\u{1f}root\u{1e}\n";
    let nodes = repo().commit_graph(Some(out));
    assert_eq!(nodes.len(), 2);
    assert_eq!(nodes[0].hash, "0123456789");
    assert_eq!(nodes[0].parents, vec!["aaaaaaaaaa", "bbbbbbbbbb"]);
    assert_eq!(nodes[0].refs, vec!["HEAD -> main", "tag: v1"]);
    assert_eq!(nodes[0].message, "merge");
    assert!(nodes[1].parents.is_empty());
    assert!(nodes[1].refs.is_empty());
    assert!(repo().commit_graph(None).is_empty());
    assert_eq!(RepoHandle::commit_graph_command(120).last().unwrap(), "120");
}

#[test]
fn working_tree_keeps_names_and_sorts_by_path() {
    let out = " M tracked.txt\0?? 未跟踪 file.txt\0A  staged.txt\0R  new name.txt\0old name.txt\0UU both.txt\0";
    assert!(status_records_cut_cleanly(out));
    let files = repo().working_tree_files(out);
    let paths: Vec<&str> = files.iter().map(|f| f.path.as_str()).collect();
    assert_eq!(paths, vec!["both.txt", "new name.txt", "staged.txt", "tracked.txt", "未跟踪 file.txt"]);
    let t = &files[3];
    assert!(t.modified && !t.staged && !t.untracked);
    let u = &files[4];
    assert!(u.untracked && !u.staged && !u.modified);
    assert!(files[0].conflicted);
    assert!(files[1].staged);
    assert_eq!(files[1].index_status, 'R');
}

#[test]
fn index_and_commit_arguments() {
    let r = repo();
    assert!(r.stage_files(&Vec::new()).is_none());
    assert_eq!(r.stage_files(&vec!["a b.txt".into()]).unwrap(), vec!["add", "--", "a b.txt"]);
    assert_eq!(r.unstage_files(&vec!["x".into()], true).unwrap(), vec!["reset", "--", "x"]);
    assert_eq!(
        r.unstage_files(&vec!["x".into()], false).unwrap(),
        vec!["rm", "--cached", "-r", "--ignore-unmatch", "--", "x"]
    );
    assert_eq!(r.commit_staged("  add next \n").unwrap(), vec!["commit", "-m", "add next"]);
    match r.commit_staged("   ") {
        Err(GhError::Args(m)) => assert_eq!(m, "提交说明不能为空"),
        _ => panic!(),
    }
    assert_eq!(r.committed_hash("abc123\n"), "abc123");
    assert_eq!(r.working_tree_diff("f", true), vec!["diff", "--cached", "--", "f"]);
    assert_eq!(r.pull(true), vec!["pull", "--rebase"]);
    assert_eq!(r.gc(false), vec!["gc"]);
    assert_eq!(r.stash_list(), vec!["stash", "list", "--format=%gd|%ar|%s"]);
    assert_eq!(r.stash_times(), vec!["stash", "list", "--format=%gd|%ct"]);
    assert_eq!(r.reset_hard("HEAD~2"), vec!["reset", "--hard", "HEAD~2"]);
}
