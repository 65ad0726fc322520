//! The repository handle: the git invocations that each operation makes,
//! and the interpretation of what git prints.
//!
//! Running git is the caller's part: every operation here either builds the
//! argument list of a `git` invocation or reads the text that such an
//! invocation printed.

use vstd::prelude::*;
use crate::error::GhError;
use crate::text;
use crate::order;

verus! {

/// A git repository, by the path of its working directory.
#[derive(Debug, Clone)]
pub struct RepoHandle {
    pub path: String,
}

/// One commit of `git log`.
#[derive(Debug, Clone)]
pub struct CommitInfo {
    pub hash: String,
    pub author: String,
    pub email: String,
    pub date: String,
    pub message: String,
}

pub struct CommitInfoView {
    pub hash: Seq<char>,
    pub author: Seq<char>,
    pub email: Seq<char>,
    pub date: Seq<char>,
    pub message: Seq<char>,
}

impl View for CommitInfo {
    type V = CommitInfoView;

    open spec fn view(&self) -> CommitInfoView {
        CommitInfoView {
            hash: self.hash@,
            author: self.author@,
            email: self.email@,
            date: self.date@,
            message: self.message@,
        }
    }
}

/// A node of the commit graph.
#[derive(Debug, Clone)]
pub struct CommitGraphNode {
    pub hash: String,
    pub parents: Vec<String>,
    pub refs: Vec<String>,
    pub author: String,
    pub date: String,
    pub message: String,
}

pub struct CommitGraphNodeView {
    pub hash: Seq<char>,
    pub parents: Seq<Seq<char>>,
    pub refs: Seq<Seq<char>>,
    pub author: Seq<char>,
    pub date: Seq<char>,
    pub message: Seq<char>,
}

/// The views of a sequence of strings.
pub open spec fn strs(v: Seq<String>) -> Seq<Seq<char>> {
    v.map_values(|s: String| s@)
}

impl View for CommitGraphNode {
    type V = CommitGraphNodeView;

    open spec fn view(&self) -> CommitGraphNodeView {
        CommitGraphNodeView {
            hash: self.hash@,
            parents: strs(self.parents@),
            refs: strs(self.refs@),
            author: self.author@,
            date: self.date@,
            message: self.message@,
        }
    }
}

/// Size of the checked-out files of one language.
#[derive(Debug, Clone)]
pub struct LanguageStat {
    pub language: String,
    pub bytes: u64,
    pub files: usize,
}

/// A local branch and its last commit.
#[derive(Debug, Clone)]
pub struct BranchInfo {
    pub name: String,
    pub is_head: bool,
    pub commit_hash: String,
    pub commit_message: String,
    pub commit_date: String,
    pub author: String,
}

pub struct BranchInfoView {
    pub name: Seq<char>,
    pub is_head: bool,
    pub commit_hash: Seq<char>,
    pub commit_message: Seq<char>,
    pub commit_date: Seq<char>,
    pub author: Seq<char>,
}

impl View for BranchInfo {
    type V = BranchInfoView;

    open spec fn view(&self) -> BranchInfoView {
        BranchInfoView {
            name: self.name@,
            is_head: self.is_head,
            commit_hash: self.commit_hash@,
            commit_message: self.commit_message@,
            commit_date: self.commit_date@,
            author: self.author@,
        }
    }
}

/// Totals of a commit's diff.
#[derive(Debug, Clone, Copy, PartialEq, Eq, Structural)]
pub struct DiffStats {
    pub files_changed: usize,
    pub insertions: u64,
    pub deletions: u64,
}

/// Lines added and deleted in one file.
#[derive(Debug, Clone)]
pub struct FileChange {
    pub path: String,
    pub added: u64,
    pub deleted: u64,
}

pub struct FileChangeView {
    pub path: Seq<char>,
    pub added: u64,
    pub deleted: u64,
}

impl View for FileChange {
    type V = FileChangeView;

    open spec fn view(&self) -> FileChangeView {
        FileChangeView { path: self.path@, added: self.added, deleted: self.deleted }
    }
}

/// A path of the index or the working tree, with its two status codes.
#[derive(Debug, Clone)]
pub struct WorkingTreeFile {
    pub path: String,
    pub index_status: char,
    pub worktree_status: char,
    pub staged: bool,
    pub modified: bool,
    pub untracked: bool,
    pub conflicted: bool,
}

pub struct WorkingTreeFileView {
    pub path: Seq<char>,
    pub index_status: char,
    pub worktree_status: char,
    pub staged: bool,
    pub modified: bool,
    pub untracked: bool,
    pub conflicted: bool,
}

impl View for WorkingTreeFile {
    type V = WorkingTreeFileView;

    open spec fn view(&self) -> WorkingTreeFileView {
        WorkingTreeFileView {
            path: self.path@,
            index_status: self.index_status,
            worktree_status: self.worktree_status,
            staged: self.staged,
            modified: self.modified,
            untracked: self.untracked,
            conflicted: self.conflicted,
        }
    }
}

/// Working-tree counts and the distance to the upstream branch.
#[derive(Debug, Clone)]
pub struct RepoStatus {
    pub branch: String,
    pub modified: usize,
    pub staged: usize,
    pub untracked: usize,
    pub ahead: usize,
    pub behind: usize,
}

/// Summary figures of a repository.
#[derive(Debug, Clone)]
pub struct RepoOverview {
    pub path: String,
    pub total_commits: u64,
    pub total_branches: usize,
    pub total_tags: usize,
    pub contributors: usize,
    pub head_branch: String,
    pub last_commit_date: String,
}

/// What the commands that need a commit print, when `HEAD` exists:
/// `rev-list --count HEAD`, `shortlog -sne HEAD` and the date of the last
/// commit.
pub struct HeadOutputs {
    pub commit_count: String,
    pub shortlog: String,
    pub last_date: String,
}

// ---------------------------------------------------------------------------
// Building argument lists
// ---------------------------------------------------------------------------

/// Owned copies of the given argument words.
pub fn owned_args(words: &Vec<&str>) -> (r: Vec<String>)
    ensures
        strs(r@) == words@.map_values(|s: &str| s@),
{
    let mut r: Vec<String> = Vec::new();
    let mut i: usize = 0;
    while i < words.len()
        invariant
            i <= words@.len(),
            r@.len() == i,
            strs(r@) == words@.take(i as int).map_values(|s: &str| s@),
        decreases words.len() - i,
    {
        let w: &str = words[i];
        let owned: String = w.to_owned();
        assert(owned@ == words@[i as int]@);
        let ghost old_r = r@;
        r.push(owned);
        i = i + 1;
        assert forall|k: int| 0 <= k < i implies #[trigger] strs(r@)[k] == words@.take(i as int).map_values(|s: &str| s@)[k] by {
            if k < i - 1 {
                assert(r@[k] == old_r[k]);
                assert(strs(old_r)[k] == words@.take(i - 1).map_values(|s: &str| s@)[k]);
            }
        }
        assert(strs(r@) =~= words@.take(i as int).map_values(|s: &str| s@));
    }
    assert(words@.take(words@.len() as int) =~= words@);
    r
}

/// The first `n` characters of `s` (all of them when there are fewer).
pub open spec fn prefix_chars(s: Seq<char>, n: nat) -> Seq<char> {
    if s.len() <= n {
        s
    } else {
        s.take(n as int)
    }
}

pub fn prefix_string(v: &Vec<char>, n: usize) -> (r: String)
    ensures
        r@ == prefix_chars(v@, n as nat),
{
    let end = if v.len() <= n { v.len() } else { n };
    let p = text::slice_chars(v, 0, end);
    assert(v@.subrange(0, end as int) =~= prefix_chars(v@, n as nat));
    text::string_of(&p)
}

// ---------------------------------------------------------------------------
// Counting lines
// ---------------------------------------------------------------------------

/// The number of lines of `out` that hold something besides whitespace.
pub open spec fn count_nonblank(ls: Seq<Seq<char>>) -> nat
    decreases ls.len(),
{
    if ls.len() == 0 {
        0
    } else {
        count_nonblank(ls.drop_last()) + if text::trim(ls.last()).len() > 0 { 1nat } else { 0nat }
    }
}

pub fn count_nonblank_lines(out: &str) -> (r: usize)
    ensures
        r == count_nonblank(text::lines(out@)),
{
    let v = text::chars_of(out);
    let ls = text::lines_exec(&v);
    let ghost ghost_lines = text::lines(out@);
    let mut n: usize = 0;
    let mut i: usize = 0;
    while i < ls.len()
        invariant
            i <= ls@.len(),
            ls@.len() == ghost_lines.len(),
            forall|k: int| 0 <= k < ls@.len() ==> (#[trigger] ls@[k])@ == ghost_lines[k],
            n == count_nonblank(ghost_lines.take(i as int)),
            n <= i,
        decreases ls.len() - i,
    {
        proof {
            assert(ghost_lines.take(i + 1).drop_last() =~= ghost_lines.take(i as int));
        }
        let t = text::trim_chars(&ls[i]);
        if t.len() > 0 {
            n = n + 1;
        }
        i = i + 1;
    }
    assert(ghost_lines.take(ls@.len() as int) =~= ghost_lines);
    n
}

// ---------------------------------------------------------------------------
// Opening and failures
// ---------------------------------------------------------------------------

impl RepoHandle {
    /// Opens the repository at `path`; it is one when `path/.git` or
    /// `path/HEAD` exists (what the caller found on disk).
    pub fn open(path: &str, git_dir_exists: bool, head_exists: bool) -> (r: Result<
        RepoHandle,
        GhError,
    >)
        ensures
            git_dir_exists || head_exists ==> (r matches Ok(h) && h.path@ == path@),
            !git_dir_exists && !head_exists ==> (r matches Err(GhError::NotFound(m)) && m@ == path@
                + " 不是有效的 Git 仓库"@),
    {
        if !git_dir_exists && !head_exists {
            let mut m = text::chars_of(path);
            text::append_str(&mut m, " 不是有效的 Git 仓库");
            return Err(GhError::NotFound(text::string_of(&m)));
        }
        Ok(RepoHandle { path: path.to_owned() })
    }

    /// The error for a git invocation that exited unsuccessfully with
    /// `stderr`: the friendly text when there is one, else the trimmed
    /// message, as a `Git` error.
    pub fn git_failure(stderr: &str) -> (r: GhError)
        ensures
            ({
                let t = text::trim(stderr@);
                match crate::error::friendly_text(t) {
                    Some(f) => r matches GhError::Git(m) && m@ == f,
                    None => r matches GhError::Git(m) && m@ == t,
                }
            }),
    {
        let v = text::chars_of(stderr);
        let t = text::trim_chars(&v);
        let ts = text::string_of(&t);
        match crate::error::into_friendly_error_msg(ts.as_str()) {
            Some(f) => GhError::Git(f),
            None => GhError::Git(ts),
        }
    }
}

// ---------------------------------------------------------------------------
// Commits
// ---------------------------------------------------------------------------

/// The commit that one line of `log --format=%H|%an|%ae|%ad|%s` describes.
pub open spec fn commit_of_line(line: Seq<char>) -> Option<CommitInfoView> {
    let parts = text::splitn(line, 5, '|');
    if text::trim(line).len() == 0 || parts.len() < 5 {
        None
    } else {
        Some(
            CommitInfoView {
                hash: prefix_chars(parts[0], 7),
                author: parts[1],
                email: parts[2],
                date: parts[3],
                message: parts[4],
            },
        )
    }
}

/// The commits that a `log` output lists, in its order.
pub open spec fn commits_of(out: Seq<char>) -> Seq<CommitInfoView> {
    text::lines(out).filter_map(|l: Seq<char>| commit_of_line(l))
}

/// The views of a vector of commits.
pub open spec fn commit_views(v: Seq<CommitInfo>) -> Seq<CommitInfoView> {
    v.map_values(|c: CommitInfo| c@)
}

fn commit_of_line_exec(line: &Vec<char>) -> (r: Option<CommitInfo>)
    ensures
        match r {
            Some(c) => commit_of_line(line@) == Some(c@),
            None => commit_of_line(line@) is None,
        },
{
    let t = text::trim_chars(line);
    if t.len() == 0 {
        return None;
    }
    let parts = text::splitn_exec(line, 5, '|');
    if parts.len() < 5 {
        return None;
    }
    Some(
        CommitInfo {
            hash: prefix_string(&parts[0], 7),
            author: text::string_of(&parts[1]),
            email: text::string_of(&parts[2]),
            date: text::string_of(&parts[3]),
            message: text::string_of(&parts[4]),
        },
    )
}

/// The view of an optional string.
pub open spec fn opt_view(o: Option<&str>) -> Option<Seq<char>> {
    match o {
        Some(s) => Some(s@),
        None => None,
    }
}

/// `flag value` when there is a value, nothing otherwise.
pub open spec fn opt_flag(flag: Seq<char>, v: Option<Seq<char>>) -> Seq<Seq<char>> {
    match v {
        Some(x) => seq![flag, x],
        None => Seq::<Seq<char>>::empty(),
    }
}

/// The word when there is one.
pub open spec fn opt_word(v: Option<Seq<char>>) -> Seq<Seq<char>> {
    match v {
        Some(x) => seq![x],
        None => Seq::<Seq<char>>::empty(),
    }
}

/// Appends one owned word.
pub fn push_arg(r: &mut Vec<String>, w: &str)
    ensures
        strs(final(r)@) == strs(old(r)@).push(w@),
{
    let o = w.to_owned();
    r.push(o);
    assert(strs(r@) =~= strs(old(r)@).push(w@));
}

/// Appends `flag value` when `value` is present.
pub fn push_flag(r: &mut Vec<String>, flag: &str, value: Option<&str>)
    ensures
        strs(final(r)@) == strs(old(r)@) + opt_flag(flag@, opt_view(value)),
{
    match value {
        Some(v) => {
            push_arg(r, flag);
            push_arg(r, v);
            assert(strs(r@) =~= strs(old(r)@) + opt_flag(flag@, opt_view(value)));
        },
        None => {
            assert(strs(r@) =~= strs(old(r)@) + opt_flag(flag@, opt_view(value)));
        },
    }
}

/// Appends the word when present.
pub fn push_word(r: &mut Vec<String>, value: Option<&str>)
    ensures
        strs(final(r)@) == strs(old(r)@) + opt_word(opt_view(value)),
{
    match value {
        Some(v) => {
            push_arg(r, v);
            assert(strs(r@) =~= strs(old(r)@) + opt_word(opt_view(value)));
        },
        None => {
            assert(strs(r@) =~= strs(old(r)@) + opt_word(opt_view(value)));
        },
    }
}

impl RepoHandle {
    /// The `log` invocation that lists commits, with the optional filters
    /// in this order: author, since, until, grep, count, then the branch.
    pub fn commits_command(
        author: Option<&str>,
        since: Option<&str>,
        until: Option<&str>,
        branch: Option<&str>,
        grep: Option<&str>,
        max_count: Option<usize>,
    ) -> (r: Vec<String>)
        ensures
            strs(r@) == seq!["log"@, "--format=%H|%an|%ae|%ad|%s"@, "--date=short"@]
                + opt_flag("--author"@, opt_view(author))
                + opt_flag("--since"@, opt_view(since))
                + opt_flag("--until"@, opt_view(until))
                + opt_flag("--grep"@, opt_view(grep))
                + opt_flag("-n"@, match max_count { Some(n) => Some(text::dec_str(n as nat)), None => None })
                + opt_word(opt_view(branch)),
    {
        let mut r = owned_args(&vec!["log", "--format=%H|%an|%ae|%ad|%s", "--date=short"]);
        push_flag(&mut r, "--author", author);
        push_flag(&mut r, "--since", since);
        push_flag(&mut r, "--until", until);
        push_flag(&mut r, "--grep", grep);
        match max_count {
            Some(n) => {
                let d = text::u64_chars(n as u64);
                let ds = text::string_of(&d);
                push_flag(&mut r, "-n", Some(ds.as_str()));
            },
            None => {
                push_flag(&mut r, "-n", None);
            },
        }
        push_word(&mut r, branch);
        r
    }

    /// The commits listed in the output of the `commits_command` invocation:
    /// one per line that is not blank and has at least five `|`-separated
    /// fields; the hash is cut to seven characters and the message keeps any
    /// further `|`.
    pub fn commits(&self, output: &str) -> (r: Vec<CommitInfo>)
        ensures
            commit_views(r@) == commits_of(output@),
    {
        let v = text::chars_of(output);
        let ls = text::lines_exec(&v);
        let ghost gl = text::lines(output@);
        let ghost f = |l: Seq<char>| commit_of_line(l);
        let mut r: Vec<CommitInfo> = Vec::new();
        let mut i: usize = 0;
        while i < ls.len()
            invariant
                i <= ls@.len(),
                ls@.len() == gl.len(),
                gl == text::lines(output@),
                f == (|l: Seq<char>| commit_of_line(l)),
                forall|k: int| 0 <= k < ls@.len() ==> (#[trigger] ls@[k])@ == gl[k],
                commit_views(r@) == gl.take(i as int).filter_map(f),
            decreases ls.len() - i,
        {
            proof {
                gl.lemma_filter_map_take_succ(f, i as int);
            }
            let ghost before = r@;
            match commit_of_line_exec(&ls[i]) {
                Some(c) => {
                    r.push(c);
                    assert(commit_views(r@) =~= commit_views(before) + seq![c@]);
                },
                None => {},
            }
            i = i + 1;
        }
        assert(gl.take(ls@.len() as int) =~= gl);
        r
    }
}

// ---------------------------------------------------------------------------
// Branches
// ---------------------------------------------------------------------------

/// Field `k` of `parts`, or the empty text when there are fewer fields.
pub open spec fn field_or_empty(parts: Seq<Seq<char>>, k: int) -> Seq<char> {
    if 0 <= k < parts.len() {
        parts[k]
    } else {
        Seq::<char>::empty()
    }
}

/// The branch that one line of the `branch --format=...` listing describes.
pub open spec fn branch_of_line(line: Seq<char>) -> Option<BranchInfoView> {
    if text::trim(line).len() == 0 {
        None
    } else {
        let parts = text::splitn(line, 6, '|');
        Some(
            BranchInfoView {
                name: field_or_empty(parts, 0),
                is_head: field_or_empty(parts, 1) == "*"@,
                commit_hash: prefix_chars(field_or_empty(parts, 2), 7),
                commit_message: field_or_empty(parts, 3),
                commit_date: field_or_empty(parts, 4),
                author: field_or_empty(parts, 5),
            },
        )
    }
}

/// The branches of a `branch --format=...` listing, in its order.
pub open spec fn branches_of(out: Seq<char>) -> Seq<BranchInfoView> {
    text::lines(out).filter_map(|l: Seq<char>| branch_of_line(l))
}

pub open spec fn branch_views(v: Seq<BranchInfo>) -> Seq<BranchInfoView> {
    v.map_values(|b: BranchInfo| b@)
}

fn field_or_empty_exec(parts: &Vec<Vec<char>>, k: usize) -> (r: Vec<char>)
    ensures
        r@ == field_or_empty(parts@.map_values(|p: Vec<char>| p@), k as int),
{
    if k < parts.len() {
        text::slice_chars(&parts[k], 0, parts[k].len())
    } else {
        Vec::new()
    }
}

fn branch_of_line_exec(line: &Vec<char>) -> (r: Option<BranchInfo>)
    ensures
        match r {
            Some(b) => branch_of_line(line@) == Some(b@),
            None => branch_of_line(line@) is None,
        },
{
    let t = text::trim_chars(line);
    if t.len() == 0 {
        return None;
    }
    let parts = text::splitn_exec(line, 6, '|');
    let ghost pv = parts@.map_values(|p: Vec<char>| p@);
    proof {
        assert(pv =~= text::splitn(line@, 6, '|'));
    }
    let name = field_or_empty_exec(&parts, 0);
    let head = field_or_empty_exec(&parts, 1);
    let hash = field_or_empty_exec(&parts, 2);
    let msg = field_or_empty_exec(&parts, 3);
    let date = field_or_empty_exec(&parts, 4);
    let author = field_or_empty_exec(&parts, 5);
    Some(
        BranchInfo {
            name: text::string_of(&name),
            is_head: text::eq_str(&head, "*"),
            commit_hash: prefix_string(&hash, 7),
            commit_message: text::string_of(&msg),
            commit_date: text::string_of(&date),
            author: text::string_of(&author),
        },
    )
}

impl RepoHandle {
    /// The `branch` invocation that lists local branches with their last
    /// commit.
    pub fn local_branches_command() -> (r: Vec<String>)
        ensures
            strs(r@) == seq![
                "branch"@,
                "--format=%(refname:short)|%(HEAD)|%(objectname:short)|%(subject)|%(committerdate:short)|%(authorname)"@
            ],
    {
        owned_args(
            &vec![
                "branch",
                "--format=%(refname:short)|%(HEAD)|%(objectname:short)|%(subject)|%(committerdate:short)|%(authorname)",
            ],
        )
    }

    /// The branches of the listing: one per non-blank line, fields split at
    /// the first five `|`, missing fields empty.
    pub fn local_branches(&self, output: &str) -> (r: Vec<BranchInfo>)
        ensures
            branch_views(r@) == branches_of(output@),
    {
        let v = text::chars_of(output);
        let ls = text::lines_exec(&v);
        let ghost gl = text::lines(output@);
        let ghost f = |l: Seq<char>| branch_of_line(l);
        let mut r: Vec<BranchInfo> = Vec::new();
        let mut i: usize = 0;
        while i < ls.len()
            invariant
                i <= ls@.len(),
                ls@.len() == gl.len(),
                gl == text::lines(output@),
                f == (|l: Seq<char>| branch_of_line(l)),
                forall|k: int| 0 <= k < ls@.len() ==> (#[trigger] ls@[k])@ == gl[k],
                branch_views(r@) == gl.take(i as int).filter_map(f),
            decreases ls.len() - i,
        {
            proof {
                gl.lemma_filter_map_take_succ(f, i as int);
            }
            let ghost before = r@;
            match branch_of_line_exec(&ls[i]) {
                Some(b) => {
                    r.push(b);
                    assert(branch_views(r@) =~= branch_views(before) + seq![b@]);
                },
                None => {},
            }
            i = i + 1;
        }
        assert(gl.take(ls@.len() as int) =~= gl);
        r
    }

    /// The two invocations that name the current branch: the symbolic ref,
    /// and, when that fails, the abbreviated `HEAD`.
    pub fn current_branch_commands() -> (r: (Vec<String>, Vec<String>))
        ensures
            strs(r.0@) == seq!["symbolic-ref"@, "--quiet"@, "--short"@, "HEAD"@],
            strs(r.1@) == seq!["rev-parse"@, "--abbrev-ref"@, "HEAD"@],
    {
        (
            owned_args(&vec!["symbolic-ref", "--quiet", "--short", "HEAD"]),
            owned_args(&vec!["rev-parse", "--abbrev-ref", "HEAD"]),
        )
    }

    /// The current branch, from the output of the invocation that
    /// succeeded: the output trimmed.
    pub fn current_branch(&self, output: &str) -> (r: String)
        ensures
            r@ == text::trim(output@),
    {
        let v = text::chars_of(output);
        let t = text::trim_chars(&v);
        text::string_of(&t)
    }

    /// The invocations that decide whether `branch` is merged into
    /// `target`: their merge base, and the tip of `branch`.
    pub fn is_merged_commands(branch: &str, target: &str) -> (r: (Vec<String>, Vec<String>))
        ensures
            strs(r.0@) == seq!["merge-base"@, target@, branch@],
            strs(r.1@) == seq!["rev-parse"@, branch@],
    {
        (owned_args(&vec!["merge-base", target, branch]), owned_args(&vec!["rev-parse", branch]))
    }

    /// A branch is merged when its merge base with the target is its tip.
    pub fn is_merged(&self, merge_base_output: &str, tip_output: &str) -> (r: bool)
        ensures
            r == (text::trim(merge_base_output@) == text::trim(tip_output@)),
    {
        let a = text::chars_of(merge_base_output);
        let b = text::chars_of(tip_output);
        let ta = text::trim_chars(&a);
        let tb = text::trim_chars(&b);
        text::chars_eq(&ta, &tb)
    }

    /// The `log` invocation that prints the date of a branch's last commit.
    pub fn branch_last_commit_date_command(branch: &str) -> (r: Vec<String>)
        ensures
            strs(r@) == seq!["log"@, "-1"@, "--format=%ad"@, "--date=short"@, branch@],
    {
        owned_args(&vec!["log", "-1", "--format=%ad", "--date=short", branch])
    }

    /// The date of a branch's last commit: the output trimmed.
    pub fn branch_last_commit_date(&self, output: &str) -> (r: String)
        ensures
            r@ == text::trim(output@),
    {
        self.current_branch(output)
    }

    /// Deletes a local branch: `-D` when forced, `-d` otherwise.
    pub fn delete_branch(&self, branch: &str, force: bool) -> (r: Vec<String>)
        ensures
            strs(r@) == seq!["branch"@, if force { "-D"@ } else { "-d"@ }, branch@],
    {
        let flag = if force { "-D" } else { "-d" };
        owned_args(&vec!["branch", flag, branch])
    }

    /// Creates a branch at `HEAD`.
    pub fn create_branch(&self, name: &str) -> (r: Vec<String>)
        ensures
            strs(r@) == seq!["branch"@, name@],
    {
        owned_args(&vec!["branch", name])
    }

    /// Switches to a branch.
    pub fn checkout(&self, branch: &str) -> (r: Vec<String>)
        ensures
            strs(r@) == seq!["checkout"@, branch@],
    {
        owned_args(&vec!["checkout", branch])
    }
}

// ---------------------------------------------------------------------------
// Diff statistics
// ---------------------------------------------------------------------------

/// A number field of `numstat`: its value, 0 when it is not a number
/// (binary files show `-`).
pub open spec fn count_field(f: Seq<char>) -> u64 {
    match text::parse_u64(f) {
        Some(x) => x,
        None => 0,
    }
}

/// The file that one `numstat` line describes: added, deleted, then the
/// last tab-separated field as the path.
pub open spec fn change_of_line(line: Seq<char>) -> Option<FileChangeView> {
    let parts = text::split_on(line, '\t');
    if parts.len() >= 2 {
        Some(
            FileChangeView {
                path: parts.last(),
                added: count_field(parts[0]),
                deleted: count_field(parts[1]),
            },
        )
    } else {
        None
    }
}

/// The files of a `numstat` output, in its order.
pub open spec fn changes_of(out: Seq<char>) -> Seq<FileChangeView> {
    text::lines(out).filter_map(|l: Seq<char>| change_of_line(l))
}

pub open spec fn change_views(v: Seq<FileChange>) -> Seq<FileChangeView> {
    v.map_values(|c: FileChange| c@)
}

/// Lines added over all files.
pub open spec fn total_added(fs: Seq<FileChangeView>) -> nat
    decreases fs.len(),
{
    if fs.len() == 0 {
        0
    } else {
        total_added(fs.drop_last()) + (fs.last().added as nat)
    }
}

/// Lines deleted over all files.
pub open spec fn total_deleted(fs: Seq<FileChangeView>) -> nat
    decreases fs.len(),
{
    if fs.len() == 0 {
        0
    } else {
        total_deleted(fs.drop_last()) + (fs.last().deleted as nat)
    }
}

fn change_of_line_exec(line: &Vec<char>) -> (r: Option<FileChange>)
    ensures
        match r {
            Some(c) => change_of_line(line@) == Some(c@),
            None => change_of_line(line@) is None,
        },
{
    let parts = text::split_on_exec(line, '\t');
    if parts.len() >= 2 {
        let added = match text::parse_u64_exec(&parts[0]) {
            Some(x) => x,
            None => 0,
        };
        let deleted = match text::parse_u64_exec(&parts[1]) {
            Some(x) => x,
            None => 0,
        };
        Some(FileChange { path: text::string_of(&parts[parts.len() - 1]), added, deleted })
    } else {
        None
    }
}

proof fn lemma_totals_prefix(fs: Seq<FileChangeView>, i: int)
    requires
        0 <= i <= fs.len(),
    ensures
        total_added(fs.take(i)) <= total_added(fs),
        total_deleted(fs.take(i)) <= total_deleted(fs),
    decreases fs.len() - i,
{
    if i < fs.len() {
        lemma_totals_prefix(fs, i + 1);
        assert(fs.take(i + 1).drop_last() =~= fs.take(i));
    } else {
        assert(fs.take(i) =~= fs);
    }
}

impl RepoHandle {
    /// The `diff-tree` invocation that counts lines per file of a commit,
    /// against its first parent (or the empty tree for a root commit).
    pub fn diff_stats_command(commit_hash: &str) -> (r: Vec<String>)
        ensures
            strs(r@) == seq![
                "diff-tree"@, "--root"@, "-r"@, "-m"@, "--first-parent"@, "--numstat"@,
                "--find-renames"@, commit_hash@
            ],
    {
        owned_args(
            &vec![
                "diff-tree", "--root", "-r", "-m", "--first-parent", "--numstat",
                "--find-renames", commit_hash,
            ],
        )
    }

    /// The per-file counts of a `numstat` output (lines with at least two
    /// tab-separated fields) and their totals.
    pub fn diff_stats(&self, output: &str) -> (r: (DiffStats, Vec<FileChange>))
        requires
            total_added(changes_of(output@)) <= u64::MAX,
            total_deleted(changes_of(output@)) <= u64::MAX,
        ensures
            change_views(r.1@) == changes_of(output@),
            r.0.files_changed == r.1@.len(),
            r.0.insertions == total_added(changes_of(output@)),
            r.0.deletions == total_deleted(changes_of(output@)),
    {
        let v = text::chars_of(output);
        let ls = text::lines_exec(&v);
        let ghost gl = text::lines(output@);
        let ghost f = |l: Seq<char>| change_of_line(l);
        let ghost all = changes_of(output@);
        let mut files: Vec<FileChange> = Vec::new();
        let mut ins: u64 = 0;
        let mut del: u64 = 0;
        let mut i: usize = 0;
        while i < ls.len()
            invariant
                i <= ls@.len(),
                ls@.len() == gl.len(),
                gl == text::lines(output@),
                f == (|l: Seq<char>| change_of_line(l)),
                all == gl.filter_map(f),
                total_added(all) <= u64::MAX,
                total_deleted(all) <= u64::MAX,
                forall|k: int| 0 <= k < ls@.len() ==> (#[trigger] ls@[k])@ == gl[k],
                change_views(files@) == gl.take(i as int).filter_map(f),
                ins == total_added(change_views(files@)),
                del == total_deleted(change_views(files@)),
            decreases ls.len() - i,
        {
            proof {
                gl.lemma_filter_map_take_succ(f, i as int);
            }
            let ghost before = files@;
            match change_of_line_exec(&ls[i]) {
                Some(c) => {
                    proof {
                        let now = change_views(before) + seq![c@];
                        assert(now.drop_last() =~= change_views(before));
                        // the files so far are a prefix of all files
                        lemma_filter_map_prefix(gl, f, i + 1);
                        lemma_totals_prefix(all, now.len() as int);
                    }
                    ins = ins + c.added;
                    del = del + c.deleted;
                    files.push(c);
                    assert(change_views(files@) =~= change_views(before) + seq![c@]);
                },
                None => {},
            }
            i = i + 1;
        }
        assert(gl.take(ls@.len() as int) =~= gl);
        (DiffStats { files_changed: files.len(), insertions: ins, deletions: del }, files)
    }

    /// The same, or `None` when a total does not fit in a `u64` (where the
    /// counting would overflow).
    pub fn diff_stats_checked(&self, output: &str) -> (r: Option<(DiffStats, Vec<FileChange>)>)
        ensures
            r is Some <==> (total_added(changes_of(output@)) <= u64::MAX && total_deleted(
                changes_of(output@),
            ) <= u64::MAX),
            r matches Some(x) ==> (change_views(x.1@) == changes_of(output@) && x.0.files_changed
                == x.1@.len() && x.0.insertions == total_added(changes_of(output@))
                && x.0.deletions == total_deleted(changes_of(output@))),
    {
        let v = text::chars_of(output);
        let ls = text::lines_exec(&v);
        let ghost gl = text::lines(output@);
        let ghost f = |l: Seq<char>| change_of_line(l);
        let mut ins: u128 = 0;
        let mut del: u128 = 0;
        let mut n: usize = 0;
        let mut fits = true;
        let mut i: usize = 0;
        let ghost mut seen: Seq<FileChangeView> = Seq::empty();
        while i < ls.len()
            invariant
                i <= ls@.len(),
                ls@.len() == gl.len(),
                gl == text::lines(output@),
                f == (|l: Seq<char>| change_of_line(l)),
                forall|k: int| 0 <= k < ls@.len() ==> (#[trigger] ls@[k])@ == gl[k],
                seen == gl.take(i as int).filter_map(f),
                fits ==> ins == total_added(seen) && del == total_deleted(seen),
                fits <==> (total_added(seen) <= u64::MAX && total_deleted(seen) <= u64::MAX),
            decreases ls.len() - i,
        {
            proof {
                gl.lemma_filter_map_take_succ(f, i as int);
            }
            match change_of_line_exec(&ls[i]) {
                Some(c) => {
                    proof {
                        let now = seen + seq![c@];
                        assert(now.drop_last() =~= seen);
                        seen = now;
                    }
                    if fits {
                        ins = ins + c.added as u128;
                        del = del + c.deleted as u128;
                        if ins > 0xffff_ffff_ffff_ffffu128 || del > 0xffff_ffff_ffff_ffffu128 {
                            fits = false;
                        }
                    }
                },
                None => {},
            }
            i = i + 1;
        }
        assert(gl.take(ls@.len() as int) =~= gl);
        if fits {
            Some(self.diff_stats(output))
        } else {
            None
        }
    }

    /// The `diff-tree` invocation that prints a commit's patch.
    pub fn diff_content(&self, commit_hash: &str) -> (r: Vec<String>)
        ensures
            strs(r@) == seq![
                "diff-tree"@, "--root"@, "-r"@, "-m"@, "--first-parent"@, "-p"@, commit_hash@
            ],
    {
        owned_args(&vec!["diff-tree", "--root", "-r", "-m", "--first-parent", "-p", commit_hash])
    }
}

/// Filtering a prefix gives a prefix of the filtered sequence.
proof fn lemma_filter_map_prefix<A, B>(s: Seq<A>, f: spec_fn(A) -> Option<B>, i: int)
    requires
        0 <= i <= s.len(),
    ensures
        s.take(i).filter_map(f).len() <= s.filter_map(f).len(),
        s.filter_map(f).take(s.take(i).filter_map(f).len() as int) == s.take(i).filter_map(f),
    decreases s.len() - i,
{
    if i < s.len() {
        lemma_filter_map_prefix(s, f, i + 1);
        s.lemma_filter_map_take_succ(f, i);
        let a = s.take(i).filter_map(f);
        let b = s.take(i + 1).filter_map(f);
        let all = s.filter_map(f);
        assert(all.take(a.len() as int) =~= b.take(a.len() as int));
        assert(b.take(a.len() as int) =~= a);
    } else {
        assert(s.take(i) =~= s);
        assert(s.filter_map(f).take(s.filter_map(f).len() as int) =~= s.filter_map(f));
    }
}

// ---------------------------------------------------------------------------
// Status and overview
// ---------------------------------------------------------------------------

/// The number of lines that satisfy `p`.
pub open spec fn count_where(ls: Seq<Seq<char>>, p: spec_fn(Seq<char>) -> bool) -> nat
    decreases ls.len(),
{
    if ls.len() == 0 {
        0
    } else {
        count_where(ls.drop_last(), p) + if p(ls.last()) { 1nat } else { 0nat }
    }
}

/// Character `k` of a line, a space when the line is shorter.
pub open spec fn code_at(l: Seq<char>, k: int) -> char {
    if 0 <= k < l.len() {
        l[k]
    } else {
        ' '
    }
}

/// A status code that marks a change (neither clean nor untracked).
pub open spec fn is_change_code(c: char) -> bool {
    c != ' ' && c != '?'
}

pub open spec fn staged_line(l: Seq<char>) -> bool {
    l.len() > 0 && is_change_code(code_at(l, 0))
}

pub open spec fn modified_line(l: Seq<char>) -> bool {
    l.len() > 0 && is_change_code(code_at(l, 1))
}

pub open spec fn untracked_line(l: Seq<char>) -> bool {
    l.len() > 0 && code_at(l, 0) == '?' && code_at(l, 1) == '?'
}

/// The staged entries that `status` counts in a `status --porcelain` output.
pub open spec fn staged_count(out: Seq<char>) -> nat {
    count_where(text::lines(out), |l: Seq<char>| staged_line(l))
}

/// The modified entries that `status` counts.
pub open spec fn modified_count(out: Seq<char>) -> nat {
    count_where(text::lines(out), |l: Seq<char>| modified_line(l))
}

/// The untracked entries that `status` counts.
pub open spec fn untracked_count(out: Seq<char>) -> nat {
    count_where(text::lines(out), |l: Seq<char>| untracked_line(l))
}

/// A status letter of `status --porcelain`.
pub open spec fn porcelain_code(c: char) -> bool {
    c == ' ' || c == 'M' || c == 'T' || c == 'A' || c == 'D' || c == 'R' || c == 'C' || c == 'U'
        || c == '?' || c == '!'
}

/// A well-formed `status --porcelain` entry: two status letters, not both
/// blank, `?` only as `??`, then a space before the path.
pub open spec fn porcelain_entry(l: Seq<char>) -> bool {
    &&& l.len() >= 3
    &&& porcelain_code(l[0])
    &&& porcelain_code(l[1])
    &&& !(l[0] == ' ' && l[1] == ' ')
    &&& (l[0] == '?' <==> l[1] == '?')
    &&& l[2] == ' '
}

/// Every non-empty line of `out` is a well-formed entry.
pub open spec fn porcelain_well_formed(out: Seq<char>) -> bool {
    forall|k: int|
        0 <= k < text::lines(out).len() && (#[trigger] text::lines(out)[k]).len() > 0
            ==> porcelain_entry(text::lines(out)[k])
}

proof fn lemma_count_where_positive(ls: Seq<Seq<char>>, p: spec_fn(Seq<char>) -> bool)
    ensures
        count_where(ls, p) > 0 <==> exists|k: int| 0 <= k < ls.len() && p(#[trigger] ls[k]),
    decreases ls.len(),
{
    if ls.len() > 0 {
        let d = ls.drop_last();
        lemma_count_where_positive(d, p);
        if exists|k: int| 0 <= k < ls.len() && p(#[trigger] ls[k]) {
            let k = choose|k: int| 0 <= k < ls.len() && p(#[trigger] ls[k]);
            if k < ls.len() - 1 {
                assert(d[k] == ls[k]);
            }
        }
        if exists|k: int| 0 <= k < d.len() && p(#[trigger] d[k]) {
            let k = choose|k: int| 0 <= k < d.len() && p(#[trigger] d[k]);
            assert(ls[k] == d[k]);
        }
        if p(ls.last()) {
            assert(p(ls[ls.len() - 1]));
        }
    }
}

/// A line that holds a character other than whitespace.
pub open spec fn holds_text(l: Seq<char>) -> bool {
    exists|t: int| 0 <= t < l.len() && !text::is_ws(#[trigger] l[t])
}

/// A line that `status` counts as staged, modified or untracked.
pub open spec fn counted_entry(l: Seq<char>) -> bool {
    staged_line(l) || modified_line(l) || untracked_line(l)
}

/// Some line of `out` holds text just when some line is counted by
/// `status`.
pub open spec fn entries_agree(out: Seq<char>) -> bool {
    (exists|k: int| 0 <= k < text::lines(out).len() && holds_text(#[trigger] text::lines(out)[k])) <==> (
    exists|k: int| 0 <= k < text::lines(out).len() && counted_entry(#[trigger] text::lines(out)[k]))
}

/// `has_changes` holds exactly when some line of the output holds text.
proof fn lemma_changes_iff_text(out: Seq<char>)
    ensures
        has_changes(out) <==> exists|k: int|
            0 <= k < text::lines(out).len() && holds_text(#[trigger] text::lines(out)[k]),
{
    let ls = text::lines(out);
    let t = text::trim(out);
    text::lemma_trim_first_char(out);
    if has_changes(out) {
        if t.len() == 0 {
            text::lemma_lines_of_empty(t);
        }
        let j = choose|j: int| 0 <= j < out.len() && out[j] == t[0];
        text::lemma_lines_cover(out, j);
        let (k, i) = choose|k: int, i: int|
            0 <= k < ls.len() && 0 <= i < ls[k].len() && #[trigger] ls[k][i] == out[j];
        assert(holds_text(ls[k]));
    }
    if exists|k: int| 0 <= k < ls.len() && holds_text(#[trigger] ls[k]) {
        let k = choose|k: int| 0 <= k < ls.len() && holds_text(#[trigger] ls[k]);
        let i = choose|i: int| 0 <= i < ls[k].len() && !text::is_ws(#[trigger] ls[k][i]);
        text::lemma_lines_chars_from(out, k, i);
        let j = choose|j: int| 0 <= j < out.len() && out[j] == ls[k][i];
        assert(!text::is_ws(out[j]));
        text::lemma_first_line_nonempty(t);
        assert(text::lines(t)[0].len() > 0);
    }
}

/// The counts of `status` add up to more than zero exactly when some line
/// is counted.
proof fn lemma_counts_iff_counted(out: Seq<char>)
    ensures
        staged_count(out) + modified_count(out) + untracked_count(out) > 0 <==> exists|k: int|
            0 <= k < text::lines(out).len() && counted_entry(#[trigger] text::lines(out)[k]),
{
    let ls = text::lines(out);
    let ps = |l: Seq<char>| staged_line(l);
    let pm = |l: Seq<char>| modified_line(l);
    let pu = |l: Seq<char>| untracked_line(l);
    lemma_count_where_positive(ls, ps);
    lemma_count_where_positive(ls, pm);
    lemma_count_where_positive(ls, pu);
    if exists|k: int| 0 <= k < ls.len() && counted_entry(#[trigger] ls[k]) {
        let k = choose|k: int| 0 <= k < ls.len() && counted_entry(#[trigger] ls[k]);
        assert(ps(ls[k]) || pm(ls[k]) || pu(ls[k]));
    }
    if staged_count(out) + modified_count(out) + untracked_count(out) > 0 {
        let k = choose|k: int| 0 <= k < ls.len() && (ps(#[trigger] ls[k]) || pm(ls[k]) || pu(ls[k]));
        assert(counted_entry(ls[k]));
    }
}

/// For one `status --porcelain` output, `has_uncommitted_changes` reports a
/// change exactly when `status` counts a staged, modified or untracked
/// entry, on precisely the outputs where some line holds text just when
/// some line is counted (`entries_agree`); elsewhere the two disagree.
pub proof fn lemma_changes_iff_status_counts(out: Seq<char>)
    ensures
        (has_changes(out) <==> staged_count(out) + modified_count(out) + untracked_count(out) > 0)
            <==> entries_agree(out),
{
    lemma_changes_iff_text(out);
    lemma_counts_iff_counted(out);
}

/// Output whose non-empty lines are all well-formed entries is such an
/// output: there the two agree.
pub proof fn lemma_well_formed_entries_agree(out: Seq<char>)
    requires
        porcelain_well_formed(out),
    ensures
        entries_agree(out),
        has_changes(out) <==> staged_count(out) + modified_count(out) + untracked_count(out) > 0,
{
    let ls = text::lines(out);
    assert forall|k: int| 0 <= k < ls.len() implies (holds_text(#[trigger] ls[k]) <==> counted_entry(
        ls[k],
    )) by {
        let l = ls[k];
        if l.len() > 0 {
            assert(porcelain_entry(l));
            if l[0] == ' ' {
                assert(!text::is_ws(l[1]));
            } else {
                assert(!text::is_ws(l[0]));
            }
        }
    }
    if exists|k: int| 0 <= k < ls.len() && holds_text(#[trigger] ls[k]) {
        let k = choose|k: int| 0 <= k < ls.len() && holds_text(#[trigger] ls[k]);
        assert(counted_entry(ls[k]));
    }
    if exists|k: int| 0 <= k < ls.len() && counted_entry(#[trigger] ls[k]) {
        let k = choose|k: int| 0 <= k < ls.len() && counted_entry(#[trigger] ls[k]);
        assert(holds_text(ls[k]));
    }
    lemma_changes_iff_status_counts(out);
}

/// `(behind, ahead)` from the output of `rev-list --left-right --count`,
/// `(0, 0)` when there is no upstream or the output is not two numbers.
pub open spec fn upstream_counts(out: Option<Seq<char>>) -> (usize, usize) {
    match out {
        Some(t) => {
            let w = text::words(t);
            if w.len() >= 2 && text::parse_usize(w[0]) is Some && text::parse_usize(w[1]) is Some {
                (text::parse_usize(w[0])->0, text::parse_usize(w[1])->0)
            } else {
                (0, 0)
            }
        },
        None => (0, 0),
    }
}

pub open spec fn opt_string_view(o: Option<String>) -> Option<Seq<char>> {
    match o {
        Some(s) => Some(s@),
        None => None,
    }
}

fn upstream_counts_exec(out: Option<&str>) -> (r: (usize, usize))
    ensures
        r == upstream_counts(opt_view(out)),
{
    match out {
        Some(t) => {
            let v = text::chars_of(t);
            let w = text::words_exec(&v);
            if w.len() >= 2 {
                let a = text::parse_usize_exec(&w[0]);
                let b = text::parse_usize_exec(&w[1]);
                match (a, b) {
                    (Some(x), Some(y)) => (x, y),
                    _ => (0, 0),
                }
            } else {
                (0, 0)
            }
        },
        None => (0, 0),
    }
}

/// Whether a `status --porcelain` output shows a change: some non-empty
/// line once the whole output is trimmed.
pub open spec fn has_changes(out: Seq<char>) -> bool {
    exists|i: int|
        0 <= i < text::lines(text::trim(out)).len() && #[trigger] text::lines(
            text::trim(out),
        )[i].len() > 0
}

impl RepoHandle {
    /// The `status --porcelain` invocation.
    pub fn status_command() -> (r: Vec<String>)
        ensures
            strs(r@) == seq!["status"@, "--porcelain"@],
    {
        owned_args(&vec!["status", "--porcelain"])
    }

    /// The invocation that counts commits behind and ahead of upstream.
    pub fn upstream_command() -> (r: Vec<String>)
        ensures
            strs(r@) == seq!["rev-list"@, "--left-right"@, "--count"@, "@{upstream}...HEAD"@],
    {
        owned_args(&vec!["rev-list", "--left-right", "--count", "@{upstream}...HEAD"])
    }

    /// The status of the working tree: `branch` is the current branch when
    /// it could be named ("HEAD" otherwise), `porcelain` the
    /// `status --porcelain` output, `upstream` the output of
    /// `upstream_command` when it succeeded.
    pub fn status(&self, branch: Option<String>, porcelain: &str, upstream: Option<&str>) -> (r:
        RepoStatus)
        ensures
            r.branch@ == (match opt_string_view(branch) {
                Some(b) => b,
                None => "HEAD"@,
            }),
            r.staged == staged_count(porcelain@),
            r.modified == modified_count(porcelain@),
            r.untracked == untracked_count(porcelain@),
            (r.behind, r.ahead) == upstream_counts(opt_view(upstream)),
    {
        let name = match branch {
            Some(b) => b,
            None => "HEAD".to_owned(),
        };
        let v = text::chars_of(porcelain);
        let ls = text::lines_exec(&v);
        let ghost gl = text::lines(porcelain@);
        let ghost ps = |l: Seq<char>| staged_line(l);
        let ghost pm = |l: Seq<char>| modified_line(l);
        let ghost pu = |l: Seq<char>| untracked_line(l);
        let mut staged: usize = 0;
        let mut modified: usize = 0;
        let mut untracked: usize = 0;
        let mut i: usize = 0;
        while i < ls.len()
            invariant
                i <= ls@.len(),
                ls@.len() == gl.len(),
                forall|k: int| 0 <= k < ls@.len() ==> (#[trigger] ls@[k])@ == gl[k],
                staged == count_where(gl.take(i as int), ps),
                modified == count_where(gl.take(i as int), pm),
                untracked == count_where(gl.take(i as int), pu),
                staged <= i,
                modified <= i,
                untracked <= i,
                ps == (|l: Seq<char>| staged_line(l)),
                pm == (|l: Seq<char>| modified_line(l)),
                pu == (|l: Seq<char>| untracked_line(l)),
            decreases ls.len() - i,
        {
            proof {
                assert(gl.take(i + 1).drop_last() =~= gl.take(i as int));
            }
            let line = &ls[i];
            if line.len() > 0 {
                let idx = line[0];
                let wt = if line.len() > 1 { line[1] } else { ' ' };
                if idx != ' ' && idx != '?' {
                    staged = staged + 1;
                }
                if wt != ' ' && wt != '?' {
                    modified = modified + 1;
                }
                if idx == '?' && wt == '?' {
                    untracked = untracked + 1;
                }
            }
            i = i + 1;
        }
        assert(gl.take(ls@.len() as int) =~= gl);
        let (behind, ahead) = upstream_counts_exec(upstream);
        RepoStatus { branch: name, modified, staged, untracked, ahead, behind }
    }

    /// Whether a `status --porcelain` output shows any change.
    pub fn has_uncommitted_changes(&self, porcelain: &str) -> (r: bool)
        ensures
            r == has_changes(porcelain@),
    {
        let v = text::chars_of(porcelain);
        let t = text::trim_chars(&v);
        let ls = text::lines_exec(&t);
        let mut i: usize = 0;
        while i < ls.len()
            invariant
                i <= ls@.len(),
                ls@.len() == text::lines(text::trim(porcelain@)).len(),
                forall|k: int| 0 <= k < ls@.len() ==> (#[trigger] ls@[k])@ == text::lines(text::trim(porcelain@))[k],
                forall|k: int| 0 <= k < i ==> ls@[k]@.len() == 0,
            decreases ls.len() - i,
        {
            if ls[i].len() > 0 {
                assert(text::lines(text::trim(porcelain@))[i as int].len() > 0);
                return true;
            }
            i = i + 1;
        }
        assert forall|k: int| 0 <= k < text::lines(text::trim(porcelain@)).len() implies #[trigger] text::lines(text::trim(porcelain@))[k].len() == 0 by {
            assert(ls@[k]@.len() == 0);
        }
        false
    }

    /// The invocation that tells whether `HEAD` names a commit.
    pub fn head_probe_command() -> (r: Vec<String>)
        ensures
            strs(r@) == seq!["rev-parse"@, "--verify"@, "HEAD"@],
    {
        owned_args(&vec!["rev-parse", "--verify", "HEAD"])
    }

    /// The invocations of the overview, in the order `overview` reads
    /// them: commit count, branches, tags, contributors, last commit date.
    pub fn overview_commands() -> (r: Vec<Vec<String>>)
        ensures
            r@.len() == 5,
            strs(r@[0]@) == seq!["rev-list"@, "--count"@, "HEAD"@],
            strs(r@[1]@) == seq!["branch"@],
            strs(r@[2]@) == seq!["tag"@],
            strs(r@[3]@) == seq!["shortlog"@, "-sne"@, "HEAD"@],
            strs(r@[4]@) == seq!["log"@, "-1"@, "--format=%ad"@, "--date=short"@],
    {
        let mut r: Vec<Vec<String>> = Vec::new();
        r.push(owned_args(&vec!["rev-list", "--count", "HEAD"]));
        r.push(owned_args(&vec!["branch"]));
        r.push(owned_args(&vec!["tag"]));
        r.push(owned_args(&vec!["shortlog", "-sne", "HEAD"]));
        r.push(owned_args(&vec!["log", "-1", "--format=%ad", "--date=short"]));
        r
    }

    /// The overview: `head` holds what the commit-dependent invocations
    /// printed when `HEAD` exists, `branches` and `tags` the two listings,
    /// `head_branch` the current branch when it could be named.
    pub fn overview(
        &self,
        head: Option<HeadOutputs>,
        branches: &str,
        tags: &str,
        head_branch: Option<String>,
    ) -> (r: RepoOverview)
        ensures
            r.path@ == self.path@,
            r.total_branches == count_nonblank(text::lines(branches@)),
            r.total_tags == count_nonblank(text::lines(tags@)),
            r.head_branch@ == (match opt_string_view(head_branch) {
                Some(b) => b,
                None => "HEAD"@,
            }),
            match head {
                Some(h) => {
                    &&& r.total_commits == (match text::parse_u64(text::trim(h.commit_count@)) {
                        Some(n) => n,
                        None => 0,
                    })
                    &&& r.contributors == count_nonblank(text::lines(h.shortlog@))
                    &&& r.last_commit_date@ == text::trim(h.last_date@)
                },
                None => {
                    &&& r.total_commits == 0
                    &&& r.contributors == 0
                    &&& r.last_commit_date@ == Seq::<char>::empty()
                },
            },
    {
        let total_branches = count_nonblank_lines(branches);
        let total_tags = count_nonblank_lines(tags);
        let name = match head_branch {
            Some(b) => b,
            None => "HEAD".to_owned(),
        };
        let (total_commits, contributors, last_commit_date) = match head {
            Some(h) => {
                let cv = text::chars_of(h.commit_count.as_str());
                let ct = text::trim_chars(&cv);
                let n = match text::parse_u64_exec(&ct) {
                    Some(n) => n,
                    None => 0,
                };
                let c = count_nonblank_lines(h.shortlog.as_str());
                let dv = text::chars_of(h.last_date.as_str());
                let dt = text::trim_chars(&dv);
                (n, c, text::string_of(&dt))
            },
            None => (0, 0, String::new()),
        };
        RepoOverview {
            path: self.path.clone(),
            total_commits,
            total_branches,
            total_tags,
            contributors,
            head_branch: name,
            last_commit_date,
        }
    }
}

// ---------------------------------------------------------------------------
// Commit graph
// ---------------------------------------------------------------------------

/// A reference name of the `%D` field: the trimmed piece, when not empty.
pub open spec fn ref_of_piece(p: Seq<char>) -> Option<Seq<char>> {
    if text::trim(p).len() > 0 {
        Some(text::trim(p))
    } else {
        None
    }
}

/// The node that one record of the graph listing describes: fields
/// separated by U+001F, hash and parents cut to ten characters, references
/// split at commas.
pub open spec fn node_of_record(record: Seq<char>) -> Option<CommitGraphNodeView> {
    let fields = text::split_on(text::trim(record), '\u{1f}');
    if fields.len() < 6 || fields[0].len() == 0 {
        None
    } else {
        Some(
            CommitGraphNodeView {
                hash: prefix_chars(fields[0], 10),
                parents: text::words(fields[1]).map_values(|p: Seq<char>| prefix_chars(p, 10)),
                refs: text::split_on(fields[2], ',').filter_map(|p: Seq<char>| ref_of_piece(p)),
                author: fields[3],
                date: fields[4],
                message: fields[5],
            },
        )
    }
}

/// The nodes of a graph listing, whose records end with U+001E.
pub open spec fn nodes_of(out: Seq<char>) -> Seq<CommitGraphNodeView> {
    text::split_on(out, '\u{1e}').filter_map(|r: Seq<char>| node_of_record(r))
}

pub open spec fn node_views(v: Seq<CommitGraphNode>) -> Seq<CommitGraphNodeView> {
    v.map_values(|n: CommitGraphNode| n@)
}

fn parents_exec(field: &Vec<char>) -> (r: Vec<String>)
    ensures
        strs(r@) == text::words(field@).map_values(|p: Seq<char>| prefix_chars(p, 10)),
{
    let ws = text::words_exec(field);
    let ghost target = text::words(field@).map_values(|p: Seq<char>| prefix_chars(p, 10));
    let mut r: Vec<String> = Vec::new();
    let mut i: usize = 0;
    while i < ws.len()
        invariant
            i <= ws@.len(),
            ws@.len() == text::words(field@).len(),
            forall|k: int| 0 <= k < ws@.len() ==> (#[trigger] ws@[k])@ == text::words(field@)[k],
            target == text::words(field@).map_values(|p: Seq<char>| prefix_chars(p, 10)),
            r@.len() == i,
            forall|k: int| 0 <= k < i ==> (#[trigger] r@[k])@ == target[k],
        decreases ws.len() - i,
    {
        r.push(prefix_string(&ws[i], 10));
        i = i + 1;
    }
    assert(strs(r@) =~= target);
    r
}

fn refs_exec(field: &Vec<char>) -> (r: Vec<String>)
    ensures
        strs(r@) == text::split_on(field@, ',').filter_map(|p: Seq<char>| ref_of_piece(p)),
{
    let pieces = text::split_on_exec(field, ',');
    let ghost gp = text::split_on(field@, ',');
    let ghost f = |p: Seq<char>| ref_of_piece(p);
    let mut r: Vec<String> = Vec::new();
    let mut i: usize = 0;
    while i < pieces.len()
        invariant
            i <= pieces@.len(),
            pieces@.len() == gp.len(),
            gp == text::split_on(field@, ','),
            f == (|p: Seq<char>| ref_of_piece(p)),
            forall|k: int| 0 <= k < pieces@.len() ==> (#[trigger] pieces@[k])@ == gp[k],
            strs(r@) == gp.take(i as int).filter_map(f),
        decreases pieces.len() - i,
    {
        proof {
            gp.lemma_filter_map_take_succ(f, i as int);
        }
        let t = text::trim_chars(&pieces[i]);
        if t.len() > 0 {
            let ghost before = r@;
            r.push(text::string_of(&t));
            assert(strs(r@) =~= strs(before) + seq![t@]);
        }
        i = i + 1;
    }
    assert(gp.take(pieces@.len() as int) =~= gp);
    r
}

fn node_of_record_exec(record: &Vec<char>) -> (r: Option<CommitGraphNode>)
    ensures
        match r {
            Some(n) => node_of_record(record@) == Some(n@),
            None => node_of_record(record@) is None,
        },
{
    let t = text::trim_chars(record);
    let fields = text::split_on_exec(&t, '\u{1f}');
    if fields.len() < 6 || fields[0].len() == 0 {
        return None;
    }
    Some(
        CommitGraphNode {
            hash: prefix_string(&fields[0], 10),
            parents: parents_exec(&fields[1]),
            refs: refs_exec(&fields[2]),
            author: text::string_of(&fields[3]),
            date: text::string_of(&fields[4]),
            message: text::string_of(&fields[5]),
        },
    )
}

impl RepoHandle {
    /// The `log` invocation that lists up to `max_count` commits reachable
    /// from any reference, newest first in topological order.
    pub fn commit_graph_command(max_count: usize) -> (r: Vec<String>)
        ensures
            strs(r@) == seq![
                "log"@, "--all"@, "--topo-order"@, "--date-order"@, "--decorate=short"@,
                "--format=%H%x1f%P%x1f%D%x1f%an%x1f%ad%x1f%s%x1e"@, "--date=short"@, "-n"@,
                text::dec_str(max_count as nat)
            ],
    {
        let mut r = owned_args(
            &vec![
                "log", "--all", "--topo-order", "--date-order", "--decorate=short",
                "--format=%H%x1f%P%x1f%D%x1f%an%x1f%ad%x1f%s%x1e", "--date=short", "-n",
            ],
        );
        let d = text::u64_chars(max_count as u64);
        let ds = text::string_of(&d);
        push_arg(&mut r, ds.as_str());
        r
    }

    /// The commit graph: no node when `HEAD` does not exist (`output` is
    /// `None`), else one node per well-formed record of the listing.
    pub fn commit_graph(&self, output: Option<&str>) -> (r: Vec<CommitGraphNode>)
        ensures
            node_views(r@) == (match output {
                Some(o) => nodes_of(o@),
                None => Seq::<CommitGraphNodeView>::empty(),
            }),
    {
        let mut r: Vec<CommitGraphNode> = Vec::new();
        let out = match output {
            Some(o) => o,
            None => {
                assert(node_views(r@) =~= Seq::<CommitGraphNodeView>::empty());
                return r;
            },
        };
        let v = text::chars_of(out);
        let recs = text::split_on_exec(&v, '\u{1e}');
        let ghost gr = text::split_on(out@, '\u{1e}');
        let ghost f = |x: Seq<char>| node_of_record(x);
        let mut i: usize = 0;
        assert(node_views(r@) =~= gr.take(0).filter_map(f));
        while i < recs.len()
            invariant
                i <= recs@.len(),
                recs@.len() == gr.len(),
                gr == text::split_on(out@, '\u{1e}'),
                f == (|x: Seq<char>| node_of_record(x)),
                forall|k: int| 0 <= k < recs@.len() ==> (#[trigger] recs@[k])@ == gr[k],
                node_views(r@) == gr.take(i as int).filter_map(f),
            decreases recs.len() - i,
        {
            proof {
                gr.lemma_filter_map_take_succ(f, i as int);
            }
            let ghost before = r@;
            match node_of_record_exec(&recs[i]) {
                Some(n) => {
                    r.push(n);
                    assert(node_views(r@) =~= node_views(before) + seq![n@]);
                },
                None => {},
            }
            i = i + 1;
        }
        assert(gr.take(recs@.len() as int) =~= gr);
        r
    }
}

// ---------------------------------------------------------------------------
// Working tree
// ---------------------------------------------------------------------------

/// The non-empty NUL-terminated records of `status --porcelain=v1 -z`.
pub open spec fn status_records(out: Seq<char>) -> Seq<Seq<char>> {
    text::split_on(out, '\0').filter_map(|r: Seq<char>| if r.len() > 0 { Some(r) } else { None })
}

/// The path part of a record: what follows its first three bytes.
pub open spec fn record_path(r: Seq<char>) -> Seq<char> {
    r.skip(choose|j: int| text::boundary_at(r, 3, j))
}

/// The entry for one record of at least three bytes.
pub open spec fn entry_of(r: Seq<char>) -> WorkingTreeFileView {
    let x = (text::byte0(r) as char);
    let y = (text::byte1(r) as char);
    let untracked = x == '?' && y == '?';
    WorkingTreeFileView {
        path: record_path(r),
        index_status: x,
        worktree_status: y,
        staged: !untracked && x != ' ',
        modified: !untracked && y != ' ',
        untracked: untracked,
        conflicted: x == 'U' || y == 'U' || (x == 'A' && y == 'A') || (x == 'D' && y == 'D'),
    }
}

/// The flags of a working-tree entry follow its two status codes: the
/// codes are the record's first two characters (ASCII, as git writes
/// them; compared by code point); the entry is conflicted exactly when either code is `U` or both
/// are `A` or both are `D`; untracked exactly when both are `?`; staged
/// when it is tracked and the index code is not blank, modified when it
/// is tracked and the worktree code is not blank.
pub proof fn lemma_entry_flags_follow_codes(r: Seq<char>)
    ensures
        ({
            let e = entry_of(r);
            let x = e.index_status;
            let y = e.worktree_status;
            &&& e.conflicted <==> (x == 'U' || y == 'U' || (x == 'A' && y == 'A') || (x == 'D' && y == 'D'))
            &&& e.untracked <==> (x == '?' && y == '?')
            &&& e.staged <==> (!(x == '?' && y == '?') && x != ' ')
            &&& e.modified <==> (!(x == '?' && y == '?') && y != ' ')
            &&& (r.len() >= 2 && (r[0] as u32) < 128 && (r[1] as u32) < 128) ==> x as u32 == r[0] as u32
                && y as u32 == r[1] as u32
        }),
{
    if r.len() >= 2 && (r[0] as u32) < 128 && (r[1] as u32) < 128 {
        assert(text::utf8_width(r[0]) == 1);
        assert(text::byte0(r) == (r[0] as u32) as u8);
        assert(text::byte1(r) == (r[1] as u32) as u8);
        let b0 = text::byte0(r);
        assert(b0 as u32 == r[0] as u32);
        assert((b0 as char) as u32 == r[0] as u32);
    }
}

/// A rename or copy: its record is followed by the source path.
pub open spec fn renamed_or_copied(e: WorkingTreeFileView) -> bool {
    e.index_status == 'R' || e.index_status == 'C' || e.worktree_status == 'R'
        || e.worktree_status == 'C'
}

/// The records after the current one that are still to read.
pub open spec fn next_records(recs: Seq<Seq<char>>) -> Seq<Seq<char>> {
    if text::byte_len(recs[0]) >= 3 && renamed_or_copied(entry_of(recs[0])) {
        if recs.len() >= 2 {
            recs.skip(2)
        } else {
            Seq::<Seq<char>>::empty()
        }
    } else {
        recs.drop_first()
    }
}

/// The entries of the records, in their order: records shorter than three
/// bytes are passed over, and the source path after a rename or copy is
/// not an entry.
pub open spec fn tree_entries(recs: Seq<Seq<char>>) -> Seq<WorkingTreeFileView>
    decreases recs.len(),
{
    if recs.len() == 0 {
        Seq::<WorkingTreeFileView>::empty()
    } else if text::byte_len(recs[0]) < 3 {
        tree_entries(recs.drop_first())
    } else {
        seq![entry_of(recs[0])] + tree_entries(next_records(recs))
    }
}

/// Every record that is read as an entry has a character boundary after
/// its third byte (else cutting the path would panic).
pub open spec fn records_cut_cleanly(recs: Seq<Seq<char>>) -> bool
    decreases recs.len(),
{
    if recs.len() == 0 {
        true
    } else if text::byte_len(recs[0]) < 3 {
        records_cut_cleanly(recs.drop_first())
    } else {
        text::is_boundary(recs[0], 3) && records_cut_cleanly(next_records(recs))
    }
}

pub open spec fn tree_views(v: Seq<WorkingTreeFile>) -> Seq<WorkingTreeFileView> {
    v.map_values(|f: WorkingTreeFile| f@)
}

/// The paths of entries.
pub open spec fn entry_paths(es: Seq<WorkingTreeFileView>) -> Seq<Seq<char>> {
    es.map_values(|e: WorkingTreeFileView| e.path)
}

/// `r` lists `es` in the stable ascending order of their paths.
pub open spec fn sorted_by_path(es: Seq<WorkingTreeFileView>, r: Seq<WorkingTreeFileView>) -> bool {
    exists|ord: Seq<usize>|
        #![trigger order::is_stable_text_asc(entry_paths(es), ord)]
        order::is_stable_text_asc(entry_paths(es), ord)
            && r.len() == ord.len() && forall|i: int|
            0 <= i < r.len() ==> #[trigger] r[i] == es[ord[i] as int]
}

proof fn lemma_boundary_unique(s: Seq<char>, k: nat, a: int, b: int)
    requires
        text::boundary_at(s, k, a),
        text::boundary_at(s, k, b),
    ensures
        a == b,
{
    if a < b {
        text::lemma_byte_len_take_mono(s, a, b);
    } else if b < a {
        text::lemma_byte_len_take_mono(s, b, a);
    }
}

fn entry_of_exec(r: &Vec<char>) -> (e: WorkingTreeFile)
    requires
        text::byte_len(r@) >= 3,
        text::is_boundary(r@, 3),
    ensures
        e@ == entry_of(r@),
{
    proof {
        if r@.len() == 1 {
            assert(r@.drop_last() =~= Seq::<char>::empty());
            assert(text::byte_len(r@.drop_last()) == 0);
            assert(text::byte_len(r@) == text::byte_len(r@.drop_last()) + text::utf8_width(r@.last()));
            assert(r@.last() == r@[0]);
        }
    }
    let x = text::byte0_exec(r);
    let y = text::byte1_exec(r);
    let j = text::char_index_of_byte(r, 3);
    let start = match j {
        Some(j) => j,
        None => 0,
    };
    proof {
        let c = choose|j: int| text::boundary_at(r@, 3, j);
        lemma_boundary_unique(r@, 3, c, start as int);
    }
    let path_chars = text::slice_chars(r, start, r.len());
    let untracked = x == '?' && y == '?';
    WorkingTreeFile {
        path: text::string_of(&path_chars),
        index_status: x,
        worktree_status: y,
        staged: !untracked && x != ' ',
        modified: !untracked && y != ' ',
        untracked,
        conflicted: x == 'U' || y == 'U' || (x == 'A' && y == 'A') || (x == 'D' && y == 'D'),
    }
}

/// Whether the text takes at least three bytes.
fn at_least_three_bytes(r: &Vec<char>) -> (b: bool)
    ensures
        b == (text::byte_len(r@) >= 3),
{
    let mut b: usize = 0;
    let mut k: usize = 0;
    assert(r@.take(0) =~= Seq::<char>::empty());
    while k < r.len() && b < 3
        invariant
            k <= r@.len(),
            b == text::byte_len(r@.take(k as int)),
        decreases r.len() - k,
    {
        proof {
            assert(r@.take(k + 1).drop_last() =~= r@.take(k as int));
        }
        b = b + text::utf8_width_exec(r[k]);
        k = k + 1;
    }
    proof {
        text::lemma_byte_len_take_mono(r@, k as int, r@.len() as int);
        assert(r@.take(r@.len() as int) =~= r@);
    }
    b >= 3
}

fn nonempty_records(out: &str) -> (r: Vec<Vec<char>>)
    ensures
        r@.len() == status_records(out@).len(),
        forall|k: int| 0 <= k < r@.len() ==> (#[trigger] r@[k])@ == status_records(out@)[k],
{
    let v = text::chars_of(out);
    let parts = text::split_on_exec(&v, '\0');
    let ghost gp = text::split_on(out@, '\0');
    let ghost f = |x: Seq<char>| if x.len() > 0 { Some(x) } else { None };
    let mut r: Vec<Vec<char>> = Vec::new();
    let mut i: usize = 0;
    while i < parts.len()
        invariant
            i <= parts@.len(),
            parts@.len() == gp.len(),
            gp == text::split_on(out@, '\0'),
            f == (|x: Seq<char>| if x.len() > 0 { Some(x) } else { None }),
            forall|k: int| 0 <= k < parts@.len() ==> (#[trigger] parts@[k])@ == gp[k],
            r@.len() == gp.take(i as int).filter_map(f).len(),
            forall|k: int| 0 <= k < r@.len() ==> (#[trigger] r@[k])@ == gp.take(i as int).filter_map(f)[k],
        decreases parts.len() - i,
    {
        proof {
            gp.lemma_filter_map_take_succ(f, i as int);
        }
        if parts[i].len() > 0 {
            let p = text::slice_chars(&parts[i], 0, parts[i].len());
            assert(parts@[i as int]@.subrange(0, parts@[i as int]@.len() as int) =~= parts@[i as int]@);
            r.push(p);
        }
        i = i + 1;
    }
    assert(gp.take(parts@.len() as int) =~= gp);
    r
}

/// Whether every record read as an entry can be cut after its third byte
/// (`records_cut_cleanly` of the output's records).
pub fn status_records_cut_cleanly(output: &str) -> (b: bool)
    ensures
        b == records_cut_cleanly(status_records(output@)),
{
    let recs = nonempty_records(output);
    let ghost gr = status_records(output@);
    let mut i: usize = 0;
    assert(gr.skip(0) =~= gr);
    while i < recs.len()
        invariant
            i <= recs@.len(),
            recs@.len() == gr.len(),
            gr == status_records(output@),
            forall|k: int| 0 <= k < recs@.len() ==> (#[trigger] recs@[k])@ == gr[k],
            records_cut_cleanly(gr) == records_cut_cleanly(gr.skip(i as int)),
        decreases recs.len() - i,
    {
        let ghost rest = gr.skip(i as int);
        assert(rest[0] == recs@[i as int]@);
        let r = &recs[i];
        if !at_least_three_bytes(r) {
            proof {
                assert(rest.drop_first() =~= gr.skip(i + 1));
            }
            i = i + 1;
        } else {
            if text::char_index_of_byte(r, 3).is_none() {
                return false;
            }
            let e = entry_of_exec(r);
            let skip_next = e.index_status == 'R' || e.index_status == 'C'
                || e.worktree_status == 'R' || e.worktree_status == 'C';
            proof {
                if skip_next {
                    if rest.len() >= 2 {
                        assert(rest.skip(2) =~= gr.skip(i + 2));
                    } else {
                        assert(gr.skip(i + 1) =~= Seq::<Seq<char>>::empty());
                    }
                } else {
                    assert(rest.drop_first() =~= gr.skip(i + 1));
                }
            }
            if skip_next && i + 1 < recs.len() {
                i = i + 2;
            } else {
                i = i + 1;
            }
        }
    }
    proof {
        assert(gr.skip(i as int) =~= Seq::<Seq<char>>::empty());
    }
    true
}

impl RepoHandle {
    /// The porcelain status invocation, NUL-separated, listing every
    /// untracked file.
    pub fn working_tree_files_command() -> (r: Vec<String>)
        ensures
            strs(r@) == seq!["status"@, "--porcelain=v1"@, "-z"@, "--untracked-files=all"@],
    {
        owned_args(&vec!["status", "--porcelain=v1", "-z", "--untracked-files=all"])
    }

    /// The changed paths of a `status --porcelain=v1 -z` output, sorted by
    /// path, names kept exactly (spaces and non-ASCII included).
    pub fn working_tree_files(&self, output: &str) -> (r: Vec<WorkingTreeFile>)
        requires
            records_cut_cleanly(status_records(output@)),
        ensures
            sorted_by_path(tree_entries(status_records(output@)), tree_views(r@)),
    {
        let recs = nonempty_records(output);
        let ghost gr = status_records(output@);
        let mut entries: Vec<WorkingTreeFile> = Vec::new();
        let mut i: usize = 0;
        assert(gr.skip(0) =~= gr);
        while i < recs.len()
            invariant
                i <= recs@.len(),
                recs@.len() == gr.len(),
                gr == status_records(output@),
                forall|k: int| 0 <= k < recs@.len() ==> (#[trigger] recs@[k])@ == gr[k],
                tree_views(entries@) + tree_entries(gr.skip(i as int)) == tree_entries(gr),
                records_cut_cleanly(gr.skip(i as int)),
            decreases recs.len() - i,
        {
            let ghost rest = gr.skip(i as int);
            assert(rest[0] == recs@[i as int]@);
            let r = &recs[i];
            let short = !at_least_three_bytes(r);
            if short {
                proof {
                    assert(rest.drop_first() =~= gr.skip(i + 1));
                }
                i = i + 1;
            } else {
                let e = entry_of_exec(r);
                let skip_next = e.index_status == 'R' || e.index_status == 'C'
                    || e.worktree_status == 'R' || e.worktree_status == 'C';
                let ghost before = entries@;
                entries.push(e);
                proof {
                    assert(tree_views(entries@) =~= tree_views(before) + seq![e@]);
                    if skip_next {
                        if rest.len() >= 2 {
                            assert(rest.skip(2) =~= gr.skip(i + 2));
                        } else {
                            assert(gr.skip(i + 1) =~= Seq::<Seq<char>>::empty());
                        }
                    } else {
                        assert(rest.drop_first() =~= gr.skip(i + 1));
                    }
                }
                if skip_next && i + 1 < recs.len() {
                    i = i + 2;
                } else {
                    i = i + 1;
                }
            }
        }
        proof {
            assert(gr.skip(i as int) =~= Seq::<Seq<char>>::empty());
            assert(tree_views(entries@) =~= tree_entries(gr));
        }
        let mut keys: Vec<Vec<char>> = Vec::new();
        let mut k: usize = 0;
        while k < entries.len()
            invariant
                k <= entries@.len(),
                keys@.len() == k,
                forall|j: int| 0 <= j < k ==> (#[trigger] keys@[j])@ == entries@[j].path@,
            decreases entries.len() - k,
        {
            keys.push(text::chars_of(entries[k].path.as_str()));
            k = k + 1;
        }
        let ord = order::stable_text_order(&keys);
        let ghost es = tree_entries(gr);
        proof {
            assert(keys@.map_values(|x: Vec<char>| x@) =~= entry_paths(es));
        }
        let mut out: Vec<WorkingTreeFile> = Vec::new();
        let mut m: usize = 0;
        while m < ord.len()
            invariant
                m <= ord@.len(),
                ord@.len() == entries@.len(),
                order::is_permutation_of_indices(ord@, entries@.len() as nat),
                tree_views(entries@) == es,
                out@.len() == m,
                forall|j: int| 0 <= j < m ==> (#[trigger] out@[j])@ == es[ord@[j] as int],
            decreases ord.len() - m,
        {
            let src = &entries[ord[m]];
            let copy = WorkingTreeFile {
                path: src.path.clone(),
                index_status: src.index_status,
                worktree_status: src.worktree_status,
                staged: src.staged,
                modified: src.modified,
                untracked: src.untracked,
                conflicted: src.conflicted,
            };
            assert(copy@ == es[ord@[m as int] as int]);
            out.push(copy);
            m = m + 1;
        }
        proof {
            let tv = tree_views(out@);
            assert(order::is_stable_text_asc(entry_paths(es), ord@));
            assert forall|j: int| 0 <= j < tv.len() implies #[trigger] tv[j] == es[ord@[j] as int] by {
                assert(tv[j] == out@[j]@);
            }
        }
        out
    }
}

// ---------------------------------------------------------------------------
// Index, commits, sync, maintenance, stash and reset
// ---------------------------------------------------------------------------

/// Appends the given paths as arguments.
fn push_all(r: &mut Vec<String>, paths: &Vec<String>)
    ensures
        strs(final(r)@) == strs(old(r)@) + strs(paths@),
{
    let mut i: usize = 0;
    while i < paths.len()
        invariant
            i <= paths@.len(),
            strs(r@) == strs(old(r)@) + strs(paths@.take(i as int)),
        decreases paths.len() - i,
    {
        push_arg(r, paths[i].as_str());
        i = i + 1;
        assert(strs(paths@.take(i as int)) =~= strs(paths@.take(i - 1)).push(paths@[i - 1]@));
    }
    assert(paths@.take(paths@.len() as int) =~= paths@);
}

impl RepoHandle {
    /// The `diff` of one path: against the index when `staged`, against the
    /// working tree otherwise.
    pub fn working_tree_diff(&self, path: &str, staged: bool) -> (r: Vec<String>)
        ensures
            strs(r@) == (if staged {
                seq!["diff"@, "--cached"@, "--"@, path@]
            } else {
                seq!["diff"@, "--"@, path@]
            }),
    {
        if staged {
            owned_args(&vec!["diff", "--cached", "--", path])
        } else {
            owned_args(&vec!["diff", "--", path])
        }
    }

    /// Stages the paths; nothing to run when there are none.
    pub fn stage_files(&self, paths: &Vec<String>) -> (r: Option<Vec<String>>)
        ensures
            paths@.len() == 0 ==> r is None,
            paths@.len() > 0 ==> (r matches Some(a) && strs(a@) == seq!["add"@, "--"@] + strs(
                paths@,
            )),
    {
        if paths.len() == 0 {
            return None;
        }
        let mut a = owned_args(&vec!["add", "--"]);
        push_all(&mut a, paths);
        Some(a)
    }

    /// Unstages the paths: `reset` when `HEAD` exists, else removal from the
    /// index; nothing to run when there are none.
    pub fn unstage_files(&self, paths: &Vec<String>, has_head: bool) -> (r: Option<Vec<String>>)
        ensures
            paths@.len() == 0 ==> r is None,
            paths@.len() > 0 ==> (r matches Some(a) && strs(a@) == (if has_head {
                seq!["reset"@, "--"@]
            } else {
                seq!["rm"@, "--cached"@, "-r"@, "--ignore-unmatch"@, "--"@]
            }) + strs(paths@)),
    {
        if paths.len() == 0 {
            return None;
        }
        let mut a = if has_head {
            owned_args(&vec!["reset", "--"])
        } else {
            owned_args(&vec!["rm", "--cached", "-r", "--ignore-unmatch", "--"])
        };
        push_all(&mut a, paths);
        Some(a)
    }

    /// Commits the index with the trimmed message; refuses an empty one.
    pub fn commit_staged(&self, message: &str) -> (r: Result<Vec<String>, GhError>)
        ensures
            text::trim(message@).len() == 0 ==> (r matches Err(GhError::Args(m)) && m@
                == "提交说明不能为空"@),
            text::trim(message@).len() > 0 ==> (r matches Ok(a) && strs(a@) == seq![
                "commit"@,
                "-m"@,
                text::trim(message@)
            ]),
    {
        let v = text::chars_of(message);
        let t = text::trim_chars(&v);
        if t.len() == 0 {
            return Err(GhError::Args("提交说明不能为空".to_owned()));
        }
        let ts = text::string_of(&t);
        let mut a = owned_args(&vec!["commit", "-m"]);
        push_arg(&mut a, ts.as_str());
        Ok(a)
    }

    /// The invocation that prints the short hash of `HEAD`.
    pub fn short_head_command() -> (r: Vec<String>)
        ensures
            strs(r@) == seq!["rev-parse"@, "--short"@, "HEAD"@],
    {
        owned_args(&vec!["rev-parse", "--short", "HEAD"])
    }

    /// The new commit's short hash: the output trimmed.
    pub fn committed_hash(&self, output: &str) -> (r: String)
        ensures
            r@ == text::trim(output@),
    {
        self.current_branch(output)
    }

    /// `pull`, rebasing when asked.
    pub fn pull(&self, rebase: bool) -> (r: Vec<String>)
        ensures
            strs(r@) == (if rebase { seq!["pull"@, "--rebase"@] } else { seq!["pull"@] }),
    {
        if rebase {
            owned_args(&vec!["pull", "--rebase"])
        } else {
            owned_args(&vec!["pull"])
        }
    }

    /// `fetch --prune`.
    pub fn fetch(&self) -> (r: Vec<String>)
        ensures
            strs(r@) == seq!["fetch"@, "--prune"@],
    {
        owned_args(&vec!["fetch", "--prune"])
    }

    /// `push`.
    pub fn push(&self) -> (r: Vec<String>)
        ensures
            strs(r@) == seq!["push"@],
    {
        owned_args(&vec!["push"])
    }

    /// `gc`, aggressive when asked.
    pub fn gc(&self, aggressive: bool) -> (r: Vec<String>)
        ensures
            strs(r@) == (if aggressive { seq!["gc"@, "--aggressive"@] } else { seq!["gc"@] }),
    {
        if aggressive {
            owned_args(&vec!["gc", "--aggressive"])
        } else {
            owned_args(&vec!["gc"])
        }
    }

    /// The stash listing: reference, relative age and subject per line.
    pub fn stash_list(&self) -> (r: Vec<String>)
        ensures
            strs(r@) == seq!["stash"@, "list"@, "--format=%gd|%ar|%s"@],
    {
        owned_args(&vec!["stash", "list", "--format=%gd|%ar|%s"])
    }

    /// Lists the stash entries with their commit times, one
    /// `reference|seconds since the epoch` line each.
    pub fn stash_times(&self) -> (r: Vec<String>)
        ensures
            strs(r@) == seq!["stash"@, "list"@, "--format=%gd|%ct"@],
    {
        owned_args(&vec!["stash", "list", "--format=%gd|%ct"])
    }

    /// Drops one stash entry.
    pub fn stash_drop(&self, stash_ref: &str) -> (r: Vec<String>)
        ensures
            strs(r@) == seq!["stash"@, "drop"@, stash_ref@],
    {
        owned_args(&vec!["stash", "drop", stash_ref])
    }

    /// Drops every stash entry.
    pub fn stash_clear(&self) -> (r: Vec<String>)
        ensures
            strs(r@) == seq!["stash"@, "clear"@],
    {
        owned_args(&vec!["stash", "clear"])
    }

    /// Moves `HEAD` to `target`.
    pub fn reset_soft(&self, target: &str) -> (r: Vec<String>)
        ensures
            strs(r@) == seq!["reset"@, "--soft"@, target@],
    {
        owned_args(&vec!["reset", "--soft", target])
    }

    /// Moves `HEAD` to `target` and resets the index.
    pub fn reset_mixed(&self, target: &str) -> (r: Vec<String>)
        ensures
            strs(r@) == seq!["reset"@, "--mixed"@, target@],
    {
        owned_args(&vec!["reset", "--mixed", target])
    }

    /// Moves `HEAD` to `target` and resets the index and the working tree.
    pub fn reset_hard(&self, target: &str) -> (r: Vec<String>)
        ensures
            strs(r@) == seq!["reset"@, "--hard"@, target@],
    {
        owned_args(&vec!["reset", "--hard", target])
    }
}

} // verus!
