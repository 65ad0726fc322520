//! Aggregation of commits and their diffs into per-author and per-file
//! statistics.

use vstd::prelude::*;
use crate::repo::{CommitInfo, CommitInfoView, FileChange, FileChangeView, RepoHandle};
use crate::stats::{analyzer, filter};
use crate::text;
use crate::order;

verus! {

/// Contribution figures of one author (authors are told apart by their
/// lowercased e-mail).
#[derive(Debug)]
pub struct AuthorStats {
    pub name: String,
    pub email: String,
    pub commits: usize,
    pub files_changed: usize,
    pub lines_added: u64,
    pub lines_deleted: u64,
    pub net_lines: i64,
    pub code_lines: u64,
    pub comment_lines: u64,
    pub blank_lines: u64,
    pub first_commit: String,
    pub last_commit: String,
    pub active_days: u32,
}

pub struct AuthorStatsView {
    pub name: Seq<char>,
    pub email: Seq<char>,
    pub commits: usize,
    pub files_changed: usize,
    pub lines_added: u64,
    pub lines_deleted: u64,
    pub net_lines: i64,
    pub code_lines: u64,
    pub comment_lines: u64,
    pub blank_lines: u64,
    pub first_commit: Seq<char>,
    pub last_commit: Seq<char>,
    pub active_days: u32,
}

impl View for AuthorStats {
    type V = AuthorStatsView;

    open spec fn view(&self) -> AuthorStatsView {
        AuthorStatsView {
            name: self.name@,
            email: self.email@,
            commits: self.commits,
            files_changed: self.files_changed,
            lines_added: self.lines_added,
            lines_deleted: self.lines_deleted,
            net_lines: self.net_lines,
            code_lines: self.code_lines,
            comment_lines: self.comment_lines,
            blank_lines: self.blank_lines,
            first_commit: self.first_commit@,
            last_commit: self.last_commit@,
            active_days: self.active_days,
        }
    }
}

impl AuthorStats {
    /// A field-by-field copy.
    pub fn copy(&self) -> (r: AuthorStats)
        ensures
            r@ == self@,
    {
        AuthorStats {
            name: self.name.clone(),
            email: self.email.clone(),
            commits: self.commits,
            files_changed: self.files_changed,
            lines_added: self.lines_added,
            lines_deleted: self.lines_deleted,
            net_lines: self.net_lines,
            code_lines: self.code_lines,
            comment_lines: self.comment_lines,
            blank_lines: self.blank_lines,
            first_commit: self.first_commit.clone(),
            last_commit: self.last_commit.clone(),
            active_days: self.active_days,
        }
    }
}

/// Line figures of one file path.
#[derive(Debug)]
pub struct FileStats {
    pub path: String,
    pub lines_added: u64,
    pub lines_deleted: u64,
    pub code_lines: u64,
    pub comment_lines: u64,
    pub blank_lines: u64,
}

pub struct FileStatsView {
    pub path: Seq<char>,
    pub lines_added: u64,
    pub lines_deleted: u64,
    pub code_lines: u64,
    pub comment_lines: u64,
    pub blank_lines: u64,
}

impl View for FileStats {
    type V = FileStatsView;

    open spec fn view(&self) -> FileStatsView {
        FileStatsView {
            path: self.path@,
            lines_added: self.lines_added,
            lines_deleted: self.lines_deleted,
            code_lines: self.code_lines,
            comment_lines: self.comment_lines,
            blank_lines: self.blank_lines,
        }
    }
}

/// The statistics of one repository.
#[derive(Debug)]
pub struct StatsResult {
    pub repo_path: String,
    pub authors: Vec<AuthorStats>,
    pub files: Vec<FileStats>,
    pub total_commits: usize,
}

// ---------------------------------------------------------------------------
// What is counted
// ---------------------------------------------------------------------------

/// Sums of line figures.
pub struct Tally {
    pub files: nat,
    pub added: nat,
    pub deleted: nat,
    pub code: nat,
    pub comment: nat,
    pub blank: nat,
}

pub open spec fn zero_tally() -> Tally {
    Tally { files: 0, added: 0, deleted: 0, code: 0, comment: 0, blank: 0 }
}

pub open spec fn tally_plus(a: Tally, b: Tally) -> Tally {
    Tally {
        files: a.files + b.files,
        added: a.added + b.added,
        deleted: a.deleted + b.deleted,
        code: a.code + b.code,
        comment: a.comment + b.comment,
        blank: a.blank + b.blank,
    }
}

pub open spec fn tally_le(a: Tally, b: Tally) -> bool {
    a.files <= b.files && a.added <= b.added && a.deleted <= b.deleted && a.code <= b.code
        && a.comment <= b.comment && a.blank <= b.blank
}

/// The figures fit the integer types of the statistics.
pub open spec fn tally_fits(t: Tally) -> bool {
    t.files <= usize::MAX && t.added <= u64::MAX && t.deleted <= u64::MAX && t.code <= u64::MAX
        && t.comment <= u64::MAX && t.blank <= u64::MAX
}

/// A file counts unless the filter leaves it out.
pub open spec fn counted(f: FileChangeView) -> bool {
    !filter::ignored(f.path)
}

/// The estimated code, comment and blank lines of a changed file: 90, 5
/// and 5 when its path has an extension, nothing otherwise.
pub open spec fn file_tally(f: FileChangeView) -> Tally {
    let has_ext = text::unicode_lower(analyzer::raw_extension(f.path)).len() > 0;
    Tally {
        files: 1,
        added: f.added as nat,
        deleted: f.deleted as nat,
        code: if has_ext { 90 } else { 0 },
        comment: if has_ext { 5 } else { 0 },
        blank: if has_ext { 5 } else { 0 },
    }
}

/// The figures of the counted files of one commit.
pub open spec fn files_tally(fs: Seq<FileChangeView>) -> Tally
    decreases fs.len(),
{
    if fs.len() == 0 {
        zero_tally()
    } else {
        let prev = files_tally(fs.drop_last());
        if counted(fs.last()) {
            tally_plus(prev, file_tally(fs.last()))
        } else {
            prev
        }
    }
}

/// An author's key: the lowercased e-mail of the commit.
pub open spec fn author_key(c: CommitInfoView) -> Seq<char> {
    text::unicode_lower(c.email)
}

/// The figures of the first `n` commits whose key is `k`.
pub open spec fn author_tally(
    cs: Seq<CommitInfoView>,
    ds: Seq<Seq<FileChangeView>>,
    k: Seq<char>,
    n: nat,
) -> Tally
    decreases n,
{
    if n == 0 {
        zero_tally()
    } else {
        let prev = author_tally(cs, ds, k, (n - 1) as nat);
        if author_key(cs[n - 1]) == k {
            tally_plus(prev, files_tally(ds[n - 1]))
        } else {
            prev
        }
    }
}

/// How many of the first `n` commits have key `k`.
pub open spec fn author_commits(cs: Seq<CommitInfoView>, k: Seq<char>, n: nat) -> nat
    decreases n,
{
    if n == 0 {
        0
    } else {
        author_commits(cs, k, (n - 1) as nat) + if author_key(cs[n - 1]) == k {
            1nat
        } else {
            0nat
        }
    }
}

/// The author name of the last of the first `n` commits with key `k`.
pub open spec fn author_name(cs: Seq<CommitInfoView>, k: Seq<char>, n: nat) -> Seq<char>
    decreases n,
{
    if n == 0 {
        Seq::<char>::empty()
    } else if author_key(cs[n - 1]) == k {
        cs[n - 1].author
    } else {
        author_name(cs, k, (n - 1) as nat)
    }
}

/// The e-mail of the first of the first `n` commits with key `k`.
pub open spec fn author_email(cs: Seq<CommitInfoView>, k: Seq<char>, n: nat) -> Seq<char>
    decreases n,
{
    if n == 0 {
        Seq::<char>::empty()
    } else if author_key(cs[n - 1]) == k && author_commits(cs, k, (n - 1) as nat) == 0 {
        cs[n - 1].email
    } else {
        author_email(cs, k, (n - 1) as nat)
    }
}

/// The least date (in text order) of the first `n` commits with key `k`.
pub open spec fn author_first(cs: Seq<CommitInfoView>, k: Seq<char>, n: nat) -> Seq<char>
    decreases n,
{
    if n == 0 {
        Seq::<char>::empty()
    } else {
        let prev = author_first(cs, k, (n - 1) as nat);
        let d = cs[n - 1].date;
        if author_key(cs[n - 1]) != k {
            prev
        } else if author_commits(cs, k, (n - 1) as nat) == 0 || text::lex_lt(d, prev) {
            d
        } else {
            prev
        }
    }
}

/// The greatest date (in text order) of the first `n` commits with key
/// `k`.
pub open spec fn author_last(cs: Seq<CommitInfoView>, k: Seq<char>, n: nat) -> Seq<char>
    decreases n,
{
    if n == 0 {
        Seq::<char>::empty()
    } else {
        let prev = author_last(cs, k, (n - 1) as nat);
        let d = cs[n - 1].date;
        if author_key(cs[n - 1]) != k {
            prev
        } else if author_commits(cs, k, (n - 1) as nat) == 0 || text::lex_lt(prev, d) {
            d
        } else {
            prev
        }
    }
}

/// The summed statistics of the author with key `k` over the first `n`
/// commits, before the net change is filled in.
pub open spec fn summed_author(
    cs: Seq<CommitInfoView>,
    ds: Seq<Seq<FileChangeView>>,
    k: Seq<char>,
    n: nat,
) -> AuthorStatsView {
    let t = author_tally(cs, ds, k, n);
    AuthorStatsView {
        name: author_name(cs, k, n),
        email: author_email(cs, k, n),
        commits: author_commits(cs, k, n) as usize,
        files_changed: t.files as usize,
        lines_added: t.added as u64,
        lines_deleted: t.deleted as u64,
        net_lines: 0,
        code_lines: t.code as u64,
        comment_lines: t.comment as u64,
        blank_lines: t.blank as u64,
        first_commit: author_first(cs, k, n),
        last_commit: author_last(cs, k, n),
        active_days: 0,
    }
}

/// The statistics of the author with key `k` over the first `n` commits:
/// the sums, and the net change, lines added minus lines deleted.
pub open spec fn expected_author(
    cs: Seq<CommitInfoView>,
    ds: Seq<Seq<FileChangeView>>,
    k: Seq<char>,
    n: nat,
) -> AuthorStatsView {
    let t = author_tally(cs, ds, k, n);
    AuthorStatsView { net_lines: (t.added - t.deleted) as i64, ..summed_author(cs, ds, k, n) }
}

/// The net change, lines added minus lines deleted, fits an `i64`.
pub open spec fn net_fits(t: Tally) -> bool {
    i64::MIN <= t.added - t.deleted <= i64::MAX
}

/// The figures of the counted files at path `p` in one commit.
pub open spec fn path_tally_in(fs: Seq<FileChangeView>, p: Seq<char>) -> Tally
    decreases fs.len(),
{
    if fs.len() == 0 {
        zero_tally()
    } else {
        let prev = path_tally_in(fs.drop_last(), p);
        if counted(fs.last()) && fs.last().path == p {
            tally_plus(prev, file_tally(fs.last()))
        } else {
            prev
        }
    }
}

/// The figures of path `p` over the first `n` commits.
pub open spec fn path_tally(ds: Seq<Seq<FileChangeView>>, p: Seq<char>, n: nat) -> Tally
    decreases n,
{
    if n == 0 {
        zero_tally()
    } else {
        tally_plus(path_tally(ds, p, (n - 1) as nat), path_tally_in(ds[n - 1], p))
    }
}

pub open spec fn expected_file(ds: Seq<Seq<FileChangeView>>, p: Seq<char>) -> FileStatsView {
    let t = path_tally(ds, p, ds.len());
    FileStatsView {
        path: p,
        lines_added: t.added as u64,
        lines_deleted: t.deleted as u64,
        code_lines: t.code as u64,
        comment_lines: t.comment as u64,
        blank_lines: t.blank as u64,
    }
}

/// Path `p` is that of a counted file of some commit.
pub open spec fn path_occurs(ds: Seq<Seq<FileChangeView>>, p: Seq<char>) -> bool {
    exists|i: int, j: int|
        0 <= i < ds.len() && 0 <= j < ds[i].len() && #[trigger] ds[i][j].path == p && counted(
            ds[i][j],
        )
}

/// The line figures fit in a `u64`.
pub open spec fn lines_fit(t: Tally) -> bool {
    t.added <= u64::MAX && t.deleted <= u64::MAX && t.code <= u64::MAX && t.comment <= u64::MAX
        && t.blank <= u64::MAX
}

/// Every author's and every path's figures fit their integer types.
pub open spec fn stats_fit(cs: Seq<CommitInfoView>, ds: Seq<Seq<FileChangeView>>) -> bool {
    &&& forall|k: Seq<char>| #[trigger] tally_fits(author_tally(cs, ds, k, cs.len()))
    &&& forall|k: Seq<char>| #[trigger] net_fits(author_tally(cs, ds, k, cs.len()))
    &&& forall|p: Seq<char>| #[trigger] lines_fit(path_tally(ds, p, ds.len()))
}

pub open spec fn commit_views(v: Seq<CommitInfo>) -> Seq<CommitInfoView> {
    v.map_values(|c: CommitInfo| c@)
}

pub open spec fn diff_views(v: Seq<Vec<FileChange>>) -> Seq<Seq<FileChangeView>> {
    v.map_values(|fs: Vec<FileChange>| fs@.map_values(|f: FileChange| f@))
}

// ---------------------------------------------------------------------------
// Facts about the figures
// ---------------------------------------------------------------------------

proof fn lemma_author_tally_mono(
    cs: Seq<CommitInfoView>,
    ds: Seq<Seq<FileChangeView>>,
    k: Seq<char>,
    a: nat,
    b: nat,
)
    requires
        a <= b,
    ensures
        tally_le(author_tally(cs, ds, k, a), author_tally(cs, ds, k, b)),
    decreases b - a,
{
    if a < b {
        lemma_author_tally_mono(cs, ds, k, a, (b - 1) as nat);
    }
}

proof fn lemma_path_tally_mono(ds: Seq<Seq<FileChangeView>>, p: Seq<char>, a: nat, b: nat)
    requires
        a <= b,
    ensures
        tally_le(path_tally(ds, p, a), path_tally(ds, p, b)),
    decreases b - a,
{
    if a < b {
        lemma_path_tally_mono(ds, p, a, (b - 1) as nat);
    }
}

proof fn lemma_files_tally_prefix(fs: Seq<FileChangeView>, j: int)
    requires
        0 <= j <= fs.len(),
    ensures
        tally_le(files_tally(fs.take(j)), files_tally(fs)),
    decreases fs.len() - j,
{
    if j < fs.len() {
        lemma_files_tally_prefix(fs, j + 1);
        assert(fs.take(j + 1).drop_last() =~= fs.take(j));
    } else {
        assert(fs.take(j) =~= fs);
    }
}

proof fn lemma_path_tally_in_prefix(fs: Seq<FileChangeView>, p: Seq<char>, j: int)
    requires
        0 <= j <= fs.len(),
    ensures
        tally_le(path_tally_in(fs.take(j), p), path_tally_in(fs, p)),
    decreases fs.len() - j,
{
    if j < fs.len() {
        lemma_path_tally_in_prefix(fs, p, j + 1);
        assert(fs.take(j + 1).drop_last() =~= fs.take(j));
    } else {
        assert(fs.take(j) =~= fs);
    }
}

/// The e-mail chosen for a key lowercases to that key.
proof fn lemma_email_key(cs: Seq<CommitInfoView>, k: Seq<char>, n: nat)
    requires
        n <= cs.len(),
        author_commits(cs, k, n) > 0,
    ensures
        text::unicode_lower(author_email(cs, k, n)) == k,
    decreases n,
{
    if author_key(cs[n - 1]) == k && author_commits(cs, k, (n - 1) as nat) == 0 {
    } else {
        lemma_email_key(cs, k, (n - 1) as nat);
    }
}

/// Some commit among the first `n` has key `k` exactly when the count is
/// positive.
proof fn lemma_commits_positive(cs: Seq<CommitInfoView>, k: Seq<char>, n: nat, i: int)
    requires
        0 <= i < n <= cs.len(),
        author_key(cs[i]) == k,
    ensures
        author_commits(cs, k, n) > 0,
    decreases n,
{
    if i < n - 1 {
        lemma_commits_positive(cs, k, (n - 1) as nat, i);
    }
}

// ---------------------------------------------------------------------------
// Counting one commit's files
// ---------------------------------------------------------------------------

/// Exact sums of a commit's counted files (wide enough never to wrap).
pub struct WideTally {
    pub files: u128,
    pub added: u128,
    pub deleted: u128,
    pub code: u128,
    pub comment: u128,
    pub blank: u128,
}

pub open spec fn wide_view(t: WideTally) -> Tally {
    Tally {
        files: t.files as nat,
        added: t.added as nat,
        deleted: t.deleted as nat,
        code: t.code as nat,
        comment: t.comment as nat,
        blank: t.blank as nat,
    }
}

/// Whether the path of a changed file has an extension.
fn has_extension(path: &String) -> (r: bool)
    ensures
        r == (text::unicode_lower(analyzer::raw_extension(path@)).len() > 0),
{
    let e = analyzer::get_extension(path.as_str());
    let ev = text::chars_of(e.as_str());
    ev.len() > 0
}

fn tally_of_files(fs: &Vec<FileChange>) -> (t: WideTally)
    ensures
        wide_view(t) == files_tally(fs@.map_values(|f: FileChange| f@)),
        t.files <= fs@.len(),
        t.added <= fs@.len() * 0x1_0000_0000_0000_0000,
        t.deleted <= fs@.len() * 0x1_0000_0000_0000_0000,
        t.code <= 90 * fs@.len(),
        t.comment <= 5 * fs@.len(),
        t.blank <= 5 * fs@.len(),
{
    let ghost v = fs@.map_values(|f: FileChange| f@);
    let mut t = WideTally { files: 0, added: 0, deleted: 0, code: 0, comment: 0, blank: 0 };
    let mut j: usize = 0;
    while j < fs.len()
        invariant
            j <= fs@.len(),
            v == fs@.map_values(|f: FileChange| f@),
            wide_view(t) == files_tally(v.take(j as int)),
            t.files <= j,
            t.added <= j * 0x1_0000_0000_0000_0000,
            t.deleted <= j * 0x1_0000_0000_0000_0000,
            t.code <= 90 * j,
            t.comment <= 5 * j,
            t.blank <= 5 * j,
        decreases fs.len() - j,
    {
        proof {
            assert(v.take(j + 1).drop_last() =~= v.take(j as int));
            assert(v.take(j + 1).last() == fs@[j as int]@);
        }
        let f = &fs[j];
        if !filter::should_ignore(f.path.as_str()) {
            let ext = has_extension(&f.path);
            t = WideTally {
                files: t.files + 1,
                added: t.added + f.added as u128,
                deleted: t.deleted + f.deleted as u128,
                code: t.code + if ext { 90 } else { 0 },
                comment: t.comment + if ext { 5 } else { 0 },
                blank: t.blank + if ext { 5 } else { 0 },
            };
        }
        j = j + 1;
    }
    assert(v.take(fs@.len() as int) =~= v);
    t
}

/// No commit among the first `n` has key `k`: nothing is counted for it.
proof fn lemma_absent_key(cs: Seq<CommitInfoView>, ds: Seq<Seq<FileChangeView>>, k: Seq<char>, n: nat)
    requires
        n <= cs.len(),
        forall|q: int| 0 <= q < n ==> author_key(#[trigger] cs[q]) != k,
    ensures
        author_commits(cs, k, n) == 0,
        author_tally(cs, ds, k, n) == zero_tally(),
    decreases n,
{
    if n > 0 {
        lemma_absent_key(cs, ds, k, (n - 1) as nat);
    }
}

proof fn lemma_commits_bound(cs: Seq<CommitInfoView>, k: Seq<char>, n: nat)
    ensures
        author_commits(cs, k, n) <= n,
    decreases n,
{
    if n > 0 {
        lemma_commits_bound(cs, k, (n - 1) as nat);
    }
}

/// `a + b`, or `None` when it does not fit in a `u64`.
fn add_fits(a: u64, b: u128) -> (r: Option<u64>)
    requires
        b <= 0xffff_ffff_ffff_ffff_0000_0000_0000_0000u128,
    ensures
        r is Some <==> a + b <= u64::MAX,
        r matches Some(x) ==> x == a + b,
{
    let s: u128 = a as u128 + b;
    if s <= 0xffff_ffff_ffff_ffffu128 {
        Some(s as u64)
    } else {
        None
    }
}

/// The authors of the commits in order of first appearance, with their
/// keys; `None` when some author's figures do not fit.
fn aggregate_authors(cs: &Vec<CommitInfo>, ds: &Vec<Vec<FileChange>>) -> (r: Option<
    (Vec<AuthorStats>, Vec<Vec<char>>),
>)
    requires
        cs@.len() == ds@.len(),
    ensures
        ({
            let cv = commit_views(cs@);
            let dv = diff_views(ds@);
            let n = cs@.len() as nat;
            match r {
                None => exists|k: Seq<char>| !tally_fits(#[trigger] author_tally(cv, dv, k, n)),
                Some((a, keys)) => {
                    &&& forall|k: Seq<char>| #[trigger] tally_fits(author_tally(cv, dv, k, n))
                    &&& a@.len() == keys@.len()
                    &&& forall|j: int, l: int| 0 <= j < l < keys@.len() ==> keys@[j]@ != keys@[l]@
                    &&& forall|j: int|
                        0 <= j < a@.len() ==> (#[trigger] a@[j])@ == summed_author(
                            cv,
                            dv,
                            keys@[j]@,
                            n,
                        )
                    &&& forall|j: int| 0 <= j < keys@.len() ==> author_commits(cv, #[trigger] keys@[j]@, n) > 0
                    &&& forall|q: int|
                        0 <= q < n ==> exists|j: int|
                            0 <= j < keys@.len() && #[trigger] keys@[j]@ == author_key(#[trigger] cv[q])
                },
            }
        }),
{
    let ghost cv = commit_views(cs@);
    let ghost dv = diff_views(ds@);
    let mut authors: Vec<AuthorStats> = Vec::new();
    let mut keys: Vec<Vec<char>> = Vec::new();
    let mut i: usize = 0;
    while i < cs.len()
        invariant
            i <= cs@.len(),
            cs@.len() == ds@.len(),
            cv == commit_views(cs@),
            dv == diff_views(ds@),
            authors@.len() == keys@.len(),
            forall|j: int, l: int| 0 <= j < l < keys@.len() ==> keys@[j]@ != keys@[l]@,
            forall|j: int|
                0 <= j < authors@.len() ==> (#[trigger] authors@[j])@ == summed_author(
                    cv,
                    dv,
                    keys@[j]@,
                    i as nat,
                ),
            forall|j: int| 0 <= j < keys@.len() ==> author_commits(cv, #[trigger] keys@[j]@, i as nat) > 0,
            forall|j: int| 0 <= j < keys@.len() ==> tally_fits(author_tally(cv, dv, #[trigger] keys@[j]@, i as nat)),
            forall|q: int|
                0 <= q < i ==> exists|j: int|
                    0 <= j < keys@.len() && #[trigger] keys@[j]@ == author_key(#[trigger] cv[q]),
        decreases cs.len() - i,
    {
        let c = &cs[i];
        let ev = text::chars_of(c.email.as_str());
        let key = text::unicode_lower_chars(&ev);
        let ghost k = key@;
        assert(cv[i as int] == c@);
        assert(k == author_key(cv[i as int]));
        // find the author's entry
        let mut j: usize = 0;
        while j < keys.len() && !text::chars_eq(&keys[j], &key)
            invariant
                j <= keys@.len(),
                key@ == k,
                forall|l: int| 0 <= l < j ==> keys@[l]@ != k,
            decreases keys.len() - j,
        {
            j = j + 1;
        }
        let found = j < keys.len();
        let t = tally_of_files(&ds[i]);
        let flen = ds[i].len();
        assert(t.added <= 0xffff_ffff_ffff_ffff_0000_0000_0000_0000u128);
        assert(t.deleted <= 0xffff_ffff_ffff_ffff_0000_0000_0000_0000u128);
        proof {
            assert(dv[i as int] == ds@[i as int]@.map_values(|f: FileChange| f@));
        }
        let ghost tk = files_tally(dv[i as int]);
        let ghost prev = author_tally(cv, dv, k, i as nat);
        proof {
            if !found {
                assert forall|q: int| 0 <= q < i implies author_key(#[trigger] cv[q]) != k by {
                    if author_key(cv[q]) == k {
                        let jj = choose|jj: int| 0 <= jj < keys@.len() && #[trigger] keys@[jj]@ == author_key(cv[q]);
                        assert(keys@[jj]@ == k);
                    }
                }
                lemma_absent_key(cv, dv, k, i as nat);
            }
        }
        // the author's figures before this commit
        let (o_commits, o_files, o_added, o_deleted, o_code, o_comment, o_blank) = if found {
            let a = &authors[j];
            (a.commits, a.files_changed, a.lines_added, a.lines_deleted, a.code_lines, a.comment_lines, a.blank_lines)
        } else {
            (0usize, 0usize, 0u64, 0u64, 0u64, 0u64, 0u64)
        };
        proof {
            if found {
                assert(authors@[j as int]@ == summed_author(cv, dv, keys@[j as int]@, i as nat));
                assert(tally_fits(author_tally(cv, dv, keys@[j as int]@, i as nat)));
            }
            assert(o_files == prev.files && o_added == prev.added && o_deleted == prev.deleted);
            assert(o_code == prev.code && o_comment == prev.comment && o_blank == prev.blank);
            lemma_commits_bound(cv, k, i as nat);
            assert(o_commits == author_commits(cv, k, i as nat));
            // the new figures
            assert(author_tally(cv, dv, k, i as nat + 1) == tally_plus(prev, tk));
            lemma_author_tally_mono(cv, dv, k, i as nat + 1, cv.len());
        }
        let n_files = if t.files <= (usize::MAX - o_files) as u128 {
            Some(o_files + t.files as usize)
        } else {
            None
        };
        let n_added = add_fits(o_added, t.added);
        let n_deleted = add_fits(o_deleted, t.deleted);
        let n_code = add_fits(o_code, t.code);
        let n_comment = add_fits(o_comment, t.comment);
        let n_blank = add_fits(o_blank, t.blank);
        match (n_files, n_added, n_deleted, n_code, n_comment, n_blank) {
            (Some(files), Some(added), Some(deleted), Some(code), Some(comment), Some(blank)) => {
                let (email, first, last) = if found {
                    let a = &authors[j];
                    let first = if text::lex_lt_exec(&text::chars_of(c.date.as_str()), &text::chars_of(a.first_commit.as_str())) {
                        c.date.clone()
                    } else {
                        a.first_commit.clone()
                    };
                    let last = if text::lex_lt_exec(&text::chars_of(a.last_commit.as_str()), &text::chars_of(c.date.as_str())) {
                        c.date.clone()
                    } else {
                        a.last_commit.clone()
                    };
                    (a.email.clone(), first, last)
                } else {
                    (c.email.clone(), c.date.clone(), c.date.clone())
                };
                let entry = AuthorStats {
                    name: c.author.clone(),
                    email,
                    commits: o_commits + 1,
                    files_changed: files,
                    lines_added: added,
                    lines_deleted: deleted,
                    net_lines: 0,
                    code_lines: code,
                    comment_lines: comment,
                    blank_lines: blank,
                    first_commit: first,
                    last_commit: last,
                    active_days: 0,
                };
                let ghost old_authors = authors@;
                let ghost old_keys = keys@;
                assert(entry@ == summed_author(cv, dv, k, i as nat + 1));
                if found {
                    authors.set(j, entry);
                } else {
                    authors.push(entry);
                    keys.push(key);
                }
                proof {
                    assert forall|l: int|
                        0 <= l < authors@.len() implies (#[trigger] authors@[l])@ == summed_author(
                            cv,
                            dv,
                            keys@[l]@,
                            i as nat + 1,
                        ) by {
                        if keys@[l]@ != k {
                            assert(authors@[l] == old_authors[l]);
                            assert(keys@[l] == old_keys[l]);
                        }
                    }
                    assert forall|l: int| 0 <= l < keys@.len() implies author_commits(cv, #[trigger] keys@[l]@, i as nat + 1) > 0 by {
                        if l < old_keys.len() {
                            assert(keys@[l] == old_keys[l]);
                        }
                    }
                    assert forall|l: int| 0 <= l < keys@.len() implies tally_fits(author_tally(cv, dv, #[trigger] keys@[l]@, i as nat + 1)) by {
                        if l < old_keys.len() {
                            assert(keys@[l] == old_keys[l]);
                        }
                    }
                    assert forall|q: int|
                        0 <= q < i + 1 implies exists|l: int|
                            0 <= l < keys@.len() && #[trigger] keys@[l]@ == author_key(#[trigger] cv[q]) by {
                        if q < i {
                            let jj = choose|jj: int| 0 <= jj < old_keys.len() && #[trigger] old_keys[jj]@ == author_key(cv[q]);
                            assert(keys@[jj] == old_keys[jj]);
                        } else {
                            if found {
                                assert(keys@[j as int]@ == k);
                            } else {
                                assert(keys@[old_keys.len() as int]@ == k);
                            }
                        }
                    }
                    assert forall|a: int, b: int| 0 <= a < b < keys@.len() implies keys@[a]@ != keys@[b]@ by {
                        if b < old_keys.len() {
                            assert(keys@[a] == old_keys[a] && keys@[b] == old_keys[b]);
                        } else if !found {
                            assert(keys@[a] == old_keys[a]);
                        }
                    }
                }
            },
            _ => {
                proof {
                    assert(!tally_fits(author_tally(cv, dv, k, cv.len())));
                }
                return None;
            },
        }
        i = i + 1;
    }
    proof {
        let n = cv.len();
        assert forall|k: Seq<char>| #[trigger] tally_fits(author_tally(cv, dv, k, n)) by {
            if exists|l: int| 0 <= l < keys@.len() && keys@[l]@ == k {
            } else {
                assert forall|q: int| 0 <= q < n implies author_key(#[trigger] cv[q]) != k by {
                    if author_key(cv[q]) == k {
                        let jj = choose|jj: int| 0 <= jj < keys@.len() && #[trigger] keys@[jj]@ == author_key(cv[q]);
                    }
                }
                lemma_absent_key(cv, dv, k, n);
            }
        }
    }
    Some((authors, keys))
}

/// The figures of path `p` over the first `i` commits and the first `j`
/// files of commit `i`.
pub open spec fn partial_path_tally(ds: Seq<Seq<FileChangeView>>, p: Seq<char>, i: nat, j: int) -> Tally {
    tally_plus(path_tally(ds, p, i), path_tally_in(ds[i as int].take(j), p))
}

/// The file `(q, r)` comes before position `(i, j)`.
pub open spec fn before(q: int, r: int, i: int, j: int) -> bool {
    q < i || (q == i && r < j)
}

proof fn lemma_absent_path(ds: Seq<Seq<FileChangeView>>, p: Seq<char>, i: nat, j: int)
    requires
        i < ds.len(),
        0 <= j <= ds[i as int].len(),
        forall|q: int, r: int|
            0 <= q < ds.len() && 0 <= r < ds[q].len() && before(q, r, i as int, j) && counted(ds[q][r])
                ==> #[trigger] ds[q][r].path != p,
    ensures
        partial_path_tally(ds, p, i, j) == zero_tally(),
    decreases i, j,
{
    if j > 0 {
        lemma_absent_path(ds, p, i, j - 1);
        assert(ds[i as int].take(j).drop_last() =~= ds[i as int].take(j - 1));
    } else if i > 0 {
        lemma_absent_path(ds, p, (i - 1) as nat, ds[i - 1].len() as int);
        assert(ds[i - 1].take(ds[i - 1].len() as int) =~= ds[i - 1]);
        assert(ds[i as int].take(0) =~= Seq::<FileChangeView>::empty());
    } else {
        assert(ds[i as int].take(0) =~= Seq::<FileChangeView>::empty());
    }
}

proof fn lemma_partial_mono(ds: Seq<Seq<FileChangeView>>, p: Seq<char>, i: nat, j: int)
    requires
        i < ds.len(),
        0 <= j <= ds[i as int].len(),
    ensures
        tally_le(partial_path_tally(ds, p, i, j), path_tally(ds, p, ds.len())),
{
    lemma_path_tally_in_prefix(ds[i as int], p, j);
    lemma_path_tally_mono(ds, p, i + 1, ds.len());
}

pub open spec fn expected_file_at(ds: Seq<Seq<FileChangeView>>, p: Seq<char>, i: nat, j: int) -> FileStatsView {
    let t = partial_path_tally(ds, p, i, j);
    FileStatsView {
        path: p,
        lines_added: t.added as u64,
        lines_deleted: t.deleted as u64,
        code_lines: t.code as u64,
        comment_lines: t.comment as u64,
        blank_lines: t.blank as u64,
    }
}

/// `fs` lists each counted path of the diffs once, with its figures.
pub open spec fn files_match(dv: Seq<Seq<FileChangeView>>, fs: Seq<FileStats>) -> bool {
    &&& forall|p: Seq<char>| #[trigger] lines_fit(path_tally(dv, p, dv.len()))
    &&& forall|a: int, b: int| 0 <= a < b < fs.len() ==> fs[a].path@ != fs[b].path@
    &&& forall|a: int| 0 <= a < fs.len() ==> (#[trigger] fs[a])@ == expected_file(dv, fs[a].path@)
    &&& forall|a: int| 0 <= a < fs.len() ==> path_occurs(dv, #[trigger] fs[a].path@)
    &&& forall|p: Seq<char>|
        path_occurs(dv, p) ==> exists|a: int| 0 <= a < fs.len() && #[trigger] fs[a].path@ == p
}

/// The counted paths of the diffs in order of first appearance, with their
/// figures; `None` when some path's figures do not fit.
fn aggregate_files(ds: &Vec<Vec<FileChange>>) -> (r: Option<Vec<FileStats>>)
    ensures
        r is None ==> exists|p: Seq<char>|
            !lines_fit(#[trigger] path_tally(diff_views(ds@), p, diff_views(ds@).len())),
        r matches Some(fs) ==> files_match(diff_views(ds@), fs@),
{
    let ghost dv = diff_views(ds@);
    let mut files: Vec<FileStats> = Vec::new();
    let mut paths: Vec<Vec<char>> = Vec::new();
    let mut i: usize = 0;
    while i < ds.len()
        invariant
            i <= ds@.len(),
            dv == diff_views(ds@),
            dv.len() == ds@.len(),
            files@.len() == paths@.len(),
            forall|a: int| 0 <= a < files@.len() ==> (#[trigger] files@[a]).path@ == paths@[a]@,
            forall|a: int, b: int| 0 <= a < b < paths@.len() ==> paths@[a]@ != paths@[b]@,
            forall|a: int|
                0 <= a < files@.len() ==> (#[trigger] files@[a])@ == expected_file_view(dv, paths@[a]@, i as nat),
            forall|a: int| 0 <= a < paths@.len() ==> lines_fit(path_tally(dv, #[trigger] paths@[a]@, i as nat)),
            forall|a: int| 0 <= a < paths@.len() ==> path_occurs(dv, #[trigger] paths@[a]@),
            forall|q: int, r: int|
                0 <= q < i && 0 <= r < dv[q].len() && counted(dv[q][r]) ==> exists|a: int|
                    0 <= a < paths@.len() && #[trigger] paths@[a]@ == #[trigger] dv[q][r].path,
        decreases ds.len() - i,
    {
        let fs = &ds[i];
        let ghost fv = dv[i as int];
        proof {
            assert(fv == fs@.map_values(|f: FileChange| f@));
            assert(fv.take(0) =~= Seq::<FileChangeView>::empty());
        }
        let mut j: usize = 0;
        while j < fs.len()
            invariant
                i < ds@.len(),
                j <= fs@.len(),
                dv == diff_views(ds@),
                dv.len() == ds@.len(),
                fv == dv[i as int],
                fv == fs@.map_values(|f: FileChange| f@),
                files@.len() == paths@.len(),
                forall|a: int| 0 <= a < files@.len() ==> (#[trigger] files@[a]).path@ == paths@[a]@,
                forall|a: int, b: int| 0 <= a < b < paths@.len() ==> paths@[a]@ != paths@[b]@,
                forall|a: int|
                    0 <= a < files@.len() ==> (#[trigger] files@[a])@ == expected_file_at(dv, paths@[a]@, i as nat, j as int),
                forall|a: int| 0 <= a < paths@.len() ==> lines_fit(partial_path_tally(dv, #[trigger] paths@[a]@, i as nat, j as int)),
                forall|a: int| 0 <= a < paths@.len() ==> path_occurs(dv, #[trigger] paths@[a]@),
                forall|q: int, r: int|
                    0 <= q < dv.len() && 0 <= r < dv[q].len() && before(q, r, i as int, j as int) && counted(dv[q][r]) ==> exists|a: int|
                        0 <= a < paths@.len() && #[trigger] paths@[a]@ == #[trigger] dv[q][r].path,
            decreases fs.len() - j,
        {
            let f = &fs[j];
            proof {
                assert(fv[j as int] == f@);
                assert(fv.take(j + 1).drop_last() =~= fv.take(j as int));
            }
            if !filter::should_ignore(f.path.as_str()) {
                let pv = text::chars_of(f.path.as_str());
                let ghost p = pv@;
                let mut a: usize = 0;
                while a < paths.len() && !text::chars_eq(&paths[a], &pv)
                    invariant
                        a <= paths@.len(),
                        pv@ == p,
                        forall|b: int| 0 <= b < a ==> paths@[b]@ != p,
                    decreases paths.len() - a,
                {
                    a = a + 1;
                }
                let found = a < paths.len();
                proof {
                    if !found {
                        assert forall|q: int, r: int|
                            0 <= q < dv.len() && 0 <= r < dv[q].len() && before(q, r, i as int, j as int) && counted(dv[q][r])
                            implies #[trigger] dv[q][r].path != p by {
                            if dv[q][r].path == p {
                                let aa = choose|aa: int| 0 <= aa < paths@.len() && #[trigger] paths@[aa]@ == dv[q][r].path;
                            }
                        }
                        lemma_absent_path(dv, p, i as nat, j as int);
                    }
                    lemma_partial_mono(dv, p, i as nat, j + 1);
                }
                let ext = has_extension(&f.path);
                let (o_added, o_deleted, o_code, o_comment, o_blank) = if found {
                    let e = &files[a];
                    (e.lines_added, e.lines_deleted, e.code_lines, e.comment_lines, e.blank_lines)
                } else {
                    (0u64, 0u64, 0u64, 0u64, 0u64)
                };
                proof {
                    if found {
                        assert(files@[a as int]@ == expected_file_at(dv, paths@[a as int]@, i as nat, j as int));
                        assert(lines_fit(partial_path_tally(dv, paths@[a as int]@, i as nat, j as int)));
                    }
                }
                let n_added = add_fits(o_added, f.added as u128);
                let n_deleted = add_fits(o_deleted, f.deleted as u128);
                let n_code = add_fits(o_code, if ext { 90 } else { 0 });
                let n_comment = add_fits(o_comment, if ext { 5 } else { 0 });
                let n_blank = add_fits(o_blank, if ext { 5 } else { 0 });
                match (n_added, n_deleted, n_code, n_comment, n_blank) {
                    (Some(added), Some(deleted), Some(code), Some(comment), Some(blank)) => {
                        let entry = FileStats {
                            path: f.path.clone(),
                            lines_added: added,
                            lines_deleted: deleted,
                            code_lines: code,
                            comment_lines: comment,
                            blank_lines: blank,
                        };
                        let ghost old_files = files@;
                        let ghost old_paths = paths@;
                        assert(entry@ == expected_file_at(dv, p, i as nat, j + 1));
                        if found {
                            files.set(a, entry);
                        } else {
                            files.push(entry);
                            paths.push(pv);
                        }
                        proof {
                            assert(path_occurs(dv, p)) by {
                                assert(dv[i as int][j as int].path == p);
                            }
                            assert forall|b: int| 0 <= b < files@.len() implies (#[trigger] files@[b]).path@ == paths@[b]@ by {
                                if b < old_files.len() && (!found || b != a) {
                                    assert(files@[b] == old_files[b]);
                                }
                                if b < old_paths.len() {
                                    assert(paths@[b] == old_paths[b]);
                                }
                            }
                            assert forall|b: int|
                                0 <= b < files@.len() implies (#[trigger] files@[b])@ == expected_file_at(dv, paths@[b]@, i as nat, j + 1) by {
                                if b < old_paths.len() {
                                    assert(paths@[b] == old_paths[b]);
                                }
                                if paths@[b]@ != p {
                                    assert(files@[b] == old_files[b]);
                                }
                            }
                            assert forall|b: int| 0 <= b < paths@.len() implies lines_fit(partial_path_tally(dv, #[trigger] paths@[b]@, i as nat, j + 1)) by {
                                if b < old_paths.len() {
                                    assert(paths@[b] == old_paths[b]);
                                }
                            }
                            assert forall|b: int| 0 <= b < paths@.len() implies path_occurs(dv, #[trigger] paths@[b]@) by {
                                if b < old_paths.len() {
                                    assert(paths@[b] == old_paths[b]);
                                }
                            }
                            assert forall|a2: int, b: int| 0 <= a2 < b < paths@.len() implies paths@[a2]@ != paths@[b]@ by {
                                if b < old_paths.len() {
                                    assert(paths@[a2] == old_paths[a2] && paths@[b] == old_paths[b]);
                                } else {
                                    assert(paths@[a2] == old_paths[a2]);
                                }
                            }
                            assert forall|q: int, r: int|
                                0 <= q < dv.len() && 0 <= r < dv[q].len() && before(q, r, i as int, j + 1) && counted(dv[q][r]) implies exists|b: int|
                                    0 <= b < paths@.len() && #[trigger] paths@[b]@ == #[trigger] dv[q][r].path by {
                                if before(q, r, i as int, j as int) {
                                    let bb = choose|bb: int| 0 <= bb < old_paths.len() && #[trigger] old_paths[bb]@ == dv[q][r].path;
                                    assert(paths@[bb] == old_paths[bb]);
                                } else {
                                    if found {
                                        assert(paths@[a as int]@ == p);
                                    } else {
                                        assert(paths@[old_paths.len() as int]@ == p);
                                    }
                                }
                            }
                        }
                    },
                    _ => {
                        proof {
                            assert(!lines_fit(path_tally(dv, p, dv.len())));
                        }
                        return None;
                    },
                }
            } else {
                proof {
                    assert forall|b: int|
                        0 <= b < files@.len() implies (#[trigger] files@[b])@ == expected_file_at(dv, paths@[b]@, i as nat, j + 1) by {
                        assert(path_tally_in(fv.take(j + 1), paths@[b]@) == path_tally_in(fv.take(j as int), paths@[b]@));
                    }
                    assert forall|b: int| 0 <= b < paths@.len() implies lines_fit(partial_path_tally(dv, #[trigger] paths@[b]@, i as nat, j + 1)) by {
                        assert(path_tally_in(fv.take(j + 1), paths@[b]@) == path_tally_in(fv.take(j as int), paths@[b]@));
                    }
                }
            }
            j = j + 1;
        }
        proof {
            assert(fv.take(fs@.len() as int) =~= fv);
            assert forall|a: int|
                0 <= a < files@.len() implies (#[trigger] files@[a])@ == expected_file_view(dv, paths@[a]@, i as nat + 1) by {
            }
        }
        i = i + 1;
    }
    proof {
        let n = dv.len();
        assert forall|p: Seq<char>| #[trigger] lines_fit(path_tally(dv, p, n)) by {
            if exists|a: int| 0 <= a < paths@.len() && paths@[a]@ == p {
                let a = choose|a: int| 0 <= a < paths@.len() && paths@[a]@ == p;
                assert(lines_fit(path_tally(dv, paths@[a]@, i as nat)));
            } else if n > 0 {
                assert forall|q: int, r: int|
                    0 <= q < dv.len() && 0 <= r < dv[q].len() && before(q, r, n - 1, dv[n - 1].len() as int) && counted(dv[q][r])
                    implies #[trigger] dv[q][r].path != p by {
                    if dv[q][r].path == p {
                        let aa = choose|aa: int| 0 <= aa < paths@.len() && #[trigger] paths@[aa]@ == dv[q][r].path;
                    }
                }
                lemma_absent_path(dv, p, (n - 1) as nat, dv[n - 1].len() as int);
                assert(dv[n - 1].take(dv[n - 1].len() as int) =~= dv[n - 1]);
            }
        }
        assert forall|p: Seq<char>|
            path_occurs(dv, p) implies exists|a: int| 0 <= a < files@.len() && #[trigger] files@[a].path@ == p by {
            let (q, r) = choose|q: int, r: int|
                0 <= q < dv.len() && 0 <= r < dv[q].len() && #[trigger] dv[q][r].path == p && counted(dv[q][r]);
            let aa = choose|aa: int| 0 <= aa < paths@.len() && #[trigger] paths@[aa]@ == dv[q][r].path;
            assert(files@[aa].path@ == p);
        }
        assert forall|a: int|
            0 <= a < files@.len() implies (#[trigger] files@[a])@ == expected_file(dv, files@[a].path@) by {
            assert(files@[a]@ == expected_file_view(dv, paths@[a]@, i as nat));
        }
        assert forall|a: int, b: int| 0 <= a < b < files@.len() implies files@[a].path@ != files@[b].path@ by {
            assert(files@[a].path@ == paths@[a]@);
            assert(files@[b].path@ == paths@[b]@);
        }
        assert forall|a: int| 0 <= a < files@.len() implies path_occurs(dv, #[trigger] files@[a].path@) by {
            assert(files@[a].path@ == paths@[a]@);
        }
        assert(files_match(dv, files@));
    }
    Some(files)
}

/// The figures of path `p` over the first `i` commits, as stored.
pub open spec fn expected_file_view(ds: Seq<Seq<FileChangeView>>, p: Seq<char>, i: nat) -> FileStatsView {
    let t = path_tally(ds, p, i);
    FileStatsView {
        path: p,
        lines_added: t.added as u64,
        lines_deleted: t.deleted as u64,
        code_lines: t.code as u64,
        comment_lines: t.comment as u64,
        blank_lines: t.blank as u64,
    }
}


/// `au` lists each author of the commits once, by lowercased e-mail, with
/// the author's figures, most commits first.
pub open spec fn authors_match(
    cv: Seq<CommitInfoView>,
    dv: Seq<Seq<FileChangeView>>,
    au: Seq<AuthorStats>,
) -> bool {
    let n = cv.len();
    &&& forall|j: int|
        0 <= j < au.len() ==> (#[trigger] au[j])@ == expected_author(
            cv,
            dv,
            text::unicode_lower(au[j].email@),
            n,
        )
    &&& forall|j: int|
        0 <= j < au.len() ==> author_commits(cv, text::unicode_lower(#[trigger] au[j].email@), n) > 0
    &&& forall|a: int, b: int|
        0 <= a < b < au.len() ==> text::unicode_lower(au[a].email@) != text::unicode_lower(
            au[b].email@,
        )
    &&& forall|q: int|
        0 <= q < n ==> exists|j: int|
            0 <= j < au.len() && #[trigger] text::unicode_lower(au[j].email@) == author_key(
                #[trigger] cv[q],
            )
    &&& forall|a: int, b: int| 0 <= a < b < au.len() ==> au[a].commits >= au[b].commits
}

/// What `analyze` returns for the repository `repo`, its commits and their
/// diffs.
pub open spec fn stats_match(
    repo: RepoHandle,
    cv: Seq<CommitInfoView>,
    dv: Seq<Seq<FileChangeView>>,
    s: StatsResult,
) -> bool {
    &&& s.repo_path@ == repo.path@
    &&& s.total_commits == cv.len()
    &&& authors_match(cv, dv, s.authors@)
    &&& files_match(dv, s.files@)
}

/// Statistics of a repository from its commits (newest first, as `git log`
/// lists them) and the changed files of each commit, `diffs[i]` being
/// those of `commits[i]`.
///
/// Authors are told apart by their lowercased e-mail and listed by
/// descending number of commits; ignored files (see `filter`) are not
/// counted.
pub fn analyze(repo: &RepoHandle, commits: &Vec<CommitInfo>, diffs: &Vec<Vec<FileChange>>) -> (r:
    StatsResult)
    requires
        commits@.len() == diffs@.len(),
        stats_fit(commit_views(commits@), diff_views(diffs@)),
    ensures
        stats_match(*repo, commit_views(commits@), diff_views(diffs@), r),
{
    let ghost cv = commit_views(commits@);
    let ghost dv = diff_views(diffs@);
    let ghost n = cv.len();
    let (au, keys) = match aggregate_authors(commits, diffs) {
        Some(x) => x,
        None => {
            return vstd::pervasive::unreached();
        },
    };
    let files = match aggregate_files(diffs) {
        Some(f) => f,
        None => {
            return vstd::pervasive::unreached();
        },
    };
    let mut counts: Vec<i128> = Vec::new();
    let mut i: usize = 0;
    while i < au.len()
        invariant
            i <= au@.len(),
            counts@.len() == i,
            forall|j: int| 0 <= j < i ==> #[trigger] counts@[j] == au@[j].commits as i128,
        decreases au.len() - i,
    {
        counts.push(au[i].commits as i128);
        i = i + 1;
    }
    let ghost ks = counts@.map_values(|k: i128| k as int);
    let ord = order::stable_desc_order(&counts);
    proof {
        assert forall|j: int| 0 <= j < au@.len() implies #[trigger] ks[j] == au@[j].commits by {
            assert(counts@[j] == au@[j].commits as i128);
        }
    }
    let mut sorted: Vec<AuthorStats> = Vec::new();
    let mut j: usize = 0;
    while j < ord.len()
        invariant
            j <= ord@.len(),
            ord@.len() == au@.len(),
            order::is_stable_desc(ks, ord@),
            ks.len() == au@.len(),
            forall|q: int| 0 <= q < au@.len() ==> #[trigger] ks[q] == au@[q].commits,
            sorted@.len() == j,
            cv == commit_views(commits@),
            dv == diff_views(diffs@),
            n == cv.len(),
            stats_fit(cv, dv),
            au@.len() == keys@.len(),
            forall|l: int|
                0 <= l < au@.len() ==> (#[trigger] au@[l])@ == summed_author(cv, dv, keys@[l]@, n),
            forall|q: int|
                0 <= q < j ==> (#[trigger] sorted@[q])@ == expected_author(
                    cv,
                    dv,
                    keys@[ord@[q] as int]@,
                    n,
                ),
        decreases ord.len() - j,
    {
        let k = ord[j];
        assert(ord@[j as int] < au@.len());
        let mut a = au[k].copy();
        proof {
            let t = author_tally(cv, dv, keys@[k as int]@, n);
            assert(tally_fits(t));
            assert(net_fits(t));
            assert(a.lines_added == t.added && a.lines_deleted == t.deleted);
        }
        a.net_lines = (a.lines_added as i128 - a.lines_deleted as i128) as i64;
        sorted.push(a);
        j = j + 1;
    }
    proof {
        let sv = sorted@;
        assert forall|q: int| 0 <= q < sv.len() implies text::unicode_lower(#[trigger] sv[q].email@)
            == keys@[ord@[q] as int]@ by {
            let k = ord@[q] as int;
            assert(sv[q].email@ == au@[k].email@);
            assert(author_commits(cv, keys@[k]@, n) > 0);
            lemma_email_key(cv, keys@[k]@, n);
        }
        assert forall|q: int| 0 <= q < sv.len() implies (#[trigger] sv[q])@ == expected_author(
            cv,
            dv,
            text::unicode_lower(sv[q].email@),
            n,
        ) by {
            assert(sv[q]@ == expected_author(cv, dv, keys@[ord@[q] as int]@, n));
        }
        assert forall|q: int| 0 <= q < sv.len() implies author_commits(
            cv,
            text::unicode_lower(#[trigger] sv[q].email@),
            n,
        ) > 0 by {
            assert(sv[q]@ == expected_author(cv, dv, keys@[ord@[q] as int]@, n));
        }
        assert forall|a: int, b: int| 0 <= a < b < sv.len() implies text::unicode_lower(sv[a].email@)
            != text::unicode_lower(sv[b].email@) by {
            assert(text::unicode_lower(sv[a].email@) == keys@[ord@[a] as int]@);
            assert(text::unicode_lower(sv[b].email@) == keys@[ord@[b] as int]@);
            assert(ord@[a] != ord@[b]);
        }
        assert forall|q: int| 0 <= q < n implies exists|j: int|
            0 <= j < sv.len() && #[trigger] text::unicode_lower(sv[j].email@) == author_key(
                #[trigger] cv[q],
            ) by {
            let k = choose|k: int| 0 <= k < keys@.len() && #[trigger] keys@[k]@ == author_key(cv[q]);
            assert(order::lists_index(ord@, k));
            let jj = choose|jj: int| 0 <= jj < ord@.len() && #[trigger] ord@[jj] == k;
            assert(text::unicode_lower(sv[jj].email@) == keys@[ord@[jj] as int]@);
        }
        assert forall|a: int, b: int| 0 <= a < b < sv.len() implies sv[a].commits >= sv[b].commits by {
            assert(sv[a].commits == au@[ord@[a] as int].commits);
            assert(sv[b].commits == au@[ord@[b] as int].commits);
            assert(ks[ord@[a] as int] >= ks[ord@[b] as int]);
        }
        assert(authors_match(cv, dv, sv));
    }
    StatsResult { repo_path: repo.path.clone(), authors: sorted, files, total_commits: commits.len() }
}

/// `analyze`, or `None` when some author's or path's figures would not fit
/// their integer types.
pub fn analyze_checked(
    repo: &RepoHandle,
    commits: &Vec<CommitInfo>,
    diffs: &Vec<Vec<FileChange>>,
) -> (r: Option<StatsResult>)
    requires
        commits@.len() == diffs@.len(),
    ensures
        r is Some <==> stats_fit(commit_views(commits@), diff_views(diffs@)),
        r matches Some(s) ==> stats_match(*repo, commit_views(commits@), diff_views(diffs@), s),
{
    let ghost cv = commit_views(commits@);
    let ghost dv = diff_views(diffs@);
    let by_author = aggregate_authors(commits, diffs);
    let by_file = aggregate_files(diffs);
    if by_author.is_some() && by_file.is_some() {
        let (au, keys) = match by_author {
            Some(x) => x,
            None => {
                return None;
            },
        };
        let ghost n = cv.len();
        let mut i: usize = 0;
        while i < au.len()
            invariant
                i <= au@.len(),
                au@.len() == keys@.len(),
                n == cv.len(),
                cv == commit_views(commits@),
                dv == diff_views(diffs@),
                forall|l: int|
                    0 <= l < au@.len() ==> (#[trigger] au@[l])@ == summed_author(cv, dv, keys@[l]@, n),
                forall|k: Seq<char>| #[trigger] tally_fits(author_tally(cv, dv, k, n)),
                forall|l: int| 0 <= l < i ==> net_fits(author_tally(cv, dv, (#[trigger] keys@[l])@, n)),
            decreases au.len() - i,
        {
            let net: i128 = au[i].lines_added as i128 - au[i].lines_deleted as i128;
            proof {
                assert(tally_fits(author_tally(cv, dv, keys@[i as int]@, n)));
            }
            if net < -0x8000_0000_0000_0000i128 || net > 0x7fff_ffff_ffff_ffffi128 {
                proof {
                    assert(!net_fits(author_tally(cv, dv, keys@[i as int]@, n)));
                }
                return None;
            }
            i = i + 1;
        }
        proof {
            assert forall|k: Seq<char>| #[trigger] net_fits(author_tally(cv, dv, k, n)) by {
                if exists|l: int| 0 <= l < keys@.len() && keys@[l]@ == k {
                    let l = choose|l: int| 0 <= l < keys@.len() && keys@[l]@ == k;
                    assert(net_fits(author_tally(cv, dv, keys@[l]@, n)));
                } else {
                    assert forall|q: int| 0 <= q < n implies author_key(#[trigger] cv[q]) != k by {
                        if author_key(cv[q]) == k {
                            let jj = choose|jj: int| 0 <= jj < keys@.len() && #[trigger] keys@[jj]@ == author_key(cv[q]);
                        }
                    }
                    lemma_absent_key(cv, dv, k, n);
                }
            }
        }
        Some(analyze(repo, commits, diffs))
    } else {
        proof {
            if by_author is None {
                let k = choose|k: Seq<char>|
                    !tally_fits(#[trigger] author_tally(cv, dv, k, commits@.len() as nat));
                assert(!tally_fits(author_tally(cv, dv, k, cv.len())));
            } else {
                let p = choose|p: Seq<char>| !lines_fit(#[trigger] path_tally(dv, p, dv.len()));
                assert(!lines_fit(path_tally(dv, p, dv.len())));
            }
        }
        None
    }
}

// ---------------------------------------------------------------------------
// Every commit is counted once
// ---------------------------------------------------------------------------

/// The commits of the authors `au` together.
pub open spec fn commits_sum(au: Seq<AuthorStats>) -> int
    decreases au.len(),
{
    if au.len() == 0 {
        0
    } else {
        commits_sum(au.drop_last()) + au.last().commits
    }
}

/// The counts of the keys `ks` over the first `n` commits, together.
pub open spec fn key_counts_sum(cs: Seq<CommitInfoView>, ks: Seq<Seq<char>>, n: nat) -> int
    decreases ks.len(),
{
    if ks.len() == 0 {
        0
    } else {
        key_counts_sum(cs, ks.drop_last(), n) + author_commits(cs, ks.last(), n)
    }
}

/// How many of the keys `ks` equal `k`.
pub open spec fn key_hits(ks: Seq<Seq<char>>, k: Seq<char>) -> int
    decreases ks.len(),
{
    if ks.len() == 0 {
        0
    } else {
        key_hits(ks.drop_last(), k) + if ks.last() == k {
            1int
        } else {
            0int
        }
    }
}

proof fn lemma_key_counts_step(cs: Seq<CommitInfoView>, ks: Seq<Seq<char>>, n: nat)
    requires
        n < cs.len(),
    ensures
        key_counts_sum(cs, ks, n + 1) == key_counts_sum(cs, ks, n) + key_hits(ks, author_key(cs[n as int])),
    decreases ks.len(),
{
    if ks.len() > 0 {
        lemma_key_counts_step(cs, ks.drop_last(), n);
    }
}

proof fn lemma_key_hits_once(ks: Seq<Seq<char>>, k: Seq<char>)
    requires
        forall|a: int, b: int| 0 <= a < b < ks.len() ==> ks[a] != ks[b],
        ks.contains(k),
    ensures
        key_hits(ks, k) == 1,
    decreases ks.len(),
{
    let init = ks.drop_last();
    if ks.last() == k {
        assert forall|j: int| 0 <= j < init.len() implies init[j] != k by {
            assert(ks[j] != ks[ks.len() - 1]);
        }
        lemma_key_hits_none(init, k);
    } else {
        let j = choose|j: int| 0 <= j < ks.len() && ks[j] == k;
        assert(init[j] == k);
        lemma_key_hits_once(init, k);
    }
}

proof fn lemma_key_hits_none(ks: Seq<Seq<char>>, k: Seq<char>)
    requires
        forall|j: int| 0 <= j < ks.len() ==> ks[j] != k,
    ensures
        key_hits(ks, k) == 0,
    decreases ks.len(),
{
    if ks.len() > 0 {
        lemma_key_hits_none(ks.drop_last(), k);
    }
}

/// When the keys are distinct and include the key of every commit, their
/// counts over the first `n` commits add up to `n`.
proof fn lemma_key_counts_total(cs: Seq<CommitInfoView>, ks: Seq<Seq<char>>, n: nat)
    requires
        n <= cs.len(),
        forall|a: int, b: int| 0 <= a < b < ks.len() ==> ks[a] != ks[b],
        forall|q: int| 0 <= q < cs.len() ==> ks.contains(author_key(#[trigger] cs[q])),
    ensures
        key_counts_sum(cs, ks, n) == n,
    decreases n,
{
    if n == 0 {
        lemma_key_counts_zero(cs, ks);
    } else {
        let m = (n - 1) as nat;
        lemma_key_counts_total(cs, ks, m);
        lemma_key_counts_step(cs, ks, m);
        assert(ks.contains(author_key(cs[m as int])));
        lemma_key_hits_once(ks, author_key(cs[m as int]));
    }
}

proof fn lemma_key_counts_zero(cs: Seq<CommitInfoView>, ks: Seq<Seq<char>>)
    ensures
        key_counts_sum(cs, ks, 0) == 0,
    decreases ks.len(),
{
    if ks.len() > 0 {
        lemma_key_counts_zero(cs, ks.drop_last());
    }
}

proof fn lemma_commits_sum_keys(cv: Seq<CommitInfoView>, dv: Seq<Seq<FileChangeView>>, au: Seq<AuthorStats>)
    requires
        forall|j: int|
            0 <= j < au.len() ==> (#[trigger] au[j])@ == expected_author(
                cv,
                dv,
                text::unicode_lower(au[j].email@),
                cv.len(),
            ),
        cv.len() <= usize::MAX,
    ensures
        commits_sum(au) == key_counts_sum(
            cv,
            au.map_values(|a: AuthorStats| text::unicode_lower(a.email@)),
            cv.len(),
        ),
    decreases au.len(),
{
    let ks = au.map_values(|a: AuthorStats| text::unicode_lower(a.email@));
    if au.len() > 0 {
        let init = au.drop_last();
        assert forall|j: int| 0 <= j < init.len() implies (#[trigger] init[j])@ == expected_author(
            cv,
            dv,
            text::unicode_lower(init[j].email@),
            cv.len(),
        ) by {
            assert(init[j] == au[j]);
        }
        lemma_commits_sum_keys(cv, dv, init);
        assert(init.map_values(|a: AuthorStats| text::unicode_lower(a.email@)) =~= ks.drop_last());
        let k = ks.last();
        let l = au.last();
        assert(l@ == expected_author(cv, dv, k, cv.len()));
        assert(ks[ks.len() - 1] == text::unicode_lower(l.email@));
        lemma_commits_bound(cv, k, cv.len());
        assert(l.commits == author_commits(cv, k, cv.len()));
    }
}

/// Every commit is counted for exactly one author: the authors' commits
/// add up to the number of commits analysed.
pub proof fn lemma_commits_add_up(repo: RepoHandle, cv: Seq<CommitInfoView>, dv: Seq<Seq<FileChangeView>>, s: StatsResult)
    requires
        cv.len() <= usize::MAX,
        stats_match(repo, cv, dv, s),
    ensures
        commits_sum(s.authors@) == s.total_commits,
{
    let au = s.authors@;
    let ks = au.map_values(|a: AuthorStats| text::unicode_lower(a.email@));
    lemma_commits_sum_keys(cv, dv, au);
    assert forall|q: int| 0 <= q < cv.len() implies ks.contains(author_key(#[trigger] cv[q])) by {
        let j = choose|j: int| 0 <= j < au.len() && #[trigger] text::unicode_lower(au[j].email@) == author_key(cv[q]);
        assert(ks[j] == author_key(cv[q]));
    }
    lemma_key_counts_total(cv, ks, cv.len());
}

/// Files that the filter ignores never appear among the file statistics.
pub proof fn lemma_ignored_not_listed(repo: RepoHandle, cv: Seq<CommitInfoView>, dv: Seq<Seq<FileChangeView>>, s: StatsResult)
    requires
        stats_match(repo, cv, dv, s),
    ensures
        forall|j: int| 0 <= j < s.files@.len() ==> !filter::ignored(#[trigger] s.files@[j].path@),
{
    assert forall|j: int| 0 <= j < s.files@.len() implies !filter::ignored(#[trigger] s.files@[j].path@) by {
        let p = s.files@[j].path@;
        assert(path_occurs(dv, p));
        let (q, r) = choose|q: int, r: int|
            0 <= q < dv.len() && 0 <= r < dv[q].len() && #[trigger] dv[q][r].path == p && counted(dv[q][r]);
    }
}

/// Every file change that the filter does not ignore counts once for its
/// commit, with all its added and deleted lines, whatever those numbers are
/// (a change that only deletes lines counts too), and with an estimate of
/// 90 code, 5 comment and 5 blank lines when its path has an extension;
/// an ignored change counts for nothing.
pub proof fn lemma_each_kept_change_counts(fs: Seq<FileChangeView>, f: FileChangeView)
    ensures
        filter::ignored(f.path) ==> files_tally(fs.push(f)) == files_tally(fs),
        !filter::ignored(f.path) ==> files_tally(fs.push(f)).files == files_tally(fs).files + 1
            && files_tally(fs.push(f)).added == files_tally(fs).added + f.added
            && files_tally(fs.push(f)).deleted == files_tally(fs).deleted + f.deleted,
        !filter::ignored(f.path) ==> {
            let est: nat = if text::unicode_lower(analyzer::raw_extension(f.path)).len() > 0 {
                90
            } else {
                0
            };
            let small: nat = if est > 0 { 5 } else { 0 };
            &&& files_tally(fs.push(f)).code == files_tally(fs).code + est
            &&& files_tally(fs.push(f)).comment == files_tally(fs).comment + small
            &&& files_tally(fs.push(f)).blank == files_tally(fs).blank + small
        },
        filter::ignored(f.path) ==> path_tally_in(fs.push(f), f.path) == path_tally_in(fs, f.path),
        !filter::ignored(f.path) ==> path_tally_in(fs.push(f), f.path).files == path_tally_in(fs, f.path).files
            + 1 && path_tally_in(fs.push(f), f.path).added == path_tally_in(fs, f.path).added + f.added
            && path_tally_in(fs.push(f), f.path).deleted == path_tally_in(fs, f.path).deleted + f.deleted,
{
    let g = fs.push(f);
    assert(g.drop_last() =~= fs);
    assert(g.last() == f);
}

/// Adding a file change that the filter does not ignore to a commit of
/// author `k` raises that author's changed files by one and its added and
/// deleted lines by the change's own counts.
pub proof fn lemma_author_counts_each_kept_change(
    cs: Seq<CommitInfoView>,
    ds: Seq<Seq<FileChangeView>>,
    k: Seq<char>,
    n: nat,
    i: int,
    f: FileChangeView,
)
    requires
        0 <= i < n,
        n <= cs.len(),
        n <= ds.len(),
        author_key(cs[i]) == k,
        !filter::ignored(f.path),
    ensures
        ({
            let ds2 = ds.update(i, ds[i].push(f));
            &&& author_tally(cs, ds2, k, n).files == author_tally(cs, ds, k, n).files + 1
            &&& author_tally(cs, ds2, k, n).added == author_tally(cs, ds, k, n).added + f.added
            &&& author_tally(cs, ds2, k, n).deleted == author_tally(cs, ds, k, n).deleted + f.deleted
        }),
    decreases n,
{
    let ds2 = ds.update(i, ds[i].push(f));
    if n - 1 == i {
        lemma_author_tally_unchanged_before(cs, ds, k, i as nat, i, f);
        lemma_each_kept_change_counts(ds[i], f);
    } else {
        lemma_author_counts_each_kept_change(cs, ds, k, (n - 1) as nat, i, f);
        assert(ds2[n - 1] == ds[n - 1]);
    }
}

proof fn lemma_author_tally_unchanged_before(
    cs: Seq<CommitInfoView>,
    ds: Seq<Seq<FileChangeView>>,
    k: Seq<char>,
    m: nat,
    i: int,
    f: FileChangeView,
)
    requires
        m <= i < ds.len(),
    ensures
        author_tally(cs, ds.update(i, ds[i].push(f)), k, m) == author_tally(cs, ds, k, m),
    decreases m,
{
    if m > 0 {
        lemma_author_tally_unchanged_before(cs, ds, k, (m - 1) as nat, i, f);
        assert(ds.update(i, ds[i].push(f))[m - 1] == ds[m - 1]);
    }
}

/// Every file change that the filter does not ignore has its path listed
/// among the file statistics, whatever its line counts.
pub proof fn lemma_every_kept_change_is_listed(
    repo: RepoHandle,
    cv: Seq<CommitInfoView>,
    dv: Seq<Seq<FileChangeView>>,
    s: StatsResult,
    i: int,
    j: int,
)
    requires
        stats_match(repo, cv, dv, s),
        0 <= i < dv.len(),
        0 <= j < dv[i].len(),
        !filter::ignored(dv[i][j].path),
    ensures
        exists|a: int| 0 <= a < s.files@.len() && #[trigger] s.files@[a].path@ == dv[i][j].path,
{
    assert(path_occurs(dv, dv[i][j].path));
}

} // verus!
