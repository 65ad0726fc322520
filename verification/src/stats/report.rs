//! Text reports of contribution statistics: the terminal table, Markdown
//! and CSV.

use vstd::prelude::*;
use crate::order;
use crate::stats::engine::{AuthorStats, StatsResult};
use crate::text::{self, dec_str, int_str, pad_right};

verus! {

/// The figure that a report ranks authors by.
#[derive(Debug, Clone, Copy, PartialEq, Eq, Structural)]
pub enum SortBy {
    Commits,
    Added,
    Net,
}

pub open spec fn sort_key(a: AuthorStats, by: SortBy) -> int {
    match by {
        SortBy::Commits => a.commits as int,
        SortBy::Added => a.lines_added as int,
        SortBy::Net => a.net_lines as int,
    }
}

pub open spec fn sort_keys(au: Seq<AuthorStats>, by: SortBy) -> Seq<int> {
    au.map_values(|a: AuthorStats| sort_key(a, by))
}

/// The order in which a stable sort by descending `by` lists the authors.
pub fn author_order(au: &Vec<AuthorStats>, by: SortBy) -> (ord: Vec<usize>)
    ensures
        order::is_stable_desc(sort_keys(au@, by), ord@),
{
    let mut keys: Vec<i128> = Vec::new();
    let mut i: usize = 0;
    while i < au.len()
        invariant
            i <= au@.len(),
            keys@.len() == i,
            forall|j: int| 0 <= j < i ==> #[trigger] keys@[j] as int == sort_key(au@[j], by),
        decreases au.len() - i,
    {
        let a = &au[i];
        let k: i128 = match by {
            SortBy::Commits => a.commits as i128,
            SortBy::Added => a.lines_added as i128,
            SortBy::Net => a.net_lines as i128,
        };
        keys.push(k);
        i = i + 1;
    }
    let ord = order::stable_desc_order(&keys);
    proof {
        assert(keys@.map_values(|k: i128| k as int) =~= sort_keys(au@, by));
    }
    ord
}

/// In any order that ranks the authors by `by` (the order every report
/// uses), an author ranked above another has at least as many commits,
/// at least as many lines added, or at least as large a net change,
/// whatever the other figures are; authors with the same figure keep
/// their original order.
pub proof fn lemma_ranking_follows_the_figure(au: Seq<AuthorStats>, by: SortBy, ord: Seq<usize>, i: int, j: int)
    requires
        order::is_stable_desc(sort_keys(au, by), ord),
        0 <= i < j < ord.len(),
    ensures
        0 <= ord[i] < au.len(),
        0 <= ord[j] < au.len(),
        by == SortBy::Commits ==> au[ord[i] as int].commits >= au[ord[j] as int].commits && (au[ord[i] as int].commits
            == au[ord[j] as int].commits ==> ord[i] < ord[j]),
        by == SortBy::Added ==> au[ord[i] as int].lines_added >= au[ord[j] as int].lines_added && (
        au[ord[i] as int].lines_added == au[ord[j] as int].lines_added ==> ord[i] < ord[j]),
        by == SortBy::Net ==> au[ord[i] as int].net_lines >= au[ord[j] as int].net_lines && (au[ord[i] as int].net_lines
            == au[ord[j] as int].net_lines ==> ord[i] < ord[j]),
{
    let ks = sort_keys(au, by);
    assert(order::is_permutation_of_indices(ord, ks.len()));
    assert(ks[ord[i] as int] > ks[ord[j] as int] || (ks[ord[i] as int] == ks[ord[j] as int] && ord[i] < ord[j]));
}

// ---------------------------------------------------------------------------
// Terminal table
// ---------------------------------------------------------------------------

/// One row of the table: rank, name cut to 20 characters, commits, added,
/// deleted, net and code lines, left-aligned in their columns.
pub open spec fn table_row(rank: nat, a: AuthorStats) -> Seq<char> {
    pad_right(dec_str(rank), 4) + seq![' '] + pad_right(text::truncated(a.name@, 20), 20) + seq![' ']
        + pad_right(dec_str(a.commits as nat), 8) + seq![' '] + pad_right(dec_str(a.lines_added as nat), 10)
        + seq![' '] + pad_right(dec_str(a.lines_deleted as nat), 10) + seq![' '] + pad_right(
        int_str(a.net_lines as int),
        10,
    ) + seq![' '] + pad_right(dec_str(a.code_lines as nat), 10) + seq!['\n']
}

/// The rows of the first `n` authors in the order `ord`.
pub open spec fn table_rows(au: Seq<AuthorStats>, ord: Seq<usize>, n: nat) -> Seq<char>
    decreases n,
{
    if n == 0 {
        Seq::<char>::empty()
    } else {
        table_rows(au, ord, (n - 1) as nat) + table_row(n, au[ord[n - 1] as int])
    }
}

pub open spec fn table_head(r: StatsResult) -> Seq<char> {
    "仓库: "@ + r.repo_path@ + "\n统计提交数: "@ + dec_str(r.total_commits as nat) + "\n\n"@
        + pad_right("排名"@, 4) + seq![' '] + pad_right("作者"@, 20) + seq![' '] + pad_right(
        "提交数"@,
        8,
    ) + seq![' '] + pad_right("新增行"@, 10) + seq![' '] + pad_right("删除行"@, 10) + seq![' ']
        + pad_right("净增"@, 10) + seq![' '] + pad_right("代码行"@, 10) + seq!['\n']
        + text::repeat_char('-', 80) + seq!['\n']
}

/// Every author name can be cut to a table column without slicing inside
/// a character.
pub open spec fn names_fit_table(au: Seq<AuthorStats>) -> bool {
    forall|j: int| 0 <= j < au.len() ==> text::can_truncate(#[trigger] au[j].name@, 20)
}

/// Whether `names_fit_table` holds of the authors of `r`.
pub fn table_names_fit(r: &StatsResult) -> (b: bool)
    ensures
        b == names_fit_table(r.authors@),
{
    let mut i: usize = 0;
    while i < r.authors.len()
        invariant
            i <= r.authors@.len(),
            forall|j: int| 0 <= j < i ==> text::can_truncate(#[trigger] r.authors@[j].name@, 20),
        decreases r.authors.len() - i,
    {
        let nv = text::chars_of(r.authors[i].name.as_str());
        if !text::can_truncate_exec(&nv, 20) {
            return false;
        }
        i = i + 1;
    }
    true
}

fn push_table_row(out: &mut Vec<char>, rank: usize, a: &AuthorStats)
    requires
        text::can_truncate(a.name@, 20),
    ensures
        final(out)@ == old(out)@ + table_row(rank as nat, *a),
{
    let name = text::chars_of(a.name.as_str());
    let cut = text::truncate_chars(&name, 20);
    let rank_s = text::u64_chars(rank as u64);
    let commits_s = text::u64_chars(a.commits as u64);
    let added_s = text::u64_chars(a.lines_added);
    let deleted_s = text::u64_chars(a.lines_deleted);
    let net_s = text::i64_chars(a.net_lines);
    let code_s = text::u64_chars(a.code_lines);
    let mut row: Vec<char> = Vec::new();
    text::push_padded(&mut row, &rank_s, 4);
    assert(row@ =~= pad_right(dec_str(rank as nat), 4));
    row.push(' ');
    text::push_padded(&mut row, &cut, 20);
    row.push(' ');
    text::push_padded(&mut row, &commits_s, 8);
    row.push(' ');
    text::push_padded(&mut row, &added_s, 10);
    row.push(' ');
    text::push_padded(&mut row, &deleted_s, 10);
    row.push(' ');
    text::push_padded(&mut row, &net_s, 10);
    row.push(' ');
    text::push_padded(&mut row, &code_s, 10);
    row.push('\n');
    text::append_chars(out, &row);
}

fn push_str_padded(out: &mut Vec<char>, s: &str, width: usize)
    ensures
        final(out)@ == old(out)@ + pad_right(s@, width as nat),
{
    let v = text::chars_of(s);
    text::push_padded(out, &v, width);
}

/// The terminal table of `result`, authors ranked by descending `sort_by`
/// (a stable sort: equal figures keep their order).
pub fn format_table(result: &StatsResult, sort_by: &SortBy) -> (r: String)
    requires
        names_fit_table(result.authors@),
    ensures
        exists|ord: Seq<usize>|
            order::is_stable_desc(sort_keys(result.authors@, *sort_by), ord) && r@ == table_head(*result)
                + table_rows(result.authors@, ord, result.authors@.len() as nat),
{
    let au = &result.authors;
    let ord = author_order(au, *sort_by);
    let mut out: Vec<char> = Vec::new();
    text::append_str(&mut out, "仓库: ");
    text::append_str(&mut out, result.repo_path.as_str());
    text::append_str(&mut out, "\n统计提交数: ");
    text::push_u64(&mut out, result.total_commits as u64);
    text::append_str(&mut out, "\n\n");
    push_str_padded(&mut out, "排名", 4);
    out.push(' ');
    push_str_padded(&mut out, "作者", 20);
    out.push(' ');
    push_str_padded(&mut out, "提交数", 8);
    out.push(' ');
    push_str_padded(&mut out, "新增行", 10);
    out.push(' ');
    push_str_padded(&mut out, "删除行", 10);
    out.push(' ');
    push_str_padded(&mut out, "净增", 10);
    out.push(' ');
    push_str_padded(&mut out, "代码行", 10);
    out.push('\n');
    text::push_repeat(&mut out, '-', 80);
    out.push('\n');
    let ghost head = out@;
    assert(head =~= table_head(*result));
    let mut i: usize = 0;
    while i < ord.len()
        invariant
            i <= ord@.len(),
            ord@.len() == au@.len(),
            order::is_permutation_of_indices(ord@, au@.len()),
            names_fit_table(au@),
            out@ == head + table_rows(au@, ord@, i as nat),
        decreases ord.len() - i,
    {
        let k = ord[i];
        assert(ord@[i as int] < au@.len());
        assert(text::can_truncate(au@[k as int].name@, 20));
        push_table_row(&mut out, i + 1, &au[k]);
        assert(out@ =~= head + table_rows(au@, ord@, (i + 1) as nat));
        i = i + 1;
    }
    text::string_of(&out)
}

// ---------------------------------------------------------------------------
// Markdown
// ---------------------------------------------------------------------------

pub open spec fn markdown_row(rank: nat, a: AuthorStats) -> Seq<char> {
    "| "@ + dec_str(rank) + " | "@ + a.name@ + " | "@ + dec_str(a.commits as nat) + " | "@ + dec_str(
        a.lines_added as nat,
    ) + " | "@ + dec_str(a.lines_deleted as nat) + " | "@ + int_str(a.net_lines as int) + " | "@
        + dec_str(a.code_lines as nat) + " |\n"@
}

pub open spec fn markdown_rows(au: Seq<AuthorStats>, ord: Seq<usize>, n: nat) -> Seq<char>
    decreases n,
{
    if n == 0 {
        Seq::<char>::empty()
    } else {
        markdown_rows(au, ord, (n - 1) as nat) + markdown_row(n, au[ord[n - 1] as int])
    }
}

pub open spec fn markdown_head(r: StatsResult) -> Seq<char> {
    "# Git 贡献统计报表\n\n"@ + "**仓库**: `"@ + r.repo_path@ + "`\n**统计提交数**: "@ + dec_str(
        r.total_commits as nat,
    ) + "\n\n"@ + "## 贡献排行\n\n"@ + "| 排名 | 作者 | 提交数 | 新增行 | 删除行 | 净增 | 代码行 |\n"@
        + "|------|------|--------|--------|--------|------|--------|\n"@
}

fn push_markdown_row(out: &mut Vec<char>, rank: usize, a: &AuthorStats)
    ensures
        final(out)@ == old(out)@ + markdown_row(rank as nat, *a),
{
    let mut row: Vec<char> = Vec::new();
    text::append_str(&mut row, "| ");
    assert(row@ =~= "| "@);
    text::push_u64(&mut row, rank as u64);
    text::append_str(&mut row, " | ");
    text::append_str(&mut row, a.name.as_str());
    text::append_str(&mut row, " | ");
    text::push_u64(&mut row, a.commits as u64);
    text::append_str(&mut row, " | ");
    text::push_u64(&mut row, a.lines_added);
    text::append_str(&mut row, " | ");
    text::push_u64(&mut row, a.lines_deleted);
    text::append_str(&mut row, " | ");
    text::push_i64(&mut row, a.net_lines);
    text::append_str(&mut row, " | ");
    text::push_u64(&mut row, a.code_lines);
    text::append_str(&mut row, " |\n");
    text::append_chars(out, &row);
}

/// The Markdown report of `result`, authors ranked by descending commits.
pub fn format_markdown(result: &StatsResult) -> (r: String)
    ensures
        exists|ord: Seq<usize>|
            order::is_stable_desc(sort_keys(result.authors@, SortBy::Commits), ord) && r@
                == markdown_head(*result) + markdown_rows(result.authors@, ord, result.authors@.len() as nat),
{
    let au = &result.authors;
    let ord = author_order(au, SortBy::Commits);
    let mut out: Vec<char> = Vec::new();
    text::append_str(&mut out, "# Git 贡献统计报表\n\n");
    text::append_str(&mut out, "**仓库**: `");
    text::append_str(&mut out, result.repo_path.as_str());
    text::append_str(&mut out, "`\n**统计提交数**: ");
    text::push_u64(&mut out, result.total_commits as u64);
    text::append_str(&mut out, "\n\n");
    text::append_str(&mut out, "## 贡献排行\n\n");
    text::append_str(&mut out, "| 排名 | 作者 | 提交数 | 新增行 | 删除行 | 净增 | 代码行 |\n");
    text::append_str(&mut out, "|------|------|--------|--------|--------|------|--------|\n");
    let ghost head = out@;
    assert(head =~= markdown_head(*result));
    let mut i: usize = 0;
    while i < ord.len()
        invariant
            i <= ord@.len(),
            ord@.len() == au@.len(),
            order::is_permutation_of_indices(ord@, au@.len()),
            out@ == head + markdown_rows(au@, ord@, i as nat),
        decreases ord.len() - i,
    {
        let k = ord[i];
        assert(ord@[i as int] < au@.len());
        push_markdown_row(&mut out, i + 1, &au[k]);
        assert(out@ =~= head + markdown_rows(au@, ord@, (i + 1) as nat));
        i = i + 1;
    }
    text::string_of(&out)
}

} // verus!
