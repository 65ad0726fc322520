//! Report export formats and the CSV report.

use vstd::prelude::*;
use crate::order;
use crate::stats::engine::{AuthorStats, StatsResult};
use crate::stats::report::{self, SortBy};
use crate::text::{self, dec_str, int_str};

verus! {

/// The file formats a report can be exported in.
#[derive(Debug, Clone, Copy, PartialEq, Eq, Structural)]
pub enum ExportFormat {
    Markdown,
    Csv,
    Json,
}

/// A CSV field: quoted, with inner quotes doubled, when it holds a comma,
/// a quote or a line feed; unchanged otherwise.
pub open spec fn csv_field(s: Seq<char>) -> Seq<char> {
    if s.contains(',') || s.contains('"') || s.contains('\n') {
        seq!['"'] + text::replace_char(s, '"', seq!['"', '"']) + seq!['"']
    } else {
        s
    }
}

/// `csv_field(s)`.
pub fn escape_csv(s: &str) -> (r: String)
    ensures
        r@ == csv_field(s@),
{
    let v = text::chars_of(s);
    if text::has_char(&v, ',') || text::has_char(&v, '"') || text::has_char(&v, '\n') {
        let mut quote2: Vec<char> = Vec::new();
        quote2.push('"');
        quote2.push('"');
        assert(quote2@ =~= seq!['"', '"']);
        let inner = text::replace_char_exec(&v, '"', &quote2);
        let mut out: Vec<char> = Vec::new();
        out.push('"');
        text::append_chars(&mut out, &inner);
        out.push('"');
        assert(out@ =~= seq!['"'] + text::replace_char(s@, '"', seq!['"', '"']) + seq!['"']);
        text::string_of(&out)
    } else {
        text::string_of(&v)
    }
}

pub open spec fn csv_row(rank: nat, a: AuthorStats) -> Seq<char> {
    dec_str(rank) + seq![','] + csv_field(a.name@) + seq![','] + a.email@ + seq![','] + dec_str(
        a.commits as nat,
    ) + seq![','] + dec_str(a.lines_added as nat) + seq![','] + dec_str(a.lines_deleted as nat)
        + seq![','] + int_str(a.net_lines as int) + seq![','] + dec_str(a.code_lines as nat) + seq![',']
        + dec_str(a.comment_lines as nat) + seq![','] + dec_str(a.blank_lines as nat) + seq!['\n']
}

pub open spec fn csv_rows(au: Seq<AuthorStats>, ord: Seq<usize>, n: nat) -> Seq<char>
    decreases n,
{
    if n == 0 {
        Seq::<char>::empty()
    } else {
        csv_rows(au, ord, (n - 1) as nat) + csv_row(n, au[ord[n - 1] as int])
    }
}

pub open spec fn csv_head() -> Seq<char> {
    "排名,作者,邮箱,提交数,新增行,删除行,净增,代码行,注释行,空行\n"@
}

fn push_csv_row(out: &mut Vec<char>, rank: usize, a: &AuthorStats)
    ensures
        final(out)@ == old(out)@ + csv_row(rank as nat, *a),
{
    let name = escape_csv(a.name.as_str());
    let mut row: Vec<char> = Vec::new();
    text::push_u64(&mut row, rank as u64);
    assert(row@ =~= dec_str(rank as nat));
    row.push(',');
    text::append_str(&mut row, name.as_str());
    row.push(',');
    text::append_str(&mut row, a.email.as_str());
    row.push(',');
    text::push_u64(&mut row, a.commits as u64);
    row.push(',');
    text::push_u64(&mut row, a.lines_added);
    row.push(',');
    text::push_u64(&mut row, a.lines_deleted);
    row.push(',');
    text::push_i64(&mut row, a.net_lines);
    row.push(',');
    text::push_u64(&mut row, a.code_lines);
    row.push(',');
    text::push_u64(&mut row, a.comment_lines);
    row.push(',');
    text::push_u64(&mut row, a.blank_lines);
    row.push('\n');
    text::append_chars(out, &row);
}

/// The CSV report of `result`: a header line, then one line per author
/// ranked by descending commits.
pub fn format_csv(result: &StatsResult) -> (r: String)
    ensures
        exists|ord: Seq<usize>|
            order::is_stable_desc(report::sort_keys(result.authors@, SortBy::Commits), ord) && r@
                == csv_head() + csv_rows(result.authors@, ord, result.authors@.len() as nat),
{
    let au = &result.authors;
    let ord = report::author_order(au, SortBy::Commits);
    let mut out: Vec<char> = Vec::new();
    text::append_str(&mut out, "排名,作者,邮箱,提交数,新增行,删除行,净增,代码行,注释行,空行\n");
    let ghost head = out@;
    assert(head =~= csv_head());
    let mut i: usize = 0;
    while i < ord.len()
        invariant
            i <= ord@.len(),
            ord@.len() == au@.len(),
            order::is_permutation_of_indices(ord@, au@.len()),
            out@ == head + csv_rows(au@, ord@, i as nat),
        decreases ord.len() - i,
    {
        let k = ord[i];
        assert(ord@[i as int] < au@.len());
        push_csv_row(&mut out, i + 1, &au[k]);
        assert(out@ =~= head + csv_rows(au@, ord@, (i + 1) as nat));
        i = i + 1;
    }
    text::string_of(&out)
}

} // verus!
