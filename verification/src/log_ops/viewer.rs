//! The compact commit log.

use vstd::prelude::*;
use crate::repo::CommitInfo;
use crate::text::{self, dec_str};

verus! {

pub open spec fn log_entry(c: CommitInfo) -> Seq<char> {
    "◉ "@ + c.hash@ + "  "@ + text::truncated(c.author@, 15) + "  "@ + c.date@ + seq!['\n'] + "│  "@
        + c.message@ + seq!['\n'] + seq!['\n']
}

pub open spec fn log_entries(cs: Seq<CommitInfo>, n: nat) -> Seq<char>
    decreases n,
{
    if n == 0 {
        Seq::<char>::empty()
    } else {
        log_entries(cs, (n - 1) as nat) + log_entry(cs[n - 1])
    }
}

pub open spec fn log_text(cs: Seq<CommitInfo>) -> Seq<char> {
    if cs.len() == 0 {
        "没有找到匹配的提交记录。\n"@
    } else {
        log_entries(cs, cs.len()) + "共 "@ + dec_str(cs.len()) + " 条提交记录\n"@
    }
}

/// Every author name can be cut to 15 characters without slicing inside a
/// character.
pub open spec fn authors_cuttable(cs: Seq<CommitInfo>) -> bool {
    forall|i: int| 0 <= i < cs.len() ==> text::can_truncate(#[trigger] cs[i].author@, 15)
}

/// Whether `authors_cuttable` holds.
pub fn authors_cuttable_exec(commits: &Vec<CommitInfo>) -> (r: bool)
    ensures
        r == authors_cuttable(commits@),
{
    let mut i: usize = 0;
    while i < commits.len()
        invariant
            i <= commits@.len(),
            forall|k: int| 0 <= k < i ==> text::can_truncate(#[trigger] commits@[k].author@, 15),
        decreases commits.len() - i,
    {
        if !text::can_truncate_exec(&text::chars_of(commits[i].author.as_str()), 15) {
            return false;
        }
        i = i + 1;
    }
    true
}

/// The log: per commit its hash, author (cut to 15 characters) and date,
/// then its message, then the number of commits.
pub fn format_log(commits: &Vec<CommitInfo>) -> (r: String)
    requires
        authors_cuttable(commits@),
    ensures
        r@ == log_text(commits@),
{
    if commits.len() == 0 {
        return text::string_of(&text::chars_of("没有找到匹配的提交记录。\n"));
    }
    let mut out: Vec<char> = Vec::new();
    let mut i: usize = 0;
    while i < commits.len()
        invariant
            i <= commits@.len(),
            authors_cuttable(commits@),
            out@ == log_entries(commits@, i as nat),
        decreases commits.len() - i,
    {
        let c = &commits[i];
        assert(text::can_truncate(commits@[i as int].author@, 15));
        let author = text::truncate_chars(&text::chars_of(c.author.as_str()), 15);
        let mut e = text::chars_of("◉ ");
        text::append_str(&mut e, c.hash.as_str());
        text::append_str(&mut e, "  ");
        text::append_chars(&mut e, &author);
        text::append_str(&mut e, "  ");
        text::append_str(&mut e, c.date.as_str());
        e.push('\n');
        text::append_str(&mut e, "│  ");
        text::append_str(&mut e, c.message.as_str());
        e.push('\n');
        e.push('\n');
        assert(e@ =~= log_entry(*c));
        text::append_chars(&mut out, &e);
        i = i + 1;
    }
    text::append_str(&mut out, "共 ");
    text::push_u64(&mut out, commits.len() as u64);
    text::append_str(&mut out, " 条提交记录\n");
    text::string_of(&out)
}

} // verus!
