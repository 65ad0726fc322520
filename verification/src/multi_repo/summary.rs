//! The summary of a batch operation.

use vstd::prelude::*;
use crate::multi_repo::runner::OpResult;
use crate::text::{self, dec_str};

verus! {

pub open spec fn count_success(rs: Seq<OpResult>, n: nat) -> nat
    decreases n,
{
    if n == 0 {
        0
    } else {
        count_success(rs, (n - 1) as nat) + if rs[n - 1].success {
            1nat
        } else {
            0nat
        }
    }
}

pub open spec fn summary_line(r: OpResult) -> Seq<char> {
    (if r.success {
        "✅"@
    } else {
        "❌"@
    }) + seq![' '] + r.repo_path@ + " : "@ + r.message@ + seq!['\n']
}

pub open spec fn summary_lines(rs: Seq<OpResult>, n: nat) -> Seq<char>
    decreases n,
{
    if n == 0 {
        Seq::<char>::empty()
    } else {
        summary_lines(rs, (n - 1) as nat) + summary_line(rs[n - 1])
    }
}

pub open spec fn summary_text(rs: Seq<OpResult>, operation: Seq<char>) -> Seq<char> {
    let n = rs.len();
    let ok = count_success(rs, n);
    "=== 批量 "@ + operation + " 结果 ===\n\n"@ + summary_lines(rs, n) + "\n总计: "@ + dec_str(n)
        + " 个仓库, "@ + dec_str(ok) + " 成功, "@ + dec_str((n - ok) as nat) + " 失败\n"@
}

/// The summary of a batch: one line per repository, then the totals.
pub fn format_summary(results: &Vec<OpResult>, operation: &str) -> (r: String)
    ensures
        r@ == summary_text(results@, operation@),
{
    let mut out = text::chars_of("=== 批量 ");
    text::append_str(&mut out, operation);
    text::append_str(&mut out, " 结果 ===\n\n");
    let ghost head = out@;
    let mut ok: usize = 0;
    let mut i: usize = 0;
    while i < results.len()
        invariant
            i <= results@.len(),
            ok == count_success(results@, i as nat),
            ok <= i,
            out@ == head + summary_lines(results@, i as nat),
        decreases results.len() - i,
    {
        let r = &results[i];
        let mut line = if r.success {
            text::chars_of("✅")
        } else {
            text::chars_of("❌")
        };
        line.push(' ');
        text::append_str(&mut line, r.repo_path.as_str());
        text::append_str(&mut line, " : ");
        text::append_str(&mut line, r.message.as_str());
        line.push('\n');
        assert(line@ =~= summary_line(*r));
        text::append_chars(&mut out, &line);
        if r.success {
            ok = ok + 1;
        }
        i = i + 1;
    }
    text::append_str(&mut out, "\n总计: ");
    text::push_u64(&mut out, results.len() as u64);
    text::append_str(&mut out, " 个仓库, ");
    text::push_u64(&mut out, ok as u64);
    text::append_str(&mut out, " 成功, ");
    text::push_u64(&mut out, (results.len() - ok) as u64);
    text::append_str(&mut out, " 失败\n");
    text::string_of(&out)
}

} // verus!
