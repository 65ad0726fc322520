//! Listing and cleaning stashes, from the output of
//! `git stash list`.

use vstd::prelude::*;
use crate::text::{self, dec_str};

verus! {

/// The stash listing: a notice when there is none, else a heading and the
/// output.
pub open spec fn stash_list_text(output: Seq<char>) -> Seq<char> {
    if text::trim(output).len() == 0 {
        "没有 stash 记录。\n"@
    } else {
        "=== Stash 列表 ===\n\n"@ + output
    }
}

/// The stash listing for the output of `stash list`.
pub fn list_stashes(output: &str) -> (r: String)
    ensures
        r@ == stash_list_text(output@),
{
    let v = text::chars_of(output);
    if text::trim_chars(&v).len() == 0 {
        text::string_of(&text::chars_of("没有 stash 记录。\n"))
    } else {
        let mut out = text::chars_of("=== Stash 列表 ===\n\n");
        text::append_chars(&mut out, &v);
        text::string_of(&out)
    }
}

/// The stash reference of a listing line: the text before the first `|`.
pub open spec fn ref_of_line(line: Seq<char>) -> Seq<char> {
    text::split_on(line, '|')[0]
}

/// The commit time (seconds since the epoch) of a line of the listing
/// with times: the number after the first `|`, if it reads as one.
pub open spec fn stash_time(line: Seq<char>) -> Option<u64> {
    let parts = text::split_on(line, '|');
    if parts.len() > 1 {
        text::parse_u64(parts[1])
    } else {
        None
    }
}

/// Whether the stash of a listing line is older than `days` whole days at
/// the instant `now`; a stash whose time cannot be read, or lies after
/// `now`, is not.
pub open spec fn is_expired(line: Seq<char>, days: u32, now: u64) -> bool {
    match stash_time(line) {
        Some(t) => t <= now && (now - t) / 86400 > days,
        None => false,
    }
}

/// The references to drop among the first `n` lines, last line first: those
/// of the non-blank lines with a non-empty reference whose stash has
/// expired. Dropping the later entries first keeps the references of the
/// earlier ones valid.
pub open spec fn refs_to_drop(ls: Seq<Seq<char>>, n: nat, days: u32, now: u64) -> Seq<Seq<char>>
    decreases n,
{
    if n == 0 {
        Seq::<Seq<char>>::empty()
    } else {
        let prev = refs_to_drop(ls, (n - 1) as nat, days, now);
        let l = ls[n - 1];
        if text::trim(l).len() > 0 && ref_of_line(l).len() > 0 && is_expired(l, days, now) {
            seq![ref_of_line(l)] + prev
        } else {
            prev
        }
    }
}

pub open spec fn clean_preview_text(days: u32, output: Seq<char>) -> Seq<char> {
    "=== Stash 清理预演 (--dry-run) ===\n\n清理 "@ + dec_str(days as nat) + " 天前的 stash\n\n"@ + output
}

pub open spec fn cleaned_text(count: nat) -> Seq<char> {
    "✅ 已清理 "@ + dec_str(count) + " 条 stash 记录"@
}

fn expired_exec(line: &Vec<char>, days: u32, now: u64) -> (r: bool)
    ensures
        r == is_expired(line@, days, now),
{
    let parts = text::split_on_exec(line, '|');
    if parts.len() <= 1 {
        return false;
    }
    match text::parse_u64_exec(&parts[1]) {
        Some(t) => t <= now && (now - t) / 86400 > days as u64,
        None => false,
    }
}

/// Stash cleaning. In a dry run, `output` is the listing shown to the user
/// (`stash_list`): nothing is dropped and the preview holds the listing.
/// Otherwise `output` is the listing with commit times (`stash_times`) and
/// `now` the clock reading in seconds since the epoch: the references to
/// drop are those of the stashes older than `older_than_days` whole days,
/// the last listed first, and the report counts them.
pub fn clean_stashes(output: &str, older_than_days: u32, dry_run: bool, now: u64) -> (r: (
    Vec<String>,
    String,
))
    ensures
        dry_run ==> r.0@.len() == 0 && r.1@ == clean_preview_text(older_than_days, output@),
        !dry_run ==> {
            let ls = text::lines(output@);
            let refs = refs_to_drop(ls, ls.len(), older_than_days, now);
            &&& r.0@.map_values(|s: String| s@) == refs
            &&& r.1@ == cleaned_text(refs.len())
        },
{
    if dry_run {
        let mut m = text::chars_of("=== Stash 清理预演 (--dry-run) ===\n\n清理 ");
        text::push_u64(&mut m, older_than_days as u64);
        text::append_str(&mut m, " 天前的 stash\n\n");
        text::append_str(&mut m, output);
        return (Vec::new(), text::string_of(&m));
    }
    let v = text::chars_of(output);
    let ls = text::lines_exec(&v);
    let ghost all = text::lines(output@);
    let mut refs: Vec<String> = Vec::new();
    let mut i: usize = 0;
    while i < ls.len()
        invariant
            i <= ls@.len(),
            ls@.len() == all.len(),
            forall|k: int| 0 <= k < ls@.len() ==> (#[trigger] ls@[k])@ == all[k],
            refs@.map_values(|s: String| s@) == refs_to_drop(all, i as nat, older_than_days, now),
            refs@.len() <= i,
        decreases ls.len() - i,
    {
        let line = &ls[i];
        if text::trim_chars(line).len() > 0 {
            let parts = text::split_on_exec(line, '|');
            proof {
                text::lemma_split_on_nonempty(line@, '|');
            }
            let first = &parts[0];
            if first.len() > 0 && expired_exec(line, older_than_days, now) {
                let ghost before = refs@;
                refs.insert(0, text::string_of(first));
                assert(refs@.map_values(|s: String| s@) =~= seq![first@] + before.map_values(
                    |s: String| s@,
                ));
            }
        }
        i = i + 1;
    }
    let mut m = text::chars_of("✅ 已清理 ");
    text::push_u64(&mut m, refs.len() as u64);
    text::append_str(&mut m, " 条 stash 记录");
    proof {
        assert(refs@.map_values(|s: String| s@).len() == refs@.len());
    }
    (refs, text::string_of(&m))
}

} // verus!
