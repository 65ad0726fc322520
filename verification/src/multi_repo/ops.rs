//! The per-repository operations of a batch: pull, gc and status.

use vstd::prelude::*;
use crate::repo::RepoStatus;
use crate::safety::guard::SafetyDecision;
use crate::text::{self, dec_str};

verus! {

pub open spec fn pull_text(output: Seq<char>) -> Seq<char> {
    if text::trim(output).len() == 0 {
        "Already up to date."@
    } else {
        text::trim(output)
    }
}

/// The outcome of a pull from the output of `git pull`.
pub fn batch_pull(output: &str) -> (r: String)
    ensures
        r@ == pull_text(output@),
{
    let t = text::trim_chars(&text::chars_of(output));
    if t.len() == 0 {
        text::string_of(&text::chars_of("Already up to date."))
    } else {
        text::string_of(&t)
    }
}

/// The outcome of a gc from the output of `git gc`: the output trimmed.
pub fn batch_gc(output: &str) -> (r: String)
    ensures
        r@ == text::trim(output@),
{
    text::string_of(&text::trim_chars(&text::chars_of(output)))
}

pub open spec fn status_text(s: RepoStatus) -> Seq<char> {
    if s.modified == 0 && s.staged == 0 && s.untracked == 0 {
        s.branch@ + " - clean"@
    } else {
        s.branch@ + " - "@ + dec_str(s.staged as nat) + " staged, "@ + dec_str(s.modified as nat)
            + " modified, "@ + dec_str(s.untracked as nat) + " untracked"@
    }
}

/// The one-line status of a repository.
pub fn batch_status(status: &RepoStatus) -> (r: String)
    ensures
        r@ == status_text(*status),
{
    let mut out = text::chars_of(status.branch.as_str());
    if status.modified == 0 && status.staged == 0 && status.untracked == 0 {
        text::append_str(&mut out, " - clean");
    } else {
        text::append_str(&mut out, " - ");
        text::push_u64(&mut out, status.staged as u64);
        text::append_str(&mut out, " staged, ");
        text::push_u64(&mut out, status.modified as u64);
        text::append_str(&mut out, " modified, ");
        text::push_u64(&mut out, status.untracked as u64);
        text::append_str(&mut out, " untracked");
    }
    text::string_of(&out)
}

/// What the batch gc does once the guard has decided: show a preview, or
/// run `gc` in every repository.
#[derive(Debug, Clone)]
pub enum GcAction {
    Preview(String),
    Run,
}

/// The `gc` invocation as words joined by spaces.
pub open spec fn gc_words(aggressive: bool) -> Seq<char> {
    if aggressive {
        "gc --aggressive"@
    } else {
        "gc"@
    }
}

/// The preview lines for the first `n` repositories, one per repository.
pub open spec fn gc_preview_lines(repos: Seq<Seq<char>>, aggressive: bool, n: nat) -> Seq<char>
    decreases n,
{
    if n == 0 {
        Seq::<char>::empty()
    } else {
        gc_preview_lines(repos, aggressive, (n - 1) as nat) + "将执行: git "@ + gc_words(aggressive) + " ("@
            + repos[n - 1] + ")\n"@
    }
}

/// The preview of a batch gc: a heading, then one line per repository, in
/// order.
pub open spec fn gc_preview_text(repos: Seq<Seq<char>>, aggressive: bool) -> Seq<char> {
    "=== 预演 (--dry-run) ===\n\n"@ + gc_preview_lines(repos, aggressive, repos.len())
}

/// The batch gc for the guard's `decision` over the repositories at
/// `repos`: under `--dry-run` a preview and no change, otherwise a run.
pub fn multi_gc_action(decision: SafetyDecision, repos: &Vec<String>, aggressive: bool) -> (r: GcAction)
    ensures
        decision == SafetyDecision::DryRun ==> (r matches GcAction::Preview(t) && t@ == gc_preview_text(
            repos@.map_values(|p: String| p@),
            aggressive,
        )),
        decision != SafetyDecision::DryRun ==> r is Run,
{
    if decision != SafetyDecision::DryRun {
        return GcAction::Run;
    }
    let ghost rv = repos@.map_values(|p: String| p@);
    let mut m = text::chars_of("=== 预演 (--dry-run) ===\n\n");
    let ghost head = m@;
    let mut i: usize = 0;
    while i < repos.len()
        invariant
            i <= repos@.len(),
            rv == repos@.map_values(|p: String| p@),
            head == "=== 预演 (--dry-run) ===\n\n"@,
            m@ == head + gc_preview_lines(rv, aggressive, i as nat),
        decreases repos.len() - i,
    {
        let ghost before = m@;
        text::append_str(&mut m, "将执行: git ");
        if aggressive {
            text::append_str(&mut m, "gc --aggressive");
        } else {
            text::append_str(&mut m, "gc");
        }
        text::append_str(&mut m, " (");
        text::append_str(&mut m, repos[i].as_str());
        text::append_str(&mut m, ")\n");
        proof {
            assert(rv[i as int] == repos@[i as int]@);
            assert(m@ =~= head + gc_preview_lines(rv, aggressive, (i + 1) as nat));
        }
        i = i + 1;
    }
    GcAction::Preview(text::string_of(&m))
}

} // verus!
