//! Looking up and listing audit records.

use vstd::prelude::*;
use crate::safety::audit::AuditEntry;
use crate::text::{self, byte_len};

verus! {

/// Index of the first entry whose id starts with `id`, among the first
/// `n`; `None` when there is none.
pub open spec fn first_match(es: Seq<AuditEntry>, id: Seq<char>, n: nat) -> Option<int>
    decreases n,
{
    if n == 0 {
        None
    } else {
        match first_match(es, id, (n - 1) as nat) {
            Some(i) => Some(i),
            None => if text::starts_with(es[n - 1].id@, id) {
                Some(n - 1)
            } else {
                None
            },
        }
    }
}

pub proof fn lemma_first_match(es: Seq<AuditEntry>, id: Seq<char>, n: nat)
    requires
        n <= es.len(),
    ensures
        first_match(es, id, n) matches Some(i) ==> 0 <= i < n && text::starts_with(es[i].id@, id)
            && forall|k: int| 0 <= k < i ==> !text::starts_with(#[trigger] es[k].id@, id),
        first_match(es, id, n) is None ==> forall|k: int|
            0 <= k < n ==> !text::starts_with(#[trigger] es[k].id@, id),
    decreases n,
{
    if n > 0 {
        lemma_first_match(es, id, (n - 1) as nat);
    }
}

/// The first entry whose id starts with `id` (ids may be abbreviated).
pub fn find_entry(entries: &Vec<AuditEntry>, id: &str) -> (r: Option<AuditEntry>)
    ensures
        match first_match(entries@, id@, entries@.len() as nat) {
            Some(i) => r matches Some(e) && e.id@ == entries@[i].id@ && e.timestamp@
                == entries@[i].timestamp@ && e.operation@ == entries@[i].operation@ && e.repository@
                == entries@[i].repository@ && e.details@ == entries@[i].details@ && e.dry_run
                == entries@[i].dry_run && e.result@ == entries@[i].result@,
            None => r is None,
        },
{
    let iv = text::chars_of(id);
    let mut i: usize = 0;
    while i < entries.len()
        invariant
            i <= entries@.len(),
            iv@ == id@,
            first_match(entries@, id@, i as nat) is None,
        decreases entries.len() - i,
    {
        let ev = text::chars_of(entries[i].id.as_str());
        if text::starts_with_exec(&ev, &iv) {
            proof {
                assert(first_match(entries@, id@, (i + 1) as nat) == Some(i as int));
                lemma_first_after(entries@, id@, (i + 1) as nat, entries@.len() as nat);
            }
            let e = &entries[i];
            return Some(
                AuditEntry {
                    id: text::string_of(&ev),
                    timestamp: text::string_of(&text::chars_of(e.timestamp.as_str())),
                    operation: text::string_of(&text::chars_of(e.operation.as_str())),
                    repository: text::string_of(&text::chars_of(e.repository.as_str())),
                    details: text::string_of(&text::chars_of(e.details.as_str())),
                    dry_run: e.dry_run,
                    result: text::string_of(&text::chars_of(e.result.as_str())),
                },
            );
        }
        i = i + 1;
    }
    None
}

proof fn lemma_first_after(es: Seq<AuditEntry>, id: Seq<char>, m: nat, n: nat)
    requires
        m <= n,
        first_match(es, id, m) is Some,
    ensures
        first_match(es, id, n) == first_match(es, id, m),
    decreases n - m,
{
    if m < n {
        lemma_first_after(es, id, m, (n - 1) as nat);
    }
}

/// The first 19 bytes of a time stamp (all of it when shorter).
pub open spec fn stamp_head(ts: Seq<char>) -> Seq<char> {
    if byte_len(ts) <= 19 {
        ts
    } else {
        ts.take(text::boundary_index(ts, 19))
    }
}

/// The time stamp can be cut at byte 19 when it is longer.
pub open spec fn stamp_cuttable(ts: Seq<char>) -> bool {
    byte_len(ts) > 19 ==> text::is_boundary(ts, 19)
}

pub open spec fn audit_line(e: AuditEntry) -> Seq<char> {
    stamp_head(e.timestamp@) + " | "@ + (if e.dry_run {
        "🔍 DRY-RUN"@
    } else {
        "⚡ EXECUTED"@
    }) + " | "@ + e.operation@ + " | "@ + e.repository@ + " | "@ + e.result@ + seq!['\n']
}

pub open spec fn audit_lines(es: Seq<AuditEntry>, n: nat) -> Seq<char>
    decreases n,
{
    if n == 0 {
        Seq::<char>::empty()
    } else {
        audit_lines(es, (n - 1) as nat) + audit_line(es[n - 1])
    }
}

pub open spec fn audit_log_text(es: Seq<AuditEntry>) -> Seq<char> {
    if es.len() == 0 {
        "暂无操作记录。\n"@
    } else {
        "=== 操作审计日志 ===\n\n"@ + audit_lines(es, es.len())
    }
}

/// Every time stamp can be cut at byte 19.
pub open spec fn stamps_cuttable(es: Seq<AuditEntry>) -> bool {
    forall|i: int| 0 <= i < es.len() ==> stamp_cuttable(#[trigger] es[i].timestamp@)
}

fn stamp_head_exec(ts: &str) -> (r: Vec<char>)
    requires
        stamp_cuttable(ts@),
    ensures
        r@ == stamp_head(ts@),
{
    let v = text::chars_of(ts);
    if text::byte_len_exec(&v) <= 19 {
        return v;
    }
    match text::char_index_of_byte(&v, 19) {
        Some(j) => {
            proof {
                let k = text::boundary_index(ts@, 19);
                assert(text::boundary_at(ts@, 19, k));
                text::lemma_boundary_unique(ts@, 19, j as int, k);
            }
            let r = text::slice_chars(&v, 0, j);
            assert(r@ =~= ts@.take(j as int));
            r
        },
        None => {
            proof {
                assert(false);
            }
            v
        },
    }
}

/// Whether `stamps_cuttable` holds.
pub fn stamps_cuttable_exec(entries: &Vec<AuditEntry>) -> (r: bool)
    ensures
        r == stamps_cuttable(entries@),
{
    let mut i: usize = 0;
    while i < entries.len()
        invariant
            i <= entries@.len(),
            forall|k: int| 0 <= k < i ==> stamp_cuttable(#[trigger] entries@[k].timestamp@),
        decreases entries.len() - i,
    {
        let v = text::chars_of(entries[i].timestamp.as_str());
        if text::byte_len_exec(&v) > 19 && text::char_index_of_byte(&v, 19).is_none() {
            return false;
        }
        i = i + 1;
    }
    true
}

/// The listing of the audit log: one line per record with its time, mode,
/// operation, repository and result.
pub fn format_audit_log(entries: &Vec<AuditEntry>) -> (r: String)
    requires
        stamps_cuttable(entries@),
    ensures
        r@ == audit_log_text(entries@),
{
    if entries.len() == 0 {
        return text::string_of(&text::chars_of("暂无操作记录。\n"));
    }
    let mut out = text::chars_of("=== 操作审计日志 ===\n\n");
    let ghost head = out@;
    let mut i: usize = 0;
    while i < entries.len()
        invariant
            i <= entries@.len(),
            stamps_cuttable(entries@),
            out@ == head + audit_lines(entries@, i as nat),
        decreases entries.len() - i,
    {
        let e = &entries[i];
        assert(stamp_cuttable(entries@[i as int].timestamp@));
        let mut line = stamp_head_exec(e.timestamp.as_str());
        text::append_str(&mut line, " | ");
        if e.dry_run {
            text::append_str(&mut line, "🔍 DRY-RUN");
        } else {
            text::append_str(&mut line, "⚡ EXECUTED");
        }
        text::append_str(&mut line, " | ");
        text::append_str(&mut line, e.operation.as_str());
        text::append_str(&mut line, " | ");
        text::append_str(&mut line, e.repository.as_str());
        text::append_str(&mut line, " | ");
        text::append_str(&mut line, e.result.as_str());
        line.push('\n');
        assert(line@ =~= audit_line(*e));
        text::append_chars(&mut out, &line);
        i = i + 1;
    }
    text::string_of(&out)
}

} // verus!
