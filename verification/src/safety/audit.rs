//! The audit log: one record per operation.

use vstd::prelude::*;
use crate::text;

verus! {

/// One recorded operation.
#[derive(Debug, Clone)]
pub struct AuditEntry {
    pub id: String,
    pub timestamp: String,
    pub operation: String,
    pub repository: String,
    pub details: String,
    pub dry_run: bool,
    pub result: String,
}

/// Where the log is kept: one JSON record per line.
#[derive(Debug, Clone)]
pub struct AuditLog {
    pub path: String,
}

impl AuditEntry {
    /// The record of an operation, with its id and time stamp.
    pub fn new(
        id: String,
        timestamp: String,
        operation: &str,
        repository: &str,
        details: &str,
        dry_run: bool,
        result: &str,
    ) -> (r: AuditEntry)
        ensures
            r.id@ == id@,
            r.timestamp@ == timestamp@,
            r.operation@ == operation@,
            r.repository@ == repository@,
            r.details@ == details@,
            r.dry_run == dry_run,
            r.result@ == result@,
    {
        AuditEntry {
            id,
            timestamp,
            operation: text::string_of(&text::chars_of(operation)),
            repository: text::string_of(&text::chars_of(repository)),
            details: text::string_of(&text::chars_of(details)),
            dry_run,
            result: text::string_of(&text::chars_of(result)),
        }
    }
}

/// The lines of the log that hold a record: those that are not blank.
pub open spec fn record_lines_of(content: Seq<char>) -> Seq<Seq<char>> {
    nonblank(text::lines(content))
}

/// The lines that are not blank after trimming, in order.
pub open spec fn nonblank(ls: Seq<Seq<char>>) -> Seq<Seq<char>>
    decreases ls.len(),
{
    if ls.len() == 0 {
        ls
    } else {
        let prev = nonblank(ls.drop_last());
        if text::trim(ls.last()).len() > 0 {
            prev.push(ls.last())
        } else {
            prev
        }
    }
}

/// The non-blank lines of the log's content, in order; each is one
/// record's JSON text.
pub fn record_lines(content: &str) -> (r: Vec<String>)
    ensures
        r@.map_values(|s: String| s@) == record_lines_of(content@),
{
    let v = text::chars_of(content);
    let ls = text::lines_exec(&v);
    let ghost all = text::lines(content@);
    let mut out: Vec<String> = Vec::new();
    let mut i: usize = 0;
    while i < ls.len()
        invariant
            i <= ls@.len(),
            ls@.len() == all.len(),
            forall|k: int| 0 <= k < ls@.len() ==> (#[trigger] ls@[k])@ == all[k],
            all == text::lines(content@),
            out@.map_values(|s: String| s@) == nonblank(all.take(i as int)),
        decreases ls.len() - i,
    {
        proof {
            assert(all.take(i + 1).drop_last() =~= all.take(i as int));
        }
        let t = text::trim_chars(&ls[i]);
        if t.len() > 0 {
            let ghost before = out@;
            out.push(text::string_of(&ls[i]));
            assert(out@.map_values(|s: String| s@) =~= before.map_values(|s: String| s@).push(ls@[i as int]@));
        }
        i = i + 1;
    }
    assert(all.take(all.len() as int) =~= all);
    out
}

} // verus!
