//! The whitelist: branch name patterns that cleanup never deletes.

use vstd::prelude::*;
use crate::branch::cleanup::{self, string_views};
use crate::text;

verus! {

/// The protected branch name patterns.
#[derive(Debug, Clone)]
pub struct WhitelistConfig {
    pub protected: Vec<String>,
}

/// The patterns of a fresh whitelist.
pub open spec fn default_patterns() -> Seq<Seq<char>> {
    seq!["main"@, "master"@, "develop"@, "release/*"@, "hotfix/*"@]
}

impl Default for WhitelistConfig {
    fn default() -> (r: Self)
        ensures
            string_views(r.protected@) == default_patterns(),
    {
        let r = WhitelistConfig {
            protected: vec![
                text::string_of(&text::chars_of("main")),
                text::string_of(&text::chars_of("master")),
                text::string_of(&text::chars_of("develop")),
                text::string_of(&text::chars_of("release/*")),
                text::string_of(&text::chars_of("hotfix/*")),
            ],
        };
        assert(string_views(r.protected@) =~= default_patterns());
        r
    }
}

/// The list after adding `b`: unchanged when `b` is already there,
/// otherwise `b` appended.
pub open spec fn added(ws: Seq<Seq<char>>, b: Seq<char>) -> Seq<Seq<char>> {
    if ws.contains(b) {
        ws
    } else {
        ws.push(b)
    }
}

/// The list after removing `b`: every entry equal to `b` dropped, the
/// others kept in order.
pub open spec fn removed(ws: Seq<Seq<char>>, b: Seq<char>) -> Seq<Seq<char>>
    decreases ws.len(),
{
    if ws.len() == 0 {
        ws
    } else {
        let prev = removed(ws.drop_last(), b);
        if ws.last() == b {
            prev
        } else {
            prev.push(ws.last())
        }
    }
}

fn contains_string(v: &Vec<String>, s: &String) -> (r: bool)
    ensures
        r == string_views(v@).contains(s@),
{
    let sv = text::chars_of(s.as_str());
    let mut i: usize = 0;
    while i < v.len()
        invariant
            i <= v@.len(),
            sv@ == s@,
            forall|j: int| 0 <= j < i ==> v@[j]@ != s@,
        decreases v.len() - i,
    {
        let e = text::chars_of(v[i].as_str());
        if text::chars_eq(&e, &sv) {
            assert(string_views(v@)[i as int] == s@);
            return true;
        }
        i = i + 1;
    }
    assert forall|j: int| 0 <= j < string_views(v@).len() implies string_views(v@)[j] != s@ by {
        assert(string_views(v@)[j] == v@[j]@);
    }
    false
}

impl WhitelistConfig {
    /// Adds `branch` unless it is listed already.
    pub fn add(&mut self, branch: String)
        ensures
            string_views(final(self).protected@) == added(string_views(old(self).protected@), branch@),
    {
        if !contains_string(&self.protected, &branch) {
            let ghost before = self.protected@;
            self.protected.push(branch);
            proof {
                assert(string_views(self.protected@) =~= string_views(before).push(branch@));
            }
        }
    }

    /// Removes every entry equal to `branch`.
    pub fn remove(&mut self, branch: &str)
        ensures
            string_views(final(self).protected@) == removed(string_views(old(self).protected@), branch@),
    {
        let bv = text::chars_of(branch);
        let ghost old_views = string_views(self.protected@);
        let mut kept: Vec<String> = Vec::new();
        let mut i: usize = 0;
        while i < self.protected.len()
            invariant
                i <= self.protected@.len(),
                bv@ == branch@,
                old_views == string_views(self.protected@),
                string_views(kept@) == removed(old_views.take(i as int), branch@),
            decreases self.protected.len() - i,
        {
            let e = text::chars_of(self.protected[i].as_str());
            proof {
                assert(old_views.take(i + 1).drop_last() =~= old_views.take(i as int));
                assert(old_views.take(i + 1).last() == self.protected@[i as int]@);
            }
            if !text::chars_eq(&e, &bv) {
                let ghost before = kept@;
                kept.push(text::string_of(&e));
                proof {
                    assert(string_views(kept@) =~= string_views(before).push(e@));
                }
            }
            i = i + 1;
        }
        proof {
            assert(old_views.take(old_views.len() as int) =~= old_views);
        }
        self.protected = kept;
    }
}

// ---------------------------------------------------------------------------
// Laws
// ---------------------------------------------------------------------------

/// After adding a branch it is listed, and adding it again changes nothing.
pub proof fn lemma_add_lists_once(ws: Seq<Seq<char>>, b: Seq<char>)
    ensures
        added(ws, b).contains(b),
        added(added(ws, b), b) == added(ws, b),
        forall|x: Seq<char>| ws.contains(x) ==> added(ws, b).contains(x),
{
    if !ws.contains(b) {
        assert(ws.push(b)[ws.len() as int] == b);
        assert forall|x: Seq<char>| ws.contains(x) implies added(ws, b).contains(x) by {
            let i = choose|i: int| 0 <= i < ws.len() && ws[i] == x;
            assert(ws.push(b)[i] == x);
        }
    }
}

/// After removing a branch it is no longer listed, and every other entry
/// stays listed.
pub proof fn lemma_remove_unlists(ws: Seq<Seq<char>>, b: Seq<char>)
    ensures
        !removed(ws, b).contains(b),
        forall|x: Seq<char>|
            #![trigger removed(ws, b).contains(x)]
            #![trigger ws.contains(x)]
            x != b ==> (removed(ws, b).contains(x) <==> ws.contains(x)),
    decreases ws.len(),
{
    if ws.len() > 0 {
        let init = ws.drop_last();
        lemma_remove_unlists(init, b);
        let r = removed(ws, b);
        assert forall|x: Seq<char>| x != b implies (r.contains(x) <==> ws.contains(x)) by {
            if ws.contains(x) {
                let i = choose|i: int| 0 <= i < ws.len() && ws[i] == x;
                if i < ws.len() - 1 {
                    assert(init[i] == x);
                    assert(init.contains(x));
                    let k = choose|k: int| 0 <= k < removed(init, b).len() && removed(init, b)[k] == x;
                    if ws.last() != b {
                        assert(r[k] == x);
                    }
                } else {
                    assert(r[r.len() - 1] == x);
                }
            }
            if r.contains(x) {
                let k = choose|k: int| 0 <= k < r.len() && r[k] == x;
                if ws.last() != b && k == r.len() - 1 {
                    assert(ws[ws.len() - 1] == x);
                } else {
                    assert(removed(init, b)[k] == x);
                    assert(removed(init, b).contains(x));
                    let i = choose|i: int| 0 <= i < init.len() && init[i] == x;
                    assert(ws[i] == x);
                }
            }
        }
        if r.contains(b) {
            let k = choose|k: int| 0 <= k < r.len() && r[k] == b;
            if !(ws.last() != b && k == r.len() - 1) {
                assert(removed(init, b)[k] == b);
            }
        }
    }
}

/// Removing a branch undoes adding it: the list is what removing it from
/// the original list gives.
pub proof fn lemma_remove_undoes_add(ws: Seq<Seq<char>>, b: Seq<char>)
    ensures
        removed(added(ws, b), b) == removed(ws, b),
{
    if !ws.contains(b) {
        assert(ws.push(b).drop_last() =~= ws);
    }
}

/// A branch added to the whitelist is protected from cleanup.
pub proof fn lemma_added_branch_protected(ws: Seq<Seq<char>>, b: Seq<char>)
    ensures
        cleanup::protected(b, added(ws, b)),
{
    lemma_add_lists_once(ws, b);
    let i = choose|i: int| 0 <= i < added(ws, b).len() && added(ws, b)[i] == b;
    assert(cleanup::wildcard_matches(added(ws, b)[i], b));
}

} // verus!
