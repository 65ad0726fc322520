//! Merging the authors of several repositories.
//!
//! Authors are grouped by lowercased e-mail. A group keeps the name,
//! e-mail and other details of the first author seen, and its commits and
//! line counts are the sums over every author of the group, each counted
//! once.

use vstd::prelude::*;
use crate::order;
use crate::stats::engine::{AuthorStats, AuthorStatsView};
use crate::text;

verus! {

/// Sums of the merged figures.
pub struct MergeTally {
    pub commits: nat,
    pub added: nat,
    pub deleted: nat,
    pub code: nat,
}

pub open spec fn key_of(a: AuthorStats) -> Seq<char> {
    text::unicode_lower(a.email@)
}

/// The figures of the first `n` authors whose key is `k`, summed.
pub open spec fn key_tally(all: Seq<AuthorStats>, k: Seq<char>, n: nat) -> MergeTally
    decreases n,
{
    if n == 0 {
        MergeTally { commits: 0, added: 0, deleted: 0, code: 0 }
    } else {
        let p = key_tally(all, k, (n - 1) as nat);
        let a = all[n - 1];
        if key_of(a) == k {
            MergeTally {
                commits: p.commits + a.commits as nat,
                added: p.added + a.lines_added as nat,
                deleted: p.deleted + a.lines_deleted as nat,
                code: p.code + a.code_lines as nat,
            }
        } else {
            p
        }
    }
}

/// The index of the first of the first `n` authors with key `k`.
pub open spec fn first_with_key(all: Seq<AuthorStats>, k: Seq<char>, n: nat) -> Option<int>
    decreases n,
{
    if n == 0 {
        None
    } else {
        match first_with_key(all, k, (n - 1) as nat) {
            Some(q) => Some(q),
            None => if key_of(all[n - 1]) == k {
                Some(n - 1)
            } else {
                None
            },
        }
    }
}

/// The merged sums fit their integer types.
pub open spec fn merged_fits(t: MergeTally) -> bool {
    t.commits <= usize::MAX && t.added <= u64::MAX && t.deleted <= u64::MAX && t.code <= u64::MAX
}

/// First author `a0` with its figures replaced by the group's sums `t`.
pub open spec fn merged_view(a0: AuthorStats, t: MergeTally) -> AuthorStatsView {
    AuthorStatsView {
        commits: t.commits as usize,
        lines_added: t.added as u64,
        lines_deleted: t.deleted as u64,
        code_lines: t.code as u64,
        ..a0@
    }
}

/// The group of key `k` among the first `n` authors, merged.
pub open spec fn merged_group(all: Seq<AuthorStats>, k: Seq<char>, n: nat) -> Option<AuthorStatsView> {
    match first_with_key(all, k, n) {
        Some(q) => Some(merged_view(all[q], key_tally(all, k, n))),
        None => None,
    }
}

/// Every group's merged figures fit.
pub open spec fn merge_fits(all: Seq<AuthorStats>) -> bool {
    forall|q: int|
        0 <= q < all.len() ==> #[trigger] merged_fits(key_tally(all, key_of(all[q]), all.len() as nat))
}

// ---------------------------------------------------------------------------
// Facts
// ---------------------------------------------------------------------------

proof fn lemma_first_with_key(all: Seq<AuthorStats>, k: Seq<char>, n: nat)
    requires
        n <= all.len(),
    ensures
        first_with_key(all, k, n) matches Some(q) ==> 0 <= q < n && key_of(all[q]) == k,
        first_with_key(all, k, n) is None ==> forall|j: int| 0 <= j < n ==> key_of(#[trigger] all[j]) != k,
    decreases n,
{
    if n > 0 {
        lemma_first_with_key(all, k, (n - 1) as nat);
    }
}

proof fn lemma_first_stays(all: Seq<AuthorStats>, k: Seq<char>, m: nat, n: nat)
    requires
        m <= n,
        first_with_key(all, k, m) is Some,
    ensures
        first_with_key(all, k, n) == first_with_key(all, k, m),
    decreases n - m,
{
    if m < n {
        lemma_first_stays(all, k, m, (n - 1) as nat);
    }
}

proof fn lemma_key_tally_mono(all: Seq<AuthorStats>, k: Seq<char>, m: nat, n: nat)
    requires
        m <= n,
    ensures
        key_tally(all, k, m).commits <= key_tally(all, k, n).commits,
        key_tally(all, k, m).added <= key_tally(all, k, n).added,
        key_tally(all, k, m).deleted <= key_tally(all, k, n).deleted,
        key_tally(all, k, m).code <= key_tally(all, k, n).code,
    decreases n - m,
{
    if m < n {
        lemma_key_tally_mono(all, k, m, (n - 1) as nat);
    }
}

/// The sums are zero when no author among the first `n` has the key.
proof fn lemma_key_absent(all: Seq<AuthorStats>, k: Seq<char>, n: nat)
    requires
        n <= all.len(),
        forall|j: int| 0 <= j < n ==> key_of(#[trigger] all[j]) != k,
    ensures
        key_tally(all, k, n) == (MergeTally { commits: 0, added: 0, deleted: 0, code: 0 }),
    decreases n,
{
    if n > 0 {
        lemma_key_absent(all, k, (n - 1) as nat);
    }
}

// ---------------------------------------------------------------------------
// Merging
// ---------------------------------------------------------------------------

/// Merges authors by lowercased e-mail: one entry per group, the first
/// author of the group with the group's summed commits and line counts,
/// most commits first; `None` when some group's figures do not fit their
/// integer types.
pub fn merge_authors(all: &Vec<AuthorStats>) -> (r: Option<Vec<AuthorStats>>)
    ensures
        r is Some <==> merge_fits(all@),
        r matches Some(v) ==> {
            let n = all@.len() as nat;
            &&& forall|j: int|
                0 <= j < v@.len() ==> merged_group(all@, key_of(#[trigger] v@[j]), n) == Some(v@[j]@)
            &&& forall|a: int, b: int| 0 <= a < b < v@.len() ==> key_of(v@[a]) != key_of(v@[b])
            &&& forall|q: int|
                0 <= q < n ==> exists|j: int| 0 <= j < v@.len() && #[trigger] key_of(v@[j]) == key_of(#[trigger] all@[q])
            &&& forall|a: int, b: int| 0 <= a < b < v@.len() ==> v@[a].commits >= v@[b].commits
        },
{
    let ghost n = all@.len() as nat;
    let mut groups: Vec<AuthorStats> = Vec::new();
    let mut keys: Vec<Vec<char>> = Vec::new();
    let mut i: usize = 0;
    while i < all.len()
        invariant
            i <= all@.len(),
            n == all@.len(),
            groups@.len() == keys@.len(),
            forall|a: int| 0 <= a < keys@.len() ==> (#[trigger] keys@[a])@ == key_of(groups@[a]),
            forall|a: int, b: int| 0 <= a < b < keys@.len() ==> keys@[a]@ != keys@[b]@,
            forall|a: int|
                0 <= a < groups@.len() ==> merged_group(all@, (#[trigger] keys@[a])@, i as nat) == Some(
                    groups@[a]@,
                ),
            forall|a: int|
                0 <= a < groups@.len() ==> (#[trigger] first_with_key(all@, keys@[a]@, i as nat)) is Some
                    && merged_fits(key_tally(all@, keys@[a]@, i as nat)),
            forall|q: int|
                0 <= q < i ==> exists|a: int| 0 <= a < keys@.len() && #[trigger] keys@[a]@ == key_of(#[trigger] all@[q]),
        decreases all.len() - i,
    {
        let x = &all[i];
        let kv = text::unicode_lower_chars(&text::chars_of(x.email.as_str()));
        let ghost k = kv@;
        let mut p: usize = 0;
        while p < keys.len() && !text::chars_eq(&keys[p], &kv)
            invariant
                p <= keys@.len(),
                kv@ == k,
                forall|b: int| 0 <= b < p ==> keys@[b]@ != k,
            decreases keys.len() - p,
        {
            p = p + 1;
        }
        let ghost old_groups = groups@;
        let ghost old_keys = keys@;
        proof {
            lemma_first_with_key(all@, k, i as nat);
        }
        if p < keys.len() {
            // a known group: add the author's figures
            let ghost q = first_with_key(all@, k, i as nat)->0;
            proof {
                assert(first_with_key(all@, keys@[p as int]@, i as nat) matches Some(_));
                lemma_first_stays(all@, k, i as nat, (i + 1) as nat);
            }
            let g = &groups[p];
            let c = g.commits.checked_add(x.commits);
            let ad = g.lines_added.checked_add(x.lines_added);
            let de = g.lines_deleted.checked_add(x.lines_deleted);
            let co = g.code_lines.checked_add(x.code_lines);
            match (c, ad, de, co) {
                (Some(c), Some(ad), Some(de), Some(co)) => {
                    let mut ng = g.copy();
                    ng.commits = c;
                    ng.lines_added = ad;
                    ng.lines_deleted = de;
                    ng.code_lines = co;
                    groups.set(p, ng);
                },
                _ => {
                    proof {
                        lemma_key_tally_mono(all@, k, (i + 1) as nat, n);
                        assert(!merged_fits(key_tally(all@, key_of(all@[i as int]), n)));
                    }
                    return None;
                },
            }
            proof {
                assert forall|a: int|
                    0 <= a < groups@.len() implies merged_group(all@, (#[trigger] keys@[a])@, (i + 1) as nat)
                    == Some(groups@[a]@) && merged_fits(key_tally(all@, keys@[a]@, (i + 1) as nat)) by {
                    let ka = keys@[a]@;
                    assert(first_with_key(all@, ka, i as nat) matches Some(_));
                    lemma_first_stays(all@, ka, i as nat, (i + 1) as nat);
                    if a != p {
                        assert(groups@[a] == old_groups[a]);
                        assert(ka != k);
                    }
                }
                assert forall|q2: int|
                    0 <= q2 < i + 1 implies exists|a: int| 0 <= a < keys@.len() && #[trigger] keys@[a]@ == key_of(
                        #[trigger] all@[q2],
                    ) by {
                    if q2 == i {
                        assert(keys@[p as int]@ == key_of(all@[q2]));
                    }
                }
            }
        } else {
            // a new group: the author with its own figures
            proof {
                assert(first_with_key(all@, k, i as nat) is None);
                assert forall|j: int| 0 <= j < i implies key_of(#[trigger] all@[j]) != k by {
                    let a = choose|a: int| 0 <= a < keys@.len() && #[trigger] keys@[a]@ == key_of(all@[j]);
                }
                lemma_key_absent(all@, k, i as nat);
                assert(first_with_key(all@, k, (i + 1) as nat) == Some(i as int));
            }
            groups.push(x.copy());
            keys.push(kv);
            proof {
                assert forall|a: int|
                    0 <= a < groups@.len() implies merged_group(all@, (#[trigger] keys@[a])@, (i + 1) as nat)
                    == Some(groups@[a]@) && merged_fits(key_tally(all@, keys@[a]@, (i + 1) as nat)) by {
                    if a < old_keys.len() {
                        assert(keys@[a] == old_keys[a] && groups@[a] == old_groups[a]);
                        let ka = keys@[a]@;
                        assert(first_with_key(all@, ka, i as nat) matches Some(_));
                        lemma_first_stays(all@, ka, i as nat, (i + 1) as nat);
                        assert(ka != k);
                    } else {
                        assert(groups@[a]@ == all@[i as int]@);
                    }
                }
                assert forall|a: int, b: int| 0 <= a < b < keys@.len() implies keys@[a]@ != keys@[b]@ by {
                    if b == old_keys.len() {
                        assert(keys@[a] == old_keys[a]);
                    } else {
                        assert(keys@[a] == old_keys[a] && keys@[b] == old_keys[b]);
                    }
                }
                assert forall|a: int| 0 <= a < keys@.len() implies (#[trigger] keys@[a])@ == key_of(groups@[a]) by {
                    if a < old_keys.len() {
                        assert(keys@[a] == old_keys[a] && groups@[a] == old_groups[a]);
                    }
                }
                assert forall|q2: int|
                    0 <= q2 < i + 1 implies exists|a: int| 0 <= a < keys@.len() && #[trigger] keys@[a]@ == key_of(
                        #[trigger] all@[q2],
                    ) by {
                    if q2 == i {
                        assert(keys@[old_keys.len() as int]@ == key_of(all@[q2]));
                    } else {
                        let a = choose|a: int| 0 <= a < old_keys.len() && #[trigger] old_keys[a]@ == key_of(all@[q2]);
                        assert(keys@[a] == old_keys[a]);
                    }
                }
            }
        }
        i = i + 1;
    }
    proof {
        assert forall|q: int| 0 <= q < all@.len() implies #[trigger] merged_fits(
            key_tally(all@, key_of(all@[q]), n),
        ) by {
            let a = choose|a: int| 0 <= a < keys@.len() && #[trigger] keys@[a]@ == key_of(all@[q]);
            assert(merged_fits(key_tally(all@, keys@[a]@, n)));
        }
    }
    // most commits first
    let mut counts: Vec<i128> = Vec::new();
    let mut c: usize = 0;
    while c < groups.len()
        invariant
            c <= groups@.len(),
            counts@.len() == c,
            forall|j: int| 0 <= j < c ==> #[trigger] counts@[j] == groups@[j].commits as i128,
        decreases groups.len() - c,
    {
        counts.push(groups[c].commits as i128);
        c = c + 1;
    }
    let ghost ks = counts@.map_values(|k: i128| k as int);
    let ord = order::stable_desc_order(&counts);
    proof {
        assert forall|j: int| 0 <= j < groups@.len() implies #[trigger] ks[j] == groups@[j].commits by {
            assert(counts@[j] == groups@[j].commits as i128);
        }
    }
    let mut sorted: Vec<AuthorStats> = Vec::new();
    let mut j: usize = 0;
    while j < ord.len()
        invariant
            j <= ord@.len(),
            ord@.len() == groups@.len(),
            order::is_stable_desc(ks, ord@),
            ks.len() == groups@.len(),
            forall|q: int| 0 <= q < groups@.len() ==> #[trigger] ks[q] == groups@[q].commits,
            sorted@.len() == j,
            forall|q: int| 0 <= q < j ==> (#[trigger] sorted@[q])@ == groups@[ord@[q] as int]@,
        decreases ord.len() - j,
    {
        let k = ord[j];
        assert(ord@[j as int] < groups@.len());
        sorted.push(groups[k].copy());
        j = j + 1;
    }
    proof {
        let sv = sorted@;
        assert forall|q: int| 0 <= q < sv.len() implies key_of(#[trigger] sv[q]) == keys@[ord@[q] as int]@ by {
            assert(sv[q]@ == groups@[ord@[q] as int]@);
        }
        assert forall|q: int| 0 <= q < sv.len() implies merged_group(all@, key_of(#[trigger] sv[q]), n)
            == Some(sv[q]@) by {
            assert(key_of(sv[q]) == keys@[ord@[q] as int]@);
        }
        assert forall|a: int, b: int| 0 <= a < b < sv.len() implies key_of(sv[a]) != key_of(sv[b]) by {
            assert(key_of(sv[a]) == keys@[ord@[a] as int]@);
            assert(key_of(sv[b]) == keys@[ord@[b] as int]@);
        }
        assert forall|q: int| 0 <= q < n implies exists|jj: int|
            0 <= jj < sv.len() && #[trigger] key_of(sv[jj]) == key_of(#[trigger] all@[q]) by {
            let a = choose|a: int| 0 <= a < keys@.len() && #[trigger] keys@[a]@ == key_of(all@[q]);
            assert(order::lists_index(ord@, a));
            let jj = choose|jj: int| 0 <= jj < ord@.len() && #[trigger] ord@[jj] == a;
            assert(key_of(sv[jj]) == keys@[ord@[jj] as int]@);
        }
        assert forall|a: int, b: int| 0 <= a < b < sv.len() implies sv[a].commits >= sv[b].commits by {
            assert(sv[a]@ == groups@[ord@[a] as int]@);
            assert(sv[b]@ == groups@[ord@[b] as int]@);
            assert(ks[ord@[a] as int] >= ks[ord@[b] as int]);
        }
    }
    Some(sorted)
}

} // verus!
