//! Stable orderings: the permutations that a stable sort applies.

use vstd::prelude::*;
use crate::text;

verus! {

/// `ord` lists every index of a sequence of length `n` exactly once.
pub open spec fn is_permutation_of_indices(ord: Seq<usize>, n: nat) -> bool {
    &&& ord.len() == n
    &&& forall|i: int| 0 <= i < ord.len() ==> #[trigger] ord[i] < n
    &&& forall|i: int, j: int| 0 <= i < j < ord.len() ==> ord[i] != ord[j]
    &&& forall|k: int| 0 <= k < n ==> #[trigger] lists_index(ord, k)
}

/// Index `k` occurs in `ord`.
pub open spec fn lists_index(ord: Seq<usize>, k: int) -> bool {
    exists|i: int| 0 <= i < ord.len() && #[trigger] ord[i] == k
}

/// `ord` is the order in which a stable sort by descending `keys` lists
/// the indices: larger keys first, equal keys in their original order.
pub open spec fn is_stable_desc(keys: Seq<int>, ord: Seq<usize>) -> bool {
    &&& is_permutation_of_indices(ord, keys.len())
    &&& forall|i: int, j: int|
        #![trigger ord[i], ord[j]]
        0 <= i < j < ord.len() ==> keys[ord[i] as int] > keys[ord[j] as int] || (keys[ord[i] as int]
            == keys[ord[j] as int] && ord[i] < ord[j])
}

/// `ord` is the order in which a stable sort by ascending text `keys`
/// lists the indices.
pub open spec fn is_stable_text_asc(keys: Seq<Seq<char>>, ord: Seq<usize>) -> bool {
    &&& is_permutation_of_indices(ord, keys.len())
    &&& forall|i: int, j: int|
        #![trigger ord[i], ord[j]]
        0 <= i < j < ord.len() ==> text::lex_lt(keys[ord[i] as int], keys[ord[j] as int]) || (
        keys[ord[i] as int] == keys[ord[j] as int] && ord[i] < ord[j])
}

proof fn lemma_insert_perm(ord: Seq<usize>, n: nat, p: int)
    requires
        is_permutation_of_indices(ord, n),
        0 <= p <= ord.len(),
        n <= usize::MAX,
    ensures
        is_permutation_of_indices(ord.insert(p, n as usize), n + 1),
{
    let o2 = ord.insert(p, n as usize);
    assert(o2[p] == n);
    assert forall|i: int| 0 <= i < o2.len() implies #[trigger] o2[i] < n + 1 by {
        if i > p {
            assert(o2[i] == ord[i - 1]);
        }
    }
    assert forall|i: int, j: int| 0 <= i < j < o2.len() implies o2[i] != o2[j] by {
        if i < p {
            if j < p {
            } else if j == p {
            } else {
                assert(o2[j] == ord[j - 1]);
            }
        } else if i == p {
            assert(o2[j] == ord[j - 1]);
        } else {
            assert(o2[i] == ord[i - 1]);
            assert(o2[j] == ord[j - 1]);
        }
    }
    assert forall|k: int| 0 <= k < n + 1 implies #[trigger] lists_index(o2, k) by {
        if k == n {
            assert(o2[p] == k);
        } else {
            assert(lists_index(ord, k));
            let i = choose|i: int| 0 <= i < ord.len() && #[trigger] ord[i] == k;
            if i < p {
                assert(o2[i] == k);
            } else {
                assert(o2[i + 1] == k);
            }
        }
    }
}

/// The stable descending order of `keys`.
pub fn stable_desc_order(keys: &Vec<i128>) -> (ord: Vec<usize>)
    ensures
        is_stable_desc(keys@.map_values(|k: i128| k as int), ord@),
{
    let ghost ks = keys@.map_values(|k: i128| k as int);
    let mut ord: Vec<usize> = Vec::new();
    let mut i: usize = 0;
    while i < keys.len()
        invariant
            i <= keys.len(),
            ks == keys@.map_values(|k: i128| k as int),
            ks.len() == keys@.len(),
            forall|j: int| 0 <= j < keys@.len() ==> #[trigger] ks[j] == keys@[j] as int,
            is_stable_desc(ks.take(i as int), ord@),
        decreases keys.len() - i,
    {
        let key = keys[i];
        let mut p: usize = 0;
        while p < ord.len() && keys[ord[p]] >= key
            invariant
                p <= ord@.len(),
                ord@.len() == i,
                i < keys@.len(),
                ks.len() == keys@.len(),
                forall|j: int| 0 <= j < keys@.len() ==> #[trigger] ks[j] == keys@[j] as int,
                is_stable_desc(ks.take(i as int), ord@),
                forall|q: int| 0 <= q < p ==> ks[ord@[q] as int] >= key,
            decreases ord.len() - p,
        {
            assert(ord@[p as int] < i);
            p = p + 1;
        }
        let ghost old_ord = ord@;
        proof {
            lemma_insert_perm(old_ord, i as nat, p as int);
        }
        ord.insert(p, i);
        proof {
            let t = ks.take(i + 1);
            assert forall|a: int| 0 <= a < old_ord.len() implies ks.take(i as int)[old_ord[a] as int]
                == #[trigger] t[old_ord[a] as int] by {
            }
            assert forall|a: int, b: int|
                #![trigger ord@[a], ord@[b]]
                0 <= a < b < ord@.len() implies t[ord@[a] as int] > t[ord@[b] as int] || (t[ord@[a] as int]
                == t[ord@[b] as int] && ord@[a] < ord@[b]) by {
                if b < p {
                    assert(ord@[a] == old_ord[a] && ord@[b] == old_ord[b]);
                } else if b == p {
                    assert(ord@[a] == old_ord[a]);
                } else if a < p {
                    assert(ord@[a] == old_ord[a] && ord@[b] == old_ord[b - 1]);
                } else if a == p {
                    assert(ord@[b] == old_ord[b - 1]);
                    assert(old_ord[p as int] == ord@[p as int + 1]);
                    if b - 1 > p {
                        assert(ks[old_ord[p as int] as int] >= ks[old_ord[b - 1] as int]);
                    }
                } else {
                    assert(ord@[a] == old_ord[a - 1] && ord@[b] == old_ord[b - 1]);
                }
            }
        }
        i = i + 1;
    }
    assert(ks.take(keys@.len() as int) =~= ks);
    ord
}

/// `lex_lt` is irreflexive.
pub proof fn lemma_lex_irreflexive(a: Seq<char>)
    ensures
        !text::lex_lt(a, a),
    decreases a.len(),
{
    if a.len() > 0 {
        lemma_lex_irreflexive(a.drop_first());
    }
}

/// `lex_lt` is a strict total order.
pub proof fn lemma_lex_trichotomy(a: Seq<char>, b: Seq<char>)
    ensures
        text::lex_lt(a, b) || text::lex_lt(b, a) || a == b,
        !(text::lex_lt(a, b) && text::lex_lt(b, a)),
    decreases a.len(),
{
    if a.len() == 0 && b.len() == 0 {
        assert(a =~= b);
    } else if a.len() > 0 && b.len() > 0 {
        if a[0] != b[0] {
            vstd::utf8::char_u32_cast(a[0], a[0] as u32);
            vstd::utf8::char_u32_cast(b[0], b[0] as u32);
        } else {
            lemma_lex_trichotomy(a.drop_first(), b.drop_first());
            if a.drop_first() == b.drop_first() {
                assert(a =~= seq![a[0]] + a.drop_first());
                assert(b =~= seq![b[0]] + b.drop_first());
            }
        }
    }
}

pub proof fn lemma_lex_transitive(a: Seq<char>, b: Seq<char>, c: Seq<char>)
    requires
        text::lex_lt(a, b),
        text::lex_lt(b, c),
    ensures
        text::lex_lt(a, c),
    decreases a.len(),
{
    if a.len() > 0 && b.len() > 0 && c.len() > 0 && a[0] == b[0] && b[0] == c[0] {
        lemma_lex_transitive(a.drop_first(), b.drop_first(), c.drop_first());
    }
}

/// The stable ascending order of text `keys`.
pub fn stable_text_order(keys: &Vec<Vec<char>>) -> (ord: Vec<usize>)
    ensures
        is_stable_text_asc(keys@.map_values(|k: Vec<char>| k@), ord@),
{
    let ghost ks = keys@.map_values(|k: Vec<char>| k@);
    let mut ord: Vec<usize> = Vec::new();
    let mut i: usize = 0;
    while i < keys.len()
        invariant
            i <= keys.len(),
            ks == keys@.map_values(|k: Vec<char>| k@),
            ks.len() == keys@.len(),
            forall|j: int| 0 <= j < keys@.len() ==> #[trigger] ks[j] == keys@[j]@,
            is_stable_text_asc(ks.take(i as int), ord@),
        decreases keys.len() - i,
    {
        let mut p: usize = 0;
        while p < ord.len() && !text::lex_lt_exec(&keys[i], &keys[ord[p]])
            invariant
                p <= ord@.len(),
                ord@.len() == i,
                i < keys@.len(),
                ks.len() == keys@.len(),
                forall|j: int| 0 <= j < keys@.len() ==> #[trigger] ks[j] == keys@[j]@,
                is_stable_text_asc(ks.take(i as int), ord@),
                forall|q: int| 0 <= q < p ==> !text::lex_lt(ks[i as int], #[trigger] ks[ord@[q] as int]),
            decreases ord.len() - p,
        {
            assert(ord@[p as int] < i);
            assert(ks[ord@[p as int] as int] == keys@[ord@[p as int] as int]@);
            p = p + 1;
        }
        let ghost old_ord = ord@;
        proof {
            lemma_insert_perm(old_ord, i as nat, p as int);
            if p < ord@.len() {
                assert(ks[ord@[p as int] as int] == keys@[ord@[p as int] as int]@);
            }
        }
        ord.insert(p, i);
        proof {
            let t = ks.take(i + 1);
            let ki = ks[i as int];
            assert forall|a: int, b: int|
                #![trigger ord@[a], ord@[b]]
                0 <= a < b < ord@.len() implies text::lex_lt(t[ord@[a] as int], t[ord@[b] as int]) || (
                t[ord@[a] as int] == t[ord@[b] as int] && ord@[a] < ord@[b]) by {
                if b < p {
                    assert(ord@[a] == old_ord[a] && ord@[b] == old_ord[b]);
                } else if b == p {
                    assert(ord@[a] == old_ord[a]);
                    let ka = ks[old_ord[a] as int];
                    lemma_lex_trichotomy(ki, ka);
                    assert(old_ord[a] < i);
                } else if a < p {
                    assert(ord@[a] == old_ord[a] && ord@[b] == old_ord[b - 1]);
                } else if a == p {
                    assert(ord@[b] == old_ord[b - 1]);
                    let kp = ks[old_ord[p as int] as int];
                    let kb = ks[old_ord[b - 1] as int];
                    if b - 1 > p {
                        assert(text::lex_lt(kp, kb) || kp == kb);
                        if text::lex_lt(kp, kb) {
                            lemma_lex_transitive(ki, kp, kb);
                        }
                    }
                } else {
                    assert(ord@[a] == old_ord[a - 1] && ord@[b] == old_ord[b - 1]);
                }
            }
        }
        i = i + 1;
    }
    assert(ks.take(keys@.len() as int) =~= ks);
    ord
}

} // verus!
