//! Character-level text utilities used by every parser and formatter.
//!
//! Strings are processed as `Vec<char>`; the specifications speak of the
//! `Seq<char>` view of a `String`, which is its sequence of Unicode scalars.

use vstd::prelude::*;

verus! {

broadcast use vstd::string::group_string_axioms;

// ---------------------------------------------------------------------------
// Conversions between `str`/`String` and character vectors
// ---------------------------------------------------------------------------

/// Appends one character to a `String` (std `String::push`).
#[verifier::external_body]
fn string_push(s: &mut String, c: char)
    ensures
        final(s)@ == old(s)@.push(c),
{
    s.push(c);
}

/// The characters of a string slice, in order.
pub fn chars_of(s: &str) -> (v: Vec<char>)
    ensures
        v@ == s@,
{
    let mut v: Vec<char> = Vec::new();
    for c in it: s.chars()
        invariant
            v@ == it.seq().take(it.index() as int),
    {
        v.push(c);
    }
    v
}

/// Builds a `String` holding exactly the given characters.
pub fn string_of(v: &Vec<char>) -> (s: String)
    ensures
        s@ == v@,
{
    let mut s = String::new();
    let mut i: usize = 0;
    while i < v.len()
        invariant
            i <= v.len(),
            s@ == v@.take(i as int),
        decreases v.len() - i,
    {
        string_push(&mut s, v[i]);
        i = i + 1;
    }
    assert(v@.take(v@.len() as int) == v@);
    s
}

/// A copy of `v[from..to]`.
pub fn slice_chars(v: &Vec<char>, from: usize, to: usize) -> (r: Vec<char>)
    requires
        from <= to <= v.len(),
    ensures
        r@ == v@.subrange(from as int, to as int),
{
    let mut r: Vec<char> = Vec::new();
    let mut i = from;
    while i < to
        invariant
            from <= i <= to <= v.len(),
            r@ == v@.subrange(from as int, i as int),
        decreases to - i,
    {
        r.push(v[i]);
        i = i + 1;
    }
    r
}

/// Appends the characters of `src` to `dst`.
pub fn append_chars(dst: &mut Vec<char>, src: &Vec<char>)
    ensures
        final(dst)@ == old(dst)@ + src@,
{
    let mut i: usize = 0;
    while i < src.len()
        invariant
            i <= src.len(),
            dst@ == old(dst)@ + src@.take(i as int),
        decreases src.len() - i,
    {
        dst.push(src[i]);
        i = i + 1;
    }
    assert(src@.take(src@.len() as int) == src@);
}

/// Appends the characters of a string slice to `dst`.
pub fn append_str(dst: &mut Vec<char>, s: &str)
    ensures
        final(dst)@ == old(dst)@ + s@,
{
    let v = chars_of(s);
    append_chars(dst, &v);
}

/// Character-wise equality of two vectors.
pub fn chars_eq(a: &Vec<char>, b: &Vec<char>) -> (r: bool)
    ensures
        r == (a@ == b@),
{
    if a.len() != b.len() {
        return false;
    }
    let mut i: usize = 0;
    while i < a.len()
        invariant
            a.len() == b.len(),
            i <= a.len(),
            forall|j: int| 0 <= j < i ==> a@[j] == b@[j],
        decreases a.len() - i,
    {
        if a[i] != b[i] {
            return false;
        }
        i = i + 1;
    }
    assert(a@ =~= b@);
    true
}

// ---------------------------------------------------------------------------
// Whitespace and trimming
// ---------------------------------------------------------------------------

/// Unicode `White_Space`, the set that `char::is_whitespace` tests.
pub open spec fn is_ws(c: char) -> bool {
    let u = c as u32;
    ||| (9 <= u && u <= 13)
    ||| u == 32
    ||| u == 0x85
    ||| u == 0xA0
    ||| u == 0x1680
    ||| (0x2000 <= u && u <= 0x200A)
    ||| u == 0x2028
    ||| u == 0x2029
    ||| u == 0x202F
    ||| u == 0x205F
    ||| u == 0x3000
}

pub fn is_ws_exec(c: char) -> (r: bool)
    ensures
        r == is_ws(c),
{
    let u = c as u32;
    (9 <= u && u <= 13) || u == 32 || u == 0x85 || u == 0xA0 || u == 0x1680 || (0x2000 <= u
        && u <= 0x200A) || u == 0x2028 || u == 0x2029 || u == 0x202F || u == 0x205F || u
        == 0x3000
}

/// `s` without its leading whitespace.
pub open spec fn trim_start(s: Seq<char>) -> Seq<char>
    decreases s.len(),
{
    if s.len() > 0 && is_ws(s[0]) {
        trim_start(s.drop_first())
    } else {
        s
    }
}

/// `s` without its trailing whitespace.
pub open spec fn trim_end(s: Seq<char>) -> Seq<char>
    decreases s.len(),
{
    if s.len() > 0 && is_ws(s.last()) {
        trim_end(s.drop_last())
    } else {
        s
    }
}

/// `s` without leading and trailing whitespace (`str::trim`).
pub open spec fn trim(s: Seq<char>) -> Seq<char> {
    trim_end(trim_start(s))
}

proof fn lemma_trim_start_skip(s: Seq<char>, a: int)
    requires
        0 <= a <= s.len(),
        forall|j: int| 0 <= j < a ==> is_ws(#[trigger] s[j]),
        a == s.len() || !is_ws(s[a]),
    ensures
        trim_start(s) == s.skip(a),
    decreases a,
{
    if a == 0 {
        assert(s.skip(0) =~= s);
    } else {
        let t = s.drop_first();
        assert forall|j: int| 0 <= j < a - 1 implies is_ws(#[trigger] t[j]) by {
            assert(t[j] == s[j + 1]);
        }
        lemma_trim_start_skip(t, a - 1);
        assert(t.skip(a - 1) =~= s.skip(a));
    }
}

proof fn lemma_trim_end_take(s: Seq<char>, b: int)
    requires
        0 <= b <= s.len(),
        forall|j: int| b <= j < s.len() ==> is_ws(#[trigger] s[j]),
        b == 0 || !is_ws(s[b - 1]),
    ensures
        trim_end(s) == s.take(b),
    decreases s.len() - b,
{
    if b == s.len() {
        assert(s.take(b) =~= s);
    } else {
        let t = s.drop_last();
        assert forall|j: int| b <= j < t.len() implies is_ws(#[trigger] t[j]) by {
            assert(t[j] == s[j]);
        }
        lemma_trim_end_take(t, b);
        assert(t.take(b) =~= s.take(b));
    }
}

/// `str::trim` on a character vector.
pub fn trim_chars(v: &Vec<char>) -> (r: Vec<char>)
    ensures
        r@ == trim(v@),
{
    let mut a: usize = 0;
    while a < v.len() && is_ws_exec(v[a])
        invariant
            a <= v.len(),
            forall|j: int| 0 <= j < a ==> is_ws(#[trigger] v@[j]),
        decreases v.len() - a,
    {
        a = a + 1;
    }
    proof {
        lemma_trim_start_skip(v@, a as int);
    }
    let mut b: usize = v.len();
    while b > a && is_ws_exec(v[b - 1])
        invariant
            a <= b <= v.len(),
            forall|j: int| b <= j < v.len() ==> is_ws(#[trigger] v@[j]),
        decreases b - a,
    {
        b = b - 1;
    }
    proof {
        let t = v@.skip(a as int);
        assert forall|j: int| b - a <= j < t.len() implies is_ws(#[trigger] t[j]) by {
            assert(t[j] == v@[j + a]);
        }
        if b > a {
            assert(t[b - a - 1] == v@[b - 1]);
        }
        lemma_trim_end_take(t, b - a);
        assert(t.take(b - a) =~= v@.subrange(a as int, b as int));
    }
    slice_chars(v, a, b)
}

// ---------------------------------------------------------------------------
// Prefixes, suffixes and substrings
// ---------------------------------------------------------------------------

pub open spec fn starts_with(s: Seq<char>, p: Seq<char>) -> bool {
    p.len() <= s.len() && s.take(p.len() as int) == p
}

pub open spec fn ends_with(s: Seq<char>, p: Seq<char>) -> bool {
    p.len() <= s.len() && s.skip(s.len() - p.len()) == p
}

/// `p` occurs in `s` starting at index `i`.
pub open spec fn occurs_at(s: Seq<char>, p: Seq<char>, i: int) -> bool {
    0 <= i && i + p.len() <= s.len() && s.subrange(i, i + p.len()) == p
}

pub open spec fn contains_sub(s: Seq<char>, p: Seq<char>) -> bool {
    exists|i: int| occurs_at(s, p, i)
}

pub fn occurs_at_exec(s: &Vec<char>, p: &Vec<char>, i: usize) -> (r: bool)
    ensures
        r == occurs_at(s@, p@, i as int),
{
    if i > s.len() || p.len() > s.len() - i {
        return false;
    }
    let mut k: usize = 0;
    while k < p.len()
        invariant
            i + p.len() <= s.len(),
            k <= p.len(),
            forall|j: int| 0 <= j < k ==> s@[i + j] == p@[j],
        decreases p.len() - k,
    {
        if s[i + k] != p[k] {
            assert(s@.subrange(i as int, i + p.len())[k as int] != p@[k as int]);
            return false;
        }
        k = k + 1;
    }
    assert(s@.subrange(i as int, i + p.len()) =~= p@);
    true
}

pub fn starts_with_exec(s: &Vec<char>, p: &Vec<char>) -> (r: bool)
    ensures
        r == starts_with(s@, p@),
{
    let r = occurs_at_exec(s, p, 0);
    proof {
        if p@.len() <= s@.len() {
            assert(s@.subrange(0, p@.len() as int) =~= s@.take(p@.len() as int));
        }
    }
    r
}

pub fn ends_with_exec(s: &Vec<char>, p: &Vec<char>) -> (r: bool)
    ensures
        r == ends_with(s@, p@),
{
    if p.len() > s.len() {
        return false;
    }
    let r = occurs_at_exec(s, p, s.len() - p.len());
    proof {
        assert(s@.subrange(s@.len() - p@.len(), s@.len() as int) =~= s@.skip(
            s@.len() - p@.len(),
        ));
    }
    r
}

pub fn contains_exec(s: &Vec<char>, p: &Vec<char>) -> (r: bool)
    ensures
        r == contains_sub(s@, p@),
{
    if p.len() > s.len() {
        return false;
    }
    let last = s.len() - p.len();
    let mut i: usize = 0;
    while i < last
        invariant
            last == s.len() - p.len(),
            i <= last,
            forall|j: int| 0 <= j < i ==> !occurs_at(s@, p@, j),
        decreases last - i,
    {
        if occurs_at_exec(s, p, i) {
            return true;
        }
        i = i + 1;
    }
    if occurs_at_exec(s, p, last) {
        return true;
    }
    assert forall|j: int| !occurs_at(s@, p@, j) by {
        if 0 <= j < i {
        }
    }
    false
}

/// `starts_with` against a string slice.
pub fn starts_with_str(s: &Vec<char>, p: &str) -> (r: bool)
    ensures
        r == starts_with(s@, p@),
{
    let pv = chars_of(p);
    starts_with_exec(s, &pv)
}

/// `ends_with` against a string slice.
pub fn ends_with_str(s: &Vec<char>, p: &str) -> (r: bool)
    ensures
        r == ends_with(s@, p@),
{
    let pv = chars_of(p);
    ends_with_exec(s, &pv)
}

/// `contains` against a string slice.
pub fn contains_str(s: &Vec<char>, p: &str) -> (r: bool)
    ensures
        r == contains_sub(s@, p@),
{
    let pv = chars_of(p);
    contains_exec(s, &pv)
}

/// Equality against a string slice.
pub fn eq_str(s: &Vec<char>, p: &str) -> (r: bool)
    ensures
        r == (s@ == p@),
{
    let pv = chars_of(p);
    chars_eq(s, &pv)
}

// ---------------------------------------------------------------------------
// Splitting
// ---------------------------------------------------------------------------

/// The pieces of `s` between occurrences of `c` (`str::split(c)`): always at
/// least one piece; `k` separators give `k + 1` pieces.
pub open spec fn split_on(s: Seq<char>, c: char) -> Seq<Seq<char>>
    decreases s.len(),
{
    if s.len() == 0 {
        seq![Seq::<char>::empty()]
    } else {
        let prev = split_on(s.drop_last(), c);
        if s.last() == c {
            prev.push(Seq::<char>::empty())
        } else {
            prev.update(prev.len() - 1, prev.last().push(s.last()))
        }
    }
}

pub proof fn lemma_split_on_nonempty(s: Seq<char>, c: char)
    ensures
        split_on(s, c).len() >= 1,
    decreases s.len(),
{
    if s.len() > 0 {
        lemma_split_on_nonempty(s.drop_last(), c);
    }
}

/// `str::split(c)` on a character vector.
pub fn split_on_exec(v: &Vec<char>, c: char) -> (r: Vec<Vec<char>>)
    ensures
        r@.len() == split_on(v@, c).len(),
        forall|i: int| 0 <= i < r@.len() ==> (#[trigger] r@[i])@ == split_on(v@, c)[i],
{
    let mut done: Vec<Vec<char>> = Vec::new();
    let mut cur: Vec<char> = Vec::new();
    let mut i: usize = 0;
    while i < v.len()
        invariant
            i <= v.len(),
            done@.len() + 1 == split_on(v@.take(i as int), c).len(),
            forall|j: int| 0 <= j < done@.len() ==> (#[trigger] done@[j])@ == split_on(v@.take(i as int), c)[j],
            cur@ == split_on(v@.take(i as int), c).last(),
        decreases v.len() - i,
    {
        proof {
            let t = v@.take(i as int + 1);
            assert(t.drop_last() =~= v@.take(i as int));
            assert(t.last() == v@[i as int]);
            lemma_split_on_nonempty(v@.take(i as int), c);
        }
        if v[i] == c {
            let finished = cur;
            done.push(finished);
            cur = Vec::new();
        } else {
            cur.push(v[i]);
        }
        i = i + 1;
    }
    assert(v@.take(v@.len() as int) =~= v@);
    done.push(cur);
    done
}

/// The maximal runs of non-whitespace characters of `s`
/// (`str::split_whitespace`).
pub open spec fn words(s: Seq<char>) -> Seq<Seq<char>>
    decreases s.len(),
{
    if s.len() == 0 {
        Seq::<Seq<char>>::empty()
    } else {
        let prev = words(s.drop_last());
        let c = s.last();
        if is_ws(c) {
            prev
        } else if s.len() >= 2 && !is_ws(s[s.len() - 2]) && prev.len() > 0 {
            prev.update(prev.len() - 1, prev.last().push(c))
        } else {
            prev.push(seq![c])
        }
    }
}

/// `str::split_whitespace` on a character vector.
pub fn words_exec(v: &Vec<char>) -> (r: Vec<Vec<char>>)
    ensures
        r@.len() == words(v@).len(),
        forall|i: int| 0 <= i < r@.len() ==> (#[trigger] r@[i])@ == words(v@)[i],
{
    let mut done: Vec<Vec<char>> = Vec::new();
    let mut cur: Vec<char> = Vec::new();
    let mut i: usize = 0;
    while i < v.len()
        invariant
            i <= v.len(),
            cur@.len() > 0 ==> i > 0 && !is_ws(v@[i - 1]),
            cur@.len() == 0 ==> (i == 0 || is_ws(v@[i - 1])),
            ({
                let w = words(v@.take(i as int));
                if cur@.len() == 0 {
                    &&& done@.len() == w.len()
                    &&& forall|j: int| 0 <= j < done@.len() ==> (#[trigger] done@[j])@ == w[j]
                } else {
                    &&& done@.len() + 1 == w.len()
                    &&& forall|j: int| 0 <= j < done@.len() ==> (#[trigger] done@[j])@ == w[j]
                    &&& cur@ == w.last()
                }
            }),
        decreases v.len() - i,
    {
        proof {
            let t = v@.take(i as int + 1);
            assert(t.drop_last() =~= v@.take(i as int));
            assert(t.last() == v@[i as int]);
            if i > 0 {
                assert(t[t.len() - 2] == v@[i - 1]);
            }
        }
        if is_ws_exec(v[i]) {
            if cur.len() > 0 {
                let finished = cur;
                done.push(finished);
                cur = Vec::new();
            }
        } else {
            cur.push(v[i]);
        }
        i = i + 1;
    }
    assert(v@.take(v@.len() as int) =~= v@);
    if cur.len() > 0 {
        done.push(cur);
    }
    done
}

/// Index of the first `c` in `s`, or -1.
pub open spec fn find_char(s: Seq<char>, c: char) -> int
    decreases s.len(),
{
    if s.len() == 0 {
        -1
    } else if s[0] == c {
        0
    } else {
        let r = find_char(s.drop_first(), c);
        if r < 0 {
            -1
        } else {
            r + 1
        }
    }
}

proof fn lemma_find_char(s: Seq<char>, c: char, k: int)
    requires
        0 <= k <= s.len(),
        forall|j: int| 0 <= j < k ==> #[trigger] s[j] != c,
    ensures
        k < s.len() && s[k] == c ==> find_char(s, c) == k,
        k == s.len() ==> find_char(s, c) == -1,
    decreases k,
{
    if k > 0 {
        let t = s.drop_first();
        assert forall|j: int| 0 <= j < k - 1 implies #[trigger] t[j] != c by {
            assert(t[j] == s[j + 1]);
        }
        lemma_find_char(t, c, k - 1);
    }
}

/// At most `n` pieces: the first `n - 1` occurrences of `c` split
/// (`str::splitn(n, c)`); `n == 0` gives no piece.
pub open spec fn splitn(s: Seq<char>, n: nat, c: char) -> Seq<Seq<char>>
    decreases n,
{
    if n == 0 {
        Seq::<Seq<char>>::empty()
    } else if n == 1 || find_char(s, c) < 0 {
        seq![s]
    } else {
        let i = find_char(s, c);
        seq![s.take(i)] + splitn(s.skip(i + 1), (n - 1) as nat, c)
    }
}

/// `str::splitn(n, c)` on a character vector.
pub fn splitn_exec(v: &Vec<char>, n: usize, c: char) -> (r: Vec<Vec<char>>)
    ensures
        r@.len() == splitn(v@, n as nat, c).len(),
        forall|i: int| 0 <= i < r@.len() ==> (#[trigger] r@[i])@ == splitn(v@, n as nat, c)[i],
{
    let mut out: Vec<Vec<char>> = Vec::new();
    if n == 0 {
        return out;
    }
    let mut start: usize = 0;
    let mut i: usize = 0;
    assert(v@.skip(0) =~= v@);
    while i < v.len() && out.len() + 1 < n
        invariant
            start <= i <= v.len(),
            out@.len() < n,
            forall|j: int| start <= j < i ==> #[trigger] v@[j] != c,
            ({
                let rest = splitn(v@.skip(start as int), (n - out@.len()) as nat, c);
                let whole = splitn(v@, n as nat, c);
                &&& whole.len() == out@.len() + rest.len()
                &&& forall|j: int| 0 <= j < out@.len() ==> (#[trigger] out@[j])@ == whole[j]
                &&& forall|j: int| 0 <= j < rest.len() ==> whole[out@.len() + j] == #[trigger] rest[j]
            }),
        decreases v.len() - i,
    {
        if v[i] == c {
            let ghost t = v@.skip(start as int);
            let ghost m = (n - out@.len()) as nat;
            let ghost old_out = out@;
            let ghost whole = splitn(v@, n as nat, c);
            proof {
                assert forall|j: int| 0 <= j < i - start implies #[trigger] t[j] != c by {
                    assert(t[j] == v@[start + j]);
                }
                lemma_find_char(t, c, i - start);
                assert(t.take(i - start) =~= v@.subrange(start as int, i as int));
                assert(t.skip(i - start + 1) =~= v@.skip(i + 1));
            }
            let ghost rest2 = splitn(v@.skip(i + 1), (m - 1) as nat, c);
            proof {
                assert(splitn(t, m, c) =~= seq![t.take(i - start)] + rest2);
            }
            let piece = slice_chars(v, start, i);
            out.push(piece);
            start = i + 1;
            proof {
                assert(out@.len() == old_out.len() + 1);
                assert((n - out@.len()) as nat == (m - 1) as nat);
                assert forall|j: int| 0 <= j < out@.len() implies (#[trigger] out@[j])@ == whole[j] by {
                    if j < old_out.len() {
                        assert(out@[j] == old_out[j]);
                    } else {
                        assert(whole[old_out.len() as int] == splitn(t, m, c)[0]);
                    }
                }
                assert forall|j: int| 0 <= j < rest2.len() implies whole[out@.len() + j] == #[trigger] rest2[j] by {
                    assert(whole[old_out.len() as int + (j + 1)] == splitn(t, m, c)[j + 1]);
                }
            }
        }
        i = i + 1;
    }
    proof {
        let t = v@.skip(start as int);
        let m = (n - out@.len()) as nat;
        if i == v.len() {
            assert forall|j: int| 0 <= j < t.len() implies #[trigger] t[j] != c by {
                assert(t[j] == v@[start + j]);
            }
            lemma_find_char(t, c, t.len() as int);
        }
        assert(splitn(t, m, c) =~= seq![t]);
        assert(t =~= v@.subrange(start as int, v@.len() as int));
    }
    let ghost old_out = out@;
    let ghost whole = splitn(v@, n as nat, c);
    let ghost t = v@.skip(start as int);
    let last = slice_chars(v, start, v.len());
    out.push(last);
    proof {
        assert forall|j: int| 0 <= j < out@.len() implies (#[trigger] out@[j])@ == whole[j] by {
            if j < old_out.len() {
                assert(out@[j] == old_out[j]);
            } else {
                assert(whole[old_out.len() as int + 0] == splitn(t, (n - old_out.len()) as nat, c)[0]);
            }
        }
    }
    out
}

/// `x` without one trailing carriage return.
pub open spec fn strip_cr(x: Seq<char>) -> Seq<char> {
    if x.len() > 0 && x.last() == '\r' {
        x.drop_last()
    } else {
        x
    }
}

/// The lines of `s` (`str::lines`): split at `\n`, a final empty piece
/// dropped, and one `\r` removed before each `\n`.
pub open spec fn lines(s: Seq<char>) -> Seq<Seq<char>> {
    let p = split_on(s, '\n');
    let n = if p.len() > 0 && p.last().len() == 0 { p.len() - 1 } else { p.len() as int };
    Seq::new(n as nat, |i: int| if i < p.len() - 1 { strip_cr(p[i]) } else { p[i] })
}

/// `str::lines` on a character vector.
pub fn lines_exec(v: &Vec<char>) -> (r: Vec<Vec<char>>)
    ensures
        r@.len() == lines(v@).len(),
        forall|i: int| 0 <= i < r@.len() ==> (#[trigger] r@[i])@ == lines(v@)[i],
{
    let parts = split_on_exec(v, '\n');
    proof {
        lemma_split_on_nonempty(v@, '\n');
    }
    let ghost p = split_on(v@, '\n');
    let n = if parts[parts.len() - 1].len() == 0 { parts.len() - 1 } else { parts.len() };
    let mut out: Vec<Vec<char>> = Vec::new();
    let mut i: usize = 0;
    while i < n
        invariant
            n <= parts@.len(),
            parts@.len() == p.len(),
            p.len() >= 1,
            n == lines(v@).len(),
            p == split_on(v@, '\n'),
            forall|k: int| 0 <= k < parts@.len() ==> (#[trigger] parts@[k])@ == p[k],
            i <= n,
            out@.len() == i,
            forall|k: int| 0 <= k < i ==> (#[trigger] out@[k])@ == lines(v@)[k],
        decreases n - i,
    {
        let piece = &parts[i];
        let len = piece.len();
        let line = if i + 1 < parts.len() && len > 0 && piece[len - 1] == '\r' {
            slice_chars(piece, 0, len - 1)
        } else {
            slice_chars(piece, 0, len)
        };
        proof {
            assert(parts@[i as int]@ == p[i as int]);
            assert(p[i as int].subrange(0, len as int) =~= p[i as int]);
            assert(p[i as int].subrange(0, len - 1) =~= p[i as int].drop_last());
        }
        out.push(line);
        i = i + 1;
    }
    out
}

// ---------------------------------------------------------------------------
// Numbers
// ---------------------------------------------------------------------------

pub open spec fn is_digit(c: char) -> bool {
    48 <= (c as u32) && (c as u32) <= 57
}

pub open spec fn digit_val(c: char) -> nat {
    ((c as u32) - 48) as nat
}

pub open spec fn all_digits(s: Seq<char>) -> bool {
    forall|i: int| 0 <= i < s.len() ==> is_digit(#[trigger] s[i])
}

/// Value of a string of decimal digits.
pub open spec fn dec_val(s: Seq<char>) -> nat
    decreases s.len(),
{
    if s.len() == 0 {
        0
    } else {
        dec_val(s.drop_last()) * 10 + digit_val(s.last())
    }
}

/// The digits that `from_str` reads after an optional `+`, when they are
/// well formed.
pub open spec fn unsigned_magnitude(s: Seq<char>) -> Option<nat> {
    let body = if s.len() > 0 && s[0] == '+' { s.drop_first() } else { s };
    if body.len() > 0 && all_digits(body) {
        Some(dec_val(body))
    } else {
        None
    }
}

/// What `u64::from_str` returns, as an option.
pub open spec fn parse_u64(s: Seq<char>) -> Option<u64> {
    match unsigned_magnitude(s) {
        Some(v) => if v <= u64::MAX { Some(v as u64) } else { None },
        None => None,
    }
}

/// What `u32::from_str` returns, as an option.
pub open spec fn parse_u32(s: Seq<char>) -> Option<u32> {
    match unsigned_magnitude(s) {
        Some(v) => if v <= u32::MAX { Some(v as u32) } else { None },
        None => None,
    }
}

/// What `usize::from_str` returns, as an option.
pub open spec fn parse_usize(s: Seq<char>) -> Option<usize> {
    match unsigned_magnitude(s) {
        Some(v) => if v <= usize::MAX { Some(v as usize) } else { None },
        None => None,
    }
}

/// The signed value `from_str` reads: optional `+` or `-`, then digits.
pub open spec fn signed_value(s: Seq<char>) -> Option<int> {
    if s.len() > 0 && s[0] == '-' {
        let body = s.drop_first();
        if body.len() > 0 && all_digits(body) {
            Some(-(dec_val(body) as int))
        } else {
            None
        }
    } else {
        match unsigned_magnitude(s) {
            Some(v) => Some(v as int),
            None => None,
        }
    }
}

/// What `i32::from_str` returns, as an option.
pub open spec fn parse_i32(s: Seq<char>) -> Option<i32> {
    match signed_value(s) {
        Some(v) => if i32::MIN <= v <= i32::MAX { Some(v as i32) } else { None },
        None => None,
    }
}

proof fn lemma_dec_val_monotone(s: Seq<char>, k: int)
    requires
        0 <= k <= s.len(),
    ensures
        dec_val(s.take(k)) <= dec_val(s),
    decreases s.len() - k,
{
    if k < s.len() {
        lemma_dec_val_monotone(s, k + 1);
        assert(s.take(k + 1).drop_last() =~= s.take(k));
    } else {
        assert(s.take(k) =~= s);
    }
}

/// Reads digits `v[from..]` as a number no larger than `u64::MAX`;
/// `None` when some character is not a digit, or there is none, or the
/// value is larger.
fn digits_value(v: &Vec<char>, from: usize) -> (r: Option<u64>)
    requires
        from <= v.len(),
    ensures
        ({
            let body = v@.skip(from as int);
            match r {
                Some(x) => body.len() > 0 && all_digits(body) && x == dec_val(body),
                None => !(body.len() > 0 && all_digits(body)) || dec_val(body) > u64::MAX,
            }
        }),
{
    let ghost body = v@.skip(from as int);
    if from == v.len() {
        return None;
    }
    let mut acc: u64 = 0;
    let mut i = from;
    let mut overflow = false;
    while i < v.len()
        invariant
            from <= i <= v.len(),
            body == v@.skip(from as int),
            all_digits(body.take(i - from)),
            !overflow ==> acc == dec_val(body.take(i - from)),
            overflow ==> dec_val(body.take(i - from)) > u64::MAX,
        decreases v.len() - i,
    {
        let c = v[i];
        if !((c as u32) >= 48 && (c as u32) <= 57) {
            proof {
                assert(body[i - from] == c);
            }
            return None;
        }
        proof {
            let t = body.take(i - from + 1);
            assert(t.drop_last() =~= body.take(i - from));
            assert(t.last() == c);
            assert forall|j: int| 0 <= j < t.len() implies is_digit(#[trigger] t[j]) by {
                if j < i - from {
                    assert(t[j] == body.take(i - from)[j]);
                }
            }
        }
        let d = (c as u32 - 48) as u64;
        if !overflow {
            match acc.checked_mul(10) {
                Some(m) => match m.checked_add(d) {
                    Some(x) => {
                        acc = x;
                    },
                    None => {
                        overflow = true;
                    },
                },
                None => {
                    overflow = true;
                },
            }
        } else {
            proof {
                assert(dec_val(body.take(i - from + 1)) >= dec_val(body.take(i - from)) * 10);
            }
        }
        i = i + 1;
    }
    assert(body.take(i - from) =~= body);
    if overflow {
        None
    } else {
        Some(acc)
    }
}

/// `u64::from_str(..).ok()`.
pub fn parse_u64_exec(v: &Vec<char>) -> (r: Option<u64>)
    ensures
        r == parse_u64(v@),
{
    let from: usize = if v.len() > 0 && v[0] == '+' { 1 } else { 0 };
    proof {
        if from == 1 {
            assert(v@.skip(1) =~= v@.drop_first());
        } else {
            assert(v@.skip(0) =~= v@);
        }
    }
    digits_value(v, from)
}

/// `u32::from_str(..).ok()`.
pub fn parse_u32_exec(v: &Vec<char>) -> (r: Option<u32>)
    ensures
        r == parse_u32(v@),
{
    match parse_u64_exec(v) {
        Some(x) => if x <= 0xffff_ffffu64 { Some(x as u32) } else { None },
        None => {
            proof {
                if unsigned_magnitude(v@) is Some {
                    assert(unsigned_magnitude(v@)->0 > u64::MAX);
                }
            }
            None
        },
    }
}

/// `usize::from_str(..).ok()`.
pub fn parse_usize_exec(v: &Vec<char>) -> (r: Option<usize>)
    ensures
        r == parse_usize(v@),
{
    match parse_u64_exec(v) {
        Some(x) => if x as u128 <= usize::MAX as u128 { Some(x as usize) } else { None },
        None => None,
    }
}

/// `i32::from_str(..).ok()`.
pub fn parse_i32_exec(v: &Vec<char>) -> (r: Option<i32>)
    ensures
        r == parse_i32(v@),
{
    if v.len() > 0 && v[0] == '-' {
        proof {
            assert(v@.skip(1) =~= v@.drop_first());
        }
        match digits_value(v, 1) {
            Some(x) => if x <= 0x8000_0000u64 { Some((0 - (x as i64)) as i32) } else { None },
            None => None,
        }
    } else {
        match parse_u64_exec(v) {
            Some(x) => if x <= 0x7fff_ffffu64 { Some(x as i32) } else { None },
            None => None,
        }
    }
}

pub open spec fn digit_char(d: nat) -> char {
    ((d + 48) as u32) as char
}

/// Decimal digits of `n`, as `Display` writes them.
pub open spec fn dec_str(n: nat) -> Seq<char>
    decreases n,
{
    if n < 10 {
        seq![digit_char(n)]
    } else {
        dec_str(n / 10).push(digit_char(n % 10))
    }
}

/// Decimal text of an integer, with a leading `-` when negative.
pub open spec fn int_str(n: int) -> Seq<char> {
    if n < 0 {
        seq!['-'] + dec_str((-n) as nat)
    } else {
        dec_str(n as nat)
    }
}

/// Decimal text of a `u64`.
pub fn u64_chars(n: u64) -> (r: Vec<char>)
    ensures
        r@ == dec_str(n as nat),
    decreases n,
{
    let d = n % 10;
    let ch = ((d + 48) as u8) as char;
    assert(ch == digit_char(d as nat));
    if n < 10 {
        let mut v = Vec::new();
        v.push(ch);
        assert(v@ =~= seq![digit_char(n as nat)]);
        v
    } else {
        let mut v = u64_chars(n / 10);
        v.push(ch);
        v
    }
}

/// Decimal text of an `i64`.
pub fn i64_chars(n: i64) -> (r: Vec<char>)
    ensures
        r@ == int_str(n as int),
{
    if n < 0 {
        let m = (0i128 - (n as i128)) as u64;
        let digits = u64_chars(m);
        let mut v = Vec::new();
        v.push('-');
        append_chars(&mut v, &digits);
        assert(v@ =~= seq!['-'] + dec_str((-(n as int)) as nat));
        v
    } else {
        u64_chars(n as u64)
    }
}

/// Appends the decimal text of `n`.
pub fn push_u64(dst: &mut Vec<char>, n: u64)
    ensures
        final(dst)@ == old(dst)@ + dec_str(n as nat),
{
    let d = u64_chars(n);
    append_chars(dst, &d);
}

/// Appends the decimal text of `n`.
pub fn push_i64(dst: &mut Vec<char>, n: i64)
    ensures
        final(dst)@ == old(dst)@ + int_str(n as int),
{
    let d = i64_chars(n);
    append_chars(dst, &d);
}

// ---------------------------------------------------------------------------
// Layout
// ---------------------------------------------------------------------------

/// `n` copies of `c`.
pub open spec fn repeat_char(c: char, n: nat) -> Seq<char> {
    Seq::new(n, |i: int| c)
}

/// `s` padded with spaces on the right to at least `width` characters, as
/// `{:<width}` does.
pub open spec fn pad_right(s: Seq<char>, width: nat) -> Seq<char> {
    if s.len() < width {
        s + repeat_char(' ', (width - s.len()) as nat)
    } else {
        s
    }
}

/// Appends `n` copies of `c`.
pub fn push_repeat(dst: &mut Vec<char>, c: char, n: usize)
    ensures
        final(dst)@ == old(dst)@ + repeat_char(c, n as nat),
{
    let mut i: usize = 0;
    while i < n
        invariant
            i <= n,
            dst@ == old(dst)@ + repeat_char(c, i as nat),
        decreases n - i,
    {
        dst.push(c);
        i = i + 1;
        assert(repeat_char(c, i as nat) =~= repeat_char(c, (i - 1) as nat).push(c));
    }
}

/// Appends `s` padded on the right to `width` characters.
pub fn push_padded(dst: &mut Vec<char>, s: &Vec<char>, width: usize)
    ensures
        final(dst)@ == old(dst)@ + pad_right(s@, width as nat),
{
    append_chars(dst, s);
    if s.len() < width {
        push_repeat(dst, ' ', width - s.len());
    }
}

// ---------------------------------------------------------------------------
// Case mapping and replacement
// ---------------------------------------------------------------------------

/// ASCII lowercase of one character (`char::to_ascii_lowercase`).
pub open spec fn ascii_lower(c: char) -> char {
    if 65 <= (c as u32) && (c as u32) <= 90 {
        ((c as u32) + 32) as char
    } else {
        c
    }
}

/// ASCII lowercase of a string (`str::to_ascii_lowercase`).
pub open spec fn ascii_lower_str(s: Seq<char>) -> Seq<char> {
    s.map_values(|c: char| ascii_lower(c))
}

pub fn ascii_lower_exec(c: char) -> (r: char)
    ensures
        r == ascii_lower(c),
{
    let u = c as u32;
    if 65 <= u && u <= 90 {
        let r = ((u + 32) as u8) as char;
        assert(r == ascii_lower(c));
        r
    } else {
        c
    }
}

pub fn ascii_lower_chars(v: &Vec<char>) -> (r: Vec<char>)
    ensures
        r@ == ascii_lower_str(v@),
{
    let mut r: Vec<char> = Vec::new();
    let mut i: usize = 0;
    while i < v.len()
        invariant
            i <= v.len(),
            r@ == ascii_lower_str(v@.take(i as int)),
        decreases v.len() - i,
    {
        r.push(ascii_lower_exec(v[i]));
        i = i + 1;
        assert(ascii_lower_str(v@.take(i as int)) =~= ascii_lower_str(v@.take(i - 1)).push(
            ascii_lower(v@[i - 1]),
        ));
    }
    assert(v@.take(v@.len() as int) =~= v@);
    r
}

/// What `str::to_lowercase` returns: the Unicode lowercase mapping of a
/// string.
pub uninterp spec fn unicode_lower(s: Seq<char>) -> Seq<char>;

/// Every character is ASCII.
pub open spec fn all_ascii(s: Seq<char>) -> bool {
    forall|i: int| 0 <= i < s.len() ==> (#[trigger] s[i] as u32) < 128
}

/// Unicode lowercase of a string (std `str::to_lowercase`). The mapping is
/// named, not spelt out; what is stated of it is what std and the Unicode
/// tables give for ASCII text: each character maps to its ASCII lowercase
/// (so the empty string stays empty). Of other characters (special casing,
/// final sigma) nothing is stated.
#[verifier::external_body]
fn str_to_lowercase(s: &str) -> (r: String)
    ensures
        r@ == unicode_lower(s@),
        s@.len() == 0 ==> r@.len() == 0,
        all_ascii(s@) ==> r@ == ascii_lower_str(s@),
{
    s.to_lowercase()
}

/// `to_lowercase` on a character vector.
pub fn unicode_lower_chars(v: &Vec<char>) -> (r: Vec<char>)
    ensures
        r@ == unicode_lower(v@),
        all_ascii(v@) ==> r@ == ascii_lower_str(v@),
{
    let s = string_of(v);
    let l = str_to_lowercase(s.as_str());
    chars_of(l.as_str())
}

/// `s` with every `from` replaced by `to` (`str::replace` with a one-char
/// pattern).
pub open spec fn replace_char(s: Seq<char>, from: char, to: Seq<char>) -> Seq<char>
    decreases s.len(),
{
    if s.len() == 0 {
        Seq::<char>::empty()
    } else {
        let prev = replace_char(s.drop_last(), from, to);
        if s.last() == from {
            prev + to
        } else {
            prev.push(s.last())
        }
    }
}

pub fn replace_char_exec(v: &Vec<char>, from: char, to: &Vec<char>) -> (r: Vec<char>)
    ensures
        r@ == replace_char(v@, from, to@),
{
    let mut r: Vec<char> = Vec::new();
    let mut i: usize = 0;
    while i < v.len()
        invariant
            i <= v.len(),
            r@ == replace_char(v@.take(i as int), from, to@),
        decreases v.len() - i,
    {
        proof {
            let t = v@.take(i as int + 1);
            assert(t.drop_last() =~= v@.take(i as int));
            assert(t.last() == v@[i as int]);
        }
        if v[i] == from {
            append_chars(&mut r, to);
        } else {
            r.push(v[i]);
        }
        i = i + 1;
    }
    assert(v@.take(v@.len() as int) =~= v@);
    r
}

/// `c` occurs in `s`.
pub fn has_char(v: &Vec<char>, c: char) -> (r: bool)
    ensures
        r == v@.contains(c),
{
    let mut i: usize = 0;
    while i < v.len()
        invariant
            i <= v.len(),
            forall|j: int| 0 <= j < i ==> v@[j] != c,
        decreases v.len() - i,
    {
        if v[i] == c {
            return true;
        }
        i = i + 1;
    }
    false
}

// ---------------------------------------------------------------------------
// Order
// ---------------------------------------------------------------------------

/// Lexicographic order of character sequences; it is the order of `str`
/// and `String`, whose byte order under UTF-8 agrees with scalar order.
pub open spec fn lex_lt(a: Seq<char>, b: Seq<char>) -> bool
    decreases a.len(),
{
    if a.len() == 0 {
        b.len() > 0
    } else if b.len() == 0 {
        false
    } else if a[0] != b[0] {
        (a[0] as u32) < (b[0] as u32)
    } else {
        lex_lt(a.drop_first(), b.drop_first())
    }
}

pub fn lex_lt_exec(a: &Vec<char>, b: &Vec<char>) -> (r: bool)
    ensures
        r == lex_lt(a@, b@),
{
    let mut i: usize = 0;
    assert(a@.skip(0) =~= a@);
    assert(b@.skip(0) =~= b@);
    while i < a.len() && i < b.len() && a[i] == b[i]
        invariant
            i <= a.len(),
            i <= b.len(),
            lex_lt(a@, b@) == lex_lt(a@.skip(i as int), b@.skip(i as int)),
        decreases a.len() - i,
    {
        proof {
            assert(a@.skip(i as int).drop_first() =~= a@.skip(i + 1));
            assert(b@.skip(i as int).drop_first() =~= b@.skip(i + 1));
        }
        i = i + 1;
    }
    if i == a.len() {
        i < b.len()
    } else if i == b.len() {
        false
    } else {
        (a[i] as u32) < (b[i] as u32)
    }
}

// ---------------------------------------------------------------------------
// UTF-8 byte view
// ---------------------------------------------------------------------------

/// Number of bytes of `c` in UTF-8.
pub open spec fn utf8_width(c: char) -> nat {
    let u = c as u32;
    if u < 0x80 {
        1
    } else if u < 0x800 {
        2
    } else if u < 0x10000 {
        3
    } else {
        4
    }
}

/// Number of bytes of `s` in UTF-8 (`str::len`).
pub open spec fn byte_len(s: Seq<char>) -> nat
    decreases s.len(),
{
    if s.len() == 0 {
        0
    } else {
        byte_len(s.drop_last()) + utf8_width(s.last())
    }
}

/// The first byte of the UTF-8 encoding of `c`.
pub open spec fn lead_byte(c: char) -> u8 {
    let u = c as u32;
    if u < 0x80 {
        u as u8
    } else if u < 0x800 {
        (0xC0u32 | (u >> 6u32)) as u8
    } else if u < 0x10000 {
        (0xE0u32 | (u >> 12u32)) as u8
    } else {
        (0xF0u32 | (u >> 18u32)) as u8
    }
}

/// The second byte of the UTF-8 encoding of `c`, for a `c` wider than one
/// byte.
pub open spec fn second_byte(c: char) -> u8 {
    let u = c as u32;
    if u < 0x800 {
        (0x80u32 | (u & 0x3Fu32)) as u8
    } else if u < 0x10000 {
        (0x80u32 | ((u >> 6u32) & 0x3Fu32)) as u8
    } else {
        (0x80u32 | ((u >> 12u32) & 0x3Fu32)) as u8
    }
}

/// Byte 0 of the encoding of a non-empty `s`.
pub open spec fn byte0(s: Seq<char>) -> u8 {
    lead_byte(s[0])
}

/// Byte 1 of the encoding of an `s` of at least two bytes.
pub open spec fn byte1(s: Seq<char>) -> u8 {
    if utf8_width(s[0]) == 1 {
        lead_byte(s[1])
    } else {
        second_byte(s[0])
    }
}

/// Byte offset `k` falls between two characters of `s`; `j` is the number
/// of characters before it.
pub open spec fn boundary_at(s: Seq<char>, k: nat, j: int) -> bool {
    0 <= j <= s.len() && byte_len(s.take(j)) == k
}

pub open spec fn is_boundary(s: Seq<char>, k: nat) -> bool {
    exists|j: int| boundary_at(s, k, j)
}

pub fn utf8_width_exec(c: char) -> (r: usize)
    ensures
        r == utf8_width(c),
{
    let u = c as u32;
    if u < 0x80 {
        1
    } else if u < 0x800 {
        2
    } else if u < 0x10000 {
        3
    } else {
        4
    }
}

pub proof fn lemma_byte_len_take_mono(s: Seq<char>, a: int, b: int)
    requires
        0 <= a <= b <= s.len(),
    ensures
        byte_len(s.take(a)) + (b - a) <= byte_len(s.take(b)),
    decreases b - a,
{
    if a < b {
        lemma_byte_len_take_mono(s, a, b - 1);
        assert(s.take(b).drop_last() =~= s.take(b - 1));
    }
}

/// The number of characters that fill the first `k` bytes of `v`, when
/// byte `k` is a character boundary.
pub fn char_index_of_byte(v: &Vec<char>, k: usize) -> (r: Option<usize>)
    ensures
        match r {
            Some(j) => boundary_at(v@, k as nat, j as int),
            None => !is_boundary(v@, k as nat),
        },
{
    let mut j: usize = 0;
    let mut bytes: u128 = 0;
    assert(v@.take(0) =~= Seq::<char>::empty());
    while j < v.len() && bytes < k as u128
        invariant
            j <= v.len(),
            bytes == byte_len(v@.take(j as int)),
            bytes <= k + 4,
            forall|i: int| 0 <= i < j ==> byte_len(#[trigger] v@.take(i)) < k,
        decreases v.len() - j,
    {
        proof {
            assert(v@.take(j + 1).drop_last() =~= v@.take(j as int));
        }
        bytes = bytes + utf8_width_exec(v[j]) as u128;
        j = j + 1;
    }
    if bytes == k as u128 {
        Some(j)
    } else {
        proof {
            assert forall|i: int| !boundary_at(v@, k as nat, i) by {
                if 0 <= i <= v@.len() {
                    if i < j {
                    } else {
                        if j < v@.len() {
                            // bytes > k here and the prefix only grows
                            lemma_byte_len_take_mono(v@, j as int, i);
                        } else {
                            assert(i == j);
                        }
                    }
                }
            }
        }
        None
    }
}

/// The first byte of a non-empty text, as `bytes[0] as char` reads it.
pub fn byte0_exec(v: &Vec<char>) -> (r: char)
    requires
        v@.len() > 0,
    ensures
        r == (byte0(v@) as char),
{
    let u = v[0] as u32;
    let b: u8 = if u < 0x80 {
        u as u8
    } else if u < 0x800 {
        (0xC0u32 | (u >> 6u32)) as u8
    } else if u < 0x10000 {
        (0xE0u32 | (u >> 12u32)) as u8
    } else {
        (0xF0u32 | (u >> 18u32)) as u8
    };
    b as char
}

/// The second byte of a text of at least two bytes, as `bytes[1] as char`
/// reads it.
pub fn byte1_exec(v: &Vec<char>) -> (r: char)
    requires
        v@.len() > 0,
        utf8_width(v@[0]) == 1 ==> v@.len() > 1,
    ensures
        r == (byte1(v@) as char),
{
    let u = v[0] as u32;
    let b: u8 = if u < 0x80 {
        let w = v[1] as u32;
        if w < 0x80 {
            w as u8
        } else if w < 0x800 {
            (0xC0u32 | (w >> 6u32)) as u8
        } else if w < 0x10000 {
            (0xE0u32 | (w >> 12u32)) as u8
        } else {
            (0xF0u32 | (w >> 18u32)) as u8
        }
    } else if u < 0x800 {
        (0x80u32 | (u & 0x3Fu32)) as u8
    } else if u < 0x10000 {
        (0x80u32 | ((u >> 6u32) & 0x3Fu32)) as u8
    } else {
        (0x80u32 | ((u >> 12u32) & 0x3Fu32)) as u8
    };
    b as char
}


/// Byte offsets are character boundaries at most one character count.
pub proof fn lemma_boundary_unique(s: Seq<char>, k: nat, j1: int, j2: int)
    requires
        boundary_at(s, k, j1),
        boundary_at(s, k, j2),
    ensures
        j1 == j2,
{
    if j1 < j2 {
        lemma_byte_len_take_mono(s, j1, j2);
    } else if j2 < j1 {
        lemma_byte_len_take_mono(s, j2, j1);
    }
}

/// The number of characters before byte offset `k`, when `k` is a
/// character boundary.
pub open spec fn boundary_index(s: Seq<char>, k: nat) -> int {
    choose|j: int| boundary_at(s, k, j)
}

/// `s` cut to `max - 1` bytes and followed by `…` when it has more than
/// `max` characters, as `format!("{}…", &s[..max - 1])` does.
pub open spec fn truncated(s: Seq<char>, max: nat) -> Seq<char> {
    if s.len() > max {
        s.take(boundary_index(s, (max - 1) as nat)) + seq!['\u{2026}']
    } else {
        s
    }
}

/// Cutting `s` is possible: byte `max - 1` is a character boundary when
/// `s` is longer than `max` characters (else slicing there panics).
pub open spec fn can_truncate(s: Seq<char>, max: nat) -> bool {
    s.len() > max ==> is_boundary(s, (max - 1) as nat)
}

/// Whether `can_truncate(v, max)` holds.
pub fn can_truncate_exec(v: &Vec<char>, max: usize) -> (r: bool)
    requires
        max >= 1,
    ensures
        r == can_truncate(v@, max as nat),
{
    if v.len() > max {
        char_index_of_byte(v, max - 1).is_some()
    } else {
        true
    }
}

/// `truncated(v, max)`.
pub fn truncate_chars(v: &Vec<char>, max: usize) -> (r: Vec<char>)
    requires
        max >= 1,
        can_truncate(v@, max as nat),
    ensures
        r@ == truncated(v@, max as nat),
{
    if v.len() > max {
        match char_index_of_byte(v, max - 1) {
            Some(j) => {
                let mut r = slice_chars(v, 0, j);
                r.push('\u{2026}');
                proof {
                    let k = (max - 1) as nat;
                    let c = boundary_index(v@, k);
                    assert(boundary_at(v@, k, c));
                    lemma_boundary_unique(v@, k, j as int, c);
                    assert(v@.subrange(0, j as int) =~= v@.take(j as int));
                }
                r
            },
            None => {
                proof {
                    assert(false);
                }
                Vec::new()
            },
        }
    } else {
        slice_chars(v, 0, v.len())
    }
}

/// `byte_len(v)`, the length of the UTF-8 encoding (`str::len`).
pub fn byte_len_exec(v: &Vec<char>) -> (r: u128)
    ensures
        r == byte_len(v@),
        r <= 4 * v@.len(),
{
    let mut n: u128 = 0;
    let mut i: usize = 0;
    while i < v.len()
        invariant
            i <= v.len(),
            n == byte_len(v@.take(i as int)),
            n <= 4 * i,
        decreases v.len() - i,
    {
        proof {
            assert(v@.take(i + 1).drop_last() =~= v@.take(i as int));
        }
        n = n + utf8_width_exec(v[i]) as u128;
        i = i + 1;
    }
    assert(v@.take(v@.len() as int) =~= v@);
    n
}

// ---------------------------------------------------------------------------
// Where the characters of pieces, lines and trimmed text come from
// ---------------------------------------------------------------------------

/// A character of `s` other than the separator lies in some piece of
/// `split_on(s, c)`.
pub proof fn lemma_split_on_covers(s: Seq<char>, c: char, j: int)
    requires
        0 <= j < s.len(),
        s[j] != c,
    ensures
        exists|k: int, t: int|
            0 <= k < split_on(s, c).len() && 0 <= t < split_on(s, c)[k].len() && #[trigger] split_on(
                s,
                c,
            )[k][t] == s[j],
    decreases s.len(),
{
    let prev = split_on(s.drop_last(), c);
    lemma_split_on_nonempty(s.drop_last(), c);
    let cur = split_on(s, c);
    if j == s.len() - 1 {
        let k = prev.len() - 1;
        let t = prev.last().len() as int;
        assert(cur[k] == prev.last().push(s.last()));
        assert(cur[k][t] == s[j]);
    } else {
        lemma_split_on_covers(s.drop_last(), c, j);
        let (k, t) = choose|k: int, t: int|
            0 <= k < prev.len() && 0 <= t < prev[k].len() && #[trigger] prev[k][t] == s.drop_last()[j];
        if s.last() == c {
            assert(cur[k] == prev[k]);
        } else if k == prev.len() - 1 {
            assert(cur[k] == prev[k].push(s.last()));
            assert(cur[k][t] == prev[k][t]);
        } else {
            assert(cur[k] == prev[k]);
        }
        assert(cur[k][t] == s[j]);
    }
}

/// Each character of a piece of `split_on(s, c)` is a character of `s`.
pub proof fn lemma_split_on_chars_from(s: Seq<char>, c: char, k: int, t: int)
    requires
        0 <= k < split_on(s, c).len(),
        0 <= t < split_on(s, c)[k].len(),
    ensures
        exists|j: int| 0 <= j < s.len() && s[j] == split_on(s, c)[k][t],
    decreases s.len(),
{
    if s.len() == 0 {
        assert(split_on(s, c)[k].len() == 0);
    } else {
        let prev = split_on(s.drop_last(), c);
        lemma_split_on_nonempty(s.drop_last(), c);
        let cur = split_on(s, c);
        if k < prev.len() && (s.last() == c || k < prev.len() - 1 || t < prev[k].len()) {
            assert(cur[k][t] == prev[k][t]);
            lemma_split_on_chars_from(s.drop_last(), c, k, t);
            let j = choose|j: int| 0 <= j < s.drop_last().len() && s.drop_last()[j] == prev[k][t];
            assert(s[j] == cur[k][t]);
        } else {
            assert(cur[k][t] == s[s.len() - 1]);
        }
    }
}

/// A text that does not start with the separator has a first piece that
/// starts with its first character.
proof fn lemma_split_on_first_piece(s: Seq<char>, c: char)
    requires
        s.len() > 0,
        s[0] != c,
    ensures
        split_on(s, c)[0].len() > 0,
        split_on(s, c)[0][0] == s[0],
    decreases s.len(),
{
    let prev = split_on(s.drop_last(), c);
    lemma_split_on_nonempty(s.drop_last(), c);
    if s.len() == 1 {
        assert(s.drop_last().len() == 0);
        assert(prev == seq![Seq::<char>::empty()]);
        assert(s.last() == s[0]);
    } else {
        lemma_split_on_first_piece(s.drop_last(), c);
    }
}

proof fn lemma_trim_start_shape(s: Seq<char>)
    ensures
        exists|a: int| 0 <= a <= s.len() && trim_start(s) == s.skip(a),
        trim_start(s).len() > 0 ==> !is_ws(trim_start(s)[0]),
        (exists|j: int| 0 <= j < s.len() && !is_ws(#[trigger] s[j])) ==> trim_start(s).len() > 0,
    decreases s.len(),
{
    if s.len() > 0 && is_ws(s[0]) {
        let d = s.drop_first();
        lemma_trim_start_shape(d);
        let a = choose|a: int| 0 <= a <= d.len() && trim_start(d) == d.skip(a);
        assert(d.skip(a) =~= s.skip(a + 1));
        if exists|j: int| 0 <= j < s.len() && !is_ws(#[trigger] s[j]) {
            let j = choose|j: int| 0 <= j < s.len() && !is_ws(#[trigger] s[j]);
            assert(j > 0);
            assert(!is_ws(d[j - 1]));
        }
    } else {
        assert(s.skip(0) =~= s);
        if exists|j: int| 0 <= j < s.len() && !is_ws(#[trigger] s[j]) {
            assert(s.len() > 0);
        }
    }
}

proof fn lemma_trim_end_shape(u: Seq<char>)
    ensures
        exists|b: int| 0 <= b <= u.len() && trim_end(u) == u.take(b),
        u.len() > 0 && !is_ws(u[0]) ==> trim_end(u).len() > 0,
    decreases u.len(),
{
    if u.len() > 0 && is_ws(u.last()) {
        let d = u.drop_last();
        lemma_trim_end_shape(d);
        let b = choose|b: int| 0 <= b <= d.len() && trim_end(d) == d.take(b);
        assert(d.take(b) =~= u.take(b));
        if !is_ws(u[0]) {
            assert(u.len() > 1);
            assert(d[0] == u[0]);
        }
    } else {
        assert(u.take(u.len() as int) =~= u);
    }
}

/// `trim(s)`, when not empty, starts with a character of `s` that is not
/// whitespace; and it is not empty when `s` holds such a character.
pub proof fn lemma_trim_first_char(s: Seq<char>)
    ensures
        trim(s).len() > 0 ==> !is_ws(trim(s)[0]) && exists|j: int| 0 <= j < s.len() && s[j] == trim(s)[0],
        (exists|j: int| 0 <= j < s.len() && !is_ws(#[trigger] s[j])) ==> trim(s).len() > 0,
{
    lemma_trim_start_shape(s);
    let u = trim_start(s);
    lemma_trim_end_shape(u);
    let a = choose|a: int| 0 <= a <= s.len() && u == s.skip(a);
    let b = choose|b: int| 0 <= b <= u.len() && trim_end(u) == u.take(b);
    if trim(s).len() > 0 {
        assert(trim(s)[0] == u[0]);
        assert(u[0] == s[a]);
    }
}

/// A character of `s` other than whitespace lies on some line of `s`.
pub proof fn lemma_lines_cover(s: Seq<char>, j: int)
    requires
        0 <= j < s.len(),
        !is_ws(s[j]),
    ensures
        exists|k: int, t: int|
            0 <= k < lines(s).len() && 0 <= t < lines(s)[k].len() && #[trigger] lines(s)[k][t] == s[j],
{
    assert(s[j] != '\n');
    lemma_split_on_covers(s, '\n', j);
    let p = split_on(s, '\n');
    let (k, t) = choose|k: int, t: int|
        0 <= k < p.len() && 0 <= t < p[k].len() && #[trigger] p[k][t] == s[j];
    assert(k < lines(s).len());
    if k < p.len() - 1 && p[k].len() > 0 && p[k].last() == '\r' {
        assert(t != p[k].len() - 1);
    }
    assert(lines(s)[k].len() > t);
    assert(lines(s)[k][t] == s[j]);
}

/// Each character of a line of `s` is a character of `s`.
pub proof fn lemma_lines_chars_from(s: Seq<char>, k: int, t: int)
    requires
        0 <= k < lines(s).len(),
        0 <= t < lines(s)[k].len(),
    ensures
        exists|j: int| 0 <= j < s.len() && s[j] == lines(s)[k][t],
{
    let p = split_on(s, '\n');
    lemma_split_on_nonempty(s, '\n');
    assert(lines(s)[k][t] == p[k][t]);
    lemma_split_on_chars_from(s, '\n', k, t);
}

/// A text that starts with a character other than whitespace has a
/// non-empty first line.
pub proof fn lemma_first_line_nonempty(s: Seq<char>)
    requires
        s.len() > 0,
        !is_ws(s[0]),
    ensures
        lines(s).len() > 0,
        lines(s)[0].len() > 0,
{
    assert(s[0] != '\n');
    lemma_split_on_first_piece(s, '\n');
    lemma_split_on_nonempty(s, '\n');
    let p = split_on(s, '\n');
    assert(p[0][0] != '\r');
    assert(lines(s).len() > 0);
    assert(lines(s)[0].len() > 0);
}

/// A text with a line is not empty.
pub proof fn lemma_lines_of_empty(s: Seq<char>)
    requires
        s.len() == 0,
    ensures
        lines(s).len() == 0,
{
    assert(split_on(s, '\n') == seq![Seq::<char>::empty()]);
}

} // verus!
