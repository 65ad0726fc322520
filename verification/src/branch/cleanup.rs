//! Cleaning branches that are merged into the current one.

use vstd::prelude::*;
use crate::error::GhError;
use crate::repo::BranchInfo;
use crate::text::{self, dec_str};

verus! {

/// A merged branch that cleanup may delete, unless it is protected.
#[derive(Debug, Clone)]
pub struct CleanableBranch {
    pub name: String,
    pub last_commit_date: String,
    pub last_commit_message: String,
    pub reason: String,
    pub is_protected: bool,
}

pub struct CleanableBranchView {
    pub name: Seq<char>,
    pub last_commit_date: Seq<char>,
    pub last_commit_message: Seq<char>,
    pub reason: Seq<char>,
    pub is_protected: bool,
}

impl View for CleanableBranch {
    type V = CleanableBranchView;

    open spec fn view(&self) -> CleanableBranchView {
        CleanableBranchView {
            name: self.name@,
            last_commit_date: self.last_commit_date@,
            last_commit_message: self.last_commit_message@,
            reason: self.reason@,
            is_protected: self.is_protected,
        }
    }
}

/// A cleanable branch as the user interface receives it.
#[derive(Debug, Clone)]
pub struct CleanableBranchResponse {
    pub name: String,
    pub last_commit_date: String,
    pub last_commit_message: String,
    pub reason: String,
    pub is_protected: bool,
}

impl CleanableBranchResponse {
    /// The response describing `b`, field for field.
    pub fn from_branch(b: &CleanableBranch) -> (r: CleanableBranchResponse)
        ensures
            r.name@ == b.name@,
            r.last_commit_date@ == b.last_commit_date@,
            r.last_commit_message@ == b.last_commit_message@,
            r.reason@ == b.reason@,
            r.is_protected == b.is_protected,
    {
        CleanableBranchResponse {
            name: text::string_of(&text::chars_of(b.name.as_str())),
            last_commit_date: text::string_of(&text::chars_of(b.last_commit_date.as_str())),
            last_commit_message: text::string_of(&text::chars_of(b.last_commit_message.as_str())),
            reason: text::string_of(&text::chars_of(b.reason.as_str())),
            is_protected: b.is_protected,
        }
    }
}

// ---------------------------------------------------------------------------
// Protection rules
// ---------------------------------------------------------------------------

/// Branch name patterns that are always protected.
pub open spec fn builtin_protected() -> Seq<Seq<char>> {
    seq![
        "main"@, "master"@, "develop"@, "dev"@, "release/*"@, "hotfix/*"@, "production"@,
        "staging"@
    ]
}

fn builtin_protected_list() -> (v: Vec<&'static str>)
    ensures
        v@.len() == builtin_protected().len(),
        forall|i: int| 0 <= i < v@.len() ==> (#[trigger] v@[i])@ == builtin_protected()[i],
{
    vec!["main", "master", "develop", "dev", "release/*", "hotfix/*", "production", "staging"]
}

/// `pattern` matches `name` as a glob: equal, or `pattern` is `prefix/*`
/// and `name` is `prefix/` followed by at least one more character.
pub open spec fn wildcard_matches(pattern: Seq<char>, name: Seq<char>) -> bool {
    ||| pattern == name
    ||| {
        &&& text::ends_with(pattern, seq!['/', '*'])
        &&& text::starts_with(name, pattern.take(pattern.len() - 1))
        &&& name.len() > pattern.len() - 1
    }
}

/// `wildcard_matches(pattern, name)`.
pub fn wildcard_match(pattern: &str, name: &str) -> (r: bool)
    ensures
        r == wildcard_matches(pattern@, name@),
{
    let pv = text::chars_of(pattern);
    let nv = text::chars_of(name);
    if text::chars_eq(&pv, &nv) {
        return true;
    }
    let mut tail: Vec<char> = Vec::new();
    tail.push('/');
    tail.push('*');
    assert(tail@ =~= seq!['/', '*']);
    if text::ends_with_exec(&pv, &tail) {
        let prefix = text::slice_chars(&pv, 0, pv.len() - 1);
        assert(prefix@ =~= pv@.take(pv@.len() - 1));
        text::starts_with_exec(&nv, &prefix) && nv.len() > prefix.len()
    } else {
        false
    }
}

/// Some pattern of `list` matches `name`.
pub open spec fn any_matches(list: Seq<Seq<char>>, name: Seq<char>) -> bool {
    exists|i: int| 0 <= i < list.len() && wildcard_matches(#[trigger] list[i], name)
}

pub open spec fn string_views(v: Seq<String>) -> Seq<Seq<char>> {
    v.map_values(|s: String| s@)
}

/// A branch is protected when a built-in pattern or a whitelist pattern
/// matches its name.
pub open spec fn protected(name: Seq<char>, whitelist: Seq<Seq<char>>) -> bool {
    any_matches(builtin_protected(), name) || any_matches(whitelist, name)
}

fn any_match_static(list: &Vec<&'static str>, name: &str) -> (r: bool)
    ensures
        r == any_matches(list@.map_values(|s: &'static str| s@), name@),
{
    let ghost views = list@.map_values(|s: &'static str| s@);
    let mut i: usize = 0;
    while i < list.len()
        invariant
            i <= list@.len(),
            views == list@.map_values(|s: &'static str| s@),
            forall|k: int| 0 <= k < i ==> !wildcard_matches(#[trigger] views[k], name@),
        decreases list.len() - i,
    {
        if wildcard_match(list[i], name) {
            assert(wildcard_matches(views[i as int], name@));
            return true;
        }
        i = i + 1;
    }
    false
}

fn any_match_owned(list: &Vec<String>, name: &str) -> (r: bool)
    ensures
        r == any_matches(string_views(list@), name@),
{
    let ghost views = string_views(list@);
    let mut i: usize = 0;
    while i < list.len()
        invariant
            i <= list@.len(),
            views == string_views(list@),
            forall|k: int| 0 <= k < i ==> !wildcard_matches(#[trigger] views[k], name@),
        decreases list.len() - i,
    {
        if wildcard_match(list[i].as_str(), name) {
            assert(wildcard_matches(views[i as int], name@));
            return true;
        }
        i = i + 1;
    }
    false
}

/// Whether branch `name` is protected by the built-in patterns or by
/// `whitelist`.
pub fn is_protected_branch(name: &str, whitelist: &Vec<String>) -> (r: bool)
    ensures
        r == protected(name@, string_views(whitelist@)),
{
    let builtin = builtin_protected_list();
    proof {
        assert(builtin@.map_values(|s: &'static str| s@) =~= builtin_protected());
    }
    any_match_static(&builtin, name) || any_match_owned(whitelist, name)
}

// ---------------------------------------------------------------------------
// Scanning
// ---------------------------------------------------------------------------

/// Why a merged branch is listed.
pub open spec fn reason_text(is_protected: bool, current: Seq<char>) -> Seq<char> {
    if is_protected {
        "已合并但被白名单/内置规则保护"@
    } else {
        "已合并到 "@ + current
    }
}

pub open spec fn cleanable_entry(
    b: BranchInfo,
    current: Seq<char>,
    whitelist: Seq<Seq<char>>,
) -> CleanableBranchView {
    let p = protected(b.name@, whitelist);
    CleanableBranchView {
        name: b.name@,
        last_commit_date: b.commit_date@,
        last_commit_message: b.commit_message@,
        reason: reason_text(p, current),
        is_protected: p,
    }
}

/// The entries for the first `n` branches: those other than `current`
/// that are known to be merged.
pub open spec fn cleanable_list(
    current: Seq<char>,
    bs: Seq<BranchInfo>,
    merged: Seq<Option<bool>>,
    whitelist: Seq<Seq<char>>,
    n: nat,
) -> Seq<CleanableBranchView>
    decreases n,
{
    if n == 0 {
        Seq::<CleanableBranchView>::empty()
    } else {
        let prev = cleanable_list(current, bs, merged, whitelist, (n - 1) as nat);
        if bs[n - 1].name@ != current && merged[n - 1] == Some(true) {
            prev.push(cleanable_entry(bs[n - 1], current, whitelist))
        } else {
            prev
        }
    }
}

pub open spec fn cleanable_views(v: Seq<CleanableBranch>) -> Seq<CleanableBranchView> {
    v.map_values(|b: CleanableBranch| b@)
}

/// Every branch that the scan lists is a merged branch other than the
/// current one, and it is protected exactly when a built-in pattern or a
/// pattern of the whitelist passed in matches its name (so a merged
/// whitelisted branch is protected, and cleanup never deletes it); its
/// reason says which.
pub proof fn lemma_scan_marks_protection(
    current: Seq<char>,
    bs: Seq<BranchInfo>,
    merged: Seq<Option<bool>>,
    whitelist: Seq<Seq<char>>,
    n: nat,
)
    requires
        n <= bs.len(),
        n <= merged.len(),
    ensures
        forall|j: int|
            0 <= j < cleanable_list(current, bs, merged, whitelist, n).len() ==> {
                let e = #[trigger] cleanable_list(current, bs, merged, whitelist, n)[j];
                &&& e.is_protected == (any_matches(builtin_protected(), e.name) || any_matches(
                    whitelist,
                    e.name,
                ))
                &&& e.reason == (if e.is_protected {
                    "已合并但被白名单/内置规则保护"@
                } else {
                    "已合并到 "@ + current
                })
                &&& exists|i: int|
                    0 <= i < n && #[trigger] bs[i].name@ == e.name && e.name != current && merged[i]
                        == Some(true)
            },
    decreases n,
{
    if n > 0 {
        lemma_scan_marks_protection(current, bs, merged, whitelist, (n - 1) as nat);
        let prev = cleanable_list(current, bs, merged, whitelist, (n - 1) as nat);
        let cur = cleanable_list(current, bs, merged, whitelist, n);
        assert forall|j: int| 0 <= j < cur.len() implies ({
            let e = #[trigger] cur[j];
            &&& e.is_protected == (any_matches(builtin_protected(), e.name) || any_matches(whitelist, e.name))
            &&& e.reason == (if e.is_protected {
                "已合并但被白名单/内置规则保护"@
            } else {
                "已合并到 "@ + current
            })
            &&& exists|i: int|
                0 <= i < n && #[trigger] bs[i].name@ == e.name && e.name != current && merged[i] == Some(true)
        }) by {
            if j < prev.len() {
                assert(cur[j] == prev[j]);
                let e = prev[j];
                let i = choose|i: int|
                    0 <= i < n - 1 && #[trigger] bs[i].name@ == e.name && e.name != current && merged[i] == Some(true);
                assert(bs[i].name@ == e.name);
            } else {
                assert(bs[n - 1].name@ == cur[j].name);
            }
        }
    }
}

/// The merged branches of a repository, given its current branch, its
/// local branches and, for each of them, whether it is merged into the
/// current branch (`None` where that could not be decided).
pub fn scan_cleanable(
    current: &str,
    branches: &Vec<BranchInfo>,
    merged: &Vec<Option<bool>>,
    whitelist: &Vec<String>,
) -> (r: Vec<CleanableBranch>)
    requires
        merged@.len() == branches@.len(),
    ensures
        cleanable_views(r@) == cleanable_list(
            current@,
            branches@,
            merged@,
            string_views(whitelist@),
            branches@.len() as nat,
        ),
{
    let ghost wl = string_views(whitelist@);
    let cv = text::chars_of(current);
    let mut out: Vec<CleanableBranch> = Vec::new();
    let mut i: usize = 0;
    while i < branches.len()
        invariant
            i <= branches@.len(),
            merged@.len() == branches@.len(),
            cv@ == current@,
            wl == string_views(whitelist@),
            cleanable_views(out@) == cleanable_list(current@, branches@, merged@, wl, i as nat),
        decreases branches.len() - i,
    {
        let b = &branches[i];
        let nv = text::chars_of(b.name.as_str());
        let ghost before = out@;
        if !text::chars_eq(&nv, &cv) && merged[i] == Some(true) {
            let is_protected = is_protected_branch(b.name.as_str(), whitelist);
            let reason = if is_protected {
                text::string_of(&text::chars_of("已合并但被白名单/内置规则保护"))
            } else {
                let mut rv = text::chars_of("已合并到 ");
                text::append_chars(&mut rv, &cv);
                text::string_of(&rv)
            };
            let entry = CleanableBranch {
                name: text::string_of(&nv),
                last_commit_date: text::string_of(&text::chars_of(b.commit_date.as_str())),
                last_commit_message: text::string_of(&text::chars_of(b.commit_message.as_str())),
                reason,
                is_protected,
            };
            assert(entry@ == cleanable_entry(branches@[i as int], current@, wl));
            out.push(entry);
            assert(cleanable_views(out@) =~= cleanable_views(before).push(entry@));
        }
        i = i + 1;
    }
    out
}

// ---------------------------------------------------------------------------
// Executing
// ---------------------------------------------------------------------------

/// What cleanup does for one unprotected branch.
#[derive(Debug, Clone)]
pub enum CleanupStep {
    /// Report the branch without touching it (dry run).
    Report(String),
    /// Delete the branch with this name, then report the name.
    Delete(String),
}

pub enum CleanupStepView {
    Report(Seq<char>),
    Delete(Seq<char>),
}

impl View for CleanupStep {
    type V = CleanupStepView;

    open spec fn view(&self) -> CleanupStepView {
        match self {
            CleanupStep::Report(m) => CleanupStepView::Report(m@),
            CleanupStep::Delete(n) => CleanupStepView::Delete(n@),
        }
    }
}

/// The steps for the first `n` branches: none for a protected branch; a
/// report in a dry run; a deletion otherwise.
pub open spec fn cleanup_steps(bs: Seq<CleanableBranchView>, dry_run: bool, n: nat) -> Seq<
    CleanupStepView,
>
    decreases n,
{
    if n == 0 {
        Seq::<CleanupStepView>::empty()
    } else {
        let prev = cleanup_steps(bs, dry_run, (n - 1) as nat);
        let b = bs[n - 1];
        if b.is_protected {
            prev
        } else if dry_run {
            prev.push(CleanupStepView::Report(b.name + " (dry-run, 未实际删除)"@))
        } else {
            prev.push(CleanupStepView::Delete(b.name))
        }
    }
}

pub open spec fn step_views(v: Seq<CleanupStep>) -> Seq<CleanupStepView> {
    v.map_values(|s: CleanupStep| s@)
}

/// The cleanup of `branches`, step by step; `cleanup_progress` runs the
/// steps, stopping at the first failed deletion.
pub fn execute_cleanup(branches: &Vec<CleanableBranch>, dry_run: bool) -> (r: Vec<CleanupStep>)
    ensures
        step_views(r@) == cleanup_steps(cleanable_views(branches@), dry_run, branches@.len() as nat),
{
    let ghost bv = cleanable_views(branches@);
    let mut out: Vec<CleanupStep> = Vec::new();
    let mut i: usize = 0;
    while i < branches.len()
        invariant
            i <= branches@.len(),
            bv == cleanable_views(branches@),
            step_views(out@) == cleanup_steps(bv, dry_run, i as nat),
        decreases branches.len() - i,
    {
        let b = &branches[i];
        let ghost before = out@;
        if !b.is_protected {
            let step = if dry_run {
                let mut m = text::chars_of(b.name.as_str());
                text::append_str(&mut m, " (dry-run, 未实际删除)");
                CleanupStep::Report(text::string_of(&m))
            } else {
                CleanupStep::Delete(text::string_of(&text::chars_of(b.name.as_str())))
            };
            out.push(step);
            assert(step_views(out@) =~= step_views(before).push(step@));
        }
        i = i + 1;
    }
    out
}

/// Where a cleanup stands, given the outcomes of the deletions run so far.
#[derive(Debug, Clone)]
pub enum CleanupProgress {
    /// Delete this branch next, then add the outcome.
    Delete(String),
    /// Every step went through: the reported texts and deleted names, in
    /// order.
    Done(Vec<String>),
    /// A deletion failed with this error; no later branch is touched.
    Failed(GhError),
}

pub enum CleanupProgressView {
    Delete(Seq<char>),
    Done(Seq<Seq<char>>),
    Failed(GhError),
}

impl View for CleanupProgress {
    type V = CleanupProgressView;

    open spec fn view(&self) -> CleanupProgressView {
        match self {
            CleanupProgress::Delete(n) => CleanupProgressView::Delete(n@),
            CleanupProgress::Done(v) => CleanupProgressView::Done(v@.map_values(|s: String| s@)),
            CleanupProgress::Failed(e) => CleanupProgressView::Failed(*e),
        }
    }
}

/// The cleanup from step `i` on, with `j` deletion outcomes used and
/// `names` collected: a report adds its text; a deletion with no outcome
/// yet is the next thing to do; a failed one ends the cleanup with its
/// error; a successful one adds the branch's name.
pub open spec fn progress_from(
    steps: Seq<CleanupStepView>,
    outs: Seq<Result<(), GhError>>,
    i: nat,
    j: nat,
    names: Seq<Seq<char>>,
) -> CleanupProgressView
    decreases steps.len() - i,
{
    if i >= steps.len() {
        CleanupProgressView::Done(names)
    } else {
        match steps[i as int] {
            CleanupStepView::Report(t) => progress_from(steps, outs, i + 1, j, names.push(t)),
            CleanupStepView::Delete(n) => if j >= outs.len() {
                CleanupProgressView::Delete(n)
            } else {
                match outs[j as int] {
                    Ok(_) => progress_from(steps, outs, i + 1, j + 1, names.push(n)),
                    Err(e) => CleanupProgressView::Failed(e),
                }
            },
        }
    }
}

/// Where the cleanup of `steps` stands after the deletion outcomes `outs`,
/// the outcome of each deletion in the order asked for.
pub open spec fn cleanup_progress_of(steps: Seq<CleanupStepView>, outs: Seq<Result<(), GhError>>) -> CleanupProgressView {
    progress_from(steps, outs, 0, 0, Seq::<Seq<char>>::empty())
}

/// The next move of a cleanup run step by step: the caller deletes the
/// branch it names, adds the outcome and asks again, until the cleanup is
/// done or has failed.
pub fn cleanup_progress(steps: &Vec<CleanupStep>, outcomes: Vec<Result<(), GhError>>) -> (r: CleanupProgress)
    ensures
        r@ == cleanup_progress_of(step_views(steps@), outcomes@),
{
    let ghost sv = step_views(steps@);
    let ghost outs = outcomes@;
    let mut rest = outcomes;
    let mut names: Vec<String> = Vec::new();
    let mut i: usize = 0;
    let mut j: usize = 0;
    assert(names@.map_values(|s: String| s@) =~= Seq::<Seq<char>>::empty());
    while i < steps.len()
        invariant
            i <= steps@.len(),
            j <= rest@.len(),
            rest@ == outs,
            outs == outcomes@,
            sv == step_views(steps@),
            progress_from(sv, outs, i as nat, j as nat, names@.map_values(|s: String| s@))
                == cleanup_progress_of(sv, outs),
        decreases steps.len() - i,
    {
        let ghost nv = names@.map_values(|s: String| s@);
        assert(sv[i as int] == steps@[i as int]@);
        match &steps[i] {
            CleanupStep::Report(t) => {
                names.push(text::string_of(&text::chars_of(t.as_str())));
                assert(names@.map_values(|s: String| s@) =~= nv.push(t@));
            },
            CleanupStep::Delete(n) => {
                if j >= rest.len() {
                    assert(progress_from(sv, outs, i as nat, j as nat, nv) == CleanupProgressView::Delete(n@));
                    return CleanupProgress::Delete(text::string_of(&text::chars_of(n.as_str())));
                }
                let failed = match &rest[j] {
                    Err(_) => true,
                    Ok(_) => false,
                };
                if failed {
                    let o = rest.remove(j);
                    assert(o == outs[j as int]);
                    assert(o is Err ==> progress_from(sv, outs, i as nat, j as nat, nv)
                        == CleanupProgressView::Failed(o->Err_0));
                    return match o {
                        Err(e) => CleanupProgress::Failed(e),
                        Ok(_) => vstd::pervasive::unreached(),
                    };
                }
                names.push(text::string_of(&text::chars_of(n.as_str())));
                assert(names@.map_values(|s: String| s@) =~= nv.push(n@));
                j = j + 1;
            },
        }
        i = i + 1;
    }
    assert(progress_from(sv, outs, i as nat, j as nat, names@.map_values(|s: String| s@))
        == CleanupProgressView::Done(names@.map_values(|s: String| s@)));
    CleanupProgress::Done(names)
}

/// The names of the unprotected branches among the first `n`, in order.
pub open spec fn deletable_names(bs: Seq<CleanableBranchView>, n: nat) -> Seq<Seq<char>>
    decreases n,
{
    if n == 0 {
        Seq::<Seq<char>>::empty()
    } else if bs[n - 1].is_protected {
        deletable_names(bs, (n - 1) as nat)
    } else {
        deletable_names(bs, (n - 1) as nat).push(bs[n - 1].name)
    }
}

pub open spec fn delete_steps(ds: Seq<Seq<char>>) -> Seq<CleanupStepView> {
    ds.map_values(|n: Seq<char>| CleanupStepView::Delete(n))
}

proof fn lemma_steps_are_deletions(bs: Seq<CleanableBranchView>, n: nat)
    requires
        n <= bs.len(),
    ensures
        cleanup_steps(bs, false, n) == delete_steps(deletable_names(bs, n)),
    decreases n,
{
    if n > 0 {
        lemma_steps_are_deletions(bs, (n - 1) as nat);
        assert(cleanup_steps(bs, false, n) =~= delete_steps(deletable_names(bs, n)));
    }
}

proof fn lemma_progress_deletes(ds: Seq<Seq<char>>, outs: Seq<Result<(), GhError>>, i: nat, k: nat)
    requires
        i <= k <= ds.len(),
        forall|m: int| i <= m < k ==> m < outs.len() && (#[trigger] outs[m]) is Ok,
    ensures
        progress_from(delete_steps(ds), outs, i, i, ds.take(i as int)) == progress_from(
            delete_steps(ds),
            outs,
            k,
            k,
            ds.take(k as int),
        ),
    decreases k - i,
{
    if i < k {
        assert(outs[i as int] is Ok);
        assert(delete_steps(ds)[i as int] == CleanupStepView::Delete(ds[i as int]));
        assert(ds.take(i as int).push(ds[i as int]) =~= ds.take(i + 1 as int));
        lemma_progress_deletes(ds, outs, i + 1, k);
    }
}

/// Running a cleanup (not a dry run) deletes the unprotected branches in
/// order and never a protected one: while the deletions so far succeeded
/// it asks to delete the next unprotected branch; once all succeeded it is
/// done, with their names in order; at the first failed deletion it stops
/// with that deletion's error, so no later branch is touched.
pub proof fn lemma_cleanup_run(bs: Seq<CleanableBranchView>, outs: Seq<Result<(), GhError>>, k: nat)
    requires
        k <= deletable_names(bs, bs.len()).len(),
        forall|m: int| 0 <= m < k ==> m < outs.len() && (#[trigger] outs[m]) is Ok,
    ensures
        ({
            let ds = deletable_names(bs, bs.len());
            let p = cleanup_progress_of(cleanup_steps(bs, false, bs.len()), outs);
            &&& k == ds.len() ==> p == CleanupProgressView::Done(ds)
            &&& k < ds.len() && outs.len() == k ==> p == CleanupProgressView::Delete(ds[k as int])
            &&& k < ds.len() && k < outs.len() && outs[k as int] is Err ==> p == CleanupProgressView::Failed(
                outs[k as int]->Err_0,
            )
        }),
{
    let ds = deletable_names(bs, bs.len());
    lemma_steps_are_deletions(bs, bs.len());
    assert(ds.take(0) =~= Seq::<Seq<char>>::empty());
    lemma_progress_deletes(ds, outs, 0, k);
    if k == ds.len() {
        assert(ds.take(k as int) =~= ds);
    } else {
        assert(delete_steps(ds)[k as int] == CleanupStepView::Delete(ds[k as int]));
    }
}

/// No cleanup step deletes a protected branch, and a dry run deletes
/// nothing: every deletion names an unprotected branch of the list.
pub proof fn lemma_cleanup_spares_protected(bs: Seq<CleanableBranchView>, dry_run: bool, n: nat)
    requires
        n <= bs.len(),
    ensures
        forall|k: int|
            0 <= k < cleanup_steps(bs, dry_run, n).len() ==> (#[trigger] cleanup_steps(
                bs,
                dry_run,
                n,
            )[k] matches CleanupStepView::Delete(name) ==> !dry_run && exists|j: int|
                0 <= j < n && bs[j].name == name && !bs[j].is_protected),
    decreases n,
{
    if n > 0 {
        lemma_cleanup_spares_protected(bs, dry_run, (n - 1) as nat);
        let prev = cleanup_steps(bs, dry_run, (n - 1) as nat);
        let cur = cleanup_steps(bs, dry_run, n);
        assert forall|k: int| 0 <= k < cur.len() implies (#[trigger] cur[k] matches CleanupStepView::Delete(
            name,
        ) ==> !dry_run && exists|j: int| 0 <= j < n && bs[j].name == name && !bs[j].is_protected) by {
            if k < prev.len() {
                assert(cur[k] == prev[k]);
                if let CleanupStepView::Delete(name) = prev[k] {
                    let j = choose|j: int| 0 <= j < n - 1 && bs[j].name == name && !bs[j].is_protected;
                    assert(0 <= j < n);
                }
            } else {
                if let CleanupStepView::Delete(name) = cur[k] {
                    assert(bs[n - 1].name == name && !bs[n - 1].is_protected);
                }
            }
        }
    }
}

// ---------------------------------------------------------------------------
// Dry-run report
// ---------------------------------------------------------------------------

pub open spec fn count_unprotected(bs: Seq<CleanableBranchView>, n: nat) -> nat
    decreases n,
{
    if n == 0 {
        0
    } else {
        count_unprotected(bs, (n - 1) as nat) + if bs[n - 1].is_protected {
            0nat
        } else {
            1nat
        }
    }
}

/// One branch of the dry-run report: its mark (`🔒 protected` or
/// `✅ safe-delete`), name, date, message and reason.
pub open spec fn dry_run_line(b: CleanableBranchView) -> Seq<char> {
    (if b.is_protected {
        "🔒 protected"@
    } else {
        "✅ safe-delete"@
    }) + seq![' '] + b.name + "  ("@ + b.last_commit_date + " | "@ + b.last_commit_message
        + ")\n   └─ "@ + b.reason + seq!['\n']
}

pub open spec fn dry_run_lines(bs: Seq<CleanableBranchView>, n: nat) -> Seq<char>
    decreases n,
{
    if n == 0 {
        Seq::<char>::empty()
    } else {
        dry_run_lines(bs, (n - 1) as nat) + dry_run_line(bs[n - 1])
    }
}

/// The dry-run report of a cleanup.
pub open spec fn dry_run_text(bs: Seq<CleanableBranchView>) -> Seq<char> {
    let head = "=== 分支清理预演 (--dry-run) ===\n\n"@;
    if bs.len() == 0 {
        head + "没有可清理的分支。\n"@
    } else {
        let n = bs.len();
        let c = count_unprotected(bs, n);
        let body = head + dry_run_lines(bs, n) + "\n总计: "@ + dec_str(n) + " 个已合并分支, "@ + dec_str(c)
            + " 个可安全删除, "@ + dec_str((n - c) as nat) + " 个被保护\n"@;
        if c > 0 {
            body + "\n💡 确认无误后使用 --force 执行实际删除。\n"@
        } else {
            body
        }
    }
}

fn push_dry_run_line(out: &mut Vec<char>, b: &CleanableBranch)
    ensures
        final(out)@ == old(out)@ + dry_run_line(b@),
{
    let mut line: Vec<char> = if b.is_protected {
        text::chars_of("🔒 protected")
    } else {
        text::chars_of("✅ safe-delete")
    };
    line.push(' ');
    text::append_str(&mut line, b.name.as_str());
    text::append_str(&mut line, "  (");
    text::append_str(&mut line, b.last_commit_date.as_str());
    text::append_str(&mut line, " | ");
    text::append_str(&mut line, b.last_commit_message.as_str());
    text::append_str(&mut line, ")\n   └─ ");
    text::append_str(&mut line, b.reason.as_str());
    line.push('\n');
    text::append_chars(out, &line);
}

/// The dry-run report: each branch with its icon, date, message and
/// reason, then the totals.
pub fn format_dry_run(branches: &Vec<CleanableBranch>) -> (r: String)
    ensures
        r@ == dry_run_text(cleanable_views(branches@)),
{
    let ghost bv = cleanable_views(branches@);
    let mut out = text::chars_of("=== 分支清理预演 (--dry-run) ===\n\n");
    let ghost head = out@;
    if branches.len() == 0 {
        text::append_str(&mut out, "没有可清理的分支。\n");
        return text::string_of(&out);
    }
    let mut count: usize = 0;
    let mut i: usize = 0;
    while i < branches.len()
        invariant
            i <= branches@.len(),
            bv == cleanable_views(branches@),
            count == count_unprotected(bv, i as nat),
            count <= i,
            out@ == head + dry_run_lines(bv, i as nat),
        decreases branches.len() - i,
    {
        push_dry_run_line(&mut out, &branches[i]);
        if !branches[i].is_protected {
            count = count + 1;
        }
        i = i + 1;
    }
    text::append_str(&mut out, "\n总计: ");
    text::push_u64(&mut out, branches.len() as u64);
    text::append_str(&mut out, " 个已合并分支, ");
    text::push_u64(&mut out, count as u64);
    text::append_str(&mut out, " 个可安全删除, ");
    text::push_u64(&mut out, (branches.len() - count) as u64);
    text::append_str(&mut out, " 个被保护\n");
    if count > 0 {
        text::append_str(&mut out, "\n💡 确认无误后使用 --force 执行实际删除。\n");
    }
    text::string_of(&out)
}

} // verus!
