//! Dormant branches: those whose last commit is some months old.

use vstd::prelude::*;
use crate::repo::BranchInfo;
use crate::text::{self, byte_len};

verus! {

/// A branch without commits for a while.
#[derive(Debug, Clone)]
pub struct StaleBranch {
    pub name: String,
    pub last_commit_date: String,
    pub last_commit_author: String,
}

pub struct StaleBranchView {
    pub name: Seq<char>,
    pub last_commit_date: Seq<char>,
    pub last_commit_author: Seq<char>,
}

impl View for StaleBranch {
    type V = StaleBranchView;

    open spec fn view(&self) -> StaleBranchView {
        StaleBranchView {
            name: self.name@,
            last_commit_date: self.last_commit_date@,
            last_commit_author: self.last_commit_author@,
        }
    }
}

// ---------------------------------------------------------------------------
// Dates
// ---------------------------------------------------------------------------

/// The first ten bytes of a date text (`&s[..10]`), as characters.
pub open spec fn date_head(s: Seq<char>) -> Seq<char> {
    s.take(text::boundary_index(s, 10))
}

/// The first ten bytes can be cut off: the text has at least ten bytes and
/// byte ten is a character boundary.
pub open spec fn date_cuttable(s: Seq<char>) -> bool {
    byte_len(s) >= 10 && text::is_boundary(s, 10)
}

/// `YYYY-MM-DD` read from the first ten bytes: exactly three `-`-separated
/// fields that parse as a year, a month and a day.
pub open spec fn date_of(s: Seq<char>) -> Option<(i32, u32, u32)> {
    let parts = text::split_on(date_head(s), '-');
    if parts.len() == 3 {
        match (text::parse_i32(parts[0]), text::parse_u32(parts[1]), text::parse_u32(parts[2])) {
            (Some(y), Some(m), Some(d)) => Some((y, m, d)),
            _ => None,
        }
    } else {
        None
    }
}

/// Reads `YYYY-MM-DD` from the first ten bytes of `s`.
pub fn parse_date(s: &str) -> (r: Option<(i32, u32, u32)>)
    requires
        date_cuttable(s@),
    ensures
        r == date_of(s@),
{
    let v = text::chars_of(s);
    match text::char_index_of_byte(&v, 10) {
        Some(j) => {
            proof {
                let k = text::boundary_index(s@, 10);
                assert(text::boundary_at(s@, 10, k));
                text::lemma_boundary_unique(s@, 10, j as int, k);
            }
            let head = text::slice_chars(&v, 0, j);
            assert(head@ =~= date_head(s@));
            let parts = text::split_on_exec(&head, '-');
            if parts.len() == 3 {
                let y = text::parse_i32_exec(&parts[0]);
                let m = text::parse_u32_exec(&parts[1]);
                let d = text::parse_u32_exec(&parts[2]);
                match (y, m, d) {
                    (Some(y), Some(m), Some(d)) => Some((y, m, d)),
                    _ => None,
                }
            } else {
                None
            }
        },
        None => {
            proof {
                assert(false);
            }
            None
        },
    }
}

/// Whether `date_cuttable(s)` holds.
pub fn date_cuttable_exec(s: &str) -> (r: bool)
    ensures
        r == date_cuttable(s@),
{
    let v = text::chars_of(s);
    text::byte_len_exec(&v) >= 10 && text::char_index_of_byte(&v, 10).is_some()
}

/// `x as i32`: the two's-complement reading of a `u32`.
pub open spec fn wrap_i32(x: u32) -> int {
    if x <= i32::MAX {
        x as int
    } else {
        x - 0x1_0000_0000
    }
}

fn wrap_i32_exec(x: u32) -> (r: i32)
    ensures
        r == wrap_i32(x),
{
    if x <= 0x7fff_ffffu32 {
        x as i32
    } else {
        ((x - 0x8000_0000u32) as i32) - 0x7fff_ffffi32 - 1
    }
}

/// Months from `(year, month)` to `today`.
pub open spec fn month_diff(today: (i32, u32, u32), year: i32, month: u32) -> int {
    (today.0 - year) * 12 + (wrap_i32(today.1) - wrap_i32(month))
}

/// The month arithmetic fits `i32` at every step.
pub open spec fn month_diff_fits(today: (i32, u32, u32), year: i32, month: u32) -> bool {
    &&& i32::MIN <= today.0 - year <= i32::MAX
    &&& i32::MIN <= (today.0 - year) * 12 <= i32::MAX
    &&& i32::MIN <= wrap_i32(today.1) - wrap_i32(month) <= i32::MAX
    &&& i32::MIN <= month_diff(today, year, month) <= i32::MAX
}

/// A date text can be judged against `today` without a panic: its first
/// ten bytes can be cut off when it has ten, and the month arithmetic
/// fits when it parses.
pub open spec fn date_checkable(s: Seq<char>, today: (i32, u32, u32)) -> bool {
    byte_len(s) >= 10 ==> {
        &&& text::is_boundary(s, 10)
        &&& date_of(s) matches Some((y, m, _)) ==> month_diff_fits(today, y, m)
    }
}

/// The date lies at least `months` months before `today` (days are not
/// looked at); texts shorter than ten bytes or not in `YYYY-MM-DD` form
/// are not old.
pub open spec fn older_than(s: Seq<char>, months: u32, today: (i32, u32, u32)) -> bool {
    if s.len() == 0 || byte_len(s) < 10 {
        false
    } else {
        match date_of(s) {
            Some((y, m, _)) => month_diff(today, y, m) >= wrap_i32(months),
            None => false,
        }
    }
}

/// Whether `date_str` lies at least `months` months before `today`.
pub fn is_older_than_months(date_str: &str, months: u32, today: (i32, u32, u32)) -> (r: bool)
    requires
        date_checkable(date_str@, today),
    ensures
        r == older_than(date_str@, months, today),
{
    let v = text::chars_of(date_str);
    if v.len() == 0 || text::byte_len_exec(&v) < 10 {
        return false;
    }
    let (year, month, _day) = match parse_date(date_str) {
        Some(d) => d,
        None => return false,
    };
    let diff = (today.0 - year) * 12 + (wrap_i32_exec(today.1) - wrap_i32_exec(month));
    diff >= wrap_i32_exec(months)
}

/// Today's date from the output of `date +%Y-%m-%d` (`None` when the
/// command could not run): the trimmed output read as a date, or
/// 2026-07-19 when it cannot be read.
pub fn today_ymd(date_output: Option<&str>) -> (r: (i32, u32, u32))
    requires
        date_output matches Some(s) ==> date_cuttable(text::trim(s@)),
    ensures
        r == match date_output {
            Some(s) => match date_of(text::trim(s@)) {
                Some(d) => d,
                None => (2026i32, 7u32, 19u32),
            },
            None => (2026i32, 7u32, 19u32),
        },
{
    match date_output {
        Some(s) => {
            let v = text::chars_of(s);
            let t = text::string_of(&text::trim_chars(&v));
            match parse_date(t.as_str()) {
                Some(d) => d,
                None => (2026, 7, 19),
            }
        },
        None => (2026, 7, 19),
    }
}

// ---------------------------------------------------------------------------
// Finding stale branches
// ---------------------------------------------------------------------------

pub open spec fn stale_entry(b: BranchInfo) -> StaleBranchView {
    StaleBranchView {
        name: b.name@,
        last_commit_date: b.commit_date@,
        last_commit_author: b.author@,
    }
}

/// The stale branches among the first `n`, other than `current`.
pub open spec fn stale_list(
    bs: Seq<BranchInfo>,
    current: Seq<char>,
    months: u32,
    today: (i32, u32, u32),
    n: nat,
) -> Seq<StaleBranchView>
    decreases n,
{
    if n == 0 {
        Seq::<StaleBranchView>::empty()
    } else {
        let prev = stale_list(bs, current, months, today, (n - 1) as nat);
        let b = bs[n - 1];
        if b.name@ != current && older_than(b.commit_date@, months, today) {
            prev.push(stale_entry(b))
        } else {
            prev
        }
    }
}

pub open spec fn stale_views(v: Seq<StaleBranch>) -> Seq<StaleBranchView> {
    v.map_values(|b: StaleBranch| b@)
}

/// Every branch date can be judged against `today`.
pub open spec fn dates_checkable(bs: Seq<BranchInfo>, today: (i32, u32, u32)) -> bool {
    forall|i: int| 0 <= i < bs.len() ==> date_checkable(#[trigger] bs[i].commit_date@, today)
}

/// The branches other than `current` whose last commit lies at least
/// `months` months before `today`, in their order.
pub fn find_stale(
    branches: &Vec<BranchInfo>,
    current: &str,
    months: u32,
    today: (i32, u32, u32),
) -> (r: Vec<StaleBranch>)
    requires
        dates_checkable(branches@, today),
    ensures
        stale_views(r@) == stale_list(branches@, current@, months, today, branches@.len() as nat),
{
    let cv = text::chars_of(current);
    let mut out: Vec<StaleBranch> = Vec::new();
    let mut i: usize = 0;
    while i < branches.len()
        invariant
            i <= branches@.len(),
            cv@ == current@,
            dates_checkable(branches@, today),
            stale_views(out@) == stale_list(branches@, current@, months, today, i as nat),
        decreases branches.len() - i,
    {
        let b = &branches[i];
        let nv = text::chars_of(b.name.as_str());
        let ghost before = out@;
        assert(date_checkable(branches@[i as int].commit_date@, today));
        if !text::chars_eq(&nv, &cv) && is_older_than_months(b.commit_date.as_str(), months, today) {
            let entry = StaleBranch {
                name: text::string_of(&nv),
                last_commit_date: text::string_of(&text::chars_of(b.commit_date.as_str())),
                last_commit_author: text::string_of(&text::chars_of(b.author.as_str())),
            };
            out.push(entry);
            assert(stale_views(out@) =~= stale_views(before).push(entry@));
        }
        i = i + 1;
    }
    out
}

/// Whether every branch date can be judged against `today`.
pub fn dates_checkable_exec(branches: &Vec<BranchInfo>, today: (i32, u32, u32)) -> (r: bool)
    ensures
        r == dates_checkable(branches@, today),
{
    let mut i: usize = 0;
    while i < branches.len()
        invariant
            i <= branches@.len(),
            forall|j: int| 0 <= j < i ==> date_checkable(#[trigger] branches@[j].commit_date@, today),
        decreases branches.len() - i,
    {
        if !date_checkable_exec(branches[i].commit_date.as_str(), today) {
            return false;
        }
        i = i + 1;
    }
    true
}

/// Whether `date_checkable(s, today)` holds.
pub fn date_checkable_exec(s: &str, today: (i32, u32, u32)) -> (r: bool)
    ensures
        r == date_checkable(s@, today),
{
    let v = text::chars_of(s);
    if text::byte_len_exec(&v) < 10 {
        return true;
    }
    if text::char_index_of_byte(&v, 10).is_none() {
        return false;
    }
    match parse_date(s) {
        Some((y, m, _)) => {
            let dy: i64 = today.0 as i64 - y as i64;
            let dm: i64 = wrap_i32_exec(today.1) as i64 - wrap_i32_exec(m) as i64;
            let lo: i64 = -0x8000_0000i64;
            let hi: i64 = 0x7fff_ffffi64;
            if dy < lo || dy > hi {
                return false;
            }
            let dy12 = dy * 12;
            dy12 >= lo && dy12 <= hi && dm >= lo && dm <= hi && dy12 + dm >= lo && dy12 + dm <= hi
        },
        None => true,
    }
}

} // verus!
