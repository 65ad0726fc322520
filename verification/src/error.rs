//! The error type of the toolbox and the friendly rewording of git's
//! messages.

use vstd::prelude::*;
use crate::text;

verus! {

/// Everything that can go wrong; each variant carries its message.
#[derive(Debug, Clone)]
pub enum GhError {
    /// A git command failed.
    Git(String),
    /// A file-system operation failed.
    Io(String),
    /// A configuration file could not be read, parsed or written.
    Config(String),
    /// An argument was refused.
    Args(String),
    /// A dangerous operation was blocked by the safety rules.
    Blocked(String),
    /// Something was not found.
    NotFound(String),
    /// A value could not be serialised.
    Serialize(String),
    /// Anything else.
    Other(String),
}

/// The text that the error displays.
pub open spec fn error_text(e: GhError) -> Seq<char> {
    match e {
        GhError::Git(m) => "Git 仓库错误: "@ + m@,
        GhError::Io(m) => "文件系统错误: "@ + m@,
        GhError::Config(m) => "配置错误: "@ + m@,
        GhError::Args(m) => "参数错误: "@ + m@,
        GhError::Blocked(m) => "操作被拦截: "@ + m@,
        GhError::NotFound(m) => "未找到: "@ + m@,
        GhError::Serialize(m) => "序列化错误: "@ + m@,
        GhError::Other(m) => m@,
    }
}

impl GhError {
    /// The message shown to the user (what `Display` writes).
    pub fn message(&self) -> (r: String)
        ensures
            r@ == error_text(*self),
    {
        let mut out: Vec<char> = Vec::new();
        match self {
            GhError::Git(m) => {
                text::append_str(&mut out, "Git 仓库错误: ");
                text::append_str(&mut out, m.as_str());
            },
            GhError::Io(m) => {
                text::append_str(&mut out, "文件系统错误: ");
                text::append_str(&mut out, m.as_str());
            },
            GhError::Config(m) => {
                text::append_str(&mut out, "配置错误: ");
                text::append_str(&mut out, m.as_str());
            },
            GhError::Args(m) => {
                text::append_str(&mut out, "参数错误: ");
                text::append_str(&mut out, m.as_str());
            },
            GhError::Blocked(m) => {
                text::append_str(&mut out, "操作被拦截: ");
                text::append_str(&mut out, m.as_str());
            },
            GhError::NotFound(m) => {
                text::append_str(&mut out, "未找到: ");
                text::append_str(&mut out, m.as_str());
            },
            GhError::Serialize(m) => {
                text::append_str(&mut out, "序列化错误: ");
                text::append_str(&mut out, m.as_str());
            },
            GhError::Other(m) => {
                text::append_str(&mut out, m.as_str());
            },
        }
        text::string_of(&out)
    }
}

/// The friendly explanation of a low-level git message, when one of the
/// known situations shows in it.
pub open spec fn friendly_text(msg: Seq<char>) -> Option<Seq<char>> {
    if text::contains_sub(msg, "not a git repository"@) || text::contains_sub(
        msg,
        "bare git repository"@,
    ) {
        Some("当前目录不是一个 Git 仓库。请进入 Git 仓库目录后重试，或使用 --repo 指定仓库路径。"@)
    } else if text::contains_sub(msg, "detached HEAD"@) {
        Some("当前处于 detached HEAD 状态。建议先切换到具体分支。"@)
    } else if text::contains_sub(msg, "unborn branch"@) {
        Some("当前仓库尚未创建任何提交，请先执行首次提交后再操作。"@)
    } else if text::contains_sub(msg, "permission denied"@) {
        Some("权限不足。请检查文件/目录权限，或确认仓库未被其他进程占用。"@)
    } else if text::contains_sub(msg, "reference already exists"@) {
        Some("目标引用已存在。如需强制覆盖，请使用 --force 参数。"@)
    } else if text::contains_sub(msg, "uncommitted changes"@) {
        Some("检测到未提交更改，操作被阻止。请先 git commit 或 git stash 保存更改。"@)
    } else {
        None
    }
}

/// Rewords a git error message for the user, when it is a known one.
pub fn into_friendly_error_msg(msg: &str) -> (r: Option<String>)
    ensures
        match r {
            Some(s) => friendly_text(msg@) == Some(s@),
            None => friendly_text(msg@) is None,
        },
{
    let m = text::chars_of(msg);
    let text_out: Option<&str> = if text::contains_str(&m, "not a git repository")
        || text::contains_str(&m, "bare git repository") {
        Some("当前目录不是一个 Git 仓库。请进入 Git 仓库目录后重试，或使用 --repo 指定仓库路径。")
    } else if text::contains_str(&m, "detached HEAD") {
        Some("当前处于 detached HEAD 状态。建议先切换到具体分支。")
    } else if text::contains_str(&m, "unborn branch") {
        Some("当前仓库尚未创建任何提交，请先执行首次提交后再操作。")
    } else if text::contains_str(&m, "permission denied") {
        Some("权限不足。请检查文件/目录权限，或确认仓库未被其他进程占用。")
    } else if text::contains_str(&m, "reference already exists") {
        Some("目标引用已存在。如需强制覆盖，请使用 --force 参数。")
    } else if text::contains_str(&m, "uncommitted changes") {
        Some("检测到未提交更改，操作被阻止。请先 git commit 或 git stash 保存更改。")
    } else {
        None
    };
    match text_out {
        Some(t) => Some(t.to_owned()),
        None => None,
    }
}

/// The error for a failure whose message is `msg`: a `Git` error with the
/// friendly text when there is one, `Other` with the message otherwise.
pub fn into_friendly_error(msg: &str, _context: &str) -> (r: GhError)
    ensures
        match friendly_text(msg@) {
            Some(f) => r matches GhError::Git(m) && m@ == f,
            None => r matches GhError::Other(m) && m@ == msg@,
        },
{
    match into_friendly_error_msg(msg) {
        Some(f) => GhError::Git(f),
        None => GhError::Other(msg.to_owned()),
    }
}

/// Whether `y` is a leap year of the Gregorian calendar.
pub open spec fn is_leap(y: int) -> bool {
    (y % 4 == 0 && y % 100 != 0) || y % 400 == 0
}

/// The number of days of year `y`.
pub open spec fn year_days(y: int) -> nat {
    if is_leap(y) {
        366
    } else {
        365
    }
}

/// The number of days of month `m` (counted from 0 for January) of year `y`.
pub open spec fn month_days(y: int, m: nat) -> nat {
    if m == 1 {
        if is_leap(y) {
            29
        } else {
            28
        }
    } else if m == 3 || m == 5 || m == 8 || m == 10 {
        30
    } else {
        31
    }
}

/// The year into which day `days` falls, counting from 1 January of year
/// `y`, and the day within that year (from 0).
pub open spec fn year_and_day(days: nat, y: int) -> (int, nat)
    decreases days,
{
    if days < year_days(y) {
        (y, days)
    } else {
        year_and_day((days - year_days(y)) as nat, y + 1)
    }
}

/// The month (from 0) into which day `d` of year `y` falls, counting from
/// month `m`, and the day within that month (from 0).
pub open spec fn month_and_day(y: int, d: nat, m: nat) -> (nat, nat)
    decreases 12 - m,
{
    if m >= 11 || d < month_days(y, m) {
        (m, d)
    } else {
        month_and_day(y, (d - month_days(y, m)) as nat, m + 1)
    }
}

/// Year, month, day, hour, minute and second (months and days from 1) of
/// the instant `secs` seconds after 1970-01-01 00:00:00 UTC.
pub open spec fn utc_fields(secs: nat) -> (int, nat, nat, nat, nat, nat) {
    let yd = year_and_day(secs / 86400, 1970);
    let md = month_and_day(yd.0, yd.1, 0);
    let rest = secs % 86400;
    (yd.0, md.0 + 1, md.1 + 1, rest / 3600, rest % 3600 / 60, rest % 60)
}

/// `n` in decimal with at least two digits.
pub open spec fn two_digits(n: nat) -> Seq<char> {
    if n < 10 {
        seq!['0'] + text::dec_str(n)
    } else {
        text::dec_str(n)
    }
}

/// The instant `secs` seconds after the epoch written as
/// `YYYY-MM-DD HH:MM:SS +0000`.
pub open spec fn utc_stamp(secs: nat) -> Seq<char> {
    let f = utc_fields(secs);
    text::dec_str(f.0 as nat) + "-"@ + two_digits(f.1) + "-"@ + two_digits(f.2) + " "@
        + two_digits(f.3) + ":"@ + two_digits(f.4) + ":"@ + two_digits(f.5) + " +0000"@
}

fn is_leap_exec(y: u64) -> (r: bool)
    ensures
        r == is_leap(y as int),
{
    (y % 4 == 0 && y % 100 != 0) || y % 400 == 0
}

fn year_days_exec(y: u64) -> (r: u64)
    ensures
        r == year_days(y as int),
{
    if is_leap_exec(y) {
        366
    } else {
        365
    }
}

fn month_days_exec(y: u64, m: u64) -> (r: u64)
    ensures
        r == month_days(y as int, m as nat),
{
    if m == 1 {
        if is_leap_exec(y) {
            29
        } else {
            28
        }
    } else if m == 3 || m == 5 || m == 8 || m == 10 {
        30
    } else {
        31
    }
}

fn push_two_digits(dst: &mut Vec<char>, n: u64)
    ensures
        final(dst)@ == old(dst)@ + two_digits(n as nat),
{
    let ghost start = dst@;
    if n < 10 {
        dst.push('0');
    }
    text::push_u64(dst, n);
    if n < 10 {
        assert(dst@ =~= start + (seq!['0'] + text::dec_str(n as nat)));
    }
}

/// The current time stamp from the clock reading `unix_secs` (seconds
/// since 1970-01-01 00:00:00 UTC; `None` when the clock could not be
/// read): the instant written in UTC as `YYYY-MM-DD HH:MM:SS +0000`, or
/// `unknown`.
pub fn timestamp_now(unix_secs: Option<u64>) -> (r: String)
    ensures
        r@ == match unix_secs {
            Some(s) => utc_stamp(s as nat),
            None => "unknown"@,
        },
{
    let secs = match unix_secs {
        Some(s) => s,
        None => return text::string_of(&text::chars_of("unknown")),
    };
    let days0: u64 = secs / 86400;
    let rest: u64 = secs % 86400;
    let mut days: u64 = days0;
    let mut y: u64 = 1970;
    while days >= year_days_exec(y)
        invariant
            days <= days0,
            days0 <= u64::MAX / 86400,
            1970 <= y,
            y - 1970 <= days0 - days,
            year_and_day(days0 as nat, 1970) == year_and_day(days as nat, y as int),
        decreases days,
    {
        days = days - year_days_exec(y);
        y = y + 1;
    }
    assert(year_and_day(days as nat, y as int) == (y as int, days as nat));
    let mut m: u64 = 0;
    let mut d: u64 = days;
    while m < 11 && d >= month_days_exec(y, m)
        invariant
            m <= 11,
            d <= days,
            days < 366,
            month_and_day(y as int, days as nat, 0) == month_and_day(y as int, d as nat, m as nat),
        decreases 11 - m,
    {
        d = d - month_days_exec(y, m);
        m = m + 1;
    }
    assert(month_and_day(y as int, d as nat, m as nat) == (m as nat, d as nat));
    let mut v: Vec<char> = Vec::new();
    text::push_u64(&mut v, y);
    text::append_str(&mut v, "-");
    push_two_digits(&mut v, m + 1);
    text::append_str(&mut v, "-");
    push_two_digits(&mut v, d + 1);
    text::append_str(&mut v, " ");
    push_two_digits(&mut v, rest / 3600);
    text::append_str(&mut v, ":");
    push_two_digits(&mut v, rest % 3600 / 60);
    text::append_str(&mut v, ":");
    push_two_digits(&mut v, rest % 60);
    text::append_str(&mut v, " +0000");
    text::string_of(&v)
}

} // verus!
