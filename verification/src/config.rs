//! The application settings and their defaults.

use vstd::prelude::*;
use std::collections::HashMap;
use crate::error::GhError;
use crate::text;

verus! {

broadcast use vstd::string::group_string_axioms;

/// All settings.
#[derive(Debug, Clone)]
pub struct AppConfig {
    pub general: GeneralConfig,
    pub display: DisplayConfig,
    pub audit: AuditConfig,
    pub ignore: IgnoreConfig,
    pub alias: HashMap<String, String>,
}

/// General settings.
#[derive(Debug, Clone)]
pub struct GeneralConfig {
    /// The author that statistics filter on by default.
    pub default_author: String,
    /// How deep repository scans go.
    pub scan_depth: usize,
    /// Parallel jobs (0: decided by the machine).
    pub parallel_jobs: usize,
}

/// Display settings.
#[derive(Debug, Clone)]
pub struct DisplayConfig {
    /// Coloured terminal output.
    pub color: bool,
    /// The table style.
    pub table_style: String,
}

/// Audit log settings.
#[derive(Debug, Clone)]
pub struct AuditConfig {
    /// Whether operations are recorded.
    pub enabled: bool,
    /// How many days records are kept.
    pub retention_days: u32,
}

/// Extra ignore rules for statistics.
#[derive(Debug, Clone)]
pub struct IgnoreConfig {
    /// File patterns to ignore besides the built-in ones.
    pub extra_patterns: Vec<String>,
}

/// The default scan depth.
pub fn default_scan_depth() -> (r: usize)
    ensures
        r == 3,
{
    3
}

/// The default of switches that are on unless set.
pub fn default_true() -> (r: bool)
    ensures
        r,
{
    true
}

/// The default table style.
pub fn default_table_style() -> (r: String)
    ensures
        r@ == "rounded"@,
{
    text::string_of(&text::chars_of("rounded"))
}

/// The default retention of audit records, in days.
pub fn default_retention_days() -> (r: u32)
    ensures
        r == 90,
{
    90
}

impl Default for GeneralConfig {
    fn default() -> (r: Self)
        ensures
            r.default_author@ == Seq::<char>::empty(),
            r.scan_depth == 3,
            r.parallel_jobs == 0,
    {
        GeneralConfig { default_author: String::new(), scan_depth: default_scan_depth(), parallel_jobs: 0 }
    }
}

impl Default for DisplayConfig {
    fn default() -> (r: Self)
        ensures
            r.color,
            r.table_style@ == "rounded"@,
    {
        DisplayConfig { color: default_true(), table_style: default_table_style() }
    }
}

impl Default for AuditConfig {
    fn default() -> (r: Self)
        ensures
            r.enabled,
            r.retention_days == 90,
    {
        AuditConfig { enabled: default_true(), retention_days: default_retention_days() }
    }
}

impl Default for IgnoreConfig {
    fn default() -> (r: Self)
        ensures
            r.extra_patterns@.len() == 0,
    {
        IgnoreConfig { extra_patterns: Vec::new() }
    }
}

impl Default for AppConfig {
    fn default() -> (r: Self)
        ensures
            r.general.default_author@ == Seq::<char>::empty(),
            r.general.scan_depth == 3,
            r.general.parallel_jobs == 0,
            r.display.color,
            r.display.table_style@ == "rounded"@,
            r.audit.enabled,
            r.audit.retention_days == 90,
            r.ignore.extra_patterns@.len() == 0,
            r.alias@ == Map::<String, String>::empty(),
    {
        AppConfig {
            general: GeneralConfig::default(),
            display: DisplayConfig::default(),
            audit: AuditConfig::default(),
            ignore: IgnoreConfig::default(),
            alias: HashMap::new(),
        }
    }
}

/// The settings that `config set` can change.
pub open spec fn known_key(key: Seq<char>) -> bool {
    key == "scan_depth"@ || key == "default_author"@ || key == "table_style"@
}

/// The scan depth that `config set scan_depth <value>` stores: the value
/// read as a `usize`, or 3 when it does not read as one.
pub open spec fn depth_setting(value: Seq<char>) -> usize {
    match text::parse_usize(value) {
        Some(d) => d,
        None => 3,
    }
}

impl AppConfig {
    /// Sets one setting by its key: `scan_depth`, `default_author` or
    /// `table_style`; any other key is refused and nothing changes.
    pub fn set(&mut self, key: &str, value: &str) -> (r: Result<(), GhError>)
        ensures
            r is Ok <==> known_key(key@),
            r matches Err(GhError::Args(m)) && m@ == "未知配置项: "@ + key@ || r is Ok,
            final(self).general.scan_depth == (if key@ == "scan_depth"@ {
                depth_setting(value@)
            } else {
                old(self).general.scan_depth
            }),
            final(self).general.default_author@ == (if key@ == "default_author"@ {
                value@
            } else {
                old(self).general.default_author@
            }),
            final(self).display.table_style@ == (if key@ == "table_style"@ {
                value@
            } else {
                old(self).display.table_style@
            }),
            final(self).general.parallel_jobs == old(self).general.parallel_jobs,
            final(self).display.color == old(self).display.color,
            final(self).audit.enabled == old(self).audit.enabled,
            final(self).audit.retention_days == old(self).audit.retention_days,
            final(self).ignore.extra_patterns@ == old(self).ignore.extra_patterns@,
            final(self).alias@ == old(self).alias@,
    {
        let kv = text::chars_of(key);
        let vv = text::chars_of(value);
        proof {
            reveal_strlit("scan_depth");
            reveal_strlit("default_author");
            reveal_strlit("table_style");
            assert("scan_depth"@.len() == 10);
            assert("default_author"@.len() == 14);
            assert("table_style"@.len() == 11);
        }
        if text::eq_str(&kv, "scan_depth") {
            self.general.scan_depth = match text::parse_usize_exec(&vv) {
                Some(d) => d,
                None => 3,
            };
            Ok(())
        } else if text::eq_str(&kv, "default_author") {
            self.general.default_author = text::string_of(&vv);
            Ok(())
        } else if text::eq_str(&kv, "table_style") {
            self.display.table_style = text::string_of(&vv);
            Ok(())
        } else {
            let mut m = text::chars_of("未知配置项: ");
            text::append_chars(&mut m, &kv);
            Err(GhError::Args(text::string_of(&m)))
        }
    }
}

} // verus!
