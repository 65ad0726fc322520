//! The outcome of an operation on one repository of a batch.

use vstd::prelude::*;
use crate::error::{GhError, error_text};
use crate::text;

verus! {

/// What happened in one repository.
#[derive(Debug, Clone)]
pub struct OpResult {
    pub repo_path: String,
    pub success: bool,
    pub message: String,
}

impl OpResult {
    /// The outcome for the repository at `repo_path`: `Err` when it could
    /// not be opened, otherwise the result of the operation.
    pub fn from_outcome(repo_path: &str, outcome: &Result<Result<String, GhError>, GhError>) -> (r: OpResult)
        ensures
            r.repo_path@ == repo_path@,
            match outcome {
                Ok(Ok(m)) => r.success && r.message@ == m@,
                Ok(Err(e)) => !r.success && r.message@ == "操作失败: "@ + error_text(*e),
                Err(e) => !r.success && r.message@ == "无法打开仓库: "@ + error_text(*e),
            },
    {
        let path = text::string_of(&text::chars_of(repo_path));
        match outcome {
            Ok(Ok(m)) => OpResult {
                repo_path: path,
                success: true,
                message: text::string_of(&text::chars_of(m.as_str())),
            },
            Ok(Err(e)) => {
                let mut msg = text::chars_of("操作失败: ");
                text::append_str(&mut msg, e.message().as_str());
                OpResult { repo_path: path, success: false, message: text::string_of(&msg) }
            },
            Err(e) => {
                let mut msg = text::chars_of("无法打开仓库: ");
                text::append_str(&mut msg, e.message().as_str());
                OpResult { repo_path: path, success: false, message: text::string_of(&msg) }
            },
        }
    }
}

} // verus!
