//! Switching many repositories to one branch.

use vstd::prelude::*;
use crate::error::{GhError, error_text};
use crate::repo::RepoHandle;
use crate::text;

verus! {

/// The outcome of one checkout as reported: nothing, or the error's text.
pub open spec fn outcome_text(o: Result<(), GhError>) -> Result<(), Seq<char>> {
    match o {
        Ok(()) => Ok(()),
        Err(e) => Err(error_text(e)),
    }
}

/// The results of checking out one branch in each repository: each
/// repository's path with the outcome of its checkout (`outcomes[i]` is
/// that of `repos[i]`), errors as their texts.
pub fn batch_checkout(repos: &Vec<(String, RepoHandle)>, outcomes: &Vec<Result<(), GhError>>) -> (r: Vec<
    (String, Result<(), String>),
>)
    requires
        outcomes@.len() == repos@.len(),
    ensures
        r@.len() == repos@.len(),
        forall|i: int|
            0 <= i < r@.len() ==> (#[trigger] r@[i]).0@ == repos@[i].0@ && match r@[i].1 {
                Ok(()) => outcome_text(outcomes@[i]) == Ok::<(), Seq<char>>(()),
                Err(m) => outcome_text(outcomes@[i]) == Err::<(), Seq<char>>(m@),
            },
{
    let mut out: Vec<(String, Result<(), String>)> = Vec::new();
    let mut i: usize = 0;
    while i < repos.len()
        invariant
            i <= repos@.len(),
            outcomes@.len() == repos@.len(),
            out@.len() == i,
            forall|j: int|
                0 <= j < i ==> (#[trigger] out@[j]).0@ == repos@[j].0@ && match out@[j].1 {
                    Ok(()) => outcome_text(outcomes@[j]) == Ok::<(), Seq<char>>(()),
                    Err(m) => outcome_text(outcomes@[j]) == Err::<(), Seq<char>>(m@),
                },
        decreases repos.len() - i,
    {
        let path = text::string_of(&text::chars_of(repos[i].0.as_str()));
        let res: Result<(), String> = match &outcomes[i] {
            Ok(()) => Ok(()),
            Err(e) => Err(e.message()),
        };
        out.push((path, res));
        i = i + 1;
    }
    out
}

} // verus!
