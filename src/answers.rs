//! What the HTTP endpoints answer, decided from what the store returned.
use crate::models::{delete_answer, DeletePromptError};
use crate::records::CacheError;
use vstd::prelude::*;

verus! {

/// The answer to an archive request: success when the store archived a
/// prompt, `NotFoundError` when no prompt had the id, and an internal error
/// when the store failed.
pub fn delete_prompt(outcome: Result<bool, CacheError>) -> (r: Result<(), DeletePromptError>)
    ensures
        r == (match delete_answer(outcome) {
            None => Ok::<(), DeletePromptError>(()),
            Some(e) => Err(e),
        }),
        outcome == Ok::<bool, CacheError>(true) ==> r is Ok,
        outcome == Ok::<bool, CacheError>(false) ==> r == Err::<(), DeletePromptError>(
            DeletePromptError::NotFoundError,
        ),
        outcome is Err ==> r == Err::<(), DeletePromptError>(
            DeletePromptError::InternalServerError,
        ),
{
    match DeletePromptError::from_outcome(&outcome) {
        None => Ok(()),
        Some(e) => Err(e),
    }
}

} // verus!
