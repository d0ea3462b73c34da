//! The method of the list that a template can add values to.

use vstd::prelude::*;
use crate::text::str_eq;

verus! {

/// Why a method call on the list fails.
#[derive(Debug, PartialEq, Eq, Clone, Copy)]
pub enum CallError {
    UnknownMethod,
    MissingArgument,
    TooManyArguments,
}

/// What a call with `given` arguments comes to for a method that takes `n`.
pub open spec fn arity_check(n: nat, given: nat) -> Result<(), CallError> {
    if given < n {
        Err(CallError::MissingArgument)
    } else if given > n {
        Err(CallError::TooManyArguments)
    } else {
        Ok(())
    }
}

/// Checks that a method that takes `n` arguments was given `n`.
pub fn ensure_n_args(n: usize, given: usize) -> (r: Result<(), CallError>)
    ensures
        r == arity_check(n as nat, given as nat),
{
    if given < n {
        Err(CallError::MissingArgument)
    } else if given > n {
        Err(CallError::TooManyArguments)
    } else {
        Ok(())
    }
}

/// Checks a method call on the list: the one method is `push`, and it
/// takes one argument.
pub fn check_call(method: &str, given: usize) -> (r: Result<(), CallError>)
    ensures
        r == if method@ == "push"@ {
            arity_check(1, given as nat)
        } else {
            Err(CallError::UnknownMethod)
        },
{
    if str_eq(method, "push") {
        ensure_n_args(1, given)
    } else {
        Err(CallError::UnknownMethod)
    }
}

} // verus!
