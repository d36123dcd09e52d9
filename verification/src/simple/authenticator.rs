use vstd::prelude::*;

use core::marker::PhantomData;

use crate::interfaces::services::{AuthenticateResult, ServiceError};

verus! {

/// Error kind of the interactive authenticator.
#[derive(Debug, PartialEq, Eq)]
pub enum AuthenticatorError {
    /// The operator input ended before a decision was read.
    EOLError,
}

impl ServiceError for AuthenticatorError {

}

/// Interactive authenticator: the decision about a candidate device is
/// read as a line of operator input, and this type interprets such a line.
/// The surrounding adapter prompts, reads and trims; it asks again as long
/// as a line carries no decision, and reports `EOLError` when the input
/// ends first.
pub struct Authenticator<D> {
    marker: PhantomData<D>,
}

/// The decision a trimmed line of operator input stands for: a yes-like
/// answer allows, a no-like answer or an empty line denies, anything else
/// is no decision yet.
pub open spec fn spec_interpret(line: Seq<char>) -> Option<AuthenticateResult> {
    if line == "yes"@ || line == "y"@ {
        Some(AuthenticateResult::Allow)
    } else if line == "no"@ || line == "n"@ || line == ""@ {
        Some(AuthenticateResult::Deny)
    } else {
        None
    }
}

impl<D> Authenticator<D> {
    pub fn new() -> (r: Self) {
        Self { marker: PhantomData }
    }

    /// Interprets one trimmed line of operator input; no decision means
    /// the operator is asked again.
    pub fn interpret(&self, line: &String) -> (r: Option<AuthenticateResult>)
        ensures
            r == spec_interpret(line@),
    {
        let yes_long = "yes".to_owned();
        let yes_short = "y".to_owned();
        let no_long = "no".to_owned();
        let no_short = "n".to_owned();
        let empty = "".to_owned();
        if *line == yes_long || *line == yes_short {
            Some(AuthenticateResult::Allow)
        } else if *line == no_long || *line == no_short || *line == empty {
            Some(AuthenticateResult::Deny)
        } else {
            None
        }
    }
}

} // verus!
