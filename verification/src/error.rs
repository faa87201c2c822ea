//! The errors of the backend itself.
use vstd::prelude::*;

use crate::text;

verus! {

/// Why the backend could not go on.
#[derive(Debug)]
pub enum BackendError {
    /// A failure that has a name only.
    StrError(String),
    /// A failure of the operating system: what was tried, and what the system
    /// said.
    StrNumError { err: String, val: String },
}

/// The texts that a `BackendError` holds.
pub enum Failure {
    Plain(Seq<char>),
    System { err: Seq<char>, val: Seq<char> },
}

impl View for BackendError {
    type V = Failure;

    open spec fn view(&self) -> Failure {
        match self {
            BackendError::StrError(s) => Failure::Plain(s@),
            BackendError::StrNumError { err, val } => Failure::System { err: err@, val: val@ },
        }
    }
}

/// The line that reports a failure.
pub open spec fn report(f: Failure) -> Seq<char> {
    match f {
        Failure::Plain(s) => "Error: "@ + s,
        Failure::System { err, val } => "Error: "@ + err + " ("@ + val + ")"@,
    }
}

/// The report of a failure starts with the same word for all, goes on with
/// what failed, and ends with what the system said in brackets, if it said
/// anything.
pub proof fn lemma_report_holds_what_failed(err: Seq<char>, val: Seq<char>)
    ensures
        report(Failure::Plain(err)) == seq!['E', 'r', 'r', 'o', 'r', ':', ' '] + err,
        report(Failure::System { err, val }) == report(Failure::Plain(err)) + seq![' ', '('] + val
            + seq![')'],
{
    reveal_strlit("Error: ");
    reveal_strlit(" (");
    reveal_strlit(")");
    assert("Error: "@ =~= seq!['E', 'r', 'r', 'o', 'r', ':', ' ']);
    assert(" ("@ =~= seq![' ', '(']);
    assert(")"@ =~= seq![')']);
}

impl BackendError {
    /// The line that reports this error.
    pub fn message(&self) -> (r: String)
        ensures
            r@ == report(self@),
    {
        match self {
            BackendError::StrError(s) => text::concat("Error: ", s.as_str()),
            BackendError::StrNumError { err, val } => {
                let mut line = text::concat("Error: ", err.as_str());
                line.append(" (");
                line.append(val.as_str());
                line.append(")");
                line
            },
        }
    }

    /// A copy of this error.
    pub fn duplicate(&self) -> (r: BackendError)
        ensures
            r@ == self@,
    {
        match self {
            BackendError::StrError(s) => BackendError::StrError(s.clone()),
            BackendError::StrNumError { err, val } => BackendError::StrNumError {
                err: err.clone(),
                val: val.clone(),
            },
        }
    }
}

/// The error that has a name only.
pub fn plain(s: &str) -> (e: BackendError)
    ensures
        e@ == Failure::Plain(s@),
{
    BackendError::StrError(s.to_owned())
}

/// The error of the operating system.
pub fn system(err: &str, val: &str) -> (e: BackendError)
    ensures
        e@ == (Failure::System { err: err@, val: val@ }),
{
    BackendError::StrNumError { err: err.to_owned(), val: val.to_owned() }
}

} // verus!
