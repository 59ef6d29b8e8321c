//! What can go wrong.

use vstd::prelude::*;
use vstd::string::StringExecFns;

verus! {

/// The result of an operation that can fail.
pub type CliResult<T> = Result<T, CliError>;

/// An error that ends a run.
#[derive(Debug)]
pub enum CliError {
    /// An error that is told in its own words.
    Generic(String),
    /// A source code extension that no language is known for.
    UnknownExt(String),
    /// Anything else.
    Unknown,
}

impl CliError {
    /// What the error says.
    pub open spec fn text(&self) -> Seq<char> {
        match *self {
            CliError::Generic(d) => d@,
            CliError::UnknownExt(d) => d@,
            CliError::Unknown =>
                "An unknown fatal error has occurred, please consider filing a bug-report!"@,
        }
    }

    /// Tells whether the error ends the run. For now every error does.
    pub fn is_fatal(&self) -> (r: bool)
        ensures
            r,
    {
        true
    }

    /// What the error says.
    pub fn description(&self) -> (r: &str)
        ensures
            r@ == self.text(),
    {
        match *self {
            CliError::Generic(ref d) => d.as_str(),
            CliError::UnknownExt(ref d) => d.as_str(),
            CliError::Unknown =>
                "An unknown fatal error has occurred, please consider filing a bug-report!",
        }
    }

    /// The line that is shown for the error: `error:`, a space, and what
    /// the error says.
    pub fn message(&self) -> (r: String)
        ensures
            r@ == "error: "@ + self.text(),
    {
        String::from_str("error: ").concat(self.description())
    }
}

} // verus!
