//! Checks of single command line values.

use crate::language::{language_of, Language};
use crate::text::chars_of;
use vstd::prelude::*;
use vstd::string::StringExecFns;

verus! {

/// What is said of an extension that no language is known for.
pub open spec fn unsupported_message(ext: Seq<char>) -> Seq<char> {
    "unsupported source code extension '"@ + ext + "'"@
}

/// What is said of a separator that is not a single character.
pub open spec fn separator_message(sep: Seq<char>) -> Seq<char> {
    "the --separator argument option only accepts a single character but found '"@ + sep + "'"@
}

/// Accepts the extension `s` if the registry knows a language for it.
pub fn supported_lang(s: String) -> (r: Result<(), String>)
    ensures
        r is Ok <==> language_of(s@) is Some,
        r matches Err(m) ==> m@ == unsupported_message(s@),
{
    if Language::from_ext(s.as_str()).is_none() {
        return Err(
            String::from_str("unsupported source code extension '").concat(s.as_str()).concat("'"),
        );
    }
    Ok(())
}

/// Accepts the separator `s` if it is exactly one character.
pub fn single_char(s: String) -> (r: Result<(), String>)
    ensures
        r is Ok <==> s@.len() == 1,
        r matches Err(m) ==> m@ == separator_message(s@),
{
    if chars_of(s.as_str()).len() != 1 {
        return Err(
            String::from_str(
                "the --separator argument option only accepts a single character but found '",
            ).concat(s.as_str()).concat("'"),
        );
    }
    Ok(())
}

} // verus!
