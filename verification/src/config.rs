//! What a run is asked to do.

use crate::cli::validators::{separator_message, unsupported_message};
use crate::error::{CliError, CliResult};
use crate::fsutil::{join, joined};
use crate::language::{language_of, Language};
use crate::text::{chars_of, str_eq, strings};
use vstd::prelude::*;
use vstd::string::StringExecFns;

verus! {

/// What is done with a file that is not valid UTF-8.
#[derive(Clone, Copy, Debug, PartialEq, Eq, Structural)]
pub enum Utf8Rule {
    /// The file is passed over.
    Ignore,
    /// What is not valid is replaced, and the file is counted.
    Lossy,
    /// The run fails.
    Strict,
}

/// The rule that goes by the name `name`. Any name but `ignore` and
/// `lossy` means `Strict`.
pub open spec fn rule_named(name: Seq<char>) -> Utf8Rule {
    if name == "ignore"@ {
        Utf8Rule::Ignore
    } else if name == "lossy"@ {
        Utf8Rule::Lossy
    } else {
        Utf8Rule::Strict
    }
}

/// The first of `exts` that the registry knows no language for.
pub open spec fn first_unknown(exts: Seq<Seq<char>>) -> Option<Seq<char>>
    decreases exts.len(),
{
    if exts.len() == 0 {
        None
    } else if language_of(exts.first()) is None {
        Some(exts.first())
    } else {
        first_unknown(exts.drop_first())
    }
}

/// Each of `paths` as seen from the directory `cwd`.
pub open spec fn resolved(cwd: Seq<char>, paths: Seq<Seq<char>>) -> Seq<Seq<char>> {
    Seq::new(paths.len(), |i: int| joined(cwd, paths[i]))
}

/// The values that the command line gave.
pub struct Matches {
    pub verbose: bool,
    pub all: bool,
    pub usafe: bool,
    pub follow_links: bool,
    pub separator: Option<String>,
    pub utf8_rule: Option<String>,
    pub exclude: Option<Vec<String>>,
    pub languages: Option<Vec<String>>,
    pub paths: Option<Vec<String>>,
}

impl Matches {
    /// The first extension asked for that the registry knows no language
    /// for.
    pub open spec fn unknown_language(&self) -> Option<Seq<char>> {
        match self.languages {
            Some(exts) => first_unknown(strings(exts@)),
            None => None,
        }
    }

    /// Whether a separator is given that is not exactly one character.
    pub open spec fn bad_separator(&self) -> bool {
        self.separator matches Some(s) && s@.len() != 1
    }

    /// The paths that are left out of the walk: those given, as seen from
    /// `cwd`, and the `.git` directory of `cwd`.
    pub open spec fn excluded(&self, cwd: Seq<char>) -> Seq<Seq<char>> {
        match self.exclude {
            Some(paths) => resolved(cwd, strings(paths@)).push(joined(cwd, ".git"@)),
            None => seq![joined(cwd, ".git"@)],
        }
    }

    /// The paths at which the walk begins: those given, or `cwd`.
    pub open spec fn roots(&self, cwd: Seq<char>) -> Seq<Seq<char>> {
        match self.paths {
            Some(paths) => strings(paths@),
            None => seq![cwd],
        }
    }
}

/// What a run is asked to do.
#[derive(Debug)]
pub struct Config {
    pub verbose: bool,
    /// Whether paths that the ignore file excludes are counted too.
    pub all: bool,
    /// The thousands separator, if numbers are shown with one.
    pub thousands: Option<char>,
    pub utf8_rule: Utf8Rule,
    /// Whether the `unsafe` statistics are asked for.
    pub usafe: bool,
    /// The paths that are left out of the walk.
    pub exclude: Vec<String>,
    /// The extensions that are counted, if only some are.
    pub exts: Option<Vec<String>>,
    /// The paths at which the walk begins.
    pub to_count: Vec<String>,
    pub follow_links: bool,
}

impl Config {
    /// Whether this is what `m` asks for in the directory `cwd`.
    pub open spec fn is_from(&self, m: &Matches, cwd: Seq<char>) -> bool {
        &&& self.verbose == m.verbose
        &&& self.all == m.all
        &&& self.usafe == m.usafe
        &&& self.follow_links == m.follow_links
        &&& match m.separator {
            Some(s) => self.thousands == Some(s@.first()),
            None => self.thousands is None,
        }
        &&& match m.utf8_rule {
            Some(name) => self.utf8_rule == rule_named(name@),
            None => self.utf8_rule == Utf8Rule::Strict,
        }
        &&& strings(self.exclude@) == m.excluded(cwd)
        &&& strings(self.to_count@) == m.roots(cwd)
        &&& match (self.exts, m.languages) {
            (Some(exts), Some(asked)) => strings(exts@) == strings(asked@),
            (None, None) => true,
            _ => false,
        }
    }

    /// Whether the extension `ext` is among those that are counted.
    pub open spec fn allows(&self, ext: Seq<char>) -> bool {
        self.exts matches Some(exts) ==> strings(exts@).contains(ext)
    }

    /// Makes the configuration of a run from the values of the command
    /// line; `cwd` is the directory that relative paths are seen from.
    ///
    /// An extension that the registry knows no language for is refused,
    /// the first one named; then a separator that is not exactly one
    /// character.
    pub fn from_matches(m: &Matches, cwd: &str) -> (r: CliResult<Config>)
        ensures
            match r {
                Ok(cfg) => {
                    &&& m.unknown_language() is None
                    &&& !m.bad_separator()
                    &&& cfg.is_from(m, cwd@)
                },
                Err(CliError::UnknownExt(msg)) => {
                    &&& m.unknown_language() matches Some(ext)
                    &&& msg@ == unsupported_message(ext)
                },
                Err(CliError::Generic(msg)) => {
                    &&& m.unknown_language() is None
                    &&& m.bad_separator()
                    &&& msg@ == separator_message(m.separator.unwrap()@)
                },
                Err(CliError::Unknown) => false,
            },
    {
        let exts = match &m.languages {
            Some(asked) => {
                let mut exts: Vec<String> = Vec::new();
                let mut i: usize = 0;
                assert(strings(asked@).skip(0) =~= strings(asked@));
                while i < asked.len()
                    invariant
                        m.languages == Some(*asked),
                        i <= asked@.len(),
                        first_unknown(strings(asked@)) == first_unknown(strings(asked@).skip(i as int)),
                        exts@.len() == i,
                        forall|j: int| 0 <= j < i ==> (#[trigger] exts@[j])@ == asked@[j]@,
                    decreases asked@.len() - i,
                {
                    let ghost rest = strings(asked@).skip(i as int);
                    assert(rest.first() == asked@[i as int]@);
                    assert(rest.drop_first() =~= strings(asked@).skip(i + 1));
                    if Language::from_ext(asked[i].as_str()).is_none() {
                        return Err(
                            CliError::UnknownExt(
                                String::from_str("unsupported source code extension '").concat(
                                    asked[i].as_str(),
                                ).concat("'"),
                            ),
                        );
                    }
                    exts.push(asked[i].clone());
                    i += 1;
                }
                assert(strings(exts@) =~= strings(asked@));
                Some(exts)
            },
            None => None,
        };
        let thousands = match &m.separator {
            Some(s) => {
                let chars = chars_of(s.as_str());
                if chars.len() != 1 {
                    return Err(
                        CliError::Generic(
                            String::from_str(
                                "the --separator argument option only accepts a single character but found '",
                            ).concat(s.as_str()).concat("'"),
                        ),
                    );
                }
                Some(chars[0])
            },
            None => None,
        };
        let utf8_rule = match &m.utf8_rule {
            Some(name) => {
                if str_eq(name.as_str(), "ignore") {
                    Utf8Rule::Ignore
                } else if str_eq(name.as_str(), "lossy") {
                    Utf8Rule::Lossy
                } else {
                    Utf8Rule::Strict
                }
            },
            None => Utf8Rule::Strict,
        };
        let mut exclude: Vec<String> = Vec::new();
        if let Some(paths) = &m.exclude {
            let mut i: usize = 0;
            while i < paths.len()
                invariant
                    i <= paths@.len(),
                    exclude@.len() == i,
                    forall|j: int|
                        0 <= j < i ==> (#[trigger] exclude@[j])@ == joined(cwd@, paths@[j]@),
                decreases paths@.len() - i,
            {
                exclude.push(join(cwd, paths[i].as_str()));
                i += 1;
            }
        }
        exclude.push(join(cwd, ".git"));
        assert(strings(exclude@) =~= m.excluded(cwd@));
        let mut to_count: Vec<String> = Vec::new();
        match &m.paths {
            Some(paths) => {
                let mut i: usize = 0;
                while i < paths.len()
                    invariant
                        i <= paths@.len(),
                        to_count@.len() == i,
                        forall|j: int| 0 <= j < i ==> (#[trigger] to_count@[j])@ == paths@[j]@,
                    decreases paths@.len() - i,
                {
                    to_count.push(paths[i].clone());
                    i += 1;
                }
            },
            None => {
                to_count.push(String::from_str(cwd));
            },
        }
        assert(strings(to_count@) =~= m.roots(cwd@));
        Ok(
            Config {
                verbose: m.verbose,
                all: m.all,
                thousands,
                utf8_rule,
                usafe: m.usafe,
                exclude,
                exts,
                to_count,
                follow_links: m.follow_links,
            },
        )
    }
}

} // verus!
