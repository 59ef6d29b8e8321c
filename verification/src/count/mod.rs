//! Line counts: per file, per language, and in total.

pub mod classify;
pub mod counts;
pub mod keyword;
pub mod report;

use crate::count::classify::{LineCount, Tally};
use crate::fmt::{format_number, formatted};
use crate::language::Language;
use crate::text::strings;
use vstd::prelude::*;

verus! {

/// The files of one language and what was counted in them, as values
/// without bound.
pub struct Group {
    pub lang: Language,
    /// The paths of the files, in the order in which they were added.
    pub files: Seq<Seq<char>>,
    pub tally: Tally,
}

/// The files of one language and what was counted in them.
#[derive(Debug)]
pub struct Count {
    pub lang: Language,
    pub code: u64,
    pub comments: u64,
    pub blanks: u64,
    pub lines: u64,
    pub usafe: u64,
    /// The paths of the files, in the order in which they were added.
    pub files: Vec<String>,
    /// The thousands separator that the numbers are shown with.
    pub sep: Option<char>,
}

impl View for Count {
    type V = Group;

    open spec fn view(&self) -> Group {
        Group {
            lang: self.lang,
            files: strings(self.files@),
            tally: Tally {
                blanks: self.blanks as nat,
                comments: self.comments as nat,
                code: self.code as nat,
                usafe: self.usafe as nat,
            },
        }
    }
}

impl Count {
    /// Every line is blank, comment or code, and only code is unsafe.
    pub open spec fn wf(&self) -> bool {
        &&& self.lines == self.blanks + self.comments + self.code
        &&& self.usafe <= self.code
    }

    /// A group for `lang` without files; `sep` is the thousands separator
    /// that its numbers are shown with.
    pub fn new(lang: Language, sep: Option<char>) -> (c: Count)
        ensures
            c.wf(),
            c@ == (Group { lang, files: Seq::empty(), tally: Tally::zero() }),
            c.lines == 0,
            c.sep == sep,
    {
        let c = Count {
            lang,
            code: 0,
            comments: 0,
            blanks: 0,
            lines: 0,
            usafe: 0,
            files: Vec::new(),
            sep,
        };
        assert(strings(c.files@) =~= Seq::<Seq<char>>::empty());
        c
    }

    /// Adds the file at `path` to the group.
    pub fn add_file(&mut self, path: String)
        ensures
            final(self)@ == (Group { files: old(self)@.files.push(path@), ..old(self)@ }),
            final(self).lines == old(self).lines,
            final(self).sep == old(self).sep,
            final(self).files@ == old(self).files@.push(path),
    {
        self.files.push(path);
        assert(strings(self.files@) =~= strings(old(self).files@).push(path@));
    }

    /// Adds the counts of one file to those of the group.
    pub fn add_counts(&mut self, lc: &LineCount)
        requires
            old(self).wf(),
            lc.wf(),
            old(self).lines + lc.lines <= u64::MAX,
        ensures
            final(self).wf(),
            final(self)@ == (Group { tally: old(self)@.tally.plus(lc@), ..old(self)@ }),
            final(self).lines == old(self).lines + lc.lines,
            final(self).sep == old(self).sep,
            final(self).files == old(self).files,
    {
        self.lines += lc.lines;
        self.blanks += lc.blanks;
        self.comments += lc.comments;
        self.code += lc.code;
        self.usafe += lc.usafe;
    }

    /// The number of lines, as it is shown.
    pub fn lines(&self) -> (s: String)
        ensures
            s@ == formatted(self.lines, self.sep),
    {
        format_number(self.lines, self.sep)
    }

    /// The number of lines of code, as it is shown.
    pub fn code(&self) -> (s: String)
        ensures
            s@ == formatted(self.code, self.sep),
    {
        format_number(self.code, self.sep)
    }

    /// The number of blank lines, as it is shown.
    pub fn blanks(&self) -> (s: String)
        ensures
            s@ == formatted(self.blanks, self.sep),
    {
        format_number(self.blanks, self.sep)
    }

    /// The number of unsafe lines of code, as it is shown.
    pub fn usafe(&self) -> (s: String)
        ensures
            s@ == formatted(self.usafe, self.sep),
    {
        format_number(self.usafe, self.sep)
    }

    /// The number of comment lines, as it is shown.
    pub fn comments(&self) -> (s: String)
        ensures
            s@ == formatted(self.comments, self.sep),
    {
        format_number(self.comments, self.sep)
    }

    /// The number of files, as it is shown.
    pub fn total_files(&self) -> (s: String)
        ensures
            s@ == formatted(self.files@.len() as u64, self.sep),
    {
        format_number(self.files.len() as u64, self.sep)
    }
}

} // verus!
