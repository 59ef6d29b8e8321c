//! The aggregator: the groups of files, one per language, and the totals
//! over all of them.

use crate::config::{Config, Utf8Rule};
use crate::count::classify::{classify_chars, tally_of, LineCount, Tally};
use crate::count::keyword::{balance_from, brace_balance};
use crate::count::{Count, Group};
use crate::decode::{decode, decoded_text, Decoded};
use crate::error::{CliError, CliResult};
use crate::fsutil::{extension, extension_of, WalkState};
use crate::language::{language_of, Language};
use crate::text::{chars_of, str_eq, strings};
use vstd::prelude::*;
use vstd::string::StringExecFns;

verus! {

/// The sum of the counts of `groups`.
pub open spec fn total_tally(groups: Seq<Group>) -> Tally
    decreases groups.len(),
{
    if groups.len() == 0 {
        Tally::zero()
    } else {
        total_tally(groups.drop_last()).plus(groups.last().tally)
    }
}

/// The number of files in `groups`.
pub open spec fn total_files(groups: Seq<Group>) -> nat
    decreases groups.len(),
{
    if groups.len() == 0 {
        0
    } else {
        total_files(groups.drop_last()) + groups.last().files.len()
    }
}

/// The index of the group of `lang` in `groups`, if there is one.
pub open spec fn position_of(groups: Seq<Group>, lang: Language) -> Option<int>
    decreases groups.len(),
{
    if groups.len() == 0 {
        None
    } else {
        match position_of(groups.drop_last(), lang) {
            Some(i) => Some(i),
            None => if groups.last().lang == lang {
                Some(groups.len() - 1)
            } else {
                None
            },
        }
    }
}

/// The language that the file at `path` is counted under, if it is counted
/// at all: that of its extension, where the registry knows one and, if only
/// some extensions are asked for, the extension is among them.
pub open spec fn candidate_language(cfg: &Config, path: Seq<char>) -> Option<Language> {
    match extension_of(path) {
        Some(ext) => if cfg.allows(ext) {
            language_of(ext)
        } else {
            None
        },
        None => None,
    }
}

/// `groups` with the file at `path` added under `lang`: to the group of
/// `lang`, or, if there is none yet, to a new group behind all others.
pub open spec fn with_file(groups: Seq<Group>, lang: Language, path: Seq<char>) -> Seq<Group> {
    match position_of(groups, lang) {
        Some(i) => groups.update(i, Group { files: groups[i].files.push(path), ..groups[i] }),
        None => groups.push(Group { lang, files: seq![path], tally: Tally::zero() }),
    }
}

/// `groups` with the counts `tally` of one file added to group `i`.
pub open spec fn with_counts(groups: Seq<Group>, i: int, tally: Tally) -> Seq<Group> {
    groups.update(i, Group { tally: groups[i].tally.plus(tally), ..groups[i] })
}

/// Whether the counts of a text of `len` characters, which holds `lines`
/// lines, can be added to totals of `total` lines over `files` files.
pub open spec fn fits(len: nat, lines: nat, total: nat, files: nat) -> bool {
    len < i64::MAX && total + lines <= u64::MAX && files < usize::MAX
}

/// The text that is classified for a file whose content is `content` (its
/// bytes, or why they could not be read) under `rule`, if there is one.
pub open spec fn text_of(content: Result<Vec<u8>, String>, rule: Utf8Rule) -> Option<Seq<char>> {
    match content {
        Ok(bytes) => decoded_text(bytes@, rule),
        Err(_) => None,
    }
}

/// What is said of a file with content `content` for which there is no
/// text: why it could not be read, or that it is not valid UTF-8.
pub open spec fn failure_message(content: Result<Vec<u8>, String>) -> Seq<char> {
    match content {
        Ok(_) => invalid_message(),
        Err(why) => why@,
    }
}

/// What is said of a file that is not valid UTF-8.
pub open spec fn invalid_message() -> Seq<char> {
    "stream did not contain valid UTF-8"@
}

/// What is said of a file that the totals have no room for.
pub open spec fn overflow_message() -> Seq<char> {
    "too many files or lines to count"@
}

/// The group of a language is the first that holds it, and there is none
/// only if no group holds it.
pub proof fn lemma_position_of(groups: Seq<Group>, lang: Language)
    ensures
        match position_of(groups, lang) {
            Some(i) => {
                &&& 0 <= i < groups.len()
                &&& groups[i].lang == lang
                &&& forall|j: int| 0 <= j < i ==> groups[j].lang != lang
            },
            None => forall|j: int| 0 <= j < groups.len() ==> groups[j].lang != lang,
        },
    decreases groups.len(),
{
    if groups.len() > 0 {
        let front = groups.drop_last();
        lemma_position_of(front, lang);
        match position_of(front, lang) {
            Some(i) => {
                assert(groups[i] == front[i]);
                assert forall|j: int| 0 <= j < i implies groups[j].lang != lang by {
                    assert(groups[j] == front[j]);
                }
            },
            None => {
                assert forall|j: int| 0 <= j < groups.len() - 1 implies groups[j].lang != lang by {
                    assert(groups[j] == front[j]);
                }
            },
        }
    }
}

/// The group of a language is found at the first index that holds it.
pub proof fn lemma_position_is(groups: Seq<Group>, lang: Language, i: int)
    requires
        0 <= i < groups.len(),
        groups[i].lang == lang,
        forall|j: int| 0 <= j < i ==> groups[j].lang != lang,
    ensures
        position_of(groups, lang) == Some(i),
{
    lemma_position_of(groups, lang);
}

/// What replacing one group does to the sums.
pub proof fn lemma_totals_update(groups: Seq<Group>, i: int, g: Group)
    requires
        0 <= i < groups.len(),
    ensures
        total_tally(groups.update(i, g)).plus(groups[i].tally) == total_tally(groups).plus(
            g.tally,
        ),
        total_files(groups.update(i, g)) + groups[i].files.len() == total_files(groups)
            + g.files.len(),
    decreases groups.len(),
{
    let after = groups.update(i, g);
    if i == groups.len() - 1 {
        assert(after.drop_last() =~= groups.drop_last());
    } else {
        assert(after.drop_last() =~= groups.drop_last().update(i, g));
        lemma_totals_update(groups.drop_last(), i, g);
    }
}

/// What one more group does to the sums.
pub proof fn lemma_totals_push(groups: Seq<Group>, g: Group)
    ensures
        total_tally(groups.push(g)) == total_tally(groups).plus(g.tally),
        total_files(groups.push(g)) == total_files(groups) + g.files.len(),
{
    assert(groups.push(g).drop_last() =~= groups);
}

/// In sums of sound counts every line is blank, comment or code, and only
/// code is unsafe.
pub proof fn lemma_totals_sound(groups: Seq<Group>)
    requires
        forall|i: int| 0 <= i < groups.len() ==> (#[trigger] groups[i]).tally.usafe
            <= groups[i].tally.code,
    ensures
        total_tally(groups).usafe <= total_tally(groups).code,
    decreases groups.len(),
{
    if groups.len() > 0 {
        let front = groups.drop_last();
        assert forall|i: int| 0 <= i < front.len() implies (#[trigger] front[i]).tally.usafe
            <= front[i].tally.code by {
            assert(front[i] == groups[i]);
        }
        lemma_totals_sound(front);
    }
}

/// The number of files that were counted and the sums of what was counted
/// in them.
#[derive(Clone, Copy, Debug, PartialEq, Eq, Structural)]
pub struct Totals {
    /// The number of files.
    pub files: usize,
    pub count: LineCount,
}

/// The groups of files, one per language in the order in which the
/// languages were first met, and the totals over all of them.
pub struct Counts<'c> {
    cfg: &'c Config,
    counts: Vec<Count>,
    tot: usize,
    tot_lines: u64,
    tot_comments: u64,
    tot_blanks: u64,
    tot_code: u64,
    tot_usafe: u64,
}

impl<'c> View for Counts<'c> {
    type V = Seq<Group>;

    closed spec fn view(&self) -> Seq<Group> {
        Seq::new(self.counts@.len(), |i: int| self.counts@[i]@)
    }
}

impl<'c> Counts<'c> {
    /// The configuration that the files are counted under.
    pub closed spec fn config(&self) -> &'c Config {
        self.cfg
    }

    /// The number of files that were counted so far. A file that was added
    /// to a group is not among them until it is counted.
    pub closed spec fn counted_files(&self) -> nat {
        self.tot as nat
    }

    /// The totals are the sums over the groups; no two groups are of one
    /// language; and each file stands in the group of the language that it
    /// is counted under.
    pub closed spec fn wf(&self) -> bool {
        &&& forall|i: int|
            0 <= i < self.counts@.len() ==> (#[trigger] self.counts@[i]).wf() && self.counts@[i].sep
                == self.cfg.thousands
        &&& forall|i: int, j: int|
            0 <= i < j < self@.len() ==> (#[trigger] self@[i]).lang != (#[trigger] self@[j]).lang
        &&& forall|i: int, k: int|
            0 <= i < self@.len() && 0 <= k < self@[i].files.len() ==> candidate_language(
                self.cfg,
                #[trigger] self@[i].files[k],
            ) == Some(self@[i].lang)
        &&& self.tot_lines == total_tally(self@).lines()
        &&& self.tot_blanks == total_tally(self@).blanks
        &&& self.tot_comments == total_tally(self@).comments
        &&& self.tot_code == total_tally(self@).code
        &&& self.tot_usafe == total_tally(self@).usafe
    }

    /// No groups yet, and totals of nothing.
    pub fn new(cfg: &'c Config) -> (r: Counts<'c>)
        ensures
            r.wf(),
            r.config() == cfg,
            r@ == Seq::<Group>::empty(),
            r.counted_files() == 0,
    {
        let r = Counts {
            cfg,
            counts: Vec::new(),
            tot: 0,
            tot_lines: 0,
            tot_comments: 0,
            tot_blanks: 0,
            tot_code: 0,
            tot_usafe: 0,
        };
        assert(r@ =~= Seq::<Group>::empty());
        r
    }

    /// The configuration that the files are counted under.
    pub fn cfg(&self) -> (r: &'c Config)
        ensures
            r == self.config(),
    {
        self.cfg
    }

    /// The groups, in the order in which their languages were first met.
    pub fn groups(&self) -> (r: &Vec<Count>)
        requires
            self.wf(),
        ensures
            r@.len() == self@.len(),
            forall|i: int| 0 <= i < r@.len() ==> (#[trigger] r@[i])@ == self@[i] && r@[i].wf(),
            forall|i: int| 0 <= i < r@.len() ==> (#[trigger] r@[i]).sep == self.config().thousands,
    {
        &self.counts
    }

    /// The totals: the number of files that were counted, and the sums of
    /// the counts of all groups.
    pub fn totals(&self) -> (t: Totals)
        requires
            self.wf(),
        ensures
            t.files == self.counted_files(),
            t.count@ == total_tally(self@),
            t.count.wf(),
    {
        proof {
            self.lemma_sound();
        }
        Totals {
            files: self.tot,
            count: LineCount {
                lines: self.tot_lines,
                blanks: self.tot_blanks,
                comments: self.tot_comments,
                code: self.tot_code,
                usafe: self.tot_usafe,
            },
        }
    }

    /// In every group and in the totals, every line is blank, comment or
    /// code, and no more lines are unsafe than there are lines of code.
    pub proof fn lemma_sound(&self)
        requires
            self.wf(),
        ensures
            forall|i: int|
                0 <= i < self@.len() ==> (#[trigger] self@[i]).tally.usafe <= self@[i].tally.code,
            total_tally(self@).usafe <= total_tally(self@).code,
    {
        assert forall|i: int| 0 <= i < self@.len() implies (#[trigger] self@[i]).tally.usafe
            <= self@[i].tally.code by {
            assert(self.counts@[i].wf());
        }
        lemma_totals_sound(self@);
    }

    /// Every file of every group is counted under the language of the
    /// group: its extension is one that the registry knows, and one that is
    /// asked for if only some are.
    pub proof fn lemma_files_recognized(&self, i: int, k: int)
        requires
            self.wf(),
            0 <= i < self@.len(),
            0 <= k < self@[i].files.len(),
        ensures
            extension_of(self@[i].files[k]) matches Some(ext) && language_of(ext) == Some(
                self@[i].lang,
            ) && self.config().allows(ext),
    {
        assert(candidate_language(self.cfg, self@[i].files[k]) == Some(self@[i].lang));
    }

    /// No two groups are of one language.
    pub proof fn lemma_one_group_per_language(&self, i: int, j: int)
        requires
            self.wf(),
            0 <= i < self@.len(),
            0 <= j < self@.len(),
            i != j,
        ensures
            self@[i].lang != self@[j].lang,
    {
        if i < j {
            assert(self@[i].lang != self@[j].lang);
        } else {
            assert(self@[j].lang != self@[i].lang);
        }
    }

    /// The language that the file at `path` is counted under, if it is
    /// counted at all.
    pub fn language_for(&self, path: &str) -> (r: Option<Language>)
        ensures
            r == candidate_language(self.config(), path@),
    {
        match extension(path) {
            Some(ext) => {
                if let Some(exts) = &self.cfg.exts {
                    let mut found = false;
                    let mut i: usize = 0;
                    while i < exts.len()
                        invariant
                            i <= exts@.len(),
                            found == exists|j: int| 0 <= j < i && strings(exts@)[j] == ext@,
                        decreases exts@.len() - i,
                    {
                        if str_eq(exts[i].as_str(), ext.as_str()) {
                            assert(strings(exts@)[i as int] == ext@);
                            found = true;
                        }
                        i += 1;
                    }
                    if !found {
                        assert(!strings(exts@).contains(ext@));
                        return None;
                    }
                    assert(strings(exts@).contains(ext@));
                }
                Language::from_ext(ext.as_str())
            },
            None => None,
        }
    }

    /// Adds the file at `path` to the group of its language, and tells
    /// whether it did. A file that is not counted, because the registry
    /// knows no language for its extension or because the extension is not
    /// asked for, changes nothing. The totals stay as they were: a file
    /// enters them when it is counted.
    pub fn add_file(&mut self, path: String) -> (added: bool)
        requires
            old(self).wf(),
        ensures
            final(self).wf(),
            final(self).config() == old(self).config(),
            match candidate_language(old(self).config(), path@) {
                Some(lang) => added && final(self)@ == with_file(old(self)@, lang, path@),
                None => !added && final(self)@ == old(self)@,
            },
            final(self).counted_files() == old(self).counted_files(),
            total_tally(final(self)@) == total_tally(old(self)@),
    {
        let lang = match self.language_for(path.as_str()) {
            Some(lang) => lang,
            None => {
                return false;
            },
        };
        let ghost before = self@;
        let mut i: usize = 0;
        while i < self.counts.len() && self.counts[i].lang != lang
            invariant
                *self == *old(self),
                i <= self.counts@.len(),
                forall|j: int| 0 <= j < i ==> self@[j].lang != lang,
            decreases self.counts@.len() - i,
        {
            i += 1;
        }
        if i < self.counts.len() {
            proof {
                lemma_position_is(before, lang, i as int);
                lemma_totals_update(
                    before,
                    i as int,
                    Group { files: before[i as int].files.push(path@), ..before[i as int] },
                );
            }
            self.counts[i].add_file(path);
        } else {
            proof {
                lemma_position_of(before, lang);
                lemma_totals_push(
                    before,
                    Group { lang, files: seq![path@], tally: Tally::zero() },
                );
            }
            let mut c = Count::new(lang, self.cfg.thousands);
            c.add_file(path);
            assert(c@.files =~= seq![path@]);
            self.counts.push(c);
        }
        assert(self@ =~= with_file(before, lang, path@));
        assert forall|a: int, k: int|
            0 <= a < self@.len() && 0 <= k < self@[a].files.len() implies candidate_language(
            self.cfg,
            #[trigger] self@[a].files[k],
        ) == Some(self@[a].lang) by {
            if a < before.len() && k < before[a].files.len() {
                assert(self@[a].files[k] == before[a].files[k]);
                assert(candidate_language(self.cfg, before[a].files[k]) == Some(before[a].lang));
            } else {
                assert(self@[a].files[k] == path@);
                assert(self@[a].lang == lang);
            }
        }
        assert forall|a: int, b: int| 0 <= a < b < self@.len() implies (#[trigger] self@[a]).lang
            != (#[trigger] self@[b]).lang by {
            if b < before.len() {
                assert(before[a].lang != before[b].lang);
            }
        }
        true
    }

    /// Adds the files at `files`, in their order, each to the group of its
    /// language, and tells how many were added. The totals stay as they
    /// were: a file enters them when it is counted.
    pub fn fill_from(&mut self, files: &Vec<String>) -> (added: usize)
        requires
            old(self).wf(),
        ensures
            final(self).wf(),
            final(self).config() == old(self).config(),
            final(self)@ == with_files(old(self).config(), old(self)@, strings(files@)),
            total_files(final(self)@) == total_files(old(self)@) + added,
            added <= files@.len(),
            final(self).counted_files() == old(self).counted_files(),
            total_tally(final(self)@) == total_tally(old(self)@),
    {
        let ghost all = strings(files@);
        let mut added: usize = 0;
        let mut i: usize = 0;
        assert(all.skip(0) =~= all);
        while i < files.len()
            invariant
                self.wf(),
                self.config() == old(self).config(),
                i <= files@.len(),
                all == strings(files@),
                added <= i,
                total_files(self@) == total_files(old(self)@) + added,
                self.counted_files() == old(self).counted_files(),
                total_tally(self@) == total_tally(old(self)@),
                with_files(self.config(), self@, all.skip(i as int)) == with_files(
                    old(self).config(),
                    old(self)@,
                    all,
                ),
            decreases files@.len() - i,
        {
            let ghost before = self@;
            let f = files[i].clone();
            proof {
                assert(all.skip(i as int).first() == f@);
                assert(all.skip(i as int).drop_first() =~= all.skip(i + 1));
                match candidate_language(self.config(), f@) {
                    Some(lang) => {
                        lemma_with_file_totals(before, lang, f@);
                    },
                    None => {},
                }
            }
            if self.add_file(f) {
                added += 1;
            }
            i += 1;
        }
        added
    }

    /// Adds the counts `lc` of one file to group `group` and to the
    /// totals, which then hold one file more.
    pub fn fold(&mut self, group: usize, lc: &LineCount)
        requires
            old(self).wf(),
            group < old(self)@.len(),
            lc.wf(),
            total_tally(old(self)@).lines() + lc.lines <= u64::MAX,
            old(self).counted_files() < usize::MAX,
        ensures
            final(self).wf(),
            final(self).config() == old(self).config(),
            final(self)@ == with_counts(old(self)@, group as int, lc@),
            final(self).counted_files() == old(self).counted_files() + 1,
            total_files(final(self)@) == total_files(old(self)@),
    {
        let ghost before = self@;
        proof {
            lemma_totals_update(
                before,
                group as int,
                Group { tally: before[group as int].tally.plus(lc@), ..before[group as int] },
            );
            lemma_group_within_totals(before, group as int);
            assert(self.counts@[group as int].wf());
            self.lemma_sound();
        }
        self.counts[group].add_counts(lc);
        self.tot += 1;
        self.tot_lines += lc.lines;
        self.tot_blanks += lc.blanks;
        self.tot_comments += lc.comments;
        self.tot_code += lc.code;
        self.tot_usafe += lc.usafe;
        assert(self@ =~= with_counts(before, group as int, lc@));
        assert forall|a: int, k: int|
            0 <= a < self@.len() && 0 <= k < self@[a].files.len() implies candidate_language(
            self.cfg,
            #[trigger] self@[a].files[k],
        ) == Some(self@[a].lang) by {
            assert(self@[a].files[k] == before[a].files[k]);
        }
        assert forall|a: int, b: int| 0 <= a < b < self@.len() implies (#[trigger] self@[a]).lang
            != (#[trigger] self@[b]).lang by {
            assert(before[a].lang != before[b].lang);
        }
    }

    /// Counts one file of group `group`, whose content is `content`: its
    /// bytes, or the reason why they could not be read. Decodes the bytes
    /// under the rule of the configuration, classifies the lines of the
    /// text in the language of the group, and adds the counts to the group
    /// and the file to the totals.
    ///
    /// A file that could not be read, or whose bytes are not valid UTF-8,
    /// is passed over under `Ignore`: it enters the totals with counts of
    /// nothing. Under the other rules it is an error, which says why. A
    /// file that the totals have no room for is an error. After an error
    /// everything is as it was.
    pub fn count(&mut self, group: usize, content: Result<Vec<u8>, String>) -> (r: CliResult<()>)
        requires
            old(self).wf(),
            group < old(self)@.len(),
        ensures
            final(self).wf(),
            final(self).config() == old(self).config(),
            final(self)@.len() == old(self)@.len(),
            total_files(final(self)@) == total_files(old(self)@),
            r is Err ==> final(self)@ == old(self)@ && final(self).counted_files() == old(
                self,
            ).counted_files(),
            r is Ok ==> final(self).counted_files() == old(self).counted_files() + 1,
            match text_of(content, old(self).config().utf8_rule) {
                Some(text) => {
                    let tally = tally_of(
                        text,
                        old(self)@[group as int].lang,
                        old(self).config().usafe,
                    );
                    if fits(
                        text.len(),
                        tally.lines(),
                        total_tally(old(self)@).lines(),
                        old(self).counted_files(),
                    ) {
                        r is Ok && final(self)@ == with_counts(old(self)@, group as int, tally)
                    } else {
                        r matches Err(CliError::Generic(msg)) && msg@ == overflow_message()
                    }
                },
                None => if old(self).config().utf8_rule != Utf8Rule::Ignore {
                    r matches Err(CliError::Generic(msg)) && msg@ == failure_message(content)
                } else if old(self).counted_files() < usize::MAX {
                    r is Ok && final(self)@ == old(self)@
                } else {
                    r matches Err(CliError::Generic(msg)) && msg@ == overflow_message()
                },
            },
    {
        let rule = self.cfg.utf8_rule;
        let decoded = match content {
            Ok(bytes) => decode(bytes, rule),
            Err(why) => {
                if rule != Utf8Rule::Ignore {
                    return Err(CliError::Generic(why));
                }
                Decoded::Skipped
            },
        };
        let text = match decoded {
            Decoded::Text(text) => text,
            Decoded::Skipped => {
                if self.tot == usize::MAX {
                    return Err(CliError::Generic(String::from_str("too many files or lines to count")));
                }
                self.tot += 1;
                return Ok(());
            },
            Decoded::Invalid => {
                return Err(
                    CliError::Generic(String::from_str("stream did not contain valid UTF-8")),
                );
            },
        };
        let chars = chars_of(text.as_str());
        if chars.len() as u64 >= i64::MAX as u64 || self.tot == usize::MAX {
            return Err(CliError::Generic(String::from_str("too many files or lines to count")));
        }
        let lc = classify_chars(chars.as_slice(), self.counts[group].lang, self.cfg.usafe);
        if lc.lines > u64::MAX - self.tot_lines {
            return Err(CliError::Generic(String::from_str("too many files or lines to count")));
        }
        self.fold(group, &lc);
        Ok(())
    }

    /// `count`, or 0 if there is none, plus what the braces of `line` add
    /// up to: one up for each `{`, one down for each `}`.
    pub fn count_brackets(line: &str, count: Option<i64>) -> (b: i64)
        requires
            i64::MIN <= count.unwrap_or(0) - line@.len(),
            count.unwrap_or(0) + line@.len() <= i64::MAX,
        ensures
            b == count.unwrap_or(0) + brace_balance(line@),
    {
        let chars = chars_of(line);
        balance_from(chars.as_slice(), count.unwrap_or(0))
    }
}

/// `groups` with the files at `paths` added, in their order, each under
/// the language that it is counted under; a file that is not counted is
/// passed over.
pub open spec fn with_files(cfg: &Config, groups: Seq<Group>, paths: Seq<Seq<char>>) -> Seq<Group>
    decreases paths.len(),
{
    if paths.len() == 0 {
        groups
    } else {
        let next = match candidate_language(cfg, paths.first()) {
            Some(lang) => with_file(groups, lang, paths.first()),
            None => groups,
        };
        with_files(cfg, next, paths.drop_first())
    }
}

/// Adding a file adds one to the number of files and nothing to the
/// counts.
pub proof fn lemma_with_file_totals(groups: Seq<Group>, lang: Language, path: Seq<char>)
    ensures
        total_files(with_file(groups, lang, path)) == total_files(groups) + 1,
        total_tally(with_file(groups, lang, path)) == total_tally(groups),
{
    lemma_position_of(groups, lang);
    match position_of(groups, lang) {
        Some(i) => {
            lemma_totals_update(
                groups,
                i,
                Group { files: groups[i].files.push(path), ..groups[i] },
            );
        },
        None => {
            lemma_totals_push(groups, Group { lang, files: seq![path], tally: Tally::zero() });
        },
    }
}

/// The lines of one group are among the lines of the totals.
pub proof fn lemma_group_within_totals(groups: Seq<Group>, i: int)
    requires
        0 <= i < groups.len(),
    ensures
        groups[i].tally.lines() <= total_tally(groups).lines(),
        groups[i].tally.blanks <= total_tally(groups).blanks,
        groups[i].tally.comments <= total_tally(groups).comments,
        groups[i].tally.code <= total_tally(groups).code,
        groups[i].tally.usafe <= total_tally(groups).usafe,
    decreases groups.len(),
{
    if i < groups.len() - 1 {
        lemma_group_within_totals(groups.drop_last(), i);
    }
}

/// Whether the file at `path` stands in one of `groups`.
pub open spec fn holds_file(groups: Seq<Group>, path: Seq<char>) -> bool {
    exists|i: int, k: int|
        0 <= i < groups.len() && 0 <= k < groups[i].files.len() && #[trigger] groups[i].files[k]
            == path
}

/// A file that stands in a group after one file was added stood there
/// before, or is the file that was added.
pub proof fn lemma_with_file_sources(
    groups: Seq<Group>,
    lang: Language,
    path: Seq<char>,
    f: Seq<char>,
)
    requires
        holds_file(with_file(groups, lang, path), f),
    ensures
        holds_file(groups, f) || f == path,
{
    lemma_position_of(groups, lang);
    let after = with_file(groups, lang, path);
    let (i, k) = choose|i: int, k: int|
        0 <= i < after.len() && 0 <= k < after[i].files.len() && #[trigger] after[i].files[k] == f;
    if f != path {
        match position_of(groups, lang) {
            Some(g) => {
                if i == g {
                    assert(k < groups[i].files.len());
                }
                assert(groups[i].files[k] == f);
            },
            None => {
                assert(i < groups.len());
                assert(groups[i].files[k] == f);
            },
        }
    }
}

/// A file that stands in a group after the files at `paths` were added
/// stood there before, or is one of `paths` and is counted under a
/// language: nothing else ever gets into a group.
pub proof fn lemma_with_files_sources(
    cfg: &Config,
    groups: Seq<Group>,
    paths: Seq<Seq<char>>,
    f: Seq<char>,
)
    requires
        holds_file(with_files(cfg, groups, paths), f),
    ensures
        holds_file(groups, f) || (paths.contains(f) && candidate_language(cfg, f) is Some),
    decreases paths.len(),
{
    if paths.len() > 0 {
        let next = match candidate_language(cfg, paths.first()) {
            Some(lang) => with_file(groups, lang, paths.first()),
            None => groups,
        };
        lemma_with_files_sources(cfg, next, paths.drop_first(), f);
        if holds_file(next, f) {
            match candidate_language(cfg, paths.first()) {
                Some(lang) => {
                    lemma_with_file_sources(groups, lang, paths.first(), f);
                    if !holds_file(groups, f) {
                        assert(paths[0] == f);
                    }
                },
                None => {},
            }
        } else {
            let j = choose|j: int| 0 <= j < paths.drop_first().len() && paths.drop_first()[j] == f;
            assert(paths[j + 1] == f);
        }
    }
}

/// A file that is not counted under any language, because the registry
/// knows no language for its extension or because its extension is not
/// among those asked for, stands in no group, however many files are
/// added.
pub proof fn lemma_unrecognized_never_counted(cfg: &Config, paths: Seq<Seq<char>>, f: Seq<char>)
    requires
        candidate_language(cfg, f) is None,
    ensures
        !holds_file(with_files(cfg, Seq::empty(), paths), f),
{
    if holds_file(with_files(cfg, Seq::empty(), paths), f) {
        lemma_with_files_sources(cfg, Seq::empty(), paths, f);
    }
}

/// A file that matches an excluded path is never counted: where the groups
/// are filled from what a sound walk found, no file of any group is
/// excluded, whatever its extension.
pub proof fn lemma_excluded_never_counted(cfg: &Config, walk: WalkState, f: Seq<char>)
    requires
        walk.sound(),
        holds_file(with_files(cfg, Seq::empty(), walk.found), f),
    ensures
        !walk.exclude.contains(f),
{
    lemma_with_files_sources(cfg, Seq::empty(), walk.found, f);
    let i = choose|i: int| 0 <= i < walk.found.len() && walk.found[i] == f;
    assert(!walk.exclude.contains(walk.found[i]));
}

/// The totals of the same groups, of which the same number of files was
/// counted, are the same: whatever meets the contract of `Counts::totals`
/// for them is one value.
pub proof fn lemma_totals_repeatable(a: Totals, b: Totals, groups: Seq<Group>, counted: nat)
    requires
        a.files == counted,
        b.files == counted,
        a.count@ == total_tally(groups),
        b.count@ == total_tally(groups),
        a.count.wf(),
        b.count.wf(),
    ensures
        a == b,
{
}

} // verus!
