//! The line classifier: a state machine that reads a source text line by
//! line, tells blank lines, comments and code apart, and estimates which
//! lines of code stand in an `unsafe` scope.

use crate::comment::Comment;
use crate::count::keyword::{
    balance_from, brace_balance, find_keyword, lemma_brace_balance_bounds, split_at_keyword,
    KEYWORD_MAX,
};
use crate::language::Language;
use crate::text::{
    after_line, chars_of, contains, has_substring, lemma_line_len_bounds, line_end, line_len,
    lines_of, starts_with, trim, trimmed,
};
use vstd::prelude::*;
use vstd::slice::slice_subrange;

verus! {

/// What a line is counted as.
#[derive(Clone, Copy, Debug, PartialEq, Eq, Structural)]
pub enum LineKind {
    Blank,
    Comment,
    Code,
}

/// The counts of one text, as numbers without bound.
pub struct Tally {
    pub blanks: nat,
    pub comments: nat,
    pub code: nat,
    pub usafe: nat,
}

impl Tally {
    /// The number of lines counted: each is blank, comment or code.
    pub open spec fn lines(self) -> nat {
        self.blanks + self.comments + self.code
    }

    /// The counts of nothing.
    pub open spec fn zero() -> Tally {
        Tally { blanks: 0, comments: 0, code: 0, usafe: 0 }
    }

    /// The counts of two texts together.
    pub open spec fn plus(self, other: Tally) -> Tally {
        Tally {
            blanks: self.blanks + other.blanks,
            comments: self.comments + other.comments,
            code: self.code + other.code,
            usafe: self.usafe + other.usafe,
        }
    }
}

/// What the classifier remembers from one line to the next, with the
/// counts so far.
pub struct ScanState {
    /// Whether a multi-line comment is open.
    pub in_comment: bool,
    /// Whether an `unsafe` scope is open.
    pub in_unsafe: bool,
    /// How many braces the open `unsafe` scope is deep.
    pub depth: int,
    pub tally: Tally,
}

/// What the `unsafe` estimate makes of one line of code.
pub struct UnsafeStep {
    /// Whether the line counts as unsafe.
    pub counted: bool,
    pub in_unsafe: bool,
    pub depth: int,
}

/// Whether `s` begins with one of `tokens`.
pub open spec fn begins_with_any(s: Seq<char>, tokens: Seq<Seq<char>>) -> bool {
    exists|k: int| 0 <= k < tokens.len() && #[trigger] tokens[k].is_prefix_of(s)
}

/// Whether one of `tokens` stands somewhere in `s`.
pub open spec fn contains_any(s: Seq<char>, tokens: Seq<Seq<char>>) -> bool {
    exists|k: int| 0 <= k < tokens.len() && has_substring(s, #[trigger] tokens[k])
}

/// What a trimmed line is counted as. In this order: a line inside a
/// multi-line comment is a comment, also the one that ends it; an empty
/// line is blank; a line that begins with the start of a multi-line comment
/// or with the start of a single line comment is a comment; any other line
/// is code.
pub open spec fn line_kind(lang: Language, in_comment: bool, line: Seq<char>) -> LineKind {
    if in_comment {
        LineKind::Comment
    } else if line.len() == 0 {
        LineKind::Blank
    } else if lang.block_comment() is Some && lang.block_comment().unwrap().0.is_prefix_of(line) {
        LineKind::Comment
    } else if begins_with_any(line, lang.line_comments()) {
        LineKind::Comment
    } else {
        LineKind::Code
    }
}

/// Whether a multi-line comment is open after a trimmed line. An open
/// comment stays open until a line holds the end token. Outside a comment,
/// a line that holds the start token anywhere, not only at its
/// beginning, opens one unless it holds the end token too; the line itself
/// is still counted by `line_kind`, so code followed by the start of a
/// comment is code.
pub open spec fn comment_after(lang: Language, in_comment: bool, line: Seq<char>) -> bool {
    match lang.block_comment() {
        Some((start, end)) => {
            if in_comment {
                !has_substring(line, end)
            } else {
                line.len() > 0 && has_substring(line, start) && !has_substring(line, end)
            }
        },
        None => in_comment,
    }
}

/// Whether `before`, the text in front of a keyword, leaves the keyword
/// inside a comment: it holds the start of a single line comment, or the
/// start of a multi-line comment without its end.
pub open spec fn opens_comment(lang: Language, before: Seq<char>) -> bool {
    ||| contains_any(before, lang.line_comments())
    ||| (lang.block_comment() matches Some((start, end)) && has_substring(before, start)
        && !has_substring(before, end))
}

/// A depth below zero is taken as zero.
pub open spec fn clamped(depth: int) -> int {
    if depth < 0 {
        0
    } else {
        depth
    }
}

/// The `unsafe` estimate for one trimmed line of code of a language that
/// counts towards the statistics.
///
/// A language without a keyword is unsafe in every line. With a keyword:
/// inside an open scope the line counts, and its braces move the depth;
/// outside, the line counts if the keyword stands in it as a word and the
/// text before it opens no comment, and then the braces after the keyword
/// give the depth. The scope stays open while the depth is above zero, and
/// a depth below zero is taken as zero.
pub open spec fn unsafe_step(
    lang: Language,
    in_unsafe: bool,
    depth: int,
    line: Seq<char>,
) -> UnsafeStep {
    match lang.keyword() {
        None => UnsafeStep { counted: true, in_unsafe, depth },
        Some(kw) => {
            if in_unsafe {
                let d = depth + brace_balance(line);
                UnsafeStep { counted: true, in_unsafe: d > 0, depth: clamped(d) }
            } else {
                match split_at_keyword(line, kw) {
                    Some((before, after)) => {
                        if opens_comment(lang, before) {
                            UnsafeStep { counted: false, in_unsafe, depth: clamped(depth) }
                        } else {
                            let d = brace_balance(after);
                            UnsafeStep { counted: true, in_unsafe: d > 0, depth: clamped(d) }
                        }
                    },
                    None => UnsafeStep { counted: false, in_unsafe, depth: clamped(depth) },
                }
            }
        },
    }
}

impl ScanState {
    /// The state before the first line.
    pub open spec fn start() -> ScanState {
        ScanState { in_comment: false, in_unsafe: false, depth: 0, tally: Tally::zero() }
    }

    /// The state after one more line, given as it stands in the text.
    pub open spec fn step(self, lang: Language, usafe: bool, raw: Seq<char>) -> ScanState {
        let line = trimmed(raw);
        let in_comment = comment_after(lang, self.in_comment, line);
        let t = self.tally;
        match line_kind(lang, self.in_comment, line) {
            LineKind::Blank => ScanState {
                in_comment,
                tally: Tally { blanks: t.blanks + 1, ..t },
                ..self
            },
            LineKind::Comment => ScanState {
                in_comment,
                tally: Tally { comments: t.comments + 1, ..t },
                ..self
            },
            LineKind::Code => {
                if usafe && lang.unsafe_eligible() {
                    let u = unsafe_step(lang, self.in_unsafe, self.depth, line);
                    ScanState {
                        in_comment,
                        in_unsafe: u.in_unsafe,
                        depth: u.depth,
                        tally: Tally {
                            code: t.code + 1,
                            usafe: if u.counted {
                                t.usafe + 1
                            } else {
                                t.usafe
                            },
                            ..t
                        },
                    }
                } else {
                    ScanState { in_comment, tally: Tally { code: t.code + 1, ..t }, ..self }
                }
            },
        }
    }

    /// The state after the lines `lines`, in their order.
    pub open spec fn scan(self, lang: Language, usafe: bool, lines: Seq<Seq<char>>) -> ScanState
        decreases lines.len(),
    {
        if lines.len() == 0 {
            self
        } else {
            self.step(lang, usafe, lines.first()).scan(lang, usafe, lines.drop_first())
        }
    }
}

/// The counts of the text `text` in the language `lang`; `usafe` tells
/// whether the `unsafe` statistics are asked for.
pub open spec fn tally_of(text: Seq<char>, lang: Language, usafe: bool) -> Tally {
    ScanState::start().scan(lang, usafe, lines_of(text)).tally
}

/// Every line is counted once: as blank, as comment or as code.
pub proof fn lemma_every_line_counted(
    st: ScanState,
    lang: Language,
    usafe: bool,
    lines: Seq<Seq<char>>,
)
    ensures
        st.scan(lang, usafe, lines).tally.lines() == st.tally.lines() + lines.len(),
    decreases lines.len(),
{
    if lines.len() > 0 {
        lemma_every_line_counted(
            st.step(lang, usafe, lines.first()),
            lang,
            usafe,
            lines.drop_first(),
        );
    }
}

/// Only code is unsafe: no more lines are counted as unsafe than as code.
pub proof fn lemma_unsafe_within_code(
    st: ScanState,
    lang: Language,
    usafe: bool,
    lines: Seq<Seq<char>>,
)
    requires
        st.tally.usafe <= st.tally.code,
    ensures
        st.scan(lang, usafe, lines).tally.usafe <= st.scan(lang, usafe, lines).tally.code,
    decreases lines.len(),
{
    if lines.len() > 0 {
        lemma_unsafe_within_code(
            st.step(lang, usafe, lines.first()),
            lang,
            usafe,
            lines.drop_first(),
        );
    }
}

/// The counts of a text add up to the number of its lines, and no more
/// lines are unsafe than there are lines of code.
pub proof fn lemma_tally_sound(text: Seq<char>, lang: Language, usafe: bool)
    ensures
        tally_of(text, lang, usafe).lines() == lines_of(text).len(),
        tally_of(text, lang, usafe).usafe <= tally_of(text, lang, usafe).code,
{
    lemma_every_line_counted(ScanState::start(), lang, usafe, lines_of(text));
    lemma_unsafe_within_code(ScanState::start(), lang, usafe, lines_of(text));
}

/// Outside a comment, lines that hold nothing but white space are all
/// counted as blank, and nothing else changes.
pub proof fn lemma_blank_lines(st: ScanState, lang: Language, usafe: bool, lines: Seq<Seq<char>>)
    requires
        !st.in_comment,
        forall|i: int| 0 <= i < lines.len() ==> trimmed(#[trigger] lines[i]).len() == 0,
    ensures
        st.scan(lang, usafe, lines) == (ScanState {
            tally: Tally { blanks: st.tally.blanks + lines.len(), ..st.tally },
            ..st
        }),
    decreases lines.len(),
{
    if lines.len() > 0 {
        let rest = lines.drop_first();
        assert(trimmed(lines[0]).len() == 0);
        assert forall|i: int| 0 <= i < rest.len() implies trimmed(#[trigger] rest[i]).len()
            == 0 by {
            assert(rest[i] == lines[i + 1]);
        }
        lemma_blank_lines(st.step(lang, usafe, lines.first()), lang, usafe, rest);
    }
}

/// A text of blank lines only has as many blank lines as it has lines, and
/// neither comments nor code.
pub proof fn lemma_blank_text(text: Seq<char>, lang: Language, usafe: bool)
    requires
        forall|i: int|
            0 <= i < lines_of(text).len() ==> trimmed(#[trigger] lines_of(text)[i]).len() == 0,
    ensures
        tally_of(text, lang, usafe) == (Tally {
            blanks: lines_of(text).len(),
            comments: 0,
            code: 0,
            usafe: 0,
        }),
{
    lemma_blank_lines(ScanState::start(), lang, usafe, lines_of(text));
}

/// A line that is a comment is never counted as unsafe, whatever it
/// holds.
pub proof fn lemma_comment_line_not_unsafe(
    st: ScanState,
    lang: Language,
    usafe: bool,
    raw: Seq<char>,
)
    requires
        line_kind(lang, st.in_comment, trimmed(raw)) != LineKind::Code,
    ensures
        st.step(lang, usafe, raw).tally.usafe == st.tally.usafe,
        st.step(lang, usafe, raw).in_unsafe == st.in_unsafe,
        st.step(lang, usafe, raw).depth == st.depth,
{
}

/// A keyword that stands behind the start of a single line comment does
/// not make its line unsafe: outside an `unsafe` scope, a line of code in
/// which the text before the keyword holds such a start is not counted as
/// unsafe.
pub proof fn lemma_keyword_in_comment_not_unsafe(
    st: ScanState,
    lang: Language,
    usafe: bool,
    raw: Seq<char>,
)
    requires
        !st.in_unsafe,
        lang.keyword() is Some,
        split_at_keyword(trimmed(raw), lang.keyword().unwrap()) matches Some((before, after))
            && contains_any(before, lang.line_comments()),
    ensures
        st.step(lang, usafe, raw).tally.usafe == st.tally.usafe,
        !st.step(lang, usafe, raw).in_unsafe,
{
}

/// Two counts of one text are the same: whatever meets the contract of
/// `classify` for a text, a language and a choice of statistics is one
/// value.
pub proof fn lemma_classify_repeatable(
    a: LineCount,
    b: LineCount,
    text: Seq<char>,
    lang: Language,
    usafe: bool,
)
    requires
        a.wf(),
        b.wf(),
        a@ == tally_of(text, lang, usafe),
        b@ == tally_of(text, lang, usafe),
    ensures
        a == b,
{
}

/// The counts of one text.
#[derive(Clone, Copy, Debug, PartialEq, Eq, Structural)]
pub struct LineCount {
    /// All lines.
    pub lines: u64,
    pub blanks: u64,
    pub comments: u64,
    pub code: u64,
    /// The lines of code that stand in an `unsafe` scope.
    pub usafe: u64,
}

impl View for LineCount {
    type V = Tally;

    open spec fn view(&self) -> Tally {
        Tally {
            blanks: self.blanks as nat,
            comments: self.comments as nat,
            code: self.code as nat,
            usafe: self.usafe as nat,
        }
    }
}

impl LineCount {
    /// Every line is blank, comment or code, and only code is unsafe.
    pub open spec fn wf(&self) -> bool {
        &&& self.lines == self.blanks + self.comments + self.code
        &&& self.usafe <= self.code
    }

    /// The counts of a text without lines.
    pub fn new() -> (r: LineCount)
        ensures
            r.wf(),
            r@ == Tally::zero(),
            r.lines == 0,
    {
        LineCount { lines: 0, blanks: 0, comments: 0, code: 0, usafe: 0 }
    }
}

/// The character sequences that `tokens` hold.
pub open spec fn views(tokens: Seq<Vec<char>>) -> Seq<Seq<char>> {
    Seq::new(tokens.len(), |k: int| tokens[k]@)
}

/// The tokens of a language, ready for the classifier.
pub struct Syntax {
    lang: Language,
    single: Vec<Vec<char>>,
    block: Option<(Vec<char>, Vec<char>)>,
    keyword: Option<Vec<char>>,
}

impl Syntax {
    /// The tokens are those of the language.
    pub closed spec fn wf(&self) -> bool {
        &&& views(self.single@) == self.lang.line_comments()
        &&& match self.block {
            Some((start, end)) => self.lang.block_comment() == Some((start@, end@)),
            None => self.lang.block_comment() is None,
        }
        &&& match self.keyword {
            Some(kw) => self.lang.keyword() == Some(kw@) && kw@.len() <= KEYWORD_MAX,
            None => self.lang.keyword() is None,
        }
    }

    /// The language whose tokens these are.
    pub closed spec fn language(&self) -> Language {
        self.lang
    }

    /// The tokens of `lang`.
    pub fn new(lang: Language) -> (s: Syntax)
        ensures
            s.wf(),
            s.language() == lang,
    {
        let mut single: Vec<Vec<char>> = Vec::new();
        if let Some(tokens) = lang.single() {
            let mut k: usize = 0;
            while k < tokens.len()
                invariant
                    k <= tokens@.len(),
                    tokens@.len() == lang.line_comments().len(),
                    forall|j: int|
                        0 <= j < tokens@.len() ==> (#[trigger] tokens@[j])@
                            == lang.line_comments()[j],
                    single@.len() == k,
                    forall|j: int| 0 <= j < k ==> (#[trigger] single@[j])@ == tokens@[j]@,
                decreases tokens@.len() - k,
            {
                single.push(chars_of(tokens[k]));
                k += 1;
            }
        }
        assert(views(single@) =~= lang.line_comments());
        let block = match (lang.multi_start(), lang.multi_end()) {
            (Some(start), Some(end)) => Some((chars_of(start), chars_of(end))),
            _ => None,
        };
        let keyword = match lang.unsafe_keyword() {
            Some(kw) => {
                proof {
                    reveal_strlit("unsafe");
                }
                Some(chars_of(kw))
            },
            None => None,
        };
        Syntax { lang, single, block, keyword }
    }
}

/// Tells whether `line` begins with one of `tokens`.
fn begins_any(line: &[char], tokens: &Vec<Vec<char>>) -> (r: bool)
    ensures
        r == begins_with_any(line@, views(tokens@)),
{
    let mut k: usize = 0;
    while k < tokens.len()
        invariant
            k <= tokens@.len(),
            forall|j: int| 0 <= j < k ==> !(#[trigger] views(tokens@)[j]).is_prefix_of(line@),
        decreases tokens@.len() - k,
    {
        if starts_with(line, tokens[k].as_slice()) {
            assert(views(tokens@)[k as int].is_prefix_of(line@));
            return true;
        }
        k += 1;
    }
    false
}

/// Tells whether one of `tokens` stands somewhere in `line`.
fn holds_any(line: &[char], tokens: &Vec<Vec<char>>) -> (r: bool)
    ensures
        r == contains_any(line@, views(tokens@)),
{
    let mut k: usize = 0;
    while k < tokens.len()
        invariant
            k <= tokens@.len(),
            forall|j: int| 0 <= j < k ==> !has_substring(line@, #[trigger] views(tokens@)[j]),
        decreases tokens@.len() - k,
    {
        if contains(line, tokens[k].as_slice()) {
            assert(has_substring(line@, views(tokens@)[k as int]));
            return true;
        }
        k += 1;
    }
    false
}

/// The classifier between two lines: what it remembers, and the counts so
/// far.
pub struct Scanner {
    in_comment: bool,
    in_unsafe: bool,
    depth: i64,
    count: LineCount,
}

impl View for Scanner {
    type V = ScanState;

    closed spec fn view(&self) -> ScanState {
        ScanState {
            in_comment: self.in_comment,
            in_unsafe: self.in_unsafe,
            depth: self.depth as int,
            tally: self.count@,
        }
    }
}

impl Scanner {
    /// The counts are sound and the depth is not below zero.
    pub closed spec fn wf(&self) -> bool {
        self.count.wf() && 0 <= self.depth
    }

    /// How many more characters of text the classifier can take in.
    pub closed spec fn room(&self) -> int {
        if i64::MAX - self.depth < u64::MAX - self.count.lines {
            i64::MAX - self.depth
        } else {
            u64::MAX - self.count.lines
        }
    }

    /// The classifier before the first line.
    pub fn new() -> (s: Scanner)
        ensures
            s.wf(),
            s@ == ScanState::start(),
            s.room() == i64::MAX,
    {
        Scanner { in_comment: false, in_unsafe: false, depth: 0, count: LineCount::new() }
    }

    /// The counts so far.
    pub fn count(&self) -> (r: LineCount)
        requires
            self.wf(),
        ensures
            r.wf(),
            r@ == self@.tally,
    {
        self.count
    }

    /// The `unsafe` estimate for the trimmed line of code `line`.
    fn advance_unsafe(&mut self, syn: &Syntax, line: &[char])
        requires
            syn.wf(),
            syn.language().unsafe_eligible(),
            old(self).wf(),
            old(self).count.usafe < old(self).count.code,
            old(self).depth + line@.len() <= i64::MAX,
        ensures
            final(self).wf(),
            final(self).in_comment == old(self).in_comment,
            final(self).count.lines == old(self).count.lines,
            final(self).count.blanks == old(self).count.blanks,
            final(self).count.comments == old(self).count.comments,
            final(self).count.code == old(self).count.code,
            final(self).depth <= old(self).depth + line@.len(),
            ({
                let u = unsafe_step(
                    syn.language(),
                    old(self).in_unsafe,
                    old(self).depth as int,
                    line@,
                );
                &&& final(self).in_unsafe == u.in_unsafe
                &&& final(self).depth == u.depth
                &&& final(self).count.usafe == old(self).count.usafe + if u.counted {
                    1int
                } else {
                    0int
                }
            }),
    {
        proof {
            lemma_brace_balance_bounds(line@);
        }
        match &syn.keyword {
            None => {
                self.count.usafe += 1;
            },
            Some(kw) => {
                if self.in_unsafe {
                    self.count.usafe += 1;
                    let d = balance_from(line, self.depth);
                    self.in_unsafe = d > 0;
                    self.depth = if d < 0 {
                        0
                    } else {
                        d
                    };
                } else {
                    match find_keyword(line, kw.as_slice()) {
                        Some((before, after)) => {
                            let commented = holds_any(before.as_slice(), &syn.single) || match &syn.block {
                                Some((start, end)) => contains(before.as_slice(), start.as_slice())
                                    && !contains(before.as_slice(), end.as_slice()),
                                None => false,
                            };
                            if !commented {
                                proof {
                                    lemma_brace_balance_bounds(after@);
                                }
                                self.count.usafe += 1;
                                let d = balance_from(after.as_slice(), 0);
                                self.in_unsafe = d > 0;
                                self.depth = if d < 0 {
                                    0
                                } else {
                                    d
                                };
                            }
                        },
                        None => {},
                    }
                }
            },
        }
    }

    /// Takes in one more line, given as it stands in the text.
    pub fn advance(&mut self, syn: &Syntax, usafe: bool, raw: &[char])
        requires
            syn.wf(),
            old(self).wf(),
            raw@.len() < old(self).room(),
        ensures
            final(self).wf(),
            final(self)@ == old(self)@.step(syn.language(), usafe, raw@),
            final(self).room() >= old(self).room() - raw@.len() - 1,
    {
        let line = trim(raw);
        self.count.lines += 1;
        if self.in_comment {
            self.count.comments += 1;
            if let Some((_, end)) = &syn.block {
                if contains(line, end.as_slice()) {
                    self.in_comment = false;
                }
            }
            return ;
        }
        if line.len() == 0 {
            self.count.blanks += 1;
            return ;
        }
        if let Some((start, end)) = &syn.block {
            if contains(line, start.as_slice()) {
                self.in_comment = !contains(line, end.as_slice());
            }
            if starts_with(line, start.as_slice()) {
                self.count.comments += 1;
                return ;
            }
        }
        if begins_any(line, &syn.single) {
            self.count.comments += 1;
            return ;
        }
        self.count.code += 1;
        if usafe && syn.lang.is_unsafe() {
            self.advance_unsafe(syn, line);
        }
    }
}

/// Counts the lines of `text`, a source text in the language `lang`;
/// `usafe` tells whether the `unsafe` statistics are asked for.
pub fn classify(text: &str, lang: Language, usafe: bool) -> (r: LineCount)
    requires
        text@.len() < i64::MAX,
    ensures
        r.wf(),
        r@ == tally_of(text@, lang, usafe),
{
    let chars = chars_of(text);
    classify_chars(chars.as_slice(), lang, usafe)
}

/// Counts the lines of the source text that the characters `s` make up.
pub fn classify_chars(s: &[char], lang: Language, usafe: bool) -> (r: LineCount)
    requires
        s@.len() < i64::MAX,
    ensures
        r.wf(),
        r@ == tally_of(s@, lang, usafe),
{
    let n: usize = s.len();
    let syn = Syntax::new(lang);
    let mut st = Scanner::new();
    let mut pos: usize = 0;
    assert(s@.skip(0) =~= s@);
    while pos < n
        invariant
            pos <= n,
            n == s@.len(),
            n < i64::MAX,
            syn.wf(),
            syn.language() == lang,
            st.wf(),
            pos < n ==> st.room() >= i64::MAX - pos,
            st@.scan(lang, usafe, lines_of(s@.skip(pos as int))) == ScanState::start().scan(
                lang,
                usafe,
                lines_of(s@),
            ),
        decreases n - pos,
    {
        let ghost rest = s@.skip(pos as int);
        let e = line_end(s, pos);
        let raw = slice_subrange(s, pos, e);
        proof {
            lemma_line_len_bounds(rest);
            assert(raw@ =~= rest.take(line_len(rest)));
        }
        st.advance(&syn, usafe, raw);
        pos = if e < n {
            e + 1
        } else {
            e
        };
        proof {
            assert(after_line(rest) =~= s@.skip(pos as int));
            assert(lines_of(rest).first() == raw@);
            assert(lines_of(rest).drop_first() =~= lines_of(after_line(rest)));
        }
    }
    assert(lines_of(s@.skip(n as int)) =~= Seq::<Seq<char>>::empty());
    st.count()
}

} // verus!
