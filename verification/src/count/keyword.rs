//! The textual side of the `unsafe` statistics: where a keyword stands in a
//! line as a word of its own, and how the braces of a line balance.

use crate::text::{contains, has_substring, occurs_at, string_of};
use regex::Regex;
use vstd::prelude::*;
use vstd::string::StringExecFns;

verus! {

/// The longest keyword that is searched for.
pub const KEYWORD_MAX: usize = 64;

/// Whether `c` is a word character: an ASCII letter, an ASCII digit or an
/// underscore.
pub open spec fn is_word_char(c: char) -> bool {
    ('0' <= c <= '9') || ('A' <= c <= 'Z') || ('a' <= c <= 'z') || c == '_'
}

/// Whether a word begins or ends at index `i` of `s`: of the characters to
/// the left and to the right of that place, exactly one is a word
/// character. The ends of `s` count as no word character.
pub open spec fn word_boundary(s: Seq<char>, i: int) -> bool {
    (0 < i <= s.len() && is_word_char(s[i - 1])) != (0 <= i < s.len() && is_word_char(s[i]))
}

/// Whether `kw` stands at index `i` of `s` between two word boundaries.
pub open spec fn keyword_at(s: Seq<char>, kw: Seq<char>, i: int) -> bool {
    occurs_at(s, kw, i) && word_boundary(s, i) && word_boundary(s, i + kw.len())
}

/// Whether `kw` stands at index `i` of `s` as a word, and nowhere before.
pub open spec fn first_keyword_at(s: Seq<char>, kw: Seq<char>, i: int) -> bool {
    keyword_at(s, kw, i) && forall|j: int| 0 <= j < i ==> !keyword_at(s, kw, j)
}

/// The text before and the text after the first place at which `kw` stands
/// in `s` as a word; `None` if there is no such place.
pub open spec fn split_at_keyword(s: Seq<char>, kw: Seq<char>) -> Option<(Seq<char>, Seq<char>)> {
    if exists|i: int| first_keyword_at(s, kw, i) {
        let i = choose|i: int| first_keyword_at(s, kw, i);
        Some((s.take(i), s.skip(i + kw.len())))
    } else {
        None
    }
}

/// What the braces of `s` add up to: one up for each `{`, one down for
/// each `}`.
pub open spec fn brace_balance(s: Seq<char>) -> int
    decreases s.len(),
{
    if s.len() == 0 {
        0
    } else {
        brace_balance(s.drop_last()) + brace_value(s.last())
    }
}

/// What one character adds to the balance of braces.
pub open spec fn brace_value(c: char) -> int {
    if c == '{' {
        1
    } else if c == '}' {
        -1
    } else {
        0
    }
}

/// The balance of braces of a text lies within its length.
pub proof fn lemma_brace_balance_bounds(s: Seq<char>)
    ensures
        -s.len() <= brace_balance(s) <= s.len(),
    decreases s.len(),
{
    if s.len() > 0 {
        lemma_brace_balance_bounds(s.drop_last());
    }
}

/// A keyword that stands nowhere in a text stands nowhere in it as a word.
pub proof fn lemma_no_substring_no_keyword(s: Seq<char>, kw: Seq<char>)
    requires
        !has_substring(s, kw),
    ensures
        split_at_keyword(s, kw) is None,
{
    assert forall|i: int| !first_keyword_at(s, kw, i) by {
        assert(!occurs_at(s, kw, i));
    }
}

/// `start` plus the balance of the braces of `line`.
pub fn balance_from(line: &[char], start: i64) -> (r: i64)
    requires
        i64::MIN <= start - line@.len(),
        start + line@.len() <= i64::MAX,
    ensures
        r == start + brace_balance(line@),
{
    let n: usize = line.len();
    let mut b: i64 = start;
    let mut i: usize = 0;
    assert(line@.take(0) =~= Seq::<char>::empty());
    while i < n
        invariant
            n == line@.len(),
            i <= n,
            i64::MIN <= start - n,
            start + n <= i64::MAX,
            b == start + brace_balance(line@.take(i as int)),
        decreases n - i,
    {
        proof {
            lemma_brace_balance_bounds(line@.take(i as int));
            assert(line@.take(i + 1).drop_last() =~= line@.take(i as int));
        }
        let c = line[i];
        if c == '{' {
            b += 1;
        } else if c == '}' {
            b -= 1;
        }
        i += 1;
    }
    assert(line@.take(n as int) =~= line@);
    b
}

/// Whether `c` has a meaning of its own in a regular expression.
pub open spec fn is_meta(c: char) -> bool {
    c == '\\' || c == '.' || c == '+' || c == '*' || c == '?' || c == '(' || c == ')' || c == '|'
        || c == '[' || c == ']' || c == '{' || c == '}' || c == '^' || c == '$' || c == '#' || c
        == '&' || c == '-' || c == '~'
}

/// The text that matches `text`, and nothing else, when it is read as a
/// regular expression: `text` with a backslash before each of its meta
/// characters.
pub open spec fn escaped(text: Seq<char>) -> Seq<char>
    decreases text.len(),
{
    if text.len() == 0 {
        Seq::empty()
    } else if is_meta(text.last()) {
        escaped(text.drop_last()).push('\\').push(text.last())
    } else {
        escaped(text.drop_last()).push(text.last())
    }
}

/// The regular expression that finds `kw` as a word: the escaped keyword
/// between two ASCII word boundaries.
pub open spec fn keyword_pattern(kw: Seq<char>) -> Seq<char> {
    "(?-u:\\b)"@ + escaped(kw) + "(?-u:\\b)"@
}

/// `text` with the meta characters of regular expressions escaped.
///
/// Trusted: the body calls `regex::escape`, which copies the text and puts
/// a backslash before each meta character.
#[verifier::external_body]
fn escape(text: &str) -> (r: String)
    ensures
        r@ == escaped(text@),
{
    regex::escape(text)
}

/// Searches `line` with the regular expression `pattern`, which finds `kw`
/// as a word, and gives the text before the first match and the text after
/// it.
///
/// Trusted: the body compiles `pattern` with `regex::Regex::new` and runs
/// `Regex::find`. The contract claims what the crate documents of them: an
/// escaped text matches itself literally, `(?-u:\b)` holds where exactly
/// one neighbour is one of `[0-9A-Za-z_]`, and `find` reports the leftmost
/// match. A keyword of up to `KEYWORD_MAX` characters is far below the size
/// at which `Regex::new` refuses a pattern.
#[allow(unused_variables)]
#[verifier::external_body]
fn regex_split(pattern: &str, line: &[char], kw: &[char]) -> (r: Option<(Vec<char>, Vec<char>)>)
    requires
        kw@.len() <= KEYWORD_MAX,
        pattern@ == keyword_pattern(kw@),
    ensures
        match r {
            Some((before, after)) => split_at_keyword(line@, kw@) == Some((before@, after@)),
            None => split_at_keyword(line@, kw@) is None,
        },
{
    let hay: String = line.iter().collect();
    let re = Regex::new(pattern).unwrap();
    match re.find(&hay) {
        Some(m) => Some((hay[..m.start()].chars().collect(), hay[m.end()..].chars().collect())),
        None => None,
    }
}

/// Searches `line` for the first place at which `kw` stands as a word and
/// gives the text before it and the text after it.
pub fn find_keyword(line: &[char], kw: &[char]) -> (r: Option<(Vec<char>, Vec<char>)>)
    requires
        kw@.len() <= KEYWORD_MAX,
    ensures
        match r {
            Some((before, after)) => {
                &&& split_at_keyword(line@, kw@) == Some((before@, after@))
                &&& before@.len() + kw@.len() + after@.len() == line@.len()
            },
            None => split_at_keyword(line@, kw@) is None,
        },
{
    if !contains(line, kw) {
        proof {
            lemma_no_substring_no_keyword(line@, kw@);
        }
        return None;
    }
    let word = string_of(kw);
    let pattern = String::from_str("(?-u:\\b)").concat(escape(word.as_str()).as_str()).concat(
        "(?-u:\\b)",
    );
    let r = regex_split(pattern.as_str(), line, kw);
    proof {
        if r is Some {
            let i = choose|i: int| first_keyword_at(line@, kw@, i);
            assert(line@.take(i).len() == i);
            assert(line@.skip(i + kw@.len()).len() == line@.len() - i - kw@.len());
        }
    }
    r
}

} // verus!
