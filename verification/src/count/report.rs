//! The report: one row per language and a row of totals, as text whose
//! columns are separated by tabs and then aligned.

use crate::count::classify::Tally;
use crate::count::counts::{total_tally, Counts};
use crate::count::Group;
use crate::error::CliResult;
use crate::fmt::{format_number, formatted};
use crate::text::{push_str, string_of};
use std::io::Write;
use tabwriter::TabWriter;
use vstd::prelude::*;
use vstd::string::StringExecFns;

verus! {

/// The text that `text` becomes when its tab-separated columns are
/// aligned.
pub uninterp spec fn tab_aligned(text: Seq<char>) -> Seq<char>;

/// The first row: the names of the columns.
pub open spec fn header(usafe: bool) -> Seq<char> {
    if usafe {
        "\tLanguage\tFiles\tLines\tBlanks\tComments\tCode\tUnsafe (%)\n"@
    } else {
        "\tLanguage\tFiles\tLines\tBlanks\tComments\tCode\n"@
    }
}

/// The row that sets the names of the columns and the totals apart from the
/// rows of the languages.
pub open spec fn rule(usafe: bool) -> Seq<char> {
    if usafe {
        "\t--------\t-----\t-----\t------\t--------\t----\t----------\n"@
    } else {
        "\t--------\t-----\t-----\t------\t--------\t----\n"@
    }
}

/// The percentage that is shown for group `i`, if one is.
pub open spec fn percent_at(percents: Seq<Option<String>>, i: int) -> Option<Seq<char>> {
    if 0 <= i < percents.len() {
        match percents[i] {
            Some(p) => Some(p@),
            None => None,
        }
    } else {
        None
    }
}

/// The last cell of a row when the `unsafe` statistics are shown: the
/// number of unsafe lines and, in brackets, their share of the code. It is
/// empty where there is no share to show.
pub open spec fn unsafe_cell(shown: Seq<char>, percent: Option<Seq<char>>) -> Seq<char> {
    match percent {
        Some(p) => shown + " ("@ + p + "%)"@,
        None => Seq::empty(),
    }
}

/// The five cells that every row holds: files, lines, blanks, comments and
/// code, each after a tab.
pub open spec fn number_cells(files: nat, t: Tally, sep: Option<char>) -> Seq<char> {
    "\t"@ + formatted(files as u64, sep) + "\t"@ + formatted(t.lines() as u64, sep) + "\t"@
        + formatted(t.blanks as u64, sep) + "\t"@ + formatted(t.comments as u64, sep) + "\t"@
        + formatted(t.code as u64, sep)
}

/// The row of one language.
pub open spec fn group_row(
    g: Group,
    sep: Option<char>,
    usafe: bool,
    percent: Option<Seq<char>>,
) -> Seq<char> {
    "\t"@ + g.lang.display_name() + number_cells(g.files.len(), g.tally, sep) + if usafe {
        "\t"@ + unsafe_cell(formatted(g.tally.usafe as u64, sep), percent)
    } else {
        Seq::empty()
    } + "\n"@
}

/// The rows of the first `n` languages.
pub open spec fn group_rows(
    groups: Seq<Group>,
    sep: Option<char>,
    usafe: bool,
    percents: Seq<Option<String>>,
    n: int,
) -> Seq<char>
    decreases n,
{
    if n <= 0 {
        Seq::empty()
    } else {
        group_rows(groups, sep, usafe, percents, n - 1) + group_row(
            groups[n - 1],
            sep,
            usafe,
            percent_at(percents, n - 1),
        )
    }
}

/// The row of the totals: `files` files were counted, and `t` is what was
/// counted in them.
pub open spec fn totals_row(
    files: nat,
    t: Tally,
    sep: Option<char>,
    usafe: bool,
    percent: Seq<char>,
) -> Seq<char> {
    "Totals:\t"@ + number_cells(files, t, sep) + if usafe {
        "\t"@ + unsafe_cell(formatted(t.usafe as u64, sep), Some(percent))
    } else {
        Seq::empty()
    } + "\n"@
}

/// The whole table before its columns are aligned: a row for each of
/// `groups`, and the totals over the `counted` files that were counted.
pub open spec fn table_text(
    groups: Seq<Group>,
    counted: nat,
    sep: Option<char>,
    usafe: bool,
    percents: Seq<Option<String>>,
    total_percent: Seq<char>,
) -> Seq<char> {
    header(usafe) + rule(usafe) + group_rows(groups, sep, usafe, percents, groups.len() as int)
        + rule(usafe) + totals_row(counted, total_tally(groups), sep, usafe, total_percent)
}

/// What is shown where no file was counted.
pub open spec fn no_files_message() -> Seq<char> {
    "\n\tNo source files were found matching the specified criteria\n"@
}

/// Aligns the tab-separated columns of `text`.
///
/// Trusted: the body writes the text to a `tabwriter::TabWriter` over a
/// vector and takes the vector back with `TabWriter::into_inner`, which
/// flushes. The contract gives what comes back a name. The writer fails
/// only where the writer below it does, and a vector takes every write; it
/// cuts the text at tabs and line feeds only and pads with spaces, so what
/// comes back is UTF-8 as the text was.
#[verifier::external_body]
fn tab_align(text: &str) -> (s: String)
    ensures
        s@ == tab_aligned(text@),
{
    let mut w = TabWriter::new(Vec::new());
    w.write_all(text.as_bytes()).unwrap();
    String::from_utf8(w.into_inner().unwrap()).unwrap()
}

/// Appends the five number cells of a row to `out`.
fn push_numbers(
    out: &mut Vec<char>,
    files: u64,
    lines: u64,
    blanks: u64,
    comments: u64,
    code: u64,
    sep: Option<char>,
)
    ensures
        final(out)@ == old(out)@ + (("\t"@ + formatted(files, sep) + "\t"@ + formatted(lines, sep)
            + "\t"@ + formatted(blanks, sep) + "\t"@ + formatted(comments, sep) + "\t"@
            + formatted(code, sep))),
{
    let mut cells: Vec<char> = Vec::new();
    push_str(&mut cells, "\t");
    push_str(&mut cells, format_number(files, sep).as_str());
    push_str(&mut cells, "\t");
    push_str(&mut cells, format_number(lines, sep).as_str());
    push_str(&mut cells, "\t");
    push_str(&mut cells, format_number(blanks, sep).as_str());
    push_str(&mut cells, "\t");
    push_str(&mut cells, format_number(comments, sep).as_str());
    push_str(&mut cells, "\t");
    push_str(&mut cells, format_number(code, sep).as_str());
    assert(cells@ =~= "\t"@ + formatted(files, sep) + "\t"@ + formatted(lines, sep) + "\t"@
        + formatted(blanks, sep) + "\t"@ + formatted(comments, sep) + "\t"@ + formatted(
        code,
        sep,
    ));
    out.append(&mut cells);
}

/// Appends the last cell of a row of `unsafe` statistics to `out`, with
/// the tab before it.
fn push_unsafe(out: &mut Vec<char>, usafe: u64, sep: Option<char>, percent: Option<&str>)
    ensures
        final(out)@ == old(out)@ + ("\t"@ + unsafe_cell(
            formatted(usafe, sep),
            match percent {
                Some(p) => Some(p@),
                None => None,
            },
        )),
{
    let mut cell: Vec<char> = Vec::new();
    push_str(&mut cell, "\t");
    if let Some(p) = percent {
        push_str(&mut cell, format_number(usafe, sep).as_str());
        push_str(&mut cell, " (");
        push_str(&mut cell, p);
        push_str(&mut cell, "%)");
        assert(cell@ =~= "\t"@ + (formatted(usafe, sep) + " ("@ + p@ + "%)"@));
    } else {
        assert(cell@ =~= "\t"@ + Seq::<char>::empty());
    }
    out.append(&mut cell);
}

impl<'c> Counts<'c> {
    /// The table of the counts as text with tab-separated columns: the
    /// names of the columns, a row per language in the order of the groups,
    /// and the totals. `percents` holds, for each group, the share of
    /// unsafe lines as it is shown, or `None` where none is shown;
    /// `total_percent` is the share for the totals. Both are looked at only
    /// where the `unsafe` statistics are asked for.
    pub fn table(&self, percents: &Vec<Option<String>>, total_percent: &str) -> (s: String)
        requires
            self.wf(),
        ensures
            s@ == table_text(
                self@,
                self.counted_files(),
                self.config().thousands,
                self.config().usafe,
                percents@,
                total_percent@,
            ),
    {
        let cfg = self.cfg();
        let sep = cfg.thousands;
        let usafe = cfg.usafe;
        let groups = self.groups();
        let mut out: Vec<char> = Vec::new();
        push_str(
            &mut out,
            if usafe {
                "\tLanguage\tFiles\tLines\tBlanks\tComments\tCode\tUnsafe (%)\n"
            } else {
                "\tLanguage\tFiles\tLines\tBlanks\tComments\tCode\n"
            },
        );
        push_str(
            &mut out,
            if usafe {
                "\t--------\t-----\t-----\t------\t--------\t----\t----------\n"
            } else {
                "\t--------\t-----\t-----\t------\t--------\t----\n"
            },
        );
        let ghost top = header(usafe) + rule(usafe);
        assert(out@ =~= top + group_rows(self@, sep, usafe, percents@, 0));
        let mut i: usize = 0;
        while i < groups.len()
            invariant
                i <= groups@.len(),
                groups@.len() == self@.len(),
                forall|k: int|
                    0 <= k < groups@.len() ==> (#[trigger] groups@[k])@ == self@[k]
                        && groups@[k].wf(),
                forall|k: int| 0 <= k < groups@.len() ==> (#[trigger] groups@[k]).sep == sep,
                out@ == top + group_rows(self@, sep, usafe, percents@, i as int),
            decreases groups@.len() - i,
        {
            let c = &groups[i];
            let ghost g = self@[i as int];
            let mut row: Vec<char> = Vec::new();
            push_str(&mut row, "\t");
            push_str(&mut row, c.lang.name());
            push_numbers(
                &mut row,
                c.files.len() as u64,
                c.lines,
                c.blanks,
                c.comments,
                c.code,
                sep,
            );
            if usafe {
                let percent: Option<&str> = if i < percents.len() {
                    match &percents[i] {
                        Some(p) => Some(p.as_str()),
                        None => None,
                    }
                } else {
                    None
                };
                push_unsafe(&mut row, c.usafe, sep, percent);
            }
            push_str(&mut row, "\n");
            proof {
                assert(c@ == g);
                assert(g.files.len() == c.files@.len());
                assert(row@ =~= group_row(g, sep, usafe, percent_at(percents@, i as int)));
                assert(top + group_rows(self@, sep, usafe, percents@, i as int) + row@ =~= top
                    + group_rows(self@, sep, usafe, percents@, i + 1));
            }
            out.append(&mut row);
            i += 1;
        }
        push_str(
            &mut out,
            if usafe {
                "\t--------\t-----\t-----\t------\t--------\t----\t----------\n"
            } else {
                "\t--------\t-----\t-----\t------\t--------\t----\n"
            },
        );
        let t = self.totals();
        let mut row: Vec<char> = Vec::new();
        push_str(&mut row, "Totals:\t");
        push_numbers(
            &mut row,
            t.files as u64,
            t.count.lines,
            t.count.blanks,
            t.count.comments,
            t.count.code,
            sep,
        );
        if usafe {
            push_unsafe(&mut row, t.count.usafe, sep, Some(total_percent));
        }
        push_str(&mut row, "\n");
        assert(row@ =~= totals_row(
            self.counted_files(),
            total_tally(self@),
            sep,
            usafe,
            total_percent@,
        ));
        out.append(&mut row);
        assert(out@ =~= table_text(
            self@,
            self.counted_files(),
            sep,
            usafe,
            percents@,
            total_percent@,
        ));
        string_of(out.as_slice())
    }

    /// The report as it is shown: the table with its columns aligned, or,
    /// where no file was counted, a message that says so. The text is
    /// always made; to print it is left to the caller.
    pub fn write_results(&self, percents: &Vec<Option<String>>, total_percent: &str) -> (r:
        CliResult<String>)
        requires
            self.wf(),
        ensures
            r matches Ok(s) && s@ == report_text(
                self.counted_files(),
                tab_aligned(
                    table_text(
                        self@,
                        self.counted_files(),
                        self.config().thousands,
                        self.config().usafe,
                        percents@,
                        total_percent@,
                    ),
                ),
            ),
    {
        let table = self.table(percents, total_percent);
        let aligned = tab_align(table.as_str());
        Ok(report(self.totals().files, aligned))
    }
}

/// The report of `files` files whose aligned table is `aligned`.
pub open spec fn report_text(files: nat, aligned: Seq<char>) -> Seq<char> {
    if files > 0 {
        aligned
    } else {
        no_files_message()
    }
}

/// The report as it is shown: the aligned table `aligned`, or, where no
/// file was counted, a message that says so.
pub fn report(files: usize, aligned: String) -> (s: String)
    ensures
        s@ == report_text(files as nat, aligned@),
{
    if files > 0 {
        aligned
    } else {
        String::from_str("\n\tNo source files were found matching the specified criteria\n")
    }
}

} // verus!
