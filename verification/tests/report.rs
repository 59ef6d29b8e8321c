use cargo_count::config::{Config, Utf8Rule};
use cargo_count::count::counts::Counts;
use cargo_count::count::report::report;

fn config(usafe: bool, sep: Option<char>) -> Config {
    Config {
        verbose: false,
        all: false,
        thousands: sep,
        utf8_rule: Utf8Rule::Strict,
        usafe,
        exclude: vec![],
        exts: None,
        to_count: vec![],
        follow_links: false,
    }
}

fn filled<'c>(cfg: &'c Config) -> Counts<'c> {
    let mut counts = Counts::new(cfg);
    counts.add_file("a.rs".to_string());
    counts.add_file("b.py".to_string());
    counts.add_file("c.rs".to_string());
    let mut rust = String::new();
    for _ in 0..1200 {
        rust.push_str("x();\n");
    }
    rust.push_str("unsafe { y() }\n\n// c\n");
    counts.count(0, Ok(rust.into_bytes())).unwrap();
    counts.count(1, Ok(b"# c\nx = 1\n".to_vec())).unwrap();
    counts.count(0, Ok(vec![])).unwrap();
    counts
}

#[test]
fn table_without_unsafe_statistics() {
    let cfg = config(false, Some(','));
    let counts = filled(&cfg);
    let text = counts.table(&vec![], "");
    assert_eq!(
        text,
        "\tLanguage\tFiles\tLines\tBlanks\tComments\tCode\n\
         \t--------\t-----\t-----\t------\t--------\t----\n\
         \tRust\t2\t1,203\t1\t1\t1,201\n\
         \tPython\t1\t2\t0\t1\t1\n\
         \t--------\t-----\t-----\t------\t--------\t----\n\
         Totals:\t\t3\t1,205\t1\t2\t1,202\n"
    );
}

#[test]
fn table_with_unsafe_statistics() {
    let cfg = config(true, None);
    let counts = filled(&cfg);
    let text = counts.table(&vec![Some("0.08".to_string()), None], "0.08");
    assert_eq!(
        text,
        "\tLanguage\tFiles\tLines\tBlanks\tComments\tCode\tUnsafe (%)\n\
         \t--------\t-----\t-----\t------\t--------\t----\t----------\n\
         \tRust\t2\t1203\t1\t1\t1201\t1 (0.08%)\n\
         \tPython\t1\t2\t0\t1\t1\t\n\
         \t--------\t-----\t-----\t------\t--------\t----\t----------\n\
         Totals:\t\t3\t1205\t1\t2\t1202\t1 (0.08%)\n"
    );
    let short = counts.table(&vec![], "x");
    assert!(short.contains("\tRust\t2\t1203\t1\t1\t1201\t\n"));
    assert!(short.ends_with("\t1 (x%)\n"));
}

#[test]
fn results_are_aligned() {
    let cfg = config(false, Some(','));
    let counts = filled(&cfg);
    let shown = counts.write_results(&vec![], "").unwrap();
    assert_eq!(
        shown,
        "         Language  Files  Lines  Blanks  Comments  Code\n\
         \x20        --------  -----  -----  ------  --------  ----\n\
         \x20        Rust      2      1,203  1       1         1,201\n\
         \x20        Python    1      2      0       1         1\n\
         \x20        --------  -----  -----  ------  --------  ----\n\
         Totals:            3      1,205  1       2         1,202\n"
    );
    assert!(!shown.contains('\t'));
}

#[test]
fn files_that_were_added_and_not_counted_give_the_message() {
    let cfg = config(false, None);
    let mut counts = Counts::new(&cfg);
    counts.add_file("a.rs".to_string());
    assert_eq!(
        counts.write_results(&vec![], "").unwrap(),
        "\n\tNo source files were found matching the specified criteria\n"
    );
    assert!(counts.table(&vec![], "").ends_with("Totals:\t\t0\t0\t0\t0\t0\n"));
    counts.count(0, Ok(b"x();\n".to_vec())).unwrap();
    assert_eq!(
        counts.write_results(&vec![], "").unwrap(),
        "         Language  Files  Lines  Blanks  Comments  Code\n\
         \x20        --------  -----  -----  ------  --------  ----\n\
         \x20        Rust      1      1      0       0         1\n\
         \x20        --------  -----  -----  ------  --------  ----\n\
         Totals:            1      1      0       0         1\n"
    );
}

#[test]
fn no_files_give_a_message() {
    let cfg = config(true, None);
    let counts = Counts::new(&cfg);
    assert_eq!(
        counts.write_results(&vec![], "NaN").unwrap(),
        "\n\tNo source files were found matching the specified criteria\n"
    );
    assert_eq!(report(0, "t".to_string()), "\n\tNo source files were found matching the specified criteria\n");
    assert_eq!(report(2, "t".to_string()), "t");
}
