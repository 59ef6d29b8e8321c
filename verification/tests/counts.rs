use cargo_count::config::{Config, Utf8Rule};
use cargo_count::count::classify::{classify_chars, LineCount, Scanner, Syntax};
use cargo_count::count::counts::Counts;
use cargo_count::count::Count;
use cargo_count::decode::{decode, Decoded};
use cargo_count::error::CliError;
use cargo_count::language::Language;

fn config(exts: Option<Vec<&str>>, rule: Utf8Rule, usafe: bool) -> Config {
    Config {
        verbose: false,
        all: false,
        thousands: Some(','),
        utf8_rule: rule,
        usafe,
        exclude: vec![],
        exts: exts.map(|v| v.iter().map(|s| s.to_string()).collect()),
        to_count: vec![],
        follow_links: false,
    }
}

fn line_count(lines: u64, blanks: u64, comments: u64, code: u64, usafe: u64) -> LineCount {
    LineCount { lines, blanks, comments, code, usafe }
}

#[test]
fn new_group_is_empty() {
    let c = Count::new(Language::Rust, Some('.'));
    assert_eq!(c.lang, Language::Rust);
    assert_eq!((c.lines, c.blanks, c.comments, c.code, c.usafe), (0, 0, 0, 0, 0));
    assert!(c.files.is_empty());
    assert_eq!(c.total_files(), "0");
}

#[test]
fn group_shows_its_numbers_with_the_separator() {
    let mut c = Count::new(Language::C, Some(','));
    c.add_counts(&line_count(4600, 1000, 1100, 2500, 1200));
    c.add_file("a.c".to_string());
    c.add_file("b.c".to_string());
    assert_eq!(c.lines(), "4,600");
    assert_eq!(c.blanks(), "1,000");
    assert_eq!(c.comments(), "1,100");
    assert_eq!(c.code(), "2,500");
    assert_eq!(c.usafe(), "1,200");
    assert_eq!(c.total_files(), "2");
    assert_eq!(c.files, vec!["a.c".to_string(), "b.c".to_string()]);
}

#[test]
fn files_are_grouped_by_language_in_order_of_first_sight() {
    let cfg = config(None, Utf8Rule::Strict, false);
    let mut counts = Counts::new(&cfg);
    assert!(counts.add_file("src/main.rs".to_string()));
    assert!(counts.add_file("src/a.c".to_string()));
    assert!(counts.add_file("src/lib.rs".to_string()));
    assert!(counts.add_file("b.cc".to_string()));
    let groups = counts.groups();
    assert_eq!(groups.len(), 3);
    assert_eq!(groups[0].lang, Language::Rust);
    assert_eq!(groups[0].files, vec!["src/main.rs".to_string(), "src/lib.rs".to_string()]);
    assert_eq!(groups[1].lang, Language::C);
    assert_eq!(groups[2].lang, Language::Cpp);
    assert_eq!(groups[0].sep, Some(','));
    assert_eq!(counts.totals().files, 0);
}

#[test]
fn files_with_unrecognized_extension_are_never_counted() {
    let cfg = config(None, Utf8Rule::Strict, false);
    let mut counts = Counts::new(&cfg);
    assert!(!counts.add_file("README.md".to_string()));
    assert!(!counts.add_file("Makefile".to_string()));
    assert!(!counts.add_file("a/.rs".to_string()));
    assert!(!counts.add_file("dir.rs/file".to_string()));
    assert!(counts.groups().is_empty());
    assert_eq!(counts.totals().files, 0);
    assert_eq!(counts.language_for("notes.txt"), None);
    assert_eq!(counts.language_for("x.py"), Some(Language::Python));
}

#[test]
fn only_the_extensions_asked_for_are_counted() {
    let cfg = config(Some(vec!["rs", "py"]), Utf8Rule::Strict, false);
    let mut counts = Counts::new(&cfg);
    let files: Vec<String> =
        ["a.rs", "b.c", "c.py", "d.js", "e.rs"].iter().map(|s| s.to_string()).collect();
    assert_eq!(counts.fill_from(&files), 3);
    let groups = counts.groups();
    assert_eq!(groups.len(), 2);
    assert_eq!(groups[0].lang, Language::Rust);
    assert_eq!(groups[0].files.len(), 2);
    assert_eq!(groups[1].lang, Language::Python);
    assert_eq!(counts.language_for("b.c"), None);
}

#[test]
fn counts_are_folded_into_group_and_totals() {
    let cfg = config(None, Utf8Rule::Strict, true);
    let mut counts = Counts::new(&cfg);
    counts.add_file("a.rs".to_string());
    counts.add_file("b.c".to_string());
    counts.add_file("h.rs".to_string());
    assert!(counts.count(0, Ok(b"fn f() {\n    unsafe { g() }\n}\n\n// c\n".to_vec())).is_ok());
    assert_eq!(counts.totals().files, 1);
    assert!(counts.count(1, Ok(b"int x;\n/* a\nb */\n".to_vec())).is_ok());
    assert!(counts.count(0, Ok(b"fn h() {}\n".to_vec())).is_ok());
    let groups = counts.groups();
    assert_eq!(
        (groups[0].lines, groups[0].blanks, groups[0].comments, groups[0].code, groups[0].usafe),
        (6, 1, 1, 4, 1)
    );
    assert_eq!(
        (groups[1].lines, groups[1].blanks, groups[1].comments, groups[1].code, groups[1].usafe),
        (3, 0, 2, 1, 1)
    );
    let t = counts.totals();
    assert_eq!(t.files, 3);
    assert_eq!(t.count, line_count(9, 1, 3, 5, 2));
    assert!(t.count.usafe <= t.count.code);
    assert_eq!(t.count.lines, t.count.blanks + t.count.comments + t.count.code);
}

#[test]
fn fold_adds_counts() {
    let cfg = config(None, Utf8Rule::Strict, false);
    let mut counts = Counts::new(&cfg);
    counts.add_file("a.go".to_string());
    counts.add_file("b.go".to_string());
    counts.fold(0, &line_count(10, 2, 3, 5, 0));
    assert_eq!(counts.totals().files, 1);
    counts.fold(0, &line_count(1, 0, 0, 1, 0));
    assert_eq!(counts.totals().files, 2);
    assert_eq!(counts.totals().count, line_count(11, 2, 3, 6, 0));
    assert_eq!(counts.groups()[0].code, 6);
}

#[test]
fn invalid_utf8_under_strict_is_an_error() {
    let cfg = config(None, Utf8Rule::Strict, false);
    let mut counts = Counts::new(&cfg);
    counts.add_file("a.rs".to_string());
    match counts.count(0, Ok(vec![b'a', 0xff, b'\n'])) {
        Err(CliError::Generic(msg)) => assert_eq!(msg, "stream did not contain valid UTF-8"),
        other => panic!("unexpected: {:?}", other),
    }
    assert_eq!(counts.totals().count, line_count(0, 0, 0, 0, 0));
    assert_eq!(counts.totals().files, 0);
}

#[test]
fn invalid_utf8_under_ignore_is_passed_over() {
    let cfg = config(None, Utf8Rule::Ignore, false);
    let mut counts = Counts::new(&cfg);
    counts.add_file("a.rs".to_string());
    counts.add_file("b.rs".to_string());
    assert!(counts.count(0, Ok(vec![b'a', 0xff, b'\n'])).is_ok());
    assert_eq!(counts.totals().count, line_count(0, 0, 0, 0, 0));
    assert_eq!(counts.totals().files, 1);
    assert!(counts.count(0, Ok(b"a\n".to_vec())).is_ok());
    assert_eq!(counts.totals().count, line_count(1, 0, 0, 1, 0));
    assert_eq!(counts.totals().files, 2);
}

#[test]
fn invalid_utf8_under_lossy_is_counted() {
    let cfg = config(None, Utf8Rule::Lossy, false);
    let mut counts = Counts::new(&cfg);
    counts.add_file("a.rs".to_string());
    assert!(counts.count(0, Ok(vec![b'a', 0xff, b'\n', b'\n', b'/', b'/', 0xfe])).is_ok());
    assert_eq!(counts.totals().count, line_count(3, 1, 1, 1, 0));
}

#[test]
fn adding_files_leaves_the_totals_as_they_were() {
    let cfg = config(None, Utf8Rule::Strict, false);
    let mut counts = Counts::new(&cfg);
    let files: Vec<String> = ["a.rs", "b.rs", "c.py"].iter().map(|s| s.to_string()).collect();
    assert_eq!(counts.fill_from(&files), 3);
    let t = counts.totals();
    assert_eq!(t.files, 0);
    assert_eq!(t.count, line_count(0, 0, 0, 0, 0));
    assert!(counts.count(1, Ok(b"x = 1\n".to_vec())).is_ok());
    assert!(counts.add_file("d.c".to_string()));
    let t = counts.totals();
    assert_eq!(t.files, 1);
    assert_eq!(t.count, line_count(1, 0, 0, 1, 0));
    assert_eq!(counts.groups()[0].files.len(), 2);
}

#[test]
fn a_file_that_cannot_be_read_is_passed_over_under_ignore_only() {
    let why = "Input/output error (os error 5)".to_string();
    let ignore = config(None, Utf8Rule::Ignore, false);
    let mut counts = Counts::new(&ignore);
    counts.add_file("a.rs".to_string());
    assert!(counts.count(0, Err(why.clone())).is_ok());
    assert_eq!(counts.totals().files, 1);
    assert_eq!(counts.totals().count, line_count(0, 0, 0, 0, 0));
    for rule in [Utf8Rule::Strict, Utf8Rule::Lossy] {
        let cfg = config(None, rule, false);
        let mut counts = Counts::new(&cfg);
        counts.add_file("a.rs".to_string());
        match counts.count(0, Err(why.clone())) {
            Err(CliError::Generic(msg)) => assert_eq!(msg, why),
            other => panic!("unexpected: {:?}", other),
        }
        assert_eq!(counts.totals().files, 0);
        assert_eq!(counts.totals().count, line_count(0, 0, 0, 0, 0));
    }
}

#[test]
fn decoding_rules() {
    assert!(matches!(decode(b"ab".to_vec(), Utf8Rule::Strict), Decoded::Text(s) if s == "ab"));
    assert!(matches!(decode(b"a\xc3\xa9".to_vec(), Utf8Rule::Ignore), Decoded::Text(s) if s == "a\u{e9}"));
    assert!(matches!(decode(b"ab".to_vec(), Utf8Rule::Lossy), Decoded::Text(s) if s == "ab"));
    assert!(matches!(decode(vec![0xff], Utf8Rule::Strict), Decoded::Invalid));
    assert!(matches!(decode(vec![0xc3], Utf8Rule::Ignore), Decoded::Skipped));
    assert!(matches!(decode(vec![b'a', 0xff], Utf8Rule::Lossy), Decoded::Text(s) if s == "a\u{fffd}"));
    assert!(matches!(decode(vec![], Utf8Rule::Strict), Decoded::Text(s) if s.is_empty()));
}

#[test]
fn count_brackets_adds_up_braces() {
    assert_eq!(Counts::count_brackets("{ { } x", None), 1);
    assert_eq!(Counts::count_brackets("}}", None), -2);
    assert_eq!(Counts::count_brackets("}}", Some(3)), 1);
    assert_eq!(Counts::count_brackets("", Some(-4)), -4);
    assert_eq!(Counts::count_brackets("fn f() { if a { b } }", Some(0)), 0);
    assert_eq!(Counts::count_brackets("[(<>)]", Some(2)), 2);
}

#[test]
fn counting_twice_gives_the_same_counts() {
    let text: Vec<char> =
        "// a\nfn f() {\n  unsafe {\n  x();\n  }\n}\n\n/* b\n c */\n".chars().collect();
    let a = classify_chars(&text, Language::Rust, true);
    let b = classify_chars(&text, Language::Rust, true);
    assert_eq!(a, b);
    assert_eq!(a, line_count(9, 1, 3, 5, 3));
    assert_eq!(a.lines, a.blanks + a.comments + a.code);
}

#[test]
fn scanner_takes_lines_one_by_one() {
    let syn = Syntax::new(Language::Rust);
    let mut s = Scanner::new();
    for line in ["unsafe {", "a();", "}", "b();", "", " // c"].iter() {
        let chars: Vec<char> = line.chars().collect();
        s.advance(&syn, true, &chars);
    }
    assert_eq!(s.count(), line_count(6, 1, 1, 4, 3));
}
