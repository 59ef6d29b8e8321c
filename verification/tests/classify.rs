use cargo_count::count::classify::{classify, LineCount};
use cargo_count::count::keyword::find_keyword;
use cargo_count::language::Language;

fn counts(lines: u64, blanks: u64, comments: u64, code: u64, usafe: u64) -> LineCount {
    LineCount { lines, blanks, comments, code, usafe }
}

fn chars(s: &str) -> Vec<char> {
    s.chars().collect()
}

fn split(line: &str, kw: &str) -> Option<(String, String)> {
    find_keyword(&chars(line), &chars(kw))
        .map(|(b, a)| (b.into_iter().collect(), a.into_iter().collect()))
}

#[test]
fn blank_lines_only() {
    assert_eq!(classify("\n\n\n", Language::Rust, false), counts(3, 3, 0, 0, 0));
    assert_eq!(classify("  \n\t\n \r\n", Language::C, true), counts(3, 3, 0, 0, 0));
}

#[test]
fn empty_text_has_no_lines() {
    assert_eq!(classify("", Language::Rust, true), counts(0, 0, 0, 0, 0));
}

#[test]
fn last_line_needs_no_line_feed() {
    assert_eq!(classify("a\nb", Language::Rust, false), counts(2, 0, 0, 2, 0));
    assert_eq!(classify("a\nb\n", Language::Rust, false), counts(2, 0, 0, 2, 0));
    assert_eq!(classify("a\n\n", Language::Rust, false), counts(2, 1, 0, 1, 0));
}

#[test]
fn c_like_comments_and_code() {
    assert_eq!(classify("// c\n/* m\n*/\ncode();\n", Language::C, false), counts(4, 0, 3, 1, 0));
}

#[test]
fn block_comment_on_one_line_closes_itself() {
    assert_eq!(classify("/* a */\ncode();\n", Language::C, false), counts(2, 0, 1, 1, 0));
}

#[test]
fn blank_line_inside_block_comment_is_comment() {
    assert_eq!(classify("/*\n\n*/\n", Language::Java, false), counts(3, 0, 3, 0, 0));
}

#[test]
fn block_comment_after_code_is_code_and_opens_comment() {
    assert_eq!(
        classify("x = 1; /* start\nstill comment\nend */\ny = 2;\n", Language::C, false),
        counts(4, 0, 2, 2, 0)
    );
    assert_eq!(classify("x = 1; /* a */\ny = 2;\n", Language::C, false), counts(2, 0, 0, 2, 0));
}

#[test]
fn single_line_comment_that_holds_block_start_opens_comment() {
    assert_eq!(classify("// see /* here\ncode();\n", Language::C, false), counts(2, 0, 2, 0, 0));
}

#[test]
fn php_has_two_single_line_prefixes() {
    assert_eq!(classify("// a\n# b\n$c = 1;\n", Language::Php, false), counts(3, 0, 2, 1, 0));
}

#[test]
fn languages_without_block_comments() {
    assert_eq!(classify("# a\n/* b\nc\n", Language::Shell, false), counts(3, 0, 1, 2, 0));
}

#[test]
fn python_block_token_closes_on_the_same_line() {
    assert_eq!(classify("''' doc\ncode\n'''\n", Language::Python, false), counts(3, 0, 2, 1, 0));
}

#[test]
fn unsafe_block_on_one_line() {
    assert_eq!(
        classify("fn f() { unsafe { x(); } }\n", Language::Rust, true),
        counts(1, 0, 0, 1, 1)
    );
}

#[test]
fn unsafe_statistics_off() {
    assert_eq!(
        classify("fn f() { unsafe { x(); } }\n", Language::Rust, false),
        counts(1, 0, 0, 1, 0)
    );
}

#[test]
fn unsafe_block_over_several_lines() {
    let text = "fn f() {\n    unsafe {\n        a();\n        b();\n    }\n    c();\n}\n";
    assert_eq!(classify(text, Language::Rust, true), counts(7, 0, 0, 7, 4));
}

#[test]
fn unsafe_fn_at_line_start() {
    let text = "unsafe fn f() {\n    a();\n}\nfn g() {}\n";
    assert_eq!(classify(text, Language::Rust, true), counts(4, 0, 0, 4, 3));
}

#[test]
fn nested_braces_inside_unsafe() {
    let text = "unsafe {\nif a {\nb();\n}\n}\nc();\n";
    assert_eq!(classify(text, Language::Rust, true), counts(6, 0, 0, 6, 5));
}

#[test]
fn keyword_in_single_line_comment_is_not_counted() {
    assert_eq!(classify("// unsafe example\n", Language::Rust, true), counts(1, 0, 1, 0, 0));
    assert_eq!(
        classify("let a = 1; // unsafe example {\nlet b = 2;\n", Language::Rust, true),
        counts(2, 0, 0, 2, 0)
    );
}

#[test]
fn keyword_behind_open_block_comment_is_not_counted() {
    assert_eq!(
        classify("let a = 1; /* unsafe {\n*/\nlet b = 2;\n", Language::Rust, true),
        counts(3, 0, 1, 2, 0)
    );
}

#[test]
fn keyword_behind_closed_block_comment_is_counted() {
    assert_eq!(
        classify("let a = 1; /* c */ unsafe { b() }\n", Language::Rust, true),
        counts(1, 0, 0, 1, 1)
    );
}

#[test]
fn keyword_inside_a_longer_word_is_not_counted() {
    assert_eq!(
        classify("let unsafe_code = not_unsafe;\nunsafely();\n", Language::Rust, true),
        counts(2, 0, 0, 2, 0)
    );
}

#[test]
fn more_closing_braces_than_opening_reset_the_depth() {
    let text = "unsafe { a(); } }\nb();\nunsafe {\nc();\n}\nd();\n";
    assert_eq!(classify(text, Language::Rust, true), counts(6, 0, 0, 6, 4));
}

#[test]
fn languages_without_keyword_are_unsafe_in_every_line() {
    assert_eq!(
        classify("int main() {\n// c\n\nreturn 0;\n}\n", Language::C, true),
        counts(5, 1, 1, 3, 3)
    );
    assert_eq!(classify("mov eax, 1\n", Language::Assembly, true), counts(1, 0, 0, 1, 1));
}

#[test]
fn languages_that_are_not_eligible_have_no_unsafe_lines() {
    assert_eq!(classify("unsafe { }\n", Language::Java, true), counts(1, 0, 0, 1, 0));
    assert_eq!(classify("x = 1\n", Language::Python, true), counts(1, 0, 0, 1, 0));
}

#[test]
fn carriage_returns_are_trimmed() {
    assert_eq!(classify("a\r\n\r\n// b\r\n", Language::Rust, false), counts(3, 1, 1, 1, 0));
}

#[test]
fn find_keyword_splits_at_first_word() {
    assert_eq!(
        split("fn f() { unsafe { x(); } }", "unsafe"),
        Some(("fn f() { ".to_string(), " { x(); } }".to_string()))
    );
    assert_eq!(split("unsafe", "unsafe"), Some((String::new(), String::new())));
    assert_eq!(split("unsafe{", "unsafe"), Some((String::new(), "{".to_string())));
    assert_eq!(
        split("an_unsafe unsafe; unsafe", "unsafe"),
        Some(("an_unsafe ".to_string(), "; unsafe".to_string()))
    );
}

#[test]
fn find_keyword_wants_a_whole_word() {
    assert_eq!(split("unsafely", "unsafe"), None);
    assert_eq!(split("notunsafe", "unsafe"), None);
    assert_eq!(split("unsafe_", "unsafe"), None);
    assert_eq!(split("unsafe1", "unsafe"), None);
    assert_eq!(split("", "unsafe"), None);
    assert_eq!(split("Unsafe", "unsafe"), None);
}

#[test]
fn find_keyword_takes_other_characters_as_boundaries() {
    assert_eq!(split("\u{e9}unsafe\u{e9}", "unsafe"), Some(("\u{e9}".to_string(), "\u{e9}".to_string())));
    assert_eq!(split("(unsafe)", "unsafe"), Some(("(".to_string(), ")".to_string())));
}

#[test]
fn find_keyword_takes_the_keyword_literally() {
    assert_eq!(split("a.b", "a.b"), Some((String::new(), String::new())));
    assert_eq!(split("axb", "a.b"), None);
    assert_eq!(split("x a+ y", "a+"), None);
    assert_eq!(split("x a+b y", "a+b"), Some(("x ".to_string(), " y".to_string())));
}
