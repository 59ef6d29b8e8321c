use cargo_count::cli::validators::{single_char, supported_lang};
use cargo_count::comment::Comment;
use cargo_count::error::CliError;
use cargo_count::fmt::{format_number, Format};
use cargo_count::language::Language;

#[test]
fn extensions_resolve_to_languages() {
    assert_eq!(Language::from_ext("rs"), Some(Language::Rust));
    assert_eq!(Language::from_ext("c"), Some(Language::C));
    assert_eq!(Language::from_ext("C"), Some(Language::Cpp));
    assert_eq!(Language::from_ext("c++"), Some(Language::Cpp));
    assert_eq!(Language::from_ext("h"), Some(Language::Header));
    assert_eq!(Language::from_ext("h++"), Some(Language::Hpp));
    assert_eq!(Language::from_ext("htm"), Some(Language::Html));
    assert_eq!(Language::from_ext("sh.in"), Some(Language::Shell));
    assert_eq!(Language::from_ext("nimrod"), Some(Language::Nim));
    assert_eq!(Language::from_ext("di"), Some(Language::D));
    assert_eq!(Language::from_ext("a51"), Some(Language::Assembly));
    assert_eq!(Language::from_ext("toml"), Some(Language::Toml));
}

#[test]
fn unknown_extensions_resolve_to_nothing() {
    assert_eq!(Language::from_ext(""), None);
    assert_eq!(Language::from_ext("RS"), None);
    assert_eq!(Language::from_ext("txt"), None);
    assert_eq!(Language::from_ext("rs "), None);
    assert_eq!(Language::from_ext(".rs"), None);
}

#[test]
fn languages_have_names() {
    assert_eq!(Language::Cpp.name(), "C++");
    assert_eq!(Language::Hpp.name(), "C++ Header");
    assert_eq!(Language::Header.name(), "C Header");
    assert_eq!(Language::JavaScript.name(), "JavaScript");
    assert_eq!(Language::Rust.name(), "Rust");
    assert_eq!(Language::Toml.name(), "TOML");
}

#[test]
fn unsafe_eligibility_and_keyword() {
    assert!(Language::Rust.is_unsafe());
    assert!(Language::C.is_unsafe());
    assert!(Language::Nim.is_unsafe());
    assert!(!Language::Java.is_unsafe());
    assert!(!Language::Python.is_unsafe());
    assert_eq!(Language::Rust.unsafe_keyword(), Some("unsafe"));
    assert_eq!(Language::C.unsafe_keyword(), None);
    assert_eq!(Language::Go.unsafe_keyword(), None);
}

#[test]
fn comment_tokens() {
    assert_eq!(Language::Rust.single(), Some(vec!["//"]));
    assert_eq!(Language::Php.single(), Some(vec!["//", "#"]));
    assert_eq!(Language::Html.single(), Some(vec!["<!--"]));
    assert_eq!(Language::Shell.single(), Some(vec!["#"]));
    assert_eq!(Language::Rust.multi_start(), Some("/*"));
    assert_eq!(Language::Rust.multi_end(), Some("*/"));
    assert_eq!(Language::Ruby.multi_start(), Some("=begin"));
    assert_eq!(Language::Ruby.multi_end(), Some("=end"));
    assert_eq!(Language::Nim.multi_start(), Some("#["));
    assert_eq!(Language::Nim.multi_end(), Some("]#"));
    assert_eq!(Language::Xml.multi_end(), Some("-->"));
}

#[test]
fn block_comment_tokens_come_in_pairs() {
    let all = [
        Language::C, Language::Header, Language::Hpp, Language::Cpp, Language::Css,
        Language::Html, Language::Java, Language::JavaScript, Language::Perl, Language::Php,
        Language::Python, Language::Ruby, Language::Rust, Language::Xml, Language::Toml,
        Language::Go, Language::Assembly, Language::Shell, Language::D, Language::Nim,
    ];
    for lang in all.iter() {
        assert_eq!(lang.multi_start().is_some(), lang.multi_end().is_some());
    }
    assert_eq!(Language::Toml.multi_start(), None);
    assert_eq!(Language::Shell.multi_end(), None);
}

#[test]
fn numbers_without_separator() {
    assert_eq!(format_number(0, None), "0");
    assert_eq!(format_number(7, None), "7");
    assert_eq!(format_number(1234567, None), "1234567");
    assert_eq!(format_number(u64::MAX, None), "18446744073709551615");
}

#[test]
fn numbers_with_separator() {
    assert_eq!(format_number(0, Some(',')), "0");
    assert_eq!(format_number(999, Some(',')), "999");
    assert_eq!(format_number(1000, Some(',')), "1,000");
    assert_eq!(format_number(12345, Some(',')), "12,345");
    assert_eq!(format_number(123456, Some('.')), "123.456");
    assert_eq!(format_number(1234567, Some(',')), "1,234,567");
    assert_eq!(format_number(u64::MAX, Some('_')), "18_446_744_073_709_551_615");
}

#[test]
fn format_gives_what_is_marked() {
    assert_eq!(*Format::Error("a").format(), "a");
    assert_eq!(*Format::Warning(2u8).format(), 2u8);
    assert_eq!(*Format::Good(String::from("b")).format(), "b");
}

#[test]
fn supported_lang_accepts_known_extensions() {
    assert_eq!(supported_lang("rs".to_string()), Ok(()));
    assert_eq!(
        supported_lang("xyz".to_string()),
        Err("unsupported source code extension 'xyz'".to_string())
    );
}

#[test]
fn single_char_wants_one_character() {
    assert_eq!(single_char(",".to_string()), Ok(()));
    assert_eq!(single_char("\u{e9}".to_string()), Ok(()));
    assert_eq!(
        single_char(",,".to_string()),
        Err("the --separator argument option only accepts a single character but found ',,'"
            .to_string())
    );
    assert!(single_char(String::new()).is_err());
}

#[test]
fn errors_are_fatal_and_say_what_went_wrong() {
    let e = CliError::Generic("boom".to_string());
    assert!(e.is_fatal());
    assert_eq!(e.description(), "boom");
    assert_eq!(e.message(), "error: boom");
    assert_eq!(CliError::UnknownExt("x".to_string()).description(), "x");
    assert_eq!(
        CliError::Unknown.description(),
        "An unknown fatal error has occurred, please consider filing a bug-report!"
    );
    assert!(CliError::Unknown.is_fatal());
}
