//! The language registry: which language a file extension stands for, and
//! what each language's comments and `unsafe` code look like.

use crate::comment::Comment;
use crate::text::str_eq;
use vstd::prelude::*;

verus! {

/// A source language that lines are counted for.
#[derive(Clone, Copy, Debug, PartialEq, Eq, Structural)]
pub enum Language {
    C,
    Header,
    Hpp,
    Cpp,
    Css,
    Html,
    Java,
    JavaScript,
    Perl,
    Php,
    Python,
    Ruby,
    Rust,
    Xml,
    Toml,
    Go,
    Assembly,
    Shell,
    D,
    Nim,
}

/// The language that the file extension `ext` stands for, if any. The
/// extension is taken as it is: `c` is C, `C` is C++.
pub open spec fn language_of(ext: Seq<char>) -> Option<Language> {
    if ext == "cpp"@ || ext == "cp"@ || ext == "cc"@ || ext == "cxx"@ || ext == "c++"@ || ext
        == "C"@ {
        Some(Language::Cpp)
    } else if ext == "hpp"@ || ext == "h++"@ {
        Some(Language::Hpp)
    } else if ext == "c"@ {
        Some(Language::C)
    } else if ext == "h"@ {
        Some(Language::Header)
    } else if ext == "css"@ {
        Some(Language::Css)
    } else if ext == "java"@ {
        Some(Language::Java)
    } else if ext == "js"@ {
        Some(Language::JavaScript)
    } else if ext == "rs"@ {
        Some(Language::Rust)
    } else if ext == "xml"@ {
        Some(Language::Xml)
    } else if ext == "html"@ || ext == "htm"@ {
        Some(Language::Html)
    } else if ext == "py"@ {
        Some(Language::Python)
    } else if ext == "rb"@ {
        Some(Language::Ruby)
    } else if ext == "php"@ {
        Some(Language::Php)
    } else if ext == "toml"@ {
        Some(Language::Toml)
    } else if ext == "pl"@ {
        Some(Language::Perl)
    } else if ext == "go"@ {
        Some(Language::Go)
    } else if ext == "agc"@ || ext == "asm"@ || ext == "a51"@ || ext == "inc"@ || ext == "nasm"@
        || ext == "s"@ || ext == "ms"@ {
        Some(Language::Assembly)
    } else if ext == "ps1"@ || ext == "psd1"@ || ext == "psm1"@ || ext == "sh"@ || ext == "bash"@
        || ext == "bats"@ || ext == "cgi"@ || ext == "command"@ || ext == "fcgi"@ || ext
        == "ksh"@ || ext == "sh.in"@ || ext == "tmux"@ || ext == "tool"@ || ext == "zsh"@ || ext
        == "tcsh"@ || ext == "csh"@ || ext == "fish"@ {
        Some(Language::Shell)
    } else if ext == "d"@ || ext == "di"@ {
        Some(Language::D)
    } else if ext == "nim"@ || ext == "nimrod"@ {
        Some(Language::Nim)
    } else {
        None
    }
}

impl Language {
    /// The name under which the language is shown.
    pub open spec fn display_name(self) -> Seq<char> {
        match self {
            Language::Cpp => "C++"@,
            Language::Hpp => "C++ Header"@,
            Language::C => "C"@,
            Language::Header => "C Header"@,
            Language::Css => "CSS"@,
            Language::Java => "Java"@,
            Language::JavaScript => "JavaScript"@,
            Language::Rust => "Rust"@,
            Language::Xml => "XML"@,
            Language::Html => "HTML"@,
            Language::Python => "Python"@,
            Language::Ruby => "Ruby"@,
            Language::Php => "PHP"@,
            Language::Toml => "TOML"@,
            Language::Perl => "Perl"@,
            Language::Go => "Go"@,
            Language::Assembly => "Assembly"@,
            Language::Shell => "Shell"@,
            Language::D => "D"@,
            Language::Nim => "Nim"@,
        }
    }

    /// Whether code in the language counts towards the `unsafe` statistics.
    pub open spec fn unsafe_eligible(self) -> bool {
        self == Language::C || self == Language::Cpp || self == Language::Hpp || self
            == Language::Header || self == Language::Rust || self == Language::Assembly || self
            == Language::Nim
    }

    /// The keyword that opens an `unsafe` scope. A language that is
    /// eligible and has none is unsafe in every line of code.
    pub open spec fn keyword(self) -> Option<Seq<char>> {
        if self == Language::Rust {
            Some("unsafe"@)
        } else {
            None
        }
    }

    /// The tokens that begin a single line comment.
    pub open spec fn line_comments(self) -> Seq<Seq<char>> {
        match self {
            Language::C
            | Language::Cpp
            | Language::Hpp
            | Language::Header
            | Language::Css
            | Language::Java
            | Language::JavaScript
            | Language::Rust
            | Language::Go
            | Language::D => seq!["//"@],
            Language::Php => seq!["//"@, "#"@],
            Language::Xml | Language::Html => seq!["<!--"@],
            Language::Ruby
            | Language::Python
            | Language::Toml
            | Language::Perl
            | Language::Assembly
            | Language::Shell
            | Language::Nim => seq!["#"@],
        }
    }

    /// The token that begins a multi-line comment and the one that ends it.
    /// A language has both or neither.
    pub open spec fn block_comment(self) -> Option<(Seq<char>, Seq<char>)> {
        match self {
            Language::C
            | Language::Cpp
            | Language::Hpp
            | Language::Header
            | Language::Css
            | Language::Java
            | Language::JavaScript
            | Language::Go
            | Language::Rust
            | Language::Php
            | Language::D => Some(("/*"@, "*/"@)),
            Language::Xml | Language::Html => Some(("<!--"@, "-->"@)),
            Language::Ruby => Some(("=begin"@, "=end"@)),
            Language::Python => Some(("'''"@, "'''"@)),
            Language::Nim => Some(("#["@, "]#"@)),
            Language::Toml | Language::Perl | Language::Assembly | Language::Shell => None,
        }
    }

    /// Looks up the language of a file extension. An extension that the
    /// registry does not know gives `None`.
    pub fn from_ext(ext: &str) -> (r: Option<Language>)
        ensures
            r == language_of(ext@),
    {
        if str_eq(ext, "cpp") || str_eq(ext, "cp") || str_eq(ext, "cc") || str_eq(ext, "cxx")
            || str_eq(ext, "c++") || str_eq(ext, "C") {
            Some(Language::Cpp)
        } else if str_eq(ext, "hpp") || str_eq(ext, "h++") {
            Some(Language::Hpp)
        } else if str_eq(ext, "c") {
            Some(Language::C)
        } else if str_eq(ext, "h") {
            Some(Language::Header)
        } else if str_eq(ext, "css") {
            Some(Language::Css)
        } else if str_eq(ext, "java") {
            Some(Language::Java)
        } else if str_eq(ext, "js") {
            Some(Language::JavaScript)
        } else if str_eq(ext, "rs") {
            Some(Language::Rust)
        } else if str_eq(ext, "xml") {
            Some(Language::Xml)
        } else if str_eq(ext, "html") || str_eq(ext, "htm") {
            Some(Language::Html)
        } else if str_eq(ext, "py") {
            Some(Language::Python)
        } else if str_eq(ext, "rb") {
            Some(Language::Ruby)
        } else if str_eq(ext, "php") {
            Some(Language::Php)
        } else if str_eq(ext, "toml") {
            Some(Language::Toml)
        } else if str_eq(ext, "pl") {
            Some(Language::Perl)
        } else if str_eq(ext, "go") {
            Some(Language::Go)
        } else if str_eq(ext, "agc") || str_eq(ext, "asm") || str_eq(ext, "a51") || str_eq(
            ext,
            "inc",
        ) || str_eq(ext, "nasm") || str_eq(ext, "s") || str_eq(ext, "ms") {
            Some(Language::Assembly)
        } else if str_eq(ext, "ps1") || str_eq(ext, "psd1") || str_eq(ext, "psm1") || str_eq(
            ext,
            "sh",
        ) || str_eq(ext, "bash") || str_eq(ext, "bats") || str_eq(ext, "cgi") || str_eq(
            ext,
            "command",
        ) || str_eq(ext, "fcgi") || str_eq(ext, "ksh") || str_eq(ext, "sh.in") || str_eq(
            ext,
            "tmux",
        ) || str_eq(ext, "tool") || str_eq(ext, "zsh") || str_eq(ext, "tcsh") || str_eq(
            ext,
            "csh",
        ) || str_eq(ext, "fish") {
            Some(Language::Shell)
        } else if str_eq(ext, "d") || str_eq(ext, "di") {
            Some(Language::D)
        } else if str_eq(ext, "nim") || str_eq(ext, "nimrod") {
            Some(Language::Nim)
        } else {
            None
        }
    }

    /// The name under which the language is shown.
    pub fn name(&self) -> (r: &'static str)
        ensures
            r@ == self.display_name(),
    {
        match *self {
            Language::Cpp => "C++",
            Language::Hpp => "C++ Header",
            Language::C => "C",
            Language::Header => "C Header",
            Language::Css => "CSS",
            Language::Java => "Java",
            Language::JavaScript => "JavaScript",
            Language::Rust => "Rust",
            Language::Xml => "XML",
            Language::Html => "HTML",
            Language::Python => "Python",
            Language::Ruby => "Ruby",
            Language::Php => "PHP",
            Language::Toml => "TOML",
            Language::Perl => "Perl",
            Language::Go => "Go",
            Language::Assembly => "Assembly",
            Language::Shell => "Shell",
            Language::D => "D",
            Language::Nim => "Nim",
        }
    }

    /// Tells whether code in the language counts towards the `unsafe`
    /// statistics.
    pub fn is_unsafe(&self) -> (r: bool)
        ensures
            r == self.unsafe_eligible(),
    {
        match *self {
            Language::C
            | Language::Cpp
            | Language::Hpp
            | Language::Header
            | Language::Rust
            | Language::Assembly
            | Language::Nim => true,
            _ => false,
        }
    }

    /// The keyword that opens an `unsafe` scope in the language, if it has
    /// one.
    pub fn unsafe_keyword(&self) -> (r: Option<&'static str>)
        ensures
            r is Some == self.keyword() is Some,
            r matches Some(k) ==> Some(k@) == self.keyword(),
    {
        match *self {
            Language::Rust => Some("unsafe"),
            _ => None,
        }
    }
}

impl Comment for Language {
    type Rep = &'static str;

    fn single(&self) -> (r: Option<Vec<&'static str>>)
        ensures
            r matches Some(v) && v@.len() == self.line_comments().len() && forall|k: int|
                0 <= k < v@.len() ==> (#[trigger] v@[k])@ == self.line_comments()[k],
    {
        match *self {
            Language::C
            | Language::Cpp
            | Language::Hpp
            | Language::Header
            | Language::Css
            | Language::Java
            | Language::JavaScript
            | Language::Rust
            | Language::Go
            | Language::D => {
                let v = vec!["//"];
                Some(v)
            },
            Language::Php => {
                let v = vec!["//", "#"];
                Some(v)
            },
            Language::Xml | Language::Html => {
                let v = vec!["<!--"];
                Some(v)
            },
            Language::Ruby
            | Language::Python
            | Language::Toml
            | Language::Perl
            | Language::Assembly
            | Language::Shell
            | Language::Nim => {
                let v = vec!["#"];
                Some(v)
            },
        }
    }

    fn multi_start(&self) -> (r: Option<&'static str>)
        ensures
            r is Some == self.block_comment() is Some,
            r matches Some(t) ==> t@ == self.block_comment().unwrap().0,
    {
        match *self {
            Language::C
            | Language::Cpp
            | Language::Hpp
            | Language::Header
            | Language::Css
            | Language::Java
            | Language::JavaScript
            | Language::Go
            | Language::Rust
            | Language::Php
            | Language::D => Some("/*"),
            Language::Xml | Language::Html => Some("<!--"),
            Language::Ruby => Some("=begin"),
            Language::Python => Some("'''"),
            Language::Nim => Some("#["),
            Language::Toml | Language::Perl | Language::Assembly | Language::Shell => None,
        }
    }

    fn multi_end(&self) -> (r: Option<&'static str>)
        ensures
            r is Some == self.block_comment() is Some,
            r matches Some(t) ==> t@ == self.block_comment().unwrap().1,
    {
        match *self {
            Language::C
            | Language::Cpp
            | Language::Hpp
            | Language::Header
            | Language::Css
            | Language::Java
            | Language::Go
            | Language::JavaScript
            | Language::Rust
            | Language::Php
            | Language::D => Some("*/"),
            Language::Xml | Language::Html => Some("-->"),
            Language::Ruby => Some("=end"),
            Language::Python => Some("'''"),
            Language::Nim => Some("]#"),
            Language::Toml | Language::Perl | Language::Assembly | Language::Shell => None,
        }
    }
}

} // verus!
