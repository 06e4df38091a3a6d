//! File kind and language detection from file extensions.
use vstd::prelude::*;
use crate::paths::{extension, extension_spec};
use crate::text::{str_eq, to_lowercase, unicode_lowercase};

verus! {

/// Coarse classification of a file by its extension.
#[derive(Debug, Clone, Copy, PartialEq, Eq, Structural)]
pub enum FileKind {
    Code,
    Doc,
    Config,
    Unknown,
}

/// The language of a file.
#[derive(Debug, Clone, Copy, PartialEq, Eq, Structural)]
pub enum Language {
    Rust,
    TypeScript,
    JavaScript,
    Go,
    Python,
    C,
    Cpp,
    CSharp,
    Java,
    Kotlin,
    Swift,
    Markdown,
    Html,
    Css,
    Toml,
    Yaml,
    Json,
    Unknown,
}

/// The lowercase name of a language.
pub open spec fn language_name(l: Language) -> Seq<char> {
    match l {
        Language::Rust => "rust"@,
        Language::TypeScript => "typescript"@,
        Language::JavaScript => "javascript"@,
        Language::Go => "go"@,
        Language::Python => "python"@,
        Language::C => "c"@,
        Language::Cpp => "cpp"@,
        Language::CSharp => "csharp"@,
        Language::Java => "java"@,
        Language::Kotlin => "kotlin"@,
        Language::Swift => "swift"@,
        Language::Markdown => "markdown"@,
        Language::Html => "html"@,
        Language::Css => "css"@,
        Language::Toml => "toml"@,
        Language::Yaml => "yaml"@,
        Language::Json => "json"@,
        Language::Unknown => "unknown"@,
    }
}

impl Language {
    pub fn as_str(&self) -> (s: &'static str)
        ensures
            s@ == language_name(*self),
    {
        match self {
            Language::Rust => "rust",
            Language::TypeScript => "typescript",
            Language::JavaScript => "javascript",
            Language::Go => "go",
            Language::Python => "python",
            Language::C => "c",
            Language::Cpp => "cpp",
            Language::CSharp => "csharp",
            Language::Java => "java",
            Language::Kotlin => "kotlin",
            Language::Swift => "swift",
            Language::Markdown => "markdown",
            Language::Html => "html",
            Language::Css => "css",
            Language::Toml => "toml",
            Language::Yaml => "yaml",
            Language::Json => "json",
            Language::Unknown => "unknown",
        }
    }
}

/// The lowercased extension of a path, empty when it has none.
pub open spec fn lower_extension(p: Seq<char>) -> Seq<char> {
    match extension_spec(p) {
        Some(e) => unicode_lowercase(e),
        None => unicode_lowercase(Seq::empty()),
    }
}

/// The kind and language an extension (lowercased) stands for.
pub open spec fn classify(ext: Seq<char>) -> (FileKind, Language) {
    if ext == "rs"@ {
        (FileKind::Code, Language::Rust)
    } else if ext == "ts"@ || ext == "mts"@ || ext == "cts"@ || ext == "tsx"@ {
        (FileKind::Code, Language::TypeScript)
    } else if ext == "js"@ || ext == "mjs"@ || ext == "cjs"@ || ext == "jsx"@ {
        (FileKind::Code, Language::JavaScript)
    } else if ext == "go"@ {
        (FileKind::Code, Language::Go)
    } else if ext == "py"@ || ext == "pyi"@ {
        (FileKind::Code, Language::Python)
    } else if ext == "c"@ || ext == "h"@ {
        (FileKind::Code, Language::C)
    } else if ext == "cpp"@ || ext == "cc"@ || ext == "cxx"@ || ext == "hpp"@ || ext == "hh"@ || ext == "hxx"@ {
        (FileKind::Code, Language::Cpp)
    } else if ext == "cs"@ {
        (FileKind::Code, Language::CSharp)
    } else if ext == "java"@ {
        (FileKind::Code, Language::Java)
    } else if ext == "kt"@ || ext == "kts"@ {
        (FileKind::Code, Language::Kotlin)
    } else if ext == "swift"@ {
        (FileKind::Code, Language::Swift)
    } else if ext == "md"@ || ext == "mdx"@ {
        (FileKind::Doc, Language::Markdown)
    } else if ext == "txt"@ {
        (FileKind::Doc, Language::Unknown)
    } else if ext == "html"@ || ext == "htm"@ {
        (FileKind::Code, Language::Html)
    } else if ext == "css"@ || ext == "scss"@ || ext == "sass"@ || ext == "less"@ {
        (FileKind::Code, Language::Css)
    } else if ext == "toml"@ {
        (FileKind::Config, Language::Toml)
    } else if ext == "yaml"@ || ext == "yml"@ {
        (FileKind::Config, Language::Yaml)
    } else if ext == "json"@ || ext == "jsonc"@ {
        (FileKind::Config, Language::Json)
    } else if ext == "lock"@ {
        (FileKind::Config, Language::Unknown)
    } else {
        (FileKind::Unknown, Language::Unknown)
    }
}

fn lowered_extension(path: &str) -> (e: String)
    ensures
        e@ == lower_extension(path@),
{
    match extension(path) {
        Some(e) => to_lowercase(e.as_str()),
        None => {
            proof {
                reveal_strlit("");
            }
            assert(""@ =~= Seq::<char>::empty());
            to_lowercase("")
        },
    }
}

fn classify_extension(e: &str) -> (r: (FileKind, Language))
    ensures
        r == classify(e@),
{
    if str_eq(e, "rs") {
        (FileKind::Code, Language::Rust)
    } else if str_eq(e, "ts") || str_eq(e, "mts") || str_eq(e, "cts") || str_eq(e, "tsx") {
        (FileKind::Code, Language::TypeScript)
    } else if str_eq(e, "js") || str_eq(e, "mjs") || str_eq(e, "cjs") || str_eq(e, "jsx") {
        (FileKind::Code, Language::JavaScript)
    } else if str_eq(e, "go") {
        (FileKind::Code, Language::Go)
    } else if str_eq(e, "py") || str_eq(e, "pyi") {
        (FileKind::Code, Language::Python)
    } else if str_eq(e, "c") || str_eq(e, "h") {
        (FileKind::Code, Language::C)
    } else if str_eq(e, "cpp") || str_eq(e, "cc") || str_eq(e, "cxx") || str_eq(e, "hpp") || str_eq(e, "hh") || str_eq(e, "hxx") {
        (FileKind::Code, Language::Cpp)
    } else if str_eq(e, "cs") {
        (FileKind::Code, Language::CSharp)
    } else if str_eq(e, "java") {
        (FileKind::Code, Language::Java)
    } else if str_eq(e, "kt") || str_eq(e, "kts") {
        (FileKind::Code, Language::Kotlin)
    } else if str_eq(e, "swift") {
        (FileKind::Code, Language::Swift)
    } else if str_eq(e, "md") || str_eq(e, "mdx") {
        (FileKind::Doc, Language::Markdown)
    } else if str_eq(e, "txt") {
        (FileKind::Doc, Language::Unknown)
    } else if str_eq(e, "html") || str_eq(e, "htm") {
        (FileKind::Code, Language::Html)
    } else if str_eq(e, "css") || str_eq(e, "scss") || str_eq(e, "sass") || str_eq(e, "less") {
        (FileKind::Code, Language::Css)
    } else if str_eq(e, "toml") {
        (FileKind::Config, Language::Toml)
    } else if str_eq(e, "yaml") || str_eq(e, "yml") {
        (FileKind::Config, Language::Yaml)
    } else if str_eq(e, "json") || str_eq(e, "jsonc") {
        (FileKind::Config, Language::Json)
    } else if str_eq(e, "lock") {
        (FileKind::Config, Language::Unknown)
    } else {
        (FileKind::Unknown, Language::Unknown)
    }
}

/// Detect file kind and language from the file extension, compared without
/// regard to case.
pub fn detect_file(path: &str) -> (r: (FileKind, Language))
    ensures
        r == classify(lower_extension(path@)),
{
    let e = lowered_extension(path);
    classify_extension(e.as_str())
}

/// Detect only the language from the extension.
pub fn detect_language(path: &str) -> (l: Language)
    ensures
        l == classify(lower_extension(path@)).1,
{
    detect_file(path).1
}

/// Detect only the file kind from the extension.
pub fn detect_kind(path: &str) -> (k: FileKind)
    ensures
        k == classify(lower_extension(path@)).0,
{
    detect_file(path).0
}

/// The extensions of binary files.
pub open spec fn binary_extension(e: Seq<char>) -> bool {
    e == "exe"@ || e == "dll"@ || e == "so"@ || e == "dylib"@ || e == "bin"@ || e == "o"@ || e == "a"@
        || e == "lib"@ || e == "png"@ || e == "jpg"@ || e == "jpeg"@ || e == "gif"@ || e == "bmp"@
        || e == "ico"@ || e == "svg"@ || e == "webp"@ || e == "mp3"@ || e == "mp4"@ || e == "wav"@
        || e == "avi"@ || e == "mov"@ || e == "mkv"@ || e == "flv"@ || e == "webm"@ || e == "zip"@
        || e == "tar"@ || e == "gz"@ || e == "bz2"@ || e == "xz"@ || e == "7z"@ || e == "rar"@
        || e == "pdf"@ || e == "doc"@ || e == "docx"@ || e == "xls"@ || e == "xlsx"@ || e == "ppt"@
        || e == "pptx"@ || e == "woff"@ || e == "woff2"@ || e == "ttf"@ || e == "otf"@ || e == "eot"@
}

/// Whether the file is binary, judged by its extension.
pub fn is_binary(path: &str) -> (b: bool)
    ensures
        b == binary_extension(lower_extension(path@)),
{
    let e = lowered_extension(path);
    let e = e.as_str();
    str_eq(e, "exe") || str_eq(e, "dll") || str_eq(e, "so") || str_eq(e, "dylib") || str_eq(e, "bin")
        || str_eq(e, "o") || str_eq(e, "a") || str_eq(e, "lib") || str_eq(e, "png") || str_eq(e, "jpg")
        || str_eq(e, "jpeg") || str_eq(e, "gif") || str_eq(e, "bmp") || str_eq(e, "ico") || str_eq(e, "svg")
        || str_eq(e, "webp") || str_eq(e, "mp3") || str_eq(e, "mp4") || str_eq(e, "wav") || str_eq(e, "avi")
        || str_eq(e, "mov") || str_eq(e, "mkv") || str_eq(e, "flv") || str_eq(e, "webm") || str_eq(e, "zip")
        || str_eq(e, "tar") || str_eq(e, "gz") || str_eq(e, "bz2") || str_eq(e, "xz") || str_eq(e, "7z")
        || str_eq(e, "rar") || str_eq(e, "pdf") || str_eq(e, "doc") || str_eq(e, "docx") || str_eq(e, "xls")
        || str_eq(e, "xlsx") || str_eq(e, "ppt") || str_eq(e, "pptx") || str_eq(e, "woff") || str_eq(e, "woff2")
        || str_eq(e, "ttf") || str_eq(e, "otf") || str_eq(e, "eot")
}

/// A binary file is neither code, documentation nor configuration, and has
/// no language: no extension that marks a binary names a kind.
pub proof fn lemma_binary_is_unknown(path: Seq<char>)
    requires
        binary_extension(lower_extension(path)),
    ensures
        classify(lower_extension(path)) == (FileKind::Unknown, Language::Unknown),
{
    let e = lower_extension(path);
    if e == "exe"@ {
        reveal_strlit("exe");
        assert(e.len() == 3 && e[0] == 'e' && e[1] == 'x' && e[2] == 'e');
    }
    if e == "dll"@ {
        reveal_strlit("dll");
        assert(e.len() == 3 && e[0] == 'd' && e[1] == 'l' && e[2] == 'l');
    }
    if e == "so"@ {
        reveal_strlit("so");
        assert(e.len() == 2 && e[0] == 's' && e[1] == 'o');
    }
    if e == "dylib"@ {
        reveal_strlit("dylib");
        assert(e.len() == 5 && e[0] == 'd' && e[1] == 'y' && e[2] == 'l' && e[3] == 'i' && e[4] == 'b');
    }
    if e == "bin"@ {
        reveal_strlit("bin");
        assert(e.len() == 3 && e[0] == 'b' && e[1] == 'i' && e[2] == 'n');
    }
    if e == "o"@ {
        reveal_strlit("o");
        assert(e.len() == 1 && e[0] == 'o');
    }
    if e == "a"@ {
        reveal_strlit("a");
        assert(e.len() == 1 && e[0] == 'a');
    }
    if e == "lib"@ {
        reveal_strlit("lib");
        assert(e.len() == 3 && e[0] == 'l' && e[1] == 'i' && e[2] == 'b');
    }
    if e == "png"@ {
        reveal_strlit("png");
        assert(e.len() == 3 && e[0] == 'p' && e[1] == 'n' && e[2] == 'g');
    }
    if e == "jpg"@ {
        reveal_strlit("jpg");
        assert(e.len() == 3 && e[0] == 'j' && e[1] == 'p' && e[2] == 'g');
    }
    if e == "jpeg"@ {
        reveal_strlit("jpeg");
        assert(e.len() == 4 && e[0] == 'j' && e[1] == 'p' && e[2] == 'e' && e[3] == 'g');
    }
    if e == "gif"@ {
        reveal_strlit("gif");
        assert(e.len() == 3 && e[0] == 'g' && e[1] == 'i' && e[2] == 'f');
    }
    if e == "bmp"@ {
        reveal_strlit("bmp");
        assert(e.len() == 3 && e[0] == 'b' && e[1] == 'm' && e[2] == 'p');
    }
    if e == "ico"@ {
        reveal_strlit("ico");
        assert(e.len() == 3 && e[0] == 'i' && e[1] == 'c' && e[2] == 'o');
    }
    if e == "svg"@ {
        reveal_strlit("svg");
        assert(e.len() == 3 && e[0] == 's' && e[1] == 'v' && e[2] == 'g');
    }
    if e == "webp"@ {
        reveal_strlit("webp");
        assert(e.len() == 4 && e[0] == 'w' && e[1] == 'e' && e[2] == 'b' && e[3] == 'p');
    }
    if e == "mp3"@ {
        reveal_strlit("mp3");
        assert(e.len() == 3 && e[0] == 'm' && e[1] == 'p' && e[2] == '3');
    }
    if e == "mp4"@ {
        reveal_strlit("mp4");
        assert(e.len() == 3 && e[0] == 'm' && e[1] == 'p' && e[2] == '4');
    }
    if e == "wav"@ {
        reveal_strlit("wav");
        assert(e.len() == 3 && e[0] == 'w' && e[1] == 'a' && e[2] == 'v');
    }
    if e == "avi"@ {
        reveal_strlit("avi");
        assert(e.len() == 3 && e[0] == 'a' && e[1] == 'v' && e[2] == 'i');
    }
    if e == "mov"@ {
        reveal_strlit("mov");
        assert(e.len() == 3 && e[0] == 'm' && e[1] == 'o' && e[2] == 'v');
    }
    if e == "mkv"@ {
        reveal_strlit("mkv");
        assert(e.len() == 3 && e[0] == 'm' && e[1] == 'k' && e[2] == 'v');
    }
    if e == "flv"@ {
        reveal_strlit("flv");
        assert(e.len() == 3 && e[0] == 'f' && e[1] == 'l' && e[2] == 'v');
    }
    if e == "webm"@ {
        reveal_strlit("webm");
        assert(e.len() == 4 && e[0] == 'w' && e[1] == 'e' && e[2] == 'b' && e[3] == 'm');
    }
    if e == "zip"@ {
        reveal_strlit("zip");
        assert(e.len() == 3 && e[0] == 'z' && e[1] == 'i' && e[2] == 'p');
    }
    if e == "tar"@ {
        reveal_strlit("tar");
        assert(e.len() == 3 && e[0] == 't' && e[1] == 'a' && e[2] == 'r');
    }
    if e == "gz"@ {
        reveal_strlit("gz");
        assert(e.len() == 2 && e[0] == 'g' && e[1] == 'z');
    }
    if e == "bz2"@ {
        reveal_strlit("bz2");
        assert(e.len() == 3 && e[0] == 'b' && e[1] == 'z' && e[2] == '2');
    }
    if e == "xz"@ {
        reveal_strlit("xz");
        assert(e.len() == 2 && e[0] == 'x' && e[1] == 'z');
    }
    if e == "7z"@ {
        reveal_strlit("7z");
        assert(e.len() == 2 && e[0] == '7' && e[1] == 'z');
    }
    if e == "rar"@ {
        reveal_strlit("rar");
        assert(e.len() == 3 && e[0] == 'r' && e[1] == 'a' && e[2] == 'r');
    }
    if e == "pdf"@ {
        reveal_strlit("pdf");
        assert(e.len() == 3 && e[0] == 'p' && e[1] == 'd' && e[2] == 'f');
    }
    if e == "doc"@ {
        reveal_strlit("doc");
        assert(e.len() == 3 && e[0] == 'd' && e[1] == 'o' && e[2] == 'c');
    }
    if e == "docx"@ {
        reveal_strlit("docx");
        assert(e.len() == 4 && e[0] == 'd' && e[1] == 'o' && e[2] == 'c' && e[3] == 'x');
    }
    if e == "xls"@ {
        reveal_strlit("xls");
        assert(e.len() == 3 && e[0] == 'x' && e[1] == 'l' && e[2] == 's');
    }
    if e == "xlsx"@ {
        reveal_strlit("xlsx");
        assert(e.len() == 4 && e[0] == 'x' && e[1] == 'l' && e[2] == 's' && e[3] == 'x');
    }
    if e == "ppt"@ {
        reveal_strlit("ppt");
        assert(e.len() == 3 && e[0] == 'p' && e[1] == 'p' && e[2] == 't');
    }
    if e == "pptx"@ {
        reveal_strlit("pptx");
        assert(e.len() == 4 && e[0] == 'p' && e[1] == 'p' && e[2] == 't' && e[3] == 'x');
    }
    if e == "woff"@ {
        reveal_strlit("woff");
        assert(e.len() == 4 && e[0] == 'w' && e[1] == 'o' && e[2] == 'f' && e[3] == 'f');
    }
    if e == "woff2"@ {
        reveal_strlit("woff2");
        assert(e.len() == 5 && e[0] == 'w' && e[1] == 'o' && e[2] == 'f' && e[3] == 'f' && e[4] == '2');
    }
    if e == "ttf"@ {
        reveal_strlit("ttf");
        assert(e.len() == 3 && e[0] == 't' && e[1] == 't' && e[2] == 'f');
    }
    if e == "otf"@ {
        reveal_strlit("otf");
        assert(e.len() == 3 && e[0] == 'o' && e[1] == 't' && e[2] == 'f');
    }
    if e == "eot"@ {
        reveal_strlit("eot");
        assert(e.len() == 3 && e[0] == 'e' && e[1] == 'o' && e[2] == 't');
    }
    lemma_classify_literals();
}

proof fn lemma_classify_literals()
    ensures
        "rs"@.len() == 2,
        "rs"@[0] == 'r',
        "rs"@[1] == 's',
        "ts"@.len() == 2,
        "ts"@[0] == 't',
        "ts"@[1] == 's',
        "mts"@.len() == 3,
        "mts"@[0] == 'm',
        "mts"@[1] == 't',
        "mts"@[2] == 's',
        "cts"@.len() == 3,
        "cts"@[0] == 'c',
        "cts"@[1] == 't',
        "cts"@[2] == 's',
        "tsx"@.len() == 3,
        "tsx"@[0] == 't',
        "tsx"@[1] == 's',
        "tsx"@[2] == 'x',
        "js"@.len() == 2,
        "js"@[0] == 'j',
        "js"@[1] == 's',
        "mjs"@.len() == 3,
        "mjs"@[0] == 'm',
        "mjs"@[1] == 'j',
        "mjs"@[2] == 's',
        "cjs"@.len() == 3,
        "cjs"@[0] == 'c',
        "cjs"@[1] == 'j',
        "cjs"@[2] == 's',
        "jsx"@.len() == 3,
        "jsx"@[0] == 'j',
        "jsx"@[1] == 's',
        "jsx"@[2] == 'x',
        "go"@.len() == 2,
        "go"@[0] == 'g',
        "go"@[1] == 'o',
        "py"@.len() == 2,
        "py"@[0] == 'p',
        "py"@[1] == 'y',
        "pyi"@.len() == 3,
        "pyi"@[0] == 'p',
        "pyi"@[1] == 'y',
        "pyi"@[2] == 'i',
        "c"@.len() == 1,
        "c"@[0] == 'c',
        "h"@.len() == 1,
        "h"@[0] == 'h',
        "cpp"@.len() == 3,
        "cpp"@[0] == 'c',
        "cpp"@[1] == 'p',
        "cpp"@[2] == 'p',
        "cc"@.len() == 2,
        "cc"@[0] == 'c',
        "cc"@[1] == 'c',
        "cxx"@.len() == 3,
        "cxx"@[0] == 'c',
        "cxx"@[1] == 'x',
        "cxx"@[2] == 'x',
        "hpp"@.len() == 3,
        "hpp"@[0] == 'h',
        "hpp"@[1] == 'p',
        "hpp"@[2] == 'p',
        "hh"@.len() == 2,
        "hh"@[0] == 'h',
        "hh"@[1] == 'h',
        "hxx"@.len() == 3,
        "hxx"@[0] == 'h',
        "hxx"@[1] == 'x',
        "hxx"@[2] == 'x',
        "cs"@.len() == 2,
        "cs"@[0] == 'c',
        "cs"@[1] == 's',
        "java"@.len() == 4,
        "java"@[0] == 'j',
        "java"@[1] == 'a',
        "java"@[2] == 'v',
        "java"@[3] == 'a',
        "kt"@.len() == 2,
        "kt"@[0] == 'k',
        "kt"@[1] == 't',
        "kts"@.len() == 3,
        "kts"@[0] == 'k',
        "kts"@[1] == 't',
        "kts"@[2] == 's',
        "swift"@.len() == 5,
        "swift"@[0] == 's',
        "swift"@[1] == 'w',
        "swift"@[2] == 'i',
        "swift"@[3] == 'f',
        "swift"@[4] == 't',
        "md"@.len() == 2,
        "md"@[0] == 'm',
        "md"@[1] == 'd',
        "mdx"@.len() == 3,
        "mdx"@[0] == 'm',
        "mdx"@[1] == 'd',
        "mdx"@[2] == 'x',
        "txt"@.len() == 3,
        "txt"@[0] == 't',
        "txt"@[1] == 'x',
        "txt"@[2] == 't',
        "html"@.len() == 4,
        "html"@[0] == 'h',
        "html"@[1] == 't',
        "html"@[2] == 'm',
        "html"@[3] == 'l',
        "htm"@.len() == 3,
        "htm"@[0] == 'h',
        "htm"@[1] == 't',
        "htm"@[2] == 'm',
        "css"@.len() == 3,
        "css"@[0] == 'c',
        "css"@[1] == 's',
        "css"@[2] == 's',
        "scss"@.len() == 4,
        "scss"@[0] == 's',
        "scss"@[1] == 'c',
        "scss"@[2] == 's',
        "scss"@[3] == 's',
        "sass"@.len() == 4,
        "sass"@[0] == 's',
        "sass"@[1] == 'a',
        "sass"@[2] == 's',
        "sass"@[3] == 's',
        "less"@.len() == 4,
        "less"@[0] == 'l',
        "less"@[1] == 'e',
        "less"@[2] == 's',
        "less"@[3] == 's',
        "toml"@.len() == 4,
        "toml"@[0] == 't',
        "toml"@[1] == 'o',
        "toml"@[2] == 'm',
        "toml"@[3] == 'l',
        "yaml"@.len() == 4,
        "yaml"@[0] == 'y',
        "yaml"@[1] == 'a',
        "yaml"@[2] == 'm',
        "yaml"@[3] == 'l',
        "yml"@.len() == 3,
        "yml"@[0] == 'y',
        "yml"@[1] == 'm',
        "yml"@[2] == 'l',
        "json"@.len() == 4,
        "json"@[0] == 'j',
        "json"@[1] == 's',
        "json"@[2] == 'o',
        "json"@[3] == 'n',
        "jsonc"@.len() == 5,
        "jsonc"@[0] == 'j',
        "jsonc"@[1] == 's',
        "jsonc"@[2] == 'o',
        "jsonc"@[3] == 'n',
        "jsonc"@[4] == 'c',
        "lock"@.len() == 4,
        "lock"@[0] == 'l',
        "lock"@[1] == 'o',
        "lock"@[2] == 'c',
        "lock"@[3] == 'k',
{
    reveal_strlit("rs");
    reveal_strlit("ts");
    reveal_strlit("mts");
    reveal_strlit("cts");
    reveal_strlit("tsx");
    reveal_strlit("js");
    reveal_strlit("mjs");
    reveal_strlit("cjs");
    reveal_strlit("jsx");
    reveal_strlit("go");
    reveal_strlit("py");
    reveal_strlit("pyi");
    reveal_strlit("c");
    reveal_strlit("h");
    reveal_strlit("cpp");
    reveal_strlit("cc");
    reveal_strlit("cxx");
    reveal_strlit("hpp");
    reveal_strlit("hh");
    reveal_strlit("hxx");
    reveal_strlit("cs");
    reveal_strlit("java");
    reveal_strlit("kt");
    reveal_strlit("kts");
    reveal_strlit("swift");
    reveal_strlit("md");
    reveal_strlit("mdx");
    reveal_strlit("txt");
    reveal_strlit("html");
    reveal_strlit("htm");
    reveal_strlit("css");
    reveal_strlit("scss");
    reveal_strlit("sass");
    reveal_strlit("less");
    reveal_strlit("toml");
    reveal_strlit("yaml");
    reveal_strlit("yml");
    reveal_strlit("json");
    reveal_strlit("jsonc");
    reveal_strlit("lock");
}

/// Whether a file is binary depends on its extension alone, compared
/// without regard to case.
pub proof fn lemma_binary_by_extension(p: Seq<char>, q: Seq<char>)
    requires
        lower_extension(p) == lower_extension(q),
    ensures
        binary_extension(lower_extension(p)) == binary_extension(lower_extension(q)),
{
}

} // verus!
