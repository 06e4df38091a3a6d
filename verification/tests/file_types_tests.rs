use graxus::file_types::{detect_file, detect_kind, detect_language, is_binary, FileKind, Language};

#[test]
fn test_detect_rust_file() {
    assert_eq!(detect_language("main.rs"), Language::Rust);
}

#[test]
fn test_detect_typescript_file() {
    assert_eq!(detect_language("index.ts"), Language::TypeScript);
}

#[test]
fn test_detect_markdown_file() {
    assert_eq!(detect_language("README.md"), Language::Markdown);
}

#[test]
fn test_detect_unknown_file() {
    assert_eq!(detect_language("data.xyz"), Language::Unknown);
}

#[test]
fn test_detect_file_rust() {
    let (kind, lang) = detect_file("main.rs");
    assert_eq!(kind, FileKind::Code);
    assert_eq!(lang, Language::Rust);
}

#[test]
fn test_detect_file_config() {
    let (kind, lang) = detect_file("Cargo.toml");
    assert_eq!(kind, FileKind::Config);
    assert_eq!(lang, Language::Toml);
}

#[test]
fn test_detect_file_doc() {
    let (kind, lang) = detect_file("README.md");
    assert_eq!(kind, FileKind::Doc);
    assert_eq!(lang, Language::Markdown);
}

#[test]
fn test_detect_kind_code() {
    assert_eq!(detect_kind("main.rs"), FileKind::Code);
    assert_eq!(detect_kind("index.ts"), FileKind::Code);
    assert_eq!(detect_kind("main.py"), FileKind::Code);
    assert_eq!(detect_kind("app.go"), FileKind::Code);
}

#[test]
fn test_detect_kind_config() {
    assert_eq!(detect_kind("config.toml"), FileKind::Config);
    assert_eq!(detect_kind("settings.yaml"), FileKind::Config);
    assert_eq!(detect_kind("data.json"), FileKind::Config);
}

#[test]
fn test_is_binary() {
    assert!(is_binary("image.png"));
    assert!(is_binary("archive.zip"));
    assert!(is_binary("lib.so"));
    assert!(!is_binary("main.rs"));
    assert!(!is_binary("README.md"));
}

#[test]
fn test_language_as_str() {
    assert_eq!(Language::Rust.as_str(), "rust");
    assert_eq!(Language::TypeScript.as_str(), "typescript");
    assert_eq!(Language::Go.as_str(), "go");
    assert_eq!(Language::Python.as_str(), "python");
    assert_eq!(Language::Markdown.as_str(), "markdown");
}

#[test]
fn extension_case_and_dotfiles() {
    assert_eq!(detect_file("src/LIB.RS"), (FileKind::Code, Language::Rust));
    assert_eq!(detect_file(".gitignore"), (FileKind::Unknown, Language::Unknown));
    assert_eq!(detect_file("Makefile"), (FileKind::Unknown, Language::Unknown));
    assert_eq!(detect_file("notes.txt"), (FileKind::Doc, Language::Unknown));
    assert_eq!(detect_file("Cargo.lock"), (FileKind::Config, Language::Unknown));
    assert_eq!(detect_file("archive.tar.gz"), (FileKind::Unknown, Language::Unknown));
    assert!(is_binary("archive.tar.gz"));
    assert!(is_binary("PHOTO.JPG"));
}

#[test]
fn detects_c_family_languages_in_public_api() {
    assert_eq!(graxus::file_types::detect_language("main.c"), graxus::file_types::Language::C);
    assert_eq!(graxus::file_types::detect_language("main.cpp"), graxus::file_types::Language::Cpp);
    assert_eq!(graxus::file_types::detect_language("service.cs"), graxus::file_types::Language::CSharp);
}

#[test]
fn binary_files_have_no_kind_or_language() {
    for p in ["image.png", "archive.zip", "lib.so", "PHOTO.JPG"] {
        assert!(graxus::file_types::is_binary(p));
        assert_eq!(
            graxus::file_types::detect_file(p),
            (graxus::file_types::FileKind::Unknown, graxus::file_types::Language::Unknown)
        );
    }
}
