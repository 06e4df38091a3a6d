use graxus::edit::{
    apply_change, preview_replace, replace_literal, search, ApplyError, FileText, ReplaceMode, SearchMode,
};

fn make_file(path: &str, content: &str) -> FileText {
    FileText {
        path: format!("/tmp/project/{path}"),
        relative_path: path.to_string(),
        content: Some(content.to_string()),
    }
}

fn chars(s: &str) -> Vec<char> {
    s.chars().collect()
}

#[test]
fn test_literal_search() {
    let file = make_file("test.rs", "fn goodbye() {\n    println!(\"world\");\n}");
    let hits = search("println", &[file], &SearchMode::Literal).unwrap();
    assert_eq!(hits.len(), 1);
    assert_eq!(hits[0].line, 2);
    assert_eq!(hits[0].match_text, "println");
}

#[test]
fn test_literal_search_multiple() {
    let file = make_file("test.rs", "foo()\nbar()\nfoo()");
    let hits = search("foo", &[file], &SearchMode::Literal).unwrap();
    assert_eq!(hits.len(), 2);
}

#[test]
fn test_regex_search() {
    let file = make_file("test.rs", "fn goodbye() {\n    println!(\"world\");\n}");
    let hits = search(r"println!\(", &[file], &SearchMode::Regex).unwrap();
    assert_eq!(hits.len(), 1);
}

#[test]
fn test_no_matches() {
    let file = make_file("test.rs", "fn goodbye() {}");
    let hits = search("xyz", &[file], &SearchMode::Literal).unwrap();
    assert!(hits.is_empty());
}

#[test]
fn test_empty_file() {
    let file = make_file("test.rs", "");
    let hits = search("goodbye", &[file], &SearchMode::Literal).unwrap();
    assert!(hits.is_empty());
}

#[test]
fn test_regex_search_multiple_matches() {
    let file = make_file("test.rs", "let a = 1;\nlet b = 2;\nlet c = 3;");
    let hits = search(r"let \w+ = \d+;", &[file], &SearchMode::Regex).unwrap();
    assert_eq!(hits.len(), 3);
    assert_eq!(hits[0].line, 1);
    assert_eq!(hits[1].line, 2);
    assert_eq!(hits[2].line, 3);
}

#[test]
fn test_regex_search_no_matches() {
    let file = make_file("test.rs", "fn goodbye() {}");
    let hits = search(r"\d{3}-\d{4}", &[file], &SearchMode::Regex).unwrap();
    assert!(hits.is_empty());
}

#[test]
fn test_regex_search_invalid_pattern() {
    let file = make_file("test.rs", "fn goodbye() {}");
    let result = search("[invalid", &[file], &SearchMode::Regex);
    assert!(result.is_err());
}

#[test]
fn test_large_file_search() {
    let mut content = String::new();
    for i in 0..10_000 {
        content.push_str(&format!("line {} with target word\n", i));
    }
    let file = make_file("large.rs", &content);
    let hits = search("target", &[file], &SearchMode::Literal).unwrap();
    assert_eq!(hits.len(), 10_000);
}

#[test]
fn test_regex_search_word_boundary() {
    let file = make_file("test.rs", "foobar foo bar foo_bar");
    let hits = search(r"\bfoo\b", &[file], &SearchMode::Regex).unwrap();
    assert_eq!(hits.len(), 1);
    assert_eq!(hits[0].match_text, "foo");
}

#[test]
fn search_reports_byte_columns_and_overlapping_literal_matches() {
    let file = make_file("src/a.rs", "é aaa");
    let hits = search("aa", &[file], &SearchMode::Literal).unwrap();
    // "é" takes two bytes; a literal is searched again one past each match.
    let cols: Vec<usize> = hits.iter().map(|h| h.column).collect();
    assert_eq!(cols, vec![4, 5]);
    assert_eq!(hits[0].file, "src/a.rs");
    assert_eq!(hits[0].text, "é aaa");

    let file = make_file("src/a.rs", "é aaa");
    let hits = search("a+", &[file], &SearchMode::Regex).unwrap();
    assert_eq!(hits.len(), 1);
    assert_eq!(hits[0].column, 4);
    assert_eq!(hits[0].match_text, "aaa");
}

#[test]
fn search_skips_unreadable_and_git_files() {
    let git = FileText {
        path: "/tmp/project/.git/config".to_string(),
        relative_path: ".git/config".to_string(),
        content: Some("target".to_string()),
    };
    let unread = FileText { path: "/tmp/project/b.rs".to_string(), relative_path: "b.rs".to_string(), content: None };
    let ok = make_file("c.rs", "x\r\ntarget\n");
    let hits = search("target", &[git, unread, ok], &SearchMode::Literal).unwrap();
    assert_eq!(hits.len(), 1);
    assert_eq!(hits[0].file, "c.rs");
    assert_eq!(hits[0].line, 2);
    assert_eq!(hits[0].column, 1);
}

#[test]
fn test_preview_replace_literal() {
    let file = make_file("test.rs", "fn goodbye() {}\nfn world() {}");
    let preview = preview_replace("goodbye", "greet", &[file], &ReplaceMode::Literal, 100).unwrap();
    assert_eq!(preview.total_replacements, 1);
    assert_eq!(preview.affected_files.len(), 1);
    assert_eq!(preview.affected_files[0].replacements, 1);
}

#[test]
fn test_preview_no_matches() {
    let file = make_file("test.rs", "fn goodbye() {}");
    let preview = preview_replace("xyz", "abc", &[file], &ReplaceMode::Literal, 100).unwrap();
    assert_eq!(preview.total_replacements, 0);
    assert!(preview.affected_files.is_empty());
}

#[test]
fn test_preview_multiple_lines() {
    let file = make_file("test.rs", "foo\nfoo\nfoo");
    let preview = preview_replace("foo", "bar", &[file], &ReplaceMode::Literal, 100).unwrap();
    assert_eq!(preview.total_replacements, 3);
}

#[test]
fn test_preview_regex() {
    let file = make_file("test.rs", "foo123 foo456");
    let preview = preview_replace(r"foo\d+", "bar", &[file], &ReplaceMode::Regex, 100).unwrap();
    assert_eq!(preview.total_replacements, 1);
    assert_eq!(preview.mode, "regex");
    assert_eq!(preview.affected_files[0].preview_lines[0].after, "bar bar");
}

#[test]
fn test_preview_multiple_files() {
    let files = vec![make_file("a.rs", "fn foo() {}"), make_file("b.rs", "fn bar() { foo(); }")];
    let preview = preview_replace("foo", "baz", &files, &ReplaceMode::Literal, 100).unwrap();
    assert_eq!(preview.affected_files.len(), 2);
    assert_eq!(preview.total_replacements, 2);
}

#[test]
fn test_preview_max_files_limit() {
    let mut files = Vec::new();
    for i in 0..5 {
        let name = format!("f{}.rs", i);
        let content = format!("fn foo{}() {{ foo(); }}", i);
        files.push(make_file(&name, &content));
    }
    let preview = preview_replace("foo", "bar", &files, &ReplaceMode::Literal, 2).unwrap();
    assert_eq!(preview.affected_files.len(), 2);
}

#[test]
fn test_apply_replace_writes_changes() {
    let content = "fn goodbye() {}\nfn world() {}";
    let file = make_file("test.rs", content);
    let preview = preview_replace("goodbye", "greet", &[file], &ReplaceMode::Literal, 100).unwrap();
    assert_eq!(preview.total_replacements, 1);

    let written = apply_change(content, &preview.affected_files[0]).unwrap();
    assert_eq!(written, "fn greet() {}\nfn world() {}");
}

#[test]
fn test_apply_replace_rollback_by_re_previewing() {
    let file = make_file("test.rs", "alpha beta gamma");
    let preview1 = preview_replace("alpha", "omega", std::slice::from_ref(&file), &ReplaceMode::Literal, 100).unwrap();
    let after1 = apply_change("alpha beta gamma", &preview1.affected_files[0]).unwrap();
    assert_eq!(after1, "omega beta gamma");

    let file = make_file("test.rs", &after1);
    let preview2 = preview_replace("omega", "alpha", &[file], &ReplaceMode::Literal, 100).unwrap();
    let after2 = apply_change(&after1, &preview2.affected_files[0]).unwrap();
    assert_eq!(after2, "alpha beta gamma");
}

#[test]
fn test_preview_regex_with_groups() {
    let file = make_file("test.rs", "let x = 42;\nlet y = 100;");
    let preview =
        preview_replace(r"let (\w+) = (\d+);", r"const $1: i32 = $2;", &[file], &ReplaceMode::Regex, 100).unwrap();
    assert_eq!(preview.total_replacements, 2);
    assert_eq!(preview.affected_files[0].preview_lines[0].after, "const x: i32 = 42;");
    assert_eq!(preview.affected_files[0].preview_lines[1].after, "const y: i32 = 100;");
}

#[test]
fn preview_skips_protected_files_and_rejects_bad_regex() {
    let files = vec![make_file("Cargo.lock", "foo"), make_file(".env", "foo"), make_file("ok.rs", "foo")];
    let preview = preview_replace("foo", "bar", &files, &ReplaceMode::Literal, 100).unwrap();
    assert_eq!(preview.affected_files.len(), 1);
    assert_eq!(preview.affected_files[0].file, "ok.rs");
    assert_eq!(preview.mode, "literal");
    assert!(preview_replace("(", "x", &files, &ReplaceMode::Regex, 100).is_err());
}

#[test]
fn apply_refuses_a_changed_or_shortened_file() {
    let file = make_file("t.rs", "one\ntwo\n");
    let preview = preview_replace("two", "2", &[file], &ReplaceMode::Literal, 100).unwrap();
    let change = &preview.affected_files[0];
    assert_eq!(apply_change("one\ntwo\n", change).unwrap(), "one\n2\n");
    match apply_change("one\nthree\n", change) {
        Err(ApplyError::LineChanged { line, expected, found }) => {
            assert_eq!(line, 2);
            assert_eq!(expected, "two");
            assert_eq!(found, "three");
        }
        other => panic!("unexpected {other:?}"),
    }
    match apply_change("one", change) {
        Err(ApplyError::LineMissing { line }) => assert_eq!(line, 2),
        other => panic!("unexpected {other:?}"),
    }
}

#[test]
fn literal_replacement_matches_str_replace() {
    for (s, old, new) in [("aaa", "aa", "b"), ("abc", "", "-"), ("", "", "x"), ("xyx", "x", ""), ("héllo", "l", "L")] {
        let got: String = replace_literal(&chars(s), &chars(old), &chars(new)).into_iter().collect();
        assert_eq!(got, s.replace(old, new));
    }
}
