use graxus::markdown::{extract_headings, extract_markdown_links, extract_tags, extract_wiki_links};

// ── Wiki links ────────────────────────────────────────────────

#[test]
fn wiki_link_simple() {
    let links = extract_wiki_links("See [[My Note]] for details.");
    assert_eq!(links.len(), 1);
    assert_eq!(links[0].target, "My Note");
    assert!(links[0].alias.is_none());
    assert_eq!(links[0].full_text, "[[My Note]]");
}

#[test]
fn wiki_link_with_alias() {
    let links = extract_wiki_links("Check [[My Note|this page]].");
    assert_eq!(links.len(), 1);
    assert_eq!(links[0].target, "My Note");
    assert_eq!(links[0].alias.as_deref(), Some("this page"));
}

#[test]
fn wiki_link_with_folder_path() {
    let links = extract_wiki_links("Link to [[folder/My Note]].");
    assert_eq!(links.len(), 1);
    assert_eq!(links[0].target, "folder/My Note");
}

#[test]
fn wiki_link_multiple() {
    let links = extract_wiki_links("See [[A]] and [[B|second]].");
    assert_eq!(links.len(), 2);
    assert_eq!(links[0].target, "A");
    assert_eq!(links[1].target, "B");
    assert_eq!(links[1].alias.as_deref(), Some("second"));
}

#[test]
fn wiki_link_none() {
    let links = extract_wiki_links("No links here.");
    assert!(links.is_empty());
}

#[test]
fn wiki_link_unclosed() {
    let links = extract_wiki_links("Broken [[link here");
    assert!(links.is_empty());
}

#[test]
fn wiki_link_empty_target() {
    let links = extract_wiki_links("Empty [[]] link.");
    assert_eq!(links.len(), 1);
    assert_eq!(links[0].target, "");
}

#[test]
fn wiki_link_alias_and_target_are_trimmed() {
    let links = extract_wiki_links("[[  Note  |  Alias  ]]");
    assert_eq!(links.len(), 1);
    assert_eq!(links[0].target, "Note");
    assert_eq!(links[0].alias.as_deref(), Some("Alias"));
    assert_eq!(links[0].full_text, "[[  Note  |  Alias  ]]");
}

// ── Tags ──────────────────────────────────────────────────────

#[test]
fn tag_simple() {
    let tags = extract_tags("This has #rust in it.");
    assert_eq!(tags, vec!["rust"]);
}

#[test]
fn tag_multiple() {
    let tags = extract_tags("#tag1 and #tag2 here.");
    assert_eq!(tags, vec!["tag1", "tag2"]);
}

#[test]
fn tag_nested() {
    let tags = extract_tags("See #project/backend for details.");
    assert_eq!(tags, vec!["project/backend"]);
}

#[test]
fn tag_nested_deep() {
    let tags = extract_tags("Tag #a/b/c works.");
    assert_eq!(tags, vec!["a/b/c"]);
}

#[test]
fn tag_trailing_punctuation() {
    let tags = extract_tags("Tags: #rust, #go; #python.");
    assert_eq!(tags, vec!["rust", "go", "python"]);
}

#[test]
fn tag_with_hyphen() {
    let tags = extract_tags("Use #my-tag please.");
    assert_eq!(tags, vec!["my-tag"]);
}

#[test]
fn tag_none() {
    let tags = extract_tags("No tags here.");
    assert!(tags.is_empty());
}

#[test]
fn tag_heading_not_extracted() {
    let tags = extract_tags("# Heading\n## Subheading\n");
    assert!(tags.is_empty());
}

#[test]
fn tag_skips_frontmatter_delimiters() {
    let tags = extract_tags("---\n#real_tag\n---");
    assert_eq!(tags, vec!["real_tag"]);
}

#[test]
fn tag_at_start_of_line() {
    let tags = extract_tags("#important note");
    assert_eq!(tags, vec!["important"]);
}

#[test]
fn tag_trailing_slash_is_dropped() {
    let tags = extract_tags("Open #area/ and #x/).");
    assert_eq!(tags, vec!["area", "x"]);
}

#[test]
fn tag_of_only_punctuation_is_dropped() {
    let tags = extract_tags("#!! #.,");
    assert!(tags.is_empty());
}

#[test]
fn tag_lines_with_crlf() {
    let tags = extract_tags("#one\r\n---\r\n#two");
    assert_eq!(tags, vec!["one", "two"]);
}

// ── Headings ──────────────────────────────────────────────────

#[test]
fn headings_basic() {
    let md = "# Title\n## Section\n### Sub\n";
    let headings = extract_headings(md);
    assert_eq!(headings.len(), 3);
    assert_eq!(headings[0].level, 1);
    assert_eq!(headings[0].text, "Title");
    assert_eq!(headings[0].line, 1);
    assert_eq!(headings[1].level, 2);
    assert_eq!(headings[1].text, "Section");
    assert_eq!(headings[1].line, 2);
    assert_eq!(headings[2].level, 3);
    assert_eq!(headings[2].text, "Sub");
    assert_eq!(headings[2].line, 3);
}

#[test]
fn headings_empty() {
    let headings = extract_headings("No headings.");
    assert!(headings.is_empty());
}

#[test]
fn headings_level_6() {
    let headings = extract_headings("###### Deep heading");
    assert_eq!(headings.len(), 1);
    assert_eq!(headings[0].level, 6);
}

#[test]
fn headings_no_empty_text() {
    let headings = extract_headings("## \n### text\n");
    assert_eq!(headings.len(), 1);
    assert_eq!(headings[0].text, "text");
}

#[test]
fn headings_level_7_is_not_a_heading() {
    let headings = extract_headings("####### too deep\n  ## indented\n");
    assert_eq!(headings.len(), 1);
    assert_eq!(headings[0].level, 2);
    assert_eq!(headings[0].text, "indented");
    assert_eq!(headings[0].line, 2);
}

// ── Markdown links ────────────────────────────────────────────

#[test]
fn markdown_link_basic() {
    let links = extract_markdown_links("[Example](https://example.com)");
    assert_eq!(links.len(), 1);
    assert_eq!(links[0].text, "Example");
    assert_eq!(links[0].url, "https://example.com");
}

#[test]
fn markdown_link_multiple() {
    let links = extract_markdown_links("[A](http://a.com) and [B](http://b.com)");
    assert_eq!(links.len(), 2);
    assert_eq!(links[0].text, "A");
    assert_eq!(links[1].text, "B");
}

#[test]
fn markdown_link_skips_wiki_links() {
    let links = extract_markdown_links("Wiki [[Note]] and [MD](url)");
    assert_eq!(links.len(), 1);
    assert_eq!(links[0].text, "MD");
}

#[test]
fn markdown_link_none() {
    let links = extract_markdown_links("No links.");
    assert!(links.is_empty());
}

#[test]
fn markdown_link_without_url_is_skipped() {
    let links = extract_markdown_links("[plain] text [real](u) [open](never");
    assert_eq!(links.len(), 1);
    assert_eq!(links[0].text, "real");
    assert_eq!(links[0].url, "u");
}

// ── Mixed content ─────────────────────────────────────────────

#[test]
fn mixed_wiki_and_markdown_links() {
    let content = "See [[Wiki Note]] and [MD Link](http://example.com).";
    let wiki = extract_wiki_links(content);
    let md = extract_markdown_links(content);
    assert_eq!(wiki.len(), 1);
    assert_eq!(wiki[0].target, "Wiki Note");
    assert_eq!(md.len(), 1);
    assert_eq!(md[0].text, "MD Link");
}

#[test]
fn empty_content() {
    assert!(extract_wiki_links("").is_empty());
    assert!(extract_tags("").is_empty());
    assert!(extract_headings("").is_empty());
    assert!(extract_markdown_links("").is_empty());
}
