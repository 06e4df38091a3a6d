use graxus::config::{
    effective_codemap_backend, parse_env_bool, resolve_setting, CodeConfig, DocsConfig, EditConfig,
    EmbeddingsConfig, IndexConfig, ParserBackend, ProjectConfig, ScanConfig,
};

#[test]
fn test_embeddings_config_default() {
    let config = EmbeddingsConfig::default();
    assert!(!config.enabled);
    assert_eq!(config.provider, "openai");
    assert_eq!(config.model, "text-embedding-3-small");
    assert_eq!(config.dimensions, 1536);
    assert_eq!(config.batch_size, 64);
}

#[test]
fn section_defaults() {
    let scan = ScanConfig::default();
    assert!(scan.respect_gitignore);
    assert_eq!(scan.include_patterns.len(), 19);
    assert_eq!(scan.include_patterns[0], "**/*.md");
    assert_eq!(scan.exclude, vec!["node_modules/**", "target/**", "dist/**", "build/**", ".git/**", ".graxus/**"]);
    let docs = DocsConfig::default();
    assert!(docs.enabled && docs.obsidian_compatible);
    assert_eq!(docs.extensions, vec![".md", ".mdx"]);
    assert!(!docs.parse.wiki_links);
    let code = CodeConfig::default();
    assert_eq!(code.parser, "tree-sitter");
    assert_eq!(code.languages.len(), 11);
    assert_eq!(IndexConfig::default().storage, "json");
    assert_eq!(IndexConfig::default().path, ".graxus/index.db");
    assert_eq!(EditConfig::default().max_files_per_operation, 100);
    let project = ProjectConfig::for_directory(None);
    assert_eq!(project.name, "project");
    assert_eq!(project.root, ".");
}

#[test]
fn parser_backend_names() {
    assert_eq!(ParserBackend::Ripex.as_str(), "ripex");
    assert_eq!(ParserBackend::TreeSitter.as_str(), "tree-sitter");
    assert_eq!(ParserBackend::Auto.as_str(), "auto");
    assert_eq!(ParserBackend::Auto.effective(), ParserBackend::Ripex);
    assert_eq!(ParserBackend::TreeSitter.effective(), ParserBackend::TreeSitter);
    assert_eq!(ParserBackend::default(), ParserBackend::Ripex);
}

#[test]
fn parser_backend_parsing() {
    assert_eq!(ParserBackend::parse("  Tree_Sitter ").ok(), Some(ParserBackend::TreeSitter));
    assert_eq!(ParserBackend::parse("rip").ok(), Some(ParserBackend::Ripex));
    assert_eq!(ParserBackend::parse("AUTO").ok(), Some(ParserBackend::Auto));
    let err = ParserBackend::parse(" Bogus ").err().unwrap();
    assert_eq!(err.value, "bogus");
    assert_eq!(err.message(), "unknown parser backend: bogus (expected ripex|tree-sitter|auto)");
}

#[test]
fn codemap_backend_precedence() {
    assert_eq!(effective_codemap_backend(Some(ParserBackend::Auto), Some("ts")), ParserBackend::Auto);
    assert_eq!(effective_codemap_backend(None, Some("ts")), ParserBackend::TreeSitter);
    assert_eq!(effective_codemap_backend(None, Some("nonsense")), ParserBackend::Ripex);
    assert_eq!(effective_codemap_backend(None, None), ParserBackend::Ripex);
}

#[test]
fn test_env_override_bool_truthy_values() {
    for truthy in ["true", "TRUE", "1", "yes", "Yes"] {
        assert!(parse_env_bool(truthy));
    }
    for falsy in ["false", "0", "no", "", " true"] {
        assert!(!parse_env_bool(falsy));
    }
}

#[test]
fn settings_resolve_cli_then_section_then_default() {
    assert_eq!(resolve_setting(Some(1), Some(2), 3), 1);
    assert_eq!(resolve_setting(None, Some(2), 3), 2);
    assert_eq!(resolve_setting(None, None, 3), 3);
}
