use graxus::config::{
    env_overrides, parse_usize, CodeConfig, DefaultsConfig, DocsConfig, EditConfig, EmbeddingsConfig, ProjectConfig,
    ScanConfig,
};

fn vars(pairs: &[(&str, &str)]) -> Vec<(String, String)> {
    pairs.iter().map(|(k, v)| (k.to_string(), v.to_string())).collect()
}

#[test]
fn test_env_override_string_field() {
    let o = env_overrides(&vars(&[("GRAXUS_PROJECT_NAME", "env-project")]));
    assert_eq!(o.project_name.as_deref(), Some("env-project"));
}

#[test]
fn test_env_override_bool_field() {
    let o = env_overrides(&vars(&[("GRAXUS_SCAN_RESPECT_GITIGNORE", "false")]));
    assert_eq!(o.respect_gitignore, Some(false));
}

#[test]
fn env_docs_flag_reads_truthy_values() {
    for v in ["true", "1", "yes", "YES"] {
        assert_eq!(env_overrides(&vars(&[("GRAXUS_DOCS_ENABLED", v)])).docs_enabled, Some(true));
    }
    assert_eq!(env_overrides(&vars(&[("GRAXUS_DOCS_ENABLED", "no")])).docs_enabled, Some(false));
}

#[test]
fn test_env_override_numeric_field() {
    let o = env_overrides(&vars(&[("GRAXUS_INDEX_MAX_FILES", "250")]));
    assert_eq!(o.max_files, Some(250));
}

#[test]
fn test_env_override_edit_max_files() {
    assert_eq!(env_overrides(&vars(&[("GRAXUS_EDIT_MAX_FILES", "50")])).edit_max_files, Some(50));
}

#[test]
fn test_env_override_search_k() {
    assert_eq!(env_overrides(&vars(&[("GRAXUS_SEARCH_K", "10")])).search_k, Some(10));
}

#[test]
fn test_env_override_context_budget() {
    let o = env_overrides(&vars(&[("GRAXUS_CONTEXT_MAX_TOKENS", "6000"), ("GRAXUS_CONTEXT_BUDGET", "12000")]));
    assert_eq!(o.context_budget, Some(12000));
}

#[test]
fn test_env_override_context_max_tokens_alias() {
    assert_eq!(env_overrides(&vars(&[("GRAXUS_CONTEXT_MAX_TOKENS", "6000")])).context_budget, Some(6000));
}

#[test]
fn test_env_override_embed_api_key() {
    let o = env_overrides(&vars(&[("GRAXUS_EMBED_API_KEY", "sk-test-override")]));
    assert_eq!(o.embed_api_key_env.as_deref(), Some("GRAXUS_EMBED_API_KEY"));
    assert!(o.llm_api_key_env.is_none());
}

#[test]
fn test_env_override_llm_provider_and_model() {
    let o = env_overrides(&vars(&[("GRAXUS_LLM_PROVIDER", "acme"), ("GRAXUS_LLM_MODEL", "chat-model-2")]));
    assert_eq!(o.llm_provider.as_deref(), Some("acme"));
    assert_eq!(o.llm_model.as_deref(), Some("chat-model-2"));
}

#[test]
fn test_env_override_numeric_ignores_invalid() {
    assert_eq!(env_overrides(&vars(&[("GRAXUS_INDEX_MAX_FILES", "not-a-number")])).max_files, None);
}

#[test]
fn test_missing_env_vars_dont_change_defaults() {
    let o = env_overrides(&vars(&[("HOME", "/root")]));
    assert!(o.project_name.is_none() && o.max_files.is_none() && o.docs_enabled.is_none());
    assert!(o.parser_backend.is_none() && o.context_budget.is_none() && o.search_k.is_none());
}

#[test]
fn env_parser_backend_is_read_by_its_canonical_name() {
    assert_eq!(env_overrides(&vars(&[("GRAXUS_CODEMAP_PARSER_BACKEND", " TS ")])).parser_backend.as_deref(), Some("tree-sitter"));
    assert!(env_overrides(&vars(&[("GRAXUS_CODEMAP_PARSER_BACKEND", "nope")])).parser_backend.is_none());
}

#[test]
fn usize_reads_as_str_parse_does() {
    assert_eq!(parse_usize("+42"), Some(42));
    assert_eq!(parse_usize(""), None);
    assert_eq!(parse_usize("+"), None);
    assert_eq!(parse_usize("1a"), None);
    assert_eq!(parse_usize("18446744073709551616"), None);
    assert_eq!(parse_usize("18446744073709551615"), Some(usize::MAX));
}

#[test]
fn overrides_are_written_into_the_sections() {
    let o = env_overrides(&vars(&[
        ("GRAXUS_PROJECT_NAME", "env-project"),
        ("GRAXUS_SCAN_RESPECT_GITIGNORE", "false"),
        ("GRAXUS_INDEX_MAX_FILES", "250"),
        ("GRAXUS_CONTEXT_MAX_TOKENS", "6000"),
        ("GRAXUS_EDIT_MAX_FILES", "50"),
        ("GRAXUS_EMBED_API_KEY", "sk-test-override"),
    ]));
    let mut project = ProjectConfig::for_directory(Some("demo"));
    let mut scan = ScanConfig::default();
    let mut docs = DocsConfig::default();
    let mut code = CodeConfig::default();
    let mut edit = EditConfig::default();
    let mut embeddings = EmbeddingsConfig::default();
    let mut defaults = DefaultsConfig::default();
    o.apply_env_overrides(&mut project, &mut scan, &mut docs, &mut code, &mut edit, &mut embeddings, &mut defaults);
    assert_eq!(project.name, "env-project");
    assert_eq!(project.root, ".");
    assert!(!scan.respect_gitignore);
    assert!(docs.enabled);
    assert!(code.enabled);
    assert_eq!(edit.max_files_per_operation, 50);
    assert_eq!(embeddings.api_key_env, "GRAXUS_EMBED_API_KEY");
    assert_eq!(embeddings.provider, "openai");
    assert_eq!(defaults.max_files, 250);
    assert_eq!(defaults.context_budget, 6000);
    assert_eq!(defaults.k, 20);
}

#[test]
fn no_overrides_leave_the_sections_as_they_were() {
    let o = env_overrides(&vars(&[("HOME", "/root")]));
    let mut project = ProjectConfig::for_directory(None);
    let mut scan = ScanConfig::default();
    let mut docs = DocsConfig::default();
    let mut code = CodeConfig::default();
    let mut edit = EditConfig::default();
    let mut embeddings = EmbeddingsConfig::default();
    let mut defaults = DefaultsConfig::default();
    o.apply_env_overrides(&mut project, &mut scan, &mut docs, &mut code, &mut edit, &mut embeddings, &mut defaults);
    assert_eq!(project.name, "project");
    assert!(scan.respect_gitignore);
    assert_eq!(edit.max_files_per_operation, 100);
    assert_eq!(embeddings.api_key_env, "");
    assert_eq!(defaults, DefaultsConfig::default());
}

#[test]
fn defaults_resolve_cli_then_section_then_default() {
    let d = DefaultsConfig::default();
    assert_eq!(d.resolve_depth(None, None), 2);
    assert_eq!(d.resolve_depth(Some(5), Some(3)), 5);
    assert_eq!(d.resolve_k(None, Some(7)), 7);
    assert_eq!(d.resolve_max_files(None, None), 100);
    assert_eq!(d.resolve_max_symbols(None, None), 500);
    assert_eq!(d.resolve_max_notes(None, None), 30);
    assert_eq!(d.resolve_max_nodes(None, None), 500);
    assert_eq!(d.resolve_max_edges(None, None), 1000);
    assert_eq!(d.resolve_context_budget(None, Some(9000)), 9000);
    assert_eq!(d.resolve_max_chars_per_file(Some(1), None), 1);
    assert_eq!(d.max_depth, 4);
}
