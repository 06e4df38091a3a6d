//! Project configuration: the parser backend choice, the configuration
//! sections with their built-in defaults, and the rules by which settings
//! given in several places are resolved.
use vstd::prelude::*;
use crate::text::{ascii_lower, owned, str_eq, to_ascii_lowercase, trim, trim_bounds, chars_of, string_from};

verus! {

/// Which parser backend the codemap uses to extract facts from source.
///
/// `Ripex` prefers the ripex parser and falls back to tree-sitter per file;
/// it is the default. `TreeSitter` uses tree-sitter only. `Auto` is an alias
/// of `Ripex`.
#[derive(Debug, Clone, Copy, PartialEq, Eq, Structural)]
pub enum ParserBackend {
    Ripex,
    TreeSitter,
    Auto,
}

/// The name of a backend: `ripex`, `tree-sitter` or `auto`.
pub open spec fn backend_name(b: ParserBackend) -> Seq<char> {
    match b {
        ParserBackend::Ripex => "ripex"@,
        ParserBackend::TreeSitter => "tree-sitter"@,
        ParserBackend::Auto => "auto"@,
    }
}

/// The spelling of a backend accepted when parsing (trimmed, lowercased).
pub open spec fn backend_of_name(s: Seq<char>) -> Option<ParserBackend> {
    if s == "ripex"@ || s == "rip"@ {
        Some(ParserBackend::Ripex)
    } else if s == "tree-sitter"@ || s == "treesitter"@ || s == "tree_sitter"@ || s == "ts"@ {
        Some(ParserBackend::TreeSitter)
    } else if s == "auto"@ {
        Some(ParserBackend::Auto)
    } else {
        None
    }
}

/// A backend name that no backend answers to.
pub struct UnknownBackend {
    /// The name as it was read: trimmed and lowercased.
    pub value: String,
}

impl UnknownBackend {
    /// The error's message.
    pub fn message(&self) -> (m: String)
        ensures
            m@ == "unknown parser backend: "@ + self.value@ + " (expected ripex|tree-sitter|auto)"@,
    {
        let mut m = String::new();
        crate::text::push_str(&mut m, "unknown parser backend: ");
        crate::text::push_str(&mut m, self.value.as_str());
        crate::text::push_str(&mut m, " (expected ripex|tree-sitter|auto)");
        m
    }
}

impl Default for ParserBackend {
    /// The default backend, `Ripex`.
    fn default() -> (b: ParserBackend)
        ensures
            b == ParserBackend::Ripex,
    {
        ParserBackend::Ripex
    }
}

impl Default for DocParseConfig {
    fn default() -> (c: DocParseConfig)
        ensures
            !c.frontmatter && !c.wiki_links && !c.markdown_links && !c.tags && !c.headings && !c.backlinks,
    {
        DocParseConfig::all_disabled()
    }
}

impl ParserBackend {
    /// `ripex` / `tree-sitter` / `auto`.
    pub fn as_str(&self) -> (s: &'static str)
        ensures
            s@ == backend_name(*self),
    {
        match self {
            ParserBackend::Ripex => "ripex",
            ParserBackend::TreeSitter => "tree-sitter",
            ParserBackend::Auto => "auto",
        }
    }

    /// The backend actually used for a file: `Auto` resolves to `Ripex`.
    pub fn effective(&self) -> (b: ParserBackend)
        ensures
            b == (if *self == ParserBackend::Auto { ParserBackend::Ripex } else { *self }),
    {
        match self {
            ParserBackend::Auto => ParserBackend::Ripex,
            other => *other,
        }
    }

    /// Parse a backend name, ignoring surrounding whitespace and ASCII case.
    pub fn parse(s: &str) -> (r: Result<ParserBackend, UnknownBackend>)
        ensures
            match r {
                Ok(b) => backend_of_name(ascii_lower(trim(s@))) == Some(b),
                Err(e) => backend_of_name(ascii_lower(trim(s@))) is None && e.value@ == ascii_lower(trim(s@)),
            },
    {
        let v = chars_of(s);
        let (a, e) = trim_bounds(&v, 0, v.len());
        assert(v@.subrange(0, v.len() as int) =~= v@);
        let t = string_from(&v, a, e);
        let name = to_ascii_lowercase(t.as_str());
        let n = name.as_str();
        if str_eq(n, "ripex") || str_eq(n, "rip") {
            Ok(ParserBackend::Ripex)
        } else if str_eq(n, "tree-sitter") || str_eq(n, "treesitter") || str_eq(n, "tree_sitter") || str_eq(n, "ts") {
            Ok(ParserBackend::TreeSitter)
        } else if str_eq(n, "auto") {
            Ok(ParserBackend::Auto)
        } else {
            Err(UnknownBackend { value: name })
        }
    }
}

/// The backend the codemap uses: one given on the command line, else the
/// configured name when it parses, else the default.
pub open spec fn codemap_backend_spec(override_backend: Option<ParserBackend>, configured: Option<Seq<char>>) -> ParserBackend {
    match override_backend {
        Some(b) => b,
        None => match configured {
            Some(s) => match backend_of_name(ascii_lower(trim(s))) {
                Some(b) => b,
                None => ParserBackend::Ripex,
            },
            None => ParserBackend::Ripex,
        },
    }
}

/// Resolve the effective codemap parser backend.
///
/// Precedence: the explicit override (command line), then the configured
/// name (which the `GRAXUS_CODEMAP_PARSER_BACKEND` variable may have set),
/// then the default, `Ripex`.
pub fn effective_codemap_backend(override_backend: Option<ParserBackend>, configured: Option<&str>) -> (b: ParserBackend)
    ensures
        b == codemap_backend_spec(
            override_backend,
            match configured {
                Some(s) => Some(s@),
                None => None,
            },
        ),
{
    if let Some(b) = override_backend {
        return b;
    }
    if let Some(s) = configured {
        if let Ok(b) = ParserBackend::parse(s) {
            return b;
        }
    }
    ParserBackend::Ripex
}

/// Parse a boolean from an environment variable: `true`, `1` and `yes` are
/// truthy in any ASCII case; everything else is falsy.
pub open spec fn env_bool_spec(s: Seq<char>) -> bool {
    let l = ascii_lower(s);
    l == "true"@ || l == "1"@ || l == "yes"@
}

pub fn parse_env_bool(s: &str) -> (b: bool)
    ensures
        b == env_bool_spec(s@),
{
    let l = to_ascii_lowercase(s);
    str_eq(l.as_str(), "true") || str_eq(l.as_str(), "1") || str_eq(l.as_str(), "yes")
}

/// A setting given on the command line wins over one given in the command's
/// section, which wins over the global default.
pub fn resolve_setting(cli: Option<usize>, section: Option<usize>, default: usize) -> (v: usize)
    ensures
        v == match cli {
            Some(c) => c,
            None => match section {
                Some(s) => s,
                None => default,
            },
        },
{
    match cli {
        Some(c) => c,
        None => match section {
            Some(s) => s,
            None => default,
        },
    }
}

pub open spec fn strings_view(v: Seq<String>) -> Seq<Seq<char>> {
    v.map_values(|s: String| s@)
}

fn strings(items: &[&str]) -> (v: Vec<String>)
    ensures
        v@.len() == items@.len(),
        forall|i: int| 0 <= i < items@.len() ==> (#[trigger] v@[i])@ == items@[i]@,
{
    let mut v: Vec<String> = Vec::new();
    let mut i: usize = 0;
    while i < items.len()
        invariant
            i <= items@.len(),
            v@.len() == i,
            forall|k: int| 0 <= k < i ==> (#[trigger] v@[k])@ == items@[k]@,
        decreases items.len() - i,
    {
        v.push(owned(items[i]));
        i += 1;
    }
    v
}

pub open spec fn include_defaults() -> Seq<Seq<char>> {
    seq![
        "**/*.md"@, "**/*.mdx"@, "**/*.txt"@, "**/*.rs"@, "**/*.ts"@, "**/*.tsx"@, "**/*.js"@,
        "**/*.jsx"@, "**/*.go"@, "**/*.py"@, "**/*.c"@, "**/*.h"@, "**/*.cpp"@, "**/*.hpp"@,
        "**/*.cs"@, "**/*.java"@, "**/*.kt"@, "**/*.kts"@, "**/*.swift"@,
    ]
}

/// The file patterns scanned by default.
pub fn default_include() -> (v: Vec<String>)
    ensures
        strings_view(v@) == seq![
            "**/*.md"@, "**/*.mdx"@, "**/*.txt"@, "**/*.rs"@, "**/*.ts"@, "**/*.tsx"@, "**/*.js"@,
            "**/*.jsx"@, "**/*.go"@, "**/*.py"@, "**/*.c"@, "**/*.h"@, "**/*.cpp"@, "**/*.hpp"@,
            "**/*.cs"@, "**/*.java"@, "**/*.kt"@, "**/*.kts"@, "**/*.swift"@,
        ],
{
    let v = strings(&[
        "**/*.md", "**/*.mdx", "**/*.txt", "**/*.rs", "**/*.ts", "**/*.tsx", "**/*.js", "**/*.jsx",
        "**/*.go", "**/*.py", "**/*.c", "**/*.h", "**/*.cpp", "**/*.hpp", "**/*.cs", "**/*.java",
        "**/*.kt", "**/*.kts", "**/*.swift",
    ]);
    assert(strings_view(v@) =~= seq![
        "**/*.md"@, "**/*.mdx"@, "**/*.txt"@, "**/*.rs"@, "**/*.ts"@, "**/*.tsx"@, "**/*.js"@,
        "**/*.jsx"@, "**/*.go"@, "**/*.py"@, "**/*.c"@, "**/*.h"@, "**/*.cpp"@, "**/*.hpp"@,
        "**/*.cs"@, "**/*.java"@, "**/*.kt"@, "**/*.kts"@, "**/*.swift"@,
    ]);
    v
}

pub open spec fn exclude_defaults() -> Seq<Seq<char>> {
    seq![
        "node_modules/**"@, "target/**"@, "dist/**"@, "build/**"@, ".git/**"@, ".graxus/**"@,
    ]
}

/// The directories excluded from scans by default.
pub fn default_exclude() -> (v: Vec<String>)
    ensures
        strings_view(v@) == seq![
            "node_modules/**"@, "target/**"@, "dist/**"@, "build/**"@, ".git/**"@, ".graxus/**"@,
        ],
{
    let v = strings(&["node_modules/**", "target/**", "dist/**", "build/**", ".git/**", ".graxus/**"]);
    assert(strings_view(v@) =~= seq![
        "node_modules/**"@, "target/**"@, "dist/**"@, "build/**"@, ".git/**"@, ".graxus/**"@,
    ]);
    v
}

/// The extensions of documentation files.
pub fn default_doc_extensions() -> (v: Vec<String>)
    ensures
        strings_view(v@) == seq![".md"@, ".mdx"@],
{
    let v = strings(&[".md", ".mdx"]);
    assert(strings_view(v@) =~= seq![".md"@, ".mdx"@]);
    v
}

pub open spec fn language_defaults() -> Seq<Seq<char>> {
    seq![
        "rust"@, "typescript"@, "javascript"@, "go"@, "python"@, "c"@, "cpp"@, "csharp"@, "java"@,
        "kotlin"@, "swift"@,
    ]
}

/// The languages analysed by default.
pub fn default_languages() -> (v: Vec<String>)
    ensures
        strings_view(v@) == seq![
            "rust"@, "typescript"@, "javascript"@, "go"@, "python"@, "c"@, "cpp"@, "csharp"@, "java"@,
            "kotlin"@, "swift"@,
        ],
{
    let v = strings(&[
        "rust", "typescript", "javascript", "go", "python", "c", "cpp", "csharp", "java", "kotlin", "swift",
    ]);
    assert(strings_view(v@) =~= seq![
        "rust"@, "typescript"@, "javascript"@, "go"@, "python"@, "c"@, "cpp"@, "csharp"@, "java"@,
        "kotlin"@, "swift"@,
    ]);
    v
}

/// File scanning: include and exclude patterns, `.gitignore` handling.
pub struct ScanConfig {
    pub respect_gitignore: bool,
    pub include_patterns: Vec<String>,
    pub exclude: Vec<String>,
}

impl Default for ScanConfig {
    fn default() -> (c: ScanConfig)
        ensures
            c.respect_gitignore,
            strings_view(c.include_patterns@) == include_defaults(),
            strings_view(c.exclude@) == exclude_defaults(),
    {
        ScanConfig { respect_gitignore: true, include_patterns: default_include(), exclude: default_exclude() }
    }
}

/// Document parsing options.
#[derive(Debug, Clone, Copy, PartialEq, Eq, Structural)]
pub struct DocParseConfig {
    pub frontmatter: bool,
    pub wiki_links: bool,
    pub markdown_links: bool,
    pub tags: bool,
    pub headings: bool,
    pub backlinks: bool,
}

impl DocParseConfig {
    /// Every part off, as `Default` gives.
    pub fn all_disabled() -> (c: DocParseConfig)
        ensures
            !c.frontmatter && !c.wiki_links && !c.markdown_links && !c.tags && !c.headings && !c.backlinks,
    {
        DocParseConfig { frontmatter: false, wiki_links: false, markdown_links: false, tags: false, headings: false, backlinks: false }
    }
}

/// Documentation processing.
pub struct DocsConfig {
    pub enabled: bool,
    pub obsidian_compatible: bool,
    pub extensions: Vec<String>,
    pub parse: DocParseConfig,
}

impl Default for DocsConfig {
    fn default() -> (c: DocsConfig)
        ensures
            c.enabled && c.obsidian_compatible,
            strings_view(c.extensions@) == seq![".md"@, ".mdx"@],
            !c.parse.frontmatter && !c.parse.wiki_links && !c.parse.markdown_links && !c.parse.tags
                && !c.parse.headings && !c.parse.backlinks,
    {
        DocsConfig {
            enabled: true,
            obsidian_compatible: true,
            extensions: default_doc_extensions(),
            parse: DocParseConfig::all_disabled(),
        }
    }
}

/// Code analysis: the parser and the languages.
pub struct CodeConfig {
    pub enabled: bool,
    pub parser: String,
    pub languages: Vec<String>,
}

impl Default for CodeConfig {
    fn default() -> (c: CodeConfig)
        ensures
            c.enabled,
            c.parser@ == "tree-sitter"@,
            strings_view(c.languages@) == language_defaults(),
    {
        CodeConfig { enabled: true, parser: owned("tree-sitter"), languages: default_languages() }
    }
}

/// Index storage.
pub struct IndexConfig {
    pub storage: String,
    pub path: String,
}

impl Default for IndexConfig {
    fn default() -> (c: IndexConfig)
        ensures
            c.storage@ == "json"@,
            c.path@ == ".graxus/index.db"@,
    {
        IndexConfig { storage: owned("json"), path: owned(".graxus/index.db") }
    }
}

/// Edit safety.
pub struct EditConfig {
    pub create_snapshots: bool,
    pub require_preview_for_replace: bool,
    pub max_files_per_operation: usize,
}

impl Default for EditConfig {
    fn default() -> (c: EditConfig)
        ensures
            c.create_snapshots && c.require_preview_for_replace,
            c.max_files_per_operation == 100,
    {
        EditConfig { create_snapshots: true, require_preview_for_replace: true, max_files_per_operation: 100 }
    }
}

/// The embedding provider.
pub struct EmbeddingsConfig {
    pub enabled: bool,
    pub provider: String,
    pub model: String,
    /// Name of the environment variable that holds the API key.
    pub api_key_env: String,
    pub dimensions: usize,
    pub batch_size: usize,
    pub endpoint: Option<String>,
}

impl Default for EmbeddingsConfig {
    fn default() -> (c: EmbeddingsConfig)
        ensures
            !c.enabled,
            c.provider@ == "openai"@,
            c.model@ == "text-embedding-3-small"@,
            c.api_key_env@.len() == 0,
            c.dimensions == 1536,
            c.batch_size == 64,
            c.endpoint is None,
    {
        EmbeddingsConfig {
            enabled: false,
            provider: owned("openai"),
            model: owned("text-embedding-3-small"),
            api_key_env: String::new(),
            dimensions: 1536,
            batch_size: 64,
            endpoint: None,
        }
    }
}

impl EmbeddingsConfig {
    /// The variable to read the API key from, if one is named.
    pub fn api_key_variable(&self) -> (r: Option<String>)
        ensures
            match r {
                Some(n) => self.api_key_env@.len() > 0 && n@ == self.api_key_env@,
                None => self.api_key_env@.len() == 0,
            },
    {
        if self.api_key_env.as_str().is_empty() {
            return None;
        }
        Some(owned(self.api_key_env.as_str()))
    }
}

/// Per-command overrides for the `graph` command.
#[derive(Debug, Clone, Copy, PartialEq, Eq, Structural)]
pub struct GraphConfig {
    pub depth: Option<usize>,
    pub max_notes: Option<usize>,
    pub max_nodes: Option<usize>,
    pub max_edges: Option<usize>,
    pub include_backlinks: Option<bool>,
    pub include_orphans: Option<bool>,
}

/// Project metadata.
pub struct ProjectConfig {
    pub name: String,
    pub root: String,
}

impl ProjectConfig {
    /// The default project: named after the working directory (`project`
    /// where it has no name), rooted at `.`.
    pub fn for_directory(dir_name: Option<&str>) -> (c: ProjectConfig)
        ensures
            c.name@ == match dir_name {
                Some(n) => n@,
                None => "project"@,
            },
            c.root@ == "."@,
    {
        let name = match dir_name {
            Some(n) => owned(n),
            None => owned("project"),
        };
        ProjectConfig { name, root: owned(".") }
    }
}

// ── Environment overrides ──────────────────────────────────────────────

/// The value of the variable in the environment (its first entry), if set.
pub open spec fn env_lookup(vars: Seq<(Seq<char>, Seq<char>)>, name: Seq<char>) -> Option<Seq<char>>
    decreases vars.len(),
{
    if vars.len() == 0 {
        None
    } else if vars[0].0 == name {
        Some(vars[0].1)
    } else {
        env_lookup(vars.drop_first(), name)
    }
}

pub open spec fn env_views(vars: Seq<(String, String)>) -> Seq<(Seq<char>, Seq<char>)> {
    vars.map_values(|p: (String, String)| (p.0@, p.1@))
}

fn env_get(vars: &Vec<(String, String)>, name: &str) -> (r: Option<String>)
    ensures
        match r {
            Some(v) => env_lookup(env_views(vars@), name@) == Some(v@),
            None => env_lookup(env_views(vars@), name@) is None,
        },
{
    let ghost ev = env_views(vars@);
    let mut k: usize = 0;
    assert(ev.skip(0) =~= ev);
    while k < vars.len()
        invariant
            k <= vars.len(),
            ev == env_views(vars@),
            env_lookup(ev, name@) == env_lookup(ev.skip(k as int), name@),
        decreases vars.len() - k,
    {
        assert(ev.skip(k as int).drop_first() =~= ev.skip(k + 1));
        assert(ev.skip(k as int)[0] == ev[k as int]);
        if str_eq(vars[k].0.as_str(), name) {
            return Some(owned(vars[k].1.as_str()));
        }
        k += 1;
    }
    assert(ev.skip(k as int) =~= Seq::<(Seq<char>, Seq<char>)>::empty());
    None
}

/// The value of the ASCII digits, in order.
pub open spec fn digits_value(s: Seq<char>) -> nat
    decreases s.len(),
{
    if s.len() == 0 {
        0
    } else {
        digits_value(s.drop_last()) * 10 + ((s.last() as nat) - ('0' as nat)) as nat
    }
}

pub open spec fn all_digits(s: Seq<char>) -> bool {
    forall|k: int| 0 <= k < s.len() ==> '0' <= #[trigger] s[k] <= '9'
}

/// What `usize`'s `FromStr` reads: an optional `+`, then at least one ASCII
/// digit and nothing else, of a value that fits.
pub open spec fn usize_text(s: Seq<char>) -> Option<usize> {
    let d = if s.len() > 0 && s[0] == '+' { s.drop_first() } else { s };
    if d.len() > 0 && all_digits(d) && digits_value(d) <= usize::MAX {
        Some(digits_value(d) as usize)
    } else {
        None
    }
}

proof fn lemma_digits_grow(s: Seq<char>, k: int)
    requires
        0 <= k <= s.len(),
        all_digits(s),
    ensures
        digits_value(s.take(k)) <= digits_value(s),
    decreases s.len() - k,
{
    if k < s.len() {
        lemma_digits_grow(s, k + 1);
        assert(s.take(k + 1).drop_last() =~= s.take(k));
        assert('0' <= s.take(k + 1).last() <= '9');
    } else {
        assert(s.take(k) =~= s);
    }
}

/// Parse a `usize` as `str::parse::<usize>` does.
pub fn parse_usize(s: &str) -> (r: Option<usize>)
    ensures
        r == usize_text(s@),
{
    let v = chars_of(s);
    let start: usize = if v.len() > 0 && v[0] == '+' { 1 } else { 0 };
    let ghost d = if v@.len() > 0 && v@[0] == '+' { v@.drop_first() } else { v@ };
    assert(d =~= v@.skip(start as int));
    if start >= v.len() {
        return None;
    }
    let mut value: usize = 0;
    let mut i: usize = start;
    while i < v.len()
        invariant
            start <= i <= v.len(),
            v@ == s@,
            d == (if v@.len() > 0 && v@[0] == '+' { v@.drop_first() } else { v@ }),
            d =~= v@.skip(start as int),
            forall|k: int| start <= k < i ==> '0' <= #[trigger] v@[k] <= '9',
            value == digits_value(v@.subrange(start as int, i as int)),
        decreases v.len() - i,
    {
        let c = v[i];
        if !('0' <= c && c <= '9') {
            assert(!all_digits(d)) by {
                assert(d[i - start] == c);
            }
            return None;
        }
        assert(v@.subrange(start as int, i + 1).drop_last() =~= v@.subrange(start as int, i as int));
        let digit = (c as u32 - '0' as u32) as usize;
        if value > (usize::MAX - digit) / 10 {
            proof {
                assert(all_digits(d) ==> digits_value(d) > usize::MAX) by {
                    if all_digits(d) {
                        lemma_digits_grow(d, i + 1 - start);
                        assert(d.take(i + 1 - start) =~= v@.subrange(start as int, i + 1));
                        assert(value * 10 + digit > usize::MAX) by (nonlinear_arith)
                            requires value > (usize::MAX - digit) / 10, digit < 10;
                    }
                }
            }
            return None;
        }
        assert(value * 10 + digit <= usize::MAX) by (nonlinear_arith)
            requires value <= (usize::MAX - digit) / 10, digit < 10;
        value = value * 10 + digit;
        i += 1;
    }
    assert(v@.subrange(start as int, v.len() as int) =~= d);
    assert(all_digits(d));
    Some(value)
}

/// The configuration settings that `GRAXUS_*` environment variables
/// override; a field is set only where its variable is (and, for numbers
/// and the parser backend, reads).
pub struct EnvOverrides {
    pub project_name: Option<String>,
    pub project_root: Option<String>,
    pub embed_provider: Option<String>,
    pub embed_model: Option<String>,
    pub llm_provider: Option<String>,
    pub llm_model: Option<String>,
    /// The variable the embeddings API key is read from.
    pub embed_api_key_env: Option<String>,
    /// The variable the LLM API key is read from.
    pub llm_api_key_env: Option<String>,
    pub respect_gitignore: Option<bool>,
    pub docs_enabled: Option<bool>,
    pub code_enabled: Option<bool>,
    /// The canonical name of the parser backend.
    pub parser_backend: Option<String>,
    pub max_files: Option<usize>,
    pub edit_max_files: Option<usize>,
    pub context_budget: Option<usize>,
    pub search_k: Option<usize>,
}

pub open spec fn opt_text(o: Option<String>) -> Option<Seq<char>> {
    match o {
        Some(s) => Some(s@),
        None => None,
    }
}

pub open spec fn env_number(vars: Seq<(Seq<char>, Seq<char>)>, name: Seq<char>) -> Option<usize> {
    match env_lookup(vars, name) {
        Some(v) => usize_text(v),
        None => None,
    }
}

pub open spec fn env_flag(vars: Seq<(Seq<char>, Seq<char>)>, name: Seq<char>) -> Option<bool> {
    match env_lookup(vars, name) {
        Some(v) => Some(env_bool_spec(v)),
        None => None,
    }
}

/// The variable's own name where it is set.
pub open spec fn env_key_name(vars: Seq<(Seq<char>, Seq<char>)>, name: Seq<char>) -> Option<Seq<char>> {
    match env_lookup(vars, name) {
        Some(_) => Some(name),
        None => None,
    }
}

/// What the environment overrides: strings as they are, API keys as the
/// name of their variable, flags by [`env_bool_spec`], the parser backend by
/// its canonical name where it parses, numbers where they read as `usize`;
/// `GRAXUS_CONTEXT_BUDGET` wins over `GRAXUS_CONTEXT_MAX_TOKENS`.
pub open spec fn env_overrides_spec(vars: Seq<(Seq<char>, Seq<char>)>, o: EnvOverrides) -> bool {
    &&& opt_text(o.project_name) == env_lookup(vars, "GRAXUS_PROJECT_NAME"@)
    &&& opt_text(o.project_root) == env_lookup(vars, "GRAXUS_PROJECT_ROOT"@)
    &&& opt_text(o.embed_provider) == env_lookup(vars, "GRAXUS_EMBED_PROVIDER"@)
    &&& opt_text(o.embed_model) == env_lookup(vars, "GRAXUS_EMBED_MODEL"@)
    &&& opt_text(o.llm_provider) == env_lookup(vars, "GRAXUS_LLM_PROVIDER"@)
    &&& opt_text(o.llm_model) == env_lookup(vars, "GRAXUS_LLM_MODEL"@)
    &&& opt_text(o.embed_api_key_env) == env_key_name(vars, "GRAXUS_EMBED_API_KEY"@)
    &&& opt_text(o.llm_api_key_env) == env_key_name(vars, "GRAXUS_LLM_API_KEY"@)
    &&& o.respect_gitignore == env_flag(vars, "GRAXUS_SCAN_RESPECT_GITIGNORE"@)
    &&& o.docs_enabled == env_flag(vars, "GRAXUS_DOCS_ENABLED"@)
    &&& o.code_enabled == env_flag(vars, "GRAXUS_CODE_ENABLED"@)
    &&& opt_text(o.parser_backend) == match env_lookup(vars, "GRAXUS_CODEMAP_PARSER_BACKEND"@) {
        Some(v) => match backend_of_name(ascii_lower(trim(v))) {
            Some(b) => Some(backend_name(b)),
            None => None,
        },
        None => None,
    }
    &&& o.max_files == env_number(vars, "GRAXUS_INDEX_MAX_FILES"@)
    &&& o.edit_max_files == env_number(vars, "GRAXUS_EDIT_MAX_FILES"@)
    &&& o.context_budget == match env_number(vars, "GRAXUS_CONTEXT_BUDGET"@) {
        Some(n) => Some(n),
        None => env_number(vars, "GRAXUS_CONTEXT_MAX_TOKENS"@),
    }
    &&& o.search_k == env_number(vars, "GRAXUS_SEARCH_K"@)
}

fn env_text(vars: &Vec<(String, String)>, name: &str) -> (r: Option<String>)
    ensures
        opt_text(r) == env_lookup(env_views(vars@), name@),
{
    env_get(vars, name)
}

fn env_flag_of(vars: &Vec<(String, String)>, name: &str) -> (r: Option<bool>)
    ensures
        r == env_flag(env_views(vars@), name@),
{
    match env_get(vars, name) {
        Some(v) => Some(parse_env_bool(v.as_str())),
        None => None,
    }
}

fn env_number_of(vars: &Vec<(String, String)>, name: &str) -> (r: Option<usize>)
    ensures
        r == env_number(env_views(vars@), name@),
{
    match env_get(vars, name) {
        Some(v) => parse_usize(v.as_str()),
        None => None,
    }
}

fn env_key_of(vars: &Vec<(String, String)>, name: &str) -> (r: Option<String>)
    ensures
        opt_text(r) == env_key_name(env_views(vars@), name@),
{
    match env_get(vars, name) {
        Some(_) => Some(owned(name)),
        None => None,
    }
}

/// Read the `GRAXUS_*` overrides from the environment's variables (name and
/// value pairs). `GRAXUS_LOG_LEVEL` is not read here.
pub fn env_overrides(vars: &Vec<(String, String)>) -> (o: EnvOverrides)
    ensures
        env_overrides_spec(env_views(vars@), o),
{
    let parser_backend = match env_get(vars, "GRAXUS_CODEMAP_PARSER_BACKEND") {
        Some(v) => match ParserBackend::parse(v.as_str()) {
            Ok(b) => Some(owned(b.as_str())),
            Err(_) => None,
        },
        None => None,
    };
    let context_budget = match env_number_of(vars, "GRAXUS_CONTEXT_BUDGET") {
        Some(n) => Some(n),
        None => env_number_of(vars, "GRAXUS_CONTEXT_MAX_TOKENS"),
    };
    EnvOverrides {
        project_name: env_text(vars, "GRAXUS_PROJECT_NAME"),
        project_root: env_text(vars, "GRAXUS_PROJECT_ROOT"),
        embed_provider: env_text(vars, "GRAXUS_EMBED_PROVIDER"),
        embed_model: env_text(vars, "GRAXUS_EMBED_MODEL"),
        llm_provider: env_text(vars, "GRAXUS_LLM_PROVIDER"),
        llm_model: env_text(vars, "GRAXUS_LLM_MODEL"),
        embed_api_key_env: env_key_of(vars, "GRAXUS_EMBED_API_KEY"),
        llm_api_key_env: env_key_of(vars, "GRAXUS_LLM_API_KEY"),
        respect_gitignore: env_flag_of(vars, "GRAXUS_SCAN_RESPECT_GITIGNORE"),
        docs_enabled: env_flag_of(vars, "GRAXUS_DOCS_ENABLED"),
        code_enabled: env_flag_of(vars, "GRAXUS_CODE_ENABLED"),
        parser_backend,
        max_files: env_number_of(vars, "GRAXUS_INDEX_MAX_FILES"),
        edit_max_files: env_number_of(vars, "GRAXUS_EDIT_MAX_FILES"),
        context_budget,
        search_k: env_number_of(vars, "GRAXUS_SEARCH_K"),
    }
}

/// The value an override leaves: the override where there is one.
pub open spec fn or_kept<T>(o: Option<T>, kept: T) -> T {
    match o {
        Some(v) => v,
        None => kept,
    }
}

/// The text an override leaves: the override where there is one.
pub open spec fn text_or_kept(o: Option<String>, kept: String) -> Seq<char> {
    match o {
        Some(v) => v@,
        None => kept@,
    }
}

fn set_text(target: &mut String, o: &Option<String>)
    ensures
        final(target)@ == text_or_kept(*o, *old(target)),
{
    match o {
        Some(v) => {
            *target = owned(v.as_str());
        },
        None => {},
    }
}

impl EnvOverrides {
    /// Writes the overrides into the sections of the configuration that
    /// hold them: each overridden setting takes its new value, and every
    /// other setting keeps its own.
    pub fn apply_env_overrides(
        &self,
        project: &mut ProjectConfig,
        scan: &mut ScanConfig,
        docs: &mut DocsConfig,
        code: &mut CodeConfig,
        edit: &mut EditConfig,
        embeddings: &mut EmbeddingsConfig,
        defaults: &mut DefaultsConfig,
    )
        ensures
            final(project).name@ == text_or_kept(self.project_name, old(project).name),
            final(project).root@ == text_or_kept(self.project_root, old(project).root),
            final(embeddings).provider@ == text_or_kept(self.embed_provider, old(embeddings).provider),
            final(embeddings).model@ == text_or_kept(self.embed_model, old(embeddings).model),
            final(embeddings).api_key_env@ == text_or_kept(self.embed_api_key_env, old(embeddings).api_key_env),
            final(embeddings).enabled == old(embeddings).enabled,
            final(embeddings).dimensions == old(embeddings).dimensions,
            final(embeddings).batch_size == old(embeddings).batch_size,
            final(embeddings).endpoint == old(embeddings).endpoint,
            final(scan).respect_gitignore == or_kept(self.respect_gitignore, old(scan).respect_gitignore),
            final(scan).include_patterns == old(scan).include_patterns,
            final(scan).exclude == old(scan).exclude,
            final(docs).enabled == or_kept(self.docs_enabled, old(docs).enabled),
            final(docs).obsidian_compatible == old(docs).obsidian_compatible,
            final(docs).extensions == old(docs).extensions,
            final(docs).parse == old(docs).parse,
            final(code).enabled == or_kept(self.code_enabled, old(code).enabled),
            final(code).parser == old(code).parser,
            final(code).languages == old(code).languages,
            final(edit).max_files_per_operation == or_kept(self.edit_max_files, old(edit).max_files_per_operation),
            final(edit).create_snapshots == old(edit).create_snapshots,
            final(edit).require_preview_for_replace == old(edit).require_preview_for_replace,
            *final(defaults) == (DefaultsConfig {
                max_files: or_kept(self.max_files, old(defaults).max_files),
                context_budget: or_kept(self.context_budget, old(defaults).context_budget),
                ..*old(defaults)
            }),
    {
        set_text(&mut project.name, &self.project_name);
        set_text(&mut project.root, &self.project_root);
        set_text(&mut embeddings.provider, &self.embed_provider);
        set_text(&mut embeddings.model, &self.embed_model);
        set_text(&mut embeddings.api_key_env, &self.embed_api_key_env);
        if let Some(b) = self.respect_gitignore {
            scan.respect_gitignore = b;
        }
        if let Some(b) = self.docs_enabled {
            docs.enabled = b;
        }
        if let Some(b) = self.code_enabled {
            code.enabled = b;
        }
        if let Some(n) = self.edit_max_files {
            edit.max_files_per_operation = n;
        }
        if let Some(n) = self.max_files {
            defaults.max_files = n;
        }
        if let Some(n) = self.context_budget {
            defaults.context_budget = n;
        }
    }
}

// ── Defaults ───────────────────────────────────────────────────────────

/// The default parameters of the commands (counts and budgets; the
/// confidence threshold, a fraction, is kept by the application).
#[derive(Debug, Clone, Copy, PartialEq, Eq, Structural)]
pub struct DefaultsConfig {
    pub depth: usize,
    pub max_depth: usize,
    pub k: usize,
    /// Overridable by `GRAXUS_INDEX_MAX_FILES`.
    pub max_files: usize,
    pub max_symbols: usize,
    pub max_notes: usize,
    pub max_nodes: usize,
    pub max_edges: usize,
    /// Overridable by `GRAXUS_CONTEXT_MAX_TOKENS` or `GRAXUS_CONTEXT_BUDGET`.
    pub context_budget: usize,
    pub max_chars_per_file: usize,
}

impl Default for DefaultsConfig {
    fn default() -> (d: DefaultsConfig)
        ensures
            d == (DefaultsConfig {
                depth: 2,
                max_depth: 4,
                k: 20,
                max_files: 100,
                max_symbols: 500,
                max_notes: 30,
                max_nodes: 500,
                max_edges: 1000,
                context_budget: 12000,
                max_chars_per_file: 8000,
            }),
    {
        DefaultsConfig {
            depth: 2,
            max_depth: 4,
            k: 20,
            max_files: 100,
            max_symbols: 500,
            max_notes: 30,
            max_nodes: 500,
            max_edges: 1000,
            context_budget: 12000,
            max_chars_per_file: 8000,
        }
    }
}

/// A command-line value, else the command section's value, else the default.
pub open spec fn resolved(cli: Option<usize>, section: Option<usize>, default: usize) -> usize {
    match cli {
        Some(c) => c,
        None => match section {
            Some(s) => s,
            None => default,
        },
    }
}

impl DefaultsConfig {
    /// The traversal depth: command line, then section, then default.
    pub fn resolve_depth(&self, cli: Option<usize>, section: Option<usize>) -> (v: usize)
        ensures
            v == resolved(cli, section, self.depth),
    {
        resolve_setting(cli, section, self.depth)
    }

    /// The number of top results: command line, then section, then default.
    pub fn resolve_k(&self, cli: Option<usize>, section: Option<usize>) -> (v: usize)
        ensures
            v == resolved(cli, section, self.k),
    {
        resolve_setting(cli, section, self.k)
    }

    /// The file limit: command line, then section, then default.
    pub fn resolve_max_files(&self, cli: Option<usize>, section: Option<usize>) -> (v: usize)
        ensures
            v == resolved(cli, section, self.max_files),
    {
        resolve_setting(cli, section, self.max_files)
    }

    /// The symbol limit: command line, then section, then default.
    pub fn resolve_max_symbols(&self, cli: Option<usize>, section: Option<usize>) -> (v: usize)
        ensures
            v == resolved(cli, section, self.max_symbols),
    {
        resolve_setting(cli, section, self.max_symbols)
    }

    /// The note limit: command line, then section, then default.
    pub fn resolve_max_notes(&self, cli: Option<usize>, section: Option<usize>) -> (v: usize)
        ensures
            v == resolved(cli, section, self.max_notes),
    {
        resolve_setting(cli, section, self.max_notes)
    }

    /// The node limit: command line, then section, then default.
    pub fn resolve_max_nodes(&self, cli: Option<usize>, section: Option<usize>) -> (v: usize)
        ensures
            v == resolved(cli, section, self.max_nodes),
    {
        resolve_setting(cli, section, self.max_nodes)
    }

    /// The edge limit: command line, then section, then default.
    pub fn resolve_max_edges(&self, cli: Option<usize>, section: Option<usize>) -> (v: usize)
        ensures
            v == resolved(cli, section, self.max_edges),
    {
        resolve_setting(cli, section, self.max_edges)
    }

    /// The context token budget: command line, then section, then default.
    pub fn resolve_context_budget(&self, cli: Option<usize>, section: Option<usize>) -> (v: usize)
        ensures
            v == resolved(cli, section, self.context_budget),
    {
        resolve_setting(cli, section, self.context_budget)
    }

    /// The character limit per file: command line, then section, then default.
    pub fn resolve_max_chars_per_file(&self, cli: Option<usize>, section: Option<usize>) -> (v: usize)
        ensures
            v == resolved(cli, section, self.max_chars_per_file),
    {
        resolve_setting(cli, section, self.max_chars_per_file)
    }
}

} // verus!
