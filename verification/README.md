# graxus

A code and documentation indexer whose logic is proved with Verus: every
function under `src/` carries a contract, and Verus checks each body against
it.

## What the library does

- **Files and scans** (`file_types`, `scanner`, `paths`, `safety`): language and
  kind detection by extension, the include/exclude glob filtering of a project
  scan, the split of scanned files by kind, and the difference between two
  scans (added, modified, deleted files).
- **Configuration** (`config`, `build_config`, `dependencies`, `workspaces`):
  the parser backend choice, the command defaults and their resolution, the
  `GRAXUS_*` environment overrides and their application, build
  configurations and manifests of Cargo, npm, Go, Python, CMake and .NET
  projects, workspace and sub-project detection from a directory listing, and
  the search for the project root.
- **Code map** (`typescript`, `csharp`, `rust_lang`, `languages`, `registry`,
  `native`, `builder`, `code_graph`, resolvers): facts read from tree-sitter
  syntax trees or handed in from the native parser, numbered with stable
  identifiers, resolved against each other (imports, calls, type relationships,
  dependency-injection bindings), and assembled into a code graph.
- **Documentation graph** (`markdown`, `frontmatter`, `doc_graph`): links,
  headings and backlinks of Markdown notes.
- **Editing** (`edit`, `pattern`): literal and regex search, replacement
  previews and their application.
- **Plugins and the vector store** (`plugins`, `store`): plugin manifests,
  version checks and the steps of waiting for a plugin process, the binary
  record format of the embedding store.

Outside crates (tree-sitter and its grammars, regex, globset, semver,
serde_json, sha2) are called through small trusted wrappers whose contracts
name or state what the crate returns; everything built on their results is
verified.

## Layout

- `src/` — the verified library.
- `tests/` — tests of the library's public functions.
- `app/` — ordinary Rust around the library: walking directories, reading and
  writing files, running plugin processes, the environment, the native parser
  call (guarded against panics), the `graxus.yaml` file and the serde forms of
  the library's types, and the floating-point settings and parts of the vector
  store.
