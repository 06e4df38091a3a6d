//! Graxus: a codebase knowledge engine.
//!
//! The verified core of the engine: text scanning of source declarations,
//! dependency-injection registrations, markdown notes, path safety rules,
//! configuration defaults and the binary vector-store format.

pub mod file_types;
pub mod text;
pub mod syntax_scan;
pub mod order;
pub mod syntax_tree;
pub mod type_relations;
pub mod di_bindings;
pub mod markdown;
pub mod paths;
pub mod safety;
pub mod workspaces;
pub mod codemap;
pub mod config;
pub mod routes;
pub mod store;
pub mod visibility;
pub mod csharp;
pub mod extract;
pub mod typescript;
pub mod query_facts;
pub mod languages;
pub mod rust_lang;
pub mod import_resolver;
pub mod symbol_resolver;
pub mod frontmatter;
pub mod doc_graph;
pub mod code_graph;
pub mod pattern;
pub mod edit;
pub mod builder;
pub mod registry;
pub mod native;
pub mod scanner;
pub mod plugins;
pub mod dependencies;
pub mod build_config;
