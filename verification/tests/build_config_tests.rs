use graxus::build_config::{
    compile_commands_config, detect_build_configs, npm_config, parse_cargo, parse_cmake, parse_dotnet, parse_go,
    parse_python, split_words, ts_config, BuildConfig, BuildInputs, RawCompileCommand, RawCompilerOptions,
    RawPackageJson, RawReference, RawTsConfig, RawWorkspaces,
};

fn no_inputs() -> BuildInputs {
    BuildInputs {
        cargo_toml: None,
        package_json: None,
        tsconfig: None,
        pyproject: None,
        go_mod: None,
        cmake_lists: None,
        compile_commands: None,
        csproj: None,
        global_sdk_version: None,
    }
}

#[test]
fn cargo_manifest_gives_members_and_edition() {
    let text = "[workspace]\nmembers = [\"crates/a\", \"crates/b\"]\n\n[package]\nedition = \"2021\"\n\n[features]\ndefault = [\"std\"]\nstd = []\nfull = [\"std\", \"serde\"]\n";
    let c = parse_cargo(text).unwrap();
    assert_eq!(c.workspace_members, vec!["crates/a".to_string(), "crates/b".to_string()]);
    assert_eq!(c.edition.as_deref(), Some("2021"));
    // The section block stops at the first `[`, so no feature entry is ever
    // complete inside it.
    assert_eq!(c.features.len(), 0);
}

#[test]
fn cargo_manifest_without_sections_gives_nothing() {
    let c = parse_cargo("[package]\nname = \"x\"\n").unwrap();
    assert!(c.workspace_members.is_empty());
    assert!(c.edition.is_none());
    assert_eq!(c.features.len(), 0);
}

#[test]
fn npm_and_tsconfig_settings_come_from_their_raw_form() {
    let c = npm_config(RawPackageJson {
        name: Some("web".to_string()),
        scripts: Some(vec![("build".to_string(), "tsc".to_string()), ("build".to_string(), "vite".to_string())]),
        workspaces: Some(RawWorkspaces::Object { packages: vec!["packages/*".to_string()] }),
        module_type: Some("module".to_string()),
    });
    assert_eq!(c.name.as_deref(), Some("web"));
    assert_eq!(c.scripts.get("build").map(String::as_str), Some("vite"));
    assert_eq!(c.workspaces, vec!["packages/*".to_string()]);

    let t = ts_config(RawTsConfig {
        compiler_options: Some(RawCompilerOptions {
            base_url: Some(".".to_string()),
            paths: Some(vec![("@/*".to_string(), vec!["src/*".to_string()])]),
        }),
        references: Some(vec![RawReference { path: Some("../core".to_string()) }, RawReference { path: None }]),
    });
    assert_eq!(t.compiler_options_base_url.as_deref(), Some("."));
    assert_eq!(t.paths.get("@/*").unwrap(), &vec!["src/*".to_string()]);
    assert_eq!(t.references, vec!["../core".to_string()]);
}

#[test]
fn pyproject_go_cmake_and_dotnet_settings() {
    let p = parse_python("[project]\nname = \"svc\"\nrequires-python = \">=3.10\"\n").unwrap();
    assert_eq!(p.name.as_deref(), Some("svc"));
    assert_eq!(p.python_version.as_deref(), Some("3.10"));
    let p = parse_python("[project]\ndependencies = [\"flask>=2\", \"requests\"]\n").unwrap();
    assert_eq!(p.dependencies, vec!["flask>=2".to_string(), "requests".to_string()]);

    let g = parse_go("module example.com/app \ngo 1.21\nreplace example.com/a => ../a\n").unwrap();
    assert_eq!(g.module.as_deref(), Some("example.com/app"));
    assert_eq!(g.go_version.as_deref(), Some("1.21"));
    assert_eq!(g.replaces.len(), 1);
    assert_eq!(g.replaces[0].old, "example.com/a");
    assert_eq!(g.replaces[0].new, "../a");

    let c = parse_cmake(
        "cmake_minimum_required(VERSION 3.20)\nproject(demo LANGUAGES C CXX)\nadd_subdirectory(lib)\nadd_subdirectory(app)\n",
    )
    .unwrap();
    assert_eq!(c.project_name.as_deref(), Some("demo"));
    assert_eq!(c.minimum_version.as_deref(), Some("3.20"));
    assert_eq!(c.languages, vec!["C".to_string(), "CXX".to_string()]);
    assert_eq!(c.subdirectories, vec!["lib".to_string(), "app".to_string()]);

    let d = parse_dotnet(
        "<Project Sdk=\"Microsoft.NET.Sdk\">\n<TargetFramework>net8.0</TargetFramework>\n<PackageReference Include=\"Serilog\" />\n</Project>",
        Some("8.0.100".to_string()),
    )
    .unwrap();
    assert_eq!(d.target_framework.as_deref(), Some("net8.0"));
    assert_eq!(d.project_name.as_deref(), Some("Microsoft.NET.Sdk"));
    assert_eq!(d.package_references, vec!["Serilog".to_string()]);
    assert_eq!(d.sdk_version.as_deref(), Some("8.0.100"));
}

#[test]
fn compile_commands_keep_each_include_and_define_once() {
    let cmds = vec![
        RawCompileCommand { command: Some("cc -Iinc -DDEBUG -c a.c".to_string()), arguments: None },
        RawCompileCommand {
            command: None,
            arguments: Some(vec!["cc".to_string(), "-Iinc".to_string(), "-Isrc".to_string(), "-DNDEBUG".to_string()]),
        },
        RawCompileCommand { command: None, arguments: None },
    ];
    let c = compile_commands_config(&cmds).unwrap();
    assert_eq!(c.include_paths, vec!["inc".to_string(), "src".to_string()]);
    assert_eq!(c.defines, vec!["DEBUG".to_string(), "NDEBUG".to_string()]);
    assert_eq!(c.file_count, 3);
}

#[test]
fn detect_build_configs_reads_present_manifests_in_order() {
    let inputs = BuildInputs {
        go_mod: Some("module m\n".to_string()),
        cargo_toml: Some("[package]\nedition = \"2021\"\n".to_string()),
        ..no_inputs()
    };
    let configs = detect_build_configs(inputs).unwrap();
    assert_eq!(configs.len(), 2);
    assert!(matches!(configs[0], BuildConfig::Cargo(_)));
    assert!(matches!(configs[1], BuildConfig::Go(_)));
    assert!(detect_build_configs(no_inputs()).unwrap().is_empty());
}

#[test]
fn words_split_on_whitespace() {
    assert_eq!(split_words("  a\tb  c\n"), vec!["a".to_string(), "b".to_string(), "c".to_string()]);
    assert!(split_words("   ").is_empty());
}
