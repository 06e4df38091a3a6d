use graxus::plugins::{
    plugin_output, wait_step, PluginError, PluginManifest, PluginRegistry, PluginType, ProcessPoll, WaitAction,
    PLUGIN_POLL_MS, PLUGIN_TIMEOUT_MS,
};

fn manifest(name: &str, entry_point: &str, min: Option<&str>) -> PluginManifest {
    PluginManifest {
        name: name.to_string(),
        version: "0.1.0".to_string(),
        description: "A test plugin".to_string(),
        plugin_type: PluginType::Extractor,
        entry_point: entry_point.to_string(),
        min_graxus_version: min.map(str::to_string),
    }
}

fn registry_with(manifests: Vec<PluginManifest>) -> PluginRegistry {
    let mut registry = PluginRegistry::new("/tmp/plugins".to_string());
    for m in manifests {
        registry.register(m);
    }
    registry
}

#[test]
fn test_discover_plugins() {
    let registry = registry_with(vec![manifest("my-plugin", "my-plugin", None)]);
    assert_eq!(registry.list().len(), 1);
    assert_eq!(registry.list()[0].name, "my-plugin");
    assert_eq!(registry.list()[0].version, "0.1.0");
}

#[test]
fn test_discover_missing_dir() {
    let registry = PluginRegistry::new("/nonexistent/path".to_string());
    assert!(registry.list().is_empty());
}

#[test]
fn test_get_plugin() {
    let registry = registry_with(vec![manifest("alpha", "alpha-bin", None)]);
    assert!(registry.get("alpha").is_some());
    assert!(registry.get("beta").is_none());
}

#[test]
fn test_version_compatibility_pass() {
    let registry = registry_with(vec![manifest("compat-ok", "compat-ok", Some("0.1.0"))]);
    let manifest = registry.get("compat-ok").unwrap();
    assert!(registry.check_version_compatibility(manifest).is_ok());
}

#[test]
fn test_version_compatibility_fail() {
    let registry = registry_with(vec![manifest("compat-fail", "compat-fail", Some("99.0.0"))]);
    let manifest = registry.get("compat-fail").unwrap();
    match registry.check_version_compatibility(manifest).unwrap_err() {
        PluginError::TooOld { plugin, required, current } => {
            assert_eq!(plugin, "compat-fail");
            assert_eq!(required, "99.0.0");
            assert_eq!(current, "0.4.0");
        }
        other => panic!("unexpected {other:?}"),
    }
}

#[test]
fn test_version_compatibility_no_constraint() {
    let registry = registry_with(vec![manifest("no-constraint", "no-constraint", None)]);
    let manifest = registry.get("no-constraint").unwrap();
    assert!(registry.check_version_compatibility(manifest).is_ok());
}

#[test]
fn test_version_compatibility_invalid_semver() {
    let registry = registry_with(vec![manifest("bad-ver", "bad-ver", Some("not-a-version"))]);
    let manifest = registry.get("bad-ver").unwrap();
    match registry.check_version_compatibility(manifest).unwrap_err() {
        PluginError::InvalidMinVersion { plugin, version } => {
            assert_eq!(plugin, "bad-ver");
            assert_eq!(version, "not-a-version");
        }
        other => panic!("unexpected {other:?}"),
    }
}

#[test]
fn test_execute_plugin_not_found() {
    let registry = registry_with(vec![]);
    match registry.plugin_to_run("nonexistent") {
        Err(PluginError::NotFound { name }) => assert_eq!(name, "nonexistent"),
        _ => panic!("expected a missing plugin"),
    }
}

#[test]
fn test_install_and_uninstall() {
    let mut registry = registry_with(vec![]);
    registry.register(manifest("install-me", "install-me", None));
    assert_eq!(registry.list().len(), 1);
    registry.remove_plugin("install-me");
    assert_eq!(registry.list().len(), 0);
}

#[test]
fn plugin_to_run_checks_the_version_of_the_first_match() {
    let registry = registry_with(vec![
        manifest("p", "first", Some("0.4.0")),
        manifest("p", "second", Some("99.0.0")),
    ]);
    assert_eq!(registry.plugin_to_run("p").unwrap().entry_point, "first");
    let registry = registry_with(vec![manifest("q", "q", Some("0.4.1"))]);
    assert!(matches!(registry.plugin_to_run("q"), Err(PluginError::TooOld { .. })));
}

#[test]
fn plugin_output_reads_success_failure_and_bad_bytes() {
    let ok = plugin_output("p", true, "exit status: 0", b"  {\"success\": true}\n".to_vec(), &Vec::new()).unwrap();
    assert_eq!(ok, "{\"success\": true}");
    match plugin_output("p", false, "exit status: 1", Vec::new(), &b" boom \n".to_vec()) {
        Err(PluginError::Exited { plugin, status, stderr }) => {
            assert_eq!(plugin, "p");
            assert_eq!(status, "exit status: 1");
            assert_eq!(stderr, "boom");
        }
        _ => panic!("expected a failed plugin"),
    }
    assert!(matches!(plugin_output("p", true, "ok", vec![0xff, 0xfe], &Vec::new()), Err(PluginError::OutputNotText)));
}

#[test]
fn wait_step_kills_after_timeout_and_sleeps_before() {
    assert_eq!(PLUGIN_TIMEOUT_MS, 30_000);
    assert_eq!(wait_step(ProcessPoll::Running, 0), WaitAction::Sleep(PLUGIN_POLL_MS));
    assert_eq!(wait_step(ProcessPoll::Running, 29_999), WaitAction::Sleep(10));
    assert_eq!(wait_step(ProcessPoll::Running, 30_000), WaitAction::Kill);
    assert_eq!(wait_step(ProcessPoll::Exited, 45_000), WaitAction::Collect);
    assert_eq!(wait_step(ProcessPoll::WaitFailed, 5), WaitAction::Fail);
}
