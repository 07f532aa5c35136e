use asdr::errors::AsdfError;
use asdr::plugins::{deprecated_plugin_warning, plugin_exists, plugin_help, version_exists};

// check_if_plugin_exists should exit with 1 when plugin is empty string
#[test]
fn plugin_exists_with_empty_string() {
    let plugin_exists = plugin_exists("", true);

    assert_eq!(plugin_exists, Err(AsdfError::NoPluginGiven));
}

// check_if_plugin_exists should be noop if plugin exists
#[test]
fn plugin_exists_with_plugin() {
    let plugin_exists = plugin_exists("dummy", true);

    assert_eq!(plugin_exists, Ok(()));
}

// check_if_version_exists should exit with 1 if plugin does not exist
#[test]
fn version_exists_without_plugin() {
    let version_exists = version_exists("inexistent", "1.0.0", false, false);

    assert_eq!(version_exists, Err(AsdfError::NoSuchPlugin("inexistent".to_string())));
}

// check_if_version_exists should exit with 1 if version does not exist
#[test]
fn version_exists_without_version() {
    let version_exists = version_exists("dummy", "1.0.0", true, false);

    assert_eq!(
        version_exists,
        Err(AsdfError::VersionNotInstalled("dummy".to_string(), "1.0.0".to_string()))
    );
}

// check_if_version_exists should be noop if version exists
#[test]
fn version_exists_with_version() {
    let version_exists = version_exists("dummy", "0.1.0", true, true);

    assert_eq!(version_exists, Ok(()));
}

// check_if_version_exists should be noop if version is system
#[test]
fn version_exists_with_system() {
    let version_exists = version_exists("foo", "system", true, false);

    assert_eq!(version_exists, Ok(()));
}

// check_if_version_exists should be ok for ref:version install
#[test]
fn version_exists_with_ref() {
    let version_exists = version_exists("foo", "ref:master", true, true);

    assert_eq!(version_exists, Ok(()));
}

#[test]
fn plugin_help_concatenates_the_sections() {
    let extras = vec!["deps text\n".to_string(), "links text\n".to_string()];

    assert_eq!(
        plugin_help("overview\n", &extras),
        "overview\ndeps text\nlinks text\n"
    );
    assert_eq!(plugin_help("only overview", &Vec::new()), "only overview");
}

#[test]
fn error_messages_are_the_documented_lines() {
    assert_eq!(AsdfError::NoPluginGiven.message(), "No plugin given");
    assert_eq!(
        AsdfError::NoSuchPlugin("inexistent".to_string()).message(),
        "No such plugin: inexistent"
    );
    assert_eq!(
        AsdfError::VersionNotInstalled("dummy".to_string(), "1.0.0".to_string()).message(),
        "version 1.0.0 is not installed for dummy"
    );
    assert_eq!(
        AsdfError::NoVersionSet("dummy".to_string()).message(),
        "No plugin version set"
    );
    assert_eq!(
        AsdfError::UnknownShim("node".to_string()).message(),
        "unknown command: node. Perhaps you have to reshim?"
    );
    assert_eq!(
        AsdfError::ConfigKeyMissing("legacy_version_file".to_string()).message(),
        "Key legacy_version_file not found in config file"
    );
    assert_eq!(
        AsdfError::NoCompatibleVersions("dummy".to_string(), "9".to_string()).message(),
        "No compatible versions available (dummy 9)"
    );
    assert_eq!(
        AsdfError::PluginsNotInstalled(vec!["a".to_string(), "b".to_string()]).message(),
        "a plugin is not installed\nb plugin is not installed"
    );
}

#[test]
fn deprecated_plugin_warning_cases() {
    assert!(deprecated_plugin_warning(Some("yes"), true, false));
    assert!(!deprecated_plugin_warning(Some("yes"), true, true));
    assert!(!deprecated_plugin_warning(Some("no"), true, false));
    assert!(!deprecated_plugin_warning(None, true, false));
}
