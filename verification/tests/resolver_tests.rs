use asdr::config::{asdf_config_value, asdf_config_value_from_file};
use asdr::errors::AsdfError;
use asdr::resolve::{
    find_versions, version_in_dir, DirLookup, FileLookup, LegacyFile, VersionSource,
    VersionSpecifier,
};

fn dir_with_file(dir: &str, contents: &str) -> DirLookup {
    DirLookup {
        dir: dir.to_string(),
        tool_versions: Some(contents.to_string()),
        legacy: vec![],
    }
}

fn bare_dir(dir: &str) -> DirLookup {
    DirLookup { dir: dir.to_string(), tool_versions: None, legacy: vec![] }
}

fn legacy(path: &str, value: Option<&str>) -> LegacyFile {
    LegacyFile { path: path.to_string(), value: value.map(|v| v.to_string()) }
}

// find_versions should return the version set by envrionment variable
#[test]
fn find_versions_with_env() {
    let chain = vec![bare_dir("/project")];

    let find_versions = find_versions("dummy", Some("0.2.0".to_string()), &chain, None);

    assert_eq!(
        find_versions,
        Some(VersionSpecifier {
            version: "0.2.0".to_string(),
            source: VersionSource::EnvVar("ASDF_DUMMY_VERSION".to_string()),
        })
    );
}

// env beats file: a .tool-versions in the working directory loses to the variable
#[test]
fn env_beats_tool_versions_file() {
    let chain = vec![dir_with_file("/project", "dummy 0.1.0")];

    let resolved = find_versions("dummy", Some("0.2.0".to_string()), &chain, None);

    assert_eq!(
        resolved,
        Some(VersionSpecifier {
            version: "0.2.0".to_string(),
            source: VersionSource::EnvVar("ASDF_DUMMY_VERSION".to_string()),
        })
    );
}

// find_versions should return .tool-versions if legacy is disabled
#[test]
fn find_versions_without_legacy() {
    // legacy support off: the binary hands in no legacy lookups at all
    let chain = vec![dir_with_file("/project", "dummy 0.1.0")];

    let find_versions = find_versions("dummy", None, &chain, None);

    assert_eq!(
        find_versions,
        Some(VersionSpecifier {
            version: "0.1.0".to_string(),
            source: VersionSource::ToolVersion("/project/.tool-versions".to_string()),
        })
    );
}

// find_versions should return the legacy file if supported
#[test]
fn find_versions_with_legacy() {
    let project = DirLookup {
        dir: "/project".to_string(),
        tool_versions: None,
        legacy: vec![legacy("/project/.dummy-version", Some("0.2.0"))],
    };
    let home = dir_with_file("/home/user", "dummy 0.1.0");
    let chain = vec![project, home];

    let find_versions = find_versions("dummy", None, &chain, None);

    assert_eq!(
        find_versions,
        Some(VersionSpecifier {
            version: "0.2.0".to_string(),
            source: VersionSource::Legacy("/project/.dummy-version".to_string()),
        })
    );
}

// find_versions skips .tool-version file that don't list the plugin
#[test]
fn find_versions_with_tool_version_without_plugin() {
    let chain = vec![
        dir_with_file("/project", "another_plugin 0.3.0"),
        dir_with_file("/home/user", "dummy 0.1.0"),
    ];

    let find_versions = find_versions("dummy", None, &chain, None);

    assert_eq!(
        find_versions,
        Some(VersionSpecifier {
            version: "0.1.0".to_string(),
            source: VersionSource::ToolVersion("/home/user/.tool-versions".to_string()),
        })
    );
}

// find_versions should return .tool-versions if unsupported
#[test]
fn find_versions_without_legacy_filenames() {
    // the plugin lists no legacy filenames, so no legacy lookups exist
    let chain = vec![bare_dir("/project"), dir_with_file("/home/user", "dummy 0.1.0")];

    let find_versions = find_versions("dummy", None, &chain, None);

    assert_eq!(
        find_versions,
        Some(VersionSpecifier {
            version: "0.1.0".to_string(),
            source: VersionSource::ToolVersion("/home/user/.tool-versions".to_string()),
        })
    );
}

// find_versions should return $ASDF_DEFAULT_TOOL_VERSIONS_FILENAME if set
#[test]
fn find_versions_with_default_env() {
    let chain = vec![bare_dir("/project"), bare_dir("/home/user")];
    let default_file = FileLookup {
        path: "/tmp/g".to_string(),
        contents: "dummy 0.1.0".to_string(),
    };

    let find_versions = find_versions("dummy", None, &chain, Some(&default_file));

    assert_eq!(
        find_versions,
        Some(VersionSpecifier {
            version: "0.1.0".to_string(),
            source: VersionSource::ToolVersion("/tmp/g".to_string()),
        })
    );
}

// legacy files in the chain beat the default file
#[test]
fn find_versions_prefers_legacy_over_default_file() {
    let home = DirLookup {
        dir: "/home/user".to_string(),
        tool_versions: None,
        legacy: vec![legacy("/home/user/.dummy-version", Some(" 0.1.0"))],
    };
    let chain = vec![bare_dir("/project"), home];
    let default_file = FileLookup {
        path: "/tmp/g".to_string(),
        contents: "dummy 0.2.0".to_string(),
    };

    let find_versions = find_versions("dummy", None, &chain, Some(&default_file));

    assert_eq!(
        find_versions,
        Some(VersionSpecifier {
            version: " 0.1.0".to_string(),
            source: VersionSource::Legacy("/home/user/.dummy-version".to_string()),
        })
    );
}

// the nearest declaring directory wins over every deeper one
#[test]
fn find_versions_prefers_the_nearest_file() {
    let chain = vec![
        dir_with_file("/project/sub", "dummy 0.3.0"),
        dir_with_file("/project", "dummy 0.1.0"),
        dir_with_file("/home/user", "dummy 0.2.0"),
    ];

    let resolved = find_versions("dummy", None, &chain, None).unwrap();

    assert_eq!(resolved.version, "0.3.0");
    assert_eq!(
        resolved.source,
        VersionSource::ToolVersion("/project/sub/.tool-versions".to_string())
    );
}

#[test]
fn find_versions_with_nothing_anywhere() {
    let chain = vec![bare_dir("/project"), bare_dir("/home/user")];

    assert_eq!(find_versions("dummy", None, &chain, None), None);
}

#[test]
fn version_in_dir_prefers_tool_versions_over_legacy() {
    let dir = DirLookup {
        dir: "/p".to_string(),
        tool_versions: Some("dummy 0.1.0".to_string()),
        legacy: vec![legacy("/p/.dummy-version", Some("0.2.0"))],
    };

    let hit = version_in_dir("dummy", &dir).unwrap();

    assert_eq!(hit.version, "0.1.0");
    assert_eq!(hit.source, VersionSource::ToolVersion("/p/.tool-versions".to_string()));
}

#[test]
fn version_in_dir_skips_empty_legacy_values() {
    let dir = DirLookup {
        dir: "/p".to_string(),
        tool_versions: None,
        legacy: vec![
            legacy("/p/.a-version", Some("")),
            legacy("/p/.b-version", None),
            legacy("/p/.c-version", Some("7.7")),
        ],
    };

    let hit = version_in_dir("dummy", &dir).unwrap();

    assert_eq!(hit.version, "7.7");
    assert_eq!(hit.source, VersionSource::Legacy("/p/.c-version".to_string()));
}

#[test]
fn path_specifier_resolves_verbatim_with_spaces() {
    let chain = vec![dir_with_file("/project", "dummy path:/some/place with spaces")];

    let resolved = find_versions("dummy", None, &chain, None).unwrap();

    assert_eq!(resolved.version, "path:/some/place with spaces");
}

#[test]
fn config_value_from_file_parses_and_trims() {
    let contents = "# a comment\nlegacy_version_file = yes\nkey2=  spaced value  \n";

    assert_eq!(
        asdf_config_value_from_file(contents, "legacy_version_file"),
        Ok("yes".to_string())
    );
    assert_eq!(asdf_config_value_from_file(contents, "key2"), Ok("spaced value".to_string()));
    assert_eq!(
        asdf_config_value_from_file(contents, "missing"),
        Err(AsdfError::ConfigKeyMissing("missing".to_string()))
    );
}

#[test]
fn config_value_precedence_and_defaults() {
    let local = "always_keep_download = yes";
    let user = "always_keep_download = no\nlegacy_version_file = yes";

    assert_eq!(
        asdf_config_value(Some(local), Some(user), "always_keep_download"),
        Some("yes".to_string())
    );
    assert_eq!(
        asdf_config_value(None, Some(user), "always_keep_download"),
        Some("no".to_string())
    );
    assert_eq!(
        asdf_config_value(None, Some(user), "legacy_version_file"),
        Some("yes".to_string())
    );
    // documented defaults
    assert_eq!(asdf_config_value(None, None, "legacy_version_file"), Some("no".to_string()));
    assert_eq!(asdf_config_value(None, None, "always_keep_download"), Some("no".to_string()));
    assert_eq!(asdf_config_value(None, None, "some_hook"), None);
}
