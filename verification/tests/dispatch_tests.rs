use asdr::current::{current_report, CurrentOutcome};
use asdr::dispatch::{
    executable_path, filter_shims_from_path, preset_versions, select_from_preset_version,
    select_version, with_shim_executable,
};
use asdr::errors::AsdfError;
use asdr::resolve::{VersionSource, VersionSpecifier};
use asdr::shims::{new_shim_contents, shim_plugins, shim_versions};

fn resolved(version: &str) -> Option<VersionSpecifier> {
    Some(VersionSpecifier {
        version: version.to_string(),
        source: VersionSource::ToolVersion("/p/.tool-versions".to_string()),
    })
}

// the dispatcher picks the resolved version that the shim's metadata covers
#[test]
fn select_version_picks_a_listed_pair() {
    let contents = new_shim_contents("/bin/asdr", "python", "3.7.2", "python");
    let plugins = shim_plugins(&contents);
    let entries = shim_versions(&contents);
    let resolutions = vec![resolved("3.7.2 2.7.15")];

    let selected = select_version(&plugins, &resolutions, &entries);

    assert_eq!(selected, Some("python 3.7.2".to_string()));
}

#[test]
fn select_version_never_picks_an_unlisted_pair() {
    let contents = new_shim_contents("/bin/asdr", "python", "3.7.2", "python");
    let plugins = shim_plugins(&contents);
    let entries = shim_versions(&contents);
    // the resolution names a version this shim does not cover
    let resolutions = vec![resolved("2.7.15")];

    assert_eq!(select_version(&plugins, &resolutions, &entries), None);
}

#[test]
fn select_version_accepts_system_and_path() {
    let contents = new_shim_contents("/bin/asdr", "python", "3.7.2", "python");
    let plugins = shim_plugins(&contents);
    let entries = shim_versions(&contents);

    let resolutions = vec![resolved("system")];
    assert_eq!(
        select_version(&plugins, &resolutions, &entries),
        Some("python system".to_string())
    );

    let resolutions = vec![resolved("path:/some/place with spaces")];
    // a path: version is accepted whole, spaces and all, for a plugin the
    // shim claims, whether or not the metadata lists it
    assert_eq!(
        select_version(&plugins, &resolutions, &entries),
        Some("python path:/some/place with spaces".to_string())
    );
}

#[test]
fn select_version_with_no_resolution() {
    let contents = new_shim_contents("/bin/asdr", "python", "3.7.2", "python");
    let plugins = shim_plugins(&contents);
    let entries = shim_versions(&contents);

    assert_eq!(select_version(&plugins, &vec![None], &entries), None);
}

#[test]
fn preset_versions_keeps_the_resolved_ones() {
    let r = preset_versions(&vec![Some("0.1.0".to_string()), None, Some("2".to_string())]);
    assert_eq!(r, vec!["0.1.0".to_string(), "2".to_string()]);
}

// the fallback obeys the same acceptance rule as the primary selection
#[test]
fn select_from_preset_version_accepts_only_listed_pairs() {
    let contents = new_shim_contents("/bin/asdr", "dummy", "1.0", "dummy");
    let plugins = shim_plugins(&contents);
    let entries = shim_versions(&contents);

    let presets = vec![Some("1.0".to_string())];
    assert_eq!(
        select_from_preset_version(&plugins, &presets, &entries),
        Some("dummy 1.0".to_string())
    );

    // a messy preset text never comes out whole: only a token the shim
    // declares for the plugin can be selected
    let presets = vec![Some("x dummy 1.0 dummy system".to_string())];
    assert_eq!(
        select_from_preset_version(&plugins, &presets, &entries),
        Some("dummy 1.0".to_string())
    );

    // and with no declared token among the preset's tokens, nothing is
    let presets = vec![Some("x 9.9".to_string())];
    assert_eq!(select_from_preset_version(&plugins, &presets, &entries), None);

    let presets = vec![Some("2.0".to_string())];
    assert_eq!(select_from_preset_version(&plugins, &presets, &entries), None);

    let presets = vec![None];
    assert_eq!(select_from_preset_version(&plugins, &presets, &entries), None);
}

#[test]
fn with_shim_executable_outcomes() {
    assert_eq!(
        with_shim_executable("node", false, None),
        Err(AsdfError::UnknownShim("node".to_string()))
    );
    assert_eq!(
        with_shim_executable("node", true, None),
        Err(AsdfError::NoVersionSet("node".to_string()))
    );
    assert_eq!(
        with_shim_executable("node", true, Some("nodejs 18.0.0".to_string())),
        Ok("nodejs 18.0.0".to_string())
    );
}

#[test]
fn executable_path_of_installed_and_path_versions() {
    assert_eq!(
        executable_path("/d", "foo", "1.0.0", "bin/dummy"),
        Some("/d/installs/foo/1.0.0/bin/dummy".to_string())
    );
    assert_eq!(
        executable_path("/d", "foo", "ref:master", "bin/dummy"),
        Some("/d/installs/foo/ref-master/bin/dummy".to_string())
    );
    assert_eq!(
        executable_path("/d", "foo", "path:/custom", "bin/dummy"),
        Some("/custom/bin/dummy".to_string())
    );
    assert_eq!(executable_path("/d", "foo", "system", "bin/dummy"), None);
}

#[test]
fn filter_shims_removes_only_the_shims_dir() {
    let entries = vec![
        "/usr/bin".to_string(),
        "/home/user/.asdf/shims".to_string(),
        "/bin".to_string(),
    ];

    assert_eq!(
        filter_shims_from_path(&entries, "/home/user/.asdf/shims"),
        vec!["/usr/bin".to_string(), "/bin".to_string()]
    );
}

#[test]
fn current_report_lines() {
    let spec = VersionSpecifier {
        version: "0.1.0".to_string(),
        source: VersionSource::ToolVersion("/p/.tool-versions".to_string()),
    };

    let (line, outcome) = current_report("dummy", Some(&spec), true);
    assert!(matches!(outcome, CurrentOutcome::Active));
    assert_eq!(line, "dummy           0.1.0           /p/.tool-versions");

    let (line, outcome) = current_report("dummy", Some(&spec), false);
    assert!(matches!(outcome, CurrentOutcome::NotInstalled));
    assert!(line.contains("Not installed. Run \"asdf install dummy 0.1.0\""));

    let (line, outcome) = current_report("dummy", None, true);
    assert!(matches!(outcome, CurrentOutcome::NoVersion));
    assert!(line.contains("______"));
    assert!(line.contains("No version is set."));
}
