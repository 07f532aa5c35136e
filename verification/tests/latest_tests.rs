use asdr::errors::AsdfError;
use asdr::latest::{
    all_plugin_versions, filter_versions_by_query, get_all_latest_versions, get_latest_version,
    LatestSource, PluginLatest,
};

#[test]
fn all_versions_without_query_keeps_everything() {
    let r = all_plugin_versions("dummy", None, "1.0 1.1 2.0").unwrap();
    assert_eq!(r, vec!["1.0".to_string(), "1.1".to_string(), "2.0".to_string()]);
}

// the query pattern really filters: handing the input back unchanged would fail
#[test]
fn all_versions_filters_by_query() {
    let r = all_plugin_versions("dummy", Some("1"), "1.0 1.1 2.0").unwrap();
    assert_eq!(r, vec!["1.0".to_string(), "1.1".to_string()]);

    let r = all_plugin_versions("dummy", Some("9"), "1.0 1.1 2.0");
    assert_eq!(
        r,
        Err(AsdfError::NoCompatibleVersions("dummy".to_string(), "9".to_string()))
    );
}

#[test]
fn latest_from_a_stable_answer() {
    let r = get_latest_version("dummy", "[0-9]", &LatestSource::Stable("2.0.0".to_string()));
    assert_eq!(r, Ok("2.0.0".to_string()));

    let r = get_latest_version("dummy", "[0-9]", &LatestSource::Stable(String::new()));
    assert_eq!(
        r,
        Err(AsdfError::NoCompatibleVersions("dummy".to_string(), "[0-9]".to_string()))
    );
}

#[test]
fn latest_from_list_all_skips_unstable_versions() {
    let out = "1.0.0 2.0.0-beta 2.0.0 3.0.0-rc1 2.1.0-dev".to_string();
    let r = get_latest_version("dummy", "[0-9]", &LatestSource::ListAll(out));
    assert_eq!(r, Ok("2.0.0".to_string()));
}

#[test]
fn latest_from_list_all_respects_the_query() {
    let out = "1.0.0 1.1.0 2.0.0".to_string();
    let r = get_latest_version("dummy", "1", &LatestSource::ListAll(out));
    assert_eq!(r, Ok("1.1.0".to_string()));
}

#[test]
fn latest_with_no_candidate_is_an_error() {
    let out = "1.0.0-beta 1.0.0-rc1".to_string();
    let r = get_latest_version("dummy", "1", &LatestSource::ListAll(out));
    assert_eq!(
        r,
        Err(AsdfError::NoCompatibleVersions("dummy".to_string(), "1".to_string()))
    );
}

#[test]
fn latest_overview_formatting() {
    let rows = vec![
        PluginLatest {
            name: "dummy".to_string(),
            version: Some("2.0.0".to_string()),
            installed: true,
        },
        PluginLatest { name: "other".to_string(), version: None, installed: false },
    ];

    assert_eq!(
        get_all_latest_versions(&rows),
        "dummy\t2.0.0\tinstalled\nother\tunknown\tmissing"
    );
    assert_eq!(get_all_latest_versions(&Vec::new()), "No plugins installed");
}

#[test]
fn list_filtering_by_query() {
    let versions = vec!["0.1.0".to_string(), "0.2.0".to_string(), "1.0.0".to_string()];

    let all = filter_versions_by_query("dummy", &versions, None).unwrap();
    assert_eq!(all, versions);

    let zero = filter_versions_by_query("dummy", &versions, Some("0")).unwrap();
    assert_eq!(zero, vec!["0.1.0".to_string(), "0.2.0".to_string()]);

    let none = filter_versions_by_query("dummy", &versions, Some("7"));
    assert_eq!(
        none,
        Err(AsdfError::NoCompatibleVersions("dummy".to_string(), "7".to_string()))
    );
}
