use asdr::paths::{
    asdf_config_file, asdf_data_dir, download_path, env_var_for_plugin, find_install_path,
    install_path, plugin_path, shims_path,
};
use asdr::tool_versions::ToolVersion;

const DATA: &str = "/home/user/.asdf";

// get_install_path should output version path when version is provided
#[test]
fn lib_install_path_with_version() {
    let install_path = install_path(DATA, "foo", "version", "1.0.0");

    assert_eq!(install_path, "/home/user/.asdf/installs/foo/1.0.0");
}

// get_install_path should output custom path when custom install type is provided
#[test]
fn install_path_with_custom() {
    let install_path = install_path(DATA, "foo", "custom", "1.0.0");

    assert_eq!(install_path, "/home/user/.asdf/installs/foo/custom-1.0.0");
}

// get_install_path should output path when path version is provided
#[test]
fn install_path_with_path() {
    let install_path = install_path(DATA, "foo", "path", "/some/path");

    assert_eq!(install_path, "/some/path");
}

// get_download_path should output version path when version is provided
#[test]
fn download_path_with_version() {
    let download_path = download_path(DATA, "foo", "version", "1.0.0");

    assert_eq!(download_path, Some("/home/user/.asdf/downloads/foo/1.0.0".to_string()));
}

// get_download_path should output custom path when custom download type is provided
#[test]
fn download_path_with_custom() {
    let download_path = download_path(DATA, "foo", "custom", "1.0.0");

    assert_eq!(
        download_path,
        Some("/home/user/.asdf/downloads/foo/custom-1.0.0".to_string())
    );
}

// get_download_path should output nothing when path version is provided
#[test]
fn download_path_with_path() {
    let download_path = download_path(DATA, "foo", "path", "/some/path");

    assert_eq!(download_path, None);
}

// asdf_data_dir should return user dir if configured
#[test]
fn asdf_data_dir_with_env() {
    let asdf_data_dir = asdf_data_dir(Some("/tmp/wadus".to_string()));

    assert_eq!(asdf_data_dir, Ok("/tmp/wadus".to_string()));
}

// asdf_data_dir should return ~/.asdf when ASDF_DATA_DIR is not set
#[test]
fn asdf_data_dir_with_home() {
    let home = dirs::home_dir().unwrap();
    let expected = format!("{}/.asdf", home.to_str().unwrap());

    assert_eq!(asdf_data_dir(None), Ok(expected));
}

#[test]
fn asdf_config_file_with_env() {
    assert_eq!(
        asdf_config_file(Some("/tmp/rc".to_string())),
        Ok("/tmp/rc".to_string())
    );
}

#[test]
fn plugin_and_shims_paths() {
    assert_eq!(plugin_path(DATA, "dummy"), "/home/user/.asdf/plugins/dummy");
    assert_eq!(shims_path(DATA), "/home/user/.asdf/shims");
}

#[test]
fn find_install_path_of_each_form() {
    assert_eq!(find_install_path(DATA, "foo", "system"), None);
    assert_eq!(
        find_install_path(DATA, "foo", "1.0.0"),
        Some("/home/user/.asdf/installs/foo/1.0.0".to_string())
    );
    assert_eq!(
        find_install_path(DATA, "foo", "ref:master"),
        Some("/home/user/.asdf/installs/foo/ref-master".to_string())
    );
    assert_eq!(
        find_install_path(DATA, "foo", "path:/some/place with spaces"),
        Some("/some/place with spaces".to_string())
    );
}

// version_not_installed_text is correct
#[test]
fn version_not_installed_text() {
    let version_not_installed_text = asdr::paths::version_not_installed_text("dummy", "1.0.0");
    assert_eq!(
        version_not_installed_text,
        "version 1.0.0 is not installed for dummy"
    );
}

#[test]
fn env_var_name_upper_cases_the_tool() {
    assert_eq!(env_var_for_plugin("dummy"), "ASDF_DUMMY_VERSION");
    assert_eq!(env_var_for_plugin("my-tool2"), "ASDF_MY-TOOL2_VERSION");
}

// get_install_path should output version path when version is provided
#[test]
fn tool_version_install_path_with_version() {
    let tool_version = ToolVersion::parse("1.0.0").unwrap();
    let install_path = tool_version.install_path("/tmp/data", "foo");

    assert_eq!(install_path, Some("/tmp/data/installs/foo/1.0.0".to_string()));
}

// get_install_path should output version path when version is provided
#[test]
fn tool_versions_install_path_with_version() {
    let tool_version = ToolVersion::parse("1.0.0").unwrap();
    let install_path = tool_version.install_path("/tmp/data", "foo");

    assert_eq!(install_path, Some("/tmp/data/installs/foo/1.0.0".to_string()));
}

#[test]
fn tool_version_install_path_of_ref_and_path() {
    assert_eq!(
        ToolVersion::parse("ref:master").unwrap().install_path("/d", "foo"),
        Some("/d/installs/foo/ref-master".to_string())
    );
    assert_eq!(
        ToolVersion::parse("path:/p x").unwrap().install_path("/d", "foo"),
        Some("/p x".to_string())
    );
    assert_eq!(ToolVersion::parse("system").unwrap().install_path("/d", "foo"), None);
}
