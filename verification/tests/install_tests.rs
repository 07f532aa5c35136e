use asdr::errors::AsdfError;
use asdr::install::{
    callback_env, hook_name, install_local_plan, install_one_local_tool, plan_install,
    InstallOutcome,
};
use asdr::resolve::{VersionSource, VersionSpecifier};

const DATA: &str = "/home/user/.asdf";

fn resolved(version: &str) -> VersionSpecifier {
    VersionSpecifier {
        version: version.to_string(),
        source: VersionSource::EnvVar("ASDF_DUMMY_VERSION".to_string()),
    }
}

#[test]
fn plan_install_refuses_missing_plugin() {
    let r = plan_install(DATA, "dummy", "1.0.0", None, false, false, false, false, None);
    assert_eq!(r, Err(AsdfError::NoSuchPlugin("dummy".to_string())));

    let r = plan_install(DATA, "", "1.0.0", None, true, false, false, false, None);
    assert_eq!(r, Err(AsdfError::NoPluginGiven));
}

#[test]
fn plan_install_system_and_path_are_no_ops() {
    let r = plan_install(DATA, "dummy", "system", None, true, false, false, false, None);
    assert!(matches!(r, Ok(InstallOutcome::NothingToDo)));

    let r = plan_install(
        DATA,
        "dummy",
        "path:/some/place with spaces",
        None,
        true,
        false,
        false,
        false,
        None,
    );
    assert!(matches!(r, Ok(InstallOutcome::NothingToDo)));
}

// installing an already-installed version succeeds and plans no step
#[test]
fn plan_install_is_idempotent_when_already_installed() {
    let r = plan_install(DATA, "dummy", "1.0.0", None, true, true, true, false, None);
    assert!(matches!(r, Ok(InstallOutcome::AlreadyInstalled)));
}

#[test]
fn plan_install_computes_the_steps() {
    let r = plan_install(DATA, "dummy", "1.0.0", None, true, false, true, false, None).unwrap();
    match r {
        InstallOutcome::Install(steps) => {
            assert_eq!(steps.install_type, "version");
            assert_eq!(steps.version, "1.0.0");
            assert_eq!(steps.install_path, "/home/user/.asdf/installs/dummy/1.0.0");
            assert_eq!(
                steps.download_path,
                Some("/home/user/.asdf/downloads/dummy/1.0.0".to_string())
            );
            assert!(steps.run_download);
            assert!(steps.remove_download_after);
            assert!(steps.concurrency >= 1);
        },
        _ => panic!("expected a real installation"),
    }
}

#[test]
fn plan_install_of_a_ref_version() {
    let r = plan_install(DATA, "dummy", "ref:master", None, true, false, false, false, None)
        .unwrap();
    match r {
        InstallOutcome::Install(steps) => {
            assert_eq!(steps.install_type, "ref");
            assert_eq!(steps.version, "master");
            assert_eq!(steps.install_path, "/home/user/.asdf/installs/dummy/ref-master");
            assert!(!steps.run_download);
        },
        _ => panic!("expected a real installation"),
    }
}

#[test]
fn plan_install_keeps_download_when_configured() {
    let r = plan_install(DATA, "dummy", "1.0.0", None, true, false, true, false, Some("yes"))
        .unwrap();
    match r {
        InstallOutcome::Install(steps) => assert!(!steps.remove_download_after),
        _ => panic!("expected a real installation"),
    }

    let r = plan_install(DATA, "dummy", "1.0.0", None, true, false, true, true, None).unwrap();
    match r {
        InstallOutcome::Install(steps) => assert!(!steps.remove_download_after),
        _ => panic!("expected a real installation"),
    }
}

#[test]
fn plan_install_latest_needs_a_resolved_version() {
    let r = plan_install(DATA, "dummy", "latest", None, true, false, false, false, None);
    assert!(matches!(r, Err(AsdfError::NoCompatibleVersions(_, _))));

    let r = plan_install(
        DATA,
        "dummy",
        "latest",
        Some("2.0.0".to_string()),
        true,
        false,
        false,
        false,
        None,
    )
    .unwrap();
    match r {
        InstallOutcome::Install(steps) => {
            assert_eq!(steps.version, "2.0.0");
            assert_eq!(steps.install_path, "/home/user/.asdf/installs/dummy/2.0.0");
        },
        _ => panic!("expected a real installation"),
    }
}

#[test]
fn callback_env_lists_the_documented_variables() {
    let env = callback_env(
        "version",
        "1.0.0",
        "/i",
        Some("/dl"),
        Some(4),
    );

    assert_eq!(
        env,
        vec![
            ("ASDF_INSTALL_TYPE".to_string(), "version".to_string()),
            ("ASDF_INSTALL_VERSION".to_string(), "1.0.0".to_string()),
            ("ASDF_INSTALL_PATH".to_string(), "/i".to_string()),
            ("ASDF_DOWNLOAD_PATH".to_string(), "/dl".to_string()),
            ("ASDF_CONCURRENCY".to_string(), "4".to_string()),
        ]
    );

    let short = callback_env("path", "x", "/i", None, None);
    assert_eq!(short.len(), 3);
}

#[test]
fn hook_names_derive_from_the_tool() {
    assert_eq!(hook_name("pre_asdf_install_", "dummy"), "pre_asdf_install_dummy");
    assert_eq!(hook_name("post_asdf_reshim_", "dummy"), "post_asdf_reshim_dummy");
}

#[test]
fn install_one_local_tool_splits_the_resolution() {
    let spec = resolved("3.7.2 2.7.15");
    let r = install_one_local_tool("python", Some(&spec)).unwrap();
    assert_eq!(r, vec!["3.7.2".to_string(), "2.7.15".to_string()]);

    let r = install_one_local_tool("python", None);
    assert_eq!(r, Err(AsdfError::NoVersionSet("python".to_string())));
}

#[test]
fn install_local_plan_collects_pairs_in_order() {
    let plugins = vec!["dummy".to_string(), "other".to_string()];
    let declared = vec!["dummy".to_string()];
    let resolutions = vec![Some(resolved("0.1.0 0.2.0")), None];

    let pairs = install_local_plan(&plugins, &declared, &resolutions).unwrap();

    assert_eq!(
        pairs,
        vec![
            ("dummy".to_string(), "0.1.0".to_string()),
            ("dummy".to_string(), "0.2.0".to_string()),
        ]
    );
}

#[test]
fn install_local_plan_error_cases() {
    let none: Vec<String> = vec![];
    let no_res: Vec<Option<VersionSpecifier>> = vec![];
    assert_eq!(
        install_local_plan(&none, &none, &no_res),
        Err(AsdfError::NoPluginsInstalled)
    );

    let plugins = vec!["dummy".to_string()];
    let declared = vec!["dummy".to_string(), "ghost".to_string()];
    let resolutions = vec![Some(resolved("0.1.0"))];
    assert_eq!(
        install_local_plan(&plugins, &declared, &resolutions),
        Err(AsdfError::PluginsNotInstalled(vec!["ghost".to_string()]))
    );

    let resolutions = vec![None];
    let declared = vec!["dummy".to_string()];
    assert_eq!(
        install_local_plan(&plugins, &declared, &resolutions),
        Err(AsdfError::NothingToInstall)
    );
}
