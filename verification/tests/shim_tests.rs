use asdr::shims::{
    add_shim_metadata, generate_shims_for_version, list_plugin_bin_paths, list_plugin_exec_paths,
    metadata_line, new_shim_contents, obsolete_shim_names, remove_shim_metadata,
    shim_mentions, shim_plugin_versions, shim_plugins, shim_should_be_deleted, shim_versions,
    updated_shim_contents, version_name_from_dir, ShimState,
};

const PROGRAM: &str = "/usr/local/bin/asdr";

#[test]
fn metadata_line_format() {
    assert_eq!(metadata_line("dummy", "0.1.0"), "# asdf-plugin: dummy 0.1.0");
}

#[test]
fn fresh_shim_has_interpreter_metadata_and_exec_lines() {
    let contents = new_shim_contents(PROGRAM, "dummy", "0.1.0", "a");

    assert_eq!(
        contents,
        "#!/usr/bin/env bash\n# asdf-plugin: dummy 0.1.0\nexec /usr/local/bin/asdr exec \"a\" \"$@\"\n"
    );
}

#[test]
fn shim_plugin_versions_reads_metadata() {
    let contents = new_shim_contents(PROGRAM, "dummy", "0.1.0", "a");

    assert_eq!(shim_plugin_versions(&contents), vec!["dummy 0.1.0".to_string()]);
    assert_eq!(shim_plugins(&contents), vec!["dummy".to_string()]);
    assert_eq!(
        shim_versions(&contents),
        vec!["dummy 0.1.0".to_string(), "dummy system".to_string()]
    );
}

#[test]
fn add_metadata_goes_above_the_exec_line() {
    let contents = new_shim_contents(PROGRAM, "dummy", "0.1.0", "a");

    let updated = add_shim_metadata(&contents, "dummy", "0.2.0");

    assert_eq!(
        updated,
        "#!/usr/bin/env bash\n# asdf-plugin: dummy 0.1.0\n# asdf-plugin: dummy 0.2.0\nexec /usr/local/bin/asdr exec \"a\" \"$@\"\n"
    );
    assert_eq!(
        shim_plugin_versions(&updated),
        vec!["dummy 0.1.0".to_string(), "dummy 0.2.0".to_string()]
    );
}

#[test]
fn add_metadata_twice_changes_nothing() {
    let contents = new_shim_contents(PROGRAM, "dummy", "0.1.0", "a");

    let once = add_shim_metadata(&contents, "dummy", "0.2.0");
    let twice = add_shim_metadata(&once, "dummy", "0.2.0");

    assert_eq!(once, twice);
}

#[test]
fn remove_metadata_drops_exactly_one_version() {
    let contents = new_shim_contents(PROGRAM, "dummy", "0.1.0", "a");
    let both = add_shim_metadata(&contents, "dummy", "0.2.0");

    let removed = remove_shim_metadata(&both, "dummy", "0.1.0");

    assert_eq!(shim_plugin_versions(&removed), vec!["dummy 0.2.0".to_string()]);
    assert!(!shim_mentions(&removed, "dummy", "0.1.0"));
    assert!(shim_mentions(&removed, "dummy", "0.2.0"));
}

#[test]
fn shim_deletion_policy() {
    let contents = new_shim_contents(PROGRAM, "dummy", "0.1.0", "a");
    let emptied = remove_shim_metadata(&contents, "dummy", "0.1.0");

    assert!(shim_should_be_deleted(&emptied, 1));
    assert!(!shim_should_be_deleted(&contents, 1));
    assert!(shim_should_be_deleted(&contents, 0));
}

#[test]
fn obsolete_names_are_shims_without_executables() {
    let shims = vec!["a".to_string(), "b".to_string()];
    let execs = vec!["a".to_string()];

    assert_eq!(obsolete_shim_names(&shims, &execs), vec!["b".to_string()]);
    assert_eq!(obsolete_shim_names(&shims, &shims), Vec::<String>::new());
}

// install a version whose bin has a and b, reshim, remove b, reshim again:
// shim b is deleted, shim a keeps its metadata line
#[test]
fn reshim_then_reap_removed_executable() {
    let initial = vec![
        ShimState { name: "a".to_string(), existing: None },
        ShimState { name: "b".to_string(), existing: None },
    ];
    let written = generate_shims_for_version(PROGRAM, "dummy", "0.1.0", &initial);
    assert_eq!(written.len(), 2);
    let shim_a = written[0].1.clone();
    let shim_b = written[1].1.clone();
    assert!(shim_mentions(&shim_a, "dummy", "0.1.0"));
    assert!(shim_mentions(&shim_b, "dummy", "0.1.0"));

    // the executable b disappears from the install; a reshim of all
    // versions reaps the shims that still mention the version
    let shims_mentioning = vec!["a".to_string(), "b".to_string()];
    let current_execs = vec!["a".to_string()];
    let obsolete = obsolete_shim_names(&shims_mentioning, &current_execs);
    assert_eq!(obsolete, vec!["b".to_string()]);

    let b_rewritten = remove_shim_metadata(&shim_b, "dummy", "0.1.0");
    assert!(shim_should_be_deleted(&b_rewritten, 1));

    // shim a is regenerated idempotently and keeps its metadata
    let regenerated = updated_shim_contents(Some(&shim_a), PROGRAM, "dummy", "0.1.0", "a");
    assert_eq!(regenerated, shim_a);
    assert!(shim_mentions(&regenerated, "dummy", "0.1.0"));
}

#[test]
fn version_name_from_dir_translates_leading_ref() {
    assert_eq!(version_name_from_dir("ref-master"), "ref:master");
    assert_eq!(version_name_from_dir("1.0.0"), "1.0.0");
    assert_eq!(version_name_from_dir("custom-ref-x"), "custom-ref-x");
}

#[test]
fn exec_paths_of_a_version() {
    let bins = vec!["bin".to_string(), "tools/bin".to_string()];

    let paths = list_plugin_exec_paths("/d", "foo", "version", "1.0.0", true, &bins);

    assert_eq!(
        paths,
        vec![
            "/d/plugins/foo/shims".to_string(),
            "/d/installs/foo/1.0.0/bin".to_string(),
            "/d/installs/foo/1.0.0/tools/bin".to_string(),
        ]
    );

    let without_shims = list_plugin_exec_paths("/d", "foo", "version", "1.0.0", false, &bins);
    assert_eq!(without_shims.len(), 2);
}

#[test]
fn bin_paths_default_and_split() {
    assert_eq!(list_plugin_bin_paths(None), vec!["bin".to_string()]);
    assert_eq!(
        list_plugin_bin_paths(Some("bin sbin")),
        vec!["bin".to_string(), "sbin".to_string()]
    );
}
