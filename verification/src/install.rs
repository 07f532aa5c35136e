//! Install planning.
//!
//! Installing one `(tool, version)` is a fixed sequence of outside steps —
//! hooks, the plugin's `download` and `install` callbacks, cleanup,
//! reshim.  What those steps are, with which paths and environment, and
//! when nothing at all must happen, is decided and proved here; the
//! binary only carries the plan out in order.

use vstd::prelude::*;

use crate::errors::AsdfError;
use crate::paths::{spec_download_path, spec_install_path};
use crate::text::{eq_str, spec_decimal, spec_split, split_char, usize_to_string};
use crate::tool_versions::{ToolVersion, ToolVersionView};

verus! {

/// Relies on `num_cpus::get`: the number of logical CPUs available to
/// this process, exported to plugin build scripts as `ASDF_CONCURRENCY`.
/// The value depends on the machine, so nothing is promised of it.
#[verifier::external_body]
pub fn concurrency() -> usize {
    num_cpus::get()
}

/// The steps of one real installation, in order: optionally run the
/// `download` callback, run the `install` callback, optionally delete the
/// download directory, reshim, with the pre/post hooks around them.
#[derive(Debug, Clone, PartialEq, Eq)]
pub struct InstallSteps {
    pub install_type: String,
    pub version: String,
    pub install_path: String,
    pub download_path: Option<String>,
    pub run_download: bool,
    pub remove_download_after: bool,
    pub concurrency: usize,
}

/// What an install request amounts to.
#[derive(Debug, Clone, PartialEq, Eq)]
pub enum InstallOutcome {
    /// `system` and `path:` versions install nothing.
    NothingToDo,
    /// The install directory already exists; nothing changes on disk.
    AlreadyInstalled,
    /// A real installation with its computed steps.
    Install(InstallSteps),
}

/// The literal version an installation is named after.
pub open spec fn spec_resolved_version(
    tv: ToolVersionView,
    resolved_latest: Option<Seq<char>>,
) -> Option<Seq<char>> {
    match tv {
        ToolVersionView::Latest(_) => resolved_latest,
        ToolVersionView::Version(v) => Some(v),
        ToolVersionView::Ref(v) => Some(v),
        ToolVersionView::Path(_) => None,
        ToolVersionView::System => None,
    }
}

/// Plan the installation of one `(tool, full_version)`.  Idempotence is
/// part of the contract: when the install directory already exists the
/// plan is `AlreadyInstalled`, which performs no step and changes nothing
/// on disk.
pub fn plan_install(
    data_dir: &str,
    plugin_name: &str,
    full_version: &str,
    resolved_latest: Option<String>,
    plugin_dir_is_dir: bool,
    already_installed: bool,
    has_download_script: bool,
    keep_download: bool,
    always_keep_download: Option<&str>,
) -> (r: Result<InstallOutcome, AsdfError>)
    ensures
        plugin_name@.len() == 0 ==> r == Err::<InstallOutcome, AsdfError>(AsdfError::NoPluginGiven),
        plugin_name@.len() > 0 && !plugin_dir_is_dir ==> (r matches Err(e) && e matches
            AsdfError::NoSuchPlugin(n) && n@ == plugin_name@),
        plugin_name@.len() > 0 && plugin_dir_is_dir ==> {
            &&& full_version@ == "system"@ ==> (r matches Ok(o) && o is NothingToDo)
            &&& full_version@ != "system"@ && full_version@.len() == 0 ==> (r matches Err(e) && e
                matches AsdfError::ParseError(_, _))
            &&& full_version@ != "system"@ && full_version@.len() > 0 ==> {
                let tv = crate::tool_versions::spec_parse_version(full_version@);
                &&& tv matches ToolVersionView::Path(_) ==> (r matches Ok(o) && o is NothingToDo)
                &&& (tv matches ToolVersionView::Latest(_) && resolved_latest is None) ==> (r
                    matches Err(e) && e matches AsdfError::NoCompatibleVersions(n, _) && n@
                    == plugin_name@)
                &&& spec_resolved_version(tv, resolved_latest.deep_view()) matches Some(version)
                    ==> {
                    &&& already_installed ==> (r matches Ok(o) && o is AlreadyInstalled)
                    &&& !already_installed ==> (r matches Ok(o) && o matches
                        InstallOutcome::Install(steps) && {
                        &&& steps.install_type@ == ToolVersion::spec_install_type(tv)
                        &&& steps.version@ == version
                        &&& steps.install_path@ == spec_install_path(
                            data_dir@,
                            plugin_name@,
                            ToolVersion::spec_install_type(tv),
                            version,
                        )
                        &&& steps.download_path.deep_view() == spec_download_path(
                            data_dir@,
                            plugin_name@,
                            ToolVersion::spec_install_type(tv),
                            version,
                        )
                        &&& steps.run_download == has_download_script
                        &&& steps.remove_download_after == (!keep_download && !(
                        always_keep_download matches Some(v) && v@ == "yes"@))
                    })
                }
            }
        },
{
    match crate::plugins::plugin_exists(plugin_name, plugin_dir_is_dir) {
        Err(e) => {
            return Err(e);
        },
        Ok(_) => {},
    }
    if eq_str(full_version, "system") {
        return Ok(InstallOutcome::NothingToDo);
    }
    let tv = match ToolVersion::parse(full_version) {
        Err(e) => {
            return Err(e);
        },
        Ok(tv) => tv,
    };
    match &tv {
        ToolVersion::Path(_) => {
            return Ok(InstallOutcome::NothingToDo);
        },
        _ => {},
    }
    let is_latest = match &tv {
        ToolVersion::Latest(_) => true,
        _ => false,
    };
    if is_latest && resolved_latest.is_none() {
        return Err(
            AsdfError::NoCompatibleVersions(
                String::from_str(plugin_name),
                String::from_str(full_version),
            ),
        );
    }
    let version = match tv.install_version(resolved_latest) {
        Some(v) => v,
        None => {
            // only `Path` and `System` name no version, and both returned
            // above
            proof {
                assert(false);
            }
            return Err(AsdfError::NoPluginGiven);
        },
    };
    if already_installed {
        return Ok(InstallOutcome::AlreadyInstalled);
    }
    let install_type = tv.install_type();
    let install_path = crate::paths::install_path(
        data_dir,
        plugin_name,
        install_type.as_str(),
        version.as_str(),
    );
    let download_path = crate::paths::download_path(
        data_dir,
        plugin_name,
        install_type.as_str(),
        version.as_str(),
    );
    let keep_by_config = match always_keep_download {
        Some(v) => eq_str(v, "yes"),
        None => false,
    };
    Ok(
        InstallOutcome::Install(
            InstallSteps {
                install_type,
                version,
                install_path,
                download_path,
                run_download: has_download_script,
                remove_download_after: !keep_download && !keep_by_config,
                concurrency: concurrency(),
            },
        ),
    )
}

/// The environment exported to an install, download or bin-paths
/// callback: the install type, version and path, the download path when
/// one exists, and the concurrency for the install callback.
pub fn callback_env(
    install_type: &str,
    version: &str,
    install_path: &str,
    download_path: Option<&str>,
    concurrency_value: Option<usize>,
) -> (r: Vec<(String, String)>)
    ensures
        r.deep_view() == {
            let base = seq![
                ("ASDF_INSTALL_TYPE"@, install_type@),
                ("ASDF_INSTALL_VERSION"@, version@),
                ("ASDF_INSTALL_PATH"@, install_path@),
            ];
            let with_download = match download_path {
                Some(d) => base.push(("ASDF_DOWNLOAD_PATH"@, d@)),
                None => base,
            };
            match concurrency_value {
                Some(c) => with_download.push(("ASDF_CONCURRENCY"@, spec_decimal(c as nat))),
                None => with_download,
            }
        },
{
    let mut r: Vec<(String, String)> = Vec::new();
    r.push((String::from_str("ASDF_INSTALL_TYPE"), String::from_str(install_type)));
    r.push((String::from_str("ASDF_INSTALL_VERSION"), String::from_str(version)));
    r.push((String::from_str("ASDF_INSTALL_PATH"), String::from_str(install_path)));
    match download_path {
        Some(d) => {
            r.push((String::from_str("ASDF_DOWNLOAD_PATH"), String::from_str(d)));
        },
        None => {},
    }
    match concurrency_value {
        Some(c) => {
            r.push((String::from_str("ASDF_CONCURRENCY"), usize_to_string(c)));
        },
        None => {},
    }
    proof {
        let base = seq![
            ("ASDF_INSTALL_TYPE"@, install_type@),
            ("ASDF_INSTALL_VERSION"@, version@),
            ("ASDF_INSTALL_PATH"@, install_path@),
        ];
        let with_download = match download_path {
            Some(d) => base.push(("ASDF_DOWNLOAD_PATH"@, d@)),
            None => base,
        };
        let full = match concurrency_value {
            Some(c) => with_download.push(("ASDF_CONCURRENCY"@, spec_decimal(c as nat))),
            None => with_download,
        };
        assert(r.deep_view() =~~= full);
    }
    r
}

/// The name of a lifecycle hook: the fixed prefix followed by the tool.
pub fn hook_name(prefix: &str, plugin_name: &str) -> (r: String)
    ensures
        r@ == prefix@ + plugin_name@,
{
    let mut r = String::from_str(prefix);
    r.append(plugin_name);
    r
}

/// What installing one tool from its resolution amounts to: each
/// space-separated token of the resolved version text is installed in
/// order; an unresolved tool is refused.
pub fn install_one_local_tool(
    plugin_name: &str,
    resolution: Option<&crate::resolve::VersionSpecifier>,
) -> (r: Result<Vec<String>, AsdfError>)
    ensures
        resolution matches Some(spec) ==> (r matches Ok(v) && v.deep_view() == spec_split(
            spec.version@,
            ' ',
        )),
        resolution is None ==> (r matches Err(e) && e matches AsdfError::NoVersionSet(n) && n@
            == plugin_name@),
{
    match resolution {
        Some(spec) => Ok(split_char(spec.version.as_str(), ' ')),
        None => Err(AsdfError::NoVersionSet(String::from_str(plugin_name))),
    }
}

/// The `(tool, version)` pairs one resolved tool contributes to a batch
/// install.
pub open spec fn spec_pairs_for(p: Seq<char>, res: Option<crate::resolve::VersionSpecifierView>) -> Seq<
    (Seq<char>, Seq<char>),
> {
    match res {
        Some(s) => spec_split(s.version, ' ').map_values(|t: Seq<char>| (p, t)),
        None => Seq::<(Seq<char>, Seq<char>)>::empty(),
    }
}

/// All pairs of a batch install, tools in order.
pub open spec fn spec_install_pairs(
    plugins: Seq<Seq<char>>,
    resolutions: Seq<Option<crate::resolve::VersionSpecifierView>>,
) -> Seq<(Seq<char>, Seq<char>)>
    decreases plugins.len(),
{
    if plugins.len() == 0 || resolutions.len() == 0 {
        Seq::<(Seq<char>, Seq<char>)>::empty()
    } else {
        spec_pairs_for(plugins[0], resolutions[0]) + spec_install_pairs(
            plugins.drop_first(),
            resolutions.drop_first(),
        )
    }
}

/// Whether any tool resolved at all.
pub open spec fn spec_any_resolved(
    resolutions: Seq<Option<crate::resolve::VersionSpecifierView>>,
) -> bool {
    exists|i: int| 0 <= i < resolutions.len() && resolutions[i] is Some
}

/// Plan a batch install of every locally declared tool.  It refuses to
/// run with no plugins installed, refuses when the nearest tool-versions
/// file declares a plugin that is not installed, asks for at least one
/// resolved tool, and otherwise installs every resolved version of every
/// installed plugin, in order.
pub fn install_local_plan(
    installed_plugins: &Vec<String>,
    declared_tools: &Vec<String>,
    resolutions: &Vec<Option<crate::resolve::VersionSpecifier>>,
) -> (r: Result<Vec<(String, String)>, AsdfError>)
    requires
        resolutions@.len() == installed_plugins@.len(),
    ensures
        installed_plugins@.len() == 0 ==> r == Err::<Vec<(String, String)>, AsdfError>(
            AsdfError::NoPluginsInstalled,
        ),
        installed_plugins@.len() > 0 && declared_tools.deep_view().filter(
            |t: Seq<char>| !installed_plugins.deep_view().contains(t),
        ).len() > 0 ==> (r matches Err(e) && e matches AsdfError::PluginsNotInstalled(m)
            && m.deep_view() == declared_tools.deep_view().filter(
            |t: Seq<char>| !installed_plugins.deep_view().contains(t),
        )),
        installed_plugins@.len() > 0 && declared_tools.deep_view().filter(
            |t: Seq<char>| !installed_plugins.deep_view().contains(t),
        ).len() == 0 ==> {
            &&& !spec_any_resolved(resolutions.deep_view()) ==> r == Err::<
                Vec<(String, String)>,
                AsdfError,
            >(AsdfError::NothingToInstall)
            &&& spec_any_resolved(resolutions.deep_view()) ==> (r matches Ok(pairs)
                && pairs.deep_view() == spec_install_pairs(
                installed_plugins.deep_view(),
                resolutions.deep_view(),
            ))
        },
{
    if installed_plugins.len() == 0 {
        return Err(AsdfError::NoPluginsInstalled);
    }
    let ghost iv = installed_plugins.deep_view();
    let ghost dv = declared_tools.deep_view();
    let missing = crate::shims::obsolete_shim_names(declared_tools, installed_plugins);
    if missing.len() > 0 {
        proof {
            assert(missing.deep_view().len() == missing@.len());
        }
        return Err(AsdfError::PluginsNotInstalled(missing));
    }
    proof {
        assert(missing.deep_view().len() == missing@.len());
    }
    let ghost rv = resolutions.deep_view();
    let mut pairs: Vec<(String, String)> = Vec::new();
    let mut any = false;
    proof {
        assert(iv.skip(0) =~= iv);
        assert(rv.skip(0) =~= rv);
        assert(pairs.deep_view() =~= Seq::<(Seq<char>, Seq<char>)>::empty());
    }
    let mut i: usize = 0;
    while i < installed_plugins.len()
        invariant
            iv == installed_plugins.deep_view(),
            rv == resolutions.deep_view(),
            iv.len() == installed_plugins@.len(),
            rv.len() == iv.len(),
            i <= iv.len(),
            any == exists|k: int| 0 <= k < i && rv[k] is Some,
            spec_install_pairs(iv, rv) == pairs.deep_view() + spec_install_pairs(
                iv.skip(i as int),
                rv.skip(i as int),
            ),
        decreases iv.len() - i,
    {
        proof {
            assert(iv[i as int] == installed_plugins@[i as int]@);
            assert(rv[i as int] == resolutions@[i as int].deep_view());
            assert(iv.skip(i as int)[0] == iv[i as int]);
            assert(rv.skip(i as int)[0] == rv[i as int]);
            assert(iv.skip(i as int).drop_first() =~= iv.skip(i + 1));
            assert(rv.skip(i as int).drop_first() =~= rv.skip(i + 1));
        }
        match &resolutions[i] {
            Some(spec) => {
                any = true;
                let tokens = split_char(spec.version.as_str(), ' ');
                let ghost tv = spec_split(rv[i as int]->Some_0.version, ' ');
                let mut j: usize = 0;
                let ghost before = pairs.deep_view();
                proof {
                    assert(tokens.deep_view() == tv);
                    assert(before + tv.take(0).map_values(
                        |t: Seq<char>| (iv[i as int], t),
                    ) =~= before);
                }
                while j < tokens.len()
                    invariant
                        tv == tokens.deep_view(),
                        tv.len() == tokens@.len(),
                        j <= tv.len(),
                        0 <= i < iv.len(),
                        iv == installed_plugins.deep_view(),
                        iv.len() == installed_plugins@.len(),
                        pairs.deep_view() == before + tv.take(j as int).map_values(
                            |t: Seq<char>| (iv[i as int], t),
                        ),
                    decreases tv.len() - j,
                {
                    proof {
                        assert(tv[j as int] == tokens@[j as int]@);
                    }
                    let ghost mid = pairs.deep_view();
                    pairs.push((installed_plugins[i].clone(), tokens[j].clone()));
                    proof {
                        assert(pairs.deep_view() =~= mid.push((iv[i as int], tv[j as int])));
                        assert(tv.take(j + 1) =~= tv.take(j as int).push(tv[j as int]));
                        assert(pairs.deep_view() =~~= before + tv.take(j + 1).map_values(
                            |t: Seq<char>| (iv[i as int], t),
                        ));
                    }
                    j = j + 1;
                }
                proof {
                    assert(tv.take(tv.len() as int) =~= tv);
                    assert(pairs.deep_view() =~= before + spec_pairs_for(
                        iv[i as int],
                        rv[i as int],
                    ));
                }
            },
            None => {
                proof {
                    assert(spec_pairs_for(iv[i as int], rv[i as int]) =~= Seq::<
                        (Seq<char>, Seq<char>),
                    >::empty());
                    assert(pairs.deep_view() + spec_pairs_for(iv[i as int], rv[i as int])
                        =~= pairs.deep_view());
                }
            },
        }
        i = i + 1;
    }
    proof {
        assert(iv.skip(iv.len() as int).len() == 0);
        assert(pairs.deep_view() + spec_install_pairs(iv.skip(iv.len() as int), rv.skip(
            iv.len() as int,
        )) =~= pairs.deep_view());
    }
    if !any {
        return Err(AsdfError::NothingToInstall);
    }
    Ok(pairs)
}

} // verus!
