//! Canonical on-disk locations, honouring environment overrides.
//!
//! Every function here computes a path as a plain string; callers that read
//! the environment hand the override values in, and the binary creates the
//! directories it needs.  All contracts are exact equations over character
//! sequences.

use vstd::prelude::*;

use crate::errors::AsdfError;
use crate::text::{spec_upper, upper_ascii};

verus! {

/// Relies on `dirs::home_dir`: the current user's home directory, when the
/// platform reports one whose path is valid unicode.  The result depends on
/// the environment, so nothing is promised of its value.
#[verifier::external_body]
fn home_dir() -> (r: Option<String>) {
    dirs::home_dir().and_then(|p| p.into_os_string().into_string().ok())
}

/// The data directory: the `ASDF_DATA_DIR` override when set, else
/// `<home>/.asdf`; an error when no home directory is discoverable.
pub fn asdf_data_dir(env_value: Option<String>) -> (r: Result<String, AsdfError>)
    ensures
        env_value matches Some(v) ==> r matches Ok(d) && d@ == v@,
        env_value is None ==> (r matches Ok(d) ==> exists|h: Seq<char>| d@ == #[trigger] (h
            + "/.asdf"@)),
        r is Err ==> env_value is None && r == Err::<String, AsdfError>(AsdfError::NoHomeDir),
{
    match env_value {
        Some(v) => Ok(v),
        None => match home_dir() {
            Some(h) => {
                let mut d = h;
                d.append("/.asdf");
                Ok(d)
            },
            None => Err(AsdfError::NoHomeDir),
        },
    }
}

/// The user rc file: the `ASDF_CONFIG_FILE` override when set, else
/// `<home>/.asdfrc`.
pub fn asdf_config_file(env_value: Option<String>) -> (r: Result<String, AsdfError>)
    ensures
        env_value matches Some(v) ==> r matches Ok(d) && d@ == v@,
        env_value is None ==> (r matches Ok(d) ==> exists|h: Seq<char>| d@ == #[trigger] (h
            + "/.asdfrc"@)),
        r is Err ==> env_value is None && r == Err::<String, AsdfError>(AsdfError::NoHomeDir),
{
    match env_value {
        Some(v) => Ok(v),
        None => match home_dir() {
            Some(h) => {
                let mut d = h;
                d.append("/.asdfrc");
                Ok(d)
            },
            None => Err(AsdfError::NoHomeDir),
        },
    }
}

pub fn shims_path(data_dir: &str) -> (r: String)
    ensures
        r@ == data_dir@ + "/shims"@,
{
    let mut r = String::from_str(data_dir);
    r.append("/shims");
    r
}

pub fn plugins_path(data_dir: &str) -> (r: String)
    ensures
        r@ == data_dir@ + "/plugins"@,
{
    let mut r = String::from_str(data_dir);
    r.append("/plugins");
    r
}

pub fn installs_path(data_dir: &str) -> (r: String)
    ensures
        r@ == data_dir@ + "/installs"@,
{
    let mut r = String::from_str(data_dir);
    r.append("/installs");
    r
}

pub fn downloads_path(data_dir: &str) -> (r: String)
    ensures
        r@ == data_dir@ + "/downloads"@,
{
    let mut r = String::from_str(data_dir);
    r.append("/downloads");
    r
}

pub fn plugin_path(data_dir: &str, plugin_name: &str) -> (r: String)
    ensures
        r@ == data_dir@ + "/plugins/"@ + plugin_name@,
{
    let mut r = String::from_str(data_dir);
    r.append("/plugins/");
    r.append(plugin_name);
    proof {
        assert(r@ =~= data_dir@ + "/plugins/"@ + plugin_name@);
    }
    r
}

pub fn plugin_installs_path(data_dir: &str, plugin_name: &str) -> (r: String)
    ensures
        r@ == data_dir@ + "/installs/"@ + plugin_name@,
{
    let mut r = String::from_str(data_dir);
    r.append("/installs/");
    r.append(plugin_name);
    proof {
        assert(r@ =~= data_dir@ + "/installs/"@ + plugin_name@);
    }
    r
}

pub fn plugin_downloads_path(data_dir: &str, plugin_name: &str) -> (r: String)
    ensures
        r@ == data_dir@ + "/downloads/"@ + plugin_name@,
{
    let mut r = String::from_str(data_dir);
    r.append("/downloads/");
    r.append(plugin_name);
    proof {
        assert(r@ =~= data_dir@ + "/downloads/"@ + plugin_name@);
    }
    r
}

/// Where one installation of `(plugin, install_type, version)` lives:
/// `version` installs under the plugin's install directory, `path` installs
/// use the version string verbatim, and any other install type prefixes the
/// version with `<type>-`.
pub open spec fn spec_install_path(
    data_dir: Seq<char>,
    plugin_name: Seq<char>,
    install_type: Seq<char>,
    version: Seq<char>,
) -> Seq<char> {
    if install_type == "version"@ {
        data_dir + "/installs/"@ + plugin_name + "/"@ + version
    } else if install_type == "path"@ {
        version
    } else {
        data_dir + "/installs/"@ + plugin_name + "/"@ + install_type + "-"@ + version
    }
}

pub fn install_path(data_dir: &str, plugin_name: &str, install_type: &str, version: &str) -> (r:
    String)
    ensures
        r@ == spec_install_path(data_dir@, plugin_name@, install_type@, version@),
{
    if crate::text::eq_str(install_type, "version") {
        let mut r = plugin_installs_path(data_dir, plugin_name);
        r.append("/");
        r.append(version);
        proof {
            assert(r@ =~= data_dir@ + "/installs/"@ + plugin_name@ + "/"@ + version@);
        }
        r
    } else if crate::text::eq_str(install_type, "path") {
        String::from_str(version)
    } else {
        let mut r = plugin_installs_path(data_dir, plugin_name);
        r.append("/");
        r.append(install_type);
        r.append("-");
        r.append(version);
        proof {
            assert(r@ =~= data_dir@ + "/installs/"@ + plugin_name@ + "/"@ + install_type@ + "-"@
                + version@);
        }
        r
    }
}

/// Where the download of `(plugin, install_type, version)` lives; `path`
/// installs own no download directory.
pub open spec fn spec_download_path(
    data_dir: Seq<char>,
    plugin_name: Seq<char>,
    install_type: Seq<char>,
    version: Seq<char>,
) -> Option<Seq<char>> {
    if install_type == "path"@ {
        None
    } else if install_type == "version"@ {
        Some(data_dir + "/downloads/"@ + plugin_name + "/"@ + version)
    } else {
        Some(data_dir + "/downloads/"@ + plugin_name + "/"@ + install_type + "-"@ + version)
    }
}

pub fn download_path(data_dir: &str, plugin_name: &str, install_type: &str, version: &str) -> (r:
    Option<String>)
    ensures
        r.deep_view() == spec_download_path(data_dir@, plugin_name@, install_type@, version@),
{
    if crate::text::eq_str(install_type, "path") {
        None
    } else if crate::text::eq_str(install_type, "version") {
        let mut r = plugin_downloads_path(data_dir, plugin_name);
        r.append("/");
        r.append(version);
        proof {
            assert(r@ =~= data_dir@ + "/downloads/"@ + plugin_name@ + "/"@ + version@);
        }
        Some(r)
    } else {
        let mut r = plugin_downloads_path(data_dir, plugin_name);
        r.append("/");
        r.append(install_type);
        r.append("-");
        r.append(version);
        proof {
            assert(r@ =~= data_dir@ + "/downloads/"@ + plugin_name@ + "/"@ + install_type@ + "-"@
                + version@);
        }
        Some(r)
    }
}

/// The install directory a full version string refers to: none for
/// `system`; the verbatim path for `path:<p>`; `ref-<r>` under the plugin's
/// install directory for `ref:<r>`; otherwise a plain version directory.
/// A colon with an unrecognised prefix keeps only what follows the colon,
/// as a plain version.
pub open spec fn spec_find_install_path(
    data_dir: Seq<char>,
    plugin_name: Seq<char>,
    version: Seq<char>,
) -> Option<Seq<char>> {
    if version == "system"@ {
        None
    } else if crate::text::spec_find(version, ':') == -1 {
        Some(spec_install_path(data_dir, plugin_name, "version"@, version))
    } else {
        let i = crate::text::spec_find(version, ':');
        let prefix = version.take(i);
        let rest = version.skip(i + 1);
        if prefix == "ref"@ {
            Some(spec_install_path(data_dir, plugin_name, "ref"@, rest))
        } else if prefix == "path"@ {
            Some(rest)
        } else {
            Some(spec_install_path(data_dir, plugin_name, "version"@, rest))
        }
    }
}

pub fn find_install_path(data_dir: &str, plugin_name: &str, version: &str) -> (r: Option<String>)
    ensures
        r.deep_view() == spec_find_install_path(data_dir@, plugin_name@, version@),
{
    if crate::text::eq_str(version, "system") {
        return None;
    }
    let n = version.unicode_len();
    match crate::text::find_char(version, ':') {
        None => Some(install_path(data_dir, plugin_name, "version", version)),
        Some(i) => {
            proof {
                crate::text::lemma_find(version@, ':');
            }
            let prefix = crate::text::substr(version, 0, i);
            let rest = crate::text::substr(version, i + 1, n);
            if crate::text::eq_str(prefix.as_str(), "ref") {
                Some(install_path(data_dir, plugin_name, "ref", rest.as_str()))
            } else if crate::text::eq_str(prefix.as_str(), "path") {
                Some(rest)
            } else {
                Some(install_path(data_dir, plugin_name, "version", rest.as_str()))
            }
        },
    }
}

/// The text printed when a version is asked for but not installed.
pub fn version_not_installed_text(plugin_name: &str, version: &str) -> (r: String)
    ensures
        r@ == "version "@ + version@ + " is not installed for "@ + plugin_name@,
{
    let mut r = String::from_str("version ");
    r.append(version);
    r.append(" is not installed for ");
    r.append(plugin_name);
    proof {
        assert(r@ =~= "version "@ + version@ + " is not installed for "@ + plugin_name@);
    }
    r
}

/// The environment variable that overrides resolution for a tool:
/// `ASDF_<TOOL>_VERSION`, with the tool name upper-cased.
pub fn env_var_for_plugin(plugin_name: &str) -> (r: String)
    ensures
        r@ == "ASDF_"@ + spec_upper(plugin_name@) + "_VERSION"@,
{
    let mut r = String::from_str("ASDF_");
    let upper = upper_ascii(plugin_name);
    r.append(upper.as_str());
    r.append("_VERSION");
    proof {
        assert(r@ =~= "ASDF_"@ + spec_upper(plugin_name@) + "_VERSION"@);
    }
    r
}

} // verus!
