//! The error taxonomy of the core.
//!
//! Every failure the verified logic can decide on is one of these variants;
//! the binary maps `NoVersionSet` and `UnknownShim` to exit code 126 and
//! prints the message of any other variant on stderr.

use vstd::prelude::*;

use crate::text::spec_join;

verus! {

#[derive(Debug, Clone, PartialEq, Eq)]
pub enum AsdfError {
    /// An empty plugin name was given.
    NoPluginGiven,
    /// The named plugin directory does not exist.
    NoSuchPlugin(String),
    /// The install directory for (tool, version) does not exist.
    VersionNotInstalled(String, String),
    /// No version could be resolved for the tool.
    NoVersionSet(String),
    /// The named shim file does not exist.
    UnknownShim(String),
    /// A line of a configuration or version file could not be parsed;
    /// carries the parsing context and the offending line.
    ParseError(String, String),
    /// A plugin callback script exited non-zero; carries the tool,
    /// the callback name, its stdout and its stderr.
    PluginCallbackFailed(String, String, String, String),
    /// A config key was looked up that is absent and has no default.
    ConfigKeyMissing(String),
    /// No home directory is discoverable and no override is set.
    NoHomeDir,
    /// No version of the tool satisfies the query; carries tool and query.
    NoCompatibleVersions(String, String),
    /// A batch install was asked for with no plugins installed.
    NoPluginsInstalled,
    /// The nearest tool-versions file declares plugins that are not
    /// installed; carries their names.
    PluginsNotInstalled(Vec<String>),
    /// A batch install found nothing to install: no installed plugin has a
    /// resolved version.
    NothingToInstall,
}

/// The one-line message each error prints on stderr.
pub open spec fn spec_message(e: AsdfError) -> Seq<char> {
    match e {
        AsdfError::NoPluginGiven => "No plugin given"@,
        AsdfError::NoSuchPlugin(n) => "No such plugin: "@ + n@,
        AsdfError::VersionNotInstalled(p, v) => "version "@ + v@ + " is not installed for "@
            + p@,
        AsdfError::NoVersionSet(_) => "No plugin version set"@,
        AsdfError::UnknownShim(n) => "unknown command: "@ + n@ + ". Perhaps you have to reshim?"@,
        AsdfError::ParseError(context, line) => "Cannot parse "@ + context@ + ": "@ + line@,
        AsdfError::PluginCallbackFailed(tool, callback, stdout, stderr) => "Plugin "@ + tool@
            + "'s "@ + callback@ + " callback script failed with output:\n"@ + stderr@ + "\n"@
            + stdout@,
        AsdfError::ConfigKeyMissing(k) => "Key "@ + k@ + " not found in config file"@,
        AsdfError::NoHomeDir => "Cannot find home directory"@,
        AsdfError::NoCompatibleVersions(t, q) => "No compatible versions available ("@ + t@
            + " "@ + q@ + ")"@,
        AsdfError::NoPluginsInstalled => "Install plugins first to be able to install tools"@,
        AsdfError::PluginsNotInstalled(m) => spec_join(
            m.deep_view().map_values(|p: Seq<char>| p + " plugin is not installed"@),
            '\n',
        ),
        AsdfError::NothingToInstall =>
            "Either specify a tool & version in the command\nOR add .tool-versions file in this directory\nor in a parent directory"@,
    }
}

impl AsdfError {
    /// The message this error prints.
    pub fn message(&self) -> (r: String)
        ensures
            r@ == spec_message(*self),
    {
        match self {
            AsdfError::NoPluginGiven => String::from_str("No plugin given"),
            AsdfError::NoSuchPlugin(n) => {
                let mut r = String::from_str("No such plugin: ");
                r.append(n.as_str());
                r
            },
            AsdfError::VersionNotInstalled(p, v) => {
                let mut r = String::from_str("version ");
                r.append(v.as_str());
                r.append(" is not installed for ");
                r.append(p.as_str());
                proof {
                    assert(r@ =~= "version "@ + v@ + " is not installed for "@ + p@);
                }
                r
            },
            AsdfError::NoVersionSet(_) => String::from_str("No plugin version set"),
            AsdfError::UnknownShim(n) => {
                let mut r = String::from_str("unknown command: ");
                r.append(n.as_str());
                r.append(". Perhaps you have to reshim?");
                proof {
                    assert(r@ =~= "unknown command: "@ + n@ + ". Perhaps you have to reshim?"@);
                }
                r
            },
            AsdfError::ParseError(context, line) => {
                let mut r = String::from_str("Cannot parse ");
                r.append(context.as_str());
                r.append(": ");
                r.append(line.as_str());
                proof {
                    assert(r@ =~= "Cannot parse "@ + context@ + ": "@ + line@);
                }
                r
            },
            AsdfError::PluginCallbackFailed(tool, callback, stdout, stderr) => {
                let mut r = String::from_str("Plugin ");
                r.append(tool.as_str());
                r.append("'s ");
                r.append(callback.as_str());
                r.append(" callback script failed with output:\n");
                r.append(stderr.as_str());
                r.append("\n");
                r.append(stdout.as_str());
                proof {
                    assert(r@ =~= "Plugin "@ + tool@ + "'s "@ + callback@
                        + " callback script failed with output:\n"@ + stderr@ + "\n"@ + stdout@);
                }
                r
            },
            AsdfError::ConfigKeyMissing(k) => {
                let mut r = String::from_str("Key ");
                r.append(k.as_str());
                r.append(" not found in config file");
                proof {
                    assert(r@ =~= "Key "@ + k@ + " not found in config file"@);
                }
                r
            },
            AsdfError::NoHomeDir => String::from_str("Cannot find home directory"),
            AsdfError::NoCompatibleVersions(t, q) => {
                let mut r = String::from_str("No compatible versions available (");
                r.append(t.as_str());
                r.append(" ");
                r.append(q.as_str());
                r.append(")");
                proof {
                    assert(r@ =~= "No compatible versions available ("@ + t@ + " "@ + q@ + ")"@);
                }
                r
            },
            AsdfError::NoPluginsInstalled => String::from_str(
                "Install plugins first to be able to install tools",
            ),
            AsdfError::PluginsNotInstalled(m) => {
                let ghost mv = m.deep_view();
                let mut lines: Vec<String> = Vec::new();
                let mut i: usize = 0;
                proof {
                    assert(lines.deep_view() =~~= mv.take(0).map_values(
                        |p: Seq<char>| p + " plugin is not installed"@,
                    ));
                }
                while i < m.len()
                    invariant
                        mv == m.deep_view(),
                        mv.len() == m@.len(),
                        i <= m@.len(),
                        lines@.len() == i,
                        lines.deep_view() == mv.take(i as int).map_values(
                            |p: Seq<char>| p + " plugin is not installed"@,
                        ),
                    decreases m@.len() - i,
                {
                    proof {
                        assert(mv[i as int] == m@[i as int]@);
                    }
                    let mut line = m[i].clone();
                    line.append(" plugin is not installed");
                    let ghost before = lines.deep_view();
                    let ghost lv = line@;
                    lines.push(line);
                    proof {
                        assert(lines.deep_view() =~= before.push(lv));
                        assert(mv.take(i + 1) =~= mv.take(i as int).push(mv[i as int]));
                        assert(lines.deep_view() =~~= mv.take(i + 1).map_values(
                            |p: Seq<char>| p + " plugin is not installed"@,
                        ));
                    }
                    i = i + 1;
                }
                proof {
                    assert(mv.take(mv.len() as int) =~= mv);
                }
                crate::text::join_char(&lines, '\n')
            },
            AsdfError::NothingToInstall => String::from_str(
                "Either specify a tool & version in the command\nOR add .tool-versions file in this directory\nor in a parent directory",
            ),
        }
    }
}

} // verus!
