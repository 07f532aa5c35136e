//! The `current` report: which version of a tool is active, where that
//! came from, and whether it is actually installed.

use vstd::prelude::*;

use crate::resolve::{VersionSourceView, VersionSpecifier};
use crate::shims::{first_token, spec_first_token};
use crate::text::{pad_right, spec_pad_right};

verus! {

/// How a `current` line ends up: a usable version, a resolved version
/// that is not installed, or no version at all.
pub enum CurrentOutcome {
    Active,
    NotInstalled,
    NoVersion,
}

/// The text naming a resolution's source: the file path, or the
/// environment variable's name.
pub open spec fn spec_source_text(source: VersionSourceView) -> Seq<char> {
    match source {
        VersionSourceView::ToolVersion(p) => p,
        VersionSourceView::Legacy(p) => p,
        VersionSourceView::EnvVar(n) => n,
    }
}

/// The advice printed when the resolved version is not installed.
pub open spec fn spec_not_installed_text(tool: Seq<char>, first_version: Seq<char>) -> Seq<char> {
    "Not installed. Run \"asdf install "@ + tool + " "@ + first_version + "\""@
}

/// The advice printed when no version is set at all.
pub open spec fn spec_no_version_text(tool: Seq<char>) -> Seq<char> {
    "No version is set. Run \"asdf <global|shell|local> "@ + tool + " <version>\""@
}

/// One aligned report line: tool and version texts padded to fifteen
/// columns, the trailing text to ten.
pub open spec fn spec_report_line(
    tool: Seq<char>,
    version: Seq<char>,
    trailer: Seq<char>,
) -> Seq<char> {
    spec_pad_right(tool, 15) + " "@ + spec_pad_right(version, 15) + " "@ + spec_pad_right(
        trailer,
        10,
    )
}

fn report_line(tool: &str, version: &str, trailer: &str) -> (r: String)
    ensures
        r@ == spec_report_line(tool@, version@, trailer@),
{
    let mut r = pad_right(tool, 15);
    r.append(" ");
    let v = pad_right(version, 15);
    r.append(v.as_str());
    r.append(" ");
    let t = pad_right(trailer, 10);
    r.append(t.as_str());
    proof {
        assert(r@ =~= spec_report_line(tool@, version@, trailer@));
    }
    r
}

/// The `current` line for one tool and what it means.  A resolved and
/// fully installed version shows its source; a resolved version with
/// uninstalled parts shows install advice; an unresolved tool shows
/// placeholder dashes and advice, and maps to the no-version exit.
pub fn current_report(
    plugin_name: &str,
    resolution: Option<&VersionSpecifier>,
    all_installed: bool,
) -> (r: (String, CurrentOutcome))
    ensures
        resolution matches Some(spec) ==> {
            &&& all_installed ==> (r.1 is Active && r.0@ == spec_report_line(
                plugin_name@,
                spec.version@,
                spec_source_text(spec.source@),
            ))
            &&& !all_installed ==> (r.1 is NotInstalled && r.0@ == spec_report_line(
                plugin_name@,
                spec.version@,
                spec_not_installed_text(plugin_name@, spec_first_token(spec.version@)),
            ))
        },
        resolution is None ==> (r.1 is NoVersion && r.0@ == spec_report_line(
            plugin_name@,
            "______"@,
            spec_no_version_text(plugin_name@),
        )),
{
    match resolution {
        Some(spec) => {
            if all_installed {
                let source_text = match &spec.source {
                    crate::resolve::VersionSource::ToolVersion(p) => p.clone(),
                    crate::resolve::VersionSource::Legacy(p) => p.clone(),
                    crate::resolve::VersionSource::EnvVar(n) => n.clone(),
                };
                let line = report_line(plugin_name, spec.version.as_str(), source_text.as_str());
                (line, CurrentOutcome::Active)
            } else {
                let first = first_token(spec.version.as_str());
                let mut advice = String::from_str("Not installed. Run \"asdf install ");
                advice.append(plugin_name);
                advice.append(" ");
                advice.append(first.as_str());
                advice.append("\"");
                proof {
                    assert(advice@ =~= spec_not_installed_text(
                        plugin_name@,
                        spec_first_token(spec.version@),
                    ));
                }
                let line = report_line(plugin_name, spec.version.as_str(), advice.as_str());
                (line, CurrentOutcome::NotInstalled)
            }
        },
        None => {
            let mut advice = String::from_str("No version is set. Run \"asdf <global|shell|local> ");
            advice.append(plugin_name);
            advice.append(" <version>\"");
            proof {
                assert(advice@ =~= spec_no_version_text(plugin_name@));
            }
            let line = report_line(plugin_name, "______", advice.as_str());
            (line, CurrentOutcome::NoVersion)
        },
    }
}

} // verus!
