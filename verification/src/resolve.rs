//! Version resolution with provenance.
//!
//! Given a tool and what the world looks like — the override environment
//! variable, the directory chain from the working directory upward (with
//! the home directory appended), and the default tool-versions file — the
//! resolver picks the authoritative version text and records where it came
//! from.  The binary gathers the file contents and legacy callback results
//! and hands them in; everything decided here is proved.

use vstd::prelude::*;

use crate::text::{spec_split, spec_upper};
use crate::tool_versions::{parse_asdf_version_file, spec_version_for_tool};

verus! {

/// Where a resolved version came from.
#[derive(Debug, Clone, PartialEq, Eq)]
pub enum VersionSource {
    /// A `.tool-versions` file at the carried path.
    ToolVersion(String),
    /// A legacy per-tool version file at the carried path.
    Legacy(String),
    /// The override environment variable with the carried name.
    EnvVar(String),
}

/// A resolved version: the raw version text a source declared (it may
/// hold several space-separated specifiers) and its provenance.
#[derive(Debug, Clone, PartialEq, Eq)]
pub struct VersionSpecifier {
    pub version: String,
    pub source: VersionSource,
}

pub enum VersionSourceView {
    ToolVersion(Seq<char>),
    Legacy(Seq<char>),
    EnvVar(Seq<char>),
}

pub struct VersionSpecifierView {
    pub version: Seq<char>,
    pub source: VersionSourceView,
}

impl View for VersionSource {
    type V = VersionSourceView;

    open spec fn view(&self) -> VersionSourceView {
        match self {
            VersionSource::ToolVersion(p) => VersionSourceView::ToolVersion(p@),
            VersionSource::Legacy(p) => VersionSourceView::Legacy(p@),
            VersionSource::EnvVar(n) => VersionSourceView::EnvVar(n@),
        }
    }
}

impl DeepView for VersionSource {
    type V = VersionSourceView;

    open spec fn deep_view(&self) -> VersionSourceView {
        self.view()
    }
}

impl View for VersionSpecifier {
    type V = VersionSpecifierView;

    open spec fn view(&self) -> VersionSpecifierView {
        VersionSpecifierView { version: self.version@, source: self.source@ }
    }
}

impl DeepView for VersionSpecifier {
    type V = VersionSpecifierView;

    open spec fn deep_view(&self) -> VersionSpecifierView {
        self.view()
    }
}

/// One legacy version file found in a directory: its path and, when the
/// file exists, the version the plugin parsed out of it (or its verbatim
/// contents when the plugin has no parser).
#[derive(Debug, Clone, PartialEq, Eq)]
pub struct LegacyFile {
    pub path: String,
    pub value: Option<String>,
}

pub struct LegacyFileView {
    pub path: Seq<char>,
    pub value: Option<Seq<char>>,
}

impl View for LegacyFile {
    type V = LegacyFileView;

    open spec fn view(&self) -> LegacyFileView {
        LegacyFileView { path: self.path@, value: self.value.deep_view() }
    }
}

impl DeepView for LegacyFile {
    type V = LegacyFileView;

    open spec fn deep_view(&self) -> LegacyFileView {
        self.view()
    }
}

/// What one directory of the search chain shows: its path, the contents
/// of its `.tool-versions` file when that exists, and the legacy version
/// files looked for there, in the order the plugin listed their names.
#[derive(Debug, Clone, PartialEq, Eq)]
pub struct DirLookup {
    pub dir: String,
    pub tool_versions: Option<String>,
    pub legacy: Vec<LegacyFile>,
}

pub struct DirLookupView {
    pub dir: Seq<char>,
    pub tool_versions: Option<Seq<char>>,
    pub legacy: Seq<LegacyFileView>,
}

impl View for DirLookup {
    type V = DirLookupView;

    open spec fn view(&self) -> DirLookupView {
        DirLookupView {
            dir: self.dir@,
            tool_versions: self.tool_versions.deep_view(),
            legacy: self.legacy.deep_view(),
        }
    }
}

impl DeepView for DirLookup {
    type V = DirLookupView;

    open spec fn deep_view(&self) -> DirLookupView {
        self.view()
    }
}

/// A file given by path and contents, such as the default tool-versions
/// file named by `ASDF_DEFAULT_TOOL_VERSIONS_FILENAME`.
#[derive(Debug, Clone, PartialEq, Eq)]
pub struct FileLookup {
    pub path: String,
    pub contents: String,
}

pub struct FileLookupView {
    pub path: Seq<char>,
    pub contents: Seq<char>,
}

impl View for FileLookup {
    type V = FileLookupView;

    open spec fn view(&self) -> FileLookupView {
        FileLookupView { path: self.path@, contents: self.contents@ }
    }
}

impl DeepView for FileLookup {
    type V = FileLookupView;

    open spec fn deep_view(&self) -> FileLookupView {
        self.view()
    }
}

/// The first legacy file that exists and parsed to a non-empty version.
pub open spec fn spec_first_legacy(legacy: Seq<LegacyFileView>) -> Option<VersionSpecifierView>
    decreases legacy.len(),
{
    if legacy.len() == 0 {
        None
    } else {
        match legacy[0].value {
            Some(v) => if v.len() > 0 {
                Some(
                    VersionSpecifierView {
                        version: v,
                        source: VersionSourceView::Legacy(legacy[0].path),
                    },
                )
            } else {
                spec_first_legacy(legacy.drop_first())
            },
            None => spec_first_legacy(legacy.drop_first()),
        }
    }
}

/// What one directory resolves to: its `.tool-versions` declaration when
/// it names the tool, else its first usable legacy file.
pub open spec fn spec_version_in_dir(tool: Seq<char>, d: DirLookupView) -> Option<
    VersionSpecifierView,
> {
    let from_file = match d.tool_versions {
        Some(c) => spec_version_for_tool(spec_split(c, '\n'), tool),
        None => None,
    };
    match from_file {
        Some(v) => Some(
            VersionSpecifierView {
                version: v,
                source: VersionSourceView::ToolVersion(d.dir + "/.tool-versions"@),
            },
        ),
        None => spec_first_legacy(d.legacy),
    }
}

/// The first directory of the chain that resolves.
pub open spec fn spec_resolve_chain(tool: Seq<char>, chain: Seq<DirLookupView>) -> Option<
    VersionSpecifierView,
>
    decreases chain.len(),
{
    if chain.len() == 0 {
        None
    } else {
        match spec_version_in_dir(tool, chain[0]) {
            Some(r) => Some(r),
            None => spec_resolve_chain(tool, chain.drop_first()),
        }
    }
}

/// The whole resolution order: the override environment variable beats
/// every file; then the chain, nearest directory first; then the default
/// tool-versions file.
pub open spec fn spec_find_versions(
    tool: Seq<char>,
    env_version: Option<Seq<char>>,
    chain: Seq<DirLookupView>,
    default_file: Option<FileLookupView>,
) -> Option<VersionSpecifierView> {
    match env_version {
        Some(v) => Some(
            VersionSpecifierView {
                version: v,
                source: VersionSourceView::EnvVar("ASDF_"@ + spec_upper(tool) + "_VERSION"@),
            },
        ),
        None => match spec_resolve_chain(tool, chain) {
            Some(r) => Some(r),
            None => match default_file {
                Some(f) => match spec_version_for_tool(spec_split(f.contents, '\n'), tool) {
                    Some(v) => Some(
                        VersionSpecifierView {
                            version: v,
                            source: VersionSourceView::ToolVersion(f.path),
                        },
                    ),
                    None => None,
                },
                None => None,
            },
        },
    }
}

/// Resolve within one directory.
pub fn version_in_dir(plugin_name: &str, dir: &DirLookup) -> (r: Option<VersionSpecifier>)
    ensures
        r.deep_view() == spec_version_in_dir(plugin_name@, dir@),
{
    match &dir.tool_versions {
        Some(c) => {
            match parse_asdf_version_file(c.as_str(), plugin_name) {
                Some(v) => {
                    let mut path = dir.dir.clone();
                    path.append("/.tool-versions");
                    return Some(
                        VersionSpecifier { version: v, source: VersionSource::ToolVersion(path) },
                    );
                },
                None => {},
            }
        },
        None => {},
    }
    let ghost lv = dir@.legacy;
    proof {
        assert(lv.skip(0) =~= lv);
        assert(spec_version_in_dir(plugin_name@, dir@) == spec_first_legacy(lv));
    }
    let mut i: usize = 0;
    while i < dir.legacy.len()
        invariant
            lv == dir@.legacy,
            lv.len() == dir.legacy@.len(),
            i <= dir.legacy@.len(),
            spec_version_in_dir(plugin_name@, dir@) == spec_first_legacy(lv.skip(i as int)),
        decreases dir.legacy@.len() - i,
    {
        proof {
            assert(lv[i as int] == dir.legacy@[i as int]@);
            assert(lv.skip(i as int)[0] == lv[i as int]);
            assert(lv.skip(i as int).drop_first() =~= lv.skip(i + 1));
        }
        match &dir.legacy[i].value {
            Some(v) => {
                if v.as_str().unicode_len() > 0 {
                    return Some(
                        VersionSpecifier {
                            version: v.clone(),
                            source: VersionSource::Legacy(dir.legacy[i].path.clone()),
                        },
                    );
                }
            },
            None => {},
        }
        i = i + 1;
    }
    proof {
        assert(lv.skip(lv.len() as int) =~= Seq::<LegacyFileView>::empty());
    }
    None
}

/// Resolve a tool against the whole search order.  Setting the override
/// environment variable wins over every file, whatever the chain holds.
pub fn find_versions(
    plugin_name: &str,
    env_version: Option<String>,
    chain: &Vec<DirLookup>,
    default_file: Option<&FileLookup>,
) -> (r: Option<VersionSpecifier>)
    ensures
        r.deep_view() == spec_find_versions(
            plugin_name@,
            env_version.deep_view(),
            chain.deep_view(),
            default_file.deep_view(),
        ),
        env_version matches Some(v) ==> (r matches Some(spec) && spec.version@ == v@
            && spec.source@ == VersionSourceView::EnvVar(
            "ASDF_"@ + spec_upper(plugin_name@) + "_VERSION"@,
        )),
{
    match env_version {
        Some(v) => {
            let name = crate::paths::env_var_for_plugin(plugin_name);
            return Some(VersionSpecifier { version: v, source: VersionSource::EnvVar(name) });
        },
        None => {},
    }
    let ghost cv = chain.deep_view();
    proof {
        assert(cv.skip(0) =~= cv);
    }
    let mut i: usize = 0;
    while i < chain.len()
        invariant
            env_version is None,
            cv == chain.deep_view(),
            cv.len() == chain@.len(),
            i <= chain@.len(),
            spec_resolve_chain(plugin_name@, cv) == spec_resolve_chain(
                plugin_name@,
                cv.skip(i as int),
            ),
        decreases chain@.len() - i,
    {
        proof {
            assert(cv[i as int] == chain@[i as int]@);
            assert(cv.skip(i as int)[0] == cv[i as int]);
            assert(cv.skip(i as int).drop_first() =~= cv.skip(i + 1));
        }
        match version_in_dir(plugin_name, &chain[i]) {
            Some(spec) => {
                return Some(spec);
            },
            None => {},
        }
        i = i + 1;
    }
    proof {
        assert(cv.skip(cv.len() as int) =~= Seq::<DirLookupView>::empty());
    }
    match default_file {
        Some(f) => {
            match parse_asdf_version_file(f.contents.as_str(), plugin_name) {
                Some(v) => Some(
                    VersionSpecifier {
                        version: v,
                        source: VersionSource::ToolVersion(f.path.clone()),
                    },
                ),
                None => None,
            }
        },
        None => None,
    }
}

/// A directory declares the tool when its `.tool-versions` file exists
/// and names it.
pub open spec fn spec_declares(tool: Seq<char>, d: DirLookupView) -> bool {
    match d.tool_versions {
        Some(c) => spec_version_for_tool(spec_split(c, '\n'), tool) is Some,
        None => false,
    }
}

/// Resolver monotonicity: when some directory at depth `d` declares the
/// tool, the chain resolves within the first `d + 1` directories — the
/// result is the same on the truncated chain, and it is a hit.  Deeper
/// directories are never consulted.
pub proof fn lemma_chain_resolves_shallow(tool: Seq<char>, chain: Seq<DirLookupView>, d: int)
    requires
        0 <= d < chain.len(),
        spec_declares(tool, chain[d]),
    ensures
        spec_resolve_chain(tool, chain) == spec_resolve_chain(tool, chain.take(d + 1)),
        spec_resolve_chain(tool, chain) is Some,
    decreases d,
{
    if spec_version_in_dir(tool, chain[0]) is Some {
        assert(chain.take(d + 1)[0] == chain[0]);
    } else {
        assert(d != 0);
        lemma_chain_resolves_shallow(tool, chain.drop_first(), d - 1);
        assert(chain.take(d + 1)[0] == chain[0]);
        assert(chain.take(d + 1).drop_first() =~= chain.drop_first().take(d));
    }
}

/// The same monotonicity at the level of the whole resolution, with no
/// environment override in play: a declaration at depth `d` makes the
/// result independent of every deeper directory.
pub proof fn lemma_resolver_monotonic(
    tool: Seq<char>,
    chain: Seq<DirLookupView>,
    default_file: Option<FileLookupView>,
    d: int,
)
    requires
        0 <= d < chain.len(),
        spec_declares(tool, chain[d]),
    ensures
        spec_find_versions(tool, None, chain, default_file) == spec_find_versions(
            tool,
            None,
            chain.take(d + 1),
            default_file,
        ),
        spec_find_versions(tool, None, chain, default_file) is Some,
{
    lemma_chain_resolves_shallow(tool, chain, d);
}

} // verus!
