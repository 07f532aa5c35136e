//! The `.tool-versions` grammar.
//!
//! A version token parses, in order, to `system`, `ref:<r>`, `path:<p>`,
//! `latest`, `latest:<q>` or a literal version; parsing is total on
//! non-empty tokens and rejects the empty one.  A document line is
//! `<tool> <specifiers...>` with an optional trailing `#` comment; a
//! `path:` specifier consumes the rest of its line verbatim.

use vstd::prelude::*;

use crate::errors::AsdfError;
use crate::text::{
    eq_str, find_char, lemma_find, spec_find, spec_split, spec_split_ws, spec_starts_with,
    spec_trim_end, split_ws, starts_with_str, substr, trim_end_str,
};

verus! {

/// A parsed version specifier.
#[derive(Debug, Clone, PartialEq, Eq)]
pub enum ToolVersion {
    /// The newest stable version, optionally filtered by a query.
    Latest(Option<String>),
    /// Binaries taken verbatim from an existing directory; never installed.
    Path(String),
    /// A VCS ref; installs live under `ref-<r>`.
    Ref(String),
    /// Whatever the operating system provides outside the shims directory.
    System,
    /// A plugin-defined literal version string.
    Version(String),
}

/// The mathematical shape of a specifier.
pub enum ToolVersionView {
    Latest(Option<Seq<char>>),
    Path(Seq<char>),
    Ref(Seq<char>),
    System,
    Version(Seq<char>),
}

impl View for ToolVersion {
    type V = ToolVersionView;

    open spec fn view(&self) -> ToolVersionView {
        match self {
            ToolVersion::Latest(None) => ToolVersionView::Latest(None),
            ToolVersion::Latest(Some(q)) => ToolVersionView::Latest(Some(q@)),
            ToolVersion::Path(p) => ToolVersionView::Path(p@),
            ToolVersion::Ref(r) => ToolVersionView::Ref(r@),
            ToolVersion::System => ToolVersionView::System,
            ToolVersion::Version(v) => ToolVersionView::Version(v@),
        }
    }
}

impl DeepView for ToolVersion {
    type V = ToolVersionView;

    open spec fn deep_view(&self) -> ToolVersionView {
        self.view()
    }
}

/// What a non-empty version token parses to.
pub open spec fn spec_parse_version(s: Seq<char>) -> ToolVersionView {
    if s == "system"@ {
        ToolVersionView::System
    } else if spec_starts_with(s, "ref:"@) {
        ToolVersionView::Ref(s.skip(4))
    } else if spec_starts_with(s, "path:"@) {
        ToolVersionView::Path(s.skip(5))
    } else if s == "latest"@ {
        ToolVersionView::Latest(None)
    } else if spec_starts_with(s, "latest:"@) {
        ToolVersionView::Latest(Some(s.skip(7)))
    } else {
        ToolVersionView::Version(s)
    }
}

/// The canonical rendering of a specifier; the inverse of parsing.
pub open spec fn spec_display_version(v: ToolVersionView) -> Seq<char> {
    match v {
        ToolVersionView::System => "system"@,
        ToolVersionView::Ref(r) => "ref:"@ + r,
        ToolVersionView::Path(p) => "path:"@ + p,
        ToolVersionView::Latest(None) => "latest"@,
        ToolVersionView::Latest(Some(q)) => "latest:"@ + q,
        ToolVersionView::Version(x) => x,
    }
}

/// Parsing then rendering restores every non-empty token exactly.
pub proof fn lemma_parse_display_roundtrip(s: Seq<char>)
    requires
        s.len() > 0,
    ensures
        spec_display_version(spec_parse_version(s)) == s,
{
    reveal_strlit("system");
    reveal_strlit("ref:");
    reveal_strlit("path:");
    reveal_strlit("latest");
    reveal_strlit("latest:");
    if s == "system"@ || s == "latest"@ {
    } else if spec_starts_with(s, "ref:"@) {
        assert("ref:"@ + s.skip(4) =~= s);
    } else if spec_starts_with(s, "path:"@) {
        assert("path:"@ + s.skip(5) =~= s);
    } else if spec_starts_with(s, "latest:"@) {
        assert("latest:"@ + s.skip(7) =~= s);
    }
}

impl ToolVersion {
    /// Parse one version token; only the empty token is rejected.
    pub fn parse(s: &str) -> (r: Result<ToolVersion, AsdfError>)
        ensures
            r is Ok <==> s@.len() > 0,
            r matches Ok(tv) ==> tv@ == spec_parse_version(s@),
            r matches Err(e) ==> e matches AsdfError::ParseError(_, line) && line@ == s@,
    {
        let n = s.unicode_len();
        if n == 0 {
            return Err(
                AsdfError::ParseError(
                    String::from_str("tool version"),
                    String::from_str(s),
                ),
            );
        }
        proof {
            reveal_strlit("system");
            reveal_strlit("ref:");
            reveal_strlit("path:");
            reveal_strlit("latest");
            reveal_strlit("latest:");
        }
        if eq_str(s, "system") {
            Ok(ToolVersion::System)
        } else if starts_with_str(s, "ref:") {
            Ok(ToolVersion::Ref(substr(s, 4, n)))
        } else if starts_with_str(s, "path:") {
            Ok(ToolVersion::Path(substr(s, 5, n)))
        } else if eq_str(s, "latest") {
            Ok(ToolVersion::Latest(None))
        } else if starts_with_str(s, "latest:") {
            Ok(ToolVersion::Latest(Some(substr(s, 7, n))))
        } else {
            Ok(ToolVersion::Version(String::from_str(s)))
        }
    }

    /// The canonical text of this specifier.
    pub fn to_version_string(&self) -> (r: String)
        ensures
            r@ == spec_display_version(self@),
    {
        match self {
            ToolVersion::System => String::from_str("system"),
            ToolVersion::Ref(x) => {
                let mut r = String::from_str("ref:");
                r.append(x.as_str());
                r
            },
            ToolVersion::Path(p) => {
                let mut r = String::from_str("path:");
                r.append(p.as_str());
                r
            },
            ToolVersion::Latest(None) => String::from_str("latest"),
            ToolVersion::Latest(Some(q)) => {
                let mut r = String::from_str("latest:");
                r.append(q.as_str());
                r
            },
            ToolVersion::Version(v) => v.clone(),
        }
    }

    /// The install type a specifier maps to.
    pub open spec fn spec_install_type(v: ToolVersionView) -> Seq<char> {
        match v {
            ToolVersionView::Latest(_) => "version"@,
            ToolVersionView::Version(_) => "version"@,
            ToolVersionView::Path(_) => "path"@,
            ToolVersionView::Ref(_) => "ref"@,
            ToolVersionView::System => "system"@,
        }
    }

    pub fn install_type(&self) -> (r: String)
        ensures
            r@ == Self::spec_install_type(self@),
    {
        match self {
            ToolVersion::Latest(_) => String::from_str("version"),
            ToolVersion::Version(_) => String::from_str("version"),
            ToolVersion::Path(_) => String::from_str("path"),
            ToolVersion::Ref(_) => String::from_str("ref"),
            ToolVersion::System => String::from_str("system"),
        }
    }

    /// The literal version that names the installation: `Latest` takes the
    /// version the caller resolved through the plugin, `Path` and `System`
    /// name none.
    pub fn install_version(&self, resolved_latest: Option<String>) -> (r: Option<String>)
        ensures
            self@ matches ToolVersionView::Latest(_) ==> r.deep_view()
                == resolved_latest.deep_view(),
            self@ matches ToolVersionView::Version(v) ==> r.deep_view() matches Some(x) && x == v,
            self@ matches ToolVersionView::Ref(v) ==> r.deep_view() matches Some(x) && x == v,
            self@ matches ToolVersionView::Path(_) ==> r is None,
            self@ matches ToolVersionView::System ==> r is None,
    {
        match self {
            ToolVersion::Latest(_) => resolved_latest,
            ToolVersion::Version(v) => Some(v.clone()),
            ToolVersion::Ref(v) => Some(v.clone()),
            ToolVersion::Path(_) => None,
            ToolVersion::System => None,
        }
    }

    /// Where this specifier's installation lives under `data_dir`;
    /// `Latest(None)` has not been resolved yet and keeps the placeholder
    /// directory name `latest`.
    pub fn install_path(&self, data_dir: &str, plugin_name: &str) -> (r: Option<String>)
        ensures
            match self@ {
                ToolVersionView::Latest(None) => r.deep_view() matches Some(p) && p == data_dir@
                    + "/installs/"@ + plugin_name@ + "/latest"@,
                ToolVersionView::Latest(Some(q)) => r.deep_view() matches Some(p) && p == data_dir@
                    + "/installs/"@ + plugin_name@ + "/"@ + q,
                ToolVersionView::Version(v) => r.deep_view() matches Some(p) && p == data_dir@
                    + "/installs/"@ + plugin_name@ + "/"@ + v,
                ToolVersionView::Path(q) => r.deep_view() matches Some(p) && p == q,
                ToolVersionView::Ref(v) => r.deep_view() matches Some(p) && p == data_dir@
                    + "/installs/"@ + plugin_name@ + "/ref-"@ + v,
                ToolVersionView::System => r is None,
            },
    {
        match self {
            ToolVersion::Latest(None) => {
                let mut r = crate::paths::plugin_installs_path(data_dir, plugin_name);
                r.append("/latest");
                proof {
                    assert(r@ =~= data_dir@ + "/installs/"@ + plugin_name@ + "/latest"@);
                }
                Some(r)
            },
            ToolVersion::Latest(Some(q)) => {
                let mut r = crate::paths::plugin_installs_path(data_dir, plugin_name);
                r.append("/");
                r.append(q.as_str());
                proof {
                    assert(r@ =~= data_dir@ + "/installs/"@ + plugin_name@ + "/"@ + q@);
                }
                Some(r)
            },
            ToolVersion::Version(v) => {
                let mut r = crate::paths::plugin_installs_path(data_dir, plugin_name);
                r.append("/");
                r.append(v.as_str());
                proof {
                    assert(r@ =~= data_dir@ + "/installs/"@ + plugin_name@ + "/"@ + v@);
                }
                Some(r)
            },
            ToolVersion::Path(p) => Some(p.clone()),
            ToolVersion::Ref(v) => {
                let mut r = crate::paths::plugin_installs_path(data_dir, plugin_name);
                r.append("/ref-");
                r.append(v.as_str());
                proof {
                    assert(r@ =~= data_dir@ + "/installs/"@ + plugin_name@ + "/ref-"@ + v@);
                }
                Some(r)
            },
            ToolVersion::System => None,
        }
    }
}

/// A line with everything from the first `#` on removed and trailing
/// whitespace dropped.
pub open spec fn spec_strip_comment(line: Seq<char>) -> Seq<char> {
    if spec_find(line, '#') == -1 {
        spec_trim_end(line)
    } else {
        spec_trim_end(line.take(spec_find(line, '#')))
    }
}

proof fn lemma_trim_end_last(s: Seq<char>)
    ensures
        spec_trim_end(s).len() > 0 ==> !crate::text::spec_is_space(spec_trim_end(s).last()),
        spec_trim_end(s).len() <= s.len(),
        spec_trim_end(s) == s.take(spec_trim_end(s).len() as int),
    decreases s.len(),
{
    if s.len() > 0 && crate::text::spec_is_space(s.last()) {
        lemma_trim_end_last(s.drop_last());
        assert(s.drop_last() =~= s.take(s.len() - 1));
        assert(s.drop_last().take(spec_trim_end(s.drop_last()).len() as int) =~= s.take(
            spec_trim_end(s.drop_last()).len() as int,
        ));
    } else {
        assert(s.take(s.len() as int) =~= s);
    }
}

/// Trimming trailing whitespace twice is the same as trimming once.
pub proof fn lemma_trim_end_idempotent(s: Seq<char>)
    ensures
        spec_trim_end(spec_trim_end(s)) == spec_trim_end(s),
{
    lemma_trim_end_last(s);
}

/// Stripping a comment twice is the same as stripping once.
pub proof fn lemma_strip_comment_idempotent(line: Seq<char>)
    ensures
        spec_strip_comment(spec_strip_comment(line)) == spec_strip_comment(line),
{
    let t = spec_strip_comment(line);
    lemma_find(line, '#');
    if spec_find(line, '#') == -1 {
        lemma_trim_end_last(line);
        assert(forall|j: int| 0 <= j < t.len() ==> t[j] == line[j]);
        lemma_find(t, '#');
        if spec_find(t, '#') != -1 {
            assert(t[spec_find(t, '#')] == '#');
        }
        lemma_trim_end_idempotent(line);
    } else {
        let i = spec_find(line, '#');
        let head = line.take(i);
        lemma_trim_end_last(head);
        assert(forall|j: int| 0 <= j < t.len() ==> t[j] == head[j]);
        assert(forall|j: int| 0 <= j < head.len() ==> head[j] == line[j]);
        lemma_find(t, '#');
        if spec_find(t, '#') != -1 {
            assert(t[spec_find(t, '#')] == '#');
        }
        lemma_trim_end_idempotent(head);
    }
}

/// The stripped content of a line, or nothing when only whitespace or a
/// comment remains.
pub fn remove_tool_version_comments(line: &str) -> (r: Option<String>)
    ensures
        spec_strip_comment(line@).len() == 0 ==> r is None,
        spec_strip_comment(line@).len() > 0 ==> (r matches Some(x) && x@ == spec_strip_comment(
            line@,
        )),
        spec_find(line@, '#') == 0 ==> r is None,
{
    let n = line.unicode_len();
    let uncommented = match find_char(line, '#') {
        Some(i) => {
            proof {
                lemma_find(line@, '#');
            }
            let head = substr(line, 0, i);
            trim_end_str(head.as_str())
        },
        None => trim_end_str(line),
    };
    proof {
        lemma_find(line@, '#');
        if spec_find(line@, '#') == 0 {
            assert(line@.take(0) =~= Seq::<char>::empty());
        }
        assert(uncommented@ == spec_strip_comment(line@));
    }
    if uncommented.unicode_len() == 0 {
        None
    } else {
        Some(uncommented)
    }
}

/// A stripped line split at its first space into tool name and rest.
pub open spec fn spec_parse_line(line: Seq<char>) -> Option<(Seq<char>, Seq<char>)> {
    let t = spec_strip_comment(line);
    if spec_find(t, ' ') == -1 {
        None
    } else {
        Some((t.take(spec_find(t, ' ')), t.skip(spec_find(t, ' ') + 1)))
    }
}

/// The `<tool> <rest>` split of one line, comments removed; `None` when the
/// line has no space left.
pub fn parse_tool_version_line(line: &str) -> (r: Option<(String, String)>)
    ensures
        r is None ==> spec_parse_line(line@) is None,
        r matches Some(p) ==> spec_parse_line(line@) matches Some(q) && p.0@ == q.0 && p.1@ == q.1,
{
    let n = line.unicode_len();
    let uncommented = match find_char(line, '#') {
        Some(i) => {
            proof {
                lemma_find(line@, '#');
            }
            let head = substr(line, 0, i);
            trim_end_str(head.as_str())
        },
        None => trim_end_str(line),
    };
    proof {
        assert(uncommented@ == spec_strip_comment(line@));
    }
    let m = uncommented.unicode_len();
    match find_char(uncommented.as_str(), ' ') {
        None => None,
        Some(i) => {
            proof {
                lemma_find(uncommented@, ' ');
            }
            let name = substr(uncommented.as_str(), 0, i);
            let rest = substr(uncommented.as_str(), i + 1, m);
            proof {
                assert(name@ == uncommented@.take(i as int));
                assert(rest@ == uncommented@.skip(i + 1));
            }
            Some((name, rest))
        },
    }
}

/// The declaration a document makes for one tool: the rest of the first
/// line naming it.
pub open spec fn spec_version_for_tool(lines: Seq<Seq<char>>, tool: Seq<char>) -> Option<
    Seq<char>,
>
    decreases lines.len(),
{
    if lines.len() == 0 {
        None
    } else {
        match spec_parse_line(lines[0]) {
            Some(q) => if q.0 == tool {
                Some(q.1)
            } else {
                spec_version_for_tool(lines.drop_first(), tool)
            },
            None => spec_version_for_tool(lines.drop_first(), tool),
        }
    }
}

/// The version text declared for `plugin_name` by a `.tool-versions`
/// document, if any line names it.
pub fn parse_asdf_version_file(contents: &str, plugin_name: &str) -> (r: Option<String>)
    ensures
        r is None ==> spec_version_for_tool(spec_split(contents@, '\n'), plugin_name@) is None,
        r matches Some(v) ==> spec_version_for_tool(spec_split(contents@, '\n'), plugin_name@)
            matches Some(w) && v@ == w,
{
    let lines = crate::text::split_char(contents, '\n');
    let ghost lv = spec_split(contents@, '\n');
    proof {
        assert(lv.skip(0) =~= lv);
    }
    let mut i: usize = 0;
    while i < lines.len()
        invariant
            lv == spec_split(contents@, '\n'),
            lv == lines.deep_view(),
            lv.len() == lines@.len(),
            i <= lines@.len(),
            spec_version_for_tool(lv, plugin_name@) == spec_version_for_tool(
                lv.skip(i as int),
                plugin_name@,
            ),
        decreases lines@.len() - i,
    {
        proof {
            assert(lv[i as int] == lines@[i as int]@);
            assert(lv.skip(i as int)[0] == lv[i as int]);
            assert(lv.skip(i as int).drop_first() =~= lv.skip(i + 1));
        }
        match parse_tool_version_line(lines[i].as_str()) {
            Some(p) => {
                if eq_str(p.0.as_str(), plugin_name) {
                    proof {
                        assert(spec_parse_line(lv.skip(i as int)[0]) matches Some(q) && q.0
                            == plugin_name@ && q.1 == p.1@);
                        assert(spec_version_for_tool(lv.skip(i as int), plugin_name@) matches Some(
                            w,
                        ) && w == p.1@);
                    }
                    return Some(p.1);
                }
            },
            None => {},
        }
        i = i + 1;
    }
    proof {
        assert(lv.skip(lv.len() as int) =~= Seq::<Seq<char>>::empty());
    }
    None
}

/// One tool's declaration in a parsed document.
#[derive(Debug, Clone, PartialEq, Eq)]
pub struct ToolEntry {
    pub tool: String,
    pub versions: Vec<ToolVersion>,
}

pub struct ToolEntryView {
    pub tool: Seq<char>,
    pub versions: Seq<ToolVersionView>,
}

impl View for ToolEntry {
    type V = ToolEntryView;

    open spec fn view(&self) -> ToolEntryView {
        ToolEntryView { tool: self.tool@, versions: self.versions.deep_view() }
    }
}

impl DeepView for ToolEntry {
    type V = ToolEntryView;

    open spec fn deep_view(&self) -> ToolEntryView {
        self.view()
    }
}

/// A parsed `.tool-versions` document: tools in order of first
/// declaration, each with its specifier list; a later line for the same
/// tool replaces the earlier list.
pub struct ToolVersions(pub Vec<ToolEntry>);

/// Every token of a whitespace split is non-empty.
pub proof fn lemma_split_ws_nonempty(s: Seq<char>)
    ensures
        forall|i: int| 0 <= i < spec_split_ws(s).len() ==> #[trigger] spec_split_ws(s)[i].len()
            > 0,
    decreases s.len(),
{
    if s.len() > 0 {
        if crate::text::spec_is_space(s[0]) {
            lemma_split_ws_nonempty(s.drop_first());
            assert forall|i: int| 0 <= i < spec_split_ws(s).len() implies #[trigger] spec_split_ws(
                s,
            )[i].len() > 0 by {
                assert(spec_split_ws(s)[i] == spec_split_ws(s.drop_first())[i]);
            }
        } else {
            crate::text::lemma_find_space(s);
            let fs = crate::text::spec_find_space(s);
            lemma_split_ws_nonempty(s.skip(fs));
            assert forall|i: int| 0 <= i < spec_split_ws(s).len() implies #[trigger] spec_split_ws(
                s,
            )[i].len() > 0 by {
                if i == 0 {
                    assert(spec_split_ws(s)[0] == s.take(fs));
                } else {
                    assert(spec_split_ws(s)[i] == spec_split_ws(s.skip(fs))[i - 1]);
                }
            }
        }
    }
}

/// The specifiers declared by the rest of a line: one verbatim `path:`
/// specifier when it starts so, else one per whitespace-separated token.
pub open spec fn spec_specs_of_rest(rest: Seq<char>) -> Seq<ToolVersionView> {
    if spec_starts_with(rest, "path:"@) {
        seq![spec_parse_version(rest)]
    } else {
        spec_split_ws(rest).map_values(|t: Seq<char>| spec_parse_version(t))
    }
}

/// Parse the rest of a line into its specifier list.
pub fn parse_specs(rest: &str) -> (r: Vec<ToolVersion>)
    ensures
        r.deep_view() == spec_specs_of_rest(rest@),
{
    proof {
        reveal_strlit("path:");
    }
    if starts_with_str(rest, "path:") {
        let n = rest.unicode_len();
        let mut r: Vec<ToolVersion> = Vec::new();
        r.push(ToolVersion::Path(substr(rest, 5, n)));
        proof {
            assert(rest@ != "system"@ && rest@ != "latest"@) by {
                reveal_strlit("system");
                reveal_strlit("latest");
                assert(rest@.subrange(0, 5)[0] == rest@[0]);
            }
            assert(!spec_starts_with(rest@, "ref:"@)) by {
                reveal_strlit("ref:");
                if spec_starts_with(rest@, "ref:"@) {
                    assert(rest@.subrange(0, 4)[0] == rest@[0]);
                    assert(rest@.subrange(0, 5)[0] == rest@[0]);
                }
            }
            assert(r.deep_view() =~~= spec_specs_of_rest(rest@));
        }
        r
    } else {
        let toks = split_ws(rest);
        let ghost tv = spec_split_ws(rest@);
        let mut r: Vec<ToolVersion> = Vec::new();
        let mut i: usize = 0;
        proof {
            lemma_split_ws_nonempty(rest@);
        }
        while i < toks.len()
            invariant
                tv == spec_split_ws(rest@),
                tv == toks.deep_view(),
                tv.len() == toks@.len(),
                i <= toks@.len(),
                forall|k: int| 0 <= k < tv.len() ==> #[trigger] tv[k].len() > 0,
                r@.len() == i,
                r.deep_view() == tv.take(i as int).map_values(
                    |t: Seq<char>| spec_parse_version(t),
                ),
            decreases toks@.len() - i,
        {
            proof {
                assert(tv[i as int] == toks@[i as int]@);
            }
            match ToolVersion::parse(toks[i].as_str()) {
                Ok(tv_parsed) => {
                    proof {
                        assert(tv_parsed@ == spec_parse_version(tv[i as int]));
                    }
                    r.push(tv_parsed);
                    proof {
                        assert(r@.len() == i + 1);
                        assert(r.deep_view() =~~= tv.take(i as int).map_values(
                            |t: Seq<char>| spec_parse_version(t),
                        ).push(spec_parse_version(tv[i as int])));
                        assert(tv.take(i + 1) =~= tv.take(i as int).push(tv[i as int]));
                        assert(tv.take(i + 1).map_values(|t: Seq<char>| spec_parse_version(t))
                            =~~= tv.take(i as int).map_values(
                            |t: Seq<char>| spec_parse_version(t),
                        ).push(spec_parse_version(tv[i as int])));
                    }
                },
                Err(_) => {
                    proof {
                        assert(tv[i as int].len() > 0);
                        assert(false);
                    }
                },
            }
            i = i + 1;
        }
        proof {
            assert(tv.take(tv.len() as int) =~= tv);
            assert(r.deep_view() =~~= spec_specs_of_rest(rest@));
        }
        r
    }
}

/// `entries` with the declaration for `tool` replaced in place, or
/// appended when the tool is new.
pub open spec fn spec_upsert(
    entries: Seq<ToolEntryView>,
    tool: Seq<char>,
    versions: Seq<ToolVersionView>,
) -> Seq<ToolEntryView>
    decreases entries.len(),
{
    if entries.len() == 0 {
        seq![ToolEntryView { tool, versions }]
    } else if entries[0].tool == tool {
        seq![ToolEntryView { tool, versions }] + entries.drop_first()
    } else {
        seq![entries[0]] + spec_upsert(entries.drop_first(), tool, versions)
    }
}

fn upsert(entries: &mut Vec<ToolEntry>, tool: String, versions: Vec<ToolVersion>)
    ensures
        final(entries).deep_view() == spec_upsert(
            old(entries).deep_view(),
            tool@,
            versions.deep_view(),
        ),
{
    let ghost ev = entries.deep_view();
    let n = entries.len();
    proof {
        assert(ev.take(0) =~= Seq::<ToolEntryView>::empty());
        assert(ev.skip(0) =~= ev);
        assert(ev.take(0) + spec_upsert(ev.skip(0), tool@, versions.deep_view()) =~= spec_upsert(
            ev,
            tool@,
            versions.deep_view(),
        ));
    }
    let mut i: usize = 0;
    while i < n
        invariant
            n == entries@.len(),
            ev == old(entries).deep_view(),
            ev == entries.deep_view(),
            i <= n,
            forall|k: int| 0 <= k < i ==> #[trigger] ev[k].tool != tool@,
            spec_upsert(ev, tool@, versions.deep_view()) == ev.take(i as int) + spec_upsert(
                ev.skip(i as int),
                tool@,
                versions.deep_view(),
            ),
        decreases n - i,
    {
        proof {
            assert(ev[i as int] == entries@[i as int].deep_view());
            assert(ev.skip(i as int)[0] == ev[i as int]);
            assert(ev.skip(i as int).drop_first() =~= ev.skip(i + 1));
        }
        if eq_str(entries[i].tool.as_str(), tool.as_str()) {
            let ghost vv = versions.deep_view();
            proof {
                assert(ev[i as int].tool == tool@);
            }
            entries.set(i, ToolEntry { tool, versions });
            proof {
                assert(spec_upsert(ev.skip(i as int), tool@, vv) == seq![
                    ToolEntryView { tool: tool@, versions: vv },
                ] + ev.skip(i + 1));
                assert(entries.deep_view() =~~= ev.take(i as int) + (seq![
                    ToolEntryView { tool: tool@, versions: vv },
                ] + ev.skip(i + 1)));
            }
            return ;
        }
        proof {
            assert(ev.take(i + 1) =~= ev.take(i as int).push(ev[i as int]));
            assert(ev.take(i as int) + (seq![ev[i as int]] + spec_upsert(
                ev.skip(i + 1),
                tool@,
                versions.deep_view(),
            )) =~= ev.take(i + 1) + spec_upsert(ev.skip(i + 1), tool@, versions.deep_view()));
        }
        i = i + 1;
    }
    let ghost vv = versions.deep_view();
    entries.push(ToolEntry { tool, versions });
    proof {
        assert(ev.skip(n as int) =~= Seq::<ToolEntryView>::empty());
        assert(ev.take(n as int) =~= ev);
        assert(entries.deep_view() =~~= ev + seq![ToolEntryView { tool: tool@, versions: vv }]);
        assert(ev + seq![ToolEntryView { tool: tool@, versions: vv }] =~= ev.take(n as int)
            + spec_upsert(ev.skip(n as int), tool@, vv));
    }
}

/// The document the given lines parse to, starting from the entries
/// gathered so far; the first non-comment line without a space is an
/// error carrying that line.
pub open spec fn spec_parse_doc(lines: Seq<Seq<char>>, acc: Seq<ToolEntryView>) -> Result<
    Seq<ToolEntryView>,
    Seq<char>,
>
    decreases lines.len(),
{
    if lines.len() == 0 {
        Ok(acc)
    } else if spec_strip_comment(lines[0]).len() == 0 {
        spec_parse_doc(lines.drop_first(), acc)
    } else {
        match spec_parse_line(lines[0]) {
            None => Err(lines[0]),
            Some(q) => spec_parse_doc(
                lines.drop_first(),
                spec_upsert(acc, q.0, spec_specs_of_rest(q.1)),
            ),
        }
    }
}

impl ToolVersions {
    /// Parse a whole `.tool-versions` document.
    pub fn parse(contents: &str) -> (r: Result<ToolVersions, AsdfError>)
        ensures
            r matches Ok(doc) ==> Ok::<Seq<ToolEntryView>, Seq<char>>(doc.0.deep_view())
                == spec_parse_doc(spec_split(contents@, '\n'), Seq::<ToolEntryView>::empty()),
            r matches Err(e) ==> e matches AsdfError::ParseError(context, line) && context@
                == ".tool-versions line"@ && Err::<Seq<ToolEntryView>, Seq<char>>(line@)
                == spec_parse_doc(
                spec_split(contents@, '\n'),
                Seq::<ToolEntryView>::empty(),
            ),
    {
        let lines = crate::text::split_char(contents, '\n');
        let ghost lv = spec_split(contents@, '\n');
        let mut entries: Vec<ToolEntry> = Vec::new();
        proof {
            assert(lv.skip(0) =~= lv);
            assert(entries.deep_view() =~= Seq::<ToolEntryView>::empty());
        }
        let mut i: usize = 0;
        while i < lines.len()
            invariant
                lv == spec_split(contents@, '\n'),
                lv == lines.deep_view(),
                lv.len() == lines@.len(),
                i <= lines@.len(),
                spec_parse_doc(lv, Seq::<ToolEntryView>::empty()) == spec_parse_doc(
                    lv.skip(i as int),
                    entries.deep_view(),
                ),
            decreases lines@.len() - i,
        {
            proof {
                assert(lv[i as int] == lines@[i as int]@);
                assert(lv.skip(i as int)[0] == lv[i as int]);
                assert(lv.skip(i as int).drop_first() =~= lv.skip(i + 1));
            }
            match remove_tool_version_comments(lines[i].as_str()) {
                None => {},
                Some(_) => {
                    match parse_tool_version_line(lines[i].as_str()) {
                        None => {
                            return Err(
                                AsdfError::ParseError(
                                    String::from_str(".tool-versions line"),
                                    lines[i].clone(),
                                ),
                            );
                        },
                        Some(p) => {
                            let specs = parse_specs(p.1.as_str());
                            upsert(&mut entries, p.0, specs);
                        },
                    }
                },
            }
            i = i + 1;
        }
        proof {
            assert(lv.skip(lv.len() as int) =~= Seq::<Seq<char>>::empty());
        }
        Ok(ToolVersions(entries))
    }
}

} // verus!
