//! Choosing the newest version, and query filtering for listings.
//!
//! A plugin either answers `latest-stable` itself, or the best match is
//! picked from its `list-all` output: versions matching the query, with
//! pre-release and development versions filtered out, last one wins.
//! Both filters go through the regular-expression engine; what it matched
//! is named, and everything around the calls is proved.

use vstd::prelude::*;

use crate::errors::AsdfError;
use crate::text::{spec_join, spec_split, split_char};

verus! {

/// Whether the regular expression `pattern` matches somewhere in `text`;
/// the result depends on the two texts alone.
pub uninterp spec fn re_match(pattern: Seq<char>, text: Seq<char>) -> bool;

/// Whether the engine accepts `pattern` at all, under its default
/// configuration; a function of the pattern alone.
pub uninterp spec fn re_valid(pattern: Seq<char>) -> bool;

/// Relies on `regex::Regex::new` and `regex::Regex::is_match`: compiles
/// the pattern and asks whether it matches somewhere in the text.
/// Compilation succeeds or fails depending on the pattern alone; a
/// rejected pattern is reported as a parse error carrying that pattern.
#[verifier::external_body]
fn regex_match(pattern: &str, text: &str) -> (r: Result<bool, AsdfError>)
    ensures
        r is Ok <==> re_valid(pattern@),
        r matches Ok(b) ==> b == re_match(pattern@, text@),
        r matches Err(e) ==> (e matches AsdfError::ParseError(_, p) && p@ == pattern@),
{
    match regex::Regex::new(pattern) {
        Ok(re) => Ok(re.is_match(text)),
        Err(_) => Err(
            AsdfError::ParseError(
                String::from("regular expression"),
                String::from(pattern),
            ),
        ),
    }
}

/// The pattern a version query stands for: the query anchored at the
/// start, after optional whitespace.
pub open spec fn spec_query_pattern(query: Seq<char>) -> Seq<char> {
    "^\\s*"@ + query
}

fn query_pattern(query: &str) -> (r: String)
    ensures
        r@ == spec_query_pattern(query@),
{
    let mut r = String::from_str("^\\s*");
    r.append(query);
    r
}

/// The pattern that recognises pre-release and development versions,
/// which `latest` never picks.
pub open spec fn spec_unstable_pattern() -> Seq<char> {
    "(^Available versions:|-src|-dev|-latest|-stm|[-\\.]rc|-alpha|-beta|[-\\.]pre|-next|(a|b|c)[0-9]+|snapshot|master)"@
}

fn unstable_pattern() -> (r: &'static str)
    ensures
        r@ == spec_unstable_pattern(),
{
    "(^Available versions:|-src|-dev|-latest|-stm|[-\\.]rc|-alpha|-beta|[-\\.]pre|-next|(a|b|c)[0-9]+|snapshot|master)"
}

/// All versions a plugin's `list-all` output offers, optionally filtered
/// by a query: the space-separated entries of the output that the query
/// pattern matches.  An empty selection is an error.
pub fn all_plugin_versions(
    plugin_name: &str,
    tool_version: Option<&str>,
    list_all_output: &str,
) -> (r: Result<Vec<String>, AsdfError>)
    ensures
        tool_version is None ==> (r matches Ok(vs) && vs.deep_view() == spec_split(
            list_all_output@,
            ' ',
        )),
        tool_version matches Some(q) ==> {
            &&& r matches Ok(vs) ==> {
                &&& vs.deep_view() == spec_split(list_all_output@, ' ').filter(
                    |v: Seq<char>| re_match(spec_query_pattern(q@), v),
                )
                &&& vs.deep_view().len() > 0
            }
            &&& spec_split(list_all_output@, ' ').filter(
                |v: Seq<char>| re_match(spec_query_pattern(q@), v),
            ).len() == 0 ==> r is Err
            &&& re_valid(spec_query_pattern(q@)) ==> (r is Ok <==> spec_split(
                list_all_output@,
                ' ',
            ).filter(|v: Seq<char>| re_match(spec_query_pattern(q@), v)).len() > 0)
            &&& re_valid(spec_query_pattern(q@)) ==> (r matches Err(e) ==> (e matches
                AsdfError::NoCompatibleVersions(n, qq) && n@ == plugin_name@ && qq@ == q@))
            &&& !re_valid(spec_query_pattern(q@)) ==> (r matches Err(e) && e matches
                AsdfError::ParseError(_, p) && p@ == spec_query_pattern(q@))
        },
{
    let versions = split_char(list_all_output, ' ');
    match tool_version {
        None => Ok(versions),
        Some(q) => {
            let pattern = query_pattern(q);
            let ghost vv = versions.deep_view();
            let ghost pred = (|v: Seq<char>| re_match(spec_query_pattern(q@), v));
            let mut kept: Vec<String> = Vec::new();
            let mut i: usize = 0;
            proof {
                crate::text::lemma_split_len(list_all_output@, ' ');
                assert(vv.take(0) =~= Seq::<Seq<char>>::empty());
                reveal(Seq::filter);
                assert(kept.deep_view() =~= vv.take(0).filter(pred));
            }
            while i < versions.len()
                invariant
                    tool_version matches Some(qq) && qq@ == q@,
                    vv == versions.deep_view(),
                    vv == spec_split(list_all_output@, ' '),
                    vv.len() == versions@.len(),
                    vv.len() >= 1,
                    i <= versions@.len(),
                    i > 0 ==> re_valid(spec_query_pattern(q@)),
                    pattern@ == spec_query_pattern(q@),
                    pred == (|v: Seq<char>| re_match(spec_query_pattern(q@), v)),
                    kept.deep_view() == vv.take(i as int).filter(pred),
                decreases versions@.len() - i,
            {
                proof {
                    assert(vv[i as int] == versions@[i as int]@);
                    assert(vv.take(i + 1).drop_last() =~= vv.take(i as int));
                    assert(vv.take(i + 1).last() == vv[i as int]);
                    reveal(Seq::filter);
                }
                match regex_match(pattern.as_str(), versions[i].as_str()) {
                    Err(e) => {
                        return Err(e);
                    },
                    Ok(m) => {
                        if m {
                            let ghost before = kept.deep_view();
                            kept.push(versions[i].clone());
                            proof {
                                assert(kept.deep_view() =~= before.push(vv[i as int]));
                            }
                        }
                    },
                }
                i = i + 1;
            }
            proof {
                assert(vv.take(vv.len() as int) =~= vv);
            }
            if kept.len() == 0 {
                proof {
                    assert(kept.deep_view().len() == kept@.len());
                }
                Err(
                    AsdfError::NoCompatibleVersions(
                        String::from_str(plugin_name),
                        String::from_str(q),
                    ),
                )
            } else {
                proof {
                    assert(kept.deep_view().len() == kept@.len());
                }
                Ok(kept)
            }
        },
    }
}

/// Where the newest version comes from: the plugin's own `latest-stable`
/// answer, or its whole `list-all` output.
pub enum LatestSource {
    Stable(String),
    ListAll(String),
}

/// The versions `latest` chooses among: those matching the query, minus
/// the unstable ones.
pub open spec fn spec_latest_candidates(output: Seq<char>, query: Seq<char>) -> Seq<Seq<char>> {
    spec_split(output, ' ').filter(|v: Seq<char>| re_match(spec_query_pattern(query), v)).filter(
        |v: Seq<char>| !re_match(spec_unstable_pattern(), v),
    )
}

/// The newest version of a tool for a query.  A `latest-stable` answer is
/// taken as is, empty meaning none; otherwise the last stable candidate
/// of the `list-all` output wins.
pub fn get_latest_version(plugin_name: &str, query: &str, source: &LatestSource) -> (r: Result<
    String,
    AsdfError,
>)
    ensures
        source matches LatestSource::Stable(out) ==> {
            &&& out@.len() == 0 ==> (r matches Err(e) && e matches AsdfError::NoCompatibleVersions(
                n,
                qq,
            ) && n@ == plugin_name@ && qq@ == query@)
            &&& out@.len() > 0 ==> (r matches Ok(v) && v@ == out@)
        },
        source matches LatestSource::ListAll(out) ==> {
            &&& r matches Ok(v) ==> {
                &&& spec_latest_candidates(out@, query@).len() > 0
                &&& v@ == spec_latest_candidates(out@, query@).last()
            }
            &&& spec_latest_candidates(out@, query@).len() == 0 ==> r is Err
            &&& !re_valid(spec_query_pattern(query@)) ==> (r matches Err(e) && e matches
                AsdfError::ParseError(_, p) && p@ == spec_query_pattern(query@))
            &&& (re_valid(spec_query_pattern(query@)) && spec_split(out@, ' ').filter(
                |v: Seq<char>| re_match(spec_query_pattern(query@), v),
            ).len() == 0) ==> (r matches Err(e) && e matches AsdfError::NoCompatibleVersions(
                n,
                qq,
            ) && n@ == plugin_name@ && qq@ == query@)
            &&& (re_valid(spec_query_pattern(query@)) && spec_split(out@, ' ').filter(
                |v: Seq<char>| re_match(spec_query_pattern(query@), v),
            ).len() > 0 && !re_valid(spec_unstable_pattern())) ==> (r matches Err(e) && e
                matches AsdfError::ParseError(_, p) && p@ == spec_unstable_pattern())
            &&& (re_valid(spec_query_pattern(query@)) && re_valid(spec_unstable_pattern()))
                ==> (r is Ok <==> spec_latest_candidates(out@, query@).len() > 0)
            &&& (re_valid(spec_query_pattern(query@)) && re_valid(spec_unstable_pattern()))
                ==> (r matches Err(e) ==> (e matches AsdfError::NoCompatibleVersions(n, qq)
                && n@ == plugin_name@ && qq@ == query@))
        },
{
    match source {
        LatestSource::Stable(out) => {
            if out.as_str().unicode_len() == 0 {
                Err(
                    AsdfError::NoCompatibleVersions(
                        String::from_str(plugin_name),
                        String::from_str(query),
                    ),
                )
            } else {
                Ok(out.clone())
            }
        },
        LatestSource::ListAll(out) => {
            let matching = match all_plugin_versions(plugin_name, Some(query), out.as_str()) {
                Err(e) => {
                    proof {
                        reveal(Seq::filter);
                        let m = spec_split(out@, ' ').filter(
                            |v: Seq<char>| re_match(spec_query_pattern(query@), v),
                        );
                        if m.len() == 0 {
                            assert(spec_latest_candidates(out@, query@) =~= Seq::<
                                Seq<char>,
                            >::empty());
                        }
                    }
                    return Err(e);
                },
                Ok(vs) => vs,
            };
            let ghost mv = matching.deep_view();
            let ghost pred = (|v: Seq<char>| !re_match(spec_unstable_pattern(), v));
            let pattern = unstable_pattern();
            let mut stable: Vec<String> = Vec::new();
            let mut i: usize = 0;
            proof {
                assert(mv.take(0) =~= Seq::<Seq<char>>::empty());
                reveal(Seq::filter);
                assert(stable.deep_view() =~= mv.take(0).filter(pred));
            }
            while i < matching.len()
                invariant
                    source matches LatestSource::ListAll(o) && o@ == out@,
                    re_valid(spec_query_pattern(query@)),
                    mv == matching.deep_view(),
                    mv == spec_split(out@, ' ').filter(
                        |v: Seq<char>| re_match(spec_query_pattern(query@), v),
                    ),
                    mv.len() == matching@.len(),
                    mv.len() >= 1,
                    i > 0 ==> re_valid(spec_unstable_pattern()),
                    i <= matching@.len(),
                    pattern@ == spec_unstable_pattern(),
                    pred == (|v: Seq<char>| !re_match(spec_unstable_pattern(), v)),
                    stable.deep_view() == mv.take(i as int).filter(pred),
                decreases matching@.len() - i,
            {
                proof {
                    assert(mv[i as int] == matching@[i as int]@);
                    assert(mv.take(i + 1).drop_last() =~= mv.take(i as int));
                    assert(mv.take(i + 1).last() == mv[i as int]);
                    reveal(Seq::filter);
                }
                match regex_match(pattern, matching[i].as_str()) {
                    Err(e) => {
                        return Err(e);
                    },
                    Ok(m) => {
                        if !m {
                            let ghost before = stable.deep_view();
                            stable.push(matching[i].clone());
                            proof {
                                assert(stable.deep_view() =~= before.push(mv[i as int]));
                            }
                        }
                    },
                }
                i = i + 1;
            }
            proof {
                assert(mv.take(mv.len() as int) =~= mv);
            }
            if stable.len() == 0 {
                proof {
                    assert(stable.deep_view().len() == stable@.len());
                }
                Err(
                    AsdfError::NoCompatibleVersions(
                        String::from_str(plugin_name),
                        String::from_str(query),
                    ),
                )
            } else {
                proof {
                    assert(stable.deep_view().len() == stable@.len());
                    assert(stable.deep_view().last() == stable.deep_view()[stable@.len() - 1]);
                }
                let last = stable[stable.len() - 1].clone();
                Ok(last)
            }
        },
    }
}

/// What one plugin contributes to the overview of latest versions.
pub struct PluginLatest {
    pub name: String,
    pub version: Option<String>,
    pub installed: bool,
}

pub struct PluginLatestView {
    pub name: Seq<char>,
    pub version: Option<Seq<char>>,
    pub installed: bool,
}

impl View for PluginLatest {
    type V = PluginLatestView;

    open spec fn view(&self) -> PluginLatestView {
        PluginLatestView {
            name: self.name@,
            version: self.version.deep_view(),
            installed: self.installed,
        }
    }
}

impl DeepView for PluginLatest {
    type V = PluginLatestView;

    open spec fn deep_view(&self) -> PluginLatestView {
        self.view()
    }
}

/// One row of the overview: name, newest version (or `unknown`), and
/// whether that version is installed, tab-separated.
pub open spec fn spec_latest_row(row: PluginLatestView) -> Seq<char> {
    row.name + "\t"@ + (match row.version {
        Some(v) => v,
        None => "unknown"@,
    }) + "\t"@ + (if row.installed {
        "installed"@
    } else {
        "missing"@
    })
}

/// The overview of every installed plugin's newest version, one row per
/// plugin, or a notice when none is installed.
pub fn get_all_latest_versions(rows: &Vec<PluginLatest>) -> (r: String)
    ensures
        rows@.len() == 0 ==> r@ == "No plugins installed"@,
        rows@.len() > 0 ==> r@ == spec_join(
            rows.deep_view().map_values(|row: PluginLatestView| spec_latest_row(row)),
            '\n',
        ),
{
    if rows.len() == 0 {
        return String::from_str("No plugins installed");
    }
    let ghost rv = rows.deep_view();
    let mut formatted: Vec<String> = Vec::new();
    let mut i: usize = 0;
    proof {
        assert(rv.take(0) =~= Seq::<PluginLatestView>::empty());
        assert(formatted.deep_view() =~~= rv.take(0).map_values(
            |row: PluginLatestView| spec_latest_row(row),
        ));
    }
    while i < rows.len()
        invariant
            rv == rows.deep_view(),
            rv.len() == rows@.len(),
            i <= rows@.len(),
            formatted@.len() == i,
            formatted.deep_view() == rv.take(i as int).map_values(
                |row: PluginLatestView| spec_latest_row(row),
            ),
        decreases rows@.len() - i,
    {
        proof {
            assert(rv[i as int] == rows@[i as int].deep_view());
        }
        let mut line = rows[i].name.clone();
        line.append("\t");
        match &rows[i].version {
            Some(v) => {
                line.append(v.as_str());
            },
            None => {
                line.append("unknown");
            },
        }
        line.append("\t");
        if rows[i].installed {
            line.append("installed");
        } else {
            line.append("missing");
        }
        proof {
            assert(line@ =~= spec_latest_row(rv[i as int]));
        }
        let ghost before = formatted.deep_view();
        r_push(&mut formatted, line);
        proof {
            assert(formatted.deep_view() =~= before.push(spec_latest_row(rv[i as int])));
            assert(rv.take(i + 1) =~= rv.take(i as int).push(rv[i as int]));
            assert(formatted.deep_view() =~~= rv.take(i + 1).map_values(
                |row: PluginLatestView| spec_latest_row(row),
            ));
        }
        i = i + 1;
    }
    proof {
        assert(rv.take(rv.len() as int) =~= rv);
    }
    crate::text::join_char(&formatted, '\n')
}

fn r_push(v: &mut Vec<String>, s: String)
    ensures
        final(v)@ == old(v)@.push(s),
{
    v.push(s)
}

/// The installed versions a listing shows for a query: those the query
/// pattern matches; an empty selection is an error naming the plugin.
pub fn filter_versions_by_query(
    plugin_name: &str,
    versions: &Vec<String>,
    query: Option<&str>,
) -> (r: Result<Vec<String>, AsdfError>)
    ensures
        query is None ==> (r matches Ok(vs) && vs.deep_view() == versions.deep_view()),
        query matches Some(q) ==> {
            &&& r matches Ok(vs) ==> {
                &&& vs.deep_view() == versions.deep_view().filter(
                    |v: Seq<char>| re_match(spec_query_pattern(q@), v),
                )
                &&& vs.deep_view().len() > 0
            }
            &&& versions.deep_view().filter(
                |v: Seq<char>| re_match(spec_query_pattern(q@), v),
            ).len() == 0 ==> r is Err
            &&& re_valid(spec_query_pattern(q@)) ==> (r is Ok <==> versions.deep_view().filter(
                |v: Seq<char>| re_match(spec_query_pattern(q@), v),
            ).len() > 0)
            &&& re_valid(spec_query_pattern(q@)) ==> (r matches Err(e) ==> (e matches
                AsdfError::NoCompatibleVersions(n, qq) && n@ == plugin_name@ && qq@ == q@))
            &&& (!re_valid(spec_query_pattern(q@)) && versions@.len() > 0) ==> (r matches Err(e)
                && e matches AsdfError::ParseError(_, p) && p@ == spec_query_pattern(q@))
            &&& versions@.len() == 0 ==> (r matches Err(e) && e matches
                AsdfError::NoCompatibleVersions(n, qq) && n@ == plugin_name@ && qq@ == q@)
        },
{
    match query {
        None => {
            let mut out: Vec<String> = Vec::new();
            let ghost vv = versions.deep_view();
            let mut i: usize = 0;
            proof {
                assert(out.deep_view() =~= vv.take(0));
            }
            while i < versions.len()
                invariant
                    vv == versions.deep_view(),
                    vv.len() == versions@.len(),
                    i <= versions@.len(),
                    out@.len() == i,
                    out.deep_view() == vv.take(i as int),
                decreases versions@.len() - i,
            {
                proof {
                    assert(vv[i as int] == versions@[i as int]@);
                }
                let ghost before = out.deep_view();
                out.push(versions[i].clone());
                proof {
                    assert(out.deep_view() =~= before.push(vv[i as int]));
                    assert(out.deep_view() =~= vv.take(i + 1));
                }
                i = i + 1;
            }
            proof {
                assert(vv.take(vv.len() as int) =~= vv);
            }
            Ok(out)
        },
        Some(q) => {
            let pattern = query_pattern(q);
            let ghost vv = versions.deep_view();
            let ghost pred = (|v: Seq<char>| re_match(spec_query_pattern(q@), v));
            let mut kept: Vec<String> = Vec::new();
            let mut i: usize = 0;
            proof {
                assert(vv.take(0) =~= Seq::<Seq<char>>::empty());
                reveal(Seq::filter);
                assert(kept.deep_view() =~= vv.take(0).filter(pred));
            }
            while i < versions.len()
                invariant
                    query matches Some(qq) && qq@ == q@,
                    vv == versions.deep_view(),
                    vv.len() == versions@.len(),
                    i <= versions@.len(),
                    i > 0 ==> re_valid(spec_query_pattern(q@)),
                    pattern@ == spec_query_pattern(q@),
                    pred == (|v: Seq<char>| re_match(spec_query_pattern(q@), v)),
                    kept.deep_view() == vv.take(i as int).filter(pred),
                decreases versions@.len() - i,
            {
                proof {
                    assert(vv[i as int] == versions@[i as int]@);
                    assert(vv.take(i + 1).drop_last() =~= vv.take(i as int));
                    assert(vv.take(i + 1).last() == vv[i as int]);
                    reveal(Seq::filter);
                }
                match regex_match(pattern.as_str(), versions[i].as_str()) {
                    Err(e) => {
                        return Err(e);
                    },
                    Ok(m) => {
                        if m {
                            let ghost before = kept.deep_view();
                            kept.push(versions[i].clone());
                            proof {
                                assert(kept.deep_view() =~= before.push(vv[i as int]));
                            }
                        }
                    },
                }
                i = i + 1;
            }
            proof {
                assert(vv.take(vv.len() as int) =~= vv);
            }
            if kept.len() == 0 {
                proof {
                    assert(kept.deep_view().len() == kept@.len());
                }
                Err(
                    AsdfError::NoCompatibleVersions(
                        String::from_str(plugin_name),
                        String::from_str(q),
                    ),
                )
            } else {
                proof {
                    assert(kept.deep_view().len() == kept@.len());
                }
                Ok(kept)
            }
        },
    }
}

} // verus!
