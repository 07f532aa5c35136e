//! Runtime dispatch of a shim invocation.
//!
//! When a generated shim runs, the dispatcher picks, among the versions
//! resolved for the plugins that claim the executable, the first one the
//! shim's metadata actually covers (or a `path:` version), and computes
//! where the real binary lives.  The binary performs the `exec`; which
//! version may be chosen is decided and proved here.

use vstd::prelude::*;

use crate::errors::AsdfError;
use crate::resolve::{VersionSpecifier, VersionSpecifierView};
use crate::shims::{first_token, spec_first_token};
use crate::text::{
    eq_str, spec_find, spec_split, spec_starts_with, split_char, starts_with_str,
};

verus! {

/// The second space-separated token of a text, when it has one.
pub open spec fn spec_second_token(s: Seq<char>) -> Option<Seq<char>> {
    if spec_find(s, ' ') == -1 {
        None
    } else {
        Some(spec_first_token(s.skip(spec_find(s, ' ') + 1)))
    }
}

fn second_token(s: &str) -> (r: Option<String>)
    ensures
        r.deep_view() == spec_second_token(s@),
{
    let n = s.unicode_len();
    match crate::text::find_char(s, ' ') {
        None => None,
        Some(i) => {
            proof {
                crate::text::lemma_find(s@, ' ');
            }
            let rest = crate::text::substr(s, i + 1, n);
            Some(first_token(rest.as_str()))
        },
    }
}

/// A single version token is accepted for a plugin when some entry of the
/// shim's version list names that plugin and either names the same
/// version or the token is a `path:` version.
pub open spec fn spec_token_accepted(
    plugin: Seq<char>,
    token: Seq<char>,
    entries: Seq<Seq<char>>,
) -> bool {
    exists|j: int|
        0 <= j < entries.len() && spec_first_token(#[trigger] entries[j]) == plugin && (
        spec_second_token(entries[j]) == Some(token) || spec_starts_with(token, "path:"@))
}

fn token_accepted(plugin: &str, token: &str, entries: &Vec<String>) -> (r: bool)
    ensures
        r == spec_token_accepted(plugin@, token@, entries.deep_view()),
{
    let ghost ev = entries.deep_view();
    proof {
        reveal_strlit("path:");
    }
    let is_path = starts_with_str(token, "path:");
    let mut j: usize = 0;
    while j < entries.len()
        invariant
            ev == entries.deep_view(),
            ev.len() == entries@.len(),
            j <= entries@.len(),
            is_path == spec_starts_with(token@, "path:"@),
            forall|k: int| 0 <= k < j ==> !(spec_first_token(#[trigger] ev[k]) == plugin@ && (
            spec_second_token(ev[k]) == Some(token@) || spec_starts_with(token@, "path:"@))),
        decreases entries@.len() - j,
    {
        proof {
            assert(ev[j as int] == entries@[j as int]@);
        }
        let name = first_token(entries[j].as_str());
        if eq_str(name.as_str(), plugin) {
            if is_path {
                return true;
            }
            match second_token(entries[j].as_str()) {
                Some(v) => {
                    if eq_str(v.as_str(), token) {
                        proof {
                            assert(spec_second_token(ev[j as int]) == Some(token@));
                        }
                        return true;
                    }
                },
                None => {},
            }
        }
        j = j + 1;
    }
    false
}

/// The first token of the resolved version text that the shim accepts for
/// this plugin.
pub open spec fn spec_select_token(
    plugin: Seq<char>,
    tokens: Seq<Seq<char>>,
    entries: Seq<Seq<char>>,
) -> Option<Seq<char>>
    decreases tokens.len(),
{
    if tokens.len() == 0 {
        None
    } else if spec_token_accepted(plugin, tokens[0], entries) {
        Some(tokens[0])
    } else {
        spec_select_token(plugin, tokens.drop_first(), entries)
    }
}

/// The version tokens a resolution text offers: a `path:` text is one
/// token, spaces and all, as in the file grammar; anything else is split
/// at spaces.
pub open spec fn spec_version_tokens(v: Seq<char>) -> Seq<Seq<char>> {
    if spec_starts_with(v, "path:"@) {
        seq![v]
    } else {
        spec_split(v, ' ')
    }
}

/// The selection over all plugins that claim the shim, in metadata order:
/// the first plugin whose version text yields an accepted token gives the
/// result `<plugin> <token>`.  Both the primary selection over full
/// resolutions and the preset fallback run this same rule.
pub open spec fn spec_select(
    plugins: Seq<Seq<char>>,
    version_texts: Seq<Option<Seq<char>>>,
    entries: Seq<Seq<char>>,
) -> Option<Seq<char>>
    decreases plugins.len(),
{
    if plugins.len() == 0 || version_texts.len() == 0 {
        None
    } else {
        let rest = spec_select(plugins.drop_first(), version_texts.drop_first(), entries);
        match version_texts[0] {
            Some(v) => match spec_select_token(plugins[0], spec_version_tokens(v), entries) {
                Some(t) => Some(plugins[0] + " "@ + t),
                None => rest,
            },
            None => rest,
        }
    }
}

/// The version texts of a list of resolutions.
pub open spec fn spec_resolution_texts(resolutions: Seq<Option<VersionSpecifierView>>) -> Seq<
    Option<Seq<char>>,
> {
    resolutions.map_values(
        |r: Option<VersionSpecifierView>| match r {
            Some(spec) => Some(spec.version),
            None => None,
        },
    )
}

/// The primary selection: the shared rule applied to the plugins'
/// resolution results.
pub open spec fn spec_select_version(
    plugins: Seq<Seq<char>>,
    resolutions: Seq<Option<VersionSpecifierView>>,
    entries: Seq<Seq<char>>,
) -> Option<Seq<char>> {
    spec_select(plugins, spec_resolution_texts(resolutions), entries)
}

fn select_token(plugin: &str, tokens: &Vec<String>, entries: &Vec<String>) -> (r: Option<String>)
    ensures
        r.deep_view() == spec_select_token(plugin@, tokens.deep_view(), entries.deep_view()),
{
    let ghost tv = tokens.deep_view();
    proof {
        assert(tv.skip(0) =~= tv);
    }
    let mut i: usize = 0;
    while i < tokens.len()
        invariant
            tv == tokens.deep_view(),
            tv.len() == tokens@.len(),
            i <= tokens@.len(),
            spec_select_token(plugin@, tv, entries.deep_view()) == spec_select_token(
                plugin@,
                tv.skip(i as int),
                entries.deep_view(),
            ),
        decreases tokens@.len() - i,
    {
        proof {
            assert(tv[i as int] == tokens@[i as int]@);
            assert(tv.skip(i as int)[0] == tv[i as int]);
            assert(tv.skip(i as int).drop_first() =~= tv.skip(i + 1));
        }
        if token_accepted(plugin, tokens[i].as_str(), entries) {
            return Some(tokens[i].clone());
        }
        i = i + 1;
    }
    proof {
        assert(tv.skip(tv.len() as int) =~= Seq::<Seq<char>>::empty());
    }
    None
}

/// The shared selection over version texts.
fn select_among(
    plugins: &Vec<String>,
    version_texts: &Vec<Option<String>>,
    entries: &Vec<String>,
) -> (r: Option<String>)
    ensures
        r.deep_view() == spec_select(
            plugins.deep_view(),
            version_texts.deep_view(),
            entries.deep_view(),
        ),
{
    let ghost pv = plugins.deep_view();
    let ghost rv = version_texts.deep_view();
    let ghost ev = entries.deep_view();
    proof {
        assert(pv.skip(0) =~= pv);
        assert(rv.skip(0) =~= rv);
    }
    let n = if plugins.len() < version_texts.len() {
        plugins.len()
    } else {
        version_texts.len()
    };
    let mut i: usize = 0;
    while i < n
        invariant
            pv == plugins.deep_view(),
            rv == version_texts.deep_view(),
            ev == entries.deep_view(),
            pv.len() == plugins@.len(),
            rv.len() == version_texts@.len(),
            n <= pv.len(),
            n <= rv.len(),
            n == if pv.len() < rv.len() {
                pv.len()
            } else {
                rv.len()
            },
            i <= n,
            spec_select(pv, rv, ev) == spec_select(pv.skip(i as int), rv.skip(i as int), ev),
        decreases n - i,
    {
        proof {
            assert(pv[i as int] == plugins@[i as int]@);
            assert(rv[i as int] == version_texts@[i as int].deep_view());
            assert(pv.skip(i as int)[0] == pv[i as int]);
            assert(rv.skip(i as int)[0] == rv[i as int]);
            assert(pv.skip(i as int).drop_first() =~= pv.skip(i + 1));
            assert(rv.skip(i as int).drop_first() =~= rv.skip(i + 1));
        }
        match &version_texts[i] {
            Some(v) => {
                proof {
                    reveal_strlit("path:");
                }
                let tokens = if starts_with_str(v.as_str(), "path:") {
                    let mut t: Vec<String> = Vec::new();
                    t.push(v.clone());
                    proof {
                        assert(t.deep_view() =~= spec_version_tokens(rv[i as int]->Some_0));
                    }
                    t
                } else {
                    split_char(v.as_str(), ' ')
                };
                match select_token(plugins[i].as_str(), &tokens, entries) {
                    Some(t) => {
                        let mut out = plugins[i].clone();
                        out.append(" ");
                        out.append(t.as_str());
                        proof {
                            assert(out@ =~= pv[i as int] + " "@ + t@);
                        }
                        return Some(out);
                    },
                    None => {},
                }
            },
            None => {},
        }
        i = i + 1;
    }
    proof {
        if pv.len() < rv.len() {
            assert(pv.skip(n as int).len() == 0);
        } else {
            assert(rv.skip(n as int).len() == 0);
        }
    }
    None
}

/// Pick the version a shim invocation should dispatch to.  `plugins` are
/// the plugins named by the shim's metadata, `resolutions` their
/// resolution results in the same order, and `entries` the shim's version
/// list (metadata pairs plus the synthetic `system` pairs).
pub fn select_version(
    plugins: &Vec<String>,
    resolutions: &Vec<Option<VersionSpecifier>>,
    entries: &Vec<String>,
) -> (r: Option<String>)
    ensures
        r.deep_view() == spec_select_version(
            plugins.deep_view(),
            resolutions.deep_view(),
            entries.deep_view(),
        ),
{
    let ghost rv = resolutions.deep_view();
    let mut texts: Vec<Option<String>> = Vec::new();
    let mut i: usize = 0;
    proof {
        assert(texts.deep_view() =~= spec_resolution_texts(rv.take(0)));
    }
    while i < resolutions.len()
        invariant
            rv == resolutions.deep_view(),
            rv.len() == resolutions@.len(),
            i <= resolutions@.len(),
            texts@.len() == i,
            texts.deep_view() == spec_resolution_texts(rv.take(i as int)),
        decreases resolutions@.len() - i,
    {
        proof {
            assert(rv[i as int] == resolutions@[i as int].deep_view());
        }
        let text = match &resolutions[i] {
            Some(spec) => Some(spec.version.clone()),
            None => None,
        };
        let ghost tv = text.deep_view();
        let ghost before = texts.deep_view();
        texts.push(text);
        proof {
            assert(texts.deep_view() =~= before.push(tv));
            assert(rv.take(i + 1) =~= rv.take(i as int).push(rv[i as int]));
            assert(texts.deep_view() =~~= spec_resolution_texts(rv.take(i + 1)));
        }
        i = i + 1;
    }
    proof {
        assert(rv.take(rv.len() as int) =~= rv);
    }
    select_among(plugins, &texts, entries)
}

/// The fallback selection, run when the primary selection found nothing:
/// the same rule over the plugins' preset version texts, in the same
/// shim-metadata order.  Only a token the shim's version list accepts for
/// its plugin (or a `path:` token) can come out, exactly as in the
/// primary selection.
pub fn select_from_preset_version(
    plugins: &Vec<String>,
    preset_versions_by_plugin: &Vec<Option<String>>,
    entries: &Vec<String>,
) -> (r: Option<String>)
    ensures
        r.deep_view() == spec_select(
            plugins.deep_view(),
            preset_versions_by_plugin.deep_view(),
            entries.deep_view(),
        ),
{
    select_among(plugins, preset_versions_by_plugin, entries)
}

/// Dispatcher coherence: whatever the selection rule returns names one
/// of the shim's plugins together with a token that the shim's version
/// list covers for that plugin, or a `path:` token for such a plugin.
/// The dispatcher can therefore never pick a pair the shim does not
/// claim, apart from the always-permitted `path:` versions — and the
/// preset fallback obeys the same bound.
pub proof fn lemma_select_coherent(
    plugins: Seq<Seq<char>>,
    version_texts: Seq<Option<Seq<char>>>,
    entries: Seq<Seq<char>>,
    r: Seq<char>,
)
    requires
        spec_select(plugins, version_texts, entries) == Some(r),
    ensures
        exists|p: Seq<char>, t: Seq<char>|
            {
                &&& #[trigger] (p + " "@ + t) == r
                &&& plugins.contains(p)
                &&& spec_token_accepted(p, t, entries)
            },
    decreases plugins.len(),
{
    if plugins.len() == 0 || version_texts.len() == 0 {
    } else {
        let hit = match version_texts[0] {
            Some(v) => spec_select_token(plugins[0], spec_version_tokens(v), entries),
            None => None::<Seq<char>>,
        };
        match hit {
            Some(t) => {
                lemma_select_token_accepted(
                    plugins[0],
                    spec_version_tokens(version_texts[0]->Some_0),
                    entries,
                    t,
                );
                assert(plugins[0] + " "@ + t == r);
                assert(plugins.contains(plugins[0]));
            },
            None => {
                lemma_select_coherent(
                    plugins.drop_first(),
                    version_texts.drop_first(),
                    entries,
                    r,
                );
                let (p, t) = choose|p: Seq<char>, t: Seq<char>|
                    {
                        &&& #[trigger] (p + " "@ + t) == r
                        &&& plugins.drop_first().contains(p)
                        &&& spec_token_accepted(p, t, entries)
                    };
                let j = choose|j: int|
                    0 <= j < plugins.drop_first().len() && plugins.drop_first()[j] == p;
                assert(plugins[j + 1] == p);
                assert(plugins.contains(p));
            },
        }
    }
}

/// The same coherence, stated for the primary selection over resolutions.
pub proof fn lemma_select_version_coherent(
    plugins: Seq<Seq<char>>,
    resolutions: Seq<Option<VersionSpecifierView>>,
    entries: Seq<Seq<char>>,
    r: Seq<char>,
)
    requires
        spec_select_version(plugins, resolutions, entries) == Some(r),
    ensures
        exists|p: Seq<char>, t: Seq<char>|
            {
                &&& #[trigger] (p + " "@ + t) == r
                &&& plugins.contains(p)
                &&& spec_token_accepted(p, t, entries)
            },
{
    lemma_select_coherent(plugins, spec_resolution_texts(resolutions), entries, r);
}

proof fn lemma_select_token_accepted(
    plugin: Seq<char>,
    tokens: Seq<Seq<char>>,
    entries: Seq<Seq<char>>,
    t: Seq<char>,
)
    requires
        spec_select_token(plugin, tokens, entries) == Some(t),
    ensures
        spec_token_accepted(plugin, t, entries),
    decreases tokens.len(),
{
    if tokens.len() == 0 {
    } else if spec_token_accepted(plugin, tokens[0], entries) {
    } else {
        lemma_select_token_accepted(plugin, tokens.drop_first(), entries, t);
    }
}

/// The resolved version texts of the plugins that claim a shim, those
/// that resolved at all, in order.
pub fn preset_versions(resolutions: &Vec<Option<String>>) -> (r: Vec<String>)
    ensures
        r.deep_view() == resolutions.deep_view().filter(|v: Option<Seq<char>>| v is Some)
            .map_values(|v: Option<Seq<char>>| v->Some_0),
{
    let ghost rv = resolutions.deep_view();
    let mut r: Vec<String> = Vec::new();
    let mut i: usize = 0;
    proof {
        assert(rv.take(0) =~= Seq::<Option<Seq<char>>>::empty());
        reveal(Seq::filter);
        assert(r.deep_view() =~= rv.take(0).filter(|v: Option<Seq<char>>| v is Some).map_values(
            |v: Option<Seq<char>>| v->Some_0,
        ));
    }
    while i < resolutions.len()
        invariant
            rv == resolutions.deep_view(),
            rv.len() == resolutions@.len(),
            i <= resolutions@.len(),
            r.deep_view() == rv.take(i as int).filter(|v: Option<Seq<char>>| v is Some)
                .map_values(|v: Option<Seq<char>>| v->Some_0),
        decreases resolutions@.len() - i,
    {
        proof {
            assert(rv[i as int] == resolutions@[i as int].deep_view());
            assert(rv.take(i + 1).drop_last() =~= rv.take(i as int));
            assert(rv.take(i + 1).last() == rv[i as int]);
            reveal(Seq::filter);
        }
        match &resolutions[i] {
            Some(v) => {
                let ghost before = r.deep_view();
                r.push(v.clone());
                proof {
                    assert(r.deep_view() =~= before.push(rv[i as int]->Some_0));
                    assert(rv.take(i + 1).filter(|v: Option<Seq<char>>| v is Some) =~= rv.take(
                        i as int,
                    ).filter(|v: Option<Seq<char>>| v is Some).push(rv[i as int]));
                    assert(r.deep_view() =~~= rv.take(i + 1).filter(
                        |v: Option<Seq<char>>| v is Some,
                    ).map_values(|v: Option<Seq<char>>| v->Some_0));
                }
            },
            None => {
                proof {
                    assert(rv.take(i + 1).filter(|v: Option<Seq<char>>| v is Some) =~= rv.take(
                        i as int,
                    ).filter(|v: Option<Seq<char>>| v is Some));
                }
            },
        }
        i = i + 1;
    }
    proof {
        assert(rv.take(rv.len() as int) =~= rv);
    }
    r
}

/// What a shim invocation must do once selection has run: an unknown shim
/// fails, a shim with no selected version fails with the no-version
/// error, and otherwise the selected `<plugin> <version>` pair is handed
/// back for dispatch.
pub fn with_shim_executable(
    shim_name: &str,
    shim_is_file: bool,
    selected_version: Option<String>,
) -> (r: Result<String, AsdfError>)
    ensures
        !shim_is_file ==> (r matches Err(e) && e matches AsdfError::UnknownShim(n) && n@
            == shim_name@),
        shim_is_file && selected_version is None ==> (r matches Err(e) && e matches
            AsdfError::NoVersionSet(n) && n@ == shim_name@),
        shim_is_file ==> (selected_version matches Some(v) ==> r matches Ok(s) && s@ == v@),
{
    if !shim_is_file {
        Err(AsdfError::UnknownShim(String::from_str(shim_name)))
    } else {
        match selected_version {
            Some(v) => Ok(v),
            None => Err(AsdfError::NoVersionSet(String::from_str(shim_name))),
        }
    }
}

/// Where the real binary for a non-`system` version lives: the
/// executable's path relative to the version's install directory.
pub fn executable_path(
    data_dir: &str,
    plugin_name: &str,
    version: &str,
    executable_rel: &str,
) -> (r: Option<String>)
    ensures
        r.deep_view() == match crate::paths::spec_find_install_path(
            data_dir@,
            plugin_name@,
            version@,
        ) {
            Some(p) => Some(p + "/"@ + executable_rel@),
            None => None::<Seq<char>>,
        },
{
    match crate::paths::find_install_path(data_dir, plugin_name, version) {
        Some(p) => {
            let mut r = p;
            r.append("/");
            r.append(executable_rel);
            proof {
                assert(r@ =~= crate::paths::spec_find_install_path(
                    data_dir@,
                    plugin_name@,
                    version@,
                )->Some_0 + "/"@ + executable_rel@);
            }
            Some(r)
        },
        None => None,
    }
}

/// The `PATH` entries with the shims directory taken out, for running a
/// `system` version.
pub fn filter_shims_from_path(entries: &Vec<String>, shims_dir: &str) -> (r: Vec<String>)
    ensures
        r.deep_view() == entries.deep_view().filter(|p: Seq<char>| p != shims_dir@),
{
    let ghost ev = entries.deep_view();
    let mut r: Vec<String> = Vec::new();
    let mut i: usize = 0;
    proof {
        assert(ev.take(0) =~= Seq::<Seq<char>>::empty());
        reveal(Seq::filter);
        assert(r.deep_view() =~= ev.take(0).filter(|p: Seq<char>| p != shims_dir@));
    }
    while i < entries.len()
        invariant
            ev == entries.deep_view(),
            ev.len() == entries@.len(),
            i <= entries@.len(),
            r.deep_view() == ev.take(i as int).filter(|p: Seq<char>| p != shims_dir@),
        decreases entries@.len() - i,
    {
        proof {
            assert(ev[i as int] == entries@[i as int]@);
            assert(ev.take(i + 1).drop_last() =~= ev.take(i as int));
            assert(ev.take(i + 1).last() == ev[i as int]);
            reveal(Seq::filter);
        }
        if !eq_str(entries[i].as_str(), shims_dir) {
            let ghost before = r.deep_view();
            r.push(entries[i].clone());
            proof {
                assert(r.deep_view() =~= before.push(ev[i as int]));
            }
        }
        i = i + 1;
    }
    proof {
        assert(ev.take(ev.len() as int) =~= ev);
    }
    r
}

} // verus!
