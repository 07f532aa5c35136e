//! Checks on plugins and installed versions, and plugin help assembly.
//!
//! The binary reports whether the relevant directories exist; the rules on
//! what those facts mean are decided and proved here.

use vstd::prelude::*;

use crate::errors::AsdfError;
use crate::paths::spec_find_install_path;

verus! {

/// A plugin exists when its name is non-empty and its directory is there.
pub fn plugin_exists(plugin_name: &str, plugin_dir_is_dir: bool) -> (r: Result<(), AsdfError>)
    ensures
        plugin_name@.len() == 0 ==> r == Err::<(), AsdfError>(AsdfError::NoPluginGiven),
        plugin_name@.len() > 0 && !plugin_dir_is_dir ==> (r matches Err(e) && e matches
            AsdfError::NoSuchPlugin(n) && n@ == plugin_name@),
        plugin_name@.len() > 0 && plugin_dir_is_dir ==> r is Ok,
{
    if plugin_name.unicode_len() == 0 {
        Err(AsdfError::NoPluginGiven)
    } else if !plugin_dir_is_dir {
        Err(AsdfError::NoSuchPlugin(String::from_str(plugin_name)))
    } else {
        Ok(())
    }
}

/// A version exists when the plugin exists and the install directory the
/// version names is there; `system` and other versions that name no
/// directory are always fine.
pub fn version_exists(
    plugin_name: &str,
    version: &str,
    plugin_dir_is_dir: bool,
    install_dir_is_dir: bool,
) -> (r: Result<(), AsdfError>)
    ensures
        plugin_name@.len() == 0 ==> r == Err::<(), AsdfError>(AsdfError::NoPluginGiven),
        plugin_name@.len() > 0 && !plugin_dir_is_dir ==> (r matches Err(e) && e matches
            AsdfError::NoSuchPlugin(n) && n@ == plugin_name@),
        plugin_name@.len() > 0 && plugin_dir_is_dir ==> {
            &&& spec_find_install_path(Seq::<char>::empty(), plugin_name@, version@) is None ==> r
                is Ok
            &&& spec_find_install_path(Seq::<char>::empty(), plugin_name@, version@) is Some ==> {
                &&& install_dir_is_dir ==> r is Ok
                &&& !install_dir_is_dir ==> (r matches Err(e) && e matches
                    AsdfError::VersionNotInstalled(p, v) && p@ == plugin_name@ && v@ == version@)
            }
        },
{
    match plugin_exists(plugin_name, plugin_dir_is_dir) {
        Err(e) => Err(e),
        Ok(_) => {
            if crate::text::eq_str(version, "system") {
                Ok(())
            } else if install_dir_is_dir {
                Ok(())
            } else {
                Err(
                    AsdfError::VersionNotInstalled(
                        String::from_str(plugin_name),
                        String::from_str(version),
                    ),
                )
            }
        },
    }
}

/// The concatenation of a sequence of texts.
pub open spec fn spec_concat_all(parts: Seq<Seq<char>>) -> Seq<char>
    decreases parts.len(),
{
    if parts.len() == 0 {
        Seq::<char>::empty()
    } else {
        parts[0] + spec_concat_all(parts.drop_first())
    }
}

proof fn lemma_concat_all_push(parts: Seq<Seq<char>>, last: Seq<char>)
    ensures
        spec_concat_all(parts.push(last)) == spec_concat_all(parts) + last,
    decreases parts.len(),
{
    if parts.len() == 0 {
        assert(parts.push(last)[0] == last);
        assert(parts.push(last).drop_first() =~= parts);
        assert(spec_concat_all(parts.push(last)) == last + spec_concat_all(parts));
        assert(last + Seq::<char>::empty() =~= last);
        assert(spec_concat_all(parts) + last =~= last);
    } else {
        lemma_concat_all_push(parts.drop_first(), last);
        assert(parts.push(last)[0] == parts[0]);
        assert(parts.push(last).drop_first() =~= parts.drop_first().push(last));
        assert(spec_concat_all(parts.push(last)) == parts[0] + (spec_concat_all(
            parts.drop_first(),
        ) + last));
        assert(spec_concat_all(parts) == parts[0] + spec_concat_all(parts.drop_first()));
        assert(parts[0] + (spec_concat_all(parts.drop_first()) + last) =~= (parts[0]
            + spec_concat_all(parts.drop_first())) + last);
    }
}

/// A plugin's help text: the overview followed by whatever extra help
/// sections the plugin provides, in order.
pub fn plugin_help(overview: &str, extras: &Vec<String>) -> (r: String)
    ensures
        r@ == overview@ + spec_concat_all(extras.deep_view()),
{
    let ghost ev = extras.deep_view();
    let mut r = String::from_str(overview);
    proof {
        assert(ev.take(0) =~= Seq::<Seq<char>>::empty());
        assert(r@ =~= overview@ + spec_concat_all(ev.take(0)));
    }
    let mut i: usize = 0;
    while i < extras.len()
        invariant
            ev == extras.deep_view(),
            ev.len() == extras@.len(),
            i <= extras@.len(),
            r@ == overview@ + spec_concat_all(ev.take(i as int)),
        decreases extras@.len() - i,
    {
        r.append(extras[i].as_str());
        proof {
            assert(ev.take(i + 1) =~= ev.take(i as int).push(ev[i as int]));
            lemma_concat_all_push(ev.take(i as int), ev[i as int]);
            assert((overview@ + spec_concat_all(ev.take(i as int))) + ev[i as int] =~= overview@
                + (spec_concat_all(ev.take(i as int)) + ev[i as int]));
        }
        i = i + 1;
    }
    proof {
        assert(ev.take(ev.len() as int) =~= ev);
    }
    r
}

/// Whether the deprecation warning for an out-of-date plugin is due:
/// legacy support is on, the plugin still ships the old legacy-file
/// callback and not the new one.
pub fn deprecated_plugin_warning(
    legacy_config: Option<&str>,
    has_old_script: bool,
    has_new_script: bool,
) -> (r: bool)
    ensures
        r == (legacy_config matches Some(v) && v@ == "yes"@ && has_old_script && !has_new_script),
{
    match legacy_config {
        Some(v) => crate::text::eq_str(v, "yes") && has_old_script && !has_new_script,
        None => false,
    }
}

} // verus!
