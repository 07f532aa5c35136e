//! The rc-file reader.
//!
//! An rc file holds `key = value` lines; both sides are trimmed, lines
//! without `=` are ignored.  Lookup first consults the nearest
//! project-local rc file, then the user rc file, then the documented
//! defaults.  The binary reads the files and hands their contents in.

use vstd::prelude::*;

use crate::errors::AsdfError;
use crate::text::{
    eq_str, find_char, lemma_find, spec_find, spec_split, spec_trim, substr, trim_str,
};

verus! {

/// The `key = value` split of one rc line, both sides trimmed; `None` for
/// a line without `=`.
pub open spec fn spec_config_line(line: Seq<char>) -> Option<(Seq<char>, Seq<char>)> {
    if spec_find(line, '=') == -1 {
        None
    } else {
        Some(
            (
                spec_trim(line.take(spec_find(line, '='))),
                spec_trim(line.skip(spec_find(line, '=') + 1)),
            ),
        )
    }
}

/// The value the first line declaring `key` assigns to it.
pub open spec fn spec_config_lookup(lines: Seq<Seq<char>>, key: Seq<char>) -> Option<Seq<char>>
    decreases lines.len(),
{
    if lines.len() == 0 {
        None
    } else {
        match spec_config_line(lines[0]) {
            Some(q) => if q.0 == key {
                Some(q.1)
            } else {
                spec_config_lookup(lines.drop_first(), key)
            },
            None => spec_config_lookup(lines.drop_first(), key),
        }
    }
}

/// Look `key` up in the contents of one rc file; an absent key is
/// exactly the `ConfigKeyMissing` error.
pub fn asdf_config_value_from_file(contents: &str, key: &str) -> (r: Result<String, AsdfError>)
    ensures
        r matches Ok(v) ==> spec_config_lookup(spec_split(contents@, '\n'), key@) matches Some(w)
            && v@ == w,
        r matches Err(e) ==> (e matches AsdfError::ConfigKeyMissing(k) && k@ == key@
            && spec_config_lookup(spec_split(contents@, '\n'), key@) is None),
{
    let lines = crate::text::split_char(contents, '\n');
    let ghost lv = spec_split(contents@, '\n');
    proof {
        assert(lv.skip(0) =~= lv);
    }
    let mut i: usize = 0;
    while i < lines.len()
        invariant
            lv == spec_split(contents@, '\n'),
            lv == lines.deep_view(),
            lv.len() == lines@.len(),
            i <= lines@.len(),
            spec_config_lookup(lv, key@) == spec_config_lookup(lv.skip(i as int), key@),
        decreases lines@.len() - i,
    {
        proof {
            assert(lv[i as int] == lines@[i as int]@);
            assert(lv.skip(i as int)[0] == lv[i as int]);
            assert(lv.skip(i as int).drop_first() =~= lv.skip(i + 1));
        }
        let line = lines[i].as_str();
        let m = line.unicode_len();
        match find_char(line, '=') {
            Some(j) => {
                proof {
                    lemma_find(line@, '=');
                }
                let raw_key = substr(line, 0, j);
                let k = trim_str(raw_key.as_str());
                if eq_str(k.as_str(), key) {
                    let raw_val = substr(line, j + 1, m);
                    let v = trim_str(raw_val.as_str());
                    proof {
                        assert(spec_config_line(lv[i as int]) matches Some(q) && q.0 == key@
                            && q.1 == v@);
                    }
                    return Ok(v);
                }
            },
            None => {},
        }
        i = i + 1;
    }
    proof {
        assert(lv.skip(lv.len() as int) =~= Seq::<Seq<char>>::empty());
    }
    Err(AsdfError::ConfigKeyMissing(String::from_str(key)))
}

/// The full lookup precedence: the nearest local rc file first, then the
/// user rc file, then the documented defaults (`legacy_version_file = no`,
/// `always_keep_download = no`).
pub open spec fn spec_config_value(
    local: Option<Seq<char>>,
    user: Option<Seq<char>>,
    key: Seq<char>,
) -> Option<Seq<char>> {
    let from_local = match local {
        Some(c) => spec_config_lookup(spec_split(c, '\n'), key),
        None => None,
    };
    let from_user = match user {
        Some(c) => spec_config_lookup(spec_split(c, '\n'), key),
        None => None,
    };
    if from_local is Some {
        from_local
    } else if from_user is Some {
        from_user
    } else if key == "legacy_version_file"@ || key == "always_keep_download"@ {
        Some("no"@)
    } else {
        None
    }
}

/// Look `key` up across both rc files and the defaults.
pub fn asdf_config_value(local_contents: Option<&str>, user_contents: Option<&str>, key: &str) -> (r:
    Option<String>)
    ensures
        r.deep_view() == spec_config_value(
            local_contents.deep_view(),
            user_contents.deep_view(),
            key@,
        ),
{
    match local_contents {
        Some(c) => {
            match asdf_config_value_from_file(c, key) {
                Ok(v) => {
                    return Some(v);
                },
                Err(_) => {},
            }
        },
        None => {},
    }
    match user_contents {
        Some(c) => {
            match asdf_config_value_from_file(c, key) {
                Ok(v) => {
                    return Some(v);
                },
                Err(_) => {},
            }
        },
        None => {},
    }
    if eq_str(key, "legacy_version_file") || eq_str(key, "always_keep_download") {
        Some(String::from_str("no"))
    } else {
        None
    }
}

} // verus!
