//! The shim file format and its maintenance.
//!
//! A shim is a short script: an interpreter line, one metadata line
//! `# asdf-plugin: <tool> <version>` per version that provides the
//! executable, and an `exec` line that re-enters this program.  The
//! metadata lines are the only record of which versions a shim covers;
//! everything that reads or rewrites them is decided and proved here, and
//! the binary only copies the results to disk.

use vstd::prelude::*;

use crate::text::{
    eq_str, spec_join, spec_split, spec_starts_with, split_char, starts_with_str, substr,
};

verus! {

/// The metadata line claiming `(tool, version)`.
pub open spec fn spec_metadata_line(tool: Seq<char>, version: Seq<char>) -> Seq<char> {
    "# asdf-plugin: "@ + tool + " "@ + version
}

pub fn metadata_line(plugin_name: &str, version: &str) -> (r: String)
    ensures
        r@ == spec_metadata_line(plugin_name@, version@),
{
    let mut r = String::from_str("# asdf-plugin: ");
    r.append(plugin_name);
    r.append(" ");
    r.append(version);
    proof {
        assert(r@ =~= spec_metadata_line(plugin_name@, version@));
    }
    r
}

/// The `<tool> <version>` texts of the metadata lines of a shim.
pub open spec fn spec_shim_plugin_versions(lines: Seq<Seq<char>>) -> Seq<Seq<char>>
    decreases lines.len(),
{
    if lines.len() == 0 {
        Seq::<Seq<char>>::empty()
    } else if spec_starts_with(lines[0], "# asdf-plugin: "@) {
        seq![lines[0].skip(15)] + spec_shim_plugin_versions(lines.drop_first())
    } else {
        spec_shim_plugin_versions(lines.drop_first())
    }
}

/// Read the `<tool> <version>` pairs out of a shim's contents.
pub fn shim_plugin_versions(contents: &str) -> (r: Vec<String>)
    ensures
        r.deep_view() == spec_shim_plugin_versions(spec_split(contents@, '\n')),
{
    let lines = split_char(contents, '\n');
    let ghost lv = spec_split(contents@, '\n');
    let mut r: Vec<String> = Vec::new();
    proof {
        assert(lv.skip(0) =~= lv);
        assert(r.deep_view() =~= Seq::<Seq<char>>::empty());
    }
    let mut i: usize = 0;
    while i < lines.len()
        invariant
            lv == spec_split(contents@, '\n'),
            lv == lines.deep_view(),
            lv.len() == lines@.len(),
            i <= lines@.len(),
            spec_shim_plugin_versions(lv) == r.deep_view() + spec_shim_plugin_versions(
                lv.skip(i as int),
            ),
        decreases lines@.len() - i,
    {
        proof {
            assert(lv[i as int] == lines@[i as int]@);
            assert(lv.skip(i as int)[0] == lv[i as int]);
            assert(lv.skip(i as int).drop_first() =~= lv.skip(i + 1));
        }
        let line = lines[i].as_str();
        proof {
            reveal_strlit("# asdf-plugin: ");
        }
        if starts_with_str(line, "# asdf-plugin: ") {
            let ghost before = r.deep_view();
            r.push(substr(line, 15, line.unicode_len()));
            proof {
                assert(r.deep_view() =~= before.push(lv[i as int].skip(15)));
                assert(before + (seq![lv[i as int].skip(15)] + spec_shim_plugin_versions(
                    lv.skip(i + 1),
                )) =~= before.push(lv[i as int].skip(15)) + spec_shim_plugin_versions(
                    lv.skip(i + 1),
                ));
            }
        }
        i = i + 1;
    }
    proof {
        assert(lv.skip(lv.len() as int) =~= Seq::<Seq<char>>::empty());
        assert(r.deep_view() + Seq::<Seq<char>>::empty() =~= r.deep_view());
    }
    r
}

/// The first space-separated token of a text, or all of it when it has no
/// space.
pub open spec fn spec_first_token(s: Seq<char>) -> Seq<char> {
    if crate::text::spec_find(s, ' ') == -1 {
        s
    } else {
        s.take(crate::text::spec_find(s, ' '))
    }
}

pub fn first_token(s: &str) -> (r: String)
    ensures
        r@ == spec_first_token(s@),
{
    match crate::text::find_char(s, ' ') {
        None => String::from_str(s),
        Some(i) => {
            proof {
                crate::text::lemma_find(s@, ' ');
            }
            substr(s, 0, i)
        },
    }
}

/// The plugins named by a shim's metadata lines, in order.
pub fn shim_plugins(contents: &str) -> (r: Vec<String>)
    ensures
        r.deep_view() == spec_shim_plugin_versions(spec_split(contents@, '\n')).map_values(
            |p: Seq<char>| spec_first_token(p),
        ),
{
    let pairs = shim_plugin_versions(contents);
    let ghost pv = pairs.deep_view();
    let mut r: Vec<String> = Vec::new();
    let mut i: usize = 0;
    proof {
        assert(r.deep_view() =~= pv.take(0).map_values(|p: Seq<char>| spec_first_token(p)));
    }
    while i < pairs.len()
        invariant
            pv == pairs.deep_view(),
            pv.len() == pairs@.len(),
            i <= pairs@.len(),
            r@.len() == i,
            r.deep_view() == pv.take(i as int).map_values(|p: Seq<char>| spec_first_token(p)),
        decreases pairs@.len() - i,
    {
        proof {
            assert(pv[i as int] == pairs@[i as int]@);
        }
        let ghost before = r.deep_view();
        r.push(first_token(pairs[i].as_str()));
        proof {
            assert(r.deep_view() =~= before.push(spec_first_token(pv[i as int])));
            assert(pv.take(i + 1) =~= pv.take(i as int).push(pv[i as int]));
            assert(r.deep_view() =~~= pv.take(i + 1).map_values(
                |p: Seq<char>| spec_first_token(p),
            ));
        }
        i = i + 1;
    }
    proof {
        assert(pv.take(pv.len() as int) =~= pv);
    }
    r
}

/// The `<tool> <version>` pairs of a shim, followed by one synthetic
/// `<tool> system` pair per metadata line.
pub fn shim_versions(contents: &str) -> (r: Vec<String>)
    ensures
        r.deep_view() == spec_shim_plugin_versions(spec_split(contents@, '\n'))
            + spec_shim_plugin_versions(spec_split(contents@, '\n')).map_values(
            |p: Seq<char>| spec_first_token(p) + " system"@,
        ),
{
    let mut r = shim_plugin_versions(contents);
    let plugins = shim_plugins(contents);
    let ghost base = spec_shim_plugin_versions(spec_split(contents@, '\n'));
    let ghost sys = base.map_values(|p: Seq<char>| spec_first_token(p) + " system"@);
    let mut i: usize = 0;
    proof {
        assert(plugins.deep_view().len() == plugins@.len());
        assert(r@.len() == r.deep_view().len());
        assert(r.deep_view() =~= base + sys.take(0));
    }
    while i < plugins.len()
        invariant
            plugins.deep_view() == base.map_values(|p: Seq<char>| spec_first_token(p)),
            plugins@.len() == base.len(),
            sys == base.map_values(|p: Seq<char>| spec_first_token(p) + " system"@),
            sys.len() == base.len(),
            i <= base.len(),
            r@.len() == base.len() + i,
            r.deep_view() == base + sys.take(i as int),
        decreases base.len() - i,
    {
        let mut entry = plugins[i].clone();
        entry.append(" system");
        proof {
            assert(plugins@[i as int]@ == plugins.deep_view()[i as int]);
            assert(entry@ == spec_first_token(base[i as int]) + " system"@);
            assert(sys.take(i + 1) =~= sys.take(i as int).push(sys[i as int]));
        }
        let ghost before = r.deep_view();
        let ghost entry_view = entry@;
        r.push(entry);
        proof {
            assert(r.deep_view() =~= before.push(entry_view));
            assert(r.deep_view() =~= base + sys.take(i + 1));
        }
        i = i + 1;
    }
    proof {
        assert(sys.take(sys.len() as int) =~= sys);
    }
    r
}

/// The lines of a fresh shim script for one executable: interpreter
/// line, one metadata line, the `exec` line that re-enters this program
/// under the executable's name, and the final newline's empty segment.
pub open spec fn spec_new_shim_lines(
    program_path: Seq<char>,
    tool: Seq<char>,
    version: Seq<char>,
    executable_name: Seq<char>,
) -> Seq<Seq<char>> {
    seq![
        "#!/usr/bin/env bash"@,
        spec_metadata_line(tool, version),
        "exec "@ + program_path + " exec \""@ + executable_name + "\" \"$@\""@,
        Seq::<char>::empty(),
    ]
}

/// A fresh shim script, as text.
pub open spec fn spec_new_shim(
    program_path: Seq<char>,
    tool: Seq<char>,
    version: Seq<char>,
    executable_name: Seq<char>,
) -> Seq<char> {
    spec_join(spec_new_shim_lines(program_path, tool, version, executable_name), '\n')
}

pub fn new_shim_contents(
    program_path: &str,
    plugin_name: &str,
    version: &str,
    executable_name: &str,
) -> (r: String)
    ensures
        r@ == spec_new_shim(program_path@, plugin_name@, version@, executable_name@),
{
    let mut exec_line = String::from_str("exec ");
    exec_line.append(program_path);
    exec_line.append(" exec \"");
    exec_line.append(executable_name);
    exec_line.append("\" \"$@\"");
    let mut lines: Vec<String> = Vec::new();
    lines.push(String::from_str("#!/usr/bin/env bash"));
    lines.push(metadata_line(plugin_name, version));
    lines.push(exec_line);
    lines.push(String::new());
    proof {
        assert(lines.deep_view() =~~= spec_new_shim_lines(
            program_path@,
            plugin_name@,
            version@,
            executable_name@,
        ));
    }
    crate::text::join_char(&lines, '\n')
}

/// A sequence of lines holds the given line.
pub open spec fn spec_has_line(lines: Seq<Seq<char>>, line: Seq<char>) -> bool {
    exists|i: int| 0 <= i < lines.len() && lines[i] == line
}

/// The lines with `line` inserted immediately before the first line that
/// starts with `exec `; without such a line nothing is inserted.
pub open spec fn spec_insert_before_exec(lines: Seq<Seq<char>>, line: Seq<char>) -> Seq<
    Seq<char>,
>
    decreases lines.len(),
{
    if lines.len() == 0 {
        lines
    } else if spec_starts_with(lines[0], "exec "@) {
        seq![line] + lines
    } else {
        seq![lines[0]] + spec_insert_before_exec(lines.drop_first(), line)
    }
}

/// Whether one of the lines equals `line`, decided on a vector.
fn has_line(lines: &Vec<String>, line: &str) -> (r: bool)
    ensures
        r == spec_has_line(lines.deep_view(), line@),
{
    let ghost lv = lines.deep_view();
    let mut i: usize = 0;
    while i < lines.len()
        invariant
            lv == lines.deep_view(),
            lv.len() == lines@.len(),
            i <= lines@.len(),
            forall|j: int| 0 <= j < i ==> lv[j] != line@,
        decreases lines@.len() - i,
    {
        proof {
            assert(lv[i as int] == lines@[i as int]@);
        }
        if eq_str(lines[i].as_str(), line) {
            return true;
        }
        i = i + 1;
    }
    false
}

/// What updating a shim's text does: nothing when the metadata line is
/// already present (the update is idempotent), else the metadata line goes
/// in right above the `exec` line.
pub open spec fn spec_add_metadata(contents: Seq<char>, tool: Seq<char>, version: Seq<char>) -> Seq<
    char,
> {
    let lines = spec_split(contents, '\n');
    let ml = spec_metadata_line(tool, version);
    if spec_has_line(lines, ml) {
        contents
    } else {
        spec_join(spec_insert_before_exec(lines, ml), '\n')
    }
}

/// Add the metadata line for `(plugin, version)` to an existing shim's
/// contents.
pub fn add_shim_metadata(contents: &str, plugin_name: &str, version: &str) -> (r: String)
    ensures
        r@ == spec_add_metadata(contents@, plugin_name@, version@),
{
    let lines = split_char(contents, '\n');
    let ml = metadata_line(plugin_name, version);
    let ghost lv = spec_split(contents@, '\n');
    if has_line(&lines, ml.as_str()) {
        return String::from_str(contents);
    }
    let ghost ins = spec_insert_before_exec(lv, ml@);
    let mut out: Vec<String> = Vec::new();
    let mut i: usize = 0;
    proof {
        reveal_strlit("exec ");
        assert(lv.skip(0) =~= lv);
        assert(ins =~= out.deep_view() + spec_insert_before_exec(lv.skip(0), ml@));
    }
    while i < lines.len()
        invariant
            lv == spec_split(contents@, '\n'),
            lv == lines.deep_view(),
            lv.len() == lines@.len(),
            i <= lines@.len(),
            ml@ == spec_metadata_line(plugin_name@, version@),
            !spec_has_line(lv, ml@),
            ins == spec_insert_before_exec(lv, ml@),
            out@.len() == i,
            ins == out.deep_view() + spec_insert_before_exec(lv.skip(i as int), ml@),
            forall|j: int| 0 <= j < i ==> !spec_starts_with(lv[j], "exec "@),
        decreases lines@.len() - i,
    {
        proof {
            reveal_strlit("exec ");
            assert(lv[i as int] == lines@[i as int]@);
            assert(lv.skip(i as int)[0] == lv[i as int]);
            assert(lv.skip(i as int).drop_first() =~= lv.skip(i + 1));
        }
        if starts_with_str(lines[i].as_str(), "exec ") {
            let ghost before = out.deep_view();
            out.push(ml);
            proof {
                assert(out.deep_view() =~= before.push(ml@));
            }
            let mut j: usize = i;
            while j < lines.len()
                invariant
                    lv == lines.deep_view(),
                    lv.len() == lines@.len(),
                    i <= j <= lines@.len(),
                    out@.len() == j + 1,
                    out.deep_view() =~= before.push(ml@) + lv.subrange(i as int, j as int),
                decreases lines@.len() - j,
            {
                let ghost mid = out.deep_view();
                out.push(lines[j].clone());
                proof {
                    assert(lv[j as int] == lines@[j as int]@);
                    assert(out.deep_view() =~= mid.push(lv[j as int]));
                    assert(mid.push(lv[j as int]) =~= before.push(ml@) + lv.subrange(
                        i as int,
                        j + 1,
                    ));
                }
                j = j + 1;
            }
            proof {
                assert(spec_insert_before_exec(lv.skip(i as int), ml@) =~= seq![ml@] + lv.skip(
                    i as int,
                ));
                assert(lv.subrange(i as int, lv.len() as int) =~= lv.skip(i as int));
                assert(out.deep_view() =~= before + (seq![ml@] + lv.skip(i as int)));
                assert(out.deep_view() =~= ins);
            }
            let r = crate::text::join_char(&out, '\n');
            return r;
        } else {
            let ghost before = out.deep_view();
            out.push(lines[i].clone());
            proof {
                assert(out.deep_view() =~= before.push(lv[i as int]));
                assert(before.push(lv[i as int]) + spec_insert_before_exec(lv.skip(i + 1), ml@)
                    =~= before + (seq![lv[i as int]] + spec_insert_before_exec(
                    lv.skip(i + 1),
                    ml@,
                )));
            }
        }
        i = i + 1;
    }
    proof {
        assert(lv.skip(lv.len() as int) =~= Seq::<Seq<char>>::empty());
        assert(spec_insert_before_exec(Seq::<Seq<char>>::empty(), ml@) =~= Seq::<
            Seq<char>,
        >::empty());
        assert(out.deep_view() =~= ins);
    }
    crate::text::join_char(&out, '\n')
}

/// What removing one version's metadata line leaves: every other line, in
/// order.
pub open spec fn spec_remove_metadata(
    contents: Seq<char>,
    tool: Seq<char>,
    version: Seq<char>,
) -> Seq<char> {
    spec_join(
        spec_split(contents, '\n').filter(
            |l: Seq<char>| l != spec_metadata_line(tool, version),
        ),
        '\n',
    )
}

/// Remove the metadata line for `(plugin, version)` from a shim's
/// contents.
pub fn remove_shim_metadata(contents: &str, plugin_name: &str, version: &str) -> (r: String)
    ensures
        r@ == spec_remove_metadata(contents@, plugin_name@, version@),
{
    let lines = split_char(contents, '\n');
    let ml = metadata_line(plugin_name, version);
    let ghost lv = spec_split(contents@, '\n');
    let mut out: Vec<String> = Vec::new();
    let mut i: usize = 0;
    proof {
        assert(lv.take(0) =~= Seq::<Seq<char>>::empty());
        assert(out.deep_view() =~= lv.take(0).filter(
            |l: Seq<char>| l != spec_metadata_line(plugin_name@, version@),
        ));
    }
    while i < lines.len()
        invariant
            lv == spec_split(contents@, '\n'),
            lv == lines.deep_view(),
            lv.len() == lines@.len(),
            i <= lines@.len(),
            ml@ == spec_metadata_line(plugin_name@, version@),
            out.deep_view() == lv.take(i as int).filter(
                |l: Seq<char>| l != spec_metadata_line(plugin_name@, version@),
            ),
        decreases lines@.len() - i,
    {
        proof {
            assert(lv[i as int] == lines@[i as int]@);
            assert(lv.take(i + 1).drop_last() =~= lv.take(i as int));
            assert(lv.take(i + 1).last() == lv[i as int]);
            reveal(Seq::filter);
        }
        if !eq_str(lines[i].as_str(), ml.as_str()) {
            let ghost before = out.deep_view();
            out.push(lines[i].clone());
            proof {
                assert(out.deep_view() =~= before.push(lv[i as int]));
            }
        }
        i = i + 1;
    }
    proof {
        assert(lv.take(lv.len() as int) =~= lv);
    }
    crate::text::join_char(&out, '\n')
}

/// A shim file is deleted outright when no metadata line remains in its
/// rewritten contents, or when the tool has no installed version left.
pub fn shim_should_be_deleted(new_contents: &str, installed_count: usize) -> (r: bool)
    ensures
        r == (!crate::text::spec_contains(new_contents@, "# asdf-plugin:"@) || installed_count
            == 0),
{
    if installed_count == 0 {
        true
    } else {
        !crate::text::contains_str(new_contents, "# asdf-plugin:")
    }
}

/// Whether a shim's contents claim `(plugin, version)`.
pub fn shim_mentions(contents: &str, plugin_name: &str, version: &str) -> (r: bool)
    ensures
        r == crate::text::spec_contains(
            contents@,
            spec_metadata_line(plugin_name@, version@),
        ),
{
    let ml = metadata_line(plugin_name, version);
    crate::text::contains_str(contents, ml.as_str())
}

/// The shim names that mention the version but no longer correspond to an
/// executable: what obsolete-shim reaping removes.
pub fn obsolete_shim_names(shim_names: &Vec<String>, exec_names: &Vec<String>) -> (r: Vec<String>)
    ensures
        r.deep_view() == shim_names.deep_view().filter(
            |n: Seq<char>| !exec_names.deep_view().contains(n),
        ),
{
    let ghost sv = shim_names.deep_view();
    let ghost ev = exec_names.deep_view();
    let mut r: Vec<String> = Vec::new();
    let mut i: usize = 0;
    proof {
        assert(sv.take(0) =~= Seq::<Seq<char>>::empty());
        assert(r.deep_view() =~= sv.take(0).filter(|n: Seq<char>| !ev.contains(n)));
    }
    while i < shim_names.len()
        invariant
            sv == shim_names.deep_view(),
            ev == exec_names.deep_view(),
            sv.len() == shim_names@.len(),
            i <= shim_names@.len(),
            r.deep_view() == sv.take(i as int).filter(|n: Seq<char>| !ev.contains(n)),
        decreases shim_names@.len() - i,
    {
        proof {
            assert(sv[i as int] == shim_names@[i as int]@);
            assert(sv.take(i + 1).drop_last() =~= sv.take(i as int));
            assert(sv.take(i + 1).last() == sv[i as int]);
            reveal(Seq::filter);
        }
        let mut found = false;
        let mut j: usize = 0;
        while j < exec_names.len()
            invariant
                ev == exec_names.deep_view(),
                ev.len() == exec_names@.len(),
                j <= exec_names@.len(),
                i < sv.len(),
                sv == shim_names.deep_view(),
                sv.len() == shim_names@.len(),
                found ==> ev.contains(sv[i as int]),
                !found ==> forall|k: int| 0 <= k < j ==> ev[k] != sv[i as int],
            decreases exec_names@.len() - j,
        {
            proof {
                assert(ev[j as int] == exec_names@[j as int]@);
            }
            if eq_str(exec_names[j].as_str(), shim_names[i].as_str()) {
                found = true;
            }
            j = j + 1;
        }
        if !found {
            let ghost before = r.deep_view();
            out_push(&mut r, shim_names[i].clone());
            proof {
                assert(!ev.contains(sv[i as int]));
                assert(r.deep_view() =~= before.push(sv[i as int]));
            }
        } else {
            proof {
                assert(ev.contains(sv[i as int]));
            }
        }
        i = i + 1;
    }
    proof {
        assert(sv.take(sv.len() as int) =~= sv);
    }
    r
}

/// Push one element; spelled out so the enclosing loop's reasoning stays
/// small.
fn out_push(v: &mut Vec<String>, s: String)
    ensures
        final(v)@ == old(v)@.push(s),
{
    v.push(s)
}

/// The full version an install directory name stands for: a leading
/// `ref-` goes back to `ref:`; every other name is itself the version.
pub fn version_name_from_dir(dir_name: &str) -> (r: String)
    ensures
        spec_starts_with(dir_name@, "ref-"@) ==> r@ == "ref:"@ + dir_name@.skip(4),
        !spec_starts_with(dir_name@, "ref-"@) ==> r@ == dir_name@,
{
    proof {
        reveal_strlit("ref-");
        reveal_strlit("ref:");
    }
    if starts_with_str(dir_name, "ref-") {
        let mut r = String::from_str("ref:");
        let rest = substr(dir_name, 4, dir_name.unicode_len());
        r.append(rest.as_str());
        r
    } else {
        String::from_str(dir_name)
    }
}

proof fn lemma_find_none_concat(a: Seq<char>, b: Seq<char>, c: char)
    requires
        crate::text::spec_find(a, c) == -1,
        crate::text::spec_find(b, c) == -1,
    ensures
        crate::text::spec_find(a + b, c) == -1,
{
    crate::text::lemma_find(a, c);
    crate::text::lemma_find(b, c);
    crate::text::lemma_find(a + b, c);
    if crate::text::spec_find(a + b, c) != -1 {
        let k = crate::text::spec_find(a + b, c);
        if k < a.len() {
            assert((a + b)[k] == a[k]);
        } else {
            assert((a + b)[k] == b[k - a.len()]);
        }
    }
}

/// The metadata line holds no newline when neither the tool nor the
/// version does.
pub proof fn lemma_metadata_line_no_newline(tool: Seq<char>, version: Seq<char>)
    requires
        crate::text::spec_find(tool, '\n') == -1,
        crate::text::spec_find(version, '\n') == -1,
    ensures
        crate::text::spec_find(spec_metadata_line(tool, version), '\n') == -1,
{
    reveal_strlit("# asdf-plugin: ");
    reveal_strlit(" ");
    assert(forall|j: int| 0 <= j < 15 ==> "# asdf-plugin: "@[j] != '\n');
    crate::text::lemma_find("# asdf-plugin: "@, '\n');
    if crate::text::spec_find("# asdf-plugin: "@, '\n') != -1 {
        assert("# asdf-plugin: "@[crate::text::spec_find("# asdf-plugin: "@, '\n')] == '\n');
    }
    assert(forall|j: int| 0 <= j < 1 ==> " "@[j] != '\n');
    crate::text::lemma_find(" "@, '\n');
    if crate::text::spec_find(" "@, '\n') != -1 {
        assert(" "@[crate::text::spec_find(" "@, '\n')] == '\n');
    }
    lemma_find_none_concat("# asdf-plugin: "@, tool, '\n');
    lemma_find_none_concat("# asdf-plugin: "@ + tool, " "@, '\n');
    lemma_find_none_concat("# asdf-plugin: "@ + tool + " "@, version, '\n');
}

proof fn lemma_insert_adds(lines: Seq<Seq<char>>, ml: Seq<char>)
    requires
        exists|i: int| 0 <= i < lines.len() && spec_starts_with(#[trigger] lines[i], "exec "@),
    ensures
        spec_has_line(spec_insert_before_exec(lines, ml), ml),
    decreases lines.len(),
{
    let out = spec_insert_before_exec(lines, ml);
    if spec_starts_with(lines[0], "exec "@) {
        assert(out[0] == ml);
    } else {
        let w = choose|i: int|
            0 <= i < lines.len() && spec_starts_with(#[trigger] lines[i], "exec "@);
        assert(lines.drop_first()[w - 1] == lines[w]);
        lemma_insert_adds(lines.drop_first(), ml);
        let rec = spec_insert_before_exec(lines.drop_first(), ml);
        let k = choose|k: int| 0 <= k < rec.len() && rec[k] == ml;
        assert(out[k + 1] == ml);
    }
}

proof fn lemma_insert_no_sep(lines: Seq<Seq<char>>, ml: Seq<char>, c: char)
    requires
        forall|i: int| 0 <= i < lines.len() ==> crate::text::spec_find(
            #[trigger] lines[i],
            c,
        ) == -1,
        crate::text::spec_find(ml, c) == -1,
    ensures
        spec_insert_before_exec(lines, ml).len() >= lines.len(),
        forall|i: int| 0 <= i < spec_insert_before_exec(lines, ml).len()
            ==> crate::text::spec_find(#[trigger] spec_insert_before_exec(lines, ml)[i], c)
            == -1,
    decreases lines.len(),
{
    let out = spec_insert_before_exec(lines, ml);
    if lines.len() == 0 {
    } else if spec_starts_with(lines[0], "exec "@) {
        assert forall|i: int| 0 <= i < out.len() implies crate::text::spec_find(
            #[trigger] out[i],
            c,
        ) == -1 by {
            if i == 0 {
                assert(out[0] == ml);
            } else {
                assert(out[i] == lines[i - 1]);
            }
        }
    } else {
        lemma_insert_no_sep(lines.drop_first(), ml, c);
        assert(forall|j: int| 0 <= j < lines.drop_first().len() ==> lines.drop_first()[j]
            == lines[j + 1]);
        let rec = spec_insert_before_exec(lines.drop_first(), ml);
        assert forall|i: int| 0 <= i < out.len() implies crate::text::spec_find(
            #[trigger] out[i],
            c,
        ) == -1 by {
            if i == 0 {
                assert(out[0] == lines[0]);
            } else {
                assert(out[i] == rec[i - 1]);
            }
        }
    }
}

proof fn lemma_filter_members<A>(s: Seq<A>, pred: spec_fn(A) -> bool)
    ensures
        forall|i: int| 0 <= i < s.filter(pred).len() ==> s.contains(#[trigger] s.filter(pred)[i]),
    decreases s.len(),
{
    reveal(Seq::filter);
    if s.len() > 0 {
        lemma_filter_members(s.drop_last(), pred);
        let out = s.filter(pred);
        let sub = s.drop_last().filter(pred);
        assert forall|i: int| 0 <= i < out.len() implies s.contains(#[trigger] out[i]) by {
            if pred(s.last()) && i == out.len() - 1 {
                assert(out[i] == s.last());
                assert(s[s.len() - 1] == s.last());
            } else {
                assert(out[i] == sub[i]);
                assert(s.drop_last().contains(sub[i]));
                let j = choose|j: int| 0 <= j < s.drop_last().len() && s.drop_last()[j] == sub[i];
                assert(s[j] == sub[i]);
            }
        }
    }
}

/// Shim integrity, first half: updating a shim's text for `(tool,
/// version)` leaves a text one of whose lines is the metadata line, as
/// long as the tool and version hold no newline and the existing text has
/// an `exec` line (as every shim this system writes does) or carries the
/// metadata line already.
pub proof fn lemma_add_metadata_has_line(contents: Seq<char>, tool: Seq<char>, version: Seq<char>)
    requires
        crate::text::spec_find(tool, '\n') == -1,
        crate::text::spec_find(version, '\n') == -1,
        spec_has_line(spec_split(contents, '\n'), spec_metadata_line(tool, version)) || exists|
            i: int,
        |
            0 <= i < spec_split(contents, '\n').len() && spec_starts_with(
                #[trigger] spec_split(contents, '\n')[i],
                "exec "@,
            ),
    ensures
        spec_has_line(
            spec_split(spec_add_metadata(contents, tool, version), '\n'),
            spec_metadata_line(tool, version),
        ),
{
    let lines = spec_split(contents, '\n');
    let ml = spec_metadata_line(tool, version);
    if spec_has_line(lines, ml) {
        assert(spec_add_metadata(contents, tool, version) == contents);
    } else {
        let ins = spec_insert_before_exec(lines, ml);
        lemma_insert_adds(lines, ml);
        lemma_metadata_line_no_newline(tool, version);
        crate::text::lemma_split_segments_no_sep(contents, '\n');
        lemma_insert_no_sep(lines, ml, '\n');
        crate::text::lemma_split_len(contents, '\n');
        crate::text::lemma_join_split(ins, '\n');
    }
}

/// Updating a shim's text twice for the same `(tool, version)` equals
/// updating it once: the second update finds the metadata line already
/// present and leaves the text alone.
pub proof fn lemma_add_metadata_idempotent(
    contents: Seq<char>,
    tool: Seq<char>,
    version: Seq<char>,
)
    requires
        crate::text::spec_find(tool, '\n') == -1,
        crate::text::spec_find(version, '\n') == -1,
        spec_has_line(spec_split(contents, '\n'), spec_metadata_line(tool, version)) || exists|
            i: int,
        |
            0 <= i < spec_split(contents, '\n').len() && spec_starts_with(
                #[trigger] spec_split(contents, '\n')[i],
                "exec "@,
            ),
    ensures
        spec_add_metadata(spec_add_metadata(contents, tool, version), tool, version)
            == spec_add_metadata(contents, tool, version),
{
    lemma_add_metadata_has_line(contents, tool, version);
}

/// Shim integrity, second half: after removing `(tool, version)` from a
/// shim's text, no line of the result is the metadata line any more.
pub proof fn lemma_remove_metadata_clears(
    contents: Seq<char>,
    tool: Seq<char>,
    version: Seq<char>,
)
    requires
        crate::text::spec_find(tool, '\n') == -1,
        crate::text::spec_find(version, '\n') == -1,
    ensures
        !spec_has_line(
            spec_split(spec_remove_metadata(contents, tool, version), '\n'),
            spec_metadata_line(tool, version),
        ),
{
    let lines = spec_split(contents, '\n');
    let ml = spec_metadata_line(tool, version);
    let pred = (|l: Seq<char>| l != spec_metadata_line(tool, version));
    let kept = lines.filter(pred);
    lemma_metadata_line_no_newline(tool, version);
    reveal_strlit("# asdf-plugin: ");
    assert(ml.len() >= 15);
    if kept.len() == 0 {
        let joined = spec_join(kept, '\n');
        assert(joined.len() == 0);
        crate::text::lemma_find(joined, '\n');
        assert(spec_split(joined, '\n') =~= seq![joined]);
        assert forall|i: int| 0 <= i < spec_split(joined, '\n').len() implies spec_split(
            joined,
            '\n',
        )[i] != ml by {
            assert(spec_split(joined, '\n')[i] == joined);
        }
    } else {
        crate::text::lemma_split_segments_no_sep(contents, '\n');
        lemma_filter_members(lines, pred);
        assert forall|i: int| 0 <= i < kept.len() implies crate::text::spec_find(
            #[trigger] kept[i],
            '\n',
        ) == -1 by {
            assert(lines.contains(kept[i]));
            let j = choose|j: int| 0 <= j < lines.len() && lines[j] == kept[i];
            assert(crate::text::spec_find(lines[j], '\n') == -1);
        }
        crate::text::lemma_join_split(kept, '\n');
        assert forall|i: int| 0 <= i < kept.len() implies kept[i] != ml by {
            lines.lemma_filter_pred(pred, i);
        }
    }
}

/// What regenerating one executable's shim writes: a fresh script when no
/// shim exists yet, else the existing text with this version's metadata
/// line added.
pub open spec fn spec_updated_shim(
    existing: Option<Seq<char>>,
    program_path: Seq<char>,
    tool: Seq<char>,
    version: Seq<char>,
    executable_name: Seq<char>,
) -> Seq<char> {
    match existing {
        None => spec_new_shim(program_path, tool, version, executable_name),
        Some(c) => spec_add_metadata(c, tool, version),
    }
}

pub fn updated_shim_contents(
    existing: Option<&str>,
    program_path: &str,
    plugin_name: &str,
    version: &str,
    executable_name: &str,
) -> (r: String)
    ensures
        r@ == spec_updated_shim(
            existing.deep_view(),
            program_path@,
            plugin_name@,
            version@,
            executable_name@,
        ),
{
    match existing {
        None => new_shim_contents(program_path, plugin_name, version, executable_name),
        Some(c) => add_shim_metadata(c, plugin_name, version),
    }
}

/// One executable to reshim: its name and, when a shim for that name
/// already exists, the shim's current contents.
pub struct ShimState {
    pub name: String,
    pub existing: Option<String>,
}

pub struct ShimStateView {
    pub name: Seq<char>,
    pub existing: Option<Seq<char>>,
}

impl View for ShimState {
    type V = ShimStateView;

    open spec fn view(&self) -> ShimStateView {
        ShimStateView { name: self.name@, existing: self.existing.deep_view() }
    }
}

impl DeepView for ShimState {
    type V = ShimStateView;

    open spec fn deep_view(&self) -> ShimStateView {
        self.view()
    }
}

/// Regenerate the shims of one `(tool, version)`: for every executable,
/// the name of its shim and the full new contents to write there.
pub fn generate_shims_for_version(
    program_path: &str,
    plugin_name: &str,
    full_version: &str,
    executables: &Vec<ShimState>,
) -> (r: Vec<(String, String)>)
    ensures
        r@.len() == executables@.len(),
        forall|i: int| 0 <= i < executables@.len() ==> {
            &&& #[trigger] r.deep_view()[i].0 == executables.deep_view()[i].name
            &&& r.deep_view()[i].1 == spec_updated_shim(
                executables.deep_view()[i].existing,
                program_path@,
                plugin_name@,
                full_version@,
                executables.deep_view()[i].name,
            )
        },
{
    let ghost ev = executables.deep_view();
    let mut r: Vec<(String, String)> = Vec::new();
    let mut i: usize = 0;
    while i < executables.len()
        invariant
            ev == executables.deep_view(),
            ev.len() == executables@.len(),
            i <= executables@.len(),
            r@.len() == i,
            forall|k: int| 0 <= k < i ==> {
                &&& #[trigger] r.deep_view()[k].0 == ev[k].name
                &&& r.deep_view()[k].1 == spec_updated_shim(
                    ev[k].existing,
                    program_path@,
                    plugin_name@,
                    full_version@,
                    ev[k].name,
                )
            },
        decreases executables@.len() - i,
    {
        proof {
            assert(ev[i as int] == executables@[i as int].deep_view());
        }
        let existing: Option<&str> = match &executables[i].existing {
            Some(c) => Some(c.as_str()),
            None => None,
        };
        proof {
            assert(existing.deep_view() == ev[i as int].existing);
        }
        let contents = updated_shim_contents(
            existing,
            program_path,
            plugin_name,
            full_version,
            executables[i].name.as_str(),
        );
        let ghost before = r.deep_view();
        let ghost cv = contents@;
        r.push((executables[i].name.clone(), contents));
        proof {
            assert(r.deep_view() =~= before.push((ev[i as int].name, cv)));
            assert(r.deep_view()[i as int].0 == ev[i as int].name);
            assert(r.deep_view()[i as int].1 == spec_updated_shim(
                ev[i as int].existing,
                program_path@,
                plugin_name@,
                full_version@,
                ev[i as int].name,
            ));
            assert(forall|k: int| 0 <= k < i ==> #[trigger] r.deep_view()[k] == before[k]);
        }
        i = i + 1;
    }
    r
}

proof fn lemma_literal_pieces_no_newline()
    ensures
        crate::text::spec_find("#!/usr/bin/env bash"@, '\n') == -1,
        crate::text::spec_find("exec "@, '\n') == -1,
        crate::text::spec_find(" exec \""@, '\n') == -1,
        crate::text::spec_find("\" \"$@\""@, '\n') == -1,
{
    reveal_strlit("#!/usr/bin/env bash");
    reveal_strlit("exec ");
    reveal_strlit(" exec \"");
    reveal_strlit("\" \"$@\"");
    crate::text::lemma_find("#!/usr/bin/env bash"@, '\n');
    if crate::text::spec_find("#!/usr/bin/env bash"@, '\n') != -1 {
        assert("#!/usr/bin/env bash"@[crate::text::spec_find("#!/usr/bin/env bash"@, '\n')]
            == '\n');
    }
    crate::text::lemma_find("exec "@, '\n');
    if crate::text::spec_find("exec "@, '\n') != -1 {
        assert("exec "@[crate::text::spec_find("exec "@, '\n')] == '\n');
    }
    crate::text::lemma_find(" exec \""@, '\n');
    if crate::text::spec_find(" exec \""@, '\n') != -1 {
        assert(" exec \""@[crate::text::spec_find(" exec \""@, '\n')] == '\n');
    }
    crate::text::lemma_find("\" \"$@\""@, '\n');
    if crate::text::spec_find("\" \"$@\""@, '\n') != -1 {
        assert("\" \"$@\""@[crate::text::spec_find("\" \"$@\""@, '\n')] == '\n');
    }
}

/// A fresh shim's lines are exactly: the interpreter line, the metadata
/// line, the `exec` line, and a final empty segment.
pub proof fn lemma_new_shim_lines(
    program_path: Seq<char>,
    tool: Seq<char>,
    version: Seq<char>,
    executable_name: Seq<char>,
)
    requires
        crate::text::spec_find(program_path, '\n') == -1,
        crate::text::spec_find(tool, '\n') == -1,
        crate::text::spec_find(version, '\n') == -1,
        crate::text::spec_find(executable_name, '\n') == -1,
    ensures
        spec_split(spec_new_shim(program_path, tool, version, executable_name), '\n')
            == spec_new_shim_lines(program_path, tool, version, executable_name),
        spec_has_line(
            spec_split(spec_new_shim(program_path, tool, version, executable_name), '\n'),
            spec_metadata_line(tool, version),
        ),
{
    lemma_literal_pieces_no_newline();
    lemma_metadata_line_no_newline(tool, version);
    lemma_find_none_concat("exec "@, program_path, '\n');
    lemma_find_none_concat("exec "@ + program_path, " exec \""@, '\n');
    lemma_find_none_concat("exec "@ + program_path + " exec \""@, executable_name, '\n');
    lemma_find_none_concat(
        "exec "@ + program_path + " exec \""@ + executable_name,
        "\" \"$@\""@,
        '\n',
    );
    let parts = spec_new_shim_lines(program_path, tool, version, executable_name);
    assert(crate::text::spec_find(Seq::<char>::empty(), '\n') == -1);
    assert(forall|i: int| 0 <= i < parts.len() ==> crate::text::spec_find(
        #[trigger] parts[i],
        '\n',
    ) == -1);
    crate::text::lemma_join_split(parts, '\n');
    assert(spec_split(spec_new_shim(program_path, tool, version, executable_name), '\n')[1]
        == spec_metadata_line(tool, version));
}

/// Shim integrity, in one statement over what regeneration writes: for
/// every executable, the written shim text carries this `(tool,
/// version)` metadata line, whether the shim is fresh or updated — as
/// long as tool and version hold no newline and an existing shim has an
/// `exec` line (as every shim this system writes does) or carries the
/// line already.
pub proof fn lemma_updated_shim_claims_version(
    existing: Option<Seq<char>>,
    program_path: Seq<char>,
    tool: Seq<char>,
    version: Seq<char>,
    executable_name: Seq<char>,
)
    requires
        crate::text::spec_find(program_path, '\n') == -1,
        crate::text::spec_find(tool, '\n') == -1,
        crate::text::spec_find(version, '\n') == -1,
        crate::text::spec_find(executable_name, '\n') == -1,
        existing matches Some(c) ==> spec_has_line(
            spec_split(c, '\n'),
            spec_metadata_line(tool, version),
        ) || exists|i: int|
            0 <= i < spec_split(c, '\n').len() && spec_starts_with(
                #[trigger] spec_split(c, '\n')[i],
                "exec "@,
            ),
    ensures
        spec_has_line(
            spec_split(
                spec_updated_shim(existing, program_path, tool, version, executable_name),
                '\n',
            ),
            spec_metadata_line(tool, version),
        ),
{
    match existing {
        None => {
            lemma_new_shim_lines(program_path, tool, version, executable_name);
        },
        Some(c) => {
            lemma_add_metadata_has_line(c, tool, version);
        },
    }
}

/// The executable search paths for one version: the plugin's own `shims`
/// directory when it exists, then every bin path under the install
/// directory, in the order the plugin listed them.
pub fn list_plugin_exec_paths(
    data_dir: &str,
    plugin_name: &str,
    install_type: &str,
    version: &str,
    has_plugin_shims_dir: bool,
    bin_paths: &Vec<String>,
) -> (r: Vec<String>)
    ensures
        r.deep_view() == {
            let head = if has_plugin_shims_dir {
                seq![data_dir@ + "/plugins/"@ + plugin_name@ + "/shims"@]
            } else {
                Seq::<Seq<char>>::empty()
            };
            head + bin_paths.deep_view().map_values(
                |bp: Seq<char>| crate::paths::spec_install_path(
                    data_dir@,
                    plugin_name@,
                    install_type@,
                    version@,
                ) + "/"@ + bp,
            )
        },
{
    let ghost bv = bin_paths.deep_view();
    let ghost base = crate::paths::spec_install_path(
        data_dir@,
        plugin_name@,
        install_type@,
        version@,
    );
    let ghost head = if has_plugin_shims_dir {
        seq![data_dir@ + "/plugins/"@ + plugin_name@ + "/shims"@]
    } else {
        Seq::<Seq<char>>::empty()
    };
    let mut r: Vec<String> = Vec::new();
    if has_plugin_shims_dir {
        let mut p = crate::paths::plugin_path(data_dir, plugin_name);
        p.append("/shims");
        proof {
            assert(p@ =~= data_dir@ + "/plugins/"@ + plugin_name@ + "/shims"@);
        }
        r.push(p);
    }
    proof {
        assert(r.deep_view() =~= head + bv.take(0).map_values(
            |bp: Seq<char>| base + "/"@ + bp,
        ));
    }
    let install_dir = crate::paths::install_path(data_dir, plugin_name, install_type, version);
    let mut i: usize = 0;
    while i < bin_paths.len()
        invariant
            bv == bin_paths.deep_view(),
            bv.len() == bin_paths@.len(),
            i <= bin_paths@.len(),
            install_dir@ == base,
            head == if has_plugin_shims_dir {
                seq![data_dir@ + "/plugins/"@ + plugin_name@ + "/shims"@]
            } else {
                Seq::<Seq<char>>::empty()
            },
            base == crate::paths::spec_install_path(
                data_dir@,
                plugin_name@,
                install_type@,
                version@,
            ),
            r@.len() == head.len() + i,
            r.deep_view() == head + bv.take(i as int).map_values(
                |bp: Seq<char>| base + "/"@ + bp,
            ),
        decreases bin_paths@.len() - i,
    {
        proof {
            assert(bv[i as int] == bin_paths@[i as int]@);
        }
        let mut p = install_dir.clone();
        p.append("/");
        p.append(bin_paths[i].as_str());
        proof {
            assert(p@ =~= base + "/"@ + bv[i as int]);
        }
        let ghost before = r.deep_view();
        let ghost pv = p@;
        out_push(&mut r, p);
        proof {
            assert(r.deep_view() =~= before.push(pv));
            assert(bv.take(i + 1) =~= bv.take(i as int).push(bv[i as int]));
            assert(r.deep_view() =~~= head + bv.take(i + 1).map_values(
                |bp: Seq<char>| base + "/"@ + bp,
            ));
        }
        i = i + 1;
    }
    proof {
        assert(bv.take(bv.len() as int) =~= bv);
    }
    r
}

/// The bin paths a plugin declares: the `list-bin-paths` callback's
/// space-separated output when the script exists, else the single
/// default `bin`.
pub fn list_plugin_bin_paths(callback_output: Option<&str>) -> (r: Vec<String>)
    ensures
        callback_output matches Some(o) ==> r.deep_view() == spec_split(o@, ' '),
        callback_output is None ==> r.deep_view() == seq!["bin"@],
{
    match callback_output {
        Some(o) => split_char(o, ' '),
        None => {
            let mut r: Vec<String> = Vec::new();
            r.push(String::from_str("bin"));
            proof {
                assert(r.deep_view() =~= seq!["bin"@]);
            }
            r
        },
    }
}

} // verus!
