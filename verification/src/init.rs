//! A new workspace: its package patterns and the text of its configuration
//! files.
use vstd::prelude::*;
use crate::text::{
    append_str, from_chars, join, join_strings, lemma_deep_view_chars, split_char, split_on_char,
    str_eq, to_chars, trim, trim_chars, views,
};

verus! {

/// The comma-separated parts of the patterns given on the command line, in
/// order.
pub open spec fn pattern_parts(extra: Seq<Seq<char>>) -> Seq<Seq<char>>
    decreases extra.len(),
{
    if extra.len() == 0 {
        seq![]
    } else {
        pattern_parts(extra.drop_last()) + split_char(extra.last(), ',')
    }
}

/// `acc` with the trimmed `parts` added in order, leaving out empty ones and
/// ones already there.
pub open spec fn add_patterns(acc: Seq<Seq<char>>, parts: Seq<Seq<char>>) -> Seq<Seq<char>>
    decreases parts.len(),
{
    if parts.len() == 0 {
        acc
    } else {
        let prev = add_patterns(acc, parts.drop_last());
        let t = trim(parts.last());
        if t.len() > 0 && !prev.contains(t) {
            prev.push(t)
        } else {
            prev
        }
    }
}

/// The package patterns of a new workspace: `packages/*`, then `apps/*`
/// where an apps directory is wanted, then the patterns given.
pub open spec fn init_patterns_spec(include_apps: bool, extra: Seq<Seq<char>>) -> Seq<Seq<char>> {
    let base = if include_apps {
        seq!["packages/*"@, "apps/*"@]
    } else {
        seq!["packages/*"@]
    };
    add_patterns(base, pattern_parts(extra))
}

/// Whether no pattern of `ps` occurs twice.
pub open spec fn distinct_patterns(ps: Seq<Seq<char>>) -> bool {
    forall|a: int, b: int| 0 <= a < b < ps.len() ==> #[trigger] ps[a] != #[trigger] ps[b]
}

proof fn lemma_add_patterns_keeps(acc: Seq<Seq<char>>, parts: Seq<Seq<char>>)
    requires
        distinct_patterns(acc),
    ensures
        distinct_patterns(add_patterns(acc, parts)),
        add_patterns(acc, parts).len() >= acc.len(),
        forall|k: int| 0 <= k < acc.len() ==> #[trigger] add_patterns(acc, parts)[k] == acc[k],
    decreases parts.len(),
{
    if parts.len() > 0 {
        lemma_add_patterns_keeps(acc, parts.drop_last());
        let prev = add_patterns(acc, parts.drop_last());
        let t = trim(parts.last());
        if t.len() > 0 && !prev.contains(t) {
            assert forall|a: int, b: int| 0 <= a < b < prev.push(t).len() implies #[trigger] prev.push(t)[a] != #[trigger] prev.push(t)[b] by {
                if b == prev.len() {
                    assert(prev[a] != t);
                } else {
                    assert(prev[a] != prev[b]);
                }
            }
        }
    }
}

/// The patterns of a new workspace never list a pattern twice, and begin
/// with `packages/*` (then `apps/*` where an apps directory is wanted).
pub proof fn lemma_init_patterns_distinct(include_apps: bool, extra: Seq<Seq<char>>)
    ensures
        distinct_patterns(init_patterns_spec(include_apps, extra)),
        init_patterns_spec(include_apps, extra)[0] == "packages/*"@,
        include_apps ==> init_patterns_spec(include_apps, extra)[1] == "apps/*"@,
{
    let base = if include_apps {
        seq!["packages/*"@, "apps/*"@]
    } else {
        seq!["packages/*"@]
    };
    if include_apps {
        reveal_strlit("packages/*");
        reveal_strlit("apps/*");
        assert(base[0] != base[1]) by {
            assert(base[0][0] != base[1][0]);
        }
    }
    lemma_add_patterns_keeps(base, pattern_parts(extra));
}

fn contains_chars_in(v: &Vec<String>, t: &[char]) -> (r: bool)
    ensures
        r == views(v@).contains(t@),
{
    let ts = from_chars(t);
    let mut i: usize = 0;
    while i < v.len()
        invariant
            i <= v@.len(),
            ts@ == t@,
            forall|k: int| 0 <= k < i ==> v@[k]@ != t@,
        decreases v@.len() - i,
    {
        if str_eq(v[i].as_str(), ts.as_str()) {
            assert(views(v@)[i as int] == t@);
            return true;
        }
        i += 1;
    }
    assert forall|k: int| 0 <= k < views(v@).len() implies views(v@)[k] != t@ by {
        assert(views(v@)[k] == v@[k]@);
    }
    false
}

/// The package patterns of a new workspace (see [`init_patterns_spec`]).
pub fn init_package_patterns(include_apps: bool, extra: &Vec<String>) -> (r: Vec<String>)
    ensures
        views(r@) == init_patterns_spec(include_apps, views(extra@)),
{
    let mut out: Vec<String> = Vec::new();
    out.push(from_chars(to_chars("packages/*").as_slice()));
    if include_apps {
        out.push(from_chars(to_chars("apps/*").as_slice()));
    }
    let ghost base = views(out@);
    proof {
        if include_apps {
            assert(base =~= seq!["packages/*"@, "apps/*"@]);
        } else {
            assert(base =~= seq!["packages/*"@]);
        }
    }
    let ghost ev = views(extra@);
    let mut i: usize = 0;
    assert(ev.take(0) =~= Seq::<Seq<char>>::empty());
    while i < extra.len()
        invariant
            i <= extra@.len(),
            ev == views(extra@),
            views(out@) == add_patterns(base, pattern_parts(ev.take(i as int))),
        decreases extra@.len() - i,
    {
        let chars = to_chars(extra[i].as_str());
        let parts = split_on_char(chars.as_slice(), ',');
        proof {
            lemma_deep_view_chars(parts);
            assert(ev.take(i + 1).drop_last() =~= ev.take(i as int));
            assert(ev.take(i + 1).last() == extra@[i as int]@);
        }
        let ghost before = pattern_parts(ev.take(i as int));
        let ghost pv = parts.deep_view();
        let mut j: usize = 0;
        assert(before + pv.take(0) =~= before);
        while j < parts.len()
            invariant
                j <= parts@.len(),
                pv == parts.deep_view(),
                pv.len() == parts@.len(),
                forall|k: int| 0 <= k < parts@.len() ==> #[trigger] pv[k] == parts@[k]@,
                views(out@) == add_patterns(base, before + pv.take(j as int)),
            decreases parts@.len() - j,
        {
            let t = trim_chars(parts[j].as_slice());
            proof {
                assert((before + pv.take(j + 1)).drop_last() =~= before + pv.take(j as int));
                assert((before + pv.take(j + 1)).last() == parts@[j as int]@);
            }
            if t.len() > 0 && !contains_chars_in(&out, t.as_slice()) {
                let ghost old_out = out@;
                out.push(from_chars(t.as_slice()));
                assert(views(out@) =~= views(old_out).push(t@));
            }
            j += 1;
        }
        assert(pv.take(parts@.len() as int) =~= pv);
        assert(pattern_parts(ev.take(i + 1)) =~= before + pv);
        i += 1;
    }
    assert(ev.take(extra@.len() as int) =~= ev);
    out
}

/// The directory a workspace named `name` goes to by default: the current
/// one where it carries that name, else a new one of that name.
pub fn default_directory(name: &str, cwd_name: &str) -> (r: String)
    ensures
        r@ == (if name@ == cwd_name@ {
            "."@
        } else {
            name@
        }),
{
    if str_eq(name, cwd_name) {
        from_chars(to_chars(".").as_slice())
    } else {
        from_chars(to_chars(name).as_slice())
    }
}

/// The patterns as a YAML list, one `  - <pattern>` line each.
pub open spec fn pattern_list(ps: Seq<Seq<char>>) -> Seq<char> {
    join(ps.map_values(|p: Seq<char>| "  - "@ + p), "\n"@)
}

/// The root `pubspec.yaml` of a workspace in the 7.x layout.
pub open spec fn workspace_pubspec_spec(name: Seq<char>, ps: Seq<Seq<char>>) -> Seq<char> {
    "name: "@ + name + "\nenvironment:\n  sdk: ^3.0.0\nworkspace:\n"@ + pattern_list(ps) + "\nmelos:\n  scripts: {}\n"@
}

/// The `melos.yaml` of a workspace in the 6.x layout.
pub open spec fn melos_yaml_spec(name: Seq<char>, ps: Seq<Seq<char>>) -> Seq<char> {
    "name: "@ + name + "\npackages:\n"@ + pattern_list(ps) + "\nscripts: {}\n"@
}

/// The root `pubspec.yaml` of a workspace in the 6.x layout.
pub open spec fn legacy_pubspec_spec(name: Seq<char>) -> Seq<char> {
    "name: "@ + name + "\nenvironment:\n  sdk: ^3.0.0\ndev_dependencies:\n  melos: ^7.0.0\n"@
}

fn pattern_list_exec(patterns: &Vec<String>) -> (r: String)
    ensures
        r@ == pattern_list(views(patterns@)),
{
    let mut lines: Vec<String> = Vec::new();
    let mut i: usize = 0;
    while i < patterns.len()
        invariant
            i <= patterns@.len(),
            lines@.len() == i,
            forall|k: int| 0 <= k < i ==> #[trigger] lines@[k]@ == "  - "@ + patterns@[k]@,
        decreases patterns@.len() - i,
    {
        let mut out: Vec<char> = Vec::new();
        append_str(&mut out, "  - ");
        append_str(&mut out, patterns[i].as_str());
        lines.push(from_chars(out.as_slice()));
        i += 1;
    }
    assert(views(lines@) =~= views(patterns@).map_values(|p: Seq<char>| "  - "@ + p));
    join_strings(&lines, "\n")
}

/// The root `pubspec.yaml` of a new workspace in the 7.x layout.
pub fn workspace_pubspec_content(name: &str, patterns: &Vec<String>) -> (r: String)
    ensures
        r@ == workspace_pubspec_spec(name@, views(patterns@)),
{
    let list = pattern_list_exec(patterns);
    let mut out: Vec<char> = Vec::new();
    append_str(&mut out, "name: ");
    append_str(&mut out, name);
    append_str(&mut out, "\nenvironment:\n  sdk: ^3.0.0\nworkspace:\n");
    append_str(&mut out, list.as_str());
    append_str(&mut out, "\nmelos:\n  scripts: {}\n");
    from_chars(out.as_slice())
}

/// The `melos.yaml` of a new workspace in the 6.x layout.
pub fn melos_yaml_content(name: &str, patterns: &Vec<String>) -> (r: String)
    ensures
        r@ == melos_yaml_spec(name@, views(patterns@)),
{
    let list = pattern_list_exec(patterns);
    let mut out: Vec<char> = Vec::new();
    append_str(&mut out, "name: ");
    append_str(&mut out, name);
    append_str(&mut out, "\npackages:\n");
    append_str(&mut out, list.as_str());
    append_str(&mut out, "\nscripts: {}\n");
    from_chars(out.as_slice())
}

/// The root `pubspec.yaml` of a new workspace in the 6.x layout.
pub fn legacy_pubspec_content(name: &str) -> (r: String)
    ensures
        r@ == legacy_pubspec_spec(name@),
{
    let mut out: Vec<char> = Vec::new();
    append_str(&mut out, "name: ");
    append_str(&mut out, name);
    append_str(&mut out, "\nenvironment:\n  sdk: ^3.0.0\ndev_dependencies:\n  melos: ^7.0.0\n");
    from_chars(out.as_slice())
}

} // verus!
