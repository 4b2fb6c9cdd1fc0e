//! The rules that shape the generated project's manifest out of the crate
//! under test's: merging dependency tables, keeping only the feature enables
//! that the generated project can honor, telling whether the crate has a
//! library, and finding its path dependencies.
//!
//! A table is a list of `(name, value)` entries; inserting under a name that
//! is present replaces that entry's value, as a map does, so the names of a
//! table built by insertion stay distinct.
use vstd::prelude::*;

use crate::chars;
use crate::directory::{std_as_directory, std_path_join, Directory};
use crate::expand::{same_path, std_paths_equal, ExpandedTest};
use crate::model::PathDependencyClass;
use crate::runner::string_views;
use crate::text;

verus! {

/// The first entry of a table under the name `k`.
pub open spec fn index_of<V>(t: Seq<(Seq<char>, V)>, k: Seq<char>, start: int) -> Option<int>
    decreases t.len() - start,
{
    if start < 0 || start >= t.len() {
        None
    } else if t[start].0 == k {
        Some(start)
    } else {
        index_of(t, k, start + 1)
    }
}

/// A table with `v` under `k`: the entry under `k` gets the value, or a new
/// entry is appended.
pub open spec fn table_insert<V>(t: Seq<(Seq<char>, V)>, k: Seq<char>, v: V) -> Seq<(Seq<char>, V)> {
    match index_of(t, k, 0) {
        Some(i) => t.update(i, (k, v)),
        None => t.push((k, v)),
    }
}

/// A table with the entries of `more` inserted in order.
pub open spec fn table_extend<V>(t: Seq<(Seq<char>, V)>, more: Seq<(Seq<char>, V)>) -> Seq<(Seq<char>, V)>
    decreases more.len(),
{
    if more.len() == 0 {
        t
    } else {
        table_insert(table_extend(t, more.drop_last()), more.last().0, more.last().1)
    }
}

/// Where `index_of` finds a name, and that no earlier entry has it.
pub proof fn lemma_index_of_found<V>(t: Seq<(Seq<char>, V)>, k: Seq<char>, start: int)
    requires
        0 <= start,
    ensures
        index_of(t, k, start) matches Some(i) ==> start <= i < t.len() && t[i].0 == k && forall|j: int|
            start <= j < i ==> (#[trigger] t[j]).0 != k,
        index_of(t, k, start) is None ==> forall|j: int| start <= j < t.len() ==> (#[trigger] t[j]).0 != k,
    decreases t.len() - start,
{
    if start < t.len() && t[start].0 != k {
        lemma_index_of_found(t, k, start + 1);
    }
}

/// Whether no two entries of a table share a name.
pub open spec fn distinct_keys<V>(t: Seq<(Seq<char>, V)>) -> bool {
    forall|i: int, j: int| 0 <= i < j < t.len() ==> #[trigger] t[i].0 != #[trigger] t[j].0
}

/// Inserting into a table whose names are distinct keeps them distinct.
pub proof fn lemma_insert_distinct<V>(t: Seq<(Seq<char>, V)>, k: Seq<char>, v: V)
    requires
        distinct_keys(t),
    ensures
        distinct_keys(table_insert(t, k, v)),
{
    lemma_index_of_found(t, k, 0);
    let r = table_insert(t, k, v);
    assert forall|i: int, j: int| 0 <= i < j < r.len() implies #[trigger] r[i].0 != #[trigger] r[j].0 by {
        if j < t.len() {
            assert(r[i].0 == t[i].0 && r[j].0 == t[j].0);
        }
    }
}

/// Extending a table whose names are distinct keeps them distinct.
pub proof fn lemma_extend_distinct<V>(t: Seq<(Seq<char>, V)>, more: Seq<(Seq<char>, V)>)
    requires
        distinct_keys(t),
    ensures
        distinct_keys(table_extend(t, more)),
    decreases more.len(),
{
    if more.len() > 0 {
        lemma_extend_distinct(t, more.drop_last());
        lemma_insert_distinct(table_extend(t, more.drop_last()), more.last().0, more.last().1);
    }
}

pub open spec fn table_view<V>(t: Seq<(String, V)>) -> Seq<(Seq<char>, V)> {
    t.map_values(|e: (String, V)| (e.0@, e.1))
}

fn find_key<V>(t: &Vec<(String, V)>, k: &str) -> (r: Option<usize>)
    ensures
        r matches Some(i) ==> i < t@.len() && index_of(table_view(t@), k@, 0) == Some(i as int),
        r is None ==> index_of(table_view(t@), k@, 0) is None,
{
    let key = chars::chars_of(k);
    let ghost tv = table_view(t@);
    let mut i: usize = 0;
    while i < t.len()
        invariant
            i <= t.len(),
            key@ == k@,
            tv == table_view(t@),
            index_of(tv, k@, 0) == index_of(tv, k@, i as int),
        decreases t.len() - i,
    {
        assert(tv[i as int].0 == t@[i as int].0@);
        if chars::equals(&chars::chars_of(t[i].0.as_str()), &key) {
            return Some(i);
        }
        i = i + 1;
    }
    None
}

/// Inserts `v` under `k`.
pub fn insert<V>(t: &mut Vec<(String, V)>, k: String, v: V)
    ensures
        table_view(final(t)@) == table_insert(table_view(old(t)@), k@, v),
{
    let ghost before = table_view(t@);
    let ghost kv = k@;
    match find_key(t, k.as_str()) {
        Some(i) => {
            let _previous = t.remove(i);
            t.insert(i, (k, v));
            assert(table_view(t@) =~= before.update(i as int, (kv, v)));
        },
        None => {
            t.push((k, v));
            assert(table_view(t@) =~= before.push((kv, v)));
        },
    }
}

/// Inserts the entries of `more`, in order.
pub fn extend<V>(t: &mut Vec<(String, V)>, more: Vec<(String, V)>)
    ensures
        table_view(final(t)@) == table_extend(table_view(old(t)@), table_view(more@)),
{
    let ghost start = table_view(t@);
    let ghost all = more@;
    let mut rest = more;
    let n = rest.len();
    let mut i: usize = 0;
    while i < n
        invariant
            i <= n == all.len(),
            rest@ == all.skip(i as int),
            table_view(t@) == table_extend(start, table_view(all.take(i as int))),
        decreases n - i,
    {
        let (k, v) = rest.remove(0);
        assert((k, v) == all[i as int]);
        assert(rest@ == all.skip(i + 1));
        assert(table_view(all.take(i + 1)).drop_last() == table_view(all.take(i as int)));
        insert(t, k, v);
        i = i + 1;
    }
    assert(all.take(n as int) == all);
}

/// The generated project's dependencies: the crate's dependencies, then its
/// development dependencies over them, then, when the crate has a library,
/// the crate itself under its own name.
pub open spec fn merged<D>(
    crate_name: Seq<char>,
    self_dependency: D,
    dependencies: Seq<(Seq<char>, D)>,
    dev_dependencies: Seq<(Seq<char>, D)>,
    has_lib_target: bool,
) -> Seq<(Seq<char>, D)> {
    let both = table_extend(table_extend(Seq::empty(), dependencies), dev_dependencies);
    if has_lib_target {
        table_insert(both, crate_name, self_dependency)
    } else {
        both
    }
}

/// Merges the crate's dependencies and development dependencies into one
/// table, adding the path dependency on the crate itself when it has a
/// library target. No name occurs twice in the result.
pub fn merge_dependencies<D>(
    crate_name: &str,
    self_dependency: D,
    dependencies: Vec<(String, D)>,
    dev_dependencies: Vec<(String, D)>,
    has_lib_target: bool,
) -> (r: Vec<(String, D)>)
    ensures
        table_view(r@) == merged(
            crate_name@,
            self_dependency,
            table_view(dependencies@),
            table_view(dev_dependencies@),
            has_lib_target,
        ),
        distinct_keys(table_view(r@)),
{
    proof {
        let e = Seq::<(Seq<char>, D)>::empty();
        lemma_extend_distinct(e, table_view(dependencies@));
        let first = table_extend(e, table_view(dependencies@));
        lemma_extend_distinct(first, table_view(dev_dependencies@));
        lemma_insert_distinct(table_extend(first, table_view(dev_dependencies@)), crate_name@, self_dependency);
    }
    let mut merged: Vec<(String, D)> = Vec::new();
    assert(table_view(merged@) =~= Seq::<(Seq<char>, D)>::empty());
    extend(&mut merged, dependencies);
    extend(&mut merged, dev_dependencies);
    if has_lib_target {
        insert(&mut merged, crate_name.to_string(), self_dependency);
    }
    merged
}

/// Whether a table marks `name` optional: it has an entry under the name,
/// and that entry is optional.
pub open spec fn optional_in(t: Seq<(Seq<char>, bool)>, name: Seq<char>) -> bool {
    match index_of(t, name, 0) {
        Some(i) => t[i].1,
        None => false,
    }
}

/// Whether `name` is an optional dependency, in the top-level table or in
/// any `[target.*]` table.
pub open spec fn is_optional_dependency(
    name: Seq<char>,
    dependencies: Seq<(Seq<char>, bool)>,
    targets: Seq<Seq<(Seq<char>, bool)>>,
) -> bool {
    optional_in(dependencies, name) || exists|i: int| 0 <= i < targets.len() && optional_in(#[trigger] targets[i], name)
}

/// The enables of a feature that survive: those of the form `dep:<name>`
/// for an optional dependency `<name>`.
pub open spec fn kept_enables(
    enables: Seq<Seq<char>>,
    dependencies: Seq<(Seq<char>, bool)>,
    targets: Seq<Seq<(Seq<char>, bool)>>,
) -> Seq<Seq<char>>
    decreases enables.len(),
{
    if enables.len() == 0 {
        Seq::empty()
    } else {
        let rest = kept_enables(enables.drop_last(), dependencies, targets);
        let en = enables.last();
        if text::starts_with(en, "dep:"@) && is_optional_dependency(en.skip(4), dependencies, targets) {
            rest.push(en)
        } else {
            rest
        }
    }
}

/// A feature of the generated project: the crate's own `<crate>/<feature>`
/// enable first when it has a library, then the surviving enables.
pub open spec fn pruned_feature(
    feature: Seq<char>,
    enables: Seq<Seq<char>>,
    dependencies: Seq<(Seq<char>, bool)>,
    targets: Seq<Seq<(Seq<char>, bool)>>,
    has_lib_target: bool,
    crate_name: Seq<char>,
) -> Seq<Seq<char>> {
    (if has_lib_target {
        seq![crate_name + "/"@ + feature]
    } else {
        Seq::empty()
    }) + kept_enables(enables, dependencies, targets)
}

pub open spec fn flag_tables(targets: Seq<Vec<(String, bool)>>) -> Seq<Seq<(Seq<char>, bool)>> {
    targets.map_values(|t: Vec<(String, bool)>| table_view(t@))
}

fn optional_in_table(t: &Vec<(String, bool)>, name: &str) -> (r: bool)
    ensures
        r == optional_in(table_view(t@), name@),
{
    match find_key(t, name) {
        Some(i) => t[i].1,
        None => false,
    }
}

fn optional_dependency(name: &str, dependencies: &Vec<(String, bool)>, targets: &[Vec<(String, bool)>]) -> (r: bool)
    ensures
        r == is_optional_dependency(name@, table_view(dependencies@), flag_tables(targets@)),
{
    if optional_in_table(dependencies, name) {
        return true;
    }
    let ghost ts = flag_tables(targets@);
    let mut i: usize = 0;
    while i < targets.len()
        invariant
            i <= targets.len(),
            ts == flag_tables(targets@),
            !optional_in(table_view(dependencies@), name@),
            forall|k: int| 0 <= k < i ==> !optional_in(#[trigger] ts[k], name@),
        decreases targets.len() - i,
    {
        assert(ts[i as int] == table_view(targets@[i as int]@));
        if optional_in_table(&targets[i], name) {
            return true;
        }
        i = i + 1;
    }
    false
}

/// Prunes each feature's enables to the `dep:<name>` enables of optional
/// dependencies, with the crate's own `<crate>/<feature>` enable first when
/// it has a library target. `dependencies` and `targets` tell which names
/// are optional, in the top-level table and in each `[target.*]` table.
pub fn prune_features(
    features: Vec<(String, Vec<String>)>,
    dependencies: &Vec<(String, bool)>,
    targets: &[Vec<(String, bool)>],
    has_lib_target: bool,
    crate_name: &str,
) -> (r: Vec<(String, Vec<String>)>)
    ensures
        r@.len() == features@.len(),
        forall|i: int|
            0 <= i < r@.len() ==> (#[trigger] r@[i]).0@ == features@[i].0@ && string_views(r@[i].1@)
                == pruned_feature(
                features@[i].0@,
                string_views(features@[i].1@),
                table_view(dependencies@),
                flag_tables(targets@),
                has_lib_target,
                crate_name@,
            ),
{
    let ghost deps = table_view(dependencies@);
    let ghost ts = flag_tables(targets@);
    let ghost all = features@;
    let mut rest = features;
    let n = rest.len();
    let mut out: Vec<(String, Vec<String>)> = Vec::new();
    let mut i: usize = 0;
    while i < n
        invariant
            i <= n == all.len(),
            rest@ == all.skip(i as int),
            out@.len() == i,
            deps == table_view(dependencies@),
            ts == flag_tables(targets@),
            forall|k: int|
                0 <= k < i ==> (#[trigger] out@[k]).0@ == all[k].0@ && string_views(out@[k].1@) == pruned_feature(
                    all[k].0@,
                    string_views(all[k].1@),
                    deps,
                    ts,
                    has_lib_target,
                    crate_name@,
                ),
        decreases n - i,
    {
        let (feature, enables) = rest.remove(0);
        assert((feature, enables) == all[i as int]);
        assert(rest@ == all.skip(i + 1));
        let mut kept: Vec<String> = Vec::new();
        if has_lib_target {
            let own = chars::concat(
                &chars::concat(&chars::chars_of(crate_name), &chars::chars_of("/")),
                &chars::chars_of(feature.as_str()),
            );
            kept.push(chars::string_of(&own));
        }
        let ghost head = string_views(kept@);
        assert(head == (if has_lib_target {
            seq![crate_name@ + "/"@ + feature@]
        } else {
            Seq::<Seq<char>>::empty()
        }));
        let prefix = chars::chars_of("dep:");
        let mut k: usize = 0;
        while k < enables.len()
            invariant
                k <= enables.len(),
                prefix@ == "dep:"@,
                deps == table_view(dependencies@),
                ts == flag_tables(targets@),
                string_views(kept@) == head + kept_enables(string_views(enables@.take(k as int)), deps, ts),
            decreases enables.len() - k,
        {
            proof {
                reveal_strlit("dep:");
                assert(string_views(enables@.take(k + 1)).drop_last() == string_views(enables@.take(k as int)));
                assert(string_views(enables@.take(k + 1)).last() == enables@[k as int]@);
            }
            let en = chars::chars_of(enables[k].as_str());
            let ghost before = string_views(kept@);
            if chars::starts_with(&en, &prefix) {
                let name = chars::get_from(&en, 4);
                if optional_dependency(chars::string_of(&name).as_str(), dependencies, targets) {
                    kept.push(chars::string_of(&en));
                    assert(string_views(kept@) =~= before.push(en@));
                }
            }
            k = k + 1;
        }
        assert(enables@.take(enables.len() as int) == enables@);
        let ghost fv = feature@;
        out.push((feature, kept));
        assert(out@[i as int].0@ == fv);
        i = i + 1;
    }
    out
}

/// Whether any of a package's targets is not a plain binary.
pub open spec fn has_non_bin_target(targets: Seq<Seq<Seq<char>>>) -> bool {
    exists|i: int| 0 <= i < targets.len() && #[trigger] targets[i] != seq!["bin"@]
}

/// A package's manifest path and the crate types of each of its targets, as
/// `cargo metadata` lists them.
pub type PackageTargets = (String, Vec<Vec<String>>);

pub open spec fn crate_types_view(targets: Seq<Vec<String>>) -> Seq<Seq<Seq<char>>> {
    targets.map_values(|t: Vec<String>| string_views(t@))
}

/// Whether the crate has a library target, by the last package listed at
/// its manifest path; true when no package is.
pub open spec fn has_lib_target_of(packages: Seq<PackageTargets>, manifest: Seq<char>) -> bool
    decreases packages.len(),
{
    if packages.len() == 0 {
        true
    } else if std_paths_equal(packages.last().0@, manifest) {
        has_non_bin_target(crate_types_view(packages.last().1@))
    } else {
        has_lib_target_of(packages.drop_last(), manifest)
    }
}

fn non_bin(targets: &Vec<Vec<String>>) -> (r: bool)
    ensures
        r == has_non_bin_target(crate_types_view(targets@)),
{
    let ghost tv = crate_types_view(targets@);
    let bin = chars::chars_of("bin");
    let mut i: usize = 0;
    while i < targets.len()
        invariant
            i <= targets.len(),
            tv == crate_types_view(targets@),
            bin@ == "bin"@,
            forall|k: int| 0 <= k < i ==> #[trigger] tv[k] == seq!["bin"@],
        decreases targets.len() - i,
    {
        let t = &targets[i];
        assert(tv[i as int] == string_views(t@));
        let only_bin = t.len() == 1 && chars::equals(&chars::chars_of(t[0].as_str()), &bin);
        if !only_bin {
            assert(tv[i as int] != seq!["bin"@]) by {
                if tv[i as int] == seq!["bin"@] {
                    assert(tv[i as int].len() == 1 && tv[i as int][0] == t@[0]@);
                }
            }
            return true;
        }
        assert(tv[i as int] =~= seq!["bin"@]);
        i = i + 1;
    }
    false
}

/// Whether the crate at `manifest` has a library target.
pub fn has_lib_target(packages: &[PackageTargets], manifest: &str) -> (r: bool)
    ensures
        r == has_lib_target_of(packages@, manifest@),
{
    let mut end = packages.len();
    assert(packages@.take(end as int) == packages@);
    while end > 0
        invariant
            end <= packages.len(),
            has_lib_target_of(packages@, manifest@) == has_lib_target_of(packages@.take(end as int), manifest@),
        decreases end,
    {
        assert(packages@.take(end as int).last() == packages@[end - 1]);
        assert(packages@.take(end as int).drop_last() == packages@.take(end - 1));
        if same_path(packages[end - 1].0.as_str(), manifest) {
            return non_bin(&packages[end - 1].1);
        }
        end = end - 1;
    }
    true
}

/// A path dependency found in the crate's manifest, before its path is
/// canonicalized: its name, its path, and the table it came from.
#[derive(Debug)]
pub struct PathCandidate {
    /// The dependency's name.
    pub name: String,
    /// The dependency's path, as the manifest resolves it.
    pub path: String,
    /// Whether it is a `[dependencies]` entry or another one.
    pub class: PathDependencyClass,
}

pub type PathEntry = (String, Option<String>);

pub open spec fn entry_names(found: Seq<(Seq<char>, Seq<char>, PathDependencyClass)>) -> Seq<Seq<char>> {
    found.map_values(|e: (Seq<char>, Seq<char>, PathDependencyClass)| e.0)
}

/// The path dependencies among `entries`, in order: those with a path whose
/// name is not a workspace package nor found already.
pub open spec fn path_candidates(
    found: Seq<(Seq<char>, Seq<char>, PathDependencyClass)>,
    entries: Seq<PathEntry>,
    packages: Seq<Seq<char>>,
    class: PathDependencyClass,
) -> Seq<(Seq<char>, Seq<char>, PathDependencyClass)>
    decreases entries.len(),
{
    if entries.len() == 0 {
        found
    } else {
        let before = path_candidates(found, entries.drop_last(), packages, class);
        let (name, path) = entries.last();
        match path {
            Some(p) => if packages.contains(name@) || entry_names(before).contains(name@) {
                before
            } else {
                before.push((name@, p@, class))
            },
            None => before,
        }
    }
}

pub open spec fn candidate_views(v: Seq<PathCandidate>) -> Seq<(Seq<char>, Seq<char>, PathDependencyClass)> {
    v.map_values(|c: PathCandidate| (c.name@, c.path@, c.class))
}

fn listed(names: &[String], name: &str) -> (r: bool)
    ensures
        r == string_views(names@).contains(name@),
{
    let n = chars::chars_of(name);
    let mut i: usize = 0;
    while i < names.len()
        invariant
            i <= names.len(),
            n@ == name@,
            forall|k: int| 0 <= k < i ==> string_views(names@)[k] != name@,
        decreases names.len() - i,
    {
        assert(string_views(names@)[i as int] == names@[i as int]@);
        if chars::equals(&chars::chars_of(names[i].as_str()), &n) {
            return true;
        }
        i = i + 1;
    }
    false
}

fn already_found(found: &Vec<PathCandidate>, name: &str) -> (r: bool)
    ensures
        r == entry_names(candidate_views(found@)).contains(name@),
{
    let ghost names = entry_names(candidate_views(found@));
    let n = chars::chars_of(name);
    let mut i: usize = 0;
    while i < found.len()
        invariant
            i <= found.len(),
            n@ == name@,
            names == entry_names(candidate_views(found@)),
            forall|k: int| 0 <= k < i ==> names[k] != name@,
        decreases found.len() - i,
    {
        assert(names[i as int] == found@[i as int].name@);
        if chars::equals(&chars::chars_of(found[i].name.as_str()), &n) {
            return true;
        }
        i = i + 1;
    }
    false
}

fn add_candidates(
    found: &mut Vec<PathCandidate>,
    entries: &[PathEntry],
    packages: &[String],
    class: PathDependencyClass,
)
    ensures
        candidate_views(final(found)@) == path_candidates(
            candidate_views(old(found)@),
            entries@,
            string_views(packages@),
            class,
        ),
{
    let ghost start = candidate_views(found@);
    let mut i: usize = 0;
    while i < entries.len()
        invariant
            i <= entries.len(),
            candidate_views(found@) == path_candidates(start, entries@.take(i as int), string_views(packages@), class),
        decreases entries.len() - i,
    {
        assert(entries@.take(i + 1).drop_last() == entries@.take(i as int));
        assert(entries@.take(i + 1).last() == entries@[i as int]);
        let (name, path) = &entries[i];
        if let Some(p) = path {
            if !listed(packages, name.as_str()) && !already_found(found, name.as_str()) {
                let ghost before = candidate_views(found@);
                found.push(PathCandidate { name: name.clone(), path: p.clone(), class });
                assert(candidate_views(found@) =~= before.push((name@, p@, class)));
            }
        }
        i = i + 1;
    }
    assert(entries@.take(entries.len() as int) == entries@);
}

/// The crate's path dependencies outside the workspace whose locations are
/// normalized out of diagnostics: its `[dependencies]` first, then the path
/// dependencies of its other tables (development and target-specific ones)
/// whose names were not found already.
pub fn path_dependency_candidates(
    dependencies: &[PathEntry],
    others: &[PathEntry],
    workspace_packages: &[String],
) -> (r: Vec<PathCandidate>)
    ensures
        candidate_views(r@) == path_candidates(
            path_candidates(
                Seq::empty(),
                dependencies@,
                string_views(workspace_packages@),
                PathDependencyClass::LegacyTopLevel,
            ),
            others@,
            string_views(workspace_packages@),
            PathDependencyClass::Additional,
        ),
{
    let mut found: Vec<PathCandidate> = Vec::new();
    assert(candidate_views(found@) =~= Seq::<(Seq<char>, Seq<char>, PathDependencyClass)>::empty());
    add_candidates(&mut found, dependencies, workspace_packages, PathDependencyClass::LegacyTopLevel);
    add_candidates(&mut found, others, workspace_packages, PathDependencyClass::Additional);
    found
}

/// A manifest's relative dependency path made absolute against the
/// manifest's directory, as a directory.
pub fn rebased(dir: &Directory, path: &str) -> (r: Directory)
    ensures
        r@ == std_as_directory(std_path_join(dir@, path@)),
{
    Directory::new(dir.join(path).as_str())
}

/// The table without entries under the name `trybuild` (the harness is
/// never a dependency of its own generated project).
pub open spec fn without_harness<V>(t: Seq<(Seq<char>, V)>) -> Seq<(Seq<char>, V)>
    decreases t.len(),
{
    if t.len() == 0 {
        t
    } else {
        let rest = without_harness(t.drop_last());
        if t.last().0 == "trybuild"@ {
            rest
        } else {
            rest.push(t.last())
        }
    }
}

/// Dropping the `trybuild` entry keeps only names the table had, and keeps
/// distinct names distinct.
pub proof fn lemma_without_harness_distinct<V>(t: Seq<(Seq<char>, V)>)
    ensures
        forall|i: int| 0 <= i < without_harness(t).len() ==> exists|k: int| 0 <= k < t.len() && #[trigger] without_harness(t)[i].0 == t[k].0,
        distinct_keys(t) ==> distinct_keys(without_harness(t)),
    decreases t.len(),
{
    if t.len() > 0 {
        let rest = without_harness(t.drop_last());
        lemma_without_harness_distinct(t.drop_last());
        assert forall|i: int| 0 <= i < rest.len() implies exists|k: int| 0 <= k < t.len() && #[trigger] rest[i].0 == t[k].0 by {
            let k = choose|k: int| 0 <= k < t.drop_last().len() && rest[i].0 == t.drop_last()[k].0;
            assert(rest[i].0 == t[k].0);
        }
        if t.last().0 != "trybuild"@ {
            let r = rest.push(t.last());
            assert(without_harness(t) == r);
            assert forall|i: int| 0 <= i < r.len() implies exists|k: int| 0 <= k < t.len() && #[trigger] r[i].0 == t[k].0 by {
                if i == rest.len() {
                    assert(r[i].0 == t[t.len() - 1].0);
                } else {
                    assert(r[i] == rest[i]);
                }
            }
            if distinct_keys(t) {
                assert(distinct_keys(t.drop_last())) by {
                    assert forall|i: int, j: int| 0 <= i < j < t.drop_last().len() implies #[trigger] t.drop_last()[i].0 != #[trigger] t.drop_last()[j].0 by {
                        assert(t.drop_last()[i] == t[i] && t.drop_last()[j] == t[j]);
                    }
                }
                assert forall|i: int, j: int| 0 <= i < j < r.len() implies #[trigger] r[i].0 != #[trigger] r[j].0 by {
                    if j == rest.len() {
                        let k = choose|k: int| 0 <= k < t.drop_last().len() && rest[i].0 == t.drop_last()[k].0;
                        assert(t.drop_last()[k] == t[k]);
                        assert(t[k].0 != t[t.len() - 1].0);
                    } else {
                        assert(r[i] == rest[i] && r[j] == rest[j]);
                    }
                }
            }
        } else {
            if distinct_keys(t) {
                assert forall|i: int, j: int| 0 <= i < j < t.drop_last().len() implies #[trigger] t.drop_last()[i].0 != #[trigger] t.drop_last()[j].0 by {
                    assert(t.drop_last()[i] == t[i] && t.drop_last()[j] == t[j]);
                }
            }
        }
    }
}

/// Drops the `trybuild` entry of a dependency table.
pub fn remove_harness<V>(t: Vec<(String, V)>) -> (r: Vec<(String, V)>)
    ensures
        table_view(r@) == without_harness(table_view(t@)),
        distinct_keys(table_view(t@)) ==> distinct_keys(table_view(r@)),
{
    proof {
        lemma_without_harness_distinct(table_view(t@));
    }
    let ghost all = t@;
    let harness = chars::chars_of("trybuild");
    let mut rest = t;
    let n = rest.len();
    let mut out: Vec<(String, V)> = Vec::new();
    let mut i: usize = 0;
    while i < n
        invariant
            i <= n == all.len(),
            harness@ == "trybuild"@,
            rest@ == all.skip(i as int),
            table_view(out@) == without_harness(table_view(all.take(i as int))),
        decreases n - i,
    {
        let (k, v) = rest.remove(0);
        assert((k, v) == all[i as int]);
        assert(rest@ == all.skip(i + 1));
        assert(table_view(all.take(i + 1)).drop_last() == table_view(all.take(i as int)));
        assert(table_view(all.take(i + 1)).last() == (k@, v));
        if !chars::equals(&chars::chars_of(k.as_str()), &harness) {
            let ghost before = table_view(out@);
            let ghost kv = k@;
            out.push((k, v));
            assert(table_view(out@) =~= before.push((kv, v)));
        }
        i = i + 1;
    }
    assert(all.take(n as int) == all);
    out
}

/// The bins of the cases that expanded without error: each under its
/// generated name, at its path under the crate's directory.
pub open spec fn case_bins(source_dir: Seq<char>, tests: Seq<ExpandedTest>) -> Seq<(Seq<char>, Seq<char>)>
    decreases tests.len(),
{
    if tests.len() == 0 {
        Seq::empty()
    } else {
        let rest = case_bins(source_dir, tests.drop_last());
        let t = tests.last();
        if t.error is None {
            rest.push((t.name.0@, std_path_join(source_dir, t.test.path@)))
        } else {
            rest
        }
    }
}

pub open spec fn bin_views(v: Seq<(String, String)>) -> Seq<(Seq<char>, Seq<char>)> {
    v.map_values(|b: (String, String)| (b.0@, b.1@))
}

/// The `[[bin]]` targets of the generated project, as (name, path): its own
/// placeholder `main.rs` under the project's name first, then one per case
/// that expanded without error.
pub fn generated_bins(project_name: &str, source_dir: &Directory, tests: &[ExpandedTest]) -> (r: Vec<(String, String)>)
    ensures
        bin_views(r@) == seq![(project_name@, "main.rs"@)] + case_bins(source_dir@, tests@),
{
    let mut bins: Vec<(String, String)> = Vec::new();
    bins.push((project_name.to_string(), "main.rs".to_string()));
    let ghost first = seq![(project_name@, "main.rs"@)];
    assert(bin_views(bins@) =~= first);
    let mut i: usize = 0;
    while i < tests.len()
        invariant
            i <= tests.len(),
            first == seq![(project_name@, "main.rs"@)],
            bin_views(bins@) == first + case_bins(source_dir@, tests@.take(i as int)),
        decreases tests.len() - i,
    {
        assert(tests@.take(i + 1).drop_last() == tests@.take(i as int));
        assert(tests@.take(i + 1).last() == tests@[i as int]);
        let t = &tests[i];
        if t.error.is_none() {
            let ghost before = bin_views(bins@);
            let entry = (t.name.0.clone(), source_dir.join(t.test.path.as_str()));
            let ghost ev = (entry.0@, entry.1@);
            bins.push(entry);
            assert(bin_views(bins@) =~= before.push(ev));
        }
        i = i + 1;
    }
    assert(tests@.take(tests.len() as int) == tests@);
    bins
}

/// Where the generated project of a crate lives: `tests/trybuild/<crate>/`
/// under the target directory.
pub fn project_dir(target_dir: &Directory, crate_name: &str) -> (r: Directory)
    ensures
        r@ == std_as_directory(std_path_join(std_path_join(std_path_join(target_dir@, "tests"@), "trybuild"@), crate_name@)),
{
    let tests = target_dir.join("tests");
    let trybuild = crate::directory::join_path(tests.as_str(), "trybuild");
    let dir = crate::directory::join_path(trybuild.as_str(), crate_name);
    Directory::new(dir.as_str())
}

} // verus!
