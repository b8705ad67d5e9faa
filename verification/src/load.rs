//! Turning the listings that the package managers print into package records.

use crate::chars::{split, split_lines, split_whitespace, to_chars, to_string, trim};
use crate::classify::{
    apt_meta_pattern, apt_system, apt_system_of, snap_runtime, snap_runtime_of,
};
use crate::package::{all_from, Package, PackageView, Source};
use crate::text::{
    fields, has_substring, lemma_fields_nonempty, lemma_words_nonempty, lines, trimmed, views,
    words,
};
use vstd::hash_set::StringHashSet;
use vstd::prelude::*;

verus! {

/// The names that a list of manually installed packages holds: each line
/// without the whitespace around it, unless nothing is left of it.
pub open spec fn names_in(ls: Seq<Seq<char>>) -> Set<Seq<char>> {
    Set::new(
        |n: Seq<char>|
            n.len() > 0 && exists|i: int| 0 <= i < ls.len() && #[trigger] trimmed(ls[i]) == n,
    )
}

/// The names that the output of `apt-mark showmanual` holds.
pub open spec fn manual_names(output: Seq<char>) -> Set<Seq<char>> {
    names_in(lines(output))
}

/// The record that one line of `dpkg-query` output stands for: name and
/// version are separated by a tab. A line without a name stands for none; a
/// line without a version has the empty version.
pub open spec fn apt_record(manual: Set<Seq<char>>, line: Seq<char>) -> Option<PackageView> {
    let cols = fields(line, '\t');
    let name = trimmed(cols[0]);
    let version = if cols.len() > 1 {
        trimmed(cols[1])
    } else {
        Seq::empty()
    };
    if name.len() == 0 {
        None
    } else {
        Some(
            PackageView {
                source: Source::Apt,
                name,
                version,
                is_system: apt_system(name, manual.contains(name)),
            },
        )
    }
}

/// The record that one line of `flatpak list` output stands for: name and
/// version are its first two columns. Flatpak lists applications only, so
/// none of them is a system package.
pub open spec fn flatpak_record(line: Seq<char>) -> Option<PackageView> {
    let cols = words(line);
    if cols.len() == 0 {
        None
    } else {
        Some(
            PackageView {
                source: Source::Flatpak,
                name: cols[0],
                version: if cols.len() > 1 {
                    cols[1]
                } else {
                    Seq::empty()
                },
                is_system: false,
            },
        )
    }
}

/// The record that one line of `snap list` output stands for: name and
/// version are its first two columns, the notes its last. A line with fewer
/// than two columns stands for none.
pub open spec fn snap_record(line: Seq<char>) -> Option<PackageView> {
    let cols = words(line);
    if cols.len() < 2 {
        None
    } else {
        Some(
            PackageView {
                source: Source::Snap,
                name: cols[0],
                version: cols[1],
                is_system: snap_runtime(cols[0], cols.last()),
            },
        )
    }
}

/// The packages that the output of `dpkg-query` lists, classified with the
/// set of manually installed names.
pub open spec fn apt_packages(manual: Set<Seq<char>>, output: Seq<char>) -> Seq<PackageView> {
    lines(output).filter_map(|l: Seq<char>| apt_record(manual, l))
}

/// The packages that the output of `flatpak list` lists.
pub open spec fn flatpak_packages(output: Seq<char>) -> Seq<PackageView> {
    lines(output).filter_map(|l: Seq<char>| flatpak_record(l))
}

/// The lines of a listing after its header line.
pub open spec fn body_lines(output: Seq<char>) -> Seq<Seq<char>> {
    if lines(output).len() == 0 {
        lines(output)
    } else {
        lines(output).drop_first()
    }
}

/// The packages that the output of `snap list` lists. Its first line is a header.
pub open spec fn snap_packages(output: Seq<char>) -> Seq<PackageView> {
    body_lines(output).filter_map(|l: Seq<char>| snap_record(l))
}

/// What an optional package stands for.
pub open spec fn record_view(r: Option<Package>) -> Option<PackageView> {
    match r {
        Some(p) => Some(p@),
        None => None,
    }
}

/// A package that APT reports is an application exactly if it is marked as
/// manually installed, its name does not begin with `lib`, and its name
/// follows none of the meta-package conventions. Every other package is a
/// system package.
pub proof fn lemma_apt_classification(manual: Set<Seq<char>>, output: Seq<char>, i: int)
    requires
        0 <= i < apt_packages(manual, output).len(),
    ensures
        ({
            let p = apt_packages(manual, output)[i];
            !p.is_system <==> (manual.contains(p.name) && !"lib"@.is_prefix_of(p.name)
                && !apt_meta_pattern(p.name))
        }),
{
    let record = |l: Seq<char>| apt_record(manual, l);
    let p = apt_packages(manual, output)[i];
    assert(apt_packages(manual, output).contains(p));
    lines(output).lemma_filter_map_contains(record, p);
}

/// Every APT record has the source APT and a name: a line without a name
/// gives no record.
pub proof fn lemma_apt_packages_named(manual: Set<Seq<char>>, output: Seq<char>)
    ensures
        all_from(apt_packages(manual, output), Source::Apt),
{
    let record = |l: Seq<char>| apt_record(manual, l);
    let pkgs = apt_packages(manual, output);
    assert forall|i: int| 0 <= i < pkgs.len() implies (#[trigger] pkgs[i]).source == Source::Apt
        && pkgs[i].well_formed() by {
        assert(pkgs.contains(pkgs[i]));
        lines(output).lemma_filter_map_contains(record, pkgs[i]);
    }
}

/// A line of `dpkg-query` output whose name column is empty gives no record.
pub proof fn lemma_apt_nameless_line_dropped(manual: Set<Seq<char>>, line: Seq<char>)
    requires
        trimmed(fields(line, '\t')[0]).len() == 0,
    ensures
        apt_record(manual, line) is None,
{
}

/// Every Flatpak record has the source Flatpak and a name, and none is a
/// system package, whatever the listing holds.
pub proof fn lemma_flatpak_packages_are_applications(output: Seq<char>)
    ensures
        all_from(flatpak_packages(output), Source::Flatpak),
        forall|i: int|
            0 <= i < flatpak_packages(output).len() ==> !(#[trigger] flatpak_packages(
                output,
            )[i]).is_system,
{
    let record = |l: Seq<char>| flatpak_record(l);
    let pkgs = flatpak_packages(output);
    assert forall|i: int| 0 <= i < pkgs.len() implies {
        let p = #[trigger] pkgs[i];
        p.source == Source::Flatpak && p.well_formed() && !p.is_system
    } by {
        assert(pkgs.contains(pkgs[i]));
        lines(output).lemma_filter_map_contains(record, pkgs[i]);
        let l = choose|l: Seq<char>| #[trigger]
            lines(output).contains(l) && record(l) == Some(pkgs[i]);
        lemma_words_nonempty(l, 0);
    }
}

/// Every Snap record has the source Snap and a name.
pub proof fn lemma_snap_packages_named(output: Seq<char>)
    ensures
        all_from(snap_packages(output), Source::Snap),
{
    let record = |l: Seq<char>| snap_record(l);
    let pkgs = snap_packages(output);
    assert forall|i: int| 0 <= i < pkgs.len() implies (#[trigger] pkgs[i]).source == Source::Snap
        && pkgs[i].well_formed() by {
        assert(pkgs.contains(pkgs[i]));
        body_lines(output).lemma_filter_map_contains(record, pkgs[i]);
        let l = choose|l: Seq<char>| #[trigger]
            body_lines(output).contains(l) && record(l) == Some(pkgs[i]);
        lemma_words_nonempty(l, 0);
    }
}

/// A line of `snap list` output whose notes contain `base` gives a system
/// package, whatever its name.
pub proof fn lemma_snap_base_is_system(line: Seq<char>)
    requires
        words(line).len() >= 2,
        has_substring(words(line).last(), "base"@),
    ensures
        snap_record(line) matches Some(p) && p.is_system,
{
}

/// The set of names that the output of `apt-mark showmanual` holds.
pub fn load_manual_set(output: &str) -> (set: StringHashSet)
    ensures
        set@ == manual_names(output@),
{
    let chars = to_chars(output);
    let ls = split_lines(chars.as_slice());
    let mut set = StringHashSet::new();
    let mut i: usize = 0;
    assert(set@ =~= names_in(views(ls@).take(0)));
    while i < ls.len()
        invariant
            i <= ls.len(),
            set@ == names_in(views(ls@).take(i as int)),
        decreases ls.len() - i,
    {
        let name = trim(ls[i]);
        let ghost before = views(ls@).take(i as int);
        let ghost after = views(ls@).take(i + 1);
        proof {
            assert(after =~= before.push(ls@[i as int]@));
            assert forall|n: Seq<char>| names_in(after).contains(n) <==> (names_in(
                before,
            ).contains(n) || (n.len() > 0 && n == name@)) by {
                if names_in(after).contains(n) {
                    let k = choose|k: int| 0 <= k < after.len() && #[trigger] trimmed(after[k]) == n;
                    if k < i {
                        assert(trimmed(before[k]) == n);
                    }
                }
                if names_in(before).contains(n) {
                    let k = choose|k: int|
                        0 <= k < before.len() && #[trigger] trimmed(before[k]) == n;
                    assert(trimmed(after[k]) == n);
                }
                if n.len() > 0 && n == name@ {
                    assert(trimmed(after[i as int]) == n);
                }
            }
        }
        if name.len() > 0 {
            set.insert(to_string(name));
        }
        assert(set@ =~= names_in(after));
        i += 1;
    }
    assert(views(ls@).take(ls.len() as int) =~= views(ls@));
    set
}

/// The record that one line of `dpkg-query` output stands for.
fn apt_record_of(manual: &StringHashSet, line: &[char]) -> (r: Option<Package>)
    ensures
        record_view(r) == apt_record(manual@, line@),
{
    let cols = split(line, '\t');
    proof {
        lemma_fields_nonempty(line@, '\t');
    }
    let name = trim(cols[0]);
    if name.len() == 0 {
        return None;
    }
    let name_text = to_string(name);
    let version = if cols.len() > 1 {
        to_string(trim(cols[1]))
    } else {
        String::new()
    };
    let is_system = apt_system_of(name, manual.contains(name_text.as_str()));
    Some(Package { source: Source::Apt, name: name_text, version, is_system })
}

/// The record that one line of `flatpak list` output stands for.
fn flatpak_record_of(line: &[char]) -> (r: Option<Package>)
    ensures
        record_view(r) == flatpak_record(line@),
{
    let cols = split_whitespace(line);
    if cols.len() == 0 {
        return None;
    }
    let version = if cols.len() > 1 {
        to_string(cols[1])
    } else {
        String::new()
    };
    Some(Package { source: Source::Flatpak, name: to_string(cols[0]), version, is_system: false })
}

/// The record that one line of `snap list` output stands for.
fn snap_record_of(line: &[char]) -> (r: Option<Package>)
    ensures
        record_view(r) == snap_record(line@),
{
    let cols = split_whitespace(line);
    if cols.len() < 2 {
        return None;
    }
    let notes = cols[cols.len() - 1];
    let is_system = snap_runtime_of(cols[0], notes);
    Some(
        Package {
            source: Source::Snap,
            name: to_string(cols[0]),
            version: to_string(cols[1]),
            is_system,
        },
    )
}

/// The packages that `dpkg-query` lists in `output`, each classified with
/// the names that `apt-mark showmanual` printed in `manual_output`.
pub fn load_apt(manual_output: &str, output: &str) -> (pkgs: Vec<Package>)
    ensures
        pkgs.deep_view() == apt_packages(manual_names(manual_output@), output@),
        all_from(pkgs.deep_view(), Source::Apt),
{
    proof {
        lemma_apt_packages_named(manual_names(manual_output@), output@);
    }
    let manual = load_manual_set(manual_output);
    let chars = to_chars(output);
    let ls = split_lines(chars.as_slice());
    let mut pkgs: Vec<Package> = Vec::new();
    let ghost record = |l: Seq<char>| apt_record(manual@, l);
    let mut i: usize = 0;
    assert(pkgs.deep_view() =~= views(ls@).take(0).filter_map(record));
    while i < ls.len()
        invariant
            i <= ls.len(),
            record == |l: Seq<char>| apt_record(manual@, l),
            pkgs.deep_view() == views(ls@).take(i as int).filter_map(record),
        decreases ls.len() - i,
    {
        let r = apt_record_of(&manual, ls[i]);
        let ghost before = pkgs.deep_view();
        proof {
            views(ls@).lemma_filter_map_take_succ(record, i as int);
        }
        if let Some(p) = r {
            let ghost pv = p@;
            pkgs.push(p);
            assert(pkgs.deep_view() =~= before.push(pv));
        }
        i += 1;
    }
    assert(views(ls@).take(ls.len() as int) =~= views(ls@));
    pkgs
}

/// The packages that `flatpak list` lists in `output`.
pub fn load_flatpak(output: &str) -> (pkgs: Vec<Package>)
    ensures
        pkgs.deep_view() == flatpak_packages(output@),
        all_from(pkgs.deep_view(), Source::Flatpak),
        forall|i: int| 0 <= i < pkgs.len() ==> !(#[trigger] pkgs[i]).is_system,
{
    proof {
        lemma_flatpak_packages_are_applications(output@);
    }
    let chars = to_chars(output);
    let ls = split_lines(chars.as_slice());
    let mut pkgs: Vec<Package> = Vec::new();
    let ghost record = |l: Seq<char>| flatpak_record(l);
    let mut i: usize = 0;
    assert(pkgs.deep_view() =~= views(ls@).take(0).filter_map(record));
    while i < ls.len()
        invariant
            i <= ls.len(),
            record == |l: Seq<char>| flatpak_record(l),
            pkgs.deep_view() == views(ls@).take(i as int).filter_map(record),
        decreases ls.len() - i,
    {
        let r = flatpak_record_of(ls[i]);
        let ghost before = pkgs.deep_view();
        proof {
            views(ls@).lemma_filter_map_take_succ(record, i as int);
        }
        if let Some(p) = r {
            let ghost pv = p@;
            pkgs.push(p);
            assert(pkgs.deep_view() =~= before.push(pv));
        }
        i += 1;
    }
    assert(views(ls@).take(ls.len() as int) =~= views(ls@));
    assert forall|i: int| 0 <= i < pkgs.len() implies !(#[trigger] pkgs[i]).is_system by {
        assert(pkgs.deep_view()[i] == pkgs[i]@);
    }
    pkgs
}

/// The packages that `snap list` lists in `output`, whose first line is a header.
pub fn load_snap(output: &str) -> (pkgs: Vec<Package>)
    ensures
        pkgs.deep_view() == snap_packages(output@),
        all_from(pkgs.deep_view(), Source::Snap),
{
    proof {
        lemma_snap_packages_named(output@);
    }
    let chars = to_chars(output);
    let ls = split_lines(chars.as_slice());
    let mut pkgs: Vec<Package> = Vec::new();
    if ls.len() == 0 {
        assert(pkgs.deep_view() =~= snap_packages(output@));
        return pkgs;
    }
    let ghost record = |l: Seq<char>| snap_record(l);
    let ghost body = views(ls@).drop_first();
    let mut i: usize = 1;
    assert(pkgs.deep_view() =~= body.take(0).filter_map(record));
    while i < ls.len()
        invariant
            1 <= i <= ls.len(),
            record == |l: Seq<char>| snap_record(l),
            body == views(ls@).drop_first(),
            pkgs.deep_view() == body.take(i - 1).filter_map(record),
        decreases ls.len() - i,
    {
        let r = snap_record_of(ls[i]);
        let ghost before = pkgs.deep_view();
        proof {
            assert(body[i - 1] == ls@[i as int]@);
            body.lemma_filter_map_take_succ(record, i - 1);
        }
        if let Some(p) = r {
            let ghost pv = p@;
            pkgs.push(p);
            assert(pkgs.deep_view() =~= before.push(pv));
        }
        i += 1;
    }
    assert(body.take(body.len() as int) =~= body);
    pkgs
}

} // verus!
