//! Deciding which packages of a list are shown.

use crate::package::{Package, PackageView};
use crate::chars::{contains, lowercase, str_to_lowercase, to_chars};
use crate::text::has_substring;
use vstd::prelude::*;

verus! {

/// A text passes a filter if the filter is empty or occurs in the text,
/// both taken in lowercase.
pub open spec fn matches_text(text: Seq<char>, filter: Seq<char>) -> bool {
    filter.len() == 0 || has_substring(lowercase(text), lowercase(filter))
}

/// A package is shown if its name passes the name filter, the label of its
/// source passes the source filter, and it is no system package unless
/// system packages are asked for.
pub open spec fn visible(
    p: PackageView,
    name_filter: Seq<char>,
    source_filter: Seq<char>,
    include_system: bool,
) -> bool {
    &&& matches_text(p.name, name_filter)
    &&& matches_text(p.source.label(), source_filter)
    &&& (!p.is_system || include_system)
}

/// The test that a filter applies to each package.
pub open spec fn visibility(
    name_filter: Seq<char>,
    source_filter: Seq<char>,
    include_system: bool,
) -> spec_fn(PackageView) -> bool {
    |p: PackageView| visible(p, name_filter, source_filter, include_system)
}

/// The packages of a list that a filter shows, in the order of the list.
pub open spec fn visible_packages(
    pkgs: Seq<PackageView>,
    name_filter: Seq<char>,
    source_filter: Seq<char>,
    include_system: bool,
) -> Seq<PackageView> {
    pkgs.filter(visibility(name_filter, source_filter, include_system))
}

/// Whether `pattern` occurs in `text` as it stands, with no case folding.
pub fn contains_text(text: &str, pattern: &str) -> (r: bool)
    ensures
        r == has_substring(text@, pattern@),
{
    let chars = to_chars(text);
    contains(chars.as_slice(), pattern)
}

/// Whether `text` passes `filter`, ignoring case.
pub fn matches_filter(text: &str, filter: &str) -> (r: bool)
    ensures
        r == matches_text(text@, filter@),
{
    if filter.is_empty() {
        return true;
    }
    let text_lower = str_to_lowercase(text);
    let filter_lower = str_to_lowercase(filter);
    contains_text(text_lower.as_str(), filter_lower.as_str())
}

/// Whether the filter shows `pkg`.
pub fn is_visible(
    pkg: &Package,
    name_filter: &str,
    source_filter: &str,
    include_system: bool,
) -> (r: bool)
    ensures
        r == visible(pkg@, name_filter@, source_filter@, include_system),
{
    if pkg.is_system && !include_system {
        return false;
    }
    matches_filter(pkg.name.as_str(), name_filter) && matches_filter(
        pkg.source.as_str(),
        source_filter,
    )
}

/// The packages of `pkgs` that the filter shows, in the order of `pkgs`.
/// The list itself is left as it is.
pub fn filter_packages<'a>(
    pkgs: &'a Vec<Package>,
    name_filter: &str,
    source_filter: &str,
    include_system: bool,
) -> (shown: Vec<&'a Package>)
    ensures
        shown.deep_view() == visible_packages(
            pkgs.deep_view(),
            name_filter@,
            source_filter@,
            include_system,
        ),
{
    let mut shown: Vec<&'a Package> = Vec::new();
    let ghost test = visibility(name_filter@, source_filter@, include_system);
    let mut i: usize = 0;
    proof {
        reveal(Seq::filter);
        assert(pkgs.deep_view().take(0) =~= Seq::empty());
        assert(shown.deep_view() =~= pkgs.deep_view().take(0).filter(test));
    }
    while i < pkgs.len()
        invariant
            i <= pkgs.len(),
            test == visibility(name_filter@, source_filter@, include_system),
            shown.deep_view() == pkgs.deep_view().take(i as int).filter(test),
        decreases pkgs.len() - i,
    {
        let ghost before = shown.deep_view();
        proof {
            reveal(Seq::filter);
            let next = pkgs.deep_view().take(i + 1);
            assert(next.drop_last() =~= pkgs.deep_view().take(i as int));
            assert(next.last() == pkgs[i as int]@);
        }
        if is_visible(&pkgs[i], name_filter, source_filter, include_system) {
            shown.push(&pkgs[i]);
            assert(shown.deep_view() =~= before.push(pkgs[i as int]@));
        }
        i += 1;
    }
    assert(pkgs.deep_view().take(pkgs.len() as int) =~= pkgs.deep_view());
    shown
}

/// Filtering a list in which every element passes the test changes nothing.
proof fn lemma_filter_all<T>(s: Seq<T>, test: spec_fn(T) -> bool)
    requires
        forall|i: int| 0 <= i < s.len() ==> test(#[trigger] s[i]),
    ensures
        s.filter(test) == s,
    decreases s.len(),
{
    reveal(Seq::filter);
    if s.len() > 0 {
        let init = s.drop_last();
        assert forall|i: int| 0 <= i < init.len() implies test(#[trigger] init[i]) by {
            assert(init[i] == s[i]);
        }
        lemma_filter_all(init, test);
        assert(init.push(s.last()) =~= s);
    }
}

/// Every element of a filtered list passes the test.
proof fn lemma_filter_passes<T>(s: Seq<T>, test: spec_fn(T) -> bool)
    ensures
        forall|i: int| 0 <= i < s.filter(test).len() ==> test(#[trigger] s.filter(test)[i]),
    decreases s.len(),
{
    reveal(Seq::filter);
    if s.len() > 0 {
        lemma_filter_passes(s.drop_last(), test);
    }
}

/// Applying a filter to what it has shown already shows the same packages again.
pub proof fn lemma_filter_idempotent(
    pkgs: Seq<PackageView>,
    name_filter: Seq<char>,
    source_filter: Seq<char>,
    include_system: bool,
)
    ensures
        visible_packages(
            visible_packages(pkgs, name_filter, source_filter, include_system),
            name_filter,
            source_filter,
            include_system,
        ) == visible_packages(pkgs, name_filter, source_filter, include_system),
{
    let test = visibility(name_filter, source_filter, include_system);
    lemma_filter_passes(pkgs, test);
    lemma_filter_all(pkgs.filter(test), test);
}

/// With no name filter, no source filter, and system packages included,
/// the whole list is shown.
pub proof fn lemma_empty_filter_shows_all(pkgs: Seq<PackageView>)
    ensures
        visible_packages(pkgs, Seq::empty(), Seq::empty(), true) == pkgs,
{
    lemma_filter_all(pkgs, visibility(Seq::empty(), Seq::empty(), true));
}

/// What a filter shows keeps the order of the list and adds nothing to it:
/// every package shown is a package of the list that passes the filter.
pub proof fn lemma_visible_packages_pass(
    pkgs: Seq<PackageView>,
    name_filter: Seq<char>,
    source_filter: Seq<char>,
    include_system: bool,
    i: int,
)
    requires
        0 <= i < visible_packages(pkgs, name_filter, source_filter, include_system).len(),
    ensures
        ({
            let p = visible_packages(pkgs, name_filter, source_filter, include_system)[i];
            pkgs.contains(p) && visible(p, name_filter, source_filter, include_system)
        }),
{
    let test = visibility(name_filter, source_filter, include_system);
    lemma_filter_passes(pkgs, test);
    pkgs.lemma_filter_contains_rev(test, pkgs.filter(test)[i]);
}

} // verus!
