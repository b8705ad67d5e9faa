//! Putting the results of the three sources together.

use crate::package::{Package, PackageLists, Source};
use crate::text::{fields, lemma_fields_concat, lemma_fields_single, lines};
use vstd::prelude::*;

verus! {

/// The texts of `parts`, with a line feed between each two.
pub open spec fn join_lines(parts: Seq<Seq<char>>) -> Seq<char>
    decreases parts.len(),
{
    if parts.len() == 0 {
        Seq::empty()
    } else if parts.len() == 1 {
        parts[0]
    } else {
        join_lines(parts.drop_last()) + seq!['\n'] + parts.last()
    }
}

/// The message for a source that failed with `error`.
pub open spec fn source_failure(source: Source, error: Seq<char>) -> Seq<char> {
    source.label() + " error: "@ + error
}

/// The messages that one source adds: one if it failed, none if it did not.
pub open spec fn failure(source: Source, error: Option<Seq<char>>) -> Seq<Seq<char>> {
    match error {
        Some(e) => seq![source_failure(source, e)],
        None => Seq::empty(),
    }
}

/// The messages of the sources that failed, given the error of each source
/// that did: APT first, then Flatpak, then Snap.
pub open spec fn failures(
    apt: Option<Seq<char>>,
    flatpak: Option<Seq<char>>,
    snap: Option<Seq<char>>,
) -> Seq<Seq<char>> {
    failure(Source::Apt, apt) + failure(Source::Flatpak, flatpak) + failure(Source::Snap, snap)
}

/// The error that a source's result holds, if it holds one.
pub open spec fn error_of(r: Result<Vec<Package>, String>) -> Option<Seq<char>> {
    match r {
        Ok(_) => None,
        Err(e) => Some(e@),
    }
}

/// The packages that a source's result holds; none if it failed.
pub open spec fn packages_of(r: Result<Vec<Package>, String>) -> Seq<Package> {
    match r {
        Ok(pkgs) => pkgs@,
        Err(_) => Seq::empty(),
    }
}

/// What one load found: the packages of the sources that could be read,
/// and a message for each source that could not.
#[derive(Clone, Debug, PartialEq, Eq)]
pub struct LoadReport {
    pub lists: PackageLists,
    pub errors: Vec<String>,
}

/// The message for `source`, which failed with `error`.
pub fn describe_source_failure(source: Source, error: &str) -> (message: String)
    ensures
        message@ == source_failure(source, error@),
{
    let mut message = String::new();
    message.append(source.as_str());
    message.append(" error: ");
    message.append(error);
    assert(message@ =~= source_failure(source, error@));
    message
}

/// Takes the packages out of a source's result, or adds the message for
/// its failure to `errors`.
fn take_source(
    source: Source,
    r: Result<Vec<Package>, String>,
    errors: &mut Vec<String>,
) -> (pkgs: Vec<Package>)
    ensures
        pkgs@ == packages_of(r),
        final(errors).deep_view() == old(errors).deep_view() + failure(source, error_of(r)),
{
    let ghost before = errors.deep_view();
    match r {
        Ok(pkgs) => {
            assert(errors.deep_view() =~= before + failure(source, error_of(r)));
            pkgs
        },
        Err(e) => {
            let message = describe_source_failure(source, e.as_str());
            errors.push(message);
            assert(errors.deep_view() =~= before + failure(source, error_of(r)));
            Vec::new()
        },
    }
}

impl LoadReport {
    /// Puts the results of the three sources together. A source that
    /// failed has no packages and one message; the others keep theirs.
    pub fn collect(
        apt: Result<Vec<Package>, String>,
        flatpak: Result<Vec<Package>, String>,
        snap: Result<Vec<Package>, String>,
    ) -> (report: LoadReport)
        ensures
            report.lists.apt_packages@ == packages_of(apt),
            report.lists.flatpak_packages@ == packages_of(flatpak),
            report.lists.snap_packages@ == packages_of(snap),
            report.errors.deep_view() == failures(error_of(apt), error_of(flatpak), error_of(snap)),
    {
        let mut errors: Vec<String> = Vec::new();
        let apt_packages = take_source(Source::Apt, apt, &mut errors);
        let flatpak_packages = take_source(Source::Flatpak, flatpak, &mut errors);
        let snap_packages = take_source(Source::Snap, snap, &mut errors);
        assert(errors.deep_view() =~= failures(error_of(apt), error_of(flatpak), error_of(snap)));
        LoadReport { lists: PackageLists { flatpak_packages, apt_packages, snap_packages }, errors }
    }

    /// The messages of the sources that failed, one to a line; empty if
    /// none failed.
    pub fn combined_error(&self) -> (message: String)
        ensures
            message@ == join_lines(self.errors.deep_view()),
    {
        let mut message = String::new();
        let mut i: usize = 0;
        assert(self.errors.deep_view().take(0) =~= Seq::empty());
        while i < self.errors.len()
            invariant
                i <= self.errors.len(),
                message@ == join_lines(self.errors.deep_view().take(i as int)),
            decreases self.errors.len() - i,
        {
            proof {
                let next = self.errors.deep_view().take(i + 1);
                assert(next.drop_last() =~= self.errors.deep_view().take(i as int));
                assert(next.last() == self.errors[i as int]@);
            }
            if i > 0 {
                message.append("\n");
                proof {
                    reveal_strlit("\n");
                    assert("\n"@ =~= seq!['\n']);
                }
            }
            message.append(self.errors[i].as_str());
            assert(message@ =~= join_lines(self.errors.deep_view().take(i + 1)));
            i += 1;
        }
        assert(self.errors.deep_view().take(self.errors.len() as int) =~= self.errors.deep_view());
        message
    }

    /// The lists if no source failed, else the combined error; the
    /// packages of the sources that could be read are then given up.
    pub fn into_result(self) -> (r: Result<PackageLists, String>)
        ensures
            self.errors.len() == 0 ==> r == Ok::<PackageLists, String>(self.lists),
            self.errors.len() > 0 ==> r is Err && r->Err_0@ == join_lines(self.errors.deep_view()),
    {
        if self.errors.len() == 0 {
            Ok(self.lists)
        } else {
            Err(self.combined_error())
        }
    }
}

/// The lists of all three sources if each could be read; else the messages
/// of those that failed, one to a line.
pub fn load_app_lists(
    apt: Result<Vec<Package>, String>,
    flatpak: Result<Vec<Package>, String>,
    snap: Result<Vec<Package>, String>,
) -> (r: Result<PackageLists, String>)
    ensures
        match r {
            Ok(lists) => {
                &&& apt is Ok && flatpak is Ok && snap is Ok
                &&& lists.apt_packages@ == packages_of(apt)
                &&& lists.flatpak_packages@ == packages_of(flatpak)
                &&& lists.snap_packages@ == packages_of(snap)
            },
            Err(e) => {
                &&& apt is Err || flatpak is Err || snap is Err
                &&& e@ == join_lines(failures(error_of(apt), error_of(flatpak), error_of(snap)))
            },
        },
{
    let report = LoadReport::collect(apt, flatpak, snap);
    assert(report.errors.len() == report.errors.deep_view().len());
    report.into_result()
}


/// The text holds no line feed.
pub open spec fn single_line(s: Seq<char>) -> bool {
    forall|i: int| 0 <= i < s.len() ==> #[trigger] s[i] != '\n'
}

/// Texts of one line each, joined, split at the line feeds into those texts again.
pub proof fn lemma_fields_of_joined(parts: Seq<Seq<char>>)
    requires
        parts.len() > 0,
        forall|i: int| 0 <= i < parts.len() ==> single_line(#[trigger] parts[i]),
    ensures
        fields(join_lines(parts), '\n') == parts,
    decreases parts.len(),
{
    assert(single_line(parts.last()));
    lemma_fields_single(parts.last(), '\n');
    if parts.len() == 1 {
        assert(parts =~= seq![parts[0]]);
    } else {
        let init = parts.drop_last();
        assert forall|i: int| 0 <= i < init.len() implies single_line(#[trigger] init[i]) by {
            assert(init[i] == parts[i]);
        }
        lemma_fields_of_joined(init);
        lemma_fields_concat(join_lines(init), parts.last(), '\n');
        assert(init + seq![parts.last()] =~= parts);
    }
}

/// The message for a failed source is a single line if the error is.
proof fn lemma_source_failure_single_line(source: Source, error: Seq<char>)
    requires
        single_line(error),
    ensures
        single_line(source_failure(source, error)),
        source_failure(source, error).len() > 0,
{
    reveal_strlit("APT");
    reveal_strlit("Flatpak");
    reveal_strlit("Snap");
    reveal_strlit(" error: ");
    let label = source.label();
    let mid = " error: "@;
    assert forall|i: int| 0 <= i < label.len() implies #[trigger] label[i] != '\n' by {
        if i == 0 {
        } else if i == 1 {
        } else if i == 2 {
        } else if i == 3 {
        } else if i == 4 {
        } else if i == 5 {
        } else if i == 6 {
        }
    }
    assert forall|i: int| 0 <= i < mid.len() implies #[trigger] mid[i] != '\n' by {
        if i == 0 {
        } else if i == 1 {
        } else if i == 2 {
        } else if i == 3 {
        } else if i == 4 {
        } else if i == 5 {
        } else if i == 6 {
        } else if i == 7 {
        }
    }
    let m = source_failure(source, error);
    assert forall|i: int| 0 <= i < m.len() implies #[trigger] m[i] != '\n' by {
        if i < label.len() {
            assert(m[i] == label[i]);
        } else if i < label.len() + mid.len() {
            assert(m[i] == mid[i - label.len()]);
        } else {
            assert(m[i] == error[i - label.len() - mid.len()]);
        }
    }
}

/// One if the source failed, zero if it did not.
pub open spec fn failed(error: Option<Seq<char>>) -> nat {
    if error is Some {
        1
    } else {
        0
    }
}

/// The number of sources that failed.
pub open spec fn failed_sources(
    apt: Option<Seq<char>>,
    flatpak: Option<Seq<char>>,
    snap: Option<Seq<char>>,
) -> nat {
    failed(apt) + failed(flatpak) + failed(snap)
}

/// The combined error has one line for each source that failed, and is
/// empty when none failed, provided that no source's own error runs over
/// several lines.
pub proof fn lemma_one_line_per_failure(
    apt: Option<Seq<char>>,
    flatpak: Option<Seq<char>>,
    snap: Option<Seq<char>>,
)
    requires
        apt matches Some(e) ==> single_line(e),
        flatpak matches Some(e) ==> single_line(e),
        snap matches Some(e) ==> single_line(e),
    ensures
        failures(apt, flatpak, snap).len() == failed_sources(apt, flatpak, snap),
        lines(join_lines(failures(apt, flatpak, snap))).len() == failed_sources(apt, flatpak, snap),
        failed_sources(apt, flatpak, snap) == 0 ==> join_lines(failures(apt, flatpak, snap)).len()
            == 0,
{
    let fs = failures(apt, flatpak, snap);
    if let Some(e) = apt {
        lemma_source_failure_single_line(Source::Apt, e);
    }
    if let Some(e) = flatpak {
        lemma_source_failure_single_line(Source::Flatpak, e);
    }
    if let Some(e) = snap {
        lemma_source_failure_single_line(Source::Snap, e);
    }
    if fs.len() == 0 {
        lemma_fields_single(Seq::empty(), '\n');
    } else {
        assert forall|i: int| 0 <= i < fs.len() implies single_line(#[trigger] fs[i])
            && fs[i].len() > 0 by {}
        lemma_fields_of_joined(fs);
    }
}

} // verus!
