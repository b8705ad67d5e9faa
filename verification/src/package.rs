//! The record kept for each installed package.

use vstd::prelude::*;

verus! {

/// The package manager that reported a package.
#[derive(Clone, Copy, Debug, PartialEq, Eq, Structural)]
pub enum Source {
    Flatpak,
    Apt,
    Snap,
}

impl Source {
    /// The name under which the source is shown, and which the source filter
    /// is matched against.
    pub open spec fn label(self) -> Seq<char> {
        match self {
            Source::Flatpak => "Flatpak"@,
            Source::Apt => "APT"@,
            Source::Snap => "Snap"@,
        }
    }

    pub fn as_str(&self) -> (label: &'static str)
        ensures
            label@ == self.label(),
    {
        match self {
            Source::Flatpak => "Flatpak",
            Source::Apt => "APT",
            Source::Snap => "Snap",
        }
    }
}

/// One installed package.
#[derive(Clone, Debug, PartialEq, Eq)]
pub struct Package {
    pub source: Source,
    pub name: String,
    pub version: String,
    /// Whether the package is a dependency or runtime component rather than
    /// an application that the user installed on purpose.
    pub is_system: bool,
}

/// What a `Package` stands for in specifications.
pub ghost struct PackageView {
    pub source: Source,
    pub name: Seq<char>,
    pub version: Seq<char>,
    pub is_system: bool,
}

impl View for Package {
    type V = PackageView;

    open spec fn view(&self) -> PackageView {
        PackageView {
            source: self.source,
            name: self.name@,
            version: self.version@,
            is_system: self.is_system,
        }
    }
}

impl DeepView for Package {
    type V = PackageView;

    open spec fn deep_view(&self) -> PackageView {
        self@
    }
}

impl PackageView {
    /// A package record is well formed when it has a name.
    pub open spec fn well_formed(self) -> bool {
        self.name.len() > 0
    }
}

/// Every record comes from `source` and has a name.
pub open spec fn all_from(pkgs: Seq<PackageView>, source: Source) -> bool {
    forall|i: int|
        0 <= i < pkgs.len() ==> (#[trigger] pkgs[i]).source == source && pkgs[i].well_formed()
}

/// The result of one load: the packages of each source, in the order in
/// which the source listed them.
#[derive(Clone, Debug, PartialEq, Eq)]
pub struct PackageLists {
    pub flatpak_packages: Vec<Package>,
    pub apt_packages: Vec<Package>,
    pub snap_packages: Vec<Package>,
}

/// What a `PackageLists` stands for in specifications.
pub ghost struct PackageListsView {
    pub flatpak_packages: Seq<PackageView>,
    pub apt_packages: Seq<PackageView>,
    pub snap_packages: Seq<PackageView>,
}

impl View for PackageLists {
    type V = PackageListsView;

    open spec fn view(&self) -> PackageListsView {
        PackageListsView {
            flatpak_packages: self.flatpak_packages.deep_view(),
            apt_packages: self.apt_packages.deep_view(),
            snap_packages: self.snap_packages.deep_view(),
        }
    }
}

impl PackageListsView {
    /// Each list holds named packages of its own source only.
    pub open spec fn well_formed(self) -> bool {
        &&& all_from(self.flatpak_packages, Source::Flatpak)
        &&& all_from(self.apt_packages, Source::Apt)
        &&& all_from(self.snap_packages, Source::Snap)
    }
}

} // verus!
