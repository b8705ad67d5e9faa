//! The naming rules that tell applications from system components.

use crate::chars::{contains, ends_with, starts_with, to_chars};
use crate::text::has_substring;
use vstd::prelude::*;

verus! {

/// The name follows one of the conventions for kernel, language-pack, data
/// and shared-files packages.
pub open spec fn apt_meta_pattern(name: Seq<char>) -> bool {
    ||| "linux-"@.is_prefix_of(name)
    ||| "language-pack-"@.is_prefix_of(name)
    ||| "-data"@.is_suffix_of(name)
    ||| "-common"@.is_suffix_of(name)
}

/// An APT package is an application only if it was installed by hand, is no
/// library, and is no meta package; otherwise it is a system package.
pub open spec fn apt_system(name: Seq<char>, manual: bool) -> bool {
    !(manual && !"lib"@.is_prefix_of(name) && !apt_meta_pattern(name))
}

/// The notes of a snap name one of the roles that belong to the operating system.
pub open spec fn snap_system_role(notes: Seq<char>) -> bool {
    ||| has_substring(notes, "base"@)
    ||| has_substring(notes, "kernel"@)
    ||| has_substring(notes, "gadget"@)
}

/// The name of a snap follows the convention for shared runtimes.
pub open spec fn snap_runtime_name(name: Seq<char>) -> bool {
    ||| "core"@.is_prefix_of(name)
    ||| "gnome-"@.is_prefix_of(name)
    ||| "gtk-"@.is_prefix_of(name)
    ||| "mesa-"@.is_prefix_of(name)
}

/// A snap is a runtime component if its notes or its name say so.
pub open spec fn snap_runtime(name: Seq<char>, notes: Seq<char>) -> bool {
    snap_system_role(notes) || snap_runtime_name(name)
}

/// Whether the APT package `name` is a system package.
pub(crate) fn apt_system_of(name: &[char], manual: bool) -> (r: bool)
    ensures
        r == apt_system(name@, manual),
{
    if !manual || starts_with(name, "lib") {
        return true;
    }
    starts_with(name, "linux-") || starts_with(name, "language-pack-") || ends_with(name, "-data")
        || ends_with(name, "-common")
}

/// Whether the snap `name`, listed with `notes`, is a runtime component.
pub(crate) fn snap_runtime_of(name: &[char], notes: &[char]) -> (r: bool)
    ensures
        r == snap_runtime(name@, notes@),
{
    if contains(notes, "base") || contains(notes, "kernel") || contains(notes, "gadget") {
        return true;
    }
    starts_with(name, "core") || starts_with(name, "gnome-") || starts_with(name, "gtk-")
        || starts_with(name, "mesa-")
}

/// Whether the APT package `name` is a system package, given whether it is
/// marked as manually installed.
pub fn is_apt_system(name: &str, manual: bool) -> (r: bool)
    ensures
        r == apt_system(name@, manual),
{
    let chars = to_chars(name);
    apt_system_of(chars.as_slice(), manual)
}

/// Whether the snap `name`, listed with `notes`, is a runtime component.
pub fn is_snap_runtime(name: &str, notes: &str) -> (r: bool)
    ensures
        r == snap_runtime(name@, notes@),
{
    let name_chars = to_chars(name);
    let notes_chars = to_chars(notes);
    snap_runtime_of(name_chars.as_slice(), notes_chars.as_slice())
}

/// A snap whose notes contain `base` is a runtime component, whatever its name.
pub proof fn lemma_base_snap_is_runtime(name: Seq<char>, notes: Seq<char>)
    requires
        has_substring(notes, "base"@),
    ensures
        snap_runtime(name, notes),
{
}

/// The snap `gnome-3-38-2004` is a runtime component, whatever its notes.
pub proof fn lemma_gnome_platform_snap_is_runtime(notes: Seq<char>)
    ensures
        snap_runtime("gnome-3-38-2004"@, notes),
{
    reveal_strlit("gnome-");
    reveal_strlit("gnome-3-38-2004");
    assert("gnome-3-38-2004"@.subrange(0, 6) =~= "gnome-"@);
}

/// A library package is a system package even when it was installed by hand.
pub proof fn lemma_apt_library_is_system(name: Seq<char>, manual: bool)
    requires
        "lib"@.is_prefix_of(name),
    ensures
        apt_system(name, manual),
{
}

} // verus!
