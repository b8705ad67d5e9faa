use pkg_inventory::{is_apt_system, is_snap_runtime};

#[test]
fn manual_application_is_not_system() {
    assert!(!is_apt_system("htop", true));
}

#[test]
fn library_is_system_even_if_manual() {
    assert!(is_apt_system("libssl3", true));
}

#[test]
fn automatically_installed_package_is_system() {
    assert!(is_apt_system("htop", false));
    assert!(is_apt_system("libssl3", false));
}

#[test]
fn meta_patterns_are_system_even_if_manual() {
    assert!(is_apt_system("linux-image-generic", true));
    assert!(is_apt_system("language-pack-en", true));
    assert!(is_apt_system("tzdata-data", true));
    assert!(is_apt_system("gnome-shell-common", true));
}

#[test]
fn meta_patterns_must_stand_at_the_right_end() {
    assert!(!is_apt_system("syslinux-utils", true));
    assert!(!is_apt_system("data-tool", true));
    assert!(!is_apt_system("common-lisp", true));
    assert!(!is_apt_system("glib-networking", true));
    assert!(!is_apt_system("linux", true));
}

#[test]
fn snap_with_base_notes_is_runtime() {
    assert!(is_snap_runtime("core20", "base"));
    assert!(is_snap_runtime("bare", "base"));
    assert!(is_snap_runtime("firefox", "classic,base"));
}

#[test]
fn snap_with_kernel_or_gadget_notes_is_runtime() {
    assert!(is_snap_runtime("pc-kernel", "kernel"));
    assert!(is_snap_runtime("pc", "gadget"));
}

#[test]
fn gnome_platform_snap_is_runtime_whatever_its_notes() {
    assert!(is_snap_runtime("gnome-3-38-2004", "-"));
    assert!(is_snap_runtime("gnome-3-38-2004", ""));
    assert!(is_snap_runtime("gnome-3-38-2004", "classic"));
}

#[test]
fn snap_runtime_name_prefixes() {
    assert!(is_snap_runtime("core", "-"));
    assert!(is_snap_runtime("core22", "-"));
    assert!(is_snap_runtime("gtk-common-themes", "-"));
    assert!(is_snap_runtime("mesa-core22", "-"));
}

#[test]
fn ordinary_snap_is_no_runtime() {
    assert!(!is_snap_runtime("firefox", "-"));
    assert!(!is_snap_runtime("gnome", "-"));
    assert!(!is_snap_runtime("gtk", "classic"));
    assert!(!is_snap_runtime("snap-store", "-"));
}
