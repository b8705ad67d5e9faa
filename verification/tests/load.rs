use pkg_inventory::{load_apt, load_flatpak, load_manual_set, load_snap, Package, Source};

fn package(source: Source, name: &str, version: &str, is_system: bool) -> Package {
    Package { source, name: name.to_string(), version: version.to_string(), is_system }
}

#[test]
fn manual_set_holds_the_trimmed_nonempty_lines() {
    let set = load_manual_set("htop\n  vim \n\n\t\nlibssl3\r\n");
    assert!(set.contains("htop"));
    assert!(set.contains("vim"));
    assert!(set.contains("libssl3"));
    assert!(!set.contains(""));
    assert!(!set.contains("  vim "));
    assert!(!set.contains("curl"));
    assert_eq!(set.len(), 3);
}

#[test]
fn manual_set_of_nothing_is_empty() {
    assert!(load_manual_set("").is_empty());
    assert!(load_manual_set("\n \n").is_empty());
}

#[test]
fn apt_records_are_classified() {
    let manual = "htop\nlibssl3\nlinux-generic\n";
    let dpkg = "htop\t3.2.2-2\nlibssl3\t3.0.2\nlinux-generic\t6.8\nzlib1g\t1.2.11\n";
    assert_eq!(
        load_apt(manual, dpkg),
        vec![
            package(Source::Apt, "htop", "3.2.2-2", false),
            package(Source::Apt, "libssl3", "3.0.2", true),
            package(Source::Apt, "linux-generic", "6.8", true),
            package(Source::Apt, "zlib1g", "1.2.11", true),
        ]
    );
}

#[test]
fn apt_line_with_empty_name_gives_no_record() {
    let dpkg = "htop\t1.0\n\t2.0\n   \t3.0\n\nvim\t9.1\n";
    let pkgs = load_apt("htop\nvim\n", dpkg);
    assert_eq!(
        pkgs,
        vec![package(Source::Apt, "htop", "1.0", false), package(Source::Apt, "vim", "9.1", false)]
    );
}

#[test]
fn apt_line_without_version_has_empty_version() {
    assert_eq!(load_apt("", "htop\n"), vec![package(Source::Apt, "htop", "", true)]);
    assert_eq!(load_apt("", "htop\t\n"), vec![package(Source::Apt, "htop", "", true)]);
}

#[test]
fn apt_name_and_version_are_trimmed_and_further_columns_ignored() {
    assert_eq!(
        load_apt(" htop \n", " htop \t 1.0 \textra\r\n"),
        vec![package(Source::Apt, "htop", "1.0", false)]
    );
}

#[test]
fn apt_of_empty_output_is_empty() {
    assert_eq!(load_apt("htop\n", ""), Vec::<Package>::new());
}

#[test]
fn flatpak_records_are_never_system() {
    let out = "org.gnome.Calculator\t46.1\tstable\tflathub\norg.mozilla.firefox  128.0  stable  flathub\n";
    assert_eq!(
        load_flatpak(out),
        vec![
            package(Source::Flatpak, "org.gnome.Calculator", "46.1", false),
            package(Source::Flatpak, "org.mozilla.firefox", "128.0", false),
        ]
    );
}

#[test]
fn flatpak_blank_lines_give_no_record_and_a_lone_name_has_no_version() {
    assert_eq!(
        load_flatpak("\n   \norg.example.App\n"),
        vec![package(Source::Flatpak, "org.example.App", "", false)]
    );
    assert_eq!(load_flatpak(""), Vec::<Package>::new());
}

#[test]
fn flatpak_runtime_like_names_are_still_applications() {
    let pkgs = load_flatpak("libcore-data 1.0\n");
    assert_eq!(pkgs, vec![package(Source::Flatpak, "libcore-data", "1.0", false)]);
}

#[test]
fn snap_header_is_skipped_and_records_are_classified() {
    let out = "Name     Version   Rev    Tracking       Publisher   Notes\n\
               core20   20240416  2318   latest/stable  canonical** base\n\
               firefox  128.0     4650   latest/stable  mozilla**   -\n\
               gnome-3-38-2004  0+git  143  latest/stable  canonical**  -\n\
               pc-kernel  5.4  1  20/stable  canonical**  kernel\n";
    assert_eq!(
        load_snap(out),
        vec![
            package(Source::Snap, "core20", "20240416", true),
            package(Source::Snap, "firefox", "128.0", false),
            package(Source::Snap, "gnome-3-38-2004", "0+git", true),
            package(Source::Snap, "pc-kernel", "5.4", true),
        ]
    );
}

#[test]
fn snap_first_line_is_skipped_whatever_it_holds() {
    assert_eq!(load_snap("firefox 128.0 1 stable mozilla -\n"), Vec::<Package>::new());
    assert_eq!(load_snap(""), Vec::<Package>::new());
}

#[test]
fn snap_lines_with_fewer_than_two_columns_are_dropped() {
    let out = "Name Version\nfirefox\n\n   \nvlc 3.0\n";
    assert_eq!(load_snap(out), vec![package(Source::Snap, "vlc", "3.0", false)]);
}

#[test]
fn snap_notes_are_the_last_column_even_if_it_is_the_version() {
    assert_eq!(
        load_snap("Name Version\nthing base\n"),
        vec![package(Source::Snap, "thing", "base", true)]
    );
}

#[test]
fn every_loaded_package_has_a_name() {
    let apt = load_apt("a\n", "a\t1\n\t2\n \t3\nb\n");
    let flatpak = load_flatpak("x 1\n\n y\n");
    let snap = load_snap("h\nx 1\ny\n\nz 2 -\n");
    for p in apt.iter().chain(flatpak.iter()).chain(snap.iter()) {
        assert!(!p.name.is_empty());
    }
    assert_eq!(apt.len(), 2);
    assert_eq!(flatpak.len(), 2);
    assert_eq!(snap.len(), 2);
}
