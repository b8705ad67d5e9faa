use pkg_inventory::{AppState, Message, Package, PackageLists, Page, Source};

fn package(source: Source, name: &str, is_system: bool) -> Package {
    Package { source, name: name.to_string(), version: "1".to_string(), is_system }
}

fn lists() -> PackageLists {
    PackageLists {
        flatpak_packages: vec![package(Source::Flatpak, "org.app", false)],
        apt_packages: vec![package(Source::Apt, "htop", false), package(Source::Apt, "libc6", true)],
        snap_packages: vec![package(Source::Snap, "core20", true), package(Source::Snap, "vlc", false)],
    }
}

fn names(pkgs: &[&Package]) -> Vec<String> {
    pkgs.iter().map(|p| p.name.clone()).collect()
}

#[test]
fn new_state_is_empty_on_the_apt_page() {
    let state = AppState::new();
    assert!(state.apt_packages.is_empty());
    assert!(state.flatpak_packages.is_empty());
    assert!(state.snap_packages.is_empty());
    assert_eq!(state.current_page, Page::Apt);
    assert_eq!(state.text_search, "");
    assert_eq!(state.source_search, "");
    assert!(!state.include_system);
    assert!(state.visible_packages().is_empty());
}

#[test]
fn successful_load_replaces_all_lists() {
    let mut state = AppState::new();
    state.apt_packages = vec![package(Source::Apt, "old", false)];
    let report = state.update(Message::AppsLoaded(Ok(lists())));
    assert_eq!(report, None);
    assert_eq!(state.apt_packages, lists().apt_packages);
    assert_eq!(state.flatpak_packages, lists().flatpak_packages);
    assert_eq!(state.snap_packages, lists().snap_packages);
}

#[test]
fn failed_load_changes_nothing_and_is_reported() {
    let mut state = AppState::new();
    state.update(Message::AppsLoaded(Ok(lists())));
    state.update(Message::TextSearchChange("ht".to_string()));
    let report = state.update(Message::AppsLoaded(Err("APT error: x".to_string())));
    assert_eq!(report, Some("Error loading apps: APT error: x".to_string()));
    assert_eq!(state.apt_packages, lists().apt_packages);
    assert_eq!(state.text_search, "ht");
    assert_eq!(state.current_page, Page::Apt);
}

#[test]
fn navigate_opens_the_page_and_clears_the_name_filter() {
    let mut state = AppState::new();
    state.update(Message::TextSearchChange("ht".to_string()));
    state.update(Message::SourceSearchChange("sn".to_string()));
    state.update(Message::IncludeSystemChange(true));
    let report = state.update(Message::Navigate(Page::Snap));
    assert_eq!(report, None);
    assert_eq!(state.current_page, Page::Snap);
    assert_eq!(state.text_search, "");
    assert_eq!(state.source_search, "sn");
    assert!(state.include_system);
}

#[test]
fn filter_messages_set_the_filters() {
    let mut state = AppState::new();
    assert_eq!(state.update(Message::TextSearchChange("Fire".to_string())), None);
    assert_eq!(state.text_search, "Fire");
    assert_eq!(state.update(Message::SourceSearchChange("apt".to_string())), None);
    assert_eq!(state.source_search, "apt");
    assert_eq!(state.update(Message::IncludeSystemChange(true)), None);
    assert!(state.include_system);
    assert_eq!(state.update(Message::IncludeSystemChange(false)), None);
    assert!(!state.include_system);
}

#[test]
fn visible_packages_are_those_of_the_open_page_that_pass() {
    let mut state = AppState::new();
    state.update(Message::AppsLoaded(Ok(lists())));
    assert_eq!(names(&state.visible_packages()), vec!["htop"]);
    state.update(Message::IncludeSystemChange(true));
    assert_eq!(names(&state.visible_packages()), vec!["htop", "libc6"]);
    state.update(Message::TextSearchChange("LIB".to_string()));
    assert_eq!(names(&state.visible_packages()), vec!["libc6"]);
    state.update(Message::Navigate(Page::Snap));
    assert_eq!(names(&state.visible_packages()), vec!["core20", "vlc"]);
    state.update(Message::SourceSearchChange("apt".to_string()));
    assert_eq!(names(&state.visible_packages()), Vec::<String>::new());
    state.update(Message::SourceSearchChange("".to_string()));
    state.update(Message::Navigate(Page::Flatpak));
    assert_eq!(names(&state.visible_packages()), vec!["org.app"]);
}

#[test]
fn page_packages_follow_the_page() {
    let mut state = AppState::new();
    state.update(Message::AppsLoaded(Ok(lists())));
    assert_eq!(*state.page_packages(), lists().apt_packages);
    state.update(Message::Navigate(Page::Flatpak));
    assert_eq!(*state.page_packages(), lists().flatpak_packages);
    state.update(Message::Navigate(Page::Snap));
    assert_eq!(*state.page_packages(), lists().snap_packages);
}

#[test]
fn source_labels() {
    assert_eq!(Source::Apt.as_str(), "APT");
    assert_eq!(Source::Flatpak.as_str(), "Flatpak");
    assert_eq!(Source::Snap.as_str(), "Snap");
}
