//! The state of the application and the messages that change it.

use crate::filter::{filter_packages, visible_packages};
use crate::package::{Package, PackageLists, PackageListsView, PackageView};
use vstd::prelude::*;

verus! {

/// The pages of the application, one for each source.
#[derive(Clone, Copy, Debug, PartialEq, Eq, Structural)]
pub enum Page {
    Apt,
    Flatpak,
    Snap,
}

/// What can happen to the application.
#[derive(Debug)]
pub enum Message {
    /// The load that was started with the application has ended.
    AppsLoaded(Result<PackageLists, String>),
    /// The user went to a page.
    Navigate(Page),
    /// The user changed the name filter.
    TextSearchChange(String),
    /// The user changed the source filter.
    SourceSearchChange(String),
    /// The user chose whether system packages are shown.
    IncludeSystemChange(bool),
}

impl Clone for Message {
    fn clone(&self) -> Self {
        match self {
            Message::AppsLoaded(Ok(lists)) => Message::AppsLoaded(Ok(lists.clone())),
            Message::AppsLoaded(Err(e)) => Message::AppsLoaded(Err(e.clone())),
            Message::Navigate(page) => Message::Navigate(*page),
            Message::TextSearchChange(term) => Message::TextSearchChange(term.clone()),
            Message::SourceSearchChange(term) => Message::SourceSearchChange(term.clone()),
            Message::IncludeSystemChange(on) => Message::IncludeSystemChange(*on),
        }
    }
}

/// What a `Message` stands for in specifications.
pub ghost enum MessageView {
    AppsLoaded(Result<PackageListsView, Seq<char>>),
    Navigate(Page),
    TextSearchChange(Seq<char>),
    SourceSearchChange(Seq<char>),
    IncludeSystemChange(bool),
}

impl View for Message {
    type V = MessageView;

    open spec fn view(&self) -> MessageView {
        match *self {
            Message::AppsLoaded(Ok(lists)) => MessageView::AppsLoaded(Ok(lists@)),
            Message::AppsLoaded(Err(e)) => MessageView::AppsLoaded(Err(e@)),
            Message::Navigate(page) => MessageView::Navigate(page),
            Message::TextSearchChange(term) => MessageView::TextSearchChange(term@),
            Message::SourceSearchChange(term) => MessageView::SourceSearchChange(term@),
            Message::IncludeSystemChange(on) => MessageView::IncludeSystemChange(on),
        }
    }
}

/// The state of the application.
#[derive(Clone, Debug)]
pub struct AppState {
    pub flatpak_packages: Vec<Package>,
    pub apt_packages: Vec<Package>,
    pub snap_packages: Vec<Package>,
    pub current_page: Page,
    pub text_search: String,
    pub source_search: String,
    pub include_system: bool,
}

/// What an `AppState` stands for in specifications.
pub ghost struct AppStateView {
    pub lists: PackageListsView,
    pub current_page: Page,
    pub text_search: Seq<char>,
    pub source_search: Seq<char>,
    pub include_system: bool,
}

impl View for AppState {
    type V = AppStateView;

    open spec fn view(&self) -> AppStateView {
        AppStateView {
            lists: PackageListsView {
                flatpak_packages: self.flatpak_packages.deep_view(),
                apt_packages: self.apt_packages.deep_view(),
                snap_packages: self.snap_packages.deep_view(),
            },
            current_page: self.current_page,
            text_search: self.text_search@,
            source_search: self.source_search@,
            include_system: self.include_system,
        }
    }
}

impl AppStateView {
    /// The state in which the application starts: nothing is loaded, the
    /// APT page is open, nothing is filtered by text, and system packages
    /// are not shown.
    pub open spec fn initial() -> AppStateView {
        AppStateView {
            lists: PackageListsView {
                flatpak_packages: Seq::empty(),
                apt_packages: Seq::empty(),
                snap_packages: Seq::empty(),
            },
            current_page: Page::Apt,
            text_search: Seq::empty(),
            source_search: Seq::empty(),
            include_system: false,
        }
    }

    /// The packages of the page that is open.
    pub open spec fn page_packages(self) -> Seq<PackageView> {
        match self.current_page {
            Page::Apt => self.lists.apt_packages,
            Page::Flatpak => self.lists.flatpak_packages,
            Page::Snap => self.lists.snap_packages,
        }
    }

    /// The packages that are shown: those of the open page that pass the filters.
    pub open spec fn shown(self) -> Seq<PackageView> {
        visible_packages(
            self.page_packages(),
            self.text_search,
            self.source_search,
            self.include_system,
        )
    }

    /// The state after a message. A load that succeeded replaces all three
    /// lists; one that failed changes nothing. Going to a page clears the
    /// name filter.
    pub open spec fn next(self, message: MessageView) -> AppStateView {
        match message {
            MessageView::AppsLoaded(Ok(lists)) => AppStateView { lists, ..self },
            MessageView::AppsLoaded(Err(_)) => self,
            MessageView::Navigate(page) => AppStateView {
                current_page: page,
                text_search: Seq::empty(),
                ..self
            },
            MessageView::TextSearchChange(term) => AppStateView { text_search: term, ..self },
            MessageView::SourceSearchChange(term) => AppStateView { source_search: term, ..self },
            MessageView::IncludeSystemChange(on) => AppStateView { include_system: on, ..self },
        }
    }
}

/// What is to be written to the diagnostic stream after a message: a line
/// for a load that failed, nothing otherwise.
pub open spec fn diagnostic(message: MessageView) -> Option<Seq<char>> {
    match message {
        MessageView::AppsLoaded(Err(e)) => Some("Error loading apps: "@ + e),
        _ => None,
    }
}

/// What an optional text stands for.
pub open spec fn text_view(t: Option<String>) -> Option<Seq<char>> {
    match t {
        Some(s) => Some(s@),
        None => None,
    }
}

impl AppState {
    /// The state in which the application starts.
    pub fn new() -> (state: AppState)
        ensures
            state@ == AppStateView::initial(),
    {
        let state = AppState {
            flatpak_packages: Vec::new(),
            apt_packages: Vec::new(),
            snap_packages: Vec::new(),
            current_page: Page::Apt,
            text_search: String::new(),
            source_search: String::new(),
            include_system: false,
        };
        assert(state@.lists.flatpak_packages =~= Seq::empty());
        assert(state@.lists.apt_packages =~= Seq::empty());
        assert(state@.lists.snap_packages =~= Seq::empty());
        state
    }

    /// Takes a message into the state, and returns what is to be written
    /// to the diagnostic stream.
    pub fn update(&mut self, message: Message) -> (report: Option<String>)
        ensures
            final(self)@ == old(self)@.next(message@),
            text_view(report) == diagnostic(message@),
    {
        match message {
            Message::AppsLoaded(result) => match result {
                Ok(lists) => {
                    self.flatpak_packages = lists.flatpak_packages;
                    self.apt_packages = lists.apt_packages;
                    self.snap_packages = lists.snap_packages;
                    None
                },
                Err(e) => {
                    let mut line = String::new();
                    line.append("Error loading apps: ");
                    line.append(e.as_str());
                    assert(line@ =~= "Error loading apps: "@ + e@);
                    Some(line)
                },
            },
            Message::Navigate(page) => {
                self.current_page = page;
                self.text_search = String::new();
                None
            },
            Message::TextSearchChange(term) => {
                self.text_search = term;
                None
            },
            Message::SourceSearchChange(term) => {
                self.source_search = term;
                None
            },
            Message::IncludeSystemChange(on) => {
                self.include_system = on;
                None
            },
        }
    }

    /// The packages of the page that is open.
    pub fn page_packages(&self) -> (pkgs: &Vec<Package>)
        ensures
            pkgs.deep_view() == self@.page_packages(),
    {
        match self.current_page {
            Page::Apt => &self.apt_packages,
            Page::Flatpak => &self.flatpak_packages,
            Page::Snap => &self.snap_packages,
        }
    }

    /// The packages to show: those of the open page that pass the filters,
    /// in the order of the page.
    pub fn visible_packages(&self) -> (shown: Vec<&Package>)
        ensures
            shown.deep_view() == self@.shown(),
    {
        filter_packages(
            self.page_packages(),
            self.text_search.as_str(),
            self.source_search.as_str(),
            self.include_system,
        )
    }
}

/// Only a load that succeeded changes the lists of packages: no other
/// message adds, removes, or reclassifies a package.
pub proof fn lemma_lists_change_only_on_load(state: AppStateView, message: MessageView)
    requires
        !(message matches MessageView::AppsLoaded(Ok(_))),
    ensures
        state.next(message).lists == state.lists,
{
}

/// If the lists were well formed and those that a load brings are, the
/// lists are well formed after any message.
pub proof fn lemma_next_keeps_lists_well_formed(state: AppStateView, message: MessageView)
    requires
        state.lists.well_formed(),
        message matches MessageView::AppsLoaded(Ok(lists)) ==> lists.well_formed(),
    ensures
        state.next(message).lists.well_formed(),
{
}

} // verus!
