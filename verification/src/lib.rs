//! An inventory of the software installed through APT, Flatpak and Snap:
//! parsing what the package managers list, telling applications from system
//! components, and filtering what is shown.

pub mod aggregate;
pub mod chars;
pub mod classify;
pub mod command;
pub mod filter;
pub mod load;
pub mod package;
pub mod state;
pub mod text;

pub use aggregate::{load_app_lists, LoadReport};
pub use classify::{is_apt_system, is_snap_runtime};
pub use command::{command_output, describe_exit_failure, describe_launch_failure};
pub use filter::{filter_packages, is_visible, matches_filter};
pub use load::{load_apt, load_flatpak, load_manual_set, load_snap};
pub use package::{Package, PackageLists, Source};
pub use state::{AppState, Message, Page};
