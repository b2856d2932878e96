//! A three-pane directory browser's navigation state: the parent, current
//! and child panes, kept consistent as the user moves through a tree.
//!
//! Reading directories is left to the caller. A command first names the
//! directory it must read (`App::first_read`), then moves the parent and
//! current panes (`App::try_navigate`, which checks that the read matches,
//! or `App::navigate`), then names the directory the child pane lists
//! (`Pending::child_read`), and only then hands out the whole new state
//! (`Pending::finish`).
pub mod entry;
pub mod laws;
pub mod listing;
pub mod navigator;
pub mod path;
pub mod presenter;

pub use entry::{sort_entries, DirEntry};
pub use listing::{DirList, DirRead, File, Slot};
pub use navigator::{child_path, command_of, update_child_dir, App, Command, Key, Pending};
pub use path::{find_par_dir, join_path};
pub use presenter::{entry_label, Pane, PaneBody};
