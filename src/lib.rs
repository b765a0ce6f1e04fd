//! Watches a directory for changed files, keeps the relevant ones, debounces
//! repeated changes per file and hands each surviving batch to a command.
//!
//! The library holds the decisions of that pipeline; reading the file system,
//! receiving notifications and launching processes stay with the caller.
mod command;
mod config;
mod file_state;
mod path;
mod text;
mod watcher;

pub use command::{CommandRunner, DispatchError, Invocation, Step};
pub use config::{Config, KUBECTL, KUBECTL_INSTALL_INSTRUCTIONS};
pub use file_state::{FileState, FileStateManager};
pub use watcher::{ChangeKind, FileWatcher, Observation, RawEvent};
