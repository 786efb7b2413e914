//! Discovery, inventory and removal of trashed files.
//!
//! Files are trashed into per-volume trash directories. This crate finds the
//! trash directories that a user may own, reads the record of every trashed
//! item, reconstructs the location that the item had, selects items by a
//! pattern and removes them, and lists them with a date or a size.
//!
//! The logic never touches the disk by itself: it asks a [`fs::FileSystem`],
//! and it leaves pattern matching to a [`matcher::Matcher`].

pub mod text;
pub mod tokens;
pub mod decimal;
pub mod paths;
pub mod errors;
pub mod time;
pub mod models;
pub mod helpers;
pub mod size;
pub mod fs;
pub mod compose;
pub mod mounts;
pub mod volumes;
pub mod locate;
pub mod discover;
pub mod select;
pub mod trashinfo;
pub mod matcher;
pub mod removal;
pub mod listing;
pub mod prelude;

pub use errors::CoreError;
pub use fs::{FileMetadata, FileSystem};
pub use helpers::{
    build_unique_basename, first_entry_name, format_duration, sanitize_user_path,
    TRASHINFO_EXTENSION,
};
pub use size::print_size;
pub use models::{
    CommandContext, CommandKind, CommandOutcome, CommandOutput, ExitStatusLike, SkipReason,
    TrashCommand, TrashDirectory, TrashedItem,
};
pub use time::{parse_trash_datetime, serialize_system_time, Timestamp, TRASHINFO_TIME_FORMAT};
