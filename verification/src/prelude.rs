//! The items that most callers need.

pub use crate::errors::CoreError;
pub use crate::fs::{canonical_or_relaxed, FileMetadata, FileSystem};
pub use crate::helpers::{
    build_unique_basename, first_entry_name, format_duration, format_seconds, sanitize_user_path,
    TRASHINFO_EXTENSION,
};
pub use crate::models::{
    CommandContext, CommandKind, CommandOutcome, CommandOutput, ExitStatusLike, SkipReason,
    TrashCommand, TrashDirectory, TrashedItem,
};
pub use crate::time::{
    parse_trash_datetime, serialize_system_time, Timestamp, TRASHINFO_TIME_FORMAT,
};
pub use crate::size::print_size;
