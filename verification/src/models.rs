//! The values that commands exchange.

use vstd::prelude::*;
use crate::time::Timestamp;

verus! {

/// Command family.
#[derive(Debug, Clone, Copy, PartialEq, Eq, Hash, Structural)]
pub enum CommandKind {
    Put,
    List,
    Empty,
    Restore,
    Remove,
}

impl CommandKind {
    /// The word by which the command is called.
    pub open spec fn name(self) -> Seq<char> {
        match self {
            CommandKind::Put => "put"@,
            CommandKind::List => "list"@,
            CommandKind::Empty => "empty"@,
            CommandKind::Restore => "restore"@,
            CommandKind::Remove => "rm"@,
        }
    }

    /// The word by which the command is called.
    pub fn as_str(&self) -> (word: &'static str)
        ensures
            word@ == self.name(),
    {
        match self {
            CommandKind::Put => "put",
            CommandKind::List => "list",
            CommandKind::Empty => "empty",
            CommandKind::Restore => "restore",
            CommandKind::Remove => "rm",
        }
    }
}

/// What a command was started with.
#[derive(Debug, Clone)]
pub struct CommandContext {
    pub command: CommandKind,
    pub args: Vec<String>,
    pub cwd: String,
    pub interactive: bool,
    pub dry_run: bool,
}

/// What a command wrote, and the code it ended with.
#[derive(Debug, Clone)]
pub struct CommandOutput {
    pub command: CommandKind,
    pub stdout: Vec<String>,
    pub stderr: Vec<String>,
    pub exit_code: u8,
}

impl CommandOutput {
    /// The output of a command that ended well: the given lines, no error
    /// line, code 0.
    pub fn success<L: Into<Vec<String>>>(command: CommandKind, stdout: L) -> (out: Self)
        ensures
            out.command == command,
            call_ensures(L::into, (stdout,), out.stdout),
            out.stderr@.len() == 0,
            out.exit_code == 0,
    {
        CommandOutput { command, stdout: stdout.into(), stderr: Vec::new(), exit_code: 0 }
    }

    /// The output of a command that failed: no line, one error line, code 1.
    pub fn with_error<M: Into<String>>(command: CommandKind, stderr: M) -> (out: Self)
        ensures
            out.command == command,
            out.stdout@.len() == 0,
            out.stderr@.len() == 1,
            call_ensures(M::into, (stderr,), out.stderr@[0]),
            out.exit_code == 1,
    {
        let mut lines: Vec<String> = Vec::new();
        lines.push(stderr.into());
        CommandOutput { command, stdout: Vec::new(), stderr: lines, exit_code: 1 }
    }
}

/// A trash directory: its root, the two directories below it, and the mount
/// point of the volume it serves.
#[derive(Debug, Clone)]
pub struct TrashDirectory {
    pub path: String,
    pub files_dir: String,
    pub info_dir: String,
    pub mount_point: Option<String>,
}

impl TrashDirectory {
    /// A trash directory whose mount point is not known.
    pub fn new(path: String, files_dir: String, info_dir: String) -> (dir: Self)
        ensures
            dir.path == path,
            dir.files_dir == files_dir,
            dir.info_dir == info_dir,
            dir.mount_point is None,
    {
        TrashDirectory { path, files_dir, info_dir, mount_point: None }
    }

    /// The same trash directory on the given mount point.
    pub fn with_mount_point(self, mount_point: String) -> (dir: Self)
        ensures
            dir.path == self.path,
            dir.files_dir == self.files_dir,
            dir.info_dir == self.info_dir,
            dir.mount_point == Some(mount_point),
    {
        let mut dir = self;
        dir.mount_point = Some(mount_point);
        dir
    }
}

/// One trashed item: where it was, where it is kept, and its record.
#[derive(Debug, Clone)]
pub struct TrashedItem {
    pub original_path: String,
    pub trashed_path: String,
    pub info_path: String,
    pub trash_dir: String,
    pub size_bytes: Option<u64>,
    pub deleted_at: Option<Timestamp>,
}

impl TrashedItem {
    /// An item whose size and deletion date are not known.
    pub fn new(original_path: String, trashed_path: String, info_path: String, trash_dir: String) -> (item: Self)
        ensures
            item.original_path == original_path,
            item.trashed_path == trashed_path,
            item.info_path == info_path,
            item.trash_dir == trash_dir,
            item.size_bytes is None,
            item.deleted_at is None,
    {
        TrashedItem {
            original_path,
            trashed_path,
            info_path,
            trash_dir,
            size_bytes: None,
            deleted_at: None,
        }
    }
}

/// A command to run, with what it was started with.
#[derive(Debug, Clone)]
pub struct TrashCommand {
    pub kind: CommandKind,
    pub context: CommandContext,
    pub request_id: Option<String>,
}

/// Why a command left a path alone.
#[derive(Debug, Clone)]
pub enum SkipReason {
    MissingPath(String),
    AlreadyTrashed(String),
    UnsupportedScheme(String),
    InternalError(String),
}

/// How a command ended.
#[derive(Debug, Clone)]
pub enum CommandOutcome {
    Completed(CommandOutput),
    Skipped { command: CommandKind, path: String, reason: SkipReason },
    Failed { command: CommandKind, reason: String },
}

/// How a command ended, as far as its exit code tells.
#[derive(Debug, Clone, Copy)]
pub enum ExitStatusLike {
    Success,
    Warning,
    Error,
}

impl ExitStatusLike {
    /// The process exit code that stands for the status.
    pub open spec fn code(self) -> u8 {
        match self {
            ExitStatusLike::Success => 0,
            ExitStatusLike::Warning => 2,
            ExitStatusLike::Error => 1,
        }
    }

    /// The process exit code that stands for the status.
    pub fn as_code(self) -> (code: u8)
        ensures
            code == self.code(),
    {
        match self {
            ExitStatusLike::Success => 0,
            ExitStatusLike::Warning => 2,
            ExitStatusLike::Error => 1,
        }
    }
}

} // verus!
