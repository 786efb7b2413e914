//! The file system as the crate sees it: a narrow interface, so that the
//! logic can run on any tree, real or made up.

use vstd::prelude::*;
use crate::errors::CoreError;

verus! {

/// What the file system tells of one path.
#[derive(Debug, Clone, Copy, PartialEq, Eq, Structural)]
pub struct FileMetadata {
    pub is_dir: bool,
    pub is_file: bool,
    pub is_symlink: bool,
    /// Permission bits, the sticky bit among them.
    pub mode: u32,
    /// Length in bytes.
    pub len: u64,
}

/// Filesystem abstraction boundary. Nothing is promised of what an
/// implementation answers: the tree may change between two calls.
pub trait FileSystem: Send + Sync {
    /// The current time, in seconds since the Unix epoch.
    fn now(&self) -> u64;

    /// Whether the path exists; a symbolic link is followed.
    fn path_exists(&self, path: &str) -> bool;

    /// Metadata of what the path leads to; a symbolic link is followed.
    fn metadata(&self, path: &str) -> Result<FileMetadata, CoreError>;

    /// Metadata of the path itself; a symbolic link is not followed.
    fn symlink_metadata(&self, path: &str) -> Result<FileMetadata, CoreError>;

    /// Creates a directory and all missing parent directories.
    fn create_dir_all(&self, path: &str) -> Result<(), CoreError>;

    /// Creates a directory.
    fn create_dir(&self, path: &str) -> Result<(), CoreError>;

    /// Writes raw bytes, replacing what the file held.
    fn write(&self, path: &str, data: &[u8]) -> Result<(), CoreError>;

    /// Writes UTF-8 text.
    fn write_to_string(&self, path: &str, content: &str) -> Result<(), CoreError>;

    /// Reads UTF-8 text.
    fn read_to_string(&self, path: &str) -> Result<String, CoreError>;

    /// Removes a file or a symbolic link.
    fn remove_file(&self, path: &str) -> Result<(), CoreError>;

    /// Renames or moves a path.
    fn rename(&self, from: &str, to: &str) -> Result<(), CoreError>;

    /// Lists the children of a directory, each as a path.
    fn list_dir(&self, path: &str) -> Result<Vec<String>, CoreError>;

    /// Removes an empty directory.
    fn remove_dir(&self, path: &str) -> Result<(), CoreError>;

    /// Removes a directory with all that it holds.
    fn remove_dir_all(&self, path: &str) -> Result<(), CoreError>;

    /// The absolute form of a path, with every symbolic link resolved.
    fn canonicalize(&self, path: &str) -> Result<String, CoreError>;
}

/// The text that the file system gave, if it gave one.
pub open spec fn content_text(content: Result<String, CoreError>) -> Option<Seq<char>> {
    match content {
        Ok(text) => Some(text@),
        Err(_) => None,
    }
}

/// The metadata of an answer, if the file system gave one.
pub open spec fn answered(answer: Result<FileMetadata, CoreError>) -> Option<FileMetadata> {
    match answer {
        Ok(m) => Some(m),
        Err(_) => None,
    }
}

/// The metadata of an answer, if the file system gave one.
pub fn found(answer: Result<FileMetadata, CoreError>) -> (meta: Option<FileMetadata>)
    ensures
        meta == answered(answer),
{
    match answer {
        Ok(m) => Some(m),
        Err(_) => None,
    }
}

/// The resolved form of a path, or the path itself where resolving failed.
pub open spec fn resolved_text(answer: Result<String, CoreError>, path: Seq<char>) -> Seq<char> {
    match answer {
        Ok(resolved) => resolved@,
        Err(_) => path,
    }
}

/// The resolved form of a path, or the path itself where resolving failed.
pub fn resolved_or(answer: Result<String, CoreError>, path: &str) -> (out: String)
    ensures
        out@ == resolved_text(answer, path@),
{
    match answer {
        Ok(resolved) => resolved,
        Err(_) => path.to_owned(),
    }
}

/// Returns the canonical form of a path, or the path as given where the file
/// system cannot resolve it: what `resolved_text` makes of an answer of the
/// file system to the question for the canonical form of `path`.
pub fn canonical_or_relaxed<F: FileSystem>(fs: &F, path: &str) -> (out: String)
    ensures
        exists|answer: Result<String, CoreError>|
            #[trigger] call_ensures(F::canonicalize, (fs, path), answer) && out@ == resolved_text(
                answer,
                path@,
            ),
{
    resolved_or(fs.canonicalize(path), path)
}

} // verus!
