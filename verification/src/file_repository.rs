//! The file-content provider abstraction the use cases consume; its
//! implementations live outside the library, next to the file system.

use vstd::prelude::*;

verus! {

/// A source of file contents, addressed by path.
pub trait FileRepository {
    fn get_file_content(&self, file_path: &str) -> Result<String, FileRepositoryError>;
}

/// Why a file's content could not be produced.
#[derive(Debug, Clone, PartialEq, Eq)]
pub enum FileRepositoryError {
    Unknown(String),
    InexistentFile,
}

} // verus!
