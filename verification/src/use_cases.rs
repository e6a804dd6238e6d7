//! The use cases that sequence "load file, parse, present" over
//! injected repositories.  They hold no logic of their own beyond the
//! error mapping, whose contracts are exact; what a repository returns
//! is the repository's affair.

use vstd::prelude::*;

use crate::diagram::Diagram;
use crate::file_repository::{FileRepository, FileRepositoryError};
use crate::repository::{repository_error_message, DiagramRepository, DiagramRepositoryError};

verus! {

/// The message reported for a file that is not there.
pub open spec fn missing_file_text() -> Seq<char> {
    "Given file does not exist"@
}

/// What loading and parsing a diagram can fail with: either the file
/// could not be read, or its content could not be parsed.  Each carries
/// a diagnostic message.
#[derive(Debug, Clone, PartialEq, Eq)]
pub enum LoadDiagramError {
    FileLoadError(String),
    ParseError(String),
}

impl LoadDiagramError {
    /// A file-repository failure as a load failure: an unknown failure
    /// keeps its message, a missing file gets the fixed message.
    pub fn from_file_error(e: FileRepositoryError) -> (r: Self)
        ensures
            e matches FileRepositoryError::Unknown(msg) ==> (r matches
                LoadDiagramError::FileLoadError(m) && m@ == msg@),
            e is InexistentFile ==> (r matches LoadDiagramError::FileLoadError(m) && m@
                == missing_file_text()),
    {
        match e {
            FileRepositoryError::Unknown(msg) => LoadDiagramError::FileLoadError(msg),
            FileRepositoryError::InexistentFile => LoadDiagramError::FileLoadError(
                String::from_str("Given file does not exist"),
            ),
        }
    }

    /// A repository failure as a parse failure, keeping its message.
    pub fn from_repository_error(e: DiagramRepositoryError) -> (r: Self)
        ensures
            r matches LoadDiagramError::ParseError(m) && m@ == repository_error_message(e),
    {
        match e {
            DiagramRepositoryError::Unknown(msg) => LoadDiagramError::ParseError(msg),
        }
    }
}

/// What the presenter-driving use case hands back on completion.
pub type LoadDiagramResult = Result<Diagram, LoadDiagramError>;

/// Turns a load outcome into whatever the caller's presentation layer
/// wants to show.
pub trait LoadDiagramPresenter<T> {
    fn present(&self, result: LoadDiagramResult) -> T;
}

/// Loads a diagram from a file and hands the outcome to a presenter.
pub struct LoadDiagramUseCase<F: FileRepository, D: DiagramRepository, P> {
    file_repository: F,
    diagram_repository: D,
    presenter: P,
}

impl<F: FileRepository, D: DiagramRepository, P> LoadDiagramUseCase<F, D, P> {
    pub fn new(file_repository: F, diagram_repository: D, presenter: P) -> Self {
        Self { file_repository, diagram_repository, presenter }
    }

    /// Loads `source`, parses it, and presents the outcome — a diagram
    /// or the first failure, mapped by the functions above.
    pub fn execute<T>(&self, source: &str) -> T where P: LoadDiagramPresenter<T> {
        let result = match self.load_from_local_fs_file(source) {
            Result::Ok(content) => self.parse_content(content),
            Result::Err(e) => Result::Err(e),
        };
        self.presenter.present(result)
    }

    fn load_from_local_fs_file(&self, source: &str) -> Result<String, LoadDiagramError> {
        match self.file_repository.get_file_content(source) {
            Result::Ok(content) => Result::Ok(content),
            Result::Err(e) => Result::Err(LoadDiagramError::from_file_error(e)),
        }
    }

    fn parse_content(&self, content: String) -> Result<Diagram, LoadDiagramError> {
        match self.diagram_repository.parse_from_content(content.as_str()) {
            Result::Ok(d) => Result::Ok(d),
            Result::Err(e) => Result::Err(LoadDiagramError::from_repository_error(e)),
        }
    }
}

/// What loading a diagram straight from a file can fail with.
#[derive(Debug, Clone, PartialEq, Eq)]
pub enum LoadDiagramFromFileError {
    FileLoadError(String),
    ParseError(String),
}

impl LoadDiagramFromFileError {
    /// A file-repository failure as a load failure: an unknown failure
    /// keeps its message, a missing file gets the fixed message.
    pub fn from_file_error(e: FileRepositoryError) -> (r: Self)
        ensures
            e matches FileRepositoryError::Unknown(msg) ==> (r matches
                LoadDiagramFromFileError::FileLoadError(m) && m@ == msg@),
            e is InexistentFile ==> (r matches LoadDiagramFromFileError::FileLoadError(m) && m@
                == missing_file_text()),
    {
        match e {
            FileRepositoryError::Unknown(msg) => LoadDiagramFromFileError::FileLoadError(msg),
            FileRepositoryError::InexistentFile => LoadDiagramFromFileError::FileLoadError(
                String::from_str("Given file does not exist"),
            ),
        }
    }

    /// A repository failure as a parse failure, keeping its message.
    pub fn from_repository_error(e: DiagramRepositoryError) -> (r: Self)
        ensures
            r matches LoadDiagramFromFileError::ParseError(m) && m@ == repository_error_message(
                e,
            ),
    {
        match e {
            DiagramRepositoryError::Unknown(msg) => LoadDiagramFromFileError::ParseError(msg),
        }
    }
}

/// Loads a diagram from a file and returns the outcome to the caller.
pub struct LoadDiagramFromFileUseCase<F: FileRepository, D: DiagramRepository> {
    file_repository: F,
    diagram_repository: D,
}

impl<F: FileRepository, D: DiagramRepository> LoadDiagramFromFileUseCase<F, D> {
    pub fn new(file_repository: F, diagram_repository: D) -> Self {
        Self { file_repository, diagram_repository }
    }

    /// Loads `path` and parses it: a diagram, or the first failure,
    /// mapped by the functions above.
    pub fn execute(&self, path: &str) -> Result<Diagram, LoadDiagramFromFileError> {
        match self.load_file(path) {
            Result::Ok(content) => self.parse_content(content),
            Result::Err(e) => Result::Err(e),
        }
    }

    fn load_file(&self, path: &str) -> Result<String, LoadDiagramFromFileError> {
        match self.file_repository.get_file_content(path) {
            Result::Ok(content) => Result::Ok(content),
            Result::Err(e) => Result::Err(LoadDiagramFromFileError::from_file_error(e)),
        }
    }

    fn parse_content(&self, content: String) -> Result<Diagram, LoadDiagramFromFileError> {
        match self.diagram_repository.parse_from_content(content.as_str()) {
            Result::Ok(d) => Result::Ok(d),
            Result::Err(e) => Result::Err(LoadDiagramFromFileError::from_repository_error(e)),
        }
    }
}

} // verus!
