//! Tests of the use cases that sequence loading and parsing over
//! injected repositories.

use uml_ascii::diagram::Diagram;
use uml_ascii::file_repository::{FileRepository, FileRepositoryError};
use uml_ascii::repository::{DiagramRepository, DiagramRepositoryError};
use uml_ascii::use_cases::{
    LoadDiagramError, LoadDiagramFromFileError, LoadDiagramFromFileUseCase, LoadDiagramPresenter,
    LoadDiagramResult, LoadDiagramUseCase,
};

#[test]
fn load_diagram_should_fail_if_unable_to_load_file() {
    let test_cases = vec![
        (
            FileRepositoryError::Unknown("Some unknown error".to_owned()),
            Err(LoadDiagramError::FileLoadError("Some unknown error".to_owned())),
        ),
        (
            FileRepositoryError::InexistentFile,
            Err(LoadDiagramError::FileLoadError("Given file does not exist".to_owned())),
        ),
    ];

    for (file_repository_error, expected) in test_cases {
        let file_path: &'static str = "some_file.puml";
        let file_repository = FileRepositoryMockImpl::new(Err(file_repository_error.clone()));
        let diagram_repository = DiagramRepositoryMockImpl::new(None);

        let use_case =
            LoadDiagramUseCase::new(file_repository, diagram_repository, LoadDiagramPresenterNoOpImpl);

        let result: LoadDiagramResult = use_case.execute(file_path);

        assert_eq!(expected, result);
    }
}

#[test]
fn load_diagram_should_fail_if_unable_to_parse_file() {
    let file_path: &'static str = "invalid_content_file.puml";
    let error_msg: String = "Some unknown error".to_owned();
    let expected: Result<Diagram, LoadDiagramError> =
        Err(LoadDiagramError::ParseError(error_msg.clone()));

    let file_repository = FileRepositoryMockImpl::new(Ok("Some content".to_owned()));
    let diagram_repository =
        DiagramRepositoryMockImpl::new(Some(Err(DiagramRepositoryError::Unknown(error_msg))));

    let use_case =
        LoadDiagramUseCase::new(file_repository, diagram_repository, LoadDiagramPresenterNoOpImpl);

    let result: LoadDiagramResult = use_case.execute(file_path);

    assert_eq!(expected, result);
}

#[test]
fn load_diagram_should_succeed_if_able_to_load_and_parse_file() {
    let file_path: &'static str = "valid_content_file.puml";
    let diagram: Diagram = Diagram::default();
    let expected: LoadDiagramResult = Ok(diagram.clone());

    let file_repository = FileRepositoryMockImpl::new(Ok("Valid content".to_owned()));
    let diagram_repository = DiagramRepositoryMockImpl::new(Some(Ok(diagram.clone())));

    let use_case =
        LoadDiagramUseCase::new(file_repository, diagram_repository, LoadDiagramPresenterNoOpImpl);

    let result: LoadDiagramResult = use_case.execute(file_path);

    assert_eq!(expected, result);
}

#[test]
fn load_diagram_from_file_should_fail_if_unable_to_load_file() {
    let test_cases = vec![
        (
            FileRepositoryError::Unknown("Some unknown error".to_owned()),
            Err(LoadDiagramFromFileError::FileLoadError("Some unknown error".to_owned())),
        ),
        (
            FileRepositoryError::InexistentFile,
            Err(LoadDiagramFromFileError::FileLoadError(
                "Given file does not exist".to_owned(),
            )),
        ),
    ];

    for (file_repository_error, expected) in test_cases {
        let file_path: &'static str = "some_file.puml";
        let file_repository = FileRepositoryMockImpl::new(Err(file_repository_error.clone()));
        let diagram_repository = DiagramRepositoryMockImpl::new(None);

        let use_case = LoadDiagramFromFileUseCase::new(file_repository, diagram_repository);

        let result: Result<Diagram, LoadDiagramFromFileError> = use_case.execute(file_path);

        assert_eq!(expected, result);
    }
}

#[test]
fn load_diagram_from_file_should_fail_if_unable_to_parse_file() {
    let file_path: &'static str = "invalid_content_file.puml";
    let error_msg: String = "Some unknown error".to_owned();
    let expected: Result<Diagram, LoadDiagramFromFileError> =
        Err(LoadDiagramFromFileError::ParseError(error_msg.clone()));

    let file_repository = FileRepositoryMockImpl::new(Ok("Some content".to_owned()));
    let diagram_repository =
        DiagramRepositoryMockImpl::new(Some(Err(DiagramRepositoryError::Unknown(error_msg))));

    let use_case = LoadDiagramFromFileUseCase::new(file_repository, diagram_repository);

    let result: Result<Diagram, LoadDiagramFromFileError> = use_case.execute(file_path);

    assert_eq!(expected, result);
}

#[test]
fn load_diagram_from_file_should_succeed_if_able_to_load_and_parse_file() {
    let file_path: &'static str = "valid_content_file.puml";
    let diagram: Diagram = Diagram::default();
    let expected: Result<Diagram, LoadDiagramFromFileError> = Ok(diagram.clone());

    let file_repository = FileRepositoryMockImpl::new(Ok("Valid content".to_owned()));
    let diagram_repository = DiagramRepositoryMockImpl::new(Some(Ok(diagram.clone())));

    let use_case = LoadDiagramFromFileUseCase::new(file_repository, diagram_repository);

    let result: Result<Diagram, LoadDiagramFromFileError> = use_case.execute(file_path);

    assert_eq!(expected, result);
}

struct FileRepositoryMockImpl {
    result: Result<String, FileRepositoryError>,
}

impl FileRepositoryMockImpl {
    fn new(result: Result<String, FileRepositoryError>) -> Self {
        Self { result }
    }
}

impl FileRepository for FileRepositoryMockImpl {
    fn get_file_content(&self, _file_path: &str) -> Result<String, FileRepositoryError> {
        self.result.clone()
    }
}

struct DiagramRepositoryMockImpl {
    result: Option<Result<Diagram, DiagramRepositoryError>>,
}

impl DiagramRepositoryMockImpl {
    fn new(result: Option<Result<Diagram, DiagramRepositoryError>>) -> Self {
        Self { result }
    }
}

impl DiagramRepository for DiagramRepositoryMockImpl {
    fn parse_from_content(&self, _content: &str) -> Result<Diagram, DiagramRepositoryError> {
        if let Some(value) = self.result.as_ref() {
            return value.clone();
        }

        panic!("Unexpected call to DiagramRepositoryMockImpl.parse_from_content")
    }
}

struct LoadDiagramPresenterNoOpImpl;

impl LoadDiagramPresenter<LoadDiagramResult> for LoadDiagramPresenterNoOpImpl {
    fn present(&self, result: LoadDiagramResult) -> LoadDiagramResult {
        result
    }
}
