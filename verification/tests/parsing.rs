//! Tests of the grammar parser and the diagram mapper.

use uml_ascii::diagram::{Diagram, Node, NodeType};
use uml_ascii::parser::{PlantUmlParser, PlantUmlParserError, PlantUmlTextParser};
use uml_ascii::plant_uml::{PlantUmlDiagram, PlantUmlElement};
use uml_ascii::repository::{
    parse_diagram_content, to_diagram, DiagramRepository, DiagramRepositoryError,
    DiagramRepositoryPlantUmlImpl,
};

fn parse(input: &str) -> Result<PlantUmlDiagram, PlantUmlParserError> {
    PlantUmlTextParser::new().parse(input)
}

#[test]
fn parse_empty_input() {
    assert!(parse("").is_err());
}

#[test]
fn parse_empty_diagram() {
    assert_eq!(parse("@startuml@enduml"), Ok(PlantUmlDiagram::new(vec![])));
}

#[test]
fn parse_empty_diagram_with_line_breaks() {
    assert_eq!(parse("@startuml\n\n\n\n\n@enduml"), Ok(PlantUmlDiagram::new(vec![])));
}

#[test]
fn parse_one_component() {
    assert_eq!(
        parse("@startuml\ncomponent MyComponent\n@enduml"),
        Ok(PlantUmlDiagram::new(vec![PlantUmlElement::Component(
            "MyComponent".to_string(),
            None
        )]))
    );
}

#[test]
fn parse_multiple_components() {
    assert_eq!(
        parse(
            "@startuml\ncomponent MyComponent\ncomponent MyOtherComponent\n\n\n\n\ncomponent YetAnotherComponent\n@enduml"
        ),
        Ok(PlantUmlDiagram::new(vec![
            PlantUmlElement::Component("MyComponent".to_string(), None),
            PlantUmlElement::Component("MyOtherComponent".to_string(), None),
            PlantUmlElement::Component("YetAnotherComponent".to_string(), None),
        ]))
    );
}

#[test]
fn parse_component_with_alias() {
    assert_eq!(
        parse("@startuml\ncomponent MyComponent as some_alias\n@enduml"),
        Ok(PlantUmlDiagram::new(vec![PlantUmlElement::Component(
            "MyComponent".to_string(),
            Some("some_alias".to_string())
        )]))
    );
}

#[test]
fn missing_wrapper_is_rejected() {
    assert!(parse("component MyComponent").is_err());
    assert!(parse("@startuml\ncomponent MyComponent\n").is_err());
    assert!(parse("component MyComponent\n@enduml").is_err());
}

#[test]
fn declaration_without_name_is_rejected() {
    assert!(parse("@startuml\ncomponent \n@enduml").is_err());
}

#[test]
fn alias_keyword_without_alias_is_rejected() {
    assert!(parse("@startuml\ncomponent A as \n@enduml").is_err());
}

#[test]
fn trailing_text_after_enduml_is_rejected() {
    assert!(parse("@startuml\ncomponent A\n@enduml extra").is_err());
    assert_eq!(
        parse("  \n@startuml\ncomponent A\n@enduml \n "),
        Ok(PlantUmlDiagram::new(vec![PlantUmlElement::Component("A".to_string(), None)]))
    );
}

#[test]
fn declarations_separated_by_spaces_and_tabs() {
    assert_eq!(
        parse(" \t@startuml component A\tcomponent B as b @enduml"),
        Ok(PlantUmlDiagram::new(vec![
            PlantUmlElement::Component("A".to_string(), None),
            PlantUmlElement::Component("B".to_string(), Some("b".to_string())),
        ]))
    );
}

#[test]
fn mapper_uses_alias_as_id_when_present() {
    let parsed = PlantUmlDiagram::new(vec![
        PlantUmlElement::Component("Component A".to_string(), Some("A".to_string())),
        PlantUmlElement::Component("Component B".to_string(), None),
    ]);
    let diagram = to_diagram(&parsed);
    assert_eq!(
        diagram,
        Diagram::new(
            None,
            vec![
                Node::new("A".to_string(), NodeType::Component("Component A".to_string())),
                Node::new(
                    "Component B".to_string(),
                    NodeType::Component("Component B".to_string())
                ),
            ],
            vec![]
        )
    );
}

#[test]
fn parse_from_content_should_return_expected_error_given_parser_error() {
    let test_cases: Vec<(PlantUmlParserError, DiagramRepositoryError)> = vec![(
        PlantUmlParserError::UnknownError("Parser unknown error".to_string()),
        DiagramRepositoryError::Unknown("Parser unknown error".to_string()),
    )];

    for (parser_error, expected_repository_error) in test_cases {
        let parser = PlantUmlParserMockImpl::new(Err(parser_error));
        let repository = DiagramRepositoryPlantUmlImpl::new(parser);

        let result = repository.parse_from_content("Some dummy content");

        assert_eq!(Err(expected_repository_error), result);
    }
}

#[test]
fn parse_from_content_should_return_expected_diagram_given_parsed_plant_uml_diagram() {
    let test_cases: Vec<(PlantUmlDiagram, Diagram)> = vec![
        (
            PlantUmlDiagram::new(Vec::new()),
            Diagram::new(None, Vec::new(), Vec::new()),
        ),
        (
            PlantUmlDiagram::new(vec![PlantUmlElement::Component(
                "Some Component".to_owned(),
                None,
            )]),
            Diagram::new(
                None,
                vec![Node::new(
                    "Some Component".to_owned(),
                    NodeType::Component("Some Component".to_owned()),
                )],
                vec![],
            ),
        ),
        (
            PlantUmlDiagram::new(vec![
                PlantUmlElement::Component("Component A".to_owned(), Some("A".to_owned())),
                PlantUmlElement::Component("Component B".to_owned(), None),
            ]),
            Diagram::new(
                None,
                vec![
                    Node::new("A".to_owned(), NodeType::Component("Component A".to_owned())),
                    Node::new(
                        "Component B".to_owned(),
                        NodeType::Component("Component B".to_owned()),
                    ),
                ],
                vec![],
            ),
        ),
    ];

    for (plant_uml_diagram, expected_diagram) in test_cases {
        let parser = PlantUmlParserMockImpl::new(Ok(plant_uml_diagram));
        let repository = DiagramRepositoryPlantUmlImpl::new(parser);

        let result = repository.parse_from_content("Some dummy content");

        assert_eq!(Ok(expected_diagram), result);
    }
}

#[test]
fn parse_diagram_content_runs_the_whole_pipeline() {
    let diagram =
        parse_diagram_content("@startuml\ncomponent MyComponent as some_alias\n@enduml").unwrap();
    assert_eq!(diagram.title, None);
    assert_eq!(diagram.edges, vec![]);
    assert_eq!(
        diagram.nodes,
        vec![Node::new(
            "some_alias".to_string(),
            NodeType::Component("MyComponent".to_string())
        )]
    );
    assert!(parse_diagram_content("no diagram here").is_err());
}

struct PlantUmlParserMockImpl {
    result: Result<PlantUmlDiagram, PlantUmlParserError>,
}

impl PlantUmlParserMockImpl {
    fn new(result: Result<PlantUmlDiagram, PlantUmlParserError>) -> Self {
        Self { result }
    }
}

impl PlantUmlParser for PlantUmlParserMockImpl {
    fn parse(&self, _input: &str) -> Result<PlantUmlDiagram, PlantUmlParserError> {
        self.result.clone()
    }
}
