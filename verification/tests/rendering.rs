//! Tests of the character grid, the drawable elements, the presenter
//! and the view model.

use uml_ascii::border::AsciiBorderDecorator;
use uml_ascii::composite::AsciiComposite;
use uml_ascii::diagram::{Diagram, Node, NodeType};
use uml_ascii::element::AsciiElement;
use uml_ascii::grid::AsciiGrid;
use uml_ascii::position::Position;
use uml_ascii::presenter::AsciiPresenter;
use uml_ascii::text::AsciiText;
use uml_ascii::view_model::AsciiGridViewModel;

fn row(s: &str) -> Vec<char> {
    s.chars().collect()
}

fn text_element(content: &str) -> AsciiElement {
    AsciiElement::Text(AsciiText::new(Position::default(), content.to_string()))
}

#[test]
fn empty_text_no_padding() {
    let mut grid = AsciiGrid::empty(' ');
    let text = text_element(&String::default());
    let decorator = AsciiBorderDecorator::new(text, Position::default(), 0, 0, ' ');

    decorator.draw(&mut grid);

    assert_eq!(
        grid.to_text(),
        AsciiGrid::new(' ', vec![row("╭╮"), row("╰╯")]).to_text()
    );
}

#[test]
fn empty_text_with_padding() {
    let mut grid = AsciiGrid::empty(' ');
    let text = text_element(&String::default());
    let decorator = AsciiBorderDecorator::new(text, Position::default(), 3, 3, ' ');

    decorator.draw(&mut grid);

    assert_eq!(
        grid.to_text(),
        AsciiGrid::new(
            ' ',
            vec![
                row("╭──────╮"),
                row("│      │"),
                row("│      │"),
                row("│      │"),
                row("│      │"),
                row("│      │"),
                row("│      │"),
                row("╰──────╯"),
            ]
        )
        .to_text()
    );
}

#[test]
fn short_text_no_padding() {
    let mut grid = AsciiGrid::empty(' ');
    let text = text_element("Short");
    let decorator = AsciiBorderDecorator::new(text, Position::default(), 0, 0, ' ');

    decorator.draw(&mut grid);

    assert_eq!(
        grid.to_text(),
        AsciiGrid::new(' ', vec![row("╭─────╮"), row("│Short│"), row("╰─────╯")]).to_text()
    );
}

#[test]
fn short_text_with_padding() {
    let mut grid = AsciiGrid::empty(' ');
    let text = text_element("Short");
    let decorator = AsciiBorderDecorator::new(text, Position::default(), 3, 3, ' ');

    decorator.draw(&mut grid);

    assert_eq!(
        grid.to_text(),
        AsciiGrid::new(
            ' ',
            vec![
                row("╭───────────╮"),
                row("│           │"),
                row("│           │"),
                row("│           │"),
                row("│   Short   │"),
                row("│           │"),
                row("│           │"),
                row("│           │"),
                row("╰───────────╯"),
            ]
        )
        .to_text()
    );
}

#[test]
fn long_text_no_padding() {
    let content = "ThisIsAnAttemptAtBeingQuiteALongText";
    let mut grid = AsciiGrid::empty(' ');
    let decorator =
        AsciiBorderDecorator::new(text_element(content), Position::default(), 0, 0, ' ');

    decorator.draw(&mut grid);

    let bar = "─".repeat(content.chars().count());
    assert_eq!(
        grid.to_text(),
        AsciiGrid::new(
            ' ',
            vec![
                row(&format!("╭{}╮", bar)),
                row(&format!("│{}│", content)),
                row(&format!("╰{}╯", bar)),
            ]
        )
        .to_text()
    );
}

#[test]
fn long_text_with_padding() {
    let content = "ThisIsAnAttemptAtBeingQuiteALongText";
    let mut grid = AsciiGrid::empty(' ');
    let decorator =
        AsciiBorderDecorator::new(text_element(content), Position::default(), 3, 3, ' ');

    decorator.draw(&mut grid);

    let width = content.chars().count() + 6;
    let bar = "─".repeat(width);
    let blank = format!("│{}│", " ".repeat(width));
    let middle = format!("│   {}   │", content);
    assert_eq!(
        grid.to_text(),
        AsciiGrid::new(
            ' ',
            vec![
                row(&format!("╭{}╮", bar)),
                row(&blank),
                row(&blank),
                row(&blank),
                row(&middle),
                row(&blank),
                row(&blank),
                row(&blank),
                row(&format!("╰{}╯", bar)),
            ]
        )
        .to_text()
    );
}

#[test]
fn multiline_text_no_padding() {
    let mut grid = AsciiGrid::empty(' ');
    let decorator = AsciiBorderDecorator::new(
        text_element("Some\nmultiline\ntext"),
        Position::default(),
        0,
        0,
        ' ',
    );

    decorator.draw(&mut grid);

    assert_eq!(
        grid.to_text(),
        AsciiGrid::new(
            ' ',
            vec![
                row("╭─────────╮"),
                row("│Some     │"),
                row("│multiline│"),
                row("│text     │"),
                row("╰─────────╯"),
            ]
        )
        .to_text()
    );
}

#[test]
fn multiline_text_with_padding() {
    let mut grid = AsciiGrid::empty(' ');
    let decorator = AsciiBorderDecorator::new(
        text_element("Some\nmultiline\ntext"),
        Position::default(),
        3,
        3,
        ' ',
    );

    decorator.draw(&mut grid);

    assert_eq!(
        grid.to_text(),
        AsciiGrid::new(
            ' ',
            vec![
                row("╭───────────────╮"),
                row("│               │"),
                row("│               │"),
                row("│               │"),
                row("│   Some        │"),
                row("│   multiline   │"),
                row("│   text        │"),
                row("│               │"),
                row("│               │"),
                row("│               │"),
                row("╰───────────────╯"),
            ]
        )
        .to_text()
    );
}

#[test]
fn short_text_with_padding_different_fill_char() {
    let mut grid = AsciiGrid::empty(' ');
    let decorator =
        AsciiBorderDecorator::new(text_element("Short"), Position::default(), 3, 3, '#');

    decorator.draw(&mut grid);

    assert_eq!(
        grid.to_text(),
        AsciiGrid::new(
            ' ',
            vec![
                row("╭───────────╮"),
                row("│###########│"),
                row("│###########│"),
                row("│###########│"),
                row("│###Short###│"),
                row("│###########│"),
                row("│###########│"),
                row("│###########│"),
                row("╰───────────╯"),
            ]
        )
        .to_text()
    );
}

#[test]
fn empty_diagram() {
    let mut presenter = AsciiPresenter::new();
    let empty_diagram = Diagram::new(None, vec![], vec![]);

    let result = presenter.process_diagram(&empty_diagram);

    assert_eq!(result.to_string(), AsciiGridViewModel::empty().to_string());
}

#[test]
fn one_component_no_name() {
    let mut presenter = AsciiPresenter::new();
    let diagram = Diagram::new(
        None,
        vec![Node::new("my_node".to_string(), NodeType::Component("".to_string()))],
        vec![],
    );

    let result = presenter.process_diagram(&diagram);

    assert_eq!(
        result.to_string(),
        AsciiGridViewModel::new(vec![
            row("╭────╮"),
            row("│    │"),
            row("│    │"),
            row("│    │"),
            row("│    │"),
            row("╰────╯"),
        ])
        .to_string()
    );
}

#[test]
fn one_component_with_name() {
    let mut presenter = AsciiPresenter::new();
    let diagram = Diagram::new(
        None,
        vec![Node::new(
            "my_node".to_string(),
            NodeType::Component("SomeComponent".to_string()),
        )],
        vec![],
    );

    let result = presenter.process_diagram(&diagram);

    assert_eq!(
        result.to_string(),
        AsciiGridViewModel::new(vec![
            row("╭─────────────────╮"),
            row("│                 │"),
            row("│                 │"),
            row("│  SomeComponent  │"),
            row("│                 │"),
            row("│                 │"),
            row("╰─────────────────╯"),
        ])
        .to_string()
    );
}

#[test]
fn test_ascii_grid_macro() {
    let grid: AsciiGridViewModel = AsciiGridViewModel::new(vec![
        vec!['A'.to_owned(), 'B'.to_owned()],
        vec!['C'.to_owned(), 'D'.to_owned()],
    ]);

    assert_eq!(grid.grid.len(), 2);
    assert_eq!(grid.grid[0].len(), 2);

    assert_eq!(grid.grid[0][0], 'A');
    assert_eq!(grid.grid[0][1], 'B');
    assert_eq!(grid.grid[1][0], 'C');
    assert_eq!(grid.grid[1][1], 'D');
}

#[test]
fn grid_grows_rows_empty_and_columns_with_spaces() {
    let mut grid = AsciiGrid::empty('.');
    grid.put_char('x', &Position::new(2, 1));

    // The new row above stays empty; the new columns before the cell
    // are spaces, not the grid's configured fill character.
    assert_eq!(grid.get_grid(), vec![vec![], vec![' ', ' ', 'x']]);
}

#[test]
fn text_measures_its_longest_line() {
    let text = text_element("Some\nmultiline\ntext");
    assert_eq!(text.width(), 9);
    assert_eq!(text.height(), 3);

    let empty = text_element("");
    assert_eq!(empty.width(), 0);
    assert_eq!(empty.height(), 0);
}

#[test]
fn bordered_dimensions_add_padding_and_border() {
    let inner = text_element("Hey");
    assert_eq!(inner.width(), 3);
    assert_eq!(inner.height(), 1);

    let bordered =
        AsciiElement::Border(AsciiBorderDecorator::new(inner, Position::default(), 4, 1, ' '));
    assert_eq!(bordered.width(), 3 + 2 * 4 + 2);
    assert_eq!(bordered.height(), 1 + 2 * 1 + 2);
}

#[test]
fn group_reports_extremes_of_its_children() {
    let mut group = AsciiComposite::empty();
    assert_eq!(group.position(), Position::new(0, 0));
    assert_eq!(group.width(), 0);
    assert_eq!(group.height(), 0);

    group.add(AsciiElement::Text(AsciiText::new(Position::new(3, 2), "B".to_string())));
    group.add(AsciiElement::Text(AsciiText::new(Position::new(1, 1), "Lines\nhere".to_string())));

    assert_eq!(group.position(), Position::new(1, 1));
    assert_eq!(group.width(), 5);
    assert_eq!(group.height(), 2);
}

#[test]
fn group_move_preserves_child_offsets() {
    let mut group = AsciiComposite::new(vec![
        AsciiElement::Text(AsciiText::new(Position::new(1, 1), "A".to_string())),
        AsciiElement::Text(AsciiText::new(Position::new(3, 2), "B".to_string())),
    ]);

    group.move_to(Position::new(5, 5));
    assert_eq!(group.position(), Position::new(5, 5));

    let mut grid = AsciiGrid::empty(' ');
    group.draw(&mut grid);
    let rows = grid.get_grid();

    // Each child sits at the new anchor plus its old offset from (1, 1).
    assert_eq!(rows[5][5], 'A');
    assert_eq!(rows[6][7], 'B');
}

#[test]
fn moved_text_draws_at_its_new_anchor() {
    let mut element = text_element("hi");
    element.move_to(Position::new(2, 1));

    let mut grid = AsciiGrid::empty(' ');
    element.draw(&mut grid);

    assert_eq!(grid.get_grid(), vec![vec![], vec![' ', ' ', 'h', 'i']]);
}
