use falling_sand::cell::{Cell, Cells, Color, ColorMode, Coords};
use falling_sand::frame::{Action, CellAction, Frame};
use falling_sand::game::Game;

fn at(x: i32, y: i32) -> Coords {
    Coords { x, y }
}

#[test]
fn frame_polls_last_in_first_out() {
    let mut f = Frame::new();
    assert!(f.is_empty());
    f.add_action(Action::Cell(at(0, 0), CellAction::Clear));
    f.add_action(Action::Swap(at(0, 0), at(1, 1)));
    assert_eq!(f.len(), 2);
    assert_eq!(f.poll(), Some(Action::Swap(at(0, 0), at(1, 1))));
    assert_eq!(f.poll(), Some(Action::Cell(at(0, 0), CellAction::Clear)));
    assert_eq!(f.poll(), None);
    assert!(f.is_empty());
}

#[test]
fn frame_clear_empties() {
    let mut f = Frame::new();
    f.add_action(Action::Cell(at(0, 0), CellAction::Clear));
    f.clear();
    assert_eq!(f.len(), 0);
    assert_eq!(f.poll(), None);
}

#[test]
fn set_kind_then_swap_drains_swap_first() {
    let mut g = Game::new(5, 5);
    g.set_cell(2, 3, Cell::new(Cells::Wall));
    let mut f = Frame::new();
    f.add_action(Action::Cell(at(2, 2), CellAction::SetKind(Cells::Sand)));
    f.add_action(Action::Swap(at(2, 2), at(2, 3)));
    g.apply_frame(&mut f);
    // The swap ran first: wall moved up to (2,2) and air down to (2,3);
    // then (2,2) became sand, keeping the wall's color mode.
    assert_eq!(g.get_cell(2, 2).kind, Cells::Sand);
    assert_eq!(g.get_cell(2, 2).color_mode, ColorMode::Static(Color::black()));
    assert_eq!(*g.get_cell(2, 3), Cell::new(Cells::Air));
    assert!(f.is_empty());
}

#[test]
fn apply_empty_frame_is_a_no_op() {
    let mut g = Game::new(4, 4);
    g.set_cell(1, 2, Cell::new(Cells::Sand));
    g.set_cell(3, 0, Cell::new(Cells::Wall));
    let mut f = Frame::new();
    g.apply_frame(&mut f);
    g.apply_frame(&mut f);
    for y in 0..4 {
        for x in 0..4 {
            let expected = if (x, y) == (1, 2) {
                Cell::new(Cells::Sand)
            } else if (x, y) == (3, 0) {
                Cell::new(Cells::Wall)
            } else {
                Cell::default()
            };
            assert_eq!(*g.get_cell(x, y), expected);
        }
    }
    assert!(f.is_empty());
}

#[test]
fn replace_out_of_range_is_skipped() {
    let mut g = Game::new(3, 3);
    let mut f = Frame::new();
    f.add_action(Action::Cell(at(-1, 1), CellAction::Replace(Cell::new(Cells::Wall))));
    f.add_action(Action::Cell(at(1, 1), CellAction::Replace(Cell::new(Cells::Sand))));
    f.add_action(Action::Cell(at(7, 7), CellAction::Replace(Cell::new(Cells::Wall))));
    g.apply_frame(&mut f);
    assert_eq!(g.get_cell(1, 1).kind, Cells::Sand);
    assert_eq!(g.get_cell(0, 1).kind, Cells::Air);
    assert_eq!(g.get_cell(2, 2).kind, Cells::Air);
}

#[test]
fn clear_and_color_mode_actions() {
    let mut g = Game::new(3, 3);
    g.set_cell(0, 0, Cell::new(Cells::Sand));
    g.set_cell(1, 0, Cell::new(Cells::Wall));
    let mut f = Frame::new();
    f.add_action(Action::Cell(at(0, 0), CellAction::Clear));
    f.add_action(Action::Cell(at(1, 0), CellAction::SetColorMode(ColorMode::Dynamic)));
    g.apply_frame(&mut f);
    assert_eq!(*g.get_cell(0, 0), Cell::default());
    assert_eq!(g.get_cell(1, 0).kind, Cells::Wall);
    assert_eq!(g.get_cell(1, 0).color_mode, ColorMode::Dynamic);
    assert_eq!(g.get_cell(1, 0).color(), Color::black());
}

#[test]
fn swap_exchanges_full_state() {
    let mut g = Game::new(3, 1);
    let red = Cell { kind: Cells::Wall, color_mode: ColorMode::Static(Color { r: 200, g: 0, b: 0, a: 255 }) };
    g.set_cell(0, 0, red);
    g.set_cell(2, 0, Cell::new(Cells::Sand));
    let mut f = Frame::new();
    f.add_action(Action::Swap(at(0, 0), at(2, 0)));
    g.apply_frame(&mut f);
    assert_eq!(*g.get_cell(0, 0), Cell::new(Cells::Sand));
    assert_eq!(*g.get_cell(2, 0), red);
}

#[test]
fn swap_with_itself_keeps_cell() {
    let mut g = Game::new(2, 2);
    g.set_cell(1, 1, Cell::new(Cells::Sand));
    let mut f = Frame::new();
    f.add_action(Action::Swap(at(1, 1), at(1, 1)));
    g.apply_frame(&mut f);
    assert_eq!(*g.get_cell(1, 1), Cell::new(Cells::Sand));
}

#[test]
fn set_kind_changes_only_the_kind() {
    let mut g = Game::new(2, 2);
    let mut f = Frame::new();
    f.add_action(Action::Cell(at(1, 0), CellAction::SetKind(Cells::Sand)));
    g.apply_frame(&mut f);
    assert_eq!(g.get_cell(1, 0).kind, Cells::Sand);
    assert_eq!(g.get_cell(1, 0).color_mode, ColorMode::Static(Color::white()));
    assert_eq!(g.get_cell(1, 0).color(), Color::white());
}
