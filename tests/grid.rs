use falling_sand::cell::{Cell, Cells, Color, ColorMode, Coords};
use falling_sand::game::Game;

#[test]
fn new_grid_is_all_air() {
    let g = Game::new(4, 3);
    assert_eq!(g.width(), 4);
    assert_eq!(g.height(), 3);
    assert_eq!(g.iteration, 1);
    for y in 0..3 {
        for x in 0..4 {
            assert_eq!(*g.get_cell(x, y), Cell::default());
            assert_eq!(g.get_cell(x, y).kind, Cells::Air);
        }
    }
}

#[test]
fn iteration_defaults_to_a_tenth_of_the_area() {
    let g = Game::new(100, 100);
    assert_eq!(g.iteration, 1000);
}

#[test]
fn set_then_get_reads_back() {
    let mut g = Game::new(5, 5);
    let sand = Cell::new(Cells::Sand);
    g.set_cell(3, 1, sand);
    assert_eq!(*g.get_cell(3, 1), sand);
    assert_eq!(g.try_get_cell(3, 1), Some(&sand));
    assert_eq!(g.get_cell(1, 3).kind, Cells::Air);
}

#[test]
fn try_set_matches_set_in_range() {
    let mut a = Game::new(3, 3);
    let mut b = Game::new(3, 3);
    let wall = Cell::new(Cells::Wall);
    a.set_cell(2, 2, wall);
    b.try_set_cell(2, 2, wall);
    for y in 0..3 {
        for x in 0..3 {
            assert_eq!(a.get_cell(x, y), b.get_cell(x, y));
        }
    }
}

#[test]
fn try_set_out_of_range_is_ignored() {
    let mut g = Game::new(3, 3);
    let wall = Cell::new(Cells::Wall);
    g.try_set_cell(-1, 0, wall);
    g.try_set_cell(3, 0, wall);
    g.try_set_cell(0, 3, wall);
    g.try_set_cell(0, -5, wall);
    for y in 0..3 {
        for x in 0..3 {
            assert_eq!(g.get_cell(x, y).kind, Cells::Air);
        }
    }
}

#[test]
fn try_get_out_of_range_is_absent() {
    let g = Game::new(3, 2);
    assert!(g.try_get_cell(-1, 0).is_none());
    assert!(g.try_get_cell(0, -1).is_none());
    assert!(g.try_get_cell(3, 0).is_none());
    assert!(g.try_get_cell(0, 2).is_none());
    assert!(g.try_get_cell(i32::MIN, i32::MAX).is_none());
    assert!(g.try_get_cell(2, 1).is_some());
}

#[test]
fn exists_matches_bounds() {
    let g = Game::new(10, 7);
    for y in -3..12 {
        for x in -3..14 {
            let expected = x >= 0 && x < 10 && y >= 0 && y < 7;
            assert_eq!(g.cell_exists(x, y), expected);
        }
    }
    assert!(!g.cell_exists(i32::MAX, 0));
    assert!(!g.cell_exists(i32::MIN, i32::MIN));
}

#[test]
fn empty_grid_has_no_cells() {
    let g = Game::new(0, 0);
    assert!(!g.cell_exists(0, 0));
    assert_eq!(g.iteration, 0);
}

#[test]
fn kind_hardness_and_colors() {
    assert_eq!(Cells::Air.hardness(), 2);
    assert_eq!(Cells::Wall.hardness(), 100);
    assert_eq!(Cells::Sand.hardness(), 100);
    assert_eq!(Cells::Air.color(), Color { r: 255, g: 255, b: 255, a: 255 });
    assert_eq!(Cells::Wall.color(), Color { r: 0, g: 0, b: 0, a: 255 });
    assert_eq!(Cells::Sand.color(), Color { r: 255, g: 255, b: 0, a: 255 });
    assert_eq!(Cells::Sand.color_mode(), ColorMode::Static(Cells::Sand.color()));
}

#[test]
fn cell_color_follows_its_mode() {
    let mut c = Cell::new(Cells::Wall);
    assert_eq!(c.color_mode, ColorMode::Static(Color::black()));
    c.color_mode = ColorMode::Static(Color { r: 1, g: 2, b: 3, a: 4 });
    assert_eq!(c.color(), Color { r: 1, g: 2, b: 3, a: 4 });
    c.color_mode = ColorMode::Dynamic;
    assert_eq!(c.color(), Color::black());
    let s = Cell { kind: Cells::Sand, color_mode: ColorMode::Dynamic };
    assert_eq!(s.color(), Color::yellow());
}

#[test]
fn default_cell_is_white_air() {
    let c = Cell::default();
    assert_eq!(c.kind, Cells::Air);
    assert_eq!(c.color(), Color::white());
    let _ = Coords { x: 0, y: 0 };
}
