use falling_sand::cell::{Cell, Cells, Coords};
use falling_sand::game::Game;
use falling_sand::mask::{column_mask, far_mask, near_mask, row_mask, star_mask, Mask};

fn collect(g: &Game, m: &Mask) -> Vec<(Coords, Cell)> {
    let mut it = g.iter_masked_cells(m);
    let mut out = Vec::new();
    while let Some((c, cell)) = it.next() {
        out.push((c, *cell));
    }
    out
}

#[test]
fn mask_rejects_ragged_stencil() {
    assert!(Mask::new(vec![true; 5], 3, Coords { x: 0, y: 0 }).is_none());
    assert!(Mask::new(vec![true; 7], 2, Coords { x: 0, y: 0 }).is_none());
    assert!(Mask::new(vec![true; 3], 0, Coords { x: 0, y: 0 }).is_none());
    assert!(Mask::new(vec![true; 6], 3, Coords { x: 0, y: 0 }).is_some());
    assert!(Mask::new(Vec::new(), 4, Coords { x: 0, y: 0 }).is_some());
}

#[test]
fn mask_reads_back_stencil() {
    let data = vec![true, false, false, true, true, false];
    let m = Mask::new(data.clone(), 2, Coords { x: 1, y: 1 }).unwrap();
    for y in 0..3u32 {
        for x in 0..2u32 {
            assert_eq!(m.get(x, y), data[(y * 2 + x) as usize]);
        }
    }
    assert_eq!(m.center, Coords { x: 1, y: 1 });
    assert_eq!(m.coords, Coords { x: 0, y: 0 });
}

#[test]
fn predefined_masks() {
    let star = star_mask();
    assert!(star.get(1, 1) && star.get(1, 0) && !star.get(0, 0));
    let near = near_mask();
    assert!(!near.get(1, 1) && near.get(0, 1) && !near.get(2, 2));
    let far = far_mask();
    assert!(!far.get(1, 1) && far.get(0, 0) && far.get(2, 2));
    let row = row_mask();
    assert!(row.get(0, 0) && row.get(2, 0));
    assert_eq!(row.center, Coords { x: 1, y: 0 });
    let col = column_mask();
    assert!(col.get(0, 0) && col.get(0, 2));
    assert_eq!(col.center, Coords { x: 0, y: 1 });
}

#[test]
fn full_stencil_in_the_middle_yields_nine_in_order() {
    let mut g = Game::new(10, 10);
    g.set_cell(6, 4, Cell::new(Cells::Sand));
    g.set_cell(4, 6, Cell::new(Cells::Wall));
    let mut m = Mask::new(vec![true; 9], 3, Coords { x: 1, y: 1 }).unwrap();
    m.coords = Coords { x: 5, y: 5 };
    let got = collect(&g, &m);
    let mut expected = Vec::new();
    for y in 4..7 {
        for x in 4..7 {
            expected.push((Coords { x, y }, *g.get_cell(x, y)));
        }
    }
    assert_eq!(got.len(), 9);
    assert_eq!(got, expected);
    assert_eq!(got[2].1.kind, Cells::Sand);
    assert_eq!(got[6].1.kind, Cells::Wall);
}

#[test]
fn full_stencil_at_the_corner_skips_off_grid() {
    let g = Game::new(10, 10);
    let m = Mask::new(vec![true; 9], 3, Coords { x: 1, y: 1 }).unwrap();
    let got = collect(&g, &m);
    let coords: Vec<Coords> = got.iter().map(|p| p.0).collect();
    assert_eq!(
        coords,
        vec![Coords { x: 0, y: 0 }, Coords { x: 1, y: 0 }, Coords { x: 0, y: 1 }, Coords { x: 1, y: 1 }]
    );
}

#[test]
fn ring_mask_skips_unset_center() {
    let g = Game::new(10, 10);
    let mut m = near_mask();
    m.coords = Coords { x: 3, y: 3 };
    let coords: Vec<Coords> = collect(&g, &m).iter().map(|p| p.0).collect();
    assert_eq!(
        coords,
        vec![Coords { x: 3, y: 2 }, Coords { x: 2, y: 3 }, Coords { x: 4, y: 3 }, Coords { x: 3, y: 4 }]
    );
}

#[test]
fn exhausted_iterator_stays_exhausted() {
    let g = Game::new(2, 2);
    let m = row_mask();
    let mut it = g.iter_masked_cells(&m);
    assert_eq!(it.next().map(|p| p.0), Some(Coords { x: 0, y: 0 }));
    assert_eq!(it.next().map(|p| p.0), Some(Coords { x: 1, y: 0 }));
    assert!(it.next().is_none());
    assert!(it.next().is_none());
}

#[test]
fn mask_far_from_grid_yields_nothing() {
    let g = Game::new(4, 4);
    let mut m = far_mask();
    m.coords = Coords { x: i32::MAX, y: i32::MIN };
    assert!(collect(&g, &m).is_empty());
}

#[test]
fn set_coords_moves_the_anchor() {
    let mut g = Game::new(10, 10);
    g.set_cell(6, 4, Cell::new(Cells::Sand));
    let mut m = Mask::new(vec![true; 9], 3, Coords { x: 1, y: 1 }).unwrap();
    m.set_coords(Coords { x: 5, y: 5 });
    assert_eq!(m.coords, Coords { x: 5, y: 5 });
    assert_eq!(m.center, Coords { x: 1, y: 1 });
    let got: Vec<(i32, i32, Cells)> = collect(&g, &m).iter().map(|p| (p.0.x, p.0.y, p.1.kind)).collect();
    let a = Cells::Air;
    assert_eq!(
        got,
        vec![(4, 4, a), (5, 4, a), (6, 4, Cells::Sand), (4, 5, a), (5, 5, a), (6, 5, a), (4, 6, a), (5, 6, a), (6, 6, a)]
    );
}

#[test]
fn iterator_index_follows_hits() {
    let g = Game::new(3, 3);
    let m = near_mask();
    let mut it = g.iter_masked_cells(&m);
    assert_eq!(it.current_index, 0);
    assert_eq!(it.next().map(|p| p.0), Some(Coords { x: 1, y: 0 }));
    assert_eq!(it.current_index, 6);
    assert_eq!(it.next().map(|p| p.0), Some(Coords { x: 0, y: 1 }));
    assert_eq!(it.current_index, 8);
    assert!(it.next().is_none());
    assert_eq!(it.current_index, 9);
}
