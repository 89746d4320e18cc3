use platformer_core::compact::GridPos;
use platformer_core::compact::WallGrid;
use platformer_core::compact::WallRect;
use platformer_core::compact::compact_walls;
use platformer_core::compact::row_plates;
use platformer_core::spawning::wall_collider_box;

fn grid_of(width: usize, height: usize, cells: &[(usize, usize)]) -> WallGrid {
    let mut positions: Vec<GridPos> = Vec::new();
    for &(x, y) in cells {
        positions.push(GridPos { x, y });
    }
    WallGrid::from_cells(width, height, &positions)
}

fn rect(left: usize, right: usize, bottom: usize, top: usize) -> WallRect {
    WallRect { left, right, bottom, top }
}

#[test]
fn empty_input_gives_empty_output() {
    let g = grid_of(10, 10, &[]);
    let rects = compact_walls(&g);
    assert!(rects.is_empty());
}

#[test]
fn single_cell_gives_one_unit_rectangle() {
    let g = grid_of(10, 10, &[(3, 3)]);
    let rects = compact_walls(&g);
    assert_eq!(rects, vec![rect(3, 3, 3, 3)]);
}

#[test]
fn solid_block_merges_into_one_rectangle() {
    let g = grid_of(8, 8, &[(1, 1), (2, 1), (3, 1), (1, 2), (2, 2), (3, 2)]);
    let rects = compact_walls(&g);
    assert_eq!(rects, vec![rect(1, 3, 1, 2)]);
}

#[test]
fn l_shape_needs_at_least_two_rectangles() {
    // Bottom row three cells wide, next row only one: the bounds differ, so
    // the wide plate cannot extend and a new rectangle starts.
    let g = grid_of(8, 8, &[(0, 0), (1, 0), (2, 0), (0, 1)]);
    let rects = compact_walls(&g);
    assert!(rects.len() >= 2);
    assert_eq!(rects, vec![rect(0, 2, 0, 0), rect(0, 0, 1, 1)]);
}

#[test]
fn compaction_is_deterministic() {
    let cells = [(0, 0), (1, 0), (4, 0), (5, 0), (0, 1), (1, 1), (4, 1), (2, 3), (3, 3)];
    let g1 = grid_of(16, 16, &cells);
    let g2 = grid_of(16, 16, &cells);
    let r1 = compact_walls(&g1);
    let r2 = compact_walls(&g2);
    assert_eq!(r1, r2);
}

#[test]
fn rectangles_cover_walls_exactly_once() {
    let cells = [
        (0, 0), (1, 0), (2, 0), (5, 0),
        (0, 1), (1, 1), (2, 1),
        (1, 2), (2, 2), (3, 2),
        (7, 7),
    ];
    let g = grid_of(9, 9, &cells);
    let rects = compact_walls(&g);
    for x in 0..9usize {
        for y in 0..9usize {
            let mut covering = 0;
            for r in &rects {
                if r.left <= x && x <= r.right && r.bottom <= y && y <= r.top {
                    covering += 1;
                }
            }
            let is_wall = cells.contains(&(x, y));
            assert_eq!(covering, if is_wall { 1 } else { 0 }, "cell ({x}, {y})");
        }
    }
}

#[test]
fn out_of_range_cells_are_ignored() {
    let g = grid_of(4, 4, &[(1, 1), (9, 9), (4, 1), (1, 4)]);
    let rects = compact_walls(&g);
    assert_eq!(rects, vec![rect(1, 1, 1, 1)]);
}

#[test]
fn row_plates_finds_maximal_runs() {
    let g = grid_of(8, 2, &[(0, 0), (1, 0), (3, 0), (6, 0), (7, 0)]);
    let plates = row_plates(&g, 0);
    let bounds: Vec<(usize, usize)> = plates.iter().map(|p| (p.left, p.right)).collect();
    assert_eq!(bounds, vec![(0, 1), (3, 3), (6, 7)]);
    assert!(row_plates(&g, 1).is_empty());
}

#[test]
fn wall_collider_box_scales_by_grid_size() {
    // A rectangle spanning cells 2..=4 horizontally and 1..=2 vertically,
    // with 16-pixel cells: 48 by 32 pixels, centered at (56, 32).
    let r = rect(2, 4, 1, 2);
    let b = wall_collider_box(&r, 16);
    assert_eq!(b.extent_x, 48);
    assert_eq!(b.extent_y, 32);
    assert_eq!(b.center_x2, 112);
    assert_eq!(b.center_y2, 64);
}
