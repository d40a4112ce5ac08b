use grass_life::board::Board;
use grass_life::selector::{hits, latest_click, select_tile, CellLayout, WorldPos};
use grass_life::tile::{Coord, Tile};

fn cell(i: usize, j: usize, x: i32, y: i32, size: i32) -> CellLayout {
    CellLayout {
        coord: Coord { i, j },
        center: WorldPos { x, y },
        size,
    }
}

#[test]
fn click_at_exactly_eight_tenths_of_size_hits() {
    // size 100: the threshold distance is 80.
    let c = cell(0, 0, 0, 0, 100);
    assert!(hits(WorldPos { x: 80, y: 0 }, &c));
    assert!(hits(WorldPos { x: 0, y: -80 }, &c));
}

#[test]
fn click_just_past_the_threshold_misses() {
    // 81 is 0.81 times the size: outside.
    let c = cell(0, 0, 0, 0, 100);
    assert!(!hits(WorldPos { x: 81, y: 0 }, &c));
    assert!(!hits(WorldPos { x: 0, y: 81 }, &c));
}

#[test]
fn diagonal_distance_is_euclidean() {
    // (48, 64) is at distance 80 from the origin; (49, 64) is beyond it.
    let c = cell(0, 0, 0, 0, 100);
    assert!(hits(WorldPos { x: 48, y: 64 }, &c));
    assert!(!hits(WorldPos { x: 49, y: 64 }, &c));
}

#[test]
fn click_selects_the_cell_under_it() {
    let mut b = Board::filled(3, Tile::Dirt);
    let cells = vec![cell(0, 0, 0, 0, 10), cell(1, 2, 100, 0, 10), cell(2, 2, 200, 0, 10)];
    select_tile(&mut b, Some(WorldPos { x: 103, y: 2 }), &cells);
    assert_eq!(b.selected(), Some(Coord { i: 1, j: 2 }));
}

#[test]
fn no_click_leaves_selection_unchanged() {
    let mut b = Board::filled(3, Tile::Dirt);
    let cells = vec![cell(0, 0, 0, 0, 10), cell(1, 1, 100, 0, 10)];
    select_tile(&mut b, Some(WorldPos { x: 100, y: 0 }), &cells);
    assert_eq!(b.selected(), Some(Coord { i: 1, j: 1 }));
    select_tile(&mut b, None, &cells);
    assert_eq!(b.selected(), Some(Coord { i: 1, j: 1 }));
}

#[test]
fn miss_does_not_clear_selection() {
    let mut b = Board::filled(3, Tile::Dirt);
    let cells = vec![cell(0, 0, 0, 0, 10), cell(1, 1, 100, 0, 10)];
    select_tile(&mut b, Some(WorldPos { x: 0, y: 0 }), &cells);
    assert_eq!(b.selected(), Some(Coord { i: 0, j: 0 }));
    select_tile(&mut b, Some(WorldPos { x: 5000, y: 5000 }), &cells);
    assert_eq!(b.selected(), Some(Coord { i: 0, j: 0 }));
}

#[test]
fn nearest_cell_wins_on_overlap() {
    // Two cells of size 100 centered 30 apart, click on the nearer center:
    // the nearer cell wins whatever its place in iteration order.
    let mut b = Board::filled(3, Tile::Dirt);
    let cells = vec![cell(0, 0, 30, 0, 100), cell(2, 1, 0, 0, 100)];
    select_tile(&mut b, Some(WorldPos { x: 0, y: 0 }), &cells);
    assert_eq!(b.selected(), Some(Coord { i: 2, j: 1 }));

    let mut b = Board::filled(3, Tile::Dirt);
    let cells = vec![cell(2, 1, 0, 0, 100), cell(0, 0, 30, 0, 100)];
    select_tile(&mut b, Some(WorldPos { x: 0, y: 0 }), &cells);
    assert_eq!(b.selected(), Some(Coord { i: 2, j: 1 }));
}

#[test]
fn equal_distance_tie_goes_to_the_earlier_cell() {
    // Two cells at exactly the same distance from the click: the earlier
    // one in iteration order keeps the selection deterministic.
    let mut b = Board::filled(3, Tile::Dirt);
    let cells = vec![cell(1, 0, -10, 0, 100), cell(1, 1, 10, 0, 100)];
    select_tile(&mut b, Some(WorldPos { x: 0, y: 0 }), &cells);
    assert_eq!(b.selected(), Some(Coord { i: 1, j: 0 }));
}

#[test]
fn only_the_most_recent_click_of_a_batch_counts() {
    let clicks = vec![
        WorldPos { x: 0, y: 0 },
        WorldPos { x: 50, y: 0 },
        WorldPos { x: 100, y: 0 },
    ];
    assert_eq!(latest_click(&clicks), Some(WorldPos { x: 100, y: 0 }));
    assert_eq!(latest_click(&Vec::new()), None);
}
