use grass_life::board::Board;
use grass_life::rule::{count_live_neighbors, next_tile, update_board};
use grass_life::tile::{Coord, Tile};

fn board_from(rows: &[&[u8]]) -> Board {
    let n = rows.len();
    let mut b = Board::filled(n, Tile::Dirt);
    for (i, row) in rows.iter().enumerate() {
        assert_eq!(row.len(), n);
        for (j, &v) in row.iter().enumerate() {
            if v == 1 {
                b.set(Coord { i, j }, Tile::Grass);
            }
        }
    }
    b
}

fn tile_at(b: &Board, i: usize, j: usize) -> Tile {
    b.get(Coord { i, j })
}

#[test]
fn rule_table_is_total_over_all_counts() {
    for count in 0u8..=8 {
        for prev in [Tile::Grass, Tile::Dirt] {
            let next = next_tile(count, prev);
            let expected = match count {
                0 | 1 => Tile::Dirt,
                2 => prev,
                3 => Tile::Grass,
                _ => Tile::Dirt,
            };
            assert_eq!(next, expected);
        }
    }
}

#[test]
fn all_dirt_grid_stays_all_dirt() {
    let mut b = Board::filled(8, Tile::Dirt);
    update_board(&mut b);
    assert_eq!(b.len(), 8);
    for i in 0..8 {
        for j in 0..8 {
            assert_eq!(tile_at(&b, i, j), Tile::Dirt);
        }
    }
}

#[test]
fn horizontal_triomino_becomes_vertical() {
    // A 5x5 grid, all Dirt except the horizontal triomino (2,1),(2,2),(2,3).
    let mut b = board_from(&[
        &[0, 0, 0, 0, 0],
        &[0, 0, 0, 0, 0],
        &[0, 1, 1, 1, 0],
        &[0, 0, 0, 0, 0],
        &[0, 0, 0, 0, 0],
    ]);
    // The center cell sees exactly its two row neighbors.
    assert_eq!(count_live_neighbors(&b, 2, 2), 2);
    update_board(&mut b);
    for i in 0..5 {
        for j in 0..5 {
            let expected = if j == 2 && (1..=3).contains(&i) {
                Tile::Grass
            } else {
                Tile::Dirt
            };
            assert_eq!(tile_at(&b, i, j), expected, "cell ({}, {})", i, j);
        }
    }
}

#[test]
fn row_zero_is_never_counted_as_a_neighbor() {
    // Grass filling row 0 contributes to no cell's count, itself included.
    let mut b = board_from(&[
        &[0, 1, 1, 1],
        &[0, 0, 0, 0],
        &[0, 0, 0, 0],
        &[0, 0, 0, 0],
    ]);
    assert_eq!(count_live_neighbors(&b, 1, 2), 0);
    assert_eq!(count_live_neighbors(&b, 0, 2), 0);
    update_board(&mut b);
    for i in 0..4 {
        for j in 0..4 {
            assert_eq!(tile_at(&b, i, j), Tile::Dirt, "cell ({}, {})", i, j);
        }
    }
}

#[test]
fn last_row_is_counted_as_a_neighbor() {
    // The same triomino moved to row N-1 is counted: the cell above its
    // center sees all three and is born.
    let mut b = board_from(&[
        &[0, 0, 0, 0],
        &[0, 0, 0, 0],
        &[0, 0, 0, 0],
        &[0, 1, 1, 1],
    ]);
    assert_eq!(count_live_neighbors(&b, 2, 2), 3);
    update_board(&mut b);
    assert_eq!(tile_at(&b, 2, 2), Tile::Grass);
}

#[test]
fn column_boundary_is_asymmetric_too() {
    // Grass in column 0 is never counted; grass in column N-1 is.
    let mut left = board_from(&[
        &[0, 0, 0, 0],
        &[1, 0, 0, 0],
        &[1, 0, 0, 0],
        &[1, 0, 0, 0],
    ]);
    assert_eq!(count_live_neighbors(&left, 2, 1), 0);
    update_board(&mut left);
    assert_eq!(tile_at(&left, 2, 1), Tile::Dirt);

    let mut right = board_from(&[
        &[0, 0, 0, 0],
        &[0, 0, 0, 1],
        &[0, 0, 0, 1],
        &[0, 0, 0, 1],
    ]);
    assert_eq!(count_live_neighbors(&right, 2, 2), 3);
    update_board(&mut right);
    assert_eq!(tile_at(&right, 2, 2), Tile::Grass);
}

#[test]
fn survival_preserves_the_prior_tile_only() {
    // With exactly two live neighbors a cell keeps its old value: a Dirt
    // cell stays Dirt even between two Grass cells.
    let b = board_from(&[
        &[0, 0, 0, 0, 0],
        &[0, 0, 0, 0, 0],
        &[0, 1, 0, 1, 0],
        &[0, 0, 0, 0, 0],
        &[0, 0, 0, 0, 0],
    ]);
    let mut b = b;
    assert_eq!(count_live_neighbors(&b, 2, 2), 2);
    update_board(&mut b);
    assert_eq!(tile_at(&b, 2, 2), Tile::Dirt);
}

#[test]
fn overcrowded_cell_dies() {
    // A Grass cell with four live neighbors turns to Dirt.
    let mut b = board_from(&[
        &[0, 0, 0, 0, 0],
        &[0, 0, 1, 0, 0],
        &[0, 1, 1, 1, 0],
        &[0, 0, 1, 0, 0],
        &[0, 0, 0, 0, 0],
    ]);
    assert_eq!(count_live_neighbors(&b, 2, 2), 4);
    update_board(&mut b);
    assert_eq!(tile_at(&b, 2, 2), Tile::Dirt);
}

#[test]
fn selection_survives_a_generation() {
    let mut b = Board::filled(5, Tile::Dirt);
    b.selected = Some(Coord { i: 3, j: 4 });
    update_board(&mut b);
    assert_eq!(b.selected(), Some(Coord { i: 3, j: 4 }));
}
