use ridesim::tile_cover::{choose_tile_zoom, tile_span_count, tiles_in_range};
use ridesim::tiles::TileKey;

#[test]
fn spans_count_columns_times_rows() {
    assert_eq!(tile_span_count(0, 2, 0, 1), 6);
    assert_eq!(tile_span_count(5, 4, 0, 1), 0);
    assert_eq!(tile_span_count(0, 0, 3, 3), 1);
    assert_eq!(tile_span_count(0, i64::MAX - 1, 0, i64::MAX - 1), usize::MAX);
}

#[test]
fn the_highest_zoom_with_few_enough_tiles_wins() {
    assert_eq!(choose_tile_zoom(&[100, 50, 20, 12, 4]), 16);
    assert_eq!(choose_tile_zoom(&[100, 100, 12, 50, 50]), 14);
    assert_eq!(choose_tile_zoom(&[13, 20, 40, 80, 160]), 12);
    assert_eq!(choose_tile_zoom(&[1, 2, 13, 30, 90]), 13);
}

#[test]
fn tiles_are_listed_column_by_column_within_the_map() {
    let tiles = tiles_in_range(12, -5, 1, 3, 4);
    let expected: Vec<TileKey> = [(0, 3), (0, 4), (1, 3), (1, 4)]
        .iter()
        .map(|&(x, y)| TileKey { z: 12, x, y })
        .collect();
    assert_eq!(tiles, expected);
    let edge = tiles_in_range(1, 0, 9, 0, 0);
    assert_eq!(edge, vec![TileKey { z: 1, x: 0, y: 0 }, TileKey { z: 1, x: 1, y: 0 }]);
    assert!(tiles_in_range(12, 3, 2, 0, 0).is_empty());
}
