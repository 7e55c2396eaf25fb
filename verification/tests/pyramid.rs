use osm_local_tile_dl::pyramid::{TilePyramid, MAX_ZOOM};
use osm_local_tile_dl::range::TileRange;
use osm_local_tile_dl::Tile;

fn pyramid_of(ranges: &[TileRange]) -> TilePyramid {
    let mut pyramid = TilePyramid::new();
    for range in ranges {
        assert!(pyramid.push(*range).is_some());
    }
    pyramid
}

fn all_tiles(pyramid: &TilePyramid) -> Vec<Tile> {
    let mut cursor = pyramid.tiles();
    let mut tiles = Vec::new();
    while let Some(tile) = cursor.next() {
        tiles.push(tile);
    }
    assert!(cursor.is_done());
    assert_eq!(cursor.next(), None);
    tiles
}

/// The slippy-map projection in double precision.
fn web_mercator(zoom: u8, lon_rad: f64, lat_rad: f64) -> (usize, usize) {
    let pi = std::f64::consts::PI;
    let x = ((lon_rad + pi) / (2f64 * pi)) * 2f64.powi(zoom as i32);
    let trig = (lat_rad.tan() + (1f64 / lat_rad.cos())).ln();
    let y = (1f64 - (trig / pi)) * 2f64.powi(zoom as i32 - 1);
    (x as usize, y as usize)
}

#[test]
fn tile_index() {
    let lon = 6.0402f64.to_radians();
    let lat = 50.7929f64.to_radians();
    let pyramid = TilePyramid::covering(lat, lon, lat, lon, 18, web_mercator);
    assert_eq!(pyramid.depth(), 18);
    assert_eq!(pyramid.level(18), Some(TileRange::new(135470, 87999, 135470, 87999)));
}

#[test]
fn covering_pairs_west_with_north_and_east_with_south() {
    let project = |zoom: u8, lon: u32, lat: u32| (lon as usize * zoom as usize, (100 - lat) as usize);
    let pyramid = TilePyramid::covering(60u32, 8u32, 40u32, 5u32, 3, project);
    assert_eq!(pyramid.depth(), 3);
    assert_eq!(pyramid.level(1), Some(TileRange::new(5, 40, 8, 60)));
    assert_eq!(pyramid.level(2), Some(TileRange::new(10, 40, 16, 60)));
    assert_eq!(pyramid.level(3), Some(TileRange::new(15, 40, 24, 60)));
    assert_eq!(pyramid.level(0), None);
    assert_eq!(pyramid.level(4), None);
}

#[test]
fn covering_a_city_counts_what_it_enumerates() {
    let (north, east, south, west) = (
        50.811f64.to_radians(),
        6.1649f64.to_radians(),
        50.7492f64.to_radians(),
        6.031f64.to_radians(),
    );
    let pyramid = TilePyramid::covering(north, east, south, west, 12, web_mercator);
    let tiles = all_tiles(&pyramid);
    assert!(!tiles.is_empty());
    assert_eq!(pyramid.count(), Some(tiles.len() as u64));
    for zoom in 1..=12u8 {
        let range = pyramid.level(zoom).unwrap();
        assert!(!range.is_empty());
        let at_level = tiles.iter().filter(|t| t.z == zoom).count() as u64;
        assert_eq!(range.count(), Some(at_level));
    }
}

#[test]
fn range_is_enumerated_by_column_then_row() {
    let pyramid = pyramid_of(&[TileRange::new(4, 7, 5, 9)]);
    assert_eq!(
        all_tiles(&pyramid),
        vec![
            Tile::new(4, 7, 1),
            Tile::new(4, 8, 1),
            Tile::new(4, 9, 1),
            Tile::new(5, 7, 1),
            Tile::new(5, 8, 1),
            Tile::new(5, 9, 1),
        ]
    );
}

#[test]
fn levels_are_enumerated_in_order_of_zoom() {
    let pyramid = pyramid_of(&[
        TileRange::new(1, 0, 1, 0),
        TileRange::new(2, 1, 3, 1),
        TileRange::new(5, 2, 5, 3),
    ]);
    assert_eq!(
        all_tiles(&pyramid),
        vec![
            Tile::new(1, 0, 1),
            Tile::new(2, 1, 2),
            Tile::new(3, 1, 2),
            Tile::new(5, 2, 3),
            Tile::new(5, 3, 3),
        ]
    );
    assert_eq!(pyramid.count(), Some(5));
}

#[test]
fn count_is_product_of_sides_summed_over_levels() {
    let pyramid = pyramid_of(&[
        TileRange::new(0, 0, 1, 1),
        TileRange::new(1, 1, 3, 2),
        TileRange::new(2, 2, 6, 5),
    ]);
    assert_eq!(pyramid.level(1).unwrap().count(), Some(4));
    assert_eq!(pyramid.level(2).unwrap().count(), Some(6));
    assert_eq!(pyramid.level(3).unwrap().count(), Some(20));
    assert_eq!(pyramid.count(), Some(30));
    assert_eq!(all_tiles(&pyramid).len(), 30);
}

#[test]
fn single_tile_range() {
    let range = TileRange::new(9, 9, 9, 9);
    assert!(!range.is_empty());
    assert_eq!(range.count(), Some(1));
    assert_eq!(all_tiles(&pyramid_of(&[range])), vec![Tile::new(9, 9, 1)]);
}

#[test]
fn degenerate_range_yields_nothing() {
    for range in [
        TileRange::new(3, 0, 2, 5),
        TileRange::new(0, 6, 5, 5),
        TileRange::new(3, 6, 2, 5),
        TileRange::new(1, 0, 0, usize::MAX),
    ] {
        assert!(range.is_empty());
        assert_eq!(range.count(), Some(0));
        assert_eq!(all_tiles(&pyramid_of(&[range])), vec![]);
    }
}

#[test]
fn degenerate_levels_are_passed_over() {
    let pyramid = pyramid_of(&[
        TileRange::new(1, 1, 0, 0),
        TileRange::new(0, 0, 0, 1),
        TileRange::new(5, 0, 4, 0),
        TileRange::new(5, 1, 4, 0),
        TileRange::new(7, 7, 7, 7),
        TileRange::new(0, 1, 0, 0),
    ]);
    assert_eq!(
        all_tiles(&pyramid),
        vec![Tile::new(0, 0, 2), Tile::new(0, 1, 2), Tile::new(7, 7, 5)]
    );
    assert_eq!(pyramid.count(), Some(3));
}

#[test]
fn degenerate_at_every_level_yields_nothing() {
    let pyramid = TilePyramid::covering(1u8, 2u8, 3u8, 4u8, 18, |_, lon, lat| {
        (lon as usize, 10 - lat as usize)
    });
    assert_eq!(pyramid.depth(), 18);
    assert_eq!(pyramid.count(), Some(0));
    assert_eq!(all_tiles(&pyramid), vec![]);
    assert!(pyramid.tiles().is_done());
}

#[test]
fn empty_pyramid() {
    let pyramid = TilePyramid::new();
    assert_eq!(pyramid.depth(), 0);
    assert_eq!(pyramid.count(), Some(0));
    assert_eq!(all_tiles(&pyramid), vec![]);
    assert_eq!(pyramid.level(1), None);
}

#[test]
fn enumeration_can_be_repeated() {
    let pyramid = pyramid_of(&[TileRange::new(0, 0, 1, 1), TileRange::new(2, 1, 1, 1), TileRange::new(3, 3, 4, 6)]);
    let first = all_tiles(&pyramid);
    let second = all_tiles(&pyramid);
    assert_eq!(first, second);
    assert_eq!(first.len(), 12);
    let twin = pyramid_of(&[TileRange::new(0, 0, 1, 1), TileRange::new(2, 1, 1, 1), TileRange::new(3, 3, 4, 6)]);
    assert_eq!(all_tiles(&twin), first);
}

#[test]
fn no_tile_comes_twice_and_none_is_left_out() {
    let range = TileRange::new(10, 20, 14, 22);
    let tiles = all_tiles(&pyramid_of(&[range]));
    assert_eq!(tiles.len(), 15);
    for x in 10..=14 {
        for y in 20..=22 {
            assert_eq!(tiles.iter().filter(|t| **t == Tile::new(x, y, 1)).count(), 1);
        }
    }
    for (k, tile) in tiles.iter().enumerate() {
        assert_eq!(*tile, Tile::new(10 + k / 3, 20 + k % 3, 1));
    }
}

#[test]
fn take_hands_out_in_portions() {
    let pyramid = pyramid_of(&[TileRange::new(0, 0, 1, 2)]);
    let mut cursor = pyramid.tiles();
    assert_eq!(cursor.take(0), vec![]);
    assert_eq!(cursor.take(4), vec![Tile::new(0, 0, 1), Tile::new(0, 1, 1), Tile::new(0, 2, 1), Tile::new(1, 0, 1)]);
    assert!(!cursor.is_done());
    assert_eq!(cursor.take(10), vec![Tile::new(1, 1, 1), Tile::new(1, 2, 1)]);
    assert!(cursor.is_done());
    assert_eq!(cursor.take(10), vec![]);
}

#[test]
fn count_that_does_not_fit_is_none() {
    let whole = TileRange::new(0, 0, usize::MAX, usize::MAX);
    assert_eq!(whole.count(), None);
    assert_eq!(pyramid_of(&[whole]).count(), None);
    let half = TileRange::new(0, 0, usize::MAX / 2, 0);
    assert_eq!(half.count(), Some(1 << 63));
    assert_eq!(pyramid_of(&[half]).count(), Some(1 << 63));
    assert_eq!(pyramid_of(&[half, half]).count(), None);
    assert_eq!(TileRange::new(0, 0, usize::MAX / 2, 1).count(), None);
    let row = TileRange::new(0, 0, usize::MAX - 1, 0);
    assert_eq!(row.count(), Some(u64::MAX));
    assert_eq!(pyramid_of(&[row]).count(), Some(u64::MAX));
    assert_eq!(pyramid_of(&[row, TileRange::new(0, 0, 0, 0)]).count(), None);
    assert_eq!(pyramid_of(&[row, TileRange::new(1, 0, 0, 0)]).count(), Some(u64::MAX));
}

#[test]
fn last_tile_of_the_grid_is_reached() {
    let corner = TileRange::new(usize::MAX - 1, usize::MAX, usize::MAX, usize::MAX);
    assert_eq!(
        all_tiles(&pyramid_of(&[corner])),
        vec![Tile::new(usize::MAX - 1, usize::MAX, 1), Tile::new(usize::MAX, usize::MAX, 1)]
    );
}

#[test]
fn pyramid_stops_at_the_deepest_zoom() {
    let mut pyramid = TilePyramid::new();
    for zoom in 1..=MAX_ZOOM {
        assert_eq!(pyramid.push(TileRange::new(0, 0, 0, 0)), Some(zoom));
    }
    assert_eq!(pyramid.depth(), MAX_ZOOM);
    assert_eq!(pyramid.push(TileRange::new(0, 0, 0, 0)), None);
    assert_eq!(pyramid.depth(), MAX_ZOOM);
    let tiles = all_tiles(&pyramid);
    assert_eq!(tiles.len(), 255);
    assert_eq!(tiles[254], Tile::new(0, 0, 255));
    let deepest = TilePyramid::covering(0u8, 0u8, 0u8, 0u8, MAX_ZOOM, |z, _, _| (z as usize, 0));
    assert_eq!(deepest.depth(), MAX_ZOOM);
    assert_eq!(deepest.level(MAX_ZOOM), Some(TileRange::new(255, 0, 255, 0)));
}
