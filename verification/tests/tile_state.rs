use ridesim::tile_state::{tile_url, TileBookkeeping};
use ridesim::tiles::{MapSignature, TileKey};

fn key(x: u32) -> TileKey {
    TileKey { z: 14, x, y: 7 }
}

fn signature(z: u8) -> MapSignature {
    MapSignature { z, lat_min: 1, lat_max: 2, lng_min: 3, lng_max: 4 }
}

#[test]
fn a_new_signature_forgets_everything_and_the_same_one_keeps_it() {
    let mut b = TileBookkeeping::new();
    assert!(b.update_signature(signature(14)));
    let chosen = b.select_requests(&vec![key(1)]);
    assert_eq!(chosen, vec![key(1)]);
    assert!(b.apply_result(key(1), None, true));
    assert!(!b.update_signature(signature(14)));
    assert!(b.is_loaded(key(1)));
    assert!(b.update_signature(signature(15)));
    assert!(!b.is_loaded(key(1)));
    assert_eq!(b.loaded_count(), 0);
}

#[test]
fn at_most_four_fetches_fly_while_few_tiles_are_loaded() {
    let mut b = TileBookkeeping::new();
    let offered: Vec<TileKey> = (0..10).map(key).collect();
    let chosen = b.select_requests(&offered);
    assert_eq!(chosen, vec![key(0), key(1), key(2), key(3)]);
    assert!(b.select_requests(&offered).is_empty());
}

#[test]
fn twelve_fetches_may_fly_once_six_tiles_are_loaded() {
    let mut b = TileBookkeeping::new();
    for round in 0..2u32 {
        let offered: Vec<TileKey> = (round * 3..round * 3 + 3).map(key).collect();
        for k in b.select_requests(&offered) {
            assert!(b.apply_result(k, None, true));
        }
    }
    assert_eq!(b.loaded_count(), 6);
    let offered: Vec<TileKey> = (0..30).map(key).collect();
    let chosen = b.select_requests(&offered);
    assert_eq!(chosen, (6..18).map(key).collect::<Vec<_>>());
}

#[test]
fn loaded_inflight_and_failed_tiles_are_not_fetched_again() {
    let mut b = TileBookkeeping::new();
    assert_eq!(b.select_requests(&vec![key(1), key(2), key(3)]), vec![key(1), key(2), key(3)]);
    assert!(b.apply_result(key(1), None, true));
    assert!(!b.apply_result(key(2), Some("timeout".to_string()), false));
    assert_eq!(b.select_requests(&vec![key(1), key(2), key(3), key(4), key(4)]), vec![key(4)]);
}

#[test]
fn an_answer_without_geometry_frees_its_slot_and_loads_nothing() {
    let mut b = TileBookkeeping::new();
    let offered: Vec<TileKey> = (0..5).map(key).collect();
    assert_eq!(b.select_requests(&offered).len(), 4);
    assert!(!b.apply_result(key(0), None, false));
    assert!(!b.is_loaded(key(0)));
    assert_eq!(b.select_requests(&offered), vec![key(0)]);
}

#[test]
fn tile_addresses_drop_trailing_slashes() {
    assert_eq!(
        tile_url("http://localhost:5000//", TileKey { z: 14, x: 8800, y: 5373 }),
        "http://localhost:5000/tile/v1/driving/tile(8800,5373,14).mvt"
    );
    assert_eq!(tile_url("", TileKey { z: 1, x: 0, y: 1 }), "/tile/v1/driving/tile(0,1,1).mvt");
}
