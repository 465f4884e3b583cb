use ridesim::tiles::{
    current_inflight_limit, decode_line_strings, decode_zigzag, geometry_fits, speed_layer_lines,
    TileFeature, TileKey, TileLayer,
};

#[test]
fn zigzag_decodes_alternating_signs() {
    assert_eq!(decode_zigzag(0), 0);
    assert_eq!(decode_zigzag(1), -1);
    assert_eq!(decode_zigzag(2), 1);
    assert_eq!(decode_zigzag(3), -2);
    assert_eq!(decode_zigzag(u32::MAX), i32::MIN);
    assert_eq!(decode_zigzag(u32::MAX - 1), i32::MAX);
}

#[test]
fn zigzag_undoes_encoding() {
    for n in [0i32, 1, -1, 1234, -98765, i32::MAX, i32::MIN] {
        let encoded = ((n << 1) ^ (n >> 31)) as u32;
        assert_eq!(decode_zigzag(encoded), n);
    }
}

#[test]
fn decodes_move_and_line_commands() {
    // MoveTo(1) to (25, 17), then LineTo(2) by (1, 1) and (2, 2).
    let lines = decode_line_strings(&[9, 50, 34, 18, 2, 2, 4, 4]);
    assert_eq!(lines, vec![vec![(25, 17), (26, 18), (28, 20)]]);
}

#[test]
fn each_move_starts_a_line_and_close_path_is_ignored() {
    // MoveTo x2: (1,1) then (2,2); ClosePath; LineTo (−1, 0).
    let lines = decode_line_strings(&[17, 2, 2, 2, 2, 15, 10, 1, 0]);
    assert_eq!(lines, vec![vec![(1, 1)], vec![(2, 2), (1, 2)]]);
}

#[test]
fn unknown_command_and_truncated_pairs_stop_decoding() {
    assert_eq!(decode_line_strings(&[9, 2, 2, 3, 9, 4, 4]), vec![vec![(1, 1)]]);
    assert_eq!(decode_line_strings(&[9, 2]), Vec::<Vec<(i32, i32)>>::new());
    // A line-to before any move-to has no line to extend.
    assert_eq!(decode_line_strings(&[10, 2, 2]), Vec::<Vec<(i32, i32)>>::new());
}

#[test]
fn inflight_limit_grows_after_warmup() {
    assert_eq!(current_inflight_limit(0), 4);
    assert_eq!(current_inflight_limit(5), 4);
    assert_eq!(current_inflight_limit(6), 12);
    let key = TileKey { z: 3, x: 1, y: 2 };
    assert_eq!(key, TileKey { z: 3, x: 1, y: 2 });
}

fn zz(n: i32) -> u32 {
    ((n << 1) ^ (n >> 31)) as u32
}

#[test]
fn geometry_that_leaves_i32_does_not_fit() {
    assert!(geometry_fits(&[9, zz(3), zz(4), 18, zz(1), zz(1), zz(2), zz(2)]));
    assert!(geometry_fits(&[]));
    let far = zz(i32::MAX);
    assert!(geometry_fits(&[9, far, 0]));
    assert!(!geometry_fits(&[17, far, 0, 2, 0]));
}

#[test]
fn the_speeds_layer_gives_the_lines_of_its_line_strings() {
    let layers = vec![
        TileLayer {
            name: "water".to_string(),
            extent: 512,
            features: vec![TileFeature { geom_type: 2, geometry: vec![9, zz(1), zz(1)] }],
        },
        TileLayer {
            name: "speeds".to_string(),
            extent: 0,
            features: vec![
                TileFeature { geom_type: 1, geometry: vec![9, zz(5), zz(5)] },
                TileFeature { geom_type: 2, geometry: vec![9, zz(3), zz(4), 10, zz(1), zz(1)] },
                TileFeature { geom_type: 2, geometry: vec![9, zz(-1), zz(0)] },
            ],
        },
    ];
    let (extent, lines) = speed_layer_lines(&layers);
    assert_eq!(extent, 4096);
    assert_eq!(lines, vec![vec![(3, 4), (4, 5)], vec![(-1, 0)]]);
}

#[test]
fn a_tile_without_a_speeds_layer_has_no_lines() {
    let layers = vec![TileLayer { name: "roads".to_string(), extent: 256, features: vec![] }];
    assert!(speed_layer_lines(&layers).1.is_empty());
    let layers = vec![TileLayer { name: "speeds".to_string(), extent: 256, features: vec![] }];
    assert_eq!(speed_layer_lines(&layers).0, 256);
}
