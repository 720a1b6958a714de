use world_gen::height_map::HeightMap;

#[test]
fn new_map_holds_fill_everywhere() {
    let map = HeightMap::filled(4, 2, 0.5f32);
    assert_eq!(map.get_size(), 4);
    assert_eq!(map.get_resolution(), 2);
    for y in 0..4 {
        for x in 0..4 {
            assert_eq!(map.get(&[x, y]), 0.5);
        }
    }
}

#[test]
fn get_after_set_returns_the_height() {
    let mut map = HeightMap::filled(4, 1, 0.0f32);
    map.set(&[1, 2], 3.25);
    assert_eq!(map.get(&[1, 2]), 3.25);
    map.set(&[3, 3], -7.5);
    assert_eq!(map.get(&[3, 3]), -7.5);
    assert_eq!(map.get(&[1, 2]), 3.25);
}

#[test]
fn set_leaves_other_cells_alone() {
    let mut map = HeightMap::filled(3, 1, 1.0f64);
    map.set(&[2, 0], 9.0);
    for y in 0..3 {
        for x in 0..3 {
            let expected = if x == 2 && y == 0 { 9.0 } else { 1.0 };
            assert_eq!(map.get(&[x, y]), expected);
        }
    }
    // the row-major neighbour of (2, 0) is (0, 1), which must be untouched
    assert_eq!(map.get(&[0, 1]), 1.0);
}

#[test]
fn new_map_holds_the_default_height() {
    let map: HeightMap<f32> = HeightMap::new(3, 2);
    assert_eq!(map.get_size(), 3);
    assert_eq!(map.get_resolution(), 2);
    for y in 0..3 {
        for x in 0..3 {
            assert_eq!(map.get(&[x, y]), 0.0);
        }
    }
}

#[test]
fn a_map_of_one_cell() {
    let mut map = HeightMap::filled(1, 64, 2.5f64);
    assert_eq!(map.get(&[0, 0]), 2.5);
    map.set(&[0, 0], -1.0);
    assert_eq!(map.get(&[0, 0]), -1.0);
}
