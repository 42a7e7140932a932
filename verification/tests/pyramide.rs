use opencloudtiles::{TileBBox, TileBBoxPyramide, TileCoord3};

fn single_level_pyramide() -> TileBBoxPyramide {
    let mut p = TileBBoxPyramide::new_empty();
    p.set_level_bbox(5, TileBBox::new(5, 0, 0, 1, 1));
    p
}

#[test]
fn full_pyramide_covers_every_level() {
    let p = TileBBoxPyramide::new_full();
    for z in 0..32u64 {
        let b = p.get_level_bbox(z);
        let max_index = (1u64 << z) - 1;
        assert!(!b.is_empty());
        assert!(b.contains(0, 0));
        assert!(b.contains(max_index, max_index));
        assert!(b.contains(0, max_index));
        assert!(!b.contains(max_index + 1, 0));
        assert!(!b.contains(0, max_index + 1));
    }
}

#[test]
fn empty_pyramide_covers_nothing() {
    let p = TileBBoxPyramide::new_empty();
    for z in 0..32u64 {
        let b = p.get_level_bbox(z);
        assert!(b.is_empty());
        assert!(!b.contains(0, 0));
    }
    assert_eq!(p.count_tiles(), 0);
    assert_eq!(p.get_max_zoom(), 0);
}

#[test]
fn zoom_clamps_leave_exactly_the_window() {
    let mut p = TileBBoxPyramide::new_full();
    p.set_zoom_min(5);
    p.set_zoom_max(9);
    for z in 0..32u64 {
        let b = p.get_level_bbox(z);
        if (5..=9).contains(&z) {
            assert!(!b.is_empty(), "level {z} should stay populated");
        } else {
            assert!(b.is_empty(), "level {z} should be emptied");
        }
    }
    assert_eq!(p.get_max_zoom(), 9);
}

#[test]
fn zoom_min_beyond_depth_empties_everything() {
    let mut p = TileBBoxPyramide::new_full();
    p.set_zoom_min(40);
    for z in 0..32u64 {
        assert!(p.get_level_bbox(z).is_empty());
    }
    assert_eq!(p.count_tiles(), 0);
}

#[test]
fn inverted_zoom_window_is_empty_not_an_error() {
    let mut p = TileBBoxPyramide::new_full();
    p.set_zoom_min(5);
    p.set_zoom_max(3);
    for z in 0..32u64 {
        assert!(p.get_level_bbox(z).is_empty());
    }
    assert_eq!(p.count_tiles(), 0);
}

#[test]
fn intersect_with_itself_is_identity() {
    let mut a = TileBBoxPyramide::new_full();
    a.set_zoom_min(2);
    a.set_zoom_max(12);
    a.set_level_bbox(4, TileBBox::new(4, 1, 2, 9, 11));
    let copy = a.clone();
    a.intersect(&copy);
    assert_eq!(a, copy);
}

#[test]
fn intersect_is_commutative_per_level() {
    let mut a = TileBBoxPyramide::new_full();
    a.set_zoom_max(10);
    a.set_level_bbox(3, TileBBox::new(3, 1, 1, 5, 6));
    let mut b = TileBBoxPyramide::new_full();
    b.set_zoom_min(2);
    b.set_level_bbox(3, TileBBox::new(3, 4, 0, 7, 2));
    let mut ab = a.clone();
    ab.intersect(&b);
    let mut ba = b.clone();
    ba.intersect(&a);
    for z in 0..32u64 {
        assert_eq!(ab.get_level_bbox(z), ba.get_level_bbox(z), "level {z}");
    }
}

#[test]
fn intersect_is_associative_per_level() {
    let mut a = TileBBoxPyramide::new_full();
    a.set_level_bbox(6, TileBBox::new(6, 0, 0, 40, 40));
    let mut b = TileBBoxPyramide::new_full();
    b.set_level_bbox(6, TileBBox::new(6, 10, 5, 60, 35));
    b.set_zoom_max(20);
    let mut c = TileBBoxPyramide::new_full();
    c.set_level_bbox(6, TileBBox::new(6, 20, 20, 63, 63));
    c.set_zoom_min(4);
    let mut ab_c = a.clone();
    ab_c.intersect(&b);
    ab_c.intersect(&c);
    let mut bc = b.clone();
    bc.intersect(&c);
    let mut a_bc = a.clone();
    a_bc.intersect(&bc);
    for z in 0..32u64 {
        assert_eq!(ab_c.get_level_bbox(z), a_bc.get_level_bbox(z), "level {z}");
    }
}

#[test]
fn degenerate_overlap_is_empty() {
    let mut a = TileBBoxPyramide::new_empty();
    a.set_level_bbox(4, TileBBox::new(4, 0, 0, 3, 3));
    let mut b = TileBBoxPyramide::new_empty();
    b.set_level_bbox(4, TileBBox::new(4, 8, 8, 12, 12));
    a.intersect(&b);
    assert!(a.get_level_bbox(4).is_empty());
    assert_eq!(a.count_tiles(), 0);
}

#[test]
fn include_coord_is_monotonic() {
    let mut p = TileBBoxPyramide::new_empty();
    p.include_coord(&TileCoord3 { x: 3, y: 4, z: 7 });
    assert!(p.get_level_bbox(7).contains(3, 4));
    assert_eq!(p.count_tiles(), 1);
    p.include_coord(&TileCoord3 { x: 10, y: 1, z: 7 });
    assert!(p.get_level_bbox(7).contains(3, 4), "previous coordinate stays contained");
    assert!(p.get_level_bbox(7).contains(10, 1));
    p.include_coord(&TileCoord3 { x: 0, y: 0, z: 2 });
    assert!(p.get_level_bbox(7).contains(3, 4));
    assert!(p.get_level_bbox(2).contains(0, 0));
}

#[test]
fn include_bbox_unions_and_ignores_empty() {
    let mut p = TileBBoxPyramide::new_empty();
    p.set_level_bbox(6, TileBBox::new(6, 2, 2, 4, 4));
    p.include_bbox(6, &TileBBox::new(6, 10, 0, 12, 1));
    let b = *p.get_level_bbox(6);
    assert!(b.contains(2, 2) && b.contains(12, 1) && b.contains(4, 4));
    assert_eq!((b.x_min, b.x_max, b.y_min, b.y_max), (2, 12, 0, 4));
    let before = p.clone();
    p.include_bbox(6, &TileBBox::new_empty(6));
    assert_eq!(p, before, "a union with an empty operand changes nothing");
}

#[test]
fn count_tiles_on_single_level_two_by_two_box_is_four() {
    let p = single_level_pyramide();
    assert_eq!(p.count_tiles(), 4);
}

#[test]
fn count_tiles_totals() {
    let mut p = TileBBoxPyramide::new_empty();
    p.set_level_bbox(3, TileBBox::new(3, 0, 0, 7, 7));
    p.set_level_bbox(4, TileBBox::new(4, 1, 1, 2, 3));
    assert_eq!(p.count_tiles(), 64 + 6);
    let full = TileBBoxPyramide::new_full();
    // sum of 4^z for z in 0..32
    assert_eq!(full.count_tiles(), 6148914691236517205);
}

#[test]
fn iter_tile_indexes_on_single_level_pyramide() {
    let p = single_level_pyramide();
    let mut it = p.iter_tile_indexes();
    let mut seen = Vec::new();
    while let Some(c) = it.next() {
        seen.push(c);
    }
    assert_eq!(
        seen,
        vec![
            TileCoord3 { x: 0, y: 0, z: 5 },
            TileCoord3 { x: 0, y: 1, z: 5 },
            TileCoord3 { x: 1, y: 0, z: 5 },
            TileCoord3 { x: 1, y: 1, z: 5 },
        ]
    );
    assert!(it.next().is_none(), "the enumeration stays finished");
}

#[test]
fn iter_tile_indexes_is_restartable_and_ordered_by_level() {
    let mut p = TileBBoxPyramide::new_empty();
    p.set_level_bbox(2, TileBBox::new(2, 1, 1, 1, 1));
    p.set_level_bbox(9, TileBBox::new(9, 5, 6, 6, 6));
    let collect = |p: &TileBBoxPyramide| {
        let mut it = p.iter_tile_indexes();
        let mut seen = Vec::new();
        while let Some(c) = it.next() {
            seen.push(c);
        }
        seen
    };
    let first = collect(&p);
    let second = collect(&p);
    assert_eq!(first, second, "a fresh cursor restarts the enumeration");
    assert_eq!(
        first,
        vec![
            TileCoord3 { x: 1, y: 1, z: 2 },
            TileCoord3 { x: 5, y: 6, z: 9 },
            TileCoord3 { x: 6, y: 6, z: 9 },
        ]
    );
}

#[test]
fn iter_levels_yields_non_empty_levels_ascending() {
    let mut p = TileBBoxPyramide::new_empty();
    p.set_level_bbox(11, TileBBox::new(11, 3, 3, 4, 4));
    p.set_level_bbox(2, TileBBox::new(2, 0, 0, 1, 1));
    let levels = p.iter_levels();
    assert_eq!(levels.len(), 2);
    assert_eq!(levels[0].0, 2);
    assert_eq!(levels[0].1, TileBBox::new(2, 0, 0, 1, 1));
    assert_eq!(levels[1].0, 11);
    assert_eq!(levels[1].1, TileBBox::new(11, 3, 3, 4, 4));
    let empty = TileBBoxPyramide::new_empty();
    assert!(empty.iter_levels().is_empty());
}

#[test]
fn get_max_zoom_tracks_highest_populated_level() {
    let mut p = TileBBoxPyramide::new_empty();
    assert_eq!(p.get_max_zoom(), 0);
    p.include_coord(&TileCoord3 { x: 0, y: 0, z: 17 });
    assert_eq!(p.get_max_zoom(), 17);
    p.include_coord(&TileCoord3 { x: 1, y: 1, z: 3 });
    assert_eq!(p.get_max_zoom(), 17);
    assert_eq!(TileBBoxPyramide::new_full().get_max_zoom(), 31);
}

#[test]
fn deepest_level_full_box_count() {
    let mut p = TileBBoxPyramide::new_empty();
    p.set_level_bbox(31, TileBBox::new_full(31));
    assert_eq!(p.count_tiles(), 1u64 << 62);
}

#[test]
fn iter_tile_indexes_is_lazy_on_huge_pyramides() {
    // the full pyramid covers ~6.1e18 coordinates; only a cursor makes
    // taking the first few of them possible
    let p = TileBBoxPyramide::new_full();
    let mut it = p.iter_tile_indexes();
    let mut head = Vec::new();
    for _ in 0..6 {
        head.push(it.next().unwrap());
    }
    assert_eq!(
        head,
        vec![
            TileCoord3 { x: 0, y: 0, z: 0 },
            TileCoord3 { x: 0, y: 0, z: 1 },
            TileCoord3 { x: 0, y: 1, z: 1 },
            TileCoord3 { x: 1, y: 0, z: 1 },
            TileCoord3 { x: 1, y: 1, z: 1 },
            TileCoord3 { x: 0, y: 0, z: 2 },
        ]
    );
}
