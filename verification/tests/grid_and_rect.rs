use rogee::{Rect, TileMap};

#[test]
fn xy_idx_is_row_major() {
    let map = TileMap::new(80, 50);
    assert_eq!(map.xy_idx(0, 0), 0);
    assert_eq!(map.xy_idx(1, 0), 1);
    assert_eq!(map.xy_idx(0, 1), 80);
    assert_eq!(map.xy_idx(79, 49), 3999);
    assert_eq!(map.xy_idx(12, 7), 7 * 80 + 12);
}

#[test]
fn idx_xy_inverts_xy_idx_on_every_tile() {
    let map = TileMap::new(13, 7);
    for y in 0..7 {
        for x in 0..13 {
            let idx = map.xy_idx(x, y);
            assert!(idx < 13 * 7);
            assert_eq!(map.idx_xy(idx), (x, y));
        }
    }
    for idx in 0..(13 * 7) {
        let (x, y) = map.idx_xy(idx);
        assert!(map.in_bounds(x, y));
        assert_eq!(map.xy_idx(x, y), idx);
    }
}

#[test]
fn xy_idx_is_injective() {
    let map = TileMap::new(9, 5);
    let mut seen = vec![false; 45];
    for y in 0..5 {
        for x in 0..9 {
            let idx = map.xy_idx(x, y);
            assert!(!seen[idx]);
            seen[idx] = true;
        }
    }
    assert!(seen.iter().all(|s| *s));
}

#[test]
fn in_bounds_tells_the_edges() {
    let map = TileMap::new(80, 50);
    assert!(map.in_bounds(0, 0));
    assert!(map.in_bounds(79, 49));
    assert!(!map.in_bounds(80, 0));
    assert!(!map.in_bounds(0, 50));
    assert!(!map.in_bounds(-1, 0));
    assert!(!map.in_bounds(0, -1));
}

#[test]
fn rect_new_sets_the_corners() {
    let r = Rect::new(3, 4, 6, 7);
    assert_eq!((r.x1, r.y1, r.x2, r.y2), (3, 4, 9, 11));
}

#[test]
fn rect_center_is_the_middle() {
    assert_eq!(Rect::new(0, 0, 10, 10).center(), (5, 5));
    assert_eq!(Rect::new(2, 3, 7, 6).center(), (5, 6));
    assert_eq!(Rect::new(10, 20, 6, 9).center(), (13, 24));
}

#[test]
fn rect_center_rounds_toward_zero() {
    let r = Rect { x1: -3, x2: 0, y1: -8, y2: -1 };
    assert_eq!(r.center(), (-1, -4));
    let wide = Rect { x1: i32::MAX - 1, x2: i32::MAX, y1: i32::MIN, y2: i32::MIN + 1 };
    assert_eq!(wide.center(), (i32::MAX - 1, i32::MIN + 1));
}

#[test]
fn rect_intersect_counts_borders() {
    let a = Rect::new(0, 0, 5, 5);
    let b = Rect::new(5, 5, 3, 3);
    let c = Rect::new(6, 0, 3, 3);
    let d = Rect::new(2, 2, 1, 1);
    assert!(a.intersect(&b));
    assert!(b.intersect(&a));
    assert!(!a.intersect(&c));
    assert!(!c.intersect(&a));
    assert!(a.intersect(&d));
    assert!(a.intersect(&a));
}
