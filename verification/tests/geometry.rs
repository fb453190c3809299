use shooter_core::geom::Aabb;

#[test]
fn intersects_is_symmetric_on_samples() {
    let pairs = [
        (Aabb { x: 0, y: 0, half_w: 10, half_h: 10 }, Aabb { x: 5, y: 5, half_w: 10, half_h: 10 }),
        (Aabb { x: 0, y: 0, half_w: 1, half_h: 1 }, Aabb { x: 100, y: 0, half_w: 1, half_h: 1 }),
        (Aabb { x: -7, y: 3, half_w: 2, half_h: 9 }, Aabb { x: -7, y: -8, half_w: 4, half_h: 2 }),
        (Aabb { x: 0, y: 0, half_w: 0, half_h: 0 }, Aabb { x: 0, y: 0, half_w: 0, half_h: 0 }),
    ];
    for (a, b) in pairs {
        assert_eq!(a.intersects(&b), b.intersects(&a));
    }
}

#[test]
fn separated_boxes_never_intersect() {
    // separated by more than the sum of half-extents on the x axis
    let a = Aabb { x: 0, y: 0, half_w: 10, half_h: 50 };
    let b = Aabb { x: 21, y: 0, half_w: 10, half_h: 50 };
    assert!(!a.intersects(&b));
    assert!(!b.intersects(&a));
    // and on the y axis
    let c = Aabb { x: 0, y: 0, half_w: 50, half_h: 5 };
    let d = Aabb { x: 0, y: -11, half_w: 50, half_h: 5 };
    assert!(!c.intersects(&d));
}

#[test]
fn touching_edges_count_as_overlap() {
    let a = Aabb { x: 0, y: 0, half_w: 10, half_h: 10 };
    let b = Aabb { x: 20, y: 0, half_w: 10, half_h: 10 };
    assert!(a.intersects(&b));
}

#[test]
fn coincident_centers_overlap_whatever_the_extents() {
    // the box pair of the laser-meets-enemy scenario
    let laser = Aabb { x: 10, y: 50, half_w: 2, half_h: 10 };
    let enemy = Aabb { x: 10, y: 50, half_w: 20, half_h: 20 };
    assert!(laser.intersects(&enemy));
    assert!(enemy.intersects(&laser));
}
