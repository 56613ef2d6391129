use agent_sim::qt::QuadTree;
use agent_sim::region::{
    approx_eq, circle_intersects_circle, circle_intersects_point, circle_intersects_rectangle,
    point_intersects_circle, point_intersects_point, point_intersects_rectangle,
    rectangle_intersects_circle, rectangle_intersects_point, rectangle_intersects_rectangle,
    CircleData, PointData, RectangleData, Region,
};
use agent_sim::world::actor::ActorRef;

/// World units to fixed-point steps.
fn u(v: f64) -> i64 {
    (v * 1_000_000.0).round() as i64
}

fn point(i: usize, x: f64, y: f64) -> ActorRef {
    ActorRef { id: i, region: Region::new_point(u(x), u(y)) }
}

fn rect(i: usize, x: f64, y: f64, w: f64, h: f64) -> ActorRef {
    ActorRef { id: i, region: Region::new_rect(u(x), u(y), u(w), u(h)) }
}

fn circle(i: usize, x: f64, y: f64, r: f64) -> ActorRef {
    ActorRef { id: i, region: Region::new_circle(u(x), u(y), u(r)) }
}

#[test]
fn test_quadtree_insert() {
    let mut qt = QuadTree::new(RectangleData::new(u(0.0), u(0.0), u(10.0), u(10.0)));
    let (elem1, elem2) = (point(0, 2.0, 4.0), point(1, 3.0, 6.0));
    qt.insert(elem1);
    qt.insert(elem2);
    assert_eq!(qt.contents().len(), 2);
}

#[test]
fn test_basic_query() {
    let mut qt = QuadTree::new(RectangleData::new(u(0.0), u(0.0), u(10.0), u(10.0)));
    let elem = point(0, 5.0, 5.0);
    qt.insert(elem);
    let results = qt.query(&Region::new_circle(u(4.0), u(4.0), u(2.0)));
    println!("Basic results: {:?}", results);
    assert_eq!(results.len(), 1);
}

#[test]
fn test_intermediate_query() {
    let mut qt = QuadTree::new(RectangleData::new(u(0.0), u(0.0), u(10.0), u(10.0)));
    let p = point(0, 4.0, 5.0);
    let c = circle(1, 6.0, 4.0, 2.0);
    let r = rect(2, 4.5, 4.5, 1.0, 1.0);
    qt.insert(p);
    qt.insert(c);
    qt.insert(r);
    let results = qt.query(&Region::Rectangle(RectangleData::new(u(4.5), u(0.0), u(5.0), u(10.0))));
    println!("Intermediate results: {:?}", results);
    assert_eq!(results.len(), 2);
    for result in results.iter() {
        assert!(result.id == 1 || result.id == 2);
        assert_ne!(result.id, 0);
    }
}

#[test]
fn test_insert_to_split() {
    let mut qt = QuadTree::new(RectangleData::new(u(0.0), u(0.0), u(100.0), u(100.0)));
    let mut values = vec![];
    for i in 0..15 {
        let val = i as f64;
        values.push(point(i, 3.0 * val, 6.0 * val));
    }
    for i in 0..15 {
        qt.insert(values[i]);
    }
    // If we split then we've distributed all the elements to the children.
    assert!(qt.is_split());
    assert_eq!(qt.contents().len(), 0);
}

#[test]
fn test_advanced_query() {
    let mut qt = QuadTree::new(RectangleData::new(u(0.0), u(0.0), u(100.0), u(100.0)));
    let mut values: Vec<ActorRef> = vec![];
    values.push(point(100, 75.0, 25.0));
    values.push(point(101, 40.0, 60.0));
    for i in 0..15 {
        let val = i as f64;
        let index = i * 3;
        values.push(point(index, val * 3.0, val * 4.0));
        values.push(circle(index + 1, 100.0 - val * 3.0, 17.0, val));
        values.push(rect(index + 2, val * 2.0, val * 2.0, val * 3.0, val * 0.5));
    }
    for val in values.iter() {
        qt.insert(*val);
    }
    let results = qt.query(&Region::new_circle(u(50.0), u(50.0), u(25.0)));
    println!("Massive Results: {:?}", results);
    let mut found = false;
    for result in results {
        if result.id == 101 {
            found = true;
        }
        assert_ne!(result.id, 100);
    }
    assert!(found);
}

#[test]
fn test_approx_eq() {
    let (f1, f2) = (u(1.5), u(1.5));
    assert!(approx_eq(f1, f2));
    let f3 = u(1.51);
    assert!(!approx_eq(f1, f3));
    let f4 = u(1.50001);
    assert!(approx_eq(f1, f4));
}

#[test]
fn test_point_intersects_point() {
    let p1 = PointData::new(u(3.0), u(5.0));
    let p2 = PointData::new(u(3.000001), u(4.99999));
    assert!(point_intersects_point(&p1, &p2));
    let p3 = PointData::new(u(4.0), u(5.0));
    assert!(!point_intersects_point(&p1, &p3));
}

#[test]
fn test_point_intersects_circle() {
    let p1 = PointData::new(u(3.0), u(3.0));
    let c = CircleData::new(u(0.0), u(0.0), u(5.0));
    assert!(point_intersects_circle(&p1, &c));
    assert!(circle_intersects_point(&c, &p1));
    let p2 = PointData::new(u(4.0), u(4.0));
    assert!(!point_intersects_circle(&p2, &c));
    assert!(!circle_intersects_point(&c, &p2));
}

#[test]
fn test_point_intersects_rectangle() {
    let p1 = PointData::new(u(3.0), u(4.0));
    let r = RectangleData::new(u(2.0), u(2.0), u(4.0), u(4.0));
    assert!(point_intersects_rectangle(&p1, &r));
    assert!(rectangle_intersects_point(&r, &p1));
    let p2 = PointData::new(u(1.0), u(0.0));
    assert!(!point_intersects_rectangle(&p2, &r));
    assert!(!rectangle_intersects_point(&r, &p2));
}

#[test]
fn test_rectangle_intersects_rectangle() {
    let control = RectangleData::new(u(0.0), u(0.0), u(5.0), u(4.0));
    let overlap = RectangleData::new(u(3.0), u(3.0), u(5.0), u(4.0));
    assert!(rectangle_intersects_rectangle(&control, &overlap));
    assert!(rectangle_intersects_rectangle(&overlap, &control));
    let inside = RectangleData::new(u(1.0), u(1.0), u(3.0), u(2.0));
    assert!(rectangle_intersects_rectangle(&control, &inside));
    assert!(rectangle_intersects_rectangle(&inside, &control));
    let outside = RectangleData::new(u(-1.0), u(-2.0), u(15.0), u(18.0));
    assert!(rectangle_intersects_rectangle(&outside, &control));
    assert!(rectangle_intersects_rectangle(&control, &outside));
    let left = RectangleData::new(u(-5.0), u(0.0), u(4.0), u(3.0));
    assert!(!rectangle_intersects_rectangle(&control, &left));
    assert!(!rectangle_intersects_rectangle(&left, &control));
    let right = RectangleData::new(u(6.0), u(0.0), u(4.0), u(3.0));
    assert!(!rectangle_intersects_rectangle(&control, &right));
    assert!(!rectangle_intersects_rectangle(&right, &control));
    let above = RectangleData::new(u(0.0), u(-5.0), u(4.0), u(4.0));
    assert!(!rectangle_intersects_rectangle(&control, &above));
    assert!(!rectangle_intersects_rectangle(&above, &control));
    let below = RectangleData::new(u(0.0), u(5.0), u(100.0), u(81.38374));
    assert!(!rectangle_intersects_rectangle(&control, &below));
    assert!(!rectangle_intersects_rectangle(&below, &control));
}

#[test]
fn test_circle_intersects_circle() {
    let c1 = CircleData::new(u(3.0), u(4.0), u(5.0));
    let c2 = CircleData::new(u(-3.0), u(-4.0), u(6.0));
    assert!(circle_intersects_circle(&c1, &c2));
    let c3 = CircleData::new(u(15.0), u(15.0), u(1.0));
    assert!(!circle_intersects_circle(&c1, &c3));
}

#[test]
fn test_rectangle_intersects_circle() {
    let control = RectangleData::new(u(0.0), u(0.0), u(10.0), u(5.0));
    let overlap_corner = CircleData::new(u(-1.0), u(-1.0), u(2f64.sqrt() + 0.01));
    assert!(rectangle_intersects_circle(&control, &overlap_corner));
    assert!(circle_intersects_rectangle(&overlap_corner, &control));
    let overlap_side = CircleData::new(u(-1.0), u(2.5), u(1.01));
    assert!(rectangle_intersects_circle(&control, &overlap_side));
    assert!(circle_intersects_rectangle(&overlap_side, &control));
    let inside = CircleData::new(u(5.0), u(2.5), u(1.0));
    assert!(rectangle_intersects_circle(&control, &inside));
    assert!(circle_intersects_rectangle(&inside, &control));
    let outside = CircleData::new(u(5.0), u(2.0), u(100.0));
    assert!(rectangle_intersects_circle(&control, &outside));
    assert!(circle_intersects_rectangle(&outside, &control));
}

// ---------------------------------------------------------------------------

#[test]
fn intersection_is_symmetric_on_samples() {
    let regions = [
        Region::new_point(u(1.0), u(1.0)),
        Region::new_point(u(1.0005), u(0.9995)),
        Region::new_rect(u(0.0), u(0.0), u(2.0), u(2.0)),
        Region::new_rect(u(2.0), u(2.0), u(1.0), u(1.0)),
        Region::new_circle(u(3.0), u(3.0), u(1.5)),
        Region::new_circle(u(-2.0), u(1.0), u(0.5)),
    ];
    for a in regions.iter() {
        for b in regions.iter() {
            assert_eq!(a.intersects(b), b.intersects(a));
        }
    }
}

#[test]
fn circle_meets_point_at_exact_radius() {
    let c = Region::new_circle(u(0.0), u(0.0), u(5.0));
    assert!(c.intersects(&Region::new_point(u(3.0), u(4.0))));
    assert!(!c.intersects(&Region::new_point(u(3.0), u(4.000001))));
}

#[test]
fn points_one_thousandth_apart_do_not_meet() {
    let p = Region::new_point(u(1.0), u(1.0));
    assert!(!p.intersects(&Region::new_point(u(1.001), u(1.0))));
    assert!(p.intersects(&Region::new_point(u(1.000999), u(1.0))));
}

#[test]
fn rectangle_edges_are_inclusive() {
    let r = Region::new_rect(u(0.0), u(0.0), u(2.0), u(2.0));
    assert!(r.intersects(&Region::new_point(u(2.0), u(2.0))));
    assert!(r.intersects(&Region::new_rect(u(2.0), u(0.0), u(1.0), u(1.0))));
    assert!(r.intersects(&Region::new_circle(u(3.0), u(1.0), u(1.0))));
    assert!(!r.intersects(&Region::new_circle(u(3.0), u(3.0), u(1.0))));
}

#[test]
fn split_node_returns_every_item_over_full_bounds() {
    let bounds = RectangleData::new(u(0.0), u(0.0), u(100.0), u(100.0));
    let mut qt = QuadTree::new(bounds);
    for i in 0..11 {
        qt.insert(point(i, 10.0 + i as f64, 10.0 + i as f64));
    }
    assert!(qt.is_split());
    assert_eq!(qt.contents().len(), 0);
    let results = qt.query(&Region::Rectangle(bounds));
    for i in 0..11 {
        assert!(results.iter().any(|r| r.id == i));
    }
}

#[test]
fn ten_items_do_not_split() {
    let mut qt = QuadTree::new(RectangleData::new(u(0.0), u(0.0), u(100.0), u(100.0)));
    for i in 0..10 {
        qt.insert(point(i, 1.0 + i as f64, 1.0));
    }
    assert!(!qt.is_split());
    assert_eq!(qt.contents().len(), 10);
}

#[test]
fn straddling_item_is_found_once_per_leaf() {
    let bounds = RectangleData::new(u(0.0), u(0.0), u(100.0), u(100.0));
    let mut qt = QuadTree::new(bounds);
    for i in 0..10 {
        qt.insert(point(i, 5.0 + i as f64, 5.0));
    }
    // Straddles all four quadrants of the root.
    qt.insert(circle(99, 50.0, 50.0, 5.0));
    assert!(qt.is_split());
    let results = qt.query(&Region::Rectangle(bounds));
    assert_eq!(results.iter().filter(|r| r.id == 99).count(), 4);
}

#[test]
fn out_of_bounds_item_is_dropped() {
    let mut qt = QuadTree::new(RectangleData::new(u(0.0), u(0.0), u(10.0), u(10.0)));
    qt.insert(point(0, 20.0, 20.0));
    assert_eq!(qt.contents().len(), 0);
    assert!(qt.query(&Region::new_rect(u(-100.0), u(-100.0), u(200.0), u(200.0))).is_empty());
}

#[test]
fn query_returns_only_meeting_items() {
    let mut qt = QuadTree::new(RectangleData::new(u(0.0), u(0.0), u(100.0), u(100.0)));
    for i in 0..30 {
        qt.insert(point(i, (i * 3) as f64, (i * 3) as f64));
    }
    let region = Region::new_circle(u(30.0), u(30.0), u(5.0));
    let results = qt.query(&region);
    assert!(!results.is_empty());
    for r in results.iter() {
        assert!(r.region.intersects(&region));
    }
}
