use quillcad::extrude::Solid;
use quillcad::point::{Point, Position};
use quillcad::primitive::Primitive;
use quillcad::store::{Entry, SketchStore};

fn at(x: i32, z: i32) -> Point {
    Point::new(x, z).unwrap()
}

fn line(x1: i32, z1: i32, x2: i32, z2: i32) -> Primitive {
    Primitive::Line { p1: at(x1, z1), p2: at(x2, z2) }
}

fn entries(store: &SketchStore) -> Vec<Entry> {
    (0..store.len()).map(|i| store.entry(i).unwrap()).collect()
}

#[test]
fn new_store_is_empty() {
    let store = SketchStore::new();
    assert_eq!(store.len(), 0);
    assert_eq!(store.selected(), None);
    assert_eq!(store.entry(0), None);
    assert!(!store.is_selected(0));
    assert_eq!(store.hit_test(at(0, 0), 100), None);
}

#[test]
fn commit_appends_in_order_of_creation() {
    let mut store = SketchStore::new();
    let a = line(0, 0, 10, 0);
    let b = Primitive::Circle { center: at(0, 0), radius_sq: 4 };
    assert_eq!(store.commit(a), 0);
    assert_eq!(store.commit(b), 1);
    assert_eq!(store.commit(a), 2);
    assert_eq!(store.len(), 3);
    assert_eq!(store.entry(0), Some(Entry { primitive: a, retired: false }));
    assert_eq!(store.entry(1), Some(Entry { primitive: b, retired: false }));
    assert_eq!(store.entry(2), Some(Entry { primitive: a, retired: false }));
    assert_eq!(store.entry(3), None);
    assert_eq!(store.selected(), None);
}

#[test]
fn commit_keeps_the_selection() {
    let mut store = SketchStore::new();
    store.commit(line(0, 0, 1000, 0));
    assert_eq!(store.select_at(at(500, 0), 100), Some(0));
    store.commit(line(0, 5000, 1000, 5000));
    assert_eq!(store.selected(), Some(0));
    assert!(store.is_selected(0));
    assert!(!store.is_selected(1));
}

#[test]
fn click_near_a_shape_selects_it() {
    let mut store = SketchStore::new();
    store.commit(line(0, 0, 1000, 0));
    assert_eq!(store.hit_test(at(500, 50), 100), Some(0));
    assert_eq!(store.selected(), None);
    assert_eq!(store.select_at(at(500, 50), 100), Some(0));
    assert_eq!(store.selected(), Some(0));
    assert!(store.is_selected(0));
}

#[test]
fn click_far_from_every_shape_clears_the_selection() {
    let mut store = SketchStore::new();
    store.commit(line(0, 0, 1000, 0));
    store.commit(Primitive::Circle { center: at(5000, 5000), radius_sq: 1_000_000 });
    assert_eq!(store.select_at(at(500, 0), 100), Some(0));
    assert_eq!(store.select_at(at(500, 150), 100), None);
    assert_eq!(store.selected(), None);
    assert!(!store.is_selected(0));
    // Exactly at the tolerance is not within it.
    assert_eq!(store.select_at(at(500, 100), 100), None);
    assert_eq!(store.select_at(at(500, 99), 100), Some(0));
    // The centre of the circle is a radius away from the circumference.
    assert_eq!(store.select_at(at(5000, 5000), 100), None);
}

#[test]
fn the_nearest_shape_wins() {
    let mut store = SketchStore::new();
    store.commit(line(0, 0, 1000, 0));
    store.commit(line(0, 80, 1000, 80));
    assert_eq!(store.hit_test(at(500, 50), 100), Some(1));
    assert_eq!(store.hit_test(at(500, 30), 100), Some(0));
    assert_eq!(store.hit_test(at(500, -10), 100), Some(0));
}

#[test]
fn of_two_equally_near_shapes_of_one_kind_the_older_wins() {
    let mut store = SketchStore::new();
    store.commit(line(0, 0, 1000, 0));
    store.commit(line(0, 80, 1000, 80));
    store.commit(line(0, 0, 1000, 0));
    assert_eq!(store.hit_test(at(500, 40), 100), Some(0));
    assert_eq!(store.hit_test(at(500, 0), 100), Some(0));
}

#[test]
fn of_a_line_and_a_circle_equally_near_the_line_wins() {
    let mut store = SketchStore::new();
    // Older circle of radius 100 about the origin; the click at (103, 0) is 3 away.
    store.commit(Primitive::Circle { center: at(0, 0), radius_sq: 10_000 });
    // Younger line that starts 3 from the click.
    store.commit(line(103, 3, 203, 3));
    let click = at(103, 0);
    assert_eq!(store.entry(0).unwrap().primitive.distance_sq_to(click), 9);
    assert_eq!(store.entry(1).unwrap().primitive.distance_sq_to(click), 9);
    assert_eq!(store.hit_test(click, 100), Some(1));
    // One tick nearer to the circle, the circle wins.
    assert_eq!(store.hit_test(at(102, 0), 100), Some(0));
}

#[test]
fn rectangle_wins_against_a_nearer_line_that_is_not_touched() {
    let mut store = SketchStore::new();
    store.commit(line(0, 500, 1000, 500));
    store.commit(Primitive::Rectangle { p1: at(0, 0), p2: at(1000, 1000) });
    // Three ticks from the line, deep inside the rectangle.
    assert_eq!(store.hit_test(at(500, 503), 100), Some(1));
    // On the line itself the line wins.
    assert_eq!(store.hit_test(at(500, 500), 100), Some(0));
}

#[test]
fn rectangle_wins_against_a_line_less_than_a_tick_away() {
    let mut store = SketchStore::new();
    store.commit(line(0, 0, 3, 4));
    store.commit(Primitive::Rectangle { p1: at(0, 0), p2: at(10, 10) });
    // (1, 1) is a fifth of a tick from the line: near, but not on it.
    assert_eq!(store.hit_test(at(1, 1), 100), Some(1));
    assert_eq!(store.hit_test(at(0, 0), 100), Some(0));
}

#[test]
fn rectangle_loses_against_a_circle_that_is_touched() {
    let mut store = SketchStore::new();
    store.commit(Primitive::Rectangle { p1: at(0, 0), p2: at(1000, 1000) });
    store.commit(Primitive::Circle { center: at(500, 500), radius_sq: 10_000 });
    assert_eq!(store.hit_test(at(600, 500), 100), Some(1));
    assert_eq!(store.hit_test(at(601, 500), 100), Some(0));
}

#[test]
fn of_two_rectangles_the_older_wins() {
    let mut store = SketchStore::new();
    store.commit(Primitive::Rectangle { p1: at(0, 0), p2: at(1000, 1000) });
    store.commit(Primitive::Rectangle { p1: at(400, 400), p2: at(600, 600) });
    assert_eq!(store.hit_test(at(500, 500), 100), Some(0));
}

#[test]
fn rectangle_is_selected_with_tolerance_zero_from_inside() {
    let mut store = SketchStore::new();
    store.commit(line(0, 500, 1000, 500));
    store.commit(Primitive::Rectangle { p1: at(0, 0), p2: at(1000, 1000) });
    assert_eq!(store.hit_test(at(500, 500), 0), Some(1));
    assert_eq!(store.hit_test(at(2000, 2000), 0), None);
}

#[test]
fn selecting_another_shape_moves_the_selection() {
    let mut store = SketchStore::new();
    store.commit(line(0, 0, 1000, 0));
    store.commit(Primitive::Circle { center: at(5000, 5000), radius_sq: 1_000_000 });
    assert_eq!(store.select_at(at(500, 0), 100), Some(0));
    assert_eq!(store.select_at(at(6000, 5000), 100), Some(1));
    assert_eq!(store.selected(), Some(1));
    assert!(store.is_selected(1));
    assert!(!store.is_selected(0));
    let before = entries(&store);
    assert_eq!(store.select_at(at(500, 0), 100), Some(0));
    assert_eq!(entries(&store), before);
}

#[test]
fn extrusion_retires_the_selected_shape() {
    let mut store = SketchStore::new();
    let shape = line(0, 0, 1000, 0);
    store.commit(line(0, 5000, 1000, 5000));
    store.commit(shape);
    store.select_at(at(500, 0), 100);
    let solid = store.extrude_selected(2000);
    match solid {
        Some(Solid::Quad { positions, .. }) => {
            assert_eq!(positions[2], Position { x: 1000, y: 2000, z: 0 });
        }
        other => panic!("expected a quad, got {:?}", other),
    }
    assert_eq!(store.len(), 2);
    assert_eq!(store.entry(1), Some(Entry { primitive: shape, retired: true }));
    assert_eq!(store.entry(0).unwrap().retired, false);
    assert_eq!(store.selected(), Some(1));
}

#[test]
fn retired_shape_is_not_extruded_again() {
    let mut store = SketchStore::new();
    store.commit(line(0, 0, 1000, 0));
    store.select_at(at(500, 0), 100);
    assert!(store.extrude_selected(2000).is_some());
    let before = entries(&store);
    assert_eq!(store.extrude_selected(2000), None);
    assert_eq!(entries(&store), before);
}

#[test]
fn retired_shape_is_not_selected_again() {
    let mut store = SketchStore::new();
    store.commit(line(0, 0, 1000, 0));
    store.commit(line(0, 60, 1000, 60));
    store.select_at(at(500, 0), 100);
    assert!(store.extrude_selected(2000).is_some());
    assert_eq!(store.hit_test(at(500, 0), 100), Some(1));
    assert_eq!(store.select_at(at(500, -50), 100), None);
    assert_eq!(store.selected(), None);
}

#[test]
fn extrusion_without_selection_does_nothing() {
    let mut store = SketchStore::new();
    assert_eq!(store.extrude_selected(1000), None);
    store.commit(line(0, 0, 1000, 0));
    let before = entries(&store);
    assert_eq!(store.extrude_selected(1000), None);
    assert_eq!(entries(&store), before);
    assert_eq!(store.selected(), None);
}

#[test]
fn clear_empties_the_store() {
    let mut store = SketchStore::new();
    store.commit(line(0, 0, 1000, 0));
    store.select_at(at(500, 0), 100);
    store.clear();
    assert_eq!(store.len(), 0);
    assert_eq!(store.selected(), None);
    assert_eq!(store.hit_test(at(500, 0), 100), None);
    assert_eq!(store.commit(line(0, 0, 1, 1)), 0);
}

#[test]
fn click_on_the_boundary_selects_the_shape() {
    let mut store = SketchStore::new();
    store.commit(line(0, 0, 1000, 500));
    store.commit(Primitive::Circle { center: at(5000, 5000), radius_sq: 250_000 });
    store.commit(Primitive::Rectangle { p1: at(20_000, 20_000), p2: at(24_000, 22_000) });
    // The midpoint of the segment.
    assert_eq!(store.select_at(at(500, 250), 1), Some(0));
    // Points of the circumference: radius 500, and 300-400-500.
    assert_eq!(store.select_at(at(5500, 5000), 1), Some(1));
    assert_eq!(store.select_at(at(5300, 4600), 1), Some(1));
    // The midpoints of the four sides of the rectangle.
    for p in [at(22_000, 20_000), at(22_000, 22_000), at(20_000, 21_000), at(24_000, 21_000)] {
        assert_eq!(store.select_at(p, 1), Some(2));
    }
    assert_eq!(store.select_at(at(500, 250), 100), Some(0));
    assert_eq!(store.select_at(at(10_000, 10_000), 100), None);
}

#[test]
fn click_on_two_outlines_selects_the_one_that_comes_first() {
    let mut store = SketchStore::new();
    store.commit(Primitive::Circle { center: at(0, 0), radius_sq: 10_000 });
    store.commit(line(0, 0, 1000, 0));
    store.commit(line(0, 0, 1000, 0));
    // (100, 0) lies on the circle and on both lines: the older line wins.
    assert_eq!(store.select_at(at(100, 0), 100), Some(1));
}

#[test]
fn of_two_lines_with_gaps_that_round_alike_the_nearer_wins() {
    let mut store = SketchStore::new();
    // The click at the origin is 900/401 (about 2.24) from the first line
    // and 81/37 (about 2.19) from the second, squared.
    store.commit(line(-10, 1, 10, 2));
    store.commit(line(-3, 1, 3, 2));
    let click = at(0, 0);
    assert_eq!(store.entry(0).unwrap().primitive.distance_sq_to(click), 3);
    assert_eq!(store.entry(1).unwrap().primitive.distance_sq_to(click), 3);
    assert_eq!(store.hit_test(click, 2), Some(1));
    assert_eq!(store.select_at(click, 100), Some(1));
    assert!(store.wins(1, click, 100));
    assert!(!store.wins(0, click, 100));
}

#[test]
fn of_two_circles_with_gaps_that_round_alike_the_nearer_wins() {
    let mut store = SketchStore::new();
    let click = at(1, 1);
    // (root 2 - 1) squared is about 0.17; (root 5 - 2) squared is about 0.06.
    store.commit(Primitive::Circle { center: at(0, 0), radius_sq: 1 });
    store.commit(Primitive::Circle { center: at(0, -1), radius_sq: 4 });
    assert_eq!(store.entry(0).unwrap().primitive.distance_sq_to(click), 1);
    assert_eq!(store.entry(1).unwrap().primitive.distance_sq_to(click), 1);
    assert_eq!(store.hit_test(click, 1), Some(1));
    let mut other = SketchStore::new();
    other.commit(Primitive::Circle { center: at(0, -1), radius_sq: 4 });
    other.commit(Primitive::Circle { center: at(0, 0), radius_sq: 1 });
    assert_eq!(other.hit_test(click, 1), Some(0));
}

#[test]
fn a_nearer_circle_wins_against_a_line_although_lines_come_first() {
    let mut store = SketchStore::new();
    let click = at(1, 1);
    // The line is 4/25 = 0.16 away, squared; the circle about 0.06.
    store.commit(line(-1, 0, 3, 3));
    store.commit(Primitive::Circle { center: at(0, -1), radius_sq: 4 });
    assert_eq!(store.hit_test(click, 1), Some(1));
}

#[test]
fn a_nearer_line_wins_against_an_older_circle() {
    let mut store = SketchStore::new();
    let click = at(1, 1);
    // The circle is about 0.17 away, squared; the line 4/25 = 0.16.
    store.commit(Primitive::Circle { center: at(0, 0), radius_sq: 1 });
    store.commit(line(-1, 0, 3, 3));
    assert_eq!(store.hit_test(click, 1), Some(1));
    // A line at 1/25 = 0.04 wins against both.
    store.commit(line(0, 0, 3, 4));
    assert_eq!(store.hit_test(click, 1), Some(2));
}

#[test]
fn wins_tells_the_winner_from_the_rest() {
    let mut store = SketchStore::new();
    store.commit(line(0, 0, 1000, 0));
    store.commit(line(0, 80, 1000, 80));
    store.commit(Primitive::Rectangle { p1: at(5000, 5000), p2: at(6000, 6000) });
    let click = at(500, 50);
    assert!(!store.wins(0, click, 100));
    assert!(store.wins(1, click, 100));
    assert!(!store.wins(2, click, 100));
    assert!(!store.wins(3, click, 100));
    assert!(!store.wins(usize::MAX, click, 100));
    assert!(!store.wins(1, at(500, 500), 100));
    for i in 0..3 {
        assert_eq!(store.wins(i, click, 100), store.hit_test(click, 100) == Some(i));
    }
}

#[test]
fn gaps_at_the_limits_are_compared_without_overflow() {
    let limit = 0x2000_0000;
    let mut store = SketchStore::new();
    store.commit(line(-limit, -limit, limit, limit));
    store.commit(line(-limit, -limit, limit, limit - 1));
    store.commit(Primitive::Circle { center: at(limit, limit), radius_sq: u64::MAX });
    store.commit(Primitive::Circle { center: at(-limit, limit), radius_sq: 1u64 << 61 });
    store.commit(Primitive::Circle { center: at(limit, -limit), radius_sq: (1u64 << 61) + 1 });
    // The far corner lies on the first line.
    assert_eq!(store.hit_test(at(limit, limit), u32::MAX), Some(0));
    // The near corner is where the first two lines start.
    assert_eq!(store.hit_test(at(-limit, -limit), u32::MAX), Some(0));
    let p = at(-limit, limit);
    let found = store.hit_test(p, u32::MAX).unwrap();
    for j in 0..store.len() {
        let winner = store.entry(found).unwrap().primitive;
        let other = store.entry(j).unwrap().primitive;
        assert!(!other.nearer_than(&winner, p));
    }
}
