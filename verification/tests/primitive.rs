use quillcad::point::Point;
use quillcad::primitive::{rectangle_corners, Primitive, Tool};
use quillcad::units::COORD_LIMIT;

fn at(x: i32, z: i32) -> Point {
    Point::new(x, z).unwrap()
}

#[test]
fn default_tool_is_the_line_tool() {
    assert_eq!(Tool::default(), Tool::Line);
}

#[test]
fn line_keeps_both_clicks_in_order() {
    let a = at(10, 20);
    let b = at(-30, 40);
    assert_eq!(Primitive::construct(Tool::Line, a, b), Some(Primitive::Line { p1: a, p2: b }));
    assert_eq!(Primitive::construct(Tool::Line, b, a), Some(Primitive::Line { p1: b, p2: a }));
}

#[test]
fn circle_has_the_first_click_as_centre_and_the_exact_radius() {
    let a = at(10, 20);
    let b = at(13, 24);
    assert_eq!(
        Primitive::construct(Tool::Circle, a, b),
        Some(Primitive::Circle { center: a, radius_sq: 25 })
    );
    // The radius is the root of 2: no whole number of ticks, but kept exactly.
    assert_eq!(
        Primitive::construct(Tool::Circle, a, at(11, 21)),
        Some(Primitive::Circle { center: a, radius_sq: 2 })
    );
    assert_eq!(
        Primitive::construct(Tool::Circle, at(-COORD_LIMIT, -COORD_LIMIT), at(COORD_LIMIT, COORD_LIMIT)),
        Some(Primitive::Circle { center: at(-COORD_LIMIT, -COORD_LIMIT), radius_sq: 1u64 << 61 })
    );
}

#[test]
fn rectangle_keeps_both_corners_in_order() {
    let a = at(10, 20);
    let b = at(-30, 40);
    assert_eq!(
        Primitive::construct(Tool::Rectangle, a, b),
        Some(Primitive::Rectangle { p1: a, p2: b })
    );
}

#[test]
fn selection_tool_draws_nothing() {
    assert_eq!(Primitive::construct(Tool::Select, at(0, 0), at(1, 1)), None);
}

#[test]
fn equal_clicks_give_degenerate_shapes() {
    let a = at(7, 7);
    assert_eq!(Primitive::construct(Tool::Line, a, a), Some(Primitive::Line { p1: a, p2: a }));
    assert_eq!(
        Primitive::construct(Tool::Circle, a, a),
        Some(Primitive::Circle { center: a, radius_sq: 0 })
    );
    assert_eq!(
        Primitive::construct(Tool::Rectangle, a, a),
        Some(Primitive::Rectangle { p1: a, p2: a })
    );
}

#[test]
fn shapes_answer_for_their_own_kind() {
    let line = Primitive::Line { p1: at(0, 0), p2: at(10, 0) };
    let circle = Primitive::Circle { center: at(0, 0), radius_sq: 25 };
    let rectangle = Primitive::Rectangle { p1: at(0, 0), p2: at(100, 50) };
    assert_eq!((line.kind_rank(), circle.kind_rank(), rectangle.kind_rank()), (0, 1, 2));
    assert_eq!(line.distance_sq_to(at(5, 3)), 9);
    assert_eq!(circle.distance_sq_to(at(7, 0)), 4);
    assert_eq!(rectangle.distance_sq_to(at(5000, 5000)), 0);
    assert!(line.hit_by(at(5, 3), 4));
    assert!(!line.hit_by(at(5, 3), 3));
    assert!(circle.hit_by(at(7, 0), 3));
    assert!(!circle.hit_by(at(7, 0), 2));
    assert!(rectangle.hit_by(at(50, 25), 0));
    assert!(!rectangle.hit_by(at(200, 200), 10));
}

#[test]
fn click_on_the_outline_hits_with_residual_zero() {
    let line = Primitive::Line { p1: at(0, 0), p2: at(1000, 500) };
    let midpoint = at(500, 250);
    assert!(line.hit_by(midpoint, 1));
    assert_eq!(line.distance_sq_to(midpoint), 0);
    let circle = Primitive::Circle { center: at(100, 100), radius_sq: 25 };
    for p in [at(105, 100), at(100, 95), at(103, 104), at(96, 97)] {
        assert!(circle.hit_by(p, 1));
        assert_eq!(circle.distance_sq_to(p), 0);
    }
    let rectangle = Primitive::Rectangle { p1: at(0, 0), p2: at(400, 200) };
    for p in [at(200, 0), at(200, 200), at(0, 100), at(400, 100)] {
        assert!(rectangle.hit_by(p, 1));
        assert_eq!(rectangle.distance_sq_to(p), 0);
    }
}

#[test]
fn rectangle_corners_follow_the_outline() {
    assert_eq!(
        rectangle_corners(at(1, 2), at(30, 40)),
        [at(1, 2), at(1, 40), at(30, 40), at(30, 2)]
    );
    assert_eq!(rectangle_corners(at(5, 5), at(5, 5)), [at(5, 5); 4]);
}

#[test]
fn nearer_than_compares_gaps_exactly() {
    let click = at(0, 0);
    let first = Primitive::Line { p1: at(-10, 1), p2: at(10, 2) };
    let second = Primitive::Line { p1: at(-3, 1), p2: at(3, 2) };
    assert!(second.nearer_than(&first, click));
    assert!(!first.nearer_than(&second, click));
    assert!(!first.nearer_than(&first, click));
    let p = at(1, 1);
    let wide = Primitive::Circle { center: at(0, 0), radius_sq: 1 };
    let tight = Primitive::Circle { center: at(0, -1), radius_sq: 4 };
    let line = Primitive::Line { p1: at(-1, 0), p2: at(3, 3) };
    assert!(tight.nearer_than(&wide, p));
    assert!(!wide.nearer_than(&tight, p));
    assert!(tight.nearer_than(&line, p));
    assert!(!line.nearer_than(&tight, p));
    assert!(line.nearer_than(&wide, p));
    assert!(!wide.nearer_than(&line, p));
}

#[test]
fn equal_gaps_are_neither_nearer() {
    // Both are exactly 3 ticks from the click.
    let click = at(103, 0);
    let circle = Primitive::Circle { center: at(0, 0), radius_sq: 10_000 };
    let line = Primitive::Line { p1: at(103, 3), p2: at(203, 3) };
    assert!(!circle.nearer_than(&line, click));
    assert!(!line.nearer_than(&circle, click));
    let same = Primitive::Circle { center: at(206, 0), radius_sq: 10_000 };
    assert!(!circle.nearer_than(&same, click));
    assert!(!same.nearer_than(&circle, click));
}

#[test]
fn rectangle_is_never_farther_than_anything() {
    let rectangle = Primitive::Rectangle { p1: at(0, 0), p2: at(10, 10) };
    let line = Primitive::Line { p1: at(0, 0), p2: at(3, 4) };
    let circle = Primitive::Circle { center: at(0, 0), radius_sq: 2 };
    assert!(rectangle.nearer_than(&line, at(1, 2)));
    assert!(!line.nearer_than(&rectangle, at(1, 2)));
    assert!(rectangle.nearer_than(&circle, at(1, 2)));
    assert!(!circle.nearer_than(&rectangle, at(1, 2)));
    // On the line and on the circle nothing is nearer than the other.
    assert!(!rectangle.nearer_than(&line, at(3, 4)));
    assert!(!line.nearer_than(&rectangle, at(3, 4)));
    assert!(!rectangle.nearer_than(&circle, at(1, 1)));
    assert!(!circle.nearer_than(&rectangle, at(1, 1)));
    assert!(!rectangle.nearer_than(&rectangle, at(500, 500)));
}

#[test]
fn touched_at_is_exact() {
    let line = Primitive::Line { p1: at(0, 0), p2: at(3, 4) };
    assert!(line.touched_at(at(0, 0)));
    assert!(line.touched_at(at(3, 4)));
    assert!(!line.touched_at(at(1, 1)));
    assert!(!line.touched_at(at(6, 8)));
    let circle = Primitive::Circle { center: at(0, 0), radius_sq: 25 };
    assert!(circle.touched_at(at(3, 4)));
    assert!(!circle.touched_at(at(3, 5)));
    assert!(!circle.touched_at(at(0, 0)));
    let rectangle = Primitive::Rectangle { p1: at(0, 0), p2: at(10, 10) };
    assert!(rectangle.touched_at(at(500, 500)));
}
