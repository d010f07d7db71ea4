use quillcad::extrude::{extrude, Solid};
use quillcad::point::{Point, Position};
use quillcad::primitive::Primitive;
use quillcad::units::TICKS_PER_UNIT;

fn at(x: i32, z: i32) -> Point {
    Point::new(x, z).unwrap()
}

fn units(ticks: i64) -> f64 {
    ticks as f64 / TICKS_PER_UNIT as f64
}

fn half_units(twice: i64) -> f64 {
    twice as f64 / (2.0 * TICKS_PER_UNIT as f64)
}

#[test]
fn line_extrudes_to_quad() {
    let line = Primitive::Line { p1: at(0, 0), p2: at(1000, 0) };
    match extrude(&line, 2000) {
        Solid::Quad { positions, normals, uvs, indices } => {
            assert_eq!(positions[0], Position { x: 0, y: 0, z: 0 });
            assert_eq!(positions[1], Position { x: 1000, y: 0, z: 0 });
            assert_eq!(positions[2], Position { x: 1000, y: 2000, z: 0 });
            assert_eq!(positions[3], Position { x: 0, y: 2000, z: 0 });
            assert_eq!(normals, [Position { x: 0, y: 1, z: 0 }; 4]);
            assert_eq!(uvs, [(0, 0), (1, 0), (1, 1), (0, 1)]);
            assert_eq!(indices, [0, 1, 2, 0, 2, 3]);
            let world: Vec<(f64, f64, f64)> =
                positions.iter().map(|p| (units(p.x), units(p.y), units(p.z))).collect();
            assert_eq!(
                world,
                vec![(0.0, 0.0, 0.0), (1.0, 0.0, 0.0), (1.0, 2.0, 0.0), (0.0, 2.0, 0.0)]
            );
        }
        other => panic!("expected a quad, got {:?}", other),
    }
}

#[test]
fn circle_extrudes_to_cylinder() {
    let circle = Primitive::Circle { center: at(2000, 3000), radius_sq: 1500 * 1500 };
    match extrude(&circle, 4000) {
        Solid::Cylinder { radius_sq, height, center_twice } => {
            assert_eq!(radius_sq, 2_250_000);
            assert_eq!(height, 4000);
            assert_eq!(center_twice, Position { x: 4000, y: 4000, z: 6000 });
            assert_eq!((radius_sq as f64).sqrt() / TICKS_PER_UNIT as f64, 1.5);
            assert_eq!(units(height), 4.0);
            assert_eq!(
                (half_units(center_twice.x), half_units(center_twice.y), half_units(center_twice.z)),
                (2.0, 2.0, 3.0)
            );
        }
        other => panic!("expected a cylinder, got {:?}", other),
    }
}

#[test]
fn rectangle_extrudes_to_box() {
    let rectangle = Primitive::Rectangle { p1: at(0, 0), p2: at(4000, 2000) };
    match extrude(&rectangle, 1000) {
        Solid::Cuboid { width, height, depth, center_twice } => {
            assert_eq!((width, height, depth), (4000, 1000, 2000));
            assert_eq!(center_twice, Position { x: 4000, y: 1000, z: 4000 - 2000 });
            assert_eq!((units(width), units(depth), units(height)), (4.0, 2.0, 1.0));
            assert_eq!(
                (half_units(center_twice.x), half_units(center_twice.y), half_units(center_twice.z)),
                (2.0, 0.5, 1.0)
            );
        }
        other => panic!("expected a box, got {:?}", other),
    }
}

#[test]
fn rectangle_corners_in_any_order_give_the_same_box() {
    let forward = extrude(&Primitive::Rectangle { p1: at(-1000, 500), p2: at(3000, -2500) }, 700);
    let backward = extrude(&Primitive::Rectangle { p1: at(3000, -2500), p2: at(-1000, 500) }, 700);
    assert_eq!(forward, backward);
    assert_eq!(
        forward,
        Solid::Cuboid {
            width: 4000,
            height: 700,
            depth: 3000,
            center_twice: Position { x: 2000, y: 700, z: -2000 },
        }
    );
}

#[test]
fn negative_distance_extrudes_downwards() {
    let line = Primitive::Line { p1: at(10, 20), p2: at(30, 40) };
    match extrude(&line, -500) {
        Solid::Quad { positions, .. } => {
            assert_eq!(positions[2], Position { x: 30, y: -500, z: 40 });
            assert_eq!(positions[3], Position { x: 10, y: -500, z: 20 });
        }
        other => panic!("expected a quad, got {:?}", other),
    }
    let circle = Primitive::Circle { center: at(1, 2), radius_sq: 9 };
    assert_eq!(
        extrude(&circle, -3),
        Solid::Cylinder { radius_sq: 9, height: -3, center_twice: Position { x: 2, y: -3, z: 4 } }
    );
}

#[test]
fn odd_distance_keeps_the_exact_centre() {
    let circle = Primitive::Circle { center: at(0, 0), radius_sq: 1 };
    match extrude(&circle, 7) {
        Solid::Cylinder { center_twice, .. } => assert_eq!(center_twice.y, 7),
        other => panic!("expected a cylinder, got {:?}", other),
    }
}

#[test]
fn degenerate_shapes_give_degenerate_solids() {
    let p = at(5, 5);
    match extrude(&Primitive::Line { p1: p, p2: p }, 0) {
        Solid::Quad { positions, .. } => {
            assert_eq!(positions, [Position { x: 5, y: 0, z: 5 }; 4]);
        }
        other => panic!("expected a quad, got {:?}", other),
    }
    assert_eq!(
        extrude(&Primitive::Circle { center: p, radius_sq: 0 }, 10),
        Solid::Cylinder { radius_sq: 0, height: 10, center_twice: Position { x: 10, y: 10, z: 10 } }
    );
    assert_eq!(
        extrude(&Primitive::Rectangle { p1: p, p2: p }, 10),
        Solid::Cuboid { width: 0, height: 10, depth: 0, center_twice: Position { x: 10, y: 10, z: 10 } }
    );
}

#[test]
fn extreme_values_do_not_overflow() {
    let far = at(0x2000_0000, -0x2000_0000);
    let near = at(-0x2000_0000, 0x2000_0000);
    assert_eq!(
        extrude(&Primitive::Rectangle { p1: far, p2: near }, i32::MIN),
        Solid::Cuboid {
            width: 0x4000_0000,
            height: i32::MIN as i64,
            depth: 0x4000_0000,
            center_twice: Position { x: 0, y: i32::MIN as i64, z: 0 },
        }
    );
    assert_eq!(
        extrude(&Primitive::Circle { center: far, radius_sq: u64::MAX }, i32::MAX),
        Solid::Cylinder {
            radius_sq: u64::MAX,
            height: i32::MAX as i64,
            center_twice: Position { x: 0x4000_0000, y: i32::MAX as i64, z: -0x4000_0000 },
        }
    );
}
