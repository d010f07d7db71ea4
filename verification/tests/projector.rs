use quillcad::point::{Point, Position, Ray};
use quillcad::projector::screen_to_world;
use quillcad::units::COORD_LIMIT;

fn at(x: i32, z: i32) -> Point {
    Point::new(x, z).unwrap()
}

fn ray(origin: (i64, i64, i64), direction: (i64, i64, i64)) -> Ray {
    Ray {
        origin: Position { x: origin.0, y: origin.1, z: origin.2 },
        direction: Position { x: direction.0, y: direction.1, z: direction.2 },
    }
}

#[test]
fn ray_straight_down_lands_under_its_origin() {
    assert_eq!(ray((300, 10_000, -700), (0, -1, 0)).intersect_plane(), Some(at(300, -700)));
    assert_eq!(ray((300, 10_000, -700), (0, -5, 0)).intersect_plane(), Some(at(300, -700)));
}

#[test]
fn slanted_ray_lands_where_it_meets_the_plane() {
    // Comes down 10 at 2 per step: 5 steps of (1, -3) along x and z.
    assert_eq!(ray((0, 10, 0), (1, -2, -3)).intersect_plane(), Some(at(5, -15)));
    assert_eq!(ray((100, 10, 200), (1, -2, -3)).intersect_plane(), Some(at(105, 185)));
}

#[test]
fn ray_from_below_lands_too() {
    assert_eq!(ray((0, -10, 0), (1, 2, 0)).intersect_plane(), Some(at(5, 0)));
    assert_eq!(ray((7, -4, 9), (-3, 1, 2)).intersect_plane(), Some(at(7 - 12, 9 + 8)));
}

#[test]
fn landing_point_is_rounded_to_the_nearest_tick() {
    // 1/3 rounds to 0, 2/3 to 1, a half away from zero.
    assert_eq!(ray((0, 1, 0), (1, -3, -1)).intersect_plane(), Some(at(0, 0)));
    assert_eq!(ray((0, 1, 0), (2, -3, -2)).intersect_plane(), Some(at(1, -1)));
    assert_eq!(ray((0, 1, 0), (1, -2, -1)).intersect_plane(), Some(at(1, -1)));
    assert_eq!(ray((0, 3, 0), (1, -2, -1)).intersect_plane(), Some(at(2, -2)));
    assert_eq!(ray((0, 5, 0), (1, -4, -1)).intersect_plane(), Some(at(1, -1)));
    assert_eq!(ray((0, 7, 0), (1, -4, -1)).intersect_plane(), Some(at(2, -2)));
}

#[test]
fn ray_along_the_plane_has_no_landing() {
    assert_eq!(ray((0, 10, 0), (1, 0, 1)).intersect_plane(), None);
    assert_eq!(ray((0, 0, 0), (1, 0, 1)).intersect_plane(), None);
    assert_eq!(ray((0, 10, 0), (0, 0, 0)).intersect_plane(), None);
}

#[test]
fn ray_away_from_the_plane_has_no_landing() {
    assert_eq!(ray((0, 10, 0), (1, 2, 0)).intersect_plane(), None);
    assert_eq!(ray((0, -10, 0), (1, -2, 0)).intersect_plane(), None);
}

#[test]
fn ray_that_starts_in_the_plane_has_no_landing() {
    assert_eq!(ray((5, 0, 5), (0, -1, 0)).intersect_plane(), None);
    assert_eq!(ray((5, 0, 5), (0, 1, 0)).intersect_plane(), None);
}

#[test]
fn landing_beyond_the_limit_is_no_landing() {
    let limit = COORD_LIMIT as i64;
    assert_eq!(ray((0, 1, 0), (limit, -1, 0)).intersect_plane(), Some(at(COORD_LIMIT, 0)));
    assert_eq!(ray((0, 1, 0), (limit + 1, -1, 0)).intersect_plane(), None);
    assert_eq!(ray((0, 1, 0), (0, -1, -limit)).intersect_plane(), Some(at(0, -COORD_LIMIT)));
    assert_eq!(ray((0, 1, 0), (0, -1, -limit - 1)).intersect_plane(), None);
    assert_eq!(ray((limit + 5, 1, 0), (-5, -1, 0)).intersect_plane(), Some(at(COORD_LIMIT, 0)));
}

#[test]
fn extreme_rays_do_not_overflow() {
    assert_eq!(ray((i64::MAX, i64::MIN, i64::MIN), (i64::MAX, 1, i64::MIN)).intersect_plane(), None);
    assert_eq!(ray((i64::MIN, i64::MAX, i64::MAX), (i64::MIN, -1, i64::MAX)).intersect_plane(), None);
    assert_eq!(ray((0, i64::MAX, 0), (i64::MAX, i64::MIN, i64::MIN)).intersect_plane(), None);
    assert_eq!(ray((0, i64::MIN, 0), (1, i64::MAX, -1)).intersect_plane(), Some(at(1, -1)));
    assert_eq!(ray((3, i64::MAX, 4), (0, i64::MIN, 0)).intersect_plane(), Some(at(3, 4)));
}

#[test]
fn no_cursor_projects_to_no_point() {
    assert_eq!(screen_to_world(None), None);
    assert_eq!(screen_to_world(Some(ray((0, 10, 0), (1, -2, -3)))), Some(at(5, -15)));
    assert_eq!(screen_to_world(Some(ray((0, 10, 0), (1, 0, 0)))), None);
}
