use tower_defense::geometry::{Point, UNIT};

#[test]
fn distance_of_right_triangle_is_exact() {
    let p = Point { x: 0, y: 0 };
    let q = Point { x: 3 * UNIT, y: 4 * UNIT };
    assert_eq!(p.distance(q), 5 * UNIT);
}

#[test]
fn distance_is_symmetric() {
    let p = Point { x: 1_000, y: -2_000 };
    let q = Point { x: -500, y: 7_000 };
    assert_eq!(p.distance(q), q.distance(p));
}

#[test]
fn distance_rounds_down() {
    let p = Point { x: 0, y: 0 };
    let q = Point { x: 1, y: 1 };
    // The real distance is the square root of two.
    assert_eq!(p.distance(q), 1);
}

#[test]
fn distance_to_self_is_zero() {
    let p = Point { x: 42, y: -42 };
    assert_eq!(p.distance(p), 0);
}

#[test]
fn step_toward_moves_along_the_axis() {
    let p = Point { x: 0, y: 0 };
    let q = Point { x: 10 * UNIT, y: 0 };
    let stepped = p.step_toward(q, 3 * UNIT);
    assert_eq!(stepped, Point { x: 3 * UNIT, y: 0 });
}

#[test]
fn step_toward_moves_backwards_too() {
    let p = Point { x: 10 * UNIT, y: 10 * UNIT };
    let q = Point { x: 10 * UNIT, y: 0 };
    let stepped = p.step_toward(q, 4 * UNIT);
    assert_eq!(stepped, Point { x: 10 * UNIT, y: 6 * UNIT });
}

#[test]
fn default_point_is_the_origin() {
    assert_eq!(Point::default(), Point { x: 0, y: 0 });
}
