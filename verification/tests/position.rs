use framing::mines::position::{rand_pos_in_range, Position};

#[test]
fn new() {
    let a = Position::new();
    assert_eq!(a.x, 0);
    assert_eq!(a.y, 0);
}

#[test]
fn from() {
    let a = Position::from(4, -8);
    assert_eq!(a.x, 4);
    assert_eq!(a.y, -8);
}

#[test]
fn from_tup() {
    let a = Position::from_tup((4, -8));
    assert_eq!(a.x, 4);
    assert_eq!(a.y, -8);
}

#[test]
fn xy() {
    assert_eq!(Position::from(4, -8).xy(), (4, -8));
}

#[test]
fn add() {
    let a = Position { x: 4, y: -8 };
    let b = Position { x: 8, y: 7 };
    let c = a + b;
    assert_eq!(c.x, 12);
    assert_eq!(c.y, -1);
}

#[test]
fn sub() {
    let a = Position { x: 4, y: -8 };
    let b = Position { x: 8, y: 7 };
    let c = a - b;
    assert_eq!(c.x, -4);
    assert_eq!(c.y, -15);
}

#[test]
fn positions_compare_by_x_then_y() {
    assert!(Position::from(1, 9) < Position::from(2, 0));
    assert!(Position::from(1, 2) < Position::from(1, 3));
    assert_eq!(Position::from(3, 3), Position::from_tup((3, 3)));
}

#[test]
fn random_positions_stay_in_range() {
    for _ in 0..200 {
        let pos = rand_pos_in_range(Position::from(3, 7));
        assert!(0 <= pos.x && pos.x < 3);
        assert!(0 <= pos.y && pos.y < 7);
    }
}

#[test]
fn random_positions_are_not_the_bound() {
    let range = Position::from(1, 1);
    for _ in 0..20 {
        assert_eq!(rand_pos_in_range(range), Position::from(0, 0));
    }
}
