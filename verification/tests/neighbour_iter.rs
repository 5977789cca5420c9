use framing::mines::neighbour_iter::NeighbourIter;
use framing::mines::position::Position;

#[test]
fn unique_values() {
    let neighbours: Vec<Position> = NeighbourIter::new(Position::from(0, 0)).take(20);
    let mut unique = neighbours.clone();
    unique.sort();
    unique.dedup();

    assert_eq!(neighbours.len(), 20);
    assert_eq!(neighbours.len(), unique.len());
}

#[test]
fn first_ring_in_reading_order() {
    let cells = NeighbourIter::new(Position::from(5, 5)).take(8);
    let expected = vec![
        Position::from(4, 4),
        Position::from(5, 4),
        Position::from(6, 4),
        Position::from(4, 5),
        Position::from(6, 5),
        Position::from(4, 6),
        Position::from(5, 6),
        Position::from(6, 6),
    ];
    assert_eq!(cells, expected);
}

#[test]
fn second_ring_doubles_the_steps() {
    let mut iter = NeighbourIter::new(Position::from(0, 0));
    for _ in 0..8 {
        assert!(iter.next().is_some());
    }
    assert_eq!(iter.next(), Some(Position::from(-2, -2)));
    assert_eq!(iter.next(), Some(Position::from(0, -2)));
    assert_eq!(iter.next(), Some(Position::from(2, -2)));
    assert_eq!(iter.next(), Some(Position::from(-2, 0)));
}

#[test]
fn take_nothing() {
    assert!(NeighbourIter::new(Position::from(i32::MAX, i32::MIN)).take(0).is_empty());
}

#[test]
fn third_ring_after_sixteen() {
    let cells = NeighbourIter::new(Position::from(10, -10)).take(17);
    assert_eq!(cells[16], Position::from(7, -13));
}
