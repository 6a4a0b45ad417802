use std::rc::Rc;

use transport_io::map::tile::{Reservation, ReservedList, Tick};
use transport_io::map::Position;
use transport_io::tile::reservation::Reserved as WeakReserved;

#[test]
fn reservation_test_new() {
    let mut reserved = ReservedList::new();
    assert!(!reserved.is_reserved(0, 0, 1));

    let pos = Position::new(0, 0);

    reserved.try_reserve(1234, 0, &Reservation::new(pos, 1, 4)).unwrap();

    assert!(!reserved.is_reserved(0, 0, 0));
    assert!(reserved.is_reserved(0, 0, 11));
    assert!(reserved.is_reserved(0, 3, 4));
    assert!(!reserved.is_reserved(0, 5, 5));

    assert!(reserved.try_reserve(56, 0, &Reservation::new(pos, 0, 1)).is_err());
    assert!(reserved.try_reserve(56, 0, &Reservation::new(pos, 2, 3)).is_err());
    assert!(reserved.try_reserve(56, 0, &Reservation::new(pos, 4, 5)).is_err());
    assert!(reserved.try_reserve(56, 0, &Reservation::new(pos, 0, 5)).is_err());

    let _reservation_later = reserved.try_reserve(1234, 5, &Reservation::new(pos, 5, 6)).unwrap();

    assert!(!reserved.is_reserved(0, 0, 1));
    assert_eq!(reserved.len(), 1);

    let mut reserved = WeakReserved::new();
    assert!(!reserved.is_reserved());

    let pos = Position::new(0, 0);

    let reservation = reserved.try_reserve(1234, pos).unwrap();
    assert!(reserved.is_reserved());
    assert_eq!(reserved.get_reserved_id().unwrap(), 1234);

    assert_eq!(Rc::<u64>::into_inner(reservation._strong_id).unwrap(), 1234);
    assert_eq!(reservation.pos, pos);

    assert!(!reserved.is_reserved());
}

#[test]
fn reserved_list_reads_back_and_releases() {
    let mut reserved = ReservedList::new();
    let pos = Position::new(2, 3);
    reserved.try_reserve(9, 0, &Reservation::new(pos, 10, 20)).unwrap();
    assert_eq!(reserved.get_reserved_id(15, 15), Some(9));
    assert_eq!(reserved.get_reserved_id(21, 30), None);
    assert!(!reserved.is_reserved(9, 10, 20));
    assert!(reserved.is_reserved(8, 10, 20));
    reserved.unreserve(9);
    assert!(!reserved.is_reserved(8, 10, 20));
    assert_eq!(reserved.get_reserved_id(15, 15), None);
    let _ = Tick::MAX;
}

#[test]
fn free_handles_compare_equal_and_clone() {
    let free = transport_io::tile::reservation::Reserved::new();
    let copy = free.clone();
    assert!(free == copy);
    assert!(!copy.is_reserved());
}
