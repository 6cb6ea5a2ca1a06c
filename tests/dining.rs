use pingpong::dining::{Philosopher, Seat, Table};

#[test]
fn philosopher_keeps_name_and_hand() {
    let p = Philosopher::new("Emma Goldman", true);
    assert_eq!(p.name, "Emma Goldman");
    assert!(p.left_handed);
}

#[test]
fn neighbor_wraps_round_the_table() {
    assert_eq!(Seat { index: 0, forks: 5 }.neighbor_index(), 1);
    assert_eq!(Seat { index: 4, forks: 5 }.neighbor_index(), 0);
}

#[test]
fn left_handed_take_the_neighbor_fork_first() {
    let seat = Seat { index: 4, forks: 5 };
    assert_eq!(Philosopher::new("a", false).fork_order(&seat), (4, 0));
    assert_eq!(Philosopher::new("b", true).fork_order(&seat), (0, 4));
}

#[test]
fn seats_are_taken_lowest_first_until_full() {
    let mut t = Table::new(2);
    assert_eq!(t.len(), 2);
    let a = t.sit().unwrap();
    assert_eq!(a, Seat { index: 0, forks: 2 });
    let b = t.sit().unwrap();
    assert_eq!(b.index, 1);
    assert_eq!(t.sit(), None);
    t.leave(a);
    assert_eq!(t.sit().map(|s| s.index), Some(0));
}

#[test]
fn a_held_fork_cannot_be_taken() {
    let mut t = Table::new(3);
    assert!(t.take_fork(1));
    assert!(!t.take_fork(1));
    assert!(t.take_fork(2));
    t.put_fork(1);
    assert!(t.take_fork(1));
}
