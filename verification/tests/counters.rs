use rendezvous::counters::depart;
use rendezvous::counters::enroll;
use rendezvous::counters::settles;
use rendezvous::counters::try_enroll;
use rendezvous::counters::CAPACITY;
use rendezvous::CapacityExceeded;
use rendezvous::Departure;

#[test]
fn capacity_is_the_largest_u32() {
    assert_eq!(CAPACITY, u32::MAX);
    assert_eq!(CAPACITY, 4_294_967_295);
}

#[test]
fn enroll_counts_one_up() {
    assert_eq!(enroll(0), Some(1));
    assert_eq!(enroll(1), Some(2));
    assert_eq!(enroll(41), Some(42));
}

#[test]
fn enroll_at_the_boundary() {
    assert_eq!(enroll(4_294_967_294), Some(4_294_967_295));
    assert_eq!(enroll(4_294_967_295), None);
}

#[test]
fn try_enroll_below_the_ceiling_reaches_it() {
    assert_eq!(try_enroll(4_294_967_294), Ok(4_294_967_295));
    assert_eq!(try_enroll(1), Ok(2));
}

#[test]
fn try_enroll_at_the_ceiling_fails() {
    assert_eq!(try_enroll(4_294_967_295), Err(CapacityExceeded));
    assert_eq!(try_enroll(CAPACITY), Err(CapacityExceeded));
}

#[test]
fn depart_as_the_last_one() {
    assert_eq!(depart(1), Departure::Last);
    assert_eq!(depart(1).reading(), 0);
}

#[test]
fn depart_with_others_left() {
    assert_eq!(depart(2), Departure::Remaining(1));
    assert_eq!(depart(5), Departure::Remaining(4));
    assert_eq!(depart(5).reading(), 4);
    assert_eq!(depart(u32::MAX), Departure::Remaining(u32::MAX - 1));
}

#[test]
fn depart_from_an_empty_counter_wraps() {
    assert_eq!(depart(0), Departure::Remaining(u32::MAX));
    assert_eq!(depart(0).reading(), u32::MAX);
}

#[test]
fn settles_only_on_the_last_one() {
    assert!(settles(1));
    assert!(!settles(2));
    assert!(!settles(0));
    assert!(!settles(u32::MAX));
}
