use flight_combat::util::{get_time_millis, millis_from_parts, millis_from_reading, random_u64};
use flight_combat::vehicle::{SerialCounter, Vehicle};

#[test]
fn millis_combine_seconds_and_fraction() {
    assert_eq!(millis_from_parts(3, 250), 3250);
    assert_eq!(millis_from_parts(0, 999), 999);
    assert_eq!(millis_from_parts(u64::MAX / 1000, 999), u64::MAX);
    assert_eq!(millis_from_parts(u64::MAX, 0), u64::MAX);
}

#[test]
fn clock_reads_after_the_epoch() {
    let a = get_time_millis();
    assert!(a > 1_600_000_000_000);
    let b = get_time_millis();
    assert!(b >= a);
}

#[test]
fn random_draws_stay_in_range_and_vary() {
    let mut seen = std::collections::BTreeSet::new();
    for _ in 0..200 {
        let r = random_u64(10, 1000);
        assert!((10..1000).contains(&r));
        seen.insert(r);
    }
    assert!(seen.len() > 1);
    assert_eq!(random_u64(7, 8), 7);
}

#[test]
fn serial_numbers_increase() {
    let mut c = SerialCounter::new();
    assert_eq!(c.get_serial_number(), 1);
    assert_eq!(c.get_serial_number(), 2);
    let v = Vehicle::new(&mut c);
    assert_eq!(v.serialnumber, 3);
    assert_eq!(c.last, 3);
}

#[test]
fn clock_before_the_epoch_reads_zero() {
    assert_eq!(millis_from_reading(None), 0);
    assert_eq!(millis_from_reading(Some((12, 34))), 12_034);
}
