use qei_counter::encoder::{Encoder, RotateDirection};
use qei_counter::report::ChangeFilter;

fn feed(encoder: &mut Encoder, samples: &[u16]) {
    for &s in samples {
        encoder.update(s);
    }
}

#[test]
fn new_sets_resolution_and_baseline() {
    let e = Encoder::new(2048, RotateDirection::Forward, 1234);
    assert_eq!(e.resolution(), 8192);
    assert_eq!(e.get_count(), 0);
    assert_eq!(e.last_hw_count(), 1234);
    assert_eq!(e.direction(), RotateDirection::Forward);
    assert!(e.has_headroom());
}

#[test]
fn accumulates_forward() {
    let mut e = Encoder::new(2048, RotateDirection::Forward, 0);
    feed(&mut e, &[0, 100, 250]);
    assert_eq!(e.get_count(), 250);
    assert_eq!(e.last_hw_count(), 250);
}

#[test]
fn accumulates_reverse() {
    let mut e = Encoder::new(2048, RotateDirection::Reverse, 0);
    feed(&mut e, &[0, 100, 250]);
    assert_eq!(e.get_count(), -250);
}

#[test]
fn first_sample_equal_to_baseline_adds_nothing() {
    let mut e = Encoder::new(2048, RotateDirection::Forward, 40000);
    e.update(40000);
    assert_eq!(e.get_count(), 0);
}

#[test]
fn tracks_several_turns_of_the_counter() {
    // Move forward by 30000 counts at a time, well past several wraps.
    let mut e = Encoder::new(1, RotateDirection::Forward, 0);
    let mut position: i64 = 0;
    for _ in 0..10 {
        position += 30000;
        e.update(position.rem_euclid(65536) as u16);
    }
    assert_eq!(e.get_count(), 300000);
    // And back past zero.
    for _ in 0..12 {
        position -= 30000;
        e.update(position.rem_euclid(65536) as u16);
    }
    assert_eq!(e.get_count(), -60000);
}

#[test]
fn no_drift_against_unwrapped_positions() {
    let steps: [i64; 8] = [32767, -32767, 1, -5000, 20000, 32767, 32767, -12345];
    for direction in [RotateDirection::Forward, RotateDirection::Reverse] {
        let start: i64 = 65000;
        let mut e = Encoder::new(2048, direction, start.rem_euclid(65536) as u16);
        let mut position = start;
        for &s in steps.iter() {
            position += s;
            e.update(position.rem_euclid(65536) as u16);
        }
        let sign = if direction == RotateDirection::Forward { 1 } else { -1 };
        assert_eq!(e.get_count(), sign * (position - start));
    }
}

#[test]
fn filter_reports_changes_only() {
    let mut f = ChangeFilter::new();
    assert_eq!(f.last_reported(), 0);
    assert_eq!(f.observe(0), None);
    assert_eq!(f.observe(5), Some(5));
    assert_eq!(f.last_reported(), 5);
    assert_eq!(f.observe(5), None);
    assert_eq!(f.observe(-3), Some(-3));
    assert_eq!(f.observe(0), Some(0));
    assert_eq!(f.last_reported(), 0);
}
