//! Movement-strategy behavior: boundedness, no-reflection equivalence,
//! reflection round trips, and clamping.

use invaders::{Entity, InitializationError, OffsetStrategy, Position, Rect, Size, XY};

#[test]
fn linear_passes_delta_through() {
    let mut s = OffsetStrategy::linear();
    assert_eq!(s.offset(100, 42), 142);
    assert_eq!(s.offset(142, -200), -58);
}

#[test]
fn limit_clamps_at_both_bounds() {
    let mut s = OffsetStrategy::limit(10, 20);
    assert_eq!(s.offset(15, 100), 20);
    assert_eq!(s.offset(15, -100), 10);
    assert_eq!(s.offset(15, 2), 17);
}

#[test]
fn limit_zero_delta_clamps_and_is_idempotent() {
    let mut s = OffsetStrategy::limit(10, 20);
    // One application clamps a value that starts outside the band ...
    assert_eq!(s.offset(35, 0), 20);
    assert_eq!(s.offset(3, 0), 10);
    // ... and a second application with zero delta changes nothing.
    assert_eq!(s.offset(20, 0), 20);
    assert_eq!(s.offset(10, 0), 10);
    assert_eq!(s.offset(17, 0), 17);
}

#[test]
fn cycle_stays_in_bounds_for_large_delta() {
    // A delta larger than the span reflects more than once within one call.
    let mut s = OffsetStrategy::cycle(10, 20);
    let r = s.offset(15, 37);
    // 15+37=52 -> 2*20-52=-12 -> 2*10+12=32 -> 2*20-32=8 -> 2*10-8=12
    assert_eq!(r, 12);
    assert!((10..=20).contains(&r));
}

#[test]
fn cycle_in_bounds_for_many_inputs() {
    for current in [10i64, 13, 17, 20] {
        for delta in [0i64, 1, 5, 9, 10, 11, 23, 100, -4, -50] {
            let mut s = OffsetStrategy::cycle(10, 20);
            let r = s.offset(current, delta);
            assert!((10..=20).contains(&r), "offset({current}, {delta}) gave {r}");
        }
    }
}

#[test]
fn cycle_without_reflection_matches_linear() {
    let mut cycle = OffsetStrategy::cycle(0, 1000);
    let mut linear = OffsetStrategy::linear();
    let mut c = 100i64;
    let mut l = 100i64;
    for delta in [50i64, 200, 300] {
        c = cycle.offset(c, delta);
        l = linear.offset(l, delta);
        assert_eq!(c, l);
    }
    assert_eq!(c, 650);
}

#[test]
fn cycle_round_trip_at_upper_bound() {
    let mut s = OffsetStrategy::cycle(0, 100);
    // Overshooting the upper bound by 7 mirrors back to 93 ...
    let r1 = s.offset(100, 7);
    assert_eq!(r1, 93);
    assert!((100 - r1) <= 7);
    // ... and the now-reversed strategy moves the same magnitude down.
    let r2 = s.offset(r1, -7);
    assert_eq!(r2, 86);
    assert!((r1 - r2) <= 7);
}

#[test]
fn cycle_direction_flips_once_per_crossing() {
    let mut s = OffsetStrategy::cycle(0, 100);
    // Crossing the upper bound leaves the strategy pointing down ...
    assert_eq!(s.offset(90, 20), 90);
    match s {
        OffsetStrategy::Cycle { direction, .. } => assert_eq!(direction, -1),
        _ => panic!("strategy changed variant"),
    }
    // ... and crossing the lower bound flips it back up.
    assert_eq!(s.offset(10, 20), 10);
    match s {
        OffsetStrategy::Cycle { direction, .. } => assert_eq!(direction, 1),
        _ => panic!("strategy changed variant"),
    }
}

#[test]
fn default_strategy_is_linear() {
    let s: OffsetStrategy = Default::default();
    assert_eq!(s, OffsetStrategy::Linear);
}

#[test]
fn coordinates_offset_routes_each_axis_through_its_strategy() {
    let mut p = Position::new(50, 400);
    p.set_offset_x(OffsetStrategy::limit(0, 60));
    // y keeps its pass-through default.
    p.offset(100, -25);
    assert_eq!(p.x(), 60);
    assert_eq!(p.y(), 375);
}

#[test]
fn size_and_position_carry_strategies_with_the_value() {
    let mut c = Position::new(1, 2);
    c.set_offset_xy(OffsetStrategy::limit(0, 10));
    let copy_keeps_strategy = c;
    let mut copied = copy_keeps_strategy;
    copied.offset(100, 100);
    assert_eq!(copied.x(), 10);
    assert_eq!(copied.y(), 10);
}

#[test]
fn entity_new_rejects_mismatched_pixel_buffer() {
    let bad = Entity::new(2, 2, vec![0u8; 15]);
    assert_eq!(
        bad.err(),
        Some(InitializationError {
            expected: 16,
            actual: 15
        })
    );
    let good = Entity::new(2, 2, vec![0u8; 16]);
    assert!(good.is_ok());
}

#[test]
fn entity_with_no_pixels_needs_an_empty_buffer() {
    assert!(Entity::new(0, 3, Vec::new()).is_ok());
    let err = Entity::new(0, 3, vec![1u8]).unwrap_err();
    assert_eq!(err.expected, 0);
    assert_eq!(err.actual, 1);
}

#[test]
fn entity_extent_is_position_plus_size() {
    let mut e = Entity::new(2, 3, vec![0u8; 24]).unwrap();
    e.position_mut().set(5_000, 7_000);
    let ext = e.extent();
    // 2x3 pixels is 2000x3000 sub-pixel units.
    assert_eq!(ext.x(), 7_000);
    assert_eq!(ext.y(), 10_000);
    let s: Size = e.size();
    assert_eq!(s.x(), 2_000);
}
