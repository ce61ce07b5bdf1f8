use lv2xdo::midi::U14_MAX;
use lv2xdo::pitch::{seek_delay, PitchSeekController, Seek, FULL_DELAY_MICROS, U14_MIDDLE};

const CYCLE_MICROS: u64 = 10_000;

/// Runs cycles of ten milliseconds without messages and returns the times,
/// in microseconds, of the cycles that seek.
fn seek_times(controller: &mut PitchSeekController, first: u64, cycles: u64) -> Vec<(u64, Seek)> {
    let mut times = Vec::new();
    for cycle in 0..cycles {
        let now = first + cycle * CYCLE_MICROS;
        if let Some(seek) = controller.update(None, now) {
            times.push((now, seek));
        }
    }
    times
}

#[test]
fn constants_are_those_of_a_fourteen_bit_wheel() {
    assert_eq!(U14_MIDDLE, 1 << 13);
    assert_eq!(U14_MAX, (1 << 14) - 1);
    assert_eq!(FULL_DELAY_MICROS, 500_000);
}

#[test]
fn seek_keys_are_the_arrow_keys() {
    assert_eq!(Seek::Forward.keysequence(), "Right");
    assert_eq!(Seek::Backward.keysequence(), "Left");
}

#[test]
fn new_controller_rests_at_the_center() {
    let controller = PitchSeekController::new(42);
    assert_eq!(controller.value(), 8192);
    assert_eq!(controller.last_fire_time(), 42);
}

#[test]
fn seek_delay_has_exact_values() {
    assert_eq!(seek_delay(0), 0);
    assert_eq!(seek_delay(1), 30);
    assert_eq!(seek_delay(4096), 125_007);
    assert_eq!(seek_delay(16383 - 9000), 225_325);
    assert_eq!(seek_delay(8191), 249_984);
    assert_eq!(seek_delay(8192), 250_015);
    assert_eq!(seek_delay(16383), 500_000);
    assert_eq!(seek_delay(u16::MAX), 500_000 * 65_535 / 16_383);
}

#[test]
fn seek_delay_never_shrinks_as_the_input_grows() {
    let mut previous = 0;
    for input in 0..=u16::MAX {
        let delay = seek_delay(input);
        assert!(delay >= previous);
        previous = delay;
    }
}

#[test]
fn farther_from_the_center_is_at_least_as_fast() {
    let delay_of = |value: u16| {
        if value > U14_MIDDLE {
            seek_delay(U14_MAX - value)
        } else {
            seek_delay(value)
        }
    };
    for value in 8193..16383u16 {
        assert!(delay_of(value + 1) <= delay_of(value));
    }
    for value in 1..8192u16 {
        assert!(delay_of(value - 1) <= delay_of(value));
    }
    assert_eq!(delay_of(9000), 225_325);
    assert_eq!(delay_of(16000), 11_688);
    assert_eq!(delay_of(7000), 213_636);
    assert_eq!(delay_of(100), 3_051);
}

#[test]
fn center_is_idle_for_any_duration() {
    let mut controller = PitchSeekController::new(7);
    for cycle in 0..10_000u64 {
        let latest = if cycle % 3 == 0 { Some(8192) } else { None };
        assert_eq!(controller.update(latest, 7 + cycle * 1_000_000), None);
        assert_eq!(controller.last_fire_time(), 7);
        assert_eq!(controller.value(), 8192);
    }
    assert_eq!(controller.update(None, u64::MAX), None);
    assert_eq!(controller.last_fire_time(), 7);
}

#[test]
fn returning_to_the_center_stops_the_seek_and_keeps_the_last_time() {
    let mut controller = PitchSeekController::new(0);
    assert_eq!(controller.update(Some(16383), 10), Some(Seek::Forward));
    assert_eq!(controller.update(Some(8192), 1_000_000), None);
    assert_eq!(controller.last_fire_time(), 10);
    assert_eq!(controller.value(), 8192);
}

#[test]
fn full_forward_deflection_seeks_on_every_cycle() {
    let mut controller = PitchSeekController::new(0);
    assert_eq!(controller.update(Some(16383), CYCLE_MICROS), Some(Seek::Forward));
    assert_eq!(controller.last_fire_time(), CYCLE_MICROS);
    let times = seek_times(&mut controller, 2 * CYCLE_MICROS, 50);
    assert_eq!(times.len(), 50);
    for (index, (now, seek)) in times.iter().enumerate() {
        assert_eq!(*now, (index as u64 + 2) * CYCLE_MICROS);
        assert_eq!(*seek, Seek::Forward);
    }
}

#[test]
fn full_deflection_still_needs_the_clock_to_move() {
    let mut controller = PitchSeekController::new(1_000);
    assert_eq!(controller.update(Some(16383), 1_000), None);
    assert_eq!(controller.update(None, 1_001), Some(Seek::Forward));
    assert_eq!(controller.update(None, 1_001), None);
    assert_eq!(controller.update(Some(0), 1_001), None);
    assert_eq!(controller.update(None, 1_002), Some(Seek::Backward));
}

#[test]
fn slight_forward_deflection_seeks_at_the_rate_of_its_delay() {
    let mut controller = PitchSeekController::new(0);
    assert_eq!(controller.update(Some(9000), CYCLE_MICROS), None);
    let times = seek_times(&mut controller, 2 * CYCLE_MICROS, 98);
    let expected: Vec<(u64, Seek)> =
        [230_000u64, 460_000, 690_000, 920_000].iter().map(|now| (*now, Seek::Forward)).collect();
    assert_eq!(times, expected);
    assert_eq!(controller.last_fire_time(), 920_000);
}

#[test]
fn backward_deflection_of_4096_seeks_about_every_125_milliseconds() {
    let mut controller = PitchSeekController::new(0);
    assert_eq!(controller.update(Some(4096), 125_007), None);
    assert_eq!(controller.last_fire_time(), 0);
    assert_eq!(controller.update(None, 125_008), Some(Seek::Backward));
    assert_eq!(controller.last_fire_time(), 125_008);
    assert_eq!(controller.update(None, 250_015), None);
    assert_eq!(controller.update(None, 250_016), Some(Seek::Backward));

    let mut on_a_grid = PitchSeekController::new(0);
    assert_eq!(on_a_grid.update(Some(4096), CYCLE_MICROS), None);
    let times = seek_times(&mut on_a_grid, 2 * CYCLE_MICROS, 50);
    let expected: Vec<(u64, Seek)> =
        [130_000u64, 260_000, 390_000].iter().map(|now| (*now, Seek::Backward)).collect();
    assert_eq!(times, expected);
}

#[test]
fn a_held_bend_goes_on_seeking_without_new_messages() {
    let mut controller = PitchSeekController::new(0);
    assert_eq!(controller.update(Some(12000), 0), None);
    let mut count = 0;
    for cycle in 1..=100_000u64 {
        if controller.update(None, cycle * CYCLE_MICROS) == Some(Seek::Forward) {
            count += 1;
        }
        assert_eq!(controller.value(), 12000);
    }
    assert_eq!(seek_delay(16383 - 12000), 133_766);
    assert_eq!(count, 100_000 / 14);
}

#[test]
fn a_new_bend_replaces_the_held_one() {
    let mut controller = PitchSeekController::new(0);
    assert_eq!(controller.update(Some(16383), 1), Some(Seek::Forward));
    assert_eq!(controller.update(Some(0), 2), Some(Seek::Backward));
    assert_eq!(controller.value(), 0);
    assert_eq!(controller.update(Some(8191), 3), None);
    assert_eq!(controller.value(), 8191);
    assert_eq!(controller.update(Some(8193), 250_000), Some(Seek::Forward));
    assert_eq!(controller.last_fire_time(), 250_000);
}

#[test]
fn values_beside_the_center_seek_in_their_direction() {
    let mut controller = PitchSeekController::new(0);
    assert_eq!(controller.update(Some(8193), 249_954), None);
    assert_eq!(controller.update(None, 249_955), Some(Seek::Forward));
    let mut other = PitchSeekController::new(0);
    assert_eq!(other.update(Some(8191), 249_984), None);
    assert_eq!(other.update(None, 249_985), Some(Seek::Backward));
}

#[test]
fn a_clock_that_steps_back_does_not_seek() {
    let mut controller = PitchSeekController::new(1_000_000);
    assert_eq!(controller.update(Some(16383), 500), None);
    assert_eq!(controller.last_fire_time(), 1_000_000);
    assert_eq!(controller.update(None, 1_000_001), Some(Seek::Forward));
}

#[test]
fn should_seek_now_records_only_a_seek() {
    let mut controller = PitchSeekController::new(100);
    assert!(!controller.should_seek_now(4096, 100 + 125_007));
    assert_eq!(controller.last_fire_time(), 100);
    assert!(controller.should_seek_now(4096, 100 + 125_008));
    assert_eq!(controller.last_fire_time(), 100 + 125_008);
    assert!(!controller.should_seek_now(0, 100 + 125_008));
    assert!(controller.should_seek_now(0, 100 + 125_009));
    assert_eq!(controller.value(), 8192);
}

#[test]
fn times_near_the_end_of_the_clock_do_not_overflow() {
    let mut controller = PitchSeekController::new(u64::MAX - 1);
    assert_eq!(controller.update(Some(16383), u64::MAX), Some(Seek::Forward));
    assert_eq!(controller.update(None, u64::MAX), None);
    let mut early = PitchSeekController::new(0);
    assert_eq!(early.update(Some(1), u64::MAX), Some(Seek::Backward));
}
