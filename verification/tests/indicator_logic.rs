use traffic_light::constants::{
    BLINK_FAST, BLINK_MEDIUM, BLINK_OFF, BLINK_SLOW, CORE_CYCLES_PER_MS, DEBOUNCE_DELAY_MS, HIGH_INTENSE, INTENSE, NORMAL,
};
use traffic_light::indicator::{
    blink_rate_for, blink_timer_tick, blink_toggle_due, intensity_button_pressed, new_side,
    next_intensity_level, press_debounced, IndicatorSide,
};

fn side(intensity: u8, rate: u8, counter: u8, lamp_on: bool, last_press: u32) -> IndicatorSide {
    IndicatorSide { intensity, rate, counter, lamp_on, last_press }
}

#[test]
fn core_clock_values() {
    assert_eq!(CORE_CYCLES_PER_MS, 180_000);
    assert_eq!(DEBOUNCE_DELAY_MS, 500);
}

#[test]
fn debounce_needs_more_than_the_delay() {
    // 500 ms at 180 MHz is 90 000 000 cycles.
    assert!(!press_debounced(90_000_000, 0, CORE_CYCLES_PER_MS));
    assert!(press_debounced(90_000_001, 0, CORE_CYCLES_PER_MS));
    assert!(!press_debounced(100, 50, CORE_CYCLES_PER_MS));
    // 44 ms apart is too soon at 180 MHz.
    assert!(!press_debounced(18_000_001, 10_000_000, CORE_CYCLES_PER_MS));
}

#[test]
fn debounce_follows_the_clock() {
    // At 16 MHz, 500 ms is 8 000 000 cycles.
    assert!(!press_debounced(8_000_000, 0, 16_000));
    assert!(press_debounced(8_000_001, 0, 16_000));
    assert!(!press_debounced(8_000_001, 0, CORE_CYCLES_PER_MS));
}

#[test]
fn debounce_across_counter_wrap() {
    // now - last wraps: 10 - (u32::MAX - 5) = 16 cycles, too soon.
    assert!(!press_debounced(10, u32::MAX - 5, CORE_CYCLES_PER_MS));
    assert!(press_debounced(10, u32::MAX - 90_000_000, CORE_CYCLES_PER_MS));
    // 0x007B_0000 - 0xFFFF_0000 wraps to 8 126 464 cycles.
    assert!(press_debounced(0x007B_0000, 0xFFFF_0000, 16_000));
    assert!(!press_debounced(0x007B_0000, 0xFFFF_0000, CORE_CYCLES_PER_MS));
}

#[test]
fn press_decision_is_shift_invariant() {
    for &(now, last) in &[(5u32, 0u32), (90_000_001, 0), (10, u32::MAX - 90_000_000), (123, 100)] {
        for &k in &[0u32, 1, 1 << 31, u32::MAX] {
            let mut a = side(INTENSE, BLINK_MEDIUM, 3, true, last);
            let mut b = side(INTENSE, BLINK_MEDIUM, 3, true, last.wrapping_add(k));
            let off_a = intensity_button_pressed(&mut a, now, CORE_CYCLES_PER_MS);
            let off_b = intensity_button_pressed(&mut b, now.wrapping_add(k), CORE_CYCLES_PER_MS);
            assert_eq!(off_a, off_b);
            assert_eq!(a.intensity, b.intensity);
            assert_eq!(a.rate, b.rate);
            assert_eq!(a.last_press.wrapping_add(k), b.last_press);
        }
    }
}

#[test]
fn tick_depends_on_own_blink_state() {
    let mut a = side(NORMAL, BLINK_FAST, 3, false, 7);
    let mut b = side(HIGH_INTENSE, BLINK_FAST, 3, false, 99_999);
    assert_eq!(blink_timer_tick(&mut a), blink_timer_tick(&mut b));
    assert_eq!(a.counter, b.counter);
    assert_eq!(a.lamp_on, b.lamp_on);
    assert_eq!(a.intensity, NORMAL);
    assert_eq!(a.last_press, 7);
}

#[test]
fn intensity_levels_cycle() {
    assert_eq!(next_intensity_level(NORMAL), INTENSE);
    assert_eq!(next_intensity_level(INTENSE), HIGH_INTENSE);
    assert_eq!(next_intensity_level(HIGH_INTENSE), NORMAL);
    assert_eq!(next_intensity_level(7), 2);
}

#[test]
fn rates_for_levels() {
    assert_eq!(blink_rate_for(NORMAL), BLINK_OFF);
    assert_eq!(blink_rate_for(INTENSE), BLINK_MEDIUM);
    assert_eq!(blink_rate_for(HIGH_INTENSE), BLINK_FAST);
    assert_eq!(blink_rate_for(9), BLINK_OFF);
}

#[test]
fn toggle_points_per_rate() {
    let fast: Vec<u8> = (0..12).filter(|&c| blink_toggle_due(BLINK_FAST, c)).collect();
    let medium: Vec<u8> = (0..12).filter(|&c| blink_toggle_due(BLINK_MEDIUM, c)).collect();
    let slow: Vec<u8> = (0..12).filter(|&c| blink_toggle_due(BLINK_SLOW, c)).collect();
    let off: Vec<u8> = (0..12).filter(|&c| blink_toggle_due(BLINK_OFF, c)).collect();
    assert_eq!(fast, vec![0, 3, 6, 9]);
    assert_eq!(medium, vec![0, 8]);
    assert_eq!(slow, vec![0, 6]);
    assert!(off.is_empty());
}

#[test]
fn reset_side_is_quiet() {
    let s = new_side();
    assert_eq!(s.intensity, NORMAL);
    assert_eq!(s.rate, BLINK_OFF);
    assert_eq!(s.counter, 0);
    assert!(!s.lamp_on);
    assert_eq!(s.last_press, 0);
}

#[test]
fn accepted_press_moves_to_next_level() {
    let mut s = side(NORMAL, BLINK_OFF, 4, true, 0);
    let off = intensity_button_pressed(&mut s, 90_000_001, CORE_CYCLES_PER_MS);
    assert!(!off);
    assert_eq!(s.intensity, INTENSE);
    assert_eq!(s.rate, BLINK_MEDIUM);
    assert_eq!(s.last_press, 90_000_001);
    assert_eq!(s.counter, 4);
    assert!(s.lamp_on);
}

#[test]
fn bounced_press_changes_nothing() {
    let mut s = side(INTENSE, BLINK_MEDIUM, 3, false, 1_000);
    let off = intensity_button_pressed(&mut s, 2_000, CORE_CYCLES_PER_MS);
    assert!(!off);
    assert_eq!(s.intensity, INTENSE);
    assert_eq!(s.rate, BLINK_MEDIUM);
    assert_eq!(s.last_press, 1_000);
}

#[test]
fn back_to_normal_switches_indicator_off() {
    let mut s = side(HIGH_INTENSE, BLINK_FAST, 0, true, 0);
    let off = intensity_button_pressed(&mut s, 200_000_000, CORE_CYCLES_PER_MS);
    assert!(off);
    assert_eq!(s.intensity, NORMAL);
    assert_eq!(s.rate, BLINK_OFF);
}

#[test]
fn three_presses_restore_intensity() {
    let mut s = new_side();
    let mut now: u32 = 0;
    for _ in 0..3 {
        now += 100_000_000;
        intensity_button_pressed(&mut s, now, CORE_CYCLES_PER_MS);
    }
    assert_eq!(s.intensity, NORMAL);
    assert_eq!(s.rate, BLINK_OFF);
}

#[test]
fn steady_side_ignores_timer() {
    let mut s = side(NORMAL, BLINK_OFF, 5, true, 0);
    assert_eq!(blink_timer_tick(&mut s), None);
    assert_eq!(s.counter, 5);
    assert!(s.lamp_on);
}

#[test]
fn fast_blink_sequence() {
    let mut s = side(HIGH_INTENSE, BLINK_FAST, 0, false, 0);
    let writes: Vec<Option<bool>> = (0..6).map(|_| blink_timer_tick(&mut s)).collect();
    assert_eq!(writes, vec![Some(true), None, None, Some(false), None, None]);
    assert_eq!(s.counter, 6);
}

#[test]
fn counter_wraps_at_twelve() {
    let mut s = side(INTENSE, BLINK_MEDIUM, 11, true, 0);
    assert_eq!(blink_timer_tick(&mut s), None);
    assert_eq!(s.counter, 0);
    assert_eq!(blink_timer_tick(&mut s), Some(false));
    assert_eq!(s.counter, 1);
}

#[test]
fn unknown_rate_counts_without_blinking() {
    let mut s = side(NORMAL, 7, 0, false, 0);
    assert_eq!(blink_timer_tick(&mut s), None);
    assert_eq!(s.counter, 1);
}

#[test]
fn blink_cycle_repeats_after_twelve_ticks() {
    for &(intensity, rate) in &[(NORMAL, BLINK_OFF), (INTENSE, BLINK_MEDIUM), (HIGH_INTENSE, BLINK_FAST)] {
        for counter in 0..12u8 {
            for &lamp in &[false, true] {
                let mut s = side(intensity, rate, counter, lamp, 42);
                for _ in 0..12 {
                    blink_timer_tick(&mut s);
                }
                assert_eq!(s.counter, counter);
                assert_eq!(s.lamp_on, lamp);
                assert_eq!(s.rate, rate);
                assert_eq!(s.intensity, intensity);
            }
        }
    }
}

#[test]
fn bounced_press_at_any_level_is_ignored() {
    let mut s = side(u8::MAX, BLINK_OFF, 0, false, 500);
    assert!(!intensity_button_pressed(&mut s, 600, CORE_CYCLES_PER_MS));
    assert_eq!(s.intensity, u8::MAX);
}

#[test]
fn writes_per_cycle_by_rate() {
    for &(rate, expected) in &[(BLINK_FAST, 4), (BLINK_MEDIUM, 2), (BLINK_SLOW, 2), (BLINK_OFF, 0), (9, 0)] {
        for counter in 0..12u8 {
            let mut s = side(NORMAL, rate, counter, false, 0);
            let writes = (0..12).filter(|_| blink_timer_tick(&mut s).is_some()).count();
            assert_eq!(writes, expected);
            assert_eq!(s.counter, counter);
            assert!(!s.lamp_on);
        }
    }
}

#[test]
fn write_within_blink_period() {
    for &(rate, period) in &[(BLINK_FAST, 3), (BLINK_SLOW, 6), (BLINK_MEDIUM, 8)] {
        for counter in 0..12u8 {
            let mut s = side(NORMAL, rate, counter, false, 0);
            let first = (0..12).position(|_| blink_timer_tick(&mut s).is_some()).unwrap();
            assert!(first < period);
        }
    }
}

#[test]
fn fast_rate_writes_every_third_tick() {
    let mut s = side(HIGH_INTENSE, BLINK_FAST, 1, false, 0);
    let pattern: Vec<bool> = (0..9).map(|_| blink_timer_tick(&mut s).is_some()).collect();
    assert_eq!(pattern, vec![false, false, true, false, false, true, false, false, true]);
}
