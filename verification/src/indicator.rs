use vstd::prelude::*;
use crate::constants::{
    BLINK_FAST, BLINK_MEDIUM, BLINK_OFF, BLINK_SLOW, DEBOUNCE_DELAY_MS, HIGH_INTENSE, INTENSE, NORMAL, OFF, ON,
};

verus! {

/// What the firmware keeps for one side of the crossing: the traffic
/// intensity chosen with the side's button, the blink rate of the side's
/// indicator lamp, the lamp's blink counter and state, and the cycle count
/// of the last accepted button press.
pub struct IndicatorSide {
    pub intensity: u8,
    pub rate: u8,
    pub counter: u8,
    pub lamp_on: bool,
    pub last_press: u32,
}

impl IndicatorSide {
    /// The handlers keep a side in this shape: a known intensity, the blink
    /// rate that belongs to it, and a counter inside its twelve-tick cycle.
    pub open spec fn wf(self) -> bool {
        &&& self.intensity < 3
        &&& self.rate == rate_for(self.intensity)
        &&& self.counter < 12
    }
}

/// The intensity that a button press moves to: NORMAL, INTENSE and
/// HIGH_INTENSE in turn.
pub open spec fn next_intensity(level: u8) -> u8 {
    ((level + 1) % 3) as u8
}

/// The blink rate of the indicator at an intensity level.
pub open spec fn rate_for(level: u8) -> u8 {
    if level == NORMAL {
        BLINK_OFF
    } else if level == INTENSE {
        BLINK_MEDIUM
    } else if level == HIGH_INTENSE {
        BLINK_FAST
    } else {
        BLINK_OFF
    }
}

/// Cycles of a counter that advances `cycles_per_ms` times a millisecond
/// during the debounce delay.
pub open spec fn debounce_cycles(cycles_per_ms: u32) -> int {
    cycles_per_ms * DEBOUNCE_DELAY_MS
}

/// A press at cycle count `now` counts when more than the debounce delay has
/// passed since the last accepted press at `last`, on a cycle counter that
/// advances `cycles_per_ms` times a millisecond and wraps at 2^32.
pub open spec fn press_accepted(now: u32, last: u32, cycles_per_ms: u32) -> bool {
    vstd::wrapping::u32_specs::wrapping_sub(now, last) > debounce_cycles(cycles_per_ms)
}

/// Whether the lamp changes state at this counter value for this rate.
pub open spec fn toggles_at(rate: u8, counter: u8) -> bool {
    if rate == BLINK_FAST {
        counter % 3 == 0
    } else if rate == BLINK_MEDIUM {
        counter % 8 == 0
    } else if rate == BLINK_SLOW {
        counter % 6 == 0
    } else {
        false
    }
}

/// The side after its button is pressed at cycle count `now`, the counter
/// advancing `cycles_per_ms` times a millisecond.
pub open spec fn after_press(s: IndicatorSide, now: u32, cycles_per_ms: u32) -> IndicatorSide {
    if press_accepted(now, s.last_press, cycles_per_ms) {
        let level = next_intensity(s.intensity);
        IndicatorSide { intensity: level, rate: rate_for(level), last_press: now, ..s }
    } else {
        s
    }
}

/// The side after one tick of the blink timer: a blinking lamp advances its
/// counter modulo 12 and changes state when the rate says so.
pub open spec fn after_tick(s: IndicatorSide) -> IndicatorSide {
    if s.rate > BLINK_OFF {
        IndicatorSide {
            counter: ((s.counter + 1) % 12) as u8,
            lamp_on: if toggles_at(s.rate, s.counter) { !s.lamp_on } else { s.lamp_on },
            ..s
        }
    } else {
        s
    }
}

/// The indicator pin write that one tick of the blink timer asks for: the
/// lamp's new state when a blinking lamp reaches a toggle point, else none.
pub open spec fn lamp_write(s: IndicatorSide) -> Option<bool> {
    if s.rate > BLINK_OFF && toggles_at(s.rate, s.counter) {
        Some(!s.lamp_on)
    } else {
        None
    }
}

/// The side after `n` ticks of the blink timer.
pub open spec fn after_ticks(s: IndicatorSide, n: nat) -> IndicatorSide
    decreases n,
{
    if n == 0 {
        s
    } else {
        after_tick(after_ticks(s, (n - 1) as nat))
    }
}

/// A side as it stands at reset: normal traffic, lamp off and not blinking.
pub fn new_side() -> (s: IndicatorSide)
    ensures
        s.intensity == NORMAL,
        s.rate == BLINK_OFF,
        s.counter == 0,
        !s.lamp_on,
        s.last_press == 0,
        s.wf(),
{
    IndicatorSide { intensity: NORMAL, rate: BLINK_OFF, counter: 0, lamp_on: OFF, last_press: 0 }
}

/// Whether a press at cycle count `now` is far enough from the last
/// accepted one at `last`, the counter advancing `cycles_per_ms` times a
/// millisecond.
pub fn press_debounced(now: u32, last: u32, cycles_per_ms: u32) -> (accepted: bool)
    ensures
        accepted == press_accepted(now, last, cycles_per_ms),
{
    let per_ms: u64 = cycles_per_ms as u64;
    assert(per_ms * 500 <= u64::MAX) by (nonlinear_arith)
        requires
            per_ms <= u32::MAX,
    ;
    let delay: u64 = per_ms * DEBOUNCE_DELAY_MS as u64;
    (now.wrapping_sub(last) as u64) > delay
}

/// The intensity level that follows `level` on a press.
pub fn next_intensity_level(level: u8) -> (next: u8)
    requires
        level < 255,
    ensures
        next == next_intensity(level),
        next < 3,
{
    (level + 1) % 3
}

/// The indicator blink rate that goes with an intensity level.
pub fn blink_rate_for(level: u8) -> (rate: u8)
    ensures
        rate == rate_for(level),
{
    if level == NORMAL {
        BLINK_OFF
    } else if level == INTENSE {
        BLINK_MEDIUM
    } else if level == HIGH_INTENSE {
        BLINK_FAST
    } else {
        BLINK_OFF
    }
}

/// Whether the lamp changes state at blink counter `counter` for `rate`.
pub fn blink_toggle_due(rate: u8, counter: u8) -> (due: bool)
    ensures
        due == toggles_at(rate, counter),
{
    if rate == BLINK_FAST {
        counter % 3 == 0
    } else if rate == BLINK_MEDIUM {
        counter % 8 == 0
    } else if rate == BLINK_SLOW {
        counter % 6 == 0
    } else {
        false
    }
}

/// Handles a press of the side's intensity button at cycle count `now`, the
/// counter advancing `cycles_per_ms` times a millisecond.
/// An accepted press moves to the next intensity and its blink rate; the
/// result says whether the indicator lamp must now be switched off, which is
/// when the intensity has come back to NORMAL.
pub fn intensity_button_pressed(side: &mut IndicatorSide, now: u32, cycles_per_ms: u32) -> (indicator_off: bool)
    requires
        press_accepted(now, old(side).last_press, cycles_per_ms) ==> old(side).intensity < 255,
    ensures
        *final(side) == after_press(*old(side), now, cycles_per_ms),
        indicator_off == (press_accepted(now, old(side).last_press, cycles_per_ms)
            && next_intensity(old(side).intensity) == NORMAL),
        old(side).wf() ==> final(side).wf(),
{
    if press_debounced(now, side.last_press, cycles_per_ms) {
        side.last_press = now;
        let new_level = next_intensity_level(side.intensity);
        side.intensity = new_level;
        side.rate = blink_rate_for(new_level);
        new_level == NORMAL
    } else {
        false
    }
}

/// Handles one tick of the blink timer for a side.  When the lamp changes
/// state the result holds the state to drive the indicator pin to.
pub fn blink_timer_tick(side: &mut IndicatorSide) -> (write: Option<bool>)
    requires
        old(side).rate > BLINK_OFF ==> old(side).counter < 255,
    ensures
        *final(side) == after_tick(*old(side)),
        write == lamp_write(*old(side)),
        write matches Some(v) ==> v == final(side).lamp_on,
        old(side).wf() ==> final(side).wf(),
{
    if side.rate > BLINK_OFF {
        let counter = side.counter;
        let update = blink_toggle_due(side.rate, counter);
        let mut write: Option<bool> = None;
        if update {
            let new_state = !side.lamp_on;
            side.lamp_on = new_state;
            write = Some(if new_state { ON } else { OFF });
        }
        side.counter = (counter + 1) % 12;
        write
    } else {
        None
    }
}

/// Three accepted presses bring a side back to the intensity it started at.
pub proof fn lemma_three_presses_restore_intensity(level: u8)
    requires
        level < 3,
    ensures
        next_intensity(next_intensity(next_intensity(level))) == level,
{
}

/// How many of the `n` ticks that start at blink counter `c` change the
/// lamp's state at `rate`.
pub open spec fn flips(rate: u8, c: u8, n: nat) -> nat
    decreases n,
{
    if n == 0 {
        0
    } else {
        flips(rate, c, (n - 1) as nat) + if toggles_at(rate, ((c + n - 1) % 12) as u8) {
            1nat
        } else {
            0nat
        }
    }
}

/// How many indicator pin writes the first `n` ticks of the blink timer
/// make, starting from side `s`.
pub open spec fn writes_over(s: IndicatorSide, n: nat) -> nat
    decreases n,
{
    if n == 0 {
        0
    } else {
        writes_over(s, (n - 1) as nat) + if lamp_write(after_ticks(s, (n - 1) as nat)) is Some {
            1nat
        } else {
            0nat
        }
    }
}

/// Pin writes in one twelve-tick cycle of the counter at `rate`.
pub open spec fn writes_per_cycle(rate: u8) -> nat {
    if rate == BLINK_FAST {
        4
    } else if rate == BLINK_MEDIUM || rate == BLINK_SLOW {
        2
    } else {
        0
    }
}

/// The most ticks in a row, at a blinking `rate`, that hold a pin write.
pub open spec fn blink_period(rate: u8) -> nat {
    if rate == BLINK_FAST {
        3
    } else if rate == BLINK_SLOW {
        6
    } else {
        8
    }
}

/// After `n` ticks a blinking side has moved its counter `n` steps round the
/// twelve-tick cycle and changed its lamp once per toggle point passed; the
/// rest of the side, rate included, is as it was.
pub proof fn lemma_ticks_of_blinking_side(s: IndicatorSide, n: nat)
    requires
        s.rate > BLINK_OFF,
        s.counter < 12,
    ensures
        after_ticks(s, n) == (IndicatorSide {
            counter: ((s.counter + n) % 12) as u8,
            lamp_on: if flips(s.rate, s.counter, n) % 2 == 1 { !s.lamp_on } else { s.lamp_on },
            ..s
        }),
    decreases n,
{
    if n > 0 {
        lemma_ticks_of_blinking_side(s, (n - 1) as nat);
        let prev = after_ticks(s, (n - 1) as nat);
        assert(((s.counter + n - 1) % 12 + 1) % 12 == (s.counter + n) % 12);
        assert(after_ticks(s, n) == after_tick(prev));
    }
}

/// A side that does not blink stays as it is under any number of ticks.
pub proof fn lemma_ticks_of_steady_side(s: IndicatorSide, n: nat)
    requires
        s.rate == BLINK_OFF,
    ensures
        after_ticks(s, n) == s,
        writes_over(s, n) == 0,
    decreases n,
{
    if n > 0 {
        lemma_ticks_of_steady_side(s, (n - 1) as nat);
    }
}

/// At a rate with no toggle points the lamp never changes.
proof fn lemma_no_toggle_points(rate: u8, c: u8, n: nat)
    requires
        rate != BLINK_FAST && rate != BLINK_MEDIUM && rate != BLINK_SLOW,
    ensures
        flips(rate, c, n) == 0,
    decreases n,
{
    if n > 0 {
        lemma_no_toggle_points(rate, c, (n - 1) as nat);
    }
}

/// The pin writes of the first `n` ticks are the toggle points passed.
pub proof fn lemma_writes_are_flips(s: IndicatorSide, n: nat)
    requires
        s.counter < 12,
    ensures
        writes_over(s, n) == if s.rate > BLINK_OFF { flips(s.rate, s.counter, n) } else { 0 },
    decreases n,
{
    if s.rate == BLINK_OFF {
        lemma_ticks_of_steady_side(s, n);
    } else if n > 0 {
        lemma_writes_are_flips(s, (n - 1) as nat);
        lemma_ticks_of_blinking_side(s, (n - 1) as nat);
    }
}

/// Toggle points in one full counter cycle, wherever the cycle starts.
proof fn lemma_cycle_flips(rate: u8, c: u8)
    requires
        c < 12,
    ensures
        flips(rate, c, 12) == writes_per_cycle(rate),
{
    if rate == BLINK_FAST || rate == BLINK_MEDIUM || rate == BLINK_SLOW {
        reveal_with_fuel(flips, 13);
        if c == 0 {
            assert(flips(rate, 0, 12) == writes_per_cycle(rate));
        } else if c == 1 {
            assert(flips(rate, 1, 12) == writes_per_cycle(rate));
        } else if c == 2 {
            assert(flips(rate, 2, 12) == writes_per_cycle(rate));
        } else if c == 3 {
            assert(flips(rate, 3, 12) == writes_per_cycle(rate));
        } else if c == 4 {
            assert(flips(rate, 4, 12) == writes_per_cycle(rate));
        } else if c == 5 {
            assert(flips(rate, 5, 12) == writes_per_cycle(rate));
        } else if c == 6 {
            assert(flips(rate, 6, 12) == writes_per_cycle(rate));
        } else if c == 7 {
            assert(flips(rate, 7, 12) == writes_per_cycle(rate));
        } else if c == 8 {
            assert(flips(rate, 8, 12) == writes_per_cycle(rate));
        } else if c == 9 {
            assert(flips(rate, 9, 12) == writes_per_cycle(rate));
        } else if c == 10 {
            assert(flips(rate, 10, 12) == writes_per_cycle(rate));
        } else if c == 11 {
            assert(flips(rate, 11, 12) == writes_per_cycle(rate));
        }
    } else {
        lemma_no_toggle_points(rate, c, 12);
    }
}

/// One full cycle of twelve ticks makes four indicator writes at the fast
/// rate, two at the medium or slow rate and none otherwise.
pub proof fn lemma_blink_cycle_writes(s: IndicatorSide)
    requires
        s.counter < 12,
    ensures
        writes_over(s, 12) == writes_per_cycle(s.rate),
{
    lemma_writes_are_flips(s, 12);
    if s.rate > BLINK_OFF {
        lemma_cycle_flips(s.rate, s.counter);
    }
}

/// The blink pattern repeats every twelve timer ticks: after a full cycle
/// of the counter every side is back where it started, lamp state included.
pub proof fn lemma_blink_cycle_repeats(s: IndicatorSide)
    requires
        s.counter < 12,
    ensures
        after_ticks(s, 12) == s,
{
    if s.rate == BLINK_OFF {
        lemma_ticks_of_steady_side(s, 12);
    } else {
        lemma_ticks_of_blinking_side(s, 12);
        lemma_cycle_flips(s.rate, s.counter);
        assert((s.counter + 12) % 12 == s.counter);
    }
}

/// A blinking lamp is written at least once in every `blink_period` ticks
/// in a row: within 3 ticks at the fast rate, 6 at the slow and 8 at the
/// medium rate.
pub proof fn lemma_write_within_period(s: IndicatorSide)
    requires
        s.counter < 12,
        s.rate == BLINK_FAST || s.rate == BLINK_MEDIUM || s.rate == BLINK_SLOW,
    ensures
        exists|j: nat| j < blink_period(s.rate) && #[trigger] lamp_write(after_ticks(s, j)) is Some,
{
    let c = s.counter;
    let j: nat = if s.rate == BLINK_FAST {
        ((3 - c % 3) % 3) as nat
    } else if s.rate == BLINK_SLOW {
        if c == 0 { 0 } else if c <= 6 { (6 - c) as nat } else { (12 - c) as nat }
    } else {
        if c == 0 { 0 } else if c <= 8 { (8 - c) as nat } else { (12 - c) as nat }
    };
    lemma_ticks_of_blinking_side(s, j);
    assert(lamp_write(after_ticks(s, j)) is Some);
}

/// At the fast rate the lamp is written on exactly every third tick.
pub proof fn lemma_fast_writes_every_third_tick(s: IndicatorSide, j: nat)
    requires
        s.counter < 12,
        s.rate == BLINK_FAST,
    ensures
        lamp_write(after_ticks(s, j)) is Some <==> (s.counter + j) % 3 == 0,
{
    lemma_ticks_of_blinking_side(s, j);
    let x = s.counter + j;
    assert((x % 12) % 3 == x % 3) by (nonlinear_arith)
        requires
            x >= 0,
    ;
}

/// Counts on the wrapping cycle counter: `x + k` modulo 2^32.
pub open spec fn shifted(x: u32, k: u32) -> u32 {
    vstd::wrapping::u32_specs::wrapping_add(x, k)
}

/// Only the distance between two counts decides a press: moving both the
/// press and the last accepted press by the same amount on the wrapping
/// counter changes neither the decision nor the new level and rate, and
/// moves the recorded press time by that amount too.
pub proof fn lemma_press_shift_invariant(s: IndicatorSide, now: u32, k: u32, cycles_per_ms: u32)
    ensures
        press_accepted(shifted(now, k), shifted(s.last_press, k), cycles_per_ms)
            == press_accepted(now, s.last_press, cycles_per_ms),
        after_press(IndicatorSide { last_press: shifted(s.last_press, k), ..s }, shifted(now, k), cycles_per_ms)
            == (IndicatorSide {
            last_press: shifted(after_press(s, now, cycles_per_ms).last_press, k),
            ..after_press(s, now, cycles_per_ms)
        }),
{
    let d1 = vstd::wrapping::u32_specs::wrapping_sub(shifted(now, k), shifted(s.last_press, k));
    let d0 = vstd::wrapping::u32_specs::wrapping_sub(now, s.last_press);
    assert(d1 == d0);
}

/// A blink-timer tick of one side depends on that side's rate, counter and
/// lamp state alone: two sides that agree on them end with the same counter
/// and lamp state and ask for the same pin write, and a tick leaves the
/// side's intensity, rate and press time as they were.
pub proof fn lemma_tick_depends_on_own_blink_state(s: IndicatorSide, t: IndicatorSide)
    requires
        s.rate == t.rate,
        s.counter == t.counter,
        s.lamp_on == t.lamp_on,
    ensures
        after_tick(s).counter == after_tick(t).counter,
        after_tick(s).lamp_on == after_tick(t).lamp_on,
        lamp_write(s) == lamp_write(t),
        after_tick(s).intensity == s.intensity,
        after_tick(s).rate == s.rate,
        after_tick(s).last_press == s.last_press,
{
}

/// The pin write that a tick asks for is the lamp's state after the tick:
/// a tick writes exactly when it changes the lamp, and then drives the pin
/// to the new, opposite state.
pub proof fn lemma_write_is_new_lamp_state(s: IndicatorSide)
    ensures
        lamp_write(s) is Some <==> after_tick(s).lamp_on != s.lamp_on,
        lamp_write(s) is Some ==> lamp_write(s) == Some(after_tick(s).lamp_on),
        lamp_write(s) is Some ==> lamp_write(s) == Some(!s.lamp_on),
{
}

/// A press is accepted exactly when the distance from the last accepted
/// press, taken modulo 2^32 over the whole counter range, exceeds the
/// 500 ms delay in cycles; acceptance therefore grows with that distance.
pub proof fn lemma_press_accepted_by_distance(now: u32, last: u32, cycles_per_ms: u32)
    ensures
        press_accepted(now, last, cycles_per_ms) <==> (now as int - last as int) % 0x1_0000_0000
            > cycles_per_ms as int * 500,
        forall|later: u32|
            #![trigger press_accepted(later, last, cycles_per_ms)]
            press_accepted(now, last, cycles_per_ms) && (later as int - last as int) % 0x1_0000_0000
                >= (now as int - last as int) % 0x1_0000_0000 ==> press_accepted(
                later,
                last,
                cycles_per_ms,
            ),
{
    assert forall|a: u32, b: u32|
        vstd::wrapping::u32_specs::wrapping_sub(a, b) as int == (a as int - b as int)
            % 0x1_0000_0000 by {
        let d = a as int - b as int;
        if d < 0 {
            assert((d + 0x1_0000_0000) % 0x1_0000_0000 == d + 0x1_0000_0000);
            vstd::arithmetic::div_mod::lemma_mod_add_multiples_vanish(d, 0x1_0000_0000);
        } else {
            vstd::arithmetic::div_mod::lemma_small_mod(d as nat, 0x1_0000_0000);
        }
    }
}

} // verus!
