use vstd::prelude::*;

verus! {

// GPIO pin numbers on port A.
pub const RED_LEFT: u16 = 9;
pub const YELLOW_LEFT: u16 = 8;
pub const GREEN_LEFT: u16 = 10;
pub const GREEN_RIGHT: u16 = 6;
pub const YELLOW_RIGHT: u16 = 11;
pub const RED_RIGHT: u16 = 12;
pub const LEFT_TRAFFIC_INTENSITY: u16 = 4;
pub const RIGHT_TRAFFIC_INSTENSITY: u16 = 7;
pub const LEFT_TRAFFIC_INDICATOR: u16 = 5;
pub const RIGHT_TRAFFIC_INDICATOR: u16 = 15;

// Pin states.
pub const ON: bool = true;
pub const OFF: bool = false;

// Traffic intensity levels.
pub const NORMAL: u8 = 0;
pub const INTENSE: u8 = 1;
pub const HIGH_INTENSE: u8 = 2;

// Indicator blink rates.
pub const BLINK_OFF: u8 = 0;
pub const BLINK_SLOW: u8 = 1;
pub const BLINK_MEDIUM: u8 = 2;
pub const BLINK_FAST: u8 = 3;

// Timing.
pub const TESTING_FACTOR: u16 = 5;
pub const DEBOUNCE_DELAY_MS: u32 = 500;

/// Core clock once the system clock is configured: the 8 MHz external
/// oscillator through the PLL with M = 4, N = 180 and P = 2.
pub const CORE_CLOCK_HZ: u32 = 180_000_000;

/// Cycles per millisecond of the core clock, the rate at which the cycle
/// counter read by the button handlers advances.
pub const CORE_CYCLES_PER_MS: u32 = CORE_CLOCK_HZ / 1000;

} // verus!
