use traffic_light::constants::{LEFT_TRAFFIC_INDICATOR, RIGHT_TRAFFIC_INDICATOR};
use traffic_light::gpio::{gpio_bsrr_word, gpio_moder_word};

#[test]
fn bsrr_word_sets_pin_in_low_half() {
    assert_eq!(gpio_bsrr_word(5, true), 0x0000_0020);
    assert_eq!(gpio_bsrr_word(0, true), 0x0000_0001);
    assert_eq!(gpio_bsrr_word(15, true), 0x0000_8000);
}

#[test]
fn bsrr_word_resets_pin_in_high_half() {
    assert_eq!(gpio_bsrr_word(5, false), 0x0020_0000);
    assert_eq!(gpio_bsrr_word(0, false), 0x0001_0000);
    assert_eq!(gpio_bsrr_word(15, false), 0x8000_0000);
}

#[test]
fn bsrr_words_for_indicator_pins() {
    assert_eq!(gpio_bsrr_word(LEFT_TRAFFIC_INDICATOR, true), 1 << 5);
    assert_eq!(gpio_bsrr_word(RIGHT_TRAFFIC_INDICATOR, false), 1 << 31);
}

#[test]
fn bsrr_word_with_high_pin_number_set() {
    // A pin number of 16 or more in the set half lands in the reset half.
    assert_eq!(gpio_bsrr_word(20, true), 1 << 20);
}

#[test]
fn moder_word_sets_output_mode_on_cleared_register() {
    assert_eq!(gpio_moder_word(0, 5, 0b01), 0b01 << 10);
}

#[test]
fn moder_word_replaces_only_the_pin_field() {
    let current: u32 = 0xFFFF_FFFF;
    let w = gpio_moder_word(current, 5, 0b01);
    assert_eq!(w, 0xFFFF_F7FF);
    assert_eq!((w >> 10) & 3, 0b01);
    for q in 0..16u32 {
        if q != 5 {
            assert_eq!((w >> (2 * q)) & 3, 3);
        }
    }
}

#[test]
fn moder_word_highest_pin() {
    assert_eq!(gpio_moder_word(0x0000_0000, 15, 0b10), 0x8000_0000);
    assert_eq!(gpio_moder_word(0xC000_0000, 15, 0b00), 0x0000_0000);
}

#[test]
fn moder_word_wide_mode_spills_into_next_field() {
    // A mode wider than two bits is or-ed in as it is.
    assert_eq!(gpio_moder_word(0, 0, 0b111), 0b111);
}
