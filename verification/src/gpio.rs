use vstd::prelude::*;

verus! {

/// Bit `i` of a 32-bit register word.
pub open spec fn bit_of(w: u32, i: u32) -> bool {
    (w >> i) & 1u32 == 1u32
}

/// The BSRR bit that drives `pin` high (`state`) or low: bits 0..16 of BSRR
/// set the matching output pin, bits 16..32 reset it.
pub open spec fn bsrr_bit(pin: u16, state: bool) -> u32 {
    if state { pin as u32 } else { (pin + 16) as u32 }
}

/// The word written to BSRR to drive `pin` high (`state`) or low.
pub fn gpio_bsrr_word(pin: u16, state: bool) -> (w: u32)
    requires
        if state { pin < 32 } else { pin < 16 },
    ensures
        w == 1u32 << bsrr_bit(pin, state),
        forall|i: u32| i < 32 ==> (bit_of(w, i) <==> i == bsrr_bit(pin, state)),
{
    let shift: u32 = if state { pin as u32 } else { pin as u32 + 16 };
    let w: u32 = 1u32 << shift;
    assert forall|i: u32| i < 32 implies (bit_of(w, i) <==> i == shift) by {
        assert(((1u32 << shift) >> i) & 1u32 == 1u32 <==> i == shift) by (bit_vector)
            requires
                shift < 32,
                i < 32,
        ;
    }
    w
}

/// The two-bit MODER field that holds the mode of pin `q`.
pub open spec fn moder_field(w: u32, q: u32) -> u32 {
    (w >> (2 * q) as u32) & 3u32
}

/// The MODER word after `pin` is given `mode`: the pin's two-bit field is
/// cleared and `mode` is or-ed in at the field's position.
pub open spec fn moder_with(current: u32, pin: u16, mode: u8) -> u32 {
    (current & !(3u32 << (2 * pin) as u32)) | ((mode as u32) << (2 * pin) as u32)
}

/// The MODER word that configures `pin` with `mode`, computed from the
/// register's `current` value.  With a two-bit mode only that pin's field
/// changes; a wider mode spills its high bits into the fields of higher pins.
pub fn gpio_moder_word(current: u32, pin: u16, mode: u8) -> (w: u32)
    requires
        pin < 16,
    ensures
        w == moder_with(current, pin, mode),
        moder_field(w, pin as u32) == (mode as u32) & 3u32,
        forall|q: u32| q < pin ==> moder_field(w, q) == moder_field(current, q),
        mode < 4 ==> forall|q: u32| pin < q < 16 ==> moder_field(w, q) == moder_field(current, q),
{
    let shift: u32 = (pin * 2) as u32;
    let mut bits: u32 = current;
    bits = bits & !(0b11u32 << shift);
    bits = bits | ((mode as u32) << shift);
    let m: u32 = mode as u32;
    assert(((bits >> shift) & 3u32) == m & 3u32) by (bit_vector)
        requires
            shift <= 30,
            bits == (current & !(3u32 << shift)) | (m << shift),
    ;
    assert forall|q: u32| q < pin implies moder_field(bits, q) == moder_field(current, q) by {
        let qs: u32 = (2 * q) as u32;
        assert(((bits >> qs) & 3u32) == ((current >> qs) & 3u32)) by (bit_vector)
            requires
                shift < 32,
                qs + 2 <= shift,
                bits == (current & !(3u32 << shift)) | (m << shift),
        ;
    }
    assert forall|q: u32| mode < 4 && pin < q < 16 implies moder_field(bits, q) == moder_field(current, q) by {
        let qs: u32 = (2 * q) as u32;
        assert(((bits >> qs) & 3u32) == ((current >> qs) & 3u32)) by (bit_vector)
            requires
                shift < 32,
                qs < 32,
                shift + 2 <= qs,
                m < 4,
                bits == (current & !(3u32 << shift)) | (m << shift),
        ;
    }
    bits
}

} // verus!
