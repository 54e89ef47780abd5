use vstd::prelude::*;
use crate::controller::Brightness;
use crate::level::{clamped, raw_of_percent};
use crate::text::{content_value, fits_i32, lemma_text_round_trip, text_of};

verus! {

/// Setting a raw value outside `[0, max]` stores the nearest bound: the
/// maximum above it, zero below zero (on a device whose maximum is not
/// negative), as a later read of the brightness file shows.
pub proof fn lemma_set_out_of_range_clamps(value: int, max: int)
    requires
        fits_i32(value),
        fits_i32(max),
    ensures
        value > max ==> content_value(text_of(clamped(value, max))) == max,
        0 <= max && value < 0 ==> content_value(text_of(clamped(value, max))) == 0,
{
    lemma_text_round_trip(clamped(value, max));
}

/// Setting a raw value inside `[0, max]` stores it unchanged: a later read
/// of the brightness file gives it back.
pub proof fn lemma_set_in_range_round_trip(value: int, max: int)
    requires
        0 <= value <= max,
        fits_i32(max),
    ensures
        content_value(text_of(clamped(value, max))) == value,
{
    lemma_text_round_trip(value);
}

/// Setting one hundred percent stores the maximum.
pub proof fn lemma_full_percent_is_max(max: int)
    requires
        fits_i32(max),
    ensures
        content_value(text_of(clamped(raw_of_percent(100, max), max))) == max,
{
    if max >= 0 {
        assert((2 * (100 * max) + 100) / 200 == max);
    } else {
        assert((-(2 * (100 * max) + 100)) / 200 == -max - 1);
    }
    lemma_text_round_trip(max);
}

/// Setting zero percent stores zero, on a device whose maximum is not negative.
pub proof fn lemma_zero_percent_is_zero(max: int)
    requires
        0 <= max,
        fits_i32(max),
    ensures
        content_value(text_of(clamped(raw_of_percent(0, max), max))) == 0,
{
    assert(100int / 200 == 0);
    lemma_text_round_trip(0);
}

/// A controller that knows its maximum gets it without the maximum file:
/// whatever that file holds, or when it is not read at all, the maximum is
/// the known one.
pub proof fn lemma_known_max_needs_no_read(c: &Brightness, max_file: Option<&[u8]>)
    requires
        c.max_brightness > 0,
    ensures
        c.max_from(max_file) == Some(c.max_brightness as int),
        c.max_from(max_file) == c.max_from(None),
{
}

} // verus!
