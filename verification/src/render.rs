//! Pure computations behind the bar rendering: how tall and how bright a
//! bar is for a given bucket value. The terminal backend draws with these;
//! it owns the screen itself.

use vstd::prelude::*;

verus! {

use crate::rms::SCALE;
use vstd::arithmetic::div_mod::{lemma_div_is_ordered, lemma_div_multiples_vanish};

/// Height of the bar for `value`, out of `max_height` cells: proportional
/// to the value, full scale reaching the full height.
pub fn bar_height(value: u32, max_height: u16) -> (h: u16)
    requires
        value <= SCALE,
    ensures
        h as int == (value as int * max_height as int) / (SCALE as int),
        h <= max_height,
{
    proof {
        assert((value as int) * (max_height as int) <= (SCALE as int) * (max_height as int))
            by (nonlinear_arith)
            requires
                value as int <= SCALE as int,
                0 <= max_height as int;
        lemma_div_is_ordered(
            (value as int) * (max_height as int),
            (SCALE as int) * (max_height as int),
            SCALE as int,
        );
        lemma_div_multiples_vanish(max_height as int, SCALE as int);
    }
    (((value as u64) * (max_height as u64)) / (SCALE as u64)) as u16
}

/// Brightness of the bar for `value`, out of 255: proportional to the
/// value, full scale reaching full brightness.
pub fn bar_brightness(value: u32) -> (b: u8)
    requires
        value <= SCALE,
    ensures
        b as int == (value as int * 255) / (SCALE as int),
        b <= 255,
{
    proof {
        lemma_div_is_ordered((value as int) * 255, (SCALE as int) * 255, SCALE as int);
        lemma_div_multiples_vanish(255, SCALE as int);
    }
    (((value as u64) * 255) / (SCALE as u64)) as u8
}

} // verus!
