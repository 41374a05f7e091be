//! Colours in fixed point: every channel runs from 0 (dark) to 1000 (full).
//!
//! A brick's base colour is derived once from its horizontal position by a
//! hue-from-x mapping through the HSV colour model.

use vstd::prelude::*;

verus! {

use crate::fixed::{abs_i64, spec_abs};
use vstd::arithmetic::div_mod::{
    lemma_div_is_ordered, lemma_div_multiples_vanish, lemma_div_pos_is_pos, lemma_mod_bound,
};

/// An RGBA colour; channels are scaled by 1000.
#[derive(Clone, Copy, PartialEq, Eq, Structural, Debug)]
pub struct Rgba {
    /// Red channel, `0 ..= 1000`.
    pub r: u32,
    /// Green channel, `0 ..= 1000`.
    pub g: u32,
    /// Blue channel, `0 ..= 1000`.
    pub b: u32,
    /// Alpha channel, `0 ..= 1000`.
    pub a: u32,
}

/// Every channel of `c` is in range.
pub open spec fn color_wf(c: Rgba) -> bool {
    c.r <= 1000 && c.g <= 1000 && c.b <= 1000 && c.a <= 1000
}

/// The red, green and blue channels of hue `h` (millidegrees), saturation
/// `s` and value `v` (both scaled by 1000), by the usual piecewise HSV
/// conversion in fixed point.
pub open spec fn spec_hsv_channels(h: int, s: int, v: int) -> (int, int, int) {
    let c = v * s / 1000;
    let hp = (h % 360000) / 60;
    let x = c * (1000 - spec_abs(hp % 2000 - 1000)) / 1000;
    let m = v - c;
    if hp < 1000 {
        (c + m, x + m, m)
    } else if hp < 2000 {
        (x + m, c + m, m)
    } else if hp < 3000 {
        (m, c + m, x + m)
    } else if hp < 4000 {
        (m, x + m, c + m)
    } else if hp < 5000 {
        (x + m, m, c + m)
    } else {
        (c + m, m, x + m)
    }
}

/// Convert a hue in millidegrees with saturation and value scaled by 1000
/// into a fully opaque RGBA colour.
pub fn hsv_to_rgb(h: i64, s: i64, v: i64) -> (res: Rgba)
    requires
        0 <= h,
        0 <= s <= 1000,
        0 <= v <= 1000,
    ensures
        ({
            let (cr, cg, cb) = spec_hsv_channels(h as int, s as int, v as int);
            res.r == cr && res.g == cg && res.b == cb
        }),
        res.a == 1000,
        color_wf(res),
{
    proof {
        assert(0 <= v as int * s as int <= v as int * 1000 && v as int * 1000 <= 1000000)
            by (nonlinear_arith)
            requires
                0 <= v as int <= 1000,
                0 <= s as int <= 1000,
        {
        }
    }
    let c: i64 = v * s / 1000;
    proof {
        lemma_div_pos_is_pos(v as int * s as int, 1000);
        lemma_div_is_ordered(v as int * s as int, v as int * 1000, 1000);
        lemma_div_multiples_vanish(v as int, 1000);
    }
    let hp: i64 = (h % 360000) / 60;
    proof {
        lemma_mod_bound(h as int, 360000);
        lemma_div_pos_is_pos(h as int % 360000, 60);
        lemma_div_is_ordered(h as int % 360000, 359999, 60);
    }
    let w: i64 = 1000 - abs_i64(hp % 2000 - 1000);
    proof {
        lemma_mod_bound(hp as int, 2000);
    }
    proof {
        assert(0 <= c as int * w as int <= c as int * 1000 && c as int * 1000 <= 1000000)
            by (nonlinear_arith)
            requires
                0 <= c as int <= 1000,
                0 <= w as int <= 1000,
        {
        }
    }
    let x: i64 = c * w / 1000;
    proof {
        lemma_div_pos_is_pos(c as int * w as int, 1000);
        lemma_div_is_ordered(c as int * w as int, c as int * 1000, 1000);
        lemma_div_multiples_vanish(c as int, 1000);
    }
    let m: i64 = v - c;
    let (r1, g1, b1): (i64, i64, i64) = if hp < 1000 {
        (c, x, 0)
    } else if hp < 2000 {
        (x, c, 0)
    } else if hp < 3000 {
        (0, c, x)
    } else if hp < 4000 {
        (0, x, c)
    } else if hp < 5000 {
        (x, 0, c)
    } else {
        (c, 0, x)
    };
    Rgba { r: (r1 + m) as u32, g: (g1 + m) as u32, b: (b1 + m) as u32, a: 1000u32 }
}

} // verus!
