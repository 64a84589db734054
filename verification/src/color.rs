//! The integer part of the HSV to RGB conversion: which of the four
//! HSV terms lands in each colour channel, by hue sector.

use vstd::prelude::*;

verus! {

/// One of the four terms of the HSV to RGB formula, for a hue `h` in
/// `[0, 6)` with fractional part `f`, saturation `s` and value `v`:
/// `V = v`, `P = v(1 - s)`, `Q = v(1 - s f)`, `T = v(1 - s(1 - f))`.
#[derive(Clone, Copy, Debug, PartialEq, Eq, Structural)]
pub enum HsvTerm {
    V,
    P,
    Q,
    T,
}

/// The terms that go to the red, green and blue channels for the hue
/// sector `sector` (the integer part of `6 * hue`). Sectors 0 to 4 have
/// their own row; every other value (5, and anything a float rounding
/// may produce) takes the last row.
pub open spec fn sector_terms(sector: int) -> (HsvTerm, HsvTerm, HsvTerm) {
    if sector == 0 {
        (HsvTerm::V, HsvTerm::T, HsvTerm::P)
    } else if sector == 1 {
        (HsvTerm::Q, HsvTerm::V, HsvTerm::P)
    } else if sector == 2 {
        (HsvTerm::P, HsvTerm::V, HsvTerm::T)
    } else if sector == 3 {
        (HsvTerm::P, HsvTerm::Q, HsvTerm::V)
    } else if sector == 4 {
        (HsvTerm::T, HsvTerm::P, HsvTerm::V)
    } else {
        (HsvTerm::V, HsvTerm::P, HsvTerm::Q)
    }
}

/// How many of the three channels of `rgb` carry `term`.
pub open spec fn term_count(rgb: (HsvTerm, HsvTerm, HsvTerm), term: HsvTerm) -> int {
    (if rgb.0 == term { 1int } else { 0int }) + (if rgb.1 == term { 1int } else { 0int }) + (
    if rgb.2 == term {
        1int
    } else {
        0int
    })
}

/// Picks, for the hue sector `sector`, the HSV term of each RGB channel.
pub fn hue_sector_terms(sector: i32) -> (rgb: (HsvTerm, HsvTerm, HsvTerm))
    ensures
        rgb == sector_terms(sector as int),
{
    match sector {
        0 => (HsvTerm::V, HsvTerm::T, HsvTerm::P),
        1 => (HsvTerm::Q, HsvTerm::V, HsvTerm::P),
        2 => (HsvTerm::P, HsvTerm::V, HsvTerm::T),
        3 => (HsvTerm::P, HsvTerm::Q, HsvTerm::V),
        4 => (HsvTerm::T, HsvTerm::P, HsvTerm::V),
        _ => (HsvTerm::V, HsvTerm::P, HsvTerm::Q),
    }
}

/// In every sector the value term and the lowest term `P` each fill exactly
/// one channel, and the third channel carries `T` (rising) in the even
/// sectors 0, 2, 4 and `Q` (falling) in the others.
pub proof fn lemma_sector_terms_shape(sector: int)
    ensures
        term_count(sector_terms(sector), HsvTerm::V) == 1,
        term_count(sector_terms(sector), HsvTerm::P) == 1,
        (sector == 0 || sector == 2 || sector == 4) ==> term_count(sector_terms(sector), HsvTerm::T)
            == 1 && term_count(sector_terms(sector), HsvTerm::Q) == 0,
        !(sector == 0 || sector == 2 || sector == 4) ==> term_count(sector_terms(sector), HsvTerm::Q)
            == 1 && term_count(sector_terms(sector), HsvTerm::T) == 0,
{
}

/// Going round the hue circle, the channel that carries the value term
/// moves red, green, green, blue, blue, red: two sectors per channel.
pub proof fn lemma_value_channel_rotates()
    ensures
        sector_terms(0).0 == HsvTerm::V,
        sector_terms(1).1 == HsvTerm::V,
        sector_terms(2).1 == HsvTerm::V,
        sector_terms(3).2 == HsvTerm::V,
        sector_terms(4).2 == HsvTerm::V,
        sector_terms(5).0 == HsvTerm::V,
{
}


/// Whether a term is at the channel's full value (`true`) or at its floor
/// `P` (`false`) at the start of a sector, where the fraction `f` is 0:
/// there `T = P` and `Q = V`.
pub open spec fn high_at_sector_start(t: HsvTerm) -> bool {
    t == HsvTerm::V || t == HsvTerm::Q
}

/// The same at the end of a sector, where `f` reaches 1: there `T = V`
/// and `Q = P`.
pub open spec fn high_at_sector_end(t: HsvTerm) -> bool {
    t == HsvTerm::V || t == HsvTerm::T
}

/// Which channels are high at the start of a sector.
pub open spec fn start_colour(rgb: (HsvTerm, HsvTerm, HsvTerm)) -> (bool, bool, bool) {
    (high_at_sector_start(rgb.0), high_at_sector_start(rgb.1), high_at_sector_start(rgb.2))
}

/// Which channels are high at the end of a sector.
pub open spec fn end_colour(rgb: (HsvTerm, HsvTerm, HsvTerm)) -> (bool, bool, bool) {
    (high_at_sector_end(rgb.0), high_at_sector_end(rgb.1), high_at_sector_end(rgb.2))
}

/// The colour wheel at hue `k / 6`: red, yellow, green, cyan, blue,
/// magenta, as the set of channels at full value.
pub open spec fn wheel_colour(k: int) -> (bool, bool, bool) {
    if k == 0 {
        (true, false, false)
    } else if k == 1 {
        (true, true, false)
    } else if k == 2 {
        (false, true, false)
    } else if k == 3 {
        (false, true, true)
    } else if k == 4 {
        (false, false, true)
    } else {
        (true, false, true)
    }
}

/// The sector table walks the colour wheel: sector `k` starts at the wheel
/// colour of hue `k / 6` and ends at that of hue `(k + 1) / 6`, going red,
/// yellow, green, cyan, blue, magenta and back to red; so the colour is
/// continuous across sector boundaries and hue 0 is pure red. Since a term
/// is fixed by where it starts and ends (`V` high to high, `P` low to low,
/// `T` low to high, `Q` high to low), this fixes every row. Every sector
/// number outside 0 to 4 is read as sector 5.
pub proof fn lemma_sectors_walk_the_colour_wheel()
    ensures
        forall|k: int|
            0 <= k < 6 ==> start_colour(#[trigger] sector_terms(k)) == wheel_colour(k) && end_colour(
                sector_terms(k),
            ) == wheel_colour((k + 1) % 6),
        forall|k: int| !(0 <= k < 5) ==> #[trigger] sector_terms(k) == sector_terms(5),
        forall|a: HsvTerm, b: HsvTerm|
            high_at_sector_start(a) == high_at_sector_start(b) && high_at_sector_end(a)
                == high_at_sector_end(b) ==> a == b,
{
    assert forall|k: int|
        0 <= k < 6 implies start_colour(#[trigger] sector_terms(k)) == wheel_colour(k) && end_colour(
        sector_terms(k),
    ) == wheel_colour((k + 1) % 6) by {
        if k == 0 {
        } else if k == 1 {
        } else if k == 2 {
        } else if k == 3 {
        } else if k == 4 {
        } else {
            assert((k + 1) % 6 == 0);
        }
    }
}

} // verus!
