//! Numeric width resolution: per integer slot the observed magnitudes are
//! accumulated, and once all occurrences are seen the smallest canonical
//! width (8/16/32/64/128 bits) representing the full range is chosen.
//! Floats resolve uniformly to the 64-bit floating type.

use vstd::prelude::*;
use crate::value::IntLit;

verus! {

/// Accumulated observations of one integer slot: whether a negative value
/// was seen, the largest magnitude among negative values, and the largest
/// non-negative value.
#[derive(Clone, Copy, Debug, PartialEq, Eq, Structural)]
pub struct IntStats {
    pub any_negative: bool,
    pub neg_mag: u64,
    pub pos_mag: u64,
}

#[derive(Clone, Copy, Debug, PartialEq, Eq, Structural)]
pub enum IntWidth {
    W8,
    W16,
    W32,
    W64,
    W128,
}

pub open spec fn bits(w: IntWidth) -> nat {
    match w {
        IntWidth::W8 => 8,
        IntWidth::W16 => 16,
        IntWidth::W32 => 32,
        IntWidth::W64 => 64,
        IntWidth::W128 => 128,
    }
}

/// The statistics of a single observed integer.
pub open spec fn stats_of(i: int) -> IntStats {
    IntStats {
        any_negative: i < 0,
        neg_mag: if i < 0 {
            (-i) as u64
        } else {
            0
        },
        pos_mag: if i >= 0 {
            i as u64
        } else {
            0
        },
    }
}

/// Statistics of the union of two sets of observations.
pub open spec fn merge_stats(a: IntStats, b: IntStats) -> IntStats {
    IntStats {
        any_negative: a.any_negative || b.any_negative,
        neg_mag: if a.neg_mag >= b.neg_mag {
            a.neg_mag
        } else {
            b.neg_mag
        },
        pos_mag: if a.pos_mag >= b.pos_mag {
            a.pos_mag
        } else {
            b.pos_mag
        },
    }
}

/// Whether every observed value fits the signed type of width `w`.
pub open spec fn signed_fits(st: IntStats, w: IntWidth) -> bool {
    match w {
        IntWidth::W8 => st.neg_mag <= 128 && st.pos_mag <= 127,
        IntWidth::W16 => st.neg_mag <= 32768 && st.pos_mag <= 32767,
        IntWidth::W32 => st.neg_mag <= 2147483648 && st.pos_mag <= 2147483647,
        IntWidth::W64 => st.neg_mag <= 9223372036854775808 && st.pos_mag
            <= 9223372036854775807,
        IntWidth::W128 => true,
    }
}

/// Whether every observed value fits the unsigned type of width `w` (which
/// requires that no negative value was observed).
pub open spec fn unsigned_fits(st: IntStats, w: IntWidth) -> bool {
    !st.any_negative && match w {
        IntWidth::W8 => st.pos_mag <= 255,
        IntWidth::W16 => st.pos_mag <= 65535,
        IntWidth::W32 => st.pos_mag <= 4294967295,
        IntWidth::W64 => true,
        IntWidth::W128 => true,
    }
}

/// The resolved representation of an integer slot: signed unless the slot is
/// never negative and some observation exceeds the signed 64-bit maximum.
/// An unsigned slot therefore always resolves to the 64-bit width, the
/// smallest unsigned width that holds a value beyond the signed range.
pub open spec fn resolve_int(st: IntStats) -> (bool, IntWidth) {
    if !st.any_negative && st.pos_mag > 9223372036854775807 {
        (false, IntWidth::W64)
    } else {
        (
            true,
            if st.neg_mag <= 128 && st.pos_mag <= 127 {
                IntWidth::W8
            } else if st.neg_mag <= 32768 && st.pos_mag <= 32767 {
                IntWidth::W16
            } else if st.neg_mag <= 2147483648 && st.pos_mag <= 2147483647 {
                IntWidth::W32
            } else if st.neg_mag <= 9223372036854775808 && st.pos_mag <= 9223372036854775807 {
                IntWidth::W64
            } else {
                IntWidth::W128
            },
        )
    }
}

pub fn exec_stats_of(l: IntLit) -> (r: IntStats)
    ensures
        r == stats_of(l.value()),
{
    if l.negative && l.magnitude > 0 {
        IntStats { any_negative: true, neg_mag: l.magnitude, pos_mag: 0 }
    } else {
        IntStats { any_negative: false, neg_mag: 0, pos_mag: l.magnitude }
    }
}

pub fn exec_merge_stats(a: IntStats, b: IntStats) -> (r: IntStats)
    ensures
        r == merge_stats(a, b),
{
    IntStats {
        any_negative: a.any_negative || b.any_negative,
        neg_mag: if a.neg_mag >= b.neg_mag {
            a.neg_mag
        } else {
            b.neg_mag
        },
        pos_mag: if a.pos_mag >= b.pos_mag {
            a.pos_mag
        } else {
            b.pos_mag
        },
    }
}

pub fn exec_resolve_int(st: IntStats) -> (r: (bool, IntWidth))
    ensures
        r == resolve_int(st),
{
    if !st.any_negative && st.pos_mag > 9223372036854775807 {
        (false, IntWidth::W64)
    } else if st.neg_mag <= 128 && st.pos_mag <= 127 {
        (true, IntWidth::W8)
    } else if st.neg_mag <= 32768 && st.pos_mag <= 32767 {
        (true, IntWidth::W16)
    } else if st.neg_mag <= 2147483648 && st.pos_mag <= 2147483647 {
        (true, IntWidth::W32)
    } else if st.neg_mag <= 9223372036854775808 && st.pos_mag <= 9223372036854775807 {
        (true, IntWidth::W64)
    } else {
        (true, IntWidth::W128)
    }
}

/// The resolved representation is sound and minimal: every observation fits
/// it, and no strictly narrower width of the same signedness fits.
pub proof fn lemma_resolve_minimal(st: IntStats)
    ensures
        resolve_int(st).0 ==> signed_fits(st, resolve_int(st).1),
        !resolve_int(st).0 ==> unsigned_fits(st, resolve_int(st).1),
        forall|w: IntWidth|
            bits(w) < bits(resolve_int(st).1) ==> (if resolve_int(st).0 {
                !signed_fits(st, w)
            } else {
                !unsigned_fits(st, w)
            }),
        resolve_int(st).0 <==> (st.any_negative || st.pos_mag <= 9223372036854775807),
{
}

} // verus!
