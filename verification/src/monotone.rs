//! Monotonicity law: over a table whose p-values do not increase with
//! the statistic, the interpolated p-value does not increase with the
//! query, clamped regions included.

use vstd::prelude::*;
use vstd::arithmetic::div_mod::{lemma_div_is_ordered, lemma_div_of0};
use vstd::arithmetic::mul::lemma_mul_inequality;
use crate::interp::{
    bracket_of, is_bracket, lemma_bracket_exists, lemma_lerp_bounds, spec_interpolate, spec_lerp,
};
use crate::table::{table_wf, TableEntry};

verus! {

/// The p-values of `t` never increase along the table.
pub open spec fn p_values_non_increasing(t: Seq<TableEntry>) -> bool {
    forall|i: int, j: int| 0 <= i <= j < t.len() ==> t[i].p_value >= t[j].p_value
}

/// Within one interval with a non-increasing p-value, interpolation does
/// not increase with the query.
pub proof fn lemma_lerp_monotone_in_x(x1: int, y1: int, x2: int, y2: int, xa: int, xb: int)
    requires
        x1 < x2,
        y2 <= y1,
        x1 <= xa <= xb <= x2,
    ensures
        spec_lerp(x1, y1, x2, y2, xa) >= spec_lerp(x1, y1, x2, y2, xb),
{
    let dxx = x2 - x1;
    if y2 == y1 {
        assert((xa - x1) * (y2 - y1) == 0);
        assert((xb - x1) * (y2 - y1) == 0);
        lemma_div_of0(dxx);
    } else {
        let e = y1 - y2;
        lemma_mul_inequality(xa - x1, xb - x1, e);
        lemma_div_is_ordered((xa - x1) * e, (xb - x1) * e, dxx);
    }
}

/// For a query strictly inside the table's statistic range, the result
/// lies between the p-values of the two rows that bracket the query.
pub proof fn lemma_interp_in_segment(t: Seq<TableEntry>, x: int)
    requires
        table_wf(t),
        p_values_non_increasing(t),
        t.len() > 0,
        t[0].statistic < x,
        x < t[t.len() - 1].statistic,
    ensures
        is_bracket(t, x, bracket_of(t, x)),
        t[bracket_of(t, x) + 1].p_value <= spec_interpolate(t, x) <= t[bracket_of(t, x)].p_value,
{
    lemma_bracket_exists(t, x);
    let b = bracket_of(t, x);
    assert(t[b + 1].p_value <= t[b].p_value);
    if t[b + 1].statistic != x {
        lemma_lerp_bounds(
            t[b].statistic as int,
            t[b].p_value as int,
            t[b + 1].statistic as int,
            t[b + 1].p_value as int,
            x,
        );
    }
}

/// Monotonicity law: with p-values non-increasing along the table, a
/// larger query never receives a larger interpolated p-value, whether
/// either query is clamped, exactly matched, or interpolated.
pub proof fn lemma_interpolate_monotone(t: Seq<TableEntry>, xa: int, xb: int)
    requires
        table_wf(t),
        p_values_non_increasing(t),
        xa <= xb,
    ensures
        spec_interpolate(t, xa) >= spec_interpolate(t, xb),
{
    if t.len() == 0 {
        return;
    }
    let n = t.len() as int;
    if xb <= t[0].statistic {
        // both clamp to the first row
    } else if xa <= t[0].statistic {
        if xb >= t[n - 1].statistic {
            assert(t[0].p_value >= t[n - 1].p_value);
        } else {
            lemma_interp_in_segment(t, xb);
            let bb = bracket_of(t, xb);
            assert(t[0].p_value >= t[bb].p_value);
        }
    } else if xa >= t[n - 1].statistic {
        // both clamp to the last row
    } else if xb >= t[n - 1].statistic {
        lemma_interp_in_segment(t, xa);
        let ba = bracket_of(t, xa);
        assert(t[ba + 1].p_value >= t[n - 1].p_value);
    } else {
        lemma_interp_in_segment(t, xa);
        lemma_interp_in_segment(t, xb);
        let ba = bracket_of(t, xa);
        let bb = bracket_of(t, xb);
        if bb < ba {
            assert(t[bb + 1].statistic <= t[ba].statistic);
            assert(false);
        }
        if ba < bb {
            assert(t[ba + 1].p_value >= t[bb].p_value);
        } else {
            let b = ba;
            if t[b + 1].statistic == xb {
                // the larger query matches the upper row exactly
            } else if t[b + 1].statistic == xa {
                assert(false);
            } else {
                lemma_lerp_monotone_in_x(
                    t[b].statistic as int,
                    t[b].p_value as int,
                    t[b + 1].statistic as int,
                    t[b + 1].p_value as int,
                    xa,
                    xb,
                );
            }
        }
    }
}

} // verus!
