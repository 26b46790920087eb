//! The interpolation engine: binary search over a sorted lookup table,
//! clamping at both ends, and fixed-point linear interpolation.

use vstd::prelude::*;
use vstd::arithmetic::div_mod::{
    lemma_div_is_ordered, lemma_div_multiples_vanish, lemma_div_pos_is_pos,
};
use vstd::arithmetic::mul::{lemma_mul_inequality, lemma_mul_nonnegative};
use crate::table::{
    table_wf, LookupTable, TableEntry, MAX_ABS_MICROS, MICROS_PER_UNIT,
};

verus! {

/// Linear interpolation between `(x1, y1)` and `(x2, y2)` evaluated at
/// `x`, in integer micros. The fractional offset is truncated toward
/// `y1`, so the result always lies between `y1` and `y2`. A zero-width
/// interval falls back to `y1` rather than dividing by zero.
pub open spec fn spec_lerp(x1: int, y1: int, x2: int, y2: int, x: int) -> int {
    if x2 == x1 {
        y1
    } else if y2 >= y1 {
        y1 + ((x - x1) * (y2 - y1)) / (x2 - x1)
    } else {
        y1 - ((x - x1) * (y1 - y2)) / (x2 - x1)
    }
}

/// Index `i` brackets `x` in `t`: the query lies above row `i` and no
/// higher than row `i + 1`.
pub open spec fn is_bracket(t: Seq<TableEntry>, x: int, i: int) -> bool {
    &&& 0 <= i < t.len() - 1
    &&& t[i].statistic < x
    &&& x <= t[i + 1].statistic
}

/// The bracketing index of `x` in `t`; unique in a sorted table whenever
/// `x` lies strictly between the first and last statistic.
pub open spec fn bracket_of(t: Seq<TableEntry>, x: int) -> int {
    choose|i: int| is_bracket(t, x, i)
}

/// What interpolation returns: the fallback of one unit on an empty
/// table, the nearest boundary p-value for a query outside the table's
/// range, the stored p-value on an exact statistic match, and otherwise
/// the linear interpolation over the bracketing interval.
pub open spec fn spec_interpolate(t: Seq<TableEntry>, x: int) -> int {
    if t.len() == 0 {
        MICROS_PER_UNIT as int
    } else if x <= t[0].statistic {
        t[0].p_value as int
    } else if x >= t[t.len() - 1].statistic {
        t[t.len() - 1].p_value as int
    } else {
        let i = bracket_of(t, x);
        if t[i + 1].statistic == x {
            t[i + 1].p_value as int
        } else {
            spec_lerp(
                t[i].statistic as int,
                t[i].p_value as int,
                t[i + 1].statistic as int,
                t[i + 1].p_value as int,
                x,
            )
        }
    }
}

/// In a sorted table, a query strictly inside the table's statistic range
/// has a bracketing index, and `bracket_of` denotes it.
pub proof fn lemma_bracket_exists(t: Seq<TableEntry>, x: int)
    requires
        table_wf(t),
        t.len() >= 2,
        t[0].statistic < x,
        x <= t[t.len() - 1].statistic,
    ensures
        is_bracket(t, x, bracket_of(t, x)),
    decreases t.len(),
{
    if t[t.len() - 2].statistic < x {
        assert(is_bracket(t, x, t.len() - 2));
    } else if t.len() == 2 {
        assert(false);
    } else {
        let t2 = t.drop_last();
        assert(forall|i: int| 0 <= i < t2.len() ==> t2[i] == t[i]);
        lemma_bracket_exists(t2, x);
        let i = bracket_of(t2, x);
        assert(is_bracket(t, x, i));
    }
    assert(exists|i: int| is_bracket(t, x, i));
}

/// In a sorted table the bracketing index is unique.
pub proof fn lemma_bracket_unique(t: Seq<TableEntry>, x: int, i: int, j: int)
    requires
        table_wf(t),
        is_bracket(t, x, i),
        is_bracket(t, x, j),
    ensures
        i == j,
{
    if i < j {
        assert(t[i + 1].statistic <= t[j].statistic);
        assert(false);
    }
    if j < i {
        assert(t[j + 1].statistic <= t[i].statistic);
        assert(false);
    }
}

/// The interpolated value never leaves the interval spanned by the two
/// endpoint p-values.
pub proof fn lemma_lerp_bounds(x1: int, y1: int, x2: int, y2: int, x: int)
    requires
        x1 <= x <= x2,
    ensures
        y1 <= y2 ==> y1 <= spec_lerp(x1, y1, x2, y2, x) <= y2,
        y2 <= y1 ==> y2 <= spec_lerp(x1, y1, x2, y2, x) <= y1,
{
    if x2 != x1 {
        let dx = x - x1;
        let dxx = x2 - x1;
        if y2 >= y1 {
            let e = y2 - y1;
            lemma_mul_nonnegative(dx, e);
            lemma_div_pos_is_pos(dx * e, dxx);
            lemma_mul_inequality(dx, dxx, e);
            lemma_div_is_ordered(dx * e, dxx * e, dxx);
            assert(dxx * e == e * dxx) by (nonlinear_arith);
            lemma_div_multiples_vanish(e, dxx);
            assert((dx * e) / dxx <= e);
        } else {
            let e = y1 - y2;
            lemma_mul_nonnegative(dx, e);
            lemma_div_pos_is_pos(dx * e, dxx);
            lemma_mul_inequality(dx, dxx, e);
            lemma_div_is_ordered(dx * e, dxx * e, dxx);
            assert(dxx * e == e * dxx) by (nonlinear_arith);
            lemma_div_multiples_vanish(e, dxx);
            assert((dx * e) / dxx <= e);
        }
    }
}

/// Exact-match law: where the query equals a stored statistic (and every
/// row that shares that statistic carries the same p-value), the stored
/// p-value comes back with no interpolation arithmetic.
pub proof fn lemma_interpolate_exact_match(t: Seq<TableEntry>, x: int, i: int)
    requires
        table_wf(t),
        0 <= i < t.len(),
        t[i].statistic == x,
        forall|j: int| 0 <= j < t.len() && t[j].statistic == x ==> t[j].p_value == t[i].p_value,
    ensures
        spec_interpolate(t, x) == t[i].p_value,
{
    if x <= t[0].statistic {
        assert(t[0].statistic <= t[i].statistic);
        assert(t[0].statistic == x);
    } else if x >= t[t.len() - 1].statistic {
        assert(t[i].statistic <= t[t.len() - 1].statistic);
        assert(t[t.len() - 1].statistic == x);
    } else {
        lemma_bracket_exists(t, x);
        let b = bracket_of(t, x);
        assert(t[b].statistic < t[i].statistic);
        assert(b < i);
        assert(t[b + 1].statistic <= t[i].statistic);
        assert(t[b + 1].statistic == x);
    }
}

/// Bracketed-interval law: for a query strictly between two adjacent
/// statistics the result is the linear interpolation over exactly that
/// interval.
pub proof fn lemma_interpolate_bracketed(t: Seq<TableEntry>, x: int, i: int)
    requires
        table_wf(t),
        0 <= i < t.len() - 1,
        t[i].statistic < x < t[i + 1].statistic,
    ensures
        spec_interpolate(t, x) == spec_lerp(
            t[i].statistic as int,
            t[i].p_value as int,
            t[i + 1].statistic as int,
            t[i + 1].p_value as int,
            x,
        ),
{
    assert(t[0].statistic <= t[i].statistic);
    assert(t[i + 1].statistic <= t[t.len() - 1].statistic);
    assert(is_bracket(t, x, i));
    assert(is_bracket(t, x, bracket_of(t, x)));
    lemma_bracket_unique(t, x, i, bracket_of(t, x));
}

/// At an exactly representable midpoint of an interval whose p-values
/// have an exactly representable mean, interpolation returns that mean.
pub proof fn lemma_lerp_midpoint(x1: int, y1: int, x2: int, y2: int, x: int)
    requires
        x1 < x2,
        2 * x == x1 + x2,
        (y1 + y2) % 2 == 0,
    ensures
        spec_lerp(x1, y1, x2, y2, x) == (y1 + y2) / 2,
{
    let m = x - x1;
    assert(x2 - x1 == 2 * m);
    assert(0 < m);
    if y2 >= y1 {
        let e = y2 - y1;
        assert(e % 2 == 0);
        let h = e / 2;
        assert(e == 2 * h);
        assert(m * e == (2 * m) * h) by (nonlinear_arith)
            requires
                e == 2 * h,
        ;
        lemma_div_multiples_vanish(h, 2 * m);
        assert((m * e) / (2 * m) == h);
        assert(y1 + y2 == 2 * (y1 + h));
        lemma_div_multiples_vanish(y1 + h, 2);
        assert((y1 + y2) / 2 == y1 + h);
    } else {
        let e = y1 - y2;
        assert(e % 2 == 0);
        let h = e / 2;
        assert(e == 2 * h);
        assert(m * e == (2 * m) * h) by (nonlinear_arith)
            requires
                e == 2 * h,
        ;
        lemma_div_multiples_vanish(h, 2 * m);
        assert((m * e) / (2 * m) == h);
        assert(y1 + y2 == 2 * (y1 - h));
        lemma_div_multiples_vanish(y1 - h, 2);
        assert((y1 + y2) / 2 == y1 - h);
    }
}

/// Midpoint law over a table: at the exactly representable midpoint of
/// an interval whose p-values have an exactly representable mean, the
/// interpolated p-value is that mean.
pub proof fn lemma_interpolate_midpoint(t: Seq<TableEntry>, x: int, i: int)
    requires
        table_wf(t),
        0 <= i < t.len() - 1,
        t[i].statistic < t[i + 1].statistic,
        2 * x == t[i].statistic + t[i + 1].statistic,
        (t[i].p_value + t[i + 1].p_value) % 2 == 0,
    ensures
        spec_interpolate(t, x) == (t[i].p_value + t[i + 1].p_value) / 2,
{
    assert(t[i].statistic < x < t[i + 1].statistic);
    lemma_interpolate_bracketed(t, x, i);
    lemma_lerp_midpoint(
        t[i].statistic as int,
        t[i].p_value as int,
        t[i + 1].statistic as int,
        t[i + 1].p_value as int,
        x,
    );
}

/// Fixed-point linear interpolation on machine integers; the computed
/// quotient matches the mathematical definition exactly.
fn lerp(x1: i64, y1: i64, x2: i64, y2: i64, x: i64) -> (r: i64)
    requires
        -MAX_ABS_MICROS <= x1 <= MAX_ABS_MICROS,
        -MAX_ABS_MICROS <= y1 <= MAX_ABS_MICROS,
        -MAX_ABS_MICROS <= x2 <= MAX_ABS_MICROS,
        -MAX_ABS_MICROS <= y2 <= MAX_ABS_MICROS,
        x1 <= x <= x2,
    ensures
        r == spec_lerp(x1 as int, y1 as int, x2 as int, y2 as int, x as int),
{
    if x2 == x1 {
        return y1;
    }
    proof {
        lemma_lerp_bounds(x1 as int, y1 as int, x2 as int, y2 as int, x as int);
    }
    let dxx: u128 = (x2 as i128 - x1 as i128) as u128;
    let dx: u128 = (x as i128 - x1 as i128) as u128;
    if y2 >= y1 {
        let dy: u128 = (y2 as i128 - y1 as i128) as u128;
        proof {
            assert(dx * dy <= (2 * MAX_ABS_MICROS) * (2 * MAX_ABS_MICROS))
                by (nonlinear_arith)
                requires
                    dx <= 2 * MAX_ABS_MICROS,
                    dy <= 2 * MAX_ABS_MICROS,
            ;
        }
        let q: u128 = (dx * dy) / dxx;
        y1 + (q as i64)
    } else {
        let dy: u128 = (y1 as i128 - y2 as i128) as u128;
        proof {
            assert(dx * dy <= (2 * MAX_ABS_MICROS) * (2 * MAX_ABS_MICROS))
                by (nonlinear_arith)
                requires
                    dx <= 2 * MAX_ABS_MICROS,
                    dy <= 2 * MAX_ABS_MICROS,
            ;
        }
        let q: u128 = (dx * dy) / dxx;
        y1 - (q as i64)
    }
}

/// Approximate p-value for `test_statistic` from the sorted `table`, in
/// micros: one unit for an empty table, the boundary p-value for a query
/// at or beyond either end, the stored p-value on an exact match, and
/// otherwise linear interpolation over the bracketing interval, located
/// by binary search.
pub fn interpolate_p_value(test_statistic: i64, table: &LookupTable) -> (r: i64)
    requires
        table_wf(table@),
    ensures
        r == spec_interpolate(table@, test_statistic as int),
        table@.len() == 0 ==> r == MICROS_PER_UNIT,
        table@.len() > 0 && test_statistic <= table@[0].statistic ==> r == table@[0].p_value,
        table@.len() > 0 && test_statistic > table@[0].statistic
            && test_statistic >= table@[table@.len() - 1].statistic
            ==> r == table@[table@.len() - 1].p_value,
{
    let n = table.len();
    if n == 0 {
        return MICROS_PER_UNIT;
    }
    let first = table.entry(0);
    if test_statistic <= first.statistic {
        return first.p_value;
    }
    let last = table.entry(n - 1);
    if test_statistic >= last.statistic {
        return last.p_value;
    }
    let mut lo: usize = 0;
    let mut hi: usize = n - 1;
    while hi - lo > 1
        invariant
            table_wf(table@),
            n == table@.len(),
            lo < hi < n,
            table@[lo as int].statistic < test_statistic,
            test_statistic <= table@[hi as int].statistic,
        decreases hi - lo,
    {
        let mid = lo + (hi - lo) / 2;
        let e = table.entry(mid);
        if e.statistic < test_statistic {
            lo = mid;
        } else {
            hi = mid;
        }
    }
    proof {
        assert(is_bracket(table@, test_statistic as int, lo as int));
        assert(is_bracket(table@, test_statistic as int, bracket_of(table@, test_statistic as int)));
        lemma_bracket_unique(
            table@,
            test_statistic as int,
            lo as int,
            bracket_of(table@, test_statistic as int),
        );
    }
    let e1 = table.entry(lo);
    let e2 = table.entry(lo + 1);
    if e2.statistic == test_statistic {
        return e2.p_value;
    }
    lerp(e1.statistic, e1.p_value, e2.statistic, e2.p_value, test_statistic)
}

} // verus!
