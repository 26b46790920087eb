//! Data model: fixed-point table entries, the sorted p-value lookup table,
//! and the critical-value records with their named default constants.

use vstd::prelude::*;

verus! {

/// Fixed-point scale: one unit is 1_000_000 micros, so a p-value of 1.0
/// is stored as `MICROS_PER_UNIT`.
pub const MICROS_PER_UNIT: i64 = 1_000_000;

/// The fixed significance threshold 0.05, in micros.
pub const SIGNIFICANCE_MICROS: i64 = 50_000;

/// Default critical value at the 1% level (-3.43), in micros, used when
/// no critical-value record applies.
pub const DEFAULT_CRITICAL_1_PERCENT: i64 = -3_430_000;

/// Default critical value at the 5% level (-2.86), in micros.
pub const DEFAULT_CRITICAL_5_PERCENT: i64 = -2_860_000;

/// Default critical value at the 10% level (-2.57), in micros.
pub const DEFAULT_CRITICAL_10_PERCENT: i64 = -2_570_000;

/// Largest magnitude a table coordinate may have, in micros (one million
/// units). The bound keeps every interpolation product inside `u128`.
pub const MAX_ABS_MICROS: i64 = 1_000_000_000_000;

/// One row of a p-value lookup table: a test statistic paired with the
/// p-value it maps to, both in micros.
#[derive(Clone, Copy, Debug, PartialEq, Eq, Structural)]
pub struct TableEntry {
    pub statistic: i64,
    pub p_value: i64,
}

/// Both coordinates of `e` are within `MAX_ABS_MICROS` in magnitude.
pub open spec fn entry_in_range(e: TableEntry) -> bool {
    &&& -MAX_ABS_MICROS <= e.statistic <= MAX_ABS_MICROS
    &&& -MAX_ABS_MICROS <= e.p_value <= MAX_ABS_MICROS
}

/// Well-formed table: entries sorted by statistic (non-decreasing, so
/// duplicate statistics are tolerated) and every coordinate in range.
pub open spec fn table_wf(t: Seq<TableEntry>) -> bool {
    &&& forall|i: int, j: int| 0 <= i <= j < t.len() ==> t[i].statistic <= t[j].statistic
    &&& forall|i: int| 0 <= i < t.len() ==> entry_in_range(t[i])
}

/// Error kind for a caller-supplied collection that violates the data
/// model, as opposed to the defined numeric fallbacks, which are values.
#[derive(Clone, Copy, Debug, PartialEq, Eq, Structural)]
pub enum AdfError {
    InvalidInput,
}

/// An ordered sequence of `(statistic, p_value)` pairs, sorted ascending
/// by statistic. Construction validates the ordering and the coordinate
/// range, so a held table is always well-formed.
#[derive(Clone, Debug)]
pub struct LookupTable {
    entries: Vec<TableEntry>,
}

impl View for LookupTable {
    type V = Seq<TableEntry>;

    closed spec fn view(&self) -> Seq<TableEntry> {
        self.entries@
    }
}

impl LookupTable {
    /// Validates and wraps a sorted list of rows; rejects an unsorted row
    /// or an out-of-range coordinate as `InvalidInput`.
    pub fn new(entries: Vec<TableEntry>) -> (r: Result<LookupTable, AdfError>)
        ensures
            match r {
                Ok(t) => t@ == entries@ && table_wf(entries@),
                Err(e) => e == AdfError::InvalidInput && !table_wf(entries@),
            },
    {
        let n = entries.len();
        let mut i: usize = 0;
        while i < n
            invariant
                n == entries@.len(),
                i <= n,
                forall|a: int, b: int|
                    0 <= a <= b < i ==> entries@[a].statistic <= entries@[b].statistic,
                forall|a: int| 0 <= a < i ==> entry_in_range(entries@[a]),
            decreases n - i,
        {
            let e = entries[i];
            if e.statistic < -MAX_ABS_MICROS || e.statistic > MAX_ABS_MICROS
                || e.p_value < -MAX_ABS_MICROS || e.p_value > MAX_ABS_MICROS {
                return Err(AdfError::InvalidInput);
            }
            if i > 0 && entries[i - 1].statistic > e.statistic {
                return Err(AdfError::InvalidInput);
            }
            i = i + 1;
        }
        Ok(LookupTable { entries })
    }

    /// A table with no rows: interpolation over it yields the defined
    /// fallback p-value of one unit.
    pub fn empty() -> (r: LookupTable)
        ensures
            r@ == Seq::<TableEntry>::empty(),
    {
        LookupTable { entries: Vec::new() }
    }

    pub fn len(&self) -> (n: usize)
        ensures
            n == self@.len(),
    {
        self.entries.len()
    }

    pub fn entry(&self, i: usize) -> (e: TableEntry)
        requires
            i < self@.len(),
        ensures
            e == self@[i as int],
    {
        self.entries[i]
    }
}

/// A resolved record of the three critical test-statistic boundaries,
/// keyed by significance level, in micros.
#[derive(Clone, Copy, Debug, PartialEq, Eq, Structural)]
pub struct CriticalValues {
    pub one_percent: i64,
    pub five_percent: i64,
    pub ten_percent: i64,
}

/// The named default critical-value record, used whenever no
/// caller-supplied record (or field of one) applies.
pub open spec fn spec_default_critical_values() -> CriticalValues {
    CriticalValues {
        one_percent: DEFAULT_CRITICAL_1_PERCENT,
        five_percent: DEFAULT_CRITICAL_5_PERCENT,
        ten_percent: DEFAULT_CRITICAL_10_PERCENT,
    }
}

impl Default for CriticalValues {
    fn default() -> (r: CriticalValues)
        ensures
            r == spec_default_critical_values(),
    {
        CriticalValues {
            one_percent: DEFAULT_CRITICAL_1_PERCENT,
            five_percent: DEFAULT_CRITICAL_5_PERCENT,
            ten_percent: DEFAULT_CRITICAL_10_PERCENT,
        }
    }
}

/// A caller-supplied critical-value record in which any field may be
/// absent; each absent field falls back individually to the default.
#[derive(Clone, Copy, Debug)]
pub struct CriticalValueInput {
    pub one_percent: Option<i64>,
    pub five_percent: Option<i64>,
    pub ten_percent: Option<i64>,
}

/// Per-field resolution of a partial critical-value record against the
/// named defaults.
pub open spec fn spec_resolve_critical_values(c: CriticalValueInput) -> CriticalValues {
    CriticalValues {
        one_percent: match c.one_percent {
            Some(v) => v,
            None => DEFAULT_CRITICAL_1_PERCENT,
        },
        five_percent: match c.five_percent {
            Some(v) => v,
            None => DEFAULT_CRITICAL_5_PERCENT,
        },
        ten_percent: match c.ten_percent {
            Some(v) => v,
            None => DEFAULT_CRITICAL_10_PERCENT,
        },
    }
}

/// Fills each absent field of `c` with the matching default constant.
pub fn resolve_critical_values(c: &CriticalValueInput) -> (r: CriticalValues)
    ensures
        r == spec_resolve_critical_values(*c),
{
    CriticalValues {
        one_percent: match c.one_percent {
            Some(v) => v,
            None => DEFAULT_CRITICAL_1_PERCENT,
        },
        five_percent: match c.five_percent {
            Some(v) => v,
            None => DEFAULT_CRITICAL_5_PERCENT,
        },
        ten_percent: match c.ten_percent {
            Some(v) => v,
            None => DEFAULT_CRITICAL_10_PERCENT,
        },
    }
}

} // verus!
