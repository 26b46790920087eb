//! The decision orchestrator: nearest-sample-size selection, retrieval
//! of the matching critical values and p-value table, interpolation, and
//! the stationarity verdict.

use vstd::prelude::*;
use crate::interp::{interpolate_p_value, spec_interpolate};
use crate::table::{
    resolve_critical_values, spec_default_critical_values, spec_resolve_critical_values, table_wf,
    CriticalValueInput, CriticalValues, LookupTable, TableEntry, SIGNIFICANCE_MICROS,
};

verus! {

/// Distance between a requested sample size and a table key.
pub open spec fn key_distance(n: int, k: int) -> int {
    if n >= k {
        n - k
    } else {
        k - n
    }
}

/// The keys of a sequence of keyed pairs, in order.
pub open spec fn keys_of<T>(s: Seq<(usize, T)>) -> Seq<usize> {
    s.map_values(|p: (usize, T)| p.0)
}

/// The key of `keys` nearest to `n`. A later key replaces the running
/// best only when strictly closer, so the earliest of equidistant keys
/// wins. `None` exactly when `keys` is empty.
pub open spec fn spec_nearest_key(keys: Seq<usize>, n: usize) -> Option<usize>
    decreases keys.len(),
{
    if keys.len() == 0 {
        None
    } else {
        let last = keys[keys.len() - 1];
        match spec_nearest_key(keys.drop_last(), n) {
            None => Some(last),
            Some(b) => if key_distance(n as int, last as int) < key_distance(n as int, b as int) {
                Some(last)
            } else {
                Some(b)
            },
        }
    }
}

/// Index of the first pair in `s` whose key is `k`.
pub open spec fn spec_first_match<T>(s: Seq<(usize, T)>, k: usize) -> Option<int>
    decreases s.len(),
{
    if s.len() == 0 {
        None
    } else if s[0].0 == k {
        Some(0)
    } else {
        match spec_first_match(s.drop_first(), k) {
            None => None,
            Some(i) => Some(i + 1),
        }
    }
}

/// A key that occurs at `i` and nowhere earlier is the first match.
proof fn lemma_first_match_found<T>(s: Seq<(usize, T)>, k: usize, i: int)
    requires
        0 <= i < s.len(),
        s[i].0 == k,
        forall|j: int| 0 <= j < i ==> s[j].0 != k,
    ensures
        spec_first_match(s, k) == Some(i),
    decreases i,
{
    if i > 0 {
        let s2 = s.drop_first();
        assert(forall|j: int| 0 <= j < s2.len() ==> s2[j] == s[j + 1]);
        lemma_first_match_found(s2, k, i - 1);
    }
}

/// A key that occurs nowhere has no first match.
proof fn lemma_first_match_none<T>(s: Seq<(usize, T)>, k: usize)
    requires
        forall|j: int| 0 <= j < s.len() ==> s[j].0 != k,
    ensures
        spec_first_match(s, k) is None,
    decreases s.len(),
{
    if s.len() > 0 {
        let s2 = s.drop_first();
        assert(forall|j: int| 0 <= j < s2.len() ==> s2[j] == s[j + 1]);
        lemma_first_match_none(s2, k);
    }
}

/// Linear scan for the key of `pairs` nearest to `n`, keeping the
/// earliest of equidistant keys.
fn nearest_key<T>(pairs: &Vec<(usize, T)>, n: usize) -> (r: Option<usize>)
    ensures
        r == spec_nearest_key(keys_of(pairs@), n),
{
    let mut best: Option<usize> = None;
    let mut i: usize = 0;
    while i < pairs.len()
        invariant
            i <= pairs@.len(),
            best == spec_nearest_key(keys_of(pairs@.take(i as int)), n),
        decreases pairs@.len() - i,
    {
        let k = pairs[i].0;
        best = match best {
            None => Some(k),
            Some(b) => {
                let dk = if n >= k { n - k } else { k - n };
                let db = if n >= b { n - b } else { b - n };
                if dk < db {
                    Some(k)
                } else {
                    Some(b)
                }
            },
        };
        proof {
            let s1 = keys_of(pairs@.take(i as int));
            let s2 = keys_of(pairs@.take(i as int + 1));
            assert(s2.drop_last() =~= s1);
            assert(s2[s2.len() - 1] == k);
        }
        i = i + 1;
    }
    proof {
        assert(pairs@.take(pairs@.len() as int) =~= pairs@);
    }
    best
}

/// Linear scan for the position of the first pair stored under key `k`.
fn find_key_index<T>(pairs: &Vec<(usize, T)>, k: usize) -> (r: Option<usize>)
    ensures
        match r {
            Some(i) => 0 <= i < pairs@.len() && spec_first_match(pairs@, k) == Some(i as int),
            None => spec_first_match(pairs@, k) is None,
        },
{
    let mut i: usize = 0;
    while i < pairs.len()
        invariant
            i <= pairs@.len(),
            forall|j: int| 0 <= j < i ==> pairs@[j].0 != k,
        decreases pairs@.len() - i,
    {
        if pairs[i].0 == k {
            proof {
                lemma_first_match_found(pairs@, k, i as int);
            }
            return Some(i);
        }
        i = i + 1;
    }
    proof {
        lemma_first_match_none(pairs@, k);
    }
    None
}

/// Output record of one decision: the echoed statistic, the interpolated
/// p-value (micros), the critical values that applied, and the verdict.
#[derive(Clone, Copy, Debug, PartialEq, Eq, Structural)]
pub struct AdfResult {
    pub statistic: i64,
    pub p_value: i64,
    pub critical_values: CriticalValues,
    pub is_stationary: bool,
}

impl AdfResult {
    /// The critical values that the decision applied.
    pub fn critical_values(&self) -> (r: CriticalValues)
        ensures
            r == self.critical_values,
    {
        self.critical_values
    }
}

/// The whole decision as a function of its inputs: select the key of the
/// critical-value collection nearest the sample size, resolve that
/// record's fields against the defaults (or take the defaults whole when
/// the collection is empty), interpolate the p-value from the table
/// stored under the same key (an absent table acts as empty), and apply
/// the fixed rule: stationary iff the p-value is at most 0.05 and the
/// statistic is below the 5% critical value.
pub open spec fn spec_decide(
    test_statistic: i64,
    sample_size: usize,
    critical_tables: Seq<(usize, CriticalValueInput)>,
    p_tables: Seq<(usize, LookupTable)>,
) -> AdfResult {
    let selected = spec_nearest_key(keys_of(critical_tables), sample_size);
    let cv = match selected {
        None => spec_default_critical_values(),
        Some(k) => match spec_first_match(critical_tables, k) {
            Some(i) => spec_resolve_critical_values(critical_tables[i].1),
            None => spec_default_critical_values(),
        },
    };
    let tab = match selected {
        None => Seq::<TableEntry>::empty(),
        Some(k) => match spec_first_match(p_tables, k) {
            Some(i) => p_tables[i].1@,
            None => Seq::<TableEntry>::empty(),
        },
    };
    let p = spec_interpolate(tab, test_statistic as int);
    AdfResult {
        statistic: test_statistic,
        p_value: p as i64,
        critical_values: cv,
        is_stationary: p <= SIGNIFICANCE_MICROS && test_statistic < cv.five_percent,
    }
}

/// Decision orchestrator. `critical_values` and `p_value_tables` pair
/// sample sizes with critical-value records and with p-value lookup
/// tables; the key nearest `sample_size` (earliest wins a tie) selects
/// one of each, with the documented defaults where a record, a field of
/// one, or a table is absent.
pub fn get_adf_p_value_and_stationarity(
    test_statistic: i64,
    sample_size: usize,
    critical_values: &Vec<(usize, CriticalValueInput)>,
    p_value_tables: &Vec<(usize, LookupTable)>,
) -> (r: AdfResult)
    requires
        forall|i: int| 0 <= i < p_value_tables@.len() ==> table_wf(p_value_tables@[i].1@),
    ensures
        r == spec_decide(test_statistic, sample_size, critical_values@, p_value_tables@),
        r.statistic == test_statistic,
        r.is_stationary == (r.p_value <= SIGNIFICANCE_MICROS
            && test_statistic < r.critical_values.five_percent),
{
    let selected = nearest_key(critical_values, sample_size);
    let cv = match selected {
        None => CriticalValues::default(),
        Some(k) => match find_key_index(critical_values, k) {
            Some(i) => resolve_critical_values(&critical_values[i].1),
            None => CriticalValues::default(),
        },
    };
    let p_value = match selected {
        None => interpolate_p_value(test_statistic, &LookupTable::empty()),
        Some(k) => match find_key_index(p_value_tables, k) {
            Some(i) => interpolate_p_value(test_statistic, &p_value_tables[i].1),
            None => interpolate_p_value(test_statistic, &LookupTable::empty()),
        },
    };
    let is_stationary = p_value <= SIGNIFICANCE_MICROS && test_statistic < cv.five_percent;
    AdfResult { statistic: test_statistic, p_value, critical_values: cv, is_stationary }
}

/// Idempotence law: the decision is a pure function of its inputs, so
/// two calls on identical inputs return the identical result record.
pub proof fn lemma_decide_deterministic(
    statistic_a: i64,
    statistic_b: i64,
    size_a: usize,
    size_b: usize,
    criticals_a: Seq<(usize, CriticalValueInput)>,
    criticals_b: Seq<(usize, CriticalValueInput)>,
    tables_a: Seq<(usize, LookupTable)>,
    tables_b: Seq<(usize, LookupTable)>,
)
    requires
        statistic_a == statistic_b,
        size_a == size_b,
        criticals_a == criticals_b,
        tables_a == tables_b,
    ensures
        spec_decide(statistic_a, size_a, criticals_a, tables_a) == spec_decide(
            statistic_b,
            size_b,
            criticals_b,
            tables_b,
        ),
{
}

} // verus!
