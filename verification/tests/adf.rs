use adf_test::decision::get_adf_p_value_and_stationarity;
use adf_test::interp::interpolate_p_value;
use adf_test::table::{
    resolve_critical_values, AdfError, CriticalValueInput, CriticalValues, LookupTable,
    TableEntry, DEFAULT_CRITICAL_10_PERCENT, DEFAULT_CRITICAL_1_PERCENT,
    DEFAULT_CRITICAL_5_PERCENT, MICROS_PER_UNIT,
};

fn entry(statistic: i64, p_value: i64) -> TableEntry {
    TableEntry { statistic, p_value }
}

// Statistics and p-values are in micros: -3.12 is -3_120_000, a p-value
// of 0.05 is 50_000.
fn sample_table() -> LookupTable {
    LookupTable::new(vec![
        entry(-4_000_000, 10_000),
        entry(-3_000_000, 50_000),
        entry(-2_000_000, 100_000),
        entry(-1_000_000, 500_000),
    ])
    .unwrap()
}

fn crit(one: i64, five: i64, ten: i64) -> CriticalValueInput {
    CriticalValueInput {
        one_percent: Some(one),
        five_percent: Some(five),
        ten_percent: Some(ten),
    }
}

#[test]
fn left_clamp_below_minimum() {
    let t = sample_table();
    assert_eq!(interpolate_p_value(-9_000_000, &t), 10_000);
    assert_eq!(interpolate_p_value(-4_000_001, &t), 10_000);
    assert_eq!(interpolate_p_value(-4_000_000, &t), 10_000);
}

#[test]
fn right_clamp_above_maximum() {
    let t = sample_table();
    assert_eq!(interpolate_p_value(0, &t), 500_000);
    assert_eq!(interpolate_p_value(-999_999, &t), 500_000);
    assert_eq!(interpolate_p_value(-1_000_000, &t), 500_000);
}

#[test]
fn exact_match_returns_stored_p_value() {
    let t = sample_table();
    assert_eq!(interpolate_p_value(-3_000_000, &t), 50_000);
    assert_eq!(interpolate_p_value(-2_000_000, &t), 100_000);
}

#[test]
fn midpoint_interpolates_to_mean() {
    let t = sample_table();
    // Midpoint of (-3.0, 0.05) and (-2.0, 0.10) is (-2.5, 0.075).
    assert_eq!(interpolate_p_value(-2_500_000, &t), 75_000);
}

#[test]
fn interpolation_formula_exact_value() {
    let t = sample_table();
    // A quarter of the way from (-3.0, 0.05) to (-2.0, 0.10):
    // 50_000 + 250_000 * 50_000 / 1_000_000 = 62_500.
    assert_eq!(interpolate_p_value(-2_750_000, &t), 62_500);
    // Decreasing segment: from (0, 0.9) to (1.0, 0.5) at 0.25:
    // 900_000 - 250_000 * 400_000 / 1_000_000 = 800_000.
    let d = LookupTable::new(vec![entry(0, 900_000), entry(1_000_000, 500_000)]).unwrap();
    assert_eq!(interpolate_p_value(250_000, &d), 800_000);
}

#[test]
fn monotone_over_non_increasing_table() {
    let t = LookupTable::new(vec![
        entry(0, 900_000),
        entry(1_000_000, 500_000),
        entry(2_000_000, 100_000),
    ])
    .unwrap();
    let queries = [
        -1_000_000, 0, 300_000, 999_999, 1_000_000, 1_500_000, 1_999_999, 2_000_000, 3_000_000,
    ];
    let mut last = i64::MAX;
    for q in queries {
        let p = interpolate_p_value(q, &t);
        assert!(p <= last, "p-value rose from {last} to {p} at query {q}");
        last = p;
    }
}

#[test]
fn empty_table_falls_back_to_one() {
    assert_eq!(interpolate_p_value(0, &LookupTable::empty()), MICROS_PER_UNIT);
    assert_eq!(interpolate_p_value(i64::MIN, &LookupTable::empty()), MICROS_PER_UNIT);
    let t = LookupTable::new(Vec::new()).unwrap();
    assert_eq!(interpolate_p_value(-123, &t), MICROS_PER_UNIT);
}

#[test]
fn single_entry_table_always_returns_it() {
    let t = LookupTable::new(vec![entry(-2_000_000, 70_000)]).unwrap();
    assert_eq!(interpolate_p_value(-9_000_000, &t), 70_000);
    assert_eq!(interpolate_p_value(-2_000_000, &t), 70_000);
    assert_eq!(interpolate_p_value(5, &t), 70_000);
}

#[test]
fn duplicate_statistics_are_tolerated() {
    let t = LookupTable::new(vec![entry(0, 100_000), entry(0, 50_000)]).unwrap();
    assert_eq!(interpolate_p_value(-1, &t), 100_000);
    assert_eq!(interpolate_p_value(0, &t), 100_000);
    assert_eq!(interpolate_p_value(1, &t), 50_000);
}

#[test]
fn unsorted_table_is_invalid_input() {
    let r = LookupTable::new(vec![entry(1_000_000, 0), entry(0, 0)]);
    assert!(matches!(r, Err(AdfError::InvalidInput)));
}

#[test]
fn out_of_range_coordinate_is_invalid_input() {
    let r = LookupTable::new(vec![entry(2_000_000_000_000, 0)]);
    assert!(matches!(r, Err(AdfError::InvalidInput)));
    let r = LookupTable::new(vec![entry(0, -2_000_000_000_000)]);
    assert!(matches!(r, Err(AdfError::InvalidInput)));
}

#[test]
fn nearest_sample_size_is_selected() {
    let criticals = vec![
        (25usize, crit(-3_750_000, -3_000_000, -2_630_000)),
        (50usize, crit(-3_580_000, -2_930_000, -2_600_000)),
        (100usize, crit(-3_500_000, -2_890_000, -2_580_000)),
    ];
    let tables = vec![
        (25usize, sample_table()),
        (50usize, sample_table()),
        (100usize, sample_table()),
    ];
    let r = get_adf_p_value_and_stationarity(-2_500_000, 60, &criticals, &tables);
    // 50 is at distance 10, 100 at distance 40: the record for 50 wins.
    assert_eq!(r.critical_values().five_percent, -2_930_000);
    assert_eq!(r.critical_values().one_percent, -3_580_000);
    assert_eq!(r.critical_values().ten_percent, -2_600_000);
}

#[test]
fn equidistant_keys_earliest_wins() {
    let criticals = vec![
        (50usize, crit(-1_000_000, -2_000_000, -3_000_000)),
        (70usize, crit(-4_000_000, -5_000_000, -6_000_000)),
    ];
    let tables: Vec<(usize, LookupTable)> = Vec::new();
    let r = get_adf_p_value_and_stationarity(0, 60, &criticals, &tables);
    assert_eq!(r.critical_values().five_percent, -2_000_000);
}

#[test]
fn stationary_when_p_small_and_statistic_below_critical() {
    // p-value 0.03 with statistic -3.0 against a 5% critical of -2.86.
    let criticals = vec![(100usize, crit(-3_430_000, -2_860_000, -2_570_000))];
    let tables = vec![(
        100usize,
        LookupTable::new(vec![entry(-3_000_000, 30_000)]).unwrap(),
    )];
    let r = get_adf_p_value_and_stationarity(-3_000_000, 100, &criticals, &tables);
    assert_eq!(r.p_value, 30_000);
    assert!(r.is_stationary);
}

#[test]
fn not_stationary_when_statistic_above_critical() {
    // The same small p-value, but the statistic -2.0 fails the
    // critical-value condition.
    let criticals = vec![(100usize, crit(-3_430_000, -2_860_000, -2_570_000))];
    let tables = vec![(
        100usize,
        LookupTable::new(vec![entry(-2_000_000, 30_000)]).unwrap(),
    )];
    let r = get_adf_p_value_and_stationarity(-2_000_000, 100, &criticals, &tables);
    assert_eq!(r.p_value, 30_000);
    assert!(!r.is_stationary);
}

#[test]
fn not_stationary_when_p_value_large() {
    // Statistic far below the critical value, but p-value 0.2 > 0.05.
    let criticals = vec![(100usize, crit(-3_430_000, -2_860_000, -2_570_000))];
    let tables = vec![(
        100usize,
        LookupTable::new(vec![entry(-9_000_000, 200_000)]).unwrap(),
    )];
    let r = get_adf_p_value_and_stationarity(-9_000_000, 100, &criticals, &tables);
    assert_eq!(r.p_value, 200_000);
    assert!(!r.is_stationary);
}

#[test]
fn empty_critical_tables_use_defaults() {
    let criticals: Vec<(usize, CriticalValueInput)> = Vec::new();
    let tables = vec![(100usize, sample_table())];
    let r = get_adf_p_value_and_stationarity(-3_000_000, 100, &criticals, &tables);
    assert_eq!(r.critical_values(), CriticalValues::default());
    // With no selected key, no p-value table applies either.
    assert_eq!(r.p_value, MICROS_PER_UNIT);
    assert!(!r.is_stationary);
}

#[test]
fn missing_p_value_table_acts_as_empty() {
    let criticals = vec![(50usize, crit(-3_430_000, -2_860_000, -2_570_000))];
    let tables = vec![(100usize, sample_table())];
    let r = get_adf_p_value_and_stationarity(-3_000_000, 50, &criticals, &tables);
    assert_eq!(r.p_value, MICROS_PER_UNIT);
    assert_eq!(r.critical_values().five_percent, -2_860_000);
}

#[test]
fn absent_critical_fields_fall_back_individually() {
    let partial = CriticalValueInput {
        one_percent: None,
        five_percent: Some(-3_000_000),
        ten_percent: None,
    };
    let resolved = resolve_critical_values(&partial);
    assert_eq!(resolved.one_percent, DEFAULT_CRITICAL_1_PERCENT);
    assert_eq!(resolved.five_percent, -3_000_000);
    assert_eq!(resolved.ten_percent, DEFAULT_CRITICAL_10_PERCENT);

    let criticals = vec![(50usize, partial)];
    let tables = vec![(50usize, sample_table())];
    let r = get_adf_p_value_and_stationarity(-2_500_000, 50, &criticals, &tables);
    assert_eq!(r.critical_values().one_percent, DEFAULT_CRITICAL_1_PERCENT);
    assert_eq!(r.critical_values().five_percent, -3_000_000);
    assert_eq!(r.critical_values().ten_percent, DEFAULT_CRITICAL_10_PERCENT);
}

#[test]
fn default_critical_values_match_constants() {
    let d = CriticalValues::default();
    assert_eq!(d.one_percent, DEFAULT_CRITICAL_1_PERCENT);
    assert_eq!(d.five_percent, DEFAULT_CRITICAL_5_PERCENT);
    assert_eq!(d.ten_percent, DEFAULT_CRITICAL_10_PERCENT);
    assert_eq!(d.one_percent, -3_430_000);
    assert_eq!(d.five_percent, -2_860_000);
    assert_eq!(d.ten_percent, -2_570_000);
}

#[test]
fn decide_is_idempotent() {
    let make_criticals = || {
        vec![
            (25usize, crit(-3_750_000, -3_000_000, -2_630_000)),
            (50usize, crit(-3_580_000, -2_930_000, -2_600_000)),
        ]
    };
    let make_tables = || vec![(25usize, sample_table()), (50usize, sample_table())];
    let a = get_adf_p_value_and_stationarity(-2_500_000, 40, &make_criticals(), &make_tables());
    let b = get_adf_p_value_and_stationarity(-2_500_000, 40, &make_criticals(), &make_tables());
    assert_eq!(a, b);
}

#[test]
fn result_echoes_statistic() {
    let criticals = vec![(50usize, crit(-3_430_000, -2_860_000, -2_570_000))];
    let tables = vec![(50usize, sample_table())];
    let r = get_adf_p_value_and_stationarity(-2_345_678, 50, &criticals, &tables);
    assert_eq!(r.statistic, -2_345_678);
}

#[test]
fn table_accessors_expose_rows() {
    let t = sample_table();
    assert_eq!(t.len(), 4);
    assert_eq!(t.entry(0), entry(-4_000_000, 10_000));
    assert_eq!(t.entry(3), entry(-1_000_000, 500_000));
    assert_eq!(LookupTable::empty().len(), 0);
}
