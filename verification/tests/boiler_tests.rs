use multiblock_layout::boiler::{calculate_layout, min_tri, BoilerLayout, HeatingMode};
use multiblock_layout::check_attributes;

/// Reference recomputation of the boiler objective, in exact integer
/// arithmetic (i128 division truncates toward zero, matching the model).
fn reference_value(l: i64, w: i64, h: i64, sodium: bool, s: i64, j: i64) -> i64 {
    let area = l * w;
    let wt = ((s - 1) * area - j) * 16_000;
    let hr = j * 320_000;
    let st = (h - s) * area * 160_000;
    let p = wt.min(hr).min(st);
    if !sodium {
        return p;
    }
    let hc = (l * w * h - (l - 2) * (w - 2) * (h - 2)) * 50;
    let hot = wt * 16;
    let t1 = ((hot as i128 * (1400 * hc - p) as i128) / (3500 * hc) as i128) as i64;
    let t2 = (h - s) * area * 256_000;
    let t3 = p * 10;
    t1.min(t2).min(t3)
}

/// Reference exhaustive search: ascending separator, then element count,
/// strict improvement only (first-found wins ties).
fn reference_best(l: i64, w: i64, h: i64, sodium: bool) -> (i64, i64, i64) {
    let mut best = (0, 0, 0);
    for s in 1..(h - 1) {
        for j in 0..((l - 2) * (w - 2) * (s - 1)) {
            let v = reference_value(l, w, h, sodium, s, j);
            if best.2 < v {
                best = (s, j, v);
            }
        }
    }
    best
}

#[test]
fn boiler_golden_direct() {
    let b = calculate_layout(5, 4, 6, HeatingMode::DirectHeating);
    assert_eq!(b.get_spliter_layer(), 4);
    assert_eq!(b.get_heating_element(), 3);
    assert_eq!(b.get_production(), 912_000);
}

#[test]
fn boiler_golden_direct_metrics() {
    let b = calculate_layout(5, 4, 6, HeatingMode::DirectHeating);
    assert_eq!(b.get_area(), 20);
    assert_eq!(b.get_water_tank(), 912_000);
    assert_eq!(b.get_heat_rate(), 960_000);
    assert_eq!(b.get_steam_tank(), 6_400_000);
    assert_eq!(b.get_cooled_coolant_tank(), 10_240_000);
    assert_eq!(b.get_hot_coolant_tank(), 14_592_000);
}

#[test]
fn boiler_matches_reference_search() {
    for &(l, w, h) in &[(3, 3, 4), (5, 4, 6), (6, 5, 8), (10, 9, 12), (18, 18, 18)] {
        for &sodium in &[false, true] {
            let mode = if sodium {
                HeatingMode::SodiumHeating
            } else {
                HeatingMode::DirectHeating
            };
            let b = calculate_layout(l, w, h, mode);
            let (s, j, v) = reference_best(l, w, h, sodium);
            assert_eq!(b.get_spliter_layer(), s, "dims {l} {w} {h} sodium {sodium}");
            assert_eq!(b.get_heating_element(), j, "dims {l} {w} {h} sodium {sodium}");
            let got = if sodium {
                b.get_coolant_consumption()
            } else {
                b.get_production()
            };
            assert_eq!(got, v, "dims {l} {w} {h} sodium {sodium}");
        }
    }
}

#[test]
fn boiler_tie_break_prefers_lowest_pair() {
    // Two configurations attain the maximum coolant consumption here:
    // (13, 3) and (13, 4).  The search must return the first in order.
    let b = calculate_layout(3, 3, 17, HeatingMode::SodiumHeating);
    assert_eq!(b.get_coolant_consumption(), 9_216_000);
    assert_eq!(
        reference_value(3, 3, 17, true, 13, 4),
        9_216_000,
        "the tie partner must attain the same value"
    );
    assert_eq!(b.get_spliter_layer(), 13);
    assert_eq!(b.get_heating_element(), 3);
}

#[test]
fn boiler_infeasible_returns_zeroed_record() {
    // A 3 x 3 x 4 boiler has no interior room below any separator for a
    // heating element with positive value: the search records no improvement
    // and returns the all-zero record, which callers must read as
    // "infeasible", not as a valid answer with value 0.
    for &mode in &[HeatingMode::DirectHeating, HeatingMode::SodiumHeating] {
        let b = calculate_layout(3, 3, 4, mode);
        assert_eq!(b.get_spliter_layer(), 0);
        assert_eq!(b.get_heating_element(), 0);
        assert_eq!(b.get_production(), 0);
        assert_eq!(b.get_coolant_consumption(), 0);
    }
}

#[test]
fn boiler_deterministic() {
    let a = calculate_layout(7, 6, 9, HeatingMode::SodiumHeating);
    let b = calculate_layout(7, 6, 9, HeatingMode::SodiumHeating);
    assert_eq!(a, b);
    let c = calculate_layout(7, 6, 9, HeatingMode::DirectHeating);
    let d = calculate_layout(7, 6, 9, HeatingMode::DirectHeating);
    assert_eq!(c, d);
}

#[test]
fn boiler_production_monotonic_in_height() {
    let mut prev = 0;
    for h in 4..=18 {
        let b = calculate_layout(5, 4, h, HeatingMode::DirectHeating);
        let p = b.get_production();
        assert!(p >= prev, "height {h}: production {p} dropped below {prev}");
        prev = p;
    }
}

#[test]
fn boiler_fresh_layout_metrics() {
    let b = BoilerLayout::new(5, 4, 6, HeatingMode::DirectHeating);
    assert_eq!(b.get_spliter_layer(), 0);
    assert_eq!(b.get_heating_element(), 0);
    // With the separator at the floor the water zone has negative volume.
    assert_eq!(b.get_water_tank(), -320_000);
    assert_eq!(b.get_heat_rate(), 0);
    assert_eq!(b.get_steam_tank(), 19_200_000);
}

#[test]
fn min_tri_picks_least() {
    assert_eq!(min_tri(1, 2, 3), 1);
    assert_eq!(min_tri(3, 1, 2), 1);
    assert_eq!(min_tri(2, 3, 1), 1);
    assert_eq!(min_tri(-5, 0, 5), -5);
    assert_eq!(min_tri(7, 7, 7), 7);
}

#[test]
fn attributes_accept_documented_ranges() {
    assert!(check_attributes(3, 3, 4));
    assert!(check_attributes(18, 18, 18));
    assert!(!check_attributes(2, 3, 4));
    assert!(!check_attributes(3, 19, 4));
    assert!(!check_attributes(3, 3, 3));
    assert!(!check_attributes(3, 3, 19));
}
