use multiblock_layout::fission_reactor::{calculate_layout, CoolingMode, FissionFuelAssemblyLayout};

/// The post-condition `assembly_count - max_speed < 1`, checked over the
/// exact burn-rate ratio.
fn margin_holds(r: &FissionFuelAssemblyLayout) -> bool {
    let c = r.get_assembly_count() as i128;
    let ms = r.get_max_speed();
    c * (ms.den as i128) - (ms.num as i128) < ms.den as i128
}

fn heights_in_range(r: &FissionFuelAssemblyLayout, l: i64, w: i64, h: i64) -> bool {
    for x in 0..l {
        for y in 0..w {
            let v = r.get_valid_assembly((x, y));
            if v < 0 || v > h {
                return false;
            }
        }
    }
    true
}

#[test]
fn fission_golden_water() {
    let r = calculate_layout(3, 3, 4, CoolingMode::WaterCooling);
    assert_eq!(r.get_assembly_count(), 1);
    assert_eq!(r.get_total_surface(), 6);
    let eff = r.get_efficiency();
    assert_eq!(eff.num, 4);
    assert_eq!(eff.den, 4);
    // max_speed caps at the assembly count: exactly 1.
    let ms = r.get_max_speed();
    assert_eq!(ms.num, 160_000);
    assert_eq!(ms.den, 160_000);
}

#[test]
fn fission_no_reduction_when_already_feasible() {
    // Interior 2 x 2 x 2: feasible from the start, so every stack keeps its
    // full height.
    let r = calculate_layout(4, 4, 5, CoolingMode::WaterCooling);
    assert_eq!(r.get_assembly_count(), 8);
    assert_eq!(r.get_total_surface(), 24);
    for x in 0..2 {
        for y in 0..2 {
            assert_eq!(r.get_valid_assembly((x, y)), 2);
        }
    }
    let eff = r.get_efficiency();
    assert_eq!(eff.num, 24);
    assert_eq!(eff.den, 32);
    let ms = r.get_max_speed();
    assert_eq!(ms.den, 1_280_000);
    assert_eq!(ms.num, 10_240_000);
}

#[test]
fn fission_post_condition_margin() {
    for &(l, w, h) in &[(3, 3, 4), (4, 4, 5), (6, 6, 7), (10, 10, 10), (18, 18, 18)] {
        for &mode in &[CoolingMode::WaterCooling, CoolingMode::SodiumCooling] {
            let r = calculate_layout(l, w, h, mode);
            assert!(r.check_reactors(), "dims {l} {w} {h}");
            assert!(margin_holds(&r), "dims {l} {w} {h}");
        }
    }
}

#[test]
fn fission_grid_invariant() {
    let r = calculate_layout(6, 6, 7, CoolingMode::WaterCooling);
    assert!(heights_in_range(&r, 4, 4, 4));
    // Outside the footprint the accessor reports empty cells, whatever the
    // coordinates.
    assert_eq!(r.get_valid_assembly((-1, 0)), 0);
    assert_eq!(r.get_valid_assembly((0, -1)), 0);
    assert_eq!(r.get_valid_assembly((4, 0)), 0);
    assert_eq!(r.get_valid_assembly((0, 4)), 0);
    assert_eq!(r.get_valid_assembly((100, 100)), 0);
}

#[test]
fn fission_reduction_safe_when_feasible() {
    // The reduction step on an already-feasible layout must not corrupt the
    // grid: heights stay in range and exactly one segment goes per call,
    // until the grid is empty, after which the grid stays unchanged.
    let mut r = calculate_layout(3, 3, 4, CoolingMode::WaterCooling);
    assert!(r.check_reactors());
    assert_eq!(r.get_assembly_count(), 1);
    r.remove_worst_assembly();
    assert_eq!(r.get_assembly_count(), 0);
    assert!(heights_in_range(&r, 1, 1, 1));
    r.remove_worst_assembly();
    assert_eq!(r.get_assembly_count(), 0);
    assert!(heights_in_range(&r, 1, 1, 1));
    assert!(r.check_reactors());
}

#[test]
fn fission_reduction_removes_one_segment() {
    let mut r = calculate_layout(6, 6, 7, CoolingMode::SodiumCooling);
    let before = r.get_assembly_count();
    assert!(before > 0);
    r.remove_worst_assembly();
    assert_eq!(r.get_assembly_count(), before - 1);
    assert!(heights_in_range(&r, 4, 4, 4));
}

#[test]
fn fission_deterministic() {
    let a = calculate_layout(7, 6, 9, CoolingMode::WaterCooling);
    let b = calculate_layout(7, 6, 9, CoolingMode::WaterCooling);
    assert_eq!(a.get_assembly_count(), b.get_assembly_count());
    assert_eq!(a.get_total_surface(), b.get_total_surface());
    assert_eq!(a.get_efficiency(), b.get_efficiency());
    assert_eq!(a.get_max_speed(), b.get_max_speed());
    for x in 0..5 {
        for y in 0..4 {
            assert_eq!(a.get_valid_assembly((x, y)), b.get_valid_assembly((x, y)));
        }
    }
}

#[test]
fn fission_reduction_progresses_until_feasible() {
    // Interior 4 x 4 x 4 is infeasible at full height, so the loop must
    // actually remove segments before the constraint holds.
    let full = 4 * 4 * 4;
    let r = calculate_layout(6, 6, 7, CoolingMode::WaterCooling);
    let c = r.get_assembly_count();
    assert!(c < full);
    assert!(c > 0);
    assert!(r.check_reactors());
    assert!(margin_holds(&r));
}
