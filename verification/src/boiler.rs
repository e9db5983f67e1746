//! Boiler layout optimizer: an exhaustive search over the two internal
//! parameters of a multiblock boiler (the separator height and the number of
//! heating elements below it), maximizing steam production or, for
//! sodium-heated boilers, coolant consumption.
//!
//! All physical formulas are evaluated in exact integer arithmetic.  The
//! fractional balance constants are exact decimals, carried as ratios:
//! coolant cooling efficiency 2/5, steam energy efficiency 1/5, boiler water
//! conductivity 7/10, cooled-coolant tank scale 8/5.

use vstd::prelude::*;

verus! {

use crate::dims_in_range;

pub const CASING_THICKNESS: i64 = 1;
pub const WATER_TANK_VOLUME: i64 = 16_000;
pub const HEATER_HEAT_RATE: i64 = 320_000;
pub const STEAM_TANK_VOLUME: i64 = 160_000;
pub const CASING_HEAT_CAPACITY: i64 = 50;

/// How the boiler's water zone is heated.
#[derive(Clone, Copy, Debug, PartialEq, Eq, Structural)]
pub enum HeatingMode {
    DirectHeating,
    SodiumHeating,
}

/// A boiler configuration: exterior dimensions, heating mode, the derived
/// shell heat capacity, and the two search variables.
#[derive(Clone, Copy, Debug, PartialEq, Eq, Structural)]
pub struct BoilerLayout {
    pub length: i64,
    pub width: i64,
    pub height: i64,
    pub heating_mode: HeatingMode,
    pub heat_capacity: i64,
    pub spliter_layer: i64,
    pub heating_element: i64,
}

pub open spec fn min2(x: int, y: int) -> int {
    if x <= y {
        x
    } else {
        y
    }
}

pub open spec fn min3(x: int, y: int, z: int) -> int {
    min2(min2(x, y), z)
}

/// Integer division truncating toward zero, for a positive divisor.
pub open spec fn trunc_div(a: int, b: int) -> int {
    if a >= 0 {
        a / b
    } else {
        -((-a) / b)
    }
}

/// Shell volume: exterior volume minus the interior working volume.
pub open spec fn spec_shell_volume(l: int, w: int, h: int) -> int {
    l * w * h - (l - 2) * (w - 2) * (h - 2)
}

/// Heat capacity of the casing: shell volume times the per-block capacity.
pub open spec fn spec_heat_capacity(l: int, w: int, h: int) -> int {
    spec_shell_volume(l, w, h) * 50
}

pub open spec fn spec_area(l: int, w: int) -> int {
    l * w
}

/// Water tank capacity below the separator, less the space heaters take.
pub open spec fn spec_water_tank(l: int, w: int, s: int, j: int) -> int {
    ((s - 1) * (l * w) - j) * 16_000
}

/// Total heat rate of `j` heating elements.
pub open spec fn spec_heat_rate(j: int) -> int {
    j * 320_000
}

/// Steam tank capacity above the separator.
pub open spec fn spec_steam_tank(l: int, w: int, h: int, s: int) -> int {
    (h - s) * (l * w) * 160_000
}

/// Steam production: the least of water supply, heat rate and steam storage.
pub open spec fn spec_production(l: int, w: int, h: int, s: int, j: int) -> int {
    min3(
        spec_water_tank(l, w, s, j),
        spec_heat_rate(j),
        spec_steam_tank(l, w, h, s),
    )
}

/// Cooled-coolant tank: the steam tank scaled by 8/5 (exact, the steam tank
/// is a multiple of five).
pub open spec fn spec_cooled_coolant_tank(l: int, w: int, h: int, s: int) -> int {
    (h - s) * (l * w) * 256_000
}

/// Hot-coolant tank: sixteen times the water tank.
pub open spec fn spec_hot_coolant_tank(l: int, w: int, s: int, j: int) -> int {
    spec_water_tank(l, w, s, j) * 16
}

/// Maximum coolant consumption.  The three bounding terms, written over a
/// common exact form:
/// - hot-coolant flow scaled by the cooling efficiency 2/5 and the
///   temperature-deficit factor `1 - max_temperature / 100_000`, where
///   `max_temperature = production * 500 / (7 * heat_capacity)`; together
///   `hot * (1400 * hc - production) / (3500 * hc)`, truncated toward zero;
/// - the cooled-coolant tank capacity;
/// - the heat demand `production * 50` divided by the sodium enthalpy 5.
pub open spec fn spec_coolant_consumption(l: int, w: int, h: int, s: int, j: int) -> int {
    let hc = spec_heat_capacity(l, w, h);
    let p = spec_production(l, w, h, s, j);
    let hot = spec_hot_coolant_tank(l, w, s, j);
    min3(
        trunc_div(hot * (1400 * hc - p), 3500 * hc),
        spec_cooled_coolant_tank(l, w, h, s),
        p * 10,
    )
}

/// The objective the search maximizes for a given mode.
pub open spec fn spec_value(l: int, w: int, h: int, m: HeatingMode, s: int, j: int) -> int {
    match m {
        HeatingMode::DirectHeating => spec_production(l, w, h, s, j),
        HeatingMode::SodiumHeating => spec_coolant_consumption(l, w, h, s, j),
    }
}

/// The search variables the exhaustive search ranges over: separator layers
/// strictly between the floor casing and the ceiling, and heating-element
/// counts below the interior volume under the separator.
pub open spec fn valid_pair(l: int, w: int, h: int, s: int, j: int) -> bool {
    &&& 1 <= s < h - 1
    &&& 0 <= j < (l - 2) * (w - 2) * (s - 1)
}

/// Iteration order of the search: separator ascending, then element count.
pub open spec fn pair_lex_before(s1: int, j1: int, s2: int, j2: int) -> bool {
    s1 < s2 || (s1 == s2 && j1 < j2)
}

/// The all-zero configuration that signals an infeasible search.
pub open spec fn zeroed_boiler() -> BoilerLayout {
    BoilerLayout {
        length: 0,
        width: 0,
        height: 0,
        heating_mode: HeatingMode::DirectHeating,
        heat_capacity: 0,
        spliter_layer: 0,
        heating_element: 0,
    }
}

impl BoilerLayout {
    /// Structural well-formedness: either the all-zero infeasibility record,
    /// or valid exterior dimensions with the derived heat capacity and a
    /// search configuration that is zeroed or inside the search space.
    pub open spec fn wf(self) -> bool {
        ||| self == zeroed_boiler()
        ||| {
            &&& dims_in_range(self.length as int, self.width as int, self.height as int)
            &&& self.heat_capacity
                == spec_heat_capacity(self.length as int, self.width as int, self.height as int)
            &&& {
                ||| (self.spliter_layer == 0 && self.heating_element == 0)
                ||| valid_pair(
                    self.length as int,
                    self.width as int,
                    self.height as int,
                    self.spliter_layer as int,
                    self.heating_element as int,
                )
            }
        }
    }
}

/// Coarse ranges every well-formed configuration satisfies; they bound all
/// the arithmetic below.
proof fn lemma_wf_ranges(b: BoilerLayout)
    requires
        b.wf(),
    ensures
        0 <= b.length <= 18,
        0 <= b.width <= 18,
        0 <= b.height <= 18,
        0 <= b.spliter_layer <= 16,
        0 <= b.heating_element <= 3839,
        0 <= b.heat_capacity <= 291_600,
        0 <= b.length * b.width <= 324,
        b != zeroed_boiler() ==> b.heat_capacity >= 1700,
        b.spliter_layer <= b.height,
{
    if b == zeroed_boiler() {
        assert(b.length * b.width == 0);
    } else {
        let l = b.length as int;
        let w = b.width as int;
        let h = b.height as int;
        assert(0 <= l * w <= 324) by (nonlinear_arith)
            requires
                3 <= l <= 18,
                3 <= w <= 18,
        ;
        if b.spliter_layer != 0 || b.heating_element != 0 {
            let s = b.spliter_layer as int;
            assert((l - 2) * (w - 2) * (s - 1) <= 3840) by (nonlinear_arith)
                requires
                    3 <= l <= 18,
                    3 <= w <= 18,
                    1 <= s <= 16,
            ;
        }
        assert(34 <= spec_shell_volume(l, w, h) <= 5832) by (nonlinear_arith)
            requires
                3 <= l <= 18,
                3 <= w <= 18,
                4 <= h <= 18,
        ;
    }
}

impl BoilerLayout {
    /// A fresh configuration for the given exterior dimensions, with the
    /// search variables zeroed and the shell heat capacity fixed.
    pub fn new(length: i64, width: i64, height: i64, heating_mode: HeatingMode) -> (b: BoilerLayout)
        requires
            dims_in_range(length as int, width as int, height as int),
        ensures
            b.wf(),
            b.length == length,
            b.width == width,
            b.height == height,
            b.heating_mode == heating_mode,
            b.heat_capacity == spec_heat_capacity(length as int, width as int, height as int),
            b.spliter_layer == 0,
            b.heating_element == 0,
    {
        proof {
            assert(36 <= length * width * height <= 5832 && 0 <= (length - 2) * (width - 2) * (
            height - 2) <= 4096 && 9 <= length * width <= 324 && 0 <= (length - 2) * (width - 2)
                <= 256 && 0 <= spec_shell_volume(
                length as int,
                width as int,
                height as int,
            ) <= 5832) by (nonlinear_arith)
                requires
                    3 <= length <= 18,
                    3 <= width <= 18,
                    4 <= height <= 18,
            ;
        }
        let shell = length * width * height - (length - 2) * (width - 2) * (height - 2);
        let heat_capacity = shell * CASING_HEAT_CAPACITY;
        BoilerLayout {
            length,
            width,
            height,
            heating_mode,
            heat_capacity,
            spliter_layer: 0,
            heating_element: 0,
        }
    }

    pub fn get_spliter_layer(&self) -> (r: i64)
        ensures
            r == self.spliter_layer,
    {
        self.spliter_layer
    }

    pub fn get_heating_element(&self) -> (r: i64)
        ensures
            r == self.heating_element,
    {
        self.heating_element
    }

    /// Footprint area of the boiler.
    pub fn get_area(&self) -> (r: i64)
        requires
            self.wf(),
        ensures
            r == spec_area(self.length as int, self.width as int),
    {
        proof {
            lemma_wf_ranges(*self);
        }
        self.length * self.width
    }

    pub fn get_water_tank(&self) -> (r: i64)
        requires
            self.wf(),
        ensures
            r == spec_water_tank(
                self.length as int,
                self.width as int,
                self.spliter_layer as int,
                self.heating_element as int,
            ),
    {
        proof {
            lemma_wf_ranges(*self);
            assert(-324 <= (self.spliter_layer - 1) * (self.length * self.width) <= 4860)
                by (nonlinear_arith)
                requires
                    0 <= self.spliter_layer <= 16,
                    0 <= self.length * self.width <= 324,
            ;
        }
        let area = self.get_area();
        ((self.spliter_layer - 1) * area - self.heating_element) * WATER_TANK_VOLUME
    }

    pub fn get_heat_rate(&self) -> (r: i64)
        requires
            self.wf(),
        ensures
            r == spec_heat_rate(self.heating_element as int),
    {
        proof {
            lemma_wf_ranges(*self);
        }
        self.heating_element * HEATER_HEAT_RATE
    }

    pub fn get_steam_tank(&self) -> (r: i64)
        requires
            self.wf(),
        ensures
            r == spec_steam_tank(
                self.length as int,
                self.width as int,
                self.height as int,
                self.spliter_layer as int,
            ),
    {
        proof {
            lemma_wf_ranges(*self);
            assert(-5184 <= (self.height - self.spliter_layer) * (self.length * self.width)
                <= 5832) by (nonlinear_arith)
                requires
                    0 <= self.height <= 18,
                    0 <= self.spliter_layer <= 16,
                    0 <= self.length * self.width <= 324,
            ;
        }
        let area = self.get_area();
        (self.height - self.spliter_layer) * area * STEAM_TANK_VOLUME
    }

    /// Steam production of this configuration.
    pub fn get_production(&self) -> (r: i64)
        requires
            self.wf(),
        ensures
            r == spec_production(
                self.length as int,
                self.width as int,
                self.height as int,
                self.spliter_layer as int,
                self.heating_element as int,
            ),
    {
        min_tri(self.get_water_tank(), self.get_heat_rate(), self.get_steam_tank())
    }

    /// Cooled-coolant tank capacity: the steam tank scaled by 8/5.
    pub fn get_cooled_coolant_tank(&self) -> (r: i64)
        requires
            self.wf(),
        ensures
            r == spec_cooled_coolant_tank(
                self.length as int,
                self.width as int,
                self.height as int,
                self.spliter_layer as int,
            ),
    {
        proof {
            lemma_wf_ranges(*self);
            assert(-5184 <= (self.height - self.spliter_layer) * (self.length * self.width)
                <= 5832) by (nonlinear_arith)
                requires
                    0 <= self.height <= 18,
                    0 <= self.spliter_layer <= 16,
                    0 <= self.length * self.width <= 324,
            ;
        }
        let area = self.get_area();
        (self.height - self.spliter_layer) * area * 256_000
    }

    pub fn get_hot_coolant_tank(&self) -> (r: i64)
        requires
            self.wf(),
        ensures
            r == spec_hot_coolant_tank(
                self.length as int,
                self.width as int,
                self.spliter_layer as int,
                self.heating_element as int,
            ),
    {
        proof {
            lemma_wf_ranges(*self);
            assert(-160_000_000 <= spec_water_tank(
                self.length as int,
                self.width as int,
                self.spliter_layer as int,
                self.heating_element as int,
            ) <= 160_000_000) by (nonlinear_arith)
                requires
                    0 <= self.length * self.width <= 324,
                    0 <= self.spliter_layer <= 16,
                    0 <= self.heating_element <= 3839,
            ;
        }
        self.get_water_tank() * 16
    }

    /// Maximum coolant consumption, the least of the three bounding terms.
    pub fn get_coolant_consumption(&self) -> (r: i64)
        requires
            self.wf(),
        ensures
            r == spec_coolant_consumption(
                self.length as int,
                self.width as int,
                self.height as int,
                self.spliter_layer as int,
                self.heating_element as int,
            ),
    {
        proof {
            lemma_wf_ranges(*self);
        }
        if self.heat_capacity == 0 {
            // Only the all-zero record has no heat capacity; every term is
            // zero there.
            proof {
                assert(self == zeroed_boiler());
            }
            return 0;
        }
        let p = self.get_production();
        let hot = self.get_hot_coolant_tank();
        let hc = self.heat_capacity;
        proof {
            assert(-160_000_000 <= spec_water_tank(
                self.length as int,
                self.width as int,
                self.spliter_layer as int,
                self.heating_element as int,
            ) <= 160_000_000) by (nonlinear_arith)
                requires
                    0 <= self.length * self.width <= 324,
                    0 <= self.spliter_layer <= 16,
                    0 <= self.heating_element <= 3839,
            ;
            assert(0 <= spec_steam_tank(
                self.length as int,
                self.width as int,
                self.height as int,
                self.spliter_layer as int,
            ) <= 10_000_000_000) by (nonlinear_arith)
                requires
                    0 <= self.length * self.width <= 324,
                    0 <= self.height - self.spliter_layer <= 18,
            ;
        }
        let factor = 1400 * hc - p;
        proof {
            assert(hot * factor <= 3_000_000_000 * 2_000_000_000 && hot * factor >=
            -(3_000_000_000 * 2_000_000_000)) by (nonlinear_arith)
                requires
                    -3_000_000_000 <= hot <= 3_000_000_000,
                    -2_000_000_000 <= factor <= 2_000_000_000,
            ;
        }
        let num = hot * factor;
        let den = 3500 * hc;
        let t1: i64 = if num >= 0 {
            ((num as u64) / (den as u64)) as i64
        } else {
            proof {
                vstd::arithmetic::div_mod::lemma_div_nonincreasing(-num, den as int);
                vstd::arithmetic::div_mod::lemma_div_pos_is_pos(-num, den as int);
            }
            -((((-num) as u64) / (den as u64)) as i64)
        };
        proof {
            if num >= 0 {
                vstd::arithmetic::div_mod::lemma_div_nonincreasing(num as int, den as int);
                vstd::arithmetic::div_mod::lemma_div_pos_is_pos(num as int, den as int);
            }
        }
        min_tri(t1, self.get_cooled_coolant_tank(), p * 10)
    }

    /// The searched objective for this configuration's mode.
    fn get_value(&self) -> (r: i64)
        requires
            self.wf(),
        ensures
            r == spec_value(
                self.length as int,
                self.width as int,
                self.height as int,
                self.heating_mode,
                self.spliter_layer as int,
                self.heating_element as int,
            ),
    {
        match self.heating_mode {
            HeatingMode::DirectHeating => self.get_production(),
            HeatingMode::SodiumHeating => self.get_coolant_consumption(),
        }
    }
}

/// Everything the search promises of its result: if some configuration has a
/// positive objective, the result is the first configuration, in search
/// order, attaining the maximum objective; otherwise it is the all-zero
/// record, which signals infeasibility.
pub open spec fn is_best_result(l: int, w: int, h: int, m: HeatingMode, best: BoilerLayout) -> bool {
    if exists|s: int, j: int|
        valid_pair(l, w, h, s, j) && #[trigger] spec_value(l, w, h, m, s, j) > 0 {
        &&& best.length == l
        &&& best.width == w
        &&& best.height == h
        &&& best.heating_mode == m
        &&& best.heat_capacity == spec_heat_capacity(l, w, h)
        &&& valid_pair(l, w, h, best.spliter_layer as int, best.heating_element as int)
        &&& spec_value(l, w, h, m, best.spliter_layer as int, best.heating_element as int) > 0
        &&& forall|s: int, j: int|
            valid_pair(l, w, h, s, j) ==> #[trigger] spec_value(l, w, h, m, s, j) <= spec_value(
                l,
                w,
                h,
                m,
                best.spliter_layer as int,
                best.heating_element as int,
            )
        &&& forall|s: int, j: int|
            valid_pair(l, w, h, s, j) && pair_lex_before(
                s,
                j,
                best.spliter_layer as int,
                best.heating_element as int,
            ) ==> #[trigger] spec_value(l, w, h, m, s, j) < spec_value(
                l,
                w,
                h,
                m,
                best.spliter_layer as int,
                best.heating_element as int,
            )
    } else {
        best == zeroed_boiler()
    }
}

/// The objective value a search result stands for: zero for the infeasible
/// record, else the objective of its configuration.
pub open spec fn boiler_result_value(l: int, w: int, h: int, m: HeatingMode, best: BoilerLayout) -> int {
    if best == zeroed_boiler() {
        0
    } else {
        spec_value(l, w, h, m, best.spliter_layer as int, best.heating_element as int)
    }
}

/// Exhaustive search over all valid (separator, heating-element) pairs, in
/// ascending order, keeping the first configuration that strictly improves
/// the objective.
pub fn calculate_layout(length: i64, width: i64, height: i64, heating_mode: HeatingMode) -> (best:
    BoilerLayout)
    requires
        dims_in_range(length as int, width as int, height as int),
    ensures
        best.wf(),
        is_best_result(length as int, width as int, height as int, heating_mode, best),
{
    let proto = BoilerLayout::new(length, width, height, heating_mode);
    let mut best = BoilerLayout {
        length: 0,
        width: 0,
        height: 0,
        heating_mode: HeatingMode::DirectHeating,
        heat_capacity: 0,
        spliter_layer: 0,
        heating_element: 0,
    };
    let mut max_value: i64 = 0;
    let mut i: i64 = CASING_THICKNESS;
    while i < height - CASING_THICKNESS
        invariant
            dims_in_range(length as int, width as int, height as int),
            proto.length == length && proto.width == width && proto.height == height,
            proto.heating_mode == heating_mode,
            proto.heat_capacity == spec_heat_capacity(
                length as int,
                width as int,
                height as int,
            ),
            1 <= i <= height - 1,
            0 <= max_value,
            max_value == 0 ==> best == zeroed_boiler(),
            max_value == 0 ==> forall|s: int, j: int|
                valid_pair(length as int, width as int, height as int, s, j) && s < i
                    ==> #[trigger] spec_value(
                    length as int,
                    width as int,
                    height as int,
                    heating_mode,
                    s,
                    j,
                ) <= 0,
            max_value > 0 ==> {
                &&& best.length == length
                &&& best.width == width
                &&& best.height == height
                &&& best.heating_mode == heating_mode
                &&& best.heat_capacity == spec_heat_capacity(
                    length as int,
                    width as int,
                    height as int,
                )
                &&& valid_pair(
                    length as int,
                    width as int,
                    height as int,
                    best.spliter_layer as int,
                    best.heating_element as int,
                )
                &&& best.spliter_layer < i
                &&& spec_value(
                    length as int,
                    width as int,
                    height as int,
                    heating_mode,
                    best.spliter_layer as int,
                    best.heating_element as int,
                ) == max_value
                &&& forall|s: int, j: int|
                    valid_pair(length as int, width as int, height as int, s, j) && s < i
                        ==> #[trigger] spec_value(
                        length as int,
                        width as int,
                        height as int,
                        heating_mode,
                        s,
                        j,
                    ) <= max_value
                &&& forall|s: int, j: int|
                    valid_pair(length as int, width as int, height as int, s, j)
                        && pair_lex_before(
                        s,
                        j,
                        best.spliter_layer as int,
                        best.heating_element as int,
                    ) ==> #[trigger] spec_value(
                        length as int,
                        width as int,
                        height as int,
                        heating_mode,
                        s,
                        j,
                    ) < max_value
            },
        decreases height - i,
    {
        proof {
            assert(0 <= (length - 2) * (width - 2) <= 256 && 0 <= (length - 2) * (width - 2) * (i
                - 1) <= 3840) by (nonlinear_arith)
                requires
                    3 <= length <= 18,
                    3 <= width <= 18,
                    1 <= i <= 16,
            ;
        }
        let max_j = (length - 2) * (width - 2) * (i - 1);
        let mut j: i64 = 0;
        while j < max_j
            invariant
                dims_in_range(length as int, width as int, height as int),
                proto.length == length && proto.width == width && proto.height == height,
                proto.heating_mode == heating_mode,
                proto.heat_capacity == spec_heat_capacity(
                    length as int,
                    width as int,
                    height as int,
                ),
                1 <= i <= height - 2,
                max_j == (length - 2) * (width - 2) * (i - 1),
                0 <= max_j <= 3840,
                0 <= j <= max_j,
                0 <= max_value,
                max_value == 0 ==> best == zeroed_boiler(),
                max_value == 0 ==> forall|s: int, jj: int|
                    valid_pair(length as int, width as int, height as int, s, jj) && (s < i || (s
                        == i && jj < j)) ==> #[trigger] spec_value(
                        length as int,
                        width as int,
                        height as int,
                        heating_mode,
                        s,
                        jj,
                    ) <= 0,
                max_value > 0 ==> {
                    &&& best.length == length
                    &&& best.width == width
                    &&& best.height == height
                    &&& best.heating_mode == heating_mode
                    &&& best.heat_capacity == spec_heat_capacity(
                        length as int,
                        width as int,
                        height as int,
                    )
                    &&& valid_pair(
                        length as int,
                        width as int,
                        height as int,
                        best.spliter_layer as int,
                        best.heating_element as int,
                    )
                    &&& (best.spliter_layer < i || (best.spliter_layer == i
                        && best.heating_element < j))
                    &&& spec_value(
                        length as int,
                        width as int,
                        height as int,
                        heating_mode,
                        best.spliter_layer as int,
                        best.heating_element as int,
                    ) == max_value
                    &&& forall|s: int, jj: int|
                        valid_pair(length as int, width as int, height as int, s, jj) && (s < i
                            || (s == i && jj < j)) ==> #[trigger] spec_value(
                            length as int,
                            width as int,
                            height as int,
                            heating_mode,
                            s,
                            jj,
                        ) <= max_value
                    &&& forall|s: int, jj: int|
                        valid_pair(length as int, width as int, height as int, s, jj)
                            && pair_lex_before(
                            s,
                            jj,
                            best.spliter_layer as int,
                            best.heating_element as int,
                        ) ==> #[trigger] spec_value(
                            length as int,
                            width as int,
                            height as int,
                            heating_mode,
                            s,
                            jj,
                        ) < max_value
                },
            decreases max_j - j,
        {
            let cand = BoilerLayout {
                length,
                width,
                height,
                heating_mode,
                heat_capacity: proto.heat_capacity,
                spliter_layer: i,
                heating_element: j,
            };
            assert(valid_pair(length as int, width as int, height as int, i as int, j as int));
            let current_value = cand.get_value();
            if max_value < current_value {
                best = cand;
                max_value = current_value;
            }
            j = j + 1;
        }
        i = i + 1;
    }
    proof {
        assert(i == height - 1);
        if exists|s: int, j: int|
            valid_pair(length as int, width as int, height as int, s, j) && #[trigger] spec_value(
                length as int,
                width as int,
                height as int,
                heating_mode,
                s,
                j,
            ) > 0 {
            let (s0, j0) = choose|s: int, j: int|
                valid_pair(length as int, width as int, height as int, s, j)
                    && #[trigger] spec_value(
                    length as int,
                    width as int,
                    height as int,
                    heating_mode,
                    s,
                    j,
                ) > 0;
            assert(s0 < i);
            assert(max_value > 0);
        }
    }
    best
}

/// Repeated searches with identical inputs return identical results: the
/// search contract pins the result down to one record.
pub proof fn lemma_boiler_deterministic(
    l: int,
    w: int,
    h: int,
    m: HeatingMode,
    b1: BoilerLayout,
    b2: BoilerLayout,
)
    requires
        is_best_result(l, w, h, m, b1),
        is_best_result(l, w, h, m, b2),
    ensures
        b1 == b2,
{
    if exists|s: int, j: int|
        valid_pair(l, w, h, s, j) && #[trigger] spec_value(l, w, h, m, s, j) > 0 {
        let v1 = spec_value(l, w, h, m, b1.spliter_layer as int, b1.heating_element as int);
        let v2 = spec_value(l, w, h, m, b2.spliter_layer as int, b2.heating_element as int);
        assert(v1 <= v2);
        assert(v2 <= v1);
        if pair_lex_before(
            b1.spliter_layer as int,
            b1.heating_element as int,
            b2.spliter_layer as int,
            b2.heating_element as int,
        ) {
            assert(v1 < v2);
        }
        if pair_lex_before(
            b2.spliter_layer as int,
            b2.heating_element as int,
            b1.spliter_layer as int,
            b1.heating_element as int,
        ) {
            assert(v2 < v1);
        }
        assert(b1.spliter_layer == b2.spliter_layer && b1.heating_element == b2.heating_element);
    }
}

/// Holding length and width fixed, increasing the height never decreases the
/// best achievable production under direct heating: the search space only
/// grows, and each configuration's production only grows with the height.
pub proof fn lemma_boiler_height_monotonic(
    l: int,
    w: int,
    h1: int,
    h2: int,
    b1: BoilerLayout,
    b2: BoilerLayout,
)
    requires
        dims_in_range(l, w, h1),
        dims_in_range(l, w, h2),
        h1 <= h2,
        is_best_result(l, w, h1, HeatingMode::DirectHeating, b1),
        is_best_result(l, w, h2, HeatingMode::DirectHeating, b2),
    ensures
        boiler_result_value(l, w, h1, HeatingMode::DirectHeating, b1) <= boiler_result_value(
            l,
            w,
            h2,
            HeatingMode::DirectHeating,
            b2,
        ),
{
    let m = HeatingMode::DirectHeating;
    if exists|s: int, j: int| valid_pair(l, w, h1, s, j) && #[trigger] spec_value(l, w, h1, m, s, j)
        > 0 {
        let s1 = b1.spliter_layer as int;
        let j1 = b1.heating_element as int;
        let v1 = spec_value(l, w, h1, m, s1, j1);
        assert(valid_pair(l, w, h2, s1, j1));
        assert(spec_steam_tank(l, w, h1, s1) <= spec_steam_tank(l, w, h2, s1))
            by (nonlinear_arith)
            requires
                3 <= l <= 18,
                3 <= w <= 18,
                h1 <= h2,
        ;
        assert(spec_value(l, w, h2, m, s1, j1) >= v1);
        assert(b1 != zeroed_boiler());
        assert(b2 != zeroed_boiler());
        let v2 = spec_value(l, w, h2, m, b2.spliter_layer as int, b2.heating_element as int);
        assert(spec_value(l, w, h2, m, s1, j1) <= v2);
    } else {
        assert(b1 == zeroed_boiler());
        if exists|s: int, j: int|
            valid_pair(l, w, h2, s, j) && #[trigger] spec_value(l, w, h2, m, s, j) > 0 {
            assert(spec_value(
                l,
                w,
                h2,
                m,
                b2.spliter_layer as int,
                b2.heating_element as int,
            ) > 0);
            assert(b2 != zeroed_boiler());
        }
    }
}

/// The least of three values.
pub fn min_tri(x: i64, y: i64, z: i64) -> (r: i64)
    ensures
        r == min3(x as int, y as int, z as int),
{
    let m = if x <= y {
        x
    } else {
        y
    };
    if m <= z {
        m
    } else {
        z
    }
}

} // verus!
