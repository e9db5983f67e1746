//! Fission fuel-assembly optimizer: builds a full-height grid of fuel-rod
//! stacks over the interior footprint, then greedily removes single rod
//! segments — always from the most-surrounded stack, scan order breaking
//! ties — until the cooling throughput keeps up with the assembly count.
//!
//! All physical formulas are evaluated in exact rational arithmetic over
//! integers.  The cooling rates are exact decimals, carried as ratios:
//! water cooling 16537/40000, sodium cooling 16537/20000.

use vstd::prelude::*;

verus! {

use crate::dims_in_range;
use crate::boiler::min2;

pub const CASING_THICKNESS: i64 = 1;
pub const COOLING_RATE_NUM: i64 = 16_537;
pub const WATER_COOLING_RATE_DEN: i64 = 40_000;
pub const SODIUM_COOLING_RATE_DEN: i64 = 20_000;

/// How the reactor's fuel assembly is cooled.
#[derive(Clone, Copy, Debug, PartialEq, Eq, Structural)]
pub enum CoolingMode {
    WaterCooling,
    SodiumCooling,
}

/// An exact nonnegative rational, reported for the metrics whose formulas
/// divide: the boiling efficiency and the maximum burn rate.
#[derive(Clone, Copy, Debug, PartialEq, Eq, Structural)]
pub struct Ratio {
    pub num: i64,
    pub den: i64,
}

/// A fuel-assembly layout: the interior footprint and height, the rod-stack
/// grid in row-major order (one stack height per footprint cell), and the
/// cooling mode.
pub struct FissionFuelAssemblyLayout {
    pub length: i64,
    pub width: i64,
    pub height: i64,
    pub layout: Vec<i64>,
    pub cooling_mode: CoolingMode,
}

/// The cooling-rate ratio for a mode.
pub open spec fn rate_num(m: CoolingMode) -> int {
    16_537
}

pub open spec fn rate_den(m: CoolingMode) -> int {
    match m {
        CoolingMode::WaterCooling => 40_000,
        CoolingMode::SodiumCooling => 20_000,
    }
}

/// A well-formed grid: footprint within the fixed bound, one cell per
/// footprint position, and every stack height between zero and the interior
/// height.
pub open spec fn wf_grid(g: Seq<i64>, l: int, w: int, h: int) -> bool {
    &&& 1 <= l <= 16
    &&& 1 <= w <= 16
    &&& 1 <= h <= 15
    &&& g.len() == l * w
    &&& forall|k: int| 0 <= k < g.len() ==> 0 <= #[trigger] g[k] <= h
}

/// The stack height at a position; zero outside the footprint, so the
/// boundary needs no sentinel cells.
pub open spec fn cell_at(g: Seq<i64>, l: int, w: int, x: int, y: int) -> int {
    if 0 <= x < l && 0 <= y < w {
        g[x * w + y] as int
    } else {
        0
    }
}

pub open spec fn occupied(g: Seq<i64>, l: int, w: int, x: int, y: int) -> bool {
    cell_at(g, l, w, x, y) > 0
}

/// Adjacency count of an occupied cell: how many of the four orthogonal
/// neighbors are occupied; zero for unoccupied cells.
pub open spec fn rod_value(g: Seq<i64>, l: int, w: int, x: int, y: int) -> int {
    if occupied(g, l, w, x, y) {
        (if occupied(g, l, w, x - 1, y) {
            1int
        } else {
            0int
        }) + (if occupied(g, l, w, x + 1, y) {
            1int
        } else {
            0int
        }) + (if occupied(g, l, w, x, y - 1) {
            1int
        } else {
            0int
        }) + (if occupied(g, l, w, x, y + 1) {
            1int
        } else {
            0int
        })
    } else {
        0
    }
}

pub open spec fn clamp_neg(v: int) -> int {
    if v < 0 {
        0
    } else {
        v
    }
}

/// Exposed surface of an occupied cell: the height excess over each
/// orthogonal neighbor, plus the top and bottom faces.
pub open spec fn rod_surface(g: Seq<i64>, l: int, w: int, x: int, y: int) -> int {
    if occupied(g, l, w, x, y) {
        let c = cell_at(g, l, w, x, y);
        clamp_neg(c - cell_at(g, l, w, x - 1, y)) + clamp_neg(c - cell_at(g, l, w, x + 1, y))
            + clamp_neg(c - cell_at(g, l, w, x, y + 1)) + clamp_neg(
            c - cell_at(g, l, w, x, y - 1),
        ) + 2
    } else {
        0
    }
}

pub open spec fn pos_part(v: int) -> int {
    if v > 0 {
        v
    } else {
        0
    }
}

/// Sum of the positive stack heights of the first `y` cells of row `x`.
pub open spec fn count_in_row(g: Seq<i64>, l: int, w: int, x: int, y: int) -> int
    decreases y,
{
    if y <= 0 {
        0
    } else {
        count_in_row(g, l, w, x, y - 1) + pos_part(cell_at(g, l, w, x, y - 1))
    }
}

/// Sum of the positive stack heights of the first `x` full rows.
pub open spec fn count_rows(g: Seq<i64>, l: int, w: int, x: int) -> int
    decreases x,
{
    if x <= 0 {
        0
    } else {
        count_rows(g, l, w, x - 1) + count_in_row(g, l, w, x - 1, w)
    }
}

/// Total rod-segment count of the grid.
pub open spec fn grid_count(g: Seq<i64>, l: int, w: int) -> int {
    count_rows(g, l, w, l)
}

/// Sum of the exposed surfaces of the first `y` cells of row `x`.
pub open spec fn surface_in_row(g: Seq<i64>, l: int, w: int, x: int, y: int) -> int
    decreases y,
{
    if y <= 0 {
        0
    } else {
        surface_in_row(g, l, w, x, y - 1) + rod_surface(g, l, w, x, y - 1)
    }
}

pub open spec fn surface_rows(g: Seq<i64>, l: int, w: int, x: int) -> int
    decreases x,
{
    if x <= 0 {
        0
    } else {
        surface_rows(g, l, w, x - 1) + surface_in_row(g, l, w, x - 1, w)
    }
}

/// Total exposed surface of the grid.
pub open spec fn grid_surface(g: Seq<i64>, l: int, w: int) -> int {
    surface_rows(g, l, w, l)
}

/// Row-major flattening stays inside the grid.
proof fn lemma_grid_idx(l: int, w: int, x: int, y: int) by (nonlinear_arith)
    requires
        0 <= x < l <= 16,
        0 <= y < w <= 16,
    ensures
        0 <= x * w + y < l * w,
        0 <= x * w,
        l * w <= 256,
{
}

/// Row-major flattening is injective.
proof fn lemma_grid_idx_inj(w: int, x1: int, y1: int, x2: int, y2: int) by (nonlinear_arith)
    requires
        0 <= y1 < w,
        0 <= y2 < w,
        x1 * w + y1 == x2 * w + y2,
    ensures
        x1 == x2 && y1 == y2,
{
}

proof fn lemma_cell_at_bounds(g: Seq<i64>, l: int, w: int, h: int, x: int, y: int)
    requires
        wf_grid(g, l, w, h),
    ensures
        0 <= cell_at(g, l, w, x, y) <= h,
{
    if 0 <= x < l && 0 <= y < w {
        lemma_grid_idx(l, w, x, y);
    }
}

proof fn lemma_rod_surface_bounds(g: Seq<i64>, l: int, w: int, h: int, x: int, y: int)
    requires
        wf_grid(g, l, w, h),
    ensures
        0 <= rod_surface(g, l, w, x, y) <= 62,
{
    lemma_cell_at_bounds(g, l, w, h, x, y);
    lemma_cell_at_bounds(g, l, w, h, x - 1, y);
    lemma_cell_at_bounds(g, l, w, h, x + 1, y);
    lemma_cell_at_bounds(g, l, w, h, x, y - 1);
    lemma_cell_at_bounds(g, l, w, h, x, y + 1);
}

proof fn lemma_count_in_row_bounds(g: Seq<i64>, l: int, w: int, h: int, x: int, y: int)
    requires
        wf_grid(g, l, w, h),
        0 <= y <= w,
    ensures
        0 <= count_in_row(g, l, w, x, y) <= 15 * y,
    decreases y,
{
    if y > 0 {
        lemma_count_in_row_bounds(g, l, w, h, x, y - 1);
        lemma_cell_at_bounds(g, l, w, h, x, y - 1);
    }
}

proof fn lemma_count_rows_bounds(g: Seq<i64>, l: int, w: int, h: int, x: int)
    requires
        wf_grid(g, l, w, h),
        0 <= x <= l,
    ensures
        0 <= count_rows(g, l, w, x) <= 240 * x,
    decreases x,
{
    if x > 0 {
        lemma_count_rows_bounds(g, l, w, h, x - 1);
        lemma_count_in_row_bounds(g, l, w, h, x - 1, w);
    }
}

proof fn lemma_surface_in_row_bounds(g: Seq<i64>, l: int, w: int, h: int, x: int, y: int)
    requires
        wf_grid(g, l, w, h),
        0 <= y <= w,
    ensures
        0 <= surface_in_row(g, l, w, x, y) <= 62 * y,
    decreases y,
{
    if y > 0 {
        lemma_surface_in_row_bounds(g, l, w, h, x, y - 1);
        lemma_rod_surface_bounds(g, l, w, h, x, y - 1);
    }
}

proof fn lemma_surface_rows_bounds(g: Seq<i64>, l: int, w: int, h: int, x: int)
    requires
        wf_grid(g, l, w, h),
        0 <= x <= l,
    ensures
        0 <= surface_rows(g, l, w, x) <= 992 * x,
    decreases x,
{
    if x > 0 {
        lemma_surface_rows_bounds(g, l, w, h, x - 1);
        lemma_surface_in_row_bounds(g, l, w, h, x - 1, w);
    }
}

/// State of the removal scan after visiting every cell of the first `x`
/// rows and the first `y` cells of row `x`, in row-major order: the first
/// cell attaining the highest positive adjacency count so far, or `(0, 0, 0)`
/// while none has a positive one.
pub open spec fn worst_upto(g: Seq<i64>, l: int, w: int, x: int, y: int) -> (int, int, int)
    decreases x, y,
{
    if y <= 0 {
        if x <= 0 {
            (0, 0, 0)
        } else {
            worst_upto(g, l, w, x - 1, w)
        }
    } else {
        let prev = worst_upto(g, l, w, x, y - 1);
        let v = rod_value(g, l, w, x, y - 1);
        if prev.2 < v {
            (x, y - 1, v)
        } else {
            prev
        }
    }
}

/// The cell the reduction step selects.
pub open spec fn worst_cell(g: Seq<i64>, l: int, w: int) -> (int, int, int) {
    worst_upto(g, l, w, l, 0)
}

/// The last occupied cell in scan order, if any: the fallback of the
/// reduction step.
pub open spec fn last_occupied_upto(g: Seq<i64>, l: int, w: int, x: int, y: int) -> (
    int,
    int,
    bool,
)
    decreases x, y,
{
    if y <= 0 {
        if x <= 0 {
            (0, 0, false)
        } else {
            last_occupied_upto(g, l, w, x - 1, w)
        }
    } else {
        let prev = last_occupied_upto(g, l, w, x, y - 1);
        if occupied(g, l, w, x, y - 1) {
            (x, y - 1, true)
        } else {
            prev
        }
    }
}

pub open spec fn last_occupied(g: Seq<i64>, l: int, w: int) -> (int, int, bool) {
    last_occupied_upto(g, l, w, l, 0)
}

/// The grid with one rod segment removed at the given cell.
pub open spec fn dec_at(g: Seq<i64>, w: int, x: int, y: int) -> Seq<i64> {
    g.update(x * w + y, (g[x * w + y] - 1) as i64)
}

/// One reduction step: remove a segment from the selected cell; if the
/// selection is not occupied, fall back to the last occupied cell in scan
/// order; an empty grid is left unchanged.
pub open spec fn removed_grid(g: Seq<i64>, l: int, w: int) -> Seq<i64> {
    let worst = worst_cell(g, l, w);
    if occupied(g, l, w, worst.0, worst.1) {
        dec_at(g, w, worst.0, worst.1)
    } else {
        let last = last_occupied(g, l, w);
        if last.2 {
            dec_at(g, w, last.0, last.1)
        } else {
            g
        }
    }
}

proof fn lemma_cell_at_dec(g: Seq<i64>, l: int, w: int, x0: int, y0: int, x: int, y: int)
    requires
        g.len() == l * w,
        1 <= l <= 16,
        1 <= w <= 16,
        0 <= x0 < l,
        0 <= y0 < w,
        occupied(g, l, w, x0, y0),
    ensures
        cell_at(dec_at(g, w, x0, y0), l, w, x, y) == if x == x0 && y == y0 {
            cell_at(g, l, w, x, y) - 1
        } else {
            cell_at(g, l, w, x, y)
        },
{
    lemma_grid_idx(l, w, x0, y0);
    if 0 <= x < l && 0 <= y < w {
        lemma_grid_idx(l, w, x, y);
        if x * w + y == x0 * w + y0 {
            lemma_grid_idx_inj(w, x, y, x0, y0);
        }
    }
}

proof fn lemma_count_in_row_dec(g: Seq<i64>, l: int, w: int, x0: int, y0: int, x: int, y: int)
    requires
        g.len() == l * w,
        1 <= l <= 16,
        1 <= w <= 16,
        0 <= x0 < l,
        0 <= y0 < w,
        occupied(g, l, w, x0, y0),
        0 <= y <= w,
    ensures
        count_in_row(dec_at(g, w, x0, y0), l, w, x, y) == count_in_row(g, l, w, x, y) - (
        if x == x0 && y0 < y {
            1int
        } else {
            0int
        }),
    decreases y,
{
    if y > 0 {
        lemma_count_in_row_dec(g, l, w, x0, y0, x, y - 1);
        lemma_cell_at_dec(g, l, w, x0, y0, x, y - 1);
    }
}

proof fn lemma_count_rows_dec(g: Seq<i64>, l: int, w: int, x0: int, y0: int, x: int)
    requires
        g.len() == l * w,
        1 <= l <= 16,
        1 <= w <= 16,
        0 <= x0 < l,
        0 <= y0 < w,
        occupied(g, l, w, x0, y0),
        0 <= x <= l,
    ensures
        count_rows(dec_at(g, w, x0, y0), l, w, x) == count_rows(g, l, w, x) - (if x0 < x {
            1int
        } else {
            0int
        }),
    decreases x,
{
    if x > 0 {
        lemma_count_rows_dec(g, l, w, x0, y0, x - 1);
        lemma_count_in_row_dec(g, l, w, x0, y0, x - 1, w);
    }
}

/// Removing a segment from an occupied cell lowers the total count by one.
proof fn lemma_grid_count_dec(g: Seq<i64>, l: int, w: int, x0: int, y0: int)
    requires
        g.len() == l * w,
        1 <= l <= 16,
        1 <= w <= 16,
        0 <= x0 < l,
        0 <= y0 < w,
        occupied(g, l, w, x0, y0),
    ensures
        grid_count(dec_at(g, w, x0, y0), l, w) == grid_count(g, l, w) - 1,
{
    lemma_count_rows_dec(g, l, w, x0, y0, l);
}

proof fn lemma_count_in_row_mono(g: Seq<i64>, l: int, w: int, h: int, x: int, y1: int, y2: int)
    requires
        wf_grid(g, l, w, h),
        0 <= y1 <= y2 <= w,
    ensures
        count_in_row(g, l, w, x, y1) <= count_in_row(g, l, w, x, y2),
    decreases y2,
{
    if y2 > y1 {
        lemma_count_in_row_mono(g, l, w, h, x, y1, y2 - 1);
        lemma_cell_at_bounds(g, l, w, h, x, y2 - 1);
    }
}

proof fn lemma_count_rows_mono(g: Seq<i64>, l: int, w: int, h: int, x1: int, x2: int)
    requires
        wf_grid(g, l, w, h),
        0 <= x1 <= x2 <= l,
    ensures
        count_rows(g, l, w, x1) <= count_rows(g, l, w, x2),
    decreases x2,
{
    if x2 > x1 {
        lemma_count_rows_mono(g, l, w, h, x1, x2 - 1);
        lemma_count_in_row_bounds(g, l, w, h, x2 - 1, w);
    }
}

/// An occupied cell witnesses a positive total count.
proof fn lemma_occupied_count_pos(g: Seq<i64>, l: int, w: int, h: int, x: int, y: int)
    requires
        wf_grid(g, l, w, h),
        occupied(g, l, w, x, y),
    ensures
        grid_count(g, l, w) > 0,
{
    lemma_count_in_row_bounds(g, l, w, h, x, y);
    assert(count_in_row(g, l, w, x, y + 1) >= 1);
    lemma_count_in_row_mono(g, l, w, h, x, y + 1, w);
    lemma_count_rows_bounds(g, l, w, h, x);
    assert(count_rows(g, l, w, x + 1) >= 1);
    lemma_count_rows_mono(g, l, w, h, x + 1, l);
}

/// What the fallback scan yields: a found cell is occupied, and when nothing
/// was found, no scanned cell is occupied.
proof fn lemma_last_occupied_props(g: Seq<i64>, l: int, w: int, x: int, y: int)
    requires
        0 <= x <= l,
        0 <= y <= w,
    ensures
        ({
            let r = last_occupied_upto(g, l, w, x, y);
            &&& r.2 ==> occupied(g, l, w, r.0, r.1)
            &&& !r.2 ==> forall|a: int, b: int|
                0 <= a < l && 0 <= b < w && (a < x || (a == x && b < y)) ==> !occupied(
                    g,
                    l,
                    w,
                    a,
                    b,
                )
        }),
    decreases x, y,
{
    if y <= 0 {
        if x > 0 {
            lemma_last_occupied_props(g, l, w, x - 1, w);
        }
    } else {
        lemma_last_occupied_props(g, l, w, x, y - 1);
    }
}

proof fn lemma_count_in_row_empty(g: Seq<i64>, l: int, w: int, h: int, x: int, y: int)
    requires
        wf_grid(g, l, w, h),
        0 <= y <= w,
        0 <= x < l,
        forall|a: int, b: int| 0 <= a < l && 0 <= b < w ==> !occupied(g, l, w, a, b),
    ensures
        count_in_row(g, l, w, x, y) == 0,
    decreases y,
{
    if y > 0 {
        lemma_count_in_row_empty(g, l, w, h, x, y - 1);
        lemma_cell_at_bounds(g, l, w, h, x, y - 1);
        assert(!occupied(g, l, w, x, y - 1));
    }
}

/// A grid with no occupied cell counts zero segments.
proof fn lemma_no_occupied_count_zero(g: Seq<i64>, l: int, w: int, h: int, x: int)
    requires
        wf_grid(g, l, w, h),
        0 <= x <= l,
        forall|a: int, b: int| 0 <= a < l && 0 <= b < w ==> !occupied(g, l, w, a, b),
    ensures
        count_rows(g, l, w, x) == 0,
    decreases x,
{
    if x > 0 {
        lemma_no_occupied_count_zero(g, l, w, h, x - 1);
        lemma_count_in_row_empty(g, l, w, h, x - 1, w);
    }
}

/// Chamber volume: the exterior shell minus the interior working volume,
/// written over the interior dimensions.
pub open spec fn chamber_volume(l: int, w: int, h: int) -> int {
    (l + 2) * (w + 2) * (h + 3) - l * w * (h + 1)
}

/// The cooling-throughput constraint `count - max_speed < 1`, where
/// `max_speed = min(chamber_volume * efficiency * cooling_rate, count)` and
/// `efficiency = min(1, surface / (4 * count))`, cleared of denominators:
/// with `en = min(4 * count, surface)` the constraint reads
/// `count * (4 * count * rate_den) - vol * en * rate_num < 4 * count * rate_den`.
/// An empty grid is always feasible.
pub open spec fn feasible(c: int, ts: int, vol: int, m: CoolingMode) -> bool {
    c == 0 || c * (4 * c * rate_den(m)) - vol * min2(4 * c, ts) * rate_num(m) < 4 * c * rate_den(
        m,
    )
}

/// Numerator of the boiling efficiency `min(1, surface / (4 * count))`; an
/// empty grid reports full efficiency.
pub open spec fn efficiency_num(c: int, ts: int) -> int {
    if c == 0 {
        1
    } else {
        min2(4 * c, ts)
    }
}

pub open spec fn efficiency_den(c: int) -> int {
    if c == 0 {
        1
    } else {
        4 * c
    }
}

/// Numerator of the maximum burn rate
/// `min(chamber_volume * efficiency * cooling_rate, count)`, over the
/// denominator `4 * count * rate_den`.
pub open spec fn max_speed_num(c: int, ts: int, vol: int, m: CoolingMode) -> int {
    if c == 0 {
        0
    } else {
        min2(vol * min2(4 * c, ts) * rate_num(m), c * (4 * c * rate_den(m)))
    }
}

pub open spec fn max_speed_den(c: int, m: CoolingMode) -> int {
    if c == 0 {
        1
    } else {
        4 * c * rate_den(m)
    }
}

/// A reduction step on a non-empty well-formed grid removes exactly one
/// segment and preserves well-formedness.
proof fn lemma_removed_grid_props(g: Seq<i64>, l: int, w: int, h: int)
    requires
        wf_grid(g, l, w, h),
        grid_count(g, l, w) > 0,
    ensures
        wf_grid(removed_grid(g, l, w), l, w, h),
        grid_count(removed_grid(g, l, w), l, w) == grid_count(g, l, w) - 1,
{
    let worst = worst_cell(g, l, w);
    if occupied(g, l, w, worst.0, worst.1) {
        lemma_grid_idx(l, w, worst.0, worst.1);
        lemma_grid_count_dec(g, l, w, worst.0, worst.1);
    } else {
        let last = last_occupied(g, l, w);
        lemma_last_occupied_props(g, l, w, l, 0);
        if last.2 {
            lemma_grid_idx(l, w, last.0, last.1);
            lemma_grid_count_dec(g, l, w, last.0, last.1);
        } else {
            lemma_no_occupied_count_zero(g, l, w, h, l);
        }
    }
}

/// The grid the reduction loop reaches: repeat the reduction step until the
/// throughput constraint holds.  Each step removes one segment, and an empty
/// grid is feasible, so the recursion is bounded by the segment count.
pub open spec fn reduce(g: Seq<i64>, l: int, w: int, h: int, m: CoolingMode) -> Seq<i64>
    decreases grid_count(g, l, w),
        when wf_grid(g, l, w, h)
        via reduce_decreases
{
    if feasible(grid_count(g, l, w), grid_surface(g, l, w), chamber_volume(l, w, h), m) {
        g
    } else {
        reduce(removed_grid(g, l, w), l, w, h, m)
    }
}

#[via_fn]
proof fn reduce_decreases(g: Seq<i64>, l: int, w: int, h: int, m: CoolingMode) {
    if wf_grid(g, l, w, h) && !feasible(
        grid_count(g, l, w),
        grid_surface(g, l, w),
        chamber_volume(l, w, h),
        m,
    ) {
        lemma_count_rows_bounds(g, l, w, h, l);
        lemma_removed_grid_props(g, l, w, h);
    }
}

/// The grid every search starts from: the full footprint stacked to the
/// interior height.
pub open spec fn initial_grid(l: int, w: int, h: int) -> Seq<i64> {
    Seq::new((l * w) as nat, |k: int| h as i64)
}

impl FissionFuelAssemblyLayout {
    /// Structural well-formedness of the layout record.
    pub open spec fn wf(self) -> bool {
        wf_grid(self.layout@, self.length as int, self.width as int, self.height as int)
    }

    /// A full grid for the given exterior dimensions: the interior footprint
    /// (casing subtracted on each side) stacked to the interior height.
    pub fn new(
        reactor_length: i64,
        reactor_width: i64,
        reactor_height: i64,
        cooling_mode: CoolingMode,
    ) -> (r: FissionFuelAssemblyLayout)
        requires
            dims_in_range(reactor_length as int, reactor_width as int, reactor_height as int),
        ensures
            r.wf(),
            r.length == reactor_length - 2,
            r.width == reactor_width - 2,
            r.height == reactor_height - 3,
            r.cooling_mode == cooling_mode,
            forall|k: int| 0 <= k < r.layout@.len() ==> #[trigger] r.layout@[k] == r.height,
    {
        let height = reactor_height - CASING_THICKNESS * 3;
        let length = reactor_length - CASING_THICKNESS * 2;
        let width = reactor_width - CASING_THICKNESS * 2;
        proof {
            assert(1 <= length * width <= 256) by (nonlinear_arith)
                requires
                    1 <= length <= 16,
                    1 <= width <= 16,
            ;
        }
        let n = length * width;
        let mut layout: Vec<i64> = Vec::new();
        let mut k: i64 = 0;
        while k < n
            invariant
                0 <= k <= n,
                1 <= height <= 15,
                layout@.len() == k,
                forall|i: int| 0 <= i < layout@.len() ==> #[trigger] layout@[i] == height,
            decreases n - k,
        {
            layout.push(height);
            k = k + 1;
        }
        FissionFuelAssemblyLayout { length, width, height, layout, cooling_mode }
    }

    /// Bounds-checked stack height: zero for out-of-footprint coordinates.
    pub fn get_valid_assembly(&self, position: (i64, i64)) -> (r: i64)
        requires
            self.wf(),
        ensures
            r as int == cell_at(
                self.layout@,
                self.length as int,
                self.width as int,
                position.0 as int,
                position.1 as int,
            ),
    {
        let (x, y) = position;
        if x >= self.length || y >= self.width {
            return 0;
        }
        if x < 0 || y < 0 {
            return 0;
        }
        proof {
            lemma_grid_idx(self.length as int, self.width as int, x as int, y as int);
        }
        let idx = x * self.width + y;
        self.layout[idx as usize]
    }

    /// Whether the position holds at least one rod segment.
    pub fn check_fuel_rod(&self, position: (i64, i64)) -> (r: bool)
        requires
            self.wf(),
        ensures
            r == occupied(
                self.layout@,
                self.length as int,
                self.width as int,
                position.0 as int,
                position.1 as int,
            ),
    {
        self.get_valid_assembly(position) > 0
    }

    /// Adjacency count used to pick the removal order.
    pub fn get_fuel_rod_value(&self, position: (i64, i64)) -> (r: i64)
        requires
            self.wf(),
        ensures
            r as int == rod_value(
                self.layout@,
                self.length as int,
                self.width as int,
                position.0 as int,
                position.1 as int,
            ),
    {
        if !self.check_fuel_rod(position) {
            return 0;
        }
        let (x, y) = position;
        let mut value: i64 = 0;
        if self.check_fuel_rod((x - 1, y)) {
            value = value + 1;
        }
        if self.check_fuel_rod((x + 1, y)) {
            value = value + 1;
        }
        if self.check_fuel_rod((x, y - 1)) {
            value = value + 1;
        }
        if self.check_fuel_rod((x, y + 1)) {
            value = value + 1;
        }
        value
    }

    /// Exposed cooling surface of one cell.
    pub fn get_fuel_rod_surface(&self, position: (i64, i64)) -> (r: i64)
        requires
            self.wf(),
        ensures
            r as int == rod_surface(
                self.layout@,
                self.length as int,
                self.width as int,
                position.0 as int,
                position.1 as int,
            ),
    {
        if !self.check_fuel_rod(position) {
            return 0;
        }
        let (x, y) = position;
        proof {
            let g = self.layout@;
            let l = self.length as int;
            let w = self.width as int;
            let h = self.height as int;
            lemma_cell_at_bounds(g, l, w, h, x as int, y as int);
            lemma_cell_at_bounds(g, l, w, h, x as int - 1, y as int);
            lemma_cell_at_bounds(g, l, w, h, x as int + 1, y as int);
            lemma_cell_at_bounds(g, l, w, h, x as int, y as int - 1);
            lemma_cell_at_bounds(g, l, w, h, x as int, y as int + 1);
        }
        let self_count = self.get_valid_assembly(position);
        let left = self_count - self.get_valid_assembly((x - 1, y));
        let right = self_count - self.get_valid_assembly((x + 1, y));
        let up = self_count - self.get_valid_assembly((x, y + 1));
        let down = self_count - self.get_valid_assembly((x, y - 1));
        let left = if left < 0 {
            0
        } else {
            left
        };
        let right = if right < 0 {
            0
        } else {
            right
        };
        let up = if up < 0 {
            0
        } else {
            up
        };
        let down = if down < 0 {
            0
        } else {
            down
        };
        left + right + up + down + 2
    }

    /// Total number of rod segments in the grid.
    pub fn get_assembly_count(&self) -> (r: i64)
        requires
            self.wf(),
        ensures
            r as int == grid_count(self.layout@, self.length as int, self.width as int),
    {
        let ghost g = self.layout@;
        let ghost l = self.length as int;
        let ghost w = self.width as int;
        let ghost h = self.height as int;
        let mut count: i64 = 0;
        let mut x: i64 = 0;
        while x < self.length
            invariant
                self.wf(),
                g == self.layout@ && l == self.length && w == self.width && h == self.height,
                0 <= x <= l,
                count == count_rows(g, l, w, x as int),
            decreases l - x,
        {
            let mut y: i64 = 0;
            while y < self.width
                invariant
                    self.wf(),
                    g == self.layout@ && l == self.length && w == self.width && h
                        == self.height,
                    0 <= x < l,
                    0 <= y <= w,
                    count == count_rows(g, l, w, x as int) + count_in_row(
                        g,
                        l,
                        w,
                        x as int,
                        y as int,
                    ),
                decreases w - y,
            {
                proof {
                    lemma_count_rows_bounds(g, l, w, h, x as int);
                    lemma_count_in_row_bounds(g, l, w, h, x as int, y as int);
                    lemma_cell_at_bounds(g, l, w, h, x as int, y as int);
                }
                let v = self.get_valid_assembly((x, y));
                if v > 0 {
                    count = count + v;
                }
                y = y + 1;
            }
            x = x + 1;
        }
        count
    }

    /// Total exposed cooling surface of the grid.
    pub fn get_total_surface(&self) -> (r: i64)
        requires
            self.wf(),
        ensures
            r as int == grid_surface(self.layout@, self.length as int, self.width as int),
    {
        let ghost g = self.layout@;
        let ghost l = self.length as int;
        let ghost w = self.width as int;
        let ghost h = self.height as int;
        let mut count: i64 = 0;
        let mut x: i64 = 0;
        while x < self.length
            invariant
                self.wf(),
                g == self.layout@ && l == self.length && w == self.width && h == self.height,
                0 <= x <= l,
                count == surface_rows(g, l, w, x as int),
            decreases l - x,
        {
            let mut y: i64 = 0;
            while y < self.width
                invariant
                    self.wf(),
                    g == self.layout@ && l == self.length && w == self.width && h
                        == self.height,
                    0 <= x < l,
                    0 <= y <= w,
                    count == surface_rows(g, l, w, x as int) + surface_in_row(
                        g,
                        l,
                        w,
                        x as int,
                        y as int,
                    ),
                decreases w - y,
            {
                proof {
                    lemma_surface_rows_bounds(g, l, w, h, x as int);
                    lemma_surface_in_row_bounds(g, l, w, h, x as int, y as int);
                    lemma_rod_surface_bounds(g, l, w, h, x as int, y as int);
                }
                let v = self.get_fuel_rod_surface((x, y));
                count = count + v;
                y = y + 1;
            }
            x = x + 1;
        }
        count
    }

    /// One reduction step: scan the footprint for the occupied cell with the
    /// highest adjacency count (first in scan order on ties) and remove one
    /// rod segment there.  If the scan selects an unoccupied cell, the last
    /// occupied cell in scan order loses a segment instead; an empty grid is
    /// left unchanged.
    pub fn remove_worst_assembly(&mut self)
        requires
            old(self).wf(),
        ensures
            final(self).wf(),
            final(self).length == old(self).length,
            final(self).width == old(self).width,
            final(self).height == old(self).height,
            final(self).cooling_mode == old(self).cooling_mode,
            final(self).layout@ == removed_grid(
                old(self).layout@,
                old(self).length as int,
                old(self).width as int,
            ),
            grid_count(old(self).layout@, old(self).length as int, old(self).width as int) > 0
                ==> grid_count(
                final(self).layout@,
                final(self).length as int,
                final(self).width as int,
            ) == grid_count(
                old(self).layout@,
                old(self).length as int,
                old(self).width as int,
            ) - 1,
            grid_count(old(self).layout@, old(self).length as int, old(self).width as int) == 0
                ==> final(self).layout@ == old(self).layout@,
    {
        let ghost g = self.layout@;
        let ghost l = self.length as int;
        let ghost w = self.width as int;
        let ghost h = self.height as int;
        let mut worst_x: i64 = 0;
        let mut worst_y: i64 = 0;
        let mut worst_value: i64 = 0;
        let mut x: i64 = 0;
        while x < self.length
            invariant
                self.wf(),
                g == self.layout@ && l == self.length && w == self.width && h == self.height,
                0 <= x <= l,
                worst_upto(g, l, w, x as int, 0) == (
                    worst_x as int,
                    worst_y as int,
                    worst_value as int,
                ),
            decreases l - x,
        {
            let mut y: i64 = 0;
            while y < self.width
                invariant
                    self.wf(),
                    g == self.layout@ && l == self.length && w == self.width && h
                        == self.height,
                    0 <= x < l,
                    0 <= y <= w,
                    worst_upto(g, l, w, x as int, y as int) == (
                        worst_x as int,
                        worst_y as int,
                        worst_value as int,
                    ),
                decreases w - y,
            {
                let contact_surface = self.get_fuel_rod_value((x, y));
                if worst_value < contact_surface {
                    worst_value = contact_surface;
                    worst_x = x;
                    worst_y = y;
                }
                y = y + 1;
            }
            x = x + 1;
        }
        if self.check_fuel_rod((worst_x, worst_y)) {
            proof {
                lemma_grid_idx(l, w, worst_x as int, worst_y as int);
            }
            let idx = worst_x * self.width + worst_y;
            let v = self.layout[idx as usize];
            self.layout.set(idx as usize, v - 1);
            proof {
                lemma_grid_count_dec(g, l, w, worst_x as int, worst_y as int);
                lemma_occupied_count_pos(g, l, w, h, worst_x as int, worst_y as int);
            }
        } else {
            let mut exist_x: i64 = 0;
            let mut exist_y: i64 = 0;
            let mut found = false;
            let mut x: i64 = 0;
            while x < self.length
                invariant
                    self.wf(),
                    g == self.layout@ && l == self.length && w == self.width && h
                        == self.height,
                    0 <= x <= l,
                    last_occupied_upto(g, l, w, x as int, 0) == (
                        exist_x as int,
                        exist_y as int,
                        found,
                    ),
                decreases l - x,
            {
                let mut y: i64 = 0;
                while y < self.width
                    invariant
                        self.wf(),
                        g == self.layout@ && l == self.length && w == self.width && h
                            == self.height,
                        0 <= x < l,
                        0 <= y <= w,
                        last_occupied_upto(g, l, w, x as int, y as int) == (
                            exist_x as int,
                            exist_y as int,
                            found,
                        ),
                    decreases w - y,
                {
                    if self.check_fuel_rod((x, y)) {
                        exist_x = x;
                        exist_y = y;
                        found = true;
                    }
                    y = y + 1;
                }
                x = x + 1;
            }
            proof {
                lemma_last_occupied_props(g, l, w, l, 0);
            }
            if found {
                proof {
                    lemma_grid_idx(l, w, exist_x as int, exist_y as int);
                }
                let idx = exist_x * self.width + exist_y;
                let v = self.layout[idx as usize];
                self.layout.set(idx as usize, v - 1);
                proof {
                    lemma_grid_count_dec(g, l, w, exist_x as int, exist_y as int);
                    lemma_occupied_count_pos(g, l, w, h, exist_x as int, exist_y as int);
                }
            } else {
                proof {
                    lemma_no_occupied_count_zero(g, l, w, h, l);
                }
            }
        }
    }

    /// Total rod-segment count, as the aggregate the contracts speak of.
    pub open spec fn spec_count(self) -> int {
        grid_count(self.layout@, self.length as int, self.width as int)
    }

    /// Total exposed surface, as the aggregate the contracts speak of.
    pub open spec fn spec_surface(self) -> int {
        grid_surface(self.layout@, self.length as int, self.width as int)
    }

    pub open spec fn spec_volume(self) -> int {
        chamber_volume(self.length as int, self.width as int, self.height as int)
    }

    /// The cooling-throughput constraint for this layout.
    pub open spec fn spec_feasible(self) -> bool {
        feasible(self.spec_count(), self.spec_surface(), self.spec_volume(), self.cooling_mode)
    }

    /// Whether the cooling throughput keeps up with the assembly count.
    pub fn check_reactors(&self) -> (r: bool)
        requires
            self.wf(),
        ensures
            r == self.spec_feasible(),
    {
        let c = self.get_assembly_count();
        if c == 0 {
            return true;
        }
        let ts = self.get_total_surface();
        proof {
            let g = self.layout@;
            let l = self.length as int;
            let w = self.width as int;
            let h = self.height as int;
            lemma_count_rows_bounds(g, l, w, h, l);
            lemma_surface_rows_bounds(g, l, w, h, l);
            assert(0 <= chamber_volume(l, w, h) <= 5832 && 0 <= (l + 2) * (w + 2) <= 324 && 0
                <= (l + 2) * (w + 2) * (h + 3) <= 5832 && 0 <= l * w <= 256 && 0 <= l * w * (h
                + 1) <= 4096) by (nonlinear_arith)
                requires
                    1 <= l <= 16,
                    1 <= w <= 16,
                    1 <= h <= 15,
            ;
        }
        let vol = (self.length + 2) * (self.width + 2) * (self.height + 3) - self.length
            * self.width * (self.height + 1);
        let four_c = 4 * c;
        let en = if four_c <= ts {
            four_c
        } else {
            ts
        };
        let rd = match self.cooling_mode {
            CoolingMode::WaterCooling => WATER_COOLING_RATE_DEN,
            CoolingMode::SodiumCooling => SODIUM_COOLING_RATE_DEN,
        };
        let den = four_c * rd;
        proof {
            assert(0 <= c * (4 * c * 40_000) <= 3_000_000_000_000 && 0 <= c * (4 * c * 20_000)
                <= 3_000_000_000_000) by (nonlinear_arith)
                requires
                    0 <= c <= 3840,
            ;
            assert(0 <= vol * en <= 100_000_000) by (nonlinear_arith)
                requires
                    0 <= vol <= 5832,
                    0 <= en <= 15_360,
            ;
        }
        let lhs = c * den;
        let rhs = vol * en * COOLING_RATE_NUM;
        lhs - rhs < den
    }

    /// Boiling efficiency as an exact ratio:
    /// `min(1, total_surface / (4 * assembly_count))`; an empty grid reports
    /// full efficiency.
    pub fn get_efficiency(&self) -> (r: Ratio)
        requires
            self.wf(),
        ensures
            r.num == efficiency_num(self.spec_count(), self.spec_surface()),
            r.den == efficiency_den(self.spec_count()),
            r.den > 0,
            0 <= r.num <= r.den,
    {
        let c = self.get_assembly_count();
        if c == 0 {
            return Ratio { num: 1, den: 1 };
        }
        proof {
            let g = self.layout@;
            let l = self.length as int;
            let w = self.width as int;
            let h = self.height as int;
            lemma_count_rows_bounds(g, l, w, h, l);
            lemma_surface_rows_bounds(g, l, w, h, l);
        }
        let ts = self.get_total_surface();
        let four_c = 4 * c;
        let num = if four_c <= ts {
            four_c
        } else {
            ts
        };
        Ratio { num, den: four_c }
    }

    /// Maximum burn rate as an exact ratio:
    /// `min(chamber_volume * efficiency * cooling_rate, assembly_count)`.
    /// The rate never exceeds the assembly count.
    pub fn get_max_speed(&self) -> (r: Ratio)
        requires
            self.wf(),
        ensures
            r.num == max_speed_num(
                self.spec_count(),
                self.spec_surface(),
                self.spec_volume(),
                self.cooling_mode,
            ),
            r.den == max_speed_den(self.spec_count(), self.cooling_mode),
            r.den > 0,
            0 <= r.num,
            r.num <= self.spec_count() * r.den,
    {
        let c = self.get_assembly_count();
        if c == 0 {
            return Ratio { num: 0, den: 1 };
        }
        let ts = self.get_total_surface();
        proof {
            let g = self.layout@;
            let l = self.length as int;
            let w = self.width as int;
            let h = self.height as int;
            lemma_count_rows_bounds(g, l, w, h, l);
            lemma_surface_rows_bounds(g, l, w, h, l);
            assert(0 <= chamber_volume(l, w, h) <= 5832 && 0 <= (l + 2) * (w + 2) <= 324 && 0
                <= (l + 2) * (w + 2) * (h + 3) <= 5832 && 0 <= l * w <= 256 && 0 <= l * w * (h
                + 1) <= 4096) by (nonlinear_arith)
                requires
                    1 <= l <= 16,
                    1 <= w <= 16,
                    1 <= h <= 15,
            ;
        }
        let vol = (self.length + 2) * (self.width + 2) * (self.height + 3) - self.length
            * self.width * (self.height + 1);
        let four_c = 4 * c;
        let en = if four_c <= ts {
            four_c
        } else {
            ts
        };
        let rd = match self.cooling_mode {
            CoolingMode::WaterCooling => WATER_COOLING_RATE_DEN,
            CoolingMode::SodiumCooling => SODIUM_COOLING_RATE_DEN,
        };
        let den = four_c * rd;
        proof {
            assert(0 <= c * (4 * c * 40_000) <= 3_000_000_000_000 && 0 <= c * (4 * c * 20_000)
                <= 3_000_000_000_000) by (nonlinear_arith)
                requires
                    0 <= c <= 3840,
            ;
            assert(0 <= vol * en <= 100_000_000) by (nonlinear_arith)
                requires
                    0 <= vol <= 5832,
                    0 <= en <= 15_360,
            ;
        }
        let flow = vol * en * COOLING_RATE_NUM;
        let cap = c * den;
        let num = if flow <= cap {
            flow
        } else {
            cap
        };
        Ratio { num, den }
    }
}

/// Everything the search promises of its result: the interior dimensions and
/// mode it was asked for, and the grid the reduction loop reaches from the
/// full grid.
pub open spec fn is_calculated_layout(
    rl: int,
    rw: int,
    rh: int,
    m: CoolingMode,
    r: FissionFuelAssemblyLayout,
) -> bool {
    &&& r.length == rl - 2
    &&& r.width == rw - 2
    &&& r.height == rh - 3
    &&& r.cooling_mode == m
    &&& r.layout@ == reduce(initial_grid(rl - 2, rw - 2, rh - 3), rl - 2, rw - 2, rh - 3, m)
}

/// Build the full grid for the given exterior dimensions and remove one rod
/// segment at a time until the cooling throughput keeps up.
pub fn calculate_layout(
    length: i64,
    width: i64,
    height: i64,
    cooling_mode: CoolingMode,
) -> (r: FissionFuelAssemblyLayout)
    requires
        dims_in_range(length as int, width as int, height as int),
    ensures
        r.wf(),
        is_calculated_layout(length as int, width as int, height as int, cooling_mode, r),
        r.spec_feasible(),
{
    let mut layout = FissionFuelAssemblyLayout::new(length, width, height, cooling_mode);
    let ghost il = length as int - 2;
    let ghost iw = width as int - 2;
    let ghost ih = height as int - 3;
    proof {
        assert(layout.layout@ =~= initial_grid(il, iw, ih));
    }
    let mut done = layout.check_reactors();
    while !done
        invariant
            layout.wf(),
            layout.length == length - 2,
            layout.width == width - 2,
            layout.height == height - 3,
            layout.cooling_mode == cooling_mode,
            il == length as int - 2 && iw == width as int - 2 && ih == height as int - 3,
            done == layout.spec_feasible(),
            reduce(layout.layout@, il, iw, ih, cooling_mode) == reduce(
                initial_grid(il, iw, ih),
                il,
                iw,
                ih,
                cooling_mode,
            ),
        decreases grid_count(layout.layout@, il, iw),
    {
        proof {
            lemma_count_rows_bounds(layout.layout@, il, iw, ih, il);
        }
        layout.remove_worst_assembly();
        done = layout.check_reactors();
    }
    layout
}

/// Feasibility is exactly the post-condition `count - max_speed < 1`,
/// stated over the exact burn-rate ratio: the count exceeds the rate by less
/// than one.
pub proof fn lemma_feasible_margin(c: int, ts: int, vol: int, m: CoolingMode)
    requires
        c >= 0,
        feasible(c, ts, vol, m),
    ensures
        (c - 1) * max_speed_den(c, m) < max_speed_num(c, ts, vol, m),
{
    if c > 0 {
        let rd = rate_den(m);
        let den = 4 * c * rd;
        let flow = vol * min2(4 * c, ts) * rate_num(m);
        assert(den > 0) by (nonlinear_arith)
            requires
                c > 0,
                rd > 0,
                den == 4 * c * rd,
        ;
        assert((c - 1) * den == c * den - den) by (nonlinear_arith);
        assert(c * den - flow < den);
    }
}

/// Repeated searches with identical inputs return identical results: the
/// search contract pins the grid and every field down.
pub proof fn lemma_fission_deterministic(
    rl: int,
    rw: int,
    rh: int,
    m: CoolingMode,
    r1: FissionFuelAssemblyLayout,
    r2: FissionFuelAssemblyLayout,
)
    requires
        is_calculated_layout(rl, rw, rh, m, r1),
        is_calculated_layout(rl, rw, rh, m, r2),
    ensures
        r1.length == r2.length,
        r1.width == r2.width,
        r1.height == r2.height,
        r1.cooling_mode == r2.cooling_mode,
        r1.layout@ == r2.layout@,
{
}

} // verus!
