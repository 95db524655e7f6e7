//! The geometry of the fan curve chart: percent to position, position to step, and the
//! temperature axis.
//!
//! Sizes and heights are in thousandths of a pixel and temperatures in thousandths of a
//! degree. The axis runs from 35 to 95 degrees, so that all six bands of the curve are ten
//! degrees wide and the marker lands in the band that is in force.
//!
//! A position along the axis counts [`PARTS`] to the thousandth of a pixel, as many as the
//! axis has thousandths of a degree: no temperature's place and no column's edge is rounded.

use vstd::prelude::*;

use crate::hardware::fan::{step_at, FAN_CURVE_BREAKPOINTS};

verus! {

/// The six percentages that can be edited.
pub const STEP_COUNT: usize = 6;

/// The ends of the temperature axis.
pub const AXIS_MIN: i64 = 35_000;

pub const AXIS_MAX: i64 = 95_000;

/// What a position along the axis counts to the thousandth of a pixel: the length of the axis.
pub const PARTS: i64 = 60_000;

/// The width of one band of the curve on the axis.
pub const BAND: i64 = 10_000;

/// Room for the percent labels down the left side, and the other margins.
pub const MARGIN_LEFT: i64 = 34_000;

pub const MARGIN_RIGHT: i64 = 8_000;

pub const MARGIN_TOP: i64 = 10_000;

/// Room for the temperature labels along the bottom.
pub const MARGIN_BOTTOM: i64 = 20_000;

/// What a dragged percentage snaps to, the same as the spin buttons step by.
pub const SNAP_PCT: i64 = 5;

/// The largest size or height that the geometry deals with: as far as sixty-four bits reach
/// along the axis, fifty thousand million pixels.
pub const FARTHEST: i64 = 50_000_000_000_000;

/// The farthest position along the axis that the geometry deals with.
pub const FARTHEST_ALONG: i64 = 6_000_000_000_000_000_000;

/// The area inside the widget's margins.
#[derive(Debug, Clone, Copy, PartialEq, Eq, Structural)]
pub struct Plot {
    pub x: i64,
    pub y: i64,
    pub w: i64,
    pub h: i64,
}

impl Plot {
    /// The sides are not negative, and nothing lies too far out.
    pub open spec fn wf(self) -> bool {
        &&& -FARTHEST <= self.x <= FARTHEST
        &&& -FARTHEST <= self.y <= FARTHEST
        &&& 0 <= self.w <= FARTHEST
        &&& 0 <= self.h <= FARTHEST
    }
}

/// The area inside the margins of a widget of this size. A widget smaller than its margins
/// has an empty one.
pub fn plot_for(width: i64, height: i64) -> (r: Plot)
    requires
        -FARTHEST <= width <= FARTHEST,
        -FARTHEST <= height <= FARTHEST,
    ensures
        r.wf(),
        r == (Plot {
            x: MARGIN_LEFT,
            y: MARGIN_TOP,
            w: (if width >= 42_000 {
                width - 42_000
            } else {
                0
            }) as i64,
            h: (if height >= 30_000 {
                height - 30_000
            } else {
                0
            }) as i64,
        }),
        // The margins are what the plot leaves of the widget.
        r.x == 34_000 && r.y == 10_000,
        width >= 42_000 ==> r.x + r.w + 8_000 == width,
        height >= 30_000 ==> r.y + r.h + 20_000 == height,
        width < 42_000 ==> r.w == 0,
        height < 30_000 ==> r.h == 0,
{
    let w: i64 = width - MARGIN_LEFT - MARGIN_RIGHT;
    let h: i64 = height - MARGIN_TOP - MARGIN_BOTTOM;
    Plot {
        x: MARGIN_LEFT,
        y: MARGIN_TOP,
        w: if w > 0 {
            w
        } else {
            0
        },
        h: if h > 0 {
            h
        } else {
            0
        },
    }
}

/// Where the column of a step begins; that of the step after the last is the right edge.
pub open spec fn column_left(plot: Plot, step: int) -> int {
    PARTS * plot.x + BAND * (plot.w * step)
}

/// The left and the right edge of a step's column, along the axis.
pub fn column(plot: Plot, step: usize) -> (r: (i64, i64))
    requires
        plot.wf(),
        step < STEP_COUNT,
    ensures
        r.0 == column_left(plot, step as int),
        r.1 == column_left(plot, step + 1),
{
    let k: i64 = step as i64;
    assert(0 <= plot.w * k <= 6 * FARTHEST && 0 <= plot.w * (k + 1) <= 6 * FARTHEST)
        by (nonlinear_arith)
        requires
            0 <= plot.w <= FARTHEST,
            0 <= k < 6,
            FARTHEST == 50_000_000_000_000i64,
    ;
    (PARTS * plot.x + BAND * (plot.w * k), PARTS * plot.x + BAND * (plot.w * (k + 1)))
}

/// The step a position along the axis belongs to; the nearest one, outside the plot.
pub open spec fn step_of(plot: Plot, x: int) -> int {
    let along = x - PARTS * plot.x;
    if plot.w <= 0 || along < 0 {
        0
    } else {
        let index = along / (BAND * plot.w);
        if index > 5 {
            5
        } else {
            index
        }
    }
}

/// The step a position along the axis belongs to. A drag that leaves the widget keeps editing
/// the step nearest to it.
pub fn step_at_x(plot: Plot, x: i64) -> (r: usize)
    requires
        plot.wf(),
        -FARTHEST_ALONG <= x <= FARTHEST_ALONG,
    ensures
        r == step_of(plot, x as int),
        r < STEP_COUNT,
{
    let along: i64 = x - PARTS * plot.x;
    if plot.w <= 0 || along < 0 {
        return 0;
    }
    let index: i64 = along / (BAND * plot.w);
    assert(index >= 0) by (nonlinear_arith)
        requires
            index == along as int / (BAND * plot.w),
            along >= 0,
            plot.w > 0,
            BAND == 10_000i64,
    ;
    if index > 5 {
        5
    } else {
        index as usize
    }
}

/// The height at which the bar of a percentage ends.
pub open spec fn top_of(plot: Plot, pct: u8) -> int {
    let held: int = if pct > 100 {
        100
    } else {
        pct as int
    };
    plot.y + plot.h * (100 - held) / 100
}

/// The height at which the bar of a percentage ends: a hundred is the top of the plot and
/// zero the bottom.
pub fn y_for_pct(plot: Plot, pct: u8) -> (r: i64)
    requires
        plot.wf(),
    ensures
        r == top_of(plot, pct),
{
    let held: i64 = if pct > 100 {
        100
    } else {
        pct as i64
    };
    assert(0 <= plot.h * (100 - held) <= 100 * FARTHEST) by (nonlinear_arith)
        requires
            0 <= plot.h <= FARTHEST,
            0 <= held <= 100,
            FARTHEST == 50_000_000_000_000i64,
    ;
    plot.y + plot.h * (100 - held) / 100
}

/// The percentage a vertical position means: the nearest multiple of five, upwards where two
/// are as near, and from zero to a hundred.
pub open spec fn pct_of(plot: Plot, y: int) -> int {
    if plot.h <= 0 || y > plot.y + plot.h {
        0
    } else {
        let snaps = (2 * 20 * (plot.y + plot.h - y) + plot.h) / (2 * plot.h as int);
        if snaps > 20 {
            100
        } else {
            5 * snaps
        }
    }
}

/// The percentage a vertical position means.
pub fn pct_at_y(plot: Plot, y: i64) -> (r: u8)
    requires
        plot.wf(),
        -FARTHEST <= y <= FARTHEST,
    ensures
        r == pct_of(plot, y as int),
        r <= 100,
{
    if plot.h <= 0 || y > plot.y + plot.h {
        return 0;
    }
    let up: i64 = plot.y + plot.h - y;
    let snaps: i64 = (40 * up + plot.h) / (2 * plot.h);
    assert(snaps >= 0) by (nonlinear_arith)
        requires
            snaps == (40 * up + plot.h) / (2 * plot.h as int),
            up >= 0,
            plot.h > 0,
    ;
    if snaps > 20 {
        100
    } else {
        (SNAP_PCT * snaps) as u8
    }
}

/// Where a temperature lies on the axis; the nearest end, off the axis.
pub open spec fn place_of_temp(plot: Plot, temp: int) -> int {
    let held = if temp < AXIS_MIN {
        AXIS_MIN as int
    } else if temp > AXIS_MAX {
        AXIS_MAX as int
    } else {
        temp
    };
    PARTS * plot.x + plot.w * (held - AXIS_MIN)
}

/// Where a temperature lies on the axis.
pub fn x_for_temp(plot: Plot, temp: i32) -> (r: i64)
    requires
        plot.wf(),
    ensures
        r == place_of_temp(plot, temp as int),
{
    let t: i64 = temp as i64;
    let held: i64 = if t < AXIS_MIN {
        AXIS_MIN
    } else if t > AXIS_MAX {
        AXIS_MAX
    } else {
        t
    };
    let along: i64 = held - AXIS_MIN;
    assert(0 <= plot.w * along <= 60_000 * FARTHEST) by (nonlinear_arith)
        requires
            0 <= plot.w <= FARTHEST,
            0 <= along <= 60_000,
            FARTHEST == 50_000_000_000_000i64,
    ;
    PARTS * plot.x + plot.w * along
}

/// The step of the curve that a temperature puts in force.
pub fn lit_step(plot: Plot, temp: i32) -> (r: usize)
    requires
        plot.wf(),
    ensures
        r == step_of(plot, place_of_temp(plot, temp as int)),
        plot.w > 0 ==> r == step_at(temp as int),
{
    proof {
        if plot.w > 0 {
            law_marker_lands_in_the_band_in_force(plot, temp as int);
        }
        lemma_place_is_near(plot, temp as int);
    }
    step_at_x(plot, x_for_temp(plot, temp))
}

/// The steps of a curve with the one under a position set to what its height means.
pub fn edited(steps: [u8; 6], plot: Plot, x: i64, y: i64) -> (r: [u8; 6])
    requires
        plot.wf(),
        -FARTHEST_ALONG <= x <= FARTHEST_ALONG,
        -FARTHEST <= y <= FARTHEST,
    ensures
        r@ == steps@.update(step_of(plot, x as int), pct_of(plot, y as int) as u8),
        r@[step_of(plot, x as int)] == pct_of(plot, y as int),
        forall|k: int| 0 <= k < 6 && k != step_of(plot, x as int) ==> r@[k] == steps@[k],
{
    let mut out = steps;
    let at: usize = step_at_x(plot, x);
    let pct: u8 = pct_at_y(plot, y);
    out[at] = pct;
    out
}

/// Where the region that is left to the firmware ends, for a curve that takes the fans back
/// at this temperature.
pub fn firmware_region_end_x(plot: Plot, resume: Option<i32>) -> (r: Option<i64>)
    requires
        plot.wf(),
    ensures
        r is Some == resume is Some,
        r is Some ==> r->0 == place_of_temp(plot, resume->0 as int),
        r is Some ==> PARTS * plot.x <= r->0 <= PARTS * (plot.x + plot.w),
{
    proof {
        if resume is Some {
            law_axis_is_even(plot, resume->0 as int);
        }
    }
    match resume {
        Some(temp) => Some(x_for_temp(plot, temp)),
        None => None,
    }
}

/// The columns tile the plot: the first begins at its left edge, the last ends at its right
/// edge, and all are equally wide.
pub proof fn law_columns_tile_the_plot(plot: Plot, step: int)
    requires
        plot.wf(),
        0 <= step < 6,
    ensures
        column_left(plot, 0) == PARTS * plot.x,
        column_left(plot, 6) == PARTS * (plot.x + plot.w),
        column_left(plot, step + 1) - column_left(plot, step) == BAND * plot.w,
{
    assert(plot.w * (step + 1) == plot.w * step + plot.w) by (nonlinear_arith);
}

/// Every temperature at which the curve steps lies on the edge between two columns.
pub proof fn law_breakpoints_are_column_edges(plot: Plot, i: int)
    requires
        plot.wf(),
        0 <= i < 5,
    ensures
        FAN_CURVE_BREAKPOINTS@[i] == AXIS_MIN + BAND * (i + 1),
        place_of_temp(plot, FAN_CURVE_BREAKPOINTS@[i] as int) == column_left(plot, i + 1),
{
    let t = FAN_CURVE_BREAKPOINTS@;
    assert(t[0] == 45_000 && t[1] == 55_000 && t[2] == 65_000 && t[3] == 75_000 && t[4] == 85_000);
    let k = i + 1;
    let w = plot.w as int;
    assert(w * (BAND * k) == BAND * (w * k)) by (nonlinear_arith);
}

/// The marker lands in the band that is in force: the step under a temperature's place is the
/// one the curve takes at that temperature, however wide the plot is.
pub proof fn law_marker_lands_in_the_band_in_force(plot: Plot, temp: int)
    requires
        plot.w > 0,
    ensures
        step_of(plot, place_of_temp(plot, temp)) == step_at(temp),
{
    let held = if temp < AXIS_MIN {
        AXIS_MIN as int
    } else if temp > AXIS_MAX {
        AXIS_MAX as int
    } else {
        temp
    };
    let d = held - AXIS_MIN;
    let k = d / 10_000;
    let w = plot.w as int;
    assert(0 <= w * d && (w * d) / (BAND * w) == k) by (nonlinear_arith)
        requires
            k == d / 10_000,
            d >= 0,
            w > 0,
            BAND == 10_000i64,
    {
        let r = d - 10_000 * k;
        assert(0 <= r < 10_000);
        assert(w * d == (10_000 * w) * k + w * r) by (nonlinear_arith)
            requires
                r == d - 10_000 * k,
        ;
        assert(0 <= w * r < 10_000 * w) by (nonlinear_arith)
            requires
                0 <= r < 10_000,
                w > 0,
        ;
        assert(((10_000 * w) * k + w * r) / (10_000 * w) == k) by (nonlinear_arith)
            requires
                0 <= w * r < 10_000 * w,
        ;
    }
}

proof fn lemma_place_is_near(plot: Plot, temp: int)
    requires
        plot.wf(),
    ensures
        -FARTHEST_ALONG <= place_of_temp(plot, temp) <= FARTHEST_ALONG,
{
    let held = if temp < AXIS_MIN {
        AXIS_MIN as int
    } else if temp > AXIS_MAX {
        AXIS_MAX as int
    } else {
        temp
    };
    assert(0 <= plot.w * (held - AXIS_MIN) <= 60_000 * FARTHEST) by (nonlinear_arith)
        requires
            0 <= plot.w <= FARTHEST,
            0 <= held - AXIS_MIN <= 60_000,
            FARTHEST == 50_000_000_000_000i64,
    ;
}

/// A bar that was drawn at a percentage reads back as that percentage, in a plot that is tall
/// enough to tell the percentages apart.
pub proof fn law_drawn_percent_reads_back(plot: Plot, pct: u8)
    requires
        plot.wf(),
        plot.h >= 100,
        pct <= 100,
        pct % 5 == 0,
    ensures
        pct_of(plot, top_of(plot, pct)) == pct,
{
    let h = plot.h as int;
    let k = pct as int / 5;
    let down = h * (100 - pct) / 100;
    let up = h - down;
    assert(h * pct <= 100 * up < h * pct + 100) by (nonlinear_arith)
        requires
            down == h * (100 - pct) / 100,
            up == h - down,
            h >= 0,
            pct <= 100,
    ;
    assert(pct == 5 * k);
    let n = 40 * up + h;
    assert(2 * h * k <= n < 2 * h * (k + 1)) by (nonlinear_arith)
        requires
            n == 40 * up + h,
            h * pct <= 100 * up < h * pct + 100,
            pct == 5 * k,
            h >= 100,
    ;
    assert(n / (2 * h) == k) by (nonlinear_arith)
        requires
            2 * h * k <= n < 2 * h * (k + 1),
            h > 0,
    ;
    assert(top_of(plot, pct) == plot.y + down);
    assert(up >= 0) by (nonlinear_arith)
        requires
            100 * up >= h * pct,
            h >= 0,
            pct >= 0,
    ;
}

/// A position belongs to the step whose column it is in.
pub proof fn law_columns_hold_their_positions(plot: Plot, step: int, x: int)
    requires
        plot.wf(),
        plot.w > 0,
        0 <= step < 6,
        column_left(plot, step) <= x < column_left(plot, step + 1),
    ensures
        step_of(plot, x) == step,
{
    let d = x - PARTS * plot.x;
    let w = plot.w as int;
    assert(d >= 0 && d / (BAND * w) == step) by (nonlinear_arith)
        requires
            BAND * (w * step) <= d < BAND * (w * (step + 1)),
            w > 0,
            step >= 0,
            BAND == 10_000i64,
    ;
}

/// The axis is even: it begins at 35 degrees with the plot, ends at 95 degrees with it, and
/// every thousandth of a degree between them is as wide as any other.
pub proof fn law_axis_is_even(plot: Plot, temp: int)
    requires
        plot.wf(),
    ensures
        temp <= 35_000 ==> place_of_temp(plot, temp) == PARTS * plot.x,
        temp >= 95_000 ==> place_of_temp(plot, temp) == PARTS * (plot.x + plot.w),
        35_000 <= temp < 95_000 ==> place_of_temp(plot, temp + 1) - place_of_temp(plot, temp)
            == plot.w,
        PARTS * plot.x <= place_of_temp(plot, temp) <= PARTS * (plot.x + plot.w),
{
    let d = temp - 35_000;
    let w = plot.w as int;
    assert(w * (d + 1) == w * d + w) by (nonlinear_arith);
    if 35_000 <= temp <= 95_000 {
        assert(0 <= w * d <= 60_000 * w) by (nonlinear_arith)
            requires
                0 <= d <= 60_000,
                w >= 0,
        ;
    }
    assert(w * 60_000 == 60_000 * w) by (nonlinear_arith);
    assert(w * 0 == 0) by (nonlinear_arith);
}

/// A bar grows with its percentage: none of it at zero, all of the plot at a hundred and
/// beyond, and its share of the plot between.
pub proof fn law_bars_grow_with_their_percentage(plot: Plot, pct: u8)
    requires
        plot.wf(),
    ensures
        top_of(plot, 0) == plot.y + plot.h,
        pct >= 100 ==> top_of(plot, pct) == plot.y,
        pct <= 100 ==> 100 * (top_of(plot, pct) - plot.y) <= plot.h * (100 - pct) < 100 * (top_of(
            plot,
            pct,
        ) - plot.y) + 100,
{
    assert(plot.h * 100 / 100 == plot.h) by (nonlinear_arith);
    assert(plot.h * 0 == 0) by (nonlinear_arith);
}

/// A height means the multiple of five that is nearest to its share of the plot; beyond the
/// plot it means the nearer end.
pub proof fn law_heights_mean_the_nearest_multiple_of_five(plot: Plot, y: int)
    requires
        plot.wf(),
        plot.h > 0,
    ensures
        0 <= pct_of(plot, y) <= 100,
        pct_of(plot, y) % 5 == 0,
        y >= plot.y + plot.h ==> pct_of(plot, y) == 0,
        y <= plot.y ==> pct_of(plot, y) == 100,
        plot.y <= y <= plot.y + plot.h ==> {
            let up = plot.y + plot.h - y;
            -(5 * plot.h) <= 2 * (100 * up - plot.h * pct_of(plot, y)) < 5 * plot.h
        },
{
    let h = plot.h as int;
    let up = plot.y + plot.h - y;
    let n = 40 * up + h;
    let snaps = n / (2 * h);
    if y <= plot.y + plot.h {
        assert(2 * h * snaps <= n < 2 * h * snaps + 2 * h && snaps >= 0) by (nonlinear_arith)
            requires
                snaps == n / (2 * h),
                h > 0,
                n >= 0,
        ;
        if y <= plot.y {
            assert(snaps >= 20) by (nonlinear_arith)
                requires
                    n < 2 * h * snaps + 2 * h,
                    n == 40 * up + h,
                    up >= h,
                    h > 0,
            ;
        }
        if y >= plot.y {
            assert(snaps <= 20) by (nonlinear_arith)
                requires
                    2 * h * snaps <= n,
                    n == 40 * up + h,
                    up <= h,
                    h > 0,
            ;
            let p = 5 * snaps;
            assert(pct_of(plot, y) == p);
            assert(-(5 * h) <= 2 * (100 * up - h * p) < 5 * h) by (nonlinear_arith)
                requires
                    2 * h * snaps <= n < 2 * h * snaps + 2 * h,
                    n == 40 * up + h,
                    p == 5 * snaps,
            ;
        }
        if y == plot.y + plot.h {
            assert(snaps == 0) by (nonlinear_arith)
                requires
                    2 * h * snaps <= n < 2 * h * snaps + 2 * h,
                    n == h,
                    h > 0,
            ;
        }
    }
}

/// The axis and its bands are the curve's.
pub proof fn law_axis_holds_six_bands()
    ensures
        AXIS_MIN == 35_000 && AXIS_MAX == 95_000,
        BAND * STEP_COUNT == AXIS_MAX - AXIS_MIN,
        PARTS == AXIS_MAX - AXIS_MIN,
        SNAP_PCT == 5,
{
}

} // verus!
