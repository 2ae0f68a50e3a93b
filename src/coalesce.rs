//! Coalescing of high-frequency pointer input: many small deltas become
//! fewer whole-unit events, and what is not yet sent is kept, never lost.
use vstd::prelude::*;

verus! {

/// Sub-pixel units per pixel in which motion deltas are fed.
pub const SUBPIXELS: i64 = 1000000;

/// Wheel sub-units per notch.
pub const WHEEL_NOTCH: i64 = 120;

pub open spec fn abs(a: int) -> int {
    if a < 0 {
        -a
    } else {
        a
    }
}

/// Division rounding toward zero.
pub open spec fn trunc_div(a: int, d: int) -> int {
    if a >= 0 {
        a / d
    } else {
        -((-a) / d)
    }
}

fn trunc_div_i64(a: i64, d: i64) -> (r: i64)
    requires
        d > 0,
        a > i64::MIN,
    ensures
        r == trunc_div(a as int, d as int),
        abs(a - r * d) < d,
        abs(r as int) <= abs(a as int),
{
    if a >= 0 {
        let q = a / d;
        assert(a - q * d < d && a - q * d >= 0) by (nonlinear_arith)
            requires
                q == a / d,
                d > 0,
                a >= 0,
        ;
        assert(q <= a) by (nonlinear_arith)
            requires
                q == a / d,
                d > 0,
                a >= 0,
        ;
        q
    } else {
        let na = -a;
        let q = na / d;
        assert(na - q * d < d && na - q * d >= 0 && q <= na) by (nonlinear_arith)
            requires
                q == na / d,
                d > 0,
                na > 0,
        ;
        assert(a - (-q) * d == -(na - q * d)) by (nonlinear_arith)
            requires
                na == -a,
        ;
        -q
    }
}

/// Accumulated motion not yet sent, per axis, in sub-pixel units.
#[derive(Debug, Clone, Copy, PartialEq, Eq, Structural)]
pub struct MotionAccumulator {
    pub x: i64,
    pub y: i64,
}

/// One feed of the motion accumulator: the new residual and what is sent.
/// A pixel is sent once either axis holds more than one whole pixel; each
/// axis then sends its whole pixels, rounded toward zero.
pub open spec fn motion_step(x: int, y: int, dx: int, dy: int) -> (int, int, Option<(int, int)>) {
    let ax = x + dx;
    let ay = y + dy;
    if abs(ax) > SUBPIXELS || abs(ay) > SUBPIXELS {
        let ex = trunc_div(ax, SUBPIXELS as int);
        let ey = trunc_div(ay, SUBPIXELS as int);
        (ax - ex * SUBPIXELS, ay - ey * SUBPIXELS, Some((ex, ey)))
    } else {
        (ax, ay, None)
    }
}

impl MotionAccumulator {
    /// Never more than one pixel is held back on either axis.
    pub open spec fn wf(&self) -> bool {
        abs(self.x as int) <= SUBPIXELS && abs(self.y as int) <= SUBPIXELS
    }

    pub fn new() -> (r: Self)
        ensures
            r.wf(),
            r.x == 0 && r.y == 0,
    {
        MotionAccumulator { x: 0, y: 0 }
    }

    /// Adds a delta given in sub-pixel units; returns the whole pixels to
    /// send, if any.
    pub fn feed(&mut self, dx: i32, dy: i32) -> (r: Option<(i32, i32)>)
        requires
            old(self).wf(),
        ensures
            final(self).wf(),
            ({
                let (nx, ny, out) = motion_step(old(self).x as int, old(self).y as int, dx as int, dy as int);
                &&& final(self).x == nx
                &&& final(self).y == ny
                &&& match (r, out) {
                    (None, None) => true,
                    (Some((ex, ey)), Some((sx, sy))) => ex == sx && ey == sy,
                    _ => false,
                }
            }),
    {
        let ax = self.x + dx as i64;
        let ay = self.y + dy as i64;
        if ax > SUBPIXELS || ax < -SUBPIXELS || ay > SUBPIXELS || ay < -SUBPIXELS {
            let ex = trunc_div_i64(ax, SUBPIXELS);
            let ey = trunc_div_i64(ay, SUBPIXELS);
            self.x = ax - ex * SUBPIXELS;
            self.y = ay - ey * SUBPIXELS;
            Some((ex as i32, ey as i32))
        } else {
            self.x = ax;
            self.y = ay;
            None
        }
    }
}

/// Accumulated wheel movement not yet sent, per axis, in sub-units.
#[derive(Debug, Clone, Copy, PartialEq, Eq, Structural)]
pub struct WheelAccumulator {
    pub x: i64,
    pub y: i64,
}

/// One feed of the wheel accumulator. Whole notches are sent once either
/// axis holds at least one; each axis keeps its remainder.
pub open spec fn wheel_step(x: int, y: int, dx: int, dy: int) -> (int, int, Option<(int, int)>) {
    let ax = x + dx;
    let ay = y + dy;
    if abs(ax) >= WHEEL_NOTCH || abs(ay) >= WHEEL_NOTCH {
        let ex = trunc_div(ax, WHEEL_NOTCH as int);
        let ey = trunc_div(ay, WHEEL_NOTCH as int);
        (ax - ex * WHEEL_NOTCH, ay - ey * WHEEL_NOTCH, Some((ex, ey)))
    } else {
        (ax, ay, None)
    }
}

impl WheelAccumulator {
    /// Less than one notch is held back on either axis.
    pub open spec fn wf(&self) -> bool {
        abs(self.x as int) < WHEEL_NOTCH && abs(self.y as int) < WHEEL_NOTCH
    }

    pub fn new() -> (r: Self)
        ensures
            r.wf(),
            r.x == 0 && r.y == 0,
    {
        WheelAccumulator { x: 0, y: 0 }
    }

    /// Adds scroll sub-units; returns the whole notches to send, if any.
    pub fn feed(&mut self, dx: i32, dy: i32) -> (r: Option<(i32, i32)>)
        requires
            old(self).wf(),
        ensures
            final(self).wf(),
            ({
                let (nx, ny, out) = wheel_step(old(self).x as int, old(self).y as int, dx as int, dy as int);
                &&& final(self).x == nx
                &&& final(self).y == ny
                &&& match (r, out) {
                    (None, None) => true,
                    (Some((ex, ey)), Some((sx, sy))) => ex == sx && ey == sy,
                    _ => false,
                }
            }),
    {
        let ax = self.x + dx as i64;
        let ay = self.y + dy as i64;
        if ax >= WHEEL_NOTCH || ax <= -WHEEL_NOTCH || ay >= WHEEL_NOTCH || ay <= -WHEEL_NOTCH {
            let ex = trunc_div_i64(ax, WHEEL_NOTCH);
            let ey = trunc_div_i64(ay, WHEEL_NOTCH);
            self.x = ax - ex * WHEEL_NOTCH;
            self.y = ay - ey * WHEEL_NOTCH;
            Some((ex as i32, ey as i32))
        } else {
            self.x = ax;
            self.y = ay;
            None
        }
    }
}

proof fn lemma_trunc_div(a: int, d: int)
    requires
        d > 0,
    ensures
        abs(a - trunc_div(a, d) * d) < d,
{
    if a >= 0 {
        assert(a - (a / d) * d < d && a - (a / d) * d >= 0) by (nonlinear_arith)
            requires
                d > 0,
                a >= 0,
        ;
    } else {
        let na = -a;
        assert(na - (na / d) * d < d && na - (na / d) * d >= 0) by (nonlinear_arith)
            requires
                d > 0,
                na > 0,
        ;
        assert(a - (-(na / d)) * d == -(na - (na / d) * d)) by (nonlinear_arith)
            requires
                na == -a,
        ;
    }
}

/// Residual and pixels sent, per axis, after feeding `feeds` in order to a
/// fresh accumulator: `(x, y, sent_x, sent_y)`.
pub open spec fn motion_run(feeds: Seq<(i32, i32)>) -> (int, int, int, int)
    decreases feeds.len(),
{
    if feeds.len() == 0 {
        (0, 0, 0, 0)
    } else {
        let (x, y, sx, sy) = motion_run(feeds.drop_last());
        let (dx, dy) = feeds.last();
        let (nx, ny, out) = motion_step(x, y, dx as int, dy as int);
        match out {
            Some((ex, ey)) => (nx, ny, sx + ex, sy + ey),
            None => (nx, ny, sx, sy),
        }
    }
}

/// Total input fed on each axis: `(x, y)`, in the units fed.
pub open spec fn motion_input(feeds: Seq<(i32, i32)>) -> (int, int)
    decreases feeds.len(),
{
    if feeds.len() == 0 {
        (0, 0)
    } else {
        let (x, y) = motion_input(feeds.drop_last());
        (x + feeds.last().0, y + feeds.last().1)
    }
}

/// Motion is conserved: after any sequence of feeds, what was sent plus
/// what is held equals what was fed, and what is held is at most one pixel
/// per axis, so the pixels sent never stray more than one pixel from the
/// true cumulative input.
pub proof fn lemma_motion_error_bound(feeds: Seq<(i32, i32)>)
    ensures
        ({
            let (x, y, sx, sy) = motion_run(feeds);
            let (ix, iy) = motion_input(feeds);
            &&& ix == sx * SUBPIXELS + x
            &&& iy == sy * SUBPIXELS + y
            &&& abs(ix - sx * SUBPIXELS) <= SUBPIXELS
            &&& abs(iy - sy * SUBPIXELS) <= SUBPIXELS
        }),
    decreases feeds.len(),
{
    if feeds.len() > 0 {
        lemma_motion_error_bound(feeds.drop_last());
        let (x, y, sx, sy) = motion_run(feeds.drop_last());
        let (dx, dy) = feeds.last();
        let ax = x + dx;
        let ay = y + dy;
        lemma_trunc_div(ax, SUBPIXELS as int);
        lemma_trunc_div(ay, SUBPIXELS as int);
        let ex = trunc_div(ax, SUBPIXELS as int);
        let ey = trunc_div(ay, SUBPIXELS as int);
        assert((sx + ex) * SUBPIXELS == sx * SUBPIXELS + ex * SUBPIXELS) by (nonlinear_arith);
        assert((sy + ey) * SUBPIXELS == sy * SUBPIXELS + ey * SUBPIXELS) by (nonlinear_arith);
    }
}

/// Residual and notches sent, per axis, after feeding `feeds` in order to a
/// fresh wheel accumulator: `(x, y, sent_x, sent_y)`.
pub open spec fn wheel_run(feeds: Seq<(i32, i32)>) -> (int, int, int, int)
    decreases feeds.len(),
{
    if feeds.len() == 0 {
        (0, 0, 0, 0)
    } else {
        let (x, y, sx, sy) = wheel_run(feeds.drop_last());
        let (dx, dy) = feeds.last();
        let (nx, ny, out) = wheel_step(x, y, dx as int, dy as int);
        match out {
            Some((ex, ey)) => (nx, ny, sx + ex, sy + ey),
            None => (nx, ny, sx, sy),
        }
    }
}

/// Scrolling is conserved: after any sequence of feeds, the notches sent
/// plus the remainder held equal what was fed, and less than one notch is
/// held per axis.
pub proof fn lemma_wheel_conserves(feeds: Seq<(i32, i32)>)
    ensures
        ({
            let (x, y, sx, sy) = wheel_run(feeds);
            let (ix, iy) = motion_input(feeds);
            &&& ix == sx * WHEEL_NOTCH + x
            &&& iy == sy * WHEEL_NOTCH + y
            &&& abs(x) < WHEEL_NOTCH
            &&& abs(y) < WHEEL_NOTCH
        }),
    decreases feeds.len(),
{
    if feeds.len() > 0 {
        lemma_wheel_conserves(feeds.drop_last());
        let (x, y, sx, sy) = wheel_run(feeds.drop_last());
        let (dx, dy) = feeds.last();
        let ax = x + dx;
        let ay = y + dy;
        lemma_trunc_div(ax, WHEEL_NOTCH as int);
        lemma_trunc_div(ay, WHEEL_NOTCH as int);
        let ex = trunc_div(ax, WHEEL_NOTCH as int);
        let ey = trunc_div(ay, WHEEL_NOTCH as int);
        assert((sx + ex) * WHEEL_NOTCH == sx * WHEEL_NOTCH + ex * WHEEL_NOTCH) by (nonlinear_arith);
        assert((sy + ey) * WHEEL_NOTCH == sy * WHEEL_NOTCH + ey * WHEEL_NOTCH) by (nonlinear_arith);
    }
}

} // verus!
