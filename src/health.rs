//! Health values and the health-bar geometry derived from them.
//!
//! Lengths and positions are integers in thousandths of a world unit.
use vstd::prelude::*;

verus! {

/// Width of the empty bar, and of a full fill (100 world units).
pub const BAR_FULL_WIDTH: i64 = 100_000;

/// Height of the empty bar and of the fill (10 world units).
pub const BAR_HEIGHT: i64 = 10_000;

/// Health of a mob. `max` is positive; `current <= max` is expected of
/// whoever writes it, and is not enforced.
#[derive(Clone, Copy, Debug, PartialEq, Eq, Structural)]
pub struct Health {
    pub current: u32,
    pub max: u32,
}

/// A position (or local offset) with a drawing depth.
#[derive(Clone, Copy, Debug, PartialEq, Eq, Structural)]
pub struct Translation {
    pub x: i64,
    pub y: i64,
    pub z: i64,
}

/// The size a sprite is drawn at.
#[derive(Clone, Copy, Debug, PartialEq, Eq, Structural)]
pub struct Size {
    pub width: i64,
    pub height: i64,
}

impl Health {
    pub open spec fn wf(self) -> bool {
        self.max > 0
    }

    /// Full health of 100 points.
    pub fn full() -> (r: Health)
        ensures
            r == (Health { current: 100, max: 100 }),
            r.wf(),
    {
        Health { current: 100, max: 100 }
    }
}

/// Width of the fill for `h`: the full width scaled by `current / max`,
/// rounded down to a thousandth.
pub open spec fn fill_width(h: Health) -> int {
    (BAR_FULL_WIDTH * h.current) / (h.max as int)
}

/// Horizontal centre of a fill of width `width` whose left edge is the left
/// edge of an empty bar centred at `container_x`.
pub open spec fn fill_offset_x(container_x: int, width: int) -> int {
    container_x - BAR_FULL_WIDTH / 2 + width / 2
}

/// Twice the left edge of a sprite centred at `center` with width `width`.
pub open spec fn twice_left_edge(center: int, width: int) -> int {
    2 * center - width
}

/// The width of the fill that shows `h`.
pub fn health_bar_width(h: &Health) -> (r: i64)
    requires
        h.wf(),
    ensures
        r == fill_width(*h),
        0 <= r <= BAR_FULL_WIDTH * u32::MAX,
{
    let cur = h.current as u64;
    let max = h.max as u64;
    proof {
        assert(0 <= 100_000 * cur <= 100_000 * u32::MAX) by (nonlinear_arith)
            requires
                cur <= u32::MAX,
        ;
        let n: int = 100_000 * cur;
        let m: int = max as int;
        assert(n / m <= n) by (nonlinear_arith)
            requires
                m >= 1,
                n >= 0,
        ;
    }
    ((100_000 * cur) / max) as i64
}

/// Where the fill of width `width` is centred, so that it stays left-aligned
/// in an empty bar centred at `container_x`.
pub fn health_bar_offset_x(container_x: i64, width: i64) -> (r: i64)
    requires
        container_x >= i64::MIN + BAR_FULL_WIDTH / 2,
        0 <= width,
        fill_offset_x(container_x as int, width as int) <= i64::MAX,
    ensures
        r == fill_offset_x(container_x as int, width as int),
{
    container_x - BAR_FULL_WIDTH / 2 + width / 2
}

/// For `0 <= current <= max`, the fill is the exact proportion of the full
/// width rounded down to a thousandth, and its left edge is the empty bar's
/// left edge (to within half a thousandth).
pub proof fn lemma_health_bar_proportional(h: Health, container_x: int)
    requires
        h.wf(),
        h.current <= h.max,
    ensures
        0 <= fill_width(h) <= BAR_FULL_WIDTH,
        fill_width(h) * h.max <= BAR_FULL_WIDTH * h.current < (fill_width(h) + 1) * h.max,
        twice_left_edge(container_x, BAR_FULL_WIDTH as int) - 1 <= twice_left_edge(
            fill_offset_x(container_x, fill_width(h)),
            fill_width(h),
        ) <= twice_left_edge(container_x, BAR_FULL_WIDTH as int),
        h.current == h.max ==> fill_width(h) == BAR_FULL_WIDTH,
{
    let n = BAR_FULL_WIDTH * h.current;
    let m = h.max as int;
    let w = n / m;
    assert(w * m <= n < (w + 1) * m) by (nonlinear_arith)
        requires
            m > 0,
            w == n / m,
    ;
    assert(0 <= w <= BAR_FULL_WIDTH) by (nonlinear_arith)
        requires
            m > 0,
            w == n / m,
            0 <= h.current <= m,
            n == BAR_FULL_WIDTH * h.current,
    ;
    if h.current == h.max {
        assert(n / m == BAR_FULL_WIDTH) by (nonlinear_arith)
            requires
                m > 0,
                n == BAR_FULL_WIDTH * m,
        ;
    }
}

} // verus!
