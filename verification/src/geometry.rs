//! Discs in the plane: when two of them overlap, when one lies inside the
//! window, and when a point is within reach of another.
use vstd::prelude::*;

verus! {

/// Two discs overlap when their centres are closer than the sum of their
/// radii. Discs that only touch do not overlap.
pub open spec fn discs_overlap(x1: int, y1: int, radius1: int, x2: int, y2: int, radius2: int) -> bool {
    (x1 - x2) * (x1 - x2) + (y1 - y2) * (y1 - y2) < (radius1 + radius2) * (radius1 + radius2)
}

/// The disc of radius `radius` around `(x, y)` lies inside the window
/// `[0, width] x [0, height]`. A disc may touch the edge.
pub open spec fn disc_in_window(width: int, height: int, x: int, y: int, radius: int) -> bool {
    &&& radius <= x
    &&& x + radius <= width
    &&& radius <= y
    &&& y + radius <= height
}

/// The point `(ax, ay)` is closer to `(bx, by)` than `reach`.
pub open spec fn within_reach(ax: int, ay: int, bx: int, by: int, reach: int) -> bool {
    (ax - bx) * (ax - bx) + (ay - by) * (ay - by) < reach * reach
}

/// Which disc is named first does not matter.
pub proof fn lemma_overlap_symmetric(x1: int, y1: int, radius1: int, x2: int, y2: int, radius2: int)
    ensures
        discs_overlap(x1, y1, radius1, x2, y2, radius2) == discs_overlap(
            x2,
            y2,
            radius2,
            x1,
            y1,
            radius1,
        ),
{
    assert((x1 - x2) * (x1 - x2) == (x2 - x1) * (x2 - x1)) by (nonlinear_arith);
    assert((y1 - y2) * (y1 - y2) == (y2 - y1) * (y2 - y1)) by (nonlinear_arith);
    assert((radius1 + radius2) * (radius1 + radius2) == (radius2 + radius1) * (radius2 + radius1))
        by (nonlinear_arith);
}

/// The largest coordinate and reach that `closer_than` takes.
pub const REACH_LIMIT: i64 = 0x1000_0000_0000_0000;

/// The square of a number of at most 61 bits has at most 122 bits.
proof fn lemma_square_bound(d: int)
    requires
        -0x2000_0000_0000_0000 <= d <= 0x2000_0000_0000_0000,
    ensures
        0 <= d * d <= 0x400_0000_0000_0000_0000_0000_0000_0000,
{
    assert(0 <= d * d <= 0x2000_0000_0000_0000 * 0x2000_0000_0000_0000) by (nonlinear_arith)
        requires
            -0x2000_0000_0000_0000 <= d <= 0x2000_0000_0000_0000,
    ;
}

/// Whether two discs overlap, for any centres and radii.
pub fn circles_overlap(x1: u32, y1: u32, radius1: u32, x2: u32, y2: u32, radius2: u32) -> (overlap:
    bool)
    ensures
        overlap == discs_overlap(
            x1 as int,
            y1 as int,
            radius1 as int,
            x2 as int,
            y2 as int,
            radius2 as int,
        ),
{
    let dx: i128 = x1 as i128 - x2 as i128;
    let dy: i128 = y1 as i128 - y2 as i128;
    let reach: i128 = radius1 as i128 + radius2 as i128;
    proof {
        lemma_square_bound(dx as int);
        lemma_square_bound(dy as int);
        lemma_square_bound(reach as int);
    }
    dx * dx + dy * dy < reach * reach
}

/// Whether a disc lies inside the window, for any centre and radius.
pub fn disc_fits(width: u32, height: u32, x: u32, y: u32, radius: u32) -> (fits: bool)
    ensures
        fits == disc_in_window(width as int, height as int, x as int, y as int, radius as int),
{
    radius <= x && x as u64 + radius as u64 <= width as u64 && radius <= y && y as u64
        + radius as u64 <= height as u64
}

/// Whether `(ax, ay)` is closer to `(bx, by)` than `reach`.
pub fn closer_than(ax: i64, ay: i64, bx: i64, by: i64, reach: i64) -> (close: bool)
    requires
        -REACH_LIMIT <= ax <= REACH_LIMIT,
        -REACH_LIMIT <= ay <= REACH_LIMIT,
        -REACH_LIMIT <= bx <= REACH_LIMIT,
        -REACH_LIMIT <= by <= REACH_LIMIT,
        -REACH_LIMIT <= reach <= REACH_LIMIT,
    ensures
        close == within_reach(ax as int, ay as int, bx as int, by as int, reach as int),
{
    let dx: i128 = ax as i128 - bx as i128;
    let dy: i128 = ay as i128 - by as i128;
    let span: i128 = reach as i128;
    proof {
        lemma_square_bound(dx as int);
        lemma_square_bound(dy as int);
        lemma_square_bound(span as int);
    }
    dx * dx + dy * dy < span * span
}

} // verus!
