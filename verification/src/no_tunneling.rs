//! No tunneling under the tested regime: a body that starts a tick with a
//! positive gap to every solid tile and moves by less than one tile per
//! axis ends the tick with its skin-deflated box clear of every solid
//! tile's interior.
//!
//! The resolver tests only the tile line its displaced edge lands in, so
//! the guarantee genuinely needs the per-axis displacement bound: at
//! higher speeds the edge can skip a whole tile line (the known
//! limitation of destination-only sweeps). The positive-gap premise is
//! the state the resolver itself produces — it always parks a collider
//! one skin epsilon short of any face it clamps to — while a body placed
//! exactly flush against a wall can be nudged into sub-skin contact by a
//! clamp on the opposite side. The skin deflation in the conclusion
//! accounts for exactly those sub-skin slivers.

use vstd::prelude::*;

use crate::map::CollisionMap;
use crate::movement::Collider;
use crate::resolver::col_left;
use crate::resolver::row_bottom;
use crate::resolver::solid_at;
use crate::resolver::solid_in_cols;
use crate::resolver::solid_in_rows;
use crate::resolver::span_col_hi;
use crate::resolver::span_col_lo;
use crate::resolver::span_row_hi;
use crate::resolver::span_row_lo;
use crate::resolver::spec_resolve_h;
use crate::resolver::spec_resolve_v;
use crate::resolver::tile_col;
use crate::resolver::tile_row;
use crate::resolver::lemma_div_shrinks;
use crate::resolver::lemma_floor_bounds;
use crate::resolver::lemma_floor_mono;
use crate::resolver::lemma_tile_col_of;
use crate::resolver::lemma_tile_row_of;
use crate::units::spec_scaled;
use crate::units::SKIN;

verus! {

/// The body's full horizontal extent strictly overlaps column `c`.
pub open spec fn strict_x_overlap(map: CollisionMap, x: int, half: Collider, c: int) -> bool {
    col_left(map, c) < x + half.half_x && x - half.half_x < col_left(map, c + 1)
}

/// The body's full vertical extent strictly overlaps row `r`.
pub open spec fn strict_y_overlap(map: CollisionMap, y: int, half: Collider, r: int) -> bool {
    row_bottom(map, r) < y + half.half_y && y - half.half_y < row_bottom(map, r + 1)
}

/// The body's skin-deflated horizontal extent strictly overlaps column
/// `c`.
pub open spec fn core_x_overlap(map: CollisionMap, x: int, half: Collider, c: int) -> bool {
    col_left(map, c) < x + half.half_x - SKIN && x - half.half_x + SKIN < col_left(map, c + 1)
}

/// The body's skin-deflated vertical extent strictly overlaps row `r`.
pub open spec fn core_y_overlap(map: CollisionMap, y: int, half: Collider, r: int) -> bool {
    row_bottom(map, r) < y + half.half_y - SKIN && y - half.half_y + SKIN < row_bottom(map, r + 1)
}

/// The body keeps a positive gap, on at least one axis, to every solid
/// tile. In whole subunits a positive gap is a gap of at least the skin
/// epsilon — precisely the placement the resolver's own clamps produce.
pub open spec fn separated(map: CollisionMap, x: int, y: int, half: Collider) -> bool {
    forall|c: int, r: int|
        #[trigger] solid_at(map, c, r) ==> {
            ||| x + half.half_x < col_left(map, c)
            ||| x - half.half_x > col_left(map, c + 1)
            ||| y + half.half_y < row_bottom(map, r)
            ||| y - half.half_y > row_bottom(map, r + 1)
        }
}

/// The body's skin-deflated box overlaps no solid tile's interior.
pub open spec fn core_separated(map: CollisionMap, x: int, y: int, half: Collider) -> bool {
    forall|c: int, r: int|
        #[trigger] solid_at(map, c, r) ==> !(core_x_overlap(map, x, half, c) && core_y_overlap(
            map,
            y,
            half,
            r,
        ))
}

/// The horizontal pass's skin-inset row span covers every row the body's
/// full vertical extent strictly overlaps. This fails only when an edge
/// of the box sits less than one skin epsilon past a grid line — the
/// dirty band where the resolver's inset scan can miss a sliver of
/// overlap.
pub open spec fn rows_cover(map: CollisionMap, y: int, half: Collider) -> bool {
    forall|r: int|
        #[trigger] strict_y_overlap(map, y, half, r) ==> span_row_lo(map, y - half.half_y) <= r
            <= span_row_hi(map, y + half.half_y)
}

/// After the horizontal pass, every solid tile whose row the body's
/// vertical extent strictly overlaps stays horizontally disjoint from
/// the body (touching a face is allowed; entering it is not).
pub open spec fn x_disjoint_after_h(
    map: CollisionMap,
    x2: int,
    y0: int,
    half: Collider,
) -> bool {
    forall|c: int, r: int|
        #[trigger] solid_at(map, c, r) && strict_y_overlap(map, y0, half, r) ==> {
            ||| x2 + half.half_x <= col_left(map, c)
            ||| x2 - half.half_x >= col_left(map, c + 1)
        }
}

/// Adjacent faces are one tile size apart.
proof fn lemma_col_step(map: CollisionMap, c: int)
    ensures
        col_left(map, c + 1) == col_left(map, c) + map.tile_size_x,
{
    assert((c + 1) * (map.tile_size_x as int) == c * (map.tile_size_x as int) + (
    map.tile_size_x as int)) by (nonlinear_arith);
}

/// Adjacent faces are one tile size apart.
proof fn lemma_row_step(map: CollisionMap, r: int)
    ensures
        row_bottom(map, r + 1) == row_bottom(map, r) + map.tile_size_y,
{
    assert((r + 1) * (map.tile_size_y as int) == r * (map.tile_size_y as int) + (
    map.tile_size_y as int)) by (nonlinear_arith);
}

/// A column whose faces bracket an interval is bracketed by the columns
/// of the interval's ends.
proof fn lemma_cols_cover(map: CollisionMap, a: int, b: int, c: int)
    requires
        map.wf(),
        a < col_left(map, c + 1),
        col_left(map, c) < b,
    ensures
        tile_col(map, a) <= c,
        c <= tile_col(map, b),
{
    lemma_col_step(map, c);
    lemma_tile_col_of(map, col_left(map, c), c);
    lemma_tile_col_of(map, col_left(map, c + 1) - 1, c);
    lemma_floor_mono(a - map.origin_x, col_left(map, c + 1) - 1 - map.origin_x,
        map.tile_size_x as int);
    lemma_floor_mono(col_left(map, c) - map.origin_x, b - map.origin_x, map.tile_size_x as int);
}

/// Every row of the horizontal pass's scan span is strictly overlapped
/// by the body's full vertical extent.
proof fn lemma_span_row_strict(map: CollisionMap, y: int, half: Collider, r: int)
    requires
        map.wf(),
        half.wf(),
        span_row_lo(map, y - half.half_y) <= r <= span_row_hi(map, y + half.half_y),
    ensures
        strict_y_overlap(map, y, half, r),
{
    let bottom = y - half.half_y;
    let top = y + half.half_y;
    let lo = span_row_lo(map, bottom);
    let hi = span_row_hi(map, top);
    let ts = map.tile_size_y as int;
    lemma_floor_bounds(bottom + SKIN - map.origin_y, ts);
    lemma_floor_bounds(top - SKIN - map.origin_y, ts);
    lemma_row_step(map, r);
    lemma_row_step(map, lo);
    lemma_row_step(map, hi);
    if r > lo {
        lemma_row_mono(map, lo + 1, r);
    }
    if r < hi {
        lemma_row_mono(map, r + 1, hi);
    }
}

/// Faces are monotone in the row index.
proof fn lemma_row_mono(map: CollisionMap, r1: int, r2: int)
    requires
        map.wf(),
        r1 <= r2,
    ensures
        row_bottom(map, r1) <= row_bottom(map, r2),
{
    assert(r1 * (map.tile_size_y as int) <= r2 * (map.tile_size_y as int)) by (nonlinear_arith)
        requires
            r1 <= r2,
            map.tile_size_y >= 1,
    ;
}

/// Faces are monotone in the column index.
proof fn lemma_col_mono(map: CollisionMap, c1: int, c2: int)
    requires
        map.wf(),
        c1 <= c2,
    ensures
        col_left(map, c1) <= col_left(map, c2),
{
    assert(c1 * (map.tile_size_x as int) <= c2 * (map.tile_size_x as int)) by (nonlinear_arith)
        requires
            c1 <= c2,
            map.tile_size_x >= 1,
    ;
}

/// The sign of a scaled displacement follows the sign of the rate.
proof fn lemma_scaled_sign(v: int, dt: int)
    requires
        0 <= dt,
    ensures
        v >= 0 ==> spec_scaled(v, dt) >= 0,
        v <= 0 ==> spec_scaled(v, dt) <= 0,
{
    if v >= 0 {
        assert(v * dt >= 0) by (nonlinear_arith)
            requires
                v >= 0,
                dt >= 0,
        ;
        lemma_div_shrinks(v * dt, crate::units::SCALE as int);
    } else {
        assert((-v) * dt >= 0) by (nonlinear_arith)
            requires
                v < 0,
                dt >= 0,
        ;
        lemma_div_shrinks((-v) * dt, crate::units::SCALE as int);
    }
}

/// The horizontal pass keeps a positive horizontal gap to every solid
/// tile in a row the body's vertical extent strictly overlaps — provided
/// the body starts with positive gaps everywhere, the scan span covers
/// the overlapped rows, and the tick's horizontal displacement is
/// smaller than one tile.
proof fn lemma_h_pass_tile(
    map: CollisionMap,
    x0: int,
    y0: int,
    vx1: int,
    half: Collider,
    dt: int,
    c: int,
    r: int,
)
    requires
        map.wf(),
        half.wf(),
        0 <= dt,
        separated(map, x0, y0, half),
        rows_cover(map, y0, half),
        -(map.tile_size_x as int) < spec_scaled(vx1, dt) < map.tile_size_x as int,
        solid_at(map, c, r),
        strict_y_overlap(map, y0, half, r),
    ensures
        ({
            let x2 = spec_resolve_h(map, x0, y0, vx1, half, dt).0;
            x2 + half.half_x <= col_left(map, c) || x2 - half.half_x >= col_left(map, c + 1)
        }),
{
    let hx = half.half_x as int;
    let hy = half.half_y as int;
    let ts = map.tile_size_x as int;
    let dx = spec_scaled(vx1, dt);
    let right0 = x0 + hx;
    let left0 = x0 - hx;
    let lo = span_row_lo(map, y0 - hy);
    let hi = span_row_hi(map, y0 + hy);

    lemma_scaled_sign(vx1, dt);
    lemma_col_step(map, c);
    // the tile keeps a gap on some axis before the tick, and its row
    // rules the vertical gaps out
    assert(right0 < col_left(map, c) || left0 > col_left(map, c + 1));
    assert(lo <= r <= hi);

    let x_res = spec_resolve_h(map, x0, y0, vx1, half, dt).0;
    if vx1 == 0 {
        // the pass leaves x alone
        assert(x_res + hx <= col_left(map, c) || x_res - hx >= col_left(map, c + 1));
    } else if vx1 > 0 {
        let new_x = x0 + dx;
        let new_right = new_x + hx;
        let tx = tile_col(map, new_right);
        let ct = tile_col(map, right0);
        lemma_floor_bounds(right0 - map.origin_x, ts);
        lemma_floor_bounds(new_right - map.origin_x, ts);
        lemma_floor_mono(right0 - map.origin_x, new_right - map.origin_x, ts);
        // tx <= ct + 1 because the edge advances by less than a tile
        lemma_col_step(map, ct);
        lemma_col_step(map, ct + 1);
        lemma_tile_col_of(map, col_left(map, ct + 2) - 1, ct + 1);
        lemma_floor_mono(new_right - map.origin_x, col_left(map, ct + 2) - 1 - map.origin_x, ts);
        assert(ct <= tx <= ct + 1);

        if solid_in_rows(map, tx, lo, hi) {
            // clamped: the wall ahead kept a positive gap, so the clamp
            // never pulls the body backwards
            let rw = choose|rr: int| lo <= rr <= hi && solid_at(map, tx, rr);
            lemma_span_row_strict(map, y0, half, rw);
            lemma_col_step(map, tx);
            assert(right0 < col_left(map, tx));
            let x2 = col_left(map, tx) - hx - SKIN;
            assert(spec_resolve_h(map, x0, y0, vx1, half, dt).0 == x2);
            assert(x2 >= x0);
            if c >= tx {
                lemma_col_mono(map, tx, c);
                assert(x_res + hx <= col_left(map, c));
            } else {
                if left0 > col_left(map, c + 1) {
                    // the gap on the left only widens
                    assert(x_res - hx >= col_left(map, c + 1));
                } else {
                    assert(right0 < col_left(map, c));
                    lemma_col_step(map, c - 1);
                    lemma_tile_col_of(map, col_left(map, c) - 1, c - 1);
                    lemma_floor_mono(right0 - map.origin_x, col_left(map, c) - 1 - map.origin_x,
                        ts);
                    assert(ct <= c - 1);
                    lemma_col_mono(map, c + 1, tx);
                    assert(false);
                }
            }
        } else {
            // committed
            if c == tx {
                assert(solid_in_rows(map, tx, lo, hi));
            } else if c > tx {
                lemma_col_step(map, tx);
                lemma_col_mono(map, tx + 1, c);
                assert(x_res + hx <= col_left(map, c));
            } else {
                if left0 > col_left(map, c + 1) {
                    assert(x_res - hx >= col_left(map, c + 1));
                } else {
                    assert(right0 < col_left(map, c));
                    lemma_col_step(map, c - 1);
                    lemma_tile_col_of(map, col_left(map, c) - 1, c - 1);
                    lemma_floor_mono(right0 - map.origin_x, col_left(map, c) - 1 - map.origin_x,
                        ts);
                    assert(ct <= c - 1);
                    lemma_col_mono(map, c + 1, tx);
                    assert(false);
                }
            }
        }
    } else {
        let new_x = x0 + dx;
        let new_left = new_x - hx;
        let tx = tile_col(map, new_left);
        let ct = tile_col(map, left0);
        lemma_floor_bounds(left0 - map.origin_x, ts);
        lemma_floor_bounds(new_left - map.origin_x, ts);
        lemma_floor_mono(new_left - map.origin_x, left0 - map.origin_x, ts);
        // tx >= ct - 1 because the edge retreats by less than a tile
        lemma_col_step(map, ct - 1);
        lemma_tile_col_of(map, col_left(map, ct - 1) + 1, ct - 1);
        lemma_floor_mono(col_left(map, ct - 1) + 1 - map.origin_x, new_left - map.origin_x, ts);
        assert(ct - 1 <= tx <= ct);

        if solid_in_rows(map, tx, lo, hi) {
            // clamped: the wall behind kept a positive gap, so the clamp
            // never pushes the body forwards
            let rw = choose|rr: int| lo <= rr <= hi && solid_at(map, tx, rr);
            lemma_span_row_strict(map, y0, half, rw);
            lemma_col_step(map, tx);
            assert(left0 > col_left(map, tx + 1));
            let x2 = col_left(map, tx + 1) + hx + SKIN;
            assert(spec_resolve_h(map, x0, y0, vx1, half, dt).0 == x2);
            assert(x2 <= x0);
            if c <= tx {
                lemma_col_mono(map, c + 1, tx + 1);
                assert(x_res - hx >= col_left(map, c + 1));
            } else {
                if right0 < col_left(map, c) {
                    // the gap on the right only widens
                    assert(x_res + hx <= col_left(map, c));
                } else {
                    assert(left0 > col_left(map, c + 1));
                    lemma_col_step(map, c + 1);
                    lemma_tile_col_of(map, col_left(map, c + 1) + 1, c + 1);
                    lemma_floor_mono(col_left(map, c + 1) + 1 - map.origin_x,
                        left0 - map.origin_x, ts);
                    assert(ct >= c + 1);
                    assert(false);
                }
            }
        } else {
            if c == tx {
                assert(solid_in_rows(map, tx, lo, hi));
            } else if c < tx {
                lemma_col_mono(map, c + 1, tx);
                assert(x_res - hx >= col_left(map, c + 1));
            } else {
                if right0 < col_left(map, c) {
                    assert(x_res + hx <= col_left(map, c));
                } else {
                    assert(left0 > col_left(map, c + 1));
                    lemma_col_step(map, c + 1);
                    lemma_tile_col_of(map, col_left(map, c + 1) + 1, c + 1);
                    lemma_floor_mono(col_left(map, c + 1) + 1 - map.origin_x,
                        left0 - map.origin_x, ts);
                    assert(ct >= c + 1);
                    assert(false);
                }
            }
        }
    }
}

/// The vertical pass never leaves the skin-deflated box of the body
/// overlapping a solid tile whose column that box covers — provided
/// every solid tile in a strictly overlapped row is horizontally
/// disjoint from the body when the pass starts, and the tick's vertical
/// displacement is smaller than one tile.
proof fn lemma_v_pass_tile(
    map: CollisionMap,
    x2: int,
    y0: int,
    vy1: int,
    half: Collider,
    dt: int,
    c: int,
    r: int,
)
    requires
        map.wf(),
        half.wf(),
        0 <= dt,
        x_disjoint_after_h(map, x2, y0, half),
        -(map.tile_size_y as int) < spec_scaled(vy1, dt) < map.tile_size_y as int,
        solid_at(map, c, r),
        core_x_overlap(map, x2, half, c),
    ensures
        !core_y_overlap(map, spec_resolve_v(map, x2, y0, vy1, half, dt).0, half, r),
{
    let hx = half.half_x as int;
    let hy = half.half_y as int;
    let ts = map.tile_size_y as int;
    let tsx = map.tile_size_x as int;
    let dy = spec_scaled(vy1, dt);
    let bottom0 = y0 - hy;
    let top0 = y0 + hy;
    let left2 = x2 - hx;
    let right2 = x2 + hx;
    let sl = span_col_lo(map, left2);
    let sh = span_col_hi(map, right2);

    lemma_scaled_sign(vy1, dt);
    lemma_row_step(map, r);
    lemma_cols_cover(map, left2 + SKIN, right2 - SKIN, c);
    lemma_floor_bounds(left2 + SKIN - map.origin_x, tsx);
    lemma_floor_bounds(right2 - SKIN - map.origin_x, tsx);
    lemma_col_step(map, sl);

    // the deflated box reaches into column `c`, so the tile's row must
    // have been clear of the body when the pass started
    assert(!strict_y_overlap(map, y0, half, r));

    let y3 = spec_resolve_v(map, x2, y0, vy1, half, dt).0;

    if vy1 == 0 {
        lemma_div_shrinks(0, crate::units::SCALE as int);
        assert(y3 == y0);
    } else if vy1 < 0 {
        let new_bottom = y0 + dy - hy;
        let ty = tile_row(map, new_bottom);
        lemma_floor_bounds(new_bottom - map.origin_y, ts);
        lemma_floor_bounds(bottom0 - map.origin_y, ts);
        lemma_row_step(map, ty);
        if solid_in_cols(map, ty, sl, sh) {
            let cw = choose|cc: int| sl <= cc <= sh && solid_at(map, cc, ty);
            // the landing row was fully below the body, else the tile
            // found there would have been inside the body's rows
            if bottom0 < row_bottom(map, ty + 1) {
                assert(strict_y_overlap(map, y0, half, ty));
                lemma_col_mono(map, cw, sh);
                lemma_col_mono(map, sl + 1, cw + 1);
                assert(false);
            }
            assert(y3 == row_bottom(map, ty + 1) + hy + SKIN);
            if row_bottom(map, r + 1) <= bottom0 {
                if r <= ty {
                    lemma_row_mono(map, r + 1, ty + 1);
                } else {
                    lemma_row_mono(map, ty + 1, r);
                    lemma_row_step(map, ty + 1);
                    assert(false);
                }
            } else {
                assert(row_bottom(map, r) >= top0);
            }
        } else {
            if row_bottom(map, r) >= top0 {
            } else {
                assert(row_bottom(map, r + 1) <= bottom0);
                if core_y_overlap(map, y3, half, r) {
                    lemma_tile_row_of(map, new_bottom, r);
                    assert(solid_in_cols(map, ty, sl, sh));
                }
            }
        }
    } else {
        let new_top = y0 + dy + hy;
        let ty = tile_row(map, new_top);
        lemma_floor_bounds(new_top - map.origin_y, ts);
        lemma_floor_bounds(top0 - map.origin_y, ts);
        lemma_row_step(map, ty);
        if solid_in_cols(map, ty, sl, sh) {
            let cw = choose|cc: int| sl <= cc <= sh && solid_at(map, cc, ty);
            // the bumped row was fully above the body, else the tile
            // found there would have been inside the body's rows
            if row_bottom(map, ty) < top0 {
                assert(strict_y_overlap(map, y0, half, ty));
                lemma_col_mono(map, cw, sh);
                lemma_col_mono(map, sl + 1, cw + 1);
                assert(false);
            }
            assert(y3 == row_bottom(map, ty) - hy - SKIN);
            if row_bottom(map, r) >= top0 {
                if r >= ty {
                    lemma_row_mono(map, ty, r);
                } else {
                    lemma_row_mono(map, r + 1, ty);
                    assert(false);
                }
            } else {
                assert(row_bottom(map, r + 1) <= bottom0);
            }
        } else {
            if row_bottom(map, r + 1) <= bottom0 {
            } else {
                assert(row_bottom(map, r) >= top0);
                if core_y_overlap(map, y3, half, r) {
                    lemma_tile_row_of(map, new_top, r);
                    assert(solid_in_cols(map, ty, sl, sh));
                }
            }
        }
    }
}

/// No tunneling, for one run of the resolver: starting with a positive
/// gap to every solid tile, with the scan span covering the overlapped
/// rows, and with each axis displacing by less than one tile this tick,
/// the position the two passes produce has the body's skin-deflated box
/// clear of every solid tile's interior.
pub proof fn lemma_resolver_no_tunneling(
    map: CollisionMap,
    x0: int,
    y0: int,
    vx1: int,
    vy1: int,
    half: Collider,
    dt: int,
)
    requires
        map.wf(),
        half.wf(),
        0 <= dt,
        separated(map, x0, y0, half),
        rows_cover(map, y0, half),
        -(map.tile_size_x as int) < spec_scaled(vx1, dt) < map.tile_size_x as int,
        -(map.tile_size_y as int) < spec_scaled(vy1, dt) < map.tile_size_y as int,
    ensures
        ({
            let x2 = spec_resolve_h(map, x0, y0, vx1, half, dt).0;
            let y3 = spec_resolve_v(map, x2, y0, vy1, half, dt).0;
            core_separated(map, x2, y3, half)
        }),
{
    let x2 = spec_resolve_h(map, x0, y0, vx1, half, dt).0;
    let y3 = spec_resolve_v(map, x2, y0, vy1, half, dt).0;
    assert forall|c: int, r: int|
        #[trigger] solid_at(map, c, r) && strict_y_overlap(map, y0, half, r) implies {
        ||| x2 + half.half_x <= col_left(map, c)
        ||| x2 - half.half_x >= col_left(map, c + 1)
    } by {
        lemma_h_pass_tile(map, x0, y0, vx1, half, dt, c, r);
    }
    assert(x_disjoint_after_h(map, x2, y0, half));
    assert forall|c: int, r: int| #[trigger] solid_at(map, c, r) implies !(core_x_overlap(
        map,
        x2,
        half,
        c,
    ) && core_y_overlap(map, y3, half, r)) by {
        if core_x_overlap(map, x2, half, c) {
            lemma_v_pass_tile(map, x2, y0, vy1, half, dt, c, r);
        }
    }
}

/// No tunneling, lifted to the whole kinematic tick: under the same
/// premises — stated over the velocities the integrator hands to the
/// resolver — the position the tick produces keeps the body's
/// skin-deflated box clear of every solid tile's interior.
pub proof fn lemma_tick_no_tunneling(
    map: CollisionMap,
    pos: crate::movement::Position,
    vel: crate::movement::Velocity,
    st: crate::movement::MovementState,
    controller: crate::movement::PlayerController,
    half: Collider,
    settings: crate::movement::MovementSettings,
    dt: int,
    pos2: crate::movement::Position,
    vel2: crate::movement::Velocity,
    st2: crate::movement::MovementState,
)
    requires
        map.wf(),
        half.wf(),
        0 <= dt,
        separated(map, pos.x as int, pos.y as int, half),
        rows_cover(map, pos.y as int, half),
        crate::movement::spec_tick_rel(
            map,
            pos,
            vel,
            st,
            controller,
            half,
            settings,
            dt,
            pos2,
            vel2,
            st2,
        ),
        ({
            let vx1 = crate::movement::spec_vx_after_control(
                vel.x as int,
                st.on_ground,
                st.axis as int,
                controller,
                dt,
            );
            -(map.tile_size_x as int) < spec_scaled(vx1, dt) < map.tile_size_x as int
        }),
        ({
            let vy1 = crate::movement::spec_vy_after_gravity(
                vel.y as int,
                st.on_ground,
                settings,
                dt,
            );
            -(map.tile_size_y as int) < spec_scaled(vy1, dt) < map.tile_size_y as int
        }),
    ensures
        core_separated(map, pos2.x as int, pos2.y as int, half),
{
    let vx1 = crate::movement::spec_vx_after_control(
        vel.x as int,
        st.on_ground,
        st.axis as int,
        controller,
        dt,
    );
    let vy1 = crate::movement::spec_vy_after_gravity(vel.y as int, st.on_ground, settings, dt);
    lemma_resolver_no_tunneling(map, pos.x as int, pos.y as int, vx1, vy1, half, dt);
}

} // verus!
