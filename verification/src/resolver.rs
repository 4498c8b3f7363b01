//! The swept axis-aligned collision resolver and the grounded probe.
//!
//! Movement is resolved one axis at a time, horizontal before vertical,
//! within the same tick; the vertical pass consumes the position the
//! horizontal pass produced. Each pass computes the tentative displaced
//! edge, finds the tile line that edge lands in, and scans only the cells
//! the collider's other-axis extent covers there (inset by the skin
//! epsilon). On a solid hit the position is clamped one skin short of the
//! tile face and the velocity component is zeroed; otherwise the tentative
//! position is committed.

use vstd::prelude::*;

use crate::map::CollisionMap;
use crate::movement::Collider;
use crate::movement::Position;
use crate::movement::Velocity;
use crate::units::floor_div;
use crate::units::spec_floor_div;
use crate::units::spec_scaled;
use crate::units::scale_rate;
use crate::units::DT_LIMIT;
use crate::units::SKIN;
use crate::units::VEL_LIMIT;

verus! {

/// Bound on a coordinate handed to a resolver pass, in subunits. The tick
/// entry point starts from `POS_LIMIT` and each pass moves a coordinate by
/// far less than the slack between the two bounds.
pub const COORD_LIMIT: i64 = 1_400_000_000;

/// The grid column a world x coordinate falls in.
pub open spec fn tile_col(map: CollisionMap, w: int) -> int {
    spec_floor_div(w - map.origin_x, map.tile_size_x as int)
}

/// The grid row a world y coordinate falls in.
pub open spec fn tile_row(map: CollisionMap, w: int) -> int {
    spec_floor_div(w - map.origin_y, map.tile_size_y as int)
}

/// World x of the left face of grid column `tx`.
pub open spec fn col_left(map: CollisionMap, tx: int) -> int {
    map.origin_x + tx * map.tile_size_x
}

/// World y of the bottom face of grid row `ty`.
pub open spec fn row_bottom(map: CollisionMap, ty: int) -> int {
    map.origin_y + ty * map.tile_size_y
}

/// Whether the cell at the given (possibly ghost, but in-range) grid
/// coordinates is solid.
pub open spec fn solid_at(map: CollisionMap, tx: int, ty: int) -> bool {
    map.spec_is_solid(tx as i32, ty as i32)
}

/// Whether some cell of column `tx` between rows `lo` and `hi` is solid.
pub open spec fn solid_in_rows(map: CollisionMap, tx: int, lo: int, hi: int) -> bool {
    exists|ty: int| lo <= ty <= hi && solid_at(map, tx, ty)
}

/// Whether some cell of row `ty` between columns `lo` and `hi` is solid.
pub open spec fn solid_in_cols(map: CollisionMap, ty: int, lo: int, hi: int) -> bool {
    exists|tx: int| lo <= tx <= hi && solid_at(map, tx, ty)
}

/// First row of the scan span for a collider whose bottom edge sits at
/// `bottom`: the row of the bottom edge, inset by the skin epsilon.
pub open spec fn span_row_lo(map: CollisionMap, bottom: int) -> int {
    tile_row(map, bottom + SKIN)
}

/// Last row of the scan span for a collider whose top edge sits at `top`.
pub open spec fn span_row_hi(map: CollisionMap, top: int) -> int {
    tile_row(map, top - SKIN)
}

/// First column of the scan span for a collider whose left edge sits at
/// `left`.
pub open spec fn span_col_lo(map: CollisionMap, left: int) -> int {
    tile_col(map, left + SKIN)
}

/// Last column of the scan span for a collider whose right edge sits at
/// `right`.
pub open spec fn span_col_hi(map: CollisionMap, right: int) -> int {
    tile_col(map, right - SKIN)
}

/// The horizontal pass as a function: the resolved x coordinate and
/// horizontal velocity. A body with zero horizontal velocity is left
/// alone; otherwise the displaced leading edge's column is scanned across
/// the rows the collider covers, clamping one skin short of the first
/// solid face found.
pub open spec fn spec_resolve_h(
    map: CollisionMap,
    x: int,
    y: int,
    vx: int,
    col: Collider,
    dt: int,
) -> (int, int) {
    if vx == 0 {
        (x, vx)
    } else {
        let new_x = x + spec_scaled(vx, dt);
        let lo = span_row_lo(map, y - col.half_y);
        let hi = span_row_hi(map, y + col.half_y);
        if vx > 0 {
            let tx = tile_col(map, new_x + col.half_x);
            if solid_in_rows(map, tx, lo, hi) {
                (col_left(map, tx) - col.half_x - SKIN, 0)
            } else {
                (new_x, vx)
            }
        } else {
            let tx = tile_col(map, new_x - col.half_x);
            if solid_in_rows(map, tx, lo, hi) {
                (col_left(map, tx + 1) + col.half_x + SKIN, 0)
            } else {
                (new_x, vx)
            }
        }
    }
}

/// The vertical pass as a function: the resolved y coordinate, vertical
/// velocity, and the downward/upward collision flags.
pub open spec fn spec_resolve_v(
    map: CollisionMap,
    x: int,
    y: int,
    vy: int,
    col: Collider,
    dt: int,
) -> (int, int, bool, bool) {
    let new_y = y + spec_scaled(vy, dt);
    let lo = span_col_lo(map, x - col.half_x);
    let hi = span_col_hi(map, x + col.half_x);
    if vy < 0 {
        let ty = tile_row(map, new_y - col.half_y);
        if solid_in_cols(map, ty, lo, hi) {
            (row_bottom(map, ty + 1) + col.half_y + SKIN, 0, true, false)
        } else {
            (new_y, vy, false, false)
        }
    } else if vy > 0 {
        let ty = tile_row(map, new_y + col.half_y);
        if solid_in_cols(map, ty, lo, hi) {
            (row_bottom(map, ty) - col.half_y - SKIN, 0, false, true)
        } else {
            (new_y, vy, false, false)
        }
    } else {
        (new_y, vy, false, false)
    }
}

/// The auxiliary foot probe: whether a solid tile lies within a few skin
/// epsilons below the feet, anywhere across the collider's horizontal
/// footprint. This catches grounding when the vertical pass never runs
/// (zero vertical velocity means zero displacement).
pub open spec fn spec_grounded_probe(map: CollisionMap, x: int, y: int, col: Collider) -> bool {
    let foot = y - col.half_y;
    let ty = tile_row(map, foot - 2 * SKIN);
    let lo = span_col_lo(map, x - col.half_x);
    let hi = span_col_hi(map, x + col.half_x);
    solid_in_cols(map, ty, lo, hi) && foot >= row_bottom(map, ty + 1) - 4 * SKIN
}

/// Flags describing whether a vertical sweep collided below or above the
/// collider.
#[derive(Clone, Copy, PartialEq, Eq, Structural, Debug)]
pub struct VerticalCollision {
    pub down: bool,
    pub up: bool,
}

/// A quotient by a positive divisor keeps the numerator's sign and never
/// grows in magnitude.
pub proof fn lemma_div_shrinks(a: int, b: int)
    requires
        b >= 1,
    ensures
        a >= 0 ==> 0 <= a / b <= a,
        a < 0 ==> a <= a / b <= 0,
{
    if a >= 0 {
        vstd::arithmetic::div_mod::lemma_div_pos_is_pos(a, b);
        vstd::arithmetic::div_mod::lemma_div_nonincreasing(a, b);
    } else {
        vstd::arithmetic::div_mod::lemma_fundamental_div_mod(a, b);
        assert(a <= a / b <= 0) by (nonlinear_arith)
            requires
                a < 0,
                b >= 1,
                a == b * (a / b) + a % b,
                0 <= a % b < b,
        ;
    }
}

/// The landing column/row of a coordinate: the face at the quotient is at
/// or below the coordinate, and the next face is strictly above it.
pub proof fn lemma_floor_bounds(a: int, b: int)
    requires
        b >= 1,
    ensures
        (a / b) * b <= a < (a / b) * b + b,
{
    vstd::arithmetic::div_mod::lemma_fundamental_div_mod(a, b);
    assert((a / b) * b <= a < (a / b) * b + b) by (nonlinear_arith)
        requires
            a == b * (a / b) + a % b,
            0 <= a % b < b,
    ;
}

/// Floor division is monotone in the numerator.
pub proof fn lemma_floor_mono(a1: int, a2: int, b: int)
    requires
        b >= 1,
        a1 <= a2,
    ensures
        a1 / b <= a2 / b,
{
    vstd::arithmetic::div_mod::lemma_div_is_ordered(a1, a2, b);
}

/// A world x coordinate between the faces of column `tx` lies in column
/// `tx`.
pub proof fn lemma_tile_col_of(map: CollisionMap, w: int, tx: int)
    requires
        map.wf(),
        col_left(map, tx) <= w < col_left(map, tx + 1),
    ensures
        tile_col(map, w) == tx,
{
    let ts = map.tile_size_x as int;
    assert((tx + 1) * ts == tx * ts + ts) by (nonlinear_arith);
    vstd::arithmetic::div_mod::lemma_fundamental_div_mod_converse(
        w - map.origin_x,
        ts,
        tx,
        w - map.origin_x - tx * ts,
    );
}

/// A world y coordinate between the faces of row `ty` lies in row `ty`.
pub proof fn lemma_tile_row_of(map: CollisionMap, w: int, ty: int)
    requires
        map.wf(),
        row_bottom(map, ty) <= w < row_bottom(map, ty + 1),
    ensures
        tile_row(map, w) == ty,
{
    let ts = map.tile_size_y as int;
    assert((ty + 1) * ts == ty * ts + ts) by (nonlinear_arith);
    vstd::arithmetic::div_mod::lemma_fundamental_div_mod_converse(
        w - map.origin_y,
        ts,
        ty,
        w - map.origin_y - ty * ts,
    );
}

/// Resolves horizontal position and velocity against the collision map.
/// The y and z coordinates and the vertical velocity are untouched.
#[verifier::loop_isolation(false)]
pub fn resolve_horizontal(
    position: &mut Position,
    velocity: &mut Velocity,
    half: Collider,
    dt: i64,
    map: &CollisionMap,
)
    requires
        map.wf(),
        half.wf(),
        old(velocity).wf(),
        0 <= dt <= DT_LIMIT,
        -COORD_LIMIT <= old(position).x <= COORD_LIMIT,
        -COORD_LIMIT <= old(position).y <= COORD_LIMIT,
    ensures
        (final(position).x as int, final(velocity).x as int) == spec_resolve_h(
            *map,
            old(position).x as int,
            old(position).y as int,
            old(velocity).x as int,
            half,
            dt as int,
        ),
        final(position).y == old(position).y,
        final(position).z == old(position).z,
        final(velocity).y == old(velocity).y,
        final(velocity).wf(),
        old(position).x - 102_000_000 <= final(position).x <= old(position).x + 102_000_000,
{
    proof {
        crate::units::lemma_spec_scaled_bounds(
            old(velocity).x as int,
            dt as int,
            VEL_LIMIT as int,
            DT_LIMIT as int,
        );
    }
    if velocity.x == 0 {
        return ;
    }

    let dx = scale_rate(velocity.x, dt);
    let new_x = position.x + dx;

    let bottom = position.y - half.half_y + SKIN;
    let top = position.y + half.half_y - SKIN;
    let ts_y = map.tile_size_y;
    let min_tile_y = floor_div(bottom - map.origin_y, ts_y);
    let max_tile_y = floor_div(top - map.origin_y, ts_y);

    let ts_x = map.tile_size_x;
    proof {
        lemma_floor_mono(bottom - map.origin_y, top - map.origin_y, ts_y as int);
        lemma_div_shrinks(bottom - map.origin_y, ts_y as int);
        lemma_div_shrinks(top - map.origin_y, ts_y as int);
    }

    if velocity.x > 0 {
        let edge = new_x + half.half_x;
        let tx = floor_div(edge - map.origin_x, ts_x);
        proof {
            lemma_div_shrinks(edge - map.origin_x, ts_x as int);
            lemma_floor_bounds(edge - map.origin_x, ts_x as int);
        }
        let mut ty = min_tile_y;
        while ty <= max_tile_y
            invariant
                min_tile_y <= ty,
                forall|t: int| min_tile_y <= t < ty ==> !solid_at(*map, tx as int, t),
                ty <= max_tile_y + 1,
                -0x8000_0000 <= tx < 0x8000_0000,
                -0x8000_0000 <= min_tile_y,
                max_tile_y < 0x8000_0000,
                *position == *old(position),
                *velocity == *old(velocity),
            decreases max_tile_y + 1 - ty,
        {
            if map.is_solid(tx as i32, ty as i32) {
                proof {
                    assert(solid_at(*map, tx as int, ty as int));
                }
                let tile_left = map.origin_x + tx * ts_x;
                position.x = tile_left - half.half_x - SKIN;
                velocity.x = 0;
                proof {
                    assert(solid_in_rows(
                        *map,
                        tx as int,
                        min_tile_y as int,
                        max_tile_y as int,
                    ));
                }
                return ;
            }
            ty = ty + 1;
        }
        proof {
            assert(!solid_in_rows(*map, tx as int, min_tile_y as int, max_tile_y as int));
        }
        position.x = new_x;
    } else {
        let edge = new_x - half.half_x;
        let tx = floor_div(edge - map.origin_x, ts_x);
        proof {
            lemma_div_shrinks(edge - map.origin_x, ts_x as int);
            lemma_floor_bounds(edge - map.origin_x, ts_x as int);
        }
        let mut ty = min_tile_y;
        while ty <= max_tile_y
            invariant
                min_tile_y <= ty,
                forall|t: int| min_tile_y <= t < ty ==> !solid_at(*map, tx as int, t),
                ty <= max_tile_y + 1,
                -0x8000_0000 <= tx < 0x8000_0000,
                -0x8000_0000 <= min_tile_y,
                max_tile_y < 0x8000_0000,
                *position == *old(position),
                *velocity == *old(velocity),
            decreases max_tile_y + 1 - ty,
        {
            if map.is_solid(tx as i32, ty as i32) {
                proof {
                    assert(solid_at(*map, tx as int, ty as int));
                    assert((tx as int + 1) * (ts_x as int) == tx as int * (ts_x as int) + (
                    ts_x as int)) by (nonlinear_arith);
                }
                let tile_right = map.origin_x + (tx + 1) * ts_x;
                position.x = tile_right + half.half_x + SKIN;
                velocity.x = 0;
                proof {
                    assert(solid_in_rows(
                        *map,
                        tx as int,
                        min_tile_y as int,
                        max_tile_y as int,
                    ));
                }
                return ;
            }
            ty = ty + 1;
        }
        proof {
            assert(!solid_in_rows(*map, tx as int, min_tile_y as int, max_tile_y as int));
        }
        position.x = new_x;
    }
}

/// Resolves vertical position and velocity against the collision map and
/// reports whether the sweep was blocked below (a landing) or above (a
/// head bump). The x and z coordinates and the horizontal velocity are
/// untouched.
#[verifier::loop_isolation(false)]
pub fn resolve_vertical(
    position: &mut Position,
    velocity: &mut Velocity,
    half: Collider,
    dt: i64,
    map: &CollisionMap,
) -> (c: VerticalCollision)
    requires
        map.wf(),
        half.wf(),
        old(velocity).wf(),
        0 <= dt <= DT_LIMIT,
        -COORD_LIMIT <= old(position).x <= COORD_LIMIT,
        -COORD_LIMIT <= old(position).y <= COORD_LIMIT,
    ensures
        (final(position).y as int, final(velocity).y as int, c.down, c.up) == spec_resolve_v(
            *map,
            old(position).x as int,
            old(position).y as int,
            old(velocity).y as int,
            half,
            dt as int,
        ),
        final(position).x == old(position).x,
        final(position).z == old(position).z,
        final(velocity).x == old(velocity).x,
        final(velocity).wf(),
        old(position).y - 102_000_000 <= final(position).y <= old(position).y + 102_000_000,
{
    proof {
        crate::units::lemma_spec_scaled_bounds(
            old(velocity).y as int,
            dt as int,
            VEL_LIMIT as int,
            DT_LIMIT as int,
        );
    }
    let dy = scale_rate(velocity.y, dt);
    let new_y = position.y + dy;

    let left = position.x - half.half_x + SKIN;
    let right = position.x + half.half_x - SKIN;
    let ts_x = map.tile_size_x;
    let min_tile_x = floor_div(left - map.origin_x, ts_x);
    let max_tile_x = floor_div(right - map.origin_x, ts_x);

    let ts_y = map.tile_size_y;
    proof {
        lemma_floor_mono(left - map.origin_x, right - map.origin_x, ts_x as int);
        lemma_div_shrinks(left - map.origin_x, ts_x as int);
        lemma_div_shrinks(right - map.origin_x, ts_x as int);
    }

    if velocity.y < 0 {
        let edge = new_y - half.half_y;
        let ty = floor_div(edge - map.origin_y, ts_y);
        proof {
            lemma_div_shrinks(edge - map.origin_y, ts_y as int);
            lemma_floor_bounds(edge - map.origin_y, ts_y as int);
        }
        let mut tx = min_tile_x;
        while tx <= max_tile_x
            invariant
                min_tile_x <= tx,
                forall|t: int| min_tile_x <= t < tx ==> !solid_at(*map, t, ty as int),
                tx <= max_tile_x + 1,
                -0x8000_0000 <= ty < 0x8000_0000,
                -0x8000_0000 <= min_tile_x,
                max_tile_x < 0x8000_0000,
                *position == *old(position),
                *velocity == *old(velocity),
            decreases max_tile_x + 1 - tx,
        {
            if map.is_solid(tx as i32, ty as i32) {
                proof {
                    assert(solid_at(*map, tx as int, ty as int));
                    assert((ty as int + 1) * (ts_y as int) == ty as int * (ts_y as int) + (
                    ts_y as int)) by (nonlinear_arith);
                }
                let tile_top = map.origin_y + (ty + 1) * ts_y;
                position.y = tile_top + half.half_y + SKIN;
                velocity.y = 0;
                proof {
                    assert(solid_in_cols(
                        *map,
                        ty as int,
                        min_tile_x as int,
                        max_tile_x as int,
                    ));
                }
                return VerticalCollision { down: true, up: false };
            }
            tx = tx + 1;
        }
        proof {
            assert(!solid_in_cols(*map, ty as int, min_tile_x as int, max_tile_x as int));
        }
        position.y = new_y;
        VerticalCollision { down: false, up: false }
    } else if velocity.y > 0 {
        let edge = new_y + half.half_y;
        let ty = floor_div(edge - map.origin_y, ts_y);
        proof {
            lemma_div_shrinks(edge - map.origin_y, ts_y as int);
            lemma_floor_bounds(edge - map.origin_y, ts_y as int);
        }
        let mut tx = min_tile_x;
        while tx <= max_tile_x
            invariant
                min_tile_x <= tx,
                forall|t: int| min_tile_x <= t < tx ==> !solid_at(*map, t, ty as int),
                tx <= max_tile_x + 1,
                -0x8000_0000 <= ty < 0x8000_0000,
                -0x8000_0000 <= min_tile_x,
                max_tile_x < 0x8000_0000,
                *position == *old(position),
                *velocity == *old(velocity),
            decreases max_tile_x + 1 - tx,
        {
            if map.is_solid(tx as i32, ty as i32) {
                proof {
                    assert(solid_at(*map, tx as int, ty as int));
                }
                let tile_bottom = map.origin_y + ty * ts_y;
                position.y = tile_bottom - half.half_y - SKIN;
                velocity.y = 0;
                proof {
                    assert(solid_in_cols(
                        *map,
                        ty as int,
                        min_tile_x as int,
                        max_tile_x as int,
                    ));
                }
                return VerticalCollision { down: false, up: true };
            }
            tx = tx + 1;
        }
        proof {
            assert(!solid_in_cols(*map, ty as int, min_tile_x as int, max_tile_x as int));
        }
        position.y = new_y;
        VerticalCollision { down: false, up: false }
    } else {
        position.y = new_y;
        VerticalCollision { down: false, up: false }
    }
}

/// Samples for solid ground just below the feet, across the collider's
/// full horizontal footprint. Catches grounding the sweep cannot see when
/// the vertical displacement is zero.
#[verifier::loop_isolation(false)]
pub fn grounded_check(position: &Position, half: Collider, map: &CollisionMap) -> (r: bool)
    requires
        map.wf(),
        half.wf(),
        -COORD_LIMIT - 200_000_000 <= position.x <= COORD_LIMIT + 200_000_000,
        -COORD_LIMIT - 200_000_000 <= position.y <= COORD_LIMIT + 200_000_000,
    ensures
        r == spec_grounded_probe(*map, position.x as int, position.y as int, half),
{
    let foot = position.y - half.half_y;
    let probe = foot - 2 * SKIN;
    let ts_y = map.tile_size_y;
    let ts_x = map.tile_size_x;

    let ty = floor_div(probe - map.origin_y, ts_y);
    let left = position.x - half.half_x + SKIN;
    let right = position.x + half.half_x - SKIN;
    let min_tile_x = floor_div(left - map.origin_x, ts_x);
    let max_tile_x = floor_div(right - map.origin_x, ts_x);

    proof {
        lemma_floor_mono(left - map.origin_x, right - map.origin_x, ts_x as int);
        lemma_div_shrinks(left - map.origin_x, ts_x as int);
        lemma_div_shrinks(right - map.origin_x, ts_x as int);
        lemma_div_shrinks(probe - map.origin_y, ts_y as int);
        lemma_floor_bounds(probe - map.origin_y, ts_y as int);
        assert((ty as int + 1) * (ts_y as int) == ty as int * (ts_y as int) + (ts_y as int))
            by (nonlinear_arith);
    }

    let tile_top = map.origin_y + (ty + 1) * ts_y;
    if foot < tile_top - 4 * SKIN {
        return false;
    }

    let mut tx = min_tile_x;
    while tx <= max_tile_x
        invariant
            min_tile_x <= tx,
            forall|t: int| min_tile_x <= t < tx ==> !solid_at(*map, t, ty as int),
            tx <= max_tile_x + 1,
            -0x8000_0000 <= ty < 0x8000_0000,
            -0x8000_0000 <= min_tile_x,
            max_tile_x < 0x8000_0000,
        decreases max_tile_x + 1 - tx,
    {
        if map.is_solid(tx as i32, ty as i32) {
            proof {
                assert(solid_at(*map, tx as int, ty as int));
                assert(solid_in_cols(*map, ty as int, min_tile_x as int, max_tile_x as int));
            }
            return true;
        }
        tx = tx + 1;
    }
    proof {
        assert(!solid_in_cols(*map, ty as int, min_tile_x as int, max_tile_x as int));
    }
    false
}

} // verus!
