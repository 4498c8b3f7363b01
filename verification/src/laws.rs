//! Laws of the kinematic step, proved once and for all over the tick
//! relation: the grounded fixed point, the axis resolution order, and
//! the one-shot jump buffer.

use vstd::prelude::*;

use crate::map::CollisionMap;
use crate::movement::spec_tick_grounded;
use crate::movement::spec_tick_h;
use crate::movement::spec_tick_jumps;
use crate::movement::spec_tick_rel;
use crate::movement::spec_tick_v;
use crate::movement::spec_vx_after_control;
use crate::movement::spec_vy_after_gravity;
use crate::movement::Collider;
use crate::movement::MovementSettings;
use crate::movement::MovementState;
use crate::movement::PlayerController;
use crate::movement::Position;
use crate::movement::Velocity;
use crate::resolver::row_bottom;
use crate::resolver::solid_at;
use crate::resolver::solid_in_cols;
use crate::resolver::span_col_hi;
use crate::resolver::span_col_lo;
use crate::resolver::spec_grounded_probe;
use crate::resolver::spec_resolve_h;
use crate::resolver::spec_resolve_v;
use crate::resolver::tile_row;
use crate::units::SKIN;

verus! {

/// The body stands exactly on the top surface of solid ground: some
/// solid tile within the collider's horizontal footprint ends exactly
/// one skin below the feet (where the resolver itself places a body
/// that lands).
pub open spec fn resting_on_tile_top(map: CollisionMap, x: int, y: int, half: Collider) -> bool {
    let foot = y - half.half_y;
    exists|tx: int, ty: int|
        {
            &&& #[trigger] solid_at(map, tx, ty)
            &&& span_col_lo(map, x - half.half_x) <= tx <= span_col_hi(map, x + half.half_x)
            &&& foot == row_bottom(map, ty + 1) + SKIN
        }
}

/// A body standing exactly on a tile top is seen by the foot probe.
pub proof fn lemma_resting_implies_probe(map: CollisionMap, x: int, y: int, half: Collider)
    requires
        map.wf(),
        half.wf(),
        resting_on_tile_top(map, x, y, half),
    ensures
        spec_grounded_probe(map, x, y, half),
{
    let foot = y - half.half_y;
    let (tx, ty) = choose|tx: int, ty: int|
        {
            &&& #[trigger] solid_at(map, tx, ty)
            &&& span_col_lo(map, x - half.half_x) <= tx <= span_col_hi(map, x + half.half_x)
            &&& foot == row_bottom(map, ty + 1) + SKIN
        };
    let probe = foot - 2 * SKIN;
    assert((ty + 1) * (map.tile_size_y as int) == ty * (map.tile_size_y as int) + (
    map.tile_size_y as int)) by (nonlinear_arith);
    crate::resolver::lemma_tile_row_of(map, probe, ty);
    assert(tile_row(map, probe) == ty);
    assert(solid_in_cols(
        map,
        ty,
        span_col_lo(map, x - half.half_x),
        span_col_hi(map, x + half.half_x),
    ));
}

/// Grounded idempotence: a body at rest on a solid tile's top surface
/// with zero velocity and no pending jump is a fixed point of the
/// zero-dt tick — position, velocity and movement state all come out
/// exactly as they went in, so any number of repeated zero-dt ticks
/// leaves the body where it stands, still grounded.
pub proof fn lemma_rest_is_fixed_point(
    map: CollisionMap,
    pos: Position,
    vel: Velocity,
    st: MovementState,
    controller: PlayerController,
    half: Collider,
    settings: MovementSettings,
    pos2: Position,
    vel2: Velocity,
    st2: MovementState,
)
    requires
        map.wf(),
        half.wf(),
        st.wf(),
        vel.x == 0,
        vel.y == 0,
        st.on_ground,
        !st.wants_jump,
        resting_on_tile_top(map, pos.x as int, pos.y as int, half),
        spec_tick_rel(map, pos, vel, st, controller, half, settings, 0, pos2, vel2, st2),
    ensures
        pos2 == pos,
        vel2 == vel,
        st2 == st,
{
    lemma_resting_implies_probe(map, pos.x as int, pos.y as int, half);
    assert(spec_tick_h(map, pos, vel, st, controller, half, 0) == (pos.x as int, 0int));
    assert(spec_tick_v(map, pos, vel, st, controller, half, settings, 0) == (
        pos.y as int,
        0int,
        false,
        false,
    ));
    assert(spec_tick_grounded(map, pos, vel, st, controller, half, settings, 0));
    assert(!spec_tick_jumps(map, pos, vel, st, controller, half, settings, 0));
}

/// Axis order determinism: the tick resolves horizontal movement fully
/// before vertical movement, and the vertical sweep consumes the x
/// coordinate the horizontal pass produced — never the starting one.
pub proof fn lemma_horizontal_resolves_first(
    map: CollisionMap,
    pos: Position,
    vel: Velocity,
    st: MovementState,
    controller: PlayerController,
    half: Collider,
    settings: MovementSettings,
    dt: int,
    pos2: Position,
    vel2: Velocity,
    st2: MovementState,
)
    requires
        spec_tick_rel(map, pos, vel, st, controller, half, settings, dt, pos2, vel2, st2),
    ensures
        ({
            let vx1 = spec_vx_after_control(
                vel.x as int,
                st.on_ground,
                st.axis as int,
                controller,
                dt,
            );
            let vy1 = spec_vy_after_gravity(vel.y as int, st.on_ground, settings, dt);
            let h = spec_resolve_h(map, pos.x as int, pos.y as int, vx1, half, dt);
            let v = spec_resolve_v(map, h.0, pos.y as int, vy1, half, dt);
            pos2.x == h.0 && pos2.y == v.0
        }),
{
}

/// Jump-buffer correctness, first half: intent pending when the tick
/// begins and ground reached once collisions settle yields exactly one
/// impulse — the vertical velocity becomes the jump strength, the body
/// is immediately airborne again, and the intent flag is cleared.
pub proof fn lemma_jump_fires_once(
    map: CollisionMap,
    pos: Position,
    vel: Velocity,
    st: MovementState,
    controller: PlayerController,
    half: Collider,
    settings: MovementSettings,
    dt: int,
    pos2: Position,
    vel2: Velocity,
    st2: MovementState,
)
    requires
        st.wants_jump,
        spec_tick_grounded(map, pos, vel, st, controller, half, settings, dt),
        spec_tick_rel(map, pos, vel, st, controller, half, settings, dt, pos2, vel2, st2),
    ensures
        vel2.y == controller.jump_strength,
        !st2.on_ground,
        !st2.wants_jump,
{
}

/// Jump-buffer correctness, second half: a following tick starts with
/// the intent flag cleared, so it cannot fire a second impulse — its
/// outgoing vertical velocity is exactly what gravity and the vertical
/// sweep produce.
pub proof fn lemma_no_second_impulse(
    map: CollisionMap,
    pos: Position,
    vel: Velocity,
    st: MovementState,
    controller: PlayerController,
    half: Collider,
    settings: MovementSettings,
    dt: int,
    pos2: Position,
    vel2: Velocity,
    st2: MovementState,
)
    requires
        !st.wants_jump,
        spec_tick_rel(map, pos, vel, st, controller, half, settings, dt, pos2, vel2, st2),
    ensures
        vel2.y == spec_tick_v(map, pos, vel, st, controller, half, settings, dt).1,
        !st2.wants_jump,
{
}

} // verus!
