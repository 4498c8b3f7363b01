//! Player movement state and the kinematic integrator: gravity with a
//! terminal velocity, a clamped linear ramp toward the target horizontal
//! speed, and edge-triggered jump intent.

use vstd::prelude::*;

use crate::map::CollisionMap;
use crate::units::spec_scaled;
use crate::units::scale_rate;
use crate::units::DT_LIMIT;
use crate::units::HALF_LIMIT;
use crate::units::POS_LIMIT;
use crate::units::SKIN;
use crate::units::VEL_LIMIT;

verus! {

/// World-space center of the body, in subunits. `z` is reserved for draw
/// order and never touched by the simulation.
#[derive(Clone, Copy, PartialEq, Eq, Structural, Debug)]
pub struct Position {
    pub x: i64,
    pub y: i64,
    pub z: i64,
}

impl Position {
    /// Coordinates small enough for every collision computation to stay in
    /// range.
    pub open spec fn wf(self) -> bool {
        &&& -POS_LIMIT <= self.x <= POS_LIMIT
        &&& -POS_LIMIT <= self.y <= POS_LIMIT
    }
}

/// Horizontal and vertical speeds, in subunits per second.
#[derive(Clone, Copy, PartialEq, Eq, Structural, Debug, Default)]
pub struct Velocity {
    pub x: i64,
    pub y: i64,
}

impl Velocity {
    /// Speeds small enough for every tick computation to stay in range.
    pub open spec fn wf(self) -> bool {
        &&& -VEL_LIMIT <= self.x <= VEL_LIMIT
        &&& -VEL_LIMIT <= self.y <= VEL_LIMIT
    }
}

/// Axis-aligned bounding box for collision checks; only half extents are
/// stored, in subunits. The size never changes at runtime.
#[derive(Clone, Copy, PartialEq, Eq, Structural, Debug)]
pub struct Collider {
    pub half_x: i64,
    pub half_y: i64,
}

impl Collider {
    /// Half extents strictly wider than the skin epsilon and in range.
    pub open spec fn wf(self) -> bool {
        &&& SKIN < self.half_x <= HALF_LIMIT
        &&& SKIN < self.half_y <= HALF_LIMIT
    }

    /// Builds a collider from a full size, in subunits.
    pub fn from_size(size_x: i64, size_y: i64) -> (c: Collider)
        requires
            0 <= size_x <= 2 * HALF_LIMIT,
            0 <= size_y <= 2 * HALF_LIMIT,
        ensures
            c.half_x == size_x / 2,
            c.half_y == size_y / 2,
    {
        Collider { half_x: size_x / 2, half_y: size_y / 2 }
    }
}

/// Global physics tuning: gravity and the most negative vertical speed a
/// fall may reach, in subunits per second (squared, for gravity).
#[derive(Clone, Copy, PartialEq, Eq, Structural, Debug)]
pub struct MovementSettings {
    pub gravity: i64,
    pub terminal_velocity: i64,
}

impl MovementSettings {
    /// Gravity pulls down and the terminal velocity is a downward bound.
    pub open spec fn wf(self) -> bool {
        &&& 0 <= self.gravity <= VEL_LIMIT
        &&& -VEL_LIMIT <= self.terminal_velocity <= 0
    }
}

impl Default for MovementSettings {
    /// The stock tuning: gravity 1150 units/s², terminal -1800 units/s.
    fn default() -> (s: Self)
        ensures
            s == (MovementSettings { gravity: 1_150_000i64, terminal_velocity: -1_800_000i64 }),
            s.wf(),
    {
        MovementSettings { gravity: 1_150_000, terminal_velocity: -1_800_000 }
    }
}

/// Controller tuning specific to the player. Air control is weaker than
/// ground control, in both acceleration and top speed.
#[derive(Clone, Copy, PartialEq, Eq, Structural, Debug)]
pub struct PlayerController {
    pub ground_accel: i64,
    pub air_accel: i64,
    pub ground_max_speed: i64,
    pub air_max_speed: i64,
    pub jump_strength: i64,
}

impl PlayerController {
    /// All rates nonnegative and in range.
    pub open spec fn wf(self) -> bool {
        &&& 0 <= self.ground_accel <= VEL_LIMIT
        &&& 0 <= self.air_accel <= VEL_LIMIT
        &&& 0 <= self.ground_max_speed <= VEL_LIMIT
        &&& 0 <= self.air_max_speed <= VEL_LIMIT
        &&& 0 <= self.jump_strength <= VEL_LIMIT
    }
}

impl Default for PlayerController {
    /// The stock tuning, in subunits per second.
    fn default() -> (c: Self)
        ensures
            c == (PlayerController {
                ground_accel: 1_600_000i64,
                air_accel: 1_200_000i64,
                ground_max_speed: 325_000i64,
                air_max_speed: 275_000i64,
                jump_strength: 480_000i64,
            }),
            c.wf(),
    {
        PlayerController {
            ground_accel: 1_600_000,
            air_accel: 1_200_000,
            ground_max_speed: 325_000,
            air_max_speed: 275_000,
            jump_strength: 480_000,
        }
    }
}

/// Per-entity movement flags. `axis` is the input direction in per-mille
/// (-1000 for full left, 1000 for full right); `wants_jump` is one-shot
/// intent, set on press and cleared when the kinematics step consumes it.
#[derive(Clone, Copy, PartialEq, Eq, Structural, Debug)]
pub struct MovementState {
    pub on_ground: bool,
    pub wants_jump: bool,
    pub axis: i64,
}

impl MovementState {
    /// The input axis stays within one unit of full deflection.
    pub open spec fn wf(self) -> bool {
        -1000 <= self.axis <= 1000
    }
}

impl Default for MovementState {
    /// A freshly spawned body starts grounded with no pending input.
    fn default() -> (s: Self)
        ensures
            s == (MovementState { on_ground: true, wants_jump: false, axis: 0i64 }),
            s.wf(),
    {
        MovementState { on_ground: true, wants_jump: false, axis: 0 }
    }
}

/// Moves `current` toward `target` by at most `max_delta`: the clamped
/// linear ramp of the horizontal speed controller.
pub open spec fn spec_move_towards(current: int, target: int, max_delta: int) -> int {
    if -max_delta <= target - current <= max_delta {
        target
    } else if target > current {
        current + max_delta
    } else {
        current - max_delta
    }
}

/// Moves `current` toward `target`, by at most `max_delta` per call.
pub fn move_towards(current: i64, target: i64, max_delta: i64) -> (r: i64)
    requires
        0 <= max_delta <= 10_000_000_000_000_000,
        -10_000_000_000_000_000 <= current <= 10_000_000_000_000_000,
        -10_000_000_000_000_000 <= target <= 10_000_000_000_000_000,
    ensures
        r == spec_move_towards(current as int, target as int, max_delta as int),
{
    let delta: i64 = target - current;
    if -max_delta <= delta && delta <= max_delta {
        target
    } else if delta > 0 {
        current + max_delta
    } else {
        current - max_delta
    }
}

/// The vertical speed after the gravity step: while airborne, gravity
/// pulls the speed down, clamped to the terminal velocity; while grounded,
/// residual downward speed is zeroed so a past fall cannot un-ground the
/// body on the next tick.
pub open spec fn spec_vy_after_gravity(
    vy: int,
    on_ground: bool,
    settings: MovementSettings,
    dt: int,
) -> int {
    if !on_ground {
        let v = vy - spec_scaled(settings.gravity as int, dt);
        if v < settings.terminal_velocity {
            settings.terminal_velocity as int
        } else {
            v
        }
    } else if vy < 0 {
        0
    } else {
        vy
    }
}

/// The horizontal speed after the control step: a ramp toward
/// `axis * max_speed` limited to `accel * dt` per tick, with the airborne
/// rates when the body is not grounded.
pub open spec fn spec_vx_after_control(
    vx: int,
    on_ground: bool,
    axis: int,
    controller: PlayerController,
    dt: int,
) -> int {
    let accel = if on_ground {
        controller.ground_accel as int
    } else {
        controller.air_accel as int
    };
    let max_speed = if on_ground {
        controller.ground_max_speed as int
    } else {
        controller.air_max_speed as int
    };
    spec_move_towards(vx, spec_scaled(axis, max_speed), spec_scaled(accel, dt))
}

/// Applies gravity and horizontal control to the velocity for one tick of
/// `dt` milliseconds. Grounded state is read, not written, here.
pub fn integrate_velocity(
    velocity: &mut Velocity,
    state: &MovementState,
    controller: &PlayerController,
    settings: &MovementSettings,
    dt: i64,
)
    requires
        old(velocity).wf(),
        state.wf(),
        controller.wf(),
        settings.wf(),
        0 <= dt <= DT_LIMIT,
    ensures
        final(velocity).x == spec_vx_after_control(
            old(velocity).x as int,
            state.on_ground,
            state.axis as int,
            *controller,
            dt as int,
        ),
        final(velocity).y == spec_vy_after_gravity(
            old(velocity).y as int,
            state.on_ground,
            *settings,
            dt as int,
        ),
        final(velocity).wf(),
{
    if !state.on_ground {
        let fall = scale_rate(settings.gravity, dt);
        velocity.y = velocity.y - fall;
        if velocity.y < settings.terminal_velocity {
            velocity.y = settings.terminal_velocity;
        }
    } else if velocity.y < 0 {
        velocity.y = 0;
    }

    let accel: i64 = if state.on_ground {
        controller.ground_accel
    } else {
        controller.air_accel
    };
    let max_speed: i64 = if state.on_ground {
        controller.ground_max_speed
    } else {
        controller.air_max_speed
    };
    let target = scale_rate(state.axis, max_speed);
    proof {
        crate::units::lemma_spec_scaled_bounds(
            state.axis as int,
            max_speed as int,
            1000,
            max_speed as int,
        );
        vstd::arithmetic::div_mod::lemma_div_by_multiple(max_speed as int, 1000);
        assert(1000 * (max_speed as int) == (max_speed as int) * 1000) by (nonlinear_arith);
    }
    let max_delta = scale_rate(accel, dt);
    velocity.x = move_towards(velocity.x, target, max_delta);
}

/// The horizontal stage of a tick: the x coordinate and horizontal
/// velocity after control ramping and the horizontal sweep.
pub open spec fn spec_tick_h(
    map: CollisionMap,
    pos: Position,
    vel: Velocity,
    st: MovementState,
    controller: PlayerController,
    half: Collider,
    dt: int,
) -> (int, int) {
    let vx1 = spec_vx_after_control(vel.x as int, st.on_ground, st.axis as int, controller, dt);
    crate::resolver::spec_resolve_h(map, pos.x as int, pos.y as int, vx1, half, dt)
}

/// The vertical stage of a tick: the y coordinate, vertical velocity and
/// collision flags after gravity and the vertical sweep. The sweep runs
/// from the x coordinate the horizontal stage produced.
pub open spec fn spec_tick_v(
    map: CollisionMap,
    pos: Position,
    vel: Velocity,
    st: MovementState,
    controller: PlayerController,
    half: Collider,
    settings: MovementSettings,
    dt: int,
) -> (int, int, bool, bool) {
    let vy1 = spec_vy_after_gravity(vel.y as int, st.on_ground, settings, dt);
    let x2 = spec_tick_h(map, pos, vel, st, controller, half, dt).0;
    crate::resolver::spec_resolve_v(map, x2, pos.y as int, vy1, half, dt)
}

/// Whether the body is grounded once the tick's collisions settle: the
/// vertical sweep landed, or the foot probe finds support right below.
pub open spec fn spec_tick_grounded(
    map: CollisionMap,
    pos: Position,
    vel: Velocity,
    st: MovementState,
    controller: PlayerController,
    half: Collider,
    settings: MovementSettings,
    dt: int,
) -> bool {
    let x2 = spec_tick_h(map, pos, vel, st, controller, half, dt).0;
    let (y3, vy3, down, up) = spec_tick_v(map, pos, vel, st, controller, half, settings, dt);
    down || crate::resolver::spec_grounded_probe(map, x2, y3, half)
}

/// Whether this tick consumes the buffered jump: intent was pending and
/// the body ended up grounded.
pub open spec fn spec_tick_jumps(
    map: CollisionMap,
    pos: Position,
    vel: Velocity,
    st: MovementState,
    controller: PlayerController,
    half: Collider,
    settings: MovementSettings,
    dt: int,
) -> bool {
    st.wants_jump && spec_tick_grounded(map, pos, vel, st, controller, half, settings, dt)
}

/// The whole per-tick contract of the kinematic step, as a relation
/// between the body state a tick consumes and the one it produces:
/// jump intent is captured and cleared, gravity and horizontal control
/// update the velocity, the horizontal pass resolves before the vertical
/// pass (which consumes the horizontal result), grounded state combines
/// the landing flag with the foot probe, and a buffered jump fires only
/// if the body ended up grounded, immediately un-grounding it.
pub open spec fn spec_tick_rel(
    map: CollisionMap,
    pos: Position,
    vel: Velocity,
    st: MovementState,
    controller: PlayerController,
    half: Collider,
    settings: MovementSettings,
    dt: int,
    pos2: Position,
    vel2: Velocity,
    st2: MovementState,
) -> bool {
    let (x2, vx2) = spec_tick_h(map, pos, vel, st, controller, half, dt);
    let (y3, vy3, down, up) = spec_tick_v(map, pos, vel, st, controller, half, settings, dt);
    let grounded = spec_tick_grounded(map, pos, vel, st, controller, half, settings, dt);
    let jumped = spec_tick_jumps(map, pos, vel, st, controller, half, settings, dt);
    &&& pos2.x == x2
    &&& pos2.y == y3
    &&& pos2.z == pos.z
    &&& vel2.x == vx2
    &&& vel2.y == if jumped {
        controller.jump_strength as int
    } else {
        vy3
    }
    &&& st2.on_ground == (grounded && !jumped)
    &&& st2.wants_jump == false
    &&& st2.axis == st.axis
}

/// One full kinematic tick: captures and clears jump intent, integrates
/// the velocity, sweeps horizontally then vertically against the map,
/// re-derives grounded state, and fires a buffered jump if the body is
/// grounded once collisions settle.
pub fn apply_kinematics(
    position: &mut Position,
    velocity: &mut Velocity,
    state: &mut MovementState,
    controller: &PlayerController,
    half: Collider,
    settings: &MovementSettings,
    dt: i64,
    map: &CollisionMap,
)
    requires
        map.wf(),
        half.wf(),
        old(position).wf(),
        old(velocity).wf(),
        old(state).wf(),
        controller.wf(),
        settings.wf(),
        0 <= dt <= DT_LIMIT,
    ensures
        spec_tick_rel(
            *map,
            *old(position),
            *old(velocity),
            *old(state),
            *controller,
            half,
            *settings,
            dt as int,
            *final(position),
            *final(velocity),
            *final(state),
        ),
        final(velocity).wf(),
        final(state).wf(),
        old(position).x - 102_000_000 <= final(position).x <= old(position).x + 102_000_000,
        old(position).y - 102_000_000 <= final(position).y <= old(position).y + 102_000_000,
{
    let wants_jump = state.wants_jump;
    state.wants_jump = false;

    integrate_velocity(velocity, state, controller, settings, dt);

    crate::resolver::resolve_horizontal(position, velocity, half, dt, map);
    let vertical = crate::resolver::resolve_vertical(position, velocity, half, dt, map);

    let grounded = vertical.down || crate::resolver::grounded_check(position, half, map);
    state.on_ground = grounded;

    if wants_jump && state.on_ground {
        velocity.y = controller.jump_strength;
        state.on_ground = false;
    }
}

/// Writes one frame of sampled input into the movement state: the input
/// axis in per-mille, one-shot jump intent on a press, and a crisp stop
/// when idle on the ground with only residual horizontal speed left.
pub fn read_player_input(
    left_held: bool,
    right_held: bool,
    jump_pressed: bool,
    velocity: &mut Velocity,
    state: &mut MovementState,
)
    ensures
        final(state).axis == (if right_held {
            1000int
        } else {
            0int
        }) - (if left_held {
            1000int
        } else {
            0int
        }),
        final(state).wf(),
        final(state).wants_jump == (jump_pressed || old(state).wants_jump),
        final(state).on_ground == old(state).on_ground,
        final(velocity).y == old(velocity).y,
        final(velocity).x == if final(state).axis == 0 && old(state).on_ground && -1000 < old(
            velocity,
        ).x < 1000 {
            0int
        } else {
            old(velocity).x as int
        },
{
    let mut axis: i64 = 0;
    if left_held {
        axis = axis - 1000;
    }
    if right_held {
        axis = axis + 1000;
    }
    state.axis = axis;

    if jump_pressed {
        state.wants_jump = true;
    }

    if axis == 0 && state.on_ground && -1000 < velocity.x && velocity.x < 1000 {
        velocity.x = 0;
    }
}

} // verus!
