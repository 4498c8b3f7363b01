//! Level-triggered transitions: polling the player's overlap with trigger
//! tiles, a timed fade whose opacity is a pure function of elapsed time,
//! and the swap request fired exactly once at the fade's midpoint.

use vstd::prelude::*;

use crate::map::CollisionMap;
use crate::movement::Collider;
use crate::movement::Position;
use crate::resolver::tile_col;
use crate::resolver::tile_row;
use crate::resolver::COORD_LIMIT;
use crate::units::floor_div;
use crate::units::DT_LIMIT;

verus! {

/// The fixed total duration of a fade, in milliseconds (half out, half
/// in).
pub const FADE_DURATION: i64 = 1000;

/// Half of the fade: the moment the level swap happens, in milliseconds.
pub const FADE_MIDPOINT: i64 = 500;

/// A level the game can be in. The registry below maps each level to its
/// successor, if it has one.
#[derive(Clone, Copy, PartialEq, Eq, Structural, Debug)]
pub enum LevelRef {
    TestMap1,
    Level2,
}

/// The static current-to-next level mapping consulted by the trigger
/// check.
pub open spec fn spec_next_level(current: LevelRef) -> Option<LevelRef> {
    match current {
        LevelRef::TestMap1 => Some(LevelRef::Level2),
        LevelRef::Level2 => None,
    }
}

/// Looks up the level that a trigger in `current` leads to; `None` for an
/// unmapped level, in which case a trigger is a no-op.
pub fn next_level(current: LevelRef) -> (r: Option<LevelRef>)
    ensures
        r == spec_next_level(current),
{
    match current {
        LevelRef::TestMap1 => Some(LevelRef::Level2),
        LevelRef::Level2 => None,
    }
}

/// The spawn point used when entering a level, in subunits relative to
/// the level origin.
pub open spec fn spec_spawn_position(level: LevelRef) -> (i64, i64) {
    match level {
        LevelRef::TestMap1 => (340_000i64, 340_000i64),
        LevelRef::Level2 => (57_000i64, 552_000i64),
    }
}

/// Stores the spawn position for each level.
#[derive(Clone, Copy, PartialEq, Eq, Structural, Debug)]
pub struct SpawnPositions {
}

impl SpawnPositions {
    /// The spawn point for a level, in subunits relative to the level
    /// origin.
    pub fn get(&self, level: LevelRef) -> (p: (i64, i64))
        ensures
            p == spec_spawn_position(level),
    {
        match level {
            LevelRef::TestMap1 => (340_000, 340_000),
            LevelRef::Level2 => (57_000, 552_000),
        }
    }
}

impl Default for SpawnPositions {
    /// The registry is static; there is nothing to configure.
    fn default() -> (s: Self)
        ensures
            s == (SpawnPositions {  }),
    {
        SpawnPositions {  }
    }
}

/// Tracks the current transition state and timing. `fade_timer` is the
/// elapsed time of the running fade in milliseconds.
#[derive(Clone, Copy, PartialEq, Eq, Structural, Debug)]
pub struct TransitionState {
    pub is_transitioning: bool,
    pub fade_timer: i64,
    pub fade_duration: i64,
    pub next_level: Option<LevelRef>,
}

impl TransitionState {
    /// While a transition runs, its duration is the fixed fade duration,
    /// the timer has not yet reached it, and the pending level is present
    /// exactly until the midpoint consumes it. At rest there is no timer
    /// and no pending level.
    pub open spec fn wf(self) -> bool {
        &&& self.is_transitioning ==> {
            &&& self.fade_duration == FADE_DURATION
            &&& 0 <= self.fade_timer < FADE_DURATION
            &&& self.next_level is Some <==> self.fade_timer < FADE_MIDPOINT
        }
        &&& !self.is_transitioning ==> {
            &&& self.fade_timer == 0
            &&& self.next_level is None
        }
    }

    /// Begins a fade toward the given level: timer restarted, the fixed
    /// duration installed, the target pending.
    pub fn start_transition(&mut self, level: LevelRef)
        ensures
            *final(self) == (TransitionState {
                is_transitioning: true,
                fade_timer: 0i64,
                fade_duration: FADE_DURATION,
                next_level: Some(level),
            }),
            final(self).wf(),
    {
        self.is_transitioning = true;
        self.fade_timer = 0;
        self.fade_duration = FADE_DURATION;
        self.next_level = Some(level);
    }

    /// Returns to the idle state. The installed duration is retained; it
    /// is rewritten whenever the next transition starts.
    pub fn reset(&mut self)
        ensures
            final(self).is_transitioning == false,
            final(self).fade_timer == 0,
            final(self).next_level is None,
            final(self).fade_duration == old(self).fade_duration,
            final(self).wf(),
    {
        self.is_transitioning = false;
        self.fade_timer = 0;
        self.next_level = None;
    }

    /// The overlay opacity as a pure function of elapsed time, in
    /// per-mille: a linear ramp up over the first half of the fade and
    /// back down over the second half; zero when no transition runs.
    pub open spec fn spec_fade_alpha(self) -> int {
        if !self.is_transitioning {
            0
        } else if self.fade_timer < FADE_MIDPOINT {
            2 * self.fade_timer
        } else {
            2 * (FADE_DURATION - self.fade_timer)
        }
    }

    /// The current fade opacity in per-mille (0 = transparent, 1000 =
    /// fully black).
    pub fn get_fade_alpha(&self) -> (a: i64)
        requires
            self.wf(),
        ensures
            a == self.spec_fade_alpha(),
            0 <= a <= 1000,
    {
        if !self.is_transitioning {
            return 0;
        }
        if self.fade_timer < FADE_MIDPOINT {
            2 * self.fade_timer
        } else {
            2 * (FADE_DURATION - self.fade_timer)
        }
    }
}

impl Default for TransitionState {
    /// No transition in flight.
    fn default() -> (s: Self)
        ensures
            s == (TransitionState {
                is_transitioning: false,
                fade_timer: 0i64,
                fade_duration: 0i64,
                next_level: None::<LevelRef>,
            }),
            s.wf(),
    {
        TransitionState {
            is_transitioning: false,
            fade_timer: 0,
            fade_duration: 0,
            next_level: None,
        }
    }
}

/// The raw tile value at (possibly ghost, but in-range) grid coordinates.
pub open spec fn value_at(map: CollisionMap, tx: int, ty: int) -> Option<i32> {
    map.spec_tile_value(tx as i32, ty as i32)
}

/// Whether the tile under a world-space point is a trigger (raw value 2).
pub open spec fn trigger_at(map: CollisionMap, wx: int, wy: int) -> bool {
    value_at(map, tile_col(map, wx), tile_row(map, wy)) == Some(2i32)
}

/// Whether any of the nine canonical sample points of the player's box —
/// center, the four corners, and the four edge midpoints — rests on a
/// trigger tile.
pub open spec fn spec_touching_trigger(map: CollisionMap, x: int, y: int, half: Collider) -> bool {
    let hx = half.half_x as int;
    let hy = half.half_y as int;
    ||| trigger_at(map, x, y)
    ||| trigger_at(map, x - hx, y - hy)
    ||| trigger_at(map, x + hx, y - hy)
    ||| trigger_at(map, x - hx, y + hy)
    ||| trigger_at(map, x + hx, y + hy)
    ||| trigger_at(map, x, y - hy)
    ||| trigger_at(map, x, y + hy)
    ||| trigger_at(map, x - hx, y)
    ||| trigger_at(map, x + hx, y)
}

/// Reads the raw tile value under one world-space point.
fn tile_value_at_point(map: &CollisionMap, wx: i64, wy: i64) -> (v: Option<i32>)
    requires
        map.wf(),
        -COORD_LIMIT - 200_000_000 <= wx <= COORD_LIMIT + 200_000_000,
        -COORD_LIMIT - 200_000_000 <= wy <= COORD_LIMIT + 200_000_000,
    ensures
        v == value_at(*map, tile_col(*map, wx as int), tile_row(*map, wy as int)),
{
    let tx = floor_div(wx - map.origin_x, map.tile_size_x);
    let ty = floor_div(wy - map.origin_y, map.tile_size_y);
    proof {
        crate::resolver::lemma_div_shrinks(wx - map.origin_x, map.tile_size_x as int);
        crate::resolver::lemma_div_shrinks(wy - map.origin_y, map.tile_size_y as int);
    }
    map.get_tile_value(tx as i32, ty as i32)
}

/// Polls the player's box against the map and starts a transition when a
/// trigger tile is touched. While a transition is active the sampling is
/// skipped entirely, so an overlap can never start a second transition or
/// overwrite the pending level. A trigger in a level with no successor is
/// a no-op.
pub fn check_level_triggers(
    position: &Position,
    half: Collider,
    map: &CollisionMap,
    transition: &mut TransitionState,
    current: LevelRef,
)
    requires
        map.wf(),
        old(transition).wf(),
        -COORD_LIMIT <= position.x <= COORD_LIMIT,
        -COORD_LIMIT <= position.y <= COORD_LIMIT,
        0 <= half.half_x <= crate::units::HALF_LIMIT,
        0 <= half.half_y <= crate::units::HALF_LIMIT,
    ensures
        final(transition).wf(),
        old(transition).is_transitioning ==> *final(transition) == *old(transition),
        !old(transition).is_transitioning ==> *final(transition) == if spec_touching_trigger(
            *map,
            position.x as int,
            position.y as int,
            half,
        ) && spec_next_level(current) is Some {
            TransitionState {
                is_transitioning: true,
                fade_timer: 0i64,
                fade_duration: FADE_DURATION,
                next_level: spec_next_level(current),
            }
        } else {
            *old(transition)
        },
{
    if transition.is_transitioning {
        return ;
    }

    let x = position.x;
    let y = position.y;
    let hx = half.half_x;
    let hy = half.half_y;

    let mut touched = false;
    if tile_value_at_point(map, x, y) == Some(2i32) {
        touched = true;
    }
    if tile_value_at_point(map, x - hx, y - hy) == Some(2i32) {
        touched = true;
    }
    if tile_value_at_point(map, x + hx, y - hy) == Some(2i32) {
        touched = true;
    }
    if tile_value_at_point(map, x - hx, y + hy) == Some(2i32) {
        touched = true;
    }
    if tile_value_at_point(map, x + hx, y + hy) == Some(2i32) {
        touched = true;
    }
    if tile_value_at_point(map, x, y - hy) == Some(2i32) {
        touched = true;
    }
    if tile_value_at_point(map, x, y + hy) == Some(2i32) {
        touched = true;
    }
    if tile_value_at_point(map, x - hx, y) == Some(2i32) {
        touched = true;
    }
    if tile_value_at_point(map, x + hx, y) == Some(2i32) {
        touched = true;
    }

    if !touched {
        return ;
    }

    match next_level(current) {
        Some(level) => {
            transition.start_transition(level);
        },
        None => {},
    }
}

/// Whether advancing a running fade by `dt` milliseconds crosses the
/// midpoint of the fade this tick.
pub open spec fn spec_update_crosses(s: TransitionState, dt: int) -> bool {
    s.is_transitioning && s.fade_timer + dt >= FADE_MIDPOINT && s.fade_timer < FADE_MIDPOINT
}

/// The swap request one timer update produces: the pending level, exactly
/// when the update crosses the midpoint.
pub open spec fn spec_update_swap(s: TransitionState, dt: int) -> Option<LevelRef> {
    if spec_update_crosses(s, dt) {
        s.next_level
    } else {
        None
    }
}

/// The transition state one timer update produces: the timer advanced,
/// the pending level consumed at the midpoint, and the state reset to
/// idle once the full duration has elapsed.
pub open spec fn spec_update_state(s: TransitionState, dt: int) -> TransitionState {
    if !s.is_transitioning {
        s
    } else {
        let t = s.fade_timer + dt;
        if t >= FADE_DURATION {
            TransitionState {
                is_transitioning: false,
                fade_timer: 0i64,
                fade_duration: FADE_DURATION,
                next_level: None,
            }
        } else {
            TransitionState {
                is_transitioning: true,
                fade_timer: t as i64,
                fade_duration: FADE_DURATION,
                next_level: if spec_update_crosses(s, dt) {
                    None
                } else {
                    s.next_level
                },
            }
        }
    }
}

/// Advances the fade timer by `dt` milliseconds. Returns the level to
/// load now, exactly when the timer crosses the midpoint of the fade (the
/// screen is fully black there); the pending level is consumed by that
/// request. Once the full duration has elapsed, the state resets to idle.
pub fn update_transition(transition: &mut TransitionState, dt: i64) -> (swap: Option<LevelRef>)
    requires
        old(transition).wf(),
        0 <= dt <= DT_LIMIT,
    ensures
        final(transition).wf(),
        swap == spec_update_swap(*old(transition), dt as int),
        *final(transition) == spec_update_state(*old(transition), dt as int),
{
    if !transition.is_transitioning {
        return None;
    }

    transition.fade_timer = transition.fade_timer + dt;

    let mut swap: Option<LevelRef> = None;
    if transition.fade_timer >= FADE_MIDPOINT && transition.fade_timer - dt < FADE_MIDPOINT {
        swap = transition.next_level;
        transition.next_level = None;
    }

    if transition.fade_timer >= transition.fade_duration {
        transition.reset();
    }

    swap
}

/// Past the midpoint of a fade, a timer update can never produce a swap
/// request, and the state stays past the midpoint until it resets to
/// idle.
pub proof fn lemma_no_swap_past_midpoint(s: TransitionState, dt: int)
    requires
        s.wf(),
        s.is_transitioning,
        s.fade_timer >= FADE_MIDPOINT,
        0 <= dt,
    ensures
        spec_update_swap(s, dt) is None,
        spec_update_state(s, dt).is_transitioning ==> spec_update_state(s, dt).fade_timer
            >= FADE_MIDPOINT,
{
}

/// The swap request fires at most once per fade: after an update that
/// produced one, no later update of the same transition produces
/// another.
pub proof fn lemma_swap_fires_once(s: TransitionState, dt1: int, dt2: int)
    requires
        s.wf(),
        0 <= dt1,
        0 <= dt2,
        spec_update_swap(s, dt1) is Some,
    ensures
        spec_update_swap(spec_update_state(s, dt1), dt2) is None,
{
    let s1 = spec_update_state(s, dt1);
    if s1.is_transitioning {
        assert(s1.fade_timer >= FADE_MIDPOINT);
    }
}

} // verus!
