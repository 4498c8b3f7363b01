use platformer_core::map::CollisionMap;
use platformer_core::movement::Collider;
use platformer_core::movement::Position;
use platformer_core::state::toggle_pause;
use platformer_core::state::GameState;
use platformer_core::transition::check_level_triggers;
use platformer_core::transition::next_level;
use platformer_core::transition::update_transition;
use platformer_core::transition::LevelRef;
use platformer_core::transition::SpawnPositions;
use platformer_core::transition::TransitionState;

fn trigger_map() -> CollisionMap {
    // a trigger tile (raw value 2) at cell (3, 1): x in [48000, 64000),
    // y in [16000, 32000)
    let mut m = CollisionMap::new(16_000, 16_000, 0, 0);
    m.set_tile(3, 1, 2);
    m
}

fn half() -> Collider {
    Collider { half_x: 16_000, half_y: 16_000 }
}

#[test]
fn registry_maps_first_level_to_second() {
    assert_eq!(next_level(LevelRef::TestMap1), Some(LevelRef::Level2));
    assert_eq!(next_level(LevelRef::Level2), None);
}

#[test]
fn spawn_positions_per_level() {
    let sp = SpawnPositions::default();
    assert_eq!(sp.get(LevelRef::TestMap1), (340_000, 340_000));
    assert_eq!(sp.get(LevelRef::Level2), (57_000, 552_000));
}

#[test]
fn fade_timing_follows_the_ramp() {
    let mut t = TransitionState::default();
    assert_eq!(t.get_fade_alpha(), 0);
    t.start_transition(LevelRef::Level2);
    assert_eq!(t.get_fade_alpha(), 0);

    // 250 ms in: opacity one half on the way up
    let swap = update_transition(&mut t, 250);
    assert_eq!(swap, None);
    assert_eq!(t.get_fade_alpha(), 500);

    // 500 ms in: fully black, and the swap fires exactly here
    let swap = update_transition(&mut t, 250);
    assert_eq!(swap, Some(LevelRef::Level2));
    assert_eq!(t.get_fade_alpha(), 1000);

    // 750 ms in: one half on the way down, and no second swap
    let swap = update_transition(&mut t, 250);
    assert_eq!(swap, None);
    assert_eq!(t.get_fade_alpha(), 500);

    // 1000 ms in: fade over, state back to idle
    let swap = update_transition(&mut t, 250);
    assert_eq!(swap, None);
    assert_eq!(t.get_fade_alpha(), 0);
    assert!(!t.is_transitioning);
    assert_eq!(t.next_level, None);
}

#[test]
fn swap_fires_once_even_across_uneven_ticks() {
    let mut t = TransitionState::default();
    t.start_transition(LevelRef::Level2);
    let mut swaps = 0i32;
    for _ in 0i32..40 {
        if update_transition(&mut t, 33).is_some() {
            swaps += 1;
        }
    }
    assert_eq!(swaps, 1);
    assert!(!t.is_transitioning);
}

#[test]
fn update_does_nothing_when_idle() {
    let mut t = TransitionState::default();
    let swap = update_transition(&mut t, 500);
    assert_eq!(swap, None);
    assert_eq!(t, TransitionState::default());
}

#[test]
fn trigger_overlap_starts_transition() {
    let m = trigger_map();
    let mut t = TransitionState::default();
    // body center inside the trigger cell
    let position = Position { x: 56_000, y: 24_000, z: 0 };
    check_level_triggers(&position, half(), &m, &mut t, LevelRef::TestMap1);
    assert!(t.is_transitioning);
    assert_eq!(t.next_level, Some(LevelRef::Level2));
    assert_eq!(t.fade_timer, 0);
    assert_eq!(t.fade_duration, 1000);
}

#[test]
fn trigger_corner_touch_is_enough() {
    let m = trigger_map();
    let mut t = TransitionState::default();
    // only the body's top-right corner reaches into the trigger cell
    let position = Position { x: 33_000, y: 1_000, z: 0 };
    check_level_triggers(&position, half(), &m, &mut t, LevelRef::TestMap1);
    assert!(t.is_transitioning);
}

#[test]
fn no_trigger_no_transition() {
    let m = trigger_map();
    let mut t = TransitionState::default();
    let position = Position { x: 200_000, y: 200_000, z: 0 };
    check_level_triggers(&position, half(), &m, &mut t, LevelRef::TestMap1);
    assert!(!t.is_transitioning);
    assert_eq!(t.next_level, None);
}

#[test]
fn unmapped_level_makes_triggers_no_ops() {
    let m = trigger_map();
    let mut t = TransitionState::default();
    let position = Position { x: 56_000, y: 24_000, z: 0 };
    check_level_triggers(&position, half(), &m, &mut t, LevelRef::Level2);
    assert!(!t.is_transitioning);
    assert_eq!(t.next_level, None);
}

#[test]
fn active_transition_ignores_new_overlaps() {
    let m = trigger_map();
    let mut t = TransitionState::default();
    t.start_transition(LevelRef::Level2);
    update_transition(&mut t, 100);
    let snapshot = t;
    let position = Position { x: 56_000, y: 24_000, z: 0 };
    check_level_triggers(&position, half(), &m, &mut t, LevelRef::TestMap1);
    // the running fade is untouched: no restart, no overwritten target
    assert_eq!(t, snapshot);
    assert_eq!(t.fade_timer, 100);
    assert_eq!(t.next_level, Some(LevelRef::Level2));
}

#[test]
fn reset_returns_to_idle() {
    let mut t = TransitionState::default();
    t.start_transition(LevelRef::Level2);
    update_transition(&mut t, 300);
    t.reset();
    assert!(!t.is_transitioning);
    assert_eq!(t.fade_timer, 0);
    assert_eq!(t.next_level, None);
    assert_eq!(t.get_fade_alpha(), 0);
}

#[test]
fn pause_toggles_only_from_play_states() {
    assert_eq!(toggle_pause(true, GameState::Playing), GameState::Paused);
    assert_eq!(toggle_pause(true, GameState::Paused), GameState::Playing);
    assert_eq!(toggle_pause(true, GameState::Loading), GameState::Loading);
    assert_eq!(toggle_pause(false, GameState::Playing), GameState::Playing);
    assert_eq!(toggle_pause(false, GameState::Paused), GameState::Paused);
    assert_eq!(GameState::default(), GameState::Loading);
}
