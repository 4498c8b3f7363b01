use platformer_core::map::CollisionMap;
use platformer_core::movement::apply_kinematics;
use platformer_core::movement::integrate_velocity;
use platformer_core::movement::move_towards;
use platformer_core::movement::read_player_input;
use platformer_core::movement::Collider;
use platformer_core::movement::MovementSettings;
use platformer_core::movement::MovementState;
use platformer_core::movement::PlayerController;
use platformer_core::movement::Position;
use platformer_core::movement::Velocity;

fn ground_map() -> CollisionMap {
    // a floor along row 0: tiles span y in [0, 16000)
    let mut m = CollisionMap::new(16_000, 16_000, 0, 0);
    for x in -4i32..20 {
        m.set_tile(x, 0, 1);
    }
    m
}

fn resting_body() -> (Position, Velocity, MovementState) {
    // feet exactly one skin above the floor's top face at y = 16000
    let position = Position { x: 40_000, y: 32_001, z: 200_000 };
    let velocity = Velocity { x: 0, y: 0 };
    let state = MovementState { on_ground: true, wants_jump: false, axis: 0 };
    (position, velocity, state)
}

#[test]
fn move_towards_reaches_or_ramps() {
    assert_eq!(move_towards(0, 100, 30), 30);
    assert_eq!(move_towards(90, 100, 30), 100);
    assert_eq!(move_towards(0, -100, 30), -30);
    assert_eq!(move_towards(-90, -100, 30), -100);
    assert_eq!(move_towards(50, 50, 0), 50);
    assert_eq!(move_towards(50, 20, 0), 50);
}

#[test]
fn defaults_match_tuning() {
    let s = MovementSettings::default();
    assert_eq!(s.gravity, 1_150_000);
    assert_eq!(s.terminal_velocity, -1_800_000);
    let c = PlayerController::default();
    assert_eq!(c.ground_accel, 1_600_000);
    assert_eq!(c.air_accel, 1_200_000);
    assert_eq!(c.ground_max_speed, 325_000);
    assert_eq!(c.air_max_speed, 275_000);
    assert_eq!(c.jump_strength, 480_000);
    let st = MovementState::default();
    assert!(st.on_ground);
    assert!(!st.wants_jump);
    assert_eq!(st.axis, 0);
}

#[test]
fn collider_from_size_halves() {
    let c = Collider::from_size(32_000, 28_000);
    assert_eq!(c.half_x, 16_000);
    assert_eq!(c.half_y, 14_000);
}

#[test]
fn gravity_pulls_airborne_body() {
    let mut velocity = Velocity { x: 0, y: 0 };
    let state = MovementState { on_ground: false, wants_jump: false, axis: 0 };
    let controller = PlayerController::default();
    let settings = MovementSettings::default();
    // 100 ms of gravity at 1150 units/s^2 is 115 units/s
    integrate_velocity(&mut velocity, &state, &controller, &settings, 100);
    assert_eq!(velocity.y, -115_000);
}

#[test]
fn gravity_clamps_to_terminal_velocity() {
    let mut velocity = Velocity { x: 0, y: -1_750_000 };
    let state = MovementState { on_ground: false, wants_jump: false, axis: 0 };
    let controller = PlayerController::default();
    let settings = MovementSettings::default();
    integrate_velocity(&mut velocity, &state, &controller, &settings, 100);
    assert_eq!(velocity.y, -1_800_000);
}

#[test]
fn grounded_body_sheds_residual_fall() {
    let mut velocity = Velocity { x: 0, y: -50_000 };
    let state = MovementState { on_ground: true, wants_jump: false, axis: 0 };
    let controller = PlayerController::default();
    let settings = MovementSettings::default();
    integrate_velocity(&mut velocity, &state, &controller, &settings, 100);
    assert_eq!(velocity.y, 0);
}

#[test]
fn control_ramps_toward_target_speed() {
    let mut velocity = Velocity { x: 0, y: 0 };
    let state = MovementState { on_ground: true, wants_jump: false, axis: 1000 };
    let controller = PlayerController::default();
    let settings = MovementSettings::default();
    // 100 ms at 1600 units/s^2 moves the speed by 160 units/s
    integrate_velocity(&mut velocity, &state, &controller, &settings, 100);
    assert_eq!(velocity.x, 160_000);
    // a second long tick reaches the grounded top speed of 325 units/s
    integrate_velocity(&mut velocity, &state, &controller, &settings, 1000);
    assert_eq!(velocity.x, 325_000);
}

#[test]
fn air_control_is_weaker() {
    let mut velocity = Velocity { x: 0, y: 0 };
    let state = MovementState { on_ground: false, wants_jump: false, axis: -1000 };
    let controller = PlayerController::default();
    let settings = MovementSettings::default();
    integrate_velocity(&mut velocity, &state, &controller, &settings, 100);
    // gravity applies too, but the horizontal ramp uses the air rates
    assert_eq!(velocity.x, -120_000);
    integrate_velocity(&mut velocity, &state, &controller, &settings, 1000);
    assert_eq!(velocity.x, -275_000);
}

#[test]
fn input_sets_axis_and_latches_jump() {
    let mut velocity = Velocity { x: 0, y: 0 };
    let mut state = MovementState::default();
    read_player_input(true, false, false, &mut velocity, &mut state);
    assert_eq!(state.axis, -1000);
    assert!(!state.wants_jump);
    read_player_input(false, true, true, &mut velocity, &mut state);
    assert_eq!(state.axis, 1000);
    assert!(state.wants_jump);
    // the latch survives frames without a press
    read_player_input(false, false, false, &mut velocity, &mut state);
    assert!(state.wants_jump);
    assert_eq!(state.axis, 0);
}

#[test]
fn input_zeroes_residual_speed_when_idle_on_ground() {
    let mut velocity = Velocity { x: 800, y: 0 };
    let mut state = MovementState::default();
    read_player_input(false, false, false, &mut velocity, &mut state);
    assert_eq!(velocity.x, 0);
    // a large speed is kept
    let mut velocity = Velocity { x: 5_000, y: 0 };
    let mut state = MovementState::default();
    read_player_input(false, false, false, &mut velocity, &mut state);
    assert_eq!(velocity.x, 5_000);
    // and so is any speed while airborne
    let mut velocity = Velocity { x: 800, y: 0 };
    let mut state = MovementState { on_ground: false, wants_jump: false, axis: 0 };
    read_player_input(false, false, false, &mut velocity, &mut state);
    assert_eq!(velocity.x, 800);
}

#[test]
fn resting_body_is_unchanged_by_zero_dt_ticks() {
    let map = ground_map();
    let (mut position, mut velocity, mut state) = resting_body();
    let controller = PlayerController::default();
    let settings = MovementSettings::default();
    let half = Collider { half_x: 16_000, half_y: 16_000 };
    for _ in 0i32..5 {
        apply_kinematics(
            &mut position,
            &mut velocity,
            &mut state,
            &controller,
            half,
            &settings,
            0,
            &map,
        );
        assert_eq!(position, Position { x: 40_000, y: 32_001, z: 200_000 });
        assert_eq!(velocity, Velocity { x: 0, y: 0 });
        assert!(state.on_ground);
        assert!(!state.wants_jump);
    }
}

#[test]
fn falling_body_lands_one_skin_above_the_floor() {
    let map = ground_map();
    let mut position = Position { x: 40_000, y: 48_000, z: 0 };
    let mut velocity = Velocity { x: 0, y: -100_000 };
    let mut state = MovementState { on_ground: false, wants_jump: false, axis: 0 };
    let controller = PlayerController::default();
    let settings = MovementSettings::default();
    let half = Collider { half_x: 16_000, half_y: 16_000 };
    // several 100 ms ticks: the body falls and settles exactly one skin
    // above the floor's top face
    for _ in 0i32..6 {
        apply_kinematics(
            &mut position,
            &mut velocity,
            &mut state,
            &controller,
            half,
            &settings,
            100,
            &map,
        );
    }
    assert_eq!(position.y, 32_001);
    assert_eq!(velocity.y, 0);
    assert!(state.on_ground);
}

#[test]
fn jump_buffered_in_air_fires_once_on_landing() {
    let map = ground_map();
    // ten units above rest, falling; jump was pressed while airborne
    let mut position = Position { x: 40_000, y: 42_001, z: 0 };
    let mut velocity = Velocity { x: 0, y: -30_000 };
    let mut state = MovementState { on_ground: false, wants_jump: true, axis: 0 };
    let controller = PlayerController::default();
    let settings = MovementSettings::default();
    let half = Collider { half_x: 16_000, half_y: 16_000 };

    // the tick lands (the sweep is blocked below) and the buffered jump
    // fires exactly once
    apply_kinematics(
        &mut position,
        &mut velocity,
        &mut state,
        &controller,
        half,
        &settings,
        100,
        &map,
    );
    assert_eq!(position.y, 32_001);
    assert_eq!(velocity.y, controller.jump_strength);
    assert!(!state.on_ground);
    assert!(!state.wants_jump);

    // the next tick applies no second impulse: gravity takes over
    let vy_before = velocity.y;
    apply_kinematics(
        &mut position,
        &mut velocity,
        &mut state,
        &controller,
        half,
        &settings,
        100,
        &map,
    );
    assert_eq!(velocity.y, vy_before - 115_000);
    assert!(!state.wants_jump);
}

#[test]
fn grounded_jump_is_honored_same_tick() {
    let map = ground_map();
    let (mut position, mut velocity, mut state) = resting_body();
    state.wants_jump = true;
    let controller = PlayerController::default();
    let settings = MovementSettings::default();
    let half = Collider { half_x: 16_000, half_y: 16_000 };
    apply_kinematics(
        &mut position,
        &mut velocity,
        &mut state,
        &controller,
        half,
        &settings,
        0,
        &map,
    );
    assert_eq!(velocity.y, 480_000);
    assert!(!state.on_ground);
    assert!(!state.wants_jump);
}
