use platformer_core::map::CollisionMap;
use platformer_core::movement::Collider;
use platformer_core::movement::Position;
use platformer_core::movement::Velocity;
use platformer_core::resolver::grounded_check;
use platformer_core::resolver::resolve_horizontal;
use platformer_core::resolver::resolve_vertical;
use platformer_core::units::floor_div;
use platformer_core::units::scale_rate;

fn half() -> Collider {
    Collider { half_x: 16_000, half_y: 16_000 }
}

fn map_with(tiles: &[(i32, i32)]) -> CollisionMap {
    let mut m = CollisionMap::new(16_000, 16_000, 0, 0);
    for &(x, y) in tiles {
        m.set_tile(x, y, 1);
    }
    m
}

#[test]
fn floor_div_rounds_toward_negative_infinity() {
    assert_eq!(floor_div(31, 16), 1);
    assert_eq!(floor_div(32, 16), 2);
    assert_eq!(floor_div(-1, 16), -1);
    assert_eq!(floor_div(-16, 16), -1);
    assert_eq!(floor_div(-17, 16), -2);
    assert_eq!(floor_div(0, 16), 0);
}

#[test]
fn scale_rate_is_exact_and_sign_symmetric() {
    assert_eq!(scale_rate(150_000, 100), 15_000);
    assert_eq!(scale_rate(-150_000, 100), -15_000);
    assert_eq!(scale_rate(999, 1), 0);
    assert_eq!(scale_rate(-999, 1), 0);
    assert_eq!(scale_rate(0, 500), 0);
    assert_eq!(scale_rate(1_000_000, 0), 0);
}

#[test]
fn horizontal_commit_when_path_is_clear() {
    let m = map_with(&[]);
    let mut position = Position { x: 15_000, y: 8_000, z: 0 };
    let mut velocity = Velocity { x: 150_000, y: -7 };
    resolve_horizontal(&mut position, &mut velocity, half(), 100, &m);
    assert_eq!(position.x, 30_000);
    assert_eq!(position.y, 8_000);
    assert_eq!(velocity.x, 150_000);
    assert_eq!(velocity.y, -7);
}

#[test]
fn horizontal_clamp_against_wall_on_the_right() {
    // wall fills column 2 (x in [32000, 48000))
    let m = map_with(&[(2, -1), (2, 0), (2, 1)]);
    let mut position = Position { x: 15_000, y: 8_000, z: 0 };
    let mut velocity = Velocity { x: 150_000, y: 0 };
    // displaced right edge = 15000 + 15000 + 16000 = 46000, inside column 2
    resolve_horizontal(&mut position, &mut velocity, half(), 100, &m);
    assert_eq!(position.x, 32_000 - 16_000 - 1);
    assert_eq!(velocity.x, 0);
}

#[test]
fn horizontal_clamp_against_wall_on_the_left() {
    // wall fills column -1 (x in [-16000, 0))
    let m = map_with(&[(-1, -1), (-1, 0), (-1, 1)]);
    let mut position = Position { x: 17_000, y: 8_000, z: 0 };
    let mut velocity = Velocity { x: -150_000, y: 0 };
    // displaced left edge = 17000 - 15000 - 16000 = -14000, inside column -1
    resolve_horizontal(&mut position, &mut velocity, half(), 100, &m);
    assert_eq!(position.x, 0 + 16_000 + 1);
    assert_eq!(velocity.x, 0);
}

#[test]
fn horizontal_pass_ignores_rows_out_of_reach() {
    // a wall piece far above the body's extent
    let m = map_with(&[(2, 5)]);
    let mut position = Position { x: 15_000, y: 8_000, z: 0 };
    let mut velocity = Velocity { x: 150_000, y: 0 };
    resolve_horizontal(&mut position, &mut velocity, half(), 100, &m);
    assert_eq!(position.x, 30_000);
    assert_eq!(velocity.x, 150_000);
}

#[test]
fn vertical_landing_sets_down_flag() {
    let m = map_with(&[(0, 0), (1, 0), (2, 0)]);
    let mut position = Position { x: 24_000, y: 33_000, z: 0 };
    let mut velocity = Velocity { x: 3, y: -150_000 };
    // displaced bottom edge = 33000 - 15000 - 16000 = 2000, inside row 0
    let c = resolve_vertical(&mut position, &mut velocity, half(), 100, &m);
    assert!(c.down);
    assert!(!c.up);
    assert_eq!(position.y, 16_000 + 16_000 + 1);
    assert_eq!(velocity.y, 0);
    assert_eq!(velocity.x, 3);
}

#[test]
fn vertical_head_bump_sets_up_flag() {
    // ceiling fills row 4 (y in [64000, 80000))
    let m = map_with(&[(0, 4), (1, 4), (2, 4)]);
    let mut position = Position { x: 24_000, y: 47_000, z: 0 };
    let mut velocity = Velocity { x: 0, y: 150_000 };
    // displaced top edge = 47000 + 15000 + 16000 = 78000, inside row 4
    let c = resolve_vertical(&mut position, &mut velocity, half(), 100, &m);
    assert!(c.up);
    assert!(!c.down);
    assert_eq!(position.y, 64_000 - 16_000 - 1);
    assert_eq!(velocity.y, 0);
}

#[test]
fn vertical_zero_velocity_reports_no_collision() {
    let m = map_with(&[(1, 0)]);
    let mut position = Position { x: 24_000, y: 32_001, z: 0 };
    let mut velocity = Velocity { x: 0, y: 0 };
    let c = resolve_vertical(&mut position, &mut velocity, half(), 100, &m);
    assert!(!c.down);
    assert!(!c.up);
    assert_eq!(position.y, 32_001);
}

#[test]
fn foot_probe_sees_ground_the_sweep_misses() {
    let m = map_with(&[(1, 0), (2, 0)]);
    // resting one skin above the floor: zero velocity, so the sweep
    // reports nothing, but the probe finds the floor
    let position = Position { x: 24_000, y: 32_001, z: 0 };
    assert!(grounded_check(&position, half(), &m));
    // hovering well above the floor
    let position = Position { x: 24_000, y: 40_000, z: 0 };
    assert!(!grounded_check(&position, half(), &m));
    // standing over a gap
    let position = Position { x: 90_000, y: 32_001, z: 0 };
    assert!(!grounded_check(&position, half(), &m));
}

#[test]
fn corner_resolves_horizontal_before_vertical() {
    // a wall in column 3 and a floor in row 0; the body flies
    // diagonally down-right into the corner between them
    let m = map_with(&[(3, 0), (3, 1), (3, 2), (0, 0), (1, 0), (2, 0)]);
    let mut position = Position { x: 24_000, y: 34_000, z: 0 };
    let mut velocity = Velocity { x: 150_000, y: -150_000 };
    // horizontal first: displaced right edge = 24000 + 15000 + 16000 =
    // 55000 lands in column 3, so x clamps to the wall
    resolve_horizontal(&mut position, &mut velocity, half(), 100, &m);
    assert_eq!(position.x, 48_000 - 16_000 - 1);
    assert_eq!(velocity.x, 0);
    // vertical second, from the clamped x: the body lands on the floor
    let c = resolve_vertical(&mut position, &mut velocity, half(), 100, &m);
    assert!(c.down);
    assert_eq!(position.y, 32_001);
    // the resting position is the horizontal-then-vertical one
    assert_eq!(
        (position.x, position.y),
        (31_999, 32_001),
    );
}

#[test]
fn no_tunneling_below_one_tile_per_tick() {
    // wall fills column 5 (x in [80000, 96000)); the body starts just
    // left of it and moves right at 159 units/s for 100 ms ticks, i.e.
    // 15.9 units per tick, just under the 16-unit tile size
    let m = map_with(&[(5, -1), (5, 0), (5, 1)]);
    let mut position = Position { x: 40_000, y: 8_000, z: 0 };
    let mut velocity = Velocity { x: 159_000, y: 0 };
    for _ in 0i32..8 {
        resolve_horizontal(&mut position, &mut velocity, half(), 100, &m);
        // the body's right edge never enters the wall
        assert!(position.x + 16_000 <= 80_000);
    }
    // and it ends pressed one skin short of the wall
    assert_eq!(position.x, 80_000 - 16_000 - 1);
    assert_eq!(velocity.x, 0);
}
