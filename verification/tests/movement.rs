use bevy::input::keyboard::KeyCode;
use bevy::input::ButtonInput;
use fps_controller::movement::{
    movement_step, player_movement, wish_direction, LinearVelocity, MovementKeys, MovementSpeed,
    DAMPING_PERMILLE, JUMP_IMPULSE,
};
use fps_controller::vector::{Vec3, UNIT};

const FORWARD: Vec3 = Vec3 { x: 0, y: 0, z: -UNIT };
const RIGHT: Vec3 = Vec3 { x: UNIT, y: 0, z: 0 };

fn keys(held: &str) -> MovementKeys {
    MovementKeys {
        forward: held.contains('w'),
        back: held.contains('s'),
        left: held.contains('a'),
        right: held.contains('d'),
        jump: held.contains(' '),
    }
}

fn step(held: &str, forward: Vec3, right: Vec3, speed: i32, from: (i32, i32, i32)) -> (i32, i32, i32) {
    let mut velocity = LinearVelocity(Vec3::new(from.0, from.1, from.2));
    movement_step(&keys(held), forward, right, &MovementSpeed(speed), &mut velocity);
    (velocity.0.x, velocity.0.y, velocity.0.z)
}

#[test]
fn constants() {
    assert_eq!(JUMP_IMPULSE, 3_300);
    assert_eq!(DAMPING_PERMILLE, 200);
}

#[test]
fn forward_moves_at_full_speed_along_the_facing() {
    assert_eq!(step("w", FORWARD, RIGHT, 5_000, (0, 0, 0)), (0, 0, -5_000));
    assert_eq!(step("w", FORWARD, RIGHT, 5_000, (123, 45, 678)), (0, 45, -5_000));
}

#[test]
fn back_left_and_right() {
    assert_eq!(step("s", FORWARD, RIGHT, 5_000, (1, 2, 3)), (0, 2, 5_000));
    assert_eq!(step("a", FORWARD, RIGHT, 5_000, (1, 2, 3)), (-5_000, 2, 0));
    assert_eq!(step("d", FORWARD, RIGHT, 5_000, (1, 2, 3)), (5_000, 2, 0));
}

#[test]
fn diagonals_are_normalized() {
    assert_eq!(step("wd", FORWARD, RIGHT, 5_000, (0, 0, 0)), (3_535, 0, -3_535));
    assert_eq!(step("wa", FORWARD, RIGHT, 5_000, (0, 0, 0)), (-3_535, 0, -3_535));
    assert_eq!(step("sd", FORWARD, RIGHT, 5_000, (0, 0, 0)), (3_535, 0, 3_535));
}

#[test]
fn facing_need_not_be_unit_length() {
    let forward = Vec3::new(0, 0, -3);
    let right = Vec3::new(20, 0, 0);
    assert_eq!(step("wd", forward, right, 5_000, (0, 0, 0)), (3_535, 0, -3_535));
}

#[test]
fn turned_facing() {
    let forward = Vec3::new(-500_000, 0, -866_025);
    let right = Vec3::new(866_025, 0, -500_000);
    assert_eq!(step("w", forward, right, 5_000, (0, 0, 0)), (-2_500, 0, -4_330));
    assert_eq!(step("wd", forward, right, 5_000, (0, 0, 0)), (1_294, 0, -4_829));
}

#[test]
fn wish_direction_weighs_the_axes() {
    let forward = Vec3::new(-500_000, 0, -866_025);
    let right = Vec3::new(866_025, 0, -500_000);
    assert_eq!(wish_direction(&keys(""), forward, right), Vec3::zero());
    assert_eq!(wish_direction(&keys("w"), forward, right), Vec3::new(-500_000, 0, -866_025));
    assert_eq!(wish_direction(&keys("s"), forward, right), Vec3::new(500_000, 0, 866_025));
    assert_eq!(wish_direction(&keys("wd"), forward, right), Vec3::new(366_025, 0, -1_366_025));
    assert_eq!(wish_direction(&keys("wsad"), forward, right), Vec3::zero());
    assert_eq!(wish_direction(&keys("wsa"), forward, right), Vec3::new(-866_025, 0, 500_000));
}

#[test]
fn wish_direction_ignores_the_vertical_part_of_the_facing() {
    let forward = Vec3::new(0, 800_000, -600_000);
    assert_eq!(wish_direction(&keys("w"), forward, RIGHT), Vec3::new(0, 0, -UNIT));
}

#[test]
fn opposed_keys_damp_instead_of_moving() {
    assert_eq!(step("ws", FORWARD, RIGHT, 5_000, (1_000, 7, -2_000)), (800, 7, -1_600));
    assert_eq!(step("ad", FORWARD, RIGHT, 5_000, (1_000, 7, -2_000)), (800, 7, -1_600));
    assert_eq!(step("wsad", FORWARD, RIGHT, 5_000, (1_000, 7, -2_000)), (800, 7, -1_600));
}

#[test]
fn opposed_keys_leave_the_other_axis() {
    assert_eq!(step("wsd", FORWARD, RIGHT, 5_000, (1_000, 7, -2_000)), (5_000, 7, 0));
}

#[test]
fn released_keys_shed_a_fifth_each_tick() {
    let mut velocity = LinearVelocity(Vec3::new(5_000, 0, -5_000));
    let expected = [4_000, 3_200, 2_560, 2_048, 1_638, 1_310, 1_048, 838, 670, 536];
    for want in expected {
        movement_step(&keys(""), FORWARD, RIGHT, &MovementSpeed(5_000), &mut velocity);
        assert_eq!(velocity, LinearVelocity(Vec3::new(want, 0, -want)));
    }
}

#[test]
fn decay_is_exact_on_multiples_of_powers_of_five() {
    // 5^4 * 8 coasts to 4^4 * 8 in four ticks.
    let mut velocity = LinearVelocity(Vec3::new(5_000, 0, 0));
    for _ in 0..4 {
        movement_step(&keys(""), FORWARD, RIGHT, &MovementSpeed(5_000), &mut velocity);
    }
    assert_eq!(velocity.0.x, 2_048);
}

#[test]
fn coasting_comes_to_rest() {
    let mut velocity = LinearVelocity(Vec3::new(5_000, 0, -5_000));
    for _ in 0..33 {
        movement_step(&keys(""), FORWARD, RIGHT, &MovementSpeed(5_000), &mut velocity);
    }
    assert_eq!(velocity, LinearVelocity(Vec3::new(1, 0, -1)));
    movement_step(&keys(""), FORWARD, RIGHT, &MovementSpeed(5_000), &mut velocity);
    assert_eq!(velocity, LinearVelocity(Vec3::zero()));
    movement_step(&keys(""), FORWARD, RIGHT, &MovementSpeed(5_000), &mut velocity);
    assert_eq!(velocity, LinearVelocity(Vec3::zero()));
}

#[test]
fn damping_rounds_toward_rest() {
    assert_eq!(step("", FORWARD, RIGHT, 5_000, (7, 0, -7)), (5, 0, -5));
    assert_eq!(step("", FORWARD, RIGHT, 5_000, (4, 0, -1)), (3, 0, 0));
    assert_eq!(
        step("", FORWARD, RIGHT, 5_000, (i32::MAX, 0, i32::MIN)),
        (1_717_986_917, 0, -1_717_986_918)
    );
}

#[test]
fn jump_sets_the_vertical_velocity() {
    assert_eq!(step(" ", FORWARD, RIGHT, 5_000, (0, 0, 0)), (0, 3_300, 0));
    assert_eq!(step(" ", FORWARD, RIGHT, 5_000, (0, -9_810, 0)), (0, 3_300, 0));
    assert_eq!(step("w ", FORWARD, RIGHT, 5_000, (0, 100, 0)), (0, 3_300, -5_000));
}

#[test]
fn held_jump_fires_once() {
    let mut velocity = LinearVelocity(Vec3::zero());
    // The tick on which the key goes down carries the edge.
    movement_step(&keys(" "), FORWARD, RIGHT, &MovementSpeed(5_000), &mut velocity);
    assert_eq!(velocity.0.y, 3_300);
    // Gravity acts between ticks; the key stays down, so no further edge comes.
    for _ in 0..5 {
        velocity.0.y -= 160;
        let before = velocity.0.y;
        movement_step(&keys(""), FORWARD, RIGHT, &MovementSpeed(5_000), &mut velocity);
        assert_eq!(velocity.0.y, before);
    }
    assert_eq!(velocity.0.y, 2_500);
}

#[test]
fn facing_straight_up_gives_no_forward_direction() {
    let up = Vec3::new(0, UNIT, 0);
    assert_eq!(wish_direction(&keys("w"), up, RIGHT), Vec3::zero());
    assert_eq!(step("w", up, RIGHT, 5_000, (1_000, 0, -1_000)), (800, 0, -800));
    assert_eq!(step("wd", up, RIGHT, 5_000, (1_000, 0, -1_000)), (5_000, 0, 0));
}

#[test]
fn facing_at_the_pitch_limit_still_moves_forward() {
    // Facing with yaw 0 and the steepest pitch the look step allows.
    let steep = Vec3::new(0, 999_950, -10_000);
    assert_eq!(wish_direction(&keys("w"), steep, RIGHT), Vec3::new(0, 0, -UNIT));
    assert_eq!(step("w", steep, RIGHT, 5_000, (0, 0, 0)), (0, 0, -5_000));
}

#[test]
fn zero_and_negative_speed() {
    assert_eq!(step("w", FORWARD, RIGHT, 0, (9, 9, 9)), (0, 9, 0));
    assert_eq!(step("w", FORWARD, RIGHT, -5_000, (0, 0, 0)), (0, 0, 5_000));
    assert_eq!(step("wd", FORWARD, RIGHT, i32::MAX, (0, 0, 0)), (1_518_498_571, 0, -1_518_498_571));
    assert_eq!(step("w", FORWARD, RIGHT, i32::MIN + 1, (0, 0, 0)), (0, 0, i32::MAX));
}

#[test]
fn driven_speed_is_the_speed_to_within_rounding() {
    let mut seed: u64 = 3;
    let mut next = move || {
        seed = seed.wrapping_mul(6_364_136_223_846_793_005).wrapping_add(1_442_695_040_888_963_407);
        ((seed >> 33) as i32) % 2_000_001 - 1_000_000
    };
    let held = ["w", "s", "a", "d", "wa", "wd", "sa", "sd", "wad", "wsd"];
    for round in 0..500 {
        let forward = Vec3::new(next(), next(), next());
        let right = Vec3::new(next(), next(), next());
        let speed = next();
        let keys = keys(held[round % held.len()]);
        if wish_direction(&keys, forward, right).is_zero() {
            continue;
        }
        let mut velocity = LinearVelocity(Vec3::new(1, 2, 3));
        movement_step(&keys, forward, right, &MovementSpeed(speed), &mut velocity);
        let (x, z, s) = (velocity.0.x as i64, velocity.0.z as i64, speed as i64);
        assert_eq!(velocity.0.y, 2);
        assert!(x * x + z * z <= s * s + 2 * s.abs());
        assert!((x.abs() + 2) * (x.abs() + 2) + (z.abs() + 2) * (z.abs() + 2) >= s * s);
    }
}

fn keyboard(down: &[KeyCode]) -> ButtonInput<KeyCode> {
    let mut input = ButtonInput::default();
    for key in down {
        input.press(*key);
    }
    input
}

#[test]
fn read_takes_each_key_for_its_own_direction() {
    assert_eq!(MovementKeys::read(&keyboard(&[])), keys(""));
    assert_eq!(MovementKeys::read(&keyboard(&[KeyCode::KeyW])), keys("w"));
    assert_eq!(MovementKeys::read(&keyboard(&[KeyCode::KeyS])), keys("s"));
    assert_eq!(MovementKeys::read(&keyboard(&[KeyCode::KeyA])), keys("a"));
    assert_eq!(MovementKeys::read(&keyboard(&[KeyCode::KeyD])), keys("d"));
    assert_eq!(MovementKeys::read(&keyboard(&[KeyCode::Space])), keys(" "));
    assert_eq!(
        MovementKeys::read(&keyboard(&[KeyCode::KeyD, KeyCode::KeyW, KeyCode::Space])),
        keys("wd ")
    );
}

#[test]
fn read_ignores_other_keys() {
    let input = keyboard(&[KeyCode::ArrowUp, KeyCode::KeyE, KeyCode::Escape, KeyCode::Enter]);
    assert_eq!(MovementKeys::read(&input), keys(""));
}

#[test]
fn read_sees_directions_as_levels_and_jump_as_an_edge() {
    let mut input = keyboard(&[KeyCode::KeyW, KeyCode::Space]);
    assert_eq!(MovementKeys::read(&input), keys("w "));
    // The engine clears the edges between ticks; the keys stay down.
    input.clear();
    assert_eq!(MovementKeys::read(&input), keys("w"));
    input.release(KeyCode::KeyW);
    input.release(KeyCode::Space);
    assert_eq!(MovementKeys::read(&input), keys(""));
    input.clear();
    input.press(KeyCode::Space);
    assert_eq!(MovementKeys::read(&input), keys(" "));
}

#[test]
fn player_movement_reads_the_keyboard() {
    let mut velocity = LinearVelocity(Vec3::new(0, 0, 0));
    let input = keyboard(&[KeyCode::KeyW, KeyCode::KeyD]);
    player_movement(&input, FORWARD, RIGHT, &MovementSpeed(5_000), &mut velocity);
    assert_eq!(velocity, LinearVelocity(Vec3::new(3_535, 0, -3_535)));

    let input = keyboard(&[KeyCode::KeyW, KeyCode::KeyS]);
    player_movement(&input, FORWARD, RIGHT, &MovementSpeed(5_000), &mut velocity);
    assert_eq!(velocity, LinearVelocity(Vec3::new(2_828, 0, -2_828)));

    let input = keyboard(&[KeyCode::KeyA]);
    player_movement(&input, FORWARD, RIGHT, &MovementSpeed(5_000), &mut velocity);
    assert_eq!(velocity, LinearVelocity(Vec3::new(-5_000, 0, 0)));
}

#[test]
fn space_held_across_ticks_jumps_once() {
    let mut velocity = LinearVelocity(Vec3::zero());
    let mut input = keyboard(&[KeyCode::Space]);
    player_movement(&input, FORWARD, RIGHT, &MovementSpeed(5_000), &mut velocity);
    assert_eq!(velocity.0.y, 3_300);
    for _ in 0..5 {
        // Next tick: the key is still down and is pressed again without
        // having been released.
        input.clear();
        input.press(KeyCode::Space);
        velocity.0.y -= 160;
        let before = velocity.0.y;
        player_movement(&input, FORWARD, RIGHT, &MovementSpeed(5_000), &mut velocity);
        assert_eq!(velocity.0.y, before);
    }
    // Released and pressed anew, it jumps again.
    input.clear();
    input.release(KeyCode::Space);
    input.clear();
    input.press(KeyCode::Space);
    player_movement(&input, FORWARD, RIGHT, &MovementSpeed(5_000), &mut velocity);
    assert_eq!(velocity.0.y, 3_300);
}
