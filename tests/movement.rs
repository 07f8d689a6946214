use librego::geometry::{isqrt, scale_to, Vec3, UNIT};
use librego::player::{
    Contact, MoveInput, Player, CEILING_GAP, CROUCH_SPEED, GRAVITY, JUMP_VELOCITY, MOVE_SPEED,
    PLAYER_HALF_HEIGHT, WALKING_SPEED,
};

fn v(x: i64, y: i64, z: i64) -> Vec3 {
    Vec3 { x, y, z }
}

fn idle() -> MoveInput {
    MoveInput { walk_toggle: false, jump: false, forward: false, back: false, left: false, right: false, reload: false }
}

fn grounded() -> Player {
    Player::new(v(0, PLAYER_HALF_HEIGHT, 0), 0)
}

#[test]
fn integer_square_root() {
    assert_eq!(isqrt(0), 0);
    assert_eq!(isqrt(1), 1);
    assert_eq!(isqrt(15), 3);
    assert_eq!(isqrt(16), 4);
    assert_eq!(isqrt(200_000_000), 14_142);
    assert_eq!(isqrt((1u64 << 62) - 1), (1u64 << 31) - 1);
}

#[test]
fn scale_keeps_direction() {
    assert_eq!(scale_to(v(3 * UNIT / 2, 0, 0), UNIT), v(UNIT, 0, 0));
    assert_eq!(scale_to(v(UNIT, 0, UNIT), 500), v(353, 0, 353));
    assert_eq!(scale_to(v(-UNIT, 0, 0), 500), v(-500, 0, 0));
    assert_eq!(scale_to(v(0, 0, 0), 500), v(0, 0, 0));
}

#[test]
fn candidate_speeds() {
    let forward = MoveInput { forward: true, ..idle() };
    let mut p = grounded();
    assert_eq!(p.candidate_position(&forward), v(MOVE_SPEED, PLAYER_HALF_HEIGHT, 0));
    p.walking = true;
    assert_eq!(p.candidate_position(&forward), v(WALKING_SPEED, PLAYER_HALF_HEIGHT, 0));
    p.crouched = true;
    assert_eq!(p.candidate_position(&forward), v(CROUCH_SPEED, PLAYER_HALF_HEIGHT, 0));
}

#[test]
fn candidate_diagonal_is_normalised() {
    let p = grounded();
    let input = MoveInput { forward: true, right: true, ..idle() };
    assert_eq!(p.candidate_position(&input), v(353, PLAYER_HALF_HEIGHT, 353));
    let both = MoveInput { forward: true, back: true, ..idle() };
    assert_eq!(p.candidate_position(&both), v(0, PLAYER_HALF_HEIGHT, 0));
}

#[test]
fn candidate_ignores_pitch() {
    let mut p = grounded();
    p.front = v(5_000, 8_660, 0);
    let input = MoveInput { forward: true, ..idle() };
    assert_eq!(p.candidate_position(&input), v(MOVE_SPEED, PLAYER_HALF_HEIGHT, 0));
}

#[test]
fn free_movement_reaches_candidate() {
    let mut p = grounded();
    let input = MoveInput { forward: true, right: true, ..idle() };
    let moved = p.movement(&input, 10, |_| None);
    assert!(moved);
    assert_eq!(p.position, v(353, PLAYER_HALF_HEIGHT, 353));
    assert_eq!(p.jump, None);
    assert_eq!(p.last_move_timestamp, Some(10));
}

#[test]
fn wall_vetoes_only_its_axis() {
    let mut p = grounded();
    let input = MoveInput { forward: true, right: true, ..idle() };
    // A wall beyond x = 300: any box centred past it touches.
    let wall = |c: Vec3| if c.x > 300 { Some(Contact { obstacle_y: c.y, player_y: c.y }) } else { None };
    p.movement(&input, 10, wall);
    assert_eq!(p.position, v(0, PLAYER_HALF_HEIGHT, 353));
}

#[test]
fn horizontal_resolution_axes() {
    let mut p = grounded();
    p.resolve_horizontal(v(40, 0, 70), false, true, false);
    assert_eq!(p.position, v(0, PLAYER_HALF_HEIGHT, 70));
    p.resolve_horizontal(v(40, 0, 90), false, false, true);
    assert_eq!(p.position, v(40, PLAYER_HALF_HEIGHT, 70));
    p.resolve_horizontal(v(60, 0, 95), true, true, true);
    assert_eq!(p.position, v(60, PLAYER_HALF_HEIGHT, 95));
}

#[test]
fn jump_starts_and_rises() {
    let mut p = grounded();
    let jump = MoveInput { jump: true, ..idle() };
    p.movement(&jump, 5, |_| None);
    assert_eq!(p.position.y, PLAYER_HALF_HEIGHT + JUMP_VELOCITY);
    assert_eq!(p.jump, Some(-JUMP_VELOCITY + GRAVITY));
    assert_eq!(p.last_move_timestamp, Some(5));
}

#[test]
fn jump_spam_while_airborne_has_no_effect() {
    let mut pressed = grounded();
    let jump = MoveInput { jump: true, ..idle() };
    pressed.movement(&jump, 5, |_| None);
    let mut quiet = Player::new(pressed.position, 0);
    quiet.jump = pressed.jump;
    quiet.last_move_timestamp = pressed.last_move_timestamp;
    for t in 6..20u64 {
        pressed.movement(&jump, t, |_| None);
        quiet.movement(&idle(), t, |_| None);
        assert_eq!(pressed.position, quiet.position);
        assert_eq!(pressed.jump, quiet.jump);
    }
}

#[test]
fn crouched_press_does_not_jump() {
    let mut p = grounded();
    p.crouched = true;
    assert!(!p.press_jump(true, 3));
    assert_eq!(p.jump, None);
}

#[test]
fn landing_on_ground_is_exact() {
    let mut p = grounded();
    p.position.y = PLAYER_HALF_HEIGHT + 100;
    p.jump = Some(200);
    p.movement(&idle(), 1, |_| None);
    assert_eq!(p.position.y, PLAYER_HALF_HEIGHT - 100);
    assert_eq!(p.jump, Some(200 + GRAVITY));
    p.movement(&idle(), 2, |_| None);
    assert_eq!(p.position.y, PLAYER_HALF_HEIGHT);
    assert_eq!(p.jump, None);
    assert_eq!(p.last_move_timestamp, None);
}

#[test]
fn landing_on_obstacle_is_exact() {
    let mut p = grounded();
    p.position.y = 12_050;
    p.jump = Some(100);
    let on = p.resolve_vertical(Some(Contact { obstacle_y: 7_000, player_y: 6_900 }), false, 4);
    assert!(on);
    assert_eq!(p.position.y, 7_000 + PLAYER_HALF_HEIGHT);
    assert_eq!(p.jump, None);
}

#[test]
fn ceiling_stops_rise() {
    let mut p = grounded();
    p.position.y = 5_600;
    p.jump = Some(-565);
    let on = p.resolve_vertical(Some(Contact { obstacle_y: 11_000, player_y: 10_700 }), false, 4);
    assert!(!on);
    assert_eq!(p.position.y, 11_000 - PLAYER_HALF_HEIGHT - CEILING_GAP);
    assert_eq!(p.jump, Some(GRAVITY));
}

#[test]
fn walking_off_a_ledge_falls() {
    let mut p = grounded();
    p.position.y = 8_000;
    let on = p.resolve_vertical(None, false, 9);
    assert!(!on);
    assert_eq!(p.position.y, 8_000);
    assert_eq!(p.jump, Some(GRAVITY));
    assert_eq!(p.last_move_timestamp, Some(9));
}

#[test]
fn walk_toggle_flips() {
    let mut p = grounded();
    let toggle = MoveInput { walk_toggle: true, ..idle() };
    p.movement(&toggle, 1, |_| None);
    assert!(p.walking);
    p.movement(&toggle, 2, |_| None);
    assert!(!p.walking);
}

#[test]
fn own_tick_window() {
    let mut p = grounded();
    assert!(!p.record_tick(1_000));
    assert!(p.record_tick(15_625_000));
    assert_eq!(p.last_tick_timestamp, 15_625_000);
    assert_eq!(p.ticks.len(), 1);
    assert_eq!(p.ticks.get(0), Some(v(0, PLAYER_HALF_HEIGHT, 0)));
    assert!(p.within_limits());
}
