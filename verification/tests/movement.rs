use tile_motion::direction::Direction;
use tile_motion::envelope::MovementAttributes;
use tile_motion::level::{Level, Tile};
use tile_motion::movement::{reflect, resolution, resolve_axis, MovementState, Resolution};
use tile_motion::units::{ONE, PUSH_OUT, SPEED_LIMIT, WORLD_LIMIT};

const SOLID: Option<Tile> = Some(Tile { solid: true });

fn open_level() -> Level {
    Level { floor: Vec::new() }
}

/// Attack of four ticks, a quarter of a tile per tick, release of two ticks:
/// the speed grows by 4096 and decays by 8192 per tick.
fn walker() -> MovementAttributes {
    MovementAttributes::new(4 * ONE, ONE / 4, 2 * ONE).unwrap()
}

/// Reaches a quarter of a tile per tick in one tick, and rest in one tick.
fn sprinter() -> MovementAttributes {
    MovementAttributes::new(ONE, ONE / 4, ONE).unwrap()
}

fn up_right() -> Direction {
    Direction::up().union(Direction::right())
}

fn run(state: &mut MovementState, attrs: &MovementAttributes, d: Direction, l: &Level, n: u32) {
    for _ in 0..n {
        state.tick(attrs, d, l);
    }
}

#[test]
fn new_state_is_at_rest() {
    let state = MovementState::new((3 * ONE, -2 * ONE));
    assert_eq!(state.x_pos(), 3 * ONE);
    assert_eq!(state.y_pos(), -2 * ONE);
    assert_eq!(state.velocity(), (0, 0));
}

#[test]
fn new_state_is_moved_into_the_world() {
    let state = MovementState::new((i64::MAX, i64::MIN));
    assert_eq!(state.x_pos(), WORLD_LIMIT);
    assert_eq!(state.y_pos(), -WORLD_LIMIT);
    let state = MovementState::new((WORLD_LIMIT + 1, -WORLD_LIMIT));
    assert_eq!(state.x_pos(), WORLD_LIMIT);
    assert_eq!(state.y_pos(), -WORLD_LIMIT);
}

#[test]
fn resolution_of_an_axis() {
    assert_eq!(resolution(false, 0), Resolution::Commit);
    assert_eq!(resolution(false, 5), Resolution::Commit);
    assert_eq!(resolution(true, 0), Resolution::PushOut);
    assert_eq!(resolution(true, 5), Resolution::Reflect);
    assert_eq!(resolution(true, -5), Resolution::Reflect);
}

#[test]
fn reflect_turns_round_and_halves() {
    assert_eq!(reflect(ONE), -ONE / 2);
    assert_eq!(reflect(-ONE), ONE / 2);
    assert_eq!(reflect(16384), -8192);
    assert_eq!(reflect(0), 0);
    assert_eq!(reflect(SPEED_LIMIT), -SPEED_LIMIT / 2);
    assert_eq!(reflect(-SPEED_LIMIT), SPEED_LIMIT / 2);
}

#[test]
fn reflect_rounds_toward_zero() {
    assert_eq!(reflect(1), 0);
    assert_eq!(reflect(-1), 0);
    assert_eq!(reflect(3), -1);
    assert_eq!(reflect(-3), 1);
}

#[test]
fn resolve_axis_by_resolution() {
    // position, velocity, candidate, candidate velocity, hit, push
    assert_eq!(resolve_axis(100, 7, 110, 10, false, PUSH_OUT), (110, 10));
    assert_eq!(resolve_axis(100, 7, 110, 10, true, PUSH_OUT), (100, -5));
    assert_eq!(resolve_axis(100, 7, 100, 0, true, PUSH_OUT), (100 + PUSH_OUT, 7));
    assert_eq!(resolve_axis(100, 7, 100, 0, true, -PUSH_OUT), (100 - PUSH_OUT, 7));
    assert_eq!(resolve_axis(100, 0, 100, 0, false, -PUSH_OUT), (100, 0));
    assert_eq!(resolve_axis(WORLD_LIMIT, 0, WORLD_LIMIT, 0, true, PUSH_OUT), (WORLD_LIMIT, 0));
}

#[test]
fn attack_grows_to_sustain_and_stays() {
    let mut state = MovementState::new((0, 0));
    let attrs = walker();
    let level = open_level();
    let speeds = [4096i64, 8192, 12288, 16384, 16384, 16384];
    let places = [4096i64, 12288, 24576, 40960, 57344, 73728];
    for i in 0..6 {
        state.tick(&attrs, Direction::right(), &level);
        assert_eq!(state.velocity(), (speeds[i], 0));
        assert_eq!(state.x_pos(), places[i]);
        assert_eq!(state.y_pos(), 0);
    }
}

#[test]
fn attack_in_each_direction() {
    let attrs = walker();
    let level = open_level();
    let mut state = MovementState::new((0, 0));
    run(&mut state, &attrs, Direction::left(), &level, 5);
    assert_eq!(state.velocity(), (-16384, 0));
    assert_eq!((state.x_pos(), state.y_pos()), (-57344, 0));
    let mut state = MovementState::new((0, 0));
    run(&mut state, &attrs, Direction::up(), &level, 5);
    assert_eq!(state.velocity(), (0, -16384));
    assert_eq!((state.x_pos(), state.y_pos()), (0, -57344));
    let mut state = MovementState::new((0, 0));
    run(&mut state, &attrs, Direction::down(), &level, 5);
    assert_eq!(state.velocity(), (0, 16384));
    assert_eq!((state.x_pos(), state.y_pos()), (0, 57344));
}

#[test]
fn attack_never_falls_and_never_exceeds_sustain() {
    let attrs = MovementAttributes::new(7 * ONE + 3, 99_999, 13).unwrap();
    let level = open_level();
    let mut state = MovementState::new((0, 0));
    let mut last = 0;
    for tick in 1..=20 {
        state.tick(&attrs, Direction::right(), &level);
        let (speed, across) = state.velocity();
        assert!(last <= speed && speed <= 99_999);
        assert_eq!(across, 0);
        if tick >= 8 {
            assert_eq!(speed, 99_999);
        }
        last = speed;
    }
}

#[test]
fn a_fractional_attack_is_over_after_its_ticks_rounded_up() {
    // Two and a half ticks: the acceleration is 65536 / 2.5, rounded up.
    let attrs = MovementAttributes::new(5 * ONE / 2, ONE, ONE).unwrap();
    let level = open_level();
    let mut state = MovementState::new((0, 0));
    state.tick(&attrs, Direction::down(), &level);
    assert_eq!(state.velocity(), (0, 26215));
    state.tick(&attrs, Direction::down(), &level);
    assert_eq!(state.velocity(), (0, 52430));
    state.tick(&attrs, Direction::down(), &level);
    assert_eq!(state.velocity(), (0, ONE));
}

#[test]
fn release_decays_to_exactly_zero() {
    let attrs = walker();
    let level = open_level();
    let mut state = MovementState::new((0, 0));
    run(&mut state, &attrs, Direction::right(), &level, 5);
    assert_eq!(state.velocity(), (16384, 0));
    state.tick(&attrs, Direction::empty(), &level);
    assert_eq!(state.velocity(), (8192, 0));
    assert_eq!(state.x_pos(), 65536);
    state.tick(&attrs, Direction::empty(), &level);
    assert_eq!(state.velocity(), (0, 0));
    assert_eq!(state.x_pos(), 65536);
    state.tick(&attrs, Direction::empty(), &level);
    assert_eq!(state.velocity(), (0, 0));
    assert_eq!(state.x_pos(), 65536);
}

#[test]
fn release_never_changes_the_sign() {
    // The deceleration, 21846, does not divide the sustain speed.
    let attrs = MovementAttributes::new(ONE, ONE, 3 * ONE).unwrap();
    let level = open_level();
    let mut state = MovementState::new((0, 0));
    state.tick(&attrs, Direction::left(), &level);
    assert_eq!(state.velocity(), (-ONE, 0));
    let idle = Direction::left().union(Direction::right());
    state.tick(&attrs, idle, &level);
    assert_eq!(state.velocity(), (-43690, 0));
    state.tick(&attrs, idle, &level);
    assert_eq!(state.velocity(), (-21844, 0));
    state.tick(&attrs, idle, &level);
    assert_eq!(state.velocity(), (0, 0));
}

#[test]
fn release_while_travelling_up_uses_the_deceleration() {
    let attrs = walker();
    let level = open_level();
    let mut state = MovementState::new((0, 0));
    run(&mut state, &attrs, Direction::up(), &level, 4);
    assert_eq!(state.velocity(), (0, -16384));
    state.tick(&attrs, Direction::empty(), &level);
    assert_eq!(state.velocity(), (0, -8192));
    state.tick(&attrs, Direction::empty(), &level);
    assert_eq!(state.velocity(), (0, 0));
}

#[test]
fn release_is_symmetric_between_the_axes() {
    let attrs = walker();
    let level = open_level();
    let mut flat = MovementState::new((0, 0));
    let mut steep = MovementState::new((0, 0));
    run(&mut flat, &attrs, Direction::left(), &level, 4);
    run(&mut steep, &attrs, Direction::up(), &level, 4);
    for _ in 0..3 {
        flat.tick(&attrs, Direction::empty(), &level);
        steep.tick(&attrs, Direction::empty(), &level);
        assert_eq!(flat.velocity().0, steep.velocity().1);
        assert_eq!(flat.x_pos(), steep.y_pos());
    }
}

#[test]
fn diagonal_movement_shares_the_sustain_speed() {
    let attrs = MovementAttributes::new(ONE, ONE, ONE).unwrap();
    let level = open_level();
    let mut state = MovementState::new((0, 0));
    run(&mut state, &attrs, up_right(), &level, 3);
    assert_eq!(state.velocity(), (46340, -46340));
    let (vx, vy) = state.velocity();
    assert!(vx * vx + vy * vy <= ONE * ONE);
    assert!((vx + 1) * (vx + 1) + (-vy + 1) * (-vy + 1) > ONE * ONE);
    assert_eq!((state.x_pos(), state.y_pos()), (3 * 46340, -3 * 46340));
}

#[test]
fn diagonal_attack_step_by_step() {
    let attrs = MovementAttributes::new(4 * ONE, ONE, ONE).unwrap();
    let level = open_level();
    let mut state = MovementState::new((0, 0));
    let down_left = Direction::down().union(Direction::left());
    let speeds = [16384i64, 32768, 46340, 46340];
    for speed in speeds {
        state.tick(&attrs, down_left, &level);
        assert_eq!(state.velocity(), (-speed, speed));
    }
}

#[test]
fn speed_above_the_cap_is_shed_by_the_acceleration() {
    let attrs = MovementAttributes::new(4 * ONE, ONE, ONE).unwrap();
    let level = open_level();
    let mut state = MovementState::new((0, 0));
    run(&mut state, &attrs, Direction::right(), &level, 4);
    assert_eq!(state.velocity(), (ONE, 0));
    let down_right = Direction::down().union(Direction::right());
    state.tick(&attrs, down_right, &level);
    assert_eq!(state.velocity(), (49152, 16384));
    state.tick(&attrs, down_right, &level);
    assert_eq!(state.velocity(), (32768, 32768));
    state.tick(&attrs, down_right, &level);
    assert_eq!(state.velocity(), (46340, 46340));
}

#[test]
fn a_command_against_the_motion_brakes_through_rest() {
    let attrs = walker();
    let level = open_level();
    let mut state = MovementState::new((0, 0));
    state.tick(&attrs, Direction::right(), &level);
    assert_eq!(state.velocity(), (4096, 0));
    state.tick(&attrs, Direction::left(), &level);
    assert_eq!(state.velocity(), (-4096, 0));
    assert_eq!(state.x_pos(), 0);
    state.tick(&attrs, Direction::left(), &level);
    assert_eq!(state.velocity(), (-8192, 0));
}

#[test]
fn round_trip_returns_to_rest_at_the_sum_of_the_speeds() {
    let attrs = walker();
    let level = open_level();
    let mut state = MovementState::new((10 * ONE, 20 * ONE));
    run(&mut state, &attrs, Direction::right(), &level, 4);
    run(&mut state, &attrs, Direction::empty(), &level, 2);
    assert_eq!(state.velocity(), (0, 0));
    // 4096 + 8192 + 12288 + 16384, then 8192 + 0.
    assert_eq!(state.x_pos(), 10 * ONE + 49152);
    assert_eq!(state.y_pos(), 20 * ONE);
}

#[test]
fn round_trip_is_the_same_each_time() {
    let attrs = MovementAttributes::new(3 * ONE + 17, 50_000, 5 * ONE - 1).unwrap();
    let level = open_level();
    let mut first = MovementState::new((0, 0));
    let mut second = MovementState::new((0, 0));
    run(&mut first, &attrs, Direction::up(), &level, 9);
    run(&mut first, &attrs, Direction::empty(), &level, 9);
    run(&mut second, &attrs, Direction::up(), &level, 9);
    run(&mut second, &attrs, Direction::empty(), &level, 9);
    assert_eq!(first, second);
    assert_eq!(first.velocity(), (0, 0));
    assert_eq!(first.x_pos(), 0);
    assert!(first.y_pos() < 0);
}

#[test]
fn a_wall_to_the_right_reflects_the_velocity() {
    // A solid tile at (2, 0); the entity runs along the row 0.
    let level = Level { floor: vec![vec![None, None, SOLID]] };
    let attrs = sprinter();
    let mut state = MovementState::new((0, 0));
    run(&mut state, &attrs, Direction::right(), &level, 4);
    // The box now touches the tile's left wall without overlap.
    assert_eq!(state.x_pos(), ONE);
    assert_eq!(state.velocity(), (16384, 0));
    state.tick(&attrs, Direction::right(), &level);
    assert_eq!(state.x_pos(), ONE);
    assert_eq!(state.velocity(), (-8192, 0));
    assert_eq!(state.y_pos(), 0);
}

#[test]
fn after_a_bounce_the_entity_brakes_and_bounces_again() {
    let level = Level { floor: vec![vec![None, None, SOLID]] };
    let attrs = sprinter();
    let mut state = MovementState::new((0, 0));
    run(&mut state, &attrs, Direction::right(), &level, 5);
    assert_eq!(state.velocity(), (-8192, 0));
    // Braking: -8192 + 16384 = 8192, into the wall again.
    state.tick(&attrs, Direction::right(), &level);
    assert_eq!(state.x_pos(), ONE);
    assert_eq!(state.velocity(), (-4096, 0));
}

#[test]
fn a_wall_to_the_left_reflects_the_velocity() {
    let level = Level { floor: vec![vec![SOLID]] };
    let attrs = sprinter();
    let mut state = MovementState::new((ONE + 8192, 0));
    state.tick(&attrs, Direction::left(), &level);
    assert_eq!(state.x_pos(), ONE + 8192);
    assert_eq!(state.velocity(), (8192, 0));
}

#[test]
fn a_wall_above_or_below_reflects_the_vertical_velocity() {
    let level = Level { floor: vec![vec![], vec![], vec![SOLID]] };
    let attrs = sprinter();
    let mut state = MovementState::new((0, ONE - 8192));
    state.tick(&attrs, Direction::down(), &level);
    assert_eq!(state.y_pos(), ONE - 8192);
    assert_eq!(state.velocity(), (0, -8192));
    let mut state = MovementState::new((0, 3 * ONE + 8192));
    state.tick(&attrs, Direction::up(), &level);
    assert_eq!(state.y_pos(), 3 * ONE + 8192);
    assert_eq!(state.velocity(), (0, 8192));
}

#[test]
fn a_bounce_on_one_axis_leaves_the_other_alone() {
    let level = Level { floor: vec![vec![None, None, SOLID]] };
    let attrs = MovementAttributes::new(ONE, ONE / 4, ONE).unwrap();
    let mut state = MovementState::new((ONE, 0));
    // Diagonal cap of 16384 is 11585.
    state.tick(&attrs, Direction::right().union(Direction::down()), &level);
    assert_eq!(state.x_pos(), ONE);
    assert_eq!(state.y_pos(), 11585);
    assert_eq!(state.velocity(), (-5792, 11585));
}

#[test]
fn an_entity_at_rest_in_a_wall_is_pushed_left() {
    // A solid tile at (1, 0); the entity overlaps its left half.
    let level = Level { floor: vec![vec![None, SOLID]] };
    let attrs = walker();
    let mut state = MovementState::new((ONE / 2, 0));
    state.tick(&attrs, Direction::empty(), &level);
    assert_eq!(state.x_pos(), ONE / 2 - PUSH_OUT);
    assert_eq!(state.x_pos(), ONE / 2 - ONE / 64);
    assert_eq!(state.y_pos(), 0);
    assert_eq!(state.velocity(), (0, 0));
}

#[test]
fn an_entity_at_rest_is_pushed_until_it_is_free() {
    let level = Level { floor: vec![vec![None, SOLID]] };
    let attrs = walker();
    let mut state = MovementState::new((2 * PUSH_OUT + 1, 0));
    state.tick(&attrs, Direction::empty(), &level);
    assert_eq!(state.x_pos(), PUSH_OUT + 1);
    state.tick(&attrs, Direction::empty(), &level);
    assert_eq!(state.x_pos(), 1);
    state.tick(&attrs, Direction::empty(), &level);
    assert_eq!(state.x_pos(), 1 - PUSH_OUT);
    state.tick(&attrs, Direction::empty(), &level);
    assert_eq!(state.x_pos(), 1 - PUSH_OUT);
    assert_eq!(state.velocity(), (0, 0));
}

#[test]
fn an_entity_at_rest_is_pushed_away_from_each_wall() {
    let level = Level { floor: vec![vec![], vec![None, SOLID]] };
    let attrs = walker();
    // From greater x: the right wall.
    let mut state = MovementState::new((3 * ONE / 2, ONE));
    state.tick(&attrs, Direction::empty(), &level);
    assert_eq!((state.x_pos(), state.y_pos()), (3 * ONE / 2 + PUSH_OUT, ONE));
    // From greater y: the top wall.
    let mut state = MovementState::new((ONE, 3 * ONE / 2));
    state.tick(&attrs, Direction::empty(), &level);
    assert_eq!((state.x_pos(), state.y_pos()), (ONE, 3 * ONE / 2 + PUSH_OUT));
    // From lesser y: the bottom wall.
    let mut state = MovementState::new((ONE, ONE / 2));
    state.tick(&attrs, Direction::empty(), &level);
    assert_eq!((state.x_pos(), state.y_pos()), (ONE, ONE / 2 - PUSH_OUT));
    assert_eq!(state.velocity(), (0, 0));
}

#[test]
fn an_entity_on_a_tile_is_pushed_toward_greater_y() {
    let level = Level { floor: vec![vec![], vec![None, SOLID]] };
    let attrs = walker();
    let mut state = MovementState::new((ONE, ONE));
    state.tick(&attrs, Direction::empty(), &level);
    assert_eq!((state.x_pos(), state.y_pos()), (ONE, ONE + PUSH_OUT));
}

#[test]
fn a_corner_pushes_on_both_axes() {
    // Solid tiles at (1, 1) and (0, 2): a left wall and a bottom wall.
    let level = Level { floor: vec![vec![], vec![None, SOLID], vec![SOLID]] };
    let attrs = walker();
    let mut state = MovementState::new((ONE / 2, 5 * ONE / 4));
    state.tick(&attrs, Direction::empty(), &level);
    assert_eq!(state.x_pos(), ONE / 2 - PUSH_OUT);
    assert_eq!(state.y_pos(), 5 * ONE / 4 - PUSH_OUT);
    assert_eq!(state.velocity(), (0, 0));
}

#[test]
fn a_corner_may_push_on_one_axis_and_reflect_on_the_other() {
    let level = Level { floor: vec![vec![], vec![None, SOLID], vec![SOLID]] };
    let attrs = sprinter();
    let mut state = MovementState::new((ONE / 2 - 16384, 5 * ONE / 4));
    state.tick(&attrs, Direction::right(), &level);
    // The candidate box at (0.5, 1.25) touches a left and a bottom wall.
    assert_eq!(state.x_pos(), ONE / 2 - 16384);
    assert_eq!(state.y_pos(), 5 * ONE / 4 - PUSH_OUT);
    assert_eq!(state.velocity(), (-8192, 0));
}

#[test]
fn with_left_and_right_walls_the_push_goes_left() {
    let level = Level { floor: vec![vec![SOLID, SOLID]] };
    let attrs = walker();
    let mut state = MovementState::new((ONE / 2 + 1, 0));
    state.tick(&attrs, Direction::empty(), &level);
    assert_eq!(state.x_pos(), ONE / 2 + 1 - PUSH_OUT);
}

#[test]
fn with_top_and_bottom_walls_the_push_goes_toward_greater_y() {
    let level = Level { floor: vec![vec![SOLID], vec![SOLID]] };
    let attrs = walker();
    let mut state = MovementState::new((0, ONE / 2 + 1));
    state.tick(&attrs, Direction::empty(), &level);
    // Top of the tile (0, 0), bottom of the tile (0, 1).
    assert_eq!(state.y_pos(), ONE / 2 + 1 + PUSH_OUT);
}

#[test]
fn a_push_out_keeps_the_velocity_from_before_the_tick() {
    // A solid tile at (1, 0), and an entity that overlaps it from the left.
    let level = Level { floor: vec![vec![None, SOLID]] };
    let attrs = walker();
    let start = ONE / 2 - 4096;
    let mut state = MovementState::new((start, 0));
    // A tick to the right: the candidate velocity, 4096, is reflected.
    state.tick(&attrs, Direction::right(), &level);
    assert_eq!(state.x_pos(), start);
    assert_eq!(state.velocity(), (-2048, 0));
    // A tick without a command: the speed decays to a candidate of zero, so
    // the position is pushed, and the velocity is not committed.
    state.tick(&attrs, Direction::empty(), &level);
    assert_eq!(state.x_pos(), start - PUSH_OUT);
    assert_eq!(state.velocity(), (-2048, 0));
}

#[test]
fn tiles_that_are_not_solid_do_not_stop_movement() {
    let level = Level { floor: vec![vec![None, Some(Tile { solid: false }), None]] };
    let attrs = sprinter();
    let mut state = MovementState::new((0, 0));
    run(&mut state, &attrs, Direction::right(), &level, 8);
    assert_eq!(state.x_pos(), 2 * ONE);
    assert_eq!(state.velocity(), (16384, 0));
}

#[test]
fn the_position_stops_at_the_edge_of_the_world() {
    let attrs = sprinter();
    let level = open_level();
    let mut state = MovementState::new((WORLD_LIMIT - 100, -WORLD_LIMIT + 100));
    state.tick(&attrs, up_right(), &level);
    assert_eq!(state.x_pos(), WORLD_LIMIT);
    assert_eq!(state.y_pos(), -WORLD_LIMIT);
    assert_eq!(state.velocity(), (11585, -11585));
    state.tick(&attrs, up_right(), &level);
    assert_eq!(state.x_pos(), WORLD_LIMIT);
    assert_eq!(state.y_pos(), -WORLD_LIMIT);
}

#[test]
fn the_fastest_envelope_stays_within_the_speed_limit() {
    let attrs = MovementAttributes::new(1, 1 << 24, 1).unwrap();
    let level = open_level();
    let mut state = MovementState::new((0, 0));
    state.tick(&attrs, Direction::right(), &level);
    assert_eq!(state.velocity(), (1 << 24, 0));
    state.tick(&attrs, Direction::left(), &level);
    // Braking by the deceleration, 2^40, without a stop at rest.
    assert_eq!(state.velocity(), ((1 << 24) - SPEED_LIMIT, 0));
    state.tick(&attrs, Direction::left(), &level);
    // Beyond the cap: the excess is shed by the acceleration.
    assert_eq!(state.velocity(), (1 << 24, 0));
}

#[test]
fn round_trip_in_whole_ticks_has_a_closed_form() {
    // Attack of 4 ticks, release of 2 ticks, sustain speed 16384; held for 6
    // ticks and idle for 3.
    let attrs = walker();
    let level = open_level();
    let sustain = 16384;
    let offset = (sustain * (4 + 1) + 2 * sustain * (6 - 4) + sustain * (2 - 1)) / 2;
    assert_eq!(offset, 81920);
    let trips = [
        (Direction::right(), (offset, 0)),
        (Direction::left(), (-offset, 0)),
        (Direction::down(), (0, offset)),
        (Direction::up(), (0, -offset)),
    ];
    for (direction, end) in trips {
        let mut state = MovementState::new((5 * ONE, -3 * ONE));
        run(&mut state, &attrs, direction, &level, 6);
        run(&mut state, &attrs, Direction::empty(), &level, 3);
        assert_eq!(state.velocity(), (0, 0));
        assert_eq!((state.x_pos() - 5 * ONE, state.y_pos() + 3 * ONE), end);
    }
}

#[test]
fn a_sustained_run_into_the_only_wall_keeps_the_place() {
    // The only solid tile is (3, 1); the entity runs along the row 1.
    let level = Level { floor: vec![vec![], vec![None, None, None, SOLID]] };
    let attrs = walker();
    let mut state = MovementState::new((0, ONE));
    run(&mut state, &attrs, Direction::right(), &level, 9);
    // Nine quarters of a tile, less what the three ticks below the sustain
    // speed fell short of it.
    assert_eq!(state.x_pos(), 9 * 16384 - 24576);
    assert_eq!(state.velocity(), (16384, 0));
    let before = state.x_pos();
    assert!(before + 16384 + ONE > 3 * ONE);
    state.tick(&attrs, Direction::right(), &level);
    assert_eq!((state.x_pos(), state.y_pos()), (before, ONE));
    assert_eq!(state.velocity(), (-8192, 0));
}
