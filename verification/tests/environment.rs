use std::collections::VecDeque;
use tile_motion::direction::Direction;
use tile_motion::entity::{ActionType, Animation, Instance, Sprite, ATTACK_FRAMES};
use tile_motion::envelope::MovementAttributes;
use tile_motion::environment::{EnvironmentState, CARD_2_COLUMN, CARD_2_ROW};
use tile_motion::level::{Level, Tile};
use tile_motion::movement::MovementState;
use tile_motion::units::{ONE, PUSH_OUT};

fn attrs() -> MovementAttributes {
    MovementAttributes::new(4 * ONE, ONE / 4, 2 * ONE).unwrap()
}

fn open_level() -> Level {
    Level { floor: Vec::new() }
}

const SHEET: [u32; 2] = [512, 512];
const WALL: Option<Tile> = Some(Tile { solid: true });
const FLOOR: Option<Tile> = Some(Tile { solid: false });

fn sprite() -> Sprite {
    Sprite::new(3, 4, &SHEET)
}

fn spawn(position: (i64, i64)) -> Instance {
    Instance::spawn(attrs(), position, sprite())
}

fn environment(player: Instance, mobs: Vec<Instance>) -> EnvironmentState {
    let mut env = EnvironmentState::new(player, &open_level(), &SHEET);
    env.mobs = mobs;
    env
}

fn frames(instance: &Instance) -> Vec<u32> {
    instance.animations.iter().map(|a| a.frames).collect()
}

#[test]
fn animation_tick_counts_down() {
    let mut animation = Animation { frames: 3 };
    assert!(!animation.tick());
    assert_eq!(animation.frames, 2);
    assert!(!animation.tick());
    assert_eq!(animation.frames, 1);
    assert!(animation.tick());
    assert_eq!(animation.frames, 0);
    assert!(animation.tick());
    assert_eq!(animation.frames, 0);
}

#[test]
fn attack_starts_its_animation() {
    assert_eq!(ActionType::Attack.animation(), Animation { frames: ATTACK_FRAMES });
    assert_eq!(ATTACK_FRAMES, 8);
}

#[test]
fn spawn_puts_an_entity_at_rest() {
    let instance = spawn((3 * ONE, 4 * ONE));
    assert_eq!(instance.attributes, attrs());
    assert_eq!(instance.sprite, sprite());
    assert_eq!(instance.movement, MovementState::new((3 * ONE, 4 * ONE)));
    assert!(instance.animations.is_empty());
}

#[test]
fn movement_tick_moves_by_the_entity_s_own_envelope() {
    let mut instance = spawn((0, 0));
    instance.movement_tick(Direction::down(), &open_level());
    assert_eq!(instance.movement.velocity(), (0, 4096));
    assert_eq!(instance.movement.y_pos(), 4096);
    assert!(instance.animations.is_empty());
}

#[test]
fn action_tick_queues_the_animation_at_the_back() {
    let mut instance = spawn((0, 0));
    instance.animations.push_back(Animation { frames: 2 });
    instance.action_tick(None);
    assert_eq!(frames(&instance), vec![2]);
    instance.action_tick(Some(ActionType::Attack));
    assert_eq!(frames(&instance), vec![2, 8]);
    assert_eq!(instance.movement, MovementState::new((0, 0)));
}

#[test]
fn animation_tick_moves_the_front_on() {
    let mut instance = spawn((0, 0));
    instance.animation_tick();
    assert!(instance.animations.is_empty());
    instance.animations = VecDeque::from(vec![
        Animation { frames: 2 },
        Animation { frames: 5 },
    ]);
    instance.animation_tick();
    assert_eq!(frames(&instance), vec![1, 5]);
    instance.animation_tick();
    assert_eq!(frames(&instance), vec![5]);
    instance.animation_tick();
    assert_eq!(frames(&instance), vec![4]);
}

#[test]
fn animation_tick_drops_an_animation_without_frames() {
    let mut instance = spawn((0, 0));
    instance.animations = VecDeque::from(vec![Animation { frames: 0 }, Animation { frames: 1 }]);
    instance.animation_tick();
    assert_eq!(frames(&instance), vec![1]);
    instance.animation_tick();
    assert!(instance.animations.is_empty());
}

#[test]
fn ai_tick_moves_along_one_axis() {
    let level = open_level();
    for _ in 0..50 {
        let mut instance = spawn((0, 0));
        instance.ai_tick(&level);
        let v = instance.movement.velocity();
        assert!(v == (4096, 0) || v == (-4096, 0) || v == (0, 4096) || v == (0, -4096));
        assert_eq!((instance.movement.x_pos(), instance.movement.y_pos()), v);
    }
}

#[test]
fn new_environment_is_idle() {
    let player = spawn((ONE, ONE));
    let env = EnvironmentState::new(player, &open_level(), &SHEET);
    assert_eq!(env.player.movement, MovementState::new((ONE, ONE)));
    assert_eq!(env.player.sprite, sprite());
    assert!(env.inactive.is_empty());
    assert_eq!(env.dirs, Direction::empty());
    assert_eq!(env.player_action, None);
}

#[test]
fn new_environment_has_one_card_two() {
    let level = Level { floor: vec![vec![None, FLOOR], vec![WALL, FLOOR, FLOOR]] };
    for _ in 0..50 {
        let env = EnvironmentState::new(spawn((0, 0)), &level, &SHEET);
        assert_eq!(env.mobs.len(), 1);
        let mob = &env.mobs[0];
        assert_eq!(mob.attributes, MovementAttributes::card_2());
        assert_eq!(mob.sprite, Sprite::new(CARD_2_COLUMN, CARD_2_ROW, &SHEET));
        assert!(mob.animations.is_empty());
        assert_eq!(mob.movement.velocity(), (0, 0));
        let place = (mob.movement.x_pos(), mob.movement.y_pos());
        assert!(place == (ONE, 0) || place == (ONE, ONE) || place == (2 * ONE, ONE));
    }
}

#[test]
fn new_environment_draws_the_place_of_its_mob() {
    let level = Level { floor: vec![vec![FLOOR; 64]; 64] };
    let first = EnvironmentState::new(spawn((0, 0)), &level, &SHEET);
    let place = first.mobs[0].movement;
    let mut varies = false;
    for _ in 0..200 {
        let next = EnvironmentState::new(spawn((0, 0)), &level, &SHEET);
        varies = varies || next.mobs[0].movement != place;
    }
    assert!(varies);
}

#[test]
fn new_environment_in_a_level_without_free_cells() {
    let level = Level { floor: vec![vec![None, WALL], vec![]] };
    let env = EnvironmentState::new(spawn((5, 5)), &level, &SHEET);
    assert_eq!(env.mobs.len(), 1);
    assert_eq!(env.mobs[0].movement, MovementState::new((0, 0)));
    let env = EnvironmentState::new(spawn((5, 5)), &open_level(), &SHEET);
    assert_eq!(env.mobs.len(), 1);
    assert_eq!(env.mobs[0].movement, MovementState::new((0, 0)));
}

#[test]
fn with_pick_puts_the_mob_on_the_picked_cell() {
    let level = Level { floor: vec![vec![None, FLOOR], vec![WALL, FLOOR, FLOOR]] };
    let places = [(ONE, 0), (ONE, ONE), (2 * ONE, ONE), (ONE, 0), (ONE, ONE)];
    for pick in 0..5 {
        let env = EnvironmentState::with_pick(spawn((7, 7)), &level, &[64, 32], pick);
        assert_eq!(env.player.movement, MovementState::new((7, 7)));
        assert_eq!(env.mobs.len(), 1);
        assert_eq!(env.mobs[0].movement, MovementState::new(places[pick]));
        assert_eq!(env.mobs[0].attributes, MovementAttributes::card_2());
        assert_eq!(
            env.mobs[0].sprite,
            Sprite { column: 21, row: 16, sheet_width: 64, sheet_height: 32 }
        );
        assert!(env.mobs[0].animations.is_empty());
        assert!(env.inactive.is_empty());
        assert_eq!(env.dirs, Direction::empty());
        assert_eq!(env.player_action, None);
    }
}

#[test]
fn sprite_keeps_cell_and_sheet() {
    assert_eq!(
        Sprite::new(3, 4, &[640, 480]),
        Sprite { column: 3, row: 4, sheet_width: 640, sheet_height: 480 }
    );
}

#[test]
fn player_tick_moves_the_player_under_its_command() {
    let mut env = environment(spawn((0, 0)), Vec::new());
    env.dirs = Direction::right();
    let level = open_level();
    env.player_tick(&level);
    assert_eq!(env.player.movement.velocity(), (4096, 0));
    assert_eq!(env.player.movement.x_pos(), 4096);
    env.player_tick(&level);
    assert_eq!(env.player.movement.velocity(), (8192, 0));
    assert_eq!(env.player.movement.x_pos(), 12288);
    assert_eq!(env.dirs, Direction::right());
    assert!(env.player.animations.is_empty());
}

#[test]
fn player_tick_takes_up_the_pending_action() {
    let mut env = environment(spawn((0, 0)), Vec::new());
    env.player_action = Some(ActionType::Attack);
    let level = open_level();
    env.player_tick(&level);
    assert_eq!(env.player_action, None);
    // Queued with eight frames, and one frame shown in the same tick.
    assert_eq!(frames(&env.player), vec![7]);
    env.player_tick(&level);
    assert_eq!(frames(&env.player), vec![6]);
    for _ in 0..5 {
        env.player_tick(&level);
    }
    assert_eq!(frames(&env.player), vec![1]);
    env.player_tick(&level);
    assert!(env.player.animations.is_empty());
}

#[test]
fn player_tick_resolves_collisions() {
    let level = Level { floor: vec![vec![None, Some(Tile { solid: true })]] };
    let mut env = environment(spawn((ONE / 2, 0)), Vec::new());
    env.player_tick(&level);
    assert_eq!(env.player.movement.x_pos(), ONE / 2 - PUSH_OUT);
}

#[test]
fn player_tick_leaves_the_mobs_alone() {
    let mob = spawn((5 * ONE, 5 * ONE));
    let mut env = environment(spawn((0, 0)), vec![mob]);
    env.dirs = Direction::up();
    env.player_tick(&open_level());
    assert_eq!(env.mobs.len(), 1);
    assert_eq!(env.mobs[0].movement, MovementState::new((5 * ONE, 5 * ONE)));
    assert!(env.inactive.is_empty());
}

#[test]
fn mob_tick_lets_every_mob_wander() {
    let mut mobs = Vec::new();
    for i in 0..10 {
        mobs.push(spawn((i * ONE, 0)));
    }
    let mut env = environment(spawn((0, 0)), mobs);
    env.mob_tick(&open_level());
    assert_eq!(env.mobs.len(), 10);
    for (i, mob) in env.mobs.iter().enumerate() {
        let v = mob.movement.velocity();
        assert!(v == (4096, 0) || v == (-4096, 0) || v == (0, 4096) || v == (0, -4096));
        assert_eq!(mob.movement.x_pos(), i as i64 * ONE + v.0);
        assert_eq!(mob.movement.y_pos(), v.1);
    }
    assert_eq!(env.player.movement, MovementState::new((0, 0)));
}

#[test]
fn mob_tick_moves_the_animations_of_every_mob_on() {
    let mut first = spawn((0, 0));
    first.animations.push_back(Animation { frames: 1 });
    first.animations.push_back(Animation { frames: 4 });
    let mut second = spawn((0, 0));
    second.animations.push_back(Animation { frames: 3 });
    let third = spawn((0, 0));
    let player = spawn((0, 0));
    let mut env = environment(player, vec![first, second, third]);
    env.mob_tick(&open_level());
    assert_eq!(frames(&env.mobs[0]), vec![4]);
    assert_eq!(frames(&env.mobs[1]), vec![2]);
    assert!(env.mobs[2].animations.is_empty());
}

#[test]
fn mob_tick_without_mobs_changes_nothing() {
    let mut env = environment(spawn((7, 9)), Vec::new());
    env.dirs = Direction::left();
    env.player_action = Some(ActionType::Attack);
    env.mob_tick(&open_level());
    assert!(env.mobs.is_empty());
    assert_eq!(env.player.movement, MovementState::new((7, 9)));
    assert_eq!(env.dirs, Direction::left());
    assert_eq!(env.player_action, Some(ActionType::Attack));
}
