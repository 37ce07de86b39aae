//! The environment: the player, the mobs, and the order of their ticks
//! within a frame.

use crate::direction::{gen_range, Direction};
use crate::entity::{ActionType, Instance, InstanceView, Sprite};
use crate::envelope::MovementAttributes;
use crate::level::{generate_starting_position, spec_starting_position, Level};
use vstd::prelude::*;

verus! {

/// Column of the card two on the tile sheet.
pub const CARD_2_COLUMN: u32 = 21;

/// Row of the card two on the tile sheet.
pub const CARD_2_ROW: u32 = 16;

/// Everything that lives in a level.
pub struct EnvironmentState {
    pub player: Instance,
    pub mobs: Vec<Instance>,
    pub inactive: Vec<Instance>,
    /// The command that the player is under.
    pub dirs: Direction,
    /// The action that the player takes up at the next tick, if any.
    pub player_action: Option<ActionType>,
}

/// Whether `after` is `before` one frame later, for an entity that wanders:
/// it has moved by one tick under some single direction, and its animations
/// have moved on by one frame.
pub open spec fn spec_wandered(before: InstanceView, after: InstanceView, level: Level) -> bool {
    exists|dirs: Direction|
        dirs.is_single() && after == (#[trigger] before.spec_movement_tick(
            dirs,
            level,
        )).spec_animation_tick()
}

/// The mob that every environment starts with: a card two, at rest at the
/// place that `pick` selects in the level, shown by its cell of the tile
/// sheet of `size` pixels.
pub open spec fn spec_starting_mob(level: Level, size: [u32; 2], pick: int) -> InstanceView {
    InstanceView::spec_spawn(
        MovementAttributes::spec_card_2(),
        spec_starting_position(level, pick).0,
        spec_starting_position(level, pick).1,
        Sprite::spec_new(CARD_2_COLUMN, CARD_2_ROW, size),
    )
}

impl EnvironmentState {
    /// The environment at the start, with its one mob at the place that
    /// `pick` selects: nobody is inactive, and the player is under no command
    /// and has no action to take up.
    pub fn with_pick(player: Instance, level: &Level, size: &[u32; 2], pick: usize) -> (state: Self)
        ensures
            state.player == player,
            state.mobs@.len() == 1,
            state.mobs@[0]@ == spec_starting_mob(*level, *size, pick as int),
            state.inactive@.len() == 0,
            state.dirs.spec_bits() == 0,
            state.player_action is None,
    {
        let position = generate_starting_position(level, pick);
        let sprite = Sprite::new(CARD_2_COLUMN, CARD_2_ROW, size);
        let mob = Instance::spawn(MovementAttributes::card_2(), position, sprite);
        let mut mobs: Vec<Instance> = Vec::new();
        mobs.push(mob);
        EnvironmentState {
            player,
            mobs,
            inactive: Vec::new(),
            dirs: Direction::empty(),
            player_action: None,
        }
    }

    /// The environment at the start: the given player and one mob, a card
    /// two at rest at a place of the level drawn at random among its free
    /// cells, or at the origin where the level has none. Nobody is inactive,
    /// and the player is under no command and has no action to take up.
    pub fn new(player: Instance, level: &Level, size: &[u32; 2]) -> (state: Self)
        ensures
            state.player == player,
            state.mobs@.len() == 1,
            exists|pick: int|
                0 <= pick && state.mobs@[0]@ == #[trigger] spec_starting_mob(*level, *size, pick),
            state.inactive@.len() == 0,
            state.dirs.spec_bits() == 0,
            state.player_action is None,
    {
        let mut rng = rand::thread_rng();
        let pick: i32 = gen_range(&mut rng, 0, i32::MAX);
        Self::with_pick(player, level, size, pick as usize)
    }

    /// The player's part of a frame: the player moves by one tick under
    /// `dirs`, takes up the pending action, which is then pending no more,
    /// and its animations move on by one frame.
    pub fn player_tick(&mut self, level: &Level)
        ensures
            final(self).player@ == old(self).player@.spec_movement_tick(
                old(self).dirs,
                *level,
            ).spec_action_tick(old(self).player_action).spec_animation_tick(),
            final(self).player_action is None,
            final(self).mobs == old(self).mobs,
            final(self).inactive == old(self).inactive,
            final(self).dirs == old(self).dirs,
    {
        self.player.movement_tick(self.dirs, level);
        let action = self.player_action.take();
        self.player.action_tick(action);
        self.player.animation_tick();
    }

    /// The mobs' part of a frame: every mob wanders by one tick, and its
    /// animations move on by one frame.
    pub fn mob_tick(&mut self, level: &Level)
        ensures
            final(self).mobs@.len() == old(self).mobs@.len(),
            forall|i: int|
                0 <= i < old(self).mobs@.len() ==> spec_wandered(
                    old(self).mobs@[i]@,
                    #[trigger] final(self).mobs@[i]@,
                    *level,
                ),
            final(self).player == old(self).player,
            final(self).inactive == old(self).inactive,
            final(self).dirs == old(self).dirs,
            final(self).player_action == old(self).player_action,
    {
        let mut i: usize = 0;
        while i < self.mobs.len()
            invariant
                i <= self.mobs@.len(),
                self.mobs@.len() == old(self).mobs@.len(),
                forall|k: int|
                    0 <= k < i ==> spec_wandered(
                        old(self).mobs@[k]@,
                        #[trigger] self.mobs@[k]@,
                        *level,
                    ),
                forall|k: int| i <= k < self.mobs@.len() ==> self.mobs@[k] == old(self).mobs@[k],
                self.player == old(self).player,
                self.inactive == old(self).inactive,
                self.dirs == old(self).dirs,
                self.player_action == old(self).player_action,
            decreases self.mobs@.len() - i,
        {
            self.mobs[i].ai_tick(level);
            self.mobs[i].animation_tick();
            i += 1;
        }
    }
}

} // verus!
