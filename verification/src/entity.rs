//! Entities: an envelope, a movement state and a queue of animations.

use crate::direction::{random_direction, Direction};
use crate::envelope::MovementAttributes;
use crate::level::Level;
use crate::movement::{Motion, MovementState};
use std::collections::VecDeque;
use vstd::prelude::*;

verus! {

/// Frames of the animation that an attack starts.
pub const ATTACK_FRAMES: u32 = 8;

/// A running animation: the frames that it has still to show.
#[derive(Clone, Copy, Debug, PartialEq, Eq, Structural)]
pub struct Animation {
    pub frames: u32,
}

/// The cell of a tile sheet that shows an entity, and the size of the sheet
/// in pixels.
#[derive(Clone, Copy, Debug, PartialEq, Eq, Structural)]
pub struct Sprite {
    pub column: u32,
    pub row: u32,
    pub sheet_width: u32,
    pub sheet_height: u32,
}

/// What an entity can be told to do besides moving.
#[derive(Clone, Copy, Debug, PartialEq, Eq, Structural)]
pub enum ActionType {
    Attack,
}

/// One entity of the environment.
pub struct Instance {
    pub attributes: MovementAttributes,
    pub movement: MovementState,
    pub sprite: Sprite,
    pub animations: VecDeque<Animation>,
}

/// The model of an `Instance`.
pub struct InstanceView {
    pub attributes: MovementAttributes,
    pub motion: Motion,
    pub sprite: Sprite,
    pub animations: Seq<Animation>,
}

impl Sprite {
    /// The sprite in column `column` and row `row` of a sheet of `size`
    /// pixels, width first.
    pub open spec fn spec_new(column: u32, row: u32, size: [u32; 2]) -> Sprite {
        Sprite { column, row, sheet_width: size@[0], sheet_height: size@[1] }
    }

    /// The sprite in column `column` and row `row` of a sheet of `size`
    /// pixels, width first.
    pub fn new(column: u32, row: u32, size: &[u32; 2]) -> (sprite: Sprite)
        ensures
            sprite == Self::spec_new(column, row, *size),
    {
        Sprite { column, row, sheet_width: size[0], sheet_height: size[1] }
    }
}

impl InstanceView {
    /// A new entity at rest at `(x, y)`, or at the point of the world
    /// nearest to it, without animations.
    pub open spec fn spec_spawn(
        attributes: MovementAttributes,
        x: int,
        y: int,
        sprite: Sprite,
    ) -> InstanceView {
        InstanceView {
            attributes,
            motion: Motion::at_rest(x, y),
            sprite,
            animations: Seq::empty(),
        }
    }
}

impl Animation {
    /// The animation one frame later. One without frames stays as it is.
    pub open spec fn spec_tick(self) -> Animation {
        Animation {
            frames: if self.frames > 0 {
                (self.frames - 1) as u32
            } else {
                0
            },
        }
    }

    /// Shows one frame, and says whether the animation has ended with it.
    pub fn tick(&mut self) -> (ended: bool)
        ensures
            *final(self) == old(self).spec_tick(),
            ended == (final(self).frames == 0),
    {
        if self.frames > 0 {
            self.frames = self.frames - 1;
        }
        self.frames == 0
    }
}

impl ActionType {
    /// The animation that the action starts.
    pub open spec fn spec_animation(self) -> Animation {
        match self {
            ActionType::Attack => Animation { frames: ATTACK_FRAMES },
        }
    }

    /// The animation that the action starts.
    pub fn animation(self) -> (a: Animation)
        ensures
            a == self.spec_animation(),
    {
        match self {
            ActionType::Attack => Animation { frames: ATTACK_FRAMES },
        }
    }
}

/// A queue of animations one frame later: the one in front shows a frame,
/// and leaves the queue if that was its last.
pub open spec fn spec_advance(animations: Seq<Animation>) -> Seq<Animation> {
    if animations.len() == 0 {
        animations
    } else if animations[0].spec_tick().frames == 0 {
        animations.subrange(1, animations.len() as int)
    } else {
        animations.update(0, animations[0].spec_tick())
    }
}

impl InstanceView {
    /// The entity after one tick of movement under `dirs`.
    pub open spec fn spec_movement_tick(self, dirs: Direction, level: Level) -> InstanceView {
        InstanceView { motion: self.motion.spec_tick(self.attributes, dirs, level), ..self }
    }

    /// The entity after it has taken up `action`: the animation of the
    /// action joins the queue at the back.
    pub open spec fn spec_action_tick(self, action: Option<ActionType>) -> InstanceView {
        match action {
            Some(a) => InstanceView { animations: self.animations.push(a.spec_animation()), ..self },
            None => self,
        }
    }

    /// The entity after its animations have moved on by one frame.
    pub open spec fn spec_animation_tick(self) -> InstanceView {
        InstanceView { animations: spec_advance(self.animations), ..self }
    }
}

impl View for Instance {
    type V = InstanceView;

    open spec fn view(&self) -> InstanceView {
        InstanceView {
            attributes: self.attributes,
            motion: self.movement@,
            sprite: self.sprite,
            animations: self.animations@,
        }
    }
}

impl Instance {
    /// A new entity with the envelope `attributes` and the sprite `sprite`,
    /// at rest at `position` and without animations.
    pub fn spawn(attributes: MovementAttributes, position: (i64, i64), sprite: Sprite) -> (instance:
        Instance)
        ensures
            instance@ == InstanceView::spec_spawn(
                attributes,
                position.0 as int,
                position.1 as int,
                sprite,
            ),
    {
        Instance {
            attributes,
            movement: MovementState::new(position),
            sprite,
            animations: VecDeque::new(),
        }
    }

    /// Moves the entity by one tick under the command `dirs`.
    pub fn movement_tick(&mut self, dirs: Direction, level: &Level)
        ensures
            final(self)@ == old(self)@.spec_movement_tick(dirs, *level),
    {
        self.movement.tick(&self.attributes, dirs, level);
    }

    /// Takes up `action`, if there is one: its animation joins the queue.
    pub fn action_tick(&mut self, action: Option<ActionType>)
        ensures
            final(self)@ == old(self)@.spec_action_tick(action),
    {
        if let Some(a) = action {
            self.animations.push_back(a.animation());
        }
    }

    /// Moves the animations on by one frame: the one in front shows a
    /// frame, and leaves the queue if that was its last.
    pub fn animation_tick(&mut self)
        ensures
            final(self)@ == old(self)@.spec_animation_tick(),
    {
        if let Some(front) = self.animations.pop_front() {
            let mut animation = front;
            if !animation.tick() {
                self.animations.push_front(animation);
                assert(self.animations@ =~= old(self).animations@.update(
                    0,
                    old(self).animations@[0].spec_tick(),
                ));
            }
        }
    }

    /// Lets the entity wander: it moves by one tick under a direction drawn
    /// at random among the four single directions.
    pub fn ai_tick(&mut self, level: &Level)
        ensures
            exists|dirs: Direction|
                dirs.is_single() && final(self)@ == #[trigger] old(self)@.spec_movement_tick(
                    dirs,
                    *level,
                ),
    {
        let dirs = random_direction();
        self.movement_tick(dirs, level);
    }
}

} // verus!
