//! The movement state of one entity, and the tick that advances it.

use crate::direction::{AxisCommand, Direction, XMove, YMove, DOWN_BIT, LEFT_BIT, RIGHT_BIT};
use crate::envelope::{
    axis_step, lemma_attack_run, lemma_attack_travel, lemma_axis_step_bounds,
    lemma_decay_travel_closed_form, lemma_decay_travel_of_rest, lemma_ramp_travel_closed_form,
    lemma_diagonal_cap, lemma_idle_travel, lemma_release_run, lemma_release_travel, speed_caps,
    spec_axis_run, spec_axis_step, spec_axis_travel, spec_decay, spec_decay_travel,
    spec_diagonal_cap, spec_ramp, spec_ramp_travel, spec_speed_caps, MovementAttributes,
};
use crate::level::{lemma_box_from_the_left, Level, Side, SideSet};
use crate::units::{
    clamp_world, in_world, lemma_div_ceil, spec_clamp_world, COLLISION_MULTIPLIER, ONE, PUSH_OUT,
    SPEED_LIMIT,
};
use vstd::prelude::*;

verus! {

/// Position and velocity of an entity as mathematical integers: the model of
/// a `MovementState`.
pub struct Motion {
    pub x: int,
    pub y: int,
    pub x_velo: int,
    pub y_velo: int,
}

/// Where an entity is and how fast it moves. The position is the corner of
/// least coordinates of the entity's unit box; it lies inside the world, and
/// no velocity component exceeds `SPEED_LIMIT`.
#[derive(Clone, Copy, Debug, PartialEq, Eq, Structural)]
pub struct MovementState {
    x: i64,
    y: i64,
    x_velo: i64,
    y_velo: i64,
}

/// What happens to one axis at the end of a tick.
#[derive(Clone, Copy, Debug, PartialEq, Eq, Structural)]
pub enum Resolution {
    /// No wall on this axis: the candidate position and velocity stand.
    Commit,
    /// A wall, and the candidate velocity is zero: the position moves away
    /// from the wall by `PUSH_OUT`, and the velocity is left as it was.
    PushOut,
    /// A wall, and the candidate velocity is not zero: the position is left
    /// as it was, and the velocity is reflected.
    Reflect,
}

/// The resolution of an axis on which a wall was hit or not, with candidate
/// velocity `velocity`.
pub open spec fn spec_resolution(hit: bool, velocity: int) -> Resolution {
    if !hit {
        Resolution::Commit
    } else if velocity == 0 {
        Resolution::PushOut
    } else {
        Resolution::Reflect
    }
}

/// The velocity after a bounce: turned round and scaled by
/// `COLLISION_MULTIPLIER`, rounded toward zero.
pub open spec fn spec_reflect(velocity: int) -> int {
    if velocity >= 0 {
        -((velocity * COLLISION_MULTIPLIER) / (ONE as int))
    } else {
        ((-velocity) * COLLISION_MULTIPLIER) / (ONE as int)
    }
}

/// The push on the vertical axis: toward greater `y` where a top wall was
/// hit, else toward lesser `y`.
pub open spec fn spec_vertical_push(sides: SideSet) -> int {
    if sides.top {
        PUSH_OUT as int
    } else {
        -(PUSH_OUT as int)
    }
}

/// The push on the horizontal axis: toward lesser `x` where a left wall was
/// hit, else toward greater `x`.
pub open spec fn spec_horizontal_push(sides: SideSet) -> int {
    if sides.left {
        -(PUSH_OUT as int)
    } else {
        PUSH_OUT as int
    }
}

/// Position and velocity of one axis after its resolution, given both
/// before the tick (`position`, `velocity`) and as candidates.
pub open spec fn spec_resolve_axis(
    position: int,
    velocity: int,
    candidate: int,
    candidate_velocity: int,
    hit: bool,
    push: int,
) -> (int, int) {
    match spec_resolution(hit, candidate_velocity) {
        Resolution::Commit => (candidate, candidate_velocity),
        Resolution::PushOut => (spec_clamp_world(candidate + push), velocity),
        Resolution::Reflect => (position, spec_reflect(candidate_velocity)),
    }
}

impl Motion {
    /// An entity at rest at `(x, y)`, or at the point of the world nearest
    /// to it.
    pub open spec fn at_rest(x: int, y: int) -> Motion {
        Motion { x: spec_clamp_world(x), y: spec_clamp_world(y), x_velo: 0, y_velo: 0 }
    }

    /// Whether the position lies in the world and the velocity within
    /// `SPEED_LIMIT`.
    pub open spec fn wf(self) -> bool {
        &&& in_world(self.x)
        &&& in_world(self.y)
        &&& -SPEED_LIMIT <= self.x_velo <= SPEED_LIMIT
        &&& -SPEED_LIMIT <= self.y_velo <= SPEED_LIMIT
    }

    /// The candidate of a tick: each axis takes one step of the envelope
    /// under the reduced command, and the new velocity is added to the
    /// position, which stops at the edge of the world.
    pub open spec fn spec_candidate(self, attrs: MovementAttributes, direction: Direction) -> Motion {
        let (x_move, y_move) = direction.spec_reduce();
        let caps = spec_speed_caps(x_move, y_move, attrs.spec_sustain());
        let x_velo = spec_axis_step(
            x_move.spec_command(),
            self.x_velo,
            caps.0,
            attrs.spec_accel(),
            attrs.spec_decel(),
        );
        let y_velo = spec_axis_step(
            y_move.spec_command(),
            self.y_velo,
            caps.1,
            attrs.spec_accel(),
            attrs.spec_decel(),
        );
        Motion {
            x: spec_clamp_world(self.x + x_velo),
            y: spec_clamp_world(self.y + y_velo),
            x_velo,
            y_velo,
        }
    }

    /// The state one tick later: the candidate, resolved against the walls
    /// that its box touches, each axis by itself.
    pub open spec fn spec_tick(
        self,
        attrs: MovementAttributes,
        direction: Direction,
        level: Level,
    ) -> Motion {
        let candidate = self.spec_candidate(attrs, direction);
        let sides = level.spec_collision_sides(candidate.x, candidate.y);
        let vertical = spec_resolve_axis(
            self.y,
            self.y_velo,
            candidate.y,
            candidate.y_velo,
            sides.top || sides.bottom,
            spec_vertical_push(sides),
        );
        let horizontal = spec_resolve_axis(
            self.x,
            self.x_velo,
            candidate.x,
            candidate.x_velo,
            sides.left || sides.right,
            spec_horizontal_push(sides),
        );
        Motion { x: horizontal.0, y: vertical.0, x_velo: horizontal.1, y_velo: vertical.1 }
    }

    /// The state after `n` ticks under one command.
    pub open spec fn spec_run(
        self,
        attrs: MovementAttributes,
        direction: Direction,
        level: Level,
        n: nat,
    ) -> Motion
        decreases n,
    {
        if n == 0 {
            self
        } else {
            self.spec_run(attrs, direction, level, (n - 1) as nat).spec_tick(
                attrs,
                direction,
                level,
            )
        }
    }

    /// The speed along a single direction.
    pub open spec fn forward_speed(self, direction: Direction) -> int {
        if direction.spec_bits() == RIGHT_BIT {
            self.x_velo
        } else if direction.spec_bits() == LEFT_BIT {
            -self.x_velo
        } else if direction.spec_bits() == DOWN_BIT {
            self.y_velo
        } else {
            -self.y_velo
        }
    }

    /// The velocity on the axis across a single direction.
    pub open spec fn side_speed(self, direction: Direction) -> int {
        if direction.spec_bits() == RIGHT_BIT || direction.spec_bits() == LEFT_BIT {
            self.y_velo
        } else {
            self.x_velo
        }
    }

    /// The position along a single direction.
    pub open spec fn forward_position(self, direction: Direction) -> int {
        if direction.spec_bits() == RIGHT_BIT {
            self.x
        } else if direction.spec_bits() == LEFT_BIT {
            -self.x
        } else if direction.spec_bits() == DOWN_BIT {
            self.y
        } else {
            -self.y
        }
    }

    /// The position on the axis across a single direction.
    pub open spec fn side_position(self, direction: Direction) -> int {
        if direction.spec_bits() == RIGHT_BIT || direction.spec_bits() == LEFT_BIT {
            self.y
        } else {
            self.x
        }
    }

    /// Whether the entity can travel `reach` along either axis, either way,
    /// without meeting the edge of the world.
    pub open spec fn has_room(self, reach: int) -> bool {
        &&& in_world(self.x - reach)
        &&& in_world(self.x + reach)
        &&& in_world(self.y - reach)
        &&& in_world(self.y + reach)
    }

    /// A tick keeps the position inside the world and the velocity within
    /// `SPEED_LIMIT`.
    pub proof fn lemma_tick_keeps_bounds(
        self,
        attrs: MovementAttributes,
        direction: Direction,
        level: Level,
    )
        requires
            self.wf(),
            attrs.wf(),
        ensures
            self.spec_tick(attrs, direction, level).wf(),
    {
        let (x_move, y_move) = direction.spec_reduce();
        let caps = spec_speed_caps(x_move, y_move, attrs.spec_sustain());
        let accel = attrs.spec_accel();
        let decel = attrs.spec_decel();
        lemma_div_ceil(attrs.spec_sustain() * ONE, attrs.spec_attack());
        lemma_div_ceil(attrs.spec_sustain() * ONE, attrs.spec_release());
        lemma_diagonal_cap(attrs.spec_sustain());
        lemma_axis_step_bounds(
            x_move.spec_command(),
            self.x_velo,
            caps.0,
            accel,
            decel,
            SPEED_LIMIT as int,
        );
        lemma_axis_step_bounds(
            y_move.spec_command(),
            self.y_velo,
            caps.1,
            accel,
            decel,
            SPEED_LIMIT as int,
        );
        let candidate = self.spec_candidate(attrs, direction);
        lemma_reflect_bounds(candidate.x_velo);
        lemma_reflect_bounds(candidate.y_velo);
    }

    /// In a grid without solid tiles a tick commits its candidate.
    pub proof fn lemma_open_tick(self, attrs: MovementAttributes, direction: Direction, level: Level)
        requires
            level.is_open(),
        ensures
            self.spec_tick(attrs, direction, level) == self.spec_candidate(attrs, direction),
    {
        let candidate = self.spec_candidate(attrs, direction);
        level.lemma_open_level_is_free(candidate.x, candidate.y);
    }

    /// In a grid without solid tiles each axis follows the envelope alone:
    /// its velocity after `n` ticks is that of `n` steps of the axis.
    pub proof fn lemma_open_run_velocity(
        self,
        attrs: MovementAttributes,
        direction: Direction,
        level: Level,
        n: nat,
    )
        requires
            level.is_open(),
        ensures
            self.spec_run(attrs, direction, level, n).x_velo == spec_axis_run(
                direction.spec_reduce().0.spec_command(),
                self.x_velo,
                spec_speed_caps(
                    direction.spec_reduce().0,
                    direction.spec_reduce().1,
                    attrs.spec_sustain(),
                ).0,
                attrs.spec_accel(),
                attrs.spec_decel(),
                n,
            ),
            self.spec_run(attrs, direction, level, n).y_velo == spec_axis_run(
                direction.spec_reduce().1.spec_command(),
                self.y_velo,
                spec_speed_caps(
                    direction.spec_reduce().0,
                    direction.spec_reduce().1,
                    attrs.spec_sustain(),
                ).1,
                attrs.spec_accel(),
                attrs.spec_decel(),
                n,
            ),
        decreases n,
    {
        if n > 0 {
            let before = self.spec_run(attrs, direction, level, (n - 1) as nat);
            self.lemma_open_run_velocity(attrs, direction, level, (n - 1) as nat);
            before.lemma_open_tick(attrs, direction, level);
        }
    }

    /// In a grid without solid tiles, and as long as the path stays inside
    /// the world, the position after `n` ticks is the starting position plus
    /// the travel of each axis.
    pub proof fn lemma_open_run_position(
        self,
        attrs: MovementAttributes,
        direction: Direction,
        level: Level,
        n: nat,
    )
        requires
            level.is_open(),
            forall|k: nat|
                k <= n ==> in_world(
                    self.x + #[trigger] spec_axis_travel(
                        direction.spec_reduce().0.spec_command(),
                        self.x_velo,
                        spec_speed_caps(
                            direction.spec_reduce().0,
                            direction.spec_reduce().1,
                            attrs.spec_sustain(),
                        ).0,
                        attrs.spec_accel(),
                        attrs.spec_decel(),
                        k,
                    ),
                ),
            forall|k: nat|
                k <= n ==> in_world(
                    self.y + #[trigger] spec_axis_travel(
                        direction.spec_reduce().1.spec_command(),
                        self.y_velo,
                        spec_speed_caps(
                            direction.spec_reduce().0,
                            direction.spec_reduce().1,
                            attrs.spec_sustain(),
                        ).1,
                        attrs.spec_accel(),
                        attrs.spec_decel(),
                        k,
                    ),
                ),
        ensures
            self.spec_run(attrs, direction, level, n).x == self.x + spec_axis_travel(
                direction.spec_reduce().0.spec_command(),
                self.x_velo,
                spec_speed_caps(
                    direction.spec_reduce().0,
                    direction.spec_reduce().1,
                    attrs.spec_sustain(),
                ).0,
                attrs.spec_accel(),
                attrs.spec_decel(),
                n,
            ),
            self.spec_run(attrs, direction, level, n).y == self.y + spec_axis_travel(
                direction.spec_reduce().1.spec_command(),
                self.y_velo,
                spec_speed_caps(
                    direction.spec_reduce().0,
                    direction.spec_reduce().1,
                    attrs.spec_sustain(),
                ).1,
                attrs.spec_accel(),
                attrs.spec_decel(),
                n,
            ),
        decreases n,
    {
        let x_command = direction.spec_reduce().0.spec_command();
        let y_command = direction.spec_reduce().1.spec_command();
        let caps = spec_speed_caps(
            direction.spec_reduce().0,
            direction.spec_reduce().1,
            attrs.spec_sustain(),
        );
        let accel = attrs.spec_accel();
        let decel = attrs.spec_decel();
        if n > 0 {
            let before = self.spec_run(attrs, direction, level, (n - 1) as nat);
            self.lemma_open_run_position(attrs, direction, level, (n - 1) as nat);
            self.lemma_open_run_velocity(attrs, direction, level, (n - 1) as nat);
            self.lemma_open_run_velocity(attrs, direction, level, n);
            before.lemma_open_tick(attrs, direction, level);
            assert(in_world(
                self.x + spec_axis_travel(x_command, self.x_velo, caps.0, accel, decel, n),
            ));
            assert(in_world(
                self.y + spec_axis_travel(y_command, self.y_velo, caps.1, accel, decel, n),
            ));
        } else {
            assert(in_world(
                self.x + spec_axis_travel(x_command, self.x_velo, caps.0, accel, decel, 0),
            ));
            assert(in_world(
                self.y + spec_axis_travel(y_command, self.y_velo, caps.1, accel, decel, 0),
            ));
        }
    }

    /// Attack. From rest, under one single direction held in a grid without
    /// solid tiles, the speed along that direction after `n` ticks is `n`
    /// accelerations, capped at the sustain speed. So it never falls, never
    /// exceeds the sustain speed, and equals it once the attack, rounded up
    /// to whole ticks, has passed. The other axis stays at rest.
    pub proof fn lemma_attack_reaches_sustain(
        self,
        attrs: MovementAttributes,
        direction: Direction,
        level: Level,
        n: nat,
    )
        requires
            attrs.wf(),
            level.is_open(),
            direction.is_single(),
            self.x_velo == 0,
            self.y_velo == 0,
        ensures
            self.spec_run(attrs, direction, level, n).forward_speed(direction) == spec_ramp(
                attrs.spec_accel(),
                attrs.spec_sustain(),
                n,
            ),
            self.spec_run(attrs, direction, level, n).side_speed(direction) == 0,
            0 <= spec_ramp(attrs.spec_accel(), attrs.spec_sustain(), n) <= spec_ramp(
                attrs.spec_accel(),
                attrs.spec_sustain(),
                n + 1,
            ) <= attrs.spec_sustain(),
            n >= attrs.spec_attack_ticks() ==> self.spec_run(
                attrs,
                direction,
                level,
                n,
            ).forward_speed(direction) == attrs.spec_sustain(),
    {
        let accel = attrs.spec_accel();
        let decel = attrs.spec_decel();
        let sustain = attrs.spec_sustain();
        lemma_div_ceil(attrs.spec_sustain() * ONE, attrs.spec_attack());
        lemma_div_ceil(attrs.spec_sustain() * ONE, attrs.spec_release());
        direction.lemma_reduce_single();
        self.lemma_open_run_velocity(attrs, direction, level, n);
        lemma_attack_run(AxisCommand::Positive, sustain, accel, decel, n);
        lemma_attack_run(AxisCommand::Negative, sustain, accel, decel, n);
        lemma_attack_run(AxisCommand::Positive, sustain, accel, decel, n + 1);
        lemma_release_run(0, 0, accel, decel, n);
        assert(0 <= n * decel) by (nonlinear_arith)
            requires
                0 < decel,
        ;
        assert(n * accel <= (n + 1) * accel) by (nonlinear_arith)
            requires
                0 < accel,
        ;
        if n >= attrs.spec_attack_ticks() {
            attrs.lemma_attack_completes(sustain, n);
        }
    }

    /// Release. Without a command, in a grid without solid tiles, the speed
    /// of each axis after `n` ticks is its starting speed less `n`
    /// decelerations, stopping at rest. So the velocity never changes sign,
    /// and a velocity no faster than the sustain speed is exactly zero once
    /// the release, rounded up to whole ticks, has passed.
    pub proof fn lemma_release_reaches_rest(
        self,
        attrs: MovementAttributes,
        direction: Direction,
        level: Level,
        n: nat,
    )
        requires
            attrs.wf(),
            level.is_open(),
            direction.spec_reduce() == (XMove::Neutral, YMove::Neutral),
        ensures
            self.x_velo >= 0 ==> self.spec_run(attrs, direction, level, n).x_velo == spec_decay(
                self.x_velo,
                attrs.spec_decel(),
                n,
            ),
            self.x_velo <= 0 ==> self.spec_run(attrs, direction, level, n).x_velo == -spec_decay(
                -self.x_velo,
                attrs.spec_decel(),
                n,
            ),
            self.y_velo >= 0 ==> self.spec_run(attrs, direction, level, n).y_velo == spec_decay(
                self.y_velo,
                attrs.spec_decel(),
                n,
            ),
            self.y_velo <= 0 ==> self.spec_run(attrs, direction, level, n).y_velo == -spec_decay(
                -self.y_velo,
                attrs.spec_decel(),
                n,
            ),
            self.x_velo >= 0 ==> 0 <= self.spec_run(attrs, direction, level, n).x_velo
                <= self.x_velo,
            self.x_velo <= 0 ==> self.x_velo <= self.spec_run(attrs, direction, level, n).x_velo
                <= 0,
            self.y_velo >= 0 ==> 0 <= self.spec_run(attrs, direction, level, n).y_velo
                <= self.y_velo,
            self.y_velo <= 0 ==> self.y_velo <= self.spec_run(attrs, direction, level, n).y_velo
                <= 0,
            n >= attrs.spec_release_ticks() && -attrs.spec_sustain() <= self.x_velo <= attrs.spec_sustain()
                ==> self.spec_run(attrs, direction, level, n).x_velo == 0,
            n >= attrs.spec_release_ticks() && -attrs.spec_sustain() <= self.y_velo <= attrs.spec_sustain()
                ==> self.spec_run(attrs, direction, level, n).y_velo == 0,
    {
        let accel = attrs.spec_accel();
        let decel = attrs.spec_decel();
        lemma_div_ceil(attrs.spec_sustain() * ONE, attrs.spec_release());
        self.lemma_open_run_velocity(attrs, direction, level, n);
        lemma_release_run(self.x_velo, 0, accel, decel, n);
        lemma_release_run(self.y_velo, 0, accel, decel, n);
        assert(0 <= n * decel) by (nonlinear_arith)
            requires
                0 < decel,
        ;
        if n >= attrs.spec_release_ticks() {
            if 0 <= self.x_velo <= attrs.spec_sustain() {
                attrs.lemma_release_completes(self.x_velo, n);
            }
            if 0 <= -self.x_velo <= attrs.spec_sustain() {
                attrs.lemma_release_completes(-self.x_velo, n);
            }
            if 0 <= self.y_velo <= attrs.spec_sustain() {
                attrs.lemma_release_completes(self.y_velo, n);
            }
            if 0 <= -self.y_velo <= attrs.spec_sustain() {
                attrs.lemma_release_completes(-self.y_velo, n);
            }
        }
    }

    /// Diagonal movement. From rest, under a command on both axes held in a
    /// grid without solid tiles, each axis has reached the diagonal cap
    /// once the attack has passed. The velocity vector is then no longer
    /// than the sustain speed, and one more unit on each axis would make it
    /// longer: the diagonal speed is the sustain speed, not that speed on
    /// each axis.
    pub proof fn lemma_diagonal_speed(
        self,
        attrs: MovementAttributes,
        direction: Direction,
        level: Level,
        n: nat,
    )
        requires
            attrs.wf(),
            level.is_open(),
            direction.spec_reduce().0 != XMove::Neutral,
            direction.spec_reduce().1 != YMove::Neutral,
            self.x_velo == 0,
            self.y_velo == 0,
            n >= attrs.spec_attack_ticks(),
        ensures
            ({
                let end = self.spec_run(attrs, direction, level, n);
                let cap = spec_diagonal_cap(attrs.spec_sustain());
                &&& end.x_velo == (if direction.spec_reduce().0 == XMove::Right {
                    cap
                } else {
                    -cap
                })
                &&& end.y_velo == (if direction.spec_reduce().1 == YMove::Down {
                    cap
                } else {
                    -cap
                })
                &&& end.x_velo * end.x_velo + end.y_velo * end.y_velo <= attrs.spec_sustain()
                    * attrs.spec_sustain()
                &&& attrs.spec_sustain() * attrs.spec_sustain() < 2 * ((cap + 1) * (cap + 1))
            }),
    {
        let accel = attrs.spec_accel();
        let decel = attrs.spec_decel();
        let sustain = attrs.spec_sustain();
        let cap = spec_diagonal_cap(sustain);
        let end = self.spec_run(attrs, direction, level, n);
        lemma_diagonal_cap(sustain);
        attrs.lemma_attack_completes(cap, n);
        self.lemma_open_run_velocity(attrs, direction, level, n);
        lemma_attack_run(AxisCommand::Positive, cap, accel, decel, n);
        lemma_attack_run(AxisCommand::Negative, cap, accel, decel, n);
        assert(end.x_velo * end.x_velo == cap * cap) by (nonlinear_arith)
            requires
                end.x_velo == cap || end.x_velo == -cap,
        ;
        assert(end.y_velo * end.y_velo == cap * cap) by (nonlinear_arith)
            requires
                end.y_velo == cap || end.y_velo == -cap,
        ;
    }

    /// Bounce. Where the candidate box of a tick touches a left or a right
    /// wall and the candidate velocity on the horizontal axis is not zero,
    /// the tick leaves `x` as it was and reflects the candidate velocity.
    /// For an entity that moves right at its cap under the command *right*,
    /// the candidate velocity is the velocity before the tick.
    pub proof fn lemma_moving_collision_reflects(
        self,
        attrs: MovementAttributes,
        direction: Direction,
        level: Level,
        row: int,
        col: int,
    )
        requires
            attrs.wf(),
            self.spec_candidate(attrs, direction).x_velo != 0,
            level.hits(
                self.spec_candidate(attrs, direction).x,
                self.spec_candidate(attrs, direction).y,
                row,
                col,
                Side::Left,
            ) || level.hits(
                self.spec_candidate(attrs, direction).x,
                self.spec_candidate(attrs, direction).y,
                row,
                col,
                Side::Right,
            ),
        ensures
            self.spec_tick(attrs, direction, level).x == self.x,
            self.spec_tick(attrs, direction, level).x_velo == spec_reflect(
                self.spec_candidate(attrs, direction).x_velo,
            ),
            direction.spec_reduce().0 == XMove::Right && self.x_velo == spec_speed_caps(
                direction.spec_reduce().0,
                direction.spec_reduce().1,
                attrs.spec_sustain(),
            ).0 ==> self.spec_tick(attrs, direction, level).x_velo == spec_reflect(self.x_velo),
    {
        lemma_div_ceil(attrs.spec_sustain() * ONE, attrs.spec_attack());
        lemma_diagonal_cap(attrs.spec_sustain());
    }

    /// A solid tile directly to the right. Where the candidate box of a tick
    /// stands in the row of a solid tile and reaches into it from the left,
    /// with a candidate velocity to the right, the tick leaves `x` as it was
    /// and reflects that velocity.
    pub proof fn lemma_wall_to_the_right_reflects(
        self,
        attrs: MovementAttributes,
        direction: Direction,
        level: Level,
        row: int,
        col: int,
    )
        requires
            attrs.wf(),
            level.solid_at(row, col),
            self.spec_candidate(attrs, direction).x_velo > 0,
            self.spec_candidate(attrs, direction).y == row * ONE,
            col * ONE - ONE < self.spec_candidate(attrs, direction).x < col * ONE,
        ensures
            self.spec_tick(attrs, direction, level).x == self.x,
            self.spec_tick(attrs, direction, level).x_velo == spec_reflect(
                self.spec_candidate(attrs, direction).x_velo,
            ),
            self.spec_tick(attrs, direction, level).x_velo <= 0,
    {
        let candidate = self.spec_candidate(attrs, direction);
        lemma_box_from_the_left(candidate.x, candidate.y, col, row);
        self.lemma_moving_collision_reflects(attrs, direction, level, row, col);
        lemma_reflect_bounds(candidate.x_velo);
    }

    /// Push-out. An entity inside the world, at rest on the horizontal
    /// axis and without a command on it, whose box touches the left wall of
    /// a solid tile, is moved left by `PUSH_OUT`, and stays at rest on that
    /// axis.
    pub proof fn lemma_resting_collision_pushes_left(
        self,
        attrs: MovementAttributes,
        direction: Direction,
        level: Level,
        row: int,
        col: int,
    )
        requires
            attrs.wf(),
            self.wf(),
            self.x_velo == 0,
            direction.spec_reduce().0 == XMove::Neutral,
            level.hits(
                self.x,
                self.spec_candidate(attrs, direction).y,
                row,
                col,
                Side::Left,
            ),
        ensures
            self.spec_candidate(attrs, direction).x == self.x,
            self.spec_tick(attrs, direction, level).x == self.x - PUSH_OUT,
            self.spec_tick(attrs, direction, level).x_velo == 0,
    {
        lemma_div_ceil(attrs.spec_sustain() * ONE, attrs.spec_release());
    }

    /// Round trip. From rest, in a grid without solid tiles and with room
    /// in the world, `attack_ticks` ticks under one single direction followed
    /// by `release_ticks` ticks without a command, each phase at least as
    /// long as the envelope asks, bring the entity to rest again. It has
    /// then moved along the direction by the sum of its speeds after each
    /// tick, and not at all across it.
    pub proof fn lemma_attack_release_round_trip(
        self,
        attrs: MovementAttributes,
        direction: Direction,
        idle: Direction,
        level: Level,
        attack_ticks: nat,
        release_ticks: nat,
    )
        requires
            attrs.wf(),
            level.is_open(),
            direction.is_single(),
            idle.spec_bits() == 0,
            self.x_velo == 0,
            self.y_velo == 0,
            attack_ticks >= attrs.spec_attack_ticks(),
            release_ticks >= attrs.spec_release_ticks(),
            self.has_room((attack_ticks + release_ticks) * attrs.spec_sustain()),
        ensures
            ({
                let turn = self.spec_run(attrs, direction, level, attack_ticks);
                let end = turn.spec_run(attrs, idle, level, release_ticks);
                &&& end.x_velo == 0
                &&& end.y_velo == 0
                &&& end.forward_position(direction) == self.forward_position(direction)
                    + spec_ramp_travel(attrs.spec_accel(), attrs.spec_sustain(), attack_ticks)
                    + spec_decay_travel(attrs.spec_sustain(), attrs.spec_decel(), release_ticks)
                &&& end.side_position(direction) == self.side_position(direction)
            }),
    {
        let accel = attrs.spec_accel();
        let decel = attrs.spec_decel();
        let sustain = attrs.spec_sustain();
        let turn = self.spec_run(attrs, direction, level, attack_ticks);
        let end = turn.spec_run(attrs, idle, level, release_ticks);
        let reach = (attack_ticks + release_ticks) * attrs.spec_sustain();
        lemma_div_ceil(attrs.spec_sustain() * ONE, attrs.spec_attack());
        lemma_div_ceil(attrs.spec_sustain() * ONE, attrs.spec_release());
        direction.lemma_reduce_single();
        idle.lemma_reduce_single();
        assert(reach == attack_ticks * sustain + release_ticks * sustain) by (nonlinear_arith)
            requires
                reach == (attack_ticks + release_ticks) * sustain,
        ;
        assert(0 <= release_ticks * sustain) by (nonlinear_arith)
            requires
                0 < sustain,
        ;
        // The attack.
        self.lemma_attack_reaches_sustain(attrs, direction, level, attack_ticks);
        let (x_move, y_move) = direction.spec_reduce();
        let caps = spec_speed_caps(x_move, y_move, sustain);
        assert forall|k: nat| k <= attack_ticks implies in_world(
            self.x + #[trigger] spec_axis_travel(
                x_move.spec_command(),
                self.x_velo,
                caps.0,
                accel,
                decel,
                k,
            ),
        ) by {
            lemma_idle_travel(caps.0, accel, decel, k);
            lemma_attack_travel(x_move.spec_command(), sustain, accel, decel, k);
            assert(k * sustain <= attack_ticks * sustain) by (nonlinear_arith)
                requires
                    k <= attack_ticks,
                    0 < sustain,
            ;
        }
        assert forall|k: nat| k <= attack_ticks implies in_world(
            self.y + #[trigger] spec_axis_travel(
                y_move.spec_command(),
                self.y_velo,
                caps.1,
                accel,
                decel,
                k,
            ),
        ) by {
            lemma_idle_travel(caps.1, accel, decel, k);
            lemma_attack_travel(y_move.spec_command(), sustain, accel, decel, k);
            assert(k * sustain <= attack_ticks * sustain) by (nonlinear_arith)
                requires
                    k <= attack_ticks,
                    0 < sustain,
            ;
        }
        self.lemma_open_run_position(attrs, direction, level, attack_ticks);
        lemma_idle_travel(caps.0, accel, decel, attack_ticks);
        lemma_idle_travel(caps.1, accel, decel, attack_ticks);
        lemma_attack_travel(x_move.spec_command(), sustain, accel, decel, attack_ticks);
        lemma_attack_travel(y_move.spec_command(), sustain, accel, decel, attack_ticks);
        // The release.
        turn.lemma_release_reaches_rest(attrs, idle, level, release_ticks);
        assert forall|k: nat| k <= release_ticks implies in_world(
            turn.x + #[trigger] spec_axis_travel(
                AxisCommand::Neutral,
                turn.x_velo,
                0,
                accel,
                decel,
                k,
            ),
        ) by {
            lemma_release_travel(turn.x_velo, 0, accel, decel, k);
            lemma_release_travel(-turn.x_velo, 0, accel, decel, k);
            assert(k * sustain <= release_ticks * sustain) by (nonlinear_arith)
                requires
                    k <= release_ticks,
                    0 < sustain,
            ;
            assert(k * 0 == 0) by (nonlinear_arith);
        }
        assert forall|k: nat| k <= release_ticks implies in_world(
            turn.y + #[trigger] spec_axis_travel(
                AxisCommand::Neutral,
                turn.y_velo,
                0,
                accel,
                decel,
                k,
            ),
        ) by {
            lemma_release_travel(turn.y_velo, 0, accel, decel, k);
            lemma_release_travel(-turn.y_velo, 0, accel, decel, k);
            assert(k * sustain <= release_ticks * sustain) by (nonlinear_arith)
                requires
                    k <= release_ticks,
                    0 < sustain,
            ;
            assert(k * 0 == 0) by (nonlinear_arith);
        }
        turn.lemma_open_run_position(attrs, idle, level, release_ticks);
        lemma_release_travel(turn.x_velo, 0, accel, decel, release_ticks);
        lemma_release_travel(-turn.x_velo, 0, accel, decel, release_ticks);
        lemma_release_travel(turn.y_velo, 0, accel, decel, release_ticks);
        lemma_release_travel(-turn.y_velo, 0, accel, decel, release_ticks);
        lemma_decay_travel_of_rest(decel, release_ticks);
    }

    /// Running into the only wall. An entity that moves right at its
    /// sustain speed under the command *right*, in the row of the only solid
    /// tile of the level, and whose box one step further reaches into that
    /// tile, keeps its place on both axes: the tick reflects its velocity
    /// and leaves the vertical axis at rest. The step must end inside the
    /// world.
    pub proof fn lemma_sustained_run_into_the_only_wall(
        self,
        attrs: MovementAttributes,
        direction: Direction,
        level: Level,
        row: int,
        col: int,
    )
        requires
            attrs.wf(),
            self.wf(),
            direction.spec_bits() == RIGHT_BIT,
            self.x_velo == attrs.spec_sustain(),
            self.y_velo == 0,
            level.solid_at(row, col),
            forall|r: int, c: int| level.solid_at(r, c) ==> r == row && c == col,
            self.y == row * ONE,
            col * ONE - ONE < self.x + self.x_velo < col * ONE,
            in_world(self.x + self.x_velo),
        ensures
            self.spec_tick(attrs, direction, level).x == self.x,
            self.spec_tick(attrs, direction, level).y == self.y,
            self.spec_tick(attrs, direction, level).x_velo == spec_reflect(self.x_velo),
            self.spec_tick(attrs, direction, level).y_velo == 0,
    {
        lemma_div_ceil(attrs.spec_sustain() * ONE, attrs.spec_attack());
        lemma_div_ceil(attrs.spec_sustain() * ONE, attrs.spec_release());
        direction.lemma_reduce_single();
        let candidate = self.spec_candidate(attrs, direction);
        assert(candidate.x_velo == self.x_velo);
        assert(candidate.y_velo == 0);
        assert(candidate.x == self.x + self.x_velo);
        assert(candidate.y == self.y);
        lemma_box_from_the_left(candidate.x, candidate.y, col, row);
        assert(level.hits(candidate.x, candidate.y, row, col, Side::Left));
        assert(!level.records(candidate.x, candidate.y, Side::Top));
        assert(!level.records(candidate.x, candidate.y, Side::Bottom));
    }

    /// Round trip in whole ticks. Where the attack and the release are
    /// whole numbers of ticks that divide the sustain speed, the offset of
    /// the round trip has a closed form: the sustain speed times half of
    /// `attack + 1` for the attack, the sustain speed for every tick held
    /// after it, and the sustain speed times half of `release - 1` for the
    /// release. The trip needs a grid without solid tiles and room in the
    /// world.
    pub proof fn lemma_round_trip_in_whole_ticks(
        self,
        attrs: MovementAttributes,
        direction: Direction,
        idle: Direction,
        level: Level,
        attack: nat,
        release: nat,
        held: nat,
        idled: nat,
    )
        requires
            attrs.wf(),
            level.is_open(),
            direction.is_single(),
            idle.spec_bits() == 0,
            self.x_velo == 0,
            self.y_velo == 0,
            attrs.spec_attack() == attack * ONE,
            attrs.spec_release() == release * ONE,
            attrs.spec_sustain() % (attack as int) == 0,
            attrs.spec_sustain() % (release as int) == 0,
            held >= attack,
            idled >= release,
            self.has_room((held + idled) * attrs.spec_sustain()),
        ensures
            ({
                let turn = self.spec_run(attrs, direction, level, held);
                let end = turn.spec_run(attrs, idle, level, idled);
                &&& end.x_velo == 0
                &&& end.y_velo == 0
                &&& 2 * (end.forward_position(direction) - self.forward_position(direction))
                    == attrs.spec_sustain() * (attack + 1) + 2 * (attrs.spec_sustain() * (held
                    - attack)) + attrs.spec_sustain() * (release - 1)
                &&& end.side_position(direction) == self.side_position(direction)
            }),
    {
        attrs.lemma_whole_attack(attack);
        attrs.lemma_whole_release(release);
        self.lemma_attack_release_round_trip(attrs, direction, idle, level, held, idled);
        let accel = attrs.spec_accel();
        let decel = attrs.spec_decel();
        lemma_ramp_travel_closed_form(accel, attack, held);
        lemma_decay_travel_closed_form(decel, release, idled);
        assert(accel * attack == attrs.spec_sustain());
        assert(decel * release == attrs.spec_sustain());
    }
}

/// A bounce never gains speed, and turns the velocity round.
pub proof fn lemma_reflect_bounds(velocity: int)
    ensures
        velocity >= 0 ==> -velocity <= spec_reflect(velocity) <= 0,
        velocity <= 0 ==> 0 <= spec_reflect(velocity) <= -velocity,
{
}

/// The resolution of an axis.
pub fn resolution(hit: bool, velocity: i64) -> (r: Resolution)
    ensures
        r == spec_resolution(hit, velocity as int),
{
    if !hit {
        Resolution::Commit
    } else if velocity == 0 {
        Resolution::PushOut
    } else {
        Resolution::Reflect
    }
}

/// The velocity after a bounce. The result is never faster than `velocity`.
pub fn reflect(velocity: i64) -> (r: i64)
    requires
        -SPEED_LIMIT <= velocity <= SPEED_LIMIT,
    ensures
        r == spec_reflect(velocity as int),
        velocity >= 0 ==> -velocity <= r <= 0,
        velocity <= 0 ==> 0 <= r <= -velocity,
{
    if velocity >= 0 {
        -((velocity * COLLISION_MULTIPLIER) / ONE)
    } else {
        ((-velocity) * COLLISION_MULTIPLIER) / ONE
    }
}

/// Resolves one axis: commits the candidate, pushes the position out of the
/// wall, or reflects the velocity.
pub fn resolve_axis(
    position: i64,
    velocity: i64,
    candidate: i64,
    candidate_velocity: i64,
    hit: bool,
    push: i64,
) -> (r: (i64, i64))
    requires
        in_world(position as int),
        in_world(candidate as int),
        -SPEED_LIMIT <= velocity <= SPEED_LIMIT,
        -SPEED_LIMIT <= candidate_velocity <= SPEED_LIMIT,
        -PUSH_OUT <= push <= PUSH_OUT,
    ensures
        r.0 == spec_resolve_axis(
            position as int,
            velocity as int,
            candidate as int,
            candidate_velocity as int,
            hit,
            push as int,
        ).0,
        r.1 == spec_resolve_axis(
            position as int,
            velocity as int,
            candidate as int,
            candidate_velocity as int,
            hit,
            push as int,
        ).1,
        in_world(r.0 as int),
        -SPEED_LIMIT <= r.1 <= SPEED_LIMIT,
{
    match resolution(hit, candidate_velocity) {
        Resolution::Commit => (candidate, candidate_velocity),
        Resolution::PushOut => (clamp_world(candidate + push), velocity),
        Resolution::Reflect => (position, reflect(candidate_velocity)),
    }
}

impl MovementState {
    #[verifier::type_invariant]
    spec fn in_bounds(self) -> bool {
        &&& in_world(self.x as int)
        &&& in_world(self.y as int)
        &&& -SPEED_LIMIT <= self.x_velo <= SPEED_LIMIT
        &&& -SPEED_LIMIT <= self.y_velo <= SPEED_LIMIT
    }

    /// Position and velocity as mathematical integers.
    pub closed spec fn view(self) -> Motion {
        Motion {
            x: self.x as int,
            y: self.y as int,
            x_velo: self.x_velo as int,
            y_velo: self.y_velo as int,
        }
    }

    /// An entity at rest at `(x, y)`. A coordinate outside the world is
    /// moved to the edge of the world.
    pub fn new(position: (i64, i64)) -> (state: Self)
        ensures
            state@ == Motion::at_rest(position.0 as int, position.1 as int),
            state@.wf(),
    {
        MovementState {
            x: clamp_world(position.0),
            y: clamp_world(position.1),
            x_velo: 0,
            y_velo: 0,
        }
    }

    /// Advances the entity by one tick under the command `apply_direction`.
    ///
    /// The command is reduced to one command per axis; each axis takes one
    /// step of the envelope; the new velocity is added to the position; and
    /// the unit box at that candidate position is tested against every solid
    /// tile of `level`. Then the vertical axis and the horizontal axis are
    /// resolved, each by itself: without a wall on the axis the candidate is
    /// committed, with a wall and zero velocity the position is pushed out by
    /// `PUSH_OUT`, and with a wall and some velocity the velocity is
    /// reflected and the position kept.
    pub fn tick(&mut self, attrs: &MovementAttributes, apply_direction: Direction, level: &Level)
        ensures
            final(self)@ == old(self)@.spec_tick(*attrs, apply_direction, *level),
            final(self)@.wf(),
    {
        proof {
            use_type_invariant(&*self);
        }
        let (x_move, y_move) = apply_direction.reduce();
        let (cap_x, cap_y) = speed_caps(x_move, y_move, attrs.sustain());
        let accel: i64 = attrs.accel();
        let decel: i64 = attrs.decel();
        let x_velo: i64 = axis_step(x_move.command(), self.x_velo, cap_x, accel, decel);
        let y_velo: i64 = axis_step(y_move.command(), self.y_velo, cap_y, accel, decel);
        let new_x: i64 = clamp_world(self.x + x_velo);
        let new_y: i64 = clamp_world(self.y + y_velo);
        let sides = level.collision_sides(new_x, new_y);
        let push_y: i64 = if sides.top {
            PUSH_OUT
        } else {
            -PUSH_OUT
        };
        let push_x: i64 = if sides.left {
            -PUSH_OUT
        } else {
            PUSH_OUT
        };
        let vertical = resolve_axis(
            self.y,
            self.y_velo,
            new_y,
            y_velo,
            sides.top || sides.bottom,
            push_y,
        );
        let horizontal = resolve_axis(
            self.x,
            self.x_velo,
            new_x,
            x_velo,
            sides.left || sides.right,
            push_x,
        );
        *self = MovementState {
            x: horizontal.0,
            y: vertical.0,
            x_velo: horizontal.1,
            y_velo: vertical.1,
        };
    }

    /// The `x` coordinate, in fixed point.
    pub fn x_pos(&self) -> (x: i64)
        ensures
            x == self@.x,
            in_world(x as int),
    {
        proof {
            use_type_invariant(self);
        }
        self.x
    }

    /// The `y` coordinate, in fixed point.
    pub fn y_pos(&self) -> (y: i64)
        ensures
            y == self@.y,
            in_world(y as int),
    {
        proof {
            use_type_invariant(self);
        }
        self.y
    }

    /// The velocity, `x` component first, in fixed point.
    pub fn velocity(&self) -> (v: (i64, i64))
        ensures
            v.0 == self@.x_velo,
            v.1 == self@.y_velo,
            -SPEED_LIMIT <= v.0 <= SPEED_LIMIT,
            -SPEED_LIMIT <= v.1 <= SPEED_LIMIT,
    {
        proof {
            use_type_invariant(self);
        }
        (self.x_velo, self.y_velo)
    }
}

} // verus!
