//! The velocity envelope: how fast an entity gains and loses speed, and the
//! rule that advances the velocity along one axis by one tick.

use crate::direction::{AxisCommand, XMove, YMove};
use crate::units::{
    div_ceil, isqrt, lemma_div_ceil, lemma_isqrt_bounds, spec_div_ceil, spec_isqrt, ONE,
    SPEED_LIMIT, SUSTAIN_LIMIT,
};
use vstd::prelude::*;

verus! {

/// The envelope of an entity archetype, in fixed point: the attack in ticks
/// from rest to the sustain speed, the sustain speed in tiles per tick, and
/// the release in ticks from the sustain speed to rest. All three are
/// positive, and the sustain speed is at most `SUSTAIN_LIMIT`: no other
/// triple can be built.
#[derive(Clone, Copy, Debug, PartialEq, Eq, Structural)]
pub struct MovementAttributes {
    attack: i64,
    sustain: i64,
    release: i64,
}

/// Why a triple of numbers is no envelope.
#[derive(Clone, Copy, Debug, PartialEq, Eq, Structural)]
pub enum EnvelopeError {
    /// The attack is zero or negative.
    Attack,
    /// The sustain speed is zero or negative.
    Sustain,
    /// The sustain speed is above `SUSTAIN_LIMIT`.
    SustainTooFast,
    /// The release is zero or negative.
    Release,
}

/// What the velocity on one axis is doing in a tick.
#[derive(Clone, Copy, Debug, PartialEq, Eq, Structural)]
pub enum Phase {
    /// No command: the speed decays by the deceleration and stops at rest.
    Releasing,
    /// A command against the motion: the speed decays by the deceleration,
    /// and the velocity may pass through rest.
    Braking,
    /// A command with the motion, at or below the cap: the speed grows by
    /// the acceleration and stops at the cap.
    Accelerating,
    /// A command with the motion, above the cap: the speed drops by the
    /// acceleration.
    Shedding,
}

/// The error, if any, that the triple gives: the first of attack, sustain
/// and release that is out of range.
pub open spec fn spec_check(attack: i64, sustain: i64, release: i64) -> Option<EnvelopeError> {
    if attack <= 0 {
        Some(EnvelopeError::Attack)
    } else if sustain <= 0 {
        Some(EnvelopeError::Sustain)
    } else if sustain > SUSTAIN_LIMIT {
        Some(EnvelopeError::SustainTooFast)
    } else if release <= 0 {
        Some(EnvelopeError::Release)
    } else {
        None
    }
}

/// The speed cap on each axis, x first. An axis without a command has cap
/// zero. A lone axis may reach `sustain`. Two commanded axes share the
/// speed: each gets the root of half the square of `sustain`, so that the
/// diagonal speed is `sustain` again.
pub open spec fn spec_speed_caps(x: XMove, y: YMove, sustain: int) -> (int, int) {
    match (x, y) {
        (XMove::Neutral, YMove::Neutral) => (0, 0),
        (_, YMove::Neutral) => (sustain, 0),
        (XMove::Neutral, _) => (0, sustain),
        (_, _) => (spec_diagonal_cap(sustain), spec_diagonal_cap(sustain)),
    }
}

/// The cap of each axis in diagonal movement.
pub open spec fn spec_diagonal_cap(sustain: int) -> int {
    spec_isqrt(((sustain * sustain) / 2) as nat) as int
}

/// `v`, moved toward `target` by `rate` without passing it.
pub open spec fn spec_approach(v: int, target: int, rate: int) -> int {
    if v < target {
        vstd::math::min(v + rate, target)
    } else {
        vstd::math::max(v - rate, target)
    }
}

/// The phase of an axis with command `command`, velocity `v` and cap `cap`.
pub open spec fn spec_phase(command: AxisCommand, v: int, cap: int) -> Phase {
    match command {
        AxisCommand::Neutral => Phase::Releasing,
        AxisCommand::Positive => if v < 0 {
            Phase::Braking
        } else if v <= cap {
            Phase::Accelerating
        } else {
            Phase::Shedding
        },
        AxisCommand::Negative => if v > 0 {
            Phase::Braking
        } else if v >= -cap {
            Phase::Accelerating
        } else {
            Phase::Shedding
        },
    }
}

/// The velocity of an axis one tick later.
pub open spec fn spec_axis_step(
    command: AxisCommand,
    v: int,
    cap: int,
    accel: int,
    decel: int,
) -> int {
    match command {
        AxisCommand::Neutral => spec_approach(v, 0, decel),
        AxisCommand::Positive => if v < 0 {
            v + decel
        } else if v <= cap {
            spec_approach(v, cap, accel)
        } else {
            v - accel
        },
        AxisCommand::Negative => if v > 0 {
            v - decel
        } else if v >= -cap {
            spec_approach(v, -cap, accel)
        } else {
            v + accel
        },
    }
}

/// The velocity of an axis after `n` ticks under one command.
pub open spec fn spec_axis_run(
    command: AxisCommand,
    v: int,
    cap: int,
    accel: int,
    decel: int,
    n: nat,
) -> int
    decreases n,
{
    if n == 0 {
        v
    } else {
        spec_axis_step(
            command,
            spec_axis_run(command, v, cap, accel, decel, (n - 1) as nat),
            cap,
            accel,
            decel,
        )
    }
}

/// The speed after `n` ticks of growth by `rate` from rest, capped at
/// `cap`.
pub open spec fn spec_ramp(rate: int, cap: int, n: nat) -> int {
    vstd::math::min(n * rate, cap)
}

/// The speed after `n` ticks of decay by `rate` from the speed `v`, which
/// stops at rest.
pub open spec fn spec_decay(v: int, rate: int, n: nat) -> int {
    vstd::math::max(v - n * rate, 0)
}

/// The distance covered in the first `n` ticks of growth by `rate` from
/// rest, capped at `cap`: the sum of the speeds after each tick.
pub open spec fn spec_ramp_travel(rate: int, cap: int, n: nat) -> int
    decreases n,
{
    if n == 0 {
        0
    } else {
        spec_ramp_travel(rate, cap, (n - 1) as nat) + spec_ramp(rate, cap, n)
    }
}

/// The distance covered in the first `n` ticks of decay by `rate` from the
/// speed `v`: the sum of the speeds after each tick.
pub open spec fn spec_decay_travel(v: int, rate: int, n: nat) -> int
    decreases n,
{
    if n == 0 {
        0
    } else {
        spec_decay_travel(v, rate, (n - 1) as nat) + spec_decay(v, rate, n)
    }
}

/// The distance that an axis covers in `n` ticks under one command, where
/// nothing stops it: the sum of its velocities after each tick.
pub open spec fn spec_axis_travel(
    command: AxisCommand,
    v: int,
    cap: int,
    accel: int,
    decel: int,
    n: nat,
) -> int
    decreases n,
{
    if n == 0 {
        0
    } else {
        spec_axis_travel(command, v, cap, accel, decel, (n - 1) as nat) + spec_axis_run(
            command,
            v,
            cap,
            accel,
            decel,
            n,
        )
    }
}

/// One step keeps a velocity within `limit`, where the cap and both rates
/// are within `limit` too.
pub proof fn lemma_axis_step_bounds(
    command: AxisCommand,
    v: int,
    cap: int,
    accel: int,
    decel: int,
    limit: int,
)
    requires
        -limit <= v <= limit,
        0 <= cap <= limit,
        0 <= accel <= limit,
        0 <= decel <= limit,
    ensures
        -limit <= spec_axis_step(command, v, cap, accel, decel) <= limit,
{
}

/// One step takes a velocity within the cap at most one deceleration
/// beyond rest, or leaves it within the cap.
pub proof fn lemma_axis_step_near_cap(command: AxisCommand, v: int, cap: int, accel: int, decel: int)
    requires
        -cap <= v <= cap,
        0 <= accel,
        0 <= decel,
    ensures
        -vstd::math::max(cap, decel) <= spec_axis_step(command, v, cap, accel, decel)
            <= vstd::math::max(cap, decel),
{
}

/// From rest under a steady command, the velocity after `n` ticks is `n`
/// times the acceleration toward the commanded side, capped.
pub proof fn lemma_attack_run(command: AxisCommand, cap: int, accel: int, decel: int, n: nat)
    requires
        0 <= cap,
        0 < accel,
    ensures
        command == AxisCommand::Positive ==> spec_axis_run(command, 0, cap, accel, decel, n)
            == spec_ramp(accel, cap, n),
        command == AxisCommand::Negative ==> spec_axis_run(command, 0, cap, accel, decel, n)
            == -spec_ramp(accel, cap, n),
        0 <= spec_ramp(accel, cap, n) <= cap,
    decreases n,
{
    assert(0 <= n * accel) by (nonlinear_arith)
        requires
            0 <= n,
            0 < accel,
    ;
    if n > 0 {
        lemma_attack_run(command, cap, accel, decel, (n - 1) as nat);
        assert(n * accel == (n - 1) * accel + accel) by (nonlinear_arith);
        assert(0 <= (n - 1) * accel) by (nonlinear_arith)
            requires
                1 <= n,
                0 < accel,
        ;
    }
}

/// Without a command, the speed after `n` ticks is the starting speed less
/// `n` times the deceleration, and stops at rest: the velocity never
/// changes sign.
pub proof fn lemma_release_run(v: int, cap: int, accel: int, decel: int, n: nat)
    requires
        0 < decel,
    ensures
        v >= 0 ==> spec_axis_run(AxisCommand::Neutral, v, cap, accel, decel, n) == spec_decay(
            v,
            decel,
            n,
        ),
        v <= 0 ==> spec_axis_run(AxisCommand::Neutral, v, cap, accel, decel, n) == -spec_decay(
            -v,
            decel,
            n,
        ),
    decreases n,
{
    if n > 0 {
        lemma_release_run(v, cap, accel, decel, (n - 1) as nat);
        assert(n * decel == (n - 1) * decel + decel) by (nonlinear_arith);
    } else {
        assert(n * decel == 0) by (nonlinear_arith)
            requires
                n == 0,
        ;
    }
}

/// The travel of an axis that starts from rest under a steady command.
pub proof fn lemma_attack_travel(command: AxisCommand, cap: int, accel: int, decel: int, n: nat)
    requires
        0 <= cap,
        0 < accel,
    ensures
        command == AxisCommand::Positive ==> spec_axis_travel(command, 0, cap, accel, decel, n)
            == spec_ramp_travel(accel, cap, n),
        command == AxisCommand::Negative ==> spec_axis_travel(command, 0, cap, accel, decel, n)
            == -spec_ramp_travel(accel, cap, n),
        0 <= spec_ramp_travel(accel, cap, n) <= n * cap,
    decreases n,
{
    if n > 0 {
        lemma_attack_travel(command, cap, accel, decel, (n - 1) as nat);
        lemma_attack_run(command, cap, accel, decel, n);
        assert(n * cap == (n - 1) * cap + cap) by (nonlinear_arith);
    } else {
        assert(n * cap == 0) by (nonlinear_arith)
            requires
                n == 0,
        ;
    }
}

/// The travel of an axis that loses its speed without a command.
pub proof fn lemma_release_travel(v: int, cap: int, accel: int, decel: int, n: nat)
    requires
        0 < decel,
    ensures
        v >= 0 ==> spec_axis_travel(AxisCommand::Neutral, v, cap, accel, decel, n)
            == spec_decay_travel(v, decel, n),
        v <= 0 ==> spec_axis_travel(AxisCommand::Neutral, v, cap, accel, decel, n)
            == -spec_decay_travel(-v, decel, n),
        v >= 0 ==> 0 <= spec_decay_travel(v, decel, n) <= n * v,
    decreases n,
{
    if n > 0 {
        lemma_release_travel(v, cap, accel, decel, (n - 1) as nat);
        lemma_release_run(v, cap, accel, decel, n);
        assert(n * v == (n - 1) * v + v) by (nonlinear_arith);
        assert(v >= 0 ==> 0 <= spec_decay(v, decel, n) <= v) by (nonlinear_arith)
            requires
                0 < decel,
                0 <= n,
                spec_decay(v, decel, n) == vstd::math::max(v - n * decel, 0),
        ;
    } else {
        assert(n * v == 0) by (nonlinear_arith)
            requires
                n == 0,
        ;
    }
}

/// Where the rate reaches the cap in exactly `ticks` ticks, the growth from
/// rest covers, in `n` ticks that are no fewer, the cap times half of
/// `ticks + 1`, and the cap for every tick after that.
pub proof fn lemma_ramp_travel_closed_form(rate: int, ticks: nat, n: nat)
    requires
        0 < rate,
        ticks <= n,
    ensures
        2 * spec_ramp_travel(rate, rate * ticks, n) == (rate * ticks) * (ticks + 1) + 2 * ((rate
            * ticks) * (n - ticks)),
{
    let cap = rate * ticks;
    lemma_ramp_travel_rising(rate, cap, ticks, ticks);
    lemma_ramp_travel_level(rate, cap, ticks, n);
    assert((rate * ticks) * (ticks + 1) == rate * (ticks * (ticks + 1))) by (nonlinear_arith);
}

/// While the growth has not passed the cap, the travel is the rate times
/// the sum of the tick numbers.
proof fn lemma_ramp_travel_rising(rate: int, cap: int, ticks: nat, n: nat)
    requires
        0 < rate,
        cap == rate * ticks,
        n <= ticks,
    ensures
        2 * spec_ramp_travel(rate, cap, n) == rate * (n * (n + 1)),
    decreases n,
{
    if n > 0 {
        lemma_ramp_travel_rising(rate, cap, ticks, (n - 1) as nat);
        assert(n * rate <= rate * ticks) by (nonlinear_arith)
            requires
                0 < rate,
                n <= ticks,
        ;
        assert(rate * ((n - 1) * n) + 2 * (n * rate) == rate * (n * (n + 1)))
            by (nonlinear_arith);
    } else {
        assert(rate * (n * (n + 1)) == 0) by (nonlinear_arith)
            requires
                n == 0,
        ;
    }
}

/// Once the growth has reached the cap, every tick covers the cap.
proof fn lemma_ramp_travel_level(rate: int, cap: int, ticks: nat, n: nat)
    requires
        0 < rate,
        cap == rate * ticks,
        ticks <= n,
    ensures
        spec_ramp_travel(rate, cap, n) == spec_ramp_travel(rate, cap, ticks) + cap * (n - ticks),
    decreases n,
{
    if n > ticks {
        lemma_ramp_travel_level(rate, cap, ticks, (n - 1) as nat);
        assert(n * rate >= rate * ticks) by (nonlinear_arith)
            requires
                0 < rate,
                ticks <= n,
        ;
        assert(cap * (n - 1 - ticks) + cap == cap * (n - ticks)) by (nonlinear_arith);
    } else {
        assert(cap * (n - ticks) == 0) by (nonlinear_arith)
            requires
                n == ticks,
        ;
    }
}

/// Where the rate takes the speed `rate * ticks` to rest in exactly `ticks`
/// ticks, the decay covers, in `n` ticks that are no fewer, that speed
/// times half of `ticks - 1`.
pub proof fn lemma_decay_travel_closed_form(rate: int, ticks: nat, n: nat)
    requires
        0 < rate,
        ticks <= n,
    ensures
        2 * spec_decay_travel(rate * ticks, rate, n) == (rate * ticks) * (ticks - 1),
{
    let v = rate * ticks;
    lemma_decay_travel_falling(rate, v, ticks, ticks);
    lemma_decay_travel_stopped(rate, v, ticks, n);
    assert(2 * (ticks * (rate * ticks)) - rate * (ticks * (ticks + 1)) == (rate * ticks) * (ticks
        - 1)) by (nonlinear_arith);
}

/// While the decay has not reached rest, the travel is the starting speed
/// for every tick, less the rate times the sum of the tick numbers.
proof fn lemma_decay_travel_falling(rate: int, v: int, ticks: nat, n: nat)
    requires
        0 < rate,
        v == rate * ticks,
        n <= ticks,
    ensures
        2 * spec_decay_travel(v, rate, n) == 2 * (n * v) - rate * (n * (n + 1)),
    decreases n,
{
    if n > 0 {
        lemma_decay_travel_falling(rate, v, ticks, (n - 1) as nat);
        assert(n * rate <= rate * ticks) by (nonlinear_arith)
            requires
                0 < rate,
                n <= ticks,
        ;
        assert(2 * ((n - 1) * v) - rate * ((n - 1) * n) + 2 * (v - n * rate) == 2 * (n * v) - rate
            * (n * (n + 1))) by (nonlinear_arith);
    } else {
        assert(2 * (n * v) - rate * (n * (n + 1)) == 0) by (nonlinear_arith)
            requires
                n == 0,
        ;
    }
}

/// Once the decay has reached rest, no tick covers anything.
proof fn lemma_decay_travel_stopped(rate: int, v: int, ticks: nat, n: nat)
    requires
        0 < rate,
        v == rate * ticks,
        ticks <= n,
    ensures
        spec_decay_travel(v, rate, n) == spec_decay_travel(v, rate, ticks),
    decreases n,
{
    if n > ticks {
        lemma_decay_travel_stopped(rate, v, ticks, (n - 1) as nat);
        assert(n * rate >= rate * ticks) by (nonlinear_arith)
            requires
                0 < rate,
                ticks <= n,
        ;
    }
}

/// An axis at rest without a command stays where it is.
pub proof fn lemma_idle_travel(cap: int, accel: int, decel: int, n: nat)
    requires
        0 < decel,
    ensures
        spec_axis_run(AxisCommand::Neutral, 0, cap, accel, decel, n) == 0,
        spec_axis_travel(AxisCommand::Neutral, 0, cap, accel, decel, n) == 0,
    decreases n,
{
    if n > 0 {
        lemma_idle_travel(cap, accel, decel, (n - 1) as nat);
    }
}

/// Decay from rest covers no distance.
pub proof fn lemma_decay_travel_of_rest(rate: int, n: nat)
    requires
        0 < rate,
    ensures
        spec_decay_travel(0, rate, n) == 0,
    decreases n,
{
    if n > 0 {
        lemma_decay_travel_of_rest(rate, (n - 1) as nat);
        assert(0 <= n * rate) by (nonlinear_arith)
            requires
                0 < rate,
        ;
    }
}

/// A speed over a whole number of ticks that divides it is their quotient,
/// without rounding.
proof fn lemma_exact_rate(speed: int, ticks: int)
    requires
        0 < speed,
        0 < ticks,
        speed % ticks == 0,
    ensures
        spec_div_ceil(speed * ONE, ticks * ONE) * ticks == speed,
        0 < spec_div_ceil(speed * ONE, ticks * ONE),
        spec_div_ceil(ticks * ONE, ONE as int) == ticks,
{
    let rate = spec_div_ceil(speed * ONE, ticks * ONE);
    let whole = speed / ticks;
    lemma_div_ceil(speed * ONE, ticks * ONE);
    assert(speed == ticks * whole) by (nonlinear_arith)
        requires
            0 < ticks,
            speed % ticks == 0,
            whole == speed / ticks,
    ;
    assert(rate == whole) by (nonlinear_arith)
        requires
            rate * (ticks * 65536) >= speed * 65536,
            (rate - 1) * (ticks * 65536) < speed * 65536,
            speed == ticks * whole,
            0 < ticks,
    ;
    assert(whole * ticks == ticks * whole) by (nonlinear_arith);
}

impl MovementAttributes {
    #[verifier::type_invariant]
    spec fn is_envelope(self) -> bool {
        &&& 0 < self.attack
        &&& 0 < self.sustain <= SUSTAIN_LIMIT
        &&& 0 < self.release
    }

    /// Ticks from rest to the sustain speed.
    pub closed spec fn spec_attack(self) -> int {
        self.attack as int
    }

    /// The steady speed.
    pub closed spec fn spec_sustain(self) -> int {
        self.sustain as int
    }

    /// Ticks from the sustain speed to rest.
    pub closed spec fn spec_release(self) -> int {
        self.release as int
    }

    /// Whether the triple is an envelope: all three positive, and the sustain
    /// speed within `SUSTAIN_LIMIT`. Every value that `new` hands out is one.
    pub open spec fn wf(self) -> bool {
        &&& 0 < self.spec_attack()
        &&& 0 < self.spec_sustain() <= SUSTAIN_LIMIT
        &&& 0 < self.spec_release()
    }

    /// Speed gained per tick: the sustain speed over the attack, rounded up
    /// to a whole unit.
    pub open spec fn spec_accel(self) -> int {
        spec_div_ceil(self.spec_sustain() * ONE, self.spec_attack())
    }

    /// Speed lost per tick: the sustain speed over the release, rounded up
    /// to a whole unit.
    pub open spec fn spec_decel(self) -> int {
        spec_div_ceil(self.spec_sustain() * ONE, self.spec_release())
    }

    /// The attack in whole ticks, rounded up.
    pub open spec fn spec_attack_ticks(self) -> int {
        spec_div_ceil(self.spec_attack(), ONE as int)
    }

    /// The release in whole ticks, rounded up.
    pub open spec fn spec_release_ticks(self) -> int {
        spec_div_ceil(self.spec_release(), ONE as int)
    }

    /// After the attack, rounded up to whole ticks, the growth from rest has
    /// reached the sustain speed, and so every cap.
    pub proof fn lemma_attack_completes(self, cap: int, n: nat)
        requires
            self.wf(),
            0 <= cap <= self.spec_sustain(),
            n >= self.spec_attack_ticks(),
        ensures
            spec_ramp(self.spec_accel(), cap, n) == cap,
            0 < self.spec_accel(),
    {
        lemma_div_ceil(self.spec_sustain() * ONE, self.spec_attack());
        lemma_div_ceil(self.spec_attack(), ONE as int);
        let accel = self.spec_accel();
        let ticks = self.spec_attack_ticks();
        let attack = self.spec_attack();
        let sustain = self.spec_sustain();
        assert(n * accel >= sustain) by (nonlinear_arith)
            requires
                accel * attack >= sustain * 65536,
                ticks * 65536 >= attack,
                n >= ticks,
                0 < accel,
                0 < attack,
                0 < sustain,
        ;
    }

    /// After the release, rounded up to whole ticks, the decay from any
    /// speed up to the sustain speed has reached rest.
    pub proof fn lemma_release_completes(self, v: int, n: nat)
        requires
            self.wf(),
            0 <= v <= self.spec_sustain(),
            n >= self.spec_release_ticks(),
        ensures
            spec_decay(v, self.spec_decel(), n) == 0,
            0 < self.spec_decel(),
    {
        lemma_div_ceil(self.spec_sustain() * ONE, self.spec_release());
        lemma_div_ceil(self.spec_release(), ONE as int);
        let decel = self.spec_decel();
        let ticks = self.spec_release_ticks();
        let release = self.spec_release();
        let sustain = self.spec_sustain();
        assert(n * decel >= sustain) by (nonlinear_arith)
            requires
                decel * release >= sustain * 65536,
                ticks * 65536 >= release,
                n >= ticks,
                0 < decel,
                0 < release,
                0 < sustain,
        ;
    }

    /// Where the attack is `ticks` whole ticks and divides the sustain
    /// speed, the acceleration is their quotient, without rounding.
    pub proof fn lemma_whole_attack(self, ticks: nat)
        requires
            self.wf(),
            self.spec_attack() == ticks * ONE,
            self.spec_sustain() % (ticks as int) == 0,
        ensures
            self.spec_accel() * ticks == self.spec_sustain(),
            self.spec_attack_ticks() == ticks,
            0 < self.spec_accel(),
    {
        lemma_exact_rate(self.spec_sustain(), ticks as int);
    }

    /// Where the release is `ticks` whole ticks and divides the sustain
    /// speed, the deceleration is their quotient, without rounding.
    pub proof fn lemma_whole_release(self, ticks: nat)
        requires
            self.wf(),
            self.spec_release() == ticks * ONE,
            self.spec_sustain() % (ticks as int) == 0,
        ensures
            self.spec_decel() * ticks == self.spec_sustain(),
            self.spec_release_ticks() == ticks,
            0 < self.spec_decel(),
    {
        lemma_exact_rate(self.spec_sustain(), ticks as int);
    }

    /// Builds an envelope, or says which number rules it out.
    pub fn new(attack: i64, sustain: i64, release: i64) -> (r: Result<
        MovementAttributes,
        EnvelopeError,
    >)
        ensures
            match r {
                Ok(attrs) => {
                    &&& spec_check(attack, sustain, release) is None
                    &&& attrs.spec_attack() == attack
                    &&& attrs.spec_sustain() == sustain
                    &&& attrs.spec_release() == release
                    &&& attrs.wf()
                },
                Err(e) => spec_check(attack, sustain, release) == Some(e),
            },
    {
        if attack <= 0 {
            Err(EnvelopeError::Attack)
        } else if sustain <= 0 {
            Err(EnvelopeError::Sustain)
        } else if sustain > SUSTAIN_LIMIT {
            Err(EnvelopeError::SustainTooFast)
        } else if release <= 0 {
            Err(EnvelopeError::Release)
        } else {
            Ok(MovementAttributes { attack, sustain, release })
        }
    }

    /// The envelope of the card-two mob: twelve ticks of attack, a sixteenth
    /// of a tile per tick, twelve ticks of release.
    pub closed spec fn spec_card_2() -> MovementAttributes {
        MovementAttributes { attack: 0xc_0000, sustain: 0x1000, release: 0xc_0000 }
    }

    /// The envelope of the card-two mob: twelve ticks of attack, a sixteenth
    /// of a tile per tick, twelve ticks of release.
    pub fn card_2() -> (attrs: MovementAttributes)
        ensures
            attrs == Self::spec_card_2(),
            attrs.spec_attack() == 12 * ONE,
            attrs.spec_sustain() == ONE / 16,
            attrs.spec_release() == 12 * ONE,
            attrs.wf(),
    {
        MovementAttributes { attack: 12 * ONE, sustain: ONE / 16, release: 12 * ONE }
    }

    /// Ticks from rest to the sustain speed.
    pub fn attack(&self) -> (ticks: i64)
        ensures
            ticks == self.spec_attack(),
            self.wf(),
    {
        proof {
            use_type_invariant(self);
        }
        self.attack
    }

    /// The steady speed.
    pub fn sustain(&self) -> (speed: i64)
        ensures
            speed == self.spec_sustain(),
            self.wf(),
    {
        proof {
            use_type_invariant(self);
        }
        self.sustain
    }

    /// Ticks from the sustain speed to rest.
    pub fn release(&self) -> (ticks: i64)
        ensures
            ticks == self.spec_release(),
            self.wf(),
    {
        proof {
            use_type_invariant(self);
        }
        self.release
    }

    /// Speed gained per tick.
    pub fn accel(&self) -> (a: i64)
        ensures
            a == self.spec_accel(),
            0 < a <= SPEED_LIMIT,
    {
        proof {
            use_type_invariant(self);
        }
        div_ceil(self.sustain * ONE, self.attack)
    }

    /// Speed lost per tick.
    pub fn decel(&self) -> (d: i64)
        ensures
            d == self.spec_decel(),
            0 < d <= SPEED_LIMIT,
    {
        proof {
            use_type_invariant(self);
        }
        div_ceil(self.sustain * ONE, self.release)
    }
}

/// The cap of each axis in diagonal movement.
pub fn diagonal_cap(sustain: i64) -> (cap: i64)
    requires
        0 <= sustain <= SUSTAIN_LIMIT,
    ensures
        cap == spec_diagonal_cap(sustain as int),
        0 <= cap <= sustain,
        2 * (cap * cap) <= sustain * sustain < 2 * ((cap + 1) * (cap + 1)),
{
    assert(sustain * sustain <= 0x100_0000int * 0x100_0000int) by (nonlinear_arith)
        requires
            0 <= sustain <= 0x100_0000int,
    ;
    assert(0 <= sustain * sustain) by (nonlinear_arith);
    let half: i64 = (sustain * sustain) / 2;
    let root: u64 = isqrt(half as u128);
    proof {
        lemma_diagonal_cap(sustain as int);
    }
    root as i64
}

/// The diagonal cap is the greatest speed that, taken on both axes at once,
/// gives a vector no longer than `sustain`.
pub proof fn lemma_diagonal_cap(sustain: int)
    requires
        0 <= sustain,
    ensures
        0 <= spec_diagonal_cap(sustain) <= sustain,
        2 * (spec_diagonal_cap(sustain) * spec_diagonal_cap(sustain)) <= sustain * sustain,
        sustain * sustain < 2 * ((spec_diagonal_cap(sustain) + 1) * (spec_diagonal_cap(sustain)
            + 1)),
{
    let sq = sustain * sustain;
    assert(0 <= sq) by (nonlinear_arith)
        requires
            sq == sustain * sustain,
    ;
    let half = (sq / 2) as nat;
    lemma_isqrt_bounds(half);
    let cap = spec_isqrt(half) as int;
    assert(cap == spec_diagonal_cap(sustain));
    assert(2 * half <= sq < 2 * half + 2);
    if cap > sustain {
        assert(cap * cap > sustain * sustain) by (nonlinear_arith)
            requires
                cap > sustain,
                sustain >= 0,
        ;
    }
}

/// The caps of the two axes under the commands `x` and `y`.
pub fn speed_caps(x: XMove, y: YMove, sustain: i64) -> (caps: (i64, i64))
    requires
        0 <= sustain <= SUSTAIN_LIMIT,
    ensures
        caps.0 == spec_speed_caps(x, y, sustain as int).0,
        caps.1 == spec_speed_caps(x, y, sustain as int).1,
        0 <= caps.0 <= sustain,
        0 <= caps.1 <= sustain,
{
    match (x, y) {
        (XMove::Neutral, YMove::Neutral) => (0, 0),
        (_, YMove::Neutral) => (sustain, 0),
        (XMove::Neutral, _) => (0, sustain),
        (_, _) => {
            let cap: i64 = diagonal_cap(sustain);
            (cap, cap)
        },
    }
}

/// The phase of an axis.
pub fn phase(command: AxisCommand, v: i64, cap: i64) -> (p: Phase)
    requires
        0 <= cap,
    ensures
        p == spec_phase(command, v as int, cap as int),
{
    match command {
        AxisCommand::Neutral => Phase::Releasing,
        AxisCommand::Positive => if v < 0 {
            Phase::Braking
        } else if v <= cap {
            Phase::Accelerating
        } else {
            Phase::Shedding
        },
        AxisCommand::Negative => if v > 0 {
            Phase::Braking
        } else if v >= -cap {
            Phase::Accelerating
        } else {
            Phase::Shedding
        },
    }
}

/// `v`, moved toward `target` by `rate` without passing it.
pub fn approach(v: i64, target: i64, rate: i64) -> (r: i64)
    requires
        -SPEED_LIMIT <= v <= SPEED_LIMIT,
        -SPEED_LIMIT <= target <= SPEED_LIMIT,
        0 <= rate <= SPEED_LIMIT,
    ensures
        r == spec_approach(v as int, target as int, rate as int),
        v <= r <= target || target <= r <= v,
{
    if v < target {
        if v + rate > target {
            target
        } else {
            v + rate
        }
    } else {
        if v - rate < target {
            target
        } else {
            v - rate
        }
    }
}

/// Advances the velocity `v` of one axis by one tick.
///
/// Without a command the speed decays to rest and stops there. Under a
/// command against the motion the entity brakes by the deceleration, and the
/// velocity may pass through rest. Under a command with the motion the speed
/// grows by the acceleration up to the cap; a speed above the cap drops by
/// the acceleration.
pub fn axis_step(command: AxisCommand, v: i64, cap: i64, accel: i64, decel: i64) -> (r: i64)
    requires
        -SPEED_LIMIT <= v <= SPEED_LIMIT,
        0 <= cap <= SPEED_LIMIT,
        0 < accel <= SPEED_LIMIT,
        0 < decel <= SPEED_LIMIT,
    ensures
        r == spec_axis_step(command, v as int, cap as int, accel as int, decel as int),
        -SPEED_LIMIT <= r <= SPEED_LIMIT,
{
    match phase(command, v, cap) {
        Phase::Releasing => approach(v, 0, decel),
        Phase::Braking => if v < 0 {
            v + decel
        } else {
            v - decel
        },
        Phase::Accelerating => match command {
            AxisCommand::Negative => approach(v, -cap, accel),
            _ => approach(v, cap, accel),
        },
        Phase::Shedding => if v < 0 {
            v + accel
        } else {
            v - accel
        },
    }
}

} // verus!
