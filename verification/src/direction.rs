//! Directional commands: a set of the four flags up, down, left and right,
//! and its reduction to one command per axis.

use rand::Rng;
use vstd::prelude::*;

verus! {

/// Bit of the flag *up*.
pub const UP_BIT: u8 = 0b0001;

/// Bit of the flag *down*.
pub const DOWN_BIT: u8 = 0b0010;

/// Bit of the flag *left*.
pub const LEFT_BIT: u8 = 0b0100;

/// Bit of the flag *right*.
pub const RIGHT_BIT: u8 = 0b1000;

/// All four flag bits.
pub const ALL_BITS: u8 = 0b1111;

/// A set of direction flags, kept as a bit mask. Any combination of the four
/// flags is a legal command, opposite flags included; no other bit is ever
/// set.
#[derive(Clone, Copy, Debug, PartialEq, Eq, Structural)]
pub struct Direction {
    bits: u8,
}

/// The command on the horizontal axis. Left is the direction of decreasing
/// `x`.
#[derive(Clone, Copy, Debug, PartialEq, Eq, Structural)]
pub enum XMove {
    Neutral,
    Left,
    Right,
}

/// The command on the vertical axis. Up is the direction of decreasing `y`.
#[derive(Clone, Copy, Debug, PartialEq, Eq, Structural)]
pub enum YMove {
    Neutral,
    Up,
    Down,
}

/// The command on one axis, whichever axis it is.
#[derive(Clone, Copy, Debug, PartialEq, Eq, Structural)]
pub enum AxisCommand {
    /// No command.
    Neutral,
    /// Toward decreasing coordinates: left or up.
    Negative,
    /// Toward increasing coordinates: right or down.
    Positive,
}

impl XMove {
    /// The command as one on an unnamed axis.
    pub open spec fn spec_command(self) -> AxisCommand {
        match self {
            XMove::Neutral => AxisCommand::Neutral,
            XMove::Left => AxisCommand::Negative,
            XMove::Right => AxisCommand::Positive,
        }
    }

    /// The command as one on an unnamed axis: left is negative.
    pub fn command(self) -> (c: AxisCommand)
        ensures
            c == self.spec_command(),
    {
        match self {
            XMove::Neutral => AxisCommand::Neutral,
            XMove::Left => AxisCommand::Negative,
            XMove::Right => AxisCommand::Positive,
        }
    }
}

impl YMove {
    /// The command as one on an unnamed axis.
    pub open spec fn spec_command(self) -> AxisCommand {
        match self {
            YMove::Neutral => AxisCommand::Neutral,
            YMove::Up => AxisCommand::Negative,
            YMove::Down => AxisCommand::Positive,
        }
    }

    /// The command as one on an unnamed axis: up is negative.
    pub fn command(self) -> (c: AxisCommand)
        ensures
            c == self.spec_command(),
    {
        match self {
            YMove::Neutral => AxisCommand::Neutral,
            YMove::Up => AxisCommand::Negative,
            YMove::Down => AxisCommand::Positive,
        }
    }
}

impl Direction {
    #[verifier::type_invariant]
    spec fn known_bits_only(self) -> bool {
        self.bits <= ALL_BITS
    }

    /// The mask itself: the model of a `Direction`.
    pub closed spec fn spec_bits(self) -> u8 {
        self.bits
    }

    /// Whether the flag with bit `flag` is in the set.
    pub open spec fn has(self, flag: u8) -> bool {
        self.spec_bits() & flag == flag
    }

    /// Whether exactly one flag is set.
    pub open spec fn is_single(self) -> bool {
        ||| self.spec_bits() == UP_BIT
        ||| self.spec_bits() == DOWN_BIT
        ||| self.spec_bits() == LEFT_BIT
        ||| self.spec_bits() == RIGHT_BIT
    }

    /// The reduction of the set to one command per axis: a flag counts only
    /// where its opposite is absent.
    pub open spec fn spec_reduce(self) -> (XMove, YMove) {
        (
            if self.has(LEFT_BIT) && !self.has(RIGHT_BIT) {
                XMove::Left
            } else if self.has(RIGHT_BIT) && !self.has(LEFT_BIT) {
                XMove::Right
            } else {
                XMove::Neutral
            },
            if self.has(UP_BIT) && !self.has(DOWN_BIT) {
                YMove::Up
            } else if self.has(DOWN_BIT) && !self.has(UP_BIT) {
                YMove::Down
            } else {
                YMove::Neutral
            },
        )
    }

    /// A single flag reduces to its own command on its own axis, and the
    /// empty set to no command at all.
    pub proof fn lemma_reduce_single(self)
        ensures
            self.spec_bits() == 0 ==> self.spec_reduce() == (XMove::Neutral, YMove::Neutral),
            self.spec_bits() == UP_BIT ==> self.spec_reduce() == (XMove::Neutral, YMove::Up),
            self.spec_bits() == DOWN_BIT ==> self.spec_reduce() == (XMove::Neutral, YMove::Down),
            self.spec_bits() == LEFT_BIT ==> self.spec_reduce() == (XMove::Left, YMove::Neutral),
            self.spec_bits() == RIGHT_BIT ==> self.spec_reduce() == (XMove::Right, YMove::Neutral),
    {
        let bits = self.spec_bits();
        assert(bits == 0 || bits == 1 || bits == 2 || bits == 4 || bits == 8 ==> {
            &&& (bits & 1 == 1) == (bits == 1)
            &&& (bits & 2 == 2) == (bits == 2)
            &&& (bits & 4 == 4) == (bits == 4)
            &&& (bits & 8 == 8) == (bits == 8)
        }) by (bit_vector);
    }

    /// Opposite flags cancel: an axis on which both flags are set, or
    /// neither, gets no command, whatever the other axis holds.
    pub proof fn lemma_opposites_cancel(self)
        ensures
            self.has(UP_BIT) == self.has(DOWN_BIT) ==> self.spec_reduce().1 == YMove::Neutral,
            self.has(LEFT_BIT) == self.has(RIGHT_BIT) ==> self.spec_reduce().0 == XMove::Neutral,
    {
    }

    /// The empty set.
    pub fn empty() -> (d: Direction)
        ensures
            d.spec_bits() == 0,
    {
        Direction { bits: 0 }
    }

    /// The set that holds *up* alone.
    pub fn up() -> (d: Direction)
        ensures
            d.spec_bits() == UP_BIT,
    {
        Direction { bits: UP_BIT }
    }

    /// The set that holds *down* alone.
    pub fn down() -> (d: Direction)
        ensures
            d.spec_bits() == DOWN_BIT,
    {
        Direction { bits: DOWN_BIT }
    }

    /// The set that holds *left* alone.
    pub fn left() -> (d: Direction)
        ensures
            d.spec_bits() == LEFT_BIT,
    {
        Direction { bits: LEFT_BIT }
    }

    /// The set that holds *right* alone.
    pub fn right() -> (d: Direction)
        ensures
            d.spec_bits() == RIGHT_BIT,
    {
        Direction { bits: RIGHT_BIT }
    }

    /// The set with the given mask, if the mask holds no unknown bit.
    pub fn from_bits(bits: u8) -> (r: Option<Direction>)
        ensures
            r is Some <==> bits <= ALL_BITS,
            r matches Some(d) ==> d.spec_bits() == bits,
    {
        if bits <= ALL_BITS {
            Some(Direction { bits })
        } else {
            None
        }
    }

    /// The mask of the set.
    pub fn bits(self) -> (b: u8)
        ensures
            b == self.spec_bits(),
            b <= ALL_BITS,
    {
        proof {
            use_type_invariant(&self);
        }
        self.bits
    }

    /// Whether every flag of `other` is in this set.
    pub fn contains(self, other: Direction) -> (b: bool)
        ensures
            b == self.has(other.spec_bits()),
    {
        self.bits & other.bits == other.bits
    }

    /// The flags that are in either set.
    pub fn union(self, other: Direction) -> (d: Direction)
        ensures
            d.spec_bits() == self.spec_bits() | other.spec_bits(),
    {
        proof {
            use_type_invariant(&self);
            use_type_invariant(&other);
        }
        let a: u8 = self.bits;
        let b: u8 = other.bits;
        assert(a | b <= 0b1111u8) by (bit_vector)
            requires
                a <= 0b1111u8,
                b <= 0b1111u8,
        ;
        Direction { bits: a | b }
    }

    /// The flags that are in both sets.
    pub fn intersection(self, other: Direction) -> (d: Direction)
        ensures
            d.spec_bits() == self.spec_bits() & other.spec_bits(),
    {
        proof {
            use_type_invariant(&self);
        }
        let a: u8 = self.bits;
        let b: u8 = other.bits;
        assert(a & b <= 0b1111u8) by (bit_vector)
            requires
                a <= 0b1111u8,
        ;
        Direction { bits: a & b }
    }

    /// The flags of this set that are not in `other`.
    pub fn difference(self, other: Direction) -> (d: Direction)
        ensures
            d.spec_bits() == self.spec_bits() & !other.spec_bits(),
    {
        proof {
            use_type_invariant(&self);
        }
        let a: u8 = self.bits;
        let b: u8 = other.bits;
        assert(a & !b <= 0b1111u8) by (bit_vector)
            requires
                a <= 0b1111u8,
        ;
        Direction { bits: a & !b }
    }

    /// Reduces the set to one command per axis. Opposite flags cancel: an
    /// axis on which both flags are set, or neither, gets no command.
    pub fn reduce(self) -> (r: (XMove, YMove))
        ensures
            r == self.spec_reduce(),
            self.has(UP_BIT) == self.has(DOWN_BIT) ==> r.1 == YMove::Neutral,
            self.has(LEFT_BIT) == self.has(RIGHT_BIT) ==> r.0 == XMove::Neutral,
    {
        let bits: u8 = self.bits();
        let vertical: u8 = bits & (UP_BIT | DOWN_BIT);
        let horizontal: u8 = (bits & (LEFT_BIT | RIGHT_BIT)) >> 2;
        assert(vertical == 0 || vertical == 1 || vertical == 2 || vertical == 3) by (bit_vector)
            requires
                vertical == bits & (0b0001u8 | 0b0010u8),
        ;
        assert(horizontal == 0 || horizontal == 1 || horizontal == 2 || horizontal == 3)
            by (bit_vector)
            requires
                horizontal == (bits & (0b0100u8 | 0b1000u8)) >> 2,
        ;
        assert((bits & 0b0001u8 == 0b0001u8) == (vertical == 1 || vertical == 3)
            && (bits & 0b0010u8 == 0b0010u8) == (vertical == 2 || vertical == 3)) by (bit_vector)
            requires
                vertical == bits & (0b0001u8 | 0b0010u8),
        ;
        assert((bits & 0b0100u8 == 0b0100u8) == (horizontal == 1 || horizontal == 3)
            && (bits & 0b1000u8 == 0b1000u8) == (horizontal == 2 || horizontal == 3))
            by (bit_vector)
            requires
                horizontal == (bits & (0b0100u8 | 0b1000u8)) >> 2,
        ;
        let y = match vertical {
            0b01 => YMove::Up,
            0b10 => YMove::Down,
            _ => YMove::Neutral,
        };
        let x = match horizontal {
            0b01 => XMove::Left,
            0b10 => XMove::Right,
            _ => XMove::Neutral,
        };
        (x, y)
    }
}

impl Default for Direction {
    /// The empty set.
    fn default() -> (d: Direction)
        ensures
            d.spec_bits() == 0,
    {
        Direction::empty()
    }
}

/// The direction that stands for a draw: 0 is up, 1 is down, 2 is left, and
/// every other number is right.
pub open spec fn spec_direction_for(num: i32) -> u8 {
    if num == 0 {
        UP_BIT
    } else if num == 1 {
        DOWN_BIT
    } else if num == 2 {
        LEFT_BIT
    } else {
        RIGHT_BIT
    }
}

/// The single direction that a draw selects.
pub fn direction_for(num: i32) -> (d: Direction)
    ensures
        d.spec_bits() == spec_direction_for(num),
        d.is_single(),
{
    if num == 0 {
        return Direction::up();
    }
    if num == 1 {
        return Direction::down();
    }
    if num == 2 {
        return Direction::left();
    }
    Direction::right()
}

/// `rand::rngs::ThreadRng`: the handle to the random number generator of the
/// current thread. Nothing inside it is visible here.
#[verifier::external_type_specification]
#[verifier::external_body]
pub struct ExThreadRng(rand::rngs::ThreadRng);

/// `rand::thread_rng`: a handle to the generator of the current thread.
/// Nothing is claimed of the handle. The generator is seeded from the
/// operating system on first use, and the call panics if that source fails.
pub assume_specification[ rand::thread_rng ]() -> (rng: rand::rngs::ThreadRng);

/// `Rng::gen_range` of `rand`, on `i32`: a number in the half-open range
/// from `low` to `high`. The crate documents that the result lies in that
/// range and that the call panics unless `low < high`; which number comes is
/// left open.
#[verifier::external_body]
pub(crate) fn gen_range(rng: &mut rand::rngs::ThreadRng, low: i32, high: i32) -> (num: i32)
    requires
        low < high,
    ensures
        low <= num < high,
{
    rng.gen_range(low, high)
}

/// A direction drawn at random among the four single directions.
pub fn random_direction() -> (d: Direction)
    ensures
        d.is_single(),
{
    let mut rng = rand::thread_rng();
    let num: i32 = gen_range(&mut rng, 0, 4);
    direction_for(num)
}

} // verus!
