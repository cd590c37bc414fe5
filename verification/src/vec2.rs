//! Board coordinates and the unit steps between squares.

use vstd::prelude::*;

verus! {

/// A pair of signed coordinates. On the board `x` counts files from the left
/// and `y` counts ranks from the top, both starting at zero, so "up" is the
/// direction in which `y` falls.
#[derive(Clone, Copy, Debug, PartialEq, Eq, Structural, Hash)]
pub struct Vec2 {
    pub x: i16,
    pub y: i16,
}

/// One of the four ways the cursor can be pushed.
#[derive(Clone, Copy, Debug, PartialEq, Eq, Structural)]
pub enum Direction {
    Up,
    Down,
    Left,
    Right,
}

impl Vec2 {
    /// The vector with the given coordinates.
    pub fn new(x: i16, y: i16) -> (v: Vec2)
        ensures
            v == (Vec2 { x, y }),
    {
        Vec2 { x, y }
    }

    /// The unit step that a direction stands for.
    #[verifier::allow_in_spec]
    pub fn from_direction(d: Direction) -> Vec2
        returns
            (match d {
                Direction::Up => Vec2 { x: 0i16, y: -1i16 },
                Direction::Down => Vec2 { x: 0i16, y: 1i16 },
                Direction::Left => Vec2 { x: -1i16, y: 0i16 },
                Direction::Right => Vec2 { x: 1i16, y: 0i16 },
            }),
    {
        match d {
            Direction::Up => Vec2 { x: 0, y: -1 },
            Direction::Down => Vec2 { x: 0, y: 1 },
            Direction::Left => Vec2 { x: -1, y: 0 },
            Direction::Right => Vec2 { x: 1, y: 0 },
        }
    }

    /// One square towards the top of the board.
    #[verifier::allow_in_spec]
    pub fn up() -> Vec2
        returns
            (Vec2 { x: 0i16, y: -1i16 }),
    {
        Vec2 { x: 0, y: -1 }
    }

    /// One square towards the bottom of the board.
    #[verifier::allow_in_spec]
    pub fn down() -> Vec2
        returns
            (Vec2 { x: 0i16, y: 1i16 }),
    {
        Vec2 { x: 0, y: 1 }
    }

    /// One square towards the left edge.
    #[verifier::allow_in_spec]
    pub fn left() -> Vec2
        returns
            (Vec2 { x: -1i16, y: 0i16 }),
    {
        Vec2 { x: -1, y: 0 }
    }

    /// One square towards the right edge.
    #[verifier::allow_in_spec]
    pub fn right() -> Vec2
        returns
            (Vec2 { x: 1i16, y: 0i16 }),
    {
        Vec2 { x: 1, y: 0 }
    }

    /// The first of the four diagonal steps: both coordinates fall.
    #[verifier::allow_in_spec]
    pub fn up_left() -> Vec2
        returns
            (Vec2 { x: -1i16, y: -1i16 }),
    {
        Vec2 { x: -1, y: -1 }
    }

    /// The second diagonal step: `x` falls and `y` rises.
    #[verifier::allow_in_spec]
    pub fn up_right() -> Vec2
        returns
            (Vec2 { x: -1i16, y: 1i16 }),
    {
        Vec2 { x: -1, y: 1 }
    }

    /// The third diagonal step: `x` rises and `y` falls.
    #[verifier::allow_in_spec]
    pub fn down_left() -> Vec2
        returns
            (Vec2 { x: 1i16, y: -1i16 }),
    {
        Vec2 { x: 1, y: -1 }
    }

    /// The fourth diagonal step: both coordinates rise.
    #[verifier::allow_in_spec]
    pub fn down_right() -> Vec2
        returns
            (Vec2 { x: 1i16, y: 1i16 }),
    {
        Vec2 { x: 1, y: 1 }
    }

    /// The four orthogonal steps, in the order in which moves along them are
    /// generated.
    pub open spec fn axis_steps() -> Seq<Vec2> {
        seq![Vec2::up(), Vec2::down(), Vec2::left(), Vec2::right()]
    }

    /// The four diagonal steps, in the order in which moves along them are
    /// generated.
    pub open spec fn diag_steps() -> Seq<Vec2> {
        seq![Vec2::up_left(), Vec2::up_right(), Vec2::down_left(), Vec2::down_right()]
    }

    /// The orthogonal steps as an array.
    pub fn axis() -> (steps: [Vec2; 4])
        ensures
            steps@ == Vec2::axis_steps(),
    {
        [Vec2::up(), Vec2::down(), Vec2::left(), Vec2::right()]
    }

    /// The diagonal steps as an array.
    pub fn diag() -> (steps: [Vec2; 4])
        ensures
            steps@ == Vec2::diag_steps(),
    {
        [Vec2::up_left(), Vec2::up_right(), Vec2::down_left(), Vec2::down_right()]
    }

    /// Whether both coordinates of the sum fit in sixteen bits.
    pub open spec fn can_add(self, rhs: Vec2) -> bool {
        &&& i16::MIN <= self.x + rhs.x <= i16::MAX
        &&& i16::MIN <= self.y + rhs.y <= i16::MAX
    }

    /// Componentwise sum.
    pub open spec fn plus(self, rhs: Vec2) -> Vec2 {
        Vec2 { x: (self.x + rhs.x) as i16, y: (self.y + rhs.y) as i16 }
    }

    /// Whether both coordinates of the scaled vector fit in sixteen bits.
    pub open spec fn can_scale(self, k: i16) -> bool {
        &&& i16::MIN <= self.x * k <= i16::MAX
        &&& i16::MIN <= self.y * k <= i16::MAX
    }

    /// Both coordinates multiplied by `k`.
    pub open spec fn times(self, k: i16) -> Vec2 {
        Vec2 { x: (self.x * k) as i16, y: (self.y * k) as i16 }
    }
}

impl core::ops::Add for Vec2 {
    type Output = Vec2;

    fn add(self, rhs: Vec2) -> (sum: Vec2) {
        Vec2 { x: self.x + rhs.x, y: self.y + rhs.y }
    }
}

impl vstd::std_specs::ops::AddSpecImpl for Vec2 {
    open spec fn obeys_add_spec() -> bool {
        true
    }

    open spec fn add_req(self, rhs: Vec2) -> bool {
        self.can_add(rhs)
    }

    open spec fn add_spec(self, rhs: Vec2) -> Vec2 {
        self.plus(rhs)
    }
}

impl core::ops::Mul<i16> for Vec2 {
    type Output = Vec2;

    fn mul(self, rhs: i16) -> (scaled: Vec2) {
        Vec2 { x: self.x * rhs, y: self.y * rhs }
    }
}

impl vstd::std_specs::ops::MulSpecImpl<i16> for Vec2 {
    open spec fn obeys_mul_spec() -> bool {
        true
    }

    open spec fn mul_req(self, rhs: i16) -> bool {
        self.can_scale(rhs)
    }

    open spec fn mul_spec(self, rhs: i16) -> Vec2 {
        self.times(rhs)
    }
}

impl From<(i16, i16)> for Vec2 {
    fn from(t: (i16, i16)) -> (v: Vec2) {
        Vec2 { x: t.0, y: t.1 }
    }
}

impl vstd::std_specs::convert::FromSpecImpl<(i16, i16)> for Vec2 {
    open spec fn obeys_from_spec() -> bool {
        true
    }

    open spec fn from_spec(t: (i16, i16)) -> Vec2 {
        Vec2 { x: t.0, y: t.1 }
    }
}

} // verus!
