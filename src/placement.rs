//! Orientation of the drawing plane: axes, directions and relative origins.
use vstd::prelude::*;

use crate::geometry::Point;
use crate::number::{Fixed, FIXED_WHOLE_MAX, FIXED_WHOLE_MIN};

verus! {

/// One of the two axes of the plane.
#[derive(Clone, Copy, Debug, PartialEq, Eq, Structural)]
pub enum Axis {
    /// The horizontal axis
    X,
    /// The vertical axis
    Y,
}

/// One of the four cardinal directions.
#[derive(Clone, Copy, Debug, PartialEq, Eq, Structural)]
pub enum Direction {
    North,
    South,
    East,
    West,
}

impl Direction {
    pub open spec fn spec_opposite(self) -> Direction {
        match self {
            Direction::East => Direction::West,
            Direction::West => Direction::East,
            Direction::North => Direction::South,
            Direction::South => Direction::North,
        }
    }

    /// The direction pointing the other way.
    pub fn opposite(self) -> (r: Direction)
        ensures
            r == self.spec_opposite(),
    {
        match self {
            Direction::East => Direction::West,
            Direction::West => Direction::East,
            Direction::North => Direction::South,
            Direction::South => Direction::North,
        }
    }

    /// The point one unit further in this direction: north adds one to y, south
    /// takes one from it, east adds one to x and west takes one from it.
    pub fn next_coords(&self, current: Point) -> (r: Point)
        requires
            *self == Direction::East ==> current.x.value() <= FIXED_WHOLE_MAX * 100 - 100,
            *self == Direction::West ==> FIXED_WHOLE_MIN * 100 + 100 <= current.x.value(),
            *self == Direction::North ==> current.y.value() <= FIXED_WHOLE_MAX * 100 - 100,
            *self == Direction::South ==> FIXED_WHOLE_MIN * 100 + 100 <= current.y.value(),
        ensures
            r.x.value() == current.x.value() + match self {
                Direction::East => 100int,
                Direction::West => -100int,
                _ => 0int,
            },
            r.y.value() == current.y.value() + match self {
                Direction::North => 100int,
                Direction::South => -100int,
                _ => 0int,
            },
    {
        let x = current.x.hundredths;
        let y = current.y.hundredths;
        match self {
            Direction::North => Point { x: current.x, y: Fixed { hundredths: y + 100 } },
            Direction::South => Point { x: current.x, y: Fixed { hundredths: y - 100 } },
            Direction::West => Point { x: Fixed { hundredths: x - 100 }, y: current.y },
            Direction::East => Point { x: Fixed { hundredths: x + 100 }, y: current.y },
        }
    }
}

/// The directions in which x and y grow.
#[derive(Clone, Copy, Debug, PartialEq, Eq, Structural)]
pub struct Axes {
    pub positive_x: Direction,
    pub positive_y: Direction,
}

impl Default for Axes {
    /// x grows to the east and y to the south, as on a screen.
    fn default() -> (r: Axes)
        ensures
            r == (Axes { positive_x: Direction::East, positive_y: Direction::South }),
    {
        Axes { positive_x: Direction::East, positive_y: Direction::South }
    }
}

impl Axes {
    pub fn new(positive_x: Direction, positive_y: Direction) -> (r: Axes)
        ensures
            r == (Axes { positive_x, positive_y }),
    {
        Axes { positive_x, positive_y }
    }

    pub fn positive_x(&self) -> (r: Direction)
        ensures
            r == self.positive_x,
    {
        self.positive_x
    }

    pub fn positive_y(&self) -> (r: Direction)
        ensures
            r == self.positive_y,
    {
        self.positive_y
    }

    pub fn set_positive_x(&mut self, direction: Direction)
        ensures
            *final(self) == (Axes { positive_x: direction, ..*old(self) }),
    {
        self.positive_x = direction;
    }

    pub fn set_positive_y(&mut self, direction: Direction)
        ensures
            *final(self) == (Axes { positive_y: direction, ..*old(self) }),
    {
        self.positive_y = direction;
    }
}

/// Where, horizontally, a relative position is measured from.
#[derive(Clone, Copy, Debug, PartialEq, Eq, Structural)]
pub enum RelativeXOrigin {
    Left,
    Center,
    Right,
}

/// Where, vertically, a relative position is measured from.
#[derive(Clone, Copy, Debug, PartialEq, Eq, Structural)]
pub enum RelativeYOrigin {
    Top,
    Center,
    Bottom,
}

impl RelativeXOrigin {
    pub open spec fn spec_name(self) -> Seq<char> {
        match self {
            RelativeXOrigin::Left => seq!['l', 'e', 'f', 't'],
            RelativeXOrigin::Center => seq!['c', 'e', 'n', 't', 'e', 'r'],
            RelativeXOrigin::Right => seq!['r', 'i', 'g', 'h', 't'],
        }
    }

    /// `left`, `center` or `right`.
    pub fn name(&self) -> (r: &'static str)
        ensures
            r@ == self.spec_name(),
    {
        proof {
            reveal_strlit("left");
            reveal_strlit("center");
            reveal_strlit("right");
        }
        match self {
            RelativeXOrigin::Left => "left",
            RelativeXOrigin::Center => "center",
            RelativeXOrigin::Right => "right",
        }
    }

    /// The origin with that name, if there is one.
    pub fn from_name(s: &str) -> (r: Option<RelativeXOrigin>)
        ensures
            r matches Some(o) ==> o.spec_name() == s@,
            r is None ==> forall|o: RelativeXOrigin| #[trigger] o.spec_name() != s@,
    {
        let t = s.to_owned();
        let left = "left".to_owned();
        let center = "center".to_owned();
        let right = "right".to_owned();
        proof {
            reveal_strlit("left");
            reveal_strlit("center");
            reveal_strlit("right");
        }
        if t == left {
            assert(RelativeXOrigin::Left.spec_name() =~= s@);
            Some(RelativeXOrigin::Left)
        } else if t == center {
            assert(RelativeXOrigin::Center.spec_name() =~= s@);
            Some(RelativeXOrigin::Center)
        } else if t == right {
            assert(RelativeXOrigin::Right.spec_name() =~= s@);
            Some(RelativeXOrigin::Right)
        } else {
            assert forall|o: RelativeXOrigin| #[trigger] o.spec_name() != s@ by {
                match o {
                    RelativeXOrigin::Left => assert(left@ =~= o.spec_name()),
                    RelativeXOrigin::Center => assert(center@ =~= o.spec_name()),
                    RelativeXOrigin::Right => assert(right@ =~= o.spec_name()),
                }
            }
            None
        }
    }
}

impl RelativeYOrigin {
    pub open spec fn spec_name(self) -> Seq<char> {
        match self {
            RelativeYOrigin::Top => seq!['t', 'o', 'p'],
            RelativeYOrigin::Center => seq!['c', 'e', 'n', 't', 'e', 'r'],
            RelativeYOrigin::Bottom => seq!['b', 'o', 't', 't', 'o', 'm'],
        }
    }

    /// `top`, `center` or `bottom`.
    pub fn name(&self) -> (r: &'static str)
        ensures
            r@ == self.spec_name(),
    {
        proof {
            reveal_strlit("top");
            reveal_strlit("center");
            reveal_strlit("bottom");
        }
        match self {
            RelativeYOrigin::Top => "top",
            RelativeYOrigin::Center => "center",
            RelativeYOrigin::Bottom => "bottom",
        }
    }

    /// The origin with that name, if there is one.
    pub fn from_name(s: &str) -> (r: Option<RelativeYOrigin>)
        ensures
            r matches Some(o) ==> o.spec_name() == s@,
            r is None ==> forall|o: RelativeYOrigin| #[trigger] o.spec_name() != s@,
    {
        let t = s.to_owned();
        let top = "top".to_owned();
        let center = "center".to_owned();
        let bottom = "bottom".to_owned();
        proof {
            reveal_strlit("top");
            reveal_strlit("center");
            reveal_strlit("bottom");
        }
        if t == top {
            assert(RelativeYOrigin::Top.spec_name() =~= s@);
            Some(RelativeYOrigin::Top)
        } else if t == center {
            assert(RelativeYOrigin::Center.spec_name() =~= s@);
            Some(RelativeYOrigin::Center)
        } else if t == bottom {
            assert(RelativeYOrigin::Bottom.spec_name() =~= s@);
            Some(RelativeYOrigin::Bottom)
        } else {
            assert forall|o: RelativeYOrigin| #[trigger] o.spec_name() != s@ by {
                match o {
                    RelativeYOrigin::Top => assert(top@ =~= o.spec_name()),
                    RelativeYOrigin::Center => assert(center@ =~= o.spec_name()),
                    RelativeYOrigin::Bottom => assert(bottom@ =~= o.spec_name()),
                }
            }
            None
        }
    }
}

} // verus!
