use vstd::prelude::*;

verus! {

/// The four directions of travel, in the fixed cyclic order
/// {Down, Right, Up, Left} used by the turn commands.
#[derive(Clone, Copy, PartialEq, Eq, Structural, Debug)]
pub enum Heading {
    Down,
    Right,
    Up,
    Left,
}

impl Heading {
    /// Index of the heading in the cyclic order {Down, Right, Up, Left}.
    pub open spec fn index(self) -> int {
        match self {
            Heading::Down => 0,
            Heading::Right => 1,
            Heading::Up => 2,
            Heading::Left => 3,
        }
    }

    /// The heading one step toward increasing index, modulo four.
    pub open spec fn spec_rotated_inc(self) -> Heading {
        match self {
            Heading::Down => Heading::Right,
            Heading::Right => Heading::Up,
            Heading::Up => Heading::Left,
            Heading::Left => Heading::Down,
        }
    }

    /// The heading one step toward decreasing index, modulo four.
    pub open spec fn spec_rotated_dec(self) -> Heading {
        match self {
            Heading::Down => Heading::Left,
            Heading::Right => Heading::Down,
            Heading::Up => Heading::Right,
            Heading::Left => Heading::Up,
        }
    }

    /// Turn one step toward increasing index (modulo four).
    pub fn rotated_inc(self) -> (r: Heading)
        ensures
            r == self.spec_rotated_inc(),
            r.index() == (self.index() + 1) % 4,
    {
        match self {
            Heading::Down => Heading::Right,
            Heading::Right => Heading::Up,
            Heading::Up => Heading::Left,
            Heading::Left => Heading::Down,
        }
    }

    /// Turn one step toward decreasing index (modulo four).
    pub fn rotated_dec(self) -> (r: Heading)
        ensures
            r == self.spec_rotated_dec(),
            r.index() == (self.index() + 3) % 4,
    {
        match self {
            Heading::Down => Heading::Left,
            Heading::Right => Heading::Down,
            Heading::Up => Heading::Right,
            Heading::Left => Heading::Up,
        }
    }

    /// The heading whose index in the cyclic order is `i`.
    pub fn from_index(i: usize) -> (r: Heading)
        requires
            i < 4,
        ensures
            r.index() == i as int,
    {
        if i == 0 {
            Heading::Down
        } else if i == 1 {
            Heading::Right
        } else if i == 2 {
            Heading::Up
        } else {
            Heading::Left
        }
    }
}

/// Law: four turns toward increasing index return a heading to itself, and a
/// turn toward decreasing index undoes a turn toward increasing index (and
/// vice versa).
pub proof fn lemma_heading_cycle(h: Heading)
    ensures
        h.spec_rotated_inc().spec_rotated_inc().spec_rotated_inc().spec_rotated_inc() == h,
        h.spec_rotated_inc().spec_rotated_dec() == h,
        h.spec_rotated_dec().spec_rotated_inc() == h,
{
}

} // verus!
