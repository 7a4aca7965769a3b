use vstd::prelude::*;
use crate::heading::Heading;

verus! {

/// The fixed identity color of a player slot; it tells slots apart in
/// rendering and in win messages and never changes across resets.
#[derive(Clone, Copy, PartialEq, Eq, Structural, Debug)]
pub enum PlayerColor {
    Red,
    Green,
    Blue,
    Yellow,
}

/// One lightcycle: a cell position inside the field, a heading, an alive
/// flag, and a fixed identity color.
#[derive(Clone, Copy, PartialEq, Eq, Structural, Debug)]
pub struct Player {
    pub x: usize,
    pub y: usize,
    pub dir: Heading,
    pub active: bool,
    pub color: PlayerColor,
}

/// Relies on macroquad::rand::rand: a pseudo-random `u32`. Nothing is
/// promised of its value; callers reduce it to a range themselves.
#[verifier::external_body]
fn next_random() -> u32 {
    macroquad::rand::rand()
}

/// A pseudo-random value in `[0, bound)`: a fresh pseudo-random number
/// reduced modulo `bound`. For `bound` at most 2^32 every value of the range
/// is reachable.
pub fn random_below(bound: usize) -> (r: usize)
    requires
        0 < bound,
    ensures
        r < bound,
{
    let raw = next_random();
    (raw as usize) % bound
}

/// The coordinate one step toward the upper bound, wrapping to zero past it.
pub open spec fn wrap_inc(v: usize, bound: usize) -> usize {
    if v + 1 == bound {
        0usize
    } else {
        (v + 1) as usize
    }
}

/// The coordinate one step toward zero, wrapping to the last index below it.
pub open spec fn wrap_dec(v: usize, bound: usize) -> usize {
    if v == 0 {
        (bound - 1) as usize
    } else {
        (v - 1) as usize
    }
}

impl Player {
    /// The position lies inside the field.
    pub open spec fn in_bounds(self, width: usize, height: usize) -> bool {
        self.x < width && self.y < height
    }

    /// The player after one movement step along its heading, with both axes
    /// wrapped independently at the field bounds. Down and Right point
    /// toward increasing coordinates.
    pub open spec fn spec_stepped(self, width: usize, height: usize) -> Player {
        match self.dir {
            Heading::Down => Player { y: wrap_inc(self.y, height), ..self },
            Heading::Right => Player { x: wrap_inc(self.x, width), ..self },
            Heading::Up => Player { y: wrap_dec(self.y, height), ..self },
            Heading::Left => Player { x: wrap_dec(self.x, width), ..self },
        }
    }

    /// A freshly placed player: a pseudo-random in-bounds position, a
    /// pseudo-random heading, alive, with the given identity color.
    pub fn new(color: PlayerColor, width: usize, height: usize) -> (p: Player)
        requires
            0 < width,
            0 < height,
        ensures
            p.in_bounds(width, height),
            p.active,
            p.color == color,
    {
        let x = random_below(width);
        let y = random_below(height);
        let dir = Heading::from_index(random_below(4));
        Player { x, y, dir, active: true, color }
    }

    /// Move one cell along the current heading, then wrap each coordinate
    /// independently: one past the upper bound becomes zero, one below zero
    /// becomes the last valid index.
    pub fn tick(&mut self, width: usize, height: usize)
        requires
            old(self).in_bounds(width, height),
        ensures
            *final(self) == old(self).spec_stepped(width, height),
            final(self).in_bounds(width, height),
    {
        match self.dir {
            Heading::Down => {
                self.y = if self.y + 1 == height {
                    0
                } else {
                    self.y + 1
                };
            },
            Heading::Right => {
                self.x = if self.x + 1 == width {
                    0
                } else {
                    self.x + 1
                };
            },
            Heading::Up => {
                self.y = if self.y == 0 {
                    height - 1
                } else {
                    self.y - 1
                };
            },
            Heading::Left => {
                self.x = if self.x == 0 {
                    width - 1
                } else {
                    self.x - 1
                };
            },
        }
    }

    /// Re-randomize the position and heading in place and revive the player;
    /// the identity color is kept.
    pub fn reset(&mut self, width: usize, height: usize)
        requires
            0 < width,
            0 < height,
        ensures
            final(self).in_bounds(width, height),
            final(self).active,
            final(self).color == old(self).color,
    {
        self.x = random_below(width);
        self.y = random_below(height);
        self.dir = Heading::from_index(random_below(4));
        self.active = true;
    }
}

/// Law: a movement step keeps the position inside [0, width) x [0, height);
/// stepping right from the last column wraps to column zero, stepping left
/// from column zero wraps to the last column, and symmetrically for rows.
pub proof fn lemma_wraparound(p: Player, width: usize, height: usize)
    requires
        p.in_bounds(width, height),
    ensures
        p.spec_stepped(width, height).in_bounds(width, height),
        p.dir == Heading::Right && p.x == width - 1 ==> p.spec_stepped(width, height).x == 0,
        p.dir == Heading::Left && p.x == 0 ==> p.spec_stepped(width, height).x == width - 1,
        p.dir == Heading::Down && p.y == height - 1 ==> p.spec_stepped(width, height).y == 0,
        p.dir == Heading::Up && p.y == 0 ==> p.spec_stepped(width, height).y == height - 1,
{
}

} // verus!
