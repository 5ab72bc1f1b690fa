//! A turtle that walks one step at a time on an integer plane.
//!
//! The y axis grows downward: `up` decreases `y` and `down` increases it.

use vstd::prelude::*;

verus! {

/// A position on the plane, moved one step at a time.
#[derive(Debug, Clone, Copy, PartialEq, Eq, Structural)]
pub struct Turtle {
    x: isize,
    y: isize,
}

impl Turtle {
    /// The horizontal coordinate.
    pub closed spec fn pos_x(&self) -> int {
        self.x as int
    }

    /// The vertical coordinate; larger is further down.
    pub closed spec fn pos_y(&self) -> int {
        self.y as int
    }

    /// A turtle standing at (`x`, `y`).
    pub fn at(x: isize, y: isize) -> (t: Self)
        ensures
            t.pos_x() == x && t.pos_y() == y,
    {
        Self { x, y }
    }

    /// One step up (toward smaller `y`).
    pub fn up(&mut self)
        requires
            old(self).pos_y() > isize::MIN,
        ensures
            final(self).pos_y() == old(self).pos_y() - 1,
            final(self).pos_x() == old(self).pos_x(),
    {
        self.y = self.y - 1;
    }

    /// One step down (toward larger `y`).
    pub fn down(&mut self)
        requires
            old(self).pos_y() < isize::MAX,
        ensures
            final(self).pos_y() == old(self).pos_y() + 1,
            final(self).pos_x() == old(self).pos_x(),
    {
        self.y = self.y + 1;
    }

    /// One step left (toward smaller `x`).
    pub fn left(&mut self)
        requires
            old(self).pos_x() > isize::MIN,
        ensures
            final(self).pos_x() == old(self).pos_x() - 1,
            final(self).pos_y() == old(self).pos_y(),
    {
        self.x = self.x - 1;
    }

    /// One step right (toward larger `x`).
    pub fn right(&mut self)
        requires
            old(self).pos_x() < isize::MAX,
        ensures
            final(self).pos_x() == old(self).pos_x() + 1,
            final(self).pos_y() == old(self).pos_y(),
    {
        self.x = self.x + 1;
    }

    /// Where the turtle stands, as (x, y).
    pub fn position(&self) -> (p: (isize, isize))
        ensures
            p.0 == self.pos_x() && p.1 == self.pos_y(),
    {
        (self.x, self.y)
    }
}

impl Default for Turtle {
    /// A turtle standing at the origin.
    fn default() -> (t: Self)
        ensures
            t.pos_x() == 0 && t.pos_y() == 0,
    {
        Self { x: 0, y: 0 }
    }
}

/// Walks a fresh turtle up, right, down, down, left, and reports each
/// position visited along the way, the starting origin included.
pub fn explore_norman_turtle() -> (trail: Vec<(isize, isize)>)
    ensures
        trail@ =~= seq![
            (0isize, 0isize),
            (0isize, -1isize),
            (1isize, -1isize),
            (1isize, 0isize),
            (1isize, 1isize),
            (0isize, 1isize),
        ],
{
    let mut t = Turtle::default();
    let mut trail: Vec<(isize, isize)> = Vec::new();
    trail.push(t.position());
    t.up();
    trail.push(t.position());
    t.right();
    trail.push(t.position());
    t.down();
    trail.push(t.position());
    t.down();
    trail.push(t.position());
    t.left();
    trail.push(t.position());
    trail
}

} // verus!
