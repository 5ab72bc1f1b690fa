//! An 8x8 board of piece characters, with the standard starting position.

use vstd::prelude::*;

verus! {

use crate::grids;

/// The standard starting position: black pieces on top, white on the
/// bottom, capital letters for white.
pub open spec fn start_layout() -> Seq<Seq<char>> {
    seq![
        seq!['r', 'n', 'b', 'q', 'k', 'b', 'n', 'r'],
        seq!['p', 'p', 'p', 'p', 'p', 'p', 'p', 'p'],
        seq![' ', ' ', ' ', ' ', ' ', ' ', ' ', ' '],
        seq![' ', ' ', ' ', ' ', ' ', ' ', ' ', ' '],
        seq![' ', ' ', ' ', ' ', ' ', ' ', ' ', ' '],
        seq![' ', ' ', ' ', ' ', ' ', ' ', ' ', ' '],
        seq!['P', 'P', 'P', 'P', 'P', 'P', 'P', 'P'],
        seq!['R', 'N', 'B', 'Q', 'K', 'B', 'N', 'R'],
    ]
}

/// The empty board: every square a space.
pub open spec fn blank_layout() -> Seq<Seq<char>> {
    Seq::new(8, |r: int| Seq::new(8, |c: int| ' '))
}

/// An 8x8 board of characters, one per square; a space marks an empty
/// square.
#[derive(Debug, Clone, Copy)]
pub struct ChessBoard([[char; 8]; 8]);

impl ChessBoard {
    /// The squares, row by row from the top.
    pub closed spec fn squares(&self) -> Seq<Seq<char>> {
        self.0.deep_view()
    }

    /// A board with the given layout.
    pub fn new(layout: [[char; 8]; 8]) -> (b: Self)
        ensures
            b.squares() == layout.deep_view(),
    {
        Self(layout)
    }

    /// A board with every square empty.
    pub fn blank() -> (b: Self)
        ensures
            b.squares() == blank_layout(),
    {
        let b = Self([[' '; 8]; 8]);
        proof {
            assert(b.squares() =~~= blank_layout());
        }
        b
    }

    /// A board in the starting position.
    pub fn at_start() -> (b: Self)
        ensures
            b.squares() == start_layout(),
    {
        let b = Self(
            [
                ['r', 'n', 'b', 'q', 'k', 'b', 'n', 'r'],
                ['p', 'p', 'p', 'p', 'p', 'p', 'p', 'p'],
                [' ', ' ', ' ', ' ', ' ', ' ', ' ', ' '],
                [' ', ' ', ' ', ' ', ' ', ' ', ' ', ' '],
                [' ', ' ', ' ', ' ', ' ', ' ', ' ', ' '],
                [' ', ' ', ' ', ' ', ' ', ' ', ' ', ' '],
                ['P', 'P', 'P', 'P', 'P', 'P', 'P', 'P'],
                ['R', 'N', 'B', 'Q', 'K', 'B', 'N', 'R'],
            ],
        );
        proof {
            assert(b.squares() =~~= start_layout());
        }
        b
    }

    /// Puts every piece back in its starting square.
    pub fn reset(&mut self)
        ensures
            final(self).squares() == start_layout(),
    {
        self.0 = [
            ['r', 'n', 'b', 'q', 'k', 'b', 'n', 'r'],
            ['p', 'p', 'p', 'p', 'p', 'p', 'p', 'p'],
            [' ', ' ', ' ', ' ', ' ', ' ', ' ', ' '],
            [' ', ' ', ' ', ' ', ' ', ' ', ' ', ' '],
            [' ', ' ', ' ', ' ', ' ', ' ', ' ', ' '],
            [' ', ' ', ' ', ' ', ' ', ' ', ' ', ' '],
            ['P', 'P', 'P', 'P', 'P', 'P', 'P', 'P'],
            ['R', 'N', 'B', 'Q', 'K', 'B', 'N', 'R'],
        ];
        proof {
            assert(self.squares() =~~= start_layout());
        }
    }

    /// The board as text, each square between brackets, one line per rank.
    pub fn render(&self) -> (out: String)
        ensures
            out@ == grids::grid_text(self.squares(), 8),
    {
        grids::format_grid_to(&self.0)
    }
}

} // verus!
