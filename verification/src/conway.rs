//! Conway's game of life on a toroidal grid, double-buffered.
//!
//! A [`Universe`] is a rectangle of cells that wraps around at every edge.
//! A [`ConwaySim`] keeps two universes and advances the simulation by
//! computing each generation into the spare buffer and swapping.

use rand::distributions::Distribution;
use rand::Rng;
use vstd::prelude::*;

verus! {

use crate::text::push_char;
use vstd::arithmetic::div_mod::lemma_fundamental_div_mod_converse;
use vstd::pervasive::cloned;
use vstd::string::StringExecFns;

/// Relies on `rand::thread_rng`: a handle to the thread-local random
/// number generator.
#[verifier::external_body]
fn fresh_rng() -> rand::rngs::ThreadRng {
    rand::thread_rng()
}

/// Relies on `Rng::gen_range` on an inclusive range: it panics only on an
/// empty range and otherwise returns a value within the range.
#[verifier::external_body]
fn gen_range_inclusive_u32(rng: &mut rand::rngs::ThreadRng, lo: u32, hi: u32) -> (r: u32)
    requires
        lo <= hi,
    ensures
        lo <= r <= hi,
{
    rng.gen_range(lo..=hi)
}

/// Relies on `Bernoulli::from_ratio`: it returns `Ok` whenever the
/// numerator is at most the denominator and the denominator is non-zero.
#[verifier::external_body]
fn bernoulli_from_ratio(numerator: u32, denominator: u32) -> rand::distributions::Bernoulli
    requires
        numerator <= denominator,
        0 < denominator,
{
    rand::distributions::Bernoulli::from_ratio(numerator, denominator).unwrap()
}

/// Relies on `Distribution::sample` for `Bernoulli`: one random draw;
/// nothing is promised of which value comes back.
#[verifier::external_body]
fn bernoulli_sample(
    distribution: &rand::distributions::Bernoulli,
    rng: &mut rand::rngs::ThreadRng,
) -> bool {
    distribution.sample(rng)
}

/// The declaration of rand's thread-local generator handle, so that it can
/// pass through signatures.
#[verifier::external_type_specification]
#[verifier::external_body]
pub struct ExThreadRng(rand::rngs::ThreadRng);

/// The declaration of rand's Bernoulli distribution, so that it can pass
/// through signatures.
#[verifier::external_type_specification]
#[verifier::external_body]
pub struct ExBernoulli(rand::distributions::Bernoulli);

/// The index after `i`, wrapping from the last back to 0.
pub open spec fn inc_wrap(i: int, len: int) -> int {
    (i + 1) % len
}

/// The index before `i`, wrapping from 0 back to the last.
pub open spec fn dec_wrap(i: int, len: int) -> int {
    (i + len - 1) % len
}

/// A live cell counts 1, a dead one 0.
pub open spec fn b2i(b: bool) -> int {
    if b {
        1
    } else {
        0
    }
}

/// A rectangle of cells that wraps around at every edge.
#[derive(Debug)]
pub struct Universe {
    cells: Vec<bool>,
    width: usize,
    height: usize,
}

/// `a` and `b` hold the same cells in the same shape.
pub open spec fn same_state(a: Universe, b: Universe) -> bool {
    a.spec_width() == b.spec_width() && a.spec_height() == b.spec_height() && a.grid() == b.grid()
}

/// The number of live cells among the eight neighbors of (`row`, `col`),
/// wrapping around every edge.
pub open spec fn live_neighbors_of(u: Universe, row: int, col: int) -> int {
    let pr = dec_wrap(row, u.spec_height());
    let nr = inc_wrap(row, u.spec_height());
    let pc = dec_wrap(col, u.spec_width());
    let nc = inc_wrap(col, u.spec_width());
    b2i(u.live(pr, pc)) + b2i(u.live(pr, col)) + b2i(u.live(pr, nc)) + b2i(u.live(row, pc)) + b2i(
        u.live(row, nc),
    ) + b2i(u.live(nr, pc)) + b2i(u.live(nr, col)) + b2i(u.live(nr, nc))
}

/// The life rule: a live cell survives with two or three live neighbors,
/// a dead cell comes alive with exactly three.
pub open spec fn next_state_of(u: Universe, row: int, col: int) -> bool {
    let n = live_neighbors_of(u, row, col);
    if u.live(row, col) {
        n == 2 || n == 3
    } else {
        n == 3
    }
}

/// `v` is the generation that follows `u`: same shape, every cell advanced
/// by the life rule.
pub open spec fn step_of(u: Universe, v: Universe) -> bool {
    v.spec_width() == u.spec_width() && v.spec_height() == u.spec_height() && forall|r: int, c: int|
        0 <= r < u.spec_height() && 0 <= c < u.spec_width() ==> #[trigger] v.live(r, c)
            == next_state_of(u, r, c)
}

/// The margin above and below a rendered universe: a space, one dash per
/// column, and a newline.
pub open spec fn margin_line(w: int) -> Seq<char> {
    " "@ + Seq::new(w as nat, |i: int| '-') + "\n"@
}

/// One rendered row: the cells between pipes, a plus for a live cell and a
/// space for a dead one.
pub open spec fn universe_row_text(u: Universe, r: int) -> Seq<char> {
    "|"@ + Seq::new(
        u.spec_width() as nat,
        |c: int|
            if u.live(r, c) {
                '+'
            } else {
                ' '
            },
    ) + "|\n"@
}

/// The first `n` rendered rows of a universe.
pub open spec fn universe_rows_text(u: Universe, n: int) -> Seq<char>
    decreases n,
{
    if n <= 0 {
        Seq::empty()
    } else {
        universe_rows_text(u, n - 1) + universe_row_text(u, n - 1)
    }
}

/// The whole rendered universe: margin, rows, margin.
pub open spec fn universe_text(u: Universe) -> Seq<char> {
    margin_line(u.spec_width()) + universe_rows_text(u, u.spec_height()) + margin_line(
        u.spec_width(),
    )
}

proof fn lemma_row_major_bounds(row: int, col: int, w: int, h: int)
    requires
        0 <= row < h,
        0 <= col < w,
    ensures
        0 <= row * w + col < w * h,
        (row * w + col) / w == row,
        (row * w + col) % w == col,
{
    assert(0 <= row * w + col < w * h) by (nonlinear_arith)
        requires
            0 <= row < h,
            0 <= col < w,
    ;
    lemma_fundamental_div_mod_converse(row * w + col, w, row, col);
}

impl Universe {
    /// How many cells wide the universe is.
    pub closed spec fn spec_width(&self) -> int {
        self.width as int
    }

    /// How many cells tall the universe is.
    pub closed spec fn spec_height(&self) -> int {
        self.height as int
    }

    /// The cells, row major.
    pub closed spec fn grid(&self) -> Seq<bool> {
        self.cells@
    }

    /// The universe holds exactly width times height cells.
    pub open spec fn wf(&self) -> bool {
        self.grid().len() == self.spec_width() * self.spec_height()
    }

    /// Whether the cell at (`row`, `col`) is alive.
    pub open spec fn live(&self, row: int, col: int) -> bool {
        self.grid()[row * self.spec_width() + col]
    }

    /// A universe of the given size with every cell dead.
    pub fn new(width: usize, height: usize) -> (u: Self)
        requires
            width * height <= usize::MAX,
        ensures
            u.wf(),
            u.spec_width() == width,
            u.spec_height() == height,
            forall|i: int| 0 <= i < width * height ==> !u.grid()[i],
    {
        let n = width * height;
        let mut cells: Vec<bool> = Vec::new();
        for k in 0..n
            invariant
                cells@.len() == k,
                forall|i: int| 0 <= i < k ==> !cells@[i],
        {
            cells.push(false);
        }
        Universe { cells, width, height }
    }

    /// A universe of the given size seeded with a random density of live
    /// cells, between 5 and 70 percent.
    pub fn randomly_seeded(width: usize, height: usize) -> (u: Self)
        requires
            width * height <= usize::MAX,
        ensures
            u.wf(),
            u.spec_width() == width,
            u.spec_height() == height,
    {
        let mut u = Self::new(width, height);
        let mut rng = fresh_rng();
        let percent = gen_range_inclusive_u32(&mut rng, 5, 70);
        u.seed(percent);
        u
    }

    /// The size of the universe, as (width, height).
    pub fn dimensions(&self) -> (d: (usize, usize))
        ensures
            d.0 == self.spec_width() && d.1 == self.spec_height(),
    {
        (self.width, self.height)
    }

    /// Whether the cell at (`row`, `col`) is alive.
    pub fn get(&self, row: usize, col: usize) -> (b: bool)
        requires
            self.wf(),
            row < self.spec_height(),
            col < self.spec_width(),
        ensures
            b == self.live(row as int, col as int),
    {
        let n = self.cells.len();
        proof {
            lemma_row_major_bounds(row as int, col as int, self.spec_width(), self.spec_height());
            assert(row as int * self.spec_width() + col < n);
        }
        self.cells[row * self.width + col]
    }

    /// Makes the cell at (`row`, `col`) alive or dead.
    pub fn set(&mut self, row: usize, col: usize, alive: bool)
        requires
            old(self).wf(),
            row < old(self).spec_height(),
            col < old(self).spec_width(),
        ensures
            final(self).wf(),
            final(self).spec_width() == old(self).spec_width(),
            final(self).spec_height() == old(self).spec_height(),
            final(self).grid() == old(self).grid().update(
                row as int * old(self).spec_width() + col,
                alive,
            ),
    {
        let n = self.cells.len();
        proof {
            lemma_row_major_bounds(row as int, col as int, self.spec_width(), self.spec_height());
            assert(row as int * self.spec_width() + col < n);
        }
        self.cells.set(row * self.width + col, alive);
    }

    /// Redraws every cell at random, alive with roughly the given
    /// probability in percent (values above 100 count as certainty). The
    /// shape of the universe is untouched; nothing is promised of which
    /// cells come up alive.
    pub fn seed(&mut self, percent: u32)
        ensures
            final(self).spec_width() == old(self).spec_width(),
            final(self).spec_height() == old(self).spec_height(),
            final(self).grid().len() == old(self).grid().len(),
    {
        let capped = if percent > 100 {
            100
        } else {
            percent
        };
        let distribution = bernoulli_from_ratio(capped, 100);
        let mut rng = fresh_rng();
        let n = self.cells.len();
        for k in 0..n
            invariant
                self.cells@.len() == n,
                self.spec_width() == old(self).spec_width(),
                self.spec_height() == old(self).spec_height(),
        {
            let alive = bernoulli_sample(&distribution, &mut rng);
            self.cells.set(k, alive);
        }
    }

    /// Computes the generation that follows `self` into `next`, which must
    /// have the same dimensions.
    pub fn next_into(&self, next: &mut Universe)
        requires
            self.wf(),
            old(next).wf(),
            old(next).spec_width() == self.spec_width(),
            old(next).spec_height() == self.spec_height(),
        ensures
            final(next).wf(),
            step_of(*self, *final(next)),
    {
        let w = self.width;
        let h = self.height;
        if w == 0 || h == 0 {
            return ;
        }
        let n = self.cells.len();
        for k in 0..n
            invariant
                self.wf(),
                w == self.spec_width() && h == self.spec_height(),
                0 < w && 0 < h,
                n == self.grid().len(),
                next.spec_width() == w && next.spec_height() == h,
                next.grid().len() == n,
                forall|i: int|
                    0 <= i < k ==> #[trigger] next.grid()[i] == next_state_of(
                        *self,
                        i / w as int,
                        i % w as int,
                    ),
        {
            let row = k / w;
            let col = k % w;
            proof {
                let ki = k as int;
                let wi = w as int;
                let hi = h as int;
                vstd::arithmetic::div_mod::lemma_mod_bound(ki, wi);
                vstd::arithmetic::div_mod::lemma_fundamental_div_mod(ki, wi);
                vstd::arithmetic::mul::lemma_mul_is_commutative(wi, ki / wi);
                if ki / wi >= hi {
                    vstd::arithmetic::mul::lemma_mul_inequality(hi, ki / wi, wi);
                    vstd::arithmetic::mul::lemma_mul_is_commutative(hi, wi);
                    assert(false);
                }
            }
            assert(row < h && col < w);
            let alive = self.cells[k];
            assert(row * w + col == k);
            assert(alive == self.live(row as int, col as int));
            let next_cell = self.next_state(alive, row, col);
            next.cells.set(k, next_cell);
            proof {
                assert forall|i: int| 0 <= i < k + 1 implies #[trigger] next.grid()[i]
                    == next_state_of(*self, i / w as int, i % w as int) by {
                    if i == k {
                        assert(k as int / w as int == row && k as int % w as int == col);
                    }
                }
            }
        }
        proof {
            assert forall|r: int, c: int|
                0 <= r < self.spec_height() && 0 <= c < self.spec_width() implies #[trigger] next.live(
                r,
                c,
            ) == next_state_of(*self, r, c) by {
                lemma_row_major_bounds(r, c, w as int, h as int);
                assert(next.grid()[r * w + c] == next_state_of(
                    *self,
                    (r * w + c) / w as int,
                    (r * w + c) % w as int,
                ));
            }
        }
    }

    /// The universe as text: the cells between pipes, a plus for a live
    /// cell, margins of dashes above and below.
    pub fn render(&self) -> (out: String)
        requires
            self.wf(),
        ensures
            out@ == universe_text(*self),
    {
        let w = self.width;
        let h = self.height;
        let mut out = String::new();
        assert(out@ =~= Seq::<char>::empty());
        self.margin_into(&mut out);
        for r in 0..h
            invariant
                self.wf(),
                w == self.spec_width() && h == self.spec_height(),
                out@ == margin_line(w as int) + universe_rows_text(*self, r as int),
        {
            out.append("|");
            for c in 0..w
                invariant
                    self.wf(),
                    w == self.spec_width() && h == self.spec_height(),
                    r < h,
                    out@ == margin_line(w as int) + universe_rows_text(*self, r as int) + "|"@
                        + Seq::new(
                        c as nat,
                        |i: int|
                            if self.live(r as int, i) {
                                '+'
                            } else {
                                ' '
                            },
                    ),
            {
                if self.get(r, c) {
                    push_char(&mut out, '+');
                } else {
                    push_char(&mut out, ' ');
                }
                proof {
                    assert(out@ =~= margin_line(w as int) + universe_rows_text(*self, r as int)
                        + "|"@ + Seq::new(
                        c as nat + 1,
                        |i: int|
                            if self.live(r as int, i) {
                                '+'
                            } else {
                                ' '
                            },
                    ));
                }
            }
            out.append("|\n");
            proof {
                assert(out@ =~= margin_line(w as int) + universe_rows_text(*self, r as int + 1));
            }
        }
        self.margin_into(&mut out);
        proof {
            assert(out@ =~= universe_text(*self));
        }
        out
    }

    /// Appends the dashed margin line for this universe's width.
    fn margin_into(&self, out: &mut String)
        ensures
            final(out)@ == old(out)@ + margin_line(self.spec_width()),
    {
        let w = self.width;
        out.append(" ");
        for c in 0..w
            invariant
                w == self.spec_width(),
                out@ == old(out)@ + " "@ + Seq::new(c as nat, |i: int| '-'),
        {
            push_char(out, '-');
            proof {
                assert(out@ =~= old(out)@ + " "@ + Seq::new(c as nat + 1, |i: int| '-'));
            }
        }
        out.append("\n");
        proof {
            assert(out@ =~= old(out)@ + margin_line(self.spec_width()));
        }
    }

    /// The life rule for one cell, whose current state is passed in as
    /// `alive`.
    fn next_state(&self, alive: bool, row: usize, col: usize) -> (r: bool)
        requires
            self.wf(),
            row < self.spec_height(),
            col < self.spec_width(),
        ensures
            r == (if alive {
                live_neighbors_of(*self, row as int, col as int) == 2 || live_neighbors_of(
                    *self,
                    row as int,
                    col as int,
                ) == 3
            } else {
                live_neighbors_of(*self, row as int, col as int) == 3
            }),
    {
        match (alive, self.live_neighbors(row, col)) {
            (true, n) => n == 2 || n == 3,
            (false, 3) => true,
            (false, _) => false,
        }
    }

    /// Counts the live cells among the eight neighbors of (`row`, `col`),
    /// wrapping around every edge.
    fn live_neighbors(&self, row: usize, col: usize) -> (n: usize)
        requires
            self.wf(),
            row < self.spec_height(),
            col < self.spec_width(),
        ensures
            n == live_neighbors_of(*self, row as int, col as int),
    {
        let prev_row = dec_index_wrapping(row, self.height);
        let next_row = inc_index_wrapping(row, self.height);
        let prev_col = dec_index_wrapping(col, self.width);
        let next_col = inc_index_wrapping(col, self.width);
        let mut n: usize = 0;
        if self.get(prev_row, prev_col) {
            n += 1;
        }
        if self.get(prev_row, col) {
            n += 1;
        }
        if self.get(prev_row, next_col) {
            n += 1;
        }
        if self.get(row, prev_col) {
            n += 1;
        }
        if self.get(row, next_col) {
            n += 1;
        }
        if self.get(next_row, prev_col) {
            n += 1;
        }
        if self.get(next_row, col) {
            n += 1;
        }
        if self.get(next_row, next_col) {
            n += 1;
        }
        n
    }
}

impl Clone for Universe {
    /// A universe with the same shape and the same cells.
    fn clone(&self) -> (r: Self)
        ensures
            same_state(r, *self),
    {
        let cells = self.cells.clone();
        proof {
            assert forall|i: int| 0 <= i < self.cells@.len() implies cells@[i]
                == self.cells@[i] by {
                assert(cloned(self.cells@[i], cells@[i]));
            }
            assert(cells@ =~= self.cells@);
        }
        Universe { cells, width: self.width, height: self.height }
    }
}

/// The index after `index`, wrapping from the last back to 0.
pub fn inc_index_wrapping(index: usize, len: usize) -> (r: usize)
    requires
        index < len,
    ensures
        r == inc_wrap(index as int, len as int),
        r < len,
{
    (index + 1) % len
}

/// The index before `index`, wrapping from 0 back to the last.
pub fn dec_index_wrapping(index: usize, len: usize) -> (r: usize)
    requires
        index < len,
    ensures
        r == dec_wrap(index as int, len as int),
        r < len,
{
    proof {
        if index == 0 {
            vstd::arithmetic::div_mod::lemma_small_mod((len - 1) as nat, len as nat);
        } else {
            vstd::arithmetic::div_mod::lemma_mod_add_multiples_vanish(index - 1, len as int);
            vstd::arithmetic::div_mod::lemma_small_mod((index - 1) as nat, len as nat);
        }
    }
    if index == 0 {
        len - 1
    } else {
        index - 1
    }
}

/// A double-buffered simulation: the front universe is the latest
/// generation computed, the back one is what `universe` hands out.
pub struct ConwaySim {
    cur: Universe,
    next: Universe,
}

impl ConwaySim {
    /// The buffer that `next` last wrote.
    pub closed spec fn front(&self) -> Universe {
        self.cur
    }

    /// The buffer that `universe` hands out.
    pub closed spec fn back(&self) -> Universe {
        self.next
    }

    /// Both buffers are well-formed and share one shape.
    pub open spec fn wf(&self) -> bool {
        self.front().wf() && self.back().wf() && self.back().spec_width()
            == self.front().spec_width() && self.back().spec_height() == self.front().spec_height()
    }

    /// A simulation starting from `start`; until the first step, the
    /// observable universe is a copy of the seed.
    pub fn new(start: Universe) -> (s: Self)
        requires
            start.wf(),
        ensures
            s.wf(),
            s.front() == start,
            same_state(s.back(), start),
    {
        let next = start.clone();
        Self { cur: start, next }
    }

    /// Advances the simulation one generation: the front buffer becomes
    /// the next generation, and the buffer that `universe` hands out
    /// becomes the generation just replaced.
    pub fn next(&mut self)
        requires
            old(self).wf(),
        ensures
            final(self).wf(),
            step_of(old(self).front(), final(self).front()),
            final(self).back() == old(self).front(),
    {
        self.cur.next_into(&mut self.next);
        core::mem::swap(&mut self.cur, &mut self.next);
    }

    /// The universe last left behind by `next`: the seed copy before any
    /// step, and afterwards the generation that the latest step replaced.
    pub fn universe(&self) -> (u: &Universe)
        ensures
            u == self.back(),
    {
        &self.next
    }
}

/// A simulation over a randomly seeded universe of the given size.
pub fn random(width: usize, height: usize) -> (s: ConwaySim)
    requires
        width * height <= usize::MAX,
    ensures
        s.wf(),
        s.front().spec_width() == width,
        s.front().spec_height() == height,
{
    ConwaySim::new(Universe::randomly_seeded(width, height))
}

/// A simulation over the given seed universe.
pub fn from_seed(seed: Universe) -> (s: ConwaySim)
    requires
        seed.wf(),
    ensures
        s.wf(),
        s.front() == seed,
        same_state(s.back(), seed),
{
    ConwaySim::new(seed)
}

} // verus!
