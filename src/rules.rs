//! The movement rules, stated as mathematics over the two buffers of a grid.
//!
//! A grid of `w` columns and `h` rows is a sequence of `w * h` cells, the cell of
//! column `x` and row `y` standing at `y * w + x`; row 0 is the top row. During a
//! tick `cur` is the snapshot that chooses the rule of each cell and `next` is the
//! buffer being built; every rule compares against `next`, so it sees the moves
//! already made in this tick.
use vstd::prelude::*;

use crate::particle::{density_of, Particle};
use vstd::arithmetic::div_mod::lemma_fundamental_div_mod_converse;

verus! {

/// Linear position of the cell at column `x`, row `y`.
pub open spec fn idx(w: int, x: int, y: int) -> int {
    y * w + x
}

/// The cell at column `x`, row `y` lies inside a grid of `w` columns and `h` rows,
/// and so does the cell below it when `y + 1 < h`.
pub proof fn lemma_cell_in_grid(w: int, h: int, x: int, y: int)
    requires
        0 <= x < w,
        0 <= y < h,
    ensures
        0 <= idx(w, x, y) < w * h,
        idx(w, x, y + 1) == idx(w, x, y) + w,
        idx(w, x, y) % w == x,
        idx(w, x, y) / w == y,
        y + 1 < h ==> idx(w, x, y + 1) < w * h,
{
    assert(0 <= y * w + x < w * h) by (nonlinear_arith)
        requires
            0 <= x < w,
            0 <= y < h,
    ;
    assert((y + 1) * w == y * w + w) by (nonlinear_arith);
    if y + 1 < h {
        assert((y + 1) * w + x < w * h) by (nonlinear_arith)
            requires
                0 <= x < w,
                0 <= y + 1 < h,
        ;
    }
    lemma_fundamental_div_mod_converse(idx(w, x, y), w, y, x);
}

/// Density of the cell at column `x`, row `y` of a buffer.
pub open spec fn dens_at(s: Seq<Particle>, w: int, x: int, y: int) -> int {
    density_of(s[idx(w, x, y)]) as int
}

/// A buffer with the contents of positions `a` and `b` exchanged.
pub open spec fn swapped(s: Seq<Particle>, a: int, b: int) -> Seq<Particle> {
    s.update(a, s[b]).update(b, s[a])
}

/// Rule of a granular material (sand) at column `x`, row `y`: straight down, else
/// down-left, else down-right, else it stays where it is.
pub open spec fn granular_step(
    cur: Seq<Particle>,
    next: Seq<Particle>,
    w: int,
    h: int,
    x: int,
    y: int,
) -> Seq<Particle> {
    let i = idx(w, x, y);
    let d = density_of(cur[i]) as int;
    if y == h - 1 {
        next
    } else if d > dens_at(next, w, x, y + 1) {
        swapped(next, i, idx(w, x, y + 1))
    } else if x != 0 && d > dens_at(next, w, x - 1, y) && d > dens_at(next, w, x - 1, y + 1) {
        swapped(next, i, idx(w, x - 1, y + 1))
    } else if x != w - 1 && d > dens_at(next, w, x + 1, y) && d > dens_at(next, w, x + 1, y + 1) {
        swapped(next, i, idx(w, x + 1, y + 1))
    } else {
        next.update(i, cur[i])
    }
}

/// Sideways search of a liquid of density `d` at column `x`, row `y`, from offset
/// `i` on. `lo` and `ro` tell whether the left and the right paths are still open.
/// The result is the nearest column, on the same row, that is reachable without
/// crossing a cell of density `d` or more and whose cell below is lighter than `d`;
/// at equal distance the left one.
pub open spec fn flow_scan(
    next: Seq<Particle>,
    w: int,
    x: int,
    y: int,
    d: int,
    i: int,
    lo: bool,
    ro: bool,
) -> Option<int>
    decreases w - i,
{
    if i >= w || (!lo && !ro) {
        None
    } else {
        let l_blocked = lo && d <= dens_at(next, w, x - i, y);
        if lo && !l_blocked && d > dens_at(next, w, x - i, y + 1) {
            Some(x - i)
        } else {
            let r_blocked = ro && d <= dens_at(next, w, x + i, y);
            if ro && !r_blocked && d > dens_at(next, w, x + i, y + 1) {
                Some(x + i)
            } else {
                flow_scan(
                    next,
                    w,
                    x,
                    y,
                    d,
                    i + 1,
                    lo && !l_blocked && x - i != 0,
                    ro && !r_blocked && x + i != w - 1,
                )
            }
        }
    }
}

/// The column that a liquid of density `d` at column `x`, row `y` flows to, if any.
pub open spec fn flow_target(next: Seq<Particle>, w: int, x: int, y: int, d: int) -> Option<int> {
    flow_scan(next, w, x, y, d, 1, x != 0, x != w - 1)
}

/// Rule of a liquid (water, oil) at column `x`, row `y`: straight down, else a
/// sideways swap with the cell of the flow target on the same row, else nothing.
/// A liquid that stays writes nothing: its cell of `next` may already hold a
/// denser liquid that flowed into it during this tick, and that one must not be
/// overwritten.
pub open spec fn liquid_step(
    cur: Seq<Particle>,
    next: Seq<Particle>,
    w: int,
    h: int,
    x: int,
    y: int,
) -> Seq<Particle> {
    let i = idx(w, x, y);
    let d = density_of(cur[i]) as int;
    if y == h - 1 {
        next
    } else if d > dens_at(next, w, x, y + 1) {
        swapped(next, i, idx(w, x, y + 1))
    } else {
        match flow_target(next, w, x, y, d) {
            Some(t) => swapped(next, i, idx(w, t, y)),
            None => next,
        }
    }
}

/// The rule of the cell at column `x`, row `y`, chosen by its material in `cur`.
pub open spec fn step(
    cur: Seq<Particle>,
    next: Seq<Particle>,
    w: int,
    h: int,
    x: int,
    y: int,
) -> Seq<Particle> {
    match cur[idx(w, x, y)] {
        Particle::Sand => granular_step(cur, next, w, h, x, y),
        Particle::Stone => next.update(idx(w, x, y), Particle::Stone),
        Particle::Water => liquid_step(cur, next, w, h, x, y),
        Particle::Oil => liquid_step(cur, next, w, h, x, y),
        Particle::Void => next,
    }
}

/// `next` after the rules of every cell at a linear position `k` or more have been
/// applied, in decreasing order of position: rows from the bottom up, and each row
/// from right to left.
pub open spec fn sweep(cur: Seq<Particle>, next: Seq<Particle>, w: int, h: int, k: int) -> Seq<
    Particle,
>
    decreases w * h - k,
{
    if k < 0 || k >= w * h {
        next
    } else {
        step(cur, sweep(cur, next, w, h, k + 1), w, h, k % w, k / w)
    }
}

/// The grid after one tick: every cell's rule applied once, from a `next` buffer
/// that starts as a copy of the grid.
pub open spec fn tick_of(g: Seq<Particle>, w: int, h: int) -> Seq<Particle> {
    sweep(g, g, w, h, 0)
}

/// The grid after `n` ticks.
pub open spec fn ticks_of(g: Seq<Particle>, w: int, h: int, n: nat) -> Seq<Particle>
    decreases n,
{
    if n == 0 {
        g
    } else {
        tick_of(ticks_of(g, w, h, (n - 1) as nat), w, h)
    }
}

} // verus!
