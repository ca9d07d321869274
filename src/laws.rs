//! What a tick guarantees, proved over the rules of `rules`.
use vstd::prelude::*;

use crate::particle::{density_of, is_movable, Particle};
use crate::rules::{
    dens_at, flow_scan, idx, lemma_cell_in_grid, step, swapped, sweep, tick_of, ticks_of,
};
use vstd::arithmetic::div_mod::{lemma_fundamental_div_mod, lemma_mod_pos_bound};

verus! {

/// The column and row of a linear position `k` inside the grid.
proof fn lemma_position(w: int, h: int, k: int)
    requires
        0 <= w,
        0 <= h,
        0 <= k < w * h,
    ensures
        w > 0,
        0 <= k % w < w,
        0 <= k / w < h,
        idx(w, k % w, k / w) == k,
{
    if w <= 0 {
        assert(w * h <= 0) by (nonlinear_arith)
            requires
                w <= 0,
                0 <= h,
        ;
    }
    lemma_fundamental_div_mod(k, w);
    lemma_mod_pos_bound(k, w);
    let y = k / w;
    assert(y * w == w * y) by (nonlinear_arith);
    if y >= h {
        assert(y * w >= h * w) by (nonlinear_arith)
            requires
                y >= h,
                w > 0,
        ;
        assert(h * w == w * h) by (nonlinear_arith);
    }
    if y < 0 {
        assert(y * w <= -w) by (nonlinear_arith)
            requires
                y < 0,
                w > 0,
        ;
    }
}

/// Exchanging two cells keeps the multiset of materials.
proof fn lemma_swap_multiset(s: Seq<Particle>, a: int, b: int)
    requires
        0 <= a < s.len(),
        0 <= b < s.len(),
    ensures
        swapped(s, a, b).len() == s.len(),
        swapped(s, a, b).to_multiset() == s.to_multiset(),
{
    broadcast use vstd::seq_lib::group_to_multiset_ensures;
    broadcast use vstd::seq_lib::to_multiset_update;

    let s1 = s.update(a, s[b]);
    let s2 = s1.update(b, s[a]);
    if a == b {
        assert(s2 =~= s);
    } else {
        assert(s.contains(s[a]));
        assert(s1[a] == s[b]);
        assert(s1.contains(s[b]));
        assert(s2.to_multiset() =~= s.to_multiset());
    }
}

/// Where the sideways search of a liquid ends: on a column of its row, other than
/// its own, whose cell is lighter than the liquid.
proof fn lemma_flow_scan(
    next: Seq<Particle>,
    w: int,
    x: int,
    y: int,
    d: int,
    i: int,
    lo: bool,
    ro: bool,
)
    requires
        0 <= x < w,
        1 <= i,
        lo ==> i <= x,
        ro ==> x + i < w,
    ensures
        flow_scan(next, w, x, y, d, i, lo, ro) matches Some(t) ==> 0 <= t < w && t != x
            && dens_at(next, w, t, y) < d,
    decreases w - i,
{
    if i >= w || (!lo && !ro) {
    } else {
        let l_blocked = lo && d <= dens_at(next, w, x - i, y);
        let r_blocked = ro && d <= dens_at(next, w, x + i, y);
        lemma_flow_scan(
            next,
            w,
            x,
            y,
            d,
            i + 1,
            lo && !l_blocked && x - i != 0,
            ro && !r_blocked && x + i != w - 1,
        );
    }
}

/// What the rule of one cell, at linear position `k`, does to the buffer `next`:
/// it changes a cell other than its own only to swap in a material lighter than
/// its own; it changes a cell before its own only when it is a liquid; stone stays
/// stone; and it keeps the multiset of materials when its own cell of `next` still
/// holds its material.
proof fn lemma_step_effect(cur: Seq<Particle>, next: Seq<Particle>, w: int, h: int, k: int)
    requires
        0 <= w,
        0 <= h,
        0 <= k < w * h,
        cur.len() == w * h,
        next.len() == w * h,
    ensures
        ({
            let s = step(cur, next, w, h, k % w, k / w);
            &&& s.len() == w * h
            &&& forall|j: int|
                0 <= j < w * h && j != k && s[j] != next[j] ==> density_of(next[j])
                    < density_of(cur[k])
            &&& forall|j: int|
                0 <= j < k && s[j] != next[j] ==> (cur[k] == Particle::Water || cur[k]
                    == Particle::Oil)
            &&& cur[k] == Particle::Stone ==> s[k] == Particle::Stone
            &&& (next[k] == cur[k] || cur[k] == Particle::Water || cur[k] == Particle::Oil
                || cur[k] == Particle::Void) ==> s.to_multiset() == next.to_multiset()
        }),
{
    lemma_position(w, h, k);
    let x = k % w;
    let y = k / w;
    lemma_cell_in_grid(w, h, x, y);
    let s = step(cur, next, w, h, x, y);
    let d = density_of(cur[k]) as int;
    if y == h - 1 || cur[k] == Particle::Void {
        assert(s == next || cur[k] == Particle::Stone);
        if cur[k] == Particle::Stone {
            assert(next.update(k, cur[k]).to_multiset() == next.to_multiset() || next[k]
                != cur[k]) by {
                if next[k] == cur[k] {
                    assert(next.update(k, cur[k]) =~= next);
                }
            }
        }
    } else {
        let below = idx(w, x, y + 1);
        assert(below == k + w);
        if cur[k] == Particle::Stone {
            if next[k] == cur[k] {
                assert(next.update(k, cur[k]) =~= next);
            }
        } else if d > dens_at(next, w, x, y + 1) {
            lemma_swap_multiset(next, k, below);
        } else if cur[k] == Particle::Sand {
            if x != 0 && d > dens_at(next, w, x - 1, y) && d > dens_at(next, w, x - 1, y + 1) {
                lemma_cell_in_grid(w, h, x - 1, y + 1);
                lemma_swap_multiset(next, k, idx(w, x - 1, y + 1));
            } else if x != w - 1 && d > dens_at(next, w, x + 1, y) && d > dens_at(
                next,
                w,
                x + 1,
                y + 1,
            ) {
                lemma_cell_in_grid(w, h, x + 1, y + 1);
                lemma_swap_multiset(next, k, idx(w, x + 1, y + 1));
            } else {
                if next[k] == cur[k] {
                    assert(next.update(k, cur[k]) =~= next);
                }
            }
        } else {
            lemma_flow_scan(next, w, x, y, d, 1, x != 0, x != w - 1);
            match flow_scan(next, w, x, y, d, 1, x != 0, x != w - 1) {
                Some(t) => {
                    lemma_cell_in_grid(w, h, t, y);
                    lemma_swap_multiset(next, k, idx(w, t, y));
                },
                None => {},
            }
        }
    }
}

/// Stone stays where it is through a sweep.
proof fn lemma_sweep_keeps_stone(cur: Seq<Particle>, w: int, h: int, k: int, j: int)
    requires
        0 <= w,
        0 <= h,
        0 <= k <= w * h,
        cur.len() == w * h,
        0 <= j < w * h,
        cur[j] == Particle::Stone,
    ensures
        sweep(cur, cur, w, h, k).len() == w * h,
        sweep(cur, cur, w, h, k)[j] == Particle::Stone,
    decreases w * h - k,
{
    if k < w * h {
        lemma_sweep_keeps_stone(cur, w, h, k + 1, j);
        lemma_step_effect(cur, sweep(cur, cur, w, h, k + 1), w, h, k);
    }
}

/// Through a sweep the multiset of materials is kept, and every cell not yet
/// visited still holds its own material unless that material is lighter than
/// water (void or oil), which is the only way a liquid enters a cell ahead of it.
proof fn lemma_sweep_conserves(cur: Seq<Particle>, w: int, h: int, k: int)
    requires
        0 <= w,
        0 <= h,
        0 <= k <= w * h,
        cur.len() == w * h,
    ensures
        sweep(cur, cur, w, h, k).len() == w * h,
        sweep(cur, cur, w, h, k).to_multiset() == cur.to_multiset(),
        forall|j: int|
            0 <= j < k ==> sweep(cur, cur, w, h, k)[j] == cur[j] || density_of(cur[j])
                < density_of(Particle::Water),
    decreases w * h - k,
{
    if k < w * h {
        lemma_sweep_conserves(cur, w, h, k + 1);
        let prev = sweep(cur, cur, w, h, k + 1);
        lemma_step_effect(cur, prev, w, h, k);
    }
}

/// Stone never moves: every stone cell of the grid is still stone after a tick,
/// whatever its neighbours.
pub proof fn lemma_stone_stays(g: Seq<Particle>, w: int, h: int, j: int)
    requires
        0 <= w,
        0 <= h,
        g.len() == w * h,
        0 <= j < w * h,
        g[j] == Particle::Stone,
    ensures
        tick_of(g, w, h)[j] == Particle::Stone,
{
    lemma_sweep_keeps_stone(g, w, h, 0, j);
}

/// Stone never moves, however many ticks pass.
pub proof fn lemma_stone_stays_for_ticks(g: Seq<Particle>, w: int, h: int, n: nat, j: int)
    requires
        0 <= w,
        0 <= h,
        g.len() == w * h,
        0 <= j < w * h,
        g[j] == Particle::Stone,
    ensures
        ticks_of(g, w, h, n).len() == g.len(),
        ticks_of(g, w, h, n)[j] == Particle::Stone,
    decreases n,
{
    if n > 0 {
        lemma_stone_stays_for_ticks(g, w, h, (n - 1) as nat, j);
        let prev = ticks_of(g, w, h, (n - 1) as nat);
        lemma_tick_conserves_mass(prev, w, h);
        lemma_stone_stays(prev, w, h, j);
    }
}

/// A tick only moves materials: it neither creates nor destroys any, so the
/// multiset of materials of the grid is the same after it.
pub proof fn lemma_tick_conserves_mass(g: Seq<Particle>, w: int, h: int)
    requires
        0 <= w,
        0 <= h,
        g.len() == w * h,
    ensures
        tick_of(g, w, h).len() == g.len(),
        tick_of(g, w, h).to_multiset() == g.to_multiset(),
{
    lemma_sweep_conserves(g, w, h, 0);
}

/// However many ticks pass, the multiset of materials of the grid stays the same.
pub proof fn lemma_ticks_conserve_mass(g: Seq<Particle>, w: int, h: int, n: nat)
    requires
        0 <= w,
        0 <= h,
        g.len() == w * h,
    ensures
        ticks_of(g, w, h, n).len() == g.len(),
        ticks_of(g, w, h, n).to_multiset() == g.to_multiset(),
    decreases n,
{
    if n > 0 {
        lemma_ticks_conserve_mass(g, w, h, (n - 1) as nat);
        lemma_tick_conserves_mass(ticks_of(g, w, h, (n - 1) as nat), w, h);
    }
}

/// A sweep over a grid of stone and void changes nothing.
proof fn lemma_sweep_still(g: Seq<Particle>, w: int, h: int, k: int)
    requires
        0 <= w,
        0 <= h,
        0 <= k <= w * h,
        g.len() == w * h,
        forall|j: int| 0 <= j < g.len() ==> g[j] == Particle::Stone || g[j] == Particle::Void,
    ensures
        sweep(g, g, w, h, k) == g,
    decreases w * h - k,
{
    if k < w * h {
        lemma_sweep_still(g, w, h, k + 1);
        lemma_position(w, h, k);
        assert(g.update(k, Particle::Stone) =~= g || g[k] == Particle::Void);
    }
}

/// A grid of stone and void only is already at rest: a tick leaves it as it is, so
/// it stays the same tick after tick.
pub proof fn lemma_stone_and_void_settled(g: Seq<Particle>, w: int, h: int)
    requires
        0 <= w,
        0 <= h,
        g.len() == w * h,
        forall|j: int| 0 <= j < g.len() ==> g[j] == Particle::Stone || g[j] == Particle::Void,
    ensures
        tick_of(g, w, h) == g,
        tick_of(tick_of(g, w, h), w, h) == tick_of(g, w, h),
{
    lemma_sweep_still(g, w, h, 0);
}

/// A grid of stone and void only stays the same after any number of ticks.
pub proof fn lemma_stone_and_void_settled_for_ticks(g: Seq<Particle>, w: int, h: int, n: nat)
    requires
        0 <= w,
        0 <= h,
        g.len() == w * h,
        forall|j: int| 0 <= j < g.len() ==> g[j] == Particle::Stone || g[j] == Particle::Void,
    ensures
        ticks_of(g, w, h, n) == g,
    decreases n,
{
    if n > 0 {
        lemma_stone_and_void_settled_for_ticks(g, w, h, (n - 1) as nat);
        lemma_stone_and_void_settled(g, w, h);
    }
}

/// A moving material on the bottom row stays where it is: its rule changes no
/// cell.
pub proof fn lemma_bottom_row_still(
    cur: Seq<Particle>,
    next: Seq<Particle>,
    w: int,
    h: int,
    x: int,
)
    requires
        0 <= x < w,
        0 < h,
        cur.len() == w * h,
        next.len() == w * h,
        is_movable(cur[idx(w, x, h - 1)]),
    ensures
        step(cur, next, w, h, x, h - 1) == next,
{
}

/// A moving material whose cell below, in the buffer being built, holds a lighter
/// material sinks: its rule swaps it with that cell.
pub proof fn lemma_sinks_below_lighter(
    cur: Seq<Particle>,
    next: Seq<Particle>,
    w: int,
    h: int,
    x: int,
    y: int,
)
    requires
        0 <= x < w,
        0 <= y < h - 1,
        cur.len() == w * h,
        next.len() == w * h,
        is_movable(cur[idx(w, x, y)]),
        density_of(cur[idx(w, x, y)]) > density_of(next[idx(w, x, y + 1)]),
    ensures
        step(cur, next, w, h, x, y) == swapped(next, idx(w, x, y), idx(w, x, y + 1)),
        step(cur, next, w, h, x, y)[idx(w, x, y + 1)] == next[idx(w, x, y)],
        step(cur, next, w, h, x, y)[idx(w, x, y)] == next[idx(w, x, y + 1)],
{
    lemma_cell_in_grid(w, h, x, y);
}

} // verus!
