//! The world: a grid of materials held in two buffers, and the tick that moves them.
use vstd::prelude::*;

use crate::particle::{color_of, particle_of_rank, Particle};
use crate::rules::{
    flow_scan, flow_target, granular_step, idx, lemma_cell_in_grid, liquid_step, swapped, sweep,
    tick_of,
};

verus! {

/// A grid of `width * height` cells in two buffers of that size. `state` is the
/// grid as it stands; `next_state` is where a tick builds the following grid.
pub struct World {
    width: usize,
    height: usize,
    state: Box<[Particle]>,
    next_state: Box<[Particle]>,
}

/// Position of byte `c` of the pixel at column `x`, row `y` of a frame `fw` pixels
/// wide, four bytes to a pixel (red, green, blue, and one left alone).
pub open spec fn pixel_byte(fw: int, x: int, y: int, c: int) -> int {
    4 * (y * fw + x) + c
}

/// Channel `c` (0 red, 1 green, 2 blue) of a color.
pub open spec fn channel(rgb: (u8, u8, u8), c: int) -> u8 {
    if c == 0 {
        rgb.0
    } else if c == 1 {
        rgb.1
    } else {
        rgb.2
    }
}

/// The byte that drawing a grid of `w` columns leaves at channel `c` of the pixel
/// at column `x`, row `y`, where the byte was `prev` before. The frame is `w + 3`
/// pixels wide: the grid's colors fill the first `w` columns; the last column shows,
/// on row `y`, the color of the material of rank `y`; the column before it marks in
/// red (255, else 0) the row of the selected material. Nothing else is written.
pub open spec fn painted(
    cells: Seq<Particle>,
    w: int,
    selected: Particle,
    x: int,
    y: int,
    c: int,
    prev: u8,
) -> u8 {
    if x < w && c < 3 {
        channel(color_of(cells[idx(w, x, y)]), c)
    } else if x == w + 2 && c < 3 {
        channel(color_of(particle_of_rank(y)), c)
    } else if x == w + 1 && c == 0 {
        if particle_of_rank(y) == selected {
            255
        } else {
            0
        }
    } else {
        prev
    }
}

impl World {
    /// Number of columns.
    pub closed spec fn spec_width(&self) -> nat {
        self.width as nat
    }

    /// Number of rows.
    pub closed spec fn spec_height(&self) -> nat {
        self.height as nat
    }

    /// The grid as it stands, row after row from the top.
    pub closed spec fn cells(&self) -> Seq<Particle> {
        self.state@
    }

    /// The second buffer is as large as the grid, and the grid's size fits in
    /// `usize`.
    pub closed spec fn inv(&self) -> bool {
        &&& self.state@.len() == self.width * self.height
        &&& self.next_state@.len() == self.width * self.height
        &&& self.width * self.height <= usize::MAX
    }

    /// The grid holds one cell per column and row, and so does the second buffer.
    pub open spec fn wf(&self) -> bool {
        &&& self.cells().len() == self.spec_width() * self.spec_height()
        &&& self.inv()
    }

    /// A world of `width` columns and `height` rows whose grid is `grid_a`;
    /// `grid_b` is its second buffer.
    pub fn new(width: usize, height: usize, grid_a: Box<[Particle]>, grid_b: Box<[Particle]>) -> (r:
        World)
        requires
            grid_a@.len() == width * height,
            grid_b@.len() == width * height,
        ensures
            r.wf(),
            r.spec_width() == width,
            r.spec_height() == height,
            r.cells() == grid_a@,
    {
        proof {
            broadcast use vstd::slice::axiom_spec_len;

            assert(vstd::slice::spec_slice_len(&*grid_a) == grid_a@.len());
        }
        World { width, height, state: grid_a, next_state: grid_b }
    }

    /// The material in the cell at column `x`, row `y`.
    pub fn get(&self, x: usize, y: usize) -> (r: Particle)
        requires
            self.wf(),
            x < self.spec_width(),
            y < self.spec_height(),
        ensures
            r == self.cells()[idx(self.spec_width() as int, x as int, y as int)],
    {
        proof {
            lemma_cell_in_grid(self.width as int, self.height as int, x as int, y as int);
        }
        self.state[x + y * self.width]
    }

    /// Number of columns.
    pub fn width(&self) -> (r: usize)
        ensures
            r == self.spec_width(),
    {
        self.width
    }

    /// Number of rows.
    pub fn height(&self) -> (r: usize)
        ensures
            r == self.spec_height(),
    {
        self.height
    }

    /// Puts material `t` in the cell at column `x`, row `y`, whatever was there. The
    /// grid as it stands is written, so the next tick moves the new material.
    pub fn spawn(&mut self, x: usize, y: usize, t: Particle)
        requires
            old(self).wf(),
            x < old(self).spec_width(),
            y < old(self).spec_height(),
        ensures
            final(self).wf(),
            final(self).spec_width() == old(self).spec_width(),
            final(self).spec_height() == old(self).spec_height(),
            final(self).cells() == old(self).cells().update(
                idx(old(self).spec_width() as int, x as int, y as int),
                t,
            ),
    {
        proof {
            lemma_cell_in_grid(self.width as int, self.height as int, x as int, y as int);
        }
        let i = x + y * self.width;
        self.state[i] = t;
    }

    /// Draws the grid into `frame`, a picture `width + 3` pixels wide and `height`
    /// rows high, with a side panel that lists the materials and marks the
    /// selected one.
    pub fn draw(&self, frame: &mut [u8], selected_particle: Particle)
        requires
            self.wf(),
            old(frame)@.len() >= 4 * ((self.spec_width() + 3) * self.spec_height()),
        ensures
            final(frame)@.len() == old(frame)@.len(),
            forall|x: int, y: int, c: int|
                0 <= x < self.spec_width() + 3 && 0 <= y < self.spec_height() && 0 <= c < 4
                    ==> final(frame)@[#[trigger] pixel_byte(self.spec_width() + 3int, x, y, c)]
                    == painted(
                    self.cells(),
                    self.spec_width() as int,
                    selected_particle,
                    x,
                    y,
                    c,
                    old(frame)@[pixel_byte(self.spec_width() + 3int, x, y, c)],
                ),
            forall|j: int|
                4 * ((self.spec_width() + 3) * self.spec_height()) <= j < old(frame)@.len()
                    ==> final(frame)@[j] == old(frame)@[j],
    {
        let ghost fw = self.width as int + 3;
        let ghost h = self.height as int;
        let ghost start = frame@;
        let mut y: usize = 0;
        while y < self.height
            invariant
                self.wf(),
                fw == self.width + 3,
                h == self.height,
                y <= h,
                frame@.len() == start.len(),
                start.len() >= 4 * (fw * h),
                forall|x: int, yy: int, c: int|
                    0 <= x < fw && 0 <= yy < y && 0 <= c < 4 ==> frame@[#[trigger] pixel_byte(
                        fw,
                        x,
                        yy,
                        c,
                    )] == painted(
                        self.cells(),
                        self.width as int,
                        selected_particle,
                        x,
                        yy,
                        c,
                        start[pixel_byte(fw, x, yy, c)],
                    ),
                forall|j: int| 4 * (y * fw) <= j < start.len() ==> frame@[j] == start[j],
            decreases h - y,
        {
            let ghost before = frame@;
            self.draw_row(frame, y, selected_particle);
            proof {
                assert forall|x: int, yy: int, c: int|
                    0 <= x < fw && 0 <= yy < y && 0 <= c < 4 implies frame@[#[trigger] pixel_byte(
                        fw,
                        x,
                        yy,
                        c,
                    )] == before[pixel_byte(fw, x, yy, c)] by {
                    assert(0 <= 4 * (yy * fw + x) + c < 4 * (y * fw) <= 4 * (fw * h))
                        by (nonlinear_arith)
                        requires
                            y < h,
                            0 <= yy,
                            yy + 1 <= y,
                            0 <= x < fw,
                            0 <= c < 4,
                    ;
                }
                assert forall|x: int, c: int| 0 <= x < fw && 0 <= c < 4 implies before[
                    #[trigger] pixel_byte(fw, x, y as int, c)] == start[pixel_byte(
                    fw,
                    x,
                    y as int,
                    c,
                )] by {
                    assert(4 * (y * fw + x) + c < 4 * (fw * h)) by (nonlinear_arith)
                        requires
                            y < h,
                            0 <= x < fw,
                            0 <= c < 4,
                    ;
                }
                assert(4 * (y * fw) + 4 * fw == 4 * ((y + 1) * fw)) by (nonlinear_arith);
            }
            y = y + 1;
        }
        assert(h * fw == fw * h) by (nonlinear_arith);
    }

    /// Draws row `y` of the grid and of the side panel.
    fn draw_row(&self, frame: &mut [u8], y: usize, selected_particle: Particle)
        requires
            self.wf(),
            y < self.height,
            old(frame)@.len() >= 4 * ((self.width + 3) * self.height),
        ensures
            final(frame)@.len() == old(frame)@.len(),
            forall|x: int, c: int|
                0 <= x < self.width + 3 && 0 <= c < 4 ==> final(frame)@[#[trigger] pixel_byte(
                    self.width + 3,
                    x,
                    y as int,
                    c,
                )] == painted(
                    self.cells(),
                    self.width as int,
                    selected_particle,
                    x,
                    y as int,
                    c,
                    old(frame)@[pixel_byte(self.width + 3, x, y as int, c)],
                ),
            forall|j: int|
                0 <= j < old(frame)@.len() && (j < 4 * (y * (self.width + 3)) || j >= 4 * ((y
                    + 1) * (self.width + 3))) ==> final(frame)@[j] == old(frame)@[j],
    {
        let ghost fw = self.width as int + 3;
        let ghost w = self.width as int;
        let ghost start = frame@;
        proof {
            broadcast use vstd::slice::axiom_spec_len;

            assert(vstd::slice::spec_slice_len(frame) == frame@.len());
            assert(4 * ((y + 1) * fw) <= 4 * (fw * self.height)) by (nonlinear_arith)
                requires
                    y + 1 <= self.height,
                    0 <= fw,
            ;
            assert((y + 1) * fw == y * fw + fw) by (nonlinear_arith);
        }
        let w3 = self.width + 3;
        let mut x: usize = 0;
        while x < self.width
            invariant
                self.wf(),
                w == self.width,
                fw == w + 3,
                w3 == fw,
                y < self.height,
                x <= w,
                frame@.len() == start.len(),
                4 * (y * fw + fw) <= start.len() <= usize::MAX,
                forall|xx: int, c: int|
                    0 <= xx < x && 0 <= c < 3 ==> frame@[#[trigger] pixel_byte(fw, xx, y as int, c)]
                        == channel(color_of(self.state@[idx(w, xx, y as int)]), c),
                forall|xx: int|
                    0 <= xx < x ==> frame@[#[trigger] pixel_byte(fw, xx, y as int, 3)]
                        == start[pixel_byte(fw, xx, y as int, 3)],
                forall|j: int|
                    0 <= j < start.len() && (j < 4 * (y * fw) || j >= 4 * (y * fw + x))
                        ==> frame@[j] == start[j],
            decreases w - x,
        {
            proof {
                lemma_cell_in_grid(w, self.height as int, x as int, y as int);
            }
            let c = self.state[x + y * self.width].color();
            let p = 4 * (x + y * w3);
            frame[p] = c.0;
            frame[p + 1] = c.1;
            frame[p + 2] = c.2;
            x = x + 1;
        }
        let p = Particle::from_rank(y);
        let c = p.color();
        let row_end = 4 * ((y + 1) * w3);
        frame[row_end - 4] = c.0;
        frame[row_end - 3] = c.1;
        frame[row_end - 2] = c.2;
        // the selected material's row is marked in red
        frame[row_end - 8] = if p == selected_particle {
            255
        } else {
            0
        };
        proof {
            assert(row_end - 4 == pixel_byte(fw, w + 2, y as int, 0));
            assert(row_end - 8 == pixel_byte(fw, w + 1, y as int, 0));
        }
    }

    /// Advances the world by one tick. The second buffer starts as a copy of the
    /// grid (so what `spawn` wrote since the last tick moves in this one); each
    /// cell's rule, chosen by its material in the grid, then runs once, from the
    /// bottom row up and from right to left in each row, writing the second
    /// buffer; last, the second buffer is copied into the grid.
    pub fn update(&mut self)
        requires
            old(self).wf(),
        ensures
            final(self).wf(),
            final(self).spec_width() == old(self).spec_width(),
            final(self).spec_height() == old(self).spec_height(),
            final(self).cells() == tick_of(
                old(self).cells(),
                old(self).spec_width() as int,
                old(self).spec_height() as int,
            ),
    {
        self.prepare_next();
        let ghost cur = self.state@;
        let ghost w = self.width as int;
        let ghost h = self.height as int;
        let mut y = self.height;
        assert(h * w == w * h) by (nonlinear_arith);
        while y > 0
            invariant
                self.wf(),
                self.width == w,
                self.height == h,
                self.state@ == cur,
                y <= h,
                self.next_state@ == sweep(cur, cur, w, h, y * w),
            decreases y,
        {
            y = y - 1;
            assert((y + 1) * w == y * w + w) by (nonlinear_arith);
            let mut x = self.width;
            while x > 0
                invariant
                    self.wf(),
                    self.width == w,
                    self.height == h,
                    self.state@ == cur,
                    y < h,
                    x <= w,
                    self.next_state@ == sweep(cur, cur, w, h, y * w + x),
                decreases x,
            {
                x = x - 1;
                proof {
                    lemma_cell_in_grid(w, h, x as int, y as int);
                    assert(w * h - (y * w + x) > 0);
                }
                let i = x + y * self.width;
                match self.state[i] {
                    Particle::Sand => self.update_sand(x, y),
                    Particle::Stone => self.update_stone(x, y),
                    Particle::Water => self.update_water(x, y),
                    Particle::Oil => self.update_oil(x, y),
                    Particle::Void => {},
                }
            }
        }
        self.update_buffers();
    }

    /// Copies the grid into the second buffer, where the tick then works.
    fn prepare_next(&mut self)
        requires
            old(self).wf(),
        ensures
            final(self).wf(),
            final(self).width == old(self).width,
            final(self).height == old(self).height,
            final(self).state@ == old(self).state@,
            final(self).next_state@ == old(self).state@,
    {
        let n = self.state.len();
        let mut k: usize = 0;
        while k < n
            invariant
                self.wf(),
                self.width == old(self).width,
                self.height == old(self).height,
                self.state@ == old(self).state@,
                n == self.state@.len(),
                k <= n,
                forall|j: int| 0 <= j < k ==> self.next_state@[j] == self.state@[j],
            decreases n - k,
        {
            let p = self.state[k];
            self.next_state[k] = p;
            k = k + 1;
        }
        assert(self.next_state@ =~= self.state@);
    }

    /// Makes the tick's result the grid: copies every cell of the second buffer
    /// into the first.
    fn update_buffers(&mut self)
        requires
            old(self).wf(),
        ensures
            final(self).wf(),
            final(self).width == old(self).width,
            final(self).height == old(self).height,
            final(self).state@ == old(self).next_state@,
            final(self).next_state@ == old(self).next_state@,
    {
        let n = self.next_state.len();
        let mut k: usize = 0;
        while k < n
            invariant
                self.wf(),
                self.width == old(self).width,
                self.height == old(self).height,
                self.next_state@ == old(self).next_state@,
                n == self.next_state@.len(),
                k <= n,
                forall|j: int| 0 <= j < k ==> self.state@[j] == self.next_state@[j],
            decreases n - k,
        {
            let p = self.next_state[k];
            self.state[k] = p;
            k = k + 1;
        }
        assert(self.state@ =~= self.next_state@);
    }

    /// Exchanges, in the second buffer, the cells at `a` and `b`, each a column and a
    /// row.
    fn swap(&mut self, a: (usize, usize), b: (usize, usize))
        requires
            old(self).wf(),
            a.0 < old(self).width,
            a.1 < old(self).height,
            b.0 < old(self).width,
            b.1 < old(self).height,
        ensures
            final(self).wf(),
            final(self).width == old(self).width,
            final(self).height == old(self).height,
            final(self).state@ == old(self).state@,
            final(self).next_state@ == swapped(
                old(self).next_state@,
                idx(old(self).width as int, a.0 as int, a.1 as int),
                idx(old(self).width as int, b.0 as int, b.1 as int),
            ),
    {
        let (x1, y1) = a;
        let (x2, y2) = b;
        proof {
            lemma_cell_in_grid(self.width as int, self.height as int, x1 as int, y1 as int);
            lemma_cell_in_grid(self.width as int, self.height as int, x2 as int, y2 as int);
        }
        let i1 = x1 + y1 * self.width;
        let i2 = x2 + y2 * self.width;
        let p1 = self.next_state[i1];
        let p2 = self.next_state[i2];
        self.next_state[i1] = p2;
        self.next_state[i2] = p1;
    }

    /// Rule of sand at column `x`, row `y`.
    fn update_sand(&mut self, x: usize, y: usize)
        requires
            old(self).wf(),
            x < old(self).width,
            y < old(self).height,
            old(self).state@[idx(old(self).width as int, x as int, y as int)] == Particle::Sand,
        ensures
            final(self).wf(),
            final(self).width == old(self).width,
            final(self).height == old(self).height,
            final(self).state@ == old(self).state@,
            final(self).next_state@ == granular_step(
                old(self).state@,
                old(self).next_state@,
                old(self).width as int,
                old(self).height as int,
                x as int,
                y as int,
            ),
    {
        let ghost w = self.width as int;
        let ghost h = self.height as int;
        if y == self.height - 1 {
            return ;
        }
        proof {
            lemma_cell_in_grid(w, h, x as int, y as int);
        }
        let i = x + y * self.width;
        let d = self.state[i].density();
        let below = i + self.width;
        if d > self.next_state[below].density() {
            self.swap((x, y), (x, y + 1));
        } else {
            proof {
                if x > 0 {
                    lemma_cell_in_grid(w, h, x - 1, y as int);
                }
                if x + 1 < w {
                    lemma_cell_in_grid(w, h, x + 1, y as int);
                }
            }
            if x != 0 && d > self.next_state[i - 1].density() && d > self.next_state[below
                - 1].density() {
                self.swap((x, y), (x - 1, y + 1))
            } else if x != self.width - 1 && d > self.next_state[i + 1].density() && d
                > self.next_state[below + 1].density() {
                self.swap((x, y), (x + 1, y + 1))
            } else {
                self.next_state[i] = Particle::Sand;
            }
        }
    }

    /// Rule of stone at column `x`, row `y`: it stays.
    fn update_stone(&mut self, x: usize, y: usize)
        requires
            old(self).wf(),
            x < old(self).width,
            y < old(self).height,
        ensures
            final(self).wf(),
            final(self).width == old(self).width,
            final(self).height == old(self).height,
            final(self).state@ == old(self).state@,
            final(self).next_state@ == old(self).next_state@.update(
                idx(old(self).width as int, x as int, y as int),
                Particle::Stone,
            ),
    {
        proof {
            lemma_cell_in_grid(self.width as int, self.height as int, x as int, y as int);
        }
        let i = x + y * self.width;
        self.next_state[i] = Particle::Stone;
    }

    /// Rule of water at column `x`, row `y`.
    fn update_water(&mut self, x: usize, y: usize)
        requires
            old(self).wf(),
            x < old(self).width,
            y < old(self).height,
        ensures
            final(self).wf(),
            final(self).width == old(self).width,
            final(self).height == old(self).height,
            final(self).state@ == old(self).state@,
            final(self).next_state@ == liquid_step(
                old(self).state@,
                old(self).next_state@,
                old(self).width as int,
                old(self).height as int,
                x as int,
                y as int,
            ),
    {
        self.liquid_behaviour(x, y);
    }

    /// Rule of oil at column `x`, row `y`.
    fn update_oil(&mut self, x: usize, y: usize)
        requires
            old(self).wf(),
            x < old(self).width,
            y < old(self).height,
        ensures
            final(self).wf(),
            final(self).width == old(self).width,
            final(self).height == old(self).height,
            final(self).state@ == old(self).state@,
            final(self).next_state@ == liquid_step(
                old(self).state@,
                old(self).next_state@,
                old(self).width as int,
                old(self).height as int,
                x as int,
                y as int,
            ),
    {
        self.liquid_behaviour(x, y);
    }

    /// Rule of a liquid at column `x`, row `y`: it falls straight down where the
    /// cell below is lighter; else it looks sideways, both ways at once, for the
    /// nearest column it can reach on its row whose cell below is lighter, and
    /// swaps with the cell of that column on its row.
    fn liquid_behaviour(&mut self, x: usize, y: usize)
        requires
            old(self).wf(),
            x < old(self).width,
            y < old(self).height,
        ensures
            final(self).wf(),
            final(self).width == old(self).width,
            final(self).height == old(self).height,
            final(self).state@ == old(self).state@,
            final(self).next_state@ == liquid_step(
                old(self).state@,
                old(self).next_state@,
                old(self).width as int,
                old(self).height as int,
                x as int,
                y as int,
            ),
    {
        let ghost w = self.width as int;
        let ghost h = self.height as int;
        if y == self.height - 1 {
            return ;
        }
        proof {
            lemma_cell_in_grid(w, h, x as int, y as int);
        }
        let i = x + y * self.width;
        let d = self.state[i].density();
        let below = i + self.width;
        if d > self.next_state[below].density() {
            self.swap((x, y), (x, y + 1));
        } else {
            let ghost next = self.next_state@;
            let mut found = false;
            let mut target: usize = x;
            let mut loop_left = x != 0;
            let mut loop_right = x != self.width - 1;
            let mut k: usize = 1;
            while !found && k < self.width && (loop_left || loop_right)
                invariant
                    self.wf(),
                    self.width == w,
                    self.height == h,
                    self.next_state@ == next,
                    x < w,
                    y + 1 < h,
                    i == idx(w, x as int, y as int),
                    below == idx(w, x as int, y + 1),
                    1 <= k <= w,
                    loop_left ==> k <= x,
                    loop_right ==> x + k < w,
                    found ==> target < w && flow_target(next, w, x as int, y as int, d as int)
                        == Some(target as int),
                    !found ==> flow_target(next, w, x as int, y as int, d as int) == flow_scan(
                        next,
                        w,
                        x as int,
                        y as int,
                        d as int,
                        k as int,
                        loop_left,
                        loop_right,
                    ),
                decreases w - k + if found {
                    0int
                } else {
                    1int
                },
            {
                let mut left_blocked = false;
                let mut right_blocked = false;
                if loop_left {
                    proof {
                        lemma_cell_in_grid(w, h, x - k, y as int);
                    }
                    if d <= self.next_state[i - k].density() {
                        left_blocked = true;
                    } else if d > self.next_state[below - k].density() {
                        found = true;
                        target = x - k;
                    }
                }
                if !found && loop_right {
                    proof {
                        lemma_cell_in_grid(w, h, x + k, y as int);
                    }
                    if d <= self.next_state[i + k].density() {
                        right_blocked = true;
                    } else if d > self.next_state[below + k].density() {
                        found = true;
                        target = x + k;
                    }
                }
                if !found {
                    loop_left = loop_left && !left_blocked && x - k != 0;
                    loop_right = loop_right && !right_blocked && x + k != self.width - 1;
                    k = k + 1;
                }
            }
            if found {
                self.swap((x, y), (target, y));
            }
        }
    }
}

} // verus!
