//! A color gradient over a 256 by 256 frame whose three channels sweep back and
//! forth, one step per frame.
use vstd::prelude::*;

verus! {

/// Side of the square frame, in pixels.
pub const SIDE: u32 = 256;

/// Absolute difference of two numbers.
pub open spec fn abs_diff(a: int, b: int) -> int {
    if a > b {
        a - b
    } else {
        b - a
    }
}

/// The larger of two numbers.
pub open spec fn larger(a: int, b: int) -> int {
    if a >= b {
        a
    } else {
        b
    }
}

/// Position of byte `c` of the pixel at column `x`, row `y` of the square frame.
pub open spec fn square_byte(x: int, y: int, c: int) -> int {
    4 * (x + y * 256) + c
}

/// The third coordinate of the gradient at column `x`, row `y`: the larger of the
/// two distances to the far edges.
pub open spec fn corner(x: int, y: int) -> int {
    larger(255 - x, 255 - y)
}

/// A channel one frame later: it turns up at 0 and down at 255, then takes a step
/// in its direction.
pub open spec fn bounce(c: (u32, bool)) -> (u32, bool) {
    let up = if c.0 == 0 {
        true
    } else if c.0 == 255 {
        false
    } else {
        c.1
    };
    if up {
        ((c.0 + 1) as u32, up)
    } else {
        ((c.0 - 1) as u32, up)
    }
}

/// How bright a channel shows where its coordinate is `t` and its level is `level`:
/// 255 where they meet, darker with the distance (the distance kept to its low byte).
pub open spec fn glow(t: int, level: u32) -> u8 {
    (255 - (abs_diff(t, level as int) as u8)) as u8
}

/// Absolute difference of two numbers.
pub fn diff(a: u32, b: u32) -> (r: u32)
    ensures
        r == abs_diff(a as int, b as int),
{
    if a > b {
        a - b
    } else {
        b - a
    }
}

/// Fills the square frame with its starting gradient: at column `x`, row `y` the
/// red byte is `x`, the green byte `y` and the blue byte the larger of `255 - x`
/// and `255 - y`; the fourth byte of each pixel is left as it was.
pub fn init_pixels(frame: &mut [u8])
    requires
        old(frame)@.len() >= 4 * 256 * 256,
    ensures
        final(frame)@.len() == old(frame)@.len(),
        forall|x: int, y: int|
            0 <= x < 256 && 0 <= y < 256 ==> {
                &&& final(frame)@[#[trigger] square_byte(x, y, 0)] == x
                &&& final(frame)@[square_byte(x, y, 1)] == y
                &&& final(frame)@[square_byte(x, y, 2)] == corner(x, y)
                &&& final(frame)@[square_byte(x, y, 3)] == old(frame)@[square_byte(x, y, 3)]
            },
        forall|j: int|
            4 * 256 * 256 <= j < old(frame)@.len() ==> final(frame)@[j] == old(frame)@[j],
{
    let ghost start = frame@;
    let mut y: u32 = 0;
    while y < SIDE
        invariant
            frame@.len() == start.len(),
            start.len() >= 4 * 256 * 256,
            y <= 256,
            forall|xx: int, yy: int|
                0 <= xx < 256 && 0 <= yy < y ==> {
                    &&& frame@[#[trigger] square_byte(xx, yy, 0)] == xx
                    &&& frame@[square_byte(xx, yy, 1)] == yy
                    &&& frame@[square_byte(xx, yy, 2)] == corner(xx, yy)
                    &&& frame@[square_byte(xx, yy, 3)] == start[square_byte(xx, yy, 3)]
                },
            forall|j: int| 4 * (y * 256) <= j < start.len() ==> frame@[j] == start[j],
        decreases 256 - y,
    {
        let mut x: u32 = 0;
        while x < SIDE
            invariant
                frame@.len() == start.len(),
                start.len() >= 4 * 256 * 256,
                y < 256,
                x <= 256,
                forall|xx: int, yy: int|
                    0 <= xx < 256 && 0 <= yy < y ==> {
                        &&& frame@[#[trigger] square_byte(xx, yy, 0)] == xx
                        &&& frame@[square_byte(xx, yy, 1)] == yy
                        &&& frame@[square_byte(xx, yy, 2)] == corner(xx, yy)
                        &&& frame@[square_byte(xx, yy, 3)] == start[square_byte(xx, yy, 3)]
                    },
                forall|xx: int|
                    0 <= xx < x ==> {
                        &&& frame@[#[trigger] square_byte(xx, y as int, 0)] == xx
                        &&& frame@[square_byte(xx, y as int, 1)] == y
                        &&& frame@[square_byte(xx, y as int, 2)] == corner(xx, y as int)
                        &&& frame@[square_byte(xx, y as int, 3)] == start[square_byte(
                            xx,
                            y as int,
                            3,
                        )]
                    },
                forall|j: int| 4 * (x + y * 256) <= j < start.len() ==> frame@[j] == start[j],
            decreases 256 - x,
        {
            let index = (4 * (x + y * SIDE)) as usize;
            let blue = if 255 - x >= 255 - y {
                255 - x
            } else {
                255 - y
            };
            let ghost before = frame@;
            frame[index] = x as u8;
            frame[index + 1] = y as u8;
            frame[index + 2] = blue as u8;
            assert(index == square_byte(x as int, y as int, 0));
            assert(forall|j: int|
                0 <= j < frame@.len() && (j < index || j > index + 2) ==> frame@[j] == before[j]);
            assert(blue == corner(x as int, y as int));
            assert(frame@[square_byte(x as int, y as int, 0)] == x);
            assert(frame@[square_byte(x as int, y as int, 1)] == y);
            assert(frame@[square_byte(x as int, y as int, 2)] == corner(x as int, y as int));
            assert(frame@[square_byte(x as int, y as int, 3)] == start[square_byte(
                x as int,
                y as int,
                3,
            )]);
            x = x + 1;
        }
        y = y + 1;
    }
}

/// Draws one frame of the sweeping gradient and moves each channel one step.
///
/// At column `x`, row `y`, red shows how near `x` is to the first channel's level,
/// green how near `y` is to the second's, and blue how near the larger of
/// `255 - x` and `255 - y` is to the third's.
pub fn draw(frame: &mut [u8], v: &mut [(u32, bool)])
    requires
        old(frame)@.len() >= 4 * 256 * 256,
        old(v)@.len() >= 3,
        forall|i: int| 0 <= i < old(v)@.len() ==> old(v)@[i].0 < u32::MAX || !old(v)@[i].1,
    ensures
        final(frame)@.len() == old(frame)@.len(),
        forall|x: int, y: int|
            0 <= x < 256 && 0 <= y < 256 ==> {
                &&& final(frame)@[#[trigger] square_byte(x, y, 0)] == glow(x, old(v)@[0].0)
                &&& final(frame)@[square_byte(x, y, 1)] == glow(y, old(v)@[1].0)
                &&& final(frame)@[square_byte(x, y, 2)] == glow(corner(x, y), old(v)@[2].0)
                &&& final(frame)@[square_byte(x, y, 3)] == old(frame)@[square_byte(x, y, 3)]
            },
        forall|j: int|
            4 * 256 * 256 <= j < old(frame)@.len() ==> final(frame)@[j] == old(frame)@[j],
        final(v)@.len() == old(v)@.len(),
        forall|i: int| 0 <= i < old(v)@.len() ==> final(v)@[i] == bounce(old(v)@[i]),
{
    let ghost start = frame@;
    let l0 = v[0].0;
    let l1 = v[1].0;
    let l2 = v[2].0;
    let mut y: u32 = 0;
    while y < SIDE
        invariant
            frame@.len() == start.len(),
            start.len() >= 4 * 256 * 256,
            y <= 256,
            v@ == old(v)@,
            l0 == v@[0].0,
            l1 == v@[1].0,
            l2 == v@[2].0,
            forall|xx: int, yy: int|
                0 <= xx < 256 && 0 <= yy < y ==> {
                    &&& frame@[#[trigger] square_byte(xx, yy, 0)] == glow(xx, l0)
                    &&& frame@[square_byte(xx, yy, 1)] == glow(yy, l1)
                    &&& frame@[square_byte(xx, yy, 2)] == glow(corner(xx, yy), l2)
                    &&& frame@[square_byte(xx, yy, 3)] == start[square_byte(xx, yy, 3)]
                },
            forall|j: int| 4 * (y * 256) <= j < start.len() ==> frame@[j] == start[j],
        decreases 256 - y,
    {
        let mut x: u32 = 0;
        while x < SIDE
            invariant
                frame@.len() == start.len(),
                start.len() >= 4 * 256 * 256,
                y < 256,
                x <= 256,
                forall|xx: int, yy: int|
                    0 <= xx < 256 && 0 <= yy < y ==> {
                        &&& frame@[#[trigger] square_byte(xx, yy, 0)] == glow(xx, l0)
                        &&& frame@[square_byte(xx, yy, 1)] == glow(yy, l1)
                        &&& frame@[square_byte(xx, yy, 2)] == glow(corner(xx, yy), l2)
                        &&& frame@[square_byte(xx, yy, 3)] == start[square_byte(xx, yy, 3)]
                    },
                forall|xx: int|
                    0 <= xx < x ==> {
                        &&& frame@[#[trigger] square_byte(xx, y as int, 0)] == glow(xx, l0)
                        &&& frame@[square_byte(xx, y as int, 1)] == glow(y as int, l1)
                        &&& frame@[square_byte(xx, y as int, 2)] == glow(
                            corner(xx, y as int),
                            l2,
                        )
                        &&& frame@[square_byte(xx, y as int, 3)] == start[square_byte(
                            xx,
                            y as int,
                            3,
                        )]
                    },
                forall|j: int| 4 * (x + y * 256) <= j < start.len() ==> frame@[j] == start[j],
            decreases 256 - x,
        {
            let i = (4 * (x + y * SIDE)) as usize;
            let far = if 255 - x >= 255 - y {
                255 - x
            } else {
                255 - y
            };
            let ghost before = frame@;
            frame[i] = 255 - diff(x, l0) as u8;
            frame[i + 1] = 255 - diff(y, l1) as u8;
            frame[i + 2] = 255 - diff(far, l2) as u8;
            assert(i == square_byte(x as int, y as int, 0));
            assert(forall|j: int|
                0 <= j < frame@.len() && (j < i || j > i + 2) ==> frame@[j] == before[j]);
            assert(far == corner(x as int, y as int));
            assert(frame@[square_byte(x as int, y as int, 0)] == glow(x as int, l0));
            assert(frame@[square_byte(x as int, y as int, 1)] == glow(y as int, l1));
            assert(frame@[square_byte(x as int, y as int, 2)] == glow(
                corner(x as int, y as int),
                l2,
            ));
            assert(frame@[square_byte(x as int, y as int, 3)] == start[square_byte(
                x as int,
                y as int,
                3,
            )]);
            assert forall|xx: int| 0 <= xx < x + 1 implies {
                &&& frame@[#[trigger] square_byte(xx, y as int, 0)] == glow(xx, l0)
                &&& frame@[square_byte(xx, y as int, 1)] == glow(y as int, l1)
                &&& frame@[square_byte(xx, y as int, 2)] == glow(corner(xx, y as int), l2)
                &&& frame@[square_byte(xx, y as int, 3)] == start[square_byte(xx, y as int, 3)]
            } by {
                if xx < x {
                    assert(square_byte(xx, y as int, 3) < i);
                    assert(before[square_byte(xx, y as int, 0)] == glow(xx, l0));
                }
            }
            x = x + 1;
        }
        y = y + 1;
    }
    let ghost levels = v@;
    let n = v.len();
    let mut k: usize = 0;
    while k < n
        invariant
            n == levels.len(),
            v@.len() == n,
            k <= n,
            forall|i: int| 0 <= i < n ==> levels[i].0 < u32::MAX || !levels[i].1,
            forall|i: int| 0 <= i < k ==> v@[i] == bounce(levels[i]),
            forall|i: int| k <= i < n ==> v@[i] == levels[i],
        decreases n - k,
    {
        let mut chan = v[k];
        assert(chan == levels[k as int]);
        if chan.0 == 0 {
            chan.1 = true
        } else if chan.0 == 255 {
            chan.1 = false
        }
        if chan.1 {
            chan.0 += 1
        } else {
            chan.0 -= 1
        }
        v[k] = chan;
        k = k + 1;
    }
}

} // verus!
