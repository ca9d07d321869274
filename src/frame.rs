//! Preparing a frame of pixels before anything is drawn in it.
use vstd::prelude::*;

verus! {

/// Blackens the first `width * height` pixels of `frame`, four bytes to a pixel:
/// their red, green and blue bytes become 0; the fourth byte of each pixel, and
/// everything after those pixels, is left as it was.
pub fn init_pixels(frame: &mut [u8], width: usize, height: usize)
    requires
        4 * (width * height) <= old(frame)@.len(),
    ensures
        final(frame)@.len() == old(frame)@.len(),
        forall|p: int, c: int|
            0 <= p < width * height && 0 <= c < 4 ==> final(frame)@[#[trigger] (4 * p + c)] == if c
                < 3 {
                0u8
            } else {
                old(frame)@[4 * p + c]
            },
        forall|j: int|
            4 * (width * height) <= j < old(frame)@.len() ==> final(frame)@[j] == old(frame)@[j],
{
    let ghost start = frame@;
    proof {
        broadcast use vstd::slice::axiom_spec_len;

        assert(vstd::slice::spec_slice_len(frame) == frame@.len());
    }
    let mut y: usize = 0;
    while y < height
        invariant
            frame@.len() == start.len(),
            4 * (width * height) <= start.len() <= usize::MAX,
            y <= height,
            forall|p: int, c: int|
                0 <= p < y * width && 0 <= c < 4 ==> frame@[#[trigger] (4 * p + c)] == if c < 3 {
                    0u8
                } else {
                    start[4 * p + c]
                },
            forall|j: int| 4 * (y * width) <= j < start.len() ==> frame@[j] == start[j],
        decreases height - y,
    {
        proof {
            assert((y + 1) * width <= width * height) by (nonlinear_arith)
                requires
                    y < height,
            ;
            assert((y + 1) * width == y * width + width) by (nonlinear_arith);
        }
        let mut x: usize = 0;
        while x < width
            invariant
                frame@.len() == start.len(),
                4 * (y * width + width) <= start.len() <= usize::MAX,
                y < height,
                x <= width,
                forall|p: int, c: int|
                    0 <= p < y * width + x && 0 <= c < 4 ==> frame@[#[trigger] (4 * p + c)] == if c
                        < 3 {
                        0u8
                    } else {
                        start[4 * p + c]
                    },
                forall|j: int| 4 * (y * width + x) <= j < start.len() ==> frame@[j] == start[j],
            decreases width - x,
        {
            let index = 4 * (x + y * width);
            frame[index] = 0;
            frame[index + 1] = 0;
            frame[index + 2] = 0;
            proof {
                let p = y * width + x;
                assert(frame@[4 * p + 3] == start[4 * p + 3]);
            }
            x = x + 1;
        }
        y = y + 1;
    }
}

} // verus!
