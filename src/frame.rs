//! RGBA frame buffers and the placeholder frames used when no decoded frame
//! is available.
use vstd::prelude::*;

verus! {

/// Number of bytes of one RGBA frame of the given size: four per pixel.
pub open spec fn frame_len(width: u32, height: u32) -> int {
    4 * width * height
}

/// Whether one RGBA frame of the given size fits in addressable memory.
pub open spec fn frame_fits(width: u32, height: u32) -> bool {
    frame_len(width, height) <= usize::MAX
}

/// Channel `c` (red, green, blue, alpha) of the stall placeholder pixel:
/// opaque red, so that a stall is visible on screen.
pub open spec fn stall_channel(c: int) -> u8 {
    if c == 0 || c == 3 {
        255
    } else {
        0
    }
}

/// Channel `c` of the placeholder pixel for a missing single frame: opaque black.
pub open spec fn black_channel(c: int) -> u8 {
    if c == 3 {
        255
    } else {
        0
    }
}

/// The stall placeholder: every pixel opaque red.
pub open spec fn stall_frame(width: u32, height: u32) -> Seq<u8> {
    Seq::new(frame_len(width, height) as nat, |k: int| stall_channel(k % 4))
}

/// The black placeholder: every pixel opaque black.
pub open spec fn black_frame(width: u32, height: u32) -> Seq<u8> {
    Seq::new(frame_len(width, height) as nat, |k: int| black_channel(k % 4))
}

proof fn lemma_channel_of_offset(p: int, c: int)
    requires
        0 <= p,
        0 <= c < 4,
    ensures
        (4 * p + c) % 4 == c,
{
    assert((4 * p + c) % 4 == c) by (nonlinear_arith)
        requires
            0 <= p,
            0 <= c < 4,
    ;
}

proof fn lemma_pixel_count(width: u32, height: u32)
    requires
        frame_fits(width, height),
    ensures
        width * height <= usize::MAX,
        4 * (width * height) == frame_len(width, height),
{
    assert(width * height <= 4 * width * height) by (nonlinear_arith);
    assert(4 * (width * height) == 4 * width * height) by (nonlinear_arith);
}

/// Fills a frame of the given size with copies of one RGBA pixel.
fn solid_frame(width: u32, height: u32, r: u8, g: u8, b: u8, a: u8) -> (buf: Vec<u8>)
    requires
        frame_fits(width, height),
    ensures
        buf@.len() == frame_len(width, height),
        forall|k: int|
            0 <= k < buf@.len() ==> #[trigger] buf@[k] == (if k % 4 == 0 {
                r
            } else if k % 4 == 1 {
                g
            } else if k % 4 == 2 {
                b
            } else {
                a
            }),
{
    proof {
        lemma_pixel_count(width, height);
    }
    let pixels: usize = width as usize * height as usize;
    let mut buf: Vec<u8> = Vec::with_capacity(pixels * 4);
    let mut p: usize = 0;
    while p < pixels
        invariant
            p <= pixels,
            pixels == width * height,
            4 * pixels == frame_len(width, height),
            buf@.len() == 4 * p,
            forall|k: int|
                0 <= k < buf@.len() ==> #[trigger] buf@[k] == (if k % 4 == 0 {
                    r
                } else if k % 4 == 1 {
                    g
                } else if k % 4 == 2 {
                    b
                } else {
                    a
                }),
        decreases pixels - p,
    {
        proof {
            lemma_channel_of_offset(p as int, 0);
            lemma_channel_of_offset(p as int, 1);
            lemma_channel_of_offset(p as int, 2);
            lemma_channel_of_offset(p as int, 3);
        }
        buf.push(r);
        buf.push(g);
        buf.push(b);
        buf.push(a);
        p += 1;
    }
    buf
}

/// The placeholder returned when a frame stalls: `width * height` opaque red
/// pixels, the same bytes on every call.
pub fn generate_empty_frame(width: u32, height: u32) -> (buf: Vec<u8>)
    requires
        frame_fits(width, height),
    ensures
        buf@ == stall_frame(width, height),
{
    let buf = solid_frame(width, height, 255, 0, 0, 255);
    assert(buf@ =~= stall_frame(width, height));
    buf
}

/// The placeholder for a single frame that the decoder did not produce:
/// `width * height` opaque black pixels.
pub fn generate_black_frame(width: u32, height: u32) -> (buf: Vec<u8>)
    requires
        frame_fits(width, height),
    ensures
        buf@ == black_frame(width, height),
{
    let buf = solid_frame(width, height, 0, 0, 0, 255);
    assert(buf@ =~= black_frame(width, height));
    buf
}

} // verus!
