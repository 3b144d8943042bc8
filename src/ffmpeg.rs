//! What the frame decoder makes of the raw RGBA stream of an ffmpeg run: the
//! output geometry check, the cutting of the stream into frames, and the
//! windows and single frames handed to the cache. Running ffmpeg itself,
//! with hardware acceleration first and in software where that fails, is
//! the caller's part.
use crate::frame::{
    black_frame,
    frame_fits,
    frame_len,
    generate_black_frame,
    generate_empty_frame,
    stall_frame,
};
use vstd::prelude::*;

verus! {

/// Why a decode could not start.
#[derive(Debug, Clone, Copy, PartialEq, Eq, Structural)]
pub enum DecodeError {
    /// The output width or height is zero, or a frame of that size does not
    /// fit in memory.
    InvalidOutputSize,
}

impl DecodeError {
    /// The error as a message.
    pub fn message(&self) -> (r: &'static str) {
        match self {
            DecodeError::InvalidOutputSize => "invalid output size",
        }
    }
}

/// Bytes per RGBA frame of the output size, or the reason there is no such frame.
pub fn rgba_frame_size(width: u32, height: u32) -> (r: Result<usize, DecodeError>)
    ensures
        match r {
            Ok(n) => width > 0 && height > 0 && frame_fits(width, height) && n == frame_len(
                width,
                height,
            ),
            Err(e) => e == DecodeError::InvalidOutputSize && (width == 0 || height == 0
                || !frame_fits(width, height)),
        },
{
    if width == 0 || height == 0 {
        return Err(DecodeError::InvalidOutputSize);
    }
    let pixels = (width as usize).checked_mul(height as usize);
    match pixels {
        Some(p) => match p.checked_mul(4) {
            Some(n) => {
                assert(n == frame_len(width, height)) by (nonlinear_arith)
                    requires
                        n == p * 4,
                        p == width * height,
                ;
                Ok(n)
            },
            None => {
                assert(!frame_fits(width, height)) by (nonlinear_arith)
                    requires
                        p * 4 > usize::MAX,
                        p == width * height,
                ;
                Err(DecodeError::InvalidOutputSize)
            },
        },
        None => {
            assert(!frame_fits(width, height)) by (nonlinear_arith)
                requires
                    width * height > usize::MAX,
            ;
            Err(DecodeError::InvalidOutputSize)
        },
    }
}

/// Number of whole frames of `frame_size` bytes in `len` bytes, capped at `cap`.
pub open spec fn whole_frames(len: int, frame_size: int, cap: int) -> int {
    if len / frame_size < cap {
        len / frame_size
    } else {
        cap
    }
}

/// Cuts the raw output of a decode of frames `start_frame..=end_frame` into
/// frames of `frame_size` bytes. A trailing partial frame is dropped, and so
/// is every frame past the `end_frame - start_frame + 1` that were asked for.
pub fn split_rgba_frames(output: &Vec<u8>, frame_size: usize, start_frame: usize, end_frame: usize) -> (r:
    Vec<Vec<u8>>)
    requires
        frame_size > 0,
        start_frame <= end_frame,
    ensures
        r@.len() == whole_frames(
            output@.len() as int,
            frame_size as int,
            end_frame - start_frame + 1,
        ),
        forall|k: int|
            0 <= k < r@.len() ==> #[trigger] r@[k]@ == output@.subrange(
                k * frame_size,
                (k + 1) * frame_size,
            ),
{
    let span: usize = end_frame - start_frame;
    let max_frames: usize = if span < usize::MAX {
        span + 1
    } else {
        span
    };
    let count: usize = if output.len() / frame_size < max_frames {
        output.len() / frame_size
    } else {
        max_frames
    };
    let total: usize = output.len();
    let mut frames: Vec<Vec<u8>> = Vec::new();
    let mut k: usize = 0;
    while k < count
        invariant
            k <= count,
            frame_size > 0,
            total == output@.len(),
            count <= output@.len() as int / frame_size as int,
            frames@.len() == k,
            forall|m: int|
                0 <= m < k ==> #[trigger] frames@[m]@ == output@.subrange(
                    m * frame_size,
                    (m + 1) * frame_size,
                ),
        decreases count - k,
    {
        assert((k + 1) * frame_size <= output@.len()) by (nonlinear_arith)
            requires
                k < count,
                count <= output@.len() as int / frame_size as int,
                frame_size > 0,
        ;
        assert(k * frame_size + frame_size == (k + 1) * frame_size) by (nonlinear_arith);
        let base: usize = k * frame_size;
        let mut frame: Vec<u8> = Vec::with_capacity(frame_size);
        let mut b: usize = 0;
        while b < frame_size
            invariant
                b <= frame_size,
                total == output@.len(),
                base == k * frame_size,
                base + frame_size <= output@.len(),
                frame@ == output@.subrange(base as int, base + b),
            decreases frame_size - b,
        {
            assert(base + b < output@.len());
            frame.push(output[base + b]);
            b = b + 1;
            assert(frame@ =~= output@.subrange(base as int, base + b));
        }
        assert(base + frame_size == (k + 1) * frame_size) by (nonlinear_arith)
            requires
                base == k * frame_size,
        ;
        frames.push(frame);
        k = k + 1;
    }
    frames
}

/// The frames of a window decode starting at `start_frame`, each with its
/// index: the `k`-th frame is frame `start_frame + k`.
pub open spec fn indexed_frames(start_frame: usize, frames: Seq<Vec<u8>>) -> Seq<(usize, Vec<u8>)> {
    Seq::new(frames.len(), |k: int| ((start_frame + k) as usize, frames[k]))
}

/// The frames of the window that starts at `start_frame`, each with its
/// index, from what the decode of that window gave (in hardware, or in
/// software where hardware failed). A decode that gave no frame gives the
/// stall placeholder at `start_frame`; a failed decode passes its error on.
pub fn extract_frame_window_hw_rgba(
    start_frame: usize,
    width: u32,
    height: u32,
    decoded: Result<Vec<Vec<u8>>, String>,
) -> (r: Result<Vec<(usize, Vec<u8>)>, String>)
    requires
        frame_fits(width, height),
        decoded is Ok ==> start_frame + decoded->Ok_0@.len() <= usize::MAX,
    ensures
        match decoded {
            Err(e) => r == Err::<Vec<(usize, Vec<u8>)>, String>(e),
            Ok(frames) => match r {
                Ok(pairs) => if frames@.len() == 0 {
                    pairs@.len() == 1 && pairs@[0].0 == start_frame && pairs@[0].1@ == stall_frame(
                        width,
                        height,
                    )
                } else {
                    pairs@ == indexed_frames(start_frame, frames@)
                },
                Err(_) => false,
            },
        },
{
    match decoded {
        Err(e) => Err(e),
        Ok(frames) => {
            if frames.len() == 0 {
                let mut pairs: Vec<(usize, Vec<u8>)> = Vec::new();
                pairs.push((start_frame, generate_empty_frame(width, height)));
                return Ok(pairs);
            }
            let ghost all = frames@;
            let mut rest = frames;
            let mut pairs: Vec<(usize, Vec<u8>)> = Vec::with_capacity(rest.len());
            while rest.len() > 0
                invariant
                    start_frame + all.len() <= usize::MAX,
                    pairs@.len() + rest@.len() == all.len(),
                    pairs@ == indexed_frames(start_frame, all.subrange(0, pairs@.len() as int)),
                    rest@ == all.subrange(pairs@.len() as int, all.len() as int),
                decreases rest@.len(),
            {
                let index: usize = start_frame + pairs.len();
                let frame = rest.remove(0);
                pairs.push((index, frame));
                assert(pairs@ =~= indexed_frames(start_frame, all.subrange(0, pairs@.len() as int)));
                assert(rest@ =~= all.subrange(pairs@.len() as int, all.len() as int));
            }
            assert(all.subrange(0, all.len() as int) =~= all);
            Ok(pairs)
        },
    }
}

/// The first frame of a window decode, for a request of one frame; the
/// stall placeholder where the window has none. A failed decode passes its
/// error on.
pub fn extract_frame_hw_rgba(width: u32, height: u32, window: Result<Vec<(usize, Vec<u8>)>, String>) -> (r:
    Result<Vec<u8>, String>)
    requires
        frame_fits(width, height),
    ensures
        match window {
            Err(e) => r == Err::<Vec<u8>, String>(e),
            Ok(pairs) => match r {
                Ok(frame) => if pairs@.len() > 0 {
                    frame == pairs@[0].1
                } else {
                    frame@ == stall_frame(width, height)
                },
                Err(_) => false,
            },
        },
{
    match window {
        Err(e) => Err(e),
        Ok(mut pairs) => {
            if pairs.len() > 0 {
                let (_, frame) = pairs.swap_remove(0);
                Ok(frame)
            } else {
                Ok(generate_empty_frame(width, height))
            }
        },
    }
}

/// The first frame of a software decode, for a request of one frame; an
/// opaque black frame where the decode gave none. A failed decode passes
/// its error on.
pub fn extract_frame_sw_rgba(width: u32, height: u32, decoded: Result<Vec<Vec<u8>>, String>) -> (r:
    Result<Vec<u8>, String>)
    requires
        frame_fits(width, height),
    ensures
        match decoded {
            Err(e) => r == Err::<Vec<u8>, String>(e),
            Ok(frames) => match r {
                Ok(frame) => if frames@.len() > 0 {
                    frame == frames@[0]
                } else {
                    frame@ == black_frame(width, height)
                },
                Err(_) => false,
            },
        },
{
    match decoded {
        Err(e) => Err(e),
        Ok(mut frames) => {
            if frames.len() > 0 {
                Ok(frames.swap_remove(0))
            } else {
                Ok(generate_black_frame(width, height))
            }
        },
    }
}

} // verus!
